use assetcache::macho::{
    image_size, import_writes, is_multi_arch, plan_emulator_image, plan_image, read_layout, segments_in_file,
    ImportInfo, LoadError, MachLayout, MachoLoader, PointerWrite, SegmentInfo, IMAGE_BASE,
};
use assetcache::patch::emulator::register_fn;

fn seg(vmaddr: u64, fileoff: u64, filesize: u64) -> SegmentInfo {
    SegmentInfo { vmaddr, fileoff, filesize }
}

fn import(name: &str, is_lazy: bool, address: u64, addend: i64) -> ImportInfo {
    ImportInfo { dylib: "/usr/lib/libSystem.B.dylib".to_string(), name: name.to_string(), is_lazy, address, addend }
}

/// A 64-bit x86 executable with the given segments and no imports.
fn macho_with_segments(segs: &[(u64, u64, u64)], total: usize) -> Vec<u8> {
    let mut f = Vec::new();
    let push32 = |f: &mut Vec<u8>, v: u32| f.extend_from_slice(&v.to_le_bytes());
    push32(&mut f, 0xfeedfacf);
    push32(&mut f, 0x0100_0007);
    push32(&mut f, 3);
    push32(&mut f, 2);
    push32(&mut f, segs.len() as u32);
    push32(&mut f, 72 * segs.len() as u32);
    push32(&mut f, 0);
    push32(&mut f, 0);
    for (i, (vmaddr, fileoff, filesize)) in segs.iter().enumerate() {
        push32(&mut f, 0x19);
        push32(&mut f, 72);
        let mut name = [0u8; 16];
        name[0] = b'S';
        name[1] = b'0' + i as u8;
        f.extend_from_slice(&name);
        f.extend_from_slice(&vmaddr.to_le_bytes());
        f.extend_from_slice(&filesize.to_le_bytes());
        f.extend_from_slice(&fileoff.to_le_bytes());
        f.extend_from_slice(&filesize.to_le_bytes());
        push32(&mut f, 7);
        push32(&mut f, 5);
        push32(&mut f, 0);
        push32(&mut f, 0);
    }
    f.resize(total, 0);
    f
}

#[test]
fn image_size_is_highest_segment_end() {
    let segs = vec![seg(0, 0, 0), seg(IMAGE_BASE, 0, 0x4000), seg(IMAGE_BASE + 0x4000, 0x4000, 0x1000)];
    assert_eq!(image_size(IMAGE_BASE, &segs).unwrap(), 0x5000);
    // segments without file bytes do not count
    let segs = vec![seg(IMAGE_BASE, 0, 0x1000), seg(IMAGE_BASE + 0x100000, 0, 0)];
    assert_eq!(image_size(IMAGE_BASE, &segs).unwrap(), 0x1000);
    // nothing at all
    assert_eq!(image_size(IMAGE_BASE, &vec![]).unwrap(), 0);
}

#[test]
fn segment_end_overflow_is_refused() {
    let segs = vec![seg(u64::MAX - 1, 0, 2)];
    assert!(matches!(image_size(IMAGE_BASE, &segs), Err(LoadError::AddressOverflow)));
}

#[test]
fn segments_must_lie_in_file() {
    let segs = vec![seg(IMAGE_BASE, 0x10, 0x10)];
    assert!(segments_in_file(0x20, &segs));
    assert!(!segments_in_file(0x1f, &segs));
    assert!(!segments_in_file(0x10, &vec![seg(0, u64::MAX, 2)]));
}

#[test]
fn imports_receive_symbol_plus_addend() {
    let imps = vec![import("_malloc", false, IMAGE_BASE + 0x8000, 0), import("_free", true, IMAGE_BASE + 0x8008, 0), import("_x", false, IMAGE_BASE + 0x8010, -16)];
    let w = import_writes(&imps, &vec![0x2_0000_0004, 0x2_0000_0008, 0x10]);
    assert_eq!(w, vec![
        Some(PointerWrite { address: IMAGE_BASE + 0x8000, value: 0x2_0000_0004 }),
        None,
        Some(PointerWrite { address: IMAGE_BASE + 0x8010, value: 0 }),
    ]);
    // negative results wrap around
    let w = import_writes(&vec![import("_y", false, 0, -1)], &vec![0]);
    assert_eq!(w, vec![Some(PointerWrite { address: 0, value: u64::MAX })]);
}

#[test]
fn plan_from_layout() {
    let layout = MachLayout {
        segments: vec![seg(IMAGE_BASE, 0, 0x100)],
        imports: vec![import("_malloc", false, IMAGE_BASE + 0x10, 8)],
    };
    let plan = plan_image(0x100, layout, &vec![0x2_0000_0004]).unwrap();
    assert_eq!(plan.image_base, IMAGE_BASE);
    assert_eq!(plan.image_size, 0x100);
    assert_eq!(plan.segments, vec![seg(IMAGE_BASE, 0, 0x100)]);
    assert_eq!(plan.pointers, vec![Some(PointerWrite { address: IMAGE_BASE + 0x10, value: 0x2_0000_000c })]);
}

#[test]
fn plan_refuses_bad_segments() {
    let layout = MachLayout { segments: vec![seg(IMAGE_BASE, 0, 0x200)], imports: vec![] };
    assert!(matches!(plan_image(0x100, layout, &vec![]), Err(LoadError::SegmentOutsideFile)));
    let layout = MachLayout { segments: vec![seg(u64::MAX, 0, 1)], imports: vec![] };
    assert!(matches!(plan_image(0x100, layout, &vec![]), Err(LoadError::AddressOverflow)));
}

#[test]
fn reads_a_mach_o_file() {
    let file = macho_with_segments(&[(0, 0, 0), (IMAGE_BASE, 0, 0x200)], 0x200);
    let layout = read_layout(&file).unwrap();
    assert_eq!(layout.segments, vec![seg(0, 0, 0), seg(IMAGE_BASE, 0, 0x200)]);
    assert!(layout.imports.is_empty());
    let plan = plan_emulator_image(&file).unwrap();
    assert_eq!(plan.image_size, 0x200);
    assert_eq!(plan.segments.len(), 2);
    assert!(plan.pointers.is_empty());
}

#[test]
fn segment_past_file_end_in_a_file() {
    // the parser itself already refuses such a file
    let file = macho_with_segments(&[(IMAGE_BASE, 0, 0x400)], 0x200);
    assert!(plan_emulator_image(&file).is_err());
}

#[test]
fn refuses_garbage_and_fat_files() {
    assert!(matches!(read_layout(&[1, 2, 3]), Err(LoadError::Malformed(_))));
    assert!(matches!(plan_emulator_image(&[0u8; 64]), Err(LoadError::Malformed(_))));
    let mut fat = vec![0xca, 0xfe, 0xba, 0xbe];
    fat.extend_from_slice(&[0, 0, 0, 0]);
    fat.resize(64, 0);
    assert!(is_multi_arch(&fat));
    assert!(!is_multi_arch(&fat[..7]));
    assert!(matches!(read_layout(&fat[..7]), Err(LoadError::Malformed(_))));
    assert!(!is_multi_arch(&[0u8; 64]));
}

#[test]
fn emulator_resolution_uses_emulator_bindings() {
    let imps = vec![import("_malloc", false, 0, 0), import("___stack_chk_guard", false, 0, 0)];
    let r = assetcache::macho::resolve_for_emulator(&imps);
    assert_eq!(r, vec![register_fn("", "_malloc"), register_fn("", "___stack_chk_guard")]);
}

#[test]
fn offsets_move_by_load_distance() {
    let emu = MachoLoader::emulated();
    assert_eq!(emu.get_offset(0x1000d2f30), 0x1000d2f30);
    let native = MachoLoader::native(0x7f00_0000_0000);
    assert_eq!(native.get_offset(IMAGE_BASE + 0x10), 0x7f00_0000_0010);
    assert_eq!(native.get_offset(0x1000d2f30), 0x7f00_000d_2f30);
    assert_eq!(MachoLoader::unmapped().get_offset(0x1234), 0);
    // a base below the image base wraps around
    let low = MachoLoader::native(0x1000);
    assert_eq!(low.get_offset(IMAGE_BASE), 0x1000);
}

#[test]
fn relocated_words_point_into_the_loaded_image() {
    let native = MachoLoader::native(0x7f00_0000_0000);
    // an image address becomes its place in memory
    let w = IMAGE_BASE + 0x1234;
    assert_eq!(native.relocated_word(w), native.get_offset(w));
    // an offset is added to the load base
    assert_eq!(native.relocated_word(0x40), 0x7f00_0000_0040);
    assert_eq!(native.relocated_word(IMAGE_BASE), 0x7f01_0000_0000);
    assert_eq!(native.reloc_address(0x1234), 0x7f00_0000_1234);
}

#[test]
fn relocation_table_is_decoded() {
    let native = MachoLoader::native(0x7f00_0000_0000);
    let table = bincode::encode_to_vec(vec![0x10usize, 0x20], bincode::config::standard()).unwrap();
    assert_eq!(native.reloc_addresses(&table), Ok(vec![0x7f00_0000_0010, 0x7f00_0000_0020]));
    assert!(native.reloc_addresses(&[0xff]).is_err());
}

#[test]
fn plan_image_holds_every_segment() {
    let layout = MachLayout {
        segments: vec![seg(0, 0, 0), seg(IMAGE_BASE, 0, 0x1000), seg(IMAGE_BASE + 0x3000, 0x1000, 0x800)],
        imports: vec![],
    };
    let plan = plan_image(0x1800, layout, &vec![]).unwrap();
    assert_eq!(plan.image_size, 0x3800);
    for s in plan.segments.iter().filter(|s| s.filesize != 0) {
        assert!(s.vmaddr + s.filesize <= plan.image_base + plan.image_size);
    }
}

#[test]
fn relocation_table_with_an_oversized_count_is_refused() {
    let native = MachoLoader::native(0x7f00_0000_0000);
    let table = [253u8, 0, 0, 0, 0, 0, 0, 0, 0x40];
    assert!(native.reloc_addresses(&table).is_err());
    // a count that fits but whose elements are missing is the decoder's error
    assert!(native.reloc_addresses(&[3u8, 1]).is_err());
    // an empty table
    assert_eq!(native.reloc_addresses(&[0u8]), Ok(vec![]));
    assert!(native.reloc_addresses(&[]).is_err());
}
