use assetcache::macho::{plan_emulator_image, read_layout, LoadError, IMAGE_BASE};
use assetcache::macho_check::parser_can_read;

fn push32(f: &mut Vec<u8>, v: u32) {
    f.extend_from_slice(&v.to_le_bytes());
}

fn push64(f: &mut Vec<u8>, v: u64) {
    f.extend_from_slice(&v.to_le_bytes());
}

fn segment(f: &mut Vec<u8>, name: &[u8], vmaddr: u64, fileoff: u64, filesize: u64) {
    push32(f, 0x19);
    push32(f, 72);
    let mut n = [0u8; 16];
    n[..name.len()].copy_from_slice(name);
    f.extend_from_slice(&n);
    push64(f, vmaddr);
    push64(f, filesize);
    push64(f, fileoff);
    push64(f, filesize);
    push32(f, 7);
    push32(f, 5);
    push32(f, 0);
    push32(f, 0);
}

/// A 64-bit file with one segment and the given bind opcodes (at 0x100).
fn with_binds(opcodes: &[u8]) -> Vec<u8> {
    let mut f = Vec::new();
    push32(&mut f, 0xfeedfacf);
    push32(&mut f, 0x0100_0007);
    push32(&mut f, 3);
    push32(&mut f, 2);
    push32(&mut f, 2);
    push32(&mut f, 72 + 48);
    push32(&mut f, 0);
    push32(&mut f, 0);
    segment(&mut f, b"__DATA", IMAGE_BASE, 0, 0x200);
    // dyld info: only the bind range is set
    push32(&mut f, 0x8000_0022);
    push32(&mut f, 48);
    push32(&mut f, 0);
    push32(&mut f, 0);
    push32(&mut f, 0x100);
    push32(&mut f, opcodes.len() as u32);
    for _ in 0..6 {
        push32(&mut f, 0);
    }
    f.resize(0x100, 0);
    f.extend_from_slice(opcodes);
    f.resize(0x200, 0);
    f
}

#[test]
fn well_formed_binds_are_read() {
    // segment 0 at offset 8, library 0 (the image itself), symbol "_ab", bind
    let file = with_binds(&[0x70, 0x08, 0x10, 0x40, b'_', b'a', b'b', 0, 0x90, 0x00]);
    assert!(parser_can_read(&file));
    let layout = read_layout(&file).unwrap();
    assert_eq!(layout.imports.len(), 1);
    assert_eq!(layout.imports[0].name, "_ab");
    assert_eq!(layout.imports[0].address, IMAGE_BASE + 8);
    assert!(!layout.imports[0].is_lazy);
}

#[test]
fn bind_to_a_missing_segment_is_refused() {
    let file = with_binds(&[0x75, 0x00, 0x40, b'x', 0, 0x90]);
    assert!(!parser_can_read(&file));
    assert!(matches!(read_layout(&file), Err(LoadError::Unreadable)));
    assert!(matches!(plan_emulator_image(&file), Err(LoadError::Unreadable)));
}

#[test]
fn bind_to_a_missing_library_is_refused() {
    let file = with_binds(&[0x70, 0x00, 0x13, 0x90]);
    assert!(!parser_can_read(&file));
    assert!(matches!(read_layout(&file), Err(LoadError::Unreadable)));
}

#[test]
fn oversized_repeat_is_refused() {
    // bind 2^40 times
    let file = with_binds(&[0x70, 0x00, 0xc0, 0x80, 0x80, 0x80, 0x80, 0x80, 0x20, 0x00]);
    assert!(!parser_can_read(&file));
}

#[test]
fn truncated_opcodes_are_left_to_the_parser() {
    // a number that runs past the end of the opcode range
    let file = with_binds(&[0x70, 0x80]);
    assert!(parser_can_read(&file));
    assert!(matches!(read_layout(&file), Err(LoadError::Malformed(_)) | Ok(_)));
}

#[test]
fn entry_point_below_its_segment_is_refused() {
    let mut f = Vec::new();
    push32(&mut f, 0xfeedfacf);
    push32(&mut f, 0x0100_0007);
    push32(&mut f, 3);
    push32(&mut f, 2);
    push32(&mut f, 2);
    push32(&mut f, 72 + 24);
    push32(&mut f, 0);
    push32(&mut f, 0);
    segment(&mut f, b"__TEXT", 0, 0x100, 0x100);
    push32(&mut f, 0x8000_0028);
    push32(&mut f, 24);
    push64(&mut f, 0);
    push64(&mut f, 0);
    f.resize(0x200, 0);
    assert!(!parser_can_read(&f));
    assert!(matches!(read_layout(&f), Err(LoadError::Unreadable)));
}

#[test]
fn other_files_are_left_to_the_parser() {
    assert!(parser_can_read(&[1, 2, 3]));
    assert!(parser_can_read(&[0u8; 64]));
    let mut fat = vec![0xca, 0xfe, 0xba, 0xbe];
    fat.resize(64, 0);
    assert!(parser_can_read(&fat));
    // a 32-bit file is not handed over
    let mut m32 = vec![0xce, 0xfa, 0xed, 0xfe];
    m32.resize(64, 0);
    assert!(!parser_can_read(&m32));
}
