use assetcache::emu::{
    align, alignb, c_str_prefix, c_string_from_buffer, c_string_is_utf8, emu_map_range, param_register,
    param_stack_address, u64_from_le, u64_from_le_at, u64_to_le, ArgRegister,
};

#[test]
fn align_rounds_up_to_page() {
    assert_eq!(align(1, 0x1000), 0x1000);
    assert_eq!(align(0x1000, 0x1000), 0x1000);
    assert_eq!(align(0x1001, 0x1000), 0x2000);
    assert_eq!(align(0x1_0000_0000, 0x1000), 0x1_0000_0000);
}

#[test]
fn alignb_rounds_down_to_page() {
    assert_eq!(alignb(0, 0x1000), 0);
    assert_eq!(alignb(0xfff, 0x1000), 0);
    assert_eq!(alignb(0x1fff, 0x1000), 0x1000);
    assert_eq!(alignb(0x2_0000_0000, 0x1000), 0x2_0000_0000);
}

#[test]
fn align_with_non_power_of_two_follows_the_mask_formula() {
    // ((10 - 1) & !(6 - 1)) + 6 = (9 & !5) + 6 = 8 + 6
    assert_eq!(align(10, 6), 14);
    assert_eq!(alignb(10, 6), 10 & !5);
}

#[test]
fn map_range_covers_request() {
    // the syscall stubs: 48 stubs of 4 bytes
    assert_eq!(emu_map_range(0x2_0000_0000, 192), (0x2_0000_0000, 0x1000));
    // an unaligned range that crosses a page boundary
    assert_eq!(emu_map_range(0x1ff8, 0x10), (0x1000, 0x2000));
    // an exact page
    assert_eq!(emu_map_range(0x3000, 0x1000), (0x3000, 0x1000));
    // the last range that can be mapped
    assert_eq!(emu_map_range(0xFFFF_FFFF_FFFF_E000, 0x1000), (0xFFFF_FFFF_FFFF_E000, 0x1000));
    assert_eq!(emu_map_range(0xFFFF_FFFF_FFFF_E800, 0x800), (0xFFFF_FFFF_FFFF_E000, 0x1000));
}

#[test]
fn words_are_little_endian() {
    let b = u64_to_le(0x0102030405060708);
    assert_eq!(b, vec![8, 7, 6, 5, 4, 3, 2, 1]);
    assert_eq!(u64_from_le(&b), 0x0102030405060708);
}

#[test]
fn word_written_reads_back() {
    for x in [0u64, 1, 0xff, 0x1234567812345678, u64::MAX, 0x2_0000_0000] {
        assert_eq!(u64_from_le(&u64_to_le(x)), x);
    }
}

#[test]
fn word_read_at_offset() {
    let mut buf = vec![0xaau8; 4];
    buf.extend(u64_to_le(0xdeadbeef));
    assert_eq!(u64_from_le_at(&buf, 4), 0xdeadbeef);
    // only the first eight bytes count
    let mut long = u64_to_le(7);
    long.push(9);
    assert_eq!(u64_from_le(&long), 7);
}

#[test]
fn arguments_in_registers_then_stack() {
    assert_eq!(param_register(0), Some(ArgRegister::Rdi));
    assert_eq!(param_register(1), Some(ArgRegister::Rsi));
    assert_eq!(param_register(2), Some(ArgRegister::Rdx));
    assert_eq!(param_register(3), Some(ArgRegister::Rcx));
    assert_eq!(param_register(4), Some(ArgRegister::R8));
    assert_eq!(param_register(5), Some(ArgRegister::R9));
    assert_eq!(param_register(6), None);
    assert_eq!(param_stack_address(6, 0x1000), 0x1008);
    assert_eq!(param_stack_address(8, 0x1000), 0x1018);
}

#[test]
fn c_string_stops_at_nul() {
    assert_eq!(c_str_prefix(b"abc\0def"), b"abc".to_vec());
    assert_eq!(c_str_prefix(b"\0"), Vec::<u8>::new());
    assert_eq!(c_str_prefix(b"no nul"), b"no nul".to_vec());
    assert_eq!(c_str_prefix(b""), Vec::<u8>::new());
}

#[test]
fn c_string_text() {
    let mut buf = b"board-id\0garbage".to_vec();
    buf.resize(1024, 0);
    assert!(c_string_is_utf8(&buf));
    assert_eq!(c_string_from_buffer(&buf), "board-id".to_string());
    assert!(!c_string_is_utf8(&[0xff, 0xfe, 0]));
    assert!(c_string_is_utf8(&[b'a', 0, 0xff]));
    assert_eq!(c_string_from_buffer(&[b'a', 0, 0xff]), "a".to_string());
    assert_eq!(c_string_from_buffer("héllo\0x".as_bytes()), "héllo".to_string());
}

#[test]
fn c_string_written_then_read_back() {
    let text = "h\u{e9}llo \u{1f600}";
    let mut buf = text.as_bytes().to_vec();
    buf.push(0);
    buf.extend_from_slice(b"rest of the window");
    buf.resize(1024, 0xff);
    assert!(c_string_is_utf8(&buf));
    assert_eq!(c_string_from_buffer(&buf), text.to_string());
}

#[test]
fn argument_places_are_distinct() {
    let regs: Vec<ArgRegister> = (0..6).map(|i| param_register(i).unwrap()).collect();
    for i in 0..6 {
        for j in 0..6 {
            if i != j {
                assert_ne!(regs[i], regs[j]);
            }
        }
    }
    assert_eq!(param_register(6), None);
    let rsp = 0x3_0002_fff0;
    assert_eq!(param_stack_address(6, rsp), rsp + 8);
    assert_eq!(param_stack_address(7, rsp), rsp + 16);
    assert_ne!(param_stack_address(6, rsp), param_stack_address(8, rsp));
}
