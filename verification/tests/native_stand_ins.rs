use assetcache::hexcodec::hex_decode;
use assetcache::mac_serial::MacSerial;
use assetcache::patch::native::{
    cf_data_get_bytes, cf_get_length, cf_get_type_id, cf_string_get_cstring, io_reg,
    register_fn, sysctlbyname, patch_data, CFRange, NativeHook, SysctlAnswer, CFSTR_TAG,
    CF_TYPE_DATA, CF_TYPE_STRING, PATCH_TAG, PATCH_TAG2,
};

fn identity() -> MacSerial {
    let mut c = MacSerial::new();
    c.osversion = "19A583".to_string();
    c.osrevision = 7;
    c.board_id = "Mac-1".to_string();
    c.serial_number = "C02XX".to_string();
    c.mac_address = "000c298f2fd6".to_string();
    c.gq_serial = "AB12".to_string();
    let mut s = MacSerial::new();
    s.copy_from_str(c);
    s
}

#[test]
fn native_bindings() {
    assert_eq!(register_fn("", "_malloc"), NativeHook::Malloc);
    assert_eq!(register_fn("", "____chkstk_darwin"), NativeHook::Null);
    assert_eq!(register_fn("", "_kCFAllocatorDefault"), NativeHook::KAlloc);
    assert_eq!(register_fn("", "_kCFAllocatorNull"), NativeHook::KNull);
    assert_eq!(register_fn("", "_CFDataGetLength"), NativeHook::GetLength);
    assert_eq!(register_fn("", "_CFStringGetLength"), NativeHook::GetLength);
    assert_eq!(register_fn("", "___CFConstantStringClassReference"), NativeHook::CfStrTag);
    assert_eq!(register_fn("", "_nothing"), NativeHook::NotImplement);
}

#[test]
fn value_kinds_and_lengths() {
    let s = patch_data::new_str(b"abc".to_vec());
    let d = patch_data::new_data(b"0a0b0c0d".to_vec());
    let k = patch_data::cf_constant(b"board-id".to_vec());
    let u = patch_data { tag: 5, data: b"zz".to_vec() };
    assert_eq!((s.tag, d.tag, k.tag), (PATCH_TAG, PATCH_TAG2, CFSTR_TAG));
    assert!(s.is_patch() && d.is_patch() && !k.is_patch() && !u.is_patch());
    assert!(s.is_str() && !d.is_str() && k.is_str());
    assert_eq!(s.get_len(), Some(3));
    assert_eq!(d.get_len(), Some(4));
    assert_eq!(k.get_len(), Some(8));
    assert_eq!(u.get_len(), None);
    assert_eq!(k.get_from_cf().map(|v| v.clone()), Some(b"board-id".to_vec()));
    assert!(s.get_from_cf().is_none());
    assert!(u.get_ptr().is_none());
    assert_eq!(cf_get_type_id(&s), CF_TYPE_STRING);
    assert_eq!(cf_get_type_id(&d), CF_TYPE_DATA);
    assert_eq!(cf_get_length(&d), Some(4));
    assert_eq!(cf_get_length(&u), None);
}

#[test]
fn c_string_copies() {
    let s = patch_data::new_str(b"abc".to_vec());
    assert_eq!(cf_string_get_cstring(&s), Some(b"abc\0".to_vec()));
    // a data value copies half its hex text
    let d = patch_data::new_data(b"0a0b".to_vec());
    assert_eq!(cf_string_get_cstring(&d), Some(b"0a\0".to_vec()));
}

#[test]
fn data_bytes_by_range() {
    let d = patch_data::new_data(b"0a0b0c0d".to_vec());
    assert_eq!(cf_data_get_bytes(&d, CFRange { location: 1, length: 2 }), Some(vec![0x0b, 0x0c]));
    assert_eq!(cf_data_get_bytes(&d, CFRange { location: 0, length: 4 }), Some(vec![10, 11, 12, 13]));
    assert_eq!(cf_data_get_bytes(&d, CFRange { location: 3, length: 2 }), None);
    assert_eq!(cf_data_get_bytes(&d, CFRange { location: -1, length: 1 }), None);
    let bad = patch_data::new_data(b"0g".to_vec());
    assert_eq!(cf_data_get_bytes(&bad, CFRange { location: 0, length: 1 }), None);
}

#[test]
fn identity_properties() {
    let s = identity();
    let p = io_reg(&s, "board-id").unwrap();
    assert_eq!(p.tag, PATCH_TAG2);
    assert_eq!(p.data, b"4d61632d3100".to_vec());
    let p = io_reg(&s, "IOPlatformSerialNumber").unwrap();
    assert_eq!(p.tag, PATCH_TAG);
    assert_eq!(p.data, b"C02XX".to_vec());
    assert!(io_reg(&s, "none").is_none());
}

#[test]
fn hex_property_reads_back_as_configured() {
    let s = identity();
    let p = io_reg(&s, "board-id").unwrap();
    let n = p.get_len().unwrap() as isize;
    assert_eq!(cf_data_get_bytes(&p, CFRange { location: 0, length: n }), Some(b"Mac-1\0".to_vec()));
    let p = io_reg(&s, "Gq3489ugfi").unwrap();
    assert_eq!(p.data, b"ab12".to_vec());
    assert_eq!(hex_decode(&p.data), Ok(vec![0xab, 0x12]));
}

#[test]
fn sysctl_answers() {
    let s = identity();
    match sysctlbyname(&s, "kern.osversion") {
        SysctlAnswer::OsVersion(v) => assert_eq!(v, b"19A583\0".to_vec()),
        _ => panic!("expected the version"),
    }
    assert!(matches!(sysctlbyname(&s, "kern.osrevision"), SysctlAnswer::OsRevision(7)));
    assert!(matches!(sysctlbyname(&s, "hw.model"), SysctlAnswer::Nothing));
}

#[test]
fn text_property_stops_at_an_embedded_nul() {
    let mut c = MacSerial::new();
    c.uuid = "AB\0CD".to_string();
    c.serial_number = "VM\u{e9}1".to_string();
    let mut s = MacSerial::new();
    s.copy_from_str(c);
    assert_eq!(io_reg(&s, "IOPlatformUUID").unwrap().data, b"AB".to_vec());
    assert_eq!(io_reg(&s, "IOPlatformSerialNumber").unwrap().data, "VM\u{e9}1".as_bytes().to_vec());
}
