use assetcache::init_serial;
use assetcache::mac_serial::MacSerial;
use assetcache::CacheError;

fn sample() -> MacSerial {
    let mut c = MacSerial::new();
    c.osversion = "19A583".to_string();
    c.osrevision = 199506;
    c.board_id = "Mac-1".to_string();
    c.product_name = "iMac".to_string();
    c.boot_uuid = "AB".to_string();
    c.serial_number = "C02XX".to_string();
    c.uuid = "UUID-1".to_string();
    c.mac_address = "000c298f2fd6".to_string();
    c.rom = "564d125c23f9".to_string();
    c.mlb = "MLB1".to_string();
    c.gq_serial = "AB12".to_string();
    c.fy_serial = "CD34".to_string();
    c.kb_serial = "Ef56".to_string();
    c.oy_serial = "aa".to_string();
    c.ab_serial = "BB".to_string();
    c
}

#[test]
fn zero_appends_nul() {
    assert_eq!(MacSerial::zero("abc".to_string()), "abc\0");
    assert_eq!(MacSerial::zero(String::new()), "\0");
}

#[test]
fn new_identity_is_empty() {
    let s = MacSerial::new();
    assert_eq!(s.osversion, "");
    assert_eq!(s.osrevision, 0);
    assert_eq!(s.ab_serial, "");
}

#[test]
fn identity_is_normalised() {
    let mut s = MacSerial::new();
    s.copy_from_str(sample());
    assert_eq!(s.osversion, "19A583\0");
    assert_eq!(s.osrevision, 199506);
    assert_eq!(s.board_id, "4d61632d3100\0");
    assert_eq!(s.product_name, "694d616300\0");
    assert_eq!(s.boot_uuid, "414200\0");
    assert_eq!(s.serial_number, "C02XX\0");
    assert_eq!(s.uuid, "UUID-1\0");
    assert_eq!(s.mac_address, "000c298f2fd6\0");
    assert_eq!(s.rom, "564d125c23f9\0");
    assert_eq!(s.mlb, "4d4c4231\0");
    assert_eq!(s.gq_serial, "ab12\0");
    assert_eq!(s.fy_serial, "cd34\0");
    assert_eq!(s.kb_serial, "ef56\0");
    assert_eq!(s.oy_serial, "aa\0");
    assert_eq!(s.ab_serial, "bb\0");
}

#[test]
fn init_serial_keeps_identity_or_reports() {
    let mut s = MacSerial::new();
    assert!(init_serial(&mut s, Ok(sample())).is_ok());
    assert_eq!(s.uuid, "UUID-1\0");
    let r = init_serial(&mut s, Err("missing field `rom`".to_string()));
    match r {
        Err(CacheError::HandleFailed(m)) => assert_eq!(m, "missing field `rom`"),
        Ok(()) => panic!("expected a failure"),
    }
    assert_eq!(s.uuid, "UUID-1\0");
}
