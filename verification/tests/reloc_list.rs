use assetcache::macho::MachoLoader;
use assetcache::reloc_table::{build_reloc_table, parse_reloc_line, parse_reloc_lines, RelocTableError};

fn lines(v: &[&str]) -> Vec<String> {
    v.iter().map(|s| s.to_string()).collect()
}

#[test]
fn line_with_prefix_and_white_space() {
    assert_eq!(parse_reloc_line("  0x1a2b\t"), Some(0x1a2b));
    assert_eq!(parse_reloc_line("0x0x10"), Some(0x10));
    assert_eq!(parse_reloc_line("DEADbeef"), Some(0xdead_beef));
    assert_eq!(parse_reloc_line("+ff"), Some(0xff));
    assert_eq!(parse_reloc_line("\u{3000}0x7\u{a0}"), Some(7));
}

#[test]
fn line_refusals() {
    assert_eq!(parse_reloc_line(""), None);
    assert_eq!(parse_reloc_line("   "), None);
    assert_eq!(parse_reloc_line("0x"), None);
    assert_eq!(parse_reloc_line("+"), None);
    assert_eq!(parse_reloc_line("-1"), None);
    assert_eq!(parse_reloc_line("0X10"), None);
    assert_eq!(parse_reloc_line("12 34"), None);
    assert_eq!(parse_reloc_line("g"), None);
}

#[test]
fn line_at_the_width_limit() {
    assert_eq!(parse_reloc_line("ffffffffffffffff"), Some(u64::MAX));
    assert_eq!(parse_reloc_line("10000000000000000"), None);
    assert_eq!(parse_reloc_line("0000000000000000000001"), Some(1));
}

#[test]
fn lines_report_first_bad_index() {
    assert_eq!(parse_reloc_lines(&lines(&["0x10", "0x20"])), Ok(vec![0x10, 0x20]));
    assert_eq!(parse_reloc_lines(&lines(&["0x10", "oops", "zz"])), Err(1));
    assert_eq!(parse_reloc_lines(&lines(&[])), Ok(vec![]));
}

#[test]
fn table_matches_bincode() {
    let t = build_reloc_table(&lines(&["0x10", " 0xd2f30 "])).unwrap();
    let direct = bincode::encode_to_vec(&vec![0x10usize, 0xd2f30usize], bincode::config::standard()).unwrap();
    assert_eq!(t, direct);
    assert!(matches!(build_reloc_table(&lines(&["0x10", "x"])), Err(RelocTableError::BadLine(1))));
}

#[test]
fn table_read_back_by_loader() {
    let t = build_reloc_table(&lines(&["0x10", "0x20"])).unwrap();
    let native = MachoLoader::native(0x7f00_0000_0000);
    assert_eq!(native.reloc_addresses(&t), Ok(vec![0x7f00_0000_0010, 0x7f00_0000_0020]));
}
