use barley::text::{decimal, ends_with, hex, same, starts_with, trim};

#[test]
fn decimal_writes_numbers_without_leading_zeros() {
    assert_eq!(decimal(0), "0");
    assert_eq!(decimal(7), "7");
    assert_eq!(decimal(10), "10");
    assert_eq!(decimal(20230101), "20230101");
    assert_eq!(decimal(18446744073709551615), "18446744073709551615");
    assert_eq!(decimal(u128::MAX), "340282366920938463463374607431768211455");
}

#[test]
fn hex_writes_lower_case_without_padding() {
    assert_eq!(hex(0), "0");
    assert_eq!(hex(255), "ff");
    assert_eq!(hex(0xdead_beef), "deadbeef");
    assert_eq!(hex(u128::MAX), "ffffffffffffffffffffffffffffffff");
    assert_eq!(hex(0x1_0000), format!("{:0x}", 0x1_0000u128));
}

#[test]
fn trim_takes_white_space_off_both_ends() {
    assert_eq!(trim("up\n"), "up");
    assert_eq!(trim("  \t up  down \r\n"), "up  down");
    assert_eq!(trim("\u{a0}x\u{2003}"), "x");
    assert_eq!(trim("   "), "");
    assert_eq!(trim(""), "");
    for s in ["a b", " \u{85}a", "\u{3000}\u{1680}z\u{205f}", "\u{200b}x"] {
        assert_eq!(trim(s), s.trim());
    }
}

#[test]
fn comparisons_of_texts() {
    assert!(same("größe", "größe"));
    assert!(!same("a", "b"));
    assert!(!same("a", "ab"));
    assert!(starts_with("ssh-ed25519 AAAA", "ssh-ed25519 "));
    assert!(!starts_with("ssh-rsa AAAA", "ssh-ed25519 "));
    assert!(starts_with("x", ""));
    assert!(ends_with("a.tar.zst", ".tar.zst"));
    assert!(!ends_with("tar.zst", ".tar.zst"));
}
