use aiueos::runtime::{sha256_hex, strip_shebang};
use aiueos::text::{decimal_string, str_less, to_hex_lower};

#[test]
fn sha256_hex_of_known_vectors() {
    assert_eq!(
        sha256_hex(b"abc"),
        "ba7816bf8f01cfea414140de5dae2223b00361a396177a9cb410ff61f20015ad"
    );
    assert_eq!(
        sha256_hex(b""),
        "e3b0c44298fc1c149afbf4c8996fb92427ae41e4649b934ca495991b7852b855"
    );
}

#[test]
fn sha256_hex_is_sixty_four_lower_hex_chars() {
    let h = sha256_hex(b"\0asm\x01\0\0\0");
    assert_eq!(h.len(), 64);
    assert!(h.chars().all(|c| c.is_ascii_hexdigit() && !c.is_ascii_uppercase()));
}

#[test]
fn hex_rendering_is_lower_case_high_nibble_first() {
    assert_eq!(to_hex_lower(&[0x00, 0x0f, 0xa5, 0xff]), "000fa5ff");
    assert_eq!(to_hex_lower(&[]), "");
}

#[test]
fn strip_shebang_drops_the_first_line() {
    assert_eq!(strip_shebang("#!/usr/bin/env kototama\n(defn main [n] n)"), "(defn main [n] n)");
    assert_eq!(strip_shebang("#!only a shebang"), "");
    assert_eq!(strip_shebang("#!\n\nx"), "\nx");
}

#[test]
fn strip_shebang_keeps_plain_source() {
    assert_eq!(strip_shebang("(defn main [n] n)"), "(defn main [n] n)");
    assert_eq!(strip_shebang(" #!not at start\nx"), " #!not at start\nx");
    assert_eq!(strip_shebang(""), "");
}

#[test]
fn decimal_rendering() {
    assert_eq!(decimal_string(0), "0");
    assert_eq!(decimal_string(7), "7");
    assert_eq!(decimal_string(1234567890), "1234567890");
}

#[test]
fn lexicographic_order() {
    assert!(str_less("a/y", "b/x"));
    assert!(!str_less("b/x", "a/y"));
    assert!(str_less("log", "log/write"));
    assert!(!str_less("same", "same"));
}
