use capla_extractor::chars::{contains_str, trim};
use capla_extractor::export::{export_name_for, format_sig_short, select_all_with_prefix};
use capla_extractor::grammar::parse_b_file;

#[test]
fn export_names_with_and_without_prefix() {
    assert_eq!(export_name_for("certirocq_", "modular_exp"), "certirocq_modular_exp");
    assert_eq!(export_name_for("", "modular_exp"), "modular_exp");
}

#[test]
fn select_all_prefixes_every_function() {
    let sigs = parse_b_file("fun a(x: u64) -> u64\nfun b(y: f64) -> f64");
    let sel = select_all_with_prefix(sigs, "p_");
    assert_eq!(sel.len(), 2);
    assert_eq!(sel[0].export_name, "p_a");
    assert_eq!(sel[1].export_name, "p_b");
    assert_eq!(sel[1].sig.name, "b");
}

#[test]
fn short_signature_text() {
    let sigs = parse_b_file(
        "fun sha256(len: u64, input: [u8; len], output: mut [u8; 32])\nfun modular_exp(base exponent: u64) -> u64",
    );
    assert_eq!(
        format_sig_short(&sigs[0]),
        "fun sha256(len: U64, input: [u8; len], output: mut [u8; 32])"
    );
    assert_eq!(format_sig_short(&sigs[1]), "fun modular_exp(base: U64, exponent: U64) -> U64");
    let none = parse_b_file("fun k() -> i64");
    assert_eq!(format_sig_short(&none[0]), "fun k() -> I64");
}

#[test]
fn trimming() {
    assert_eq!(trim(&"  abc \t\n".to_string()), "abc");
    assert_eq!(trim(&"   ".to_string()), "");
    assert_eq!(trim(&"a b".to_string()), "a b");
    assert_eq!(trim(&"\u{3000}x\u{a0}".to_string()), "x");
}

#[test]
fn substring_search() {
    assert!(contains_str("Write error: x", "Error") == false);
    assert!(contains_str("Error reading", "Error"));
    assert!(contains_str("abc", ""));
    assert!(!contains_str("ab", "abc"));
}
