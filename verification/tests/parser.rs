use capla_extractor::grammar::{parse_b_file, parse_b_file_checked};
use capla_extractor::types::{CaplaType, MutStringLength, ValidatedParam, ValidatedReturn};

#[test]
fn parses_modular_exp() {
    let src = "fun modular_exp(base exponent modulus: u64) -> u64 {\n  return 0;\n}\n";
    let sigs = parse_b_file(src);
    assert_eq!(sigs.len(), 1);
    let s = &sigs[0];
    assert_eq!(s.name, "modular_exp");
    assert_eq!(s.original_params.len(), 3);
    assert_eq!(s.original_params[0].name, "base");
    assert_eq!(s.original_params[1].name, "exponent");
    assert_eq!(s.original_params[2].name, "modulus");
    assert_eq!(s.original_params[2].ty, CaplaType::U64);
    assert!(matches!(s.return_type, ValidatedReturn::Numeric(CaplaType::U64)));
    assert!(s.params.iter().all(|p| matches!(p, ValidatedParam::RocqParam(_))));
}

#[test]
fn parses_float_incr() {
    let src = "fun float_incr(x: f64) -> f64 {\n  return x + 1.0;\n}\n";
    let sigs = parse_b_file(src);
    assert_eq!(sigs.len(), 1);
    assert_eq!(sigs[0].name, "float_incr");
    assert_eq!(sigs[0].original_params[0].ty, CaplaType::F64);
    assert!(matches!(sigs[0].return_type, ValidatedReturn::Numeric(CaplaType::F64)));
}

#[test]
fn parses_sha256_signature() {
    let src = "fun sha256(len: u64, input: [u8; len], output: mut [u8; 32]) {\n  // body\n}\n";
    let sigs = parse_b_file(src);
    assert_eq!(sigs.len(), 1);
    let s = &sigs[0];
    assert_eq!(s.original_params.len(), 3);
    assert_eq!(s.original_params[1].ty, CaplaType::U8Array { len: "len".to_string() });
    assert_eq!(
        s.original_params[2].ty,
        CaplaType::MutU8Array(MutStringLength::FixedNumber(32))
    );
    assert!(matches!(
        &s.params[0],
        ValidatedParam::StringLengthParam { name, string_param_name } if name == "len" && string_param_name == "input"
    ));
    assert!(matches!(&s.params[1], ValidatedParam::RocqParam(p) if p.name == "input"));
    assert!(matches!(&s.params[2], ValidatedParam::StringOutputParam { name } if name == "output"));
    assert!(matches!(
        s.return_type,
        ValidatedReturn::StringReturn(MutStringLength::FixedNumber(32))
    ));
}

#[test]
fn several_functions_in_source_order() {
    let src = "// helpers\nfun a(x: u64) -> u64 { }\n\nfun b(y: i64) -> i64 { }\nfun c(z: f64) -> f64 {}";
    let sigs = parse_b_file(src);
    let names: Vec<&str> = sigs.iter().map(|s| s.name.as_str()).collect();
    assert_eq!(names, vec!["a", "b", "c"]);
}

#[test]
fn source_without_functions_gives_nothing() {
    assert!(parse_b_file("").is_empty());
    assert!(parse_b_file("let x = 3;\n").is_empty());
    assert!(parse_b_file("funny(x: u64) -> u64").is_empty());
}

#[test]
fn malformed_signature_is_skipped() {
    let src = "fun broken(x u64) -> u64\nfun good(x: u64) -> u64";
    let sigs = parse_b_file(src);
    assert_eq!(sigs.len(), 1);
    assert_eq!(sigs[0].name, "good");
}

#[test]
fn keyword_inside_a_word_is_still_a_keyword() {
    // "fun" followed by a non-identifier character starts a signature even
    // when it ends a longer word.
    let src = "myfun f(x: u64) -> u64";
    let sigs = parse_b_file(src);
    assert_eq!(sigs.len(), 1);
    assert_eq!(sigs[0].name, "f");
}

#[test]
fn padded_empty_parameter_list_is_rejected() {
    assert!(parse_b_file("fun f( ) -> u64").is_empty());
}

#[test]
fn empty_parameter_list_needs_a_return_type() {
    // Parsed, but without a string output it must declare a numeric return.
    assert!(parse_b_file("fun f()").is_empty());
    let sigs = parse_b_file("fun f() -> i64");
    assert_eq!(sigs.len(), 1);
    assert!(sigs[0].params.is_empty());
}

#[test]
fn trailing_comma_is_rejected() {
    assert!(parse_b_file("fun f(x: u64,) -> u64").is_empty());
}

#[test]
fn output_length_forms() {
    let named = parse_b_file("fun f(n: u64, out: mut [u8; n])");
    assert_eq!(named.len(), 1);
    assert!(matches!(&named[0].return_type, ValidatedReturn::StringReturn(MutStringLength::VarName(n)) if n == "n"));
    assert!(matches!(&named[0].params[0], ValidatedParam::RocqParam(_)));
    // Leading zeros are not a number; space before `]` is not allowed.
    assert!(parse_b_file("fun f(out: mut [u8; 04])").is_empty());
    assert!(parse_b_file("fun f(out: mut [u8; 4 ])").is_empty());
    let zero = parse_b_file("fun f(out: mut [ u8 ; 0])");
    assert_eq!(zero.len(), 1);
    assert!(matches!(zero[0].return_type, ValidatedReturn::StringReturn(MutStringLength::FixedNumber(0))));
}

#[test]
fn validation_rejections() {
    // Input string length must name a u64 parameter.
    assert!(parse_b_file("fun f(s: [u8; n]) -> u64").is_empty());
    assert!(parse_b_file("fun f(n: i64, s: [u8; n]) -> u64").is_empty());
    // Two input strings may not share a length.
    assert!(parse_b_file("fun f(n: u64, s: [u8; n], t: [u8; n]) -> u64").is_empty());
    // Output length by name must exist.
    assert!(parse_b_file("fun f(o: mut [u8; m])").is_empty());
    // At most one output.
    assert!(parse_b_file("fun f(o: mut [u8; 1], p: mut [u8; 2])").is_empty());
    // Output and numeric return together are not allowed.
    assert!(parse_b_file("fun f(o: mut [u8; 1]) -> u64").is_empty());
    // Arrays are no return type.
    assert!(parse_b_file("fun f(n: u64) -> [u8; n]").is_empty());
}

#[test]
fn overflowing_length_is_reported() {
    let src = "fun f(o: mut [u8; 99999999999999999999999])";
    assert!(parse_b_file_checked(src).is_none());
    let ok = parse_b_file_checked("fun f(o: mut [u8; 18446744073709551615])").unwrap();
    assert!(matches!(ok[0].return_type, ValidatedReturn::StringReturn(MutStringLength::FixedNumber(u64::MAX))));
    assert!(parse_b_file_checked("fun f(o: mut [u8; 18446744073709551616])").is_none());
}

#[test]
fn overflow_in_a_malformed_signature_is_still_reported() {
    // The length is read before the closing bracket is checked.
    assert!(parse_b_file_checked("fun f(o: mut [u8; 99999999999999999999999 ])").is_none());
}

#[test]
fn no_keyword_law_on_concrete_source() {
    let src = "funky function(x: u64) -> u64";
    assert_eq!(parse_b_file_checked(src).map(|v| v.len()), Some(0));
}

#[test]
fn unicode_white_space_pads_a_signature() {
    let src = "fun\u{3000}f(\u{a0}x\u{2009}:\u{85}u64)\u{2028}->\u{205f}u64";
    let sigs = parse_b_file(src);
    assert_eq!(sigs.len(), 1);
    assert_eq!(sigs[0].name, "f");
    assert_eq!(sigs[0].original_params[0].name, "x");
}
