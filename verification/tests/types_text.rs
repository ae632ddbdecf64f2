use capla_extractor::grammar::parse_b_file;
use capla_extractor::types::{
    CaplaType, FunctionSignature, MutStringLength, Param, ValidatedParam, ValidatedReturn,
};

fn arr(len: &str) -> CaplaType {
    CaplaType::U8Array { len: len.to_string() }
}

#[test]
fn c_types() {
    assert_eq!(CaplaType::U64.as_c_type(), "uint64_t");
    assert_eq!(CaplaType::I64.as_c_type(), "int64_t");
    assert_eq!(CaplaType::F64.as_c_type(), "double");
    assert_eq!(arr("n").as_c_type(), "const char*");
    assert_eq!(CaplaType::MutU8Array(MutStringLength::FixedNumber(3)).as_c_type(), "char* restrict");
}

#[test]
fn rocq_types() {
    assert_eq!(CaplaType::U64.as_rocq_type(), "native Rocq uint63");
    assert_eq!(CaplaType::I64.as_rocq_type(), "native Rocq int63");
    assert_eq!(CaplaType::F64.as_rocq_type(), "native Rocq float");
    assert_eq!(arr("n").as_rocq_type(), "native Rocq string");
    assert_eq!(
        CaplaType::MutU8Array(MutStringLength::VarName("n".to_string())).as_rocq_type(),
        "native Rocq string"
    );
    assert_eq!(
        CaplaType::MutU8Array(MutStringLength::FixedNumber(32)).as_rocq_type(),
        "native Rocq string of length 32"
    );
    assert_eq!(
        CaplaType::MutU8Array(MutStringLength::FixedNumber(0)).as_rocq_type(),
        "native Rocq string of length 0"
    );
}

#[test]
fn value_casts() {
    assert_eq!(CaplaType::U64.cast_to_val("r"), "Val_long(r)");
    assert_eq!(CaplaType::I64.cast_to_val("r"), "Val_long(r)");
    assert_eq!(CaplaType::F64.cast_to_val("r"), "mk_float(tinfo, r)");
    assert_eq!(CaplaType::U64.cast_from_val("x"), "Unsigned_long_val(x)");
    assert_eq!(CaplaType::I64.cast_from_val("x"), "Long_val(x)");
    assert_eq!(CaplaType::F64.cast_from_val("x"), "Double_val(x)");
    assert_eq!(arr("n").cast_from_val("x"), "((char*) x)");
    assert_eq!(
        CaplaType::MutU8Array(MutStringLength::FixedNumber(1)).cast_from_val("x"),
        "((char*) x)"
    );
}

#[test]
fn display_strings() {
    assert_eq!(CaplaType::U64.display_string(), "U64");
    assert_eq!(CaplaType::I64.display_string(), "I64");
    assert_eq!(CaplaType::F64.display_string(), "F64");
    assert_eq!(arr("len").display_string(), "[u8; len]");
    assert_eq!(
        CaplaType::MutU8Array(MutStringLength::FixedNumber(12345)).display_string(),
        "mut [u8; 12345]"
    );
    assert_eq!(MutStringLength::VarName("k".to_string()).display_string(), "k");
    assert_eq!(MutStringLength::FixedNumber(u64::MAX).display_string(), "18446744073709551615");
}

#[test]
fn capla_arguments() {
    let p = |name: &str, ty: CaplaType| ValidatedParam::RocqParam(Param { name: name.to_string(), ty });
    assert_eq!(p("a", CaplaType::U64).into_capla(), "Unsigned_long_val(a)");
    assert_eq!(p("a", CaplaType::I64).into_capla(), "Long_val(a)");
    assert_eq!(p("a", CaplaType::F64).into_capla(), "Double_val(a)");
    assert_eq!(p("s", arr("n")).into_capla(), "((char*) s)");
    let len = ValidatedParam::StringLengthParam { name: "n".to_string(), string_param_name: "s".to_string() };
    assert_eq!(len.into_capla(), "n");
    let out = ValidatedParam::StringOutputParam { name: "o".to_string() };
    assert_eq!(out.into_capla(), "o");
}

#[test]
fn validated_return_texts() {
    let num = ValidatedReturn::Numeric(CaplaType::F64);
    assert_eq!(num.as_rocq_type(), "native Rocq float");
    assert_eq!(num.as_c_type(), "double");
    assert_eq!(num.from_capla("f(x)"), "mk_float(tinfo, f(x))");
    let s = ValidatedReturn::StringReturn(MutStringLength::FixedNumber(32));
    assert_eq!(s.as_rocq_type(), "native Rocq string of length 32");
    assert_eq!(s.as_c_type(), "void");
    assert_eq!(s.from_capla("sha256(len, ((char*) input), output)"), "(sha256(len, ((char*) input), output), output)");
    let v = ValidatedReturn::StringReturn(MutStringLength::VarName("n".to_string()));
    assert_eq!(v.as_rocq_type(), "native Rocq string");
    assert_eq!(ValidatedReturn::Numeric(CaplaType::U64).from_capla("g()"), "Val_long(g())");
}

#[test]
fn previous_instructions_sha256() {
    let sigs = parse_b_file("fun sha256(len: u64, input: [u8; len], output: mut [u8; 32])");
    assert_eq!(
        sigs[0].previous_instructions(),
        "\tuint64_t len = prim_strlen(input);\n\tunsigned char* output = prim_string_make(tinfo, 0, 32);\n"
    );
}

#[test]
fn previous_instructions_named_output_and_numeric() {
    let sigs = parse_b_file("fun f(n: u64, o: mut [u8; n])");
    assert_eq!(
        sigs[0].previous_instructions(),
        "\tunsigned char* output = prim_string_make(tinfo, 0, n);\n"
    );
    let sigs = parse_b_file("fun g(x: u64) -> u64");
    assert_eq!(sigs[0].previous_instructions(), "");
}

#[test]
fn returns_string_detects_output() {
    let with = FunctionSignature {
        name: "f".to_string(),
        params: vec![Param { name: "o".to_string(), ty: CaplaType::MutU8Array(MutStringLength::FixedNumber(2)) }],
        return_type: None,
    };
    assert!(with.returns_string());
    let without = FunctionSignature {
        name: "g".to_string(),
        params: vec![Param { name: "x".to_string(), ty: CaplaType::U64 }],
        return_type: Some(CaplaType::U64),
    };
    assert!(!without.returns_string());
}

#[test]
fn validate_directly() {
    let sig = FunctionSignature {
        name: "f".to_string(),
        params: vec![
            Param { name: "n".to_string(), ty: CaplaType::U64 },
            Param { name: "s".to_string(), ty: arr("n") },
        ],
        return_type: Some(CaplaType::I64),
    };
    let v = sig.validate().unwrap();
    assert_eq!(v.name, "f");
    assert!(matches!(&v.params[0], ValidatedParam::StringLengthParam { name, string_param_name } if name == "n" && string_param_name == "s"));
    assert!(matches!(&v.params[1], ValidatedParam::RocqParam(p) if p.name == "s"));
    assert_eq!(v.original_params.len(), 2);
    let bad = FunctionSignature { name: "g".to_string(), params: vec![], return_type: None };
    assert!(bad.validate().is_none());
}
