//! Capla signature types, their mathematical models, and the C and Rocq text
//! that each of them stands for.

use vstd::prelude::*;
use vstd::string::*;

use crate::chars::{decimal, push_decimal};

verus! {

/// The length of a `mut [u8; ...]` output array: a parameter name or a number.
#[derive(Debug, Clone, PartialEq)]
pub enum MutStringLength {
    VarName(String),
    FixedNumber(u64),
}

/// A Capla type that may appear in an exported signature.
#[derive(Debug, Clone, PartialEq)]
pub enum CaplaType {
    U64,
    I64,
    F64,
    U8Array { len: String },
    MutU8Array(MutStringLength),
}

/// A parameter as written in the source: its name and type.
#[derive(Debug, Clone)]
pub struct Param {
    pub name: String,
    pub ty: CaplaType,
}

/// A function signature as written in the source.
#[derive(Debug, Clone)]
pub struct FunctionSignature {
    pub name: String,
    pub params: Vec<Param>,
    pub return_type: Option<CaplaType>,
}

/// The role that a parameter plays once its signature has been validated.
#[derive(Debug, Clone)]
pub enum ValidatedParam {
    RocqParam(Param),
    StringLengthParam { name: String, string_param_name: String },
    StringOutputParam { name: String },
}

/// What a validated function hands back to Rocq.
#[derive(Debug, Clone)]
pub enum ValidatedReturn {
    /// A numeric return (U64, I64, or F64).
    Numeric(CaplaType),
    /// A string returned via a `mut [u8; ...]` output parameter.
    StringReturn(MutStringLength),
}

/// A signature that passed validation.
#[derive(Debug, Clone)]
pub struct ValidatedFunctionSignature {
    pub name: String,
    /// Parameters in source order, classified into their validated roles.
    pub params: Vec<ValidatedParam>,
    /// The original unclassified parameter list, preserved for code generation
    /// (e.g. emitting the C function signature).
    pub original_params: Vec<Param>,
    pub return_type: ValidatedReturn,
}

// ---------------------------------------------------------------------------
// Models
// ---------------------------------------------------------------------------

/// Model of [`MutStringLength`].
pub enum LengthModel {
    VarName(Seq<char>),
    FixedNumber(u64),
}

/// Model of [`CaplaType`].
pub enum TypeModel {
    U64,
    I64,
    F64,
    U8Array(Seq<char>),
    MutU8Array(LengthModel),
}

/// Model of [`Param`].
pub struct ParamModel {
    pub name: Seq<char>,
    pub ty: TypeModel,
}

/// Model of [`FunctionSignature`].
pub struct SignatureModel {
    pub name: Seq<char>,
    pub params: Seq<ParamModel>,
    pub return_type: Option<TypeModel>,
}

/// Model of [`ValidatedParam`].
pub enum VParamModel {
    RocqParam(ParamModel),
    StringLengthParam { name: Seq<char>, string_param_name: Seq<char> },
    StringOutputParam { name: Seq<char> },
}

/// Model of [`ValidatedReturn`].
pub enum VReturnModel {
    Numeric(TypeModel),
    StringReturn(LengthModel),
}

/// Model of [`ValidatedFunctionSignature`].
pub struct VSignatureModel {
    pub name: Seq<char>,
    pub params: Seq<VParamModel>,
    pub original_params: Seq<ParamModel>,
    pub return_type: VReturnModel,
}

impl View for MutStringLength {
    type V = LengthModel;

    open spec fn view(&self) -> LengthModel {
        match self {
            MutStringLength::VarName(n) => LengthModel::VarName(n@),
            MutStringLength::FixedNumber(n) => LengthModel::FixedNumber(*n),
        }
    }
}

impl View for CaplaType {
    type V = TypeModel;

    open spec fn view(&self) -> TypeModel {
        match self {
            CaplaType::U64 => TypeModel::U64,
            CaplaType::I64 => TypeModel::I64,
            CaplaType::F64 => TypeModel::F64,
            CaplaType::U8Array { len } => TypeModel::U8Array(len@),
            CaplaType::MutU8Array(l) => TypeModel::MutU8Array(l@),
        }
    }
}

impl View for Param {
    type V = ParamModel;

    open spec fn view(&self) -> ParamModel {
        ParamModel { name: self.name@, ty: self.ty@ }
    }
}

/// The models of a sequence of parameters.
pub open spec fn params_model(ps: Seq<Param>) -> Seq<ParamModel> {
    ps.map_values(|p: Param| p@)
}

impl View for FunctionSignature {
    type V = SignatureModel;

    open spec fn view(&self) -> SignatureModel {
        SignatureModel {
            name: self.name@,
            params: params_model(self.params@),
            return_type: match self.return_type {
                Some(t) => Some(t@),
                None => None,
            },
        }
    }
}

impl View for ValidatedParam {
    type V = VParamModel;

    open spec fn view(&self) -> VParamModel {
        match self {
            ValidatedParam::RocqParam(p) => VParamModel::RocqParam(p@),
            ValidatedParam::StringLengthParam { name, string_param_name } =>
                VParamModel::StringLengthParam { name: name@, string_param_name: string_param_name@ },
            ValidatedParam::StringOutputParam { name } => VParamModel::StringOutputParam { name: name@ },
        }
    }
}

impl View for ValidatedReturn {
    type V = VReturnModel;

    open spec fn view(&self) -> VReturnModel {
        match self {
            ValidatedReturn::Numeric(t) => VReturnModel::Numeric(t@),
            ValidatedReturn::StringReturn(l) => VReturnModel::StringReturn(l@),
        }
    }
}

/// The models of a sequence of validated parameters.
pub open spec fn vparams_model(ps: Seq<ValidatedParam>) -> Seq<VParamModel> {
    ps.map_values(|p: ValidatedParam| p@)
}

impl View for ValidatedFunctionSignature {
    type V = VSignatureModel;

    open spec fn view(&self) -> VSignatureModel {
        VSignatureModel {
            name: self.name@,
            params: vparams_model(self.params@),
            original_params: params_model(self.original_params@),
            return_type: self.return_type@,
        }
    }
}

/// The models of a sequence of validated signatures.
pub open spec fn vsigs_model(ss: Seq<ValidatedFunctionSignature>) -> Seq<VSignatureModel> {
    ss.map_values(|s: ValidatedFunctionSignature| s@)
}

// ---------------------------------------------------------------------------
// Copies with a known result
// ---------------------------------------------------------------------------

impl MutStringLength {
    /// A copy of this length.
    pub fn duplicate(&self) -> (r: MutStringLength)
        ensures
            r@ == self@,
    {
        match self {
            MutStringLength::VarName(n) => MutStringLength::VarName(n.clone()),
            MutStringLength::FixedNumber(n) => MutStringLength::FixedNumber(*n),
        }
    }
}

impl CaplaType {
    /// A copy of this type.
    pub fn duplicate(&self) -> (r: CaplaType)
        ensures
            r@ == self@,
    {
        match self {
            CaplaType::U64 => CaplaType::U64,
            CaplaType::I64 => CaplaType::I64,
            CaplaType::F64 => CaplaType::F64,
            CaplaType::U8Array { len } => CaplaType::U8Array { len: len.clone() },
            CaplaType::MutU8Array(l) => CaplaType::MutU8Array(l.duplicate()),
        }
    }

    /// Whether this is the `u64` type.
    pub fn is_u64(&self) -> (r: bool)
        ensures
            r == (self@ is U64),
    {
        match self {
            CaplaType::U64 => true,
            _ => false,
        }
    }

    /// Whether this is a `mut [u8; ...]` output array.
    pub fn is_mut_array(&self) -> (r: bool)
        ensures
            r == (self@ is MutU8Array),
    {
        match self {
            CaplaType::MutU8Array(_) => true,
            _ => false,
        }
    }
}

impl Param {
    /// A copy of this parameter.
    pub fn duplicate(&self) -> (r: Param)
        ensures
            r@ == self@,
    {
        Param { name: self.name.clone(), ty: self.ty.duplicate() }
    }
}

// ---------------------------------------------------------------------------
// Text of types
// ---------------------------------------------------------------------------

/// The text of a length as it is displayed: the name or the decimal number.
pub open spec fn length_text(l: LengthModel) -> Seq<char> {
    match l {
        LengthModel::VarName(n) => n,
        LengthModel::FixedNumber(n) => decimal(n as nat),
    }
}

/// How a type is displayed (`U64`, `[u8; len]`, `mut [u8; len]`, ...).
pub open spec fn type_text(t: TypeModel) -> Seq<char> {
    match t {
        TypeModel::U64 => "U64"@,
        TypeModel::I64 => "I64"@,
        TypeModel::F64 => "F64"@,
        TypeModel::U8Array(len) => "[u8; "@ + len + "]"@,
        TypeModel::MutU8Array(l) => "mut [u8; "@ + length_text(l) + "]"@,
    }
}

/// The C type that a Capla type is passed as.
pub open spec fn c_type_text(t: TypeModel) -> Seq<char> {
    match t {
        TypeModel::U64 => "uint64_t"@,
        TypeModel::I64 => "int64_t"@,
        TypeModel::U8Array(_) => "const char*"@,
        TypeModel::MutU8Array(_) => "char* restrict"@,
        TypeModel::F64 => "double"@,
    }
}

/// The Rocq type that a Capla type corresponds to.
pub open spec fn rocq_type_text(t: TypeModel) -> Seq<char> {
    match t {
        TypeModel::U64 => "native Rocq uint63"@,
        TypeModel::I64 => "native Rocq int63"@,
        TypeModel::MutU8Array(LengthModel::FixedNumber(n)) =>
            "native Rocq string of length "@ + decimal(n as nat),
        TypeModel::U8Array(_) => "native Rocq string"@,
        TypeModel::MutU8Array(_) => "native Rocq string"@,
        TypeModel::F64 => "native Rocq float"@,
    }
}

/// Whether a type is one of the scalar types `u64`, `i64`, `f64`.
pub open spec fn is_scalar(t: TypeModel) -> bool {
    t is U64 || t is I64 || t is F64
}

/// The C expression that turns a C value `val` of a scalar type into a Rocq value.
pub open spec fn to_val_text(t: TypeModel, val: Seq<char>) -> Seq<char> {
    match t {
        TypeModel::F64 => "mk_float(tinfo, "@ + val + ")"@,
        _ => "Val_long("@ + val + ")"@,
    }
}

/// The C expression that turns a Rocq value `val` into the C value of a type.
pub open spec fn from_val_text(t: TypeModel, val: Seq<char>) -> Seq<char> {
    match t {
        TypeModel::U64 => "Unsigned_long_val("@ + val + ")"@,
        TypeModel::I64 => "Long_val("@ + val + ")"@,
        TypeModel::F64 => "Double_val("@ + val + ")"@,
        _ => "((char*) "@ + val + ")"@,
    }
}

/// `a + b + c` as a new string.
fn concat3(a: &str, b: &str, c: &str) -> (r: String)
    ensures
        r@ == a@ + b@ + c@,
{
    let mut r = String::from_str(a);
    r.append(b);
    r.append(c);
    r
}

impl MutStringLength {
    /// The text of this length as it is displayed.
    pub fn display_string(&self) -> (r: String)
        ensures
            r@ == length_text(self@),
    {
        match self {
            MutStringLength::VarName(name) => name.clone(),
            MutStringLength::FixedNumber(n) => {
                let mut r = String::new();
                push_decimal(&mut r, *n);
                assert(r@ =~= decimal(*n as nat));
                r
            },
        }
    }
}

impl CaplaType {
    /// The text of this type as it is displayed.
    pub fn display_string(&self) -> (r: String)
        ensures
            r@ == type_text(self@),
    {
        match self {
            CaplaType::U64 => String::from_str("U64"),
            CaplaType::I64 => String::from_str("I64"),
            CaplaType::F64 => String::from_str("F64"),
            CaplaType::U8Array { len } => concat3("[u8; ", len.as_str(), "]"),
            CaplaType::MutU8Array(l) => {
                let t = l.display_string();
                concat3("mut [u8; ", t.as_str(), "]")
            },
        }
    }

    /// The C type that this type is passed as.
    pub fn as_c_type(&self) -> (r: &'static str)
        ensures
            r@ == c_type_text(self@),
    {
        match self {
            CaplaType::U64 => "uint64_t",
            CaplaType::I64 => "int64_t",
            CaplaType::U8Array { .. } => "const char*",
            CaplaType::MutU8Array(_) => "char* restrict",
            CaplaType::F64 => "double",
        }
    }

    /// The Rocq type that this type corresponds to.
    pub fn as_rocq_type(&self) -> (r: String)
        ensures
            r@ == rocq_type_text(self@),
    {
        match self {
            CaplaType::U64 => String::from_str("native Rocq uint63"),
            CaplaType::I64 => String::from_str("native Rocq int63"),
            CaplaType::MutU8Array(MutStringLength::FixedNumber(n)) => {
                let mut r = String::from_str("native Rocq string of length ");
                push_decimal(&mut r, *n);
                r
            },
            CaplaType::U8Array { .. } | CaplaType::MutU8Array(_) => String::from_str(
                "native Rocq string",
            ),
            CaplaType::F64 => String::from_str("native Rocq float"),
        }
    }

    /// The C expression converting the C value `val` of this (scalar) type to a Rocq value.
    pub fn cast_to_val(&self, val: &str) -> (r: String)
        requires
            is_scalar(self@),
        ensures
            r@ == to_val_text(self@, val@),
    {
        match self {
            CaplaType::F64 => concat3("mk_float(tinfo, ", val, ")"),
            _ => concat3("Val_long(", val, ")"),
        }
    }

    /// The C expression converting the Rocq value `val` to the C value of this type.
    pub fn cast_from_val(&self, val: &str) -> (r: String)
        ensures
            r@ == from_val_text(self@, val@),
    {
        match self {
            CaplaType::U64 => concat3("Unsigned_long_val(", val, ")"),
            CaplaType::I64 => concat3("Long_val(", val, ")"),
            CaplaType::U8Array { .. } => concat3("((char*) ", val, ")"),
            CaplaType::MutU8Array(_) => concat3("((char*) ", val, ")"),
            CaplaType::F64 => concat3("Double_val(", val, ")"),
        }
    }
}


/// The C argument that a validated parameter is passed to Capla as.
pub open spec fn capla_arg_text(v: VParamModel) -> Seq<char> {
    match v {
        VParamModel::RocqParam(p) => from_val_text(p.ty, p.name),
        VParamModel::StringLengthParam { name, .. } => name,
        VParamModel::StringOutputParam { name } => name,
    }
}

/// Whether a validated parameter has a C argument: every one but a plain
/// parameter of a `mut [u8; ...]` type.
pub open spec fn has_capla_arg(v: VParamModel) -> bool {
    !(v matches VParamModel::RocqParam(p) && p.ty is MutU8Array)
}

impl ValidatedParam {
    /// The C argument that this parameter is passed to Capla as.
    pub fn into_capla(&self) -> (r: String)
        requires
            has_capla_arg(self@),
        ensures
            r@ == capla_arg_text(self@),
    {
        match self {
            ValidatedParam::RocqParam(p) => p.ty.cast_from_val(p.name.as_str()),
            ValidatedParam::StringLengthParam { name, .. } => name.clone(),
            ValidatedParam::StringOutputParam { name } => name.clone(),
        }
    }
}

/// The Rocq type that a validated return corresponds to.
pub open spec fn return_rocq_text(r: VReturnModel) -> Seq<char> {
    match r {
        VReturnModel::Numeric(t) => rocq_type_text(t),
        VReturnModel::StringReturn(LengthModel::VarName(_)) => "native Rocq string"@,
        VReturnModel::StringReturn(LengthModel::FixedNumber(n)) =>
            "native Rocq string of length "@ + decimal(n as nat),
    }
}

/// The C return type of the Capla function behind a validated return.
pub open spec fn return_c_text(r: VReturnModel) -> Seq<char> {
    match r {
        VReturnModel::Numeric(t) => c_type_text(t),
        VReturnModel::StringReturn(_) => "void"@,
    }
}

/// Whether a validated return can be converted back to Rocq: a string
/// return, or a numeric return of a scalar type.
pub open spec fn has_rocq_value(r: VReturnModel) -> bool {
    r matches VReturnModel::Numeric(t) ==> is_scalar(t)
}

/// The C expression that turns the Capla call `val` into the Rocq result.
pub open spec fn return_value_text(r: VReturnModel, val: Seq<char>) -> Seq<char> {
    match r {
        VReturnModel::Numeric(t) => to_val_text(t, val),
        VReturnModel::StringReturn(_) => "("@ + val + ", output)"@,
    }
}

impl ValidatedReturn {
    /// The Rocq type that this return corresponds to.
    pub fn as_rocq_type(&self) -> (r: String)
        ensures
            r@ == return_rocq_text(self@),
    {
        match self {
            ValidatedReturn::Numeric(t) => t.as_rocq_type(),
            ValidatedReturn::StringReturn(s) => match s {
                MutStringLength::VarName(_) => String::from_str("native Rocq string"),
                MutStringLength::FixedNumber(n) => {
                    let mut r = String::from_str("native Rocq string of length ");
                    push_decimal(&mut r, *n);
                    r
                },
            },
        }
    }

    /// The C return type; `void` for a string, which is passed as a pointer argument.
    pub fn as_c_type(&self) -> (r: &'static str)
        ensures
            r@ == return_c_text(self@),
    {
        match self {
            ValidatedReturn::Numeric(t) => t.as_c_type(),
            ValidatedReturn::StringReturn(_) => "void",
        }
    }

    /// The C expression that turns the Capla call `val` into the Rocq result.
    pub fn from_capla(&self, val: &str) -> (r: String)
        requires
            has_rocq_value(self@),
        ensures
            r@ == return_value_text(self@, val@),
    {
        match self {
            ValidatedReturn::Numeric(n) => n.cast_to_val(val),
            ValidatedReturn::StringReturn(_) => concat3("(", val, ", output)"),
        }
    }
}

/// The C statement computing one string length, for a string-length parameter.
pub open spec fn length_instruction(v: VParamModel) -> Seq<char> {
    match v {
        VParamModel::StringLengthParam { name, string_param_name } =>
            "\tuint64_t "@ + name + " = prim_strlen("@ + string_param_name + ");\n"@,
        _ => Seq::empty(),
    }
}

/// The C statements computing the string lengths, in parameter order.
pub open spec fn length_instructions(ps: Seq<VParamModel>) -> Seq<char>
    decreases ps.len(),
{
    if ps.len() == 0 {
        Seq::empty()
    } else {
        length_instructions(ps.drop_last()) + length_instruction(ps.last())
    }
}

/// The C statement allocating the output string, for a string return.
pub open spec fn output_instruction(r: VReturnModel) -> Seq<char> {
    match r {
        VReturnModel::Numeric(_) => Seq::empty(),
        VReturnModel::StringReturn(l) =>
            "\tunsigned char* output = prim_string_make(tinfo, 0, "@ + length_text(l) + ");\n"@,
    }
}

/// The C statements that must run before the Capla call.
pub open spec fn previous_instructions_text(s: VSignatureModel) -> Seq<char> {
    length_instructions(s.params) + output_instruction(s.return_type)
}

impl ValidatedFunctionSignature {
    /// The C statements that must run before the Capla call: the length of
    /// each input string, then the allocation of the output string.
    pub fn previous_instructions(&self) -> (r: String)
        ensures
            r@ == previous_instructions_text(self@),
    {
        let mut instructions = String::new();
        let mut i: usize = 0;
        while i < self.params.len()
            invariant
                i <= self.params@.len(),
                instructions@ == length_instructions(vparams_model(self.params@).take(i as int)),
            decreases self.params@.len() - i,
        {
            let ghost before = instructions@;
            match &self.params[i] {
                ValidatedParam::StringLengthParam { name, string_param_name } => {
                    instructions.append("\tuint64_t ");
                    instructions.append(name.as_str());
                    instructions.append(" = prim_strlen(");
                    instructions.append(string_param_name.as_str());
                    instructions.append(");\n");
                },
                _ => {},
            }
            proof {
                let ps = vparams_model(self.params@);
                assert(ps.take(i + 1).drop_last() =~= ps.take(i as int));
                assert(ps.take(i + 1).last() == self.params@[i as int]@);
                assert(instructions@ =~= before + length_instruction(self.params@[i as int]@));
            }
            i = i + 1;
        }
        proof {
            assert(vparams_model(self.params@).take(self.params@.len() as int) =~= vparams_model(
                self.params@,
            ));
        }
        match &self.return_type {
            ValidatedReturn::Numeric(_) => {},
            ValidatedReturn::StringReturn(s) => {
                let len = s.display_string();
                instructions.append("\tunsigned char* output = prim_string_make(tinfo, 0, ");
                instructions.append(len.as_str());
                instructions.append(");\n");
            },
        }
        proof {
            assert(instructions@ =~= previous_instructions_text(self@));
        }
        instructions
    }
}

/// Whether some parameter is a `mut [u8; ...]` output array.
pub open spec fn has_output_array(ps: Seq<ParamModel>) -> bool {
    exists|i: int| 0 <= i < ps.len() && (#[trigger] ps[i]).ty is MutU8Array
}

impl FunctionSignature {
    /// Whether the function hands back a string through a `mut [u8; ...]` parameter.
    pub fn returns_string(&self) -> (r: bool)
        ensures
            r == has_output_array(self@.params),
    {
        let mut i: usize = 0;
        while i < self.params.len()
            invariant
                i <= self.params@.len(),
                forall|j: int| 0 <= j < i ==> !(self.params@[j]@.ty is MutU8Array),
            decreases self.params@.len() - i,
        {
            if self.params[i].ty.is_mut_array() {
                assert(self@.params[i as int].ty is MutU8Array);
                return true;
            }
            i = i + 1;
        }
        proof {
            if has_output_array(self@.params) {
                let k = choose|k: int| 0 <= k < self@.params.len() && (#[trigger] self@.params[k]).ty is MutU8Array;
                assert(self.params@[k]@.ty is MutU8Array);
            }
        }
        false
    }
}


impl ValidatedParam {
    /// A copy of this parameter.
    pub fn duplicate(&self) -> (r: ValidatedParam)
        ensures
            r@ == self@,
    {
        match self {
            ValidatedParam::RocqParam(p) => ValidatedParam::RocqParam(p.duplicate()),
            ValidatedParam::StringLengthParam { name, string_param_name } =>
                ValidatedParam::StringLengthParam {
                    name: name.clone(),
                    string_param_name: string_param_name.clone(),
                },
            ValidatedParam::StringOutputParam { name } => ValidatedParam::StringOutputParam {
                name: name.clone(),
            },
        }
    }
}

impl ValidatedReturn {
    /// A copy of this return.
    pub fn duplicate(&self) -> (r: ValidatedReturn)
        ensures
            r@ == self@,
    {
        match self {
            ValidatedReturn::Numeric(t) => ValidatedReturn::Numeric(t.duplicate()),
            ValidatedReturn::StringReturn(l) => ValidatedReturn::StringReturn(l.duplicate()),
        }
    }
}

impl ValidatedFunctionSignature {
    /// A copy of this signature.
    pub fn duplicate(&self) -> (r: ValidatedFunctionSignature)
        ensures
            r@ == self@,
    {
        let mut params: Vec<ValidatedParam> = Vec::new();
        let mut i: usize = 0;
        while i < self.params.len()
            invariant
                i <= self.params@.len(),
                params@.len() == i,
                forall|k: int| 0 <= k < i ==> (#[trigger] params@[k])@ == self.params@[k]@,
            decreases self.params@.len() - i,
        {
            params.push(self.params[i].duplicate());
            i = i + 1;
        }
        let mut original: Vec<Param> = Vec::new();
        let mut i: usize = 0;
        while i < self.original_params.len()
            invariant
                i <= self.original_params@.len(),
                original@.len() == i,
                forall|k: int| 0 <= k < i ==> (#[trigger] original@[k])@ == self.original_params@[k]@,
            decreases self.original_params@.len() - i,
        {
            original.push(self.original_params[i].duplicate());
            i = i + 1;
        }
        let r = ValidatedFunctionSignature {
            name: self.name.clone(),
            params,
            original_params: original,
            return_type: self.return_type.duplicate(),
        };
        assert(vparams_model(r.params@) =~= vparams_model(self.params@));
        assert(params_model(r.original_params@) =~= params_model(self.original_params@));
        r
    }
}

// ---------------------------------------------------------------------------
// Laws
// ---------------------------------------------------------------------------

/// The Rocq result of a numeric return is the return type's own conversion
/// of the C value (the one `cast_to_val` makes): `Val_long(v)` for `u64` and
/// `i64`, `mk_float(tinfo, v)` for `f64`. A string return hands back the
/// pair of the call and the output buffer.
pub proof fn law_return_value_conversion(t: TypeModel, l: LengthModel, v: Seq<char>)
    ensures
        is_scalar(t) ==> return_value_text(VReturnModel::Numeric(t), v) == to_val_text(t, v),
        t is U64 ==> return_value_text(VReturnModel::Numeric(t), v) == "Val_long("@ + v + ")"@,
        t is I64 ==> return_value_text(VReturnModel::Numeric(t), v) == "Val_long("@ + v + ")"@,
        t is F64 ==> return_value_text(VReturnModel::Numeric(t), v) == "mk_float(tinfo, "@ + v + ")"@,
        return_value_text(VReturnModel::StringReturn(l), v) == "("@ + v + ", output)"@,
{
}

/// The statement that computes the length `name` of the input string
/// `string_param_name`.
pub open spec fn strlen_statement(name: Seq<char>, string_param_name: Seq<char>) -> Seq<char> {
    "\tuint64_t "@ + name + " = prim_strlen("@ + string_param_name + ");\n"@
}

/// The length statements are written one per string-length parameter, in
/// parameter order: none for no parameters, and a parameter adds its own
/// statement after those of the parameters before it (nothing when it is not
/// a string length).
pub proof fn law_length_statements_in_order(ps: Seq<VParamModel>, p: VParamModel)
    ensures
        length_instructions(Seq::empty()) == Seq::<char>::empty(),
        p matches VParamModel::StringLengthParam { name, string_param_name } ==> length_instructions(
            ps.push(p),
        ) == length_instructions(ps) + strlen_statement(name, string_param_name),
        !(p is StringLengthParam) ==> length_instructions(ps.push(p)) == length_instructions(ps),
{
    assert(ps.push(p).drop_last() =~= ps);
    if !(p is StringLengthParam) {
        assert(length_instructions(ps) + Seq::<char>::empty() =~= length_instructions(ps));
    }
}

/// Every string-length parameter has its own statement among the length
/// statements.
pub proof fn law_every_length_is_computed(ps: Seq<VParamModel>, i: int)
    requires
        0 <= i < ps.len(),
        ps[i] is StringLengthParam,
    ensures
        ({
            let st = strlen_statement(ps[i]->StringLengthParam_name, ps[i]->string_param_name);
            exists|k: int|
                0 <= k && k + st.len() <= length_instructions(ps).len()
                    && #[trigger] length_instructions(ps).subrange(k, k + st.len()) == st
        }),
    decreases ps.len(),
{
    let st = strlen_statement(ps[i]->StringLengthParam_name, ps[i]->string_param_name);
    let p = ps.drop_last();
    let pre = length_instructions(p);
    let all = length_instructions(ps);
    assert(all == pre + length_instruction(ps.last()));
    if i == ps.len() - 1 {
        let k = pre.len() as int;
        assert(all.subrange(k, k + st.len()) =~= st);
    } else {
        assert(p[i] == ps[i]);
        law_every_length_is_computed(p, i);
        let k = choose|k: int|
            0 <= k && k + st.len() <= pre.len() && #[trigger] pre.subrange(k, k + st.len()) == st;
        assert(all.subrange(k, k + st.len()) =~= pre.subrange(k, k + st.len()));
    }
}

/// The statements before the Capla call are the length statements followed,
/// for a string return, by the allocation of the output buffer.
pub proof fn law_previous_instructions_parts(s: VSignatureModel)
    ensures
        s.return_type is Numeric ==> previous_instructions_text(s) == length_instructions(s.params),
        s.return_type matches VReturnModel::StringReturn(l) ==> previous_instructions_text(s)
            == length_instructions(s.params) + "\tunsigned char* output = prim_string_make(tinfo, 0, "@
            + length_text(l) + ");\n"@,
{
    if s.return_type is Numeric {
        assert(length_instructions(s.params) + Seq::<char>::empty() =~= length_instructions(s.params));
    }
}

} // verus!
