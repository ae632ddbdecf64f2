//! Validation of parsed signatures: which ones can be exported, and the role
//! of each of their parameters.

use vstd::prelude::*;

use crate::types::{
    has_output_array, is_scalar, params_model, vparams_model, CaplaType, FunctionSignature, LengthModel,
    MutStringLength, Param, ParamModel, SignatureModel, TypeModel, VParamModel, VReturnModel,
    VSignatureModel, ValidatedFunctionSignature, ValidatedParam, ValidatedReturn,
};

verus! {

/// `len` is the name of a `u64` parameter of `ps`.
pub open spec fn names_u64_param(ps: Seq<ParamModel>, len: Seq<char>) -> bool {
    exists|j: int| 0 <= j < ps.len() && (#[trigger] ps[j]).name == len && ps[j].ty is U64
}

/// Every array length given by name (of an input `[u8; L]` or of an output
/// `mut [u8; L]`) names a `u64` parameter of the signature.
pub open spec fn lengths_resolve(ps: Seq<ParamModel>) -> bool {
    forall|i: int|
        0 <= i < ps.len() ==> match #[trigger] ps[i].ty {
            TypeModel::U8Array(len) => names_u64_param(ps, len),
            TypeModel::MutU8Array(LengthModel::VarName(len)) => names_u64_param(ps, len),
            _ => true,
        }
}

/// No two input strings `[u8; L]` use the same length parameter `L`.
pub open spec fn input_lengths_distinct(ps: Seq<ParamModel>) -> bool {
    forall|i: int, j: int|
        0 <= i < j < ps.len() && (#[trigger] ps[i]).ty is U8Array && (#[trigger] ps[j]).ty is U8Array
            ==> ps[i].ty->U8Array_0 != ps[j].ty->U8Array_0
}

/// At most one parameter is a `mut [u8; ...]` output.
pub open spec fn at_most_one_output(ps: Seq<ParamModel>) -> bool {
    forall|i: int, j: int|
        0 <= i < j < ps.len() && (#[trigger] ps[i]).ty is MutU8Array ==> !((#[trigger] ps[j]).ty is MutU8Array)
}

/// A function with a string output declares no return type, and one
/// without declares a return type that is `u64`, `i64` or `f64`.
pub open spec fn return_consistent(s: SignatureModel) -> bool {
    if has_output_array(s.params) {
        s.return_type is None
    } else {
        s.return_type matches Some(t) && is_scalar(t)
    }
}

/// The length of the first output array of `ps` at index `i` or later.
pub open spec fn output_length_from(ps: Seq<ParamModel>, i: int) -> Option<LengthModel>
    decreases ps.len() - i,
{
    if i < 0 || i >= ps.len() {
        None
    } else if ps[i].ty is MutU8Array {
        Some(ps[i].ty->MutU8Array_0)
    } else {
        output_length_from(ps, i + 1)
    }
}

/// The name of the first input string at index `i` or later whose length is
/// the parameter `name`.
pub open spec fn string_using_length_from(ps: Seq<ParamModel>, name: Seq<char>, i: int) -> Option<Seq<char>>
    decreases ps.len() - i,
{
    if i < 0 || i >= ps.len() {
        None
    } else if ps[i].ty == TypeModel::U8Array(name) {
        Some(ps[i].name)
    } else {
        string_using_length_from(ps, name, i + 1)
    }
}

/// The role of parameter `p` in a signature with parameters `ps`: it is a
/// string length iff some input string uses it as its length (the first
/// such string is recorded), else an output string if it is one, else a
/// plain parameter.
pub open spec fn param_role(ps: Seq<ParamModel>, p: ParamModel) -> VParamModel {
    match string_using_length_from(ps, p.name, 0) {
        Some(string_name) => VParamModel::StringLengthParam { name: p.name, string_param_name: string_name },
        None => if p.ty is MutU8Array {
            VParamModel::StringOutputParam { name: p.name }
        } else {
            VParamModel::RocqParam(p)
        },
    }
}

/// What a consistent signature hands back to Rocq.
pub open spec fn validated_return(s: SignatureModel) -> VReturnModel {
    match output_length_from(s.params, 0) {
        Some(l) => VReturnModel::StringReturn(l),
        None => VReturnModel::Numeric(s.return_type->Some_0),
    }
}

/// Whether a signature can be exported.
pub open spec fn is_valid_signature(s: SignatureModel) -> bool {
    &&& lengths_resolve(s.params)
    &&& input_lengths_distinct(s.params)
    &&& at_most_one_output(s.params)
    &&& return_consistent(s)
}

/// The validated form of a signature, or `None` when it cannot be exported.
pub open spec fn validate_spec(s: SignatureModel) -> Option<VSignatureModel> {
    if is_valid_signature(s) {
        Some(
            VSignatureModel {
                name: s.name,
                params: s.params.map_values(|p: ParamModel| param_role(s.params, p)),
                original_params: s.params,
                return_type: validated_return(s),
            },
        )
    } else {
        None
    }
}

/// The parameters have pairwise distinct names.
pub open spec fn distinct_names(ps: Seq<ParamModel>) -> bool {
    forall|i: int, j: int| 0 <= i < j < ps.len() ==> (#[trigger] ps[i]).name != (#[trigger] ps[j]).name
}

/// A validated signature keeps the name and the parameters of its source,
/// with one role for each parameter, in order.
pub proof fn law_validate_keeps_shape(s: SignatureModel)
    requires
        validate_spec(s) is Some,
    ensures
        ({
            let v = validate_spec(s)->Some_0;
            &&& v.name == s.name
            &&& v.original_params == s.params
            &&& v.params.len() == s.params.len()
            &&& forall|i: int| 0 <= i < s.params.len() ==> #[trigger] v.params[i] == param_role(s.params, s.params[i])
        }),
{
}

/// In a validated signature every array length given by name, of an input
/// string `[u8; L]` or of an output `mut [u8; L]`, is the name of a
/// parameter of type `u64`.
pub proof fn law_named_lengths_are_u64(s: SignatureModel, i: int)
    requires
        validate_spec(s) is Some,
        0 <= i < s.params.len(),
    ensures
        s.params[i].ty matches TypeModel::U8Array(len) ==> exists|j: int|
            0 <= j < s.params.len() && (#[trigger] s.params[j]).name == len && s.params[j].ty == TypeModel::U64,
        s.params[i].ty matches TypeModel::MutU8Array(LengthModel::VarName(len)) ==> exists|j: int|
            0 <= j < s.params.len() && (#[trigger] s.params[j]).name == len && s.params[j].ty == TypeModel::U64,
{
    let ps = s.params;
    assert(match ps[i].ty {
        TypeModel::U8Array(len) => names_u64_param(ps, len),
        TypeModel::MutU8Array(LengthModel::VarName(len)) => names_u64_param(ps, len),
        _ => true,
    });
}

/// A signature with an array length given by a name that no `u64`
/// parameter has is rejected.
pub proof fn law_unresolved_length_rejected(s: SignatureModel, i: int, len: Seq<char>)
    requires
        0 <= i < s.params.len(),
        s.params[i].ty == TypeModel::U8Array(len) || s.params[i].ty == TypeModel::MutU8Array(
            LengthModel::VarName(len),
        ),
        forall|j: int| 0 <= j < s.params.len() && (#[trigger] s.params[j]).name == len ==> s.params[j].ty
            != TypeModel::U64,
    ensures
        validate_spec(s) is None,
{
    if validate_spec(s) is Some {
        law_named_lengths_are_u64(s, i);
    }
}

/// In a validated signature every string-length parameter is named like a
/// `u64` parameter, and every input string's length is such a parameter.
pub proof fn law_length_params_are_u64(s: SignatureModel, i: int)
    requires
        validate_spec(s) is Some,
        0 <= i < s.params.len(),
        validate_spec(s)->Some_0.params[i] is StringLengthParam,
    ensures
        names_u64_param(s.params, s.params[i].name),
{
    let ps = s.params;
    lemma_string_using_length(ps, ps[i].name, 0);
    let k = choose|k: int| 0 <= k < ps.len() && ps[k].ty == TypeModel::U8Array(ps[i].name);
    assert(match ps[k].ty {
        TypeModel::U8Array(len) => names_u64_param(ps, len),
        TypeModel::MutU8Array(LengthModel::VarName(len)) => names_u64_param(ps, len),
        _ => true,
    });
}

/// Where the search for a string using a length finds one, that string is
/// an input string with that length.
pub proof fn lemma_string_using_length(ps: Seq<ParamModel>, name: Seq<char>, i: int)
    requires
        0 <= i,
    ensures
        string_using_length_from(ps, name, i) is Some ==> exists|k: int|
            i <= k < ps.len() && (#[trigger] ps[k]).ty == TypeModel::U8Array(name),
        string_using_length_from(ps, name, i) is None ==> forall|k: int|
            i <= k < ps.len() ==> (#[trigger] ps[k]).ty != TypeModel::U8Array(name),
    decreases ps.len() - i,
{
    if i < ps.len() && ps[i].ty != TypeModel::U8Array(name) {
        lemma_string_using_length(ps, name, i + 1);
    }
}

/// Where the search for an output array finds one, that parameter is one.
proof fn lemma_output_length(ps: Seq<ParamModel>, i: int)
    requires
        0 <= i,
    ensures
        output_length_from(ps, i) is Some ==> exists|k: int|
            i <= k < ps.len() && (#[trigger] ps[k]).ty is MutU8Array,
        output_length_from(ps, i) is None ==> forall|k: int|
            i <= k < ps.len() ==> !((#[trigger] ps[k]).ty is MutU8Array),
    decreases ps.len() - i,
{
    if i < ps.len() && !(ps[i].ty is MutU8Array) {
        lemma_output_length(ps, i + 1);
    }
}

/// When parameter names are distinct, a validated function hands back a
/// string exactly when one of its parameters is a string output.
pub proof fn law_string_return_iff_output(s: SignatureModel)
    requires
        validate_spec(s) is Some,
        distinct_names(s.params),
    ensures
        ({
            let v = validate_spec(s)->Some_0;
            (v.return_type is StringReturn) <==> exists|i: int|
                0 <= i < v.params.len() && (#[trigger] v.params[i]) is StringOutputParam
        }),
{
    let ps = s.params;
    let v = validate_spec(s)->Some_0;
    lemma_output_length(ps, 0);
    if v.return_type is StringReturn {
        let k = choose|k: int| 0 <= k < ps.len() && (#[trigger] ps[k]).ty is MutU8Array;
        lemma_string_using_length(ps, ps[k].name, 0);
        if string_using_length_from(ps, ps[k].name, 0) is Some {
            let q = choose|q: int| 0 <= q < ps.len() && (#[trigger] ps[q]).ty == TypeModel::U8Array(ps[k].name);
            assert(match ps[q].ty {
                TypeModel::U8Array(len) => names_u64_param(ps, len),
                TypeModel::MutU8Array(LengthModel::VarName(len)) => names_u64_param(ps, len),
                _ => true,
            });
            let u = choose|u: int| 0 <= u < ps.len() && (#[trigger] ps[u]).name == ps[k].name && ps[u].ty is U64;
            if u < k {
                assert(ps[u].name != ps[k].name);
            } else if k < u {
                assert(ps[k].name != ps[u].name);
            }
        }
        assert(v.params[k] is StringOutputParam);
    }
    if exists|i: int| 0 <= i < v.params.len() && (#[trigger] v.params[i]) is StringOutputParam {
        let i = choose|i: int| 0 <= i < v.params.len() && (#[trigger] v.params[i]) is StringOutputParam;
        assert(ps[i].ty is MutU8Array);
        assert(has_output_array(ps));
    }
}

/// Whether `ps` holds a `u64` parameter named `len`.
fn has_u64_named(ps: &Vec<Param>, len: &String) -> (r: bool)
    ensures
        r == names_u64_param(params_model(ps@), len@),
{
    let ghost m = params_model(ps@);
    let mut j: usize = 0;
    while j < ps.len()
        invariant
            j <= ps@.len(),
            m == params_model(ps@),
            forall|k: int| 0 <= k < j ==> !((#[trigger] m[k]).name == len@ && m[k].ty is U64),
        decreases ps@.len() - j,
    {
        if ps[j].ty.is_u64() && ps[j].name == *len {
            assert(m[j as int].name == len@ && m[j as int].ty is U64);
            return true;
        }
        j = j + 1;
    }
    false
}

/// Whether an input string before index `i` uses `len` as its length.
fn earlier_input_uses(ps: &Vec<Param>, i: usize, len: &String) -> (r: bool)
    requires
        i <= ps@.len(),
    ensures
        r == exists|j: int| 0 <= j < i && (#[trigger] params_model(ps@)[j]).ty == TypeModel::U8Array(len@),
{
    let ghost m = params_model(ps@);
    let mut j: usize = 0;
    while j < i
        invariant
            j <= i <= ps@.len(),
            m == params_model(ps@),
            forall|k: int| 0 <= k < j ==> (#[trigger] m[k]).ty != TypeModel::U8Array(len@),
        decreases i - j,
    {
        match &ps[j].ty {
            CaplaType::U8Array { len: l } => {
                if *l == *len {
                    assert(m[j as int].ty == TypeModel::U8Array(len@));
                    return true;
                }
            },
            _ => {},
        }
        j = j + 1;
    }
    false
}

/// The name of the first input string of `ps` whose length is the parameter `name`.
fn string_using_length(ps: &Vec<Param>, name: &String) -> (r: Option<String>)
    ensures
        match r {
            Some(s) => string_using_length_from(params_model(ps@), name@, 0) == Some(s@),
            None => string_using_length_from(params_model(ps@), name@, 0) is None,
        },
{
    let ghost m = params_model(ps@);
    let mut j: usize = 0;
    while j < ps.len()
        invariant
            j <= ps@.len(),
            m == params_model(ps@),
            string_using_length_from(m, name@, 0) == string_using_length_from(m, name@, j as int),
        decreases ps@.len() - j,
    {
        match &ps[j].ty {
            CaplaType::U8Array { len } => {
                if *len == *name {
                    return Some(ps[j].name.clone());
                }
            },
            _ => {},
        }
        j = j + 1;
    }
    None
}

impl FunctionSignature {
    /// Validate this signature and produce a `ValidatedFunctionSignature`, or
    /// return `None` if it is malformed.
    ///
    /// The rules:
    ///   * Every input string `[u8; L]` must reference a unique parameter `L` of type U64 that
    ///     exists in the signature.
    ///   * Every `mut [u8; L]` with a variable length must likewise reference
    ///     an existing parameter.
    ///   * If the function has a `mut [u8; ...]` parameter (a string output),
    ///     it must NOT also declare a numeric return type. Conversely, if it
    ///     has no string output it MUST declare a numeric return type.
    ///   * At most one `mut [u8; ...]` output parameter is allowed.
    ///
    /// Classification rules for parameters (in source order):
    ///   * A param is `StringLengthParam` iff some **input** string `[u8; L]`
    ///     references it by name. A param referenced only by a `mut [u8; L]`
    ///     output is a normal `RocqParam`.
    ///   * A `mut [u8; ...]` param becomes `StringOutputParam`.
    ///   * Everything else is a `RocqParam`.
    pub fn validate(self) -> (r: Option<ValidatedFunctionSignature>)
        ensures
            match r {
                Some(v) => validate_spec(self@) == Some(v@),
                None => validate_spec(self@) is None,
            },
    {
        let ghost m = params_model(self.params@);
        let n = self.params.len();
        // Every length-by-name reference must resolve to a unique real parameter.
        let mut i: usize = 0;
        while i < n
            invariant
                i <= n == self.params@.len(),
                m == params_model(self.params@),
                forall|k: int|
                    0 <= k < i ==> match #[trigger] m[k].ty {
                        TypeModel::U8Array(len) => names_u64_param(m, len),
                        TypeModel::MutU8Array(LengthModel::VarName(len)) => names_u64_param(m, len),
                        _ => true,
                    },
                forall|a: int, b: int|
                    0 <= a < b < i && (#[trigger] m[a]).ty is U8Array && (#[trigger] m[b]).ty is U8Array
                        ==> m[a].ty->U8Array_0 != m[b].ty->U8Array_0,
            decreases n - i,
        {
            match &self.params[i].ty {
                CaplaType::U8Array { len } => {
                    if !has_u64_named(&self.params, len) {
                        assert(!lengths_resolve(m)) by {
                            assert(m[i as int].ty == TypeModel::U8Array(len@));
                        }
                        return None;
                    }
                    if earlier_input_uses(&self.params, i, len) {
                        assert(!input_lengths_distinct(m)) by {
                            let j = choose|j: int| 0 <= j < i && (#[trigger] m[j]).ty == TypeModel::U8Array(len@);
                            assert(m[i as int].ty == TypeModel::U8Array(len@));
                        }
                        return None;
                    }
                    proof {
                        assert forall|a: int, b: int|
                            0 <= a < b < i + 1 && (#[trigger] m[a]).ty is U8Array && (#[trigger] m[b]).ty is U8Array
                            implies m[a].ty->U8Array_0 != m[b].ty->U8Array_0 by {
                            if b == i {
                                assert(m[b].ty == TypeModel::U8Array(len@));
                                if m[a].ty->U8Array_0 == len@ {
                                    assert(m[a].ty == TypeModel::U8Array(len@));
                                }
                            }
                        }
                    }
                },
                CaplaType::MutU8Array(MutStringLength::VarName(len)) => {
                    if !has_u64_named(&self.params, len) {
                        assert(!lengths_resolve(m)) by {
                            assert(m[i as int].ty == TypeModel::MutU8Array(LengthModel::VarName(len@)));
                        }
                        return None;
                    }
                },
                _ => {},
            }
            i = i + 1;
        }
        assert(lengths_resolve(m));
        assert(input_lengths_distinct(m));

        // Count string outputs and ensure return-type / output-string consistency.
        let mut output: Option<usize> = None;
        let mut i: usize = 0;
        while i < n
            invariant
                i <= n == self.params@.len(),
                m == params_model(self.params@),
                match output {
                    None => forall|k: int| 0 <= k < i ==> !((#[trigger] m[k]).ty is MutU8Array),
                    Some(o) => o < i && m[o as int].ty is MutU8Array
                        && (forall|k: int| 0 <= k < i && k != o ==> !((#[trigger] m[k]).ty is MutU8Array))
                        && output_length_from(m, 0) == Some(m[o as int].ty->MutU8Array_0),
                },
                output is None ==> output_length_from(m, 0) == output_length_from(m, i as int),
            decreases n - i,
        {
            if self.params[i].ty.is_mut_array() {
                match output {
                    Some(o) => {
                        // More than one mut [u8; ...] parameter is not allowed.
                        assert(!at_most_one_output(m)) by {
                            assert(m[o as int].ty is MutU8Array && m[i as int].ty is MutU8Array);
                        }
                        return None;
                    },
                    None => {
                        output = Some(i);
                    },
                }
            }
            i = i + 1;
        }
        assert(at_most_one_output(m));
        assert(has_output_array(m) == output is Some) by {
            if has_output_array(m) {
                let k = choose|k: int| 0 <= k < m.len() && (#[trigger] m[k]).ty is MutU8Array;
            }
        }
        proof {
            if output is None {
                assert(output_length_from(m, n as int) is None);
            }
        }

        let return_type = match (&self.return_type, output) {
            (Some(_), Some(_)) => {
                return None;
            },
            (None, None) => {
                return None;
            },
            (Some(ret), None) => match ret {
                CaplaType::U64 | CaplaType::I64 | CaplaType::F64 => ValidatedReturn::Numeric(
                    ret.duplicate(),
                ),
                // Arrays as a declared return type are not legal.
                CaplaType::U8Array { .. } | CaplaType::MutU8Array(_) => {
                    return None;
                },
            },
            (None, Some(o)) => match &self.params[o].ty {
                CaplaType::MutU8Array(len) => ValidatedReturn::StringReturn(len.duplicate()),
                _ => {
                    return None;
                },
            },
        };
        assert(is_valid_signature(self@));
        assert(return_type@ == validated_return(self@));

        // Classify the parameters; only input-string references promote a
        // parameter to a string length.
        let mut validated_params: Vec<ValidatedParam> = Vec::new();
        let mut i: usize = 0;
        while i < n
            invariant
                i <= n == self.params@.len(),
                m == params_model(self.params@),
                validated_params@.len() == i,
                forall|k: int| 0 <= k < i ==> (#[trigger] validated_params@[k])@ == param_role(m, m[k]),
            decreases n - i,
        {
            let p = &self.params[i];
            let role = match string_using_length(&self.params, &p.name) {
                Some(string_name) => ValidatedParam::StringLengthParam {
                    name: p.name.clone(),
                    string_param_name: string_name,
                },
                None => if p.ty.is_mut_array() {
                    ValidatedParam::StringOutputParam { name: p.name.clone() }
                } else {
                    ValidatedParam::RocqParam(p.duplicate())
                },
            };
            validated_params.push(role);
            i = i + 1;
        }
        let ghost vs = validated_params@;
        let r = ValidatedFunctionSignature {
            name: self.name,
            params: validated_params,
            original_params: self.params,
            return_type,
        };
        proof {
            assert(vparams_model(vs) =~= m.map_values(|p: ParamModel| param_role(m, p)));
        }
        Some(r)
    }
}

} // verus!
