//! Export names and the one-line description of a signature.

use vstd::prelude::*;
use vstd::string::*;

use crate::types::{
    type_text, ParamModel, VReturnModel, VSignatureModel, ValidatedFunctionSignature,
    ValidatedReturn,
};

verus! {

/// A signature chosen for export, with the name it is exported under.
#[derive(Debug, Clone)]
pub struct SelectedFunction {
    pub sig: ValidatedFunctionSignature,
    pub export_name: String,
}

/// Model of [`SelectedFunction`].
pub struct SelectedModel {
    pub sig: VSignatureModel,
    pub export_name: Seq<char>,
}

impl View for SelectedFunction {
    type V = SelectedModel;

    open spec fn view(&self) -> SelectedModel {
        SelectedModel { sig: self.sig@, export_name: self.export_name@ }
    }
}

/// The models of a sequence of selected functions.
pub open spec fn selected_model(v: Seq<SelectedFunction>) -> Seq<SelectedModel> {
    v.map_values(|f: SelectedFunction| f@)
}

/// The export name of a function named `name` under `prefix`: the name
/// itself when the prefix is empty, else the prefix followed by the name.
pub open spec fn prefixed_name(prefix: Seq<char>, name: Seq<char>) -> Seq<char> {
    if prefix.len() == 0 {
        name
    } else {
        prefix + name
    }
}

/// The export name of a function named `name` under `prefix`.
pub fn export_name_for(prefix: &str, name: &str) -> (r: String)
    ensures
        r@ == prefixed_name(prefix@, name@),
        r@ == prefix@ + name@,
{
    let mut r = String::from_str(prefix);
    r.append(name);
    proof {
        if prefix@.len() == 0 {
            assert(prefix@ + name@ =~= name@);
        }
    }
    r
}

/// Every signature, exported under `prefix` followed by its name, in order.
pub fn select_all_with_prefix(sigs: Vec<ValidatedFunctionSignature>, prefix: &str) -> (r: Vec<
    SelectedFunction,
>)
    ensures
        r@.len() == sigs@.len(),
        forall|i: int|
            0 <= i < r@.len() ==> (#[trigger] r@[i])@ == (SelectedModel {
                sig: sigs@[i]@,
                export_name: prefix@ + sigs@[i]@.name,
            }),
{
    let mut r: Vec<SelectedFunction> = Vec::new();
    let mut i: usize = 0;
    while i < sigs.len()
        invariant
            i <= sigs@.len(),
            r@.len() == i,
            forall|k: int|
                0 <= k < i ==> (#[trigger] r@[k])@ == (SelectedModel {
                    sig: sigs@[k]@,
                    export_name: prefix@ + sigs@[k]@.name,
                }),
        decreases sigs@.len() - i,
    {
        let sig = sigs[i].duplicate();
        let export_name = export_name_for(prefix, sig.name.as_str());
        r.push(SelectedFunction { sig, export_name });
        i = i + 1;
    }
    r
}

/// `name: type` for one parameter.
pub open spec fn param_text(p: ParamModel) -> Seq<char> {
    p.name + ": "@ + type_text(p.ty)
}

/// The parameters, as `name: type`, separated by `, `.
pub open spec fn params_text(ps: Seq<ParamModel>) -> Seq<char>
    decreases ps.len(),
{
    if ps.len() == 0 {
        Seq::empty()
    } else if ps.len() == 1 {
        param_text(ps[0])
    } else {
        params_text(ps.drop_last()) + ", "@ + param_text(ps.last())
    }
}

/// `fun name(params)`, followed by ` -> type` for a numeric return.
pub open spec fn sig_short_text(s: VSignatureModel) -> Seq<char> {
    "fun "@ + s.name + "("@ + params_text(s.original_params) + ")"@ + match s.return_type {
        VReturnModel::StringReturn(_) => Seq::empty(),
        VReturnModel::Numeric(t) => " -> "@ + type_text(t),
    }
}

/// A one-line description of a signature, such as
/// `fun f(x: U64, s: [u8; x]) -> U64`.
pub fn format_sig_short(sig: &ValidatedFunctionSignature) -> (r: String)
    ensures
        r@ == sig_short_text(sig@),
{
    let ghost ps = sig@.original_params;
    let mut params = String::new();
    let mut i: usize = 0;
    while i < sig.original_params.len()
        invariant
            i <= sig.original_params@.len(),
            ps == sig@.original_params,
            ps.len() == sig.original_params@.len(),
            params@ == params_text(ps.take(i as int)),
        decreases sig.original_params@.len() - i,
    {
        let p = &sig.original_params[i];
        let ghost before = params@;
        if i > 0 {
            params.append(", ");
        }
        params.append(p.name.as_str());
        params.append(": ");
        let t = p.ty.display_string();
        params.append(t.as_str());
        proof {
            assert(ps.take(i + 1).drop_last() =~= ps.take(i as int));
            assert(ps.take(i + 1).last() == ps[i as int]);
            assert(ps[i as int] == p@);
            if i == 0 {
                assert(ps.take(1)[0] == ps[0]);
                assert(params@ =~= param_text(ps[0]));
            } else {
                assert(params@ =~= before + ", "@ + param_text(ps[i as int]));
            }
        }
        i = i + 1;
    }
    assert(ps.take(ps.len() as int) =~= ps);
    let mut r = String::from_str("fun ");
    r.append(sig.name.as_str());
    r.append("(");
    r.append(params.as_str());
    r.append(")");
    match &sig.return_type {
        ValidatedReturn::StringReturn(_) => {},
        ValidatedReturn::Numeric(ret) => {
            r.append(" -> ");
            let t = ret.display_string();
            r.append(t.as_str());
        },
    }
    assert(r@ =~= sig_short_text(sig@));
    r
}

} // verus!
