//! The grammar of Capla function signatures, as a mathematical reading of a
//! source text, and the exec parser that is proved to follow it.
//!
//! A source is scanned for the keyword `fun` (not followed by an identifier
//! character); at each such place a signature
//! `fun name(a b: ty, c: ty, ...) -> ty` is read. Padding is whitespace.
//! Types are `u64`, `i64`, `f64`, `[u8; L]` and `mut [u8; L]`, where the
//! length of an input array is a parameter name and that of an output array
//! a parameter name or a decimal number without leading zeros.

use vstd::prelude::*;

use crate::chars::{
    chars_of, decimal_value, digit_value, ident_continue_char, ident_start_char, is_dec_digit,
    is_ident_continue, is_ident_start, is_padding, string_of, white_space_char,
};
use crate::types::{
    params_model, vsigs_model, CaplaType, FunctionSignature, LengthModel, MutStringLength, Param, ParamModel,
    SignatureModel, TypeModel, VSignatureModel, ValidatedFunctionSignature,
};
use crate::validate::validate_spec;

verus! {

/// The outcome of reading a construct at a position of a source.
pub enum Step<T> {
    /// The construct was read; reading goes on at the given position.
    Done(T, int),
    /// The construct is not there.
    NoMatch,
    /// A fixed array length was read whose value does not fit in a `u64`;
    /// reading stops there.
    TooLarge,
}

/// The end of the run of padding (whitespace) that starts at `i`.
pub open spec fn ws_end(s: Seq<char>, i: int) -> int
    decreases s.len() - i,
{
    if 0 <= i < s.len() && white_space_char(s[i]) {
        ws_end(s, i + 1)
    } else {
        i
    }
}

/// `w` occurs in `s` at position `i`.
pub open spec fn has_lit(s: Seq<char>, i: int, w: Seq<char>) -> bool {
    0 <= i && i + w.len() <= s.len() && s.subrange(i, i + w.len()) == w
}

/// The end of the run of identifier-continue characters that starts at `i`.
pub open spec fn cont_end(s: Seq<char>, i: int) -> int
    decreases s.len() - i,
{
    if 0 <= i < s.len() && ident_continue_char(s[i]) {
        cont_end(s, i + 1)
    } else {
        i
    }
}

/// The end of the identifier that starts at `i`, if one does.
pub open spec fn ident_at(s: Seq<char>, i: int) -> Option<int> {
    if 0 <= i < s.len() && ident_start_char(s[i]) {
        Some(cont_end(s, i + 1))
    } else {
        None
    }
}

/// The end of the run of decimal digits that starts at `i`.
pub open spec fn digits_end(s: Seq<char>, i: int) -> int
    decreases s.len() - i,
{
    if 0 <= i < s.len() && is_dec_digit(s[i]) {
        digits_end(s, i + 1)
    } else {
        i
    }
}

/// The end of the decimal number without leading zeros that starts at `i`
/// (a lone `0`, or a non-zero digit followed by digits), if one does.
pub open spec fn int_at(s: Seq<char>, i: int) -> Option<int> {
    if 0 <= i < s.len() && is_dec_digit(s[i]) && s[i] != '0' {
        Some(digits_end(s, i + 1))
    } else if 0 <= i < s.len() && s[i] == '0' {
        Some(i + 1)
    } else {
        None
    }
}

/// The length of an output array and its closing `]`, at `e`: a name, or a
/// number, which must fit in a `u64`.
pub open spec fn output_length_at(s: Seq<char>, e: int) -> Step<LengthModel> {
    match ident_at(s, e) {
        Some(f) => if has_lit(s, f, seq![']']) {
            Step::Done(LengthModel::VarName(s.subrange(e, f)), f + 1)
        } else {
            Step::NoMatch
        },
        None => match int_at(s, e) {
            Some(f) => if decimal_value(s.subrange(e, f)) > u64::MAX {
                Step::TooLarge
            } else if has_lit(s, f, seq![']']) {
                Step::Done(LengthModel::FixedNumber(decimal_value(s.subrange(e, f)) as u64), f + 1)
            } else {
                Step::NoMatch
            },
            None => Step::NoMatch,
        },
    }
}

/// `mut [u8; L]` at `i` (padding allowed before `mut`, around `[`'s content
/// up to `L`, but not between `L` and `]`).
pub open spec fn output_array_at(s: Seq<char>, i: int) -> Step<TypeModel> {
    let a = ws_end(s, i);
    let b = ws_end(s, a + 3);
    let c = ws_end(s, b + 1);
    let d = ws_end(s, c + 2);
    let e = ws_end(s, d + 1);
    if has_lit(s, a, seq!['m', 'u', 't']) && has_lit(s, b, seq!['[']) && has_lit(
        s,
        c,
        seq!['u', '8'],
    ) && has_lit(s, d, seq![';']) {
        match output_length_at(s, e) {
            Step::Done(l, f) => Step::Done(TypeModel::MutU8Array(l), f),
            Step::NoMatch => Step::NoMatch,
            Step::TooLarge => Step::TooLarge,
        }
    } else {
        Step::NoMatch
    }
}

/// `[u8; L]` at `i`, with `L` an identifier.
pub open spec fn input_array_at(s: Seq<char>, i: int) -> Step<TypeModel> {
    let a = ws_end(s, i + 1);
    let b = ws_end(s, a + 2);
    let c = ws_end(s, b + 1);
    if has_lit(s, i, seq!['[']) && has_lit(s, a, seq!['u', '8']) && has_lit(s, b, seq![';']) {
        match ident_at(s, c) {
            Some(f) => if has_lit(s, f, seq![']']) {
                Step::Done(TypeModel::U8Array(s.subrange(c, f)), f + 1)
            } else {
                Step::NoMatch
            },
            None => Step::NoMatch,
        }
    } else {
        Step::NoMatch
    }
}

/// A type at `i`; the alternatives are tried in the order `u64`, `i64`,
/// `f64`, `mut [u8; L]`, `[u8; L]`.
pub open spec fn type_at(s: Seq<char>, i: int) -> Step<TypeModel> {
    if has_lit(s, i, seq!['u', '6', '4']) {
        Step::Done(TypeModel::U64, i + 3)
    } else if has_lit(s, i, seq!['i', '6', '4']) {
        Step::Done(TypeModel::I64, i + 3)
    } else if has_lit(s, i, seq!['f', '6', '4']) {
        Step::Done(TypeModel::F64, i + 3)
    } else {
        match output_array_at(s, i) {
            Step::Done(t, k) => Step::Done(t, k),
            Step::TooLarge => Step::TooLarge,
            Step::NoMatch => input_array_at(s, i),
        }
    }
}

/// The padded identifiers that follow one another from `i`, and where
/// they end (`i` itself when there is none).
pub open spec fn names_at(s: Seq<char>, i: int) -> (Seq<Seq<char>>, int)
    decreases s.len() - i,
{
    let a = ws_end(s, i);
    match ident_at(s, a) {
        Some(b) => {
            let c = ws_end(s, b);
            proof {
                lemma_ws_end(s, i);
                lemma_ident_at(s, a);
                lemma_ws_end(s, b);
            }
            let rest = names_at(s, c);
            (seq![s.subrange(a, b)] + rest.0, rest.1)
        },
        None => (Seq::empty(), i),
    }
}

/// A parameter group `a b c: ty` at `i`, with its padding: one parameter
/// per name, all of the group's type.
pub open spec fn param_group_at(s: Seq<char>, i: int) -> Step<Seq<ParamModel>> {
    let (names, p) = names_at(s, i);
    let q = ws_end(s, p);
    let r = ws_end(s, q + 1);
    if names.len() > 0 && has_lit(s, q, seq![':']) {
        match type_at(s, r) {
            Step::Done(t, k) => Step::Done(
                names.map_values(|n: Seq<char>| ParamModel { name: n, ty: t }),
                ws_end(s, k),
            ),
            Step::NoMatch => Step::NoMatch,
            Step::TooLarge => Step::TooLarge,
        }
    } else {
        Step::NoMatch
    }
}

/// The parameter groups that follow the first one, each after a padded `,`.
pub open spec fn more_groups_at(s: Seq<char>, j: int) -> Step<Seq<ParamModel>>
    decreases s.len() - j,
{
    let a = ws_end(s, j);
    let b = ws_end(s, a + 1);
    if has_lit(s, a, seq![',']) {
        match param_group_at(s, b) {
            Step::Done(g, k) => {
                proof {
                    lemma_ws_end(s, j);
                    lemma_ws_end(s, a + 1);
                    lemma_param_group_at(s, b);
                }
                match more_groups_at(s, k) {
                    Step::Done(rest, e) => Step::Done(g + rest, e),
                    Step::NoMatch => Step::NoMatch,
                    Step::TooLarge => Step::TooLarge,
                }
            },
            Step::NoMatch => Step::Done(Seq::empty(), j),
            Step::TooLarge => Step::TooLarge,
        }
    } else {
        Step::Done(Seq::empty(), j)
    }
}

/// The comma-separated parameter groups at `i` (possibly none), flattened.
pub open spec fn params_at(s: Seq<char>, i: int) -> Step<Seq<ParamModel>> {
    match param_group_at(s, i) {
        Step::Done(g, j) => match more_groups_at(s, j) {
            Step::Done(rest, e) => Step::Done(g + rest, e),
            Step::NoMatch => Step::NoMatch,
            Step::TooLarge => Step::TooLarge,
        },
        Step::NoMatch => Step::Done(Seq::empty(), i),
        Step::TooLarge => Step::TooLarge,
    }
}

/// A signature `fun name(params)` with an optional `-> ty` at `i`.
pub open spec fn signature_at(s: Seq<char>, i: int) -> Step<SignatureModel> {
    let a = ws_end(s, i + 3);
    if !has_lit(s, i, seq!['f', 'u', 'n']) {
        Step::NoMatch
    } else {
        match ident_at(s, a) {
            None => Step::NoMatch,
            Some(b) => {
                let name = s.subrange(a, b);
                let c = ws_end(s, b);
                if !has_lit(s, c, seq!['(']) {
                    Step::NoMatch
                } else {
                    match params_at(s, c + 1) {
                        Step::TooLarge => Step::TooLarge,
                        Step::NoMatch => Step::NoMatch,
                        Step::Done(ps, d) => if !has_lit(s, d, seq![')']) {
                            Step::NoMatch
                        } else {
                            let e = d + 1;
                            let x = ws_end(s, e);
                            let y = ws_end(s, x + 2);
                            if has_lit(s, x, seq!['-', '>']) {
                                match type_at(s, y) {
                                    Step::Done(t, z) => Step::Done(
                                        SignatureModel { name, params: ps, return_type: Some(t) },
                                        ws_end(s, z),
                                    ),
                                    Step::NoMatch => Step::Done(
                                        SignatureModel { name, params: ps, return_type: None },
                                        e,
                                    ),
                                    Step::TooLarge => Step::TooLarge,
                                }
                            } else {
                                Step::Done(SignatureModel { name, params: ps, return_type: None }, e)
                            }
                        },
                    }
                }
            },
        }
    }
}

/// `i` starts the keyword `fun`: `fun` not followed by an identifier-start
/// character.
pub open spec fn fun_keyword_at(s: Seq<char>, i: int) -> bool {
    has_lit(s, i, seq!['f', 'u', 'n']) && !(i + 3 < s.len() && ident_start_char(s[i + 3]))
}

/// The first position from `i` that starts the keyword `fun`, or the end.
pub open spec fn next_keyword(s: Seq<char>, i: int) -> int
    decreases s.len() - i,
{
    if i >= s.len() {
        s.len() as int
    } else if fun_keyword_at(s, i) {
        i
    } else {
        next_keyword(s, i + 1)
    }
}

/// The signatures read from position `i` on: at each `fun` keyword a
/// signature is read, and where none can be read the keyword is passed
/// over. `None` when a fixed array length is too large for a `u64`.
pub open spec fn signatures_from(s: Seq<char>, i: int) -> Option<Seq<SignatureModel>>
    decreases s.len() - i,
{
    let j = next_keyword(s, i);
    if i < 0 || j >= s.len() {
        Some(Seq::empty())
    } else {
        proof {
            lemma_next_keyword(s, i);
            lemma_signature_at(s, j);
        }
        match signature_at(s, j) {
            Step::TooLarge => None,
            Step::Done(sig, k) => match signatures_from(s, k) {
                Some(rest) => Some(seq![sig] + rest),
                None => None,
            },
            Step::NoMatch => signatures_from(s, j + 3),
        }
    }
}

/// The validated forms of the signatures that pass validation, in order.
pub open spec fn validated_all(sigs: Seq<SignatureModel>) -> Seq<VSignatureModel>
    decreases sigs.len(),
{
    if sigs.len() == 0 {
        Seq::empty()
    } else {
        validated_all(sigs.drop_last()) + match validate_spec(sigs.last()) {
            Some(v) => seq![v],
            None => Seq::empty(),
        }
    }
}

/// What a Capla source yields: the validated signatures read from it, or
/// `None` when a fixed array length in it is too large for a `u64`.
pub open spec fn b_file_spec(s: Seq<char>) -> Option<Seq<VSignatureModel>> {
    match signatures_from(s, 0) {
        Some(sigs) => Some(validated_all(sigs)),
        None => None,
    }
}

// ---------------------------------------------------------------------------
// Lemmas on positions
// ---------------------------------------------------------------------------

/// Padding ends at or after its start, and within the source.
pub proof fn lemma_ws_end(s: Seq<char>, i: int)
    ensures
        i <= ws_end(s, i),
        0 <= i <= s.len() ==> ws_end(s, i) <= s.len(),
        0 <= i <= s.len() ==> ws_end(s, i) == s.len() || !white_space_char(s[ws_end(s, i)]),
        forall|k: int| i <= k < ws_end(s, i) ==> white_space_char(#[trigger] s[k]),
    decreases s.len() - i,
{
    if 0 <= i < s.len() && white_space_char(s[i]) {
        lemma_ws_end(s, i + 1);
    }
}

/// A run of identifier characters ends at or after its start, within the source.
pub proof fn lemma_cont_end(s: Seq<char>, i: int)
    ensures
        i <= cont_end(s, i),
        0 <= i <= s.len() ==> cont_end(s, i) <= s.len(),
    decreases s.len() - i,
{
    if 0 <= i < s.len() && ident_continue_char(s[i]) {
        lemma_cont_end(s, i + 1);
    }
}

/// A run of digits ends at or after its start, within the source, and holds
/// only digits.
pub proof fn lemma_digits_end(s: Seq<char>, i: int)
    ensures
        i <= digits_end(s, i),
        0 <= i <= s.len() ==> digits_end(s, i) <= s.len(),
        forall|k: int| i <= k < digits_end(s, i) ==> is_dec_digit(#[trigger] s[k]),
    decreases s.len() - i,
{
    if 0 <= i < s.len() && is_dec_digit(s[i]) {
        lemma_digits_end(s, i + 1);
    }
}

/// An identifier is not empty and ends within the source.
pub proof fn lemma_ident_at(s: Seq<char>, i: int)
    ensures
        ident_at(s, i) matches Some(b) ==> i < b <= s.len(),
{
    if ident_at(s, i) is Some {
        lemma_cont_end(s, i + 1);
    }
}

/// The next keyword is at or after `i`, and within the source.
pub proof fn lemma_next_keyword(s: Seq<char>, i: int)
    ensures
        0 <= i ==> i <= next_keyword(s, i) <= s.len() || i > s.len(),
        next_keyword(s, i) < s.len() ==> fun_keyword_at(s, next_keyword(s, i)),
    decreases s.len() - i,
{
    if i < s.len() && !fun_keyword_at(s, i) {
        lemma_next_keyword(s, i + 1);
    }
}

/// The names read from `i` end at or after `i`, and after it when there is one.
pub proof fn lemma_names_at(s: Seq<char>, i: int)
    ensures
        i <= names_at(s, i).1,
        0 <= i <= s.len() ==> names_at(s, i).1 <= s.len(),
        names_at(s, i).0.len() > 0 ==> i < names_at(s, i).1,
    decreases s.len() - i,
{
    let a = ws_end(s, i);
    lemma_ws_end(s, i);
    lemma_ident_at(s, a);
    if let Some(b) = ident_at(s, a) {
        lemma_ws_end(s, b);
        lemma_names_at(s, ws_end(s, b));
    }
}

/// A type that is read ends after its start and within the source.
pub proof fn lemma_type_at(s: Seq<char>, i: int)
    ensures
        type_at(s, i) matches Step::Done(_, k) ==> i < k && (0 <= i <= s.len() ==> k <= s.len()),
{
    let a = ws_end(s, i);
    lemma_ws_end(s, i);
    lemma_ws_end(s, a + 3);
    lemma_ws_end(s, ws_end(s, a + 3) + 1);
    lemma_ws_end(s, ws_end(s, ws_end(s, a + 3) + 1) + 2);
    lemma_ws_end(s, ws_end(s, ws_end(s, ws_end(s, a + 3) + 1) + 2) + 1);
    let e = ws_end(s, ws_end(s, ws_end(s, ws_end(s, a + 3) + 1) + 2) + 1);
    lemma_ident_at(s, e);
    lemma_ws_end(s, i + 1);
    lemma_ws_end(s, ws_end(s, i + 1) + 2);
    let c = ws_end(s, ws_end(s, ws_end(s, i + 1) + 2) + 1);
    lemma_ws_end(s, ws_end(s, ws_end(s, i + 1) + 2) + 1);
    lemma_ident_at(s, c);
    if let Some(f) = int_at(s, e) {
        lemma_digits_end(s, e + 1);
    }
}

/// A parameter group that is read ends after its start and within the source.
pub proof fn lemma_param_group_at(s: Seq<char>, i: int)
    ensures
        param_group_at(s, i) matches Step::Done(_, k) ==> i < k && (0 <= i <= s.len() ==> k
            <= s.len()),
{
    let (names, p) = names_at(s, i);
    lemma_names_at(s, i);
    lemma_ws_end(s, p);
    let q = ws_end(s, p);
    lemma_ws_end(s, q + 1);
    let r = ws_end(s, q + 1);
    lemma_type_at(s, r);
    if let Step::Done(t, k) = type_at(s, r) {
        lemma_ws_end(s, k);
    }
}

/// The groups that follow a first one end at or after `j`, within the source.
pub proof fn lemma_more_groups_at(s: Seq<char>, j: int)
    ensures
        more_groups_at(s, j) matches Step::Done(_, k) ==> j <= k && (0 <= j <= s.len() ==> k
            <= s.len()),
    decreases s.len() - j,
{
    let a = ws_end(s, j);
    lemma_ws_end(s, j);
    lemma_ws_end(s, a + 1);
    let b = ws_end(s, a + 1);
    lemma_param_group_at(s, b);
    if has_lit(s, a, seq![',']) {
        if let Step::Done(g, k) = param_group_at(s, b) {
            lemma_more_groups_at(s, k);
        }
    }
}

/// A signature that is read ends after its start, within the source.
pub proof fn lemma_signature_at(s: Seq<char>, i: int)
    ensures
        signature_at(s, i) matches Step::Done(_, k) ==> i < k && (0 <= i <= s.len() ==> k
            <= s.len()),
{
    let a = ws_end(s, i + 3);
    lemma_ws_end(s, i + 3);
    lemma_ident_at(s, a);
    if let Some(b) = ident_at(s, a) {
        lemma_ws_end(s, b);
        let c = ws_end(s, b);
        lemma_param_group_at(s, c + 1);
        if let Step::Done(g, j) = param_group_at(s, c + 1) {
            lemma_more_groups_at(s, j);
        }
        if let Step::Done(ps, d) = params_at(s, c + 1) {
            let e = d + 1;
            lemma_ws_end(s, e);
            let x = ws_end(s, e);
            lemma_ws_end(s, x + 2);
            let y = ws_end(s, x + 2);
            lemma_type_at(s, y);
            if let Step::Done(t, z) = type_at(s, y) {
                lemma_ws_end(s, z);
            }
        }
    }
}


// ---------------------------------------------------------------------------
// Laws
// ---------------------------------------------------------------------------

/// Without the keyword `fun` nothing is read: from `i` the next keyword is the end.
proof fn lemma_no_keyword_from(s: Seq<char>, i: int)
    requires
        0 <= i <= s.len(),
        forall|k: int| 0 <= k < s.len() ==> !fun_keyword_at(s, k),
    ensures
        next_keyword(s, i) == s.len(),
    decreases s.len() - i,
{
    if i < s.len() {
        lemma_no_keyword_from(s, i + 1);
    }
}

/// A source in which the keyword `fun` does not occur yields no signature.
pub proof fn law_no_keyword_no_signatures(s: Seq<char>)
    requires
        forall|k: int| 0 <= k < s.len() ==> !fun_keyword_at(s, k),
    ensures
        b_file_spec(s) == Some(Seq::<VSignatureModel>::empty()),
{
    lemma_no_keyword_from(s, 0);
}

/// Every validated signature comes from one of the signatures read.
pub proof fn lemma_validated_all(sigs: Seq<SignatureModel>, k: int)
    requires
        0 <= k < validated_all(sigs).len(),
    ensures
        exists|j: int| 0 <= j < sigs.len() && validate_spec(#[trigger] sigs[j]) == Some(validated_all(sigs)[k]),
    decreases sigs.len(),
{
    let p = sigs.drop_last();
    if k < validated_all(p).len() {
        lemma_validated_all(p, k);
        let j = choose|j: int| 0 <= j < p.len() && validate_spec(#[trigger] p[j]) == Some(validated_all(p)[k]);
        assert(sigs[j] == p[j]);
    } else {
        assert(validate_spec(sigs[sigs.len() - 1]) == Some(validated_all(sigs)[k]));
    }
}

/// What a source yields is made only of signatures read from it that pass
/// validation, each in its validated form.
pub proof fn law_only_validated_signatures(s: Seq<char>, k: int)
    requires
        b_file_spec(s) matches Some(vs) && 0 <= k < vs.len(),
    ensures
        signatures_from(s, 0) is Some,
        exists|j: int|
            0 <= j < signatures_from(s, 0)->Some_0.len() && validate_spec(
                #[trigger] signatures_from(s, 0)->Some_0[j],
            ) == Some(b_file_spec(s)->Some_0[k]),
{
    lemma_validated_all(signatures_from(s, 0)->Some_0, k);
}

// ---------------------------------------------------------------------------
// The exec reader
// ---------------------------------------------------------------------------

/// The outcome of reading a construct; see [`Step`].
enum Parse<T> {
    Done(T, usize),
    NoMatch,
    TooLarge,
}

/// The end of the padding that starts at `i`.
fn skip_ws(s: &Vec<char>, i: usize) -> (r: usize)
    requires
        i <= s@.len(),
    ensures
        r == ws_end(s@, i as int),
        i <= r <= s@.len(),
{
    let mut j = i;
    while j < s.len() && is_padding(s[j])
        invariant
            i <= j <= s@.len(),
            ws_end(s@, i as int) == ws_end(s@, j as int),
        decreases s@.len() - j,
    {
        j = j + 1;
    }
    j
}

/// `a` occurs at `i`.
fn at1(s: &Vec<char>, i: usize, a: char) -> (r: bool)
    requires
        i <= s@.len(),
    ensures
        r == has_lit(s@, i as int, seq![a]),
        r ==> i + 1 <= s.len(),
{
    if i < s.len() && s[i] == a {
        assert(s@.subrange(i as int, i + 1) =~= seq![a]);
        true
    } else {
        proof {
            if has_lit(s@, i as int, seq![a]) {
                assert(s@.subrange(i as int, i + 1)[0] == s@[i as int]);
            }
        }
        false
    }
}

/// `a b` occurs at `i`.
fn at2(s: &Vec<char>, i: usize, a: char, b: char) -> (r: bool)
    requires
        i <= s@.len(),
    ensures
        r == has_lit(s@, i as int, seq![a, b]),
        r ==> i + 2 <= s.len(),
{
    if s.len() - i >= 2 && s[i] == a && s[i + 1] == b {
        assert(s@.subrange(i as int, i + 2) =~= seq![a, b]);
        true
    } else {
        proof {
            if has_lit(s@, i as int, seq![a, b]) {
                assert(s@.subrange(i as int, i + 2)[0] == s@[i as int]);
                assert(s@.subrange(i as int, i + 2)[1] == s@[i + 1]);
            }
        }
        false
    }
}

/// `a b c` occurs at `i`.
fn at3(s: &Vec<char>, i: usize, a: char, b: char, c: char) -> (r: bool)
    requires
        i <= s@.len(),
    ensures
        r == has_lit(s@, i as int, seq![a, b, c]),
        r ==> i + 3 <= s.len(),
{
    if s.len() - i >= 3 && s[i] == a && s[i + 1] == b && s[i + 2] == c {
        assert(s@.subrange(i as int, i + 3) =~= seq![a, b, c]);
        true
    } else {
        proof {
            if has_lit(s@, i as int, seq![a, b, c]) {
                assert(s@.subrange(i as int, i + 3)[0] == s@[i as int]);
                assert(s@.subrange(i as int, i + 3)[1] == s@[i + 1]);
                assert(s@.subrange(i as int, i + 3)[2] == s@[i + 2]);
            }
        }
        false
    }
}

/// The end of the identifier at `i`, if there is one.
fn ident_end(s: &Vec<char>, i: usize) -> (r: Option<usize>)
    requires
        i <= s@.len(),
    ensures
        match r {
            Some(b) => ident_at(s@, i as int) == Some(b as int) && i < b <= s@.len(),
            None => ident_at(s@, i as int) is None,
        },
{
    if i < s.len() && is_ident_start(s[i]) {
        let mut j = i + 1;
        while j < s.len() && is_ident_continue(s[j])
            invariant
                i < j <= s@.len(),
                cont_end(s@, i + 1) == cont_end(s@, j as int),
            decreases s@.len() - j,
        {
            j = j + 1;
        }
        Some(j)
    } else {
        None
    }
}

/// Whether `c` is a decimal digit.
fn is_digit(c: char) -> (r: bool)
    ensures
        r == is_dec_digit(c),
{
    '0' <= c && c <= '9'
}

/// The end of the decimal number at `i`, if there is one.
fn int_end(s: &Vec<char>, i: usize) -> (r: Option<usize>)
    requires
        i <= s@.len(),
    ensures
        match r {
            Some(f) => int_at(s@, i as int) == Some(f as int) && i < f <= s@.len(),
            None => int_at(s@, i as int) is None,
        },
{
    if i < s.len() && is_digit(s[i]) && s[i] != '0' {
        let mut j = i + 1;
        while j < s.len() && is_digit(s[j])
            invariant
                i < j <= s@.len(),
                digits_end(s@, i + 1) == digits_end(s@, j as int),
            decreases s@.len() - j,
        {
            j = j + 1;
        }
        Some(j)
    } else if i < s.len() && s[i] == '0' {
        Some(i + 1)
    } else {
        None
    }
}

/// A prefix of a digit sequence denotes at most what the whole does.
proof fn lemma_decimal_value_prefix(ds: Seq<char>, m: int)
    requires
        0 <= m <= ds.len(),
    ensures
        decimal_value(ds.take(m)) <= decimal_value(ds),
    decreases ds.len(),
{
    if m < ds.len() {
        lemma_decimal_value_prefix(ds.drop_last(), m);
        assert(ds.drop_last().take(m) =~= ds.take(m));
    } else {
        assert(ds.take(m) =~= ds);
    }
}

/// The value of the digits `s[e..f]`, or `None` when it exceeds `u64::MAX`.
fn digits_value(s: &Vec<char>, e: usize, f: usize) -> (r: Option<u64>)
    requires
        e <= f <= s@.len(),
        forall|k: int| e <= k < f ==> is_dec_digit(#[trigger] s@[k]),
    ensures
        match r {
            Some(v) => v == decimal_value(s@.subrange(e as int, f as int)),
            None => decimal_value(s@.subrange(e as int, f as int)) > u64::MAX,
        },
{
    let mut acc: u64 = 0;
    let mut k = e;
    assert(s@.subrange(e as int, e as int) =~= Seq::<char>::empty());
    while k < f
        invariant
            e <= k <= f <= s@.len(),
            forall|j: int| e <= j < f ==> is_dec_digit(#[trigger] s@[j]),
            acc == decimal_value(s@.subrange(e as int, k as int)),
        decreases f - k,
    {
        let ghost ds = s@.subrange(e as int, k + 1);
        assert(ds.drop_last() =~= s@.subrange(e as int, k as int));
        assert(ds.last() == s@[k as int]);
        assert(is_dec_digit(s@[k as int]));
        let d = (s[k] as u32 - 48) as u64;
        assert(d == digit_value(s@[k as int]));
        match acc.checked_mul(10) {
            Some(t) => match t.checked_add(d) {
                Some(v) => {
                    acc = v;
                },
                None => {
                    proof {
                        lemma_decimal_value_prefix(s@.subrange(e as int, f as int), k + 1 - e);
                        assert(s@.subrange(e as int, f as int).take(k + 1 - e) =~= ds);
                    }
                    return None;
                },
            },
            None => {
                proof {
                    lemma_decimal_value_prefix(s@.subrange(e as int, f as int), k + 1 - e);
                    assert(s@.subrange(e as int, f as int).take(k + 1 - e) =~= ds);
                }
                return None;
            },
        }
        k = k + 1;
    }
    Some(acc)
}


/// Reads the length of an output array and its `]` at `e`.
fn parse_output_length(s: &Vec<char>, e: usize) -> (r: Parse<MutStringLength>)
    requires
        e <= s@.len(),
    ensures
        match r {
            Parse::Done(l, k) => output_length_at(s@, e as int) == Step::Done(l@, k as int) && k
                <= s@.len(),
            Parse::NoMatch => output_length_at(s@, e as int) is NoMatch,
            Parse::TooLarge => output_length_at(s@, e as int) is TooLarge,
        },
{
    match ident_end(s, e) {
        Some(f) => {
            if at1(s, f, ']') {
                Parse::Done(MutStringLength::VarName(string_of(s, e, f)), f + 1)
            } else {
                Parse::NoMatch
            }
        },
        None => match int_end(s, e) {
            Some(f) => {
                proof {
                    lemma_digits_end(s@, e + 1);
                }
                match digits_value(s, e, f) {
                    None => Parse::TooLarge,
                    Some(v) => {
                        if at1(s, f, ']') {
                            Parse::Done(MutStringLength::FixedNumber(v), f + 1)
                        } else {
                            Parse::NoMatch
                        }
                    },
                }
            },
            None => Parse::NoMatch,
        },
    }
}

/// Reads `mut [u8; L]` at `i`.
fn parse_output_array(s: &Vec<char>, i: usize) -> (r: Parse<CaplaType>)
    requires
        i <= s@.len(),
    ensures
        match r {
            Parse::Done(t, k) => output_array_at(s@, i as int) == Step::Done(t@, k as int) && k
                <= s@.len(),
            Parse::NoMatch => output_array_at(s@, i as int) is NoMatch,
            Parse::TooLarge => output_array_at(s@, i as int) is TooLarge,
        },
{
    let a = skip_ws(s, i);
    if !at3(s, a, 'm', 'u', 't') {
        return Parse::NoMatch;
    }
    let b = skip_ws(s, a + 3);
    if !at1(s, b, '[') {
        return Parse::NoMatch;
    }
    let c = skip_ws(s, b + 1);
    if !at2(s, c, 'u', '8') {
        return Parse::NoMatch;
    }
    let d = skip_ws(s, c + 2);
    if !at1(s, d, ';') {
        return Parse::NoMatch;
    }
    let e = skip_ws(s, d + 1);
    match parse_output_length(s, e) {
        Parse::Done(l, k) => Parse::Done(CaplaType::MutU8Array(l), k),
        Parse::NoMatch => Parse::NoMatch,
        Parse::TooLarge => Parse::TooLarge,
    }
}

/// Reads `[u8; L]` at `i`.
fn parse_input_array(s: &Vec<char>, i: usize) -> (r: Parse<CaplaType>)
    requires
        i <= s@.len(),
    ensures
        match r {
            Parse::Done(t, k) => input_array_at(s@, i as int) == Step::Done(t@, k as int) && k
                <= s@.len(),
            Parse::NoMatch => input_array_at(s@, i as int) is NoMatch,
            Parse::TooLarge => false,
        },
{
    if !at1(s, i, '[') {
        return Parse::NoMatch;
    }
    let a = skip_ws(s, i + 1);
    if !at2(s, a, 'u', '8') {
        return Parse::NoMatch;
    }
    let b = skip_ws(s, a + 2);
    if !at1(s, b, ';') {
        return Parse::NoMatch;
    }
    let c = skip_ws(s, b + 1);
    match ident_end(s, c) {
        Some(f) => {
            if at1(s, f, ']') {
                Parse::Done(CaplaType::U8Array { len: string_of(s, c, f) }, f + 1)
            } else {
                Parse::NoMatch
            }
        },
        None => Parse::NoMatch,
    }
}

/// Reads a type at `i`.
fn parse_type(s: &Vec<char>, i: usize) -> (r: Parse<CaplaType>)
    requires
        i <= s@.len(),
    ensures
        match r {
            Parse::Done(t, k) => type_at(s@, i as int) == Step::Done(t@, k as int) && k <= s@.len(),
            Parse::NoMatch => type_at(s@, i as int) is NoMatch,
            Parse::TooLarge => type_at(s@, i as int) is TooLarge,
        },
{
    if at3(s, i, 'u', '6', '4') {
        Parse::Done(CaplaType::U64, i + 3)
    } else if at3(s, i, 'i', '6', '4') {
        Parse::Done(CaplaType::I64, i + 3)
    } else if at3(s, i, 'f', '6', '4') {
        Parse::Done(CaplaType::F64, i + 3)
    } else {
        match parse_output_array(s, i) {
            Parse::Done(t, k) => Parse::Done(t, k),
            Parse::TooLarge => Parse::TooLarge,
            Parse::NoMatch => parse_input_array(s, i),
        }
    }
}

/// The models of a sequence of strings.
pub open spec fn strings_model(v: Seq<String>) -> Seq<Seq<char>> {
    v.map_values(|x: String| x@)
}

/// Reads the padded identifiers that follow one another from `i`.
fn parse_names(s: &Vec<char>, i: usize) -> (r: (Vec<String>, usize))
    requires
        i <= s@.len(),
    ensures
        names_at(s@, i as int) == (strings_model(r.0@), r.1 as int),
        r.1 <= s@.len(),
{
    let mut names: Vec<String> = Vec::new();
    let mut cur = i;
    loop
        invariant
            i <= cur <= s@.len(),
            names_at(s@, i as int) == (
                strings_model(names@) + names_at(s@, cur as int).0,
                names_at(s@, cur as int).1,
            ),
        decreases s@.len() - cur,
    {
        let a = skip_ws(s, cur);
        match ident_end(s, a) {
            Some(b) => {
                let ghost before = names@;
                let name = string_of(s, a, b);
                names.push(name);
                let c = skip_ws(s, b);
                proof {
                    let rest = names_at(s@, c as int);
                    assert(names_at(s@, cur as int) == (seq![s@.subrange(a as int, b as int)]
                        + rest.0, rest.1));
                    assert(strings_model(names@) =~= strings_model(before).push(
                        s@.subrange(a as int, b as int),
                    ));
                    assert(strings_model(before) + (seq![s@.subrange(a as int, b as int)]
                        + rest.0) =~= strings_model(names@) + rest.0);
                }
                cur = c;
            },
            None => {
                proof {
                    assert(strings_model(names@) + Seq::<Seq<char>>::empty() =~= strings_model(
                        names@,
                    ));
                }
                return (names, cur);
            },
        }
    }
}

/// Reads a parameter group `a b: ty` at `i`.
fn parse_param_group(s: &Vec<char>, i: usize) -> (r: Parse<Vec<Param>>)
    requires
        i <= s@.len(),
    ensures
        match r {
            Parse::Done(ps, k) => param_group_at(s@, i as int) == Step::Done(
                params_model(ps@),
                k as int,
            ) && k <= s@.len(),
            Parse::NoMatch => param_group_at(s@, i as int) is NoMatch,
            Parse::TooLarge => param_group_at(s@, i as int) is TooLarge,
        },
{
    let (names, p) = parse_names(s, i);
    if names.len() == 0 {
        return Parse::NoMatch;
    }
    let q = skip_ws(s, p);
    if !at1(s, q, ':') {
        return Parse::NoMatch;
    }
    let r = skip_ws(s, q + 1);
    match parse_type(s, r) {
        Parse::Done(t, k) => {
            let mut ps: Vec<Param> = Vec::new();
            let mut j: usize = 0;
            while j < names.len()
                invariant
                    j <= names@.len(),
                    ps@.len() == j,
                    forall|m: int|
                        0 <= m < j ==> (#[trigger] ps@[m])@ == (ParamModel {
                            name: names@[m]@,
                            ty: t@,
                        }),
                decreases names@.len() - j,
            {
                ps.push(Param { name: names[j].clone(), ty: t.duplicate() });
                j = j + 1;
            }
            let e = skip_ws(s, k);
            proof {
                assert(params_model(ps@) =~= strings_model(names@).map_values(
                    |n: Seq<char>| ParamModel { name: n, ty: t@ },
                ));
            }
            Parse::Done(ps, e)
        },
        Parse::NoMatch => Parse::NoMatch,
        Parse::TooLarge => Parse::TooLarge,
    }
}


/// `acc` followed by what a step read, if it read anything.
pub open spec fn after(acc: Seq<ParamModel>, st: Step<Seq<ParamModel>>) -> Step<Seq<ParamModel>> {
    match st {
        Step::Done(rest, e) => Step::Done(acc + rest, e),
        Step::NoMatch => Step::NoMatch,
        Step::TooLarge => Step::TooLarge,
    }
}

/// Reads the parameter groups that follow a first one, from `j`.
fn parse_more_groups(s: &Vec<char>, j: usize) -> (r: Parse<Vec<Param>>)
    requires
        j <= s@.len(),
    ensures
        match r {
            Parse::Done(ps, k) => more_groups_at(s@, j as int) == Step::Done(
                params_model(ps@),
                k as int,
            ) && k <= s@.len(),
            Parse::NoMatch => more_groups_at(s@, j as int) is NoMatch,
            Parse::TooLarge => more_groups_at(s@, j as int) is TooLarge,
        },
{
    let mut acc: Vec<Param> = Vec::new();
    let mut cur = j;
    loop
        invariant
            j <= cur <= s@.len(),
            more_groups_at(s@, j as int) == after(params_model(acc@), more_groups_at(s@, cur as int)),
        decreases s@.len() - cur,
    {
        let a = skip_ws(s, cur);
        if !at1(s, a, ',') {
            assert(params_model(acc@) + Seq::<ParamModel>::empty() =~= params_model(acc@));
            return Parse::Done(acc, cur);
        }
        let b = skip_ws(s, a + 1);
        match parse_param_group(s, b) {
            Parse::Done(g, k) => {
                proof {
                    lemma_param_group_at(s@, b as int);
                }
                let ghost before = params_model(acc@);
                let ghost gm = params_model(g@);
                let mut g = g;
                acc.append(&mut g);
                proof {
                    assert(params_model(acc@) =~= before + gm);
                    assert(more_groups_at(s@, cur as int) == after(gm, more_groups_at(s@, k as int)));
                    match more_groups_at(s@, k as int) {
                        Step::Done(rest, e) => {
                            assert(before + (gm + rest) =~= (before + gm) + rest);
                        },
                        _ => {},
                    }
                }
                cur = k;
            },
            Parse::NoMatch => {
                assert(params_model(acc@) + Seq::<ParamModel>::empty() =~= params_model(acc@));
                return Parse::Done(acc, cur);
            },
            Parse::TooLarge => {
                return Parse::TooLarge;
            },
        }
    }
}

/// Reads the comma-separated parameter groups at `i`.
fn parse_params(s: &Vec<char>, i: usize) -> (r: Parse<Vec<Param>>)
    requires
        i <= s@.len(),
    ensures
        match r {
            Parse::Done(ps, k) => params_at(s@, i as int) == Step::Done(params_model(ps@), k as int)
                && k <= s@.len(),
            Parse::NoMatch => params_at(s@, i as int) is NoMatch,
            Parse::TooLarge => params_at(s@, i as int) is TooLarge,
        },
{
    match parse_param_group(s, i) {
        Parse::Done(g, j) => match parse_more_groups(s, j) {
            Parse::Done(rest, e) => {
                let ghost gm = params_model(g@);
                let ghost rm = params_model(rest@);
                let mut g = g;
                let mut rest = rest;
                g.append(&mut rest);
                assert(params_model(g@) =~= gm + rm);
                Parse::Done(g, e)
            },
            Parse::NoMatch => Parse::NoMatch,
            Parse::TooLarge => Parse::TooLarge,
        },
        Parse::NoMatch => {
            let none: Vec<Param> = Vec::new();
            assert(params_model(none@) =~= Seq::<ParamModel>::empty());
            Parse::Done(none, i)
        },
        Parse::TooLarge => Parse::TooLarge,
    }
}

/// Reads a signature at `i`.
fn parse_signature(s: &Vec<char>, i: usize) -> (r: Parse<FunctionSignature>)
    requires
        i <= s@.len(),
    ensures
        match r {
            Parse::Done(sig, k) => signature_at(s@, i as int) == Step::Done(sig@, k as int) && k
                <= s@.len(),
            Parse::NoMatch => signature_at(s@, i as int) is NoMatch,
            Parse::TooLarge => signature_at(s@, i as int) is TooLarge,
        },
{
    if !at3(s, i, 'f', 'u', 'n') {
        return Parse::NoMatch;
    }
    let a = skip_ws(s, i + 3);
    let b = match ident_end(s, a) {
        Some(b) => b,
        None => {
            return Parse::NoMatch;
        },
    };
    let c = skip_ws(s, b);
    if !at1(s, c, '(') {
        return Parse::NoMatch;
    }
    let (params, d) = match parse_params(s, c + 1) {
        Parse::Done(ps, d) => (ps, d),
        Parse::NoMatch => {
            return Parse::NoMatch;
        },
        Parse::TooLarge => {
            return Parse::TooLarge;
        },
    };
    if !at1(s, d, ')') {
        return Parse::NoMatch;
    }
    let e = d + 1;
    let name = string_of(s, a, b);
    let x = skip_ws(s, e);
    if at2(s, x, '-', '>') {
        let y = skip_ws(s, x + 2);
        match parse_type(s, y) {
            Parse::Done(t, z) => {
                let k = skip_ws(s, z);
                Parse::Done(FunctionSignature { name, params, return_type: Some(t) }, k)
            },
            Parse::NoMatch => Parse::Done(FunctionSignature { name, params, return_type: None }, e),
            Parse::TooLarge => Parse::TooLarge,
        }
    } else {
        Parse::Done(FunctionSignature { name, params, return_type: None }, e)
    }
}

/// Whether the keyword `fun` starts at `i`.
fn fun_keyword(s: &Vec<char>, i: usize) -> (r: bool)
    requires
        i <= s@.len(),
    ensures
        r == fun_keyword_at(s@, i as int),
        r ==> i + 3 <= s.len(),
{
    at3(s, i, 'f', 'u', 'n') && !(s.len() - i > 3 && is_ident_start(s[i + 3]))
}

/// The first position from `i` that starts the keyword `fun`, or the end.
fn find_keyword(s: &Vec<char>, i: usize) -> (r: usize)
    requires
        i <= s@.len(),
    ensures
        r == next_keyword(s@, i as int),
        i <= r <= s@.len(),
{
    let mut j = i;
    while j < s.len() && !fun_keyword(s, j)
        invariant
            i <= j <= s@.len(),
            next_keyword(s@, i as int) == next_keyword(s@, j as int),
        decreases s@.len() - j,
    {
        j = j + 1;
    }
    j
}

/// `acc` followed by what was read afterwards, if reading did not stop.
pub open spec fn sigs_after(acc: Seq<SignatureModel>, rest: Option<Seq<SignatureModel>>) -> Option<
    Seq<SignatureModel>,
> {
    match rest {
        Some(r) => Some(acc + r),
        None => None,
    }
}

/// The validated signatures of a source given as characters.
#[verifier::rlimit(40)]
fn read_signatures(s: &Vec<char>) -> (r: Option<Vec<ValidatedFunctionSignature>>)
    ensures
        match r {
            Some(v) => b_file_spec(s@) == Some(vsigs_model(v@)),
            None => b_file_spec(s@) is None,
        },
{
    let mut out: Vec<ValidatedFunctionSignature> = Vec::new();
    let ghost mut read: Seq<SignatureModel> = Seq::empty();
    let mut cur: usize = 0;
    loop
        invariant
            cur <= s@.len(),
            signatures_from(s@, 0) == sigs_after(read, signatures_from(s@, cur as int)),
            vsigs_model(out@) == validated_all(read),
        decreases s@.len() - cur,
    {
        let j = find_keyword(s, cur);
        if j >= s.len() {
            assert(read + Seq::<SignatureModel>::empty() =~= read);
            return Some(out);
        }
        proof {
            lemma_next_keyword(s@, cur as int);
        }
        match parse_signature(s, j) {
            Parse::TooLarge => {
                return None;
            },
            Parse::Done(sig, k) => {
                proof {
                    lemma_signature_at(s@, j as int);
                    let m = sig@;
                    match signatures_from(s@, k as int) {
                        Some(rest) => {
                            assert(read + (seq![m] + rest) =~= read.push(m) + rest);
                        },
                        None => {},
                    }
                    assert(read.push(m).drop_last() =~= read);
                    read = read.push(m);
                }
                let ghost before = out@;
                match sig.validate() {
                    Some(v) => {
                        out.push(v);
                        assert(vsigs_model(out@) =~= vsigs_model(before) + seq![v@]);
                    },
                    None => {
                        assert(vsigs_model(before) + Seq::<VSignatureModel>::empty() =~= vsigs_model(before));
                    },
                }
                cur = k;
            },
            Parse::NoMatch => {
                cur = j + 3;
            },
        }
    }
}

/// The validated signatures of the functions of a Capla source, in source
/// order; signatures that do not validate are left out.
pub fn parse_b_file(source: &str) -> (r: Vec<ValidatedFunctionSignature>)
    requires
        b_file_spec(source@) is Some,
    ensures
        b_file_spec(source@) == Some(vsigs_model(r@)),
{
    let s = chars_of(source);
    match read_signatures(&s) {
        Some(v) => v,
        None => Vec::new(),
    }
}

/// [`parse_b_file`], or `None` when a fixed array length in `source` does
/// not fit in a `u64`.
pub fn parse_b_file_checked(source: &str) -> (r: Option<Vec<ValidatedFunctionSignature>>)
    ensures
        match r {
            Some(v) => b_file_spec(source@) == Some(vsigs_model(v@)),
            None => b_file_spec(source@) is None,
        },
{
    let s = chars_of(source);
    read_signatures(&s)
}

} // verus!
