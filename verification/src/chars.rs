//! Character classification and small string utilities.

use vstd::prelude::*;

verus! {

/// Name for the result of chumsky's `Char::is_ident_start` on a `char`.
pub uninterp spec fn ident_start_char(c: char) -> bool;

/// Name for the result of chumsky's `Char::is_ident_continue` on a `char`.
pub uninterp spec fn ident_continue_char(c: char) -> bool;

/// Whether `c` has the Unicode White_Space property: U+0009 to U+000D,
/// U+0020, U+0085, U+00A0, U+1680, U+2000 to U+200A, U+2028, U+2029,
/// U+202F, U+205F and U+3000.
pub open spec fn white_space_char(c: char) -> bool {
    let n = c as u32;
    ||| 0x09 <= n <= 0x0d
    ||| n == 0x20
    ||| n == 0x85
    ||| n == 0xa0
    ||| n == 0x1680
    ||| 0x2000 <= n <= 0x200a
    ||| n == 0x2028
    ||| n == 0x2029
    ||| n == 0x202f
    ||| n == 0x205f
    ||| n == 0x3000
}

/// Whether `c` is an ASCII letter.
pub open spec fn ascii_letter(c: char) -> bool {
    ('a' <= c && c <= 'z') || ('A' <= c && c <= 'Z')
}

/// Calls chumsky's `Char::is_ident_start` for `char`, which is
/// `unicode_ident::is_xid_start(c) || c == '_'`. The contract names the
/// result and states it for ASCII, where unicode-ident accepts exactly the
/// letters; the XID_Start table beyond ASCII is left unsaid.
#[verifier::external_body]
pub(crate) fn is_ident_start(c: char) -> (r: bool)
    ensures
        r == ident_start_char(c),
        (c as u32) < 128 ==> (r <==> (ascii_letter(c) || c == '_')),
{
    <char as chumsky::text::Char>::is_ident_start(&c)
}

/// Calls chumsky's `Char::is_ident_continue` for `char`
/// (`unicode_ident::is_xid_continue`). The contract names the result and
/// states it for ASCII, where unicode-ident accepts exactly the letters, the
/// digits and `_`; the XID_Continue table beyond ASCII is left unsaid.
#[verifier::external_body]
pub(crate) fn is_ident_continue(c: char) -> (r: bool)
    ensures
        r == ident_continue_char(c),
        (c as u32) < 128 ==> (r <==> (ascii_letter(c) || ('0' <= c && c <= '9') || c == '_')),
{
    <char as chumsky::text::Char>::is_ident_continue(&c)
}

/// Calls chumsky's `Char::is_whitespace` for `char` (the test that
/// `padded()` uses), which is std's `char::is_whitespace`: the Unicode
/// White_Space property.
#[verifier::external_body]
pub(crate) fn is_padding(c: char) -> (r: bool)
    ensures
        r == white_space_char(c),
{
    <char as chumsky::text::Char>::is_whitespace(&c)
}


/// The characters of `s`, in order.
pub fn chars_of(s: &str) -> (v: Vec<char>)
    ensures
        v@ == s@,
{
    broadcast use vstd::string::group_string_axioms;
    let mut v: Vec<char> = Vec::new();
    for c in it: s.chars()
        invariant
            v@ == it.seq().take(it.index() as int),
            it.seq() == s@,
    {
        v.push(c);
    }
    v
}


/// Appends `c` to `s`: std's `String::push`.
#[verifier::external_body]
pub(crate) fn push_char(s: &mut String, c: char)
    ensures
        final(s)@ == old(s)@.push(c),
{
    s.push(c);
}

/// A new string holding `v[from..to]`.
pub fn string_of(v: &Vec<char>, from: usize, to: usize) -> (r: String)
    requires
        from <= to <= v.len(),
    ensures
        r@ == v@.subrange(from as int, to as int),
{
    let mut r = String::new();
    let mut i = from;
    while i < to
        invariant
            from <= i <= to <= v.len(),
            r@ == v@.subrange(from as int, i as int),
        decreases to - i,
    {
        push_char(&mut r, v[i]);
        i = i + 1;
    }
    r
}

/// The decimal digit character for `d` (`d < 10`).
pub open spec fn digit_char(d: nat) -> char {
    (d + 48) as char
}

/// The value of a decimal digit character.
pub open spec fn digit_value(c: char) -> nat {
    (c as int - 48) as nat
}

/// Whether `c` is one of `'0'..='9'` (what `char::is_digit(10)` accepts).
pub open spec fn is_dec_digit(c: char) -> bool {
    '0' <= c && c <= '9'
}

/// The decimal representation of `n`, without leading zeros.
pub open spec fn decimal(n: nat) -> Seq<char>
    decreases n,
{
    if n < 10 {
        seq![digit_char(n)]
    } else {
        decimal(n / 10).push(digit_char(n % 10))
    }
}

/// The number that a sequence of decimal digits denotes.
pub open spec fn decimal_value(ds: Seq<char>) -> nat
    decreases ds.len(),
{
    if ds.len() == 0 {
        0
    } else {
        decimal_value(ds.drop_last()) * 10 + digit_value(ds.last())
    }
}

/// Appends the decimal representation of `n` to `out`.
pub fn push_decimal(out: &mut String, n: u64)
    ensures
        final(out)@ == old(out)@ + decimal(n as nat),
    decreases n,
{
    if n >= 10 {
        push_decimal(out, n / 10);
    }
    let d = (n % 10) as u8;
    let c = (48u8 + d) as char;
    push_char(out, c);
    assert(old(out)@ + decimal(n as nat) =~= final(out)@);
}

/// Every digit of `decimal(n)` is a decimal digit, and reading them back
/// gives `n`.
pub proof fn lemma_decimal_roundtrip(n: nat)
    ensures
        forall|i: int| 0 <= i < decimal(n).len() ==> is_dec_digit(#[trigger] decimal(n)[i]),
        decimal_value(decimal(n)) == n,
        decimal(n).len() >= 1,
        decimal(n).len() > 1 <==> n >= 10,
        decimal(n).len() > 1 ==> decimal(n)[0] != '0',
    decreases n,
{
    lemma_digit_char(n % 10);
    if n >= 10 {
        lemma_decimal_roundtrip(n / 10);
        if n / 10 < 10 {
            lemma_digit_char(n / 10);
            assert(decimal(n / 10) =~= seq![digit_char(n / 10)]);
        }
        let ds = decimal(n);
        assert(ds == decimal(n / 10).push(digit_char(n % 10)));
        assert(ds.drop_last() =~= decimal(n / 10));
        assert(ds.last() == digit_char(n % 10));
        assert(decimal_value(ds) == decimal_value(ds.drop_last()) * 10 + digit_value(ds.last()));
        assert(ds[0] == decimal(n / 10)[0]);
    } else {
        lemma_digit_char(n);
        let ds = decimal(n);
        assert(ds =~= seq![digit_char(n)]);
        assert(ds.drop_last() =~= Seq::<char>::empty());
        assert(decimal_value(ds.drop_last()) == 0);
    }
}

/// `digit_char` is a decimal digit whose value is the digit it was made from.
pub proof fn lemma_digit_char(d: nat)
    requires
        d < 10,
    ensures
        is_dec_digit(digit_char(d)),
        digit_value(digit_char(d)) == d,
        d != 0 ==> digit_char(d) != '0',
{
    assert((d + 48) as char as int == d + 48);
}


/// Calls std's `char::is_whitespace`, the Unicode White_Space property.
#[verifier::external_body]
pub(crate) fn is_white_space(c: char) -> (r: bool)
    ensures
        r == white_space_char(c),
{
    c.is_whitespace()
}

/// Removes the last character of `s`, if any: std's `String::pop`.
#[verifier::external_body]
pub(crate) fn pop_char(s: &mut String)
    ensures
        final(s)@ == (if old(s)@.len() > 0 {
            old(s)@.drop_last()
        } else {
            old(s)@
        }),
{
    s.pop();
}

/// The first position from `i` that does not hold white space (or the end).
pub open spec fn lead_end(s: Seq<char>, i: int) -> int
    decreases s.len() - i,
{
    if 0 <= i < s.len() && white_space_char(s[i]) {
        lead_end(s, i + 1)
    } else {
        i
    }
}

/// The position after the last character before `j` and at or after `a`
/// that does not hold white space (or `a`).
pub open spec fn trail_end(s: Seq<char>, a: int, j: int) -> int
    decreases j - a,
{
    if a < j && j <= s.len() && white_space_char(s[j - 1]) {
        trail_end(s, a, j - 1)
    } else {
        j
    }
}

/// `s` without its leading and trailing white space (what `str::trim` gives).
pub open spec fn trimmed(s: Seq<char>) -> Seq<char> {
    let a = lead_end(s, 0);
    s.subrange(a, trail_end(s, a, s.len() as int))
}

proof fn lemma_lead_end(s: Seq<char>, i: int)
    requires
        0 <= i <= s.len(),
    ensures
        i <= lead_end(s, i) <= s.len(),
        lead_end(s, i) < s.len() ==> !white_space_char(s[lead_end(s, i)]),
    decreases s.len() - i,
{
    if i < s.len() && white_space_char(s[i]) {
        lemma_lead_end(s, i + 1);
    }
}

proof fn lemma_trail_end(s: Seq<char>, a: int, j: int)
    requires
        0 <= a <= j <= s.len(),
    ensures
        a <= trail_end(s, a, j) <= j,
        a < trail_end(s, a, j) ==> !white_space_char(s[trail_end(s, a, j) - 1]),
    decreases j - a,
{
    if a < j && white_space_char(s[j - 1]) {
        lemma_trail_end(s, a, j - 1);
    }
}

/// Trimming twice is trimming once: what `trimmed` gives neither starts nor
/// ends with white space.
pub proof fn lemma_trimmed_idempotent(s: Seq<char>)
    ensures
        trimmed(trimmed(s)) == trimmed(s),
{
    let a = lead_end(s, 0);
    lemma_lead_end(s, 0);
    let b = trail_end(s, a, s.len() as int);
    lemma_trail_end(s, a, s.len() as int);
    let t = trimmed(s);
    assert(t == s.subrange(a, b));
    if t.len() > 0 {
        assert(t[0] == s[a]);
        assert(!white_space_char(t[0]));
        assert(lead_end(t, 0) == 0);
        assert(t[t.len() - 1] == s[b - 1]);
        assert(trail_end(t, 0, t.len() as int) == t.len());
        assert(t.subrange(0, t.len() as int) =~= t);
    } else {
        assert(lead_end(t, 0) == 0);
        assert(trail_end(t, 0, 0) == 0);
        assert(t.subrange(0, 0) =~= t);
    }
}

/// `s` without its leading and trailing white space.
pub fn trim(s: &String) -> (r: String)
    ensures
        r@ == trimmed(s@),
{
    let v = chars_of(s.as_str());
    let mut a: usize = 0;
    while a < v.len() && is_white_space(v[a])
        invariant
            a <= v@.len(),
            v@ == s@,
            lead_end(s@, 0) == lead_end(s@, a as int),
        decreases v@.len() - a,
    {
        a = a + 1;
    }
    let mut b: usize = v.len();
    while a < b && is_white_space(v[b - 1])
        invariant
            a <= b <= v@.len(),
            v@ == s@,
            trail_end(s@, a as int, s@.len() as int) == trail_end(s@, a as int, b as int),
        decreases b - a,
    {
        b = b - 1;
    }
    string_of(&v, a, b)
}

/// `w` occurs somewhere in `s`.
pub open spec fn contains_seq(s: Seq<char>, w: Seq<char>) -> bool {
    exists|i: int| 0 <= i && i + w.len() <= s.len() && #[trigger] s.subrange(i, i + w.len()) == w
}

/// Whether `w` occurs in `s` at `i`.
fn occurs_at(s: &Vec<char>, w: &Vec<char>, i: usize) -> (r: bool)
    requires
        i + w@.len() <= s.len(),
    ensures
        r == (s@.subrange(i as int, i + w@.len()) == w@),
{
    let mut k: usize = 0;
    while k < w.len()
        invariant
            k <= w@.len(),
            i + w@.len() <= s.len(),
            forall|m: int| 0 <= m < k ==> s@[i + m] == w@[m],
        decreases w@.len() - k,
    {
        if s[i + k] != w[k] {
            assert(s@.subrange(i as int, i + w@.len())[k as int] != w@[k as int]);
            return false;
        }
        k = k + 1;
    }
    assert(s@.subrange(i as int, i + w@.len()) =~= w@);
    true
}

/// Whether `w` occurs somewhere in `s`.
pub fn contains_str(s: &str, w: &str) -> (r: bool)
    ensures
        r == contains_seq(s@, w@),
{
    let sv = chars_of(s);
    let wv = chars_of(w);
    if wv.len() > sv.len() {
        return false;
    }
    if wv.len() == 0 {
        assert(s@.subrange(0int, 0int + w@.len()) =~= w@);
        return true;
    }
    let mut i: usize = 0;
    while i <= sv.len() - wv.len()
        invariant
            wv@.len() <= sv@.len(),
            sv@ == s@,
            wv@ == w@,
            0 < wv@.len(),
            i <= sv@.len() - wv@.len() + 1,
            forall|j: int| 0 <= j < i ==> #[trigger] s@.subrange(j, j + w@.len()) != w@,
        decreases sv@.len() + 1 - i,
    {
        if occurs_at(&sv, &wv, i) {
            return true;
        }
        i = i + 1;
    }
    proof {
        assert forall|j: int| 0 <= j && j + w@.len() <= s@.len() implies #[trigger] s@.subrange(
            j,
            j + w@.len(),
        ) != w@ by {
            assert(j < i);
        }
    }
    false
}

} // verus!
