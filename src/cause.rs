//! Normalisation of failure descriptions for display.

use vstd::prelude::*;

verus! {

/// Whether `c` has the Unicode `Lowercase` property.
pub uninterp spec fn lower_char(c: char) -> bool;

/// The Unicode uppercase mapping of `c`.
pub uninterp spec fn upper_chars(c: char) -> Seq<char>;

/// Relies on `char::is_lowercase`: its answer depends on `c` alone.
#[verifier::external_body]
fn is_lowercase(c: char) -> (r: bool)
    ensures
        r == lower_char(c),
{
    c.is_lowercase()
}

/// Relies on `char::to_uppercase`: it yields the uppercase mapping of `c`,
/// which is one or more chars and depends on `c` alone.
#[verifier::external_body]
fn to_uppercase(c: char) -> (r: Vec<char>)
    ensures
        r@ == upper_chars(c),
        r@.len() >= 1,
{
    c.to_uppercase().collect()
}

/// Relies on `String`'s `FromIterator<&char>`: the string of exactly these
/// chars, in order.
#[verifier::external_body]
fn string_of(chars: &Vec<char>) -> (r: String)
    ensures
        r@ == chars@,
{
    chars.iter().collect()
}

/// The chars of `s`, in order.
pub fn chars_of(s: &str) -> (r: Vec<char>)
    ensures
        r@ == s@,
{
    broadcast use vstd::string::group_string_axioms;

    let mut out: Vec<char> = Vec::new();
    for c in it: s.chars()
        invariant
            it.seq() == s@,
            out@ == it.seq().take(it.index() as int),
    {
        assert(it.seq().take(it.index() + 1) == out@.push(c));
        out.push(c);
    }
    out
}

/// `s` with its first char replaced by `first_upper` when `first_lower`
/// holds, and a full stop added at the end unless it ends with one already.
/// An empty `s` stays empty.
pub open spec fn normalized(s: Seq<char>, first_lower: bool, first_upper: Seq<char>) -> Seq<char> {
    if s.len() == 0 {
        s
    } else {
        let head = if first_lower {
            first_upper
        } else {
            seq![s[0]]
        };
        let body = head + s.drop_first();
        if body.len() == 0 || body.last() == '.' {
            body
        } else {
            body.push('.')
        }
    }
}

/// The chars of `normalized(desc, first_lower, first_upper)`.
fn normalize_chars(desc: &Vec<char>, first_lower: bool, first_upper: &Vec<char>) -> (r: Vec<char>)
    ensures
        r@ == normalized(desc@, first_lower, first_upper@),
{
    let mut out: Vec<char> = Vec::new();
    if desc.len() == 0 {
        return out;
    }
    if first_lower {
        let mut k: usize = 0;
        while k < first_upper.len()
            invariant
                k <= first_upper@.len(),
                out@ == first_upper@.take(k as int),
            decreases first_upper@.len() - k,
        {
            assert(first_upper@.take(k + 1) == out@.push(first_upper@[k as int]));
            out.push(first_upper[k]);
            k = k + 1;
        }
        assert(first_upper@.take(first_upper@.len() as int) == first_upper@);
    } else {
        out.push(desc[0]);
    }
    let ghost head = out@;
    let mut i: usize = 1;
    while i < desc.len()
        invariant
            1 <= i <= desc@.len(),
            out@ == head + desc@.subrange(1, i as int),
        decreases desc@.len() - i,
    {
        assert(head + desc@.subrange(1, i + 1) == (head + desc@.subrange(1, i as int)).push(desc@[i as int]));
        out.push(desc[i]);
        i = i + 1;
    }
    assert(desc@.subrange(1, desc@.len() as int) == desc@.drop_first());
    let n: usize = out.len();
    if n > 0 && out[n - 1] != '.' {
        out.push('.');
    }
    out
}

/// Normalises the description `desc` given what is known of its first char:
/// whether it is lowercase (`first_lower`) and its uppercase form
/// (`first_upper`).
pub fn normalize_with(desc: &str, first_lower: bool, first_upper: &Vec<char>) -> (r: String)
    ensures
        r@ == normalized(desc@, first_lower, first_upper@),
{
    let chars: Vec<char> = chars_of(desc);
    let out: Vec<char> = normalize_chars(&chars, first_lower, first_upper);
    string_of(&out)
}

/// A failure description as shown to the user: first char capitalised and
/// a full stop at the end. A description that starts with a char that is not
/// lowercase and already ends in a full stop comes back unchanged.
pub fn fmt_err(desc: &str) -> (r: String)
    ensures
        desc@.len() == 0 ==> r@.len() == 0,
        desc@.len() > 0 ==> r@ == normalized(desc@, lower_char(desc@[0]), upper_chars(desc@[0])),
        desc@.len() > 0 ==> r@.len() > 0 && r@.last() == '.',
        desc@.len() > 0 && !lower_char(desc@[0]) && desc@.last() == '.' ==> r@ == desc@,
{
    let chars: Vec<char> = chars_of(desc);
    if chars.len() == 0 {
        return string_of(&chars);
    }
    let first: char = chars[0];
    let lower: bool = is_lowercase(first);
    let upper: Vec<char> = if lower {
        to_uppercase(first)
    } else {
        vec![first]
    };
    proof {
        if !lower_char(desc@[0]) {
            assert(seq![desc@[0]] + desc@.drop_first() == desc@);
        }
    }
    normalize_with(desc, lower, &upper)
}

/// Whether `a` and `b` hold the same chars in the same order.
pub fn same_chars(a: &Vec<char>, b: &Vec<char>) -> (r: bool)
    ensures
        r == (a@ == b@),
{
    if a.len() != b.len() {
        return false;
    }
    let mut i: usize = 0;
    while i < a.len()
        invariant
            a@.len() == b@.len(),
            i <= a@.len(),
            a@.take(i as int) == b@.take(i as int),
        decreases a@.len() - i,
    {
        if a[i] != b[i] {
            assert(a@[i as int] != b@[i as int]);
            return false;
        }
        assert(a@.take(i + 1) == a@.take(i as int).push(a@[i as int]));
        assert(b@.take(i + 1) == b@.take(i as int).push(b@[i as int]));
        i = i + 1;
    }
    assert(a@.take(a@.len() as int) == a@);
    assert(b@.take(b@.len() as int) == b@);
    true
}

/// What the address parser says of a target that is not of the form
/// `host:port`.
pub const MALFORMED_ADDRESS: &'static str = "invalid socket address";

/// What the user is told of a target in the wrong form.
pub const EXPECTED_FORMAT: &'static str = "Invalid argument. Expected format: 'host:port' (i.e. 'google.com:80').";

/// The text shown when the target could not be resolved, given the
/// resolver's description of the failure: a hint at the expected form for a
/// malformed target, otherwise the normalised description.
pub fn resolution_error_text(desc: &str) -> (r: String)
    ensures
        desc@ == MALFORMED_ADDRESS@ ==> r@ == EXPECTED_FORMAT@,
        desc@ != MALFORMED_ADDRESS@ && desc@.len() > 0 ==> r@ == normalized(
            desc@,
            lower_char(desc@[0]),
            upper_chars(desc@[0]),
        ),
        desc@.len() == 0 ==> r@.len() == 0,
{
    proof {
        reveal_strlit("invalid socket address");
    }
    let given: Vec<char> = chars_of(desc);
    let malformed: Vec<char> = chars_of(MALFORMED_ADDRESS);
    if same_chars(&given, &malformed) {
        String::from_str(EXPECTED_FORMAT)
    } else {
        fmt_err(desc)
    }
}

} // verus!
