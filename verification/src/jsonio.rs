//! The boundary to the JSON parser. A payload is a JSON document carried as
//! a string; what the parser extracts from it is a pure function of that
//! string, so each extraction is given a name, and a trusted wrapper around
//! `serde_json` says that its result is the named one. Every contract that
//! speaks of a parsed payload goes through these names.

use vstd::prelude::*;

verus! {

/// The string member at key `k` of the JSON object `s`: present exactly
/// when `s` parses as a JSON document with an object at the top whose
/// member `k` is a string.
pub uninterp spec fn json_str_of(s: Seq<char>, k: Seq<char>) -> Option<Seq<char>>;

/// The boolean member at key `k` of the JSON object `s`.
pub uninterp spec fn json_bool_of(s: Seq<char>, k: Seq<char>) -> Option<bool>;

/// The array member at key `k` of the JSON object `s`, each element
/// reduced to its unsigned 64-bit value, or `None` for an element that has
/// none.
pub uninterp spec fn json_u64s_of(s: Seq<char>, k: Seq<char>) -> Option<Seq<Option<u64>>>;

/// The array member at key `k` of the JSON object `s`, each element
/// reduced to its string value, or `None` for an element that is not a
/// string.
pub uninterp spec fn json_strs_of(s: Seq<char>, k: Seq<char>) -> Option<Seq<Option<Seq<char>>>>;

/// Relies on serde_json: `from_str::<Value>`, then `Value::get` and
/// `Value::as_str`, which return the member only when it exists and is a
/// string. The result depends on the two strings alone.
#[verifier::external_body]
pub(crate) fn json_str_field(s: &str, k: &str) -> (r: Option<String>)
    ensures
        r.deep_view() == json_str_of(s@, k@),
{
    match serde_json::from_str::<serde_json::Value>(s) {
        Ok(v) => v.get(k).and_then(|x| x.as_str()).map(|x| x.to_owned()),
        Err(_) => None,
    }
}

/// Relies on serde_json: `from_str::<Value>`, then `Value::get` and
/// `Value::as_bool`, which return the member only when it exists and is a
/// boolean. The result depends on the two strings alone.
#[verifier::external_body]
pub(crate) fn json_bool_field(s: &str, k: &str) -> (r: Option<bool>)
    ensures
        r == json_bool_of(s@, k@),
{
    match serde_json::from_str::<serde_json::Value>(s) {
        Ok(v) => v.get(k).and_then(|x| x.as_bool()),
        Err(_) => None,
    }
}

/// Relies on serde_json: `from_str::<Value>`, `Value::get`,
/// `Value::as_array`, and `Value::as_u64` on each element, which yields the
/// element's value only for an integral number that fits in a `u64`. The
/// result depends on the two strings alone.
#[verifier::external_body]
pub(crate) fn json_u64_array_field(s: &str, k: &str) -> (r: Option<Vec<Option<u64>>>)
    ensures
        r.deep_view() == json_u64s_of(s@, k@),
{
    match serde_json::from_str::<serde_json::Value>(s) {
        Ok(v) => v.get(k).and_then(|x| x.as_array()).map(
            |a| a.iter().map(|e| e.as_u64()).collect(),
        ),
        Err(_) => None,
    }
}

/// Relies on serde_json: `from_str::<Value>`, `Value::get`,
/// `Value::as_array`, and `Value::as_str` on each element, which yields the
/// element's text only for a string. The result depends on the two strings
/// alone.
#[verifier::external_body]
pub(crate) fn json_str_array_field(s: &str, k: &str) -> (r: Option<Vec<Option<String>>>)
    ensures
        r.deep_view() == json_strs_of(s@, k@),
{
    match serde_json::from_str::<serde_json::Value>(s) {
        Ok(v) => v.get(k).and_then(|x| x.as_array()).map(
            |a| a.iter().map(|e| e.as_str().map(|t| t.to_owned())).collect(),
        ),
        Err(_) => None,
    }
}

/// Every element is an integral value that fits in a byte.
pub open spec fn all_bytes(xs: Seq<Option<u64>>) -> bool {
    forall|i: int| 0 <= i < xs.len() ==> xs[i] is Some && xs[i]->0 <= 255
}

/// The elements of `xs` as bytes, where every element fits; `None`
/// otherwise. This is how a registration payload reads its key arrays: one
/// out-of-range or non-numeric element rejects the whole payload.
pub open spec fn exact_bytes(xs: Seq<Option<u64>>) -> Option<Seq<u8>> {
    if all_bytes(xs) {
        Some(xs.map_values(|x: Option<u64>| (x->0) as u8))
    } else {
        None
    }
}

/// The elements of `xs` as bytes, where an element that is missing or out
/// of range counts as zero. This is how the key-validation payload reads
/// its submitted key.
pub open spec fn bytes_or_zero(xs: Seq<Option<u64>>) -> Seq<u8> {
    xs.map_values(
        |x: Option<u64>| match x {
            Some(b) => if b <= 255 {
                b as u8
            } else {
                0u8
            },
            None => 0u8,
        },
    )
}

/// Converts a parsed array to bytes, rejecting any element that is missing
/// or does not fit in a byte.
pub fn to_exact_bytes(xs: &Vec<Option<u64>>) -> (r: Option<Vec<u8>>)
    ensures
        r.deep_view() == exact_bytes(xs.deep_view()),
{
    let mut out: Vec<u8> = Vec::new();
    let mut i: usize = 0;
    while i < xs.len()
        invariant
            0 <= i <= xs@.len(),
            forall|j: int| 0 <= j < i ==> xs.deep_view()[j] is Some && xs.deep_view()[j]->0 <= 255,
            out@.len() == i,
            forall|j: int| 0 <= j < i ==> out@[j] == (xs.deep_view()[j]->0) as u8,
        decreases xs@.len() - i,
    {
        match xs[i] {
            Some(b) => {
                if b <= 255 {
                    assert(xs.deep_view()[i as int] == Some(b));
                    out.push(b as u8);
                } else {
                    assert(xs.deep_view()[i as int] == Some(b));
                    assert(!all_bytes(xs.deep_view()));
                    return None;
                }
            },
            None => {
                assert(xs.deep_view()[i as int] is None);
                assert(!all_bytes(xs.deep_view()));
                return None;
            },
        }
        i += 1;
    }
    proof {
        assert(all_bytes(xs.deep_view()));
        assert(out@ =~= xs.deep_view().map_values(|x: Option<u64>| (x->0) as u8));
    }
    Some(out)
}

/// Converts a parsed array to bytes, mapping any element that is missing
/// or does not fit in a byte to zero.
pub fn to_bytes_or_zero(xs: &Vec<Option<u64>>) -> (r: Vec<u8>)
    ensures
        r@ == bytes_or_zero(xs.deep_view()),
{
    let mut out: Vec<u8> = Vec::new();
    let mut i: usize = 0;
    while i < xs.len()
        invariant
            0 <= i <= xs@.len(),
            out@.len() == i,
            forall|j: int|
                0 <= j < i ==> out@[j] == (match xs.deep_view()[j] {
                    Some(b) => if b <= 255 {
                        b as u8
                    } else {
                        0u8
                    },
                    None => 0u8,
                }),
        decreases xs@.len() - i,
    {
        match xs[i] {
            Some(b) => {
                if b <= 255 {
                    out.push(b as u8);
                } else {
                    out.push(0u8);
                }
            },
            None => {
                out.push(0u8);
            },
        }
        assert(xs.deep_view()[i as int] == xs@[i as int].deep_view());
        i += 1;
    }
    proof {
        assert(out@ =~= bytes_or_zero(xs.deep_view()));
    }
    out
}

} // verus!
