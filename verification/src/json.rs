//! The boundary to serde_json. Fragments are parsed into `serde_json::Value`
//! trees here; everything that reads a tree goes through the small accessor
//! functions below, and all interpretation of what was read is done by
//! verified code in the message modules.
//!
//! Each accessor's result is a function of its arguments alone, so it is
//! given a name (an uninterpreted specification function); the accessor's
//! contract says the call returns the named value, and the decoders' own
//! contracts are then stated — and proved — over those names.

use vstd::prelude::*;

use crate::errors::DecodeError;

verus! {

#[verifier::external_type_specification]
#[verifier::external_body]
pub struct ExValue(serde_json::Value);

/// What `serde_json::from_str::<Value>` returns on the given text: the
/// parsed tree, or nothing when the text is not well-formed JSON.
pub uninterp spec fn parsed_json(s: Seq<char>) -> Option<serde_json::Value>;

/// What `Value::get` with a string key returns: the field of a JSON object,
/// or nothing for a missing key or a non-object.
pub uninterp spec fn json_field(v: serde_json::Value, key: Seq<char>) -> Option<serde_json::Value>;

/// What `Value::get` with a numeric index returns: the element of a JSON
/// array, or nothing when out of bounds or not an array.
pub uninterp spec fn json_element(v: serde_json::Value, i: int) -> Option<serde_json::Value>;

/// What `Value::as_array` reveals of the length: the element count of a
/// JSON array, or nothing for a non-array.
pub uninterp spec fn json_length(v: serde_json::Value) -> Option<int>;

/// What `Value::as_str` returns: the characters of a JSON string, or
/// nothing for a non-string.
pub uninterp spec fn json_text(v: serde_json::Value) -> Option<Seq<char>>;

/// What `Value::as_i64` returns.
pub uninterp spec fn json_integer(v: serde_json::Value) -> Option<i64>;

/// What `Value::as_bool` returns.
pub uninterp spec fn json_boolean(v: serde_json::Value) -> Option<bool>;

/// What `Value::is_object` returns.
pub uninterp spec fn json_object(v: serde_json::Value) -> bool;

/// What `Value::is_null` returns.
pub uninterp spec fn json_null(v: serde_json::Value) -> bool;

/// Relies on `serde_json::from_str::<Value>` for parsing a candidate
/// fragment; the error value is dropped, success is what the classifier
/// interprets.
#[verifier::external_body]
pub(crate) fn json_parse(s: &str) -> (r: Option<serde_json::Value>)
    ensures
        r == parsed_json(s@),
{
    serde_json::from_str(s).ok()
}

/// Relies on `serde_json::Value::get` with a string key: field lookup in a
/// JSON object, `None` for a missing key or a non-object.
#[verifier::external_body]
pub(crate) fn json_get<'a>(v: &'a serde_json::Value, key: &str) -> (r: Option<
    &'a serde_json::Value,
>)
    ensures
        match r {
            Option::Some(x) => json_field(*v, key@) == Option::Some(*x),
            Option::None => json_field(*v, key@) is None,
        },
{
    v.get(key)
}

/// Relies on `serde_json::Value::get` with a numeric index: element lookup
/// in a JSON array, `None` when out of bounds or not an array.
#[verifier::external_body]
pub(crate) fn json_index<'a>(v: &'a serde_json::Value, i: usize) -> (r: Option<
    &'a serde_json::Value,
>)
    ensures
        match r {
            Option::Some(x) => json_element(*v, i as int) == Option::Some(*x),
            Option::None => json_element(*v, i as int) is None,
        },
{
    v.get(i)
}

/// Relies on `serde_json::Value::as_array`, reporting only the length of
/// the array, or `None` for a non-array.
#[verifier::external_body]
pub(crate) fn json_array_len(v: &serde_json::Value) -> (r: Option<usize>)
    ensures
        match r {
            Option::Some(n) => json_length(*v) == Option::Some(n as int),
            Option::None => json_length(*v) is None,
        },
{
    match v.as_array() {
        Some(a) => Some(a.len()),
        None => None,
    }
}

/// Relies on `serde_json::Value::as_str`, copied to an owned string.
#[verifier::external_body]
pub(crate) fn json_as_str(v: &serde_json::Value) -> (r: Option<String>)
    ensures
        match r {
            Option::Some(s) => json_text(*v) == Option::Some(s@),
            Option::None => json_text(*v) is None,
        },
{
    match v.as_str() {
        Some(s) => Some(s.to_string()),
        None => None,
    }
}

/// Relies on `serde_json::Value::as_i64`.
#[verifier::external_body]
pub(crate) fn json_as_i64(v: &serde_json::Value) -> (r: Option<i64>)
    ensures
        r == json_integer(*v),
{
    v.as_i64()
}

/// Relies on `serde_json::Value::as_bool`.
#[verifier::external_body]
pub(crate) fn json_as_bool(v: &serde_json::Value) -> (r: Option<bool>)
    ensures
        r == json_boolean(*v),
{
    v.as_bool()
}

/// Relies on `serde_json::Value::is_object`.
#[verifier::external_body]
pub(crate) fn json_is_object(v: &serde_json::Value) -> (r: bool)
    ensures
        r == json_object(*v),
{
    v.is_object()
}

/// Relies on `serde_json::Value::is_null`.
#[verifier::external_body]
pub(crate) fn json_is_null(v: &serde_json::Value) -> (r: bool)
    ensures
        r == json_null(*v),
{
    v.is_null()
}

// ---------------------------------------------------------------------------
// The decoding conventions shared by every message family, as composites of
// the named accessor results, with verified readers proved against them: a
// missing required field or an unusable value is a `Malformed` fragment;
// fields the protocol leaves out get their documented default.
// ---------------------------------------------------------------------------

/// The text of a string field.
pub open spec fn text_field(v: serde_json::Value, key: Seq<char>) -> Option<Seq<char>> {
    match json_field(v, key) {
        Option::Some(x) => json_text(x),
        Option::None => Option::None,
    }
}

/// A JSON integer narrowed to the protocol's 32-bit range.
pub open spec fn int32_of(x: serde_json::Value) -> Option<i32> {
    match json_integer(x) {
        Option::Some(n) => if i32::MIN <= n <= i32::MAX {
            Option::Some(n as i32)
        } else {
            Option::None
        },
        Option::None => Option::None,
    }
}

/// A required 32-bit integer field.
pub open spec fn i32_field(v: serde_json::Value, key: Seq<char>) -> Option<i32> {
    match json_field(v, key) {
        Option::Some(x) => int32_of(x),
        Option::None => Option::None,
    }
}

/// A 32-bit integer field that defaults when absent.
pub open spec fn i32_field_or(v: serde_json::Value, key: Seq<char>, default: i32) -> Option<i32> {
    match json_field(v, key) {
        Option::Some(x) => int32_of(x),
        Option::None => Option::Some(default),
    }
}

/// An optional 32-bit integer field: the outer `None` is a malformed value,
/// the inner `None` an absent or null field.
pub open spec fn opt_i32_field(v: serde_json::Value, key: Seq<char>) -> Option<Option<i32>> {
    match json_field(v, key) {
        Option::None => Option::Some(Option::None),
        Option::Some(x) => if json_null(x) {
            Option::Some(Option::None)
        } else {
            match int32_of(x) {
                Option::Some(y) => Option::Some(Option::Some(y)),
                Option::None => Option::None,
            }
        },
    }
}

/// An optional string field, with the same outer/inner reading.
pub open spec fn opt_text_field(v: serde_json::Value, key: Seq<char>) -> Option<
    Option<Seq<char>>,
> {
    match json_field(v, key) {
        Option::None => Option::Some(Option::None),
        Option::Some(x) => if json_null(x) {
            Option::Some(Option::None)
        } else {
            match json_text(x) {
                Option::Some(t) => Option::Some(Option::Some(t)),
                Option::None => Option::None,
            }
        },
    }
}

/// The first `n` elements of a JSON array read strictly as 32-bit
/// integers; any unusable element spoils the whole read.
pub open spec fn i32_seq_of(v: serde_json::Value, n: int) -> Option<Seq<i32>>
    decreases n,
{
    if n <= 0 {
        Option::Some(Seq::empty())
    } else {
        match i32_seq_of(v, n - 1) {
            Option::None => Option::None,
            Option::Some(pre) => match json_element(v, n - 1) {
                Option::Some(x) => match int32_of(x) {
                    Option::Some(y) => Option::Some(pre.push(y)),
                    Option::None => Option::None,
                },
                Option::None => Option::None,
            },
        }
    }
}

/// A whole JSON array read strictly as 32-bit integers.
pub open spec fn i32_array_of(v: serde_json::Value) -> Option<Seq<i32>> {
    match json_length(v) {
        Option::Some(n) => i32_seq_of(v, n),
        Option::None => Option::None,
    }
}

/// A required array-of-integers field.
pub open spec fn i32_array_field(v: serde_json::Value, key: Seq<char>) -> Option<Seq<i32>> {
    match json_field(v, key) {
        Option::Some(x) => i32_array_of(x),
        Option::None => Option::None,
    }
}

/// An array-of-integers field that reads empty when absent.
pub open spec fn i32_array_field_or_empty(v: serde_json::Value, key: Seq<char>) -> Option<
    Seq<i32>,
> {
    match json_field(v, key) {
        Option::Some(x) => i32_array_of(x),
        Option::None => Option::Some(Seq::empty()),
    }
}

/// The first `n` elements of a JSON array read leniently as 32-bit
/// integers: unusable elements are dropped, order is kept.
pub open spec fn lenient_i32_seq(v: serde_json::Value, n: int) -> Seq<i32>
    decreases n,
{
    if n <= 0 {
        Seq::empty()
    } else {
        lenient_i32_seq(v, n - 1) + (match json_element(v, n - 1) {
            Option::Some(x) => match int32_of(x) {
                Option::Some(y) => seq![y],
                Option::None => Seq::empty(),
            },
            Option::None => Seq::empty(),
        })
    }
}

/// A spoiled strict read stays spoiled as the prefix grows.
pub proof fn lemma_i32_seq_spoiled(v: serde_json::Value, k: int, n: int)
    requires
        0 <= k <= n,
        i32_seq_of(v, k) is None,
    ensures
        i32_seq_of(v, n) is None,
    decreases n - k,
{
    if k < n {
        lemma_i32_seq_spoiled(v, k + 1, n);
    }
}

/// A required field: present, whatever its shape.
pub(crate) fn get_field<'a>(v: &'a serde_json::Value, key: &str) -> (r: Result<
    &'a serde_json::Value,
    DecodeError,
>)
    ensures
        match json_field(*v, key@) {
            Option::Some(x) => match r {
                Ok(p) => *p == x,
                Err(_) => false,
            },
            Option::None => r == Result::<&'a serde_json::Value, DecodeError>::Err(
                DecodeError::Malformed,
            ),
        },
{
    match json_get(v, key) {
        Some(x) => Ok(x),
        None => Err(DecodeError::Malformed),
    }
}

/// Narrowing a JSON integer to the protocol's 32-bit range.
pub(crate) fn i64_to_i32(x: i64) -> (r: Result<i32, DecodeError>)
    ensures
        r == (if i32::MIN <= x <= i32::MAX {
            Result::<i32, DecodeError>::Ok(x as i32)
        } else {
            Result::<i32, DecodeError>::Err(DecodeError::Malformed)
        }),
{
    if i32::MIN as i64 <= x && x <= i32::MAX as i64 {
        Ok(x as i32)
    } else {
        Err(DecodeError::Malformed)
    }
}

/// A required string field.
pub(crate) fn get_string(v: &serde_json::Value, key: &str) -> (r: Result<String, DecodeError>)
    ensures
        match text_field(*v, key@) {
            Option::Some(t) => match r {
                Ok(s) => s@ == t,
                Err(_) => false,
            },
            Option::None => r == Result::<String, DecodeError>::Err(DecodeError::Malformed),
        },
{
    match json_get(v, key) {
        Some(x) => match json_as_str(x) {
            Some(s) => Ok(s),
            None => Err(DecodeError::Malformed),
        },
        None => Err(DecodeError::Malformed),
    }
}

/// A required 32-bit integer field.
pub(crate) fn get_i32(v: &serde_json::Value, key: &str) -> (r: Result<i32, DecodeError>)
    ensures
        r == (match i32_field(*v, key@) {
            Option::Some(y) => Result::<i32, DecodeError>::Ok(y),
            Option::None => Result::<i32, DecodeError>::Err(DecodeError::Malformed),
        }),
{
    match json_get(v, key) {
        Some(x) => match json_as_i64(x) {
            Some(n) => i64_to_i32(n),
            None => Err(DecodeError::Malformed),
        },
        None => Err(DecodeError::Malformed),
    }
}

/// A 32-bit integer field that defaults when absent.
pub(crate) fn get_i32_or(v: &serde_json::Value, key: &str, default: i32) -> (r: Result<
    i32,
    DecodeError,
>)
    ensures
        r == (match i32_field_or(*v, key@, default) {
            Option::Some(y) => Result::<i32, DecodeError>::Ok(y),
            Option::None => Result::<i32, DecodeError>::Err(DecodeError::Malformed),
        }),
{
    match json_get(v, key) {
        Some(x) => match json_as_i64(x) {
            Some(n) => i64_to_i32(n),
            None => Err(DecodeError::Malformed),
        },
        None => Ok(default),
    }
}

/// An optional 32-bit integer field: absent or null reads as `None`.
pub(crate) fn get_opt_i32(v: &serde_json::Value, key: &str) -> (r: Result<Option<i32>, DecodeError>)
    ensures
        r == (match opt_i32_field(*v, key@) {
            Option::Some(o) => Result::<Option<i32>, DecodeError>::Ok(o),
            Option::None => Result::<Option<i32>, DecodeError>::Err(DecodeError::Malformed),
        }),
{
    match json_get(v, key) {
        Some(x) => {
            if json_is_null(x) {
                Ok(None)
            } else {
                match json_as_i64(x) {
                    Some(n) => match i64_to_i32(n) {
                        Ok(y) => Ok(Some(y)),
                        Err(e) => Err(e),
                    },
                    None => Err(DecodeError::Malformed),
                }
            }
        },
        None => Ok(None),
    }
}

/// An optional string field: absent or null reads as `None`.
pub(crate) fn get_opt_string(v: &serde_json::Value, key: &str) -> (r: Result<
    Option<String>,
    DecodeError,
>)
    ensures
        match opt_text_field(*v, key@) {
            Option::Some(o) => match (r, o) {
                (Ok(Option::None), Option::None) => true,
                (Ok(Option::Some(s)), Option::Some(t)) => s@ == t,
                _ => false,
            },
            Option::None => r == Result::<Option<String>, DecodeError>::Err(
                DecodeError::Malformed,
            ),
        },
{
    match json_get(v, key) {
        Some(x) => {
            if json_is_null(x) {
                Ok(None)
            } else {
                match json_as_str(x) {
                    Some(s) => Ok(Some(s)),
                    None => Err(DecodeError::Malformed),
                }
            }
        },
        None => Ok(None),
    }
}

/// A required array of 32-bit integers (card identifier lists, seat lists).
pub(crate) fn get_i32_array(v: &serde_json::Value, key: &str) -> (r: Result<Vec<i32>, DecodeError>)
    ensures
        match i32_array_field(*v, key@) {
            Option::Some(s) => match r {
                Ok(out) => out@ == s,
                Err(_) => false,
            },
            Option::None => r == Result::<Vec<i32>, DecodeError>::Err(DecodeError::Malformed),
        },
{
    match json_get(v, key) {
        Some(x) => read_i32_array(x),
        None => Err(DecodeError::Malformed),
    }
}

/// An array of 32-bit integers that defaults to empty when absent.
pub(crate) fn get_i32_array_or_empty(v: &serde_json::Value, key: &str) -> (r: Result<
    Vec<i32>,
    DecodeError,
>)
    ensures
        match i32_array_field_or_empty(*v, key@) {
            Option::Some(s) => match r {
                Ok(out) => out@ == s,
                Err(_) => false,
            },
            Option::None => r == Result::<Vec<i32>, DecodeError>::Err(DecodeError::Malformed),
        },
{
    match json_get(v, key) {
        Some(x) => read_i32_array(x),
        None => Ok(Vec::new()),
    }
}

/// Reads a JSON array value strictly as a list of 32-bit integers.
pub(crate) fn read_i32_array(v: &serde_json::Value) -> (r: Result<Vec<i32>, DecodeError>)
    ensures
        match i32_array_of(*v) {
            Option::Some(s) => match r {
                Ok(out) => out@ == s,
                Err(_) => false,
            },
            Option::None => r == Result::<Vec<i32>, DecodeError>::Err(DecodeError::Malformed),
        },
{
    let n = match json_array_len(v) {
        Some(n) => n,
        None => {
            return Err(DecodeError::Malformed);
        },
    };
    let mut out: Vec<i32> = Vec::new();
    let mut i: usize = 0;
    while i < n
        invariant
            json_length(*v) == Option::Some(n as int),
            i <= n,
            i32_seq_of(*v, i as int) == Option::Some(out@),
        decreases n - i,
    {
        let item = match json_index(v, i) {
            Some(x) => x,
            None => {
                proof {
                    lemma_i32_seq_spoiled(*v, i + 1, n as int);
                }
                return Err(DecodeError::Malformed);
            },
        };
        let x = match json_as_i64(item) {
            Some(x) => x,
            None => {
                proof {
                    lemma_i32_seq_spoiled(*v, i + 1, n as int);
                }
                return Err(DecodeError::Malformed);
            },
        };
        match i64_to_i32(x) {
            Ok(y) => out.push(y),
            Err(e) => {
                proof {
                    lemma_i32_seq_spoiled(*v, i + 1, n as int);
                }
                return Err(e);
            },
        }
        i = i + 1;
    }
    Ok(out)
}

} // verus!
