//! This module provides utilities for working with JSON data.
//!
//! JSON documents are carried as `serde_json::Value`; parsing and
//! serialization are done by serde_json behind trusted declarations, and the
//! text handling around them is verified.

use vstd::prelude::*;

use crate::strutil::string_push;

verus! {

#[verifier::external_type_specification]
#[verifier::external_body]
pub struct ExJsonValue(serde_json::Value);

#[verifier::external_type_specification]
#[verifier::external_body]
pub struct ExJsonError(serde_json::Error);

/// Whether a byte sequence is a JSON document that serde_json accepts.
pub uninterp spec fn is_json_bytes(b: Seq<u8>) -> bool;

/// The text serde_json renders for a JSON value; it depends on the value
/// alone.
pub uninterp spec fn json_text_of(v: serde_json::Value) -> Seq<char>;

/// Relies on serde_json::from_slice::<Value>: parsing depends on the bytes
/// alone, and returns Ok exactly when the bytes form a JSON document it
/// accepts.
#[verifier::external_body]
pub fn json_from_slice(b: &[u8]) -> (r: Result<serde_json::Value, serde_json::Error>)
    ensures
        (r matches Ok(_)) == is_json_bytes(b@),
{
    serde_json::from_slice(b)
}

/// Relies on serde_json::to_string: serializing a `Value` renders its text
/// and cannot fail (only maps with non-string keys make it fail, and a
/// `Value`'s object keys are strings), so the fallback arm is never taken.
#[verifier::external_body]
pub fn json_to_string(v: &serde_json::Value) -> (r: String)
    ensures
        r@ == json_text_of(*v),
{
    match serde_json::to_string(v) {
        Ok(s) => s,
        Err(_) => String::new(),
    }
}

/// Relies on serde_json::Value::clone: the derived clone returns a value
/// equal to the original.
#[verifier::external_body]
pub fn json_clone(v: &serde_json::Value) -> (r: serde_json::Value)
    ensures
        r == *v,
{
    v.clone()
}

/// `s` with every double-quote character removed.
pub open spec fn spec_remove_quotes(s: Seq<char>) -> Seq<char>
    decreases s.len(),
{
    if s.len() == 0 {
        Seq::empty()
    } else if s[0] == '"' {
        spec_remove_quotes(s.drop_first())
    } else {
        seq![s[0]] + spec_remove_quotes(s.drop_first())
    }
}

/// Removes every double-quote character from the string.
pub fn trim_json_string(string: String) -> (r: String)
    ensures
        r@ == spec_remove_quotes(string@),
{
    let s = string.as_str();
    let len = s.unicode_len();
    let mut out = String::new();
    let mut i: usize = 0;
    proof {
        assert(s@.skip(0) =~= s@);
    }
    while i < len
        invariant
            len == s@.len(),
            0 <= i <= len,
            spec_remove_quotes(s@) =~= out@ + spec_remove_quotes(s@.skip(i as int)),
        decreases len - i,
    {
        proof {
            assert(s@.skip(i as int).drop_first() =~= s@.skip(i + 1));
        }
        let c = s.get_char(i);
        if c != '"' {
            string_push(&mut out, c);
        }
        i = i + 1;
    }
    proof {
        assert(s@.skip(len as int) =~= Seq::<char>::empty());
        assert(out@ =~= out@ + spec_remove_quotes(s@.skip(len as int)));
    }
    out
}

/// Converts a JSON value to its text with the double quotes removed, passing
/// `None` through.
pub fn get_string_from_json(json_key: Option<&serde_json::Value>) -> (r: Option<String>)
    ensures
        match r {
            Some(s) => json_key matches Some(v) && s@ == spec_remove_quotes(json_text_of(*v)),
            None => json_key is None,
        },
{
    match json_key {
        Some(value) => Some(trim_json_string(json_to_string(value))),
        None => None,
    }
}

} // verus!
