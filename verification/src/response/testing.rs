//! This module contains testing utilities for the response module.

use vstd::prelude::*;

use crate::response::{Response, ResponseView};
use crate::strutil::str_eq;

verus! {

/// What the response comparison of tests checks: the same status, every
/// header of the first present with the same value in the second, and the
/// same body.
pub open spec fn responses_match(a: ResponseView, b: ResponseView) -> bool {
    &&& a.status_code == b.status_code
    &&& (forall|k: Seq<char>|
        a.headers.contains_key(k) ==> b.headers.contains_key(k) && b.headers[k] == a.headers[k])
    &&& a.body == b.body
}

/// Byte-vector equality, element by element.
fn vec_u8_eq(a: &Vec<u8>, b: &Vec<u8>) -> (r: bool)
    ensures
        r == (a@ == b@),
{
    let n = a.len();
    if n != b.len() {
        assert(a@ != b@);
        return false;
    }
    let mut i: usize = 0;
    while i < n
        invariant
            n == a@.len(),
            n == b@.len(),
            0 <= i <= n,
            forall|j: int| 0 <= j < i ==> a@[j] == b@[j],
        decreases n - i,
    {
        if a[i] != b[i] {
            assert(a@ != b@);
            return false;
        }
        i = i + 1;
    }
    proof {
        assert(a@ =~= b@);
    }
    true
}

impl Response {
    /// Compares two responses the way a test does: same status, every header
    /// of the first present with the same value in the second, and the same
    /// body.
    pub fn assert_eq(resp1: &Response, resp2: &Response) -> (r: bool)
        requires
            resp1.wf(),
            resp2.wf(),
        ensures
            r == responses_match(resp1@, resp2@),
    {
        if resp1.get_status() != resp2.get_status() {
            return false;
        }
        let h1 = resp1.get_headers();
        let entries = h1.entries();
        let n = entries.len();
        proof {
            h1.lemma_entries_view();
        }
        let mut i: usize = 0;
        while i < n
            invariant
                resp1.wf(),
                resp2.wf(),
                n == h1.spec_entries().len(),
                entries@ == h1.spec_entries(),
                h1@ == resp1@.headers,
                0 <= i <= n,
                forall|k: Seq<char>|
                    h1@.contains_key(k) <==> exists|j: int|
                        0 <= j < n && (#[trigger] h1.spec_entries()[j].0@) == k,
                forall|j: int|
                    0 <= j < n ==> h1@.contains_key(#[trigger] h1.spec_entries()[j].0@) && h1@[
                        h1.spec_entries()[j].0@
                    ] == h1.spec_entries()[j].1@,
                forall|j: int|
                    0 <= j < i ==> resp2@.headers.contains_key(#[trigger] h1.spec_entries()[j].0@)
                        && resp2@.headers[h1.spec_entries()[j].0@] == h1.spec_entries()[j].1@,
            decreases n - i,
        {
            let key = &entries[i].0;
            match resp2.get_header(key.as_str()) {
                Some(v2) => {
                    if !str_eq(v2.as_str(), entries[i].1.as_str()) {
                        return false;
                    }
                },
                None => {
                    return false;
                },
            }
            i = i + 1;
        }
        proof {
            assert forall|k: Seq<char>| resp1@.headers.contains_key(k) implies
                resp2@.headers.contains_key(k) && resp2@.headers[k] == resp1@.headers[k] by {
                let j = choose|j: int|
                    0 <= j < n && (#[trigger] h1.spec_entries()[j].0@) == k;
                assert(resp2@.headers.contains_key(h1.spec_entries()[j].0@));
            }
        }
        vec_u8_eq(resp1.get_body(), resp2.get_body())
    }
}

} // verus!
