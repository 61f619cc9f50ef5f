//! Case-insensitive substring matching over text fields.
//!
//! Matching folds ASCII letters to lower case byte-by-byte, the same
//! comparison the storage layer's `LIKE` applies, and looks for the folded
//! query anywhere in the folded field.

use vstd::prelude::*;
use vstd::string::StrSliceExecFns;
use vstd::utf8::encode_utf8;

verus! {

/// ASCII lower-casing of one byte.
pub open spec fn lower_byte(b: u8) -> u8 {
    if 65 <= b <= 90 {
        (b + 32) as u8
    } else {
        b
    }
}

/// ASCII lower-casing of a byte string.
pub open spec fn lower_bytes(s: Seq<u8>) -> Seq<u8> {
    s.map_values(|b: u8| lower_byte(b))
}

/// Whether `n` occurs in `h` starting at position `i`.
pub open spec fn occurs_at(h: Seq<u8>, n: Seq<u8>, i: int) -> bool {
    &&& 0 <= i
    &&& i + n.len() <= h.len()
    &&& forall|k: int| 0 <= k < n.len() ==> h[i + k] == n[k]
}

/// Whether the byte string `n` occurs anywhere in `h`, ignoring ASCII case.
pub open spec fn contains_ci(h: Seq<u8>, n: Seq<u8>) -> bool {
    exists|i: int| occurs_at(lower_bytes(h), lower_bytes(n), i)
}

/// Whether the query `q` matches the text `s`, ignoring ASCII case, where
/// both are taken as character strings and compared over their UTF-8 bytes.
pub open spec fn text_match(s: Seq<char>, q: Seq<char>) -> bool {
    contains_ci(encode_utf8(s), encode_utf8(q))
}

/// Folds one byte to ASCII lower case.
fn lower_u8(b: u8) -> (r: u8)
    ensures
        r == lower_byte(b),
{
    if b >= 65 && b <= 90 {
        b + 32
    } else {
        b
    }
}

/// Whether the needle occurs at position `i` of the haystack, ignoring
/// ASCII case.
fn occurs_at_exec(h: &Vec<u8>, n: &Vec<u8>, i: usize) -> (r: bool)
    requires
        i + n@.len() <= h@.len(),
    ensures
        r == occurs_at(lower_bytes(h@), lower_bytes(n@), i as int),
{
    let hl = h.len();
    let mut k: usize = 0;
    let mut ok = true;
    while k < n.len()
        invariant
            k <= n@.len(),
            i + n@.len() <= h@.len(),
            hl == h@.len(),
            ok == (forall|t: int|
                0 <= t < k ==> lower_byte(h@[i + t]) == #[trigger] lower_byte(n@[t])),
        decreases n@.len() - k,
    {
        if lower_u8(h[i + k]) != lower_u8(n[k]) {
            ok = false;
        }
        k += 1;
    }
    proof {
        if ok {
            assert forall|t: int| 0 <= t < n@.len() implies lower_bytes(h@)[i + t] == lower_bytes(
                n@,
            )[t] by {
                assert(lower_byte(h@[i + t]) == lower_byte(n@[t]));
            }
        } else {
            let t = choose|t: int|
                0 <= t < n@.len() && lower_byte(h@[i + t]) != #[trigger] lower_byte(n@[t]);
            assert(lower_bytes(h@)[i + t] != lower_bytes(n@)[t]);
        }
    }
    ok
}

/// Whether the needle occurs anywhere in the haystack, ignoring ASCII case.
fn bytes_contains_ci(h: &Vec<u8>, n: &Vec<u8>) -> (r: bool)
    ensures
        r == contains_ci(h@, n@),
{
    if n.len() > h.len() {
        proof {
            assert(forall|i: int| !occurs_at(lower_bytes(h@), lower_bytes(n@), i));
        }
        return false;
    }
    if n.len() == 0 {
        proof {
            assert(occurs_at(lower_bytes(h@), lower_bytes(n@), 0));
        }
        return true;
    }
    let last = h.len() - n.len();
    let mut i: usize = 0;
    while i <= last
        invariant
            1 <= n@.len() <= h@.len(),
            last == h@.len() - n@.len(),
            last < usize::MAX,
            i <= last + 1,
            forall|j: int| 0 <= j < i ==> !occurs_at(lower_bytes(h@), lower_bytes(n@), j),
        decreases last + 1 - i,
    {
        if occurs_at_exec(h, n, i) {
            return true;
        }
        i += 1;
    }
    proof {
        assert forall|j: int| !occurs_at(lower_bytes(h@), lower_bytes(n@), j) by {
            if 0 <= j <= last {
                assert(!occurs_at(lower_bytes(h@), lower_bytes(n@), j));
            }
        }
    }
    false
}

/// Whether the query matches the text, ignoring ASCII case.
pub fn str_match(s: &str, q: &str) -> (r: bool)
    ensures
        r == text_match(s@, q@),
{
    let hb = s.as_bytes_vec();
    let nb = q.as_bytes_vec();
    bytes_contains_ci(&hb, &nb)
}

/// Whether the query matches an optional text, ignoring ASCII case; an
/// absent text matches nothing, as a null column fails `LIKE`.
pub fn opt_match(s: &Option<String>, q: &str) -> (r: bool)
    ensures
        r == (match *s {
            Some(t) => text_match(t@, q@),
            None => false,
        }),
{
    match s {
        Some(t) => str_match(t.as_str(), q),
        None => false,
    }
}

/// The empty query matches every text.
pub proof fn lemma_empty_query_matches(s: Seq<char>)
    ensures
        text_match(s, Seq::empty()),
{
    assert(encode_utf8(Seq::<char>::empty()) =~= Seq::<u8>::empty());
    assert(occurs_at(lower_bytes(encode_utf8(s)), lower_bytes(Seq::empty()), 0));
}

} // verus!
