//! Listing order: most recent first.

use crate::entities::{Client, Deal, Document, Vehicle};
use vstd::prelude::*;
use vstd::seq_lib::group_to_multiset_ensures;

verus! {

/// An entity with a creation time, the key every listing sorts by.
pub trait Timestamped: Sized {
    /// The creation timestamp, as the ordering key.
    spec fn created_time(&self) -> int;

    /// Reads the creation timestamp.
    fn created(&self) -> (r: i64)
        ensures
            r as int == self.created_time(),
    ;
}

impl Timestamped for Client {
    open spec fn created_time(&self) -> int {
        self.created_at as int
    }

    fn created(&self) -> (r: i64) {
        self.created_at
    }
}

impl Timestamped for Vehicle {
    open spec fn created_time(&self) -> int {
        self.created_at as int
    }

    fn created(&self) -> (r: i64) {
        self.created_at
    }
}

impl Timestamped for Deal {
    open spec fn created_time(&self) -> int {
        self.created_at as int
    }

    fn created(&self) -> (r: i64) {
        self.created_at
    }
}

impl Timestamped for Document {
    open spec fn created_time(&self) -> int {
        self.created_at as int
    }

    fn created(&self) -> (r: i64) {
        self.created_at
    }
}

/// Whether a listing is ordered by creation time, most recent first.
pub open spec fn sorted_desc<T: Timestamped>(s: Seq<T>) -> bool {
    forall|i: int, j: int|
        0 <= i < j < s.len() ==> #[trigger] s[i].created_time() >= #[trigger] s[j].created_time()
}

/// Orders rows most recent first. The result holds exactly the rows given,
/// reordered.
pub fn sort_by_created_desc<T: Timestamped>(v: Vec<T>) -> (r: Vec<T>)
    ensures
        r@.to_multiset() == v@.to_multiset(),
        sorted_desc(r@),
{
    let ghost orig = v@;
    let mut rest = v;
    let mut out: Vec<T> = Vec::new();
    proof {
        broadcast use group_to_multiset_ensures;

        assert(out@.to_multiset().add(rest@.to_multiset()) =~= orig.to_multiset());
    }
    while rest.len() > 0
        invariant
            out@.to_multiset().add(rest@.to_multiset()) == orig.to_multiset(),
            sorted_desc(out@),
            forall|a: int, b: int|
                0 <= a < out@.len() && 0 <= b < rest@.len() ==> #[trigger] out@[a].created_time()
                    >= #[trigger] rest@[b].created_time(),
        decreases rest.len(),
    {
        let mut mi: usize = 0;
        let mut k: usize = 1;
        while k < rest.len()
            invariant
                0 < rest.len(),
                mi < k <= rest.len(),
                forall|l: int|
                    0 <= l < k ==> rest@[mi as int].created_time()
                        >= #[trigger] rest@[l].created_time(),
            decreases rest.len() - k,
        {
            if rest[k].created() > rest[mi].created() {
                mi = k;
            }
            k += 1;
        }
        let ghost pre_out = out@;
        let ghost pre_rest = rest@;
        let x = rest.remove(mi);
        out.push(x);
        proof {
            broadcast use group_to_multiset_ensures;

            assert(pre_rest.to_multiset().count(x) > 0);
            assert(out@.to_multiset().add(rest@.to_multiset()) =~= pre_out.to_multiset().add(
                pre_rest.to_multiset(),
            ));
            assert(forall|b: int|
                0 <= b < rest@.len() ==> #[trigger] rest@[b].created_time() <= x.created_time());
        }
    }
    out
}

} // verus!
