//! Structured storage paths: the physical addresses under which the backend
//! stores entries. A path is an ordered list of string segments, composed
//! left to right; its view is the sequence of its segments' views.

use vstd::prelude::*;
use vstd::string::StringExecFns;

verus! {

/// A structured storage path identifying one location in the backend's key
/// space. Joining a segment onto a path addresses a child location.
#[derive(Debug)]
pub struct Key {
    segments: Vec<String>,
}

impl View for Key {
    type V = Seq<Seq<char>>;

    closed spec fn view(&self) -> Seq<Seq<char>> {
        self.segments.deep_view()
    }
}

/// `p` names a storage subtree that `k` lies in: `p`'s segments are exactly
/// the leading segments of `k`.
pub open spec fn is_prefix_of(p: Seq<Seq<char>>, k: Seq<Seq<char>>) -> bool {
    p.len() <= k.len() && k.take(p.len() as int) == p
}

impl Key {
    /// A path of a single segment.
    pub fn new(segment: &str) -> (k: Key)
        ensures
            k@ == seq![segment@],
    {
        let mut segments: Vec<String> = Vec::new();
        segments.push(String::from_str(segment));
        let k = Key { segments };
        proof {
            assert(k@ =~= seq![segment@]);
        }
        k
    }

    /// The same path extended by one trailing segment.
    pub fn push(&self, segment: &str) -> (k: Key)
        ensures
            k@ == self@.push(segment@),
    {
        let mut segments = self.segments.clone();
        segments.push(String::from_str(segment));
        let k = Key { segments };
        proof {
            assert(k@ =~= self@.push(segment@));
        }
        k
    }

    /// Whether `prefix`'s segments are exactly the leading segments of this
    /// path.
    pub fn has_prefix(&self, prefix: &Key) -> (r: bool)
        ensures
            r == is_prefix_of(prefix@, self@),
    {
        if prefix.segments.len() > self.segments.len() {
            proof {
                assert(!is_prefix_of(prefix@, self@));
            }
            return false;
        }
        let n = prefix.segments.len();
        let mut i: usize = 0;
        while i < n
            invariant
                i <= n,
                n == prefix.segments.len(),
                n <= self.segments.len(),
                forall|j: int| 0 <= j < i ==> self@[j] == prefix@[j],
            decreases n - i,
        {
            if self.segments[i] != prefix.segments[i] {
                proof {
                    assert(self@[i as int] != prefix@[i as int]);
                    assert(self@.take(n as int)[i as int] == self@[i as int]);
                }
                return false;
            }
            i += 1;
        }
        proof {
            assert(self@.take(n as int) =~= prefix@);
        }
        true
    }
}

impl Clone for Key {
    /// A clone addresses the same storage location: the views are equal.
    fn clone(&self) -> (k: Key)
        ensures
            k@ == self@,
    {
        let k = Key { segments: self.segments.clone() };
        proof {
            assert(k@ =~= self@);
        }
        k
    }
}

impl PartialEq for Key {
    fn eq(&self, other: &Key) -> (r: bool) {
        if self.segments.len() != other.segments.len() {
            proof {
                assert(self@.len() != other@.len());
            }
            return false;
        }
        let n = self.segments.len();
        let mut i: usize = 0;
        while i < n
            invariant
                i <= n,
                n == self.segments.len(),
                n == other.segments.len(),
                forall|j: int| 0 <= j < i ==> self@[j] == other@[j],
            decreases n - i,
        {
            if self.segments[i] != other.segments[i] {
                proof {
                    assert(self@[i as int] != other@[i as int]);
                }
                return false;
            }
            i += 1;
        }
        proof {
            assert(self@ =~= other@);
        }
        true
    }
}

impl vstd::std_specs::cmp::PartialEqSpecImpl for Key {
    open spec fn obeys_eq_spec() -> bool {
        true
    }

    open spec fn eq_spec(&self, other: &Key) -> bool {
        self@ == other@
    }
}

} // verus!
