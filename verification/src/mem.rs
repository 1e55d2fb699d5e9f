//! An in-memory storage backend: an association list of path-addressed byte
//! entries, with at most one entry per path. It implements the backend
//! contract in full and never reports a backend failure, so it exercises
//! every adapter operation end to end.

use crate::key::is_prefix_of;
use crate::key::Key;
use crate::storage::StorageRead;
use crate::storage::StorageWrite;
use crate::StoreError;
use vstd::prelude::*;
use vstd::slice::slice_to_vec;

verus! {

/// No two entries of the list share a path.
pub open spec fn keys_distinct(s: Seq<(Key, Vec<u8>)>) -> bool {
    forall|i: int, j: int| 0 <= i < j < s.len() ==> s[i].0@ != s[j].0@
}

/// The map an entry list denotes: each listed path maps to the bytes its one
/// entry holds.
pub open spec fn assoc_map(s: Seq<(Key, Vec<u8>)>) -> Map<Seq<Seq<char>>, Seq<u8>> {
    Map::new(
        |k: Seq<Seq<char>>| exists|i: int| 0 <= i < s.len() && s[i].0@ == k,
        |k: Seq<Seq<char>>| s[choose|i: int| 0 <= i < s.len() && s[i].0@ == k].1@,
    )
}

/// The views of an entry list, in order.
pub open spec fn entry_views(s: Seq<(Key, Vec<u8>)>) -> Seq<(Seq<Seq<char>>, Seq<u8>)> {
    s.map_values(|e: (Key, Vec<u8>)| (e.0@, e.1@))
}

proof fn lemma_assoc_map_index(s: Seq<(Key, Vec<u8>)>, i: int)
    requires
        keys_distinct(s),
        0 <= i < s.len(),
    ensures
        assoc_map(s).contains_key(s[i].0@),
        assoc_map(s)[s[i].0@] == s[i].1@,
{
    let k = s[i].0@;
    assert(0 <= i < s.len() && s[i].0@ == k);
    let j = choose|j: int| 0 <= j < s.len() && s[j].0@ == k;
    if j < i {
        assert(s[j].0@ != s[i].0@);
    } else if i < j {
        assert(s[i].0@ != s[j].0@);
    }
}

proof fn lemma_assoc_map_is(s: Seq<(Key, Vec<u8>)>, m: Map<Seq<Seq<char>>, Seq<u8>>)
    requires
        keys_distinct(s),
        forall|k: Seq<Seq<char>>| #[trigger]
            m.contains_key(k) <==> exists|i: int| 0 <= i < s.len() && (#[trigger] s[i]).0@ == k,
        forall|i: int| 0 <= i < s.len() ==> m[(#[trigger] s[i]).0@] == s[i].1@,
    ensures
        assoc_map(s) == m,
{
    assert forall|k: Seq<Seq<char>>| #[trigger]
        m.dom().contains(k) implies assoc_map(s)[k] == m[k] by {
        let i = choose|i: int| 0 <= i < s.len() && s[i].0@ == k;
        lemma_assoc_map_index(s, i);
    }
    assert(assoc_map(s) =~= m);
}

proof fn lemma_remove_entry(pre: Seq<(Key, Vec<u8>)>, i: int)
    requires
        keys_distinct(pre),
        0 <= i < pre.len(),
    ensures
        keys_distinct(pre.remove(i)),
        pre.remove(i).len() == pre.len() - 1,
        forall|a: int| 0 <= a < i ==> #[trigger] pre.remove(i)[a] == pre[a],
        forall|a: int| i <= a < pre.len() - 1 ==> #[trigger] pre.remove(i)[a] == pre[a + 1],
        forall|a: int|
            0 <= a < pre.len() - 1 ==> (#[trigger] pre.remove(i)[a]).0@ != pre[i].0@,
{
    pre.remove_ensures(i);
    let mid = pre.remove(i);
    assert forall|a: int| 0 <= a < mid.len() implies (#[trigger] mid[a]).0@ != pre[i].0@ by {
        if a < i {
            assert(mid[a] == pre[a]);
        } else {
            assert(mid[a] == pre[a + 1]);
        }
    }
    assert forall|a: int, b: int| 0 <= a < b < mid.len() implies mid[a].0@ != mid[b].0@ by {
        if b < i {
            assert(mid[a] == pre[a] && mid[b] == pre[b]);
        } else if a < i {
            assert(mid[a] == pre[a] && mid[b] == pre[b + 1]);
        } else {
            assert(mid[a] == pre[a + 1] && mid[b] == pre[b + 1]);
        }
    }
}

/// The in-memory backend: at most one entry per path.
pub struct MemStorage {
    entries: Vec<(Key, Vec<u8>)>,
}

/// A scan handle over an in-memory backend: the entries it has yet to yield,
/// front first.
pub struct MemCursor {
    entries: Vec<(Key, Vec<u8>)>,
}

impl MemStorage {
    #[verifier::type_invariant]
    spec fn wf(&self) -> bool {
        keys_distinct(self.entries@)
    }

    /// An empty backend.
    pub fn new() -> (s: MemStorage)
        ensures
            s.contents() == Map::<Seq<Seq<char>>, Seq<u8>>::empty(),
    {
        let s = MemStorage { entries: Vec::new() };
        proof {
            assert(s.contents() =~= Map::<Seq<Seq<char>>, Seq<u8>>::empty());
        }
        s
    }

    fn find(&self, key: &Key) -> (r: Option<usize>)
        ensures
            match r {
                Some(i) => i < self.entries@.len() && self.entries@[i as int].0@ == key@,
                None => forall|j: int|
                    0 <= j < self.entries@.len() ==> (#[trigger] self.entries@[j]).0@ != key@,
            },
    {
        let n = self.entries.len();
        let mut i: usize = 0;
        while i < n
            invariant
                i <= n,
                n == self.entries@.len(),
                forall|j: int| 0 <= j < i ==> (#[trigger] self.entries@[j]).0@ != key@,
            decreases n - i,
        {
            if self.entries[i].0 == *key {
                return Some(i);
            }
            i += 1;
        }
        None
    }
}

impl StorageRead for MemStorage {
    type Cursor = MemCursor;

    closed spec fn contents(&self) -> Map<Seq<Seq<char>>, Seq<u8>> {
        assoc_map(self.entries@)
    }

    closed spec fn cursor_view(cursor: MemCursor) -> Seq<(Seq<Seq<char>>, Seq<u8>)> {
        entry_views(cursor.entries@)
    }

    fn read(&self, key: &Key) -> (r: Result<Option<Vec<u8>>, StoreError>)
        ensures
            r is Ok,
    {
        proof {
            use_type_invariant(&*self);
        }
        match self.find(key) {
            Some(i) => {
                let bytes = slice_to_vec(self.entries[i].1.as_slice());
                proof {
                    lemma_assoc_map_index(self.entries@, i as int);
                }
                Ok(Some(bytes))
            },
            None => {
                proof {
                    assert(!self.contents().contains_key(key@));
                }
                Ok(None)
            },
        }
    }

    fn iter_prefix(&self, prefix: &Key) -> (r: Result<MemCursor, StoreError>)
        ensures
            r is Ok,
    {
        proof {
            use_type_invariant(&*self);
        }
        let n = self.entries.len();
        let mut selected: Vec<(Key, Vec<u8>)> = Vec::new();
        let mut i: usize = 0;
        while i < n
            invariant
                i <= n,
                n == self.entries@.len(),
                keys_distinct(self.entries@),
                keys_distinct(selected@),
                forall|a: int|
                    0 <= a < selected@.len() ==> exists|j: int|
                        0 <= j < i && (#[trigger] selected@[a]).0@ == self.entries@[j].0@
                            && selected@[a].1@ == self.entries@[j].1@,
                forall|a: int|
                    0 <= a < selected@.len() ==> is_prefix_of(
                        prefix@,
                        (#[trigger] selected@[a]).0@,
                    ),
                forall|j: int|
                    0 <= j < i && is_prefix_of(prefix@, (#[trigger] self.entries@[j]).0@)
                        ==> exists|a: int|
                        0 <= a < selected@.len() && selected@[a].0@ == self.entries@[j].0@
                            && selected@[a].1@ == self.entries@[j].1@,
            decreases n - i,
        {
            if self.entries[i].0.has_prefix(prefix) {
                let k = self.entries[i].0.clone();
                let v = slice_to_vec(self.entries[i].1.as_slice());
                let ghost pre_selected = selected@;
                selected.push((k, v));
                proof {
                    assert forall|a: int, b: int|
                        0 <= a < b < selected@.len() implies selected@[a].0@
                        != selected@[b].0@ by {
                        if b == selected@.len() - 1 {
                            let j = choose|j: int|
                                0 <= j < i && (#[trigger] pre_selected[a]).0@
                                    == self.entries@[j].0@ && pre_selected[a].1@
                                    == self.entries@[j].1@;
                            assert(self.entries@[j].0@ != self.entries@[i as int].0@);
                        }
                    }
                    assert forall|j: int|
                        0 <= j < i + 1 && is_prefix_of(
                            prefix@,
                            (#[trigger] self.entries@[j]).0@,
                        ) implies exists|a: int|
                        0 <= a < selected@.len() && (#[trigger] selected@[a]).0@
                            == self.entries@[j].0@ && selected@[a].1@
                            == self.entries@[j].1@ by {
                        if j == i {
                            let a = selected@.len() - 1;
                            assert(selected@[a].0@ == self.entries@[j].0@ && selected@[a].1@
                                == self.entries@[j].1@);
                        } else {
                            let a = choose|a: int|
                                0 <= a < pre_selected.len() && (#[trigger] pre_selected[a]).0@
                                    == self.entries@[j].0@ && pre_selected[a].1@
                                    == self.entries@[j].1@;
                            assert(selected@[a].0@ == self.entries@[j].0@ && selected@[a].1@
                                == self.entries@[j].1@);
                        }
                    }
                }
            }
            i += 1;
        }
        let cursor = MemCursor { entries: selected };
        proof {
            let view = entry_views(selected@);
            let contents = assoc_map(self.entries@);
            assert forall|a: int| 0 <= a < view.len() implies {
                &&& is_prefix_of(prefix@, (#[trigger] view[a]).0)
                &&& contents.contains_key(view[a].0)
                &&& contents[view[a].0] == view[a].1
            } by {
                let j = choose|j: int|
                    0 <= j < n && (#[trigger] selected@[a]).0@ == self.entries@[j].0@
                        && selected@[a].1@ == self.entries@[j].1@;
                lemma_assoc_map_index(self.entries@, j);
            }
            assert forall|k: Seq<Seq<char>>|
                #[trigger] contents.contains_key(k) && is_prefix_of(
                prefix@,
                k,
            ) implies exists|a: int| 0 <= a < view.len() && view[a].0 == k by {
                let j = choose|j: int| 0 <= j < n && (#[trigger] self.entries@[j]).0@ == k;
                let a = choose|a: int|
                    0 <= a < selected@.len() && (#[trigger] selected@[a]).0@
                        == self.entries@[j].0@ && selected@[a].1@ == self.entries@[j].1@;
                assert(view[a].0 == k);
            }
        }
        Ok(cursor)
    }

    fn iter_next(&self, cursor: &mut MemCursor) -> (r: Result<Option<(Key, Vec<u8>)>, StoreError>)
        ensures
            r is Ok,
    {
        if cursor.entries.len() == 0 {
            Ok(None)
        } else {
            let ghost pre = cursor.entries@;
            let entry = cursor.entries.remove(0);
            proof {
                pre.remove_ensures(0);
                assert(entry_views(cursor.entries@) =~= entry_views(pre).drop_first());
            }
            Ok(Some(entry))
        }
    }
}

impl StorageWrite for MemStorage {
    fn write(&mut self, key: &Key, value: &[u8]) -> (r: Result<(), StoreError>)
        ensures
            r is Ok,
    {
        proof {
            use_type_invariant(&*self);
        }
        let ghost pre = self.entries@;
        let found = self.find(key);
        let mut entries: Vec<(Key, Vec<u8>)> = Vec::new();
        core::mem::swap(&mut entries, &mut self.entries);
        if let Some(i) = found {
            entries.remove(i);
            proof {
                lemma_remove_entry(pre, i as int);
            }
        }
        let ghost mid = entries@;
        entries.push((key.clone(), slice_to_vec(value)));
        proof {
            let post = entries@;
            let target = assoc_map(pre).insert(key@, value@);
            // the one entry under `key` was dropped, so pushing it back keeps
            // the paths distinct
            assert forall|a: int, b: int| 0 <= a < b < post.len() implies post[a].0@
                != post[b].0@ by {
                if b == post.len() - 1 {
                    if let Some(i) = found {
                        assert(mid[a].0@ != pre[i as int].0@);
                    } else {
                        assert((#[trigger] pre[a]).0@ != key@);
                    }
                }
            }
            assert forall|k: Seq<Seq<char>>| #[trigger]
                target.contains_key(k) implies exists|idx: int|
                0 <= idx < post.len() && (#[trigger] post[idx]).0@ == k by {
                if k == key@ {
                    assert(post[post.len() - 1].0@ == k);
                } else {
                    let j = choose|j: int| 0 <= j < pre.len() && (#[trigger] pre[j]).0@ == k;
                    if let Some(i) = found {
                        let idx: int = if j < i as int {
                            j
                        } else {
                            j - 1
                        };
                        assert(post[idx].0@ == k);
                    } else {
                        assert(post[j].0@ == k);
                    }
                }
            }
            assert forall|idx: int|
                0 <= idx < post.len() implies target.contains_key((#[trigger] post[idx]).0@)
                && target[post[idx].0@] == post[idx].1@ by {
                if idx == post.len() - 1 {
                } else {
                    let j: int = if let Some(i) = found {
                        if idx < i as int {
                            idx
                        } else {
                            idx + 1
                        }
                    } else {
                        idx
                    };
                    assert(post[idx] == pre[j]);
                    assert(pre[j].0@ != key@);
                    lemma_assoc_map_index(pre, j);
                }
            }
            lemma_assoc_map_is(post, target);
        }
        core::mem::swap(&mut entries, &mut self.entries);
        Ok(())
    }

    fn delete(&mut self, key: &Key) -> (r: Result<(), StoreError>)
        ensures
            r is Ok,
    {
        proof {
            use_type_invariant(&*self);
        }
        let ghost pre = self.entries@;
        let found = self.find(key);
        let ghost target = assoc_map(pre).remove(key@);
        match found {
            Some(i) => {
                let mut entries: Vec<(Key, Vec<u8>)> = Vec::new();
                core::mem::swap(&mut entries, &mut self.entries);
                entries.remove(i);
                proof {
                    lemma_remove_entry(pre, i as int);
                    let post = entries@;
                    assert forall|k: Seq<Seq<char>>| #[trigger]
                        target.contains_key(k) implies exists|idx: int|
                        0 <= idx < post.len() && (#[trigger] post[idx]).0@ == k by {
                        let j = choose|j: int| 0 <= j < pre.len() && (#[trigger] pre[j]).0@ == k;
                        let idx: int = if j < i as int {
                            j
                        } else {
                            j - 1
                        };
                        assert(post[idx].0@ == k);
                    }
                    assert forall|idx: int|
                        0 <= idx < post.len() implies target.contains_key(
                        (#[trigger] post[idx]).0@,
                    ) && target[post[idx].0@] == post[idx].1@ by {
                        let j: int = if idx < i as int {
                            idx
                        } else {
                            idx + 1
                        };
                        assert(post[idx] == pre[j]);
                        assert(pre[j].0@ != key@);
                        lemma_assoc_map_index(pre, j);
                    }
                    lemma_assoc_map_is(post, target);
                }
                core::mem::swap(&mut entries, &mut self.entries);
            },
            None => {
                proof {
                    assert(!assoc_map(pre).contains_key(key@));
                    assert(assoc_map(pre).remove(key@) =~= assoc_map(pre));
                }
            },
        }
        Ok(())
    }
}

} // verus!
