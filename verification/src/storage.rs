//! The abstract storage backend this adapter delegates all persistence to:
//! primitive read/write/delete operations plus a prefix scan that hands out a
//! forward-only cursor. A backend's observable state is a map from path views
//! to the raw bytes stored there.

use crate::key::is_prefix_of;
use crate::key::Key;
use crate::StoreError;
use vstd::prelude::*;

verus! {

/// What a freshly opened prefix-scan cursor must hold: some enumeration,
/// without duplicate keys and in no promised order, of exactly the entries of
/// `contents` whose key lies under `prefix`.
pub open spec fn prefix_scan_complete(
    entries: Seq<(Seq<Seq<char>>, Seq<u8>)>,
    contents: Map<Seq<Seq<char>>, Seq<u8>>,
    prefix: Seq<Seq<char>>,
) -> bool {
    &&& forall|i: int, j: int| 0 <= i < j < entries.len() ==> entries[i].0 != entries[j].0
    &&& forall|i: int|
        0 <= i < entries.len() ==> {
            &&& is_prefix_of(prefix, (#[trigger] entries[i]).0)
            &&& contents.contains_key(entries[i].0)
            &&& contents[entries[i].0] == entries[i].1
        }
    &&& forall|k: Seq<Seq<char>>|
        #[trigger] contents.contains_key(k) && is_prefix_of(prefix, k) ==> exists|i: int|
            0 <= i < entries.len() && entries[i].0 == k
}

/// Read access to a storage backend. `contents` is the backend's current
/// state; `cursor_view` is the sequence of entries a cursor has yet to yield,
/// in the order it will yield them.
pub trait StorageRead: Sized {
    /// A backend-managed handle for one in-progress prefix scan.
    type Cursor;

    /// The entries the backend currently holds: raw bytes addressed by path.
    spec fn contents(&self) -> Map<Seq<Seq<char>>, Seq<u8>>;

    /// The entries a cursor has yet to yield, front first.
    spec fn cursor_view(cursor: Self::Cursor) -> Seq<(Seq<Seq<char>>, Seq<u8>)>;

    /// The bytes stored at `key`, or `None` when no entry lives there; a
    /// backend failure surfaces as an error.
    fn read(&self, key: &Key) -> (r: Result<Option<Vec<u8>>, StoreError>)
        ensures
            match r {
                Ok(Some(bytes)) => self.contents().contains_key(key@) && bytes@
                    == self.contents()[key@],
                Ok(None) => !self.contents().contains_key(key@),
                Err(e) => e == StoreError::Backend,
            },
    ;

    /// Opens a scan over every entry whose key lies under `prefix`; on
    /// success the cursor enumerates exactly those entries, each once, in an
    /// order of the backend's choosing.
    fn iter_prefix(&self, prefix: &Key) -> (r: Result<Self::Cursor, StoreError>)
        ensures
            match r {
                Ok(cursor) => prefix_scan_complete(
                    Self::cursor_view(cursor),
                    self.contents(),
                    prefix@,
                ),
                Err(e) => e == StoreError::Backend,
            },
    ;

    /// Advances the cursor by exactly one entry; yields `None` once the scan
    /// is exhausted. After a backend failure the cursor's further behaviour
    /// is unspecified.
    fn iter_next(&self, cursor: &mut Self::Cursor) -> (r: Result<
        Option<(Key, Vec<u8>)>,
        StoreError,
    >)
        ensures
            match r {
                Ok(Some(entry)) => {
                    let pre = Self::cursor_view(*old(cursor));
                    &&& pre.len() > 0
                    &&& entry.0@ == pre[0].0
                    &&& entry.1@ == pre[0].1
                    &&& Self::cursor_view(*final (cursor)) == pre.drop_first()
                },
                Ok(None) => Self::cursor_view(*old(cursor)).len() == 0 && Self::cursor_view(
                    *final (cursor),
                ).len() == 0,
                Err(e) => e == StoreError::Backend,
            },
    ;
}

/// Write access to a storage backend. A failed write or delete leaves the
/// backend's contents as they were: value replacement is a single backend
/// call, with no partial-write state.
pub trait StorageWrite: StorageRead {
    /// Stores `value` at `key`, overwriting whatever was there.
    fn write(&mut self, key: &Key, value: &[u8]) -> (r: Result<(), StoreError>)
        ensures
            match r {
                Ok(_) => final (self).contents() == old(self).contents().insert(key@, value@),
                Err(e) => e == StoreError::Backend && final (self).contents() == old(
                    self,
                ).contents(),
            },
    ;

    /// Removes the entry at `key`; deleting an absent key is not an error.
    fn delete(&mut self, key: &Key) -> (r: Result<(), StoreError>)
        ensures
            match r {
                Ok(_) => final (self).contents() == old(self).contents().remove(key@),
                Err(e) => e == StoreError::Backend && final (self).contents() == old(
                    self,
                ).contents(),
            },
    ;
}

} // verus!
