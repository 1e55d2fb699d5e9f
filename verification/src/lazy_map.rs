//! The lazy map adapter: ordinary map operations over a storage backend,
//! one or two backend accesses per operation. The adapter holds nothing but
//! the collection's root path; every element lives in the backend, at a
//! physical key derived from the root and the element key's string form.

use crate::codec::KeyRender;
use crate::codec::ValueCodec;
use crate::key::Key;
use crate::storage::prefix_scan_complete;
use crate::storage::StorageRead;
use crate::storage::StorageWrite;
use crate::StoreError;
use core::marker::PhantomData;
use vstd::prelude::*;

verus! {

/// Subkey under which the map's data elements live.
pub const DATA_SUBKEY: &'static str = "data";

/// What reading the entry at path `element_key` out of backend state
/// `contents` must produce: the decoded value when the entry is there and its
/// bytes parse, `None` when no entry is there, and a decode error when the
/// bytes do not parse. Backend failures are the one outcome this does not
/// cover; they may preempt any read.
pub open spec fn stored_value<V: ValueCodec>(
    contents: Map<Seq<Seq<char>>, Seq<u8>>,
    element_key: Seq<Seq<char>>,
) -> Result<Option<V>, StoreError> {
    if contents.contains_key(element_key) {
        match V::decode_spec(contents[element_key]) {
            Some(v) => Ok(Some(v)),
            None => Err(StoreError::Decode),
        }
    } else {
        Ok(None)
    }
}

/// A map from K to V living at a storage path. The value holds only the root
/// path; K and V exist to fix the key rendering and the value codec.
pub struct LazyMap<K, V> {
    key: Key,
    phantom_k: PhantomData<K>,
    phantom_v: PhantomData<V>,
}

impl<K, V> LazyMap<K, V> where K: KeyRender, V: ValueCodec {
    /// The root path this map was bound to.
    pub closed spec fn root_spec(&self) -> Seq<Seq<char>> {
        self.key@
    }

    /// The path under which all of this map's elements live.
    pub open spec fn data_prefix_spec(&self) -> Seq<Seq<char>> {
        self.root_spec().push(DATA_SUBKEY@)
    }

    /// The physical path of the element whose key renders to `key_string`:
    /// a pure function of the root path and the string form alone.
    pub open spec fn element_key_spec(&self, key_string: Seq<char>) -> Seq<Seq<char>> {
        self.data_prefix_spec().push(key_string)
    }

    /// Create or use an existing map with the given storage `key`. Binds the
    /// adapter to the path; touches no backend state and never fails. Two
    /// maps bound to the same path observe the same logical collection.
    pub fn new(key: Key) -> (m: Self)
        ensures
            m.root_spec() == key@,
    {
        Self { key, phantom_k: PhantomData, phantom_v: PhantomData }
    }

    /// Returns the value corresponding to the key, if any: one backend read
    /// of the element's derived path, then one decode.
    pub fn get<S: StorageRead>(&self, storage: &S, key: &K) -> (r: Result<Option<V>, StoreError>)
        ensures
            r == Err::<Option<V>, StoreError>(StoreError::Backend) || r == stored_value::<V>(
                storage.contents(),
                self.element_key_spec(key.render_spec()),
            ),
    {
        let data_key = self.get_data_key(key);
        Self::read_key_val(storage, &data_key)
    }

    /// Inserts a key-value pair into the map, overwriting whatever entry the
    /// key's string form addressed. Returns the previous value there, `None`
    /// if the map did not have this key present. The slot is determined by
    /// the string form alone and the key itself is never stored, so two keys
    /// that render identically overwrite each other and nothing of a key
    /// beyond its string form is kept or updated. One backend read captures
    /// the previous value, then one backend write replaces it; a failure of
    /// either leaves the backend as it was, the read's decode failure
    /// included.
    pub fn insert<S: StorageWrite>(&self, storage: &mut S, key: K, val: V) -> (r: Result<
        Option<V>,
        StoreError,
    >)
        ensures
            ({
                let ek = self.element_key_spec(key.render_spec());
                match r {
                    Ok(previous) => final (storage).contents() == old(storage).contents().insert(
                        ek,
                        val.encoding(),
                    ) && Ok::<Option<V>, StoreError>(previous) == stored_value::<V>(
                        old(storage).contents(),
                        ek,
                    ),
                    Err(StoreError::Decode) => final (storage).contents() == old(
                        storage,
                    ).contents() && Err::<Option<V>, StoreError>(StoreError::Decode)
                        == stored_value::<V>(old(storage).contents(), ek),
                    Err(StoreError::Backend) => final (storage).contents() == old(
                        storage,
                    ).contents(),
                }
            }),
    {
        let previous = match self.get(storage, &key) {
            Ok(previous) => previous,
            Err(e) => {
                return Err(e);
            },
        };
        let data_key = self.get_data_key(&key);
        match Self::write_key_val(storage, &data_key, val) {
            Ok(_) => Ok(previous),
            Err(e) => Err(e),
        }
    }

    /// Removes a key from the map, returning the value at the key if the key
    /// was previously in the map. One backend read captures the value, then
    /// one delete clears the slot; deleting an absent key is not an error,
    /// and the delete is then a no-op.
    pub fn remove<S: StorageWrite>(&self, storage: &mut S, key: &K) -> (r: Result<
        Option<V>,
        StoreError,
    >)
        ensures
            ({
                let ek = self.element_key_spec(key.render_spec());
                match r {
                    Ok(value) => final (storage).contents() == old(storage).contents().remove(ek)
                        && Ok::<Option<V>, StoreError>(value) == stored_value::<V>(
                        old(storage).contents(),
                        ek,
                    ),
                    Err(StoreError::Decode) => final (storage).contents() == old(
                        storage,
                    ).contents() && Err::<Option<V>, StoreError>(StoreError::Decode)
                        == stored_value::<V>(old(storage).contents(), ek),
                    Err(StoreError::Backend) => final (storage).contents() == old(
                        storage,
                    ).contents(),
                }
            }),
    {
        let value = match self.get(storage, key) {
            Ok(value) => value,
            Err(e) => {
                return Err(e);
            },
        };
        let data_key = self.get_data_key(key);
        match storage.delete(&data_key) {
            Ok(_) => Ok(value),
            Err(e) => Err(e),
        }
    }

    /// Opens iteration over the map's elements: one backend prefix scan over
    /// the data prefix, whose cursor enumerates exactly the stored entries,
    /// each once, in an order of the backend's choosing. Pull values out of
    /// the cursor with `next_value`; the cursor is forward-only and cannot be
    /// restarted. Its cost grows with the number of stored entries.
    pub fn iter<S: StorageRead>(&self, storage: &S) -> (r: Result<S::Cursor, StoreError>)
        ensures
            match r {
                Ok(cursor) => prefix_scan_complete(
                    S::cursor_view(cursor),
                    storage.contents(),
                    self.data_prefix_spec(),
                ),
                Err(e) => e == StoreError::Backend,
            },
    {
        storage.iter_prefix(&self.get_data_prefix())
    }

    /// Pulls the next element's value out of an iteration cursor: advances
    /// the cursor by exactly one entry and decodes that entry's bytes. A
    /// decode failure is confined to that element's result; the cursor has
    /// already advanced, so the next pull proceeds to the following entry.
    /// `None` means the scan is exhausted. The element's logical key is not
    /// reconstructed or exposed. After a backend failure the cursor's
    /// further behaviour is unspecified.
    pub fn next_value<S: StorageRead>(&self, storage: &S, cursor: &mut S::Cursor) -> (r: Option<
        Result<V, StoreError>,
    >)
        ensures
            ({
                let pre = S::cursor_view(*old(cursor));
                match r {
                    None => pre.len() == 0 && S::cursor_view(*final (cursor)).len() == 0,
                    Some(Ok(v)) => pre.len() > 0 && S::cursor_view(*final (cursor))
                        == pre.drop_first() && V::decode_spec(pre[0].1) == Some(v),
                    Some(Err(StoreError::Decode)) => pre.len() > 0 && S::cursor_view(
                        *final (cursor),
                    ) == pre.drop_first() && V::decode_spec(pre[0].1) is None,
                    Some(Err(StoreError::Backend)) => true,
                }
            }),
    {
        match storage.iter_next(cursor) {
            Ok(Some(entry)) => match V::decode(entry.1.as_slice()) {
                Some(v) => Some(Ok(v)),
                None => Some(Err(StoreError::Decode)),
            },
            Ok(None) => None,
            Err(e) => Some(Err(e)),
        }
    }

    /// Reads a value from storage: one backend read, one decode.
    fn read_key_val<S: StorageRead>(storage: &S, storage_key: &Key) -> (r: Result<
        Option<V>,
        StoreError,
    >)
        ensures
            r == Err::<Option<V>, StoreError>(StoreError::Backend) || r == stored_value::<V>(
                storage.contents(),
                storage_key@,
            ),
    {
        match storage.read(storage_key) {
            Ok(Some(bytes)) => match V::decode(bytes.as_slice()) {
                Some(v) => Ok(Some(v)),
                None => Err(StoreError::Decode),
            },
            Ok(None) => Ok(None),
            Err(e) => Err(e),
        }
    }

    /// Writes a value into storage: one encode, one backend write.
    fn write_key_val<S: StorageWrite>(storage: &mut S, storage_key: &Key, val: V) -> (r: Result<
        (),
        StoreError,
    >)
        ensures
            match r {
                Ok(_) => final (storage).contents() == old(storage).contents().insert(
                    storage_key@,
                    val.encoding(),
                ),
                Err(e) => e == StoreError::Backend && final (storage).contents() == old(
                    storage,
                ).contents(),
            },
    {
        let bytes = val.encode();
        storage.write(storage_key, bytes.as_slice())
    }

    /// Get the prefix of the map's element storage.
    fn get_data_prefix(&self) -> (k: Key)
        ensures
            k@ == self.data_prefix_spec(),
    {
        self.key.push(DATA_SUBKEY)
    }

    /// Get the sub-key of a given element.
    fn get_data_key(&self, key: &K) -> (k: Key)
        ensures
            k@ == self.element_key_spec(key.render_spec()),
    {
        let rendered = key.render();
        self.get_data_prefix().push(rendered.as_str())
    }
}

} // verus!
