//! A lazy map adapter: ordinary map semantics (insert, remove, get, iterate)
//! over an externally supplied key-value storage backend, touching one entry
//! per operation instead of materializing the whole collection.

mod codec;
mod key;
mod laws;
mod lazy_map;
mod mem;
mod storage;

pub use codec::KeyRender;
pub use codec::TaggedKey;
pub use codec::ValueCodec;
pub use key::is_prefix_of;
pub use key::Key;
pub use laws::distinct_renders;
pub use laws::element_keys;
pub use laws::insert_all;
pub use laws::lemma_collision_by_string_form;
pub use laws::lemma_element_keys_distinct_under_prefix;
pub use laws::lemma_insert_get_round_trip;
pub use laws::lemma_insert_previous_value;
pub use laws::lemma_iteration_completeness;
pub use laws::lemma_remove_contract;
pub use lazy_map::stored_value;
pub use lazy_map::LazyMap;
pub use lazy_map::DATA_SUBKEY;
pub use mem::MemCursor;
pub use mem::MemStorage;
pub use storage::prefix_scan_complete;
pub use storage::StorageRead;
pub use storage::StorageWrite;

use vstd::prelude::*;

verus! {

/// The two classes of failure a map operation can surface: an opaque backend
/// failure propagated verbatim, or value bytes that do not decode.
#[derive(Clone, Copy, Debug, PartialEq, Eq, Structural)]
pub enum StoreError {
    /// A value's bytes do not deserialize as the expected value type.
    Decode,
    /// An opaque failure reported by the storage backend itself.
    Backend,
}

} // verus!
