//! The two capabilities the map asks of its element types: a key renders to
//! a canonical string (its string form is the key's identity inside the
//! physical path), and a value serializes to and from a byte encoding.
//! The byte codec for concrete value types is borsh's.

use vstd::bytes::lemma_auto_spec_u64_to_from_le_bytes;
use vstd::bytes::spec_u64_from_le_bytes;
use vstd::bytes::spec_u64_to_le_bytes;
use vstd::prelude::*;

verus! {

/// A key type that renders to a canonical string. Two values that render
/// identically address the same map entry, whatever any other equality
/// notion on the type says.
pub trait KeyRender {
    /// The canonical string form of this key.
    spec fn render_spec(&self) -> Seq<char>;

    /// Renders this key to its canonical string form.
    fn render(&self) -> (s: String)
        ensures
            s@ == self.render_spec(),
    ;
}

/// A value type with a byte encoding. Decoding is a total function of the
/// bytes alone: it either recovers a value or reports that the bytes do not
/// parse, and it recovers every value from its own encoding.
pub trait ValueCodec: Sized {
    /// The bytes this value encodes to.
    spec fn encoding(&self) -> Seq<u8>;

    /// What the given bytes decode to, or `None` when they do not parse.
    spec fn decode_spec(bytes: Seq<u8>) -> Option<Self>;

    /// Decoding inverts encoding: a value's own encoding always parses, and
    /// parses back to that value.
    proof fn lemma_codec_round_trip(&self)
        ensures
            Self::decode_spec(self.encoding()) == Some(*self),
    ;

    /// Encodes this value.
    fn encode(&self) -> (bytes: Vec<u8>)
        ensures
            bytes@ == self.encoding(),
    ;

    /// Decodes a value from bytes, or `None` when they do not parse.
    fn decode(bytes: &[u8]) -> (r: Option<Self>)
        ensures
            r == Self::decode_spec(bytes@),
    ;
}

impl KeyRender for String {
    open spec fn render_spec(&self) -> Seq<char> {
        self@
    }

    fn render(&self) -> (s: String) {
        self.clone()
    }
}

/// A key whose string form leaves its tag out: two values that differ only
/// in the tag render identically, so they collide on the same map entry.
pub struct TaggedKey {
    /// The part of the key its string form carries.
    pub name: String,
    /// A field no string form carries; invisible to the map's addressing.
    pub tag: u64,
}

impl KeyRender for TaggedKey {
    open spec fn render_spec(&self) -> Seq<char> {
        self.name@
    }

    fn render(&self) -> (s: String) {
        self.name.clone()
    }
}

/// Relies on borsh::to_vec for u64: eight little-endian bytes, and
/// serialization into a byte vector cannot fail.
#[verifier::external_body]
fn borsh_encode_u64(v: &u64) -> (bytes: Vec<u8>)
    ensures
        bytes@ == spec_u64_to_le_bytes(*v),
{
    borsh::to_vec(v).unwrap()
}

/// Relies on borsh's u64 deserializer via try_from_slice: it succeeds exactly
/// on eight-byte input, reading the bytes as one little-endian integer.
#[verifier::external_body]
fn borsh_decode_u64(bytes: &[u8]) -> (r: Option<u64>)
    ensures
        r == (if bytes@.len() == 8 {
            Some(spec_u64_from_le_bytes(bytes@))
        } else {
            None::<u64>
        }),
{
    borsh::BorshDeserialize::try_from_slice(bytes).ok()
}

impl ValueCodec for u64 {
    open spec fn encoding(&self) -> Seq<u8> {
        spec_u64_to_le_bytes(*self)
    }

    open spec fn decode_spec(bytes: Seq<u8>) -> Option<u64> {
        if bytes.len() == 8 {
            Some(spec_u64_from_le_bytes(bytes))
        } else {
            None
        }
    }

    proof fn lemma_codec_round_trip(&self) {
        lemma_auto_spec_u64_to_from_le_bytes();
    }

    fn encode(&self) -> (bytes: Vec<u8>) {
        borsh_encode_u64(self)
    }

    fn decode(bytes: &[u8]) -> (r: Option<u64>) {
        borsh_decode_u64(bytes)
    }
}

} // verus!
