//! The map's laws, stated over the same models its operations' contracts use:
//! `stored_value` describes what a read of an element slot must produce, and
//! each operation's `ensures` pins how it moves the backend's contents. These
//! lemmas connect consecutive operations through those contracts.

use crate::codec::KeyRender;
use crate::codec::ValueCodec;
use crate::key::is_prefix_of;
use crate::lazy_map::stored_value;
use crate::lazy_map::LazyMap;
use crate::storage::prefix_scan_complete;
use crate::StoreError;
use vstd::prelude::*;

verus! {

/// Round trip: for every key and value, after `insert(key, val)` has run
/// (its contract makes the backend contents `contents.insert(ek,
/// val.encoding())`), reading the element slot — which is what `get(key)`
/// returns whenever the backend itself does not fail — produces exactly
/// `Some(val)`.
pub proof fn lemma_insert_get_round_trip<K: KeyRender, V: ValueCodec>(
    m: LazyMap<K, V>,
    contents: Map<Seq<Seq<char>>, Seq<u8>>,
    key: K,
    val: V,
)
    ensures
        ({
            let ek = m.element_key_spec(key.render_spec());
            stored_value::<V>(contents.insert(ek, val.encoding()), ek) == Ok::<
                Option<V>,
                StoreError,
            >(Some(val))
        }),
{
    val.lemma_codec_round_trip();
}

/// Previous-value contract: when the element slot is empty, an insert's
/// captured previous value is `None`; and after an insert of `v1`, the slot
/// a subsequent insert of the same key captures holds exactly `Some(v1)`.
pub proof fn lemma_insert_previous_value<K: KeyRender, V: ValueCodec>(
    m: LazyMap<K, V>,
    contents: Map<Seq<Seq<char>>, Seq<u8>>,
    key: K,
    v1: V,
)
    ensures
        ({
            let ek = m.element_key_spec(key.render_spec());
            &&& !contents.contains_key(ek) ==> stored_value::<V>(contents, ek) == Ok::<
                Option<V>,
                StoreError,
            >(None)
            &&& stored_value::<V>(contents.insert(ek, v1.encoding()), ek) == Ok::<
                Option<V>,
                StoreError,
            >(Some(v1))
        }),
{
    v1.lemma_codec_round_trip();
}

/// Remove contract: after `remove(key)` has run (its contract makes the
/// backend contents `contents.remove(ek)`), the element slot reads back as
/// `None`; and removing an absent key leaves the backend contents untouched,
/// so the delete is a no-op.
pub proof fn lemma_remove_contract<K: KeyRender, V: ValueCodec>(
    m: LazyMap<K, V>,
    contents: Map<Seq<Seq<char>>, Seq<u8>>,
    key: K,
)
    ensures
        ({
            let ek = m.element_key_spec(key.render_spec());
            &&& stored_value::<V>(contents.remove(ek), ek) == Ok::<Option<V>, StoreError>(None)
            &&& !contents.contains_key(ek) ==> contents.remove(ek) == contents
        }),
{
    let ek = m.element_key_spec(key.render_spec());
    if !contents.contains_key(ek) {
        assert(contents.remove(ek) =~= contents);
    }
}

/// Collision by string form: two keys that render to the same string address
/// the same element slot, whatever any other equality notion on K says; so
/// inserting under the first and then under the second leaves the second's
/// value in the slot both of them read.
pub proof fn lemma_collision_by_string_form<K: KeyRender, V: ValueCodec>(
    m: LazyMap<K, V>,
    contents: Map<Seq<Seq<char>>, Seq<u8>>,
    k1: K,
    k2: K,
    v1: V,
    v2: V,
)
    requires
        k1.render_spec() == k2.render_spec(),
    ensures
        ({
            let ek1 = m.element_key_spec(k1.render_spec());
            let ek2 = m.element_key_spec(k2.render_spec());
            &&& ek1 == ek2
            &&& stored_value::<V>(
                contents.insert(ek1, v1.encoding()).insert(ek2, v2.encoding()),
                ek1,
            ) == Ok::<Option<V>, StoreError>(Some(v2))
        }),
{
    v2.lemma_codec_round_trip();
}

/// The keys of `pairs` have pairwise distinct string forms.
pub open spec fn distinct_renders<K: KeyRender, V: ValueCodec>(pairs: Seq<(K, V)>) -> bool {
    forall|i: int, j: int|
        0 <= i < j < pairs.len() ==> (#[trigger] pairs[i]).0.render_spec() != (
        #[trigger] pairs[j]).0.render_spec()
}

/// The backend contents after inserting `pairs`, in order, into an empty
/// collection: each pair's value encoding stored at its element key.
pub open spec fn insert_all<K: KeyRender, V: ValueCodec>(m: LazyMap<K, V>, pairs: Seq<(K, V)>) -> Map<
    Seq<Seq<char>>,
    Seq<u8>,
>
    decreases pairs.len(),
{
    if pairs.len() == 0 {
        Map::empty()
    } else {
        insert_all(m, pairs.drop_last()).insert(
            m.element_key_spec(pairs.last().0.render_spec()),
            pairs.last().1.encoding(),
        )
    }
}

/// The element keys of `pairs`, in order.
pub open spec fn element_keys<K: KeyRender, V: ValueCodec>(
    m: LazyMap<K, V>,
    pairs: Seq<(K, V)>,
) -> Seq<Seq<Seq<char>>> {
    pairs.map_values(|p: (K, V)| m.element_key_spec(p.0.render_spec()))
}

proof fn lemma_insert_all_dom<K: KeyRender, V: ValueCodec>(
    m: LazyMap<K, V>,
    pairs: Seq<(K, V)>,
    k: Seq<Seq<char>>,
)
    ensures
        insert_all(m, pairs).contains_key(k) <==> exists|j: int|
            0 <= j < pairs.len() && m.element_key_spec((#[trigger] pairs[j]).0.render_spec()) == k,
    decreases pairs.len(),
{
    if pairs.len() == 0 {
    } else {
        lemma_insert_all_dom(m, pairs.drop_last(), k);
        let last = pairs.len() - 1;
        if m.element_key_spec(pairs[last].0.render_spec()) == k {
            assert(0 <= last < pairs.len() && m.element_key_spec(pairs[last].0.render_spec())
                == k);
        } else {
            if insert_all(m, pairs).contains_key(k) {
                let j = choose|j: int|
                    0 <= j < pairs.drop_last().len() && m.element_key_spec(
                        (#[trigger] pairs.drop_last()[j]).0.render_spec(),
                    ) == k;
                assert(pairs.drop_last()[j] == pairs[j]);
                assert(m.element_key_spec((pairs[j]).0.render_spec()) == k);
            }
            if exists|j: int|
                0 <= j < pairs.len() && m.element_key_spec((#[trigger] pairs[j]).0.render_spec())
                    == k {
                let j = choose|j: int|
                    0 <= j < pairs.len() && m.element_key_spec(
                        (#[trigger] pairs[j]).0.render_spec(),
                    ) == k;
                assert(j < last);
                assert(pairs.drop_last()[j] == pairs[j]);
                assert(m.element_key_spec((pairs.drop_last()[j]).0.render_spec()) == k);
            }
        }
    }
}

proof fn lemma_insert_all_index<K: KeyRender, V: ValueCodec>(
    m: LazyMap<K, V>,
    pairs: Seq<(K, V)>,
    j: int,
)
    requires
        distinct_renders(pairs),
        0 <= j < pairs.len(),
    ensures
        insert_all(m, pairs).contains_key(m.element_key_spec(pairs[j].0.render_spec())),
        insert_all(m, pairs)[m.element_key_spec(pairs[j].0.render_spec())]
            == pairs[j].1.encoding(),
    decreases pairs.len(),
{
    let p = m.data_prefix_spec();
    let last = pairs.len() - 1;
    let ek = m.element_key_spec(pairs[j].0.render_spec());
    if j == last {
    } else {
        assert(pairs[j].0.render_spec() != pairs[last].0.render_spec());
        assert(ek[p.len() as int] == pairs[j].0.render_spec());
        assert(m.element_key_spec(pairs[last].0.render_spec())[p.len() as int]
            == pairs[last].0.render_spec());
        assert(ek != m.element_key_spec(pairs[last].0.render_spec()));
        assert(distinct_renders(pairs.drop_last()));
        lemma_insert_all_index(m, pairs.drop_last(), j);
        assert(pairs.drop_last()[j] == pairs[j]);
    }
}

/// Iteration completeness: after inserting any number of keys with pairwise
/// distinct string forms into an empty collection, a prefix scan over the
/// data prefix holds exactly one entry per inserted pair — as many entries as
/// pairs — and every entry's bytes decode to the value stored for one of the
/// pairs, in whatever order the backend chose.
#[verifier::spinoff_prover]
proof fn lemma_scan_covers_pairs<K: KeyRender, V: ValueCodec>(
    m: LazyMap<K, V>,
    pairs: Seq<(K, V)>,
    scan: Seq<(Seq<Seq<char>>, Seq<u8>)>,
)
    requires
        distinct_renders(pairs),
        prefix_scan_complete(scan, insert_all(m, pairs), m.data_prefix_spec()),
    ensures
        forall|j: int|
            0 <= j < pairs.len() ==> exists|i: int|
                0 <= i < scan.len() && (#[trigger] scan[i]).0 == m.element_key_spec(
                    (#[trigger] pairs[j]).0.render_spec(),
                ) && V::decode_spec(scan[i].1) == Some(pairs[j].1),
{
    let p = m.data_prefix_spec();
    let c = insert_all(m, pairs);
    assert forall|j: int| 0 <= j < pairs.len() implies exists|i: int|
        0 <= i < scan.len() && (#[trigger] scan[i]).0 == m.element_key_spec(
            (#[trigger] pairs[j]).0.render_spec(),
        ) && V::decode_spec(scan[i].1) == Some(pairs[j].1) by {
        lemma_insert_all_index(m, pairs, j);
        let ek = m.element_key_spec(pairs[j].0.render_spec());
        assert(ek.take(p.len() as int) =~= p);
        assert(c.contains_key(ek) && is_prefix_of(p, ek));
        let i = choose|i: int| 0 <= i < scan.len() && (#[trigger] scan[i]).0 == ek;
        pairs[j].1.lemma_codec_round_trip();
        assert(scan[i].1 == c[ek]);
    }
}

#[verifier::spinoff_prover]
proof fn lemma_scan_decodes<K: KeyRender, V: ValueCodec>(
    m: LazyMap<K, V>,
    pairs: Seq<(K, V)>,
    scan: Seq<(Seq<Seq<char>>, Seq<u8>)>,
)
    requires
        distinct_renders(pairs),
        prefix_scan_complete(scan, insert_all(m, pairs), m.data_prefix_spec()),
    ensures
        forall|i: int|
            0 <= i < scan.len() ==> exists|j: int|
                0 <= j < pairs.len() && V::decode_spec((#[trigger] scan[i]).1) == Some(
                    pairs[j].1,
                ),
{
    let c = insert_all(m, pairs);
    assert forall|i: int| 0 <= i < scan.len() implies exists|j: int|
        0 <= j < pairs.len() && V::decode_spec((#[trigger] scan[i]).1) == Some(pairs[j].1) by {
        lemma_insert_all_dom(m, pairs, scan[i].0);
        assert(c.contains_key(scan[i].0));
        let j = choose|j: int|
            0 <= j < pairs.len() && m.element_key_spec((#[trigger] pairs[j]).0.render_spec())
                == scan[i].0;
        lemma_insert_all_index(m, pairs, j);
        pairs[j].1.lemma_codec_round_trip();
        assert(scan[i].1 == c[scan[i].0]);
    }
}

#[verifier::spinoff_prover]
proof fn lemma_scan_keys_match<K: KeyRender, V: ValueCodec>(
    m: LazyMap<K, V>,
    pairs: Seq<(K, V)>,
    scan: Seq<(Seq<Seq<char>>, Seq<u8>)>,
)
    requires
        distinct_renders(pairs),
        prefix_scan_complete(scan, insert_all(m, pairs), m.data_prefix_spec()),
    ensures
        scan.map_values(|e: (Seq<Seq<char>>, Seq<u8>)| e.0).to_set() == element_keys(
            m,
            pairs,
        ).to_set(),
{
    let p = m.data_prefix_spec();
    let c = insert_all(m, pairs);
    let eks = element_keys(m, pairs);
    let sks = scan.map_values(|e: (Seq<Seq<char>>, Seq<u8>)| e.0);
    assert forall|k: Seq<Seq<char>>| sks.to_set().contains(k) implies eks.to_set().contains(
        k,
    ) by {
        let i = choose|i: int| 0 <= i < sks.len() && sks[i] == k;
        lemma_insert_all_dom(m, pairs, k);
        assert(c.contains_key(k));
        let j = choose|j: int|
            0 <= j < pairs.len() && m.element_key_spec((#[trigger] pairs[j]).0.render_spec()) == k;
        assert(eks[j] == k);
    }
    assert forall|k: Seq<Seq<char>>| eks.to_set().contains(k) implies sks.to_set().contains(
        k,
    ) by {
        let j = choose|j: int| 0 <= j < eks.len() && eks[j] == k;
        lemma_insert_all_index(m, pairs, j);
        assert(k.take(p.len() as int) =~= p);
        assert(c.contains_key(k) && is_prefix_of(p, k));
        let i = choose|i: int| 0 <= i < scan.len() && (#[trigger] scan[i]).0 == k;
        assert(sks[i] == k);
    }
    assert(sks.to_set() =~= eks.to_set());
}

#[verifier::spinoff_prover]
proof fn lemma_scan_count<K: KeyRender, V: ValueCodec>(
    m: LazyMap<K, V>,
    pairs: Seq<(K, V)>,
    scan: Seq<(Seq<Seq<char>>, Seq<u8>)>,
)
    requires
        distinct_renders(pairs),
        prefix_scan_complete(scan, insert_all(m, pairs), m.data_prefix_spec()),
    ensures
        scan.len() == pairs.len(),
{
    let p = m.data_prefix_spec();
    let eks = element_keys(m, pairs);
    let sks = scan.map_values(|e: (Seq<Seq<char>>, Seq<u8>)| e.0);
    assert(eks.no_duplicates()) by {
        assert forall|a: int, b: int| 0 <= a < b < eks.len() implies eks[a] != eks[b] by {
            assert(pairs[a].0.render_spec() != pairs[b].0.render_spec());
            assert(eks[a][p.len() as int] == pairs[a].0.render_spec());
            assert(eks[b][p.len() as int] == pairs[b].0.render_spec());
        }
    }
    assert(sks.no_duplicates()) by {
        assert forall|a: int, b: int| 0 <= a < b < sks.len() implies sks[a] != sks[b] by {
            assert(scan[a].0 != scan[b].0);
        }
    }
    lemma_scan_keys_match(m, pairs, scan);
    sks.unique_seq_to_set();
    eks.unique_seq_to_set();
}

/// Iteration completeness: after inserting any number of keys with pairwise
/// distinct string forms into an empty collection, a prefix scan over the
/// data prefix holds exactly one entry per inserted pair — as many entries as
/// pairs — and every entry's bytes decode to the value stored for one of the
/// pairs, in whatever order the backend chose.
pub proof fn lemma_iteration_completeness<K: KeyRender, V: ValueCodec>(
    m: LazyMap<K, V>,
    pairs: Seq<(K, V)>,
    scan: Seq<(Seq<Seq<char>>, Seq<u8>)>,
)
    requires
        distinct_renders(pairs),
        prefix_scan_complete(scan, insert_all(m, pairs), m.data_prefix_spec()),
    ensures
        scan.len() == pairs.len(),
        forall|i: int|
            0 <= i < scan.len() ==> exists|j: int|
                0 <= j < pairs.len() && V::decode_spec((#[trigger] scan[i]).1) == Some(
                    pairs[j].1,
                ),
        forall|j: int|
            0 <= j < pairs.len() ==> exists|i: int|
                0 <= i < scan.len() && (#[trigger] scan[i]).0 == m.element_key_spec(
                    (#[trigger] pairs[j]).0.render_spec(),
                ) && V::decode_spec(scan[i].1) == Some(pairs[j].1),
{
    lemma_scan_count(m, pairs, scan);
    lemma_scan_decodes(m, pairs, scan);
    lemma_scan_covers_pairs(m, pairs, scan);
}

/// Iteration sees each inserted element exactly once: every element key lies
/// under the data prefix, so a prefix scan enumerates it; and keys with
/// distinct string forms have distinct element keys, so their entries are
/// distinct entries of the scan.
pub proof fn lemma_element_keys_distinct_under_prefix<K: KeyRender, V: ValueCodec>(
    m: LazyMap<K, V>,
    k1: K,
    k2: K,
)
    ensures
        is_prefix_of(m.data_prefix_spec(), m.element_key_spec(k1.render_spec())),
        k1.render_spec() != k2.render_spec() ==> m.element_key_spec(k1.render_spec())
            != m.element_key_spec(k2.render_spec()),
{
    let p = m.data_prefix_spec();
    let e1 = m.element_key_spec(k1.render_spec());
    let e2 = m.element_key_spec(k2.render_spec());
    assert(e1.take(p.len() as int) =~= p);
    assert(e1[p.len() as int] == k1.render_spec());
    assert(e2[p.len() as int] == k2.render_spec());
}

} // verus!
