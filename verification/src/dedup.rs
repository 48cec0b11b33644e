//! Exact-match keys for vertices, and the table that remembers which vertex
//! was given which index.

use crate::binary32::{decoded, integer_decode, lemma_decoded_injective};
use vstd::prelude::*;

verus! {

/// What the table is keyed by: the decoded `x` and the decoded `y` of a
/// vertex, each as mantissa, exponent and sign.
pub type VertexKey = ((u32, i16, i8), (u32, i16, i8));

/// A vertex in a form that can be hashed and compared exactly: both
/// coordinates decoded into integers.
#[derive(Clone, Copy, Debug, PartialEq, Eq, Hash)]
pub struct HashAbleVec2 {
    pub x: (u32, i16, i8),
    pub y: (u32, i16, i8),
}

/// The key that the vertex with coordinate patterns `v` is filed under.
pub open spec fn key_of(v: (u32, u32)) -> VertexKey {
    (
        (decoded(v.0).0 as u32, decoded(v.0).1 as i16, decoded(v.0).2 as i8),
        (decoded(v.1).0 as u32, decoded(v.1).1 as i16, decoded(v.1).2 as i8),
    )
}

impl HashAbleVec2 {
    /// The pair of decoded coordinates.
    pub open spec fn spec_key(self) -> VertexKey {
        (self.x, self.y)
    }

    /// The pair of decoded coordinates, as the table takes it.
    pub fn key(&self) -> (k: VertexKey)
        ensures
            k == self.spec_key(),
    {
        (self.x, self.y)
    }
}

impl From<(u32, u32)> for HashAbleVec2 {
    /// Decodes both coordinate patterns of a vertex.
    fn from(val: (u32, u32)) -> (r: Self) {
        HashAbleVec2 { x: integer_decode(val.0), y: integer_decode(val.1) }
    }
}

impl vstd::std_specs::convert::FromSpecImpl<(u32, u32)> for HashAbleVec2 {
    open spec fn obeys_from_spec() -> bool {
        true
    }

    open spec fn from_spec(val: (u32, u32)) -> Self {
        HashAbleVec2 { x: key_of(val).0, y: key_of(val).1 }
    }
}

/// Two vertices are filed under the same key exactly when their coordinate
/// patterns agree bit for bit.
pub proof fn lemma_key_is_exact(v: (u32, u32), w: (u32, u32))
    ensures
        key_of(v) == key_of(w) <==> v == w,
{
    if key_of(v) == key_of(w) {
        lemma_decoded_injective(v.0, w.0);
        lemma_decoded_injective(v.1, w.1);
    }
}

/// The table from vertex keys to vertex indices: a `bevy::utils::HashMap`,
/// keyed by tuples of integers. Its contents are known here by
/// [`index_entries`] alone, and what the three functions below say of them
/// is taken from the map's documentation, not proved.
#[verifier::external_body]
pub struct VertexIndex {
    map: bevy::utils::HashMap<VertexKey, usize>,
}

/// The entries that a table holds.
pub uninterp spec fn index_entries(table: VertexIndex) -> Map<VertexKey, usize>;

/// Calls `bevy::utils::HashMap::new`. Taken on trust: the new map holds no
/// entry.
#[verifier::external_body]
pub(crate) fn index_new() -> (fresh: VertexIndex)
    ensures
        index_entries(fresh).dom() == Set::<VertexKey>::empty(),
{
    VertexIndex { map: bevy::utils::HashMap::new() }
}

/// Calls `bevy::utils::HashMap::get`. Taken on trust: it gives the value
/// that the map holds for `key`, and `None` if the map has no such key.
#[verifier::external_body]
pub(crate) fn index_get(table: &VertexIndex, key: &VertexKey) -> (found: Option<usize>)
    ensures
        found == (if index_entries(*table).dom().contains(*key) {
            Some(index_entries(*table)[*key])
        } else {
            None
        }),
{
    table.map.get(key).copied()
}

/// Calls `bevy::utils::HashMap::insert`. Taken on trust: afterwards the map
/// holds `value` for `key`, whether or not it had that key before, and for
/// every other key what it held before.
#[verifier::external_body]
pub(crate) fn index_insert(table: &mut VertexIndex, key: VertexKey, value: usize)
    ensures
        index_entries(*final(table)) == index_entries(*old(table)).insert(key, value),
{
    table.map.insert(key, value);
}

} // verus!
