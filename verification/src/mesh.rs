//! Welding a stream of raw vertices into an indexed triangle mesh.

use crate::binary32::{ONE, ZERO};
use crate::dedup::{
    index_entries, index_get, index_insert, index_new, key_of, lemma_key_is_exact, HashAbleVec2,
    VertexIndex, VertexKey,
};
use vstd::prelude::*;

verus! {

/// The buffers of a triangle mesh. Every coordinate is the bit pattern of a
/// single-precision number. `positions`, `normals` and `uvs` run in
/// parallel, one entry per vertex; `indices` names the corners of the
/// triangles, three entries per triangle.
#[derive(Debug)]
pub struct MeshBuffers {
    pub positions: Vec<(u32, u32, u32)>,
    pub normals: Vec<(u32, u32, u32)>,
    pub uvs: Vec<(u32, u32)>,
    pub indices: Vec<u32>,
}

/// The contents of a [`MeshBuffers`].
pub struct MeshView {
    pub positions: Seq<(u32, u32, u32)>,
    pub normals: Seq<(u32, u32, u32)>,
    pub uvs: Seq<(u32, u32)>,
    pub indices: Seq<u32>,
}

impl View for MeshBuffers {
    type V = MeshView;

    open spec fn view(&self) -> MeshView {
        MeshView {
            positions: self.positions@,
            normals: self.normals@,
            uvs: self.uvs@,
            indices: self.indices@,
        }
    }
}

/// The vertices of `raw` without repetitions: each one stands where it
/// first occurs, and later occurrences are left out.
pub open spec fn distinct_vertices(raw: Seq<(u32, u32)>) -> Seq<(u32, u32)>
    decreases raw.len(),
{
    if raw.len() == 0 {
        Seq::empty()
    } else {
        let earlier = distinct_vertices(raw.drop_last());
        if earlier.contains(raw.last()) {
            earlier
        } else {
            earlier.push(raw.last())
        }
    }
}

/// The mesh that a stream of raw vertices welds into: one position, with
/// `z = 0`, per distinct vertex; the normal `(0, 0, 1)` and the texture
/// coordinate `(0, 0)` for each of them; and for each raw vertex the index
/// of its position.
pub open spec fn welded(raw: Seq<(u32, u32)>) -> MeshView {
    let distinct = distinct_vertices(raw);
    MeshView {
        positions: Seq::new(distinct.len(), |i: int| (distinct[i].0, distinct[i].1, ZERO)),
        normals: Seq::new(distinct.len(), |i: int| (ZERO, ZERO, ONE)),
        uvs: Seq::new(distinct.len(), |i: int| (ZERO, ZERO)),
        indices: Seq::new(raw.len(), |k: int| distinct.index_of(raw[k]) as u32),
    }
}

/// The distinct vertices hold nothing twice, hold exactly the vertices of
/// the stream, and are no more than the stream has entries.
pub proof fn lemma_distinct_vertices(raw: Seq<(u32, u32)>)
    ensures
        distinct_vertices(raw).no_duplicates(),
        forall|v: (u32, u32)| distinct_vertices(raw).contains(v) <==> raw.contains(v),
        distinct_vertices(raw).len() <= raw.len(),
    decreases raw.len(),
{
    let distinct = distinct_vertices(raw);
    if raw.len() > 0 {
        let front = raw.drop_last();
        let earlier = distinct_vertices(front);
        lemma_distinct_vertices(front);
        assert forall|v: (u32, u32)| distinct.contains(v) <==> raw.contains(v) by {
            if raw.contains(v) {
                let i = choose|i: int| 0 <= i < raw.len() && raw[i] == v;
                if i < raw.len() - 1 {
                    assert(front[i] == v);
                    assert(front.contains(v));
                    assert(earlier.contains(v));
                    let j = choose|j: int| 0 <= j < earlier.len() && earlier[j] == v;
                    assert(distinct[j] == v);
                } else {
                    if earlier.contains(v) {
                    } else {
                        assert(distinct[earlier.len() as int] == v);
                    }
                }
            }
            if distinct.contains(v) {
                let j = choose|j: int| 0 <= j < distinct.len() && distinct[j] == v;
                if j < earlier.len() {
                    assert(earlier[j] == v);
                    assert(earlier.contains(v));
                    assert(front.contains(v));
                    let i = choose|i: int| 0 <= i < front.len() && front[i] == v;
                    assert(raw[i] == v);
                } else {
                    assert(raw[raw.len() - 1] == v);
                }
            }
        }
    }
}

/// Welding leaves out exactly the repetitions: there are as many positions
/// as raw vertices if and only if no raw vertex occurs twice.
pub proof fn lemma_nothing_merged_iff_all_distinct(raw: Seq<(u32, u32)>)
    ensures
        distinct_vertices(raw).len() <= raw.len(),
        distinct_vertices(raw).len() == raw.len() <==> raw.no_duplicates(),
    decreases raw.len(),
{
    lemma_distinct_vertices(raw);
    if raw.len() > 0 {
        let front = raw.drop_last();
        let earlier = distinct_vertices(front);
        lemma_nothing_merged_iff_all_distinct(front);
        lemma_distinct_vertices(front);
        if raw.no_duplicates() {
            assert forall|i: int, j: int|
                0 <= i < front.len() && 0 <= j < front.len() && i != j implies front[i]
                != front[j] by {
                assert(front[i] == raw[i] && front[j] == raw[j]);
            }
            if front.contains(raw.last()) {
                let i = choose|i: int| 0 <= i < front.len() && front[i] == raw.last();
                assert(raw[i] == raw[raw.len() - 1]);
            }
        }
        if distinct_vertices(raw).len() == raw.len() {
            assert(!earlier.contains(raw.last()));
            assert(earlier.len() == front.len());
            assert forall|i: int, j: int|
                0 <= i < raw.len() && 0 <= j < raw.len() && i != j implies raw[i] != raw[j] by {
                if i < front.len() && j < front.len() {
                    assert(front[i] == raw[i] && front[j] == raw[j]);
                } else if i < front.len() {
                    assert(front[i] == raw[i]);
                    assert(front.contains(raw[i]));
                } else {
                    assert(front[j] == raw[j]);
                    assert(front.contains(raw[j]));
                }
            }
        }
    }
}

/// In a sequence that holds nothing twice, the index of an entry is the
/// place where it stands.
pub proof fn lemma_index_of_place(distinct: Seq<(u32, u32)>, i: int)
    requires
        distinct.no_duplicates(),
        0 <= i < distinct.len(),
    ensures
        distinct.index_of(distinct[i]) == i,
{
}

/// What the table has to hold while the vertices of `distinct` have been
/// given the indices `0, 1, 2, ...` in this order.
spec fn files(entries: Map<VertexKey, usize>, distinct: Seq<(u32, u32)>) -> bool {
    &&& forall|j: int|
        0 <= j < distinct.len() ==> entries.dom().contains(#[trigger] key_of(distinct[j]))
            && entries[key_of(distinct[j])] == j
    &&& forall|k: VertexKey| #[trigger]
        entries.dom().contains(k) ==> entries[k] < distinct.len() && key_of(
            distinct[entries[k] as int],
        ) == k
}

/// Welds a stream of raw vertices, three per triangle, into a mesh. A vertex
/// whose two coordinate patterns both agree bit for bit with those of an
/// earlier one takes that one's index; any other vertex is appended to the
/// positions and takes the next index. An index is stored in 32 bits: of one
/// that needs more, the low 32 bits are kept.
pub fn build_mesh(raw: &Vec<(u32, u32)>) -> (mesh: MeshBuffers)
    ensures
        mesh@ == welded(raw@),
        mesh@.positions.len() <= raw@.len(),
        mesh@.normals.len() == mesh@.positions.len(),
        mesh@.uvs.len() == mesh@.positions.len(),
        mesh@.indices.len() == raw@.len(),
{
    let mut table: VertexIndex = index_new();
    let mut positions: Vec<(u32, u32, u32)> = Vec::new();
    let mut indices: Vec<u32> = Vec::new();
    let mut normals: Vec<(u32, u32, u32)> = Vec::new();
    let mut uvs: Vec<(u32, u32)> = Vec::new();
    let ghost mut places: Seq<int> = Seq::empty();
    let mut n: usize = 0;
    assert(raw@.take(0) == Seq::<(u32, u32)>::empty());
    while n < raw.len()
        invariant
            n <= raw.len(),
            files(index_entries(table), distinct_vertices(raw@.take(n as int))),
            positions@.len() == distinct_vertices(raw@.take(n as int)).len(),
            normals@.len() == positions@.len(),
            uvs@.len() == positions@.len(),
            indices@.len() == n,
            places.len() == n,
            forall|i: int|
                0 <= i < positions@.len() ==> positions@[i] == (
                    distinct_vertices(raw@.take(n as int))[i].0,
                    distinct_vertices(raw@.take(n as int))[i].1,
                    ZERO,
                ),
            forall|i: int| 0 <= i < normals@.len() ==> normals@[i] == (ZERO, ZERO, ONE),
            forall|i: int| 0 <= i < uvs@.len() ==> uvs@[i] == (ZERO, ZERO),
            forall|k: int|
                0 <= k < n ==> 0 <= (#[trigger] places[k]) < distinct_vertices(
                    raw@.take(n as int),
                ).len() && distinct_vertices(raw@.take(n as int))[places[k]] == raw@[k]
                    && indices@[k] == places[k] as u32,
        decreases raw.len() - n,
    {
        let vertex: (u32, u32) = raw[n];
        let h_vertex: HashAbleVec2 = HashAbleVec2::from(vertex);
        let key: VertexKey = h_vertex.key();
        let ghost before = distinct_vertices(raw@.take(n as int));
        let ghost after = distinct_vertices(raw@.take(n + 1));
        proof {
            assert(raw@.take(n + 1).drop_last() == raw@.take(n as int));
            assert(raw@.take(n + 1).last() == vertex);
            assert(key == key_of(vertex));
            assert forall|w: (u32, u32)| key_of(w) == key implies w == vertex by {
                lemma_key_is_exact(w, vertex);
            }
        }
        match index_get(&table, &key) {
            Some(index) => {
                proof {
                    assert(before[index as int] == vertex);
                    assert(before.contains(vertex));
                    assert(after == before);
                    places = places.push(index as int);
                }
                indices.push(#[verifier::truncate] (index as u32));
            },
            None => {
                proof {
                    if before.contains(vertex) {
                        let j = choose|j: int| 0 <= j < before.len() && before[j] == vertex;
                        assert(index_entries(table).dom().contains(key_of(before[j])));
                    }
                    assert(after == before.push(vertex));
                }
                let index: usize = positions.len();
                index_insert(&mut table, key, index);
                positions.push((vertex.0, vertex.1, ZERO));
                indices.push(#[verifier::truncate] (index as u32));
                normals.push((ZERO, ZERO, ONE));
                uvs.push((ZERO, ZERO));
                proof {
                    places = places.push(index as int);
                    let entries = index_entries(table);
                    assert forall|j: int| 0 <= j < after.len() implies entries.dom().contains(
                        #[trigger] key_of(after[j]),
                    ) && entries[key_of(after[j])] == j by {
                        if j < before.len() {
                            assert(after[j] == before[j]);
                            lemma_key_is_exact(before[j], vertex);
                        }
                    }
                }
            },
        }
        n = n + 1;
    }
    proof {
        assert(raw@.take(n as int) == raw@);
        let distinct = distinct_vertices(raw@);
        lemma_distinct_vertices(raw@);
        assert forall|k: int| 0 <= k < raw@.len() implies indices@[k] == distinct.index_of(
            raw@[k],
        ) as u32 by {
            lemma_index_of_place(distinct, places[k]);
        }
    }
    let mesh = MeshBuffers { positions, normals, uvs, indices };
    proof {
        assert(mesh@.positions == welded(raw@).positions);
        assert(mesh@.normals == welded(raw@).normals);
        assert(mesh@.uvs == welded(raw@).uvs);
        assert(mesh@.indices == welded(raw@).indices);
    }
    mesh
}

/// While a mesh has no more than `2^32` positions, every index is the place
/// of a position, and the position it names is the raw vertex it stands for.
pub proof fn lemma_indices_name_their_vertices(raw: Seq<(u32, u32)>, k: int)
    requires
        distinct_vertices(raw).len() <= 0x1_0000_0000,
        0 <= k < raw.len(),
    ensures
        welded(raw).indices[k] < welded(raw).positions.len(),
        welded(raw).positions[welded(raw).indices[k] as int] == (raw[k].0, raw[k].1, ZERO),
{
    let distinct = distinct_vertices(raw);
    lemma_distinct_vertices(raw);
    assert(raw.contains(raw[k]));
    assert(distinct.contains(raw[k]));
    let place = distinct.index_of(raw[k]);
    assert(0 <= place < distinct.len() && distinct[place] == raw[k]);
    assert(place as u32 == place);
}

} // verus!
