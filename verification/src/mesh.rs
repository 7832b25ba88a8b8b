//! The meshes of a frame, drawn in one go.
//!
//! The vertices of all meshes stand one after the other in one buffer, and so do the indices,
//! which are moved so that each points at the vertices of its own mesh.

use vstd::prelude::*;

verus! {

/// How many indices make a triangle.
pub const TRIANGLE_INDICES: usize = 3;

/// An index of a mesh, moved past the vertices before it, in sixteen bits.
pub open spec fn rebased_index(base: nat, index: u32) -> u16 {
    ((base + index) % 0x1_0000) as u16
}

/// The indices of a mesh, moved past the vertices before it.
pub open spec fn rebased(base: nat, indices: Seq<u32>) -> Seq<u16> {
    indices.map_values(|index: u32| rebased_index(base, index))
}

/// The vertices and indices of the meshes so far.
#[derive(Debug)]
pub struct MeshBatch {
    vertices: u32,
    indices: Vec<u16>,
}

/// The number of vertices, and the indices, of the meshes so far.
#[verifier::ext_equal]
pub ghost struct BatchView {
    pub vertices: nat,
    pub indices: Seq<u16>,
}

impl View for MeshBatch {
    type V = BatchView;

    closed spec fn view(&self) -> BatchView {
        BatchView { vertices: self.vertices as nat, indices: self.indices@ }
    }
}

/// Whether a batch holds anything to draw: a vertex, and a triangle.
pub open spec fn draws(batch: BatchView) -> bool {
    batch.vertices > 0 && batch.indices.len() >= TRIANGLE_INDICES
}

impl MeshBatch {
    /// No meshes.
    pub fn new() -> (batch: Self)
        ensures
            batch@ == (BatchView { vertices: 0, indices: Seq::empty() }),
    {
        MeshBatch { vertices: 0, indices: Vec::new() }
    }

    /// How many vertices the meshes have.
    pub fn vertices(&self) -> (count: u32)
        ensures
            count == self@.vertices,
    {
        self.vertices
    }

    /// The indices of the meshes, each mesh's moved past the vertices before it.
    pub fn indices(&self) -> (indices: &Vec<u16>)
        ensures
            indices@ == self@.indices,
    {
        &self.indices
    }

    /// Whether there is anything to draw.
    pub fn draws(&self) -> (drawn: bool)
        ensures
            drawn == draws(self@),
    {
        self.vertices > 0 && self.indices.len() >= TRIANGLE_INDICES
    }

    /// Adds a mesh with so many vertices and these indices into them.
    pub fn add_mesh(&mut self, vertices: u32, indices: &Vec<u32>)
        requires
            old(self)@.vertices + vertices <= u32::MAX,
        ensures
            final(self)@ == (BatchView {
                vertices: old(self)@.vertices + vertices as nat,
                indices: old(self)@.indices + rebased(old(self)@.vertices, indices@),
            }),
    {
        let ghost before = self@;
        let mut i: usize = 0;
        assert(self.indices@ =~= before.indices + rebased(before.vertices, indices@).take(0));
        while i < indices.len()
            invariant
                i <= indices@.len(),
                self.vertices == old(self).vertices,
                before == old(self)@,
                before.vertices == self.vertices,
                self.indices@ == before.indices + rebased(before.vertices, indices@).take(i as int),
            decreases indices@.len() - i,
        {
            let sum: u64 = self.vertices as u64 + indices[i] as u64;
            let index: u16 = (sum % 0x1_0000) as u16;
            let ghost all = rebased(before.vertices, indices@);
            assert(all[i as int] == index);
            self.indices.push(index);
            assert(self.indices@ =~= before.indices + all.take(i + 1));
            i = i + 1;
        }
        assert(rebased(before.vertices, indices@).take(i as int) =~= rebased(
            before.vertices,
            indices@,
        ));
        self.vertices = self.vertices + vertices;
    }
}

/// An index points at a vertex of its own mesh, as long as all vertices so far can be told apart
/// in sixteen bits.
pub proof fn an_index_points_into_its_own_mesh(base: nat, vertices: nat, index: u32)
    requires
        index < vertices,
        base + vertices <= 0x1_0000,
    ensures
        base <= rebased_index(base, index) < base + vertices,
        rebased_index(base, index) == base + index,
{
}

/// Each index of a mesh is moved by the number of vertices before it, in sixteen bits, and stays in
/// its place.
pub proof fn every_index_is_moved(base: nat, indices: Seq<u32>, i: int)
    requires
        0 <= i < indices.len(),
    ensures
        rebased(base, indices).len() == indices.len(),
        rebased(base, indices)[i] == (base + indices[i]) % 0x1_0000,
{
}

/// A batch is drawn when it has a vertex and at least the three indices of a triangle.
pub proof fn what_is_drawn(batch: BatchView)
    ensures
        draws(batch) <==> batch.vertices > 0 && batch.indices.len() >= 3,
{
}

} // verus!
