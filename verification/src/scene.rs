//! The scene data model: meshes of vertices and triangle indices, object
//! instances that place a mesh in the world, and the mesh-building step that
//! appends an expanded triangle stream.
//!
//! Vertex coordinates and transform entries are carried as opaque 32-bit
//! words: the renderers that evaluate them numerically live with the callers
//! of this crate, while everything the index logic reads — counts and
//! indices — is plain data here.

use vstd::prelude::*;

use crate::triangles::{tri_at, tri_total, TriangleIterator};

verus! {

/// A vertex position: the 32-bit encodings of its three coordinates.
#[derive(Clone, Copy, Debug, PartialEq, Eq, Structural)]
pub struct Vertex {
    pub x: u32,
    pub y: u32,
    pub z: u32,
}

/// A triangle: an ordered triple of vertex indices into its own mesh.
#[derive(Clone, Copy, Debug, PartialEq, Eq, Structural)]
pub struct Triangle {
    pub x: u32,
    pub y: u32,
    pub z: u32,
}

/// A simple tessellated mesh.
#[derive(Clone)]
pub struct Mesh {
    pub vertices: Vec<Vertex>,
    pub indices: Vec<Triangle>,
}

/// A placed instance: a mesh reference and a 3x4 world transform.
#[derive(Clone, Copy, Debug)]
pub struct Object {
    /// The index of the instance's mesh within the scene's mesh array.
    pub mesh_index: u32,
    /// The world placement of this instance.
    pub transform: Transform,
}

/// A 3x4 transform: the 32-bit encodings of its twelve entries, row-major.
#[derive(Clone, Copy, Debug)]
pub struct Transform {
    pub m: [u32; 12],
}

/// A simple scene: an ordered mesh array and an ordered object array. An
/// object's ordinal index in the object array is its id in rendered frames.
#[derive(Clone)]
pub struct Scene {
    pub meshes: Vec<Mesh>,
    pub objects: Vec<Object>,
}

impl Mesh {
    /// Validity: every triangle index refers to a vertex of this mesh.
    pub open spec fn spec_valid(self) -> bool {
        forall|k: int|
            0 <= k < self.indices@.len() ==> (#[trigger] self.indices@[k]).x < self.vertices@.len()
                && self.indices@[k].y < self.vertices@.len() && self.indices@[k].z
                < self.vertices@.len()
    }

    /// Returns `true` if all indices are valid and false otherwise.
    pub fn is_valid(&self) -> (r: bool)
        ensures
            r == self.spec_valid(),
    {
        let num_vertices = self.vertices.len();
        let n = self.indices.len();
        let mut k: usize = 0;
        let mut ok = true;
        while k < n
            invariant
                k <= n,
                n == self.indices@.len(),
                num_vertices == self.vertices@.len(),
                ok == forall|t: int|
                    0 <= t < k ==> (#[trigger] self.indices@[t]).x < num_vertices
                        && self.indices@[t].y < num_vertices && self.indices@[t].z < num_vertices,
            decreases n - k,
        {
            let tri = self.indices[k];
            if !((tri.x as usize) < num_vertices && (tri.y as usize) < num_vertices && (
            tri.z as usize) < num_vertices) {
                ok = false;
            }
            k = k + 1;
        }
        ok
    }
}

impl Default for Mesh {
    /// The empty mesh.
    fn default() -> (r: Self)
        ensures
            r.vertices@.len() == 0,
            r.indices@.len() == 0,
    {
        Mesh { vertices: Vec::new(), indices: Vec::new() }
    }
}

impl Scene {
    /// Validity: every object refers to a mesh of this scene.
    pub open spec fn spec_valid(self) -> bool {
        forall|k: int|
            0 <= k < self.objects@.len() ==> ((#[trigger] self.objects@[k]).mesh_index as int)
                < self.meshes@.len()
    }

    /// Returns `true` if all objects are valid and false otherwise.
    pub fn is_valid(&self) -> (r: bool)
        ensures
            r == self.spec_valid(),
    {
        let num_meshes = self.meshes.len();
        let n = self.objects.len();
        let mut k: usize = 0;
        let mut ok = true;
        while k < n
            invariant
                k <= n,
                n == self.objects@.len(),
                num_meshes == self.meshes@.len(),
                ok == forall|t: int|
                    0 <= t < k ==> ((#[trigger] self.objects@[t]).mesh_index as int) < num_meshes,
            decreases n - k,
        {
            if !((self.objects[k].mesh_index as usize) < num_meshes) {
                ok = false;
            }
            k = k + 1;
        }
        ok
    }
}

impl Default for Scene {
    /// The empty scene.
    fn default() -> (r: Self)
        ensures
            r.meshes@.len() == 0,
            r.objects@.len() == 0,
    {
        Scene { meshes: Vec::new(), objects: Vec::new() }
    }
}

/// The triangle that `append_to_mesh` stores for an expanded stream triangle:
/// its three indices shifted by the vertex offset.
pub open spec fn offset_triangle(t: (u32, u32, u32), off: int) -> Triangle {
    Triangle { x: (t.0 + off) as u32, y: (t.1 + off) as u32, z: (t.2 + off) as u32 }
}

/// Appends the given positions and the triangles of the given stream to the
/// mesh, shifting every triangle index by the number of vertices the mesh
/// held before.
///
/// # Arguments
/// * `mesh` - The mesh to which the vertices and triangles will be appended.
/// * `pos` - The positions of the vertices of the triangles.
/// * `triangles` - The triangle stream to append to the mesh.
pub fn append_to_mesh(mesh: &mut Mesh, pos: &Vec<Vertex>, triangles: TriangleIterator)
    requires
        triangles.wf(),
        triangles.emitted() == 0,
        old(mesh).vertices@.len() + pos@.len() <= u32::MAX,
        forall|j: int|
            0 <= j < triangles.indices@.len() ==> (#[trigger] triangles.indices@[j]) + old(
                mesh,
            ).vertices@.len() <= u32::MAX,
    ensures
        final(mesh).vertices@ == old(mesh).vertices@ + pos@,
        final(mesh).indices@ == old(mesh).indices@ + Seq::new(
            tri_total(triangles.primitive, triangles.indices@) as nat,
            |k: int|
                offset_triangle(
                    tri_at(triangles.primitive, triangles.indices@, k),
                    old(mesh).vertices@.len() as int,
                ),
        ),
{
    let index_offset: u32 = mesh.vertices.len() as u32;

    // Add the positions to the mesh.
    let n = pos.len();
    let mut i: usize = 0;
    while i < n
        invariant
            i <= n,
            n == pos@.len(),
            mesh.vertices@ == old(mesh).vertices@ + pos@.take(i as int),
            mesh.indices@ == old(mesh).indices@,
        decreases n - i,
    {
        mesh.vertices.push(pos[i]);
        proof {
            assert(mesh.vertices@ =~= old(mesh).vertices@ + pos@.take(i + 1));
        }
        i = i + 1;
    }
    proof {
        assert(pos@.take(n as int) =~= pos@);
    }

    // Add the triangles to the mesh, shifted by the vertex offset.
    let ghost prim = triangles.primitive;
    let ghost ind = triangles.indices@;
    let ghost total = tri_total(prim, ind);
    proof {
        vstd::arithmetic::div_mod::lemma_div_pos_is_pos(ind.len() as int, 3);
    }
    let mut stream = triangles;
    loop
        invariant
            stream.wf(),
            stream.primitive == prim,
            stream.indices@ == ind,
            total == tri_total(prim, ind),
            0 <= stream.emitted() <= total,
            index_offset as int == old(mesh).vertices@.len() as int,
            forall|j: int| 0 <= j < ind.len() ==> (#[trigger] ind[j]) + index_offset <= u32::MAX,
            mesh.vertices@ == old(mesh).vertices@ + pos@,
            mesh.indices@ == old(mesh).indices@ + Seq::new(
                stream.emitted() as nat,
                |k: int| offset_triangle(tri_at(prim, ind, k), index_offset as int),
            ),
        ensures
            mesh.indices@ == old(mesh).indices@ + Seq::new(
                total as nat,
                |k: int| offset_triangle(tri_at(prim, ind, k), index_offset as int),
            ),
        decreases total - stream.emitted(),
    {
        let ghost emitted0 = stream.emitted();
        match stream.next() {
            Some(t) => {
                proof {
                    lemma_tri_indices_in_stream(prim, ind, emitted0);
                }
                let tri = Triangle {
                    x: t[0] + index_offset,
                    y: t[1] + index_offset,
                    z: t[2] + index_offset,
                };
                mesh.indices.push(tri);
                proof {
                    assert(mesh.indices@ =~= old(mesh).indices@ + Seq::new(
                        stream.emitted() as nat,
                        |k: int| offset_triangle(tri_at(prim, ind, k), index_offset as int),
                    ));
                }
            },
            None => {
                proof {
                    assert(stream.emitted() == total);
                }
                break ;
            },
        }
    }
}

/// Every index of an emitted triangle is an element of the stream's index
/// sequence.
proof fn lemma_tri_indices_in_stream(p: crate::triangles::PrimitiveType, ind: Seq<u32>, k: int)
    requires
        0 <= k < tri_total(p, ind),
    ensures
        exists|a: int| 0 <= a < ind.len() && tri_at(p, ind, k).0 == ind[a],
        exists|b: int| 0 <= b < ind.len() && tri_at(p, ind, k).1 == ind[b],
        exists|c: int| 0 <= c < ind.len() && tri_at(p, ind, k).2 == ind[c],
{
    match p {
        crate::triangles::PrimitiveType::Triangles => {
            vstd::arithmetic::div_mod::lemma_fundamental_div_mod(ind.len() as int, 3);
            vstd::arithmetic::div_mod::lemma_mod_bound(ind.len() as int, 3);
            assert(3 * k + 2 < ind.len());
            assert(tri_at(p, ind, k).0 == ind[3 * k]);
            assert(tri_at(p, ind, k).1 == ind[3 * k + 1]);
            assert(tri_at(p, ind, k).2 == ind[3 * k + 2]);
        },
        crate::triangles::PrimitiveType::TriangleFan => {
            assert(tri_at(p, ind, k).0 == ind[0]);
            assert(tri_at(p, ind, k).1 == ind[k + 1]);
            assert(tri_at(p, ind, k).2 == ind[k + 2]);
        },
        crate::triangles::PrimitiveType::TriangleStrip => {
            if k % 2 == 0 {
                assert(tri_at(p, ind, k).0 == ind[k]);
                assert(tri_at(p, ind, k).1 == ind[k + 1]);
            } else {
                assert(tri_at(p, ind, k).0 == ind[k + 1]);
                assert(tri_at(p, ind, k).1 == ind[k]);
            }
            assert(tri_at(p, ind, k).2 == ind[k + 2]);
        },
        _ => {},
    }
}

} // verus!
