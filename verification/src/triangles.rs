//! Expansion of indexed primitive streams into triangles: plain triangle
//! lists pass through, triangle fans pivot around their first index, and
//! triangle strips alternate their winding.

use vstd::prelude::*;

verus! {

/// The primitive type of an indexed stream, as scene sources describe it.
#[derive(Clone, Copy, Debug, PartialEq, Eq, Structural)]
pub enum PrimitiveType {
    Point,
    Line,
    LineLoop,
    LineStrip,
    Triangles,
    TriangleFan,
    TriangleStrip,
}

/// Whether a primitive type describes triangles.
pub open spec fn is_triangle_primitive(p: PrimitiveType) -> bool {
    p == PrimitiveType::Triangles || p == PrimitiveType::TriangleFan || p
        == PrimitiveType::TriangleStrip
}

/// How many triangles an index stream of the given primitive type yields.
pub open spec fn tri_total(p: PrimitiveType, ind: Seq<u32>) -> int {
    match p {
        PrimitiveType::Triangles => ind.len() as int / 3,
        PrimitiveType::TriangleFan => if ind.len() >= 3 {
            ind.len() as int - 2
        } else {
            0
        },
        PrimitiveType::TriangleStrip => if ind.len() >= 3 {
            ind.len() as int - 2
        } else {
            0
        },
        _ => 0,
    }
}

/// The `k`-th triangle of an index stream: triangle lists pass indices
/// through unchanged, a fan yields `(ind[0], ind[k+1], ind[k+2])`, and a
/// strip alternates the winding of its first two corners.
pub open spec fn tri_at(p: PrimitiveType, ind: Seq<u32>, k: int) -> (u32, u32, u32) {
    match p {
        PrimitiveType::Triangles => (ind[3 * k], ind[3 * k + 1], ind[3 * k + 2]),
        PrimitiveType::TriangleFan => (ind[0], ind[k + 1], ind[k + 2]),
        PrimitiveType::TriangleStrip => if k % 2 == 0 {
            (ind[k], ind[k + 1], ind[k + 2])
        } else {
            (ind[k + 1], ind[k], ind[k + 2])
        },
        _ => (0, 0, 0),
    }
}

/// An iterator over the triangles of an indexed primitive stream.
pub struct TriangleIterator {
    /// The primitive type of the stream, i.e., Triangles, TriangleFan or
    /// TriangleStrip.
    pub primitive: PrimitiveType,

    /// The raw underlying indices.
    pub indices: Vec<u32>,

    /// How many of the indices have been consumed.
    pub pos: usize,

    /// For TriangleStrip, whether the next triangle's orientation is flipped.
    pub flip_triangle: bool,

    /// The first held-back index (the pivot for a fan, the second-previous
    /// index for a strip).
    pub v0: u32,

    /// The second held-back index (the previous index for a fan or a strip).
    pub v1: u32,
}

impl TriangleIterator {
    /// How many triangles have been handed out so far.
    pub open spec fn emitted(self) -> int {
        match self.primitive {
            PrimitiveType::Triangles => self.pos as int / 3,
            PrimitiveType::TriangleFan => self.pos as int - 2,
            PrimitiveType::TriangleStrip => self.pos as int - 2,
            _ => 0,
        }
    }

    /// Well-formedness: the cursor and the held-back indices agree with the
    /// stream position.
    pub open spec fn wf(self) -> bool {
        let len = self.indices@.len() as int;
        match self.primitive {
            PrimitiveType::Triangles => self.pos as int % 3 == 0 && self.pos as int <= len,
            PrimitiveType::TriangleFan => {
                &&& self.pos >= 2
                &&& (if len >= 3 {
                    self.pos as int <= len
                } else {
                    self.pos == 2
                })
                &&& (len >= 1 ==> self.v0 == self.indices@[0])
                &&& (self.pos > 2 ==> self.v1 == self.indices@[self.pos as int - 1])
                &&& (self.pos == 2 && len >= 2 ==> self.v1 == self.indices@[1])
            },
            PrimitiveType::TriangleStrip => {
                &&& self.pos >= 2
                &&& (if len >= 3 {
                    self.pos as int <= len
                } else {
                    self.pos == 2
                })
                &&& (self.pos as int <= len ==> self.v0 == self.indices@[self.pos as int - 2]
                    && self.v1 == self.indices@[self.pos as int - 1])
                &&& self.flip_triangle == ((self.pos as int - 2) % 2 == 1)
            },
            _ => true,
        }
    }

    /// Creates a new triangle iterator, and returns none exactly when the
    /// primitive type is neither Triangles, TriangleFan nor TriangleStrip.
    ///
    /// # Arguments
    /// * `primitive` - The primitive type of the stream.
    /// * `indices` - The raw underlying indices.
    pub fn new(primitive: PrimitiveType, indices: Vec<u32>) -> (r: Option<Self>)
        ensures
            r is Some <==> is_triangle_primitive(primitive),
            r matches Some(it) ==> {
                &&& it.wf()
                &&& it.primitive == primitive
                &&& it.indices@ == indices@
                &&& it.emitted() == 0
            },
    {
        match primitive {
            PrimitiveType::Triangles => Some(
                Self { primitive, indices, pos: 0, flip_triangle: false, v0: 0, v1: 0 },
            ),
            PrimitiveType::TriangleFan | PrimitiveType::TriangleStrip => {
                let v0: u32 = if indices.len() >= 1 {
                    indices[0]
                } else {
                    0
                };
                let v1: u32 = if indices.len() >= 2 {
                    indices[1]
                } else {
                    0
                };
                Some(Self { primitive, indices, pos: 2, flip_triangle: false, v0, v1 })
            },
            _ => None,
        }
    }

    /// Hands out the next triangle of the stream, or none when the stream is
    /// exhausted: the `emitted`-th triangle of the expansion that `tri_at`
    /// describes.
    pub fn next(&mut self) -> (r: Option<[u32; 3]>)
        requires
            old(self).wf(),
        ensures
            final(self).wf(),
            final(self).primitive == old(self).primitive,
            final(self).indices@ == old(self).indices@,
            old(self).emitted() < tri_total(old(self).primitive, old(self).indices@) ==> {
                &&& r matches Some(t)
                &&& t[0] == tri_at(
                    old(self).primitive,
                    old(self).indices@,
                    old(self).emitted(),
                ).0
                &&& t[1] == tri_at(
                    old(self).primitive,
                    old(self).indices@,
                    old(self).emitted(),
                ).1
                &&& t[2] == tri_at(
                    old(self).primitive,
                    old(self).indices@,
                    old(self).emitted(),
                ).2
                &&& final(self).emitted() == old(self).emitted() + 1
            },
            old(self).emitted() >= tri_total(old(self).primitive, old(self).indices@) ==> r
                is None && final(self).emitted() == old(self).emitted(),
    {
        let len = self.indices.len();
        match self.primitive {
            PrimitiveType::Triangles => {
                if len >= 3 && self.pos <= len - 3 {
                    proof {
                        let q = self.pos as int / 3;
                        vstd::arithmetic::div_mod::lemma_fundamental_div_mod(self.pos as int, 3);
                        assert(self.pos as int == 3 * q);
                        vstd::arithmetic::div_mod::lemma_div_multiples_vanish(q + 1, 3);
                        vstd::arithmetic::div_mod::lemma_div_is_ordered(
                            3 * (q + 1),
                            len as int,
                            3,
                        );
                        vstd::arithmetic::div_mod::lemma_fundamental_div_mod(len as int, 3);
                    }
                    let t0 = self.indices[self.pos];
                    let t1 = self.indices[self.pos + 1];
                    let t2 = self.indices[self.pos + 2];
                    self.pos = self.pos + 3;
                    Some([t0, t1, t2])
                } else {
                    proof {
                        let q = self.pos as int / 3;
                        vstd::arithmetic::div_mod::lemma_fundamental_div_mod(self.pos as int, 3);
                        assert(self.pos as int == 3 * q);
                        vstd::arithmetic::div_mod::lemma_fundamental_div_mod(len as int, 3);
                        assert(len as int / 3 <= q) by {
                            if len as int / 3 > q {
                                vstd::arithmetic::div_mod::lemma_div_multiples_vanish(q + 1, 3);
                                vstd::arithmetic::div_mod::lemma_div_is_ordered(
                                    3 * (q + 1),
                                    len as int,
                                    3,
                                );
                            }
                        }
                    }
                    None
                }
            },
            PrimitiveType::TriangleFan => {
                if self.pos < len {
                    let v2 = self.indices[self.pos];
                    let t = [self.v0, self.v1, v2];
                    self.v1 = v2;
                    self.pos = self.pos + 1;
                    Some(t)
                } else {
                    None
                }
            },
            PrimitiveType::TriangleStrip => {
                if self.pos < len {
                    let v2 = self.indices[self.pos];
                    let (t0, t1) = if self.flip_triangle {
                        (self.v1, self.v0)
                    } else {
                        (self.v0, self.v1)
                    };
                    let t = [t0, t1, v2];
                    self.v0 = self.v1;
                    self.v1 = v2;
                    self.flip_triangle = !self.flip_triangle;
                    self.pos = self.pos + 1;
                    Some(t)
                } else {
                    None
                }
            },
            _ => None,
        }
    }
}

} // verus!
