//! Core of an occlusion-culling benchmark for scenes of rigid triangulated
//! objects: a software rasterizer with an integer depth buffer, the geometric
//! data model it renders, per-object visibility aggregation, a binary frame
//! format, and a hierarchical timing tree.
//!
//! Screen and world coordinates are carried as fixed-point integers (see
//! `math`); everything that depends on floating-point evaluation — camera
//! projection, ray intersection — lives with the callers of this crate.

pub mod config;
pub mod error;
pub mod frame;
pub mod math;
pub mod rasterizer;
pub mod scene;
pub mod stats;
pub mod triangles;
pub mod visibility;

use vstd::prelude::*;

verus! {

/// The options for an occlusion testing run.
#[derive(Clone)]
pub struct OccOptions {
    /// The number of threads to be used for the testing.
    pub num_threads: usize,

    /// The width and height of the occlusion test frame, in pixels.
    pub frame_size: usize,
}

impl Default for OccOptions {
    fn default() -> (r: Self)
        ensures
            r.num_threads == 1,
            r.frame_size == 256,
    {
        Self { num_threads: 1, frame_size: 256 }
    }
}

/// Resulting stats about one occlusion-testing pass.
#[derive(Clone, Copy, Debug, PartialEq, Eq, Structural)]
pub struct TestStats {
    /// The number of triangles processed, i.e., that could not be avoided
    /// through acceleration structures or other means.
    pub num_triangles: usize,

    /// The number of bounding-volume pre-tests performed.
    pub num_volume_tests: usize,
}

impl Default for TestStats {
    fn default() -> (r: Self)
        ensures
            r.num_triangles == 0,
            r.num_volume_tests == 0,
    {
        Self { num_triangles: 0, num_volume_tests: 0 }
    }
}

impl TestStats {
    /// Pointwise sum of two stats records; the all-zero record is the unit.
    pub fn add(self, rhs: Self) -> (r: Self)
        requires
            self.num_triangles + rhs.num_triangles <= usize::MAX,
            self.num_volume_tests + rhs.num_volume_tests <= usize::MAX,
        ensures
            r.num_triangles == self.num_triangles + rhs.num_triangles,
            r.num_volume_tests == self.num_volume_tests + rhs.num_volume_tests,
    {
        Self {
            num_triangles: self.num_triangles + rhs.num_triangles,
            num_volume_tests: self.num_volume_tests + rhs.num_volume_tests,
        }
    }

    /// Adds the right-hand side into `self`, pointwise.
    pub fn add_assign(&mut self, rhs: Self)
        requires
            old(self).num_triangles + rhs.num_triangles <= usize::MAX,
            old(self).num_volume_tests + rhs.num_volume_tests <= usize::MAX,
        ensures
            final(self).num_triangles == old(self).num_triangles + rhs.num_triangles,
            final(self).num_volume_tests == old(self).num_volume_tests + rhs.num_volume_tests,
    {
        self.num_triangles = self.num_triangles + rhs.num_triangles;
        self.num_volume_tests = self.num_volume_tests + rhs.num_volume_tests;
    }
}

} // verus!
