//! The data model of a test configuration: which engines to run and with what
//! frame size. Reading and writing a configuration file happens outside this
//! crate; these are the plain values it produces.

use vstd::prelude::*;

verus! {

/// The occlusion tester selected by one setup entry.
#[derive(Clone, Copy, Debug, PartialEq, Eq, Structural)]
pub enum OcclusionSetup {
    Rasterizer,
    NaiveRaycaster,
}

/// The options for a rasterizer occlusion test.
#[derive(Clone, Copy, Debug, PartialEq, Eq, Structural)]
pub struct RasterizerOptions {
    /// The width and height of the test frame, in pixels.
    pub frame_size: usize,
}

} // verus!
