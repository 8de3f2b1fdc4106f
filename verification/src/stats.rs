//! A hierarchical timing tree: named nodes, each with a nanosecond counter,
//! children created lazily on first lookup.
//!
//! The tree is an arena: nodes are numbered in creation order, starting from
//! the root, and the parent-child edges live in one flat list. Reading a
//! clock is the caller's part; the tree only stores the elapsed nanoseconds
//! it is handed.

use vstd::prelude::*;

verus! {

/// A handle onto one node of a stats tree.
#[derive(Clone, Copy, Debug, PartialEq, Eq, Structural)]
pub struct StatsNode {
    /// The node's number within its tree.
    pub idx: usize,
}

/// A tree of named timing nodes.
pub struct Stats {
    /// The per-node timings in nanoseconds, indexed by node number.
    pub nanos: Vec<u128>,

    /// The parent-child edges: parent node, child name, child node.
    pub edges: Vec<(usize, String, usize)>,
}

impl Stats {
    /// The number of nodes of the tree.
    pub open spec fn node_count(self) -> int {
        self.nanos@.len() as int
    }

    /// The timing counter of a node, in nanoseconds.
    pub open spec fn nanos_of(self, n: int) -> u128 {
        self.nanos@[n]
    }

    /// Whether a node has a child with the given name.
    pub open spec fn has_child(self, n: int, name: Seq<char>) -> bool {
        exists|k: int|
            0 <= k < self.edges@.len() && (#[trigger] self.edges@[k]).0 == n && self.edges@[k].1@
                == name
    }

    /// Well-formedness: every edge goes from a node to a later-created node,
    /// and no node has two children of one name.
    pub open spec fn wf(self) -> bool {
        &&& self.node_count() >= 1
        &&& forall|k: int|
            0 <= k < self.edges@.len() ==> (#[trigger] self.edges@[k]).0 < self.edges@[k].2
                && (self.edges@[k].2 as int) < self.node_count()
        &&& forall|k1: int, k2: int|
            0 <= k1 < k2 < self.edges@.len() ==> !((#[trigger] self.edges@[k1]).0 == (
            #[trigger] self.edges@[k2]).0 && self.edges@[k1].1@ == self.edges@[k2].1@)
    }

    /// Returns a fresh tree holding only its root node, with a zero counter.
    pub fn new() -> (r: Self)
        ensures
            r.wf(),
            r.node_count() == 1,
            r.nanos_of(0) == 0,
            r.edges@.len() == 0,
    {
        let mut nanos: Vec<u128> = Vec::new();
        nanos.push(0);
        Stats { nanos, edges: Vec::new() }
    }

    /// Returns the root node of the tree.
    #[inline]
    pub fn root(&self) -> (r: StatsNode)
        ensures
            r.idx == 0,
    {
        StatsNode { idx: 0 }
    }

    /// Returns the child of the given node with the given name, creating it
    /// with a zero counter if it is absent. Counters and the other edges are
    /// untouched either way.
    ///
    /// # Arguments
    /// * `node` - The node whose child is looked up.
    /// * `name` - The name of the child.
    pub fn get_child(&mut self, node: StatsNode, name: &str) -> (r: StatsNode)
        requires
            old(self).wf(),
            (node.idx as int) < old(self).node_count(),
        ensures
            final(self).wf(),
            (r.idx as int) < final(self).node_count(),
            node.idx < r.idx,
            final(self).node_count() >= old(self).node_count(),
            forall|i: int|
                0 <= i < old(self).node_count() ==> final(self).nanos_of(i) == old(self).nanos_of(
                    i,
                ),
            final(self).has_child(node.idx as int, name@),
            exists|k: int|
                0 <= k < final(self).edges@.len() && (#[trigger] final(self).edges@[k]).0
                    == node.idx && final(self).edges@[k].1@ == name@ && final(self).edges@[k].2
                    == r.idx,
            old(self).has_child(node.idx as int, name@) ==> *final(self) == *old(self),
            !old(self).has_child(node.idx as int, name@) ==> {
                &&& final(self).node_count() == old(self).node_count() + 1
                &&& r.idx as int == old(self).node_count()
                &&& final(self).nanos_of(r.idx as int) == 0
                &&& final(self).edges@.len() == old(self).edges@.len() + 1
                &&& forall|k: int|
                    0 <= k < old(self).edges@.len() ==> (#[trigger] final(self).edges@[k]) == old(self).edges@[k]
                &&& final(self).edges@.last().0 == node.idx
                &&& final(self).edges@.last().1@ == name@
                &&& final(self).edges@.last().2 == r.idx
            },
    {
        let n = self.edges.len();
        let name_string: String = name.to_owned();
        let mut k: usize = 0;
        while k < n
            invariant
                k <= n,
                n == self.edges@.len(),
                name_string@ == name@,
                *self == *old(self),
                self.wf(),
                (node.idx as int) < self.node_count(),
                forall|t: int|
                    0 <= t < k ==> !((#[trigger] self.edges@[t]).0 == node.idx
                        && self.edges@[t].1@ == name@),
            decreases n - k,
        {
            if self.edges[k].0 == node.idx && self.edges[k].1 == name_string {
                proof {
                    assert(self.edges@[k as int].0 < self.edges@[k as int].2 && (self.edges@[
                    k as int].2 as int) < self.node_count());
                    assert(self.has_child(node.idx as int, name@));
                }
                return StatsNode { idx: self.edges[k].2 };
            }
            k = k + 1;
        }

        // The child is absent: create it.
        let new_idx = self.nanos.len();
        self.nanos.push(0);
        self.edges.push((node.idx, name_string, new_idx));
        proof {
            assert(self.edges@[n as int].0 == node.idx && self.edges@[n as int].1@ == name@
                && self.edges@[n as int].2 == new_idx);
            assert forall|k1: int, k2: int| 0 <= k1 < k2 < self.edges@.len() implies !((
            #[trigger] self.edges@[k1]).0 == (#[trigger] self.edges@[k2]).0 && self.edges@[k1].1@
                == self.edges@[k2].1@) by {
                if k2 == n as int {
                    assert(!(self.edges@[k1].0 == node.idx && self.edges@[k1].1@ == name@));
                }
            }
        }
        StatsNode { idx: new_idx }
    }

    /// Returns the elapsed time of the node in nanoseconds.
    #[inline]
    pub fn as_nanos(&self, node: StatsNode) -> (r: u128)
        requires
            (node.idx as int) < self.node_count(),
        ensures
            r == self.nanos_of(node.idx as int),
    {
        self.nanos[node.idx]
    }

    /// Returns the elapsed time of the node in milliseconds, truncated.
    #[inline]
    pub fn as_millis(&self, node: StatsNode) -> (r: u128)
        requires
            (node.idx as int) < self.node_count(),
        ensures
            r == self.nanos_of(node.idx as int) / 1000000u128,
    {
        self.nanos[node.idx] / 1000000u128
    }

    /// Adds elapsed nanoseconds onto a node's counter, saturating at the
    /// counter's largest value.
    ///
    /// # Arguments
    /// * `node` - The node whose counter is raised.
    /// * `ns` - The elapsed nanoseconds to add.
    pub fn add_nanos(&mut self, node: StatsNode, ns: u128)
        requires
            old(self).wf(),
            (node.idx as int) < old(self).node_count(),
        ensures
            final(self).wf(),
            final(self).node_count() == old(self).node_count(),
            final(self).edges@ == old(self).edges@,
            final(self).nanos_of(node.idx as int) == if old(self).nanos_of(node.idx as int) + ns
                <= u128::MAX {
                old(self).nanos_of(node.idx as int) + ns
            } else {
                u128::MAX as int
            },
            forall|i: int|
                0 <= i < old(self).node_count() && i != node.idx ==> final(self).nanos_of(i) == old(self).nanos_of(i),
    {
        let current = self.nanos[node.idx];
        let updated: u128 = if current <= u128::MAX - ns {
            current + ns
        } else {
            u128::MAX
        };
        self.nanos.set(node.idx, updated);
    }

    /// The number of nodes of the tree.
    #[inline]
    pub fn num_nodes(&self) -> (r: usize)
        ensures
            r as int == self.node_count(),
    {
        self.nanos.len()
    }

    /// The number of parent-child edges of the tree.
    #[inline]
    pub fn num_edges(&self) -> (r: usize)
        ensures
            r as int == self.edges@.len(),
    {
        self.edges.len()
    }

    /// The `k`-th edge of the tree: parent node, child name, child node.
    pub fn edge(&self, k: usize) -> (r: (usize, String, usize))
        requires
            (k as int) < self.edges@.len(),
        ensures
            r.0 == self.edges@[k as int].0,
            r.1@ == self.edges@[k as int].1@,
            r.2 == self.edges@[k as int].2,
    {
        let parent = self.edges[k].0;
        let name = self.edges[k].1.clone();
        let child = self.edges[k].2;
        (parent, name, child)
    }
}

/// A pending timing measurement: the node it belongs to and the clock
/// reading, in nanoseconds, taken when it was started.
#[derive(Clone, Copy, Debug, PartialEq, Eq, Structural)]
pub struct TimeRecording {
    /// The node whose counter receives the measurement.
    pub dst_node: StatsNode,

    /// The clock reading at the start of the measurement, in nanoseconds.
    pub t0_nanos: u64,
}

impl TimeRecording {
    /// Starts a measurement for the given node at the given clock reading.
    ///
    /// # Arguments
    /// * `dst_node` - The node whose counter will receive the measurement.
    /// * `t0_nanos` - The clock reading now, in nanoseconds.
    pub fn new(dst_node: StatsNode, t0_nanos: u64) -> (r: Self)
        ensures
            r.dst_node == dst_node,
            r.t0_nanos == t0_nanos,
    {
        Self { dst_node, t0_nanos }
    }

    /// Commits the measurement: adds the nanoseconds elapsed between the
    /// start reading and the given end reading onto the node's counter, and
    /// nothing when the clock went backwards.
    ///
    /// # Arguments
    /// * `t1_nanos` - The clock reading now, in nanoseconds.
    /// * `stats` - The tree holding the node's counter.
    pub fn finish(self, t1_nanos: u64, stats: &mut Stats)
        requires
            old(stats).wf(),
            (self.dst_node.idx as int) < old(stats).node_count(),
        ensures
            final(stats).wf(),
            final(stats).node_count() == old(stats).node_count(),
            final(stats).edges@ == old(stats).edges@,
            final(stats).nanos_of(self.dst_node.idx as int) == ({
                let elapsed: int = if t1_nanos >= self.t0_nanos {
                    (t1_nanos - self.t0_nanos) as int
                } else {
                    0int
                };
                if old(stats).nanos_of(self.dst_node.idx as int) + elapsed <= u128::MAX {
                    old(stats).nanos_of(self.dst_node.idx as int) + elapsed
                } else {
                    u128::MAX as int
                }
            }),
            forall|i: int|
                0 <= i < old(stats).node_count() && i != self.dst_node.idx ==> final(stats).nanos_of(i) == old(stats).nanos_of(i),
    {
        let elapsed: u64 = if t1_nanos >= self.t0_nanos {
            t1_nanos - self.t0_nanos
        } else {
            0
        };
        stats.add_nanos(self.dst_node, elapsed as u128);
    }
}

impl StatsNode {
    /// Starts a timing measurement for this node at the given clock reading.
    ///
    /// # Arguments
    /// * `t0_nanos` - The clock reading now, in nanoseconds.
    pub fn register_timing(self, t0_nanos: u64) -> (r: TimeRecording)
        ensures
            r.dst_node == self,
            r.t0_nanos == t0_nanos,
    {
        TimeRecording::new(self, t0_nanos)
    }
}

} // verus!
