use occ_raycasting::stats::{Stats, TimeRecording};

#[test]
fn test_stats_new_root() {
    let stats = Stats::new();
    let root = stats.root();
    assert_eq!(root.idx, 0);
    assert_eq!(stats.num_nodes(), 1);
    assert_eq!(stats.num_edges(), 0);
    assert_eq!(stats.as_nanos(root), 0);
}

#[test]
fn test_get_child_creates_once() {
    let mut stats = Stats::new();
    let root = stats.root();

    let a = stats.get_child(root, "rasterize");
    assert_eq!(stats.num_nodes(), 2);

    // Looking the same name up again yields the same node and creates
    // nothing.
    let a2 = stats.get_child(root, "rasterize");
    assert_eq!(a, a2);
    assert_eq!(stats.num_nodes(), 2);

    let b = stats.get_child(root, "loading");
    assert_ne!(a, b);
    assert_eq!(stats.num_nodes(), 3);

    // A child of a child is a fresh node even under a reused name.
    let c = stats.get_child(a, "loading");
    assert_ne!(b, c);
    assert_eq!(stats.num_nodes(), 4);

    // The edges name the tree shape.
    assert_eq!(stats.num_edges(), 3);
    let (parent, name, child) = stats.edge(0);
    assert_eq!(parent, root.idx);
    assert_eq!(name, "rasterize");
    assert_eq!(child, a.idx);
}

#[test]
fn test_add_nanos_and_millis() {
    let mut stats = Stats::new();
    let root = stats.root();
    let node = stats.get_child(root, "work");

    stats.add_nanos(node, 1_500_000);
    stats.add_nanos(node, 3_500_000);
    assert_eq!(stats.as_nanos(node), 5_000_000);
    assert_eq!(stats.as_millis(node), 5);

    // The other counters stay untouched.
    assert_eq!(stats.as_nanos(root), 0);
}

#[test]
fn test_time_recording() {
    let mut stats = Stats::new();
    let root = stats.root();
    let node = stats.get_child(root, "frame");

    let recording = TimeRecording::new(node, 100);
    recording.finish(350, &mut stats);
    assert_eq!(stats.as_nanos(node), 250);

    // A clock that went backwards adds nothing.
    let recording = TimeRecording::new(node, 400);
    recording.finish(399, &mut stats);
    assert_eq!(stats.as_nanos(node), 250);
}

#[test]
fn test_register_timing() {
    let mut stats = Stats::new();
    let root = stats.root();
    let node = stats.get_child(root, "view");

    let recording = node.register_timing(1000);
    assert_eq!(recording.dst_node, node);
    assert_eq!(recording.t0_nanos, 1000);
    recording.finish(1800, &mut stats);
    assert_eq!(stats.as_nanos(node), 800);
}
