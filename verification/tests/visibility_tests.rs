use occ_raycasting::visibility::compute_visibility_from_id_buffer;

#[test]
fn test_visibility_empty_scene() {
    let id_buffer: Vec<Option<u32>> = vec![None; 64 * 64];
    let mut visibility = vec![(3, 17)];
    compute_visibility_from_id_buffer(&mut visibility, &id_buffer, 0);
    assert!(visibility.is_empty());
}

#[test]
fn test_visibility_counts_and_order() {
    // Three objects: id 2 covers four pixels, id 0 covers two, id 1 none.
    let id_buffer: Vec<Option<u32>> = vec![
        Some(2),
        Some(0),
        Some(2),
        None,
        Some(2),
        Some(0),
        Some(2),
        None,
    ];
    let mut visibility = Vec::new();
    compute_visibility_from_id_buffer(&mut visibility, &id_buffer, 3);
    assert_eq!(visibility, vec![(2, 4), (0, 2), (1, 0)]);
}

#[test]
fn test_visibility_counts_sum_within_total() {
    let id_buffer: Vec<Option<u32>> = vec![Some(0), Some(1), Some(1), None, None, Some(0)];
    let mut visibility = Vec::new();
    compute_visibility_from_id_buffer(&mut visibility, &id_buffer, 2);
    let sum: u64 = visibility.iter().map(|p| p.1).sum();
    assert!(sum <= id_buffer.len() as u64);
    assert_eq!(sum, 4);
}

#[test]
fn test_visibility_full_coverage() {
    let id_buffer: Vec<Option<u32>> = vec![Some(0); 16];
    let mut visibility = Vec::new();
    compute_visibility_from_id_buffer(&mut visibility, &id_buffer, 1);
    assert_eq!(visibility, vec![(0, 16)]);
}

#[test]
fn test_visibility_one_entry_per_object() {
    let id_buffer: Vec<Option<u32>> = vec![Some(4), Some(4), Some(1)];
    let mut visibility = Vec::new();
    compute_visibility_from_id_buffer(&mut visibility, &id_buffer, 5);
    assert_eq!(visibility.len(), 5);
    let mut seen: Vec<u32> = visibility.iter().map(|p| p.0).collect();
    seen.sort();
    assert_eq!(seen, vec![0, 1, 2, 3, 4]);
    for (id, count) in visibility {
        let expected = match id {
            4 => 2,
            1 => 1,
            _ => 0,
        };
        assert_eq!(count, expected);
    }
}
