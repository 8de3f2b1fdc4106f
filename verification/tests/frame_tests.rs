use occ_raycasting::error::Error;
use occ_raycasting::frame::Frame;

#[test]
fn test_new_empty() {
    let frame = Frame::new_empty(5, 4, true);
    assert_eq!(frame.get_width(), 5);
    assert_eq!(frame.get_height(), 4);
    assert_eq!(frame.get_id_buffer().len(), 20);
    assert!(frame.get_id_buffer().iter().all(|i| i.is_none()));
    let depths = frame.get_depth_buffer().unwrap();
    assert_eq!(depths.len(), 20);
    assert!(depths.iter().all(|d| *d == 0));

    let frame = Frame::new_empty(5, 4, false);
    assert!(frame.get_depth_buffer().is_none());
}

#[test]
fn test_frame_round_trip() {
    let mut frame = Frame::new_empty(3, 2, true);
    frame.set_id_buffer(vec![Some(0), None, Some(7), Some(2), None, Some(40)]);
    frame.set_depth_buffer(vec![
        0.0f32.to_bits(),
        1.0f32.to_bits(),
        0.25f32.to_bits(),
        0.5f32.to_bits(),
        0.75f32.to_bits(),
        0.125f32.to_bits(),
    ]);

    let bytes = frame.write_binary();
    let restored = Frame::read_binary(&bytes).unwrap();

    assert_eq!(restored.get_width(), frame.get_width());
    assert_eq!(restored.get_height(), frame.get_height());
    assert_eq!(
        restored.get_id_buffer().as_slice(),
        frame.get_id_buffer().as_slice()
    );
    assert_eq!(
        restored.get_depth_buffer().unwrap().as_slice(),
        frame.get_depth_buffer().unwrap().as_slice()
    );
}

#[test]
fn test_frame_round_trip_without_depth() {
    let mut frame = Frame::new_empty(2, 2, false);
    frame.set_id_buffer(vec![None, Some(1), Some(1), None]);

    let bytes = frame.write_binary();
    let restored = Frame::read_binary(&bytes).unwrap();

    assert_eq!(restored.get_width(), 2);
    assert_eq!(restored.get_height(), 2);
    assert!(restored.get_depth_buffer().is_none());
    assert_eq!(
        restored.get_id_buffer().as_slice(),
        frame.get_id_buffer().as_slice()
    );
}

#[test]
fn test_write_binary_layout() {
    let mut frame = Frame::new_empty(1, 1, false);
    frame.set_id_buffer(vec![Some(5)]);
    let bytes = frame.write_binary();
    assert_eq!(
        bytes,
        vec![1, 0, 0, 0, 1, 0, 0, 0, 0, 0, 0, 0, 5, 0, 0, 0]
    );

    let mut frame = Frame::new_empty(1, 1, true);
    frame.set_id_buffer(vec![None]);
    frame.set_depth_buffer(vec![0x0403_0201]);
    let bytes = frame.write_binary();
    assert_eq!(
        bytes,
        vec![1, 0, 0, 0, 1, 0, 0, 0, 1, 0, 0, 0, 255, 255, 255, 255, 1, 2, 3, 4]
    );
}

#[test]
fn test_read_binary_truncated() {
    assert!(matches!(
        Frame::read_binary(&vec![1, 0, 0]),
        Err(Error::DeserializationError)
    ));

    // A complete header announcing more pixels than the data holds.
    let mut frame = Frame::new_empty(2, 2, true);
    frame.set_id_buffer(vec![Some(1), Some(2), Some(3), Some(4)]);
    frame.set_depth_buffer(vec![0, 1, 2, 3]);
    let mut bytes = frame.write_binary();
    bytes.pop();
    assert!(Frame::read_binary(&bytes).is_err());
}

#[test]
fn test_read_binary_ignores_trailing_bytes() {
    let mut frame = Frame::new_empty(2, 1, false);
    frame.set_id_buffer(vec![Some(9), None]);
    let mut bytes = frame.write_binary();
    bytes.push(0xAB);
    let restored = Frame::read_binary(&bytes).unwrap();
    assert_eq!(restored.get_id_buffer().as_slice(), &[Some(9), None]);
}
