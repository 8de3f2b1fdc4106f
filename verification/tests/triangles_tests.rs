use occ_raycasting::triangles::{PrimitiveType, TriangleIterator};

#[test]
fn test_triangle_iterator_triangles() {
    let indices = vec![0, 1, 2, 3, 4, 5];
    let mut iterator = TriangleIterator::new(PrimitiveType::Triangles, indices).unwrap();

    assert_eq!(iterator.next(), Some([0, 1, 2]));
    assert_eq!(iterator.next(), Some([3, 4, 5]));
    assert_eq!(iterator.next(), None);
}

#[test]
fn test_triangle_iterator_triangle_fan() {
    let indices = vec![0, 1, 2, 3, 4, 5];
    let mut iterator = TriangleIterator::new(PrimitiveType::TriangleFan, indices).unwrap();

    assert_eq!(iterator.next(), Some([0, 1, 2]));
    assert_eq!(iterator.next(), Some([0, 2, 3]));
    assert_eq!(iterator.next(), Some([0, 3, 4]));
    assert_eq!(iterator.next(), Some([0, 4, 5]));
    assert_eq!(iterator.next(), None);
}

#[test]
fn test_triangle_iterator_triangle_strip() {
    let indices = vec![0, 1, 2, 3, 4];
    let mut iterator = TriangleIterator::new(PrimitiveType::TriangleStrip, indices).unwrap();

    assert_eq!(iterator.next(), Some([0, 1, 2]));
    assert_eq!(iterator.next(), Some([2, 1, 3]));
    assert_eq!(iterator.next(), Some([2, 3, 4]));

    assert_eq!(iterator.next(), None);
}

#[test]
fn test_triangle_iterator_rejects_non_triangles() {
    assert!(TriangleIterator::new(PrimitiveType::Point, vec![0, 1, 2]).is_none());
    assert!(TriangleIterator::new(PrimitiveType::Line, vec![0, 1, 2]).is_none());
    assert!(TriangleIterator::new(PrimitiveType::LineLoop, vec![0, 1, 2]).is_none());
    assert!(TriangleIterator::new(PrimitiveType::LineStrip, vec![0, 1, 2]).is_none());
}

#[test]
fn test_triangle_iterator_short_streams() {
    let mut iterator = TriangleIterator::new(PrimitiveType::Triangles, vec![0, 1]).unwrap();
    assert_eq!(iterator.next(), None);

    let mut iterator = TriangleIterator::new(PrimitiveType::TriangleFan, vec![0, 1]).unwrap();
    assert_eq!(iterator.next(), None);

    let mut iterator = TriangleIterator::new(PrimitiveType::TriangleStrip, vec![]).unwrap();
    assert_eq!(iterator.next(), None);

    // A partial trailing triple is not a triangle.
    let mut iterator =
        TriangleIterator::new(PrimitiveType::Triangles, vec![0, 1, 2, 3, 4]).unwrap();
    assert_eq!(iterator.next(), Some([0, 1, 2]));
    assert_eq!(iterator.next(), None);
}
