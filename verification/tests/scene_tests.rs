use occ_raycasting::scene::{append_to_mesh, Mesh, Object, Scene, Transform, Triangle, Vertex};
use occ_raycasting::triangles::{PrimitiveType, TriangleIterator};

fn vertex(x: u32, y: u32, z: u32) -> Vertex {
    Vertex { x, y, z }
}

#[test]
fn test_mesh_is_valid() {
    let mut mesh = Mesh::default();
    assert!(mesh.is_valid());

    mesh.vertices.push(vertex(1, 2, 3));
    mesh.vertices.push(vertex(4, 5, 6));
    mesh.vertices.push(vertex(7, 8, 9));
    mesh.indices.push(Triangle { x: 0, y: 1, z: 2 });
    assert!(mesh.is_valid());

    mesh.indices.push(Triangle { x: 0, y: 1, z: 3 });
    assert!(!mesh.is_valid());
}

#[test]
fn test_scene_is_valid() {
    let mut scene = Scene::default();
    assert!(scene.is_valid());

    scene.meshes.push(Mesh::default());
    scene.objects.push(Object {
        mesh_index: 0,
        transform: Transform { m: [0; 12] },
    });
    assert!(scene.is_valid());

    scene.objects.push(Object {
        mesh_index: 1,
        transform: Transform { m: [0; 12] },
    });
    assert!(!scene.is_valid());
}

#[test]
fn test_append_to_mesh() {
    let mut mesh = Mesh::default();
    mesh.vertices.push(vertex(9, 9, 9));
    mesh.vertices.push(vertex(8, 8, 8));

    let positions = vec![vertex(0, 0, 0), vertex(1, 0, 0), vertex(0, 1, 0)];
    let stream = TriangleIterator::new(PrimitiveType::Triangles, vec![0, 1, 2]).unwrap();

    append_to_mesh(&mut mesh, &positions, stream);

    assert_eq!(mesh.vertices.len(), 5);
    assert_eq!(mesh.vertices[2], vertex(0, 0, 0));
    assert_eq!(mesh.vertices[4], vertex(0, 1, 0));
    assert_eq!(mesh.indices.len(), 1);
    // The appended triangle's indices are shifted past the two vertices the
    // mesh already held.
    assert_eq!(mesh.indices[0], Triangle { x: 2, y: 3, z: 4 });
    assert!(mesh.is_valid());
}

#[test]
fn test_append_to_mesh_fan() {
    let mut mesh = Mesh::default();
    let positions = vec![
        vertex(0, 0, 0),
        vertex(1, 0, 0),
        vertex(1, 1, 0),
        vertex(0, 1, 0),
    ];
    let stream = TriangleIterator::new(PrimitiveType::TriangleFan, vec![0, 1, 2, 3]).unwrap();

    append_to_mesh(&mut mesh, &positions, stream);

    assert_eq!(mesh.vertices.len(), 4);
    assert_eq!(mesh.indices.len(), 2);
    assert_eq!(mesh.indices[0], Triangle { x: 0, y: 1, z: 2 });
    assert_eq!(mesh.indices[1], Triangle { x: 0, y: 2, z: 3 });
    assert!(mesh.is_valid());
}
