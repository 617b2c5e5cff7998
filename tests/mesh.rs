use mulch::mesh::{check_capacity, MeshError, VertexData, INDEX_BYTES, VERTEX_BYTES};
use mulch::voxels::{Radius, VoxelGrid};

#[test]
fn empty_volume_gives_empty_mesh() {
    let g = VoxelGrid::new();
    let (vertices, indices) = g.generate_mesh();
    assert!(vertices.is_empty());
    assert!(indices.is_empty());
}

#[test]
fn single_voxel_gives_one_closed_shell() {
    let mut g = VoxelGrid::new();
    g.paint_cube((10, 10, 10), (11, 10, 10)).unwrap();
    let (vertices, indices) = g.generate_mesh();
    assert_eq!(vertices.len(), 8);
    assert_eq!(indices.len(), 6 * 2 * 3);
    assert!(indices.iter().all(|&i| (i as usize) < vertices.len()));
    assert_eq!(vertices[0], VertexData { cell: (9, 9, 9), normal: (-1, -1, -1) });
    assert_eq!(vertices[7], VertexData { cell: (10, 10, 10), normal: (1, 1, 1) });
    assert_eq!(vertices[5], VertexData { cell: (10, 9, 10), normal: (1, -1, 1) });
    assert_eq!(&indices[0..6], &[0, 4, 6, 6, 2, 0]);
}

#[test]
fn isolated_box_triangles_match_its_faces() {
    let mut g = VoxelGrid::new();
    g.paint_cube((10, 10, 10), (12, 12, 12)).unwrap();
    let (vertices, indices) = g.generate_mesh();
    // x in 10..12, y and z in 10..=12: a 2 x 3 x 3 box with 42 exposed faces.
    let exposed_faces = 2 * (2 * 3 + 2 * 3 + 3 * 3);
    assert!(indices.len() > 0);
    assert_eq!(indices.len() % 3, 0);
    assert_eq!(indices.len() / 3, 2 * exposed_faces);
    assert!(indices.iter().all(|&i| (i as usize) < vertices.len()));
    // boundary cells: 3 x 4 x 4 cells touch the box, 1 x 2 x 2 lie inside it.
    assert_eq!(vertices.len(), 3 * 4 * 4 - 2 * 2);
    for v in &vertices {
        assert!(v.normal != (0, 0, 0));
    }
}

#[test]
fn generate_mesh_is_deterministic() {
    let mut g = VoxelGrid::new();
    g.paint_cube((2, 3, 0), (9, 5, 2)).unwrap();
    g.paint_sphere((20, 20, 20), Radius { numerator: 23, denominator: 10 }).unwrap();
    let first = g.generate_mesh();
    let second = g.generate_mesh();
    assert_eq!(first.0, second.0);
    assert_eq!(first.1, second.1);
}

#[test]
fn faces_on_the_outer_shell_are_not_emitted() {
    let mut g = VoxelGrid::new();
    g.paint_cube((0, 0, 0), (1, 0, 0)).unwrap();
    let (vertices, indices) = g.generate_mesh();
    assert_eq!(vertices, vec![VertexData { cell: (0, 0, 0), normal: (0, 0, 0) }]);
    assert!(indices.is_empty());
}

#[test]
fn capacity_check_accepts_fitting_meshes() {
    let mut g = VoxelGrid::new();
    g.paint_cube((10, 10, 10), (11, 10, 10)).unwrap();
    let (vertices, indices) = g.generate_mesh();
    assert_eq!(check_capacity(&vertices, &indices, 1024 * 1024), Ok(()));
    assert_eq!(check_capacity(&vertices, &indices, 8 * VERTEX_BYTES), Ok(()));
    assert_eq!(VERTEX_BYTES, 24);
    assert_eq!(INDEX_BYTES, 4);
}

#[test]
fn capacity_check_rejects_oversized_meshes() {
    let mut g = VoxelGrid::new();
    g.paint_cube((10, 10, 10), (11, 10, 10)).unwrap();
    let (vertices, indices) = g.generate_mesh();
    assert_eq!(
        check_capacity(&vertices, &indices, 8 * VERTEX_BYTES - 1),
        Err(MeshError::MeshCapacityExceeded)
    );
    assert_eq!(check_capacity(&vertices, &indices, 0), Err(MeshError::MeshCapacityExceeded));
}
