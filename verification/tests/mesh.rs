use fractal_gen::mesh::BaseMeshBuilder;

#[test]
fn build_tetrahedron_is_deterministic() {
    let a = BaseMeshBuilder::build_tetrahedron();
    let b = BaseMeshBuilder::build_tetrahedron();
    assert_eq!(a.vertices, b.vertices);
    assert_eq!(a.indices, b.indices);
}

#[test]
fn build_tetrahedron_has_four_vertices_and_four_faces() {
    let m = BaseMeshBuilder::build_tetrahedron();
    assert_eq!(m.vertices.len(), 4);
    assert_eq!(m.indices.len(), 12);
    assert_eq!(m.indices.len() % 3, 0);
}

#[test]
fn build_tetrahedron_indices_are_in_bounds() {
    let m = BaseMeshBuilder::build_tetrahedron();
    for &ix in m.indices.iter() {
        assert!((ix as usize) < m.vertices.len());
    }
}

#[test]
fn build_tetrahedron_canonical_values() {
    // Vertex coordinates in mesh units: x in halves, y in units of sqrt(6)/3,
    // z in units of sqrt(3)/6.
    let m = BaseMeshBuilder::build_tetrahedron();
    let vs: Vec<(i64, i64, i64)> = m.vertices.iter().map(|v| (v.x, v.y, v.z)).collect();
    assert_eq!(vs, vec![(0, 0, 0), (2, 0, 0), (1, 0, 3), (1, 1, 1)]);
    assert_eq!(m.indices, vec![0, 1, 2, 0, 2, 3, 0, 3, 1, 1, 3, 2]);
}

#[test]
fn build_tetrahedron_faces_cover_each_triple_once() {
    let m = BaseMeshBuilder::build_tetrahedron();
    let mut faces: Vec<Vec<u32>> = m.indices.chunks(3).map(|f| {
        let mut f = f.to_vec();
        f.sort();
        f
    }).collect();
    faces.sort();
    assert_eq!(
        faces,
        vec![vec![0, 1, 2], vec![0, 1, 3], vec![0, 2, 3], vec![1, 2, 3]],
    );
}
