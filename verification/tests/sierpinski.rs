use fractal_gen::math::Vec3;
use fractal_gen::sierpinski::SierpinskiGenerator;

fn origin() -> Vec3 {
    Vec3::new(0, 0, 0)
}

#[test]
fn sierpinski_depth_zero_is_empty_not_an_error() {
    let out = SierpinskiGenerator::generate(origin(), 1, 0);
    assert!(out.is_empty());
    let out = SierpinskiGenerator::generate(Vec3::new(7, -3, 11), 8, 0);
    assert!(out.is_empty());
}

#[test]
fn depth_one_places_the_four_canonical_offsets() {
    // Seed scale 2: each child sits at offset * new_scale * 2 == offset * 2
    // (offset units: x world, y sqrt(2), z 1/sqrt(2)) and carries scale 1.
    let out = SierpinskiGenerator::generate(origin(), 2, 1);
    assert_eq!(out.len(), 4);
    let got: Vec<(i64, i64, i64, i64)> = out
        .iter()
        .map(|t| (t.translation.x, t.translation.y, t.translation.z, t.scale))
        .collect();
    assert_eq!(
        got,
        vec![(2, 0, -2, 1), (-2, 0, -2, 1), (0, 0, 2, 1), (0, 2, 0, 1)],
    );
}

#[test]
fn node_counts_follow_the_quarter_geometric_sum() {
    // 4 * (4^d - 1) / 3 placements: 0, 4, 20, 84 for depths 0..=3.
    assert_eq!(SierpinskiGenerator::generate(origin(), 8, 0).len(), 0);
    assert_eq!(SierpinskiGenerator::generate(origin(), 8, 1).len(), 4);
    assert_eq!(SierpinskiGenerator::generate(origin(), 8, 2).len(), 20);
    assert_eq!(SierpinskiGenerator::generate(origin(), 8, 3).len(), 84);
}

#[test]
fn scales_halve_per_level() {
    // Depth 2, seed scale 4: pre-order is node, its 4 children, next node...
    // so positions 0, 5, 10, 15 carry scale 2 and all others scale 1.
    let out = SierpinskiGenerator::generate(origin(), 4, 2);
    assert_eq!(out.len(), 20);
    for (pos, t) in out.iter().enumerate() {
        let expected = if pos % 5 == 0 { 2 } else { 1 };
        assert_eq!(t.scale, expected, "position {}", pos);
    }
}

#[test]
fn subtrees_repeat_the_rule_around_their_own_seed() {
    // The first child of the first child: its parent sits at (4, 0, -4) with
    // scale 2, so it sits at (4 + 2, 0, -4 - 2) with scale 1.
    let out = SierpinskiGenerator::generate(origin(), 4, 2);
    assert_eq!(
        (out[0].translation.x, out[0].translation.y, out[0].translation.z, out[0].scale),
        (4, 0, -4, 2),
    );
    assert_eq!(
        (out[1].translation.x, out[1].translation.y, out[1].translation.z, out[1].scale),
        (6, 0, -6, 1),
    );
}

#[test]
fn seed_position_translates_the_whole_output() {
    let base = SierpinskiGenerator::generate(origin(), 4, 2);
    let moved = SierpinskiGenerator::generate(Vec3::new(100, -50, 9), 4, 2);
    assert_eq!(base.len(), moved.len());
    for (a, b) in base.iter().zip(moved.iter()) {
        assert_eq!(a.translation.x + 100, b.translation.x);
        assert_eq!(a.translation.y - 50, b.translation.y);
        assert_eq!(a.translation.z + 9, b.translation.z);
        assert_eq!(a.scale, b.scale);
    }
}

#[test]
fn sierpinski_try_generate_accepts_the_declared_domain() {
    let out = SierpinskiGenerator::try_generate(origin(), 2, 1).unwrap();
    assert_eq!(out, SierpinskiGenerator::generate(origin(), 2, 1));
    let out = SierpinskiGenerator::try_generate(origin(), 64, 6).unwrap();
    assert_eq!(out.len(), SierpinskiGenerator::generate(origin(), 64, 6).len());
}

#[test]
fn sierpinski_try_generate_rejects_out_of_domain_requests() {
    // Non-positive scale.
    assert!(SierpinskiGenerator::try_generate(origin(), 0, 1).is_none());
    assert!(SierpinskiGenerator::try_generate(origin(), -4, 1).is_none());
    // A scale an exact halving cannot divide.
    assert!(SierpinskiGenerator::try_generate(origin(), 3, 1).is_none());
    assert!(SierpinskiGenerator::try_generate(origin(), 2, 2).is_none());
    // Depth beyond the enforced ceiling.
    assert!(SierpinskiGenerator::try_generate(origin(), 128, 7).is_none());
    // A seed too close to the representable edge.
    assert!(
        SierpinskiGenerator::try_generate(Vec3::new(i64::MAX - 1, 0, 0), 2, 1).is_none()
    );
}
