use fractal_gen::math::Vec3;
use fractal_gen::menger::MengerGenerator;

fn origin() -> Vec3 {
    Vec3::new(0, 0, 0)
}

fn skipped(i: i64, j: i64, k: i64) -> bool {
    (i == 1 && j == 1) || (i == 1 && k == 1) || (j == 1 && k == 1)
}

#[test]
fn menger_depth_zero_is_empty_not_an_error() {
    let out = MengerGenerator::generate(origin(), 1, 0);
    assert!(out.is_empty());
    let out = MengerGenerator::generate(Vec3::new(-2, 5, 40), 9, 0);
    assert!(out.is_empty());
}

#[test]
fn depth_one_places_the_twenty_survivors_in_grid_order() {
    let out = MengerGenerator::generate(origin(), 1, 1);
    let mut expected: Vec<(i64, i64, i64, i64)> = Vec::new();
    for i in 0..3 {
        for j in 0..3 {
            for k in 0..3 {
                if !skipped(i, j, k) {
                    expected.push((i - 1, j - 1, k - 1, 1));
                }
            }
        }
    }
    assert_eq!(expected.len(), 20);
    let got: Vec<(i64, i64, i64, i64)> = out
        .iter()
        .map(|t| (t.translation.x, t.translation.y, t.translation.z, t.scale))
        .collect();
    assert_eq!(got, expected);
}

#[test]
fn exactly_seven_cells_are_skipped() {
    let mut skips: Vec<(i64, i64, i64)> = Vec::new();
    for i in 0..3 {
        for j in 0..3 {
            for k in 0..3 {
                if skipped(i, j, k) {
                    skips.push((i, j, k));
                }
            }
        }
    }
    // The volume center and the six face centers, with overlaps collapsing.
    assert_eq!(
        skips,
        vec![
            (0, 1, 1),
            (1, 0, 1),
            (1, 1, 0),
            (1, 1, 1),
            (1, 1, 2),
            (1, 2, 1),
            (2, 1, 1),
        ],
    );
}

#[test]
fn the_center_and_face_centers_are_absent_at_depth_one() {
    let out = MengerGenerator::generate(origin(), 1, 1);
    for t in out.iter() {
        let cell = (t.translation.x + 1, t.translation.y + 1, t.translation.z + 1);
        assert!(!skipped(cell.0, cell.1, cell.2));
    }
}

#[test]
fn node_counts_follow_the_twentyfold_geometric_sum() {
    // 20 * (20^d - 1) / 19 placements: 0, 20, 420 for depths 0..=2.
    assert_eq!(MengerGenerator::generate(origin(), 1, 0).len(), 0);
    assert_eq!(MengerGenerator::generate(origin(), 1, 1).len(), 20);
    assert_eq!(MengerGenerator::generate(origin(), 1, 2).len(), 420);
}

#[test]
fn scale_never_shrinks_between_levels() {
    let out = MengerGenerator::generate(origin(), 3, 2);
    assert_eq!(out.len(), 420);
    for t in out.iter() {
        assert_eq!(t.scale, 3);
    }
}

#[test]
fn recursion_steps_outward_from_each_survivor() {
    // The first survivor of depth 2 sits at (-1,-1,-1); its own first
    // survivor steps one more scale outward.
    let out = MengerGenerator::generate(origin(), 1, 2);
    let first = (out[0].translation.x, out[0].translation.y, out[0].translation.z);
    assert_eq!(first, (-1, -1, -1));
    let second = (out[1].translation.x, out[1].translation.y, out[1].translation.z);
    assert_eq!(second, (-2, -2, -2));
}

#[test]
fn menger_try_generate_accepts_the_declared_domain() {
    let out = MengerGenerator::try_generate(origin(), 1, 1).unwrap();
    assert_eq!(out, MengerGenerator::generate(origin(), 1, 1));
}

#[test]
fn menger_try_generate_rejects_out_of_domain_requests() {
    // Non-positive scale.
    assert!(MengerGenerator::try_generate(origin(), 0, 1).is_none());
    assert!(MengerGenerator::try_generate(origin(), -1, 1).is_none());
    // Depth beyond the enforced ceiling.
    assert!(MengerGenerator::try_generate(origin(), 1, 5).is_none());
    // A seed too close to the representable edge.
    assert!(MengerGenerator::try_generate(Vec3::new(0, i64::MIN + 1, 0), 1, 2).is_none());
}
