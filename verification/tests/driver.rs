use fractal_gen::driver::{DriverState, FractalDriver, Placeholder, DEFAULT_DEPTH, DEFAULT_SCALE};
use fractal_gen::math::{Transform, Vec3};
use fractal_gen::menger::MengerGenerator;

fn placeholder(mesh: u64, material: u64) -> Placeholder {
    Placeholder {
        mesh,
        material,
        base_transform: Transform { translation: Vec3::new(0, 0, 0), scale: 1 },
    }
}

#[test]
fn a_fresh_driver_owes_a_regeneration() {
    let d = FractalDriver::new();
    assert_eq!(d.state, DriverState::Pending);
}

#[test]
fn the_first_run_expands_every_placeholder_once() {
    let mut d = FractalDriver::new();
    let placeholders = vec![placeholder(10, 20), placeholder(11, 21)];
    let out = d.run(&placeholders);
    assert_eq!(d.state, DriverState::Done);

    let per_placeholder =
        MengerGenerator::generate(Vec3::new(0, 0, 0), DEFAULT_SCALE, DEFAULT_DEPTH);
    // 20 * (20^4 - 1) / 19 placements per placeholder at the default depth.
    assert_eq!(per_placeholder.len(), 168420);
    assert_eq!(out.len(), 2 * per_placeholder.len());

    for (n, e) in out.iter().enumerate() {
        let (mesh, material) = if n < per_placeholder.len() { (10, 20) } else { (11, 21) };
        assert_eq!(e.mesh, mesh);
        assert_eq!(e.material, material);
        assert_eq!(e.transform, per_placeholder[n % per_placeholder.len()]);
    }
}

#[test]
fn later_runs_emit_nothing() {
    let mut d = FractalDriver::new();
    let placeholders = vec![placeholder(1, 2)];
    let first = d.run(&placeholders);
    assert!(!first.is_empty());
    let second = d.run(&placeholders);
    assert!(second.is_empty());
    assert_eq!(d.state, DriverState::Done);
}

#[test]
fn no_placeholders_is_not_an_error() {
    let mut d = FractalDriver::new();
    let out = d.run(&Vec::new());
    assert!(out.is_empty());
    assert_eq!(d.state, DriverState::Done);
}
