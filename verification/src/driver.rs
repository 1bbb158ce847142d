//! One-shot fractal expansion of placeholder instances.
//!
//! The driver owes one regeneration at startup (state `Pending`). On the
//! first tick whose trigger fires, it walks every placeholder instance,
//! expands each into a full Menger pass seeded at the origin with the default
//! scale and depth, and emits one renderable instance per placement, reusing
//! the placeholder's mesh and material handles. It then stays `Done` — in
//! steady state generation happens exactly once, and an empty placeholder
//! list yields no emissions and is not an error.

use crate::math::{models, Transform, TransformModel, Vec3, Vec3Model};
use crate::menger::{
    lemma_menger_node_count, menger_count, menger_fits, menger_seq, MengerGenerator,
};
use vstd::prelude::*;

verus! {

/// Fixed default seed for driver-initiated generation.
pub const DEFAULT_SCALE: i64 = 1;

pub const DEFAULT_DEPTH: u32 = 4;

/// Mathematical value of a [`Placeholder`].
pub struct PlaceholderModel {
    pub mesh: u64,
    pub material: u64,
    pub base_transform: TransformModel,
}

/// An existing instance to expand: opaque mesh and material registry handles
/// plus the transform it was spawned with.
#[derive(Clone, Copy, PartialEq, Eq, Structural, Debug)]
pub struct Placeholder {
    pub mesh: u64,
    pub material: u64,
    pub base_transform: Transform,
}

impl View for Placeholder {
    type V = PlaceholderModel;

    open spec fn view(&self) -> PlaceholderModel {
        PlaceholderModel {
            mesh: self.mesh,
            material: self.material,
            base_transform: self.base_transform@,
        }
    }
}

/// Mathematical value of an [`Emission`].
pub struct EmissionModel {
    pub mesh: u64,
    pub material: u64,
    pub transform: TransformModel,
}

/// One renderable instance handed to the external instance-emission sink.
#[derive(Clone, Copy, PartialEq, Eq, Structural, Debug)]
pub struct Emission {
    pub mesh: u64,
    pub material: u64,
    pub transform: Transform,
}

impl View for Emission {
    type V = EmissionModel;

    open spec fn view(&self) -> EmissionModel {
        EmissionModel { mesh: self.mesh, material: self.material, transform: self.transform@ }
    }
}

pub open spec fn placeholder_models(s: Seq<Placeholder>) -> Seq<PlaceholderModel> {
    s.map_values(|p: Placeholder| p@)
}

pub open spec fn emission_models(s: Seq<Emission>) -> Seq<EmissionModel> {
    s.map_values(|e: Emission| e@)
}

proof fn lemma_emission_models_push(s: Seq<Emission>, e: Emission)
    ensures
        emission_models(s.push(e)) =~= emission_models(s).push(e@),
{
}

pub open spec fn origin() -> Vec3Model {
    Vec3Model { x: 0, y: 0, z: 0 }
}

/// What one placeholder expands into: the default Menger pass, stamped with
/// the placeholder's handles.
pub open spec fn emissions_of(p: PlaceholderModel) -> Seq<EmissionModel> {
    menger_seq(origin(), DEFAULT_SCALE as int, DEFAULT_DEPTH as nat).map_values(
        |t: TransformModel| EmissionModel { mesh: p.mesh, material: p.material, transform: t },
    )
}

/// The emissions owed for the placeholders numbered `n` onward, in order.
pub open spec fn driver_output_from(ps: Seq<PlaceholderModel>, n: nat) -> Seq<EmissionModel>
    decreases ps.len() - n,
{
    if n >= ps.len() {
        Seq::empty()
    } else {
        emissions_of(ps[n as int]) + driver_output_from(ps, n + 1)
    }
}

/// Everything one regeneration emits: each placeholder's expansion, in
/// placeholder order.
pub open spec fn driver_output(ps: Seq<PlaceholderModel>) -> Seq<EmissionModel> {
    driver_output_from(ps, 0)
}

proof fn lemma_driver_output_from_len(ps: Seq<PlaceholderModel>, n: nat)
    requires
        n <= ps.len(),
    ensures
        driver_output_from(ps, n).len() == (ps.len() - n) * menger_count(DEFAULT_DEPTH as nat),
    decreases ps.len() - n,
{
    let c = menger_count(DEFAULT_DEPTH as nat) as int;
    if n < ps.len() {
        lemma_driver_output_from_len(ps, n + 1);
        lemma_menger_node_count(origin(), DEFAULT_SCALE as int, DEFAULT_DEPTH as nat);
        assert(emissions_of(ps[n as int]).len() == c);
        let r: int = ps.len() - (n + 1);
        assert((r + 1) * c == c + r * c) by (nonlinear_arith);
    } else {
        assert((ps.len() - n) * c == 0) by (nonlinear_arith)
            requires
                n == ps.len(),
        ;
    }
}

/// Law: one regeneration emits exactly the default Menger node count —
/// `20 * (20^4 - 1) / 19` placements — for each placeholder it expands.
pub proof fn lemma_driver_output_len(ps: Seq<PlaceholderModel>)
    ensures
        driver_output(ps).len() == ps.len() * menger_count(DEFAULT_DEPTH as nat),
{
    lemma_driver_output_from_len(ps, 0);
}

/// `Pending`: a regeneration is owed. `Done`: nothing left to do.
#[derive(Clone, Copy, PartialEq, Eq, Structural, Debug)]
pub enum DriverState {
    Pending,
    Done,
}

/// Orchestrates one-shot generation across all placeholder instances.
pub struct FractalDriver {
    pub state: DriverState,
}

impl FractalDriver {
    /// A fresh driver owes one regeneration.
    pub fn new() -> (d: FractalDriver)
        ensures
            d.state == DriverState::Pending,
    {
        FractalDriver { state: DriverState::Pending }
    }

    /// One tick: while a regeneration is owed, expand every placeholder and
    /// settle into `Done`; afterwards every tick emits nothing.
    #[verifier::loop_isolation(false)]
    pub fn run(&mut self, placeholders: &Vec<Placeholder>) -> (out: Vec<Emission>)
        ensures
            final(self).state == DriverState::Done,
            old(self).state == DriverState::Pending ==> emission_models(out@) == driver_output(
                placeholder_models(placeholders@),
            ),
            old(self).state == DriverState::Done ==> out@.len() == 0,
    {
        if self.state == DriverState::Done {
            return Vec::new();
        }
        let ghost pm = placeholder_models(placeholders@);
        let mut out: Vec<Emission> = Vec::new();
        let mut idx: usize = 0;
        while idx < placeholders.len()
            invariant
                idx <= placeholders.len(),
                emission_models(out@) + driver_output_from(pm, idx as nat) == driver_output(pm),
            decreases placeholders.len() - idx,
        {
            let p = placeholders[idx];
            proof {
                assert(p@ == pm[idx as int]);
                assert(menger_fits(origin(), DEFAULT_SCALE as int, DEFAULT_DEPTH as nat));
            }
            let transforms = MengerGenerator::generate(Vec3::zero(), DEFAULT_SCALE, DEFAULT_DEPTH);
            let ghost out_pre: Seq<Emission> = out@;
            let mut t: usize = 0;
            while t < transforms.len()
                invariant
                    t <= transforms.len(),
                    models(transforms@) == menger_seq(
                        origin(),
                        DEFAULT_SCALE as int,
                        DEFAULT_DEPTH as nat,
                    ),
                    emission_models(out@) == emission_models(out_pre) + emissions_of(p@).take(
                        t as int,
                    ),
                decreases transforms.len() - t,
            {
                let tr = transforms[t];
                let e = Emission { mesh: p.mesh, material: p.material, transform: tr };
                let ghost out_mid: Seq<Emission> = out@;
                out.push(e);
                proof {
                    lemma_emission_models_push(out_mid, e);
                    assert(models(transforms@)[t as int] == tr@);
                    assert(emissions_of(p@)[t as int] == e@);
                    assert(emissions_of(p@).take(t + 1) =~= emissions_of(p@).take(t as int).push(
                        emissions_of(p@)[t as int],
                    ));
                    assert(emission_models(out@) =~= emission_models(out_pre) + emissions_of(
                        p@,
                    ).take(t + 1));
                }
                t = t + 1;
            }
            proof {
                assert(emissions_of(p@).take(transforms@.len() as int) =~= emissions_of(p@));
                assert(driver_output_from(pm, idx as nat) == emissions_of(pm[idx as int])
                    + driver_output_from(pm, (idx + 1) as nat));
                assert(emission_models(out@) + driver_output_from(pm, (idx + 1) as nat)
                    =~= emission_models(out_pre) + driver_output_from(pm, idx as nat));
            }
            idx = idx + 1;
        }
        proof {
            assert(driver_output_from(pm, idx as nat) =~= Seq::<EmissionModel>::empty());
            assert(emission_models(out@) + driver_output_from(pm, idx as nat) =~= emission_models(
                out@,
            ));
        }
        self.state = DriverState::Done;
        out
    }
}

} // verus!
