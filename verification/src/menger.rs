//! Recursive grid subtraction over a 3x3x3 cell grid.
//!
//! Each pass walks the 27 cells in row-major `(i, j, k)` order, skips a cell
//! exactly when at least two of its three indices equal 1 (the volume center
//! and the six face centers, 7 cells in all), places a cube at each of the 20
//! survivors, and recurses into every survivor with the *same* scale
//! (pre-order: a cell's placement comes before its subtree). The scale not
//! shrinking between levels reproduces the observed rule: recursion depth
//! controls structural extent, not size reduction.
//!
//! Coordinates are plain integers: a cell at grid index `(i, j, k)` sits at
//! `pos + (index - 1) * scale` componentwise.

use crate::math::{lemma_models_push, lemma_pow_pos, models, pow, Transform, TransformModel, Vec3,
    Vec3Model};
use vstd::prelude::*;

verus! {

/// A cell is removed exactly when at least two of its indices equal 1.
pub open spec fn menger_skipped(i: int, j: int, k: int) -> bool {
    (i == 1 && j == 1) || (i == 1 && k == 1) || (j == 1 && k == 1)
}

/// Row-major decomposition of a flat cell number `c` in `0..27` into grid
/// indices: `i` outermost, `k` innermost.
pub open spec fn cell_i(c: int) -> int {
    c / 9
}

pub open spec fn cell_j(c: int) -> int {
    (c % 9) / 3
}

pub open spec fn cell_k(c: int) -> int {
    c % 3
}

/// Where the cell numbered `c` is placed: `pos + (index - 1) * scale` on each
/// axis.
pub open spec fn menger_cell_pos(pos: Vec3Model, scale: int, c: int) -> Vec3Model {
    Vec3Model {
        x: pos.x + (cell_i(c) - 1) * scale,
        y: pos.y + (cell_j(c) - 1) * scale,
        z: pos.z + (cell_k(c) - 1) * scale,
    }
}

/// The placements emitted from cell number `c` onward at one node, survivors
/// before their own subtrees.
pub open spec fn menger_from(pos: Vec3Model, scale: int, depth: nat, c: nat) -> Seq<TransformModel>
    decreases depth, 27 - c,
{
    if depth == 0 || c >= 27 {
        Seq::empty()
    } else if menger_skipped(cell_i(c as int), cell_j(c as int), cell_k(c as int)) {
        menger_from(pos, scale, depth, c + 1)
    } else {
        let cp = menger_cell_pos(pos, scale, c as int);
        seq![TransformModel { translation: cp, scale: scale }]
            + menger_from(cp, scale, (depth - 1) as nat, 0)
            + menger_from(pos, scale, depth, c + 1)
    }
}

/// Every placement of a Menger pass seeded at `pos` with `scale` and `depth`
/// remaining levels.
pub open spec fn menger_seq(pos: Vec3Model, scale: int, depth: nat) -> Seq<TransformModel> {
    menger_from(pos, scale, depth, 0)
}

/// How many of the cells numbered `c..27` survive the removal rule.
pub open spec fn menger_survivors_from(c: nat) -> nat
    decreases 27 - c,
{
    if c >= 27 {
        0
    } else if menger_skipped(cell_i(c as int), cell_j(c as int), cell_k(c as int)) {
        menger_survivors_from(c + 1)
    } else {
        1 + menger_survivors_from(c + 1)
    }
}

/// Total number of placements per depth: `N(0) = 0`, `N(d) = 20 + 20*N(d-1)`.
pub open spec fn menger_count(depth: nat) -> nat
    decreases depth,
{
    if depth == 0 {
        0
    } else {
        20 + 20 * menger_count((depth - 1) as nat)
    }
}

/// Law: the removal rule keeps exactly 20 of the 27 cells of one level.
pub proof fn lemma_menger_survivor_count()
    ensures
        menger_survivors_from(0) == 20,
{
    reveal_with_fuel(menger_survivors_from, 28);
}

/// Law: a cell of one subdivision level is skipped exactly when it is one of
/// the 7 named cells: the volume center and the six face centers.
pub proof fn lemma_menger_skipped_cells(i: int, j: int, k: int)
    requires
        0 <= i < 3,
        0 <= j < 3,
        0 <= k < 3,
    ensures
        menger_skipped(i, j, k) <==> ((i == 1 && j == 1 && k == 0) || (i == 1 && j == 1 && k == 1)
            || (i == 1 && j == 1 && k == 2) || (i == 1 && j == 0 && k == 1) || (i == 1 && j == 2
            && k == 1) || (i == 0 && j == 1 && k == 1) || (i == 2 && j == 1 && k == 1)),
{
}

proof fn lemma_menger_from_len(pos: Vec3Model, scale: int, depth: nat, c: nat)
    requires
        c <= 27,
    ensures
        depth == 0 ==> menger_from(pos, scale, depth, c).len() == 0,
        depth >= 1 ==> menger_from(pos, scale, depth, c).len() == menger_survivors_from(c) * (1
            + menger_count((depth - 1) as nat)),
    decreases depth, 27 - c,
{
    let b: int = 1 + menger_count((depth - 1) as nat) as int;
    if depth >= 1 && c < 27 {
        lemma_menger_from_len(pos, scale, depth, c + 1);
        if menger_skipped(cell_i(c as int), cell_j(c as int), cell_k(c as int)) {
            assert(menger_from(pos, scale, depth, c) == menger_from(pos, scale, depth, c + 1));
        } else {
            let cp = menger_cell_pos(pos, scale, c as int);
            lemma_menger_from_len(cp, scale, (depth - 1) as nat, 0);
            lemma_menger_survivor_count();
            if depth >= 2 {
                assert(menger_count((depth - 1) as nat) == 20 + 20 * menger_count(
                    (depth - 2) as nat,
                ));
                assert(menger_from(cp, scale, (depth - 1) as nat, 0).len() == 20 * (1
                    + menger_count((depth - 2) as nat)));
            }
            assert(menger_from(pos, scale, depth, c) == seq![
                TransformModel { translation: cp, scale: scale },
            ] + menger_from(cp, scale, (depth - 1) as nat, 0) + menger_from(
                pos,
                scale,
                depth,
                c + 1,
            ));
            assert(menger_from(cp, scale, (depth - 1) as nat, 0).len() == menger_count(
                (depth - 1) as nat,
            ));
            let s: int = menger_survivors_from((c + 1) as nat) as int;
            assert((1 + s) * b == 1 + (b - 1) + s * b) by (nonlinear_arith);
        }
    } else if depth >= 1 {
        assert(menger_from(pos, scale, depth, c).len() == 0);
        assert(menger_survivors_from(c) == 0);
        assert(0 * b == 0) by (nonlinear_arith);
    }
}

proof fn lemma_menger_count_closed(depth: nat)
    ensures
        19 * menger_count(depth) == 20 * (pow(20, depth) - 1),
    decreases depth,
{
    if depth >= 1 {
        lemma_menger_count_closed((depth - 1) as nat);
        lemma_pow_pos(20, (depth - 1) as nat);
        assert(pow(20, depth) == 20 * pow(20, (depth - 1) as nat));
    }
}

/// Law: a pass with `depth` remaining levels emits exactly
/// `20 * (20^depth - 1) / 19` placements, whatever the seed position and
/// scale.
pub proof fn lemma_menger_node_count(pos: Vec3Model, scale: int, depth: nat)
    ensures
        menger_seq(pos, scale, depth).len() == menger_count(depth),
        menger_count(depth) == 20 * (pow(20, depth) - 1) / 19,
{
    lemma_menger_from_len(pos, scale, depth, 0);
    lemma_menger_count_closed(depth);
    lemma_menger_survivor_count();
    lemma_pow_pos(20, depth);
    if depth >= 1 {
        let b: int = 1 + menger_count((depth - 1) as nat) as int;
        assert(20 * b == 20 + 20 * (b - 1));
    }
    let c = menger_count(depth) as int;
    assert(c == (19 * c) / 19) by {
        vstd::arithmetic::div_mod::lemma_div_multiples_vanish(c, 19);
    }
}

proof fn lemma_menger_from_scale(pos: Vec3Model, scale: int, depth: nat, c: nat)
    ensures
        forall|i: int|
            0 <= i < menger_from(pos, scale, depth, c).len() ==> (#[trigger] menger_from(
                pos,
                scale,
                depth,
                c,
            )[i]).scale == scale,
    decreases depth, 27 - c,
{
    if depth >= 1 && c < 27 {
        lemma_menger_from_scale(pos, scale, depth, c + 1);
        if menger_skipped(cell_i(c as int), cell_j(c as int), cell_k(c as int)) {
            let s = menger_from(pos, scale, depth, c);
            assert(s == menger_from(pos, scale, depth, c + 1));
            assert forall|i: int| 0 <= i < s.len() implies (#[trigger] s[i]).scale == scale by {
                assert(s[i] == menger_from(pos, scale, depth, c + 1)[i]);
            }
        } else {
            let cp = menger_cell_pos(pos, scale, c as int);
            lemma_menger_from_scale(cp, scale, (depth - 1) as nat, 0);
            let s = menger_from(pos, scale, depth, c);
            let node = seq![TransformModel { translation: cp, scale: scale }];
            let sub = menger_from(cp, scale, (depth - 1) as nat, 0);
            let rest = menger_from(pos, scale, depth, c + 1);
            assert(s == node + sub + rest);
            assert forall|i: int| 0 <= i < s.len() implies (#[trigger] s[i]).scale == scale by {
                if i == 0 {
                } else if i < 1 + sub.len() {
                    assert(s[i] == sub[i - 1]);
                } else {
                    assert(s[i] == rest[i - (1 + sub.len())]);
                }
            }
        }
    }
}

/// Law: a Menger pass never changes the scale — every placement is emitted at
/// the seed scale, at every depth.
pub proof fn lemma_menger_scale_constant(pos: Vec3Model, scale: int, depth: nat)
    ensures
        forall|i: int|
            0 <= i < menger_seq(pos, scale, depth).len() ==> (#[trigger] menger_seq(
                pos,
                scale,
                depth,
            )[i]).scale == scale,
{
    lemma_menger_from_scale(pos, scale, depth, 0);
}

/// Positions stay representable: every coordinate of the seed keeps a margin
/// of `depth` times the scale inside the `i64` range.
pub open spec fn menger_fits(pos: Vec3Model, scale: int, depth: nat) -> bool {
    &&& i64::MIN <= pos.x - depth * scale
    &&& pos.x + depth * scale <= i64::MAX
    &&& i64::MIN <= pos.y - depth * scale
    &&& pos.y + depth * scale <= i64::MAX
    &&& i64::MIN <= pos.z - depth * scale
    &&& pos.z + depth * scale <= i64::MAX
}

#[verifier::loop_isolation(false)]
fn generate_into(position: Vec3, scale: i64, depth: u32, out: &mut Vec<Transform>)
    requires
        scale >= 1,
        menger_fits(position@, scale as int, depth as nat),
    ensures
        models(final(out)@) == models(old(out)@) + menger_seq(
            position@,
            scale as int,
            depth as nat,
        ),
    decreases depth,
{
    if depth == 0 {
        assert(models(out@) =~= models(out@) + menger_from(
            position@,
            scale as int,
            depth as nat,
            0,
        ));
        return ;
    }
    proof {
        assert(forall|e: int|
            -1 <= e <= 1 ==> -(scale as int) <= #[trigger] (e * (scale as int)) <= scale
                as int) by (nonlinear_arith)
            requires
                scale >= 1,
        ;
        assert((depth - 1) * (scale as int) + scale as int == depth * (scale as int))
            by (nonlinear_arith);
        assert(scale as int <= depth * (scale as int)) by (nonlinear_arith)
            requires
                depth >= 1,
                scale >= 1,
        ;
    }
    let ghost out0: Seq<Transform> = out@;
    let mut c: usize = 0;
    while c < 27
        invariant
            c <= 27,
            models(out@) + menger_from(position@, scale as int, depth as nat, c as nat) == models(
                out0,
            ) + menger_from(position@, scale as int, depth as nat, 0),
        decreases 27 - c,
    {
        let i = c / 9;
        let j = (c % 9) / 3;
        let k = c % 3;
        if (i == 1 && j == 1) || (i == 1 && k == 1) || (j == 1 && k == 1) {
            proof {
                assert(menger_from(position@, scale as int, depth as nat, c as nat) == menger_from(
                    position@,
                    scale as int,
                    depth as nat,
                    (c + 1) as nat,
                ));
            }
        } else {
            let ghost out_pre: Seq<Transform> = out@;
            let cp = Vec3 {
                x: position.x + (i as i64 - 1) * scale,
                y: position.y + (j as i64 - 1) * scale,
                z: position.z + (k as i64 - 1) * scale,
            };
            proof {
                assert(cp@ == menger_cell_pos(position@, scale as int, c as int));
            }
            let node = Transform { translation: cp, scale };
            out.push(node);
            proof {
                lemma_models_push(out_pre, node);
            }
            if depth > 1 {
                generate_into(cp, scale, depth - 1, out);
            }
            proof {
                let ghost total = menger_from(position@, scale as int, depth as nat, c as nat);
                let ghost sub = menger_from(cp@, scale as int, (depth - 1) as nat, 0);
                let ghost rest = menger_from(position@, scale as int, depth as nat, (c + 1) as nat);
                if depth == 1 {
                    assert(sub =~= Seq::<TransformModel>::empty());
                }
                assert(total == seq![node@] + sub + rest);
                assert(models(out@) + rest =~= models(out_pre) + total);
            }
        }
        c = c + 1;
    }
    proof {
        assert(menger_from(position@, scale as int, depth as nat, 27nat)
            =~= Seq::<TransformModel>::empty());
        assert(models(out@) + menger_from(position@, scale as int, depth as nat, 27nat)
            =~= models(out@));
    }
}

/// Hard ceiling on the recursion depth a request may ask for; each level
/// multiplies the output twentyfold, so deeper requests are rejected at the
/// boundary as a resource-budget decision. The ceiling covers the driver's
/// default depth.
pub const MENGER_MAX_DEPTH: u32 = 4;

/// The declared input domain of a Menger generation request: a positive
/// scale, a bounded depth, and a seed position whose grid stays representable.
pub open spec fn menger_request_ok(pos: Vec3Model, scale: int, depth: nat) -> bool {
    &&& scale >= 1
    &&& depth <= MENGER_MAX_DEPTH
    &&& menger_fits(pos, scale, depth)
}

/// Recursive 3x3x3 grid subtraction: 20 surviving cells per level, recursed
/// into at unchanged scale.
pub struct MengerGenerator {}

impl MengerGenerator {
    /// Emits the placements of a Menger-style pass seeded at `position` with
    /// `scale` and `depth` remaining levels; depth 0 emits nothing and is not
    /// an error.
    pub fn generate(position: Vec3, scale: i64, depth: u32) -> (out: Vec<Transform>)
        requires
            scale >= 1,
            menger_fits(position@, scale as int, depth as nat),
        ensures
            models(out@) == menger_seq(position@, scale as int, depth as nat),
            depth == 0 ==> out@.len() == 0,
    {
        let mut out: Vec<Transform> = Vec::new();
        generate_into(position, scale, depth, &mut out);
        proof {
            assert(models(out@) =~= Seq::<TransformModel>::empty() + models(out@));
            assert(menger_seq(position@, scale as int, depth as nat).len() == models(out@).len());
        }
        out
    }

    /// The validating boundary: generates exactly when the request is inside
    /// the declared input domain, and rejects it otherwise instead of
    /// clamping.
    pub fn try_generate(position: Vec3, scale: i64, depth: u32) -> (out: Option<Vec<Transform>>)
        ensures
            match out {
                Some(v) => menger_request_ok(position@, scale as int, depth as nat) && models(v@)
                    == menger_seq(position@, scale as int, depth as nat),
                None => !menger_request_ok(position@, scale as int, depth as nat),
            },
    {
        if depth > MENGER_MAX_DEPTH || scale < 1 {
            return None;
        }
        proof {
            assert(0 <= (depth as int) * (scale as int) <= 4 * (i64::MAX as int))
                by (nonlinear_arith)
                requires
                    0 <= depth <= 4,
                    1 <= scale <= i64::MAX as int,
            ;
        }
        let reach: i128 = (depth as i128) * (scale as i128);
        if (position.x as i128) - reach < (i64::MIN as i128) || (position.x as i128) + reach > (
        i64::MAX as i128) || (position.y as i128) - reach < (i64::MIN as i128) || (
        position.y as i128) + reach > (i64::MAX as i128) || (position.z as i128) - reach < (
        i64::MIN as i128) || (position.z as i128) + reach > (i64::MAX as i128) {
            return None;
        }
        Some(Self::generate(position, scale, depth))
    }
}

} // verus!
