//! Recursive corner subdivision of a tetrahedron.
//!
//! Each pass halves the scale and places one child toward each of four fixed
//! corner directions, then recurses into every child (pre-order: a child's
//! placement comes before its subtree, siblings in offset order).
//!
//! Coordinates use one exact integer unit per axis: `x` counts world units,
//! `y` counts units of sqrt(2), and `z` counts units of 1/sqrt(2). In those
//! units the four canonical corner offsets are integer vectors, so every
//! position the recursion produces is exact.

use crate::math::{
    lemma_halve_pow2_divisor, lemma_models_push, lemma_pow_mono, lemma_pow_pos, models, pow,
    pow2_i64, Transform, TransformModel, Vec3, Vec3Model,
};
use vstd::prelude::*;

verus! {

/// The four canonical corner directions, in their fixed order: front right,
/// front left, back middle, top.
pub open spec fn sierpinski_offset_model(n: int) -> Vec3Model {
    if n == 0 {
        Vec3Model { x: 1, y: 0, z: -1 }
    } else if n == 1 {
        Vec3Model { x: -1, y: 0, z: -1 }
    } else if n == 2 {
        Vec3Model { x: 0, y: 0, z: 1 }
    } else {
        Vec3Model { x: 0, y: 1, z: 0 }
    }
}

/// Where the `n`-th child of a node at `pos` with scale `scale` is placed:
/// `pos + offset * new_scale * 2` with `new_scale == scale / 2`.
pub open spec fn sier_child_pos(pos: Vec3Model, scale: int, n: int) -> Vec3Model {
    let step = 2 * (scale / 2);
    let off = sierpinski_offset_model(n);
    Vec3Model { x: pos.x + off.x * step, y: pos.y + off.y * step, z: pos.z + off.z * step }
}

/// The placements emitted from offset `n` onward at one node, children before
/// their own subtrees.
pub open spec fn sierpinski_from(pos: Vec3Model, scale: int, depth: nat, n: nat) -> Seq<
    TransformModel,
>
    decreases depth, 4 - n,
{
    if depth == 0 || n >= 4 {
        Seq::empty()
    } else {
        let ns = scale / 2;
        let cp = sier_child_pos(pos, scale, n as int);
        seq![TransformModel { translation: cp, scale: ns }]
            + sierpinski_from(cp, ns, (depth - 1) as nat, 0)
            + sierpinski_from(pos, scale, depth, n + 1)
    }
}

/// Every placement of a Sierpinski tetrahedron seeded at `pos` with scale
/// `scale` and `depth` remaining subdivision levels.
pub open spec fn sierpinski_seq(pos: Vec3Model, scale: int, depth: nat) -> Seq<TransformModel> {
    sierpinski_from(pos, scale, depth, 0)
}

/// Total number of placements per depth: `N(0) = 0`, `N(d) = 4 + 4*N(d-1)`.
pub open spec fn sierpinski_count(depth: nat) -> nat
    decreases depth,
{
    if depth == 0 {
        0
    } else {
        4 + 4 * sierpinski_count((depth - 1) as nat)
    }
}

proof fn lemma_sierpinski_from_len(pos: Vec3Model, scale: int, depth: nat, n: nat)
    requires
        n <= 4,
    ensures
        depth == 0 ==> sierpinski_from(pos, scale, depth, n).len() == 0,
        depth >= 1 ==> sierpinski_from(pos, scale, depth, n).len() == (4 - n) * (1
            + sierpinski_count((depth - 1) as nat)),
    decreases depth, 4 - n,
{
    if depth >= 1 && n < 4 {
        let ns = scale / 2;
        let cp = sier_child_pos(pos, scale, n as int);
        lemma_sierpinski_from_len(cp, ns, (depth - 1) as nat, 0);
        lemma_sierpinski_from_len(pos, scale, depth, n + 1);
        let b: int = 1 + sierpinski_count((depth - 1) as nat) as int;
        assert(sierpinski_from(pos, scale, depth, n) == seq![
            TransformModel { translation: cp, scale: ns },
        ] + sierpinski_from(cp, ns, (depth - 1) as nat, 0) + sierpinski_from(
            pos,
            scale,
            depth,
            n + 1,
        ));
        assert(sierpinski_from(cp, ns, (depth - 1) as nat, 0).len() == sierpinski_count(
            (depth - 1) as nat,
        ));
        assert(sierpinski_from(pos, scale, depth, n + 1).len() == (3 - n) * b);
        assert((4 - n) * b == 1 + (b - 1) + (3 - n) * b) by (nonlinear_arith);
    } else if depth >= 1 {
        let b: int = 1 + sierpinski_count((depth - 1) as nat) as int;
        assert(sierpinski_from(pos, scale, depth, n).len() == 0);
        assert((4 - n) * b == 0) by (nonlinear_arith)
            requires
                n == 4,
        ;
    }
}

proof fn lemma_sierpinski_count_closed(depth: nat)
    ensures
        3 * sierpinski_count(depth) == 4 * (pow(4, depth) - 1),
    decreases depth,
{
    if depth >= 1 {
        lemma_sierpinski_count_closed((depth - 1) as nat);
        lemma_pow_pos(4, (depth - 1) as nat);
        assert(pow(4, depth) == 4 * pow(4, (depth - 1) as nat));
    }
}

/// Law: a pass with `depth` remaining levels emits exactly
/// `4 * (4^depth - 1) / 3` placements, whatever the seed position and scale.
pub proof fn lemma_sierpinski_node_count(pos: Vec3Model, scale: int, depth: nat)
    ensures
        sierpinski_seq(pos, scale, depth).len() == sierpinski_count(depth),
        sierpinski_count(depth) == 4 * (pow(4, depth) - 1) / 3,
{
    lemma_sierpinski_from_len(pos, scale, depth, 0);
    lemma_sierpinski_count_closed(depth);
    lemma_pow_pos(4, depth);
    let c = sierpinski_count(depth) as int;
    assert(c == (3 * c) / 3) by {
        vstd::arithmetic::div_mod::lemma_div_multiples_vanish(c, 3);
    }
}

/// The scale of one emitted placement is the seed scale divided by `2^d` for
/// some relative depth `d` between 1 and `depth`.
pub open spec fn halved_scale(child: int, scale: int, depth: nat) -> bool {
    exists|d: nat| 1 <= d <= depth && child * (#[trigger] pow(2, d) as int) == scale
}

proof fn lemma_sierpinski_from_scales(pos: Vec3Model, scale: int, depth: nat, n: nat)
    requires
        scale >= 1,
        scale % (pow(2, depth) as int) == 0,
    ensures
        forall|i: int|
            0 <= i < sierpinski_from(pos, scale, depth, n).len() ==> halved_scale(
                #[trigger] sierpinski_from(pos, scale, depth, n)[i].scale,
                scale,
                depth,
            ),
    decreases depth, 4 - n,
{
    if depth >= 1 && n < 4 {
        let ns = scale / 2;
        let cp = sier_child_pos(pos, scale, n as int);
        lemma_halve_pow2_divisor(scale, depth);
        lemma_sierpinski_from_scales(cp, ns, (depth - 1) as nat, 0);
        lemma_sierpinski_from_scales(pos, scale, depth, n + 1);
        let s = sierpinski_from(pos, scale, depth, n);
        let node = seq![TransformModel { translation: cp, scale: ns }];
        let sub = sierpinski_from(cp, ns, (depth - 1) as nat, 0);
        let rest = sierpinski_from(pos, scale, depth, n + 1);
        assert(s == node + sub + rest);
        assert(pow(2, 1) == 2) by {
            reveal_with_fuel(pow, 2);
        }
        assert forall|i: int| 0 <= i < s.len() implies halved_scale(
            s[i].scale,
            scale,
            depth,
        ) by {
            if i == 0 {
                assert(s[i].scale == ns);
                assert(ns * (pow(2, 1) as int) == scale);
            } else if i < 1 + sub.len() {
                assert(s[i] == sub[i - 1]);
                assert(halved_scale(sub[i - 1].scale, ns, (depth - 1) as nat));
                let e = sub[i - 1].scale;
                let d = choose|d: nat|
                    1 <= d <= (depth - 1) as nat && e * (#[trigger] pow(2, d) as int) == ns;
                assert(pow(2, (d + 1) as nat) == 2 * pow(2, d));
                assert(e * (pow(2, (d + 1) as nat) as int) == scale) by (nonlinear_arith)
                    requires
                        e * (pow(2, d) as int) == ns,
                        pow(2, (d + 1) as nat) == 2 * pow(2, d),
                        2 * ns == scale,
                ;
                assert(1 <= d + 1 <= depth);
            } else {
                assert(s[i] == rest[i - (1 + sub.len())]);
            }
        }
    }
}

/// Law: every placement of a Sierpinski pass is emitted at `scale / 2^d` for
/// some relative depth `1 <= d <= depth`; in particular each child's scale is
/// half its parent's.
pub proof fn lemma_sierpinski_scales(pos: Vec3Model, scale: int, depth: nat)
    requires
        scale >= 1,
        scale % (pow(2, depth) as int) == 0,
    ensures
        forall|i: int|
            0 <= i < sierpinski_seq(pos, scale, depth).len() ==> halved_scale(
                #[trigger] sierpinski_seq(pos, scale, depth)[i].scale,
                scale,
                depth,
            ),
{
    lemma_sierpinski_from_scales(pos, scale, depth, 0);
}

/// Positions stay representable: every coordinate of the seed keeps a margin
/// of twice the seed scale inside the `i64` range.
pub open spec fn sier_fits(pos: Vec3Model, scale: int) -> bool {
    &&& i64::MIN <= pos.x - 2 * scale
    &&& pos.x + 2 * scale <= i64::MAX
    &&& i64::MIN <= pos.y - 2 * scale
    &&& pos.y + 2 * scale <= i64::MAX
    &&& i64::MIN <= pos.z - 2 * scale
    &&& pos.z + 2 * scale <= i64::MAX
}

fn sierpinski_offset(n: usize) -> (v: Vec3)
    requires
        n < 4,
    ensures
        v@ == sierpinski_offset_model(n as int),
        -1 <= v@.x <= 1,
        -1 <= v@.y <= 1,
        -1 <= v@.z <= 1,
{
    if n == 0 {
        Vec3 { x: 1, y: 0, z: -1 }
    } else if n == 1 {
        Vec3 { x: -1, y: 0, z: -1 }
    } else if n == 2 {
        Vec3 { x: 0, y: 0, z: 1 }
    } else {
        Vec3 { x: 0, y: 1, z: 0 }
    }
}

#[verifier::loop_isolation(false)]
fn generate_into(position: Vec3, scale: i64, depth: u32, out: &mut Vec<Transform>)
    requires
        scale >= 1,
        (scale as int) % (pow(2, depth as nat) as int) == 0,
        sier_fits(position@, scale as int),
    ensures
        models(final(out)@) == models(old(out)@) + sierpinski_seq(
            position@,
            scale as int,
            depth as nat,
        ),
    decreases depth,
{
    if depth == 0 {
        assert(models(out@) =~= models(out@) + sierpinski_from(
            position@,
            scale as int,
            depth as nat,
            0,
        ));
        return ;
    }
    proof {
        lemma_halve_pow2_divisor(scale as int, depth as nat);
    }
    let new_scale = scale / 2;
    let ghost out0: Seq<Transform> = out@;
    let mut n: usize = 0;
    while n < 4
        invariant
            n <= 4,
            models(out@) + sierpinski_from(position@, scale as int, depth as nat, n as nat)
                == models(out0) + sierpinski_from(position@, scale as int, depth as nat, 0),
        decreases 4 - n,
    {
        let ghost out_pre: Seq<Transform> = out@;
        let off = sierpinski_offset(n);
        let step = 2 * new_scale;
        proof {
            assert(step as int == scale as int);
            assert(forall|c: int|
                -1 <= c <= 1 ==> -(scale as int) <= #[trigger] (c * (scale as int)) <= scale
                    as int) by (nonlinear_arith)
                requires
                    scale >= 1,
            ;
        }
        let cp = Vec3 {
            x: position.x + off.x * step,
            y: position.y + off.y * step,
            z: position.z + off.z * step,
        };
        proof {
            assert(cp@ == sier_child_pos(position@, scale as int, n as int));
        }
        let node = Transform { translation: cp, scale: new_scale };
        out.push(node);
        proof {
            lemma_models_push(out_pre, node);
        }
        generate_into(cp, new_scale, depth - 1, out);
        proof {
            let ghost total = sierpinski_from(position@, scale as int, depth as nat, n as nat);
            let ghost sub = sierpinski_from(cp@, new_scale as int, (depth - 1) as nat, 0);
            let ghost rest = sierpinski_from(position@, scale as int, depth as nat, (n + 1) as nat);
            assert(total == seq![node@] + sub + rest);
            assert(models(out@) == models(out_pre).push(node@) + sub);
            assert(models(out@) + rest =~= models(out_pre) + total);
        }
        n = n + 1;
    }
    proof {
        assert(sierpinski_from(position@, scale as int, depth as nat, 4nat)
            =~= Seq::<TransformModel>::empty());
        assert(models(out@) + sierpinski_from(position@, scale as int, depth as nat, 4nat)
            =~= models(out@));
    }
}

/// Hard ceiling on the subdivision depth a request may ask for; deeper
/// recursion blows up combinatorially and is a caller resource-budget
/// decision, so requests beyond it are rejected at the boundary.
pub const SIERPINSKI_MAX_DEPTH: u32 = 6;

/// The declared input domain of a Sierpinski generation request: a positive
/// scale that every halving keeps exact, a bounded depth, and a seed position
/// whose subtree stays representable.
pub open spec fn sier_request_ok(pos: Vec3Model, scale: int, depth: nat) -> bool {
    &&& scale >= 1
    &&& depth <= SIERPINSKI_MAX_DEPTH
    &&& scale % (pow(2, depth) as int) == 0
    &&& sier_fits(pos, scale)
}

/// Recursive corner subdivision of a tetrahedron into four half-scale copies
/// per level.
pub struct SierpinskiGenerator {}

impl SierpinskiGenerator {
    /// Emits the placements of a Sierpinski tetrahedron seeded at `position`
    /// with `scale`, subdividing `depth` times; depth 0 emits nothing and is
    /// not an error. `scale` must be divisible by `2^depth` so that every
    /// halving stays exact in integer coordinates.
    pub fn generate(position: Vec3, scale: i64, depth: u32) -> (out: Vec<Transform>)
        requires
            scale >= 1,
            (scale as int) % (pow(2, depth as nat) as int) == 0,
            sier_fits(position@, scale as int),
        ensures
            models(out@) == sierpinski_seq(position@, scale as int, depth as nat),
            depth == 0 ==> out@.len() == 0,
    {
        let mut out: Vec<Transform> = Vec::new();
        generate_into(position, scale, depth, &mut out);
        proof {
            assert(models(out@) =~= Seq::<TransformModel>::empty() + models(out@));
            assert(sierpinski_seq(position@, scale as int, depth as nat).len() == models(
                out@,
            ).len());
        }
        out
    }

    /// The validating boundary: generates exactly when the request is inside
    /// the declared input domain, and rejects it otherwise instead of
    /// clamping.
    pub fn try_generate(position: Vec3, scale: i64, depth: u32) -> (out: Option<Vec<Transform>>)
        ensures
            match out {
                Some(v) => sier_request_ok(position@, scale as int, depth as nat) && models(v@)
                    == sierpinski_seq(position@, scale as int, depth as nat),
                None => !sier_request_ok(position@, scale as int, depth as nat),
            },
    {
        if depth > SIERPINSKI_MAX_DEPTH || scale < 1 {
            return None;
        }
        proof {
            assert(pow(2, 6) == 64) by {
                reveal_with_fuel(pow, 7);
            }
            lemma_pow_mono(2, depth as nat, 6);
        }
        let p = pow2_i64(depth);
        if scale % p != 0 {
            return None;
        }
        let two_scale: i128 = 2 * (scale as i128);
        if (position.x as i128) - two_scale < (i64::MIN as i128) || (position.x as i128)
            + two_scale > (i64::MAX as i128) || (position.y as i128) - two_scale < (
        i64::MIN as i128) || (position.y as i128) + two_scale > (i64::MAX as i128) || (
        position.z as i128) - two_scale < (i64::MIN as i128) || (position.z as i128) + two_scale > (
        i64::MAX as i128) {
            return None;
        }
        Some(Self::generate(position, scale, depth))
    }
}

} // verus!
