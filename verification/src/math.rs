//! Exact vectors, placements, and the arithmetic facts the generators share.

use vstd::prelude::*;

verus! {

/// Mathematical value of a [`Vec3`]: one unbounded integer per axis.
pub struct Vec3Model {
    pub x: int,
    pub y: int,
    pub z: int,
}

/// A 3-component vector with exact integer coordinates.
///
/// Each component is an integer coefficient of a fixed per-axis unit length;
/// which unit a coordinate is measured in is documented wherever a `Vec3` is
/// produced. Positions and non-uniform offsets are both carried this way.
#[derive(Clone, Copy, PartialEq, Eq, Structural, Debug)]
pub struct Vec3 {
    pub x: i64,
    pub y: i64,
    pub z: i64,
}

impl View for Vec3 {
    type V = Vec3Model;

    open spec fn view(&self) -> Vec3Model {
        Vec3Model { x: self.x as int, y: self.y as int, z: self.z as int }
    }
}

impl Vec3 {
    pub fn new(x: i64, y: i64, z: i64) -> (v: Vec3)
        ensures
            v@ == (Vec3Model { x: x as int, y: y as int, z: z as int }),
    {
        Vec3 { x, y, z }
    }

    pub fn zero() -> (v: Vec3)
        ensures
            v@ == (Vec3Model { x: 0, y: 0, z: 0 }),
    {
        Vec3 { x: 0, y: 0, z: 0 }
    }
}

/// Mathematical value of a [`Transform`].
pub struct TransformModel {
    pub translation: Vec3Model,
    pub scale: int,
}

/// One instance placement emitted by a generator: where a copy of the base
/// mesh goes and the uniform scale it is drawn at. Immutable once produced.
#[derive(Clone, Copy, PartialEq, Eq, Structural, Debug)]
pub struct Transform {
    pub translation: Vec3,
    pub scale: i64,
}

impl View for Transform {
    type V = TransformModel;

    open spec fn view(&self) -> TransformModel {
        TransformModel { translation: self.translation@, scale: self.scale as int }
    }
}

/// The sequence of mathematical values behind a sequence of placements.
pub open spec fn models(s: Seq<Transform>) -> Seq<TransformModel> {
    s.map_values(|t: Transform| t@)
}

pub proof fn lemma_models_push(s: Seq<Transform>, t: Transform)
    ensures
        models(s.push(t)) =~= models(s).push(t@),
{
}

/// `base^n` over the naturals.
pub open spec fn pow(base: nat, n: nat) -> nat
    decreases n,
{
    if n == 0 {
        1
    } else {
        base * pow(base, (n - 1) as nat)
    }
}

pub proof fn lemma_pow_pos(base: nat, n: nat)
    requires
        base >= 1,
    ensures
        pow(base, n) >= 1,
    decreases n,
{
    if n > 0 {
        lemma_pow_pos(base, (n - 1) as nat);
        assert(base * pow(base, (n - 1) as nat) >= 1) by (nonlinear_arith)
            requires
                base >= 1,
                pow(base, (n - 1) as nat) >= 1,
        ;
    }
}

pub proof fn lemma_pow_mono(base: nat, a: nat, b: nat)
    requires
        base >= 1,
        a <= b,
    ensures
        pow(base, a) <= pow(base, b),
    decreases b,
{
    if a < b {
        lemma_pow_mono(base, a, (b - 1) as nat);
        lemma_pow_pos(base, (b - 1) as nat);
        assert(pow(base, (b - 1) as nat) <= base * pow(base, (b - 1) as nat)) by (nonlinear_arith)
            requires
                base >= 1,
                pow(base, (b - 1) as nat) >= 1,
        ;
    }
}

/// `2^depth` as a machine integer, for exponents the result type can hold.
pub fn pow2_i64(depth: u32) -> (p: i64)
    requires
        pow(2, depth as nat) <= i64::MAX as int,
    ensures
        p as int == pow(2, depth as nat) as int,
        p >= 1,
{
    let mut p: i64 = 1;
    let mut d: u32 = 0;
    while d < depth
        invariant
            d <= depth,
            p as int == pow(2, d as nat) as int,
            p >= 1,
            pow(2, depth as nat) <= i64::MAX as int,
        decreases depth - d,
    {
        proof {
            lemma_pow_mono(2, (d + 1) as nat, depth as nat);
            assert(pow(2, (d + 1) as nat) == 2 * pow(2, d as nat));
        }
        p = 2 * p;
        d = d + 1;
    }
    p
}

/// A positive value divisible by `2^(d+1)` is even, stays positive when
/// halved, and its half is divisible by `2^d`.
pub proof fn lemma_halve_pow2_divisor(scale: int, depth: nat)
    requires
        depth >= 1,
        scale >= 1,
        scale % (pow(2, depth) as int) == 0,
    ensures
        scale % 2 == 0,
        scale / 2 >= 1,
        (scale / 2) % (pow(2, (depth - 1) as nat) as int) == 0,
        2 * (scale / 2) == scale,
{
    let p = pow(2, (depth - 1) as nat) as int;
    lemma_pow_pos(2, (depth - 1) as nat);
    assert(pow(2, depth) == 2 * pow(2, (depth - 1) as nat));
    let m = 2 * p;
    vstd::arithmetic::div_mod::lemma_fundamental_div_mod(scale, m);
    let k = scale / m;
    assert(scale == m * k);
    assert(scale == 2 * (p * k)) by (nonlinear_arith)
        requires
            scale == m * k,
            m == 2 * p,
    ;
    assert(scale % 2 == 0) by {
        vstd::arithmetic::div_mod::lemma_mod_multiples_basic(p * k, 2);
    }
    assert(scale / 2 == p * k) by {
        vstd::arithmetic::div_mod::lemma_div_multiples_vanish(p * k, 2);
    }
    assert((p * k) % p == 0) by {
        vstd::arithmetic::div_mod::lemma_mod_multiples_basic(k, p);
    }
    assert(p * k == k * p) by (nonlinear_arith);
    assert(p * k >= 1) by (nonlinear_arith)
        requires
            2 * (p * k) == scale,
            scale >= 1,
            p >= 1,
    ;
}

} // verus!
