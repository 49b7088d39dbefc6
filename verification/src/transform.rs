//! Fixed-point affine transforms for the scene graph.
//!
//! A scalar is an `i64` holding a real value scaled by [`FP_ONE`]; a
//! [`Transform`] is an affine map of 3-space: a 3x3 linear block (the
//! rotation part) together with a translation column. Every operation is
//! specified exactly over unbounded integers: the model of each entry of a
//! product is a dot product followed by a floor division by [`FP_ONE`], so
//! the algebraic laws of the engine (identity, composition with the
//! identity, pivot behaviour) hold exactly, not merely approximately.

use vstd::prelude::*;
use vstd::arithmetic::div_mod::{
    lemma_div_is_ordered, lemma_div_multiples_vanish, lemma_fundamental_div_mod,
    lemma_fundamental_div_mod_converse, lemma_hoist_over_denominator,
};

verus! {

/// The fixed-point scale: the representation of the real number one.
pub const FP_ONE: i64 = 65536;

/// Bound on the components of positions and reference points handed to the
/// engine, so that building a node's local transform can never overflow.
pub const COORD_LIMIT: i64 = 1099511627776;

/// Bound on the entries of a well-formed transform, chosen so that one
/// composition step always fits in 128-bit intermediates.
pub const ENTRY_LIMIT: i64 = 4611686018427387904;

/// Floor division of a raw (already multiplied) fixed-point value by the
/// scale; this is the rounding step of every fixed-point product.
pub open spec fn fdiv(a: int) -> int {
    a / 65536
}

/// The model of one entry of a fixed-point matrix product.
pub open spec fn dot3(a0: int, a1: int, a2: int, b0: int, b1: int, b2: int) -> int {
    fdiv(a0 * b0 + a1 * b1 + a2 * b2)
}

/// Mathematical model of a 3-vector of fixed-point scalars.
pub ghost struct Vec3Model {
    pub x: int,
    pub y: int,
    pub z: int,
}

/// Mathematical model of one Euler angle, carried as the fixed-point sine
/// and cosine of the angle (the only exactly representable form).
pub ghost struct AngleModel {
    pub sin: int,
    pub cos: int,
}

/// Mathematical model of a node's Euler rotation, applied in z, then y,
/// then x order.
pub ghost struct RotationModel {
    pub x: AngleModel,
    pub y: AngleModel,
    pub z: AngleModel,
}

/// Mathematical model of an affine transform: linear block `m` (row i,
/// column j) and translation column `t`.
pub ghost struct TransformModel {
    pub m00: int,
    pub m01: int,
    pub m02: int,
    pub m10: int,
    pub m11: int,
    pub m12: int,
    pub m20: int,
    pub m21: int,
    pub m22: int,
    pub tx: int,
    pub ty: int,
    pub tz: int,
}

/// A 3-vector of fixed-point scalars.
#[derive(Clone, Copy, PartialEq, Eq, Structural, Debug)]
pub struct Vec3 {
    pub x: i64,
    pub y: i64,
    pub z: i64,
}

impl View for Vec3 {
    type V = Vec3Model;

    open spec fn view(&self) -> Vec3Model {
        Vec3Model { x: self.x as int, y: self.y as int, z: self.z as int }
    }
}

/// One Euler angle, as its fixed-point sine and cosine.
#[derive(Clone, Copy, PartialEq, Eq, Structural, Debug)]
pub struct Angle {
    pub sin: i64,
    pub cos: i64,
}

impl View for Angle {
    type V = AngleModel;

    open spec fn view(&self) -> AngleModel {
        AngleModel { sin: self.sin as int, cos: self.cos as int }
    }
}

/// A node's Euler rotation: one angle per axis, applied in z, y, x order.
#[derive(Clone, Copy, PartialEq, Eq, Structural, Debug)]
pub struct Rotation {
    pub x: Angle,
    pub y: Angle,
    pub z: Angle,
}

impl View for Rotation {
    type V = RotationModel;

    open spec fn view(&self) -> RotationModel {
        RotationModel { x: self.x@, y: self.y@, z: self.z@ }
    }
}

/// An affine transform of 3-space in fixed point: linear block `m` (row i,
/// column j) and translation column `t`.
#[derive(Clone, Copy, PartialEq, Eq, Structural, Debug)]
pub struct Transform {
    pub m00: i64,
    pub m01: i64,
    pub m02: i64,
    pub m10: i64,
    pub m11: i64,
    pub m12: i64,
    pub m20: i64,
    pub m21: i64,
    pub m22: i64,
    pub tx: i64,
    pub ty: i64,
    pub tz: i64,
}

impl View for Transform {
    type V = TransformModel;

    open spec fn view(&self) -> TransformModel {
        TransformModel {
            m00: self.m00 as int,
            m01: self.m01 as int,
            m02: self.m02 as int,
            m10: self.m10 as int,
            m11: self.m11 as int,
            m12: self.m12 as int,
            m20: self.m20 as int,
            m21: self.m21 as int,
            m22: self.m22 as int,
            tx: self.tx as int,
            ty: self.ty as int,
            tz: self.tz as int,
        }
    }
}

/// An angle is well formed when its sine and cosine lie within one
/// fixed-point unit, as true sines and cosines do.
pub open spec fn angle_wf(a: AngleModel) -> bool {
    &&& -(FP_ONE as int) <= a.sin <= FP_ONE as int
    &&& -(FP_ONE as int) <= a.cos <= FP_ONE as int
}

pub open spec fn rotation_wf(r: RotationModel) -> bool {
    angle_wf(r.x) && angle_wf(r.y) && angle_wf(r.z)
}

/// A vector lies within the coordinate range the engine accepts.
pub open spec fn vec3_in_range(v: Vec3Model) -> bool {
    &&& -(COORD_LIMIT as int) <= v.x <= COORD_LIMIT as int
    &&& -(COORD_LIMIT as int) <= v.y <= COORD_LIMIT as int
    &&& -(COORD_LIMIT as int) <= v.z <= COORD_LIMIT as int
}

/// All entries of the transform lie within [`ENTRY_LIMIT`], so the
/// transform can safely enter one more composition.
pub open spec fn transform_wf(t: TransformModel) -> bool {
    &&& -(ENTRY_LIMIT as int) <= t.m00 <= ENTRY_LIMIT as int
    &&& -(ENTRY_LIMIT as int) <= t.m01 <= ENTRY_LIMIT as int
    &&& -(ENTRY_LIMIT as int) <= t.m02 <= ENTRY_LIMIT as int
    &&& -(ENTRY_LIMIT as int) <= t.m10 <= ENTRY_LIMIT as int
    &&& -(ENTRY_LIMIT as int) <= t.m11 <= ENTRY_LIMIT as int
    &&& -(ENTRY_LIMIT as int) <= t.m12 <= ENTRY_LIMIT as int
    &&& -(ENTRY_LIMIT as int) <= t.m20 <= ENTRY_LIMIT as int
    &&& -(ENTRY_LIMIT as int) <= t.m21 <= ENTRY_LIMIT as int
    &&& -(ENTRY_LIMIT as int) <= t.m22 <= ENTRY_LIMIT as int
    &&& -(ENTRY_LIMIT as int) <= t.tx <= ENTRY_LIMIT as int
    &&& -(ENTRY_LIMIT as int) <= t.ty <= ENTRY_LIMIT as int
    &&& -(ENTRY_LIMIT as int) <= t.tz <= ENTRY_LIMIT as int
}

/// The zero vector.
pub open spec fn zero_vec3_model() -> Vec3Model {
    Vec3Model { x: 0, y: 0, z: 0 }
}

/// The angle zero: sine 0, cosine 1.
pub open spec fn zero_angle_model() -> AngleModel {
    AngleModel { sin: 0, cos: 65536 }
}

/// No rotation about any axis.
pub open spec fn zero_rotation_model() -> RotationModel {
    RotationModel { x: zero_angle_model(), y: zero_angle_model(), z: zero_angle_model() }
}

/// Componentwise vector sum.
pub open spec fn vec3_add_model(a: Vec3Model, b: Vec3Model) -> Vec3Model {
    Vec3Model { x: a.x + b.x, y: a.y + b.y, z: a.z + b.z }
}

/// The identity transform.
pub open spec fn identity_model() -> TransformModel {
    TransformModel {
        m00: 65536,
        m01: 0,
        m02: 0,
        m10: 0,
        m11: 65536,
        m12: 0,
        m20: 0,
        m21: 0,
        m22: 65536,
        tx: 0,
        ty: 0,
        tz: 0,
    }
}

/// A pure translation by `v`.
pub open spec fn translation_model(v: Vec3Model) -> TransformModel {
    TransformModel {
        m00: 65536,
        m01: 0,
        m02: 0,
        m10: 0,
        m11: 65536,
        m12: 0,
        m20: 0,
        m21: 0,
        m22: 65536,
        tx: v.x,
        ty: v.y,
        tz: v.z,
    }
}

/// Rotation about the x axis.
pub open spec fn rot_x_model(a: AngleModel) -> TransformModel {
    TransformModel {
        m00: 65536,
        m01: 0,
        m02: 0,
        m10: 0,
        m11: a.cos,
        m12: -a.sin,
        m20: 0,
        m21: a.sin,
        m22: a.cos,
        tx: 0,
        ty: 0,
        tz: 0,
    }
}

/// Rotation about the y axis.
pub open spec fn rot_y_model(a: AngleModel) -> TransformModel {
    TransformModel {
        m00: a.cos,
        m01: 0,
        m02: a.sin,
        m10: 0,
        m11: 65536,
        m12: 0,
        m20: -a.sin,
        m21: 0,
        m22: a.cos,
        tx: 0,
        ty: 0,
        tz: 0,
    }
}

/// Rotation about the z axis.
pub open spec fn rot_z_model(a: AngleModel) -> TransformModel {
    TransformModel {
        m00: a.cos,
        m01: -a.sin,
        m02: 0,
        m10: a.sin,
        m11: a.cos,
        m12: 0,
        m20: 0,
        m21: 0,
        m22: 65536,
        tx: 0,
        ty: 0,
        tz: 0,
    }
}

/// Fixed-point composition `a` after `b`: the matrix product of the linear
/// blocks, and `a` applied to `b`'s translation. Each entry rounds once,
/// by a floor division by the scale.
pub open spec fn compose_model(a: TransformModel, b: TransformModel) -> TransformModel {
    TransformModel {
        m00: dot3(a.m00, a.m01, a.m02, b.m00, b.m10, b.m20),
        m01: dot3(a.m00, a.m01, a.m02, b.m01, b.m11, b.m21),
        m02: dot3(a.m00, a.m01, a.m02, b.m02, b.m12, b.m22),
        m10: dot3(a.m10, a.m11, a.m12, b.m00, b.m10, b.m20),
        m11: dot3(a.m10, a.m11, a.m12, b.m01, b.m11, b.m21),
        m12: dot3(a.m10, a.m11, a.m12, b.m02, b.m12, b.m22),
        m20: dot3(a.m20, a.m21, a.m22, b.m00, b.m10, b.m20),
        m21: dot3(a.m20, a.m21, a.m22, b.m01, b.m11, b.m21),
        m22: dot3(a.m20, a.m21, a.m22, b.m02, b.m12, b.m22),
        tx: dot3(a.m00, a.m01, a.m02, b.tx, b.ty, b.tz) + a.tx,
        ty: dot3(a.m10, a.m11, a.m12, b.tx, b.ty, b.tz) + a.ty,
        tz: dot3(a.m20, a.m21, a.m22, b.tx, b.ty, b.tz) + a.tz,
    }
}

/// The composition of two well-formed transforms fits when every entry of
/// its model lies within [`ENTRY_LIMIT`] again.
pub open spec fn compose_fits(a: TransformModel, b: TransformModel) -> bool {
    transform_wf(compose_model(a, b))
}

impl Vec3 {
    pub fn new(x: i64, y: i64, z: i64) -> (r: Vec3)
        ensures
            r@ == (Vec3Model { x: x as int, y: y as int, z: z as int }),
    {
        Vec3 { x, y, z }
    }

    pub fn zero() -> (r: Vec3)
        ensures
            r@ == zero_vec3_model(),
    {
        Vec3 { x: 0, y: 0, z: 0 }
    }
}

impl Angle {
    /// The angle zero: sine 0, cosine 1.
    pub fn zero() -> (r: Angle)
        ensures
            r@ == zero_angle_model(),
            angle_wf(r@),
    {
        Angle { sin: 0, cos: FP_ONE }
    }

    pub fn new(sin: i64, cos: i64) -> (r: Angle)
        requires
            -FP_ONE <= sin <= FP_ONE,
            -FP_ONE <= cos <= FP_ONE,
        ensures
            r@ == (AngleModel { sin: sin as int, cos: cos as int }),
            angle_wf(r@),
    {
        Angle { sin, cos }
    }
}

impl Rotation {
    /// No rotation about any axis.
    pub fn zero() -> (r: Rotation)
        ensures
            r@ == zero_rotation_model(),
            rotation_wf(r@),
    {
        Rotation { x: Angle::zero(), y: Angle::zero(), z: Angle::zero() }
    }

    pub fn new(x: Angle, y: Angle, z: Angle) -> (r: Rotation)
        requires
            angle_wf(x@),
            angle_wf(y@),
            angle_wf(z@),
        ensures
            r@ == (RotationModel { x: x@, y: y@, z: z@ }),
            rotation_wf(r@),
    {
        Rotation { x, y, z }
    }
}

/// Floor division of a raw product by the scale, computed through unsigned
/// division so the result matches the Euclidean quotient of the model.
fn floor_div_scale(n: i128) -> (q: i128)
    requires
        -0x40000000000000000000000000000000 <= n <= 0x40000000000000000000000000000000,
    ensures
        q == fdiv(n as int),
{
    if n >= 0 {
        let un: u128 = n as u128;
        let uq: u128 = un / 65536u128;
        proof {
            assert(un as int == n as int);
            assert(uq as int == n as int / 65536int);
        }
        uq as i128
    } else {
        let m: u128 = (-n) as u128;
        let uq: u128 = (m + 65535u128) / 65536u128;
        proof {
            lemma_neg_div_ceil(m as int, 65536int);
        }
        -(uq as i128)
    }
}

/// For a positive numerator, Euclidean division of its negation is the
/// negated ceiling: `(-m) / s == -((m + s - 1) / s)`.
proof fn lemma_neg_div_ceil(m: int, s: int)
    requires
        0 < m,
        0 < s,
    ensures
        (-m) / s == -((m + s - 1) / s),
{
    let q = (m + s - 1) / s;
    let r = (m + s - 1) % s;
    lemma_fundamental_div_mod(m + s - 1, s);
    assert(m + s - 1 == s * q + r);
    assert(s * (-q) == -(s * q)) by (nonlinear_arith);
    assert((-q) * s == s * (-q)) by (nonlinear_arith);
    assert(-m == (-q) * s + (s - 1 - r));
    lemma_fundamental_div_mod_converse(-m, s, -q, s - 1 - r);
}

/// A product of values bounded by `l` is bounded by `l * l`.
proof fn lemma_mul_bound(a: int, b: int, l: int)
    requires
        0 <= l,
        -l <= a <= l,
        -l <= b <= l,
    ensures
        -(l * l) <= a * b <= l * l,
{
    assert(-(l * l) <= a * b <= l * l) by (nonlinear_arith)
        requires 0 <= l, -l <= a <= l, -l <= b <= l;
}

/// Floor division by the scale is monotone, so a bound on the numerator
/// that is a multiple of the scale carries over to the quotient.
proof fn lemma_fdiv_bound(a: int, k: int)
    requires
        0 <= k,
        -(65536 * k) <= a <= 65536 * k,
    ensures
        -k <= fdiv(a) <= k,
{
    lemma_div_is_ordered(a, 65536 * k, 65536);
    lemma_div_is_ordered(-(65536 * k), a, 65536);
    lemma_div_multiples_vanish(k, 65536);
    lemma_div_multiples_vanish(-k, 65536);
    assert(65536 * (-k) == -(65536 * k));
}

/// One entry of a fixed-point matrix product: three 64-bit factors each,
/// multiplied and summed in 128 bits, then floor-divided by the scale.
fn fp_dot3(a0: i64, a1: i64, a2: i64, b0: i64, b1: i64, b2: i64) -> (q: i128)
    requires
        -ENTRY_LIMIT <= a0 <= ENTRY_LIMIT,
        -ENTRY_LIMIT <= a1 <= ENTRY_LIMIT,
        -ENTRY_LIMIT <= a2 <= ENTRY_LIMIT,
        -ENTRY_LIMIT <= b0 <= ENTRY_LIMIT,
        -ENTRY_LIMIT <= b1 <= ENTRY_LIMIT,
        -ENTRY_LIMIT <= b2 <= ENTRY_LIMIT,
    ensures
        q == dot3(a0 as int, a1 as int, a2 as int, b0 as int, b1 as int, b2 as int),
        -0x40000000000000000000000000000 <= q <= 0x40000000000000000000000000000,
{
    proof {
        lemma_mul_bound(a0 as int, b0 as int, ENTRY_LIMIT as int);
        lemma_mul_bound(a1 as int, b1 as int, ENTRY_LIMIT as int);
        lemma_mul_bound(a2 as int, b2 as int, ENTRY_LIMIT as int);
    }
    let p0: i128 = (a0 as i128) * (b0 as i128);
    let p1: i128 = (a1 as i128) * (b1 as i128);
    let p2: i128 = (a2 as i128) * (b2 as i128);
    let s: i128 = p0 + p1 + p2;
    proof {
        lemma_fdiv_bound(s as int, 0x40000000000000000000000000000int);
    }
    floor_div_scale(s)
}

impl Transform {
    /// The identity transform.
    pub fn identity() -> (r: Transform)
        ensures
            r@ == identity_model(),
            transform_wf(r@),
    {
        Transform {
            m00: FP_ONE,
            m01: 0,
            m02: 0,
            m10: 0,
            m11: FP_ONE,
            m12: 0,
            m20: 0,
            m21: 0,
            m22: FP_ONE,
            tx: 0,
            ty: 0,
            tz: 0,
        }
    }

    /// A pure translation by `v`.
    pub fn translation(v: Vec3) -> (r: Transform)
        requires
            vec3_in_range(v@),
        ensures
            r@ == translation_model(v@),
            transform_wf(r@),
    {
        Transform {
            m00: FP_ONE,
            m01: 0,
            m02: 0,
            m10: 0,
            m11: FP_ONE,
            m12: 0,
            m20: 0,
            m21: 0,
            m22: FP_ONE,
            tx: v.x,
            ty: v.y,
            tz: v.z,
        }
    }

    /// Rotation about the x axis by the given angle.
    pub fn rot_x(a: Angle) -> (r: Transform)
        requires
            angle_wf(a@),
        ensures
            r@ == rot_x_model(a@),
            transform_wf(r@),
    {
        Transform {
            m00: FP_ONE,
            m01: 0,
            m02: 0,
            m10: 0,
            m11: a.cos,
            m12: -a.sin,
            m20: 0,
            m21: a.sin,
            m22: a.cos,
            tx: 0,
            ty: 0,
            tz: 0,
        }
    }

    /// Rotation about the y axis by the given angle.
    pub fn rot_y(a: Angle) -> (r: Transform)
        requires
            angle_wf(a@),
        ensures
            r@ == rot_y_model(a@),
            transform_wf(r@),
    {
        Transform {
            m00: a.cos,
            m01: 0,
            m02: a.sin,
            m10: 0,
            m11: FP_ONE,
            m12: 0,
            m20: -a.sin,
            m21: 0,
            m22: a.cos,
            tx: 0,
            ty: 0,
            tz: 0,
        }
    }

    /// Rotation about the z axis by the given angle.
    pub fn rot_z(a: Angle) -> (r: Transform)
        requires
            angle_wf(a@),
        ensures
            r@ == rot_z_model(a@),
            transform_wf(r@),
    {
        Transform {
            m00: a.cos,
            m01: -a.sin,
            m02: 0,
            m10: a.sin,
            m11: a.cos,
            m12: 0,
            m20: 0,
            m21: 0,
            m22: FP_ONE,
            tx: 0,
            ty: 0,
            tz: 0,
        }
    }
}

/// True when the 128-bit entry can be committed to a well-formed 64-bit
/// transform entry.
fn entry_in_range(q: i128) -> (b: bool)
    ensures
        b == (-ENTRY_LIMIT <= q <= ENTRY_LIMIT),
{
    -(ENTRY_LIMIT as i128) <= q && q <= ENTRY_LIMIT as i128
}

/// Compose two well-formed transforms: `a` after `b`. Returns `None`
/// exactly when some entry of the composition leaves the well-formed
/// range, in which case the frame must be abandoned rather than drawn
/// with a corrupted transform.
pub fn compose(a: &Transform, b: &Transform) -> (r: Option<Transform>)
    requires
        transform_wf(a@),
        transform_wf(b@),
    ensures
        r is Some <==> compose_fits(a@, b@),
        r is Some ==> r->Some_0@ == compose_model(a@, b@) && transform_wf(r->Some_0@),
{
    let q00: i128 = fp_dot3(a.m00, a.m01, a.m02, b.m00, b.m10, b.m20);
    let q01: i128 = fp_dot3(a.m00, a.m01, a.m02, b.m01, b.m11, b.m21);
    let q02: i128 = fp_dot3(a.m00, a.m01, a.m02, b.m02, b.m12, b.m22);
    let q10: i128 = fp_dot3(a.m10, a.m11, a.m12, b.m00, b.m10, b.m20);
    let q11: i128 = fp_dot3(a.m10, a.m11, a.m12, b.m01, b.m11, b.m21);
    let q12: i128 = fp_dot3(a.m10, a.m11, a.m12, b.m02, b.m12, b.m22);
    let q20: i128 = fp_dot3(a.m20, a.m21, a.m22, b.m00, b.m10, b.m20);
    let q21: i128 = fp_dot3(a.m20, a.m21, a.m22, b.m01, b.m11, b.m21);
    let q22: i128 = fp_dot3(a.m20, a.m21, a.m22, b.m02, b.m12, b.m22);
    let qtx: i128 = fp_dot3(a.m00, a.m01, a.m02, b.tx, b.ty, b.tz) + (a.tx as i128);
    let qty: i128 = fp_dot3(a.m10, a.m11, a.m12, b.tx, b.ty, b.tz) + (a.ty as i128);
    let qtz: i128 = fp_dot3(a.m20, a.m21, a.m22, b.tx, b.ty, b.tz) + (a.tz as i128);
    if !entry_in_range(q00) {
        return None;
    }
    if !entry_in_range(q01) {
        return None;
    }
    if !entry_in_range(q02) {
        return None;
    }
    if !entry_in_range(q10) {
        return None;
    }
    if !entry_in_range(q11) {
        return None;
    }
    if !entry_in_range(q12) {
        return None;
    }
    if !entry_in_range(q20) {
        return None;
    }
    if !entry_in_range(q21) {
        return None;
    }
    if !entry_in_range(q22) {
        return None;
    }
    if !entry_in_range(qtx) {
        return None;
    }
    if !entry_in_range(qty) {
        return None;
    }
    if !entry_in_range(qtz) {
        return None;
    }
    Some(Transform {
        m00: q00 as i64,
        m01: q01 as i64,
        m02: q02 as i64,
        m10: q10 as i64,
        m11: q11 as i64,
        m12: q12 as i64,
        m20: q20 as i64,
        m21: q21 as i64,
        m22: q22 as i64,
        tx: qtx as i64,
        ty: qty as i64,
        tz: qtz as i64,
    })
}


/// The combined rotation block of a node: rotation about z, then y, then x,
/// multiplied in fixed point (each entry rounds once).
pub open spec fn rotation_model(r: RotationModel) -> TransformModel {
    compose_model(rot_x_model(r.x), compose_model(rot_y_model(r.y), rot_z_model(r.z)))
}

/// A node's pivot-relative local transform: translate by
/// `reference_point`, rotate about z, y, then x, and translate back by
/// `-reference_point` (rightmost applied first). The translation column is
/// built by rounding the rotated pivot once and subtracting it, which makes
/// the pivot an exact fixed point of the map (see [`lemma_pivot_fixed`]).
/// The node's `position` is not part of this map: it is applied after the
/// parent composition (see [`node_world_model`]).
pub open spec fn local_model(rotation: RotationModel, reference_point: Vec3Model) -> TransformModel {
    let r = rotation_model(rotation);
    TransformModel {
        m00: r.m00,
        m01: r.m01,
        m02: r.m02,
        m10: r.m10,
        m11: r.m11,
        m12: r.m12,
        m20: r.m20,
        m21: r.m21,
        m22: r.m22,
        tx: reference_point.x - dot3(
            r.m00,
            r.m01,
            r.m02,
            reference_point.x,
            reference_point.y,
            reference_point.z,
        ),
        ty: reference_point.y - dot3(
            r.m10,
            r.m11,
            r.m12,
            reference_point.x,
            reference_point.y,
            reference_point.z,
        ),
        tz: reference_point.z - dot3(
            r.m20,
            r.m21,
            r.m22,
            reference_point.x,
            reference_point.y,
            reference_point.z,
        ),
    }
}

/// Translating a transform after the fact: the linear block is untouched
/// and the vector is added to the translation column. This is exactly what
/// composing a pure translation on the left does (see
/// [`lemma_place_is_left_translation`]), stated in closed form.
pub open spec fn place_model(t: TransformModel, v: Vec3Model) -> TransformModel {
    TransformModel { tx: t.tx + v.x, ty: t.ty + v.y, tz: t.tz + v.z, ..t }
}

/// The world transform of one node: its pivot-relative local transform
/// (translate to the pivot, rotate about z, y, x, translate back), composed
/// with the parent's world transform, and then translated by the node's
/// `position` — the position translation is applied after the parent
/// composition, so it is never rotated by the parent.
pub open spec fn node_world_model(
    parent: TransformModel,
    position: Vec3Model,
    rotation: RotationModel,
    reference_point: Vec3Model,
) -> TransformModel {
    compose_model(
        translation_model(position),
        compose_model(parent, local_model(rotation, reference_point)),
    )
}

/// Applying a transform to a point: rotate, round once, translate.
pub open spec fn apply_point_model(t: TransformModel, v: Vec3Model) -> Vec3Model {
    Vec3Model {
        x: dot3(t.m00, t.m01, t.m02, v.x, v.y, v.z) + t.tx,
        y: dot3(t.m10, t.m11, t.m12, v.x, v.y, v.z) + t.ty,
        z: dot3(t.m20, t.m21, t.m22, v.x, v.y, v.z) + t.tz,
    }
}

/// Applying only the linear block of a transform to a direction vector.
pub open spec fn rotate_vec_model(t: TransformModel, v: Vec3Model) -> Vec3Model {
    Vec3Model {
        x: dot3(t.m00, t.m01, t.m02, v.x, v.y, v.z),
        y: dot3(t.m10, t.m11, t.m12, v.x, v.y, v.z),
        z: dot3(t.m20, t.m21, t.m22, v.x, v.y, v.z),
    }
}

/// All nine linear entries lie within `l`.
pub open spec fn lin_bounded(t: TransformModel, l: int) -> bool {
    &&& -l <= t.m00 <= l
    &&& -l <= t.m01 <= l
    &&& -l <= t.m02 <= l
    &&& -l <= t.m10 <= l
    &&& -l <= t.m11 <= l
    &&& -l <= t.m12 <= l
    &&& -l <= t.m20 <= l
    &&& -l <= t.m21 <= l
    &&& -l <= t.m22 <= l
}

/// The translation column is zero.
pub open spec fn zero_translation(t: TransformModel) -> bool {
    t.tx == 0 && t.ty == 0 && t.tz == 0
}

/// A product of values bounded by `la` and `lb` is bounded by `la * lb`.
proof fn lemma_mul_bound2(a: int, b: int, la: int, lb: int)
    requires
        0 <= la,
        0 <= lb,
        -la <= a <= la,
        -lb <= b <= lb,
    ensures
        -(la * lb) <= a * b <= la * lb,
{
    assert(-(la * lb) <= a * b <= la * lb) by (nonlinear_arith)
        requires 0 <= la, 0 <= lb, -la <= a <= la, -lb <= b <= lb;
}

/// Multiply two rotation blocks (transforms with zero translation). The
/// entry bound grows by at most a factor of three plus rounding, which the
/// ghost `bound` argument tracks.
fn compose_rot(a: &Transform, b: &Transform, bound: Ghost<int>) -> (r: Transform)
    requires
        lin_bounded(a@, 65536),
        lin_bounded(b@, bound@),
        zero_translation(a@),
        zero_translation(b@),
        0 <= bound@ <= 1048576,
    ensures
        r@ == compose_model(a@, b@),
        lin_bounded(r@, 3 * bound@),
        zero_translation(r@),
{
    proof {
        lemma_rot_entry_bound(a@.m00, a@.m01, a@.m02, b@.m00, b@.m10, b@.m20, bound@);
        lemma_rot_entry_bound(a@.m00, a@.m01, a@.m02, b@.m01, b@.m11, b@.m21, bound@);
        lemma_rot_entry_bound(a@.m00, a@.m01, a@.m02, b@.m02, b@.m12, b@.m22, bound@);
        lemma_rot_entry_bound(a@.m10, a@.m11, a@.m12, b@.m00, b@.m10, b@.m20, bound@);
        lemma_rot_entry_bound(a@.m10, a@.m11, a@.m12, b@.m01, b@.m11, b@.m21, bound@);
        lemma_rot_entry_bound(a@.m10, a@.m11, a@.m12, b@.m02, b@.m12, b@.m22, bound@);
        lemma_rot_entry_bound(a@.m20, a@.m21, a@.m22, b@.m00, b@.m10, b@.m20, bound@);
        lemma_rot_entry_bound(a@.m20, a@.m21, a@.m22, b@.m01, b@.m11, b@.m21, bound@);
        lemma_rot_entry_bound(a@.m20, a@.m21, a@.m22, b@.m02, b@.m12, b@.m22, bound@);
    }
    let q00: i128 = fp_dot3(a.m00, a.m01, a.m02, b.m00, b.m10, b.m20);
    let q01: i128 = fp_dot3(a.m00, a.m01, a.m02, b.m01, b.m11, b.m21);
    let q02: i128 = fp_dot3(a.m00, a.m01, a.m02, b.m02, b.m12, b.m22);
    let q10: i128 = fp_dot3(a.m10, a.m11, a.m12, b.m00, b.m10, b.m20);
    let q11: i128 = fp_dot3(a.m10, a.m11, a.m12, b.m01, b.m11, b.m21);
    let q12: i128 = fp_dot3(a.m10, a.m11, a.m12, b.m02, b.m12, b.m22);
    let q20: i128 = fp_dot3(a.m20, a.m21, a.m22, b.m00, b.m10, b.m20);
    let q21: i128 = fp_dot3(a.m20, a.m21, a.m22, b.m01, b.m11, b.m21);
    let q22: i128 = fp_dot3(a.m20, a.m21, a.m22, b.m02, b.m12, b.m22);
    Transform {
        m00: q00 as i64,
        m01: q01 as i64,
        m02: q02 as i64,
        m10: q10 as i64,
        m11: q11 as i64,
        m12: q12 as i64,
        m20: q20 as i64,
        m21: q21 as i64,
        m22: q22 as i64,
        tx: 0,
        ty: 0,
        tz: 0,
    }
}

/// One entry of a rotation-block product stays within three times the
/// bound of the right factor.
proof fn lemma_rot_entry_bound(a0: int, a1: int, a2: int, b0: int, b1: int, b2: int, lb: int)
    requires
        -65536 <= a0 <= 65536,
        -65536 <= a1 <= 65536,
        -65536 <= a2 <= 65536,
        -lb <= b0 <= lb,
        -lb <= b1 <= lb,
        -lb <= b2 <= lb,
        0 <= lb,
    ensures
        -(3 * lb) <= dot3(a0, a1, a2, b0, b1, b2) <= 3 * lb,
{
    lemma_mul_bound2(a0, b0, 65536, lb);
    lemma_mul_bound2(a1, b1, 65536, lb);
    lemma_mul_bound2(a2, b2, 65536, lb);
    lemma_fdiv_bound(a0 * b0 + a1 * b1 + a2 * b2, 3 * lb);
}

/// One translation row of a pivot-relative local transform:
/// `pivot - (rotation block applied to the pivot, rounded)`.
fn local_trans_row(m0: i64, m1: i64, m2: i64, refp: &Vec3, ref_i: i64) -> (t: i64)
    requires
        -589824 <= m0 <= 589824,
        -589824 <= m1 <= 589824,
        -589824 <= m2 <= 589824,
        vec3_in_range(refp@),
        -COORD_LIMIT <= ref_i <= COORD_LIMIT,
    ensures
        t as int == ref_i - dot3(m0 as int, m1 as int, m2 as int, refp@.x, refp@.y, refp@.z),
        -ENTRY_LIMIT <= t <= ENTRY_LIMIT,
{
    proof {
        lemma_mul_bound2(m0 as int, refp@.x, 589824, COORD_LIMIT as int);
        lemma_mul_bound2(m1 as int, refp@.y, 589824, COORD_LIMIT as int);
        lemma_mul_bound2(m2 as int, refp@.z, 589824, COORD_LIMIT as int);
        lemma_fdiv_bound(
            m0 as int * refp@.x + m1 as int * refp@.y + m2 as int * refp@.z,
            27 * (COORD_LIMIT as int),
        );
    }
    let q: i128 = fp_dot3(m0, m1, m2, refp.x, refp.y, refp.z);
    let t128: i128 = (ref_i as i128) - q;
    t128 as i64
}

/// Build a node's pivot-relative local transform from its rotation and
/// reference point (pivot). Total: with well-formed angles and coordinates
/// in range, no intermediate value can leave the representable range.
pub fn local_transform(rotation: &Rotation, reference_point: Vec3) -> (r: Transform)
    requires
        vec3_in_range(reference_point@),
        rotation_wf(rotation@),
    ensures
        r@ == local_model(rotation@, reference_point@),
        transform_wf(r@),
{
    let rx = Transform::rot_x(rotation.x);
    let ry = Transform::rot_y(rotation.y);
    let rz = Transform::rot_z(rotation.z);
    let ryz = compose_rot(&ry, &rz, Ghost(65536int));
    let lin = compose_rot(&rx, &ryz, Ghost(196608int));
    let tx = local_trans_row(lin.m00, lin.m01, lin.m02, &reference_point, reference_point.x);
    let ty = local_trans_row(lin.m10, lin.m11, lin.m12, &reference_point, reference_point.y);
    let tz = local_trans_row(lin.m20, lin.m21, lin.m22, &reference_point, reference_point.z);
    Transform {
        m00: lin.m00,
        m01: lin.m01,
        m02: lin.m02,
        m10: lin.m10,
        m11: lin.m11,
        m12: lin.m12,
        m20: lin.m20,
        m21: lin.m21,
        m22: lin.m22,
        tx,
        ty,
        tz,
    }
}

/// Fixed-point multiply of two scalars: the raw product, floor-divided by
/// the scale.
pub fn fp_mul(a: i64, b: i64) -> (r: i64)
    requires
        -0x100000000 <= a <= 0x100000000,
        -0x100000000 <= b <= 0x100000000,
    ensures
        r as int == fdiv(a as int * b as int),
        -0x1000000000000 <= r <= 0x1000000000000,
{
    proof {
        lemma_mul_bound(a as int, b as int, 0x100000000int);
        lemma_fdiv_bound(a as int * b as int, 0x1000000000000int);
    }
    let q: i128 = floor_div_scale((a as i128) * (b as i128));
    q as i64
}

/// True when every coordinate of the transformed point stays representable.
pub open spec fn point_fits(t: TransformModel, v: Vec3Model) -> bool {
    let r = apply_point_model(t, v);
    &&& -(ENTRY_LIMIT as int) <= r.x <= ENTRY_LIMIT as int
    &&& -(ENTRY_LIMIT as int) <= r.y <= ENTRY_LIMIT as int
    &&& -(ENTRY_LIMIT as int) <= r.z <= ENTRY_LIMIT as int
}

/// Apply a transform to a point. Returns `None` exactly when a coordinate
/// of the result leaves the representable range.
pub fn apply_point(t: &Transform, v: Vec3) -> (r: Option<Vec3>)
    requires
        transform_wf(t@),
        vec3_in_range(v@),
    ensures
        r is Some <==> point_fits(t@, v@),
        r is Some ==> r->Some_0@ == apply_point_model(t@, v@),
{
    let qx: i128 = fp_dot3(t.m00, t.m01, t.m02, v.x, v.y, v.z) + (t.tx as i128);
    let qy: i128 = fp_dot3(t.m10, t.m11, t.m12, v.x, v.y, v.z) + (t.ty as i128);
    let qz: i128 = fp_dot3(t.m20, t.m21, t.m22, v.x, v.y, v.z) + (t.tz as i128);
    if !entry_in_range(qx) {
        return None;
    }
    if !entry_in_range(qy) {
        return None;
    }
    if !entry_in_range(qz) {
        return None;
    }
    Some(Vec3 { x: qx as i64, y: qy as i64, z: qz as i64 })
}

/// Translate a transform after the fact: add `v` to the translation
/// column, the linear block untouched. This is composing a pure translation
/// on the left, which is exact in fixed point. Returns `None` exactly when
/// a translation entry leaves the representable range.
pub fn place(t: &Transform, v: Vec3) -> (r: Option<Transform>)
    requires
        transform_wf(t@),
        vec3_in_range(v@),
    ensures
        r is Some <==> transform_wf(place_model(t@, v@)),
        r is Some ==> r->Some_0@ == place_model(t@, v@),
{
    let qx: i128 = (t.tx as i128) + (v.x as i128);
    let qy: i128 = (t.ty as i128) + (v.y as i128);
    let qz: i128 = (t.tz as i128) + (v.z as i128);
    if !entry_in_range(qx) {
        return None;
    }
    if !entry_in_range(qy) {
        return None;
    }
    if !entry_in_range(qz) {
        return None;
    }
    Some(Transform { tx: qx as i64, ty: qy as i64, tz: qz as i64, ..*t })
}

/// `fdiv` undoes multiplication by the scale: `fdiv(x * 65536) == x`.
proof fn lemma_fdiv_scale(x: int)
    ensures
        fdiv(x * 65536) == x,
{
    lemma_div_multiples_vanish(x, 65536);
}

/// The rows of the identity block pick out one coordinate each.
proof fn lemma_dot3_identity_rows(x: int, y: int, z: int)
    ensures
        dot3(65536, 0, 0, x, y, z) == x,
        dot3(0, 65536, 0, x, y, z) == y,
        dot3(0, 0, 65536, x, y, z) == z,
{
    lemma_fdiv_scale(x);
    lemma_fdiv_scale(y);
    lemma_fdiv_scale(z);
}

/// Dotting a row against the columns of the identity block picks out the
/// row's entries; against a zero column it gives zero.
proof fn lemma_dot3_identity_cols(a0: int, a1: int, a2: int)
    ensures
        dot3(a0, a1, a2, 65536, 0, 0) == a0,
        dot3(a0, a1, a2, 0, 65536, 0) == a1,
        dot3(a0, a1, a2, 0, 0, 65536) == a2,
        dot3(a0, a1, a2, 0, 0, 0) == 0,
{
    lemma_fdiv_scale(a0);
    lemma_fdiv_scale(a1);
    lemma_fdiv_scale(a2);
}

/// Composing the identity on the left changes nothing, exactly.
pub proof fn lemma_compose_identity_left(t: TransformModel)
    ensures
        compose_model(identity_model(), t) == t,
{
    lemma_dot3_identity_rows(t.m00, t.m10, t.m20);
    lemma_dot3_identity_rows(t.m01, t.m11, t.m21);
    lemma_dot3_identity_rows(t.m02, t.m12, t.m22);
    lemma_dot3_identity_rows(t.tx, t.ty, t.tz);
}

/// Composing the identity on the right changes nothing, exactly.
pub proof fn lemma_compose_identity_right(t: TransformModel)
    ensures
        compose_model(t, identity_model()) == t,
{
    lemma_dot3_identity_cols(t.m00, t.m01, t.m02);
    lemma_dot3_identity_cols(t.m10, t.m11, t.m12);
    lemma_dot3_identity_cols(t.m20, t.m21, t.m22);
}

/// Translating after the fact is exactly composing a pure translation on
/// the left: in fixed point, a translation row of the identity block
/// rescales without loss.
pub proof fn lemma_place_is_left_translation(t: TransformModel, v: Vec3Model)
    ensures
        compose_model(translation_model(v), t) == place_model(t, v),
{
    lemma_dot3_identity_rows(t.m00, t.m10, t.m20);
    lemma_dot3_identity_rows(t.m01, t.m11, t.m21);
    lemma_dot3_identity_rows(t.m02, t.m12, t.m22);
    lemma_dot3_identity_rows(t.tx, t.ty, t.tz);
}

/// A node whose rotation and reference point are both zero has exactly the
/// identity as its pivot-relative local transform.
pub proof fn lemma_zero_local_is_identity()
    ensures
        local_model(zero_rotation_model(), zero_vec3_model()) == identity_model(),
{
}

/// A translation by zero changes nothing.
pub proof fn lemma_translation_zero_is_identity()
    ensures
        translation_model(zero_vec3_model()) == identity_model(),
{
}

/// Law: a root node with zero position, rotation and reference point,
/// composed with an identity incoming transform, has exactly the identity
/// world transform.
pub proof fn lemma_identity_at_root()
    ensures
        node_world_model(
            identity_model(),
            zero_vec3_model(),
            zero_rotation_model(),
            zero_vec3_model(),
        ) == identity_model(),
{
    lemma_zero_local_is_identity();
    lemma_translation_zero_is_identity();
    lemma_compose_identity_left(identity_model());
}

/// Law: a child whose position, rotation and reference point are all zero
/// gets exactly its parent's world transform, whatever the parent is.
pub proof fn lemma_parent_through_identity_child(parent: TransformModel)
    ensures
        node_world_model(parent, zero_vec3_model(), zero_rotation_model(), zero_vec3_model())
            == parent,
{
    lemma_zero_local_is_identity();
    lemma_translation_zero_is_identity();
    lemma_compose_identity_right(parent);
    lemma_compose_identity_left(parent);
}

/// Law: pure translations compose exactly: translating by `a` after
/// translating by `b` is translating by the componentwise sum.
pub proof fn lemma_translation_compose(a: Vec3Model, b: Vec3Model)
    ensures
        compose_model(translation_model(a), translation_model(b)) == translation_model(
            vec3_add_model(a, b),
        ),
{
    lemma_dot3_identity_rows(b.x, b.y, b.z);
    lemma_dot3_identity_rows(65536, 0, 0);
    lemma_dot3_identity_rows(0, 65536, 0);
    lemma_dot3_identity_rows(0, 0, 65536);
}

/// Law: the reference point (pivot) of a node with zero position and an
/// identity parent transform is an exact fixed point of the node's world
/// transform, whatever the rotation.
pub proof fn lemma_pivot_fixed(rotation: RotationModel, pivot: Vec3Model)
    ensures
        apply_point_model(
            node_world_model(identity_model(), zero_vec3_model(), rotation, pivot),
            pivot,
        ) == pivot,
{
    lemma_translation_zero_is_identity();
    lemma_compose_identity_left(local_model(rotation, pivot));
    lemma_compose_identity_left(compose_model(identity_model(), local_model(rotation, pivot)));
}

/// One row of the pivot-offset law: shifting the argument of a rounded dot
/// product by a vector whose coordinates are whole fixed-point units moves
/// the result by the rounded dot product of the shift.
proof fn lemma_dot3_shift(m0: int, m1: int, m2: int, p: Vec3Model, d: Vec3Model)
    requires
        p.x % 65536 == 0,
        p.y % 65536 == 0,
        p.z % 65536 == 0,
    ensures
        dot3(m0, m1, m2, p.x + d.x, p.y + d.y, p.z + d.z) == dot3(m0, m1, m2, p.x, p.y, p.z)
            + dot3(m0, m1, m2, d.x, d.y, d.z),
{
    let ax = p.x / 65536;
    let ay = p.y / 65536;
    let az = p.z / 65536;
    lemma_fundamental_div_mod(p.x, 65536);
    lemma_fundamental_div_mod(p.y, 65536);
    lemma_fundamental_div_mod(p.z, 65536);
    let kk = m0 * ax + m1 * ay + m2 * az;
    let dd = m0 * d.x + m1 * d.y + m2 * d.z;
    assert(m0 * (p.x + d.x) + m1 * (p.y + d.y) + m2 * (p.z + d.z) == 65536 * kk + dd)
        by (nonlinear_arith)
        requires
            p.x == 65536 * ax,
            p.y == 65536 * ay,
            p.z == 65536 * az,
            kk == m0 * ax + m1 * ay + m2 * az,
            dd == m0 * d.x + m1 * d.y + m2 * d.z;
    assert(m0 * p.x + m1 * p.y + m2 * p.z == 65536 * kk) by (nonlinear_arith)
        requires
            p.x == 65536 * ax,
            p.y == 65536 * ay,
            p.z == 65536 * az,
            kk == m0 * ax + m1 * ay + m2 * az;
    lemma_hoist_over_denominator(dd, kk, 65536nat);
    lemma_div_multiples_vanish(kk, 65536);
}

/// Law: under the same conditions as [`lemma_pivot_fixed`], a point offset
/// from the pivot by `d` maps exactly to the pivot plus the rotated offset,
/// provided the pivot's coordinates are whole fixed-point units.
pub proof fn lemma_pivot_offset(rotation: RotationModel, pivot: Vec3Model, d: Vec3Model)
    requires
        pivot.x % 65536 == 0,
        pivot.y % 65536 == 0,
        pivot.z % 65536 == 0,
    ensures
        apply_point_model(
            node_world_model(identity_model(), zero_vec3_model(), rotation, pivot),
            vec3_add_model(pivot, d),
        ) == vec3_add_model(pivot, rotate_vec_model(rotation_model(rotation), d)),
{
    lemma_translation_zero_is_identity();
    lemma_compose_identity_left(local_model(rotation, pivot));
    lemma_compose_identity_left(compose_model(identity_model(), local_model(rotation, pivot)));
    let r = rotation_model(rotation);
    lemma_dot3_shift(r.m00, r.m01, r.m02, pivot, d);
    lemma_dot3_shift(r.m10, r.m11, r.m12, pivot, d);
    lemma_dot3_shift(r.m20, r.m21, r.m22, pivot, d);
}


} // verus!
