//! The integer math kernel: fixed-point coordinates, truncating division and
//! rounding, value clamping, and the axis-aligned bounding volume.
//!
//! Coordinates are fixed-point integers: a coordinate value `v` stands for the
//! real number `v / FX_ONE`. Normalized depths are scaled separately: a depth
//! value `z` stands for the real number `z / DEPTH_ONE`, so the valid depth
//! range `[0, 1]` is exactly `[0, DEPTH_ONE]`.

use vstd::prelude::*;

verus! {

/// Denominator of fixed-point coordinates: one pixel is `FX_ONE` units.
pub const FX_ONE: i64 = 256;

/// Half of `FX_ONE`, used when rounding to the nearest integer coordinate.
pub const FX_HALF: i64 = 128;

/// Denominator of fixed-point depths: depth one is `DEPTH_ONE` units.
/// It equals the largest depth-buffer cell value, so a depth within `[0, 1]`
/// is its own depth-buffer encoding.
pub const DEPTH_ONE: i64 = 0xFFFF_FFFF;

/// Largest coordinate magnitude (in `FX_ONE` units) the rasterizer accepts.
pub const COORD_LIMIT: i64 = 0x4000_0000;

/// Largest depth magnitude (in `DEPTH_ONE` units) the rasterizer accepts.
pub const DEPTH_LIMIT: i64 = 0x1_0000_0000_0000;

/// Division truncating toward zero, for a positive divisor: the semantics of
/// the machine division on signed integers.
pub open spec fn tdiv(a: int, b: int) -> int {
    if a >= 0 {
        a / b
    } else {
        -((-a) / b)
    }
}

/// Rounding of a fixed-point coordinate to the nearest integer coordinate,
/// halves away from zero.
pub open spec fn fx_round(v: int) -> int {
    if v >= 0 {
        (v + FX_HALF as int) / (FX_ONE as int)
    } else {
        -((-v + FX_HALF as int) / (FX_ONE as int))
    }
}

/// Constrains a value to lie between two further values.
///
/// # Arguments
/// * `x` - The value to constrain.
/// * `min_value` - The lower bound for the value constraint.
/// * `max_value` - The upper bound for the value constraint.
#[inline]
pub fn clamp(x: i64, min_value: i64, max_value: i64) -> (r: i64)
    ensures
        r == spec_clamp(x as int, min_value as int, max_value as int),
{
    if x < min_value {
        min_value
    } else if x > max_value {
        max_value
    } else {
        x
    }
}

/// What `clamp` returns.
pub open spec fn spec_clamp(x: int, min_value: int, max_value: int) -> int {
    if x < min_value {
        min_value
    } else if x > max_value {
        max_value
    } else {
        x
    }
}

/// Division of 128-bit integers truncating toward zero.
pub fn div_trunc(a: i128, b: i128) -> (r: i128)
    requires
        b > 0,
        a > i128::MIN,
    ensures
        r == tdiv(a as int, b as int),
{
    if a >= 0 {
        ((a as u128) / (b as u128)) as i128
    } else {
        let m: u128 = (-a) as u128;
        -((m / (b as u128)) as i128)
    }
}

/// Rounds a fixed-point coordinate to the nearest integer coordinate, halves
/// away from zero.
pub fn round_fx(v: i64) -> (r: i64)
    requires
        -0x4000_0000_0000_0000 <= v <= 0x4000_0000_0000_0000,
    ensures
        r == fx_round(v as int),
{
    if v >= 0 {
        (((v + FX_HALF) as u64) / (FX_ONE as u64)) as i64
    } else {
        let m: u64 = ((-v) + FX_HALF) as u64;
        -((m / (FX_ONE as u64)) as i64)
    }
}

/// Linear interpolation from `base` toward `target` at the rational parameter
/// `num / den`, truncated toward zero.
pub open spec fn interp(base: int, target: int, num: int, den: int) -> int {
    base + tdiv(num * (target - base), den)
}

/// A truncating quotient is zero or has the numerator's sign, and never
/// exceeds the numerator in magnitude.
pub proof fn lemma_tdiv_bounds(a: int, b: int)
    requires
        b > 0,
    ensures
        a >= 0 ==> 0 <= tdiv(a, b) <= a,
        a < 0 ==> a <= tdiv(a, b) <= 0,
{
    if a >= 0 {
        vstd::arithmetic::div_mod::lemma_div_pos_is_pos(a, b);
        vstd::arithmetic::div_mod::lemma_div_nonincreasing(a, b);
    } else {
        vstd::arithmetic::div_mod::lemma_div_pos_is_pos(-a, b);
        vstd::arithmetic::div_mod::lemma_div_nonincreasing(-a, b);
    }
}

/// Truncating division is monotone in the numerator.
pub proof fn lemma_tdiv_monotone(a: int, b: int, d: int)
    requires
        a <= b,
        d > 0,
    ensures
        tdiv(a, d) <= tdiv(b, d),
{
    if a >= 0 {
        vstd::arithmetic::div_mod::lemma_div_is_ordered(a, b, d);
    } else if b < 0 {
        vstd::arithmetic::div_mod::lemma_div_is_ordered(-b, -a, d);
    } else {
        lemma_tdiv_bounds(a, d);
        lemma_tdiv_bounds(b, d);
    }
}

/// An interpolation step with a clamped parameter stays between zero and the
/// full difference.
pub proof fn lemma_interp_step_range(num: int, den: int, delta: int)
    requires
        0 <= num <= den,
        0 < den,
    ensures
        delta >= 0 ==> 0 <= tdiv(num * delta, den) <= delta,
        delta < 0 ==> delta <= tdiv(num * delta, den) <= 0,
{
    if delta >= 0 {
        assert(0 <= num * delta <= den * delta) by (nonlinear_arith)
            requires
                0 <= num <= den,
                delta >= 0,
        ;
        lemma_tdiv_bounds(num * delta, den);
        lemma_tdiv_monotone(num * delta, den * delta, den);
        assert(tdiv(den * delta, den) == delta) by {
            vstd::arithmetic::div_mod::lemma_div_multiples_vanish(delta, den);
        }
    } else {
        assert(den * delta <= num * delta <= 0) by (nonlinear_arith)
            requires
                0 <= num <= den,
                delta < 0,
        ;
        lemma_tdiv_bounds(num * delta, den);
        lemma_tdiv_monotone(den * delta, num * delta, den);
        assert(tdiv(den * delta, den) == delta) by {
            assert(-(den * delta) == den * -delta) by (nonlinear_arith);
            vstd::arithmetic::div_mod::lemma_div_multiples_vanish(-delta, den);
        }
    }
}

/// The interpolant lies between its two endpoints, and moving the parameter
/// moves it monotonically.
pub proof fn lemma_interp_between(base: int, target: int, num: int, den: int)
    requires
        0 <= num <= den,
        0 < den,
    ensures
        base <= target ==> base <= interp(base, target, num, den) <= target,
        target <= base ==> target <= interp(base, target, num, den) <= base,
{
    lemma_interp_step_range(num, den, target - base);
}

/// For a fixed parameter, interpolation is monotone in the target.
pub proof fn lemma_interp_target_monotone(base: int, t0: int, t1: int, num: int, den: int)
    requires
        0 <= num <= den,
        0 < den,
        t0 <= t1,
    ensures
        interp(base, t0, num, den) <= interp(base, t1, num, den),
{
    assert(num * (t0 - base) <= num * (t1 - base)) by (nonlinear_arith)
        requires
            num >= 0,
            t0 <= t1,
    ;
    lemma_tdiv_monotone(num * (t0 - base), num * (t1 - base), den);
}

/// Rounding of fixed-point coordinates is monotone.
pub proof fn lemma_fx_round_monotone(a: int, b: int)
    requires
        a <= b,
    ensures
        fx_round(a) <= fx_round(b),
{
    if a >= 0 {
        vstd::arithmetic::div_mod::lemma_div_is_ordered(a + 128, b + 128, 256);
    } else if b < 0 {
        vstd::arithmetic::div_mod::lemma_div_is_ordered(-b + 128, -a + 128, 256);
    } else {
        vstd::arithmetic::div_mod::lemma_div_pos_is_pos(-a + 128, 256);
        vstd::arithmetic::div_mod::lemma_div_pos_is_pos(b + 128, 256);
    }
}

/// A whole coordinate rounds to itself.
pub proof fn lemma_fx_round_int(k: int)
    ensures
        fx_round(k * 256) == k,
{
    if k >= 0 {
        assert((256 * k + 128) / 256 == k) by {
            vstd::arithmetic::div_mod::lemma_div_multiples_vanish_fancy(k, 128, 256);
        }
    } else {
        assert((256 * (-k) + 128) / 256 == -k) by {
            vstd::arithmetic::div_mod::lemma_div_multiples_vanish_fancy(-k, 128, 256);
        }
    }
}

/// Linear interpolation from `base` toward `target` at the clamped rational
/// parameter `num / den`.
pub fn interp_fx(base: i64, target: i64, num: i64, den: i64) -> (r: i64)
    requires
        0 <= num <= den,
        0 < den <= 0x1_0000_0000,
        -0x1_0000_0000_0000 <= base <= 0x1_0000_0000_0000,
        -0x1_0000_0000_0000 <= target <= 0x1_0000_0000_0000,
    ensures
        r == interp(base as int, target as int, num as int, den as int),
        base <= target ==> base <= r <= target,
        target <= base ==> target <= r <= base,
{
    let delta: i128 = (target as i128) - (base as i128);
    proof {
        assert(-0x1_0000_0000 * 0x2_0000_0000_0000 <= (num as i128) * delta <= 0x1_0000_0000
            * 0x2_0000_0000_0000) by (nonlinear_arith)
            requires
                0 <= num <= 0x1_0000_0000,
                -0x2_0000_0000_0000 <= delta <= 0x2_0000_0000_0000,
        ;
    }
    let prod: i128 = (num as i128) * delta;
    let q = div_trunc(prod, den as i128);
    proof {
        lemma_interp_step_range(num as int, den as int, delta as int);
    }
    ((base as i128) + q) as i64
}

/// A vector of three fixed-point coordinates.
#[derive(Clone, Copy, Debug, PartialEq, Eq, Structural)]
pub struct Vec3Fx {
    pub x: i64,
    pub y: i64,
    pub z: i64,
}

impl Vec3Fx {
    /// Builds a vector from its three coordinates.
    pub fn new(x: i64, y: i64, z: i64) -> (r: Self)
        ensures
            r == (Vec3Fx { x, y, z }),
    {
        Vec3Fx { x, y, z }
    }
}

/// Largest coordinate magnitude for which the bounding-volume arithmetic is
/// free of overflow.
pub const AABB_COORD_LIMIT: i64 = 0x2000_0000_0000_0000;

/// The distance from a value to the interval `[lo, hi]`, measured along one
/// axis: zero inside, the gap to the nearer end outside.
pub open spec fn axis_gap(v: int, lo: int, hi: int) -> int {
    if v < lo {
        lo - v
    } else if v > hi {
        v - hi
    } else {
        0
    }
}

/// An axis-aligned bounding volume over fixed-point coordinates.
///
/// The empty volume is encoded by any corner pair where some component of
/// `min` exceeds the corresponding component of `max`; a fresh volume starts
/// from the extreme sentinel corners.
#[derive(Clone, Copy, Debug, PartialEq, Eq, Structural)]
pub struct AABB {
    /// The corner with the lower coordinates.
    pub min: Vec3Fx,
    /// The corner with the upper coordinates.
    pub max: Vec3Fx,
}

impl AABB {
    /// True if every corner coordinate is small enough for the volume
    /// arithmetic to be free of overflow.
    pub open spec fn in_range(self) -> bool {
        &&& -AABB_COORD_LIMIT <= self.min.x <= AABB_COORD_LIMIT
        &&& -AABB_COORD_LIMIT <= self.min.y <= AABB_COORD_LIMIT
        &&& -AABB_COORD_LIMIT <= self.min.z <= AABB_COORD_LIMIT
        &&& -AABB_COORD_LIMIT <= self.max.x <= AABB_COORD_LIMIT
        &&& -AABB_COORD_LIMIT <= self.max.y <= AABB_COORD_LIMIT
        &&& -AABB_COORD_LIMIT <= self.max.z <= AABB_COORD_LIMIT
    }

    /// What `is_empty` returns.
    pub open spec fn spec_is_empty(self) -> bool {
        self.min.x > self.max.x || self.min.y > self.max.y || self.min.z > self.max.z
    }

    /// What `contains_point` returns.
    pub open spec fn spec_contains_point(self, p: Vec3Fx) -> bool {
        &&& self.min.x <= p.x <= self.max.x
        &&& self.min.y <= p.y <= self.max.y
        &&& self.min.z <= p.z <= self.max.z
    }

    /// Creates a new empty bounding volume.
    pub fn new() -> (r: Self)
        ensures
            r.min.x == i64::MAX && r.min.y == i64::MAX && r.min.z == i64::MAX,
            r.max.x == i64::MIN && r.max.y == i64::MIN && r.max.z == i64::MIN,
            r.spec_is_empty(),
    {
        AABB {
            min: Vec3Fx { x: i64::MAX, y: i64::MAX, z: i64::MAX },
            max: Vec3Fx { x: i64::MIN, y: i64::MIN, z: i64::MIN },
        }
    }

    /// Creates a new bounding volume that covers exactly the given positions.
    ///
    /// # Arguments
    /// * `positions` - The positions to create the bounding volume from.
    pub fn from_positions(positions: &Vec<Vec3Fx>) -> (r: Self)
        ensures
            r == Self::new_spec_extended(positions@),
    {
        let mut result = AABB::new();
        result.extend_positions(positions);
        result
    }

    /// Creates a new cubic bounding volume with the specified center and size.
    ///
    /// # Arguments
    /// * `center` - The center of the bounding volume.
    /// * `size` - The edge length of the cubic bounding volume.
    pub fn new_cube(center: &Vec3Fx, size: i64) -> (r: Self)
        requires
            0 <= size <= AABB_COORD_LIMIT,
            -AABB_COORD_LIMIT <= center.x <= AABB_COORD_LIMIT,
            -AABB_COORD_LIMIT <= center.y <= AABB_COORD_LIMIT,
            -AABB_COORD_LIMIT <= center.z <= AABB_COORD_LIMIT,
        ensures
            r.min.x == center.x - size / 2 && r.max.x == center.x + size / 2,
            r.min.y == center.y - size / 2 && r.max.y == center.y + size / 2,
            r.min.z == center.z - size / 2 && r.max.z == center.z + size / 2,
    {
        let half_size = size / 2;
        AABB {
            min: Vec3Fx {
                x: center.x - half_size,
                y: center.y - half_size,
                z: center.z - half_size,
            },
            max: Vec3Fx {
                x: center.x + half_size,
                y: center.y + half_size,
                z: center.z + half_size,
            },
        }
    }

    /// Returns true if the volume is empty and false otherwise.
    #[inline]
    pub fn is_empty(&self) -> (r: bool)
        ensures
            r == self.spec_is_empty(),
    {
        self.min.x > self.max.x || self.min.y > self.max.y || self.min.z > self.max.z
    }

    /// The volume after extension by one position.
    pub open spec fn spec_extend_pos(self, p: Vec3Fx) -> AABB {
        AABB {
            min: Vec3Fx {
                x: if p.x < self.min.x { p.x } else { self.min.x },
                y: if p.y < self.min.y { p.y } else { self.min.y },
                z: if p.z < self.min.z { p.z } else { self.min.z },
            },
            max: Vec3Fx {
                x: if p.x > self.max.x { p.x } else { self.max.x },
                y: if p.y > self.max.y { p.y } else { self.max.y },
                z: if p.z > self.max.z { p.z } else { self.max.z },
            },
        }
    }

    /// The fresh, empty volume.
    pub open spec fn spec_empty() -> AABB {
        AABB {
            min: Vec3Fx { x: i64::MAX, y: i64::MAX, z: i64::MAX },
            max: Vec3Fx { x: i64::MIN, y: i64::MIN, z: i64::MIN },
        }
    }

    /// A fresh volume extended by each of the given positions in turn.
    pub open spec fn new_spec_extended(positions: Seq<Vec3Fx>) -> AABB {
        positions.fold_left(Self::spec_empty(), |b: AABB, p: Vec3Fx| b.spec_extend_pos(p))
    }

    /// Extends the bounding volume with the given position.
    ///
    /// * `p` - The position about which the volume is extended.
    pub fn extend_pos(&mut self, p: &Vec3Fx)
        ensures
            *final(self) == old(self).spec_extend_pos(*p),
    {
        if p.x < self.min.x {
            self.min.x = p.x;
        }
        if p.y < self.min.y {
            self.min.y = p.y;
        }
        if p.z < self.min.z {
            self.min.z = p.z;
        }
        if p.x > self.max.x {
            self.max.x = p.x;
        }
        if p.y > self.max.y {
            self.max.y = p.y;
        }
        if p.z > self.max.z {
            self.max.z = p.z;
        }
    }

    /// Extends the bounding volume with another bounding volume.
    ///
    /// * `rhs` - The right-hand-side bounding volume about which the volume is
    ///   extended.
    pub fn extend_bbox(&mut self, rhs: &Self)
        ensures
            *final(self) == old(self).spec_extend_pos(rhs.min).spec_extend_pos(rhs.max),
    {
        let r = *rhs;
        self.extend_pos(&r.min);
        self.extend_pos(&r.max);
    }

    /// Extends the bounding volume with each of the given positions.
    pub fn extend_positions(&mut self, positions: &Vec<Vec3Fx>)
        ensures
            *final(self) == positions@.fold_left(*old(self), |b: AABB, p: Vec3Fx| b.spec_extend_pos(p)),
    {
        let n = positions.len();
        for i in 0..n
            invariant
                n == positions@.len(),
                *self == positions@.take(i as int).fold_left(
                    *old(self),
                    |b: AABB, p: Vec3Fx| b.spec_extend_pos(p),
                ),
        {
            assert(positions@.take(i + 1).drop_last() =~= positions@.take(i as int));
            let p = positions[i];
            self.extend_pos(&p);
        }
        assert(positions@.take(n as int) =~= positions@);
    }

    /// Computes and returns the bounding box center, each coordinate truncated
    /// toward zero.
    #[inline]
    pub fn get_center(&self) -> (r: Vec3Fx)
        requires
            self.in_range(),
        ensures
            r.x == tdiv(self.min.x + self.max.x, 2),
            r.y == tdiv(self.min.y + self.max.y, 2),
            r.z == tdiv(self.min.z + self.max.z, 2),
    {
        Vec3Fx {
            x: div_trunc((self.min.x as i128) + (self.max.x as i128), 2) as i64,
            y: div_trunc((self.min.y as i128) + (self.max.y as i128), 2) as i64,
            z: div_trunc((self.min.z as i128) + (self.max.z as i128), 2) as i64,
        }
    }

    /// Computes and returns the bounding box size.
    #[inline]
    pub fn get_size(&self) -> (r: Vec3Fx)
        requires
            self.in_range(),
        ensures
            r.x == self.max.x - self.min.x,
            r.y == self.max.y - self.min.y,
            r.z == self.max.z - self.min.z,
    {
        Vec3Fx {
            x: self.max.x - self.min.x,
            y: self.max.y - self.min.y,
            z: self.max.z - self.min.z,
        }
    }

    /// Returns a reference onto the minimum corner.
    #[inline]
    pub fn get_min(&self) -> (r: &Vec3Fx)
        ensures
            *r == self.min,
    {
        &self.min
    }

    /// Returns a reference onto the maximum corner.
    #[inline]
    pub fn get_max(&self) -> (r: &Vec3Fx)
        ensures
            *r == self.max,
    {
        &self.max
    }

    /// Returns the i-th corner, i.e., i == 0 => min and i == 1 => max.
    ///
    /// # Arguments
    /// * `i` - The index of the corner to return.
    #[inline]
    pub fn corner(&self, i: usize) -> (r: &Vec3Fx)
        requires
            i < 2,
        ensures
            *r == if i == 0 { self.min } else { self.max },
    {
        if i == 0 {
            &self.min
        } else {
            &self.max
        }
    }

    /// Returns true exactly when the point lies inside the volume.
    #[inline]
    pub fn contains_point(&self, p: &Vec3Fx) -> (r: bool)
        ensures
            r == self.spec_contains_point(*p),
    {
        self.min.x <= p.x && p.x <= self.max.x && self.min.y <= p.y && p.y <= self.max.y
            && self.min.z <= p.z && p.z <= self.max.z
    }

    /// Returns true exactly when the other volume's corner span lies inside
    /// this volume.
    #[inline]
    pub fn contains_aabb(&self, aabb: &AABB) -> (r: bool)
        ensures
            r == (self.min.x <= aabb.min.x && aabb.max.x <= self.max.x && self.min.y <= aabb.min.y
                && aabb.max.y <= self.max.y && self.min.z <= aabb.min.z
                && aabb.max.z <= self.max.z),
    {
        self.min.x <= aabb.min.x && aabb.max.x <= self.max.x && self.min.y <= aabb.min.y
            && aabb.max.y <= self.max.y && self.min.z <= aabb.min.z && aabb.max.z <= self.max.z
    }

    /// The squared distance between the volume and a point: the sum of the
    /// squared per-axis gaps.
    pub open spec fn spec_point_distance_squared(self, p: Vec3Fx) -> int {
        axis_gap(p.x as int, self.min.x as int, self.max.x as int) * axis_gap(
            p.x as int,
            self.min.x as int,
            self.max.x as int,
        ) + axis_gap(p.y as int, self.min.y as int, self.max.y as int) * axis_gap(
            p.y as int,
            self.min.y as int,
            self.max.y as int,
        ) + axis_gap(p.z as int, self.min.z as int, self.max.z as int) * axis_gap(
            p.z as int,
            self.min.z as int,
            self.max.z as int,
        )
    }

    /// Returns the squared euclidean distance between the volume and the given
    /// point: zero exactly on containment (for a non-empty volume), else the
    /// squared length of the difference between the point and its clamp to the
    /// corner span.
    ///
    /// # Arguments
    /// * `point` - The point to compute the squared distance to.
    pub fn point_distance_squared(&self, point: &Vec3Fx) -> (r: u128)
        requires
            self.in_range(),
            -AABB_COORD_LIMIT <= point.x <= AABB_COORD_LIMIT,
            -AABB_COORD_LIMIT <= point.y <= AABB_COORD_LIMIT,
            -AABB_COORD_LIMIT <= point.z <= AABB_COORD_LIMIT,
        ensures
            r == self.spec_point_distance_squared(*point),
            self.spec_contains_point(*point) ==> r == 0,
            !self.spec_is_empty() ==> (r == 0 <==> self.spec_contains_point(*point)),
    {
        let dx: i128 = Self::axis_gap_exec(point.x, self.min.x, self.max.x);
        let dy: i128 = Self::axis_gap_exec(point.y, self.min.y, self.max.y);
        let dz: i128 = Self::axis_gap_exec(point.z, self.min.z, self.max.z);
        proof {
            let b: int = 0x4000_0000_0000_0000;
            assert(0 <= dx * dx <= b * b && (dx != 0 ==> dx * dx > 0)) by (nonlinear_arith)
                requires
                    0 <= dx <= b,
            ;
            assert(0 <= dy * dy <= b * b && (dy != 0 ==> dy * dy > 0)) by (nonlinear_arith)
                requires
                    0 <= dy <= b,
            ;
            assert(0 <= dz * dz <= b * b && (dz != 0 ==> dz * dz > 0)) by (nonlinear_arith)
                requires
                    0 <= dz <= b,
            ;
        }
        (dx * dx + dy * dy + dz * dz) as u128
    }

    /// The per-axis gap used by the squared point distance.
    fn axis_gap_exec(v: i64, lo: i64, hi: i64) -> (r: i128)
        requires
            -AABB_COORD_LIMIT <= v <= AABB_COORD_LIMIT,
            -AABB_COORD_LIMIT <= lo <= AABB_COORD_LIMIT,
            -AABB_COORD_LIMIT <= hi <= AABB_COORD_LIMIT,
        ensures
            r == axis_gap(v as int, lo as int, hi as int),
            0 <= r <= 0x4000_0000_0000_0000,
    {
        if v < lo {
            (lo as i128) - (v as i128)
        } else if v > hi {
            (v as i128) - (hi as i128)
        } else {
            0
        }
    }
}

impl Default for AABB {
    /// The empty volume, as `new` builds it.
    #[inline]
    fn default() -> (r: Self)
        ensures
            r.spec_is_empty(),
    {
        Self::new()
    }
}

} // verus!

