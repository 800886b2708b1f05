//! Positions, distances and the distance-dependent gains of the direct path.
use vstd::prelude::*;

verus! {

/// Fixed-point value of a factor of one, for the settings that do not
/// depend on distance.
pub const GAIN_ONE: u64 = 1_000_000;

/// Square millimetres in one square world unit: the inverse-distance gain
/// is one at one world unit.
pub const MM_SQ_PER_UNIT_SQ: u128 = 1_000_000;

/// Air absorption in the low, middle and high bands, in tenths of the
/// inverse-distance gain.
pub const AIR_ABSORPTION_TENTHS_LOW: u64 = 30;

pub const AIR_ABSORPTION_TENTHS_MID: u64 = 20;

pub const AIR_ABSORPTION_TENTHS_HIGH: u64 = 25;

/// A value for each of the low, middle and high frequency bands.
#[derive(Debug, Clone, Copy, PartialEq, Eq, Structural)]
pub struct Bands {
    pub low: u64,
    pub mid: u64,
    pub high: u64,
}

/// Transmission through occluders in the low, middle and high bands, in
/// units of `GAIN_ONE`.
pub const TRANSMISSION_LOW: u64 = 300_000;

pub const TRANSMISSION_MID: u64 = 200_000;

pub const TRANSMISSION_HIGH: u64 = 100_000;

/// A point or a direction, in millimetres.
#[derive(Debug, Clone, Copy, PartialEq, Eq, Structural)]
pub struct Vec3 {
    pub x: i32,
    pub y: i32,
    pub z: i32,
}

/// Where a source or a receiver is, and which way it faces.
#[derive(Debug, Clone, Copy, PartialEq, Eq, Structural)]
pub struct Transform {
    pub pos: Vec3,
    pub forward: Vec3,
}

/// The vector from one point to another, in millimetres.
#[derive(Debug, Clone, Copy, PartialEq, Eq, Structural)]
pub struct Offset {
    pub x: i64,
    pub y: i64,
    pub z: i64,
}

pub open spec fn offset_between(from: Vec3, to: Vec3) -> Offset {
    Offset {
        x: (to.x - from.x) as i64,
        y: (to.y - from.y) as i64,
        z: (to.z - from.z) as i64,
    }
}

/// Squared distance between two points, in square millimetres.
pub open spec fn dist_sq(a: Vec3, b: Vec3) -> nat {
    ((a.x - b.x) * (a.x - b.x) + (a.y - b.y) * (a.y - b.y) + (a.z - b.z) * (a.z - b.z)) as nat
}

pub fn offset(from: Vec3, to: Vec3) -> (r: Offset)
    ensures
        r == offset_between(from, to),
{
    Offset {
        x: to.x as i64 - from.x as i64,
        y: to.y as i64 - from.y as i64,
        z: to.z as i64 - from.z as i64,
    }
}

proof fn lemma_square_bound(d: int)
    requires
        -0x1_0000_0000 < d < 0x1_0000_0000,
    ensures
        0 <= d * d <= 0x1_0000_0000_0000_0000,
{
    assert(0 <= d * d <= 0x1_0000_0000_0000_0000) by (nonlinear_arith)
        requires
            -0x1_0000_0000 < d < 0x1_0000_0000,
    ;
}

/// Squared distances between `i32` points fit in a `u128`.
pub proof fn lemma_dist_sq_fits(a: Vec3, b: Vec3)
    ensures
        dist_sq(a, b) <= 3 * 0x1_0000_0000_0000_0000,
{
    lemma_square_bound(a.x - b.x);
    lemma_square_bound(a.y - b.y);
    lemma_square_bound(a.z - b.z);
}

pub fn distance_squared(a: Vec3, b: Vec3) -> (r: u128)
    ensures
        r == dist_sq(a, b),
{
    let dx = a.x as i128 - b.x as i128;
    let dy = a.y as i128 - b.y as i128;
    let dz = a.z as i128 - b.z as i128;
    proof {
        lemma_square_bound(dx as int);
        lemma_square_bound(dy as int);
        lemma_square_bound(dz as int);
    }
    (dx * dx + dy * dy + dz * dz) as u128
}


/// A fraction `num / den`, held exactly.
#[derive(Debug, Clone, Copy, PartialEq, Eq, Structural)]
pub struct Ratio {
    pub num: u128,
    pub den: u128,
}

/// `a > b` as fractions with positive denominators.
pub open spec fn ratio_gt(a: Ratio, b: Ratio) -> bool {
    a.num * b.den > b.num * a.den
}

/// The square of the inverse-distance gain at squared distance `d_sq`
/// (square millimetres): `(1 unit / distance)^2 = MM_SQ_PER_UNIT_SQ / d_sq`,
/// exactly. The gain itself is its square root.
pub open spec fn gain_sq_at(d_sq: nat) -> Ratio {
    Ratio { num: MM_SQ_PER_UNIT_SQ, den: d_sq as u128 }
}

/// The inverse-distance gain is positive at every positive distance, and a
/// nearer source is strictly louder than a farther one.
pub proof fn lemma_gain_decreases_with_distance(d1: nat, d2: nat)
    requires
        0 < d1 < d2 <= u128::MAX,
    ensures
        gain_sq_at(d1).num > 0 && gain_sq_at(d1).den > 0,
        gain_sq_at(d2).num > 0 && gain_sq_at(d2).den > 0,
        ratio_gt(gain_sq_at(d1), gain_sq_at(d2)),
{
}

/// Square of the direct path's gain at squared distance `d_sq`.
pub fn attenuation_sq(d_sq: u128) -> (r: Ratio)
    requires
        d_sq > 0,
    ensures
        r == gain_sq_at(d_sq as nat),
{
    Ratio { num: MM_SQ_PER_UNIT_SQ, den: d_sq }
}

/// Settings of the direct-path stage for one source and one receiver.
#[derive(Debug, Clone, Copy, PartialEq, Eq, Structural)]
pub struct DirectParams {
    /// Squared distance, in square millimetres.
    pub distance_sq: u128,
    /// Square of the inverse-distance gain.
    pub attenuation_sq: Ratio,
    /// Air absorption per band, in tenths of the inverse-distance gain.
    pub air_absorption_tenths: Bands,
    /// Omnidirectional: `GAIN_ONE` in every direction.
    pub directivity: u64,
    pub occlusion: u64,
    /// Transmission through occluders per band, in units of `GAIN_ONE`.
    pub transmission: Bands,
}

/// The direct-path settings at squared distance `d_sq`.
pub open spec fn direct_params_at(d_sq: nat) -> DirectParams {
    DirectParams {
        distance_sq: d_sq as u128,
        attenuation_sq: gain_sq_at(d_sq),
        air_absorption_tenths: Bands {
            low: AIR_ABSORPTION_TENTHS_LOW,
            mid: AIR_ABSORPTION_TENTHS_MID,
            high: AIR_ABSORPTION_TENTHS_HIGH,
        },
        directivity: GAIN_ONE,
        occlusion: 0,
        transmission: Bands { low: TRANSMISSION_LOW, mid: TRANSMISSION_MID, high: TRANSMISSION_HIGH },
    }
}

pub fn direct_params(d_sq: u128) -> (r: DirectParams)
    requires
        d_sq > 0,
    ensures
        r == direct_params_at(d_sq as nat),
{
    DirectParams {
        distance_sq: d_sq,
        attenuation_sq: attenuation_sq(d_sq),
        air_absorption_tenths: Bands {
            low: AIR_ABSORPTION_TENTHS_LOW,
            mid: AIR_ABSORPTION_TENTHS_MID,
            high: AIR_ABSORPTION_TENTHS_HIGH,
        },
        directivity: GAIN_ONE,
        occlusion: 0,
        transmission: Bands { low: TRANSMISSION_LOW, mid: TRANSMISSION_MID, high: TRANSMISSION_HIGH },
    }
}

} // verus!
