//! Integer hashing behind the jitter and noise generators.
//!
//! The generators map a coordinate, given as the bit patterns of its
//! components, to pseudo-random 32-bit words; the conversion of those words
//! into fractions of one happens outside the verified core.
use vstd::prelude::*;

verus! {

/// Multiplier of the one-dimensional hash, and of the first lane of the others.
pub const K1: u32 = 0x456789ab;

/// Multiplier of the second lane.
pub const K2: u32 = 0x6789ab45;

/// Multiplier of the third lane.
pub const K3: u32 = 0x89ab4567;

/// One-lane xorshift hash.
pub open spec fn hash11(n: u32) -> u32 {
    let a = n ^ n.wrapping_shl(1);
    let b = a ^ a.wrapping_shr(1);
    let c = b.wrapping_mul(K1);
    let d = c ^ c.wrapping_shl(1);
    d.wrapping_mul(K1)
}

/// Two-lane xorshift hash; each lane mixes in the other one.
pub open spec fn hash22(x: u32, y: u32) -> (u32, u32) {
    let a0 = x ^ y.wrapping_shl(1);
    let a1 = y ^ x.wrapping_shl(2);
    let b0 = a0 ^ a1.wrapping_shr(1);
    let b1 = a1 ^ a0.wrapping_shr(2);
    let m0 = b0.wrapping_mul(K1);
    let m1 = b1.wrapping_mul(K2);
    let c0 = b0 ^ m1.wrapping_shl(1);
    let c1 = b1 ^ m0.wrapping_shl(2);
    (c0.wrapping_mul(K1), c1.wrapping_mul(K2))
}

/// Three-lane xorshift hash; lane `i` mixes in lane `i + 1` (cyclically).
pub open spec fn hash33(x: u32, y: u32, z: u32) -> (u32, u32, u32) {
    let a0 = x ^ y.wrapping_shl(1);
    let a1 = y ^ z.wrapping_shl(2);
    let a2 = z ^ x.wrapping_shl(3);
    let b0 = a0 ^ a1.wrapping_shr(1);
    let b1 = a1 ^ a2.wrapping_shr(2);
    let b2 = a2 ^ a0.wrapping_shr(3);
    let m0 = b0.wrapping_mul(K1);
    let m1 = b1.wrapping_mul(K2);
    let m2 = b2.wrapping_mul(K3);
    let c0 = b0 ^ m1.wrapping_shl(1);
    let c1 = b1 ^ m2.wrapping_shl(2);
    let c2 = b2 ^ m0.wrapping_shl(3);
    (c0.wrapping_mul(K1), c1.wrapping_mul(K2), c2.wrapping_mul(K3))
}

/// Xorshift-style integer hashes.
pub struct Xorshift {}

impl Xorshift {
    /// Hashes one word.
    pub fn uhash11(n: u32) -> (r: u32)
        ensures
            r == hash11(n),
    {
        let mut n = n;
        n = n ^ n.wrapping_shl(1);
        n = n ^ n.wrapping_shr(1);
        n = n.wrapping_mul(K1);
        n = n ^ n.wrapping_shl(1);
        n.wrapping_mul(K1)
    }

    /// Hashes two words into `r`.
    pub fn uhash22(nx: u32, ny: u32, r: &mut [u32; 2])
        ensures
            final(r)[0] == hash22(nx, ny).0,
            final(r)[1] == hash22(nx, ny).1,
    {
        let mut t0 = nx ^ ny.wrapping_shl(1);
        let mut t1 = ny ^ nx.wrapping_shl(2);
        let (x, y) = (t0, t1);
        t0 = t0 ^ y.wrapping_shr(1);
        t1 = t1 ^ x.wrapping_shr(2);
        let x = t0.wrapping_mul(K1);
        let y = t1.wrapping_mul(K2);
        t0 = t0 ^ y.wrapping_shl(1);
        t1 = t1 ^ x.wrapping_shl(2);
        *r = [t0.wrapping_mul(K1), t1.wrapping_mul(K2)];
    }

    /// Hashes three words into `r`.
    pub fn uhash33(nx: u32, ny: u32, nz: u32, r: &mut [u32; 3])
        ensures
            final(r)[0] == hash33(nx, ny, nz).0,
            final(r)[1] == hash33(nx, ny, nz).1,
            final(r)[2] == hash33(nx, ny, nz).2,
    {
        let mut t0 = nx ^ ny.wrapping_shl(1);
        let mut t1 = ny ^ nz.wrapping_shl(2);
        let mut t2 = nz ^ nx.wrapping_shl(3);
        let (x, y, z) = (t0, t1, t2);
        t0 = t0 ^ y.wrapping_shr(1);
        t1 = t1 ^ z.wrapping_shr(2);
        t2 = t2 ^ x.wrapping_shr(3);
        let x = t0.wrapping_mul(K1);
        let y = t1.wrapping_mul(K2);
        let z = t2.wrapping_mul(K3);
        t0 = t0 ^ y.wrapping_shl(1);
        t1 = t1 ^ z.wrapping_shl(2);
        t2 = t2 ^ x.wrapping_shl(3);
        *r = [t0.wrapping_mul(K1), t1.wrapping_mul(K2), t2.wrapping_mul(K3)];
    }
}

/// Value noise over the lattice of hashed cells.
pub struct Vnoise {}

/// Gradient noise with hashed unit gradients.
pub struct Gnoise {}

/// Perlin noise with gradients drawn from a fixed table.
pub struct Perlin {}

/// The legacy `fract(sin(x))` generator.
pub struct FractSin {}

/// A coordinate axis.
#[derive(Clone, Copy, Debug, PartialEq, Eq)]
pub enum Axis {
    X,
    Y,
    Z,
}

/// A table gradient in the plane, applied to an offset `(px, py)` as
/// `±(c·u) ± (s·v)`, where `(u, v)` is `(px, py)`, or `(py, px)` when swapped.
#[derive(Clone, Copy, Debug, PartialEq, Eq)]
pub struct Gradient2 {
    pub swap: bool,
    pub negate_u: bool,
    pub negate_v: bool,
}

/// A table gradient in space, applied to an offset as `±u ± v`, where `u` and
/// `v` are the offset's components along the two axes.
#[derive(Clone, Copy, Debug, PartialEq, Eq)]
pub struct Gradient3 {
    pub u: Axis,
    pub v: Axis,
    pub negate_u: bool,
    pub negate_v: bool,
}

/// The planar gradient of table entry `ind` (the top three bits of a hash).
pub open spec fn gradient2_of(ind: u32) -> Gradient2 {
    Gradient2 { swap: ind >= 4, negate_u: ind & 1 != 0, negate_v: ind & 2 != 0 }
}

/// The spatial gradient of table entry `ind` (the top four bits of a hash).
pub open spec fn gradient3_of(ind: u32) -> Gradient3 {
    Gradient3 {
        u: if ind < 8 { Axis::X } else { Axis::Y },
        v: if ind < 4 {
            Axis::Y
        } else if ind == 12 || ind == 14 {
            Axis::X
        } else {
            Axis::Z
        },
        negate_u: ind & 1 != 0,
        negate_v: ind & 2 != 0,
    }
}

impl Perlin {
    /// The gradient at the lattice point whose coordinates have the bit
    /// patterns `lx`, `ly`.
    pub fn gradient2(lx: u32, ly: u32) -> (g: Gradient2)
        ensures
            g == gradient2_of(hash22(lx, ly).0 >> 29u32),
    {
        let mut uh: [u32; 2] = [0, 0];
        Xorshift::uhash22(lx, ly, &mut uh);
        let ind: u32 = uh[0] >> 29u32;
        Gradient2 { swap: !(ind < 4), negate_u: (ind & 1) != 0, negate_v: (ind & 2) != 0 }
    }

    /// The gradient at the lattice point whose coordinates have the bit
    /// patterns `lx`, `ly`, `lz`.
    pub fn gradient3(lx: u32, ly: u32, lz: u32) -> (g: Gradient3)
        ensures
            g == gradient3_of(hash33(lx, ly, lz).0 >> 28u32),
    {
        let mut uh: [u32; 3] = [0, 0, 0];
        Xorshift::uhash33(lx, ly, lz, &mut uh);
        let ind: u32 = uh[0] >> 28u32;
        let u = if ind < 8 {
            Axis::X
        } else {
            Axis::Y
        };
        let v = if ind < 4 {
            Axis::Y
        } else if ind == 12 || ind == 14 {
            Axis::X
        } else {
            Axis::Z
        };
        Gradient3 { u, v, negate_u: (ind & 1) != 0, negate_v: (ind & 2) != 0 }
    }
}

} // verus!
