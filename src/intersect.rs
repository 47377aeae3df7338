//! Choice of the hit that a ray reports: the nearer root of a primitive that
//! lies strictly inside the parameter interval, and the nearest such root over
//! a whole scene.
//!
//! Ray parameters are compared through order keys: a key is a 32-bit word
//! computed from the bit pattern of a (non-NaN) `f32`, such that comparing keys
//! compares the floats, with `-0.0` and `+0.0` sharing one key.
use vstd::prelude::*;

verus! {

/// Sign bit of an `f32` bit pattern.
pub const SIGN: u32 = 0x8000_0000;

/// The order key of the bit pattern `bits`.
pub open spec fn key_of(bits: u32) -> u32 {
    if bits == SIGN {
        SIGN
    } else if bits > SIGN {
        (u32::MAX - bits) as u32
    } else {
        (bits + SIGN) as u32
    }
}

/// The order key of the `f32` whose bit pattern is `bits`.
pub fn order_key(bits: u32) -> (k: u32)
    ensures
        k == key_of(bits),
{
    if bits == SIGN {
        SIGN
    } else if bits > SIGN {
        u32::MAX - bits
    } else {
        bits + SIGN
    }
}

/// A bit pattern with order key `k`; zero comes back as `+0.0`.
pub fn key_bits(k: u32) -> (bits: u32)
    ensures
        k != SIGN - 1 ==> key_of(bits) == k,
        k == SIGN ==> bits == 0,
{
    if k >= SIGN {
        k - SIGN
    } else {
        u32::MAX - k
    }
}

/// The two roots of a primitive along a ray, as order keys, nearer first.
#[derive(Clone, Copy, Debug, PartialEq, Eq)]
pub struct Roots {
    pub near: u32,
    pub far: u32,
}

impl Roots {
    /// The nearer root does not lie beyond the farther one.
    pub open spec fn wf(self) -> bool {
        self.near <= self.far
    }

    /// The roots `a` and `b`, in either order.
    pub fn new(a: u32, b: u32) -> (r: Roots)
        ensures
            r.wf(),
            (r.near == a && r.far == b) || (r.near == b && r.far == a),
    {
        if a <= b {
            Roots { near: a, far: b }
        } else {
            Roots { near: b, far: a }
        }
    }
}

/// `t` lies strictly between `lo` and `hi`.
pub open spec fn inside(t: u32, lo: u32, hi: u32) -> bool {
    lo < t && t < hi
}

/// The root reported for interval `(lo, hi)`: the nearer one if it lies
/// inside, else the farther one if it does; none for a miss.
pub open spec fn pick(r: Option<Roots>, lo: u32, hi: u32) -> Option<u32> {
    match r {
        None => None,
        Some(r) => if inside(r.near, lo, hi) {
            Some(r.near)
        } else if inside(r.far, lo, hi) {
            Some(r.far)
        } else {
            None
        },
    }
}

/// The smaller of two optional keys, a missing one counting as infinite.
pub open spec fn min_key(a: Option<u32>, b: Option<u32>) -> Option<u32> {
    match (a, b) {
        (None, _) => b,
        (_, None) => a,
        (Some(x), Some(y)) => if y < x {
            Some(y)
        } else {
            Some(x)
        },
    }
}

/// The nearest root inside `(lo, hi)` over all the primitives of `c`.
pub open spec fn nearest(c: Seq<Option<Roots>>, lo: u32, hi: u32) -> Option<u32>
    decreases c.len(),
{
    if c.len() == 0 {
        None
    } else {
        min_key(nearest(c.drop_last(), lo, hi), pick(c.last(), lo, hi))
    }
}

/// Every primitive of `c` has well-ordered roots.
pub open spec fn all_wf(c: Seq<Option<Roots>>) -> bool {
    forall|i: int| 0 <= i < c.len() && (#[trigger] c[i]).is_some() ==> c[i].unwrap().wf()
}

/// The root of one primitive reported for the interval `(lo, hi)`.
pub fn select_root(r: Option<Roots>, lo: u32, hi: u32) -> (t: Option<u32>)
    ensures
        t == pick(r, lo, hi),
        r.is_some() && r.unwrap().wf() ==> match t {
            None => !inside(r.unwrap().near, lo, hi) && !inside(r.unwrap().far, lo, hi),
            Some(v) => inside(v, lo, hi) && (v == r.unwrap().near || v == r.unwrap().far) && (
            inside(r.unwrap().near, lo, hi) ==> v <= r.unwrap().near),
        },
{
    match r {
        None => None,
        Some(r) => {
            if lo < r.near && r.near < hi {
                Some(r.near)
            } else if lo < r.far && r.far < hi {
                Some(r.far)
            } else {
                None
            }
        },
    }
}

/// The nearest hit of a scene: which primitive, and at which key.
#[derive(Clone, Copy, Debug, PartialEq, Eq)]
pub struct Hit {
    pub index: usize,
    pub t: u32,
}

proof fn lemma_pick_tighter(r: Option<Roots>, lo: u32, hi: u32, m: u32)
    requires
        m <= hi,
        r.is_some() ==> r.unwrap().wf(),
    ensures
        pick(r, lo, m) == (match pick(r, lo, hi) {
            Some(u) => if u < m {
                Some(u)
            } else {
                None
            },
            None => None,
        }),
{
}

/// Tests the primitives in order, each against the interval up to the nearest
/// hit found so far, and reports the nearest hit overall. Among primitives
/// hit at the same key, the first one is reported.
pub fn nearest_hit(c: &Vec<Option<Roots>>, lo: u32, hi: u32) -> (r: Option<Hit>)
    requires
        all_wf(c@),
    ensures
        r.is_none() <==> nearest(c@, lo, hi).is_none(),
        r.is_some() ==> {
            let h = r.unwrap();
            &&& nearest(c@, lo, hi) == Some(h.t)
            &&& h.index < c.len()
            &&& pick(c@[h.index as int], lo, hi) == Some(h.t)
            &&& forall|j: int| 0 <= j < h.index ==> pick(#[trigger] c@[j], lo, hi) != Some(h.t)
        },
{
    let mut closest: u32 = hi;
    let mut hit: Option<Hit> = None;
    let mut i: usize = 0;
    while i < c.len()
        invariant
            i <= c.len(),
            all_wf(c@),
            hit.is_none() <==> nearest(c@.subrange(0, i as int), lo, hi).is_none(),
            hit.is_none() ==> closest == hi,
            hit.is_some() ==> {
                let h = hit.unwrap();
                &&& nearest(c@.subrange(0, i as int), lo, hi) == Some(h.t)
                &&& closest == h.t
                &&& h.t < hi
                &&& h.index < i
                &&& pick(c@[h.index as int], lo, hi) == Some(h.t)
                &&& forall|j: int| 0 <= j < h.index ==> pick(#[trigger] c@[j], lo, hi) != Some(h.t)
            },
            forall|j: int|
                0 <= j < i ==> match #[trigger] pick(c@[j], lo, hi) {
                    Some(u) => closest <= u,
                    None => true,
                },
        decreases c.len() - i,
    {
        let ghost prefix = c@.subrange(0, i as int);
        let ghost next = c@.subrange(0, i + 1);
        assert(next.drop_last() =~= prefix);
        assert(next.last() == c@[i as int]);
        proof {
            lemma_pick_tighter(c@[i as int], lo, hi, closest);
        }
        match select_root(c[i], lo, closest) {
            Some(t) => {
                hit = Some(Hit { index: i, t });
                closest = t;
            },
            None => {},
        }
        i = i + 1;
    }
    assert(c@.subrange(0, i as int) =~= c@);
    hit
}

proof fn lemma_nearest_char(c: Seq<Option<Roots>>, lo: u32, hi: u32)
    ensures
        nearest(c, lo, hi).is_none() <==> forall|i: int|
            0 <= i < c.len() ==> (#[trigger] pick(c[i], lo, hi)).is_none(),
        nearest(c, lo, hi).is_some() ==> {
            let t = nearest(c, lo, hi).unwrap();
            &&& exists|i: int| 0 <= i < c.len() && #[trigger] pick(c[i], lo, hi) == Some(t)
            &&& forall|i: int|
                0 <= i < c.len() && (#[trigger] pick(c[i], lo, hi)).is_some() ==> t <= pick(
                    c[i],
                    lo,
                    hi,
                ).unwrap()
        },
    decreases c.len(),
{
    if c.len() > 0 {
        let p = c.drop_last();
        lemma_nearest_char(p, lo, hi);
        assert(forall|i: int| 0 <= i < p.len() ==> p[i] == c[i]);
        let n = c.len() - 1;
        if nearest(c, lo, hi).is_some() {
            let t = nearest(c, lo, hi).unwrap();
            if pick(c[n], lo, hi) == Some(t) {
                assert(pick(c[n], lo, hi) == Some(t));
            } else {
                let i = choose|i: int| 0 <= i < p.len() && #[trigger] pick(p[i], lo, hi) == Some(t);
                assert(pick(c[i], lo, hi) == Some(t));
            }
        }
    }
}

/// The nearest hit does not depend on the order in which the primitives are
/// listed.
pub proof fn lemma_nearest_order_free(c1: Seq<Option<Roots>>, c2: Seq<Option<Roots>>, lo: u32, hi: u32)
    requires
        c1.to_multiset() == c2.to_multiset(),
    ensures
        nearest(c1, lo, hi) == nearest(c2, lo, hi),
{
    lemma_nearest_char(c1, lo, hi);
    lemma_nearest_char(c2, lo, hi);
    assert forall|i: int| 0 <= i < c1.len() implies exists|j: int|
        0 <= j < c2.len() && c2[j] == #[trigger] c1[i] by {
        c1.to_multiset_ensures();
        c2.to_multiset_ensures();
        assert(c1.contains(c1[i]));
        assert(c1.to_multiset().count(c1[i]) > 0);
        assert(c2.contains(c1[i]));
    }
    assert forall|j: int| 0 <= j < c2.len() implies exists|i: int|
        0 <= i < c1.len() && c1[i] == #[trigger] c2[j] by {
        c1.to_multiset_ensures();
        c2.to_multiset_ensures();
        assert(c2.contains(c2[j]));
        assert(c2.to_multiset().count(c2[j]) > 0);
        assert(c1.contains(c2[j]));
    }
    if nearest(c1, lo, hi).is_none() {
        assert forall|j: int| 0 <= j < c2.len() implies (#[trigger] pick(c2[j], lo, hi)).is_none() by {
            let i = choose|i: int| 0 <= i < c1.len() && c1[i] == c2[j];
            assert(pick(c1[i], lo, hi).is_none());
        }
    } else if nearest(c2, lo, hi).is_none() {
        assert forall|i: int| 0 <= i < c1.len() implies (#[trigger] pick(c1[i], lo, hi)).is_none() by {
            let j = choose|j: int| 0 <= j < c2.len() && c2[j] == c1[i];
            assert(pick(c2[j], lo, hi).is_none());
        }
    } else {
        let t1 = nearest(c1, lo, hi).unwrap();
        let t2 = nearest(c2, lo, hi).unwrap();
        let i1 = choose|i: int| 0 <= i < c1.len() && #[trigger] pick(c1[i], lo, hi) == Some(t1);
        let j1 = choose|j: int| 0 <= j < c2.len() && c2[j] == c1[i1];
        assert(pick(c2[j1], lo, hi) == Some(t1));
        let j2 = choose|j: int| 0 <= j < c2.len() && #[trigger] pick(c2[j], lo, hi) == Some(t2);
        let i2 = choose|i: int| 0 <= i < c1.len() && c1[i] == c2[j2];
        assert(pick(c1[i2], lo, hi) == Some(t2));
    }
}

} // verus!
