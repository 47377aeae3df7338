//! The termination and attenuation policy of the diffuse shading recursion.
//!
//! Shading a ray with bounce budget `k` gives black when `k <= 0`; otherwise,
//! when the ray misses the scene, the sky colour of the ray; otherwise half of
//! the shading of the bounced ray with budget `k - 1`. What a path yields is
//! thus determined by its budget and by which of its rays hit: black, or the
//! sky colour of its last ray scaled by `0.5` once per bounce. The geometry of
//! the rays stays with the caller, which reports for each ray whether it hit.
use vstd::prelude::*;

verus! {

/// What a ray path yields.
#[derive(Clone, Copy, Debug, PartialEq, Eq)]
pub enum Shade {
    /// The budget ran out: black.
    Black,
    /// The sky colour of the last ray, halved `halvings` times.
    Sky { halvings: u32 },
}

/// One more bounce: the shade halved once more.
pub open spec fn attenuate(s: Shade) -> Shade {
    match s {
        Shade::Black => Shade::Black,
        Shade::Sky { halvings } => Shade::Sky { halvings: (halvings + 1) as u32 },
    }
}

/// `attenuate` applied `n` times.
pub open spec fn attenuate_n(s: Shade, n: nat) -> Shade
    decreases n,
{
    if n == 0 {
        s
    } else {
        attenuate(attenuate_n(s, (n - 1) as nat))
    }
}

/// The shade of a path with bounce budget `k` whose successive rays hit the
/// scene as `hits` says (a ray past the end of `hits` misses).
pub open spec fn color(k: int, hits: Seq<bool>) -> Shade
    decreases hits.len(),
{
    if k <= 0 {
        Shade::Black
    } else if hits.len() == 0 || !hits[0] {
        Shade::Sky { halvings: 0 }
    } else {
        attenuate(color(k - 1, hits.drop_first()))
    }
}

/// The state of a path being traced: the budget left and the bounces so far.
#[derive(Clone, Copy, Debug, PartialEq, Eq)]
pub struct Path {
    pub depth: i32,
    pub bounces: u32,
}

/// What follows one ray of a path.
#[derive(Clone, Copy, Debug, PartialEq, Eq)]
pub enum Step {
    /// The path ends with this shade.
    Done(Shade),
    /// The ray hit: trace the bounced ray from this state.
    Bounce(Path),
}

/// The shade that tracing from `p` yields, when its rays hit as `hits` says.
pub open spec fn run(p: Path, hits: Seq<bool>) -> Shade
    decreases hits.len(),
{
    if p.depth <= 0 {
        Shade::Black
    } else if hits.len() == 0 || !hits[0] {
        Shade::Sky { halvings: p.bounces }
    } else {
        run(Path { depth: (p.depth - 1) as i32, bounces: (p.bounces + 1) as u32 }, hits.drop_first())
    }
}

impl Path {
    /// Budget and bounces together fit the budget's type.
    pub open spec fn wf(self) -> bool {
        self.depth > 0 ==> self.bounces + self.depth <= i32::MAX
    }

    /// A fresh path with bounce budget `depth`.
    pub fn start(depth: i32) -> (p: Path)
        ensures
            p.wf(),
            p.depth == depth,
            p.bounces == 0,
    {
        Path { depth, bounces: 0 }
    }

    /// The budget is spent: the path yields black whatever its ray does.
    pub fn exhausted(&self) -> (r: bool)
        ensures
            r == (self.depth <= 0),
    {
        self.depth <= 0
    }

    /// The next step, given whether the current ray hit the scene.
    pub fn step(&self, hit: bool) -> (s: Step)
        requires
            self.wf(),
        ensures
            self.depth <= 0 ==> s == Step::Done(Shade::Black),
            self.depth > 0 && !hit ==> s == Step::Done(Shade::Sky { halvings: self.bounces }),
            self.depth > 0 && hit ==> s == Step::Bounce(
                Path { depth: (self.depth - 1) as i32, bounces: (self.bounces + 1) as u32 },
            ),
            s matches Step::Bounce(p) ==> p.wf(),
    {
        if self.depth <= 0 {
            Step::Done(Shade::Black)
        } else if !hit {
            Step::Done(Shade::Sky { halvings: self.bounces })
        } else {
            Step::Bounce(Path { depth: self.depth - 1, bounces: self.bounces + 1 })
        }
    }
}

proof fn lemma_attenuate_n_succ(s: Shade, n: nat)
    ensures
        attenuate_n(attenuate(s), n) == attenuate(attenuate_n(s, n)),
    decreases n,
{
    if n > 0 {
        lemma_attenuate_n_succ(s, (n - 1) as nat);
    }
}

proof fn lemma_color_halvings(k: int, hits: Seq<bool>)
    ensures
        color(k, hits) matches Shade::Sky { halvings } ==> 0 <= halvings < k,
    decreases hits.len(),
{
    if k > 0 && hits.len() > 0 && hits[0] {
        lemma_color_halvings(k - 1, hits.drop_first());
    }
}

proof fn lemma_run_color(p: Path, hits: Seq<bool>)
    requires
        p.wf(),
    ensures
        run(p, hits) == attenuate_n(color(p.depth as int, hits), p.bounces as nat),
    decreases hits.len(),
{
    if p.depth <= 0 {
        assert(attenuate_n(Shade::Black, p.bounces as nat) == Shade::Black) by {
            lemma_attenuate_n_black(p.bounces as nat);
        }
    } else if hits.len() == 0 || !hits[0] {
        lemma_attenuate_n_sky(0, p.bounces as nat);
    } else {
        let q = Path { depth: (p.depth - 1) as i32, bounces: (p.bounces + 1) as u32 };
        lemma_run_color(q, hits.drop_first());
        let rest = color(p.depth - 1, hits.drop_first());
        lemma_attenuate_n_succ(rest, p.bounces as nat);
        assert(attenuate_n(rest, (p.bounces + 1) as nat) == attenuate(
            attenuate_n(rest, p.bounces as nat),
        ));
    }
}

proof fn lemma_attenuate_n_black(n: nat)
    ensures
        attenuate_n(Shade::Black, n) == Shade::Black,
    decreases n,
{
    if n > 0 {
        lemma_attenuate_n_black((n - 1) as nat);
    }
}

proof fn lemma_attenuate_n_sky(h: u32, n: nat)
    requires
        h + n <= u32::MAX,
    ensures
        attenuate_n(Shade::Sky { halvings: h }, n) == (Shade::Sky { halvings: (h + n) as u32 }),
    decreases n,
{
    if n > 0 {
        lemma_attenuate_n_sky(h, (n - 1) as nat);
    }
}

/// Tracing step by step from a fresh path yields what the recursion yields.
pub proof fn lemma_steps_match_recursion(depth: i32, hits: Seq<bool>)
    ensures
        run(Path { depth, bounces: 0 }, hits) == color(depth as int, hits),
{
    lemma_run_color(Path { depth, bounces: 0 }, hits);
}

/// With no bounce budget left a path is black, whatever its rays hit.
pub proof fn lemma_no_budget_black(k: i32, hits: Seq<bool>)
    requires
        k <= 0,
    ensures
        color(k as int, hits) == Shade::Black,
{
}

/// With budget `k > 0`, a ray that hits yields the shade of the bounced path
/// (budget `k - 1`) halved once: black stays black, and a sky colour carries
/// one more factor of `0.5`.
pub proof fn lemma_bounce_halves(k: i32, hits: Seq<bool>)
    requires
        k > 0,
        hits.len() > 0,
        hits[0],
    ensures
        color(k as int, hits) == attenuate(color(k - 1, hits.drop_first())),
        color(k as int, hits) matches Shade::Sky { halvings } ==> halvings >= 1,
{
    lemma_color_halvings(k - 1, hits.drop_first());
}

} // verus!
