//! The bounce budget of a light path.
//!
//! A path starts at the camera with a budget of bounces. While budget is left
//! the scene is asked for the nearest hit of the current ray: a miss ends the
//! path on the background gradient, an absorbing surface ends it black, and a
//! scattering surface spends one bounce and continues with the scattered ray.
//! A path whose budget is spent ends black.

use vstd::prelude::*;

verus! {

/// What the scene did with a ray.
#[derive(Debug, Clone, Copy, PartialEq, Eq, Structural)]
pub enum Interaction {
    /// No object was hit.
    Missed,
    /// The surface hit absorbed the ray.
    Absorbed,
    /// The surface hit scattered the ray.
    Scattered,
}

/// How a path ends.
#[derive(Debug, Clone, Copy, PartialEq, Eq, Structural)]
pub enum PathEnd {
    /// The ray escaped: its color is the background gradient, weighted by the
    /// attenuation gathered along the path.
    Background,
    /// The path contributes no light.
    Black,
}

/// What the renderer does next with a path.
#[derive(Debug, Clone, Copy, PartialEq, Eq, Structural)]
pub enum Step {
    /// Ask the scene for the nearest hit of the current ray; `remaining` is
    /// the budget left, at least one.
    Trace { remaining: i32 },
    /// The path is finished.
    End { end: PathEnd },
}

pub open spec fn spec_start(max_bounces: int) -> Step {
    if max_bounces > 0 {
        Step::Trace { remaining: max_bounces as i32 }
    } else {
        Step::End { end: PathEnd::Black }
    }
}

pub open spec fn spec_advance(remaining: int, seen: Interaction) -> Step {
    match seen {
        Interaction::Missed => Step::End { end: PathEnd::Background },
        Interaction::Absorbed => Step::End { end: PathEnd::Black },
        Interaction::Scattered => spec_start(remaining - 1),
    }
}

/// The first step of a path allowed `max_bounces` bounces.
pub fn start(max_bounces: i32) -> (r: Step)
    ensures
        r == spec_start(max_bounces as int),
{
    if max_bounces > 0 {
        Step::Trace { remaining: max_bounces }
    } else {
        Step::End { end: PathEnd::Black }
    }
}

/// The step after the scene answered a `Trace` step whose budget was
/// `remaining`.
pub fn advance(remaining: i32, seen: Interaction) -> (r: Step)
    requires
        remaining > 0,
    ensures
        r == spec_advance(remaining as int, seen),
{
    match seen {
        Interaction::Missed => Step::End { end: PathEnd::Background },
        Interaction::Absorbed => Step::End { end: PathEnd::Black },
        Interaction::Scattered => start(remaining - 1),
    }
}

/// The number of times a path at `step` asks the scene for a hit when the
/// scene answers with `seen`, in order (a path still tracing when the answers
/// run out stops counting there).
pub open spec fn queries(step: Step, seen: Seq<Interaction>) -> nat
    decreases seen.len(),
{
    match step {
        Step::End { .. } => 0,
        Step::Trace { remaining } => if seen.len() == 0 {
            0
        } else {
            1 + queries(spec_advance(remaining as int, seen[0]), seen.drop_first())
        },
    }
}

proof fn lemma_queries_within_budget(remaining: int, seen: Seq<Interaction>)
    requires
        0 < remaining <= i32::MAX,
    ensures
        queries(Step::Trace { remaining: remaining as i32 }, seen) <= remaining,
    decreases seen.len(),
{
    if seen.len() > 0 {
        let next = spec_advance(remaining, seen[0]);
        assert(queries(Step::Trace { remaining: remaining as i32 }, seen) == 1 + queries(
            next,
            seen.drop_first(),
        ));
        if let Step::Trace { remaining: r } = next {
            assert(r == remaining - 1);
            lemma_queries_within_budget(r as int, seen.drop_first());
        }
    }
}

/// Whatever the scene answers, a path allowed `max_bounces` bounces asks it
/// for a hit at most `max_bounces` times, and never when `max_bounces` is not
/// positive.
pub proof fn lemma_path_bounded(max_bounces: i32, seen: Seq<Interaction>)
    ensures
        queries(spec_start(max_bounces as int), seen) <= if max_bounces > 0 {
            max_bounces as int
        } else {
            0
        },
{
    if max_bounces > 0 {
        lemma_queries_within_budget(max_bounces as int, seen);
    }
}

} // verus!
