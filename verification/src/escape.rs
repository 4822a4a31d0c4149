//! The count of the escape-time algorithm: how many steps an orbit takes
//! before a test on it fails or the iteration bound is reached.
//!
//! The orbit itself is not held here. What is held is the outcome of the test
//! on each of its points, the first point being the start of the orbit.

use vstd::prelude::*;

verus! {

/// The escape time that the test outcomes `within` give under the cap
/// `bound`: the number of leading outcomes that passed, at most `bound`.
/// `within[k]` is the outcome on point `k` of the orbit; a point past the end
/// of `within` counts as failed.
pub open spec fn escape_count(within: Seq<bool>, bound: nat) -> nat
    decreases bound,
{
    if bound == 0 || within.len() == 0 || !within[0] {
        0
    } else {
        1 + escape_count(within.drop_first(), (bound - 1) as nat)
    }
}

/// The running count of one orbit: the steps taken so far, and their cap.
#[derive(Clone, Copy, Debug, PartialEq, Eq, Structural)]
pub struct EscapeCounter {
    pub iteration: usize,
    pub bound: usize,
}

impl EscapeCounter {
    /// The count has not passed the cap.
    pub open spec fn wf(&self) -> bool {
        self.iteration <= self.bound
    }

    /// A counter at zero under the cap `bound`.
    pub fn start(bound: usize) -> (c: EscapeCounter)
        ensures
            c.iteration == 0,
            c.bound == bound,
            c.wf(),
    {
        EscapeCounter { iteration: 0, bound }
    }

    /// Decides whether the orbit takes one more step, given the outcome
    /// `within_radius` of the test on its current point. It does, and the
    /// step is counted, when the test passed and the count is below the cap.
    /// Otherwise the count stays: it is the escape time.
    pub fn advance(&mut self, within_radius: bool) -> (go_on: bool)
        requires
            old(self).wf(),
        ensures
            go_on <==> within_radius && old(self).iteration < old(self).bound,
            final(self).bound == old(self).bound,
            final(self).iteration == if go_on {
                old(self).iteration + 1
            } else {
                old(self).iteration as int
            },
            final(self).wf(),
    {
        if within_radius && self.iteration < self.bound {
            self.iteration = self.iteration + 1;
            true
        } else {
            false
        }
    }
}

/// The escape time of an orbit whose test outcomes are `within`, under the
/// cap `bound`: the place of the first outcome that failed, or `bound` if
/// none of the first `bound` did.
pub fn escape_time_of(within: &Vec<bool>, bound: usize) -> (n: usize)
    ensures
        n == escape_count(within@, bound as nat),
        n <= bound,
        n <= within@.len(),
        forall|k: int| 0 <= k < n ==> within@[k],
        n < bound && n < within@.len() ==> !within@[n as int],
{
    let mut counter = EscapeCounter::start(bound);
    loop
        invariant
            counter.wf(),
            counter.bound == bound,
            counter.iteration <= within@.len(),
            forall|k: int| 0 <= k < counter.iteration ==> within@[k],
        ensures
            counter.iteration <= bound,
            counter.iteration <= within@.len(),
            forall|k: int| 0 <= k < counter.iteration ==> within@[k],
            counter.iteration < bound && counter.iteration < within@.len() ==> !within@[counter.iteration as int],
        decreases bound - counter.iteration,
    {
        if counter.iteration >= within.len() {
            break;
        }
        let within_radius: bool = within[counter.iteration];
        let go_on: bool = counter.advance(within_radius);
        if !go_on {
            break;
        }
    }
    proof {
        lemma_escape_count_unique(within@, bound as nat, counter.iteration as nat);
    }
    counter.iteration
}

/// The escape count passes neither the cap nor the end of the outcomes, every
/// outcome before it passed, and the outcome at it, if there is one below the
/// cap, failed.
pub proof fn lemma_escape_count_stops(within: Seq<bool>, bound: nat)
    ensures
        escape_count(within, bound) <= bound,
        escape_count(within, bound) <= within.len(),
        forall|k: int| 0 <= k < escape_count(within, bound) ==> within[k],
        escape_count(within, bound) < bound && escape_count(within, bound) < within.len()
            ==> !within[escape_count(within, bound) as int],
    decreases bound,
{
    if bound == 0 || within.len() == 0 || !within[0] {
    } else {
        let rest = within.drop_first();
        let below = (bound - 1) as nat;
        lemma_escape_count_stops(rest, below);
        assert forall|k: int| 0 <= k < escape_count(within, bound) implies within[k] by {
            if k > 0 {
                assert(rest[k - 1] == within[k]);
            }
        }
        let n = escape_count(rest, below);
        if n < below && n < rest.len() {
            assert(rest[n as int] == within[n as int + 1]);
        }
    }
}

/// The number that stops as the escape count does is the escape count.
pub proof fn lemma_escape_count_unique(within: Seq<bool>, bound: nat, n: nat)
    requires
        n <= bound,
        n <= within.len(),
        forall|k: int| 0 <= k < n ==> within[k],
        n < bound && n < within.len() ==> !within[n as int],
    ensures
        escape_count(within, bound) == n,
{
    lemma_escape_count_stops(within, bound);
    let c = escape_count(within, bound);
    if c < n {
        assert(within[c as int]);
    } else if n < c {
        assert(within[n as int]);
    }
}

/// An orbit whose first point passes the test has an escape time of at least
/// 1 and at most the cap.
pub proof fn lemma_escape_count_range(within: Seq<bool>, bound: nat)
    requires
        bound >= 1,
        within.len() >= 1,
        within[0],
    ensures
        1 <= escape_count(within, bound) <= bound,
{
    lemma_escape_count_stops(within, bound);
}

/// An orbit that passes the first test and fails the second has escape time
/// 1, whatever the cap.
pub proof fn lemma_escapes_at_once(within: Seq<bool>, bound: nat)
    requires
        bound >= 1,
        within.len() >= 2,
        within[0],
        !within[1],
    ensures
        escape_count(within, bound) == 1,
{
    lemma_escape_count_unique(within, bound, 1);
}

/// An orbit that passes every test up to the cap has the cap as its escape
/// time.
pub proof fn lemma_never_escapes(within: Seq<bool>, bound: nat)
    requires
        within.len() >= bound,
        forall|k: int| 0 <= k < bound ==> within[k],
    ensures
        escape_count(within, bound) == bound,
{
    lemma_escape_count_unique(within, bound, bound);
}

/// Raising the cap never lowers the escape time, and changes it only where it
/// had reached the lower cap.
pub proof fn lemma_escape_count_monotone(within: Seq<bool>, lower: nat, upper: nat)
    requires
        lower <= upper,
    ensures
        escape_count(within, lower) <= escape_count(within, upper),
        escape_count(within, lower) == if escape_count(within, upper) <= lower {
            escape_count(within, upper)
        } else {
            lower
        },
{
    lemma_escape_count_stops(within, upper);
    let c = escape_count(within, upper);
    let n = if c <= lower { c } else { lower };
    lemma_escape_count_unique(within, lower, n);
}

/// The escape time depends on the outcomes below the cap alone: two orbits
/// whose outcomes agree there have the same escape time.
pub proof fn lemma_escape_count_agrees(first: Seq<bool>, second: Seq<bool>, bound: nat)
    requires
        first.len() >= bound,
        second.len() >= bound,
        forall|k: int| 0 <= k < bound ==> first[k] == second[k],
    ensures
        escape_count(first, bound) == escape_count(second, bound),
{
    lemma_escape_count_stops(first, bound);
    lemma_escape_count_unique(second, bound, escape_count(first, bound));
}

} // verus!
