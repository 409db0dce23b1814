use vstd::prelude::*;

verus! {

/// What one trace of a path's current ray found.
#[derive(Clone, Copy, Debug, PartialEq, Eq, Structural)]
pub enum Outcome {
    /// The ray left the scene without hitting anything.
    Miss,
    /// The ray hit a surface whose material sent it on.
    Scattered,
    /// The ray hit a surface whose material absorbed it.
    Absorbed,
}

/// The light a finished path ends on.
#[derive(Clone, Copy, Debug, PartialEq, Eq, Structural)]
pub enum Terminal {
    /// No light: the ray was absorbed or the bounce limit was reached.
    Black,
    /// The sky gradient seen along the last ray.
    Background,
}

/// The radiance estimate of a path that may bounce `depth` more times and
/// whose traces found `outcomes`, in the form `Some((b, t))`: the first `b`
/// scattering events count, and the path ends on `t`. `None` means the
/// outcomes do not yet decide it and the next ray must be traced.
///
/// With attenuation `a_k` and direct light `d_k` at scattering event `k`,
/// the estimate is `sum over k < b of (a_0 * ... * a_k) * d_k` plus
/// `(a_0 * ... * a_(b-1)) * t`: each bounce returns
/// `(light from the next bounce + direct light) * attenuation`, a bounce
/// that absorbs returns black, and a miss returns the background.
pub open spec fn path_estimate(depth: nat, outcomes: Seq<Outcome>) -> Option<(nat, Terminal)>
    decreases outcomes.len(),
{
    if depth == 0 {
        Some((0, Terminal::Black))
    } else if outcomes.len() == 0 {
        None
    } else {
        match outcomes[0] {
            Outcome::Miss => Some((0, Terminal::Background)),
            Outcome::Absorbed => Some((0, Terminal::Black)),
            Outcome::Scattered => match path_estimate((depth - 1) as nat, outcomes.drop_first()) {
                Some((b, t)) => Some((b + 1, t)),
                None => None,
            },
        }
    }
}

/// Follows one path bounce by bounce, deciding after each trace whether the
/// path goes on, in the order the recursive estimate visits its bounces.
pub struct PathTracer {
    remaining: u32,
    bounces: u32,
    terminal: Option<Terminal>,
    max_depth: Ghost<nat>,
    outcomes: Ghost<Seq<Outcome>>,
}

impl PathTracer {
    /// Bounce limit the path started with.
    pub closed spec fn max_depth(&self) -> nat {
        self.max_depth@
    }

    /// What the traces of this path found so far, in order.
    pub closed spec fn outcomes(&self) -> Seq<Outcome> {
        self.outcomes@
    }

    /// The estimate decided so far: `Some((bounces, terminal))` once the
    /// path is finished.
    pub closed spec fn estimate(&self) -> Option<(nat, Terminal)> {
        match self.terminal {
            Some(t) => Some((self.bounces as nat, t)),
            None => None,
        }
    }

    /// Bounces the path may still make.
    pub closed spec fn remaining_spec(&self) -> nat {
        self.remaining as nat
    }

    pub closed spec fn wf(&self) -> bool {
        &&& self.estimate() == path_estimate(self.max_depth@, self.outcomes@)
        &&& self.max_depth@ <= u32::MAX
        &&& self.terminal is None ==> {
            &&& self.remaining > 0
            &&& self.remaining + self.outcomes@.len() == self.max_depth@
            &&& self.bounces == self.outcomes@.len()
            &&& forall|k: int|
                0 <= k < self.outcomes@.len() ==> self.outcomes@[k] == Outcome::Scattered
        }
    }

    /// A path that may bounce `max_depth` times and has not been traced.
    /// With no bounce left it is finished at once, on black.
    pub fn new(max_depth: u32) -> (r: PathTracer)
        ensures
            r.wf(),
            r.max_depth() == max_depth,
            r.outcomes() == Seq::<Outcome>::empty(),
            r.estimate() == path_estimate(max_depth as nat, Seq::empty()),
            max_depth == 0 ==> r.estimate() == Some((0nat, Terminal::Black)),
            max_depth > 0 ==> r.estimate() is None && r.remaining_spec() == max_depth,
    {
        let terminal = if max_depth == 0 {
            Some(Terminal::Black)
        } else {
            None
        };
        PathTracer {
            remaining: max_depth,
            bounces: 0,
            terminal,
            max_depth: Ghost(max_depth as nat),
            outcomes: Ghost(Seq::empty()),
        }
    }

    /// Whether the path needs no further trace.
    pub fn is_finished(&self) -> (r: bool)
        requires
            self.wf(),
        ensures
            r == self.estimate() is Some,
    {
        self.terminal.is_some()
    }

    /// Bounces the path may still make.
    pub fn remaining(&self) -> (r: u32)
        ensures
            r == self.remaining_spec(),
    {
        self.remaining
    }

    /// Scattering events of the path so far; once it is finished, the number
    /// of them whose attenuation and direct light count.
    pub fn bounces(&self) -> (r: u32)
        requires
            self.wf(),
        ensures
            self.estimate() is Some ==> r == self.estimate()->Some_0.0,
            self.estimate() is None ==> r == self.outcomes().len(),
    {
        self.bounces
    }

    /// The light the path ends on, once it is finished.
    pub fn terminal(&self) -> (r: Option<Terminal>)
        requires
            self.wf(),
        ensures
            r is Some <==> self.estimate() is Some,
            r is Some ==> r->Some_0 == self.estimate()->Some_0.1,
    {
        self.terminal
    }

    /// Takes in what the trace of the current ray found.
    pub fn record(&mut self, outcome: Outcome)
        requires
            old(self).wf(),
            old(self).estimate() is None,
        ensures
            final(self).wf(),
            final(self).max_depth() == old(self).max_depth(),
            final(self).outcomes() == old(self).outcomes().push(outcome),
            final(self).estimate() == path_estimate(
                old(self).max_depth(),
                old(self).outcomes().push(outcome),
            ),
            outcome == Outcome::Miss ==> final(self).estimate() == Some(
                (old(self).outcomes().len(), Terminal::Background),
            ),
            outcome == Outcome::Absorbed ==> final(self).estimate() == Some(
                (old(self).outcomes().len(), Terminal::Black),
            ),
            outcome == Outcome::Scattered ==> final(self).estimate() == if old(
                self,
            ).remaining_spec() == 1 {
                Some(((old(self).outcomes().len() + 1) as nat, Terminal::Black))
            } else {
                None
            },
            final(self).remaining_spec() < old(self).remaining_spec(),
            outcome == Outcome::Scattered ==> final(self).remaining_spec()
                == old(self).remaining_spec() - 1,
    {
        proof {
            lemma_extend(self.max_depth@, self.outcomes@, outcome);
        }
        match outcome {
            Outcome::Miss => {
                self.remaining = 0;
                self.terminal = Some(Terminal::Background);
            },
            Outcome::Absorbed => {
                self.remaining = 0;
                self.terminal = Some(Terminal::Black);
            },
            Outcome::Scattered => {
                self.remaining = self.remaining - 1;
                self.bounces = self.bounces + 1;
                if self.remaining == 0 {
                    self.terminal = Some(Terminal::Black);
                }
            },
        }
        self.outcomes = Ghost(self.outcomes@.push(outcome));
        proof {
            if outcome == Outcome::Scattered && self.terminal is None {
                assert forall|k: int| 0 <= k < self.outcomes@.len() implies self.outcomes@[k]
                    == Outcome::Scattered by {
                    if k < self.outcomes@.len() - 1 {
                        assert(self.outcomes@[k] == old(self).outcomes@[k]);
                    }
                };
            }
        }
    }
}

/// An undecided path, all of whose traces so far scattered, decides on its
/// next outcome as the recursive estimate does.
proof fn lemma_extend(depth: nat, outcomes: Seq<Outcome>, next: Outcome)
    requires
        path_estimate(depth, outcomes) is None,
        forall|k: int| 0 <= k < outcomes.len() ==> outcomes[k] == Outcome::Scattered,
    ensures
        depth > outcomes.len(),
        path_estimate(depth, outcomes.push(next)) == match next {
            Outcome::Miss => Some((outcomes.len(), Terminal::Background)),
            Outcome::Absorbed => Some((outcomes.len(), Terminal::Black)),
            Outcome::Scattered => if depth == outcomes.len() + 1 {
                Some(((outcomes.len() + 1) as nat, Terminal::Black))
            } else {
                None
            },
        },
    decreases outcomes.len(),
{
    let longer = outcomes.push(next);
    assert(longer[0] == if outcomes.len() > 0 {
        outcomes[0]
    } else {
        next
    });
    if outcomes.len() > 0 {
        let rest = outcomes.drop_first();
        assert(longer.drop_first() =~= rest.push(next));
        assert forall|k: int| 0 <= k < rest.len() implies rest[k] == Outcome::Scattered by {
            assert(rest[k] == outcomes[k + 1]);
        };
        assert(path_estimate((depth - 1) as nat, rest) is None);
        lemma_extend((depth - 1) as nat, rest, next);
    } else {
        assert(longer.drop_first() =~= Seq::<Outcome>::empty());
        assert(depth > 0);
        if next == Outcome::Miss {
            assert(path_estimate(depth, longer) == Some((0nat, Terminal::Background)));
        } else if next == Outcome::Absorbed {
            assert(path_estimate(depth, longer) == Some((0nat, Terminal::Black)));
        } else {
            assert(path_estimate((depth - 1) as nat, Seq::<Outcome>::empty()) == if depth == 1 {
                Some((0nat, Terminal::Black))
            } else {
                None
            });
        }
    }
}

/// A path with no bounce left is black, whatever its rays would have met.
pub proof fn lemma_depth_zero_is_black(outcomes: Seq<Outcome>)
    ensures
        path_estimate(0, outcomes) == Some((0nat, Terminal::Black)),
{
}

/// A path whose first ray misses every primitive ends on the background with
/// no scattering event weighting it, whatever the rest of the scene holds.
pub proof fn lemma_first_miss_is_background(depth: nat, outcomes: Seq<Outcome>)
    requires
        depth > 0,
        outcomes.len() > 0,
        outcomes[0] == Outcome::Miss,
    ensures
        path_estimate(depth, outcomes) == Some((0nat, Terminal::Background)),
{
}

/// Every path is decided after at most `depth` traces, and counts at most
/// `depth` scattering events.
pub proof fn lemma_path_ends_within_depth(depth: nat, outcomes: Seq<Outcome>)
    requires
        outcomes.len() >= depth,
    ensures
        path_estimate(depth, outcomes) is Some,
        path_estimate(depth, outcomes)->Some_0.0 <= depth,
    decreases depth,
{
    if depth > 0 {
        lemma_path_ends_within_depth((depth - 1) as nat, outcomes.drop_first());
    }
}

} // verus!
