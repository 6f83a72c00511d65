//! The middleware onion as a state machine. A route's middleware run in
//! list order on the way in and in reverse on the way out; one that answers
//! without calling the next stops the way in, and the ones outside it still
//! see its response on the way out. The caller performs each step and
//! reports how a middleware's inbound part ended.
use vstd::prelude::*;

verus! {

/// Where a request is in the chain: entering middleware `i` (the handler
/// when `i` is the chain's length), or leaving with `i` middleware still to
/// pass outward.
#[derive(Clone, Copy, Debug, PartialEq, Eq, Structural)]
pub enum Phase {
    Enter(usize),
    Leave(usize),
}

/// What the caller runs next.
#[derive(Clone, Copy, Debug, PartialEq, Eq, Structural)]
pub enum Step {
    /// The inbound part of middleware `i`.
    Before(usize),
    /// The route's handler.
    Handler,
    /// The outbound part of middleware `i`, given the response so far.
    After(usize),
    /// The response is final.
    Done,
}

/// How the inbound part of a middleware ended.
#[derive(Clone, Copy, Debug, PartialEq, Eq, Structural)]
pub enum Outcome {
    /// It passed the request on.
    Next,
    /// It answered without calling the next handler.
    Respond,
}

/// The step taken in `phase` of a chain of `len` middleware.
pub open spec fn step_of(len: nat, phase: Phase) -> Step {
    match phase {
        Phase::Enter(i) => if i < len {
            Step::Before(i as usize)
        } else {
            Step::Handler
        },
        Phase::Leave(i) => if i > 0 {
            Step::After((i - 1) as usize)
        } else {
            Step::Done
        },
    }
}

/// The phase after `phase` once its step ended with `outcome`.
pub open spec fn next_phase(len: nat, phase: Phase, outcome: Outcome) -> Phase {
    match phase {
        Phase::Enter(i) => if i < len {
            match outcome {
                Outcome::Next => Phase::Enter((i + 1) as usize),
                Outcome::Respond => Phase::Leave(i),
            }
        } else {
            Phase::Leave(len as usize)
        },
        Phase::Leave(i) => if i > 0 {
            Phase::Leave((i - 1) as usize)
        } else {
            Phase::Leave(0)
        },
    }
}

/// Steps still to come from `phase`, a bound that each step lowers.
pub open spec fn remaining(len: nat, phase: Phase) -> nat {
    match phase {
        Phase::Enter(i) => if i <= len {
            (2 * len + 2 - i) as nat
        } else {
            len + 1
        },
        Phase::Leave(i) => i as nat,
    }
}

/// How middleware `i`'s inbound part ends when `short` names the one
/// middleware that answers by itself.
pub open spec fn outcome_for(phase: Phase, short: Option<nat>) -> Outcome {
    match phase {
        Phase::Enter(i) => if short == Some(i as nat) {
            Outcome::Respond
        } else {
            Outcome::Next
        },
        Phase::Leave(_) => Outcome::Next,
    }
}

/// The steps taken from `phase` to the end, when only middleware `short`
/// (if any) answers without calling the next.
pub open spec fn trace(len: nat, phase: Phase, short: Option<nat>) -> Seq<Step>
    decreases remaining(len, phase),
{
    if len >= usize::MAX || step_of(len, phase) == Step::Done {
        Seq::empty()
    } else {
        seq![step_of(len, phase)] + trace(len, next_phase(len, phase, outcome_for(phase, short)), short)
    }
}

/// Inbound steps of middleware `from` up to, not including, `to`.
pub open spec fn befores(from: nat, to: nat) -> Seq<Step> {
    Seq::new((to - from) as nat, |k: int| Step::Before((from + k) as usize))
}

/// Outbound steps of middleware `n - 1` down to `0`.
pub open spec fn afters(n: nat) -> Seq<Step> {
    Seq::new(n, |k: int| Step::After((n - 1 - k) as usize))
}

proof fn lemma_leave(len: nat, i: nat, short: Option<nat>)
    requires
        i <= len < usize::MAX,
    ensures
        trace(len, Phase::Leave(i as usize), short) == afters(i),
    decreases i,
{
    if i > 0 {
        lemma_leave(len, (i - 1) as nat, short);
        assert(trace(len, Phase::Leave(i as usize), short) =~= afters(i));
    } else {
        assert(afters(0) =~= Seq::<Step>::empty());
    }
}

proof fn lemma_enter_through(len: nat, i: nat)
    requires
        i <= len < usize::MAX,
    ensures
        trace(len, Phase::Enter(i as usize), None) == befores(i, len) + seq![Step::Handler]
            + afters(len),
    decreases len - i,
{
    if i < len {
        lemma_enter_through(len, i + 1);
        assert(trace(len, Phase::Enter(i as usize), None) =~= befores(i, len) + seq![
            Step::Handler,
        ] + afters(len));
    } else {
        lemma_leave(len, len, None);
        assert(befores(len, len) =~= Seq::<Step>::empty());
        assert(trace(len, Phase::Enter(i as usize), None) =~= befores(i, len) + seq![
            Step::Handler,
        ] + afters(len));
    }
}

proof fn lemma_enter_short(len: nat, i: nat, k: nat)
    requires
        i <= k < len < usize::MAX,
    ensures
        trace(len, Phase::Enter(i as usize), Some(k)) == befores(i, k + 1) + afters(k),
    decreases k - i,
{
    if i < k {
        lemma_enter_short(len, i + 1, k);
        assert(trace(len, Phase::Enter(i as usize), Some(k)) =~= befores(i, k + 1) + afters(k));
    } else {
        lemma_leave(len, k, Some(k));
        assert(trace(len, Phase::Enter(i as usize), Some(k)) =~= befores(i, k + 1) + afters(k));
    }
}

/// When every middleware passes the request on, a chain of `len` runs each
/// inbound part in order, then the handler, then each outbound part in
/// reverse order.
pub proof fn lemma_onion(len: nat)
    requires
        len < usize::MAX,
    ensures
        trace(len, Phase::Enter(0), None) == befores(0, len) + seq![Step::Handler] + afters(len),
{
    lemma_enter_through(len, 0);
}

/// When middleware `k` answers without calling the next, the inbound parts
/// of middleware `0..=k` run, the handler never runs, and the outbound parts
/// of the middleware outside `k` run in reverse order on its response.
pub proof fn lemma_short_circuit(len: nat, k: nat)
    requires
        k < len < usize::MAX,
    ensures
        trace(len, Phase::Enter(0), Some(k)) == befores(0, k + 1) + afters(k),
        !trace(len, Phase::Enter(0), Some(k)).contains(Step::Handler),
{
    lemma_enter_short(len, 0, k);
    let t = trace(len, Phase::Enter(0), Some(k));
    if t.contains(Step::Handler) {
        let j = choose|j: int| 0 <= j < t.len() && t[j] == Step::Handler;
        if j < k + 1 {
            assert(t[j] == befores(0, k + 1)[j]);
        } else {
            assert(t[j] == afters(k)[j - (k + 1)]);
        }
    }
}

/// A request's progress through a chain of middleware.
pub struct Chain {
    len: usize,
    phase: Phase,
}

impl View for Chain {
    type V = (nat, Phase);

    closed spec fn view(&self) -> (nat, Phase) {
        (self.len as nat, self.phase)
    }
}

impl Chain {
    /// A request about to enter a chain of `len` middleware.
    pub fn new(len: usize) -> (r: Chain)
        ensures
            r@ == (len as nat, Phase::Enter(0)),
    {
        Chain { len, phase: Phase::Enter(0) }
    }

    /// The step to run now.
    pub fn step(&self) -> (r: Step)
        ensures
            r == step_of(self@.0, self@.1),
    {
        match self.phase {
            Phase::Enter(i) => if i < self.len {
                Step::Before(i)
            } else {
                Step::Handler
            },
            Phase::Leave(i) => if i > 0 {
                Step::After(i - 1)
            } else {
                Step::Done
            },
        }
    }

    /// Moves on once the current step ended with `outcome` (only the
    /// outcome of an inbound part matters).
    pub fn advance(&mut self, outcome: Outcome)
        ensures
            final(self)@ == (old(self)@.0, next_phase(old(self)@.0, old(self)@.1, outcome)),
    {
        self.phase = match self.phase {
            Phase::Enter(i) => if i < self.len {
                match outcome {
                    Outcome::Next => Phase::Enter(i + 1),
                    Outcome::Respond => Phase::Leave(i),
                }
            } else {
                Phase::Leave(self.len)
            },
            Phase::Leave(i) => if i > 0 {
                Phase::Leave(i - 1)
            } else {
                Phase::Leave(0)
            },
        };
    }
}

/// The steps a chain of `len` middleware takes when only middleware `short`
/// (if any) answers by itself.
pub fn trace_of(len: usize, short: Option<usize>) -> (r: Vec<Step>)
    requires
        len < usize::MAX,
    ensures
        r@ == trace(
            len as nat,
            Phase::Enter(0),
            match short {
                Some(k) => Some(k as nat),
                None => None,
            },
        ),
{
    let ghost s = match short {
        Some(k) => Some(k as nat),
        None => None,
    };
    let mut chain = Chain::new(len);
    let mut r: Vec<Step> = Vec::new();
    loop
        invariant
            chain@.0 == len as nat,
            len < usize::MAX,
            s == match short {
                Some(k) => Some(k as nat),
                None => None,
            },
            r@ + trace(len as nat, chain@.1, s) == trace(len as nat, Phase::Enter(0), s),
        decreases remaining(len as nat, chain@.1),
    {
        let step = chain.step();
        if step == Step::Done {
            assert(trace(len as nat, chain@.1, s) =~= Seq::<Step>::empty());
            assert(r@ =~= r@ + trace(len as nat, chain@.1, s));
            return r;
        }
        let outcome = match chain.phase {
            Phase::Enter(i) => match short {
                Some(k) => if i == k {
                    Outcome::Respond
                } else {
                    Outcome::Next
                },
                None => Outcome::Next,
            },
            Phase::Leave(_) => Outcome::Next,
        };
        assert(outcome == outcome_for(chain@.1, s));
        let ghost before = chain@.1;
        r.push(step);
        chain.advance(outcome);
        assert(r@ + trace(len as nat, chain@.1, s) =~= r@.drop_last() + trace(len as nat, before, s));
    }
}

} // verus!
