//! Chains of single steps: following references from node to node until a
//! node is reached that refers no further.

use vstd::prelude::*;

verus! {

/// What a node of a chain leads to.
pub enum Step<T> {
    /// The chain stops here.
    Stop,
    /// The chain goes on.
    Next(T),
    /// The node refers to something that is not there.
    Stuck,
}

/// Starting at `x`, the chain stops after exactly `n` steps.
pub open spec fn stops_after<T>(step: spec_fn(T) -> Step<T>, x: T, n: nat) -> bool
    decreases n,
{
    match step(x) {
        Step::Stop => n == 0,
        Step::Next(y) => n > 0 && stops_after(step, y, (n - 1) as nat),
        Step::Stuck => false,
    }
}

/// Starting at `x`, the chain stops: it neither gets stuck nor goes on for ever.
pub open spec fn stops<T>(step: spec_fn(T) -> Step<T>, x: T) -> bool {
    exists|n: nat| stops_after(step, x, n)
}

/// How many steps a chain that stops takes.
pub open spec fn chain_len<T>(step: spec_fn(T) -> Step<T>, x: T) -> nat {
    choose|n: nat| stops_after(step, x, n)
}

/// The node that `n` steps from `x` lead to, or the last one before that.
pub open spec fn chain_at<T>(step: spec_fn(T) -> Step<T>, x: T, n: nat) -> T
    decreases n,
{
    match step(x) {
        Step::Next(y) => if n == 0 {
            x
        } else {
            chain_at(step, y, (n - 1) as nat)
        },
        _ => x,
    }
}

/// The node at which a chain that stops does so.
pub open spec fn chain_end<T>(step: spec_fn(T) -> Step<T>, x: T) -> T {
    chain_at(step, x, chain_len(step, x))
}

proof fn lemma_stops_once<T>(step: spec_fn(T) -> Step<T>, x: T, n: nat, m: nat)
    requires
        stops_after(step, x, n),
        stops_after(step, x, m),
    ensures
        n == m,
    decreases n,
{
    if let Step::Next(y) = step(x) {
        lemma_stops_once(step, y, (n - 1) as nat, (m - 1) as nat);
    }
}

/// One step of a chain: where it stops at once, and how a chain relates to
/// its tail.
pub proof fn lemma_chain_step<T>(step: spec_fn(T) -> Step<T>, x: T)
    ensures
        step(x) is Stop ==> stops(step, x) && chain_len(step, x) == 0 && chain_end(step, x) == x,
        step(x) is Stuck ==> !stops(step, x),
        step(x) matches Step::Next(y) ==> {
            &&& stops(step, x) <==> stops(step, y)
            &&& stops(step, y) ==> {
                &&& chain_len(step, x) == chain_len(step, y) + 1
                &&& chain_end(step, x) == chain_end(step, y)
            }
        },
{
    match step(x) {
        Step::Stop => {
            assert(stops_after(step, x, 0));
            lemma_stops_once(step, x, 0, chain_len(step, x));
        },
        Step::Next(y) => {
            if stops(step, y) {
                let n = chain_len(step, y);
                assert(stops_after(step, x, n + 1));
                lemma_stops_once(step, x, n + 1, chain_len(step, x));
            }
            if stops(step, x) {
                let n = chain_len(step, x);
                assert(stops_after(step, y, (n - 1) as nat));
            }
        },
        Step::Stuck => {},
    }
}

/// A chain that stops ends at a node that leads nowhere.
pub proof fn lemma_chain_end_stops<T>(step: spec_fn(T) -> Step<T>, x: T)
    requires
        stops(step, x),
    ensures
        step(chain_end(step, x)) is Stop,
    decreases chain_len(step, x),
{
    lemma_chain_step(step, x);
    if let Step::Next(y) = step(x) {
        lemma_chain_end_stops(step, y);
    }
}

} // verus!
