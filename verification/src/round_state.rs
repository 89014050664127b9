//! The per-round state snapshot published by the vote tally.

use vstd::prelude::*;

verus! {

/// A snapshot of a round as published by its tally.
///
/// Each field is monotone as more votes arrive; in particular `completable`
/// never becomes false again, and a completable round always has an estimate
/// and a prevote ghost. Those documented guarantees of the tally are what
/// [`good_state`] and [`tally_step`] record.
#[derive(Clone, Copy, PartialEq, Eq, Debug)]
pub struct RoundState {
    /// The highest block with a supermajority of prevote weight on some chain
    /// through it.
    pub prevote_ghost: Option<(u64, u32)>,
    /// The best block that could still become finalized in this round.
    pub estimate: Option<(u64, u32)>,
    /// A block finalized by this round's precommits, if any.
    pub finalized: Option<(u64, u32)>,
    /// Whether no further honest vote can lower the estimate.
    pub completable: bool,
}

impl RoundState {
    /// The state of a round that has not counted any vote yet.
    pub open spec fn fresh_spec() -> RoundState {
        RoundState { prevote_ghost: None, estimate: None, finalized: None, completable: false }
    }

    /// The state of a round that has not counted any vote yet.
    pub fn fresh() -> (s: RoundState)
        ensures
            s == RoundState::fresh_spec(),
    {
        RoundState { prevote_ghost: None, estimate: None, finalized: None, completable: false }
    }

    /// The state to boot the first round from: every field settled on the
    /// given base block, and completable, so a first round may be seeded
    /// from it.
    pub fn genesis(base: (u64, u32)) -> (s: RoundState)
        ensures
            s.prevote_ghost == Some(base),
            s.estimate == Some(base),
            s.finalized == Some(base),
            s.completable,
            prior_ok(s),
    {
        RoundState {
            prevote_ghost: Some(base),
            estimate: Some(base),
            finalized: Some(base),
            completable: true,
        }
    }
}

/// Whether two block references name the same block.
pub fn block_eq(a: (u64, u32), b: (u64, u32)) -> (r: bool)
    ensures
        r == (a == b),
{
    a.0 == b.0 && a.1 == b.1
}

/// Whether two optional block references are the same.
pub fn block_opt_eq(a: Option<(u64, u32)>, b: Option<(u64, u32)>) -> (r: bool)
    ensures
        r == (a == b),
{
    match (a, b) {
        (Some(x), Some(y)) => block_eq(x, y),
        (None, None) => true,
        _ => false,
    }
}

/// Whether two round snapshots are the same.
pub fn state_eq(a: &RoundState, b: &RoundState) -> (r: bool)
    ensures
        r == (*a == *b),
{
    block_opt_eq(a.prevote_ghost, b.prevote_ghost) && block_opt_eq(a.estimate, b.estimate)
        && block_opt_eq(a.finalized, b.finalized) && a.completable == b.completable
}

/// A state fit to seed a successor round: the round it came from was
/// completable, so its estimate and prevote ghost exist. Rounds are only
/// started once their predecessor satisfies this.
pub open spec fn prior_ok(s: RoundState) -> bool {
    &&& s.completable
    &&& s.estimate is Some
    &&& s.prevote_ghost is Some
}

/// The tally's documented invariant on every state it publishes: a
/// completable round has an estimate and a prevote ghost.
pub open spec fn good_state(s: RoundState) -> bool {
    s.completable ==> (s.estimate is Some && s.prevote_ghost is Some)
}

/// A published block reference never rolls back: once present it stays
/// present and only moves along chain descent, to greater or equal heights.
pub open spec fn ref_advances(pre: Option<(u64, u32)>, post: Option<(u64, u32)>) -> bool {
    pre matches Some(p) ==> (post matches Some(q) && q.1 >= p.1)
}

/// How a tally may move between two published states: every published state
/// is well formed, completability is monotone, and the prevote ghost, the
/// estimate and the finalized block each advance monotonically.
pub open spec fn tally_step(pre: RoundState, post: RoundState) -> bool {
    &&& good_state(post)
    &&& (pre.completable ==> post.completable)
    &&& ref_advances(pre.prevote_ghost, post.prevote_ghost)
    &&& ref_advances(pre.estimate, post.estimate)
    &&& ref_advances(pre.finalized, post.finalized)
}

} // verus!
