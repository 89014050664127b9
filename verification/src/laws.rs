//! The engine's guarantees, stated on their own over the invariants that the
//! exported functions establish and preserve.

use vstd::prelude::*;

use crate::environment::EnvView;
use crate::messages::Message;
use crate::voter::Voter;
use crate::voting_round::State;
use crate::voting_round::VotingRound;

verus! {

/// Monotone finalization: across the lifetime of a voter, the heights it has
/// passed to `finalize_block` are strictly increasing.
pub proof fn lemma_monotone_finalization(v: Voter, m: EnvView)
    requires
        v.inv(m),
    ensures
        forall|i: int, j: int| 0 <= i < j < m.finalized.len() ==> m.finalized[i].1
            < m.finalized[j].1,
{
}

/// At most one prevote and at most one precommit per round: no two positions
/// of a round's outgoing message sequence hold votes of the same kind.
pub proof fn lemma_at_most_one_vote_each(vr: VotingRound, m: EnvView)
    requires
        vr.inv(m),
    ensures
        forall|i: int, j: int|
            0 <= i < j < vr.emitted(m).len() ==> !(vr.emitted(m)[i] is Prevote
                && vr.emitted(m)[j] is Prevote),
        forall|i: int, j: int|
            0 <= i < j < vr.emitted(m).len() ==> !(vr.emitted(m)[i] is Precommit
                && vr.emitted(m)[j] is Precommit),
{
}

/// State machine order: a precommit never precedes a prevote in a round's
/// outgoing messages, and a precommit stands in them exactly when the round
/// has reached its terminal phase. (When the chain makes the round skip its
/// prevote, the precommit may be the round's only message.)
pub proof fn lemma_state_machine_order(vr: VotingRound, m: EnvView)
    requires
        vr.inv(m),
    ensures
        forall|i: int, j: int|
            0 <= i < j < vr.emitted(m).len() && vr.emitted(m)[j] is Prevote ==> vr.emitted(
                m,
            )[i] is Prevote,
        (exists|i: int| 0 <= i < vr.emitted(m).len() && vr.emitted(m)[i] is Precommit)
            <==> vr.state == State::Precommitted,
{
    let e = vr.emitted(m);
    if vr.state == State::Precommitted {
        assert(0 <= e.len() - 1 < e.len() && e[e.len() - 1] is Precommit);
    }
}

/// Equivocation forwarding: every equivocation the tallies have reported has
/// been forwarded to the environment exactly once, in report order.
pub proof fn lemma_equivocations_forwarded_once(v: Voter, m: EnvView)
    requires
        v.inv(m),
    ensures
        m.forwarded_prevote_eqs == m.reported_prevote_eqs,
        m.forwarded_precommit_eqs == m.reported_precommit_eqs,
{
}

/// A message sequence of the shape the rounds guarantee never exceeds two
/// entries: the optional prevote and the optional precommit.
pub proof fn lemma_emitted_bounded(vr: VotingRound, m: EnvView)
    requires
        vr.inv(m),
    ensures
        vr.emitted(m).len() <= 2,
{
}

} // verus!
