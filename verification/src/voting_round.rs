//! The per-round voting state machine.
//!
//! A round moves Start -> Prevoted -> Precommitted under the joint influence
//! of its two timers, the completability of its tally and the live state of
//! its predecessor round. Each poll drains the incoming vote stream into the
//! tally, forwards every reported equivocation, publishes changed state to a
//! bridged successor, casts the round's single prevote and single precommit
//! when their conditions arrive, and drives the buffered outgoing sink.

use vstd::prelude::*;

use crate::buffered::sink_frame;
use crate::buffered::Buffered;
use crate::environment::agree_except;
use crate::environment::EnvView;
use crate::environment::Environment;
use crate::environment::outcome_noted;
use crate::environment::Error;
use crate::environment::FlushOutcome;
use crate::environment::Outcome;
use crate::environment::Readiness;
use crate::environment::StreamOutcome;
use crate::environment::TimerOutcome;
use crate::messages::Message;
use crate::messages::Precommit;
use crate::messages::Prevote;
use crate::messages::SignedMessage;
use crate::round_state::block_eq;
use crate::round_state::block_opt_eq;
use crate::round_state::good_state;
use crate::round_state::prior_ok;
use crate::round_state::state_eq;
use crate::round_state::tally_step;
use crate::round_state::RoundState;
use crate::seq_facts::lemma_append_push;
use crate::seq_facts::lemma_consume_step;
use crate::seq_facts::lemma_forward_step;
use crate::seq_facts::lemma_prefix_append;
use crate::seq_facts::lemma_prefix_index;
use crate::seq_facts::lemma_prefix_push;
use crate::seq_facts::lemma_prefix_refl;
use crate::seq_facts::lemma_prefix_trans;
use crate::seq_facts::lemma_skip_own_len;

verus! {

/// The phase of a round's vote state machine.
#[derive(Clone, Copy, PartialEq, Eq, Structural, Debug)]
pub enum State {
    /// No vote cast yet; both timers may still be running.
    Start,
    /// The prevote was cast (or deliberately skipped); the precommit may
    /// still be owed.
    Prevoted,
    /// Both votes are cast; terminal.
    Precommitted,
}

/// The phase machine only ever moves forward.
pub open spec fn phase_le(a: State, b: State) -> bool {
    match a {
        State::Start => true,
        State::Prevoted => b == State::Prevoted || b == State::Precommitted,
        State::Precommitted => b == State::Precommitted,
    }
}

/// The precommit target: the tally's prevote ghost, or the round's base when
/// the tally has none.
pub open spec fn spec_precommit_target(s: RoundState, base: (u64, u32)) -> (u64, u32) {
    match s.prevote_ghost {
        Some(t) => t,
        None => base,
    }
}

/// Whether a precommit may be cast: the tally has a prevote ghost, and the
/// previous round's estimate either equals it or is one of its ancestors.
pub open spec fn spec_may_precommit(
    s: RoundState,
    last: RoundState,
    ancestry: Map<(u64, u64), Option<Seq<u64>>>,
) -> bool {
    match s.prevote_ghost {
        Some(g) => g == last.estimate->0 || ancestry[((last.estimate->0).0, g.0)] is Some,
        None => false,
    }
}

/// Which block the prevote should extend, given the previous round's state,
/// the optional primary hint and the chain's answer to the one ancestry query
/// the rule may need (the path from the previous prevote ghost down to the
/// previous estimate).
pub open spec fn spec_prevote_anchor(
    last: RoundState,
    primary: Option<(u64, u32)>,
    path: Option<Seq<u64>>,
) -> u64 {
    let e = last.estimate->0;
    let g = last.prevote_ghost->0;
    match primary {
        None => e.0,
        Some(p) => if p == g {
            p.0
        } else if p.1 >= g.1 {
            e.0
        } else {
            match path {
                Some(q) => {
                    let offset = g.1 - (p.1 + 1);
                    if offset < q.len() && q[offset as int] == p.0 {
                        p.0
                    } else {
                        e.0
                    }
                },
                None => e.0,
            }
        },
    }
}

/// The target of the round's prevote: the tip of the best chain through the
/// anchor that the primary-hint rule picks, or nothing when the chain no
/// longer knows the anchor.
pub open spec fn spec_prevote_target(
    last: RoundState,
    primary: Option<(u64, u32)>,
    m: EnvView,
) -> Option<Prevote> {
    let anchor = spec_prevote_anchor(
        last,
        primary,
        m.ancestry[((last.estimate->0).0, (last.prevote_ghost->0).0)],
    );
    match m.best_chain[anchor] {
        Some(t) => Some(Prevote { target_hash: t.0, target_number: t.1 }),
        None => None,
    }
}

/// The model after exactly one more answer was recorded for round `r`, with
/// nothing else changed.
pub open spec fn only_noted(a: EnvView, b: EnvView, r: u64, o: Outcome) -> bool {
    b == (EnvView { outcomes: outcome_noted(a, r, o), ..a })
}

/// The model unchanged but for answers recorded in round `r`'s outcome log.
pub open spec fn same_but_outcomes(a: EnvView, b: EnvView, r: u64) -> bool {
    &&& b == (EnvView { outcomes: b.outcomes, ..a })
    &&& agree_except(a.outcomes, b.outcomes, r)
    &&& a.outcomes[r].is_prefix_of(b.outcomes[r])
}

/// What one poll of round `r` may do to the environment: consume `r`'s
/// incoming votes in order, import them into `r`'s tally, append to `r`'s
/// sink, record the answers received, and forward exactly the newly reported
/// equivocations; nothing else moves.
pub open spec fn round_poll_frame(a: EnvView, b: EnvView, r: u64) -> bool {
    &&& agree_except(a.tallies, b.tallies, r)
    &&& tally_step(a.tallies[r], b.tallies[r])
    &&& agree_except(a.sent, b.sent, r)
    &&& a.sent[r].is_prefix_of(b.sent[r])
    &&& agree_except(a.incoming, b.incoming, r)
    &&& b.incoming[r].len() <= a.incoming[r].len()
    &&& b.incoming[r] == a.incoming[r].skip(a.incoming[r].len() - b.incoming[r].len())
    &&& agree_except(a.imported, b.imported, r)
    &&& a.imported[r].is_prefix_of(b.imported[r])
    &&& agree_except(a.outcomes, b.outcomes, r)
    &&& a.outcomes[r].is_prefix_of(b.outcomes[r])
    &&& b.ancestry == a.ancestry
    &&& b.best_chain == a.best_chain
    &&& b.finalized == a.finalized
    &&& b.completed_rounds == a.completed_rounds
    &&& eq_forwarding(a, b)
}

/// Every equivocation newly reported by a tally has also newly been forwarded
/// to the environment, exactly once and in report order.
pub open spec fn eq_forwarding(a: EnvView, b: EnvView) -> bool {
    &&& a.reported_prevote_eqs.is_prefix_of(b.reported_prevote_eqs)
    &&& b.forwarded_prevote_eqs == a.forwarded_prevote_eqs + b.reported_prevote_eqs.skip(
        a.reported_prevote_eqs.len() as int,
    )
    &&& a.reported_precommit_eqs.is_prefix_of(b.reported_precommit_eqs)
    &&& b.forwarded_precommit_eqs == a.forwarded_precommit_eqs + b.reported_precommit_eqs.skip(
        a.reported_precommit_eqs.len() as int,
    )
}

pub proof fn lemma_eq_forwarding_refl(a: EnvView)
    ensures
        eq_forwarding(a, a),
{
    lemma_prefix_refl(a.reported_prevote_eqs);
    lemma_prefix_refl(a.reported_precommit_eqs);
    lemma_skip_own_len(a.reported_prevote_eqs);
    lemma_skip_own_len(a.reported_precommit_eqs);
    assert(a.forwarded_prevote_eqs + Seq::<(u64, crate::messages::Equivocation<Prevote>)>::empty()
        =~= a.forwarded_prevote_eqs);
    assert(a.forwarded_precommit_eqs + Seq::<
        (u64, crate::messages::Equivocation<Precommit>),
    >::empty() =~= a.forwarded_precommit_eqs);
}

/// The round's single prevote was cast: exactly the target the prevote rule
/// picks was appended to the queue, or nothing when the chain offered none.
pub open spec fn prevote_push_ok(pre: VotingRound, post: VotingRound, m: EnvView) -> bool {
    match spec_prevote_target(pre.last_round_state, pre.primary_block, m) {
        Some(pv) => post.outgoing.buffer@ == pre.outgoing.buffer@.push(Message::Prevote(pv)),
        None => post.outgoing == pre.outgoing,
    }
}

/// One message was appended to the round's queue: a precommit whose target is
/// the tally's prevote ghost (or the base), cast only while the previous
/// round's estimate equals or precedes that ghost.
pub open spec fn precommit_push_ok(pre: VotingRound, post: VotingRound, m: EnvView) -> bool {
    &&& post.outgoing.buffer@.len() > 0
    &&& post.outgoing.buffer@ == pre.outgoing.buffer@.push(post.outgoing.buffer@.last())
    &&& (post.outgoing.buffer@.last() matches Message::Precommit(pc) && (
    pc.target_hash,
    pc.target_number,
    ) == spec_precommit_target(m.tallies[pre.round_number], pre.base))
    &&& spec_may_precommit(m.tallies[pre.round_number], pre.last_round_state, m.ancestry)
}

/// What draining round `r`'s vote stream into its tally may do, relative to a
/// base model: consume `r`'s incoming votes from the front, import them into
/// `r`'s tally, record the stream's answers, and forward exactly the newly
/// reported equivocations.
pub open spec fn drain_frame(a: EnvView, b: EnvView, r: u64) -> bool {
    &&& agree_except(a.tallies, b.tallies, r)
    &&& tally_step(a.tallies[r], b.tallies[r])
    &&& b.sent == a.sent
    &&& b.ancestry == a.ancestry
    &&& b.best_chain == a.best_chain
    &&& b.finalized == a.finalized
    &&& b.completed_rounds == a.completed_rounds
    &&& agree_except(a.incoming, b.incoming, r)
    &&& b.incoming[r].len() <= a.incoming[r].len()
    &&& b.incoming[r] == a.incoming[r].skip(a.incoming[r].len() - b.incoming[r].len())
    &&& agree_except(a.imported, b.imported, r)
    &&& a.imported[r].is_prefix_of(b.imported[r])
    &&& agree_except(a.outcomes, b.outcomes, r)
    &&& a.outcomes[r].is_prefix_of(b.outcomes[r])
    &&& (a.incoming[r].len() == 0 ==> b == (EnvView { outcomes: b.outcomes, ..a }))
    &&& eq_forwarding(a, b)
}

/// A round that owes nothing to a poll: no pending votes, all votes cast and
/// its outgoing queue flushed.
pub open spec fn quiescent(vr: VotingRound, m: EnvView) -> bool {
    &&& m.incoming[vr.round_number].len() == 0
    &&& vr.state is Precommitted
    &&& vr.outgoing.buffer@.len() == 0
}

/// Every message emitted beyond the first `n0` that is a precommit satisfies
/// the precommit rules against the given tally state and ancestry.
pub open spec fn new_precommits_sound(n0: int, e1: Seq<Message>, m: EnvView, vr: VotingRound) -> bool {
    forall|i: int|
        n0 <= i < e1.len() && (#[trigger] e1[i]) is Precommit ==> {
            &&& (e1[i] matches Message::Precommit(pc) && (pc.target_hash, pc.target_number)
                == spec_precommit_target(m.tallies[vr.round_number], vr.base))
            &&& spec_may_precommit(m.tallies[vr.round_number], vr.last_round_state, m.ancestry)
        }
}

/// Every message emitted beyond the first `n0` that is a prevote is exactly
/// the target the prevote rule picks.
pub open spec fn new_prevotes_sound(n0: int, e1: Seq<Message>, m: EnvView, vr: VotingRound) -> bool {
    forall|i: int|
        n0 <= i < e1.len() && (#[trigger] e1[i]) is Prevote ==> (e1[i]
            matches Message::Prevote(pv) && spec_prevote_target(
            vr.last_round_state,
            vr.primary_block,
            m,
        ) == Some(pv))
}

/// What the poll of a round reports to its owner.
#[derive(Clone, Copy, PartialEq, Eq, Debug)]
pub struct RoundPoll {
    /// The round is completable and every outgoing message is flushed. The
    /// round stays live for further inbound votes.
    pub ready: bool,
    /// A block newly finalized by this round, to be announced by the voter.
    pub finalized: Option<(u64, u32)>,
}

/// The voting logic of one round.
pub struct VotingRound {
    /// The round's number.
    pub round_number: u64,
    /// The last block finalized when the round started.
    pub base: (u64, u32),
    /// The phase of the vote state machine.
    pub state: State,
    /// The buffered outgoing sink.
    pub outgoing: Buffered,
    /// The freshest state of the predecessor round that this round has seen.
    pub last_round_state: RoundState,
    /// The latest state published to a bridged successor round, if one exists.
    pub bridged_state: Option<RoundState>,
    /// A block broadcast by the round's primary proposer as a hint, if any.
    pub primary_block: Option<(u64, u32)>,
}

impl VotingRound {
    /// Every message the round has produced: what its sink accepted followed
    /// by what is still queued, oldest first.
    pub open spec fn emitted(self, m: EnvView) -> Seq<Message> {
        m.sent[self.round_number] + self.outgoing.buffer@
    }

    /// The shape the emitted messages must have in each phase: nothing before
    /// the prevote was due, at most one prevote, then at most one precommit,
    /// the precommit exactly when the round reached Precommitted.
    pub open spec fn emitted_shape(self, m: EnvView) -> bool {
        let e = self.emitted(m);
        match self.state {
            State::Start => e.len() == 0,
            State::Prevoted => e.len() <= 1 && (e.len() == 1 ==> e[0] is Prevote),
            State::Precommitted => {
                &&& 1 <= e.len() <= 2
                &&& e[e.len() - 1] is Precommit
                &&& (e.len() == 2 ==> e[0] is Prevote)
            },
        }
    }

    /// The round's invariant against the environment's model.
    pub open spec fn inv(self, m: EnvView) -> bool {
        &&& self.outgoing.round == self.round_number
        &&& prior_ok(self.last_round_state)
        &&& good_state(m.tallies[self.round_number])
        &&& self.emitted_shape(m)
        &&& (self.bridged_state is Some ==> m.tallies[self.round_number].completable)
        &&& (self.bridged_state matches Some(s) ==> prior_ok(s))
    }

    /// A freshly created round in its Start phase, seeded with its
    /// predecessor's state.
    pub fn new(round_number: u64, base: (u64, u32), last_round_state: RoundState) -> (vr:
        VotingRound)
        ensures
            vr == (VotingRound {
                round_number,
                base,
                state: State::Start,
                outgoing: vr.outgoing,
                last_round_state,
                bridged_state: None,
                primary_block: None,
            }),
            vr.outgoing.round == round_number,
            vr.outgoing.buffer@ == Seq::<Message>::empty(),
    {
        VotingRound {
            round_number,
            base,
            state: State::Start,
            outgoing: Buffered::new(round_number),
            last_round_state,
            bridged_state: None,
            primary_block: None,
        }
    }

    /// Hand this round's live state to a successor: publish the current tally
    /// snapshot and return it, as the successor's first view of this round.
    pub fn bridge_state<E: Environment>(&mut self, env: &E) -> (s: RoundState)
        ensures
            s == env.model().tallies[old(self).round_number],
            *final(self) == (VotingRound { bridged_state: Some(s), ..*old(self) }),
    {
        let s = env.round_state(self.round_number);
        self.bridged_state = Some(s);
        s
    }

    /// Publish a changed state to a bridged successor, and decide whether a
    /// newly finalized block must be announced: only when the round is
    /// completable and this round has cast all its votes.
    fn notify(&mut self, pre: RoundState, post: RoundState) -> (n: Option<(u64, u32)>)
        requires
            old(self).bridged_state is Some ==> prior_ok(post),
        ensures
            *final(self) == (VotingRound {
                bridged_state: final(self).bridged_state,
                ..*old(self)
            }),
            final(self).bridged_state == (if pre != post && old(self).bridged_state is Some {
                Some(post)
            } else {
                old(self).bridged_state
            }),
            n == (if pre != post && pre.finalized != post.finalized && post.completable && old(
                self,
            ).state is Precommitted && post.finalized is Some {
                post.finalized
            } else {
                None::<(u64, u32)>
            }),
    {
        if state_eq(&pre, &post) {
            return None;
        }
        if self.bridged_state.is_some() {
            self.bridged_state = Some(post);
        }
        if !block_opt_eq(pre.finalized, post.finalized) && post.completable {
            // announce only when all votes are cast: a restarted voter must
            // never re-create a round whose base this round finalized
            if matches!(self.state, State::Precommitted) {
                if let Some(f) = post.finalized {
                    return Some(f);
                }
            }
        }
        None
    }

    /// Construct the precommit: target the tally's current prevote ghost, or
    /// the round's base when the tally has none.
    fn construct_precommit<E: Environment>(&self, env: &E) -> (p: Precommit)
        ensures
            (p.target_hash, p.target_number) == spec_precommit_target(
                env.model().tallies[self.round_number],
                self.base,
            ),
    {
        let t = match env.round_state(self.round_number).prevote_ghost {
            Some(target) => target,
            None => self.base,
        };
        Precommit { target_hash: t.0, target_number: t.1 }
    }

    /// Construct the prevote: choose the anchor block by the primary-hint
    /// rule, then vote for the tip of the best chain through it. `None` when
    /// the chain no longer knows the anchor; the caller skips this vote but
    /// still advances.
    fn construct_prevote<E: Environment>(&self, env: &E) -> (r: Option<Prevote>)
        requires
            prior_ok(self.last_round_state),
        ensures
            r == spec_prevote_target(self.last_round_state, self.primary_block, env.model()),
    {
        let anchor = prevote_anchor(env, &self.last_round_state, self.primary_block);
        match env.best_chain_containing(anchor) {
            Some(t) => Some(Prevote { target_hash: t.0, target_number: t.1 }),
            None => None,
        }
    }
    /// The prevote step: in the Start phase, once the prevote timer has fired
    /// or the round is completable, cast the round's single prevote (unless
    /// the chain no longer offers a target, in which case the vote is
    /// skipped) and advance to Prevoted.
    fn prevote<E: Environment>(&mut self, env: &mut E) -> (r: Result<(), Error>)
        requires
            prior_ok(old(self).last_round_state),
        ensures
            *final(self) == (VotingRound {
                state: final(self).state,
                outgoing: final(self).outgoing,
                ..*old(self)
            }),
            final(self).outgoing.round == old(self).outgoing.round,
            (match old(self).state {
                State::Start => {
                    ||| (final(self).state == State::Start
                        && final(self).outgoing == old(self).outgoing)
                    ||| (final(self).state == State::Prevoted
                        && prevote_push_ok(*old(self), *final(self), old(env).model()))
                },
                _ => *final(self) == *old(self),
            }),
            // in Start the timer is asked exactly once, and its answer
            // decides: fired means the prevote is due now; not fired defers
            // to completability; a failed timer is fatal
            (match old(self).state {
                State::Start => exists|o: TimerOutcome|
                    {
                        &&& #[trigger] only_noted(
                            old(env).model(),
                            final(env).model(),
                            old(self).round_number,
                            Outcome::PrevoteTimer(o),
                        )
                        &&& (o is Failed <==> r is Err)
                        &&& (o is Elapsed ==> final(self).state == State::Prevoted)
                        &&& (final(self).state == State::Prevoted ==> (o is Elapsed || old(
                            env,
                        ).model().tallies[old(self).round_number].completable))
                        &&& (r is Ok && final(self).state == State::Start ==> (o is Pending && !old(
                            env,
                        ).model().tallies[old(self).round_number].completable))
                    },
                _ => final(env).model() == old(env).model(),
            }),
            same_but_outcomes(old(env).model(), final(env).model(), old(self).round_number),
            r is Err ==> *final(self) == *old(self),
    {
        let ghost m0 = old(env).model();
        let rn = self.round_number;
        match self.state {
            State::Start => {
                let timer = env.poll_prevote_timer(rn);
                proof {
                    assert(only_noted(m0, env.model(), rn, Outcome::PrevoteTimer(timer)));
                    lemma_prefix_refl(m0.outcomes[rn]);
                    lemma_prefix_push(m0.outcomes[rn], m0.outcomes[rn], Outcome::PrevoteTimer(timer));
                }
                let should_prevote = match timer {
                    TimerOutcome::Failed => {
                        return Err(Error::Environment);
                    },
                    TimerOutcome::Elapsed => true,
                    TimerOutcome::Pending => env.round_state(rn).completable,
                };
                if should_prevote {
                    if let Some(prevote) = self.construct_prevote(env) {
                        self.outgoing.push(Message::Prevote(prevote));
                    }
                    self.state = State::Prevoted;
                }
                Ok(())
            },
            _ => {
                proof {
                    lemma_prefix_refl(m0.outcomes[rn]);
                }
                Ok(())
            },
        }
    }

    /// The precommit step: in the Prevoted phase, once the previous round's
    /// estimate equals or precedes the tally's prevote ghost and the
    /// precommit timer has fired or the round is completable, cast the
    /// round's single precommit and advance to Precommitted.
    fn precommit<E: Environment>(&mut self, env: &mut E) -> (r: Result<(), Error>)
        requires
            prior_ok(old(self).last_round_state),
        ensures
            *final(self) == (VotingRound {
                state: final(self).state,
                outgoing: final(self).outgoing,
                ..*old(self)
            }),
            final(self).outgoing.round == old(self).outgoing.round,
            (match old(self).state {
                State::Prevoted => {
                    ||| (final(self).state == State::Prevoted
                        && final(self).outgoing == old(self).outgoing)
                    ||| (final(self).state == State::Precommitted
                        && precommit_push_ok(*old(self), *final(self), old(env).model()))
                },
                _ => *final(self) == *old(self),
            }),
            // while the precommit condition on the previous round's estimate
            // does not hold, the timer is left alone; once it holds, the
            // timer is asked exactly once and its answer decides
            (match old(self).state {
                State::Prevoted => {
                    if spec_may_precommit(
                        old(env).model().tallies[old(self).round_number],
                        old(self).last_round_state,
                        old(env).model().ancestry,
                    ) {
                        exists|o: TimerOutcome|
                            {
                                &&& #[trigger] only_noted(
                                    old(env).model(),
                                    final(env).model(),
                                    old(self).round_number,
                                    Outcome::PrecommitTimer(o),
                                )
                                &&& (o is Failed <==> r is Err)
                                &&& (o is Elapsed ==> final(self).state == State::Precommitted)
                                &&& (final(self).state == State::Precommitted ==> (o is Elapsed
                                    || old(env).model().tallies[old(self).round_number].completable))
                                &&& (r is Ok && final(self).state == State::Prevoted ==> (
                                o is Pending && !old(
                                    env,
                                ).model().tallies[old(self).round_number].completable))
                            }
                    } else {
                        final(env).model() == old(env).model() && final(self).state
                            == State::Prevoted && final(self).outgoing == old(self).outgoing
                    }
                },
                _ => final(env).model() == old(env).model(),
            }),
            same_but_outcomes(old(env).model(), final(env).model(), old(self).round_number),
            r is Err ==> *final(self) == *old(self),
    {
        let ghost m0 = old(env).model();
        let rn = self.round_number;
        proof {
            lemma_prefix_refl(m0.outcomes[rn]);
        }
        match self.state {
            State::Prevoted => {
                // the predecessor was completable, so its estimate exists
                let last_round_estimate = self.last_round_state.estimate.unwrap();
                let st = env.round_state(self.round_number);
                // wait for the previous round's estimate to equal or precede
                // this round's prevote ghost
                let may_precommit = match st.prevote_ghost {
                    Some(p_g) => {
                        if block_eq(p_g, last_round_estimate) {
                            true
                        } else {
                            match env.ancestry(last_round_estimate.0, p_g.0) {
                                Ok(_) => true,
                                Err(_) => false,
                            }
                        }
                    },
                    None => false,
                };
                let mut should_precommit = false;
                if may_precommit {
                    let timer = env.poll_precommit_timer(self.round_number);
                    proof {
                        assert(only_noted(m0, env.model(), rn, Outcome::PrecommitTimer(timer)));
                        lemma_prefix_push(
                            m0.outcomes[rn],
                            m0.outcomes[rn],
                            Outcome::PrecommitTimer(timer),
                        );
                    }
                    match timer {
                        TimerOutcome::Failed => {
                            return Err(Error::Environment);
                        },
                        TimerOutcome::Elapsed => should_precommit = true,
                        TimerOutcome::Pending => should_precommit = st.completable,
                    }
                }
                if should_precommit {
                    let precommit = self.construct_precommit(env);
                    self.outgoing.push(Message::Precommit(precommit));
                    self.state = State::Precommitted;
                }
                Ok(())
            },
            _ => Ok(()),
        }
    }

    /// Poll the round once: drain the incoming stream into the tally,
    /// forwarding every equivocation the tally reports; publish a changed
    /// state to the bridged successor and collect a finalization notice; run
    /// the prevote and the precommit step; drive the outgoing sink. Ready
    /// exactly when the round is completable and every outgoing message is
    /// flushed; the round stays live for further inbound votes.
    #[verifier::loop_isolation(false)]
    pub fn poll<E: Environment>(&mut self, env: &mut E) -> (r: Result<RoundPoll, Error>)
        requires
            old(self).inv(old(env).model()),
        ensures
            final(self).inv(final(env).model()),
            *final(self) == (VotingRound {
                state: final(self).state,
                outgoing: final(self).outgoing,
                bridged_state: final(self).bridged_state,
                ..*old(self)
            }),
            phase_le(old(self).state, final(self).state),
            old(self).bridged_state is None ==> final(self).bridged_state is None,
            // a bridged successor sees either the last published state or the
            // fresh post-drain snapshot
            final(self).bridged_state == old(self).bridged_state || final(self).bridged_state
                == Some(final(env).model().tallies[old(self).round_number]),
            round_poll_frame(old(env).model(), final(env).model(), old(self).round_number),
            old(self).emitted(old(env).model()).is_prefix_of(
                final(self).emitted(final(env).model()),
            ),
            new_precommits_sound(
                old(self).emitted(old(env).model()).len() as int,
                final(self).emitted(final(env).model()),
                final(env).model(),
                *final(self),
            ),
            (match r {
                Ok(out) => {
                    &&& (out.finalized matches Some(f) ==> {
                        &&& final(env).model().tallies[old(self).round_number].finalized == Some(
                            f,
                        )
                        &&& final(env).model().tallies[old(self).round_number].completable
                        &&& final(self).state is Precommitted
                    })
                    &&& (out.ready <==> {
                        &&& final(env).model().tallies[old(self).round_number].completable
                        &&& final(self).outgoing.buffer@.len() == 0
                        &&& final(env).model().outcomes[old(self).round_number].len() > 0
                        &&& final(env).model().outcomes[old(self).round_number].last()
                            == Outcome::Flush(FlushOutcome::Flushed)
                    })
                },
                Err(_) => true,
            }),
            new_prevotes_sound(
                old(self).emitted(old(env).model()).len() as int,
                final(self).emitted(final(env).model()),
                final(env).model(),
                *final(self),
            ),
            // every vote the stream delivered before reporting no-more-ready
            // went to the tally, in delivery order
            r is Ok ==> ({
                let a = old(env).model();
                let b = final(env).model();
                let r0 = old(self).round_number;
                b.imported[r0] == a.imported[r0] + a.incoming[r0].take(
                    a.incoming[r0].len() - b.incoming[r0].len(),
                )
            }),
            // the stream was asked until it reported no-more-ready
            r is Ok ==> ({
                let a = old(env).model();
                let b = final(env).model();
                let r0 = old(self).round_number;
                exists|k: int|
                    a.outcomes[r0].len() <= k < b.outcomes[r0].len() && b.outcomes[r0][k]
                        == Outcome::Stream(StreamOutcome::Pending)
            }),
            quiescent(*old(self), old(env).model()) ==> {
                &&& same_but_outcomes(old(env).model(), final(env).model(), old(self).round_number)
                &&& final(self).state == old(self).state
                &&& final(self).outgoing.buffer@ == old(self).outgoing.buffer@
                &&& final(self).bridged_state == old(self).bridged_state
                &&& (r matches Ok(out) ==> out.finalized is None)
            },
    {
        let ghost m0 = old(env).model();
        let rn = self.round_number;
        proof {
            lemma_eq_forwarding_refl(m0);
            lemma_prefix_refl(m0.imported[rn]);
            lemma_prefix_refl(m0.outcomes[rn]);
            assert(m0.incoming[rn].skip(0) =~= m0.incoming[rn]);
            assert(m0.imported[rn] + m0.incoming[rn].take(0) =~= m0.imported[rn]);
        }
        let pre_state = env.round_state(rn);
        let mut draining = true;
        while draining
            invariant
                drain_frame(m0, env.model(), rn),
                env.model().imported[rn] == m0.imported[rn] + m0.incoming[rn].take(
                    m0.incoming[rn].len() - env.model().incoming[rn].len(),
                ),
                !draining ==> env.model().outcomes[rn].len() > m0.outcomes[rn].len()
                    && env.model().outcomes[rn].last() == Outcome::Stream(StreamOutcome::Pending),
            decreases env.model().incoming[rn].len() + (if draining {
                1int
            } else {
                0
            }),
        {
            let ghost mpre = env.model();
            let ghost consumed = m0.incoming[rn].len() - mpre.incoming[rn].len();
            match env.poll_incoming(rn) {
                StreamOutcome::Ready(sm) => {
                    let ghost mb = env.model();
                    proof {
                        lemma_consume_step(m0.incoming[rn], consumed);
                        lemma_prefix_push(
                            m0.outcomes[rn],
                            mpre.outcomes[rn],
                            Outcome::Stream(StreamOutcome::Ready(sm)),
                        );
                        assert(mb.incoming[rn] =~= m0.incoming[rn].skip(consumed + 1));
                    }
                    match sm.message {
                        Message::Prevote(v) => {
                            match env.import_prevote(rn, v, sm.id, sm.signature) {
                                Ok(out) => {
                                    proof {
                                        lemma_import_step(
                                            m0.imported[rn],
                                            m0.incoming[rn],
                                            mb.imported[rn],
                                            consumed,
                                            sm,
                                        );
                                        assert(SignedMessage {
                                            message: Message::Prevote(v),
                                            signature: sm.signature,
                                            id: sm.id,
                                        } == sm);
                                    }
                                    if let Some(e) = out {
                                        proof {
                                            lemma_forward_step(
                                                m0.forwarded_prevote_eqs,
                                                m0.reported_prevote_eqs,
                                                mb.forwarded_prevote_eqs,
                                                mb.reported_prevote_eqs,
                                                (rn, e),
                                            );
                                        }
                                        env.prevote_equivocation(rn, e);
                                    }
                                },
                                Err(er) => {
                                    proof {
                                        lemma_prefix_append(
                                            m0.imported[rn],
                                            m0.incoming[rn].take(consumed + 1),
                                        );
                                        lemma_prefix_append(
                                            m0.imported[rn],
                                            m0.incoming[rn].take(consumed),
                                        );
                                        lemma_prefix_trans(
                                            m0.imported[rn],
                                            mb.imported[rn],
                                            env.model().imported[rn],
                                        );
                                        lemma_drain_exit(*self, m0, env.model());
                                    }
                                    return Err(er);
                                },
                            }
                        },
                        Message::Precommit(v) => {
                            match env.import_precommit(rn, v, sm.id, sm.signature) {
                                Ok(out) => {
                                    proof {
                                        lemma_import_step(
                                            m0.imported[rn],
                                            m0.incoming[rn],
                                            mb.imported[rn],
                                            consumed,
                                            sm,
                                        );
                                        assert(SignedMessage {
                                            message: Message::Precommit(v),
                                            signature: sm.signature,
                                            id: sm.id,
                                        } == sm);
                                    }
                                    if let Some(e) = out {
                                        proof {
                                            lemma_forward_step(
                                                m0.forwarded_precommit_eqs,
                                                m0.reported_precommit_eqs,
                                                mb.forwarded_precommit_eqs,
                                                mb.reported_precommit_eqs,
                                                (rn, e),
                                            );
                                        }
                                        env.precommit_equivocation(rn, e);
                                    }
                                },
                                Err(er) => {
                                    proof {
                                        lemma_prefix_append(
                                            m0.imported[rn],
                                            m0.incoming[rn].take(consumed + 1),
                                        );
                                        lemma_prefix_append(
                                            m0.imported[rn],
                                            m0.incoming[rn].take(consumed),
                                        );
                                        lemma_prefix_trans(
                                            m0.imported[rn],
                                            mb.imported[rn],
                                            env.model().imported[rn],
                                        );
                                        lemma_drain_exit(*self, m0, env.model());
                                    }
                                    return Err(er);
                                },
                            }
                        },
                    }
                },
                StreamOutcome::Pending => {
                    proof {
                        lemma_prefix_push(
                            m0.outcomes[rn],
                            mpre.outcomes[rn],
                            Outcome::Stream(StreamOutcome::Pending),
                        );
                    }
                    draining = false;
                },
                StreamOutcome::Failed => {
                    proof {
                        lemma_prefix_push(
                            m0.outcomes[rn],
                            mpre.outcomes[rn],
                            Outcome::Stream(StreamOutcome::Failed),
                        );
                        lemma_drain_exit(*self, m0, env.model());
                    }
                    return Err(Error::Environment);
                },
            }
        }
        let ghost md = env.model();
        proof {
            lemma_drain_exit(*self, m0, md);
        }
        let post_state = env.round_state(rn);
        let notification = self.notify(pre_state, post_state);
        let ghost e0 = old(self).emitted(m0);
        proof {
            assert(self.emitted(md) == e0);
            lemma_prefix_refl(e0);
            lemma_prefix_refl(md.sent[rn]);
            lemma_prefix_refl(md.outcomes[rn]);
        }
        match self.prevote(env) {
            Ok(()) => {},
            Err(er) => {
                proof {
                    lemma_after_frame(m0, md, env.model(), rn);
                }
                return Err(er);
            },
        }
        let ghost m1 = env.model();
        proof {
            if self.outgoing.buffer@.len() != old(self).outgoing.buffer@.len() {
                lemma_append_push(
                    md.sent[rn],
                    old(self).outgoing.buffer@,
                    self.outgoing.buffer@.last(),
                );
                lemma_prefix_push(e0, e0, self.outgoing.buffer@.last());
            }
        }
        let ghost e1 = self.emitted(m1);
        let ghost mid = *self;
        match self.precommit(env) {
            Ok(()) => {},
            Err(er) => {
                proof {
                    lemma_sbo_trans(md, m1, env.model(), rn);
                    lemma_after_frame(m0, md, env.model(), rn);
                }
                return Err(er);
            },
        }
        let ghost m2 = env.model();
        proof {
            lemma_sbo_trans(md, m1, m2, rn);
            if self.outgoing.buffer@.len() != mid.outgoing.buffer@.len() {
                lemma_append_push(
                    md.sent[rn],
                    mid.outgoing.buffer@,
                    self.outgoing.buffer@.last(),
                );
                lemma_prefix_push(e0, e1, self.outgoing.buffer@.last());
            }
        }
        let ghost e2 = self.emitted(m2);
        let sink = self.outgoing.poll(env);
        proof {
            lemma_prefix_trans(
                md.outcomes[rn],
                m2.outcomes[rn],
                env.model().outcomes[rn],
            );
            lemma_after_frame(m0, md, env.model(), rn);
        }
        let flushed = match sink {
            Ok(Readiness::Ready) => true,
            Ok(Readiness::NotReady) => false,
            Err(er) => {
                return Err(er);
            },
        };
        proof {
            let kp = md.outcomes[rn].len() - 1;
            lemma_prefix_index(md.outcomes[rn], env.model().outcomes[rn], kp);
        }
        if !flushed {
            return Ok(RoundPoll { ready: false, finalized: notification });
        }
        let completable = env.round_state(rn).completable;
        Ok(RoundPoll { ready: completable, finalized: notification })
    }
}

proof fn lemma_drain_exit(pre: VotingRound, m0: EnvView, md: EnvView)
    requires
        pre.inv(m0),
        drain_frame(m0, md, pre.round_number),
    ensures
        pre.inv(md),
        round_poll_frame(m0, md, pre.round_number),
        pre.emitted(md) == pre.emitted(m0),
        pre.emitted(m0).is_prefix_of(pre.emitted(md)),
        m0.incoming[pre.round_number].len() == 0 ==> same_but_outcomes(
            m0,
            md,
            pre.round_number,
        ),
{
    lemma_prefix_refl(m0.sent[pre.round_number]);
    assert(pre.emitted(md) == pre.emitted(m0));
    lemma_prefix_refl(pre.emitted(m0));
}

/// One drained vote was recorded in the import log: the consumed prefix of
/// the incoming queue grows by one.
proof fn lemma_import_step(
    imp0: Seq<SignedMessage>,
    inc0: Seq<SignedMessage>,
    imp_pre: Seq<SignedMessage>,
    c: int,
    sm: SignedMessage,
)
    requires
        0 <= c < inc0.len(),
        sm == inc0[c],
        imp_pre == imp0 + inc0.take(c),
    ensures
        imp_pre.push(sm) == imp0 + inc0.take(c + 1),
        imp0.is_prefix_of(imp_pre.push(sm)),
        imp0.is_prefix_of(imp_pre),
{
    lemma_consume_step(inc0, c);
    lemma_append_push(imp0, inc0.take(c), sm);
    lemma_prefix_append(imp0, inc0.take(c + 1));
    lemma_prefix_append(imp0, inc0.take(c));
}

/// Transitivity of `same_but_outcomes`.
proof fn lemma_sbo_trans(a: EnvView, b: EnvView, c: EnvView, r: u64)
    requires
        same_but_outcomes(a, b, r),
        same_but_outcomes(b, c, r),
    ensures
        same_but_outcomes(a, c, r),
{
    lemma_prefix_trans(a.outcomes[r], b.outcomes[r], c.outcomes[r]);
}

/// After the drain, the prevote, precommit and sink steps only append to the
/// round's sink and record more answers, so the poll's frame composes.
proof fn lemma_after_frame(m0: EnvView, md: EnvView, mf: EnvView, r: u64)
    requires
        drain_frame(m0, md, r),
        mf == (EnvView { sent: mf.sent, outcomes: mf.outcomes, ..md }),
        agree_except(md.sent, mf.sent, r),
        md.sent[r].is_prefix_of(mf.sent[r]),
        agree_except(md.outcomes, mf.outcomes, r),
        md.outcomes[r].is_prefix_of(mf.outcomes[r]),
    ensures
        round_poll_frame(m0, mf, r),
        m0.incoming[r].len() == 0 && mf.sent == md.sent ==> same_but_outcomes(m0, mf, r),
        mf.tallies == md.tallies,
        mf.incoming == md.incoming,
        mf.imported == md.imported,
        mf.ancestry == md.ancestry,
        mf.best_chain == md.best_chain,
{
    lemma_prefix_trans(m0.outcomes[r], md.outcomes[r], mf.outcomes[r]);
}

/// Decide which block the prevote should extend:/// Decide which block the prevote should extend: the previous round's
/// estimate, unless the primary's hint names a block of the previous prevote
/// ghost's chain that is not shallower than the estimate, in which case the
/// hint.
pub fn prevote_anchor<E: Environment>(
    env: &E,
    last: &RoundState,
    primary: Option<(u64, u32)>,
) -> (a: u64)
    requires
        prior_ok(*last),
    ensures
        a == spec_prevote_anchor(
            *last,
            primary,
            env.model().ancestry[((last.estimate->0).0, (last.prevote_ghost->0).0)],
        ),
{
    let e = last.estimate.unwrap();
    match primary {
        None => e.0,
        Some(p) => {
            let g = last.prevote_ghost.unwrap();
            if block_eq(p, g) {
                p.0
            } else if p.1 >= g.1 {
                e.0
            } else {
                // the hint sits strictly below the previous prevote ghost:
                // accept it only if it lies on the ghost's chain down to the
                // estimate, at its own height
                match env.ancestry(e.0, g.0) {
                    Ok(path) => {
                        let offset = g.1 - (p.1 + 1);
                        let idx = offset as usize;
                        if idx < path.len() && path[idx] == p.0 {
                            p.0
                        } else {
                            e.0
                        }
                    },
                    Err(_) => e.0,
                }
            }
        },
    }
}

} // verus!
