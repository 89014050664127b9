//! The environment a voter runs in.
//!
//! The engine is parameterized over an [`Environment`]: the block tree, the
//! per-round vote tally, the timers, the incoming vote stream, the outgoing
//! message sink and the side effects (finalization, round completion and
//! equivocation reports) are all reached through it. Its observable state is
//! modelled by [`EnvView`], and every trait method carries a contract over
//! that model; the engine's own guarantees are proved from those contracts
//! alone.

use vstd::prelude::*;

use crate::messages::Equivocation;
use crate::messages::Message;
use crate::messages::Precommit;
use crate::messages::Prevote;
use crate::messages::SignedMessage;
use crate::round_state::tally_step;
use crate::round_state::RoundState;

verus! {

/// Errors the engine surfaces.
#[derive(Clone, Copy, PartialEq, Eq, Structural, Debug)]
pub enum Error {
    /// An ancestry query was made on two blocks that are not on one chain.
    /// Expected, and recovered from locally.
    NotDescendant,
    /// A timer, stream, sink or import of the environment failed. Fatal to
    /// the engine.
    Environment,
}

/// Whether a polled component has finished its work.
#[derive(Clone, Copy, PartialEq, Eq, Structural, Debug)]
pub enum Readiness {
    Ready,
    NotReady,
}

/// The answer of one poll of a round timer.
#[derive(Clone, Copy, PartialEq, Eq, Structural, Debug)]
pub enum TimerOutcome {
    /// The timer has fired.
    Elapsed,
    /// The timer has not fired yet.
    Pending,
    /// The timer failed; fatal.
    Failed,
}

/// The answer of one poll of a round's incoming vote stream.
#[derive(Clone, Copy, PartialEq, Eq, Debug)]
pub enum StreamOutcome {
    /// The next vote, in delivery order.
    Ready(SignedMessage),
    /// No vote is ready; the stream may yield more later.
    Pending,
    /// The stream failed; fatal.
    Failed,
}

/// The answer of handing one message to a round's outgoing sink.
#[derive(Clone, Copy, PartialEq, Eq, Structural, Debug)]
pub enum SendOutcome {
    /// The sink accepted the message.
    Accepted,
    /// The sink is full; the message was not taken.
    Full,
    /// The sink failed; fatal.
    Failed,
}

/// The answer of driving a round's outgoing sink toward its flush.
#[derive(Clone, Copy, PartialEq, Eq, Structural, Debug)]
pub enum FlushOutcome {
    /// Everything the sink accepted has been flushed.
    Flushed,
    /// The sink still holds unflushed data.
    Busy,
    /// The sink failed; fatal.
    Failed,
}

/// Data the environment supplies for one round of voting.
///
/// The round's timers, its incoming stream, its outgoing sink and its tally
/// stay inside the environment and are addressed by round number; what the
/// engine receives by value is the weight map of the round's voters.
pub struct RoundData {
    /// The voters of the round, each with a weight of at least one.
    pub voters: Vec<(u64, u64)>,
}

/// One answer a round's timers, stream or sink gave to the engine. The model
/// records them per round, in the order they were given, so that contracts
/// can say what the engine owes for each answer it received.
#[derive(Clone, Copy, PartialEq, Eq, Debug)]
pub enum Outcome {
    PrevoteTimer(TimerOutcome),
    PrecommitTimer(TimerOutcome),
    Stream(StreamOutcome),
    Send(SendOutcome),
    Flush(FlushOutcome),
}

/// The observable state of an environment.
///
/// `tallies`, `sent`, `incoming`, `imported` and `outcomes` are addressed by
/// round number. `sent` holds what each round's sink has accepted, oldest
/// first; `incoming` holds the votes not yet delivered to the engine, next
/// first; `imported` holds the votes handed to each round's tally, in import
/// order; `outcomes` records each answer the round's timers, stream and sink
/// gave. `ancestry` is the block tree's ancestry relation: for a pair
/// `(base, head)` of hashes, either the path of hashes from the parent of
/// `head` down to, but excluding, `base`, or `None` where `head` does not
/// descend from `base`. `best_chain` is the tip of the best chain through
/// each block, or `None` where the block is unknown. The remaining fields
/// log the side effects, oldest first.
pub struct EnvView {
    pub tallies: Map<u64, RoundState>,
    pub sent: Map<u64, Seq<Message>>,
    pub incoming: Map<u64, Seq<SignedMessage>>,
    pub imported: Map<u64, Seq<SignedMessage>>,
    pub outcomes: Map<u64, Seq<Outcome>>,
    pub ancestry: Map<(u64, u64), Option<Seq<u64>>>,
    pub best_chain: Map<u64, Option<(u64, u32)>>,
    pub finalized: Seq<(u64, u32)>,
    pub completed_rounds: Seq<(u64, RoundState)>,
    pub reported_prevote_eqs: Seq<(u64, Equivocation<Prevote>)>,
    pub forwarded_prevote_eqs: Seq<(u64, Equivocation<Prevote>)>,
    pub reported_precommit_eqs: Seq<(u64, Equivocation<Precommit>)>,
    pub forwarded_precommit_eqs: Seq<(u64, Equivocation<Precommit>)>,
}

/// Two maps that agree everywhere but possibly at `r`.
pub open spec fn agree_except<V>(a: Map<u64, V>, b: Map<u64, V>, r: u64) -> bool {
    forall|x: u64| x != r ==> #[trigger] b[x] == a[x]
}

/// The outcome map after one more answer was given to round `r`.
pub open spec fn outcome_noted(m: EnvView, r: u64, o: Outcome) -> Map<u64, Seq<Outcome>> {
    m.outcomes.insert(r, m.outcomes[r].push(o))
}

/// What an import into round `r`'s tally leaves untouched: everything except
/// that tally, its import log and the equivocation report logs.
pub open spec fn import_frame(a: EnvView, b: EnvView, r: u64) -> bool {
    &&& b.sent == a.sent
    &&& b.incoming == a.incoming
    &&& b.outcomes == a.outcomes
    &&& b.ancestry == a.ancestry
    &&& b.best_chain == a.best_chain
    &&& b.finalized == a.finalized
    &&& b.completed_rounds == a.completed_rounds
    &&& b.forwarded_prevote_eqs == a.forwarded_prevote_eqs
    &&& b.forwarded_precommit_eqs == a.forwarded_precommit_eqs
    &&& agree_except(a.tallies, b.tallies, r)
    &&& tally_step(a.tallies[r], b.tallies[r])
    &&& agree_except(a.imported, b.imported, r)
    &&& a.imported[r].is_prefix_of(b.imported[r])
}

/// The environment of a voter: block tree, per-round tallies, timers,
/// streams, sinks and side effects.
///
/// The trait stands for collaborators outside this crate; an implementation
/// is not verified here, so every proof about the engine holds as far as the
/// implementation honours these contracts, which record only what the
/// collaborators document: which log each effect appends to, that a tally
/// only moves as [`tally_step`] allows, and that streams hand votes out in
/// delivery order. Nothing is promised about timers, about sink
/// backpressure, or about what the block tree answers.
pub trait Environment {
    /// The model of the environment's observable state.
    spec fn model(&self) -> EnvView;

    /// Query the block tree for the ancestry path from `head` down to, but
    /// excluding, `base`. The path excludes `head` itself: its first entry
    /// is the parent of `head`.
    fn ancestry(&self, base: u64, head: u64) -> (r: Result<Vec<u64>, Error>)
        ensures
            (match r {
                Ok(path) => self.model().ancestry[(base, head)] == Some(path@),
                Err(e) => e == Error::NotDescendant && self.model().ancestry[(base, head)] is None,
            }),
    ;

    /// Query the block tree for the tip of the best chain containing the
    /// given block, or `None` where the block is unknown. The answer changes
    /// as the chain grows, which the model reflects.
    fn best_chain_containing(&self, block: u64) -> (r: Option<(u64, u32)>)
        ensures
            r == self.model().best_chain[block],
    ;

    /// Produce the data necessary to start the given round of voting, and set
    /// up the round's tally, timers, stream and sink inside the environment.
    /// The fresh tally has counted no vote.
    fn round_data(&mut self, round: u64) -> (r: RoundData)
        ensures
            final(self).model() == (EnvView {
                tallies: old(self).model().tallies.insert(round, RoundState::fresh_spec()),
                ..old(self).model()
            }),
    ;

    /// Read the given round's tally snapshot.
    fn round_state(&self, round: u64) -> (r: RoundState)
        ensures
            r == self.model().tallies[round],
    ;

    /// Import a prevote into the given round's tally. The round's import log
    /// records the vote; the tally may report an equivocation by the vote's
    /// signer, which the report log records.
    fn import_prevote(&mut self, round: u64, vote: Prevote, id: u64, signature: u64) -> (r: Result<
        Option<Equivocation<Prevote>>,
        Error,
    >)
        ensures
            import_frame(old(self).model(), final(self).model(), round),
            final(self).model().reported_precommit_eqs
                == old(self).model().reported_precommit_eqs,
            r is Ok ==> final(self).model().imported == old(self).model().imported.insert(
                round,
                old(self).model().imported[round].push(
                    SignedMessage { message: Message::Prevote(vote), signature, id },
                ),
            ),
            (match r {
                Ok(Some(e)) => final(self).model().reported_prevote_eqs == old(
                    self,
                ).model().reported_prevote_eqs.push((round, e)),
                _ => final(self).model().reported_prevote_eqs == old(
                    self,
                ).model().reported_prevote_eqs,
            }),
    ;

    /// Import a precommit into the given round's tally, as `import_prevote`.
    fn import_precommit(&mut self, round: u64, vote: Precommit, id: u64, signature: u64) -> (r:
        Result<Option<Equivocation<Precommit>>, Error>)
        ensures
            import_frame(old(self).model(), final(self).model(), round),
            final(self).model().reported_prevote_eqs == old(self).model().reported_prevote_eqs,
            r is Ok ==> final(self).model().imported == old(self).model().imported.insert(
                round,
                old(self).model().imported[round].push(
                    SignedMessage { message: Message::Precommit(vote), signature, id },
                ),
            ),
            (match r {
                Ok(Some(e)) => final(self).model().reported_precommit_eqs == old(
                    self,
                ).model().reported_precommit_eqs.push((round, e)),
                _ => final(self).model().reported_precommit_eqs == old(
                    self,
                ).model().reported_precommit_eqs,
            }),
    ;

    /// Poll the given round's incoming vote stream once. The answer is
    /// recorded in the round's outcome log.
    fn poll_incoming(&mut self, round: u64) -> (r: StreamOutcome)
        ensures
            (match r {
                StreamOutcome::Ready(m) => {
                    &&& old(self).model().incoming[round].len() > 0
                    &&& m == old(self).model().incoming[round][0]
                    &&& final(self).model() == (EnvView {
                        incoming: old(self).model().incoming.insert(
                            round,
                            old(self).model().incoming[round].drop_first(),
                        ),
                        outcomes: outcome_noted(old(self).model(), round, Outcome::Stream(r)),
                        ..old(self).model()
                    })
                },
                _ => final(self).model() == (EnvView {
                    outcomes: outcome_noted(old(self).model(), round, Outcome::Stream(r)),
                    ..old(self).model()
                }),
            }),
    ;

    /// Poll the given round's prevote-delay timer once. When it fires is the
    /// environment's business; the answer is recorded in the outcome log.
    fn poll_prevote_timer(&mut self, round: u64) -> (r: TimerOutcome)
        ensures
            final(self).model() == (EnvView {
                outcomes: outcome_noted(old(self).model(), round, Outcome::PrevoteTimer(r)),
                ..old(self).model()
            }),
    ;

    /// Poll the given round's precommit-delay timer once.
    fn poll_precommit_timer(&mut self, round: u64) -> (r: TimerOutcome)
        ensures
            final(self).model() == (EnvView {
                outcomes: outcome_noted(old(self).model(), round, Outcome::PrecommitTimer(r)),
                ..old(self).model()
            }),
    ;

    /// Hand one message to the given round's outgoing sink. The sink is free
    /// to refuse it for now; the answer is recorded in the outcome log.
    fn start_send(&mut self, round: u64, item: Message) -> (r: SendOutcome)
        ensures
            (match r {
                SendOutcome::Accepted => final(self).model() == (EnvView {
                    sent: old(self).model().sent.insert(
                        round,
                        old(self).model().sent[round].push(item),
                    ),
                    outcomes: outcome_noted(old(self).model(), round, Outcome::Send(r)),
                    ..old(self).model()
                }),
                _ => final(self).model() == (EnvView {
                    outcomes: outcome_noted(old(self).model(), round, Outcome::Send(r)),
                    ..old(self).model()
                }),
            }),
    ;

    /// Drive the given round's outgoing sink toward its flush. The answer is
    /// recorded in the outcome log.
    fn poll_complete(&mut self, round: u64) -> (r: FlushOutcome)
        ensures
            final(self).model() == (EnvView {
                outcomes: outcome_noted(old(self).model(), round, Outcome::Flush(r)),
                ..old(self).model()
            }),
    ;

    /// Note that a round was completed, with its final state.
    fn completed(&mut self, round: u64, state: RoundState)
        ensures
            final(self).model() == (EnvView {
                completed_rounds: old(self).model().completed_rounds.push((round, state)),
                ..old(self).model()
            }),
    ;

    /// Announce a finalized block.
    fn finalize_block(&mut self, hash: u64, number: u32)
        ensures
            final(self).model() == (EnvView {
                finalized: old(self).model().finalized.push((hash, number)),
                ..old(self).model()
            }),
    ;

    /// Forward an equivocation between prevotes to the environment.
    fn prevote_equivocation(&mut self, round: u64, equivocation: Equivocation<Prevote>)
        ensures
            final(self).model() == (EnvView {
                forwarded_prevote_eqs: old(self).model().forwarded_prevote_eqs.push(
                    (round, equivocation),
                ),
                ..old(self).model()
            }),
    ;

    /// Forward an equivocation between precommits to the environment.
    fn precommit_equivocation(&mut self, round: u64, equivocation: Equivocation<Precommit>)
        ensures
            final(self).model() == (EnvView {
                forwarded_precommit_eqs: old(self).model().forwarded_precommit_eqs.push(
                    (round, equivocation),
                ),
                ..old(self).model()
            }),
    ;
}

} // verus!
