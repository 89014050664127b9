//! The voter: owns the best (latest) round and a set of background rounds,
//! announces finalized blocks in strictly increasing height order, rotates to
//! the next round once the best round has cast all its votes, and retires
//! background rounds whose estimate has been finalized.

use vstd::prelude::*;

use crate::environment::EnvView;
use crate::environment::Environment;
use crate::environment::Error;
use crate::environment::FlushOutcome;
use crate::environment::Outcome;
use crate::environment::Readiness;
use crate::round_state::prior_ok;
use crate::round_state::RoundState;
use crate::seq_facts::lemma_prefix_index;
use crate::seq_facts::lemma_prefix_push;
use crate::seq_facts::lemma_prefix_refl;
use crate::seq_facts::lemma_prefix_skip_append;
use crate::seq_facts::lemma_prefix_trans;
use crate::voting_round::eq_forwarding;
use crate::voting_round::lemma_eq_forwarding_refl;
use crate::voting_round::round_poll_frame;
use crate::voting_round::State;
use crate::voting_round::VotingRound;

verus! {

/// The finalization log is strictly increasing in height, and every entry is
/// at or below the voter's own record of the last finalized height.
pub open spec fn heights_ok(log: Seq<(u64, u32)>, last: u32) -> bool {
    &&& (forall|i: int, j: int| 0 <= i < j < log.len() ==> log[i].1 < log[j].1)
    &&& (forall|i: int| 0 <= i < log.len() ==> (#[trigger] log[i]).1 <= last)
}

/// The finalization log after a queue of notices is processed in order: each
/// notice strictly above the running record is announced and becomes the
/// record; the others are dropped.
pub open spec fn announced_log(
    log: Seq<(u64, u32)>,
    last: (u64, u32),
    pending: Seq<(u64, u32)>,
) -> Seq<(u64, u32)>
    decreases pending.len(),
{
    if pending.len() == 0 {
        log
    } else if pending[0].1 > last.1 {
        announced_log(log.push(pending[0]), pending[0], pending.drop_first())
    } else {
        announced_log(log, last, pending.drop_first())
    }
}

/// The record after a queue of notices is processed in order.
pub open spec fn announced_record(last: (u64, u32), pending: Seq<(u64, u32)>) -> (u64, u32)
    decreases pending.len(),
{
    if pending.len() == 0 {
        last
    } else if pending[0].1 > last.1 {
        announced_record(pending[0], pending.drop_first())
    } else {
        announced_record(last, pending.drop_first())
    }
}

/// Processing notices only extends the log and never lowers the record.
pub proof fn lemma_announced_extends(
    log: Seq<(u64, u32)>,
    last: (u64, u32),
    pending: Seq<(u64, u32)>,
)
    ensures
        log.is_prefix_of(announced_log(log, last, pending)),
        announced_record(last, pending).1 >= last.1,
    decreases pending.len(),
{
    if pending.len() == 0 {
        lemma_prefix_refl(log);
    } else if pending[0].1 > last.1 {
        lemma_announced_extends(log.push(pending[0]), pending[0], pending.drop_first());
        lemma_prefix_refl(log);
        lemma_prefix_push(log, log, pending[0]);
        lemma_prefix_trans(
            log,
            log.push(pending[0]),
            announced_log(log.push(pending[0]), pending[0], pending.drop_first()),
        );
    } else {
        lemma_announced_extends(log, last, pending.drop_first());
    }
}

/// A completed round that is still polled, because its evolving state may
/// still lift finalization, until its estimate is itself finalized.
pub struct BackgroundRound {
    /// The wrapped round.
    pub inner: VotingRound,
    /// The highest finalized height this round has been told of.
    pub finalized_number: u32,
}

impl BackgroundRound {
    /// The round can be dropped: its estimate exists and sits at or below
    /// the highest finalized height it has seen.
    pub open spec fn done_spec(self, m: EnvView) -> bool {
        m.tallies[self.inner.round_number].estimate matches Some(e) && e.1
            <= self.finalized_number
    }

    /// Whether the round can be dropped from the working set.
    fn is_done<E: Environment>(&self, env: &E) -> (r: bool)
        ensures
            r == self.done_spec(env.model()),
    {
        match env.round_state(self.inner.round_number).estimate {
            Some(x) => x.1 <= self.finalized_number,
            None => false,
        }
    }

    /// Raise the finalized height this round reckons retirement against.
    fn update_finalized(&mut self, new_finalized: u32)
        ensures
            final(self).inner == old(self).inner,
            final(self).finalized_number == (if new_finalized > old(self).finalized_number {
                new_finalized
            } else {
                old(self).finalized_number
            }),
    {
        if new_finalized > self.finalized_number {
            self.finalized_number = new_finalized;
        }
    }

    /// Poll the wrapped round, reporting whether this round may now be
    /// dropped, together with any finalization notice the round produced.
    fn poll<E: Environment>(&mut self, env: &mut E) -> (r: Result<
        (bool, Option<(u64, u32)>),
        Error,
    >)
        requires
            old(self).inner.inv(old(env).model()),
        ensures
            final(self).inner.inv(final(env).model()),
            final(self).finalized_number == old(self).finalized_number,
            final(self).inner.round_number == old(self).inner.round_number,
            round_poll_frame(
                old(env).model(),
                final(env).model(),
                old(self).inner.round_number,
            ),
            (match r {
                Ok(out) => {
                    &&& out.0 == final(self).done_spec(final(env).model())
                    &&& (out.1 matches Some(f) ==> {
                        &&& final(env).model().tallies[old(self).inner.round_number].finalized
                            == Some(f)
                        &&& final(env).model().tallies[old(self).inner.round_number].completable
                    })
                },
                Err(_) => true,
            }),
    {
        let out = match self.inner.poll(env) {
            Ok(out) => out,
            Err(er) => {
                return Err(er);
            },
        };
        let done = self.is_done(env);
        Ok((done, out.finalized))
    }
}

/// A round's invariant only reads that round's slice of the model, so a poll
/// of a different round preserves it.
proof fn lemma_inv_other_round(vr: VotingRound, a: EnvView, b: EnvView, r: u64)
    requires
        vr.inv(a),
        round_poll_frame(a, b, r),
        vr.round_number != r,
    ensures
        vr.inv(b),
{
    assert(b.sent[vr.round_number] == a.sent[vr.round_number]);
    assert(b.tallies[vr.round_number] == a.tallies[vr.round_number]);
    assert(vr.emitted(b) == vr.emitted(a));
}

proof fn lemma_eq_forwarding_trans(a: EnvView, b: EnvView, c: EnvView)
    requires
        eq_forwarding(a, b),
        eq_forwarding(b, c),
    ensures
        eq_forwarding(a, c),
{
    assert(a.reported_prevote_eqs =~= c.reported_prevote_eqs.subrange(
        0,
        a.reported_prevote_eqs.len() as int,
    ));
    assert(c.forwarded_prevote_eqs =~= a.forwarded_prevote_eqs
        + c.reported_prevote_eqs.skip(a.reported_prevote_eqs.len() as int));
    assert(a.reported_precommit_eqs =~= c.reported_precommit_eqs.subrange(
        0,
        a.reported_precommit_eqs.len() as int,
    ));
    assert(c.forwarded_precommit_eqs =~= a.forwarded_precommit_eqs
        + c.reported_precommit_eqs.skip(a.reported_precommit_eqs.len() as int));
}

/// What one poll of the voter may do to the environment, beyond the per-round
/// effects: extend the finalization and completion logs, and forward exactly
/// the newly reported equivocations.
pub open spec fn voter_poll_frame(a: EnvView, b: EnvView) -> bool {
    &&& a.finalized.is_prefix_of(b.finalized)
    &&& a.completed_rounds.is_prefix_of(b.completed_rounds)
    &&& eq_forwarding(a, b)
    &&& b.ancestry == a.ancestry
}

/// The voter: one best round, the background rounds, the highest block it
/// has announced as finalized, and the not yet processed finalization
/// notices its rounds have produced.
pub struct Voter {
    /// The highest-numbered round this voter casts votes in.
    pub best_round: VotingRound,
    /// Older rounds still polled until their estimate is finalized.
    pub past_rounds: Vec<BackgroundRound>,
    /// The highest block announced as finalized, with its height.
    pub last_finalized: (u64, u32),
    /// Finalization notices produced by the rounds and not yet processed,
    /// oldest first.
    pub pending: Vec<(u64, u32)>,
}

impl Voter {
    /// The voter's invariant against the environment's model.
    pub open spec fn inv(self, m: EnvView) -> bool {
        &&& self.best_round.inv(m)
        &&& self.best_round.bridged_state is None
        &&& (forall|i: int|
            0 <= i < self.past_rounds@.len() ==> (#[trigger] self.past_rounds@[i]).inner.inv(m))
        &&& (forall|i: int|
            0 <= i < self.past_rounds@.len()
                ==> (#[trigger] self.past_rounds@[i]).inner.round_number
                < self.best_round.round_number)
        &&& (forall|i: int, j: int|
            0 <= i < j < self.past_rounds@.len()
                ==> (#[trigger] self.past_rounds@[i]).inner.round_number
                != (#[trigger] self.past_rounds@[j]).inner.round_number)
        &&& (forall|i: int|
            0 <= i < self.past_rounds@.len() ==> (#[trigger] self.past_rounds@[i]).finalized_number
                <= self.last_finalized.1)
        &&& heights_ok(m.finalized, self.last_finalized.1)
        &&& m.forwarded_prevote_eqs == m.reported_prevote_eqs
        &&& m.forwarded_precommit_eqs == m.reported_precommit_eqs
        &&& (forall|rr: u64|
            rr > self.best_round.round_number ==> (#[trigger] m.sent[rr]).len() == 0)
    }

    /// Create a new voter from the data of the last completed round: its
    /// number, its state (the genesis state for a fresh chain) and the last
    /// finalized block. The first live round is the next one.
    pub fn new<E: Environment>(
        env: &mut E,
        last_round: u64,
        last_round_state: RoundState,
        last_finalized: (u64, u32),
    ) -> (v: Voter)
        requires
            prior_ok(last_round_state),
            last_round < u64::MAX,
            heights_ok(old(env).model().finalized, last_finalized.1),
            old(env).model().forwarded_prevote_eqs == old(env).model().reported_prevote_eqs,
            old(env).model().forwarded_precommit_eqs == old(env).model().reported_precommit_eqs,
            forall|rr: u64|
                rr > last_round ==> (#[trigger] old(env).model().sent[rr]).len() == 0,
        ensures
            v.inv(final(env).model()),
            v.last_finalized == last_finalized,
            v.best_round.round_number == last_round + 1,
            v.best_round.base == last_finalized,
            v.best_round.last_round_state == last_round_state,
            v.best_round.state == State::Start,
            v.past_rounds@.len() == 0,
            v.pending@.len() == 0,
            final(env).model() == (EnvView {
                tallies: old(env).model().tallies.insert(
                    (last_round + 1) as u64,
                    RoundState::fresh_spec(),
                ),
                ..old(env).model()
            }),
    {
        let next_number = last_round + 1;
        let _round_data = env.round_data(next_number);
        let best_round = VotingRound::new(next_number, last_finalized, last_round_state);
        Voter {
            best_round,
            past_rounds: Vec::new(),
            last_finalized,
            pending: Vec::new(),
        }
    }

    /// Process the pending finalization notices, announcing every block that
    /// tops the previous record, then poll every background round and drop
    /// the rounds whose estimate is now finalized.
    #[verifier::loop_isolation(false)]
    fn prune_background<E: Environment>(&mut self, env: &mut E) -> (r: Result<(), Error>)
        requires
            old(self).inv(old(env).model()),
        ensures
            final(self).inv(final(env).model()),
            final(self).best_round == old(self).best_round,
            voter_poll_frame(old(env).model(), final(env).model()),
            final(env).model().completed_rounds == old(env).model().completed_rounds,
            final(self).last_finalized.1 >= old(self).last_finalized.1,
            // exactly the qualifying pending notices are announced, in order,
            // and the record follows them
            final(env).model().finalized == announced_log(
                old(env).model().finalized,
                old(self).last_finalized,
                old(self).pending@,
            ),
            final(self).last_finalized == announced_record(
                old(self).last_finalized,
                old(self).pending@,
            ),
            // the old pending queue is consumed; what remains was produced by
            // this call's round polls, at most one notice per polled round
            r is Ok ==> final(self).pending@.len() <= old(self).past_rounds@.len(),
            forall|i: int|
                old(env).model().finalized.len() <= i < final(env).model().finalized.len()
                    ==> final(env).model().finalized[i].1 > old(self).last_finalized.1,
            r is Ok ==> (forall|i: int|
                0 <= i < final(self).past_rounds@.len()
                    ==> !(#[trigger] final(self).past_rounds@[i]).done_spec(final(env).model())),
    {
        let ghost m0 = old(env).model();
        proof {
            lemma_eq_forwarding_refl(m0);
            lemma_prefix_refl(m0.finalized);
            lemma_prefix_refl(m0.completed_rounds);
        }
        // announce the notices that top the previous record, oldest first
        while self.pending.len() > 0
            invariant
                env.model() == (EnvView { finalized: env.model().finalized, ..m0 }),
                m0.finalized.is_prefix_of(env.model().finalized),
                announced_log(env.model().finalized, self.last_finalized, self.pending@)
                    == announced_log(m0.finalized, old(self).last_finalized, old(self).pending@),
                announced_record(self.last_finalized, self.pending@) == announced_record(
                    old(self).last_finalized,
                    old(self).pending@,
                ),
                heights_ok(env.model().finalized, self.last_finalized.1),
                self.last_finalized.1 >= old(self).last_finalized.1,
                forall|i: int|
                    m0.finalized.len() <= i < env.model().finalized.len() ==> env.model().finalized[i].1
                        > old(self).last_finalized.1,
                self.best_round == old(self).best_round,
                self.past_rounds == old(self).past_rounds,
            decreases self.pending@.len(),
        {
            let notice = self.pending.remove(0);
            if notice.1 > self.last_finalized.1 {
                let ghost before = env.model();
                self.last_finalized = notice;
                env.finalize_block(notice.0, notice.1);
                proof {
                    lemma_prefix_push(m0.finalized, before.finalized, notice);
                }
            }
        }
        let ghost m1 = env.model();
        let ghost pump_start = self.past_rounds@.len();
        let lf = self.last_finalized;
        // poll the background rounds, telling each the newest finalized
        // height; keep only the rounds that still wait for finalization
        let mut kept: Vec<BackgroundRound> = Vec::new();
        while self.past_rounds.len() > 0
            invariant
                self.pending@.len() + self.past_rounds@.len() <= pump_start,
                self.last_finalized == lf,
                self.best_round == old(self).best_round,
                env.model().finalized == m1.finalized,
                env.model().completed_rounds == m1.completed_rounds,
                env.model().ancestry == m1.ancestry,
                env.model().forwarded_prevote_eqs == env.model().reported_prevote_eqs,
                env.model().forwarded_precommit_eqs == env.model().reported_precommit_eqs,
                eq_forwarding(m1, env.model()),
                self.best_round.inv(env.model()),
                heights_ok(env.model().finalized, self.last_finalized.1),
                forall|rr: u64|
                    rr > self.best_round.round_number ==> (#[trigger] env.model().sent[rr]).len()
                        == 0,
                forall|i: int|
                    0 <= i < self.past_rounds@.len() ==> (#[trigger] self.past_rounds@[i]).inner.inv(
                        env.model(),
                    ),
                forall|i: int|
                    0 <= i < self.past_rounds@.len()
                        ==> (#[trigger] self.past_rounds@[i]).inner.round_number
                        < self.best_round.round_number,
                forall|i: int, j: int|
                    0 <= i < j < self.past_rounds@.len()
                        ==> (#[trigger] self.past_rounds@[i]).inner.round_number != (
                    #[trigger] self.past_rounds@[j]).inner.round_number,
                forall|i: int|
                    0 <= i < self.past_rounds@.len()
                        ==> (#[trigger] self.past_rounds@[i]).finalized_number
                        <= self.last_finalized.1,
                forall|i: int|
                    0 <= i < kept@.len() ==> (#[trigger] kept@[i]).inner.inv(env.model()),
                forall|i: int|
                    0 <= i < kept@.len() ==> (#[trigger] kept@[i]).inner.round_number
                        < self.best_round.round_number,
                forall|i: int, j: int|
                    0 <= i < j < kept@.len() ==> (#[trigger] kept@[i]).inner.round_number != (
                    #[trigger] kept@[j]).inner.round_number,
                forall|i: int, j: int|
                    0 <= i < kept@.len() && 0 <= j < self.past_rounds@.len() ==> (#[trigger] kept@[i]).inner.round_number
                        != (#[trigger] self.past_rounds@[j]).inner.round_number,
                forall|i: int|
                    0 <= i < kept@.len() ==> (#[trigger] kept@[i]).finalized_number
                        == self.last_finalized.1,
                forall|i: int|
                    0 <= i < kept@.len() ==> !(#[trigger] kept@[i]).done_spec(env.model()),
            decreases self.past_rounds@.len(),
        {
            let mut bg = match self.past_rounds.pop() {
                Some(bg) => bg,
                None => {
                    proof {
                        assert(false);
                    }
                    return Ok(());
                },
            };
            bg.update_finalized(self.last_finalized.1);
            let ghost mprev = env.model();
            let polled = match bg.poll(env) {
                Ok(p) => p,
                Err(er) => {
                    proof {
                        lemma_prune_frames(m0, m1, mprev, env.model(), *self, kept@, bg);
                    }
                    return Err(er);
                },
            };
            if let Some(n) = polled.1 {
                self.pending.push(n);
            }
            proof {
                lemma_prune_frames(m0, m1, mprev, env.model(), *self, kept@, bg);
            }
            if !polled.0 {
                kept.push(bg);
            }
        }
        self.past_rounds = kept;
        proof {
            lemma_eq_forwarding_trans(m0, m1, env.model());
        }
        Ok(())
    }

    /// Poll the voter once: prune the background rounds, refresh the best
    /// round's view of its predecessor through the bridge, and poll the best
    /// round. When the best round has cast all its votes and flushed them,
    /// the voter notes the completed round, rotates it into the background,
    /// starts its successor over the bridge, and re-enters the procedure at
    /// once so the new round makes progress in the same quantum. Finalized
    /// blocks are announced in strictly increasing height order; a round
    /// once retired never stands in the way of the next announcement.
    #[verifier::loop_isolation(false)]
    pub fn poll<E: Environment>(&mut self, env: &mut E) -> (r: Result<Readiness, Error>)
        requires
            old(self).inv(old(env).model()),
        ensures
            final(self).inv(final(env).model()),
            voter_poll_frame(old(env).model(), final(env).model()),
            // the voter is a future that never resolves
            r matches Ok(out) ==> out == Readiness::NotReady,
            final(self).last_finalized.1 >= old(self).last_finalized.1,
            final(self).best_round.round_number >= old(self).best_round.round_number,
            // monotone finalization: every new announcement tops the record
            forall|i: int|
                old(env).model().finalized.len() <= i < final(env).model().finalized.len()
                    ==> final(env).model().finalized[i].1 > old(self).last_finalized.1,
            // the notices pending at entry were processed: each qualifying
            // one was announced, and the record reflects them
            announced_log(
                old(env).model().finalized,
                old(self).last_finalized,
                old(self).pending@,
            ).is_prefix_of(final(env).model().finalized),
            final(self).last_finalized.1 >= announced_record(
                old(self).last_finalized,
                old(self).pending@,
            ).1,
            // background retirement: no remaining background round waits on
            // an already finalized estimate
            r is Ok ==> (forall|i: int|
                0 <= i < final(self).past_rounds@.len()
                    ==> !(#[trigger] final(self).past_rounds@[i]).done_spec(final(env).model())),
            // no stall: on return the best round has not both cast all its
            // votes and been reported ready, unless round numbers ran out
            r is Ok ==> ({
                let b = final(self).best_round;
                let m = final(env).model();
                !(b.state is Precommitted && m.tallies[b.round_number].completable
                    && b.outgoing.buffer@.len() == 0 && m.outcomes[b.round_number].len() > 0
                    && m.outcomes[b.round_number].last() == Outcome::Flush(FlushOutcome::Flushed)
                    && b.round_number < u64::MAX)
            }),
            // one completion per rotation: the completed rounds are numbered
            // consecutively from the old best round, each with a completable
            // final state
            ({
                let a = old(env).model().completed_rounds;
                let b = final(env).model().completed_rounds;
                let base = old(self).best_round.round_number;
                &&& b.len() == a.len() + final(self).best_round.round_number - base
                &&& forall|k: int|
                    a.len() <= k < b.len() ==> ((#[trigger] b[k]).0 == base + (k - a.len())
                        && b[k].1.completable)
            }),
    {
        let ghost morig = old(env).model();
        let ghost rn0 = old(self).best_round.round_number;
        let ghost lf0 = old(self).last_finalized;
        let ghost p0 = old(self).pending@;
        let ghost mut announced = false;
        proof {
            lemma_eq_forwarding_refl(morig);
            lemma_prefix_refl(morig.finalized);
            lemma_prefix_refl(morig.completed_rounds);
        }
        loop
            invariant
                self.inv(env.model()),
                voter_poll_frame(morig, env.model()),
                self.last_finalized.1 >= lf0.1,
                self.best_round.round_number >= rn0,
                forall|i: int|
                    morig.finalized.len() <= i < env.model().finalized.len()
                        ==> env.model().finalized[i].1 > lf0.1,
                announced ==> announced_log(morig.finalized, lf0, p0).is_prefix_of(
                    env.model().finalized,
                ) && self.last_finalized.1 >= announced_record(lf0, p0).1,
                !announced ==> env.model().finalized == morig.finalized && self.last_finalized
                    == lf0 && self.pending@ == p0,
                env.model().completed_rounds.len() == morig.completed_rounds.len()
                    + self.best_round.round_number - rn0,
                forall|k: int|
                    morig.completed_rounds.len() <= k < env.model().completed_rounds.len() ==> {
                        &&& (#[trigger] env.model().completed_rounds[k]).0 == rn0 + (k
                            - morig.completed_rounds.len())
                        &&& env.model().completed_rounds[k].1.completable
                    },
            decreases u64::MAX - self.best_round.round_number,
        {
            let ghost miter = env.model();
            let ghost lf_iter = self.last_finalized;
            let ghost p_iter = self.pending@;
            let prune_result = self.prune_background(env);
            proof {
                lemma_poll_iteration(morig, miter, env.model());
                assert(env.model().finalized == announced_log(miter.finalized, lf_iter, p_iter));
                assert(self.last_finalized == announced_record(lf_iter, p_iter));
                if !announced {
                    announced = true;
                    lemma_prefix_refl(announced_log(morig.finalized, lf0, p0));
                    lemma_announced_extends(morig.finalized, lf0, p0);
                } else {
                    lemma_announced_extends(miter.finalized, lf_iter, p_iter);
                    lemma_prefix_trans(
                        announced_log(morig.finalized, lf0, p0),
                        miter.finalized,
                        env.model().finalized,
                    );
                }
                assert forall|i: int|
                    morig.finalized.len() <= i < env.model().finalized.len() implies env.model().finalized[i].1
                    > lf0.1 by {
                    if i < miter.finalized.len() {
                        lemma_prefix_index(miter.finalized, env.model().finalized, i);
                    }
                };
            }
            match prune_result {
                Ok(()) => {},
                Err(er) => {
                    return Err(er);
                },
            }
            let ghost m1 = env.model();
            let ghost pruned = *self;
            // refresh the best round's view of its predecessor: the bridge
            // hands the successor the predecessor's freshest published state
            let mut i: usize = 0;
            while i < self.past_rounds.len()
                invariant
                    i <= self.past_rounds@.len(),
                    *self == (Voter { best_round: self.best_round, ..pruned }),
                    self.best_round == (VotingRound {
                        last_round_state: self.best_round.last_round_state,
                        ..pruned.best_round
                    }),
                    prior_ok(self.best_round.last_round_state),
                decreases self.past_rounds@.len() - i,
            {
                let pred_number = self.past_rounds[i].inner.round_number;
                proof {
                    assert(pred_number < self.best_round.round_number);
                }
                if pred_number + 1 == self.best_round.round_number {
                    match self.past_rounds[i].inner.bridged_state {
                        Some(s) => {
                            self.best_round.last_round_state = s;
                        },
                        None => {},
                    }
                }
                i += 1;
            }
            // advance the best round
            let outcome = match self.best_round.poll(env) {
                Ok(o) => o,
                Err(er) => {
                    proof {
                        lemma_voter_best_frames(morig, m1, env.model(), *self);
                    }
                    return Err(er);
                },
            };
            proof {
                lemma_voter_best_frames(morig, m1, env.model(), *self);
            }
            if let Some(n) = outcome.finalized {
                self.pending.push(n);
            }
            let precommitted = matches!(self.best_round.state, State::Precommitted);
            if !(outcome.ready && precommitted) {
                return Ok(Readiness::NotReady);
            }
            // round numbers never reach the top of u64 in practice; stop
            // advancing rather than wrap
            if self.best_round.round_number == u64::MAX {
                return Ok(Readiness::NotReady);
            }
            // rotate: note the completed round, start its successor seeded
            // over the bridge, keep the old round in the background, and
            // re-enter the poll
            let old_number = self.best_round.round_number;
            let final_state = env.round_state(old_number);
            let ghost mrot = env.model();
            env.completed(old_number, final_state);
            let next_number = old_number + 1;
            let _round_data = env.round_data(next_number);
            let handoff = self.best_round.bridge_state(env);
            let mut next_round = VotingRound::new(next_number, self.last_finalized, handoff);
            core::mem::swap(&mut self.best_round, &mut next_round);
            let background = BackgroundRound {
                inner: next_round,
                finalized_number: self.last_finalized.1,
            };
            self.past_rounds.push(background);
            proof {
                lemma_prefix_push(
                    morig.completed_rounds,
                    mrot.completed_rounds,
                    (old_number, final_state),
                );
            }
        }
    }
}

/// One prune only extends the finalization log, so the voter-level frame
/// composes across an iteration.
proof fn lemma_poll_iteration(morig: EnvView, a: EnvView, b: EnvView)
    requires
        voter_poll_frame(morig, a),
        voter_poll_frame(a, b),
    ensures
        voter_poll_frame(morig, b),
{
    lemma_prefix_trans(morig.finalized, a.finalized, b.finalized);
    lemma_prefix_trans(morig.completed_rounds, a.completed_rounds, b.completed_rounds);
    lemma_eq_forwarding_trans(morig, a, b);
}

/// After the best round's poll, the background rounds' invariants and
/// retirement status carry over, and the voter-level frames compose.
proof fn lemma_voter_best_frames(m0: EnvView, a: EnvView, b: EnvView, v: Voter)
    requires
        eq_forwarding(m0, a),
        round_poll_frame(a, b, v.best_round.round_number),
        forall|i: int| 0 <= i < v.past_rounds@.len() ==> (#[trigger] v.past_rounds@[i]).inner.inv(a),
        forall|i: int|
            0 <= i < v.past_rounds@.len() ==> (#[trigger] v.past_rounds@[i]).inner.round_number
                < v.best_round.round_number,
        forall|i: int|
            0 <= i < v.past_rounds@.len() ==> !(#[trigger] v.past_rounds@[i]).done_spec(a),
        a.forwarded_prevote_eqs == a.reported_prevote_eqs,
        a.forwarded_precommit_eqs == a.reported_precommit_eqs,
    ensures
        forall|i: int| 0 <= i < v.past_rounds@.len() ==> (#[trigger] v.past_rounds@[i]).inner.inv(b),
        forall|i: int|
            0 <= i < v.past_rounds@.len() ==> !(#[trigger] v.past_rounds@[i]).done_spec(b),
        b.forwarded_prevote_eqs == b.reported_prevote_eqs,
        b.forwarded_precommit_eqs == b.reported_precommit_eqs,
        eq_forwarding(m0, b),
{
    lemma_eq_forwarding_trans(m0, a, b);
    let r = v.best_round.round_number;
    assert forall|i: int|
        0 <= i < v.past_rounds@.len() implies (#[trigger] v.past_rounds@[i]).inner.inv(b) by {
        lemma_inv_other_round(v.past_rounds@[i].inner, a, b, r);
    }
    lemma_prefix_skip_append(a.reported_prevote_eqs, b.reported_prevote_eqs);
    lemma_prefix_skip_append(a.reported_precommit_eqs, b.reported_precommit_eqs);
}

/// After one background round's poll, every other round's invariant and
/// retirement status carries over, and the voter-level frame conditions
/// compose.
proof fn lemma_prune_frames(
    m0: EnvView,
    m1: EnvView,
    a: EnvView,
    b: EnvView,
    v: Voter,
    kept: Seq<BackgroundRound>,
    bg: BackgroundRound,
)
    requires
        round_poll_frame(a, b, bg.inner.round_number),
        v.best_round.inv(a),
        bg.inner.round_number < v.best_round.round_number,
        forall|i: int| 0 <= i < v.past_rounds@.len() ==> (#[trigger] v.past_rounds@[i]).inner.inv(a),
        forall|i: int|
            0 <= i < v.past_rounds@.len() ==> (#[trigger] v.past_rounds@[i]).inner.round_number
                != bg.inner.round_number,
        forall|i: int| 0 <= i < kept.len() ==> (#[trigger] kept[i]).inner.inv(a),
        forall|i: int|
            0 <= i < kept.len() ==> (#[trigger] kept[i]).inner.round_number
                != bg.inner.round_number,
        forall|i: int| 0 <= i < kept.len() ==> !(#[trigger] kept[i]).done_spec(a),
        eq_forwarding(m1, a),
        a.forwarded_prevote_eqs == a.reported_prevote_eqs,
        a.forwarded_precommit_eqs == a.reported_precommit_eqs,
    ensures
        v.best_round.inv(b),
        forall|i: int| 0 <= i < v.past_rounds@.len() ==> (#[trigger] v.past_rounds@[i]).inner.inv(b),
        forall|i: int| 0 <= i < kept.len() ==> (#[trigger] kept[i]).inner.inv(b),
        forall|i: int| 0 <= i < kept.len() ==> !(#[trigger] kept[i]).done_spec(b),
        eq_forwarding(m1, b),
        b.forwarded_prevote_eqs == b.reported_prevote_eqs,
        b.forwarded_precommit_eqs == b.reported_precommit_eqs,
{
    let r = bg.inner.round_number;
    lemma_inv_other_round(v.best_round, a, b, r);
    assert forall|i: int|
        0 <= i < v.past_rounds@.len() implies (#[trigger] v.past_rounds@[i]).inner.inv(b) by {
        lemma_inv_other_round(v.past_rounds@[i].inner, a, b, r);
    }
    assert forall|i: int| 0 <= i < kept.len() implies (#[trigger] kept[i]).inner.inv(b) by {
        lemma_inv_other_round(kept[i].inner, a, b, r);
    }
    lemma_eq_forwarding_trans(m1, a, b);
    lemma_prefix_skip_append(a.reported_prevote_eqs, b.reported_prevote_eqs);
    lemma_prefix_skip_append(a.reported_precommit_eqs, b.reported_precommit_eqs);
}

} // verus!
