//! The buffered outgoing sink of a round.
//!
//! Messages are accepted synchronously into an internal queue while the
//! environment's sink may refuse them, and are handed over strictly first in,
//! first out. The key conservation fact, stated on both polling functions:
//! what the sink has accepted followed by what is still queued is exactly the
//! old such sequence followed by what was pushed since.

use vstd::prelude::*;

use crate::environment::agree_except;
use crate::environment::EnvView;
use crate::environment::Environment;
use crate::environment::Error;
use crate::environment::FlushOutcome;
use crate::environment::Outcome;
use crate::environment::Readiness;
use crate::environment::SendOutcome;
use crate::messages::Message;
use crate::seq_facts::lemma_prefix_push;

verus! {

/// What driving round `r`'s sink leaves untouched: everything in the model
/// but `sent[r]`, which may only grow at its end.
pub open spec fn sink_frame(a: EnvView, b: EnvView, r: u64) -> bool {
    &&& b == (EnvView { sent: b.sent, outcomes: b.outcomes, ..a })
    &&& agree_except(a.sent, b.sent, r)
    &&& a.sent[r].is_prefix_of(b.sent[r])
    &&& agree_except(a.outcomes, b.outcomes, r)
    &&& a.outcomes[r].is_prefix_of(b.outcomes[r])
}

/// A sink wrapper that owns an ordered queue of messages not yet accepted by
/// the environment's sink for its round.
pub struct Buffered {
    /// The round whose sink this queue feeds.
    pub round: u64,
    /// The queued messages, oldest first.
    pub buffer: Vec<Message>,
}

impl Buffered {
    /// An empty queue for the given round's sink.
    pub fn new(round: u64) -> (b: Buffered)
        ensures
            b.round == round,
            b.buffer@ == Seq::<Message>::empty(),
    {
        Buffered { round, buffer: Vec::new() }
    }

    /// Append a message to the queue. Never fails and never blocks; the sink
    /// must afterwards be driven to completion with `poll`.
    pub fn push(&mut self, item: Message)
        ensures
            final(self).round == old(self).round,
            final(self).buffer@ == old(self).buffer@.push(item),
    {
        self.buffer.push(item);
    }

    /// Hand queued messages to the sink, in order, for as long as it accepts
    /// them. Ready exactly when the queue was drained.
    fn schedule_all<E: Environment>(&mut self, env: &mut E) -> (r: Result<Readiness, Error>)
        ensures
            final(self).round == old(self).round,
            sink_frame(old(env).model(), final(env).model(), old(self).round),
            final(env).model().sent[old(self).round] + final(self).buffer@ == old(
                env,
            ).model().sent[old(self).round] + old(self).buffer@,
            (match r {
                Ok(Readiness::Ready) => final(self).buffer@.len() == 0,
                Ok(Readiness::NotReady) => {
                    &&& final(self).buffer@.len() > 0
                    &&& final(env).model().outcomes[old(self).round].len() > 0
                    &&& final(env).model().outcomes[old(self).round].last() == Outcome::Send(
                        SendOutcome::Full,
                    )
                },
                Err(e) => {
                    &&& e == Error::Environment
                    &&& final(env).model().outcomes[old(self).round].len() > 0
                    &&& final(env).model().outcomes[old(self).round].last() == Outcome::Send(
                        SendOutcome::Failed,
                    )
                },
            }),
            old(self).buffer@.len() == 0 ==> final(env).model() == old(env).model()
                && final(self).buffer@ == old(self).buffer@,
    {
        let ghost base = old(env).model();
        let round = self.round;
        let mut stalled = false;
        proof {
            assert(base.sent[round] =~= base.sent[round].subrange(
                0,
                base.sent[round].len() as int,
            ));
            assert(base.outcomes[round] =~= base.outcomes[round].subrange(
                0,
                base.outcomes[round].len() as int,
            ));
        }
        while !stalled && self.buffer.len() > 0
            invariant
                base == old(env).model(),
                round == old(self).round,
                self.round == round,
                sink_frame(base, env.model(), round),
                env.model().sent[round] + self.buffer@ == base.sent[round] + old(self).buffer@,
                old(self).buffer@.len() == 0 ==> env.model() == base
                    && self.buffer@ == old(self).buffer@,
                stalled ==> env.model().outcomes[round].len() > 0
                    && env.model().outcomes[round].last() == Outcome::Send(SendOutcome::Full),
            decreases self.buffer.len() + (if stalled { 0int } else { 1 }),
        {
            let ghost before = env.model();
            let item = self.buffer[0];
            match env.start_send(round, item) {
                SendOutcome::Accepted => {
                    let ghost q = self.buffer@;
                    self.buffer.remove(0);
                    proof {
                        lemma_prefix_push(base.sent[round], before.sent[round], item);
                        lemma_prefix_push(
                            base.outcomes[round],
                            before.outcomes[round],
                            Outcome::Send(SendOutcome::Accepted),
                        );
                        assert(before.sent[round].push(q[0]) + q.drop_first() =~= before.sent[round]
                            + q);
                    }
                },
                SendOutcome::Full => {
                    proof {
                        lemma_prefix_push(
                            base.outcomes[round],
                            before.outcomes[round],
                            Outcome::Send(SendOutcome::Full),
                        );
                    }
                    stalled = true;
                },
                SendOutcome::Failed => {
                    proof {
                        lemma_prefix_push(
                            base.outcomes[round],
                            before.outcomes[round],
                            Outcome::Send(SendOutcome::Failed),
                        );
                    }
                    return Err(Error::Environment);
                },
            }
        }
        if self.buffer.len() == 0 {
            Ok(Readiness::Ready)
        } else {
            Ok(Readiness::NotReady)
        }
    }

    /// Drive the queue and the sink toward completion. Ready exactly when
    /// every message ever pushed has been handed to the sink and the sink
    /// reported itself flushed; sink errors are surfaced verbatim as a fatal
    /// environment error.
    pub fn poll<E: Environment>(&mut self, env: &mut E) -> (r: Result<Readiness, Error>)
        ensures
            final(self).round == old(self).round,
            sink_frame(old(env).model(), final(env).model(), old(self).round),
            final(env).model().sent[old(self).round] + final(self).buffer@ == old(
                env,
            ).model().sent[old(self).round] + old(self).buffer@,
            (match r {
                Ok(ready) => {
                    &&& final(env).model().outcomes[old(self).round].len() > 0
                    &&& (final(env).model().outcomes[old(self).round].last() matches Outcome::Flush(
                        o,
                    ) && o != FlushOutcome::Failed && ((ready == Readiness::Ready) <==> (
                    final(self).buffer@.len() == 0 && o == FlushOutcome::Flushed)))
                },
                Err(_) => {
                    &&& final(env).model().outcomes[old(self).round].len() > 0
                    &&& (final(env).model().outcomes[old(self).round].last() == Outcome::Send(
                        SendOutcome::Failed,
                    ) || final(env).model().outcomes[old(self).round].last() == Outcome::Flush(
                        FlushOutcome::Failed,
                    ))
                },
            }),
            old(self).buffer@.len() == 0 ==> final(env).model() == (EnvView {
                outcomes: final(env).model().outcomes,
                ..old(env).model()
            }) && final(self).buffer@ == old(self).buffer@,
    {
        let scheduled = self.schedule_all(env)?;
        match env.poll_complete(self.round) {
            FlushOutcome::Flushed => match scheduled {
                Readiness::Ready => Ok(Readiness::Ready),
                Readiness::NotReady => Ok(Readiness::NotReady),
            },
            FlushOutcome::Busy => Ok(Readiness::NotReady),
            FlushOutcome::Failed => Err(Error::Environment),
        }
    }
}

} // verus!
