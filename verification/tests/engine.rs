//! A deterministic simulation of the voter's surroundings: a linear block
//! tree, a vote tally per round, loopback message routing and immediate
//! timers. The engine under test is driven by polling, exactly as an
//! executor would.

use std::collections::HashMap;

use finality_voter::Environment;
use finality_voter::Equivocation;
use finality_voter::Error;
use finality_voter::FlushOutcome;
use finality_voter::Message;
use finality_voter::Precommit;
use finality_voter::Prevote;
use finality_voter::RoundData;
use finality_voter::RoundState;
use finality_voter::SendOutcome;
use finality_voter::SignedMessage;
use finality_voter::State;
use finality_voter::StreamOutcome;
use finality_voter::TimerOutcome;
use finality_voter::Voter;
use finality_voter::voting_round::prevote_anchor;

const GENESIS_HASH: u64 = 1;

#[derive(Default)]
struct SimRound {
    incoming: Vec<SignedMessage>,
    sent: Vec<Message>,
    routed: usize,
    prevotes: Vec<(u64, Prevote, u64)>,
    precommits: Vec<(u64, Precommit, u64)>,
    prevote_equivocators: Vec<u64>,
    precommit_equivocators: Vec<u64>,
}

struct SimEnv {
    local_id: u64,
    voters: Vec<(u64, u64)>,
    /// (hash, parent, height), a linear chain rooted at the genesis block.
    chain: Vec<(u64, u64, u32)>,
    rounds: HashMap<u64, SimRound>,
    finalized: Vec<(u64, u32)>,
    completed: Vec<(u64, RoundState)>,
    prevote_eqs: Vec<(u64, Equivocation<Prevote>)>,
    precommit_eqs: Vec<(u64, Equivocation<Precommit>)>,
    refuse_sends: bool,
    fail_sends: bool,
}

impl SimEnv {
    fn new(local_id: u64, voters: Vec<(u64, u64)>) -> SimEnv {
        SimEnv {
            local_id,
            voters,
            chain: vec![(GENESIS_HASH, 0, 1)],
            rounds: HashMap::new(),
            finalized: Vec::new(),
            completed: Vec::new(),
            prevote_eqs: Vec::new(),
            precommit_eqs: Vec::new(),
            refuse_sends: false,
            fail_sends: false,
        }
    }

    /// Extend the chain with blocks of the given hashes, one height each.
    fn push_blocks(&mut self, hashes: &[u64]) {
        for &h in hashes {
            let (tip, _, tip_height) = *self.chain.last().unwrap();
            self.chain.push((h, tip, tip_height + 1));
        }
    }

    fn height_of(&self, hash: u64) -> Option<u32> {
        self.chain.iter().find(|b| b.0 == hash).map(|b| b.2)
    }

    fn hash_at(&self, height: u32) -> Option<u64> {
        self.chain.iter().find(|b| b.2 == height).map(|b| b.0)
    }

    fn total_weight(&self) -> u64 {
        self.voters.iter().map(|v| v.1).sum()
    }

    fn threshold(&self) -> u64 {
        let total = self.total_weight();
        total - (total - 1) / 3
    }

    fn weight_of(&self, id: u64) -> u64 {
        self.voters.iter().find(|v| v.0 == id).map(|v| v.1).unwrap_or(0)
    }

    /// Compute the published tally state of a round on the linear chain,
    /// where one block descends from another exactly when it is higher.
    fn compute_state(&self, round: u64) -> RoundState {
        let r = match self.rounds.get(&round) {
            Some(r) => r,
            None => return RoundState::fresh(),
        };
        let threshold = self.threshold();
        let total = self.total_weight();

        let prevote_support = |height: u32| -> u64 {
            r.prevotes
                .iter()
                .filter(|(_, v, _)| v.target_number >= height)
                .map(|(id, _, _)| self.weight_of(*id))
                .sum()
        };
        let precommit_support = |height: u32| -> u64 {
            r.precommits
                .iter()
                .filter(|(_, v, _)| v.target_number >= height)
                .map(|(id, _, _)| self.weight_of(*id))
                .sum()
        };
        let precommit_cast: u64 = r.precommits.iter().map(|(id, _, _)| self.weight_of(*id)).sum();
        let remaining = total - precommit_cast;

        let mut prevote_ghost = None;
        for b in self.chain.iter().rev() {
            if prevote_support(b.2) >= threshold {
                prevote_ghost = Some((b.0, b.2));
                break;
            }
        }
        let (ghost_hash, ghost_height) = match prevote_ghost {
            Some(g) => g,
            None => {
                return RoundState {
                    prevote_ghost: None,
                    estimate: None,
                    finalized: None,
                    completable: false,
                }
            }
        };
        let mut estimate = None;
        let mut finalized = None;
        for b in self.chain.iter().rev() {
            if b.2 > ghost_height {
                continue;
            }
            if estimate.is_none() && precommit_support(b.2) + remaining >= threshold {
                estimate = Some((b.0, b.2));
            }
            if finalized.is_none() && precommit_support(b.2) >= threshold {
                finalized = Some((b.0, b.2));
            }
            if estimate.is_some() && finalized.is_some() {
                break;
            }
        }
        let completable = match estimate {
            None => false,
            Some((_, est_height)) => {
                est_height < ghost_height
                    || precommit_support(ghost_height + 1) + remaining < threshold
            }
        };
        let _ = ghost_hash;
        RoundState { prevote_ghost, estimate, finalized, completable }
    }

    fn round_mut(&mut self, round: u64) -> &mut SimRound {
        self.rounds.entry(round).or_default()
    }

    /// Deliver a signed message into a round's incoming queue.
    fn deliver(&mut self, round: u64, msg: SignedMessage) {
        self.round_mut(round).incoming.push(msg);
    }

    fn finalized_height(&self) -> u32 {
        self.finalized.last().map(|f| f.1).unwrap_or(0)
    }
}

impl Environment for SimEnv {
    // the model is ghost state: it exists for the contracts and is never
    // evaluated at run time
    fn model(&self) -> finality_voter::EnvView {
        unreachable!()
    }

    fn ancestry(&self, base: u64, head: u64) -> Result<Vec<u64>, Error> {
        let base_height = match self.height_of(base) {
            Some(h) => h,
            None => return Err(Error::NotDescendant),
        };
        let head_height = match self.height_of(head) {
            Some(h) => h,
            None => return Err(Error::NotDescendant),
        };
        if head_height <= base_height {
            return Err(Error::NotDescendant);
        }
        // the path from the parent of `head` down to, excluding, `base`
        let mut path = Vec::new();
        let mut h = head_height - 1;
        while h > base_height {
            path.push(self.hash_at(h).unwrap());
            h -= 1;
        }
        Ok(path)
    }

    fn best_chain_containing(&self, block: u64) -> Option<(u64, u32)> {
        self.height_of(block)?;
        self.chain.last().map(|b| (b.0, b.2))
    }

    fn round_data(&mut self, round: u64) -> RoundData {
        self.round_mut(round);
        RoundData { voters: self.voters.clone() }
    }

    fn round_state(&self, round: u64) -> RoundState {
        self.compute_state(round)
    }

    fn import_prevote(
        &mut self,
        round: u64,
        vote: Prevote,
        id: u64,
        signature: u64,
    ) -> Result<Option<Equivocation<Prevote>>, Error> {
        let r = self.round_mut(round);
        if let Some((_, first, first_sig)) = r.prevotes.iter().find(|(i, _, _)| *i == id) {
            if *first == vote || r.prevote_equivocators.contains(&id) {
                return Ok(None);
            }
            let eq = Equivocation {
                round_number: round,
                identity: id,
                first_vote: *first,
                first_signature: *first_sig,
                second_vote: vote,
                second_signature: signature,
            };
            r.prevote_equivocators.push(id);
            return Ok(Some(eq));
        }
        r.prevotes.push((id, vote, signature));
        Ok(None)
    }

    fn import_precommit(
        &mut self,
        round: u64,
        vote: Precommit,
        id: u64,
        signature: u64,
    ) -> Result<Option<Equivocation<Precommit>>, Error> {
        let r = self.round_mut(round);
        if let Some((_, first, first_sig)) = r.precommits.iter().find(|(i, _, _)| *i == id) {
            if *first == vote || r.precommit_equivocators.contains(&id) {
                return Ok(None);
            }
            let eq = Equivocation {
                round_number: round,
                identity: id,
                first_vote: *first,
                first_signature: *first_sig,
                second_vote: vote,
                second_signature: signature,
            };
            r.precommit_equivocators.push(id);
            return Ok(Some(eq));
        }
        r.precommits.push((id, vote, signature));
        Ok(None)
    }

    fn poll_incoming(&mut self, round: u64) -> StreamOutcome {
        let r = self.round_mut(round);
        if r.incoming.is_empty() {
            StreamOutcome::Pending
        } else {
            StreamOutcome::Ready(r.incoming.remove(0))
        }
    }

    fn poll_prevote_timer(&mut self, _round: u64) -> TimerOutcome {
        TimerOutcome::Elapsed
    }

    fn poll_precommit_timer(&mut self, _round: u64) -> TimerOutcome {
        TimerOutcome::Elapsed
    }

    fn start_send(&mut self, round: u64, item: Message) -> SendOutcome {
        if self.fail_sends {
            return SendOutcome::Failed;
        }
        if self.refuse_sends {
            return SendOutcome::Full;
        }
        self.round_mut(round).sent.push(item);
        SendOutcome::Accepted
    }

    fn poll_complete(&mut self, _round: u64) -> FlushOutcome {
        if self.refuse_sends {
            FlushOutcome::Busy
        } else {
            FlushOutcome::Flushed
        }
    }

    fn completed(&mut self, round: u64, state: RoundState) {
        self.completed.push((round, state));
    }

    fn finalize_block(&mut self, hash: u64, number: u32) {
        self.finalized.push((hash, number));
    }

    fn prevote_equivocation(&mut self, round: u64, equivocation: Equivocation<Prevote>) {
        self.prevote_eqs.push((round, equivocation));
    }

    fn precommit_equivocation(&mut self, round: u64, equivocation: Equivocation<Precommit>) {
        self.precommit_eqs.push((round, equivocation));
    }
}

/// Sign every not yet routed outgoing message of every environment and
/// deliver it to every environment's incoming queue for the same round.
fn route(envs: &mut [SimEnv]) {
    let mut deliveries: Vec<(u64, SignedMessage)> = Vec::new();
    for env in envs.iter_mut() {
        let id = env.local_id;
        for (round, r) in env.rounds.iter_mut() {
            while r.routed < r.sent.len() {
                let message = r.sent[r.routed];
                r.routed += 1;
                deliveries.push((*round, SignedMessage { message, signature: 1000 + id, id }));
            }
        }
    }
    for (round, msg) in deliveries {
        for env in envs.iter_mut() {
            env.deliver(round, msg);
        }
    }
}

fn poll_once(voter: &mut Voter, env: &mut SimEnv) {
    if voter.poll(env).is_err() {
        panic!("Error voting");
    }
}

fn genesis_chain(env: &mut SimEnv) {
    // blocks A..E on top of the genesis block, heights 2..6
    env.push_blocks(&[2, 3, 4, 5, 6]);
}

#[test]
fn talking_to_myself() {
    let local_id = 5;
    let voters = vec![(local_id, 100)];
    let mut env = SimEnv::new(local_id, voters);
    genesis_chain(&mut env);
    let last_round_state = RoundState::genesis((GENESIS_HASH, 1));
    let mut voter = Voter::new(&mut env, 0, last_round_state, (GENESIS_HASH, 1));
    let mut envs = [env];
    for _ in 0..50 {
        if envs[0].finalized_height() >= 6 {
            break;
        }
        poll_once(&mut voter, &mut envs[0]);
        route(&mut envs);
    }
    assert!(envs[0].finalized.contains(&(6, 6)));
}

#[test]
fn finalizing_at_fault_threshold() {
    // 10 voters, 3 of them offline
    let weights: Vec<(u64, u64)> = (0..10).map(|i| (i, 1)).collect();
    let mut envs: Vec<SimEnv> = (0..7)
        .map(|i| {
            let mut env = SimEnv::new(i, weights.clone());
            genesis_chain(&mut env);
            env
        })
        .collect();
    let mut voters: Vec<Voter> = envs
        .iter_mut()
        .map(|env| Voter::new(env, 0, RoundState::genesis((GENESIS_HASH, 1)), (GENESIS_HASH, 1)))
        .collect();
    for _ in 0..100 {
        if envs.iter().all(|e| e.finalized_height() >= 6) {
            break;
        }
        for (voter, env) in voters.iter_mut().zip(envs.iter_mut()) {
            poll_once(voter, env);
        }
        route(&mut envs);
    }
    for env in &envs {
        assert!(env.finalized.contains(&(6, 6)));
    }
}

#[test]
fn finalization_heights_strictly_increase() {
    let mut env = SimEnv::new(5, vec![(5, 100)]);
    genesis_chain(&mut env);
    let mut voter = Voter::new(&mut env, 0, RoundState::genesis((GENESIS_HASH, 1)), (GENESIS_HASH, 1));
    let mut envs = [env];
    for _ in 0..30 {
        poll_once(&mut voter, &mut envs[0]);
        route(&mut envs);
    }
    let log = &envs[0].finalized;
    assert!(!log.is_empty());
    for w in log.windows(2) {
        assert!(w[0].1 < w[1].1);
    }
}

#[test]
fn equivocation_forwarded_exactly_once() {
    let mut env = SimEnv::new(5, vec![(5, 100), (7, 10)]);
    genesis_chain(&mut env);
    let mut voter = Voter::new(&mut env, 0, RoundState::genesis((GENESIS_HASH, 1)), (GENESIS_HASH, 1));
    // two conflicting prevotes by the same signer, then a re-delivery
    let first = Prevote { target_hash: 6, target_number: 6 };
    let second = Prevote { target_hash: 5, target_number: 5 };
    env.deliver(1, SignedMessage { message: Message::Prevote(first), signature: 1, id: 7 });
    env.deliver(1, SignedMessage { message: Message::Prevote(second), signature: 2, id: 7 });
    env.deliver(1, SignedMessage { message: Message::Prevote(second), signature: 2, id: 7 });
    let mut envs = [env];
    for _ in 0..10 {
        poll_once(&mut voter, &mut envs[0]);
        route(&mut envs);
    }
    assert_eq!(envs[0].prevote_eqs.len(), 1);
    let (round, eq) = &envs[0].prevote_eqs[0];
    assert_eq!(*round, 1);
    assert_eq!(eq.identity, 7);
    assert_eq!(eq.first_vote, first);
    assert_eq!(eq.second_vote, second);
    // the round still progresses on the first vote's weight
    assert!(envs[0].finalized.contains(&(6, 6)));
}

#[test]
fn redelivered_vote_changes_nothing() {
    let mut env = SimEnv::new(5, vec![(5, 100)]);
    genesis_chain(&mut env);
    let mut voter = Voter::new(&mut env, 0, RoundState::genesis((GENESIS_HASH, 1)), (GENESIS_HASH, 1));
    let vote = Prevote { target_hash: 6, target_number: 6 };
    let signed = SignedMessage { message: Message::Prevote(vote), signature: 9, id: 5 };
    env.deliver(1, signed);
    let mut envs = [env];
    poll_once(&mut voter, &mut envs[0]);
    let state_once = envs[0].compute_state(1);
    let sent_once = envs[0].rounds.get(&1).unwrap().sent.clone();
    // deliver the same signed vote again
    envs[0].deliver(1, signed);
    poll_once(&mut voter, &mut envs[0]);
    assert_eq!(envs[0].compute_state(1), state_once);
    assert_eq!(envs[0].rounds.get(&1).unwrap().sent, sent_once);
    assert!(envs[0].prevote_eqs.is_empty());
}

#[test]
fn idle_poll_is_a_no_op() {
    let mut env = SimEnv::new(5, vec![(5, 100)]);
    genesis_chain(&mut env);
    let mut voter = Voter::new(&mut env, 0, RoundState::genesis((GENESIS_HASH, 1)), (GENESIS_HASH, 1));
    let mut envs = [env];
    for _ in 0..30 {
        poll_once(&mut voter, &mut envs[0]);
        route(&mut envs);
    }
    // let the voter work off its own backlog of finalization notices
    for _ in 0..3 {
        poll_once(&mut voter, &mut envs[0]);
    }
    // settled: no new inputs arrive, so polling changes nothing observable
    let finalized = envs[0].finalized.clone();
    let completed = envs[0].completed.len();
    let best = voter.best_round.round_number;
    for _ in 0..5 {
        poll_once(&mut voter, &mut envs[0]);
    }
    assert_eq!(envs[0].finalized, finalized);
    assert_eq!(envs[0].completed.len(), completed);
    assert_eq!(voter.best_round.round_number, best);
}

#[test]
fn rotation_completes_round_and_backgrounds_it() {
    let mut env = SimEnv::new(5, vec![(5, 100)]);
    genesis_chain(&mut env);
    let mut voter = Voter::new(&mut env, 0, RoundState::genesis((GENESIS_HASH, 1)), (GENESIS_HASH, 1));
    assert_eq!(voter.best_round.round_number, 1);
    assert!(matches!(voter.best_round.state, State::Start));
    let mut envs = [env];
    for _ in 0..10 {
        poll_once(&mut voter, &mut envs[0]);
        route(&mut envs);
        if voter.best_round.round_number > 1 {
            break;
        }
    }
    assert!(voter.best_round.round_number >= 2);
    assert!(envs[0].completed.iter().any(|(n, s)| *n == 1 && s.completable));
    // the successor reads its predecessor's live state over the bridge
    assert!(voter.best_round.last_round_state.completable);
    assert!(voter.best_round.last_round_state.estimate.is_some());
}

#[test]
fn background_round_is_retired_after_finalization() {
    let mut env = SimEnv::new(5, vec![(5, 100)]);
    genesis_chain(&mut env);
    let mut voter = Voter::new(&mut env, 0, RoundState::genesis((GENESIS_HASH, 1)), (GENESIS_HASH, 1));
    let mut envs = [env];
    for _ in 0..30 {
        poll_once(&mut voter, &mut envs[0]);
        route(&mut envs);
    }
    assert!(envs[0].finalized.contains(&(6, 6)));
    // rounds begun after the finalization build on the finalized block
    assert_eq!(voter.best_round.base, (6, 6));
    // every background round whose estimate was finalized has been dropped
    for bg in &voter.past_rounds {
        let est = envs[0].compute_state(bg.inner.round_number).estimate;
        if let Some((_, n)) = est {
            assert!(n > bg.finalized_number || bg.inner.round_number == voter.best_round.round_number - 1);
        }
    }
}

#[test]
fn backpressured_sink_holds_the_round_back() {
    let mut env = SimEnv::new(5, vec![(5, 100)]);
    genesis_chain(&mut env);
    env.refuse_sends = true;
    let mut voter = Voter::new(&mut env, 0, RoundState::genesis((GENESIS_HASH, 1)), (GENESIS_HASH, 1));
    let mut envs = [env];
    for _ in 0..5 {
        poll_once(&mut voter, &mut envs[0]);
        route(&mut envs);
    }
    // the vote was accepted into the queue, but nothing reached the sink and
    // the round did not advance past its prevote
    assert!(envs[0].rounds.get(&1).map(|r| r.sent.is_empty()).unwrap_or(true));
    assert_eq!(voter.best_round.round_number, 1);
    assert!(matches!(voter.best_round.state, State::Prevoted));
    // once the sink drains, the buffered messages arrive in order
    envs[0].refuse_sends = false;
    for _ in 0..10 {
        poll_once(&mut voter, &mut envs[0]);
        route(&mut envs);
    }
    let sent = &envs[0].rounds.get(&1).unwrap().sent;
    assert!(matches!(sent[0], Message::Prevote(_)));
    assert!(envs[0].finalized.contains(&(6, 6)));
}

#[test]
fn first_message_is_the_prevote_then_the_precommit() {
    let mut env = SimEnv::new(5, vec![(5, 100)]);
    genesis_chain(&mut env);
    let mut voter = Voter::new(&mut env, 0, RoundState::genesis((GENESIS_HASH, 1)), (GENESIS_HASH, 1));
    let mut envs = [env];
    for _ in 0..30 {
        poll_once(&mut voter, &mut envs[0]);
        route(&mut envs);
    }
    let sent = &envs[0].rounds.get(&1).unwrap().sent;
    assert_eq!(sent.len(), 2);
    assert!(matches!(sent[0], Message::Prevote(_)));
    assert!(matches!(sent[1], Message::Precommit(_)));
    // the prevote targets the tip of the best chain through the previous
    // round's estimate
    if let Message::Prevote(pv) = sent[0] {
        assert_eq!((pv.target_hash, pv.target_number), (6, 6));
    }
    // the precommit targets the round's prevote ghost
    if let Message::Precommit(pc) = sent[1] {
        assert_eq!((pc.target_hash, pc.target_number), (6, 6));
    }
}

#[test]
fn prevote_anchor_follows_the_primary_rule() {
    let mut env = SimEnv::new(5, vec![(5, 100)]);
    genesis_chain(&mut env);
    let last = RoundState {
        prevote_ghost: Some((6, 6)),
        estimate: Some((2, 2)),
        finalized: Some((2, 2)),
        completable: true,
    };
    // no hint: the previous estimate
    assert_eq!(prevote_anchor(&env, &last, None), 2);
    // the hint equals the previous prevote ghost
    assert_eq!(prevote_anchor(&env, &last, Some((6, 6))), 6);
    // the hint is not shallower than the ghost: the estimate
    assert_eq!(prevote_anchor(&env, &last, Some((9, 7))), 2);
    // the hint lies on the ghost's chain at its own height
    assert_eq!(prevote_anchor(&env, &last, Some((4, 4))), 4);
    // a hint off the chain falls back to the estimate
    assert_eq!(prevote_anchor(&env, &last, Some((99, 4))), 2);
    // an unanswerable ancestry query falls back to the estimate
    let unrelated = RoundState {
        prevote_ghost: Some((6, 6)),
        estimate: Some((77, 2)),
        finalized: None,
        completable: true,
    };
    assert_eq!(prevote_anchor(&env, &unrelated, Some((4, 4))), 77);
}

#[test]
fn failing_sink_is_fatal() {
    let mut env = SimEnv::new(5, vec![(5, 100)]);
    genesis_chain(&mut env);
    env.fail_sends = true;
    let mut voter = Voter::new(&mut env, 0, RoundState::genesis((GENESIS_HASH, 1)), (GENESIS_HASH, 1));
    assert_eq!(voter.poll(&mut env), Err(Error::Environment));
}

#[test]
fn fresh_and_genesis_states() {
    let fresh = RoundState::fresh();
    assert_eq!(fresh.prevote_ghost, None);
    assert_eq!(fresh.estimate, None);
    assert_eq!(fresh.finalized, None);
    assert!(!fresh.completable);
    let genesis = RoundState::genesis((GENESIS_HASH, 1));
    assert_eq!(genesis.prevote_ghost, Some((GENESIS_HASH, 1)));
    assert_eq!(genesis.estimate, Some((GENESIS_HASH, 1)));
    assert_eq!(genesis.finalized, Some((GENESIS_HASH, 1)));
    assert!(genesis.completable);
}
