//! The vote messages a round exchanges with its peers.
//!
//! Block hashes, voter identities and signatures are opaque to the engine: it
//! only ever compares them for equality, so they are carried as plain `u64`
//! values. Heights are `u32` and grow along chain descent.

use vstd::prelude::*;

verus! {

/// A prevote for a block and its height.
#[derive(Clone, Copy, PartialEq, Eq, Structural, Debug)]
pub struct Prevote {
    pub target_hash: u64,
    pub target_number: u32,
}

/// A precommit for a block and its height.
#[derive(Clone, Copy, PartialEq, Eq, Structural, Debug)]
pub struct Precommit {
    pub target_hash: u64,
    pub target_number: u32,
}

/// A message the engine pushes into the outgoing sink of a round.
#[derive(Clone, Copy, PartialEq, Eq, Structural, Debug)]
pub enum Message {
    Prevote(Prevote),
    Precommit(Precommit),
}

/// A vote as delivered by the incoming stream of a round: a message together
/// with its signer and an opaque signature, both already checked by the
/// environment before delivery.
#[derive(Clone, Copy, PartialEq, Eq, Structural, Debug)]
pub struct SignedMessage {
    pub message: Message,
    pub signature: u64,
    pub id: u64,
}

/// Two conflicting votes of one kind by one signer in one round, as reported
/// by the tally during an import. The engine never looks inside one; it only
/// forwards it to the environment.
#[derive(Clone, Copy, PartialEq, Eq, Debug)]
pub struct Equivocation<V> {
    pub round_number: u64,
    pub identity: u64,
    pub first_vote: V,
    pub first_signature: u64,
    pub second_vote: V,
    pub second_signature: u64,
}

} // verus!
