//! A finality voter engine for a GRANDPA-style two-phase vote.
//!
//! The engine drives a sequence of numbered voting rounds forward: it ingests
//! signed votes, decides when and what to prevote and precommit, detects and
//! forwards equivocations, chains consecutive rounds together, and announces
//! finalized blocks.
//!
//! The engine never reads a clock, a socket or a database. Timers, vote
//! streams, the outgoing sink, the per-round vote tally and the block tree are
//! all reached through the [`Environment`] trait, and every decision the
//! engine takes is specified and verified against the mathematical model of
//! that trait.

pub mod buffered;
pub mod environment;
pub mod laws;
pub mod messages;
pub mod round_state;
pub mod seq_facts;
pub mod voter;
pub mod voting_round;

pub use buffered::Buffered;
pub use environment::Environment;
pub use environment::EnvView;
pub use environment::Error;
pub use environment::FlushOutcome;
pub use environment::Readiness;
pub use environment::RoundData;
pub use environment::SendOutcome;
pub use environment::StreamOutcome;
pub use environment::TimerOutcome;
pub use messages::Equivocation;
pub use messages::Message;
pub use messages::Precommit;
pub use messages::Prevote;
pub use messages::SignedMessage;
pub use round_state::RoundState;
pub use voter::BackgroundRound;
pub use voter::Voter;
pub use voting_round::State;
pub use voting_round::VotingRound;
