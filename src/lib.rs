//! A small Byzantine-fault-tolerant replication core: hash-linked chains of
//! signed blocks, a fork-aware chain store, vote tallies with a quorum rule,
//! and the node state machine that proposes, votes and echoes.
pub mod crypto;
pub mod blockchain;
pub mod tally;
pub mod store;
pub mod node;
