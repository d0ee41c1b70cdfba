//! Bounded ring-buffer queues for every producer/consumer cardinality, each
//! modelled as a state machine whose `push` and `pop` are single steps, with
//! the payloads, payload stashes and measurements that drive them.
pub mod rings;
pub mod utils;
pub mod clock;
pub mod payload;
pub mod measurements;
