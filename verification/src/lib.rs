//! Change-bundle recording and replay over a transactional byte-keyed store.
//!
//! A writer records, for a bounded batch of key/value mutations, a compact
//! bundle of per-key change records (full value, binary patch, or tombstone)
//! that a replica can replay to reproduce the same state.

pub mod codec;
pub mod differ;
pub mod engine;
pub mod errors;
pub mod record;
pub mod replay;
pub mod store;

pub use codec::DecodeError;
pub use codec::RichCodec;
pub use differ::DifferDatabase;
pub use differ::DifferEnv;
pub use differ::DifferRwTxn;
pub use differ::ONE_GIGA;
pub use errors::CommitError;
pub use errors::ReplayError;
pub use errors::WriteError;
pub use record::RecordView;
pub use record::RichDiff;
pub use replay::apply;
pub use replay::read_bundle;
pub use replay::replay_into;
