//! Vanity transaction-hash mining: searching for a value of one mutable
//! transaction field such that the digest of the signed, encoded transaction
//! starts with a caller-chosen hexadecimal prefix.
//!
//! The digest itself is computed by an external codec and signer; this crate
//! owns everything around that call: prefix validation, the choice of which
//! field to iterate, the probabilistic iteration budget, the partitioning of
//! the candidate domain across workers, each worker's bounded search loop,
//! and the first-match-wins cancellation protocol.

pub mod estimate;
pub mod filler;
pub mod hexfmt;
pub mod partition;
pub mod search;
pub mod worker;

pub use estimate::max_iterations_for_prefix;
pub use estimate::search_domain;
pub use filler::DeadbeefFiller;
pub use search::search;
pub use search::select_mode;
pub use search::IterationMode;
pub use search::SearchError;
pub use search::SearchHit;
pub use search::TxDraft;
pub use search::TxFillable;
pub use search::GAS_MODE_MAX_PREFIX_LEN;
