//! A small verified election ledger: one ballot per voter, ranking-integrity
//! validation, and a running per-candidate tally, with read-only query
//! projections of the state.

pub mod election;
pub mod results_json;
pub mod text;

pub use election::BallotPaper;
pub use election::BallotRecord;
pub use election::Candidate;
pub use election::Vote;
pub use election::VoteError;
pub use election::has_duplicate;
pub use text::dec_u16;
pub use text::join_lines;
