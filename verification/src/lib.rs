//! Pairwise Elo-style task ranking with optimistic-concurrency persistence.
//!
//! Voters compare two open tasks; each vote adjusts the tasks' skill scores.
//! The engine selects a question, checks voter eligibility, and commits the
//! vote together with both score changes as one atomically checked unit
//! against a store that other writers may touch between read and write.

mod data;
mod engine;
mod errors;
mod model;
mod numerals;
mod persistence;

pub use data::Outcome;
pub use data::Rating;
pub use data::RatingView;
pub use data::Task;
pub use data::TaskId;
pub use data::TaskView;
pub use data::Timestamp;
pub use data::User;
pub use data::UserView;
pub use data::Vote;
pub use data::VoteView;
pub use data::DEFAULT_ELO_BITS;
pub use engine::Engine;
pub use engine::WEEK_MILLIS;
pub use errors::is_infrastructure;
pub use errors::spec_code_text;
pub use errors::Error;
pub use errors::ErrorCode;
pub use errors::ErrorView;
pub use model::distinct_keys;
pub use model::filter_matching;
pub use model::find_first;
pub use model::find_index;
pub use model::rating_elo_in;
pub use model::upsert_first;
pub use model::StoreModel;
pub use numerals::spec_decimal;
pub use numerals::u128_to_decimal;
pub use persistence::lemma_commit_freshens_token;
pub use persistence::lemma_crud_keeps_token;
pub use persistence::Etag;
pub use persistence::InMemory;
pub use persistence::Persistence;
pub use persistence::Snapshot;
pub use persistence::SnapshotView;
