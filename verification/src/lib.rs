//! A small tracker for kyudo (archery) practice: shots are recorded in sets,
//! sets accumulate into a session, and the whole history is kept in sync with
//! a revision-aware document store through an optimistic-concurrency protocol.

pub mod model;
pub mod state;
pub mod doc;
pub mod store;
pub mod sync;
