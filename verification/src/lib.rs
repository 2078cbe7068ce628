//! Listing of SDK candidates and of the versions installed for a candidate.
pub mod candidates;
pub mod command;
pub mod listing;
pub mod order;
pub mod remote;
pub mod text;
pub mod versions;
