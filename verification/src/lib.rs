//! Identify local draft revisions that have already landed upstream and
//! decide, reply by reply, which of them to retire.
//!
//! The crate holds the decision logic only: extracting an issue reference
//! from a revision subject, filtering on the issue's lifecycle status,
//! scanning a discussion for the most recent landing reference, and turning
//! operator replies into accept/reject decisions. Fetching issue data and
//! running repository commands are left to the surrounding program.

pub mod bz;
pub mod confirm;
pub mod hg;
pub mod resolve;
pub mod text;
