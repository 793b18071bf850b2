//! A community content-moderation engine.
//!
//! Users submit content, report it, and vote on it; reputation scores weight
//! guideline votes, and accumulated votes trigger automatic removal of
//! content that violates a community guideline.

pub mod laws;
pub mod records;
pub mod state;
pub mod strutil;

pub use records::{CommunityGuideline, Content, ModerationError, Report, User, Vote};
pub use state::State;
