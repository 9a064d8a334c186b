//! An append-only registry of course achievements: each record says that a
//! user completed a course, carries a registry-assigned id and the ledger time
//! at which it was issued, and is never changed or removed afterwards.

pub mod achievement;
pub mod registry;
pub mod laws;

pub use achievement::{Achievement, Error};
pub use registry::CourseAchievementsContract;
