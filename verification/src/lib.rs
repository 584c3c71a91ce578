//! A verified immersion ledger: an append-only log of reading activity with a
//! derived per-user running total, a tier ladder of roles unlocked by the
//! total (some tiers gated behind quiz credentials), and validation of
//! third-party quiz-session reports against a catalog of gate requirements.

pub mod activity;
pub mod ledger;
pub mod pagination;
pub mod quiz;
pub mod roles;
pub mod sorting;
pub mod text;

pub use ledger::CharacterLogEntry;
pub use ledger::CharacterStatistics;
pub use ledger::Ledger;
