//! A livestock registry and health-event ledger: animal records with
//! creation, breeding, health-status transitions with derived alerts,
//! medication attachment, deletion, and aggregate statistics and queries.

mod host;
pub mod livestock;
pub mod queries;
pub mod stats;
pub mod laws;
