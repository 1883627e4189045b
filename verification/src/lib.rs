//! Stream links for the Pacific Northwest FRC events: which broadcast a viewer is sent to for an
//! event, for a given day of it, or for the day that is under way.

pub mod text;
pub mod schedule;
pub mod clock;
pub mod data;
pub mod routes;
