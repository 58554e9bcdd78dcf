//! Tracks serialized works published on source sites, detects new installments and fans
//! each change out to registered notification channels.
pub mod text;
pub mod source;
pub mod models;
pub mod extract;
pub mod detect;
pub mod notify;
pub mod services;
pub mod scheduler;
