//! Slot reservation and booking-lifecycle engine for a multi-tenant
//! clinic network.
//!
//! The engine guarantees that no two confirmed bookings ever claim the
//! same (tenant, site, professional, time) slot, even under concurrent
//! requests.  All correctness under concurrency is delegated to a
//! key-value store offering conditional writes and atomic multi-item
//! commits; the store semantics are modelled and verified in [`store`],
//! and the booking transactions in [`bookings`] are proved against that
//! model.

pub mod text;
pub mod time;
pub mod store;
pub mod keys;
pub mod errors;
pub mod auth;
pub mod bookings;
pub mod availability;
pub mod laws;
pub mod treatments;
pub mod tenants;
pub mod professionals;
pub mod notify;
pub mod ids;
