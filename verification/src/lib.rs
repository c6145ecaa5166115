//! Transaction-processing core of a decentralized services marketplace.
//!
//! Sellers list services, buyers record purchases and leave ratings, and
//! disputes over a service can be resolved. Four registries (services,
//! purchases, reviews with their aggregate metadata, disputes) are kept in an
//! explicit key-value store model; every handler either commits all of its
//! mutations or none. The hosting environment (authorization, fee metering,
//! message transport, persistence) is an external collaborator and lives
//! outside this library.

pub mod contract;
pub mod msg;
pub mod registry;
pub mod responses;
pub mod state;
