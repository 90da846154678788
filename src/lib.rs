//! Multi-tenant verification of OIDC bearer tokens against a self-refreshing
//! cache of JSON Web Key Sets.
//!
//! - `token`: reads the untrusted header and payload of a token and names the
//!   tenant that it claims to come from.
//! - `registry`: the fixed set of tenants.
//! - `cache`: each tenant's keys, merged from fetches and evicted by age,
//!   never down to none.
//! - `refresh`: one refresh in flight per tenant, and a cooldown after a
//!   successful one.
//! - `retry`: which failed fetches are retried, and the backoff in between.
//! - `builder`: the checked construction parameters.
//!
//! Network, locks and timers stay with the caller: it performs the I/O that
//! these decisions call for and hands the outcomes back.

pub mod table;
pub mod external;
pub mod types;
pub mod error;
pub mod token;
pub mod registry;
pub mod cache;
pub mod refresh;
pub mod digits;
pub mod retry;
pub mod builder;
