//! The rules of an HR service, and at their heart the tiered resolution of
//! username uniqueness.
//!
//! "Is this username taken?" is asked at high volume, and the authoritative
//! store should not be burdened with every check. Three tiers answer in
//! turn:
//!
//! - [`username_filter`]: an approximate set of every username ever claimed,
//!   which answers "definitely absent" without a false negative;
//! - [`username_cache`]: an expiring cache of confirmed "taken" markers;
//! - the authoritative store, whose uniqueness constraint alone decides
//!   claims.
//!
//! [`resolver`] cascades through them and records successful claims;
//! [`warmup`] refills the two in-memory tiers from the store at startup. The
//! store itself stays outside: its answers come in as plain values.
//!
//! The remaining modules hold what the service's handlers decide by:
//! [`registration`], [`session`], [`auth`], [`role`], [`jwt`], [`password`],
//! [`config`], [`listing`], [`leave`] and [`sql_update`], with the records
//! in [`models`] and the text helpers in [`token`].

pub mod auth;
pub mod config;
pub mod jwt;
pub mod leave;
pub mod listing;
pub mod models;
pub mod password;
mod random;
pub mod registration;
pub mod resolver;
pub mod role;
pub mod session;
pub mod sql_update;
pub mod token;
pub mod username_cache;
pub mod username_filter;
pub mod warmup;
