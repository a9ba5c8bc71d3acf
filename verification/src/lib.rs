//! A verified single-record microblog ledger: one write-once `Tweet` record,
//! its fixed binary layout, and the one operation that creates it.
//!
//! The host runtime (allocator, signer authentication, clock) is outside this
//! crate; it hands the create operation plain values and a freshly allocated
//! storage slot of exactly the size the size calculator reports.

pub mod sizes;
pub mod tweet;
pub mod layout;
