//! Sync engine for forwarding social-feed posts to a messaging channel.
//!
//! The library normalizes posts from a feed source, deduplicates them against
//! a persisted watermark per source, orders unseen posts oldest-first, and
//! drives a rate-limit-aware delivery state machine. All network and file
//! handling lives outside the library; the functions here are pure logic with
//! verified contracts.

pub mod config;
pub mod engine;
pub mod numeral;
pub mod sources;
pub mod telegram;
