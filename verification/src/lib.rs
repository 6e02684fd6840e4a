//! Core of a chain tracker for an ERC-4337 bundler mempool.
//!
//! The tracker watches an EVM-compatible chain through a provider, keeps a
//! bounded sliding window of recent block summaries, detects and reconciles
//! reorgs, and produces [`update::ChainUpdate`] records describing which user
//! operations were mined or unmined and which entry-point balance updates
//! occurred.
//!
//! All chain I/O (block fetches, log fetches, sleeps) is performed by the
//! embedding application: the sync engine in [`chain`] is a step machine that
//! hands out [`chain::SyncAction`]s and consumes [`chain::SyncEvent`]s, so
//! that every decision the tracker makes is verified here.

pub mod chain;
pub mod events;
pub mod laws;
pub mod types;
pub mod update;
