//! Core of a sandboxed automation engine.
//!
//! Events arrive on named logging channels and are dispatched to compiled
//! guest modules that subscribe to those channels.  Each invocation runs
//! under strict resource budgets (computation fuel, memory pages) and talks
//! to the host through a curated call surface: API dispatch, storage, a
//! response cache, a response slot, and re-emission of events ("logbacks")
//! under a depth budget.  This crate holds the engine's decision logic and
//! data model; process plumbing (HTTP, file I/O, the guest runtime itself)
//! lives outside it and hands plain values in and out.

pub mod apis;
pub mod benchmark;
pub mod cache;
pub mod config;
pub mod data;
pub mod dispatch;
pub mod functions;
pub mod hostcalls;
pub mod interpolate;
pub mod kvlist;
pub mod messages;
pub mod sandbox;
pub mod storage;
pub mod strutil;
pub mod yubikey;
