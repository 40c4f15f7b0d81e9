//! Surface, context and buffer-handoff coordination for GPU rendering onto
//! native windows.
//!
//! The library resolves pixel formats into configuration requests, keeps one
//! rendering context per format in a pool, tracks drawable surfaces by window
//! identity, drives the per-frame render cycle, hands rendered buffers to a
//! compositor and keeps refresh-rate subscriptions.

pub mod backend;
pub mod error;
pub mod format;
pub mod pool;
pub mod registry;
pub mod cycle;
pub mod handoff;
pub mod vsync;
