//! Identity resolution and two-tier schedule caching for a terminal
//! schedule viewer.
//!
//! The crate turns user-chosen college / campus / group names into a
//! concrete numeric identity, keeps per-date schedules in a disk-backed
//! cache with a configurable TTL, keeps reference lists (colleges,
//! campuses, groups) in a short-lived in-memory cache, and invalidates
//! exactly the stale part of the cached state when the active identity
//! changes.

pub mod api;
pub mod app;
pub mod cache;
pub mod config;
pub mod error;
pub mod keymap;
pub mod lists;
pub mod models;
pub mod resolver;
pub mod state;
pub mod strutil;
pub mod theme;
pub mod utils;
