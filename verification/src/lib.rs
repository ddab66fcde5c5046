//! Core of an interactive trainer for small feed-forward networks: the store
//! of labelled examples, the adapter state around a numeric engine, and the
//! bookkeeping of a bounded training run.
//!
//! The numeric engine itself lives with the caller. The library decides what
//! is fed to it and what becomes of every answer it gives.

pub mod error;
pub mod network;
pub mod template;
pub mod text;
pub mod trainer;
pub mod training_data;
