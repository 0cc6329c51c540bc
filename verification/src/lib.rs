//! Planning and reconciliation of boot-loader entries on an EFI System
//! Partition, for a system whose generations live in a content-addressed
//! store.

pub mod bootspec;
pub mod checksum;
pub mod decimal;
pub mod error;
pub mod generator;
pub mod installer;
pub mod pattern;
pub mod synthesize;
pub mod text;
