//! The two versions that decide whether the boot manager is updated: that of
//! the tool, and that of the boot manager found on the partition.

pub mod systemd;
pub mod systemd_boot;
