//! Installing boot entries on an EFI System Partition: the catalog of
//! generations, the probes, the plan and the steps that carry it out.

pub mod copy;
pub mod files;
pub mod options;
pub mod secure_boot;
pub mod systemd_boot;
pub mod util;
