//! Peripety turns raw kernel log lines about storage faults into
//! structured, block-device-correlated events.
//!
//! The heart is the block-topology resolver: given any identifier a kernel
//! message may carry — a kernel name, a `major:minor` pair, a SCSI
//! `H:C:T:L` id, a WWID, a filesystem UUID, a device path — it resolves
//! the full ownership chain (partition, SCSI disk, multipath map, LVM
//! volume) with stable identifiers, SAN transport coordinates and mount
//! state. Around it stand the `/dev/kmsg` frame parser, the regex
//! classification catalog, the per-subsystem enrichment stages, the event
//! filters of the query CLI, and the journal field contract.
//!
//! Everything here is a pure function of a [`sysfs::Sysfs`] snapshot, the
//! in-memory picture of `/sys`, `/dev` and `/proc` that the surrounding
//! daemon collects; reading the kernel's tree, the journal and the
//! configuration file stays outside this crate.

pub mod blk;
pub mod catalog;
pub mod cli;
pub mod conf;
pub mod error;
pub mod event;
pub mod filter;
pub mod kmsg;
pub mod mountinfo;
pub mod regexes;
pub mod stages;
pub mod stamp;
pub mod strutil;
pub mod sysfs;
pub mod transport;
pub mod wwid;
