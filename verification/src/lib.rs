//! Boot-flow and partition-state control for devices with redundant boot
//! partitions.
//!
//! A device keeps two sets of partitions. An update is written to the spare
//! set, which is then booted once; if that fails, the device falls back to
//! the set it ran before. This library holds what that takes, with its
//! contracts proved:
//!
//! - [`disk`]: the types of partitions, and the GUIDs that name them in a
//!   GPT, with their textual form;
//! - [`boot`]: the boot flows, how one is told from the other, and the
//!   bootloader's environment block with its checksum;
//! - [`reboot`]: the steps of a reboot, into the spare set or not, and their
//!   order whatever fails;
//! - [`flags`]: flags that are files;
//! - [`paths`]: where a system keeps all this;
//! - [`scope`]: loop devices and mounts, and the order of their release;
//! - [`tasks`] and [`cli`]: what the making of an image computes, and the
//!   command line of the image builder as plain data.
//!
//! Nothing here touches the system. A caller looks at the system, hands
//! over what it found, and carries out the steps it is given.

pub mod boot;
pub mod cli;
pub mod disk;
pub mod flags;
pub mod paths;
pub mod reboot;
pub mod scope;
pub mod tasks;
pub mod utils;
