//! The paths at which a system keeps what this library works on.
//!
//! The paths are handed to whatever needs them, so that a caller may work
//! on a directory of its own choosing. [`Paths::system`] gives the paths of
//! a running system.

use crate::boot::{TRYBOOT_MARKER, UBOOT_MARKER};
use crate::reboot::{BOOT_SPARE_ENV, CONFIG_MOUNT, DEFERRED_SPARE_REBOOT_FLAG};
use vstd::prelude::*;
use vstd::string::StringExecFns;

verus! {

/// Where things are.
#[derive(Debug)]
pub struct Paths {
    /// Where the configuration partition is mounted.
    pub config_mount: String,
    /// The environment block that tells the bootloader to boot the spare set.
    pub boot_spare_env: String,
    /// The flag that defers a reboot into the spare set.
    pub deferred_spare_reboot_flag: String,
    /// The marker of the firmware's one-shot mechanism.
    pub tryboot_marker: String,
    /// The marker of a bootloader that keeps an environment block.
    pub uboot_marker: String,
}

impl Paths {
    /// The paths of a running system.
    pub fn system() -> (paths: Paths)
        ensures
            paths.config_mount@ == CONFIG_MOUNT@,
            paths.boot_spare_env@ == BOOT_SPARE_ENV@,
            paths.deferred_spare_reboot_flag@ == DEFERRED_SPARE_REBOOT_FLAG@,
            paths.tryboot_marker@ == TRYBOOT_MARKER@,
            paths.uboot_marker@ == UBOOT_MARKER@,
    {
        Paths {
            config_mount: String::from_str(CONFIG_MOUNT),
            boot_spare_env: String::from_str(BOOT_SPARE_ENV),
            deferred_spare_reboot_flag: String::from_str(DEFERRED_SPARE_REBOOT_FLAG),
            tryboot_marker: String::from_str(TRYBOOT_MARKER),
            uboot_marker: String::from_str(UBOOT_MARKER),
        }
    }
}

} // verus!
