//! The mechanisms by which a device chooses the partition set it boots from.

use vstd::prelude::*;

pub mod checksum;
pub mod uboot;

verus! {

/// Marker of the firmware's own one-shot mechanism: present on the
/// configuration partition where the firmware reads its boot choice itself.
pub const TRYBOOT_MARKER: &'static str = "/run/rugpi/mounts/config/autoboot.txt";

/// Marker of a bootloader that keeps its choice in an environment block.
pub const UBOOT_MARKER: &'static str = "/run/rugpi/mounts/config/bootpart.default.env";

/// The mechanism in effect on the running system.
#[derive(Clone, Copy, Debug, PartialEq, Eq, Structural)]
pub enum BootFlow {
    /// The firmware boots the spare set once when the reboot asks for it;
    /// nothing is written.
    Tryboot,
    /// The bootloader reads which set to boot from an environment block on
    /// the configuration partition.
    UBoot,
    /// No supported mechanism was found.
    Unsupported,
}

/// What was found on the running system.
#[derive(Clone, Copy, Debug, PartialEq, Eq, Structural)]
pub struct Indicators {
    /// Whether the marker of the firmware's mechanism is present.
    pub tryboot: bool,
    /// Whether the marker of the bootloader's environment is present.
    pub uboot: bool,
}

/// The mechanism that the indicators stand for. The firmware's mechanism
/// takes precedence over the bootloader's.
pub open spec fn boot_flow_of(indicators: Indicators) -> BootFlow {
    if indicators.tryboot {
        BootFlow::Tryboot
    } else if indicators.uboot {
        BootFlow::UBoot
    } else {
        BootFlow::Unsupported
    }
}

/// Determines the mechanism in effect from what was found on the system.
pub fn detect(indicators: Indicators) -> (flow: BootFlow)
    ensures
        flow == boot_flow_of(indicators),
{
    if indicators.tryboot {
        BootFlow::Tryboot
    } else if indicators.uboot {
        BootFlow::UBoot
    } else {
        BootFlow::Unsupported
    }
}

} // verus!
