//! Why the chip was reset.
use vstd::prelude::*;

verus! {

/// A latched reset cause of the high-performance core.
#[derive(Debug, Clone, Copy, PartialEq, Eq, Structural)]
pub enum Cause {
    PowerOn,
    UsbUartChip,
    UsbJtagChip,
    HpJtag,
    DigitalSystemSoftware,
    HpCoreSoftware,
    PmuHpSystemPowerDown,
    HpCoreLockup,
    HpWatchdogSystem,
    LpWatchdogSystem,
    HpWatchdogCore,
    LpWatchdogCore,
    LpWatchdogChip,
    SuperWatchdog,
    BrownOut,
    Glitch,
    EfuseCrc,
    /// A code that has no name.
    Unknown(u8),
}

/// One of the watchdogs fired.
pub open spec fn is_watchdog(cause: Cause) -> bool {
    match cause {
        Cause::HpWatchdogSystem
        | Cause::LpWatchdogSystem
        | Cause::HpWatchdogCore
        | Cause::LpWatchdogCore
        | Cause::LpWatchdogChip
        | Cause::SuperWatchdog => true,
        _ => false,
    }
}

/// The hardware found itself tampered with.
pub open spec fn is_integrity_event(cause: Cause) -> bool {
    cause == Cause::Glitch || cause == Cause::EfuseCrc
}

} // verus!
