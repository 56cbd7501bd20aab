//! First-stage bootloader logic for the ESP32-P4.
//!
//! The crate decides; it never touches hardware. Every operation that needs
//! the flash, a register or the UART is a *step*: a value that says what to
//! do next and carries the continuation that takes the answer. A driver
//! performs the work and hands the answer back.
//!
//! * [`flash`], [`app`], [`partition`], [`verify`]: the flash read rules, the
//!   image format, the partition table and the digest check.
//! * [`layout`]: whole images, and what the walks over them come to.
//! * [`bring_up`]: the start of a boot, up to the choice of a slot.
//! * [`slot_select`], [`boot`]: which slot boots, and the way to the jump.
//! * [`reset_cause`], [`crashdump_report`], [`boot_history_report`],
//!   [`bootstat_report`]: the boot-time reports.
//! * [`recovery`]: the serial re-provisioning shell.
//! * [`boot_log`], [`text`], [`uart`]: console lines and their bytes.
//! * [`gpio`]: the registers of the recovery pin.
//! * [`bytes`], [`sha`]: little-endian words, and SHA-256.
//! * [`laws`]: what all of these do, said of what goes in and what comes out.
use vstd::prelude::*;

pub mod app;
pub mod boot;
pub mod boot_history_report;
pub mod boot_log;
pub mod bootstat_report;
pub mod bring_up;
pub mod bytes;
pub mod crashdump_report;
pub mod flash;
pub mod gpio;
pub mod laws;
pub mod layout;
pub mod partition;
pub mod recovery;
pub mod reset_cause;
pub mod sha;
pub mod slot_select;
pub mod text;
pub mod uart;
pub mod verify;

verus! {

} // verus!
