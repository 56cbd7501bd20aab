//! The start of a boot: the chip comes up, and what earlier boots left behind
//! is reported.
//!
//! The reports come before the PSRAM and before anything of an application is
//! touched, so that a crash that recurs there does not swallow the report of
//! the crash before it. None of the reports can stop the boot, nor can a PSRAM
//! that does not come up.
use vstd::prelude::*;
use vstd::string::*;
use crate::boot_history_report;
use crate::boot_history_report::{
    entry_for, entry_of, Entry, HistoryError, NewEntry, BOOTLOG_PARTITION_OFFSET,
};
use crate::boot_log::{
    psram_failed_line, psram_failed_text, psram_line, psram_text, reset_cause_line,
    reset_cause_text,
};
use crate::bootstat_report;
use crate::bootstat_report::{
    event_for, event_of, BootEvent, BootRecord, BootstatError, BOOTSTAT_PARTITION_OFFSET,
};
use crate::crashdump_report;
use crate::crashdump_report::{CrashDump, CRASHDUMP_PARTITION_OFFSET};
use crate::reset_cause::Cause;

verus! {

/// The next step of the start. A step that has `out` prints it first.
#[allow(inconsistent_fields)]
pub enum BringUpStep {
    /// Disable the watchdogs that the ROM left running; resume.
    DisableWatchdogs { out: String, next: AwaitWatchdogs },
    /// Bring up the chip; resume.
    InitChip { next: AwaitChip },
    /// Read the latched reset cause; resume with it and its raw code.
    ReadResetCause { out: String, next: AwaitCause },
    /// Look whether a crash dump begins at `at`; resume with the answer.
    FindCrashDump { out: String, at: u32, next: AwaitPresence },
    /// Load the crash dump at `at`; resume with it, or why it does not decode.
    LoadCrashDump { at: u32, next: AwaitDump },
    /// Append `entry` to the boot history at `at`; resume with what came of it,
    /// and with the history, its latest entry first.
    AppendHistory { out: String, at: u32, entry: NewEntry, next: AwaitHistory },
    /// Look up the uptime in the latest boot statistics record at `at`; resume
    /// with it.
    LoadUptime { out: String, at: u32, next: AwaitUptime },
    /// Append a record of `event` to the boot statistics at `at`; resume with
    /// what came of it, and with the record.
    AppendBootstat { at: u32, event: BootEvent, next: AwaitBootstat },
    /// Bring up the PSRAM; resume with its vendor and density codes, or why it
    /// did not come up.
    InitPsram { out: String, next: AwaitPsram },
    /// Go on with the choice of a slot.
    Done { out: String },
}

pub struct AwaitWatchdogs {}

pub struct AwaitChip {}

pub struct AwaitCause {}

pub struct AwaitPresence {
    pub cause: Cause,
    pub raw: u8,
}

pub struct AwaitDump {
    pub cause: Cause,
    pub raw: u8,
}

pub struct AwaitHistory {
    pub cause: Cause,
    pub raw: u8,
    pub crashed: bool,
}

pub struct AwaitUptime {
    pub cause: Cause,
    pub raw: u8,
    pub crashed: bool,
}

pub struct AwaitBootstat {}

pub struct AwaitPsram {}

/// `step` prints `text` and records this boot in the history.
pub open spec fn records(
    step: BringUpStep,
    text: Seq<char>,
    cause: Cause,
    raw: u8,
    crashed: bool,
) -> bool {
    &&& step matches BringUpStep::AppendHistory { out, at, entry, next }
    &&& out@ == text
    &&& at == BOOTLOG_PARTITION_OFFSET
    &&& entry == entry_of(cause, crashed)
    &&& next == (AwaitHistory { cause, raw, crashed })
}

/// Starts a boot.
pub fn start() -> (step: BringUpStep)
    ensures
        step matches BringUpStep::DisableWatchdogs { out, .. } && out@
            == "\n=== mini-bootloader alive @ 0x4FF20000 ===\n"@,
{
    let mut out = String::new();
    out.append("\n=== mini-bootloader alive @ 0x4FF20000 ===\n");
    BringUpStep::DisableWatchdogs { out, next: AwaitWatchdogs {  } }
}

impl AwaitWatchdogs {
    pub fn resume(self) -> (step: BringUpStep)
        ensures
            step == (BringUpStep::InitChip { next: AwaitChip {  } }),
    {
        BringUpStep::InitChip { next: AwaitChip {  } }
    }
}

impl AwaitChip {
    pub fn resume(self) -> (step: BringUpStep)
        ensures
            step matches BringUpStep::ReadResetCause { out, .. } && out@
                == "mini-bootloader: init_phase2_full() done\n"@,
    {
        let mut out = String::new();
        out.append("mini-bootloader: init_phase2_full() done\n");
        BringUpStep::ReadResetCause { out, next: AwaitCause {  } }
    }
}

impl AwaitCause {
    /// Takes the reset cause, and its raw code.
    pub fn resume(self, cause: Cause, raw: u8) -> (step: BringUpStep)
        ensures
            step matches BringUpStep::FindCrashDump { out, at, next } && {
                &&& out@ == reset_cause_text(cause, raw)
                &&& at == CRASHDUMP_PARTITION_OFFSET
                &&& next == (AwaitPresence { cause, raw })
            },
    {
        BringUpStep::FindCrashDump {
            out: reset_cause_line(cause, raw),
            at: CRASHDUMP_PARTITION_OFFSET,
            next: AwaitPresence { cause, raw },
        }
    }
}

impl AwaitPresence {
    /// Takes whether there is a crash dump.
    pub fn resume(self, present: bool) -> (step: BringUpStep)
        ensures
            if present {
                step == (BringUpStep::LoadCrashDump {
                    at: CRASHDUMP_PARTITION_OFFSET,
                    next: AwaitDump { cause: self.cause, raw: self.raw },
                })
            } else {
                records(step, Seq::empty(), self.cause, self.raw, false)
            },
    {
        if present {
            BringUpStep::LoadCrashDump {
                at: CRASHDUMP_PARTITION_OFFSET,
                next: AwaitDump { cause: self.cause, raw: self.raw },
            }
        } else {
            BringUpStep::AppendHistory {
                out: String::new(),
                at: BOOTLOG_PARTITION_OFFSET,
                entry: entry_for(self.cause, false),
                next: AwaitHistory { cause: self.cause, raw: self.raw, crashed: false },
            }
        }
    }
}

impl AwaitDump {
    /// Takes the crash dump. That there is one counts, whether or not it
    /// decodes.
    pub fn resume(self, loaded: Result<CrashDump, String>) -> (step: BringUpStep)
        ensures
            records(
                step,
                crashdump_report::report_text(Some(loaded), CRASHDUMP_PARTITION_OFFSET),
                self.cause,
                self.raw,
                true,
            ),
    {
        BringUpStep::AppendHistory {
            out: crashdump_report::print_if_present(Some(loaded), CRASHDUMP_PARTITION_OFFSET),
            at: BOOTLOG_PARTITION_OFFSET,
            entry: entry_for(self.cause, true),
            next: AwaitHistory { cause: self.cause, raw: self.raw, crashed: true },
        }
    }
}

impl AwaitHistory {
    /// Takes what came of recording this boot in the history.
    pub fn resume(self, stored: Result<(), HistoryError>, entries: &[Entry]) -> (step: BringUpStep)
        ensures
            step matches BringUpStep::LoadUptime { out, at, next } && {
                &&& out@ == boot_history_report::report_text(stored, entries@)
                &&& at == BOOTSTAT_PARTITION_OFFSET
                &&& next == (AwaitUptime {
                    cause: self.cause,
                    raw: self.raw,
                    crashed: self.crashed,
                })
            },
    {
        BringUpStep::LoadUptime {
            out: boot_history_report::record_and_print(stored, entries),
            at: BOOTSTAT_PARTITION_OFFSET,
            next: AwaitUptime { cause: self.cause, raw: self.raw, crashed: self.crashed },
        }
    }
}

impl AwaitUptime {
    /// Takes the uptime in the latest boot statistics record.
    pub fn resume(self, last_uptime_seconds: u32) -> (step: BringUpStep)
        ensures
            step == (BringUpStep::AppendBootstat {
                at: BOOTSTAT_PARTITION_OFFSET,
                event: event_of(self.cause, self.raw, self.crashed, last_uptime_seconds),
                next: AwaitBootstat {  },
            }),
    {
        BringUpStep::AppendBootstat {
            at: BOOTSTAT_PARTITION_OFFSET,
            event: event_for(self.cause, self.raw, self.crashed, last_uptime_seconds),
            next: AwaitBootstat {  },
        }
    }
}

impl AwaitBootstat {
    /// Takes what came of recording this boot in the statistics.
    pub fn resume(self, appended: Result<(), BootstatError>, record: &BootRecord) -> (step:
        BringUpStep)
        ensures
            step matches BringUpStep::InitPsram { out, .. } && out@
                == bootstat_report::report_text(appended, *record),
    {
        BringUpStep::InitPsram {
            out: bootstat_report::record_and_print(appended, record),
            next: AwaitPsram {  },
        }
    }
}

impl AwaitPsram {
    /// Takes the vendor and density codes of the PSRAM, or why it did not come
    /// up. The boot goes on either way: not every application needs it.
    pub fn resume(self, psram: Result<(u8, u8), String>) -> (step: BringUpStep)
        ensures
            step matches BringUpStep::Done { out } && out@ == match psram {
                Ok((vendor_id, density)) => psram_text(vendor_id, density),
                Err(e) => psram_failed_text(e@),
            },
    {
        let out = match psram {
            Ok((vendor_id, density)) => psram_line(vendor_id, density),
            Err(e) => psram_failed_line(e.as_str()),
        };
        BringUpStep::Done { out }
    }
}

} // verus!
