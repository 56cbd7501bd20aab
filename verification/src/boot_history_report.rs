//! The boot history: one entry for each boot, and a summary on the console.
use vstd::prelude::*;
use vstd::string::*;
use crate::reset_cause::{is_integrity_event, is_watchdog, Cause};
use crate::text::{dec, pad_start, push_dec, push_right, push_signed, signed_dec};

verus! {

/// Where the boot history partition begins.
pub const BOOTLOG_PARTITION_OFFSET: u32 = 0x12000;

/// How many of the latest entries are printed.
pub const PRINT_RECENT_N: usize = 5;

/// Why a boot happened, in the terms of the boot history.
#[derive(Debug, Clone, Copy, PartialEq, Eq, Structural)]
pub enum BootReason {
    Unknown,
    PowerOn,
    ExternalReset,
    SoftwareReset,
    WatchdogReset,
    BrownoutReset,
    DeepSleepWake,
    CrashRecovery,
    Intrusion,
}

/// What a reset cause is recorded as.
pub open spec fn reason_of(cause: Cause) -> BootReason {
    if cause == Cause::PowerOn {
        BootReason::PowerOn
    } else if cause == Cause::UsbUartChip || cause == Cause::UsbJtagChip || cause
        == Cause::HpJtag {
        BootReason::ExternalReset
    } else if is_watchdog(cause) {
        BootReason::WatchdogReset
    } else if cause == Cause::BrownOut {
        BootReason::BrownoutReset
    } else if is_integrity_event(cause) {
        BootReason::Intrusion
    } else if cause is Unknown {
        BootReason::Unknown
    } else {
        BootReason::SoftwareReset
    }
}

/// What a reset cause is recorded as.
pub fn map_cause_to_reason(cause: Cause) -> (reason: BootReason)
    ensures
        reason == reason_of(cause),
{
    match cause {
        Cause::PowerOn => BootReason::PowerOn,
        Cause::UsbUartChip | Cause::UsbJtagChip | Cause::HpJtag => BootReason::ExternalReset,
        Cause::DigitalSystemSoftware
        | Cause::HpCoreSoftware
        | Cause::PmuHpSystemPowerDown
        | Cause::HpCoreLockup => BootReason::SoftwareReset,
        Cause::HpWatchdogSystem
        | Cause::LpWatchdogSystem
        | Cause::HpWatchdogCore
        | Cause::LpWatchdogCore
        | Cause::LpWatchdogChip
        | Cause::SuperWatchdog => BootReason::WatchdogReset,
        Cause::BrownOut => BootReason::BrownoutReset,
        Cause::Glitch | Cause::EfuseCrc => BootReason::Intrusion,
        Cause::Unknown(_) => BootReason::Unknown,
    }
}

/// A boot as it is recorded. There is no clock yet, so both times are zero.
#[derive(Debug, Clone, Copy, PartialEq, Eq, Structural)]
pub struct NewEntry {
    pub timestamp_us: u64,
    pub previous_uptime_us: u64,
    pub reason: BootReason,
}

/// The entry for this boot. That a crash dump is there says more than the
/// reset cause: the boot before crashed.
pub open spec fn entry_of(cause: Cause, crash_was_present: bool) -> NewEntry {
    NewEntry {
        timestamp_us: 0,
        previous_uptime_us: 0,
        reason: if crash_was_present {
            BootReason::CrashRecovery
        } else {
            reason_of(cause)
        },
    }
}

/// The entry for this boot.
pub fn entry_for(cause: Cause, crash_was_present: bool) -> (entry: NewEntry)
    ensures
        entry == entry_of(cause, crash_was_present),
{
    let reason = if crash_was_present {
        BootReason::CrashRecovery
    } else {
        map_cause_to_reason(cause)
    };
    NewEntry { timestamp_us: 0, previous_uptime_us: 0, reason }
}

/// An entry of the history.
#[derive(Debug, Clone, Copy, PartialEq, Eq, Structural)]
pub struct Entry {
    pub seq: u32,
    pub timestamp_us: u64,
    pub previous_uptime_us: u64,
    /// The reason as it is stored.
    pub reason: u32,
    /// What the stored reason stands for, if anything.
    pub kind: Option<BootReason>,
}

/// Why the history could not be written.
pub enum HistoryError {
    /// The ROM gave this status.
    Rom(i32),
    /// Another reason, in words.
    Other(String),
}

/// The name of a reason.
pub open spec fn reason_text(kind: Option<BootReason>) -> Seq<char> {
    match kind {
        Some(BootReason::Unknown) => "unknown"@,
        Some(BootReason::PowerOn) => "power-on"@,
        Some(BootReason::ExternalReset) => "external"@,
        Some(BootReason::SoftwareReset) => "software"@,
        Some(BootReason::WatchdogReset) => "watchdog"@,
        Some(BootReason::BrownoutReset) => "brownout"@,
        Some(BootReason::DeepSleepWake) => "deep-sleep-wake"@,
        Some(BootReason::CrashRecovery) => "crash-recovery"@,
        Some(BootReason::Intrusion) => "intrusion"@,
        None => "?"@,
    }
}

/// The name of a reason.
pub fn reason_name(kind: Option<BootReason>) -> (s: &'static str)
    ensures
        s@ == reason_text(kind),
{
    match kind {
        Some(BootReason::Unknown) => "unknown",
        Some(BootReason::PowerOn) => "power-on",
        Some(BootReason::ExternalReset) => "external",
        Some(BootReason::SoftwareReset) => "software",
        Some(BootReason::WatchdogReset) => "watchdog",
        Some(BootReason::BrownoutReset) => "brownout",
        Some(BootReason::DeepSleepWake) => "deep-sleep-wake",
        Some(BootReason::CrashRecovery) => "crash-recovery",
        Some(BootReason::Intrusion) => "intrusion",
        None => "?",
    }
}

/// An entry as it is printed.
pub open spec fn entry_text(entry: Entry) -> Seq<char> {
    "  seq="@ + pad_start(dec(entry.seq as nat), 5, ' ') + "  ts_us="@ + pad_start(
        dec(entry.timestamp_us as nat),
        16,
        ' ',
    ) + "  prev_uptime_us="@ + pad_start(dec(entry.previous_uptime_us as nat), 13, ' ')
        + "  reason="@ + dec(entry.reason as nat) + " ("@ + reason_text(entry.kind) + ")\n"@
}

fn push_entry(out: &mut String, entry: &Entry)
    ensures
        final(out)@ == old(out)@ + entry_text(*entry),
{
    out.append("  seq=");
    push_right(out, entry.seq as u64, 5);
    out.append("  ts_us=");
    push_right(out, entry.timestamp_us, 16);
    out.append("  prev_uptime_us=");
    push_right(out, entry.previous_uptime_us, 13);
    out.append("  reason=");
    push_dec(out, entry.reason as u64);
    out.append(" (");
    out.append(reason_name(entry.kind));
    out.append(")\n");
}

/// The first `n` entries as they are printed.
pub open spec fn entries_text(entries: Seq<Entry>, n: nat) -> Seq<char>
    decreases n,
{
    if n == 0 {
        Seq::empty()
    } else {
        entries_text(entries, (n - 1) as nat) + entry_text(entries[n - 1])
    }
}

/// How many entries are printed.
pub open spec fn shown_count(total: nat) -> nat {
    if total < PRINT_RECENT_N {
        total
    } else {
        PRINT_RECENT_N as nat
    }
}

/// The summary of a history, its latest entry first.
pub open spec fn recent_text(entries: Seq<Entry>) -> Seq<char> {
    if entries.len() == 0 {
        Seq::empty()
    } else {
        "boot-history: last "@ + dec(shown_count(entries.len())) + " of "@ + dec(entries.len())
            + " entries:\n"@ + entries_text(entries, shown_count(entries.len()))
    }
}

/// Appends the summary of a history, its latest entry first.
pub fn push_recent(out: &mut String, entries: &[Entry])
    ensures
        final(out)@ == old(out)@ + recent_text(entries@),
{
    let total = entries.len();
    let take = if total < PRINT_RECENT_N { total } else { PRINT_RECENT_N };
    if take == 0 {
        return;
    }
    out.append("boot-history: last ");
    push_dec(out, take as u64);
    out.append(" of ");
    push_dec(out, total as u64);
    out.append(" entries:\n");
    let ghost front = out@;
    let mut i: usize = 0;
    while i < take
        invariant
            i <= take <= entries@.len(),
            out@ == front + entries_text(entries@, i as nat),
        decreases take - i,
    {
        push_entry(out, &entries[i]);
        i += 1;
    }
}

/// The report after this boot was recorded: see [`record_and_print`].
pub open spec fn report_text(stored: Result<(), HistoryError>, entries: Seq<Entry>) -> Seq<char> {
    match stored {
        Ok(()) => "boot-history: appended seq #"@ + dec(
            if entries.len() == 0 {
                0
            } else {
                entries[0].seq as nat
            },
        ) + " (now "@ + dec(entries.len()) + " entries)\n"@ + recent_text(entries),
        Err(HistoryError::Rom(s)) => "boot-history: flash write failed (rom="@ + signed_dec(
            s as int,
        ) + ")\n"@,
        Err(HistoryError::Other(e)) => "boot-history: write failed: "@ + e@ + "\n"@,
    }
}

/// The report after this boot was recorded. `entries` is the history with it,
/// its latest entry first; `stored` is what came of writing it back.
pub fn record_and_print(stored: Result<(), HistoryError>, entries: &[Entry]) -> (out: String)
    ensures
        out@ == report_text(stored, entries@),
{
    let mut out = String::new();
    match stored {
        Ok(()) => {
            let seq = if entries.len() == 0 { 0 } else { entries[0].seq };
            out.append("boot-history: appended seq #");
            push_dec(&mut out, seq as u64);
            out.append(" (now ");
            push_dec(&mut out, entries.len() as u64);
            out.append(" entries)\n");
            push_recent(&mut out, entries);
        },
        Err(HistoryError::Rom(s)) => {
            out.append("boot-history: flash write failed (rom=");
            push_signed(&mut out, s);
            out.append(")\n");
        },
        Err(HistoryError::Other(e)) => {
            out.append("boot-history: write failed: ");
            out.append(e.as_str());
            out.append("\n");
        },
    }
    out
}

} // verus!
