//! The boot statistics: counters that outlive a boot, and a summary on the
//! console.
use vstd::prelude::*;
use vstd::string::*;
use crate::boot_history_report;
use crate::boot_history_report::BootReason;
use crate::reset_cause::{is_integrity_event, is_watchdog, Cause};
use crate::text::{
    dec, digits, hex, law_digits_are_digits, push_dec, push_hex, push_signed, run_of, signed_dec,
};

verus! {

/// Where the boot statistics partition begins.
pub const BOOTSTAT_PARTITION_OFFSET: u32 = 0x13000;

/// Why a boot happened, in the terms of the boot statistics.
#[derive(Debug, Clone, Copy, PartialEq, Eq, Structural)]
pub enum ResetReason {
    Unknown,
    PowerOn,
    ExternalReset,
    JtagReset,
    SoftwareReset,
    DeepSleepWake,
    WatchdogTimer,
    Brownout,
    Intrusion,
    PanicReset,
}

/// What a reset cause is counted as. A lockup of the core is one more way to
/// hang, so it counts with the watchdogs.
pub open spec fn reason_of(cause: Cause) -> ResetReason {
    if cause == Cause::PowerOn {
        ResetReason::PowerOn
    } else if cause == Cause::UsbUartChip || cause == Cause::UsbJtagChip {
        ResetReason::ExternalReset
    } else if cause == Cause::HpJtag {
        ResetReason::JtagReset
    } else if cause == Cause::PmuHpSystemPowerDown {
        ResetReason::DeepSleepWake
    } else if is_watchdog(cause) || cause == Cause::HpCoreLockup {
        ResetReason::WatchdogTimer
    } else if cause == Cause::BrownOut {
        ResetReason::Brownout
    } else if is_integrity_event(cause) {
        ResetReason::Intrusion
    } else if cause is Unknown {
        ResetReason::Unknown
    } else {
        ResetReason::SoftwareReset
    }
}

/// What a reset cause is counted as.
pub fn map_cause_to_reason(cause: Cause) -> (reason: ResetReason)
    ensures
        reason == reason_of(cause),
{
    match cause {
        Cause::PowerOn => ResetReason::PowerOn,
        Cause::UsbUartChip | Cause::UsbJtagChip => ResetReason::ExternalReset,
        Cause::HpJtag => ResetReason::JtagReset,
        Cause::DigitalSystemSoftware | Cause::HpCoreSoftware => ResetReason::SoftwareReset,
        Cause::PmuHpSystemPowerDown => ResetReason::DeepSleepWake,
        Cause::HpWatchdogSystem
        | Cause::LpWatchdogSystem
        | Cause::HpWatchdogCore
        | Cause::LpWatchdogCore
        | Cause::LpWatchdogChip
        | Cause::SuperWatchdog
        | Cause::HpCoreLockup => ResetReason::WatchdogTimer,
        Cause::BrownOut => ResetReason::Brownout,
        Cause::Glitch | Cause::EfuseCrc => ResetReason::Intrusion,
        Cause::Unknown(_) => ResetReason::Unknown,
    }
}

/// What is to be recorded of a boot.
#[derive(Debug, Clone, Copy, PartialEq, Eq, Structural)]
pub struct BootEvent {
    pub reason: ResetReason,
    /// The reset cause as the chip latched it.
    pub raw: u8,
    /// How long the run before lasted, as far as is known.
    pub uptime_seconds: u32,
}

/// What is to be recorded of this boot. A crash dump means that the run before
/// panicked, whatever the reset cause says; the uptime is the one that the
/// latest record holds, for want of a clock.
pub open spec fn event_of(
    cause: Cause,
    raw: u8,
    crashdump_was_present: bool,
    last_uptime_seconds: u32,
) -> BootEvent {
    BootEvent {
        reason: if crashdump_was_present {
            ResetReason::PanicReset
        } else {
            reason_of(cause)
        },
        raw,
        uptime_seconds: last_uptime_seconds,
    }
}

/// What is to be recorded of this boot.
pub fn event_for(cause: Cause, raw: u8, crashdump_was_present: bool, last_uptime_seconds: u32)
    -> (event: BootEvent)
    ensures
        event == event_of(cause, raw, crashdump_was_present, last_uptime_seconds),
{
    let reason = if crashdump_was_present {
        ResetReason::PanicReset
    } else {
        map_cause_to_reason(cause)
    };
    BootEvent { reason, raw, uptime_seconds: last_uptime_seconds }
}

/// A record of the boot statistics.
pub struct BootRecord {
    pub boot_count: u32,
    /// The reason in words.
    pub last_reason: String,
    pub last_reason_raw: u8,
    pub crash_count: u32,
    pub uptime_hours: u32,
    pub last_uptime_seconds: u32,
    pub last_panic_pc: u32,
}

/// Why the record could not be appended.
pub enum BootstatError {
    /// The ROM gave this status.
    Rom(i32),
    /// Another reason, in words.
    Other(String),
}

/// Where the last panic was, if there was one.
pub open spec fn panic_text(pc: u32) -> Seq<char> {
    if pc == 0 {
        Seq::empty()
    } else {
        ", last panic PC = 0x"@ + hex(pc as nat, 8)
    }
}

/// A record as it is printed, without the line feed.
pub open spec fn record_text(next: BootRecord) -> Seq<char> {
    "bootstat: boot #"@ + dec(next.boot_count as nat) + " reason="@ + next.last_reason@
        + " (raw 0x"@ + hex(next.last_reason_raw as nat, 2) + ") crashes="@ + dec(
        next.crash_count as nat,
    ) + " uptime="@ + dec(next.uptime_hours as nat) + "h last_run="@ + dec(
        next.last_uptime_seconds as nat,
    ) + "s"@ + panic_text(next.last_panic_pc)
}

fn push_record(out: &mut String, next: &BootRecord)
    ensures
        final(out)@ == old(out)@ + record_text(*next),
{
    out.append("bootstat: boot #");
    push_dec(out, next.boot_count as u64);
    out.append(" reason=");
    out.append(next.last_reason.as_str());
    out.append(" (raw 0x");
    push_hex(out, next.last_reason_raw as u64, 2);
    out.append(") crashes=");
    push_dec(out, next.crash_count as u64);
    out.append(" uptime=");
    push_dec(out, next.uptime_hours as u64);
    out.append("h last_run=");
    push_dec(out, next.last_uptime_seconds as u64);
    out.append("s");
    push_panic(out, next.last_panic_pc);
}

fn push_panic(out: &mut String, pc: u32)
    ensures
        final(out)@ == old(out)@ + panic_text(pc),
{
    if pc != 0 {
        out.append(", last panic PC = 0x");
        push_hex(out, pc as u64, 8);
    }
}

/// The report after the record `next` of this boot was appended, or not.
pub open spec fn report_text(appended: Result<(), BootstatError>, next: BootRecord) -> Seq<char> {
    match appended {
        Ok(()) => record_text(next) + "\n"@,
        Err(BootstatError::Rom(s)) => "bootstat: flash write failed (rom="@ + signed_dec(s as int)
            + ")\n"@,
        Err(BootstatError::Other(e)) => "bootstat: write failed: "@ + e@ + "\n"@,
    }
}

/// The report after the record `next` of this boot was appended, or not: one
/// line.
pub fn record_and_print(appended: Result<(), BootstatError>, next: &BootRecord) -> (out: String)
    ensures
        out@ == report_text(appended, *next),
{
    let mut out = String::new();
    match appended {
        Ok(()) => {
            push_record(&mut out, next);
            out.append("\n");
        },
        Err(BootstatError::Rom(s)) => {
            out.append("bootstat: flash write failed (rom=");
            push_signed(&mut out, s);
            out.append(")\n");
        },
        Err(BootstatError::Other(e)) => {
            out.append("bootstat: write failed: ");
            out.append(e.as_str());
            out.append("\n");
        },
    }
    out
}

/// History and statistics agree on what is a tampering, a power-on, a brownout
/// and an unknown cause, so that a query over both sees one signal.
pub proof fn law_reports_agree(cause: Cause)
    ensures
        reason_of(cause) == ResetReason::Intrusion <==> boot_history_report::reason_of(cause)
            == BootReason::Intrusion,
        reason_of(cause) == ResetReason::PowerOn <==> boot_history_report::reason_of(cause)
            == BootReason::PowerOn,
        reason_of(cause) == ResetReason::Brownout <==> boot_history_report::reason_of(cause)
            == BootReason::BrownoutReset,
        reason_of(cause) == ResetReason::Unknown <==> boot_history_report::reason_of(cause)
            == BootReason::Unknown,
        boot_history_report::reason_of(cause) == BootReason::WatchdogReset ==> reason_of(cause)
            == ResetReason::WatchdogTimer,
{
}

/// No reset cause by itself is taken for a crash: that takes a crash dump.
pub proof fn law_crash_takes_a_dump(cause: Cause)
    ensures
        reason_of(cause) != ResetReason::PanicReset,
        boot_history_report::reason_of(cause) != BootReason::CrashRecovery,
{
}

/// `s` holds no line feed.
pub open spec fn within_line(s: Seq<char>) -> bool {
    forall|i: int| 0 <= i < s.len() ==> #[trigger] s[i] != '\n'
}

proof fn lemma_joined_within_line(a: Seq<char>, b: Seq<char>)
    requires
        within_line(a),
        within_line(b),
    ensures
        within_line(a + b),
{
    assert forall|i: int| 0 <= i < (a + b).len() implies #[trigger] (a + b)[i] != '\n' by {
        if i < a.len() {
            assert(a[i] != '\n');
        } else {
            assert(b[i - a.len()] != '\n');
        }
    }
}

proof fn lemma_number_within_line(n: nat, width: int)
    ensures
        within_line(dec(n)),
        within_line(hex(n, width)),
{
    assert forall|i: int| 0 <= i < dec(n).len() implies #[trigger] dec(n)[i] != '\n' by {
        law_digits_are_digits(n, 10, i);
    }
    assert forall|i: int| 0 <= i < digits(n, 16).len() implies #[trigger] digits(n, 16)[i]
        != '\n' by {
        law_digits_are_digits(n, 16, i);
    }
    lemma_joined_within_line(run_of('0', width - digits(n, 16).len()), digits(n, 16));
}

/// A report of success is quiet: one line, provided that the reason fits on
/// one.
pub proof fn law_success_is_one_line(next: BootRecord)
    requires
        within_line(next.last_reason@),
    ensures
        within_line(record_text(next)),
{
    reveal_strlit("bootstat: boot #");
    reveal_strlit(" reason=");
    reveal_strlit(" (raw 0x");
    reveal_strlit(") crashes=");
    reveal_strlit(" uptime=");
    reveal_strlit("h last_run=");
    reveal_strlit("s");
    reveal_strlit(", last panic PC = 0x");
    lemma_number_within_line(next.boot_count as nat, 0);
    lemma_number_within_line(next.last_reason_raw as nat, 2);
    lemma_number_within_line(next.crash_count as nat, 0);
    lemma_number_within_line(next.uptime_hours as nat, 0);
    lemma_number_within_line(next.last_uptime_seconds as nat, 0);
    lemma_number_within_line(next.last_panic_pc as nat, 8);
    let t1 = "bootstat: boot #"@ + dec(next.boot_count as nat);
    lemma_joined_within_line("bootstat: boot #"@, dec(next.boot_count as nat));
    let t2 = t1 + " reason="@;
    lemma_joined_within_line(t1, " reason="@);
    let t3 = t2 + next.last_reason@;
    lemma_joined_within_line(t2, next.last_reason@);
    let t4 = t3 + " (raw 0x"@;
    lemma_joined_within_line(t3, " (raw 0x"@);
    let t5 = t4 + hex(next.last_reason_raw as nat, 2);
    lemma_joined_within_line(t4, hex(next.last_reason_raw as nat, 2));
    let t6 = t5 + ") crashes="@;
    lemma_joined_within_line(t5, ") crashes="@);
    let t7 = t6 + dec(next.crash_count as nat);
    lemma_joined_within_line(t6, dec(next.crash_count as nat));
    let t8 = t7 + " uptime="@;
    lemma_joined_within_line(t7, " uptime="@);
    let t9 = t8 + dec(next.uptime_hours as nat);
    lemma_joined_within_line(t8, dec(next.uptime_hours as nat));
    let t10 = t9 + "h last_run="@;
    lemma_joined_within_line(t9, "h last_run="@);
    let t11 = t10 + dec(next.last_uptime_seconds as nat);
    lemma_joined_within_line(t10, dec(next.last_uptime_seconds as nat));
    lemma_joined_within_line(t11, "s"@);
    lemma_joined_within_line(", last panic PC = 0x"@, hex(next.last_panic_pc as nat, 8));
    lemma_joined_within_line(t11 + "s"@, panic_text(next.last_panic_pc));
}

} // verus!
