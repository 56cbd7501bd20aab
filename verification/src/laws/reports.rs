//! The reports at the start of a boot.
use vstd::prelude::*;
use crate::boot_history_report;
use crate::boot_history_report::{entry_for, BootReason, Entry, HistoryError, NewEntry};
use crate::boot_log::{psram_line, reset_cause_line};
use crate::bootstat_report;
use crate::bootstat_report::{event_for, BootEvent, BootRecord, BootstatError, ResetReason};
use crate::bring_up;
use crate::bring_up::{
    AwaitBootstat, AwaitCause, AwaitChip, AwaitDump, AwaitHistory, AwaitPresence, AwaitPsram,
    AwaitUptime, AwaitWatchdogs, BringUpStep,
};
use crate::crashdump_report;
use crate::crashdump_report::{
    print_if_present, push_escaped, push_mcause, push_registers, CrashDump, CrashReason,
};
use crate::laws::console::{filled, hexed, lemma_numbers, signed, written};
use crate::reset_cause::Cause;

verus! {

/// Texts, one behind the other.
pub open spec fn joined(texts: Seq<Seq<char>>) -> Seq<char> {
    texts.fold_left(Seq::empty(), |front: Seq<char>, text: Seq<char>| front + text)
}

proof fn lemma_joined(texts: Seq<Seq<char>>, text: Seq<char>)
    ensures
        joined(texts.push(text)) == joined(texts) + text,
{
    assert(texts.push(text).drop_last() =~= texts);
}

/// Each reset cause goes into the history as what it is; a code that has no name
/// goes in as unknown, whatever it is.
pub proof fn law_history_reason(cause: Cause, reason: BootReason)
    requires
        call_ensures(boot_history_report::map_cause_to_reason, (cause,), reason),
    ensures
        reason is PowerOn <==> cause is PowerOn,
        reason is ExternalReset <==> cause is UsbUartChip || cause is UsbJtagChip
            || cause is HpJtag,
        reason is SoftwareReset <==> cause is DigitalSystemSoftware || cause is HpCoreSoftware
            || cause is PmuHpSystemPowerDown || cause is HpCoreLockup,
        reason is WatchdogReset <==> cause is HpWatchdogSystem || cause is LpWatchdogSystem
            || cause is HpWatchdogCore || cause is LpWatchdogCore || cause is LpWatchdogChip
            || cause is SuperWatchdog,
        reason is BrownoutReset <==> cause is BrownOut,
        reason is Intrusion <==> cause is Glitch || cause is EfuseCrc,
        reason is Unknown <==> cause is Unknown,
{
}

/// Each reset cause is counted as what it is; a code that has no name is counted
/// as unknown, whatever it is.
pub proof fn law_statistics_reason(cause: Cause, reason: ResetReason)
    requires
        call_ensures(bootstat_report::map_cause_to_reason, (cause,), reason),
    ensures
        reason is PowerOn <==> cause is PowerOn,
        reason is ExternalReset <==> cause is UsbUartChip || cause is UsbJtagChip,
        reason is JtagReset <==> cause is HpJtag,
        reason is SoftwareReset <==> cause is DigitalSystemSoftware || cause is HpCoreSoftware,
        reason is DeepSleepWake <==> cause is PmuHpSystemPowerDown,
        reason is WatchdogTimer <==> cause is HpWatchdogSystem || cause is LpWatchdogSystem
            || cause is HpWatchdogCore || cause is LpWatchdogCore || cause is LpWatchdogChip
            || cause is SuperWatchdog || cause is HpCoreLockup,
        reason is Brownout <==> cause is BrownOut,
        reason is Intrusion <==> cause is Glitch || cause is EfuseCrc,
        reason is Unknown <==> cause is Unknown,
{
}

/// A crash dump decides what is recorded of a boot, in both places; without one,
/// the reset cause does. The raw code and the uptime are recorded as they are.
pub proof fn law_crash_decides(
    cause: Cause,
    raw: u8,
    uptime: u32,
    crashed: bool,
    entry: NewEntry,
    event: BootEvent,
    history: BootReason,
    statistics: ResetReason,
)
    requires
        call_ensures(entry_for, (cause, crashed), entry),
        call_ensures(event_for, (cause, raw, crashed, uptime), event),
        call_ensures(boot_history_report::map_cause_to_reason, (cause,), history),
        call_ensures(bootstat_report::map_cause_to_reason, (cause,), statistics),
    ensures
        crashed ==> entry.reason is CrashRecovery && event.reason is PanicReset,
        !crashed ==> entry.reason == history && event.reason == statistics,
        entry.timestamp_us == 0,
        entry.previous_uptime_us == 0,
        event.raw == raw,
        event.uptime_seconds == uptime,
{
}

/// The name of a reason of the history.
pub open spec fn reason_words(kind: Option<BootReason>) -> Seq<char> {
    match kind {
        Some(BootReason::Unknown) => "unknown"@,
        Some(BootReason::PowerOn) => "power-on"@,
        Some(BootReason::ExternalReset) => "external"@,
        Some(BootReason::SoftwareReset) => "software"@,
        Some(BootReason::WatchdogReset) => "watchdog"@,
        Some(BootReason::BrownoutReset) => "brownout"@,
        Some(BootReason::DeepSleepWake) => "deep-sleep-wake"@,
        Some(BootReason::CrashRecovery) => "crash-recovery"@,
        Some(BootReason::Intrusion) => "intrusion"@,
        None => "?"@,
    }
}

/// The name of a reason for a crash.
pub open spec fn crash_words(reason: CrashReason) -> Seq<char> {
    match reason {
        CrashReason::Panic => "panic"@,
        CrashReason::Trap => "trap"@,
        CrashReason::Watchdog => "watchdog"@,
        CrashReason::Brownout => "brownout"@,
        CrashReason::Other => "other"@,
        CrashReason::Unknown => "unknown"@,
    }
}

/// Every reason has its own name.
pub proof fn law_reasons_have_names(
    kind: Option<BootReason>,
    name: &'static str,
    reason: CrashReason,
    crash_name: &'static str,
)
    requires
        call_ensures(boot_history_report::reason_name, (kind,), name),
        call_ensures(crashdump_report::reason_name, (reason,), crash_name),
    ensures
        name@ == reason_words(kind),
        crash_name@ == crash_words(reason),
{
}

/// An entry of the history, with all that it holds.
pub open spec fn entry_line(entry: Entry) -> Seq<char> {
    "  seq="@ + filled(written(entry.seq as nat, 10), 5, ' ') + "  ts_us="@ + filled(
        written(entry.timestamp_us as nat, 10),
        16,
        ' ',
    ) + "  prev_uptime_us="@ + filled(written(entry.previous_uptime_us as nat, 10), 13, ' ')
        + "  reason="@ + written(entry.reason as nat, 10) + " ("@ + reason_words(entry.kind)
        + ")\n"@
}

/// The lines of these entries.
pub open spec fn entry_lines(entries: Seq<Entry>) -> Seq<char> {
    joined(entries.map_values(|entry: Entry| entry_line(entry)))
}

proof fn lemma_entry_line(entry: Entry)
    ensures
        boot_history_report::entry_text(entry) == entry_line(entry),
{
    lemma_numbers();
}

proof fn lemma_entry_lines(entries: Seq<Entry>, n: nat)
    requires
        n <= entries.len(),
    ensures
        boot_history_report::entries_text(entries, n) == entry_lines(entries.take(n as int)),
    decreases n,
{
    let words = |entry: Entry| entry_line(entry);
    if n > 0 {
        let front = entries.take(n - 1);
        lemma_entry_lines(entries, (n - 1) as nat);
        lemma_entry_line(entries[n - 1]);
        lemma_joined(front.map_values(words), entry_line(entries[n - 1]));
        assert(entries.take(n as int).map_values(words) =~= front.map_values(words).push(
            entry_line(entries[n - 1]),
        ));
    } else {
        assert(entries.take(0).map_values(words) =~= Seq::empty());
    }
}

/// What is shown of a history: nothing of an empty one; else how many there are,
/// and the latest, all of them if there are at most five and else five.
pub open spec fn recent_lines(entries: Seq<Entry>) -> Seq<char> {
    let shown: nat = if entries.len() <= 5 {
        entries.len()
    } else {
        5
    };
    if entries.len() == 0 {
        Seq::empty()
    } else {
        "boot-history: last "@ + written(shown, 10) + " of "@ + written(entries.len(), 10)
            + " entries:\n"@ + entry_lines(entries.take(shown as int))
    }
}

proof fn lemma_recent(entries: Seq<Entry>)
    ensures
        boot_history_report::recent_text(entries) == recent_lines(entries),
{
    lemma_numbers();
    let shown: nat = if entries.len() <= 5 {
        entries.len()
    } else {
        5
    };
    lemma_entry_lines(entries, shown);
}

/// The latest entries of a history are shown, up to five of them, in order.
pub proof fn law_recent_entries_are_shown(out: &mut String, entries: &[Entry])
    requires
        call_ensures(boot_history_report::push_recent, (out, entries), ()),
    ensures
        final(out)@ == old(out)@ + recent_lines(entries@),
{
    lemma_recent(entries@);
}

/// The history reports the sequence number of the latest entry, the number of
/// entries and the latest of them; where it could not be written, it reports why.
pub proof fn law_history_is_reported(
    stored: Result<(), HistoryError>,
    entries: &[Entry],
    out: String,
)
    requires
        call_ensures(boot_history_report::record_and_print, (stored, entries), out),
    ensures
        stored is Ok && entries@.len() > 0 ==> out@ == "boot-history: appended seq #"@ + written(
            entries@[0].seq as nat,
            10,
        ) + " (now "@ + written(entries@.len(), 10) + " entries)\n"@ + recent_lines(entries@),
        stored is Ok && entries@.len() == 0 ==> out@ == "boot-history: appended seq #"@ + written(
            0,
            10,
        ) + " (now "@ + written(0, 10) + " entries)\n"@,
        stored matches Err(HistoryError::Rom(s)) ==> out@
            == "boot-history: flash write failed (rom="@ + signed(s as int) + ")\n"@,
        stored matches Err(HistoryError::Other(e)) ==> out@ == "boot-history: write failed: "@ + e@
            + "\n"@,
{
    lemma_numbers();
    lemma_recent(entries@);
}

/// The statistics report the record, the last panic only if there was one, on one
/// line; where it could not be appended, they report why.
pub proof fn law_statistics_are_reported(
    appended: Result<(), BootstatError>,
    next: BootRecord,
    out: String,
)
    requires
        call_ensures(bootstat_report::record_and_print, (appended, &next), out),
    ensures
        appended is Ok ==> out@ == "bootstat: boot #"@ + written(next.boot_count as nat, 10)
            + " reason="@ + next.last_reason@ + " (raw 0x"@ + hexed(next.last_reason_raw as nat, 2)
            + ") crashes="@ + written(next.crash_count as nat, 10) + " uptime="@ + written(
            next.uptime_hours as nat,
            10,
        ) + "h last_run="@ + written(next.last_uptime_seconds as nat, 10) + "s"@ + (
        if next.last_panic_pc == 0 {
            Seq::empty()
        } else {
            ", last panic PC = 0x"@ + hexed(next.last_panic_pc as nat, 8)
        }) + "\n"@,
        appended matches Err(BootstatError::Rom(s)) ==> out@
            == "bootstat: flash write failed (rom="@ + signed(s as int) + ")\n"@,
        appended matches Err(BootstatError::Other(e)) ==> out@ == "bootstat: write failed: "@ + e@
            + "\n"@,
{
    lemma_numbers();
}

/// What `mcause` means: with its top bit set, an interrupt of the code in the
/// other bits, else an exception of that code.
pub open spec fn mcause_words(mcause: u32) -> Seq<char> {
    let code = (mcause as int) % 0x8000_0000;
    if (mcause as int) / 0x8000_0000 == 1 {
        "interrupt: "@ + (if code == 3 {
            "machine software intr"@
        } else if code == 7 {
            "machine timer intr"@
        } else if code == 11 {
            "machine external intr"@
        } else {
            "platform/clic intr"@
        })
    } else {
        "exception: "@ + (if code == 0 {
            "instr addr misaligned"@
        } else if code == 1 {
            "instr access fault"@
        } else if code == 2 {
            "illegal instruction"@
        } else if code == 3 {
            "breakpoint"@
        } else if code == 4 {
            "load addr misaligned"@
        } else if code == 5 {
            "load access fault"@
        } else if code == 6 {
            "store/AMO addr misaligned"@
        } else if code == 7 {
            "store/AMO access fault"@
        } else if code == 8 {
            "ecall from U-mode"@
        } else if code == 9 {
            "ecall from S-mode"@
        } else if code == 11 {
            "ecall from M-mode"@
        } else if code == 12 {
            "instr page fault"@
        } else if code == 13 {
            "load page fault"@
        } else if code == 15 {
            "store/AMO page fault"@
        } else {
            "exception"@
        })
    }
}

/// `mcause` is told in words.
pub proof fn law_mcause_is_told(out: &mut String, mcause: u32)
    requires
        call_ensures(push_mcause, (out, mcause), ()),
    ensures
        final(out)@ == old(out)@ + mcause_words(mcause),
{
}

/// Register `number` with its value, its name in two columns, four to a line: the
/// first of a line is indented, the last of a line and of all ends it.
pub open spec fn register_words(number: int, value: u32) -> Seq<char> {
    (if number % 4 == 1 {
        "   "@
    } else {
        Seq::empty()
    }) + " x"@ + written(number as nat, 10) + (if number < 10 {
        seq![' ']
    } else {
        Seq::empty()
    }) + "=0x"@ + hexed(value as nat, 8) + (if number % 4 == 0 || number == 31 {
        "\n"@
    } else {
        Seq::empty()
    })
}

/// The first registers of these, from number 1 on.
pub open spec fn register_lines(regs: Seq<u32>) -> Seq<char> {
    joined(Seq::new(regs.len(), |i: int| register_words(i + 1, regs[i])))
}

proof fn lemma_register(regs: Seq<u32>, i: int)
    requires
        regs.len() == 31,
        0 <= i < 31,
    ensures
        crashdump_report::register_text(regs, i) == register_words(i + 1, regs[i]),
{
    lemma_numbers();
    let number = dec_of(i + 1);
    lemma_register_number(i + 1);
    assert(crate::text::pad_end(crate::text::dec((i + 1) as nat), 2) =~= number + (if i + 1 < 10 {
        seq![' ']
    } else {
        Seq::empty()
    }));
    assert(crashdump_report::register_text(regs, i) =~= register_words(i + 1, regs[i]));
}

/// `n` in decimal.
pub open spec fn dec_of(n: int) -> Seq<char> {
    written(n as nat, 10)
}

proof fn lemma_register_number(n: int)
    requires
        1 <= n <= 31,
    ensures
        dec_of(n).len() == if n < 10 {
            1
        } else {
            2nat
        },
{
    reveal_with_fuel(written, 3);
}

proof fn lemma_registers(regs: Seq<u32>, n: nat)
    requires
        regs.len() == 31,
        n <= 31,
    ensures
        crashdump_report::registers_text(regs, n) == register_lines(regs.take(n as int)),
    decreases n,
{
    let all = Seq::new(n, |i: int| register_words(i + 1, regs.take(n as int)[i]));
    if n > 0 {
        let front = regs.take(n - 1);
        let words = Seq::new(front.len(), |i: int| register_words(i + 1, front[i]));
        lemma_registers(regs, (n - 1) as nat);
        lemma_register(regs, n - 1);
        lemma_joined(words, register_words(n as int, regs[n - 1]));
        assert(all =~= words.push(register_words(n as int, regs[n - 1])));
    } else {
        assert(all =~= Seq::empty());
    }
    assert(all =~= Seq::new(
        regs.take(n as int).len(),
        |i: int| register_words(i + 1, regs.take(n as int)[i]),
    ));
}

/// All 31 registers are told, each with its own value.
pub proof fn law_registers_are_told(out: &mut String, regs: &[u32; 31])
    requires
        call_ensures(push_registers, (out, regs), ()),
    ensures
        final(out)@ == old(out)@ + register_lines(regs@),
{
    lemma_registers(regs@, 31);
    assert(regs@.take(31) =~= regs@);
}

/// What is shown of a byte of a log: a printable one as it is, a line feed as a
/// line feed, a tab as four spaces, a carriage return not at all, and any other
/// by its number.
pub open spec fn log_byte(b: u8) -> Seq<char> {
    if b == 10 {
        "\n"@
    } else if b == 13 {
        Seq::empty()
    } else if b == 9 {
        "    "@
    } else if 32 <= b < 127 {
        seq![b as char]
    } else {
        "\\x"@ + hexed(b as nat, 2)
    }
}

/// What is shown of a log.
pub open spec fn log_lines(bytes: Seq<u8>) -> Seq<char> {
    joined(bytes.map_values(|b: u8| log_byte(b)))
}

proof fn lemma_log(bytes: Seq<u8>)
    ensures
        crashdump_report::escaped(bytes) == log_lines(bytes),
    decreases bytes.len(),
{
    let shown = |b: u8| log_byte(b);
    if bytes.len() > 0 {
        lemma_log(bytes.drop_last());
        lemma_numbers();
        lemma_joined(bytes.drop_last().map_values(shown), log_byte(bytes.last()));
        assert(bytes.map_values(shown) =~= bytes.drop_last().map_values(shown).push(
            log_byte(bytes.last()),
        ));
    } else {
        assert(bytes.map_values(shown) =~= Seq::empty());
    }
}

/// A log is shown byte by byte, and none of its bytes is left out.
pub proof fn law_log_is_shown(out: &mut String, bytes: &[u8])
    requires
        call_ensures(push_escaped, (out, bytes), ()),
    ensures
        final(out)@ == old(out)@ + log_lines(bytes@),
{
    lemma_log(bytes@);
}

/// All that a crash dump holds.
pub open spec fn dump_lines(dump: CrashDump, at: u32) -> Seq<char> {
    "\n=== crashdump from previous boot ===\n  partition    : 0x"@ + hexed(at as nat, 5)
        + "\n  timestamp_us : "@ + written(dump.timestamp_us as nat, 10) + "\n  reason_tag   : "@
        + written(dump.reason_tag as nat, 10) + " ("@ + crash_words(dump.reason)
        + ")\n  boot_count   : "@ + written(dump.boot_count as nat, 10) + "\n"@ + (
    "  mcause       : 0x"@ + hexed(dump.mcause as nat, 8) + " ("@ + mcause_words(dump.mcause)
        + ")\n  mepc         : 0x"@ + hexed(dump.mepc as nat, 8) + "\n  mtval        : 0x"@ + hexed(
        dump.mtval as nat,
        8,
    ) + "\n  mstatus      : 0x"@ + hexed(dump.mstatus as nat, 8) + "\n"@) + (if dump.message@.len()
        == 0 {
        Seq::empty()
    } else {
        "  message      : \""@ + dump.message@ + "\"\n"@
    }) + "  registers (x1..x31):\n"@ + register_lines(dump.registers@) + ("  uart tail    : "@
        + written(dump.uart_tail@.len(), 10) + " bytes\n"@ + (if dump.uart_tail@.len() == 0 {
        Seq::empty()
    } else {
        "  ----- BEGIN UART TAIL -----\n"@ + log_lines(dump.uart_tail@)
            + "\n  ----- END UART TAIL -----\n"@
    }))
        + "=== end crashdump ===\nnote: app should forward the dump and call p4_crashdump::erase(0x"@
        + hexed(at as nat, 5) + ") when done\n"@
}

/// A crash dump is reported with all that it holds; one that does not decode is
/// reported with the reason; where there is none, nothing is reported.
pub proof fn law_crash_is_reported(
    found: Option<Result<CrashDump, String>>,
    at: u32,
    out: String,
)
    requires
        call_ensures(print_if_present, (found, at), out),
    ensures
        found is None ==> out@.len() == 0,
        found matches Some(Ok(dump)) ==> out@ == dump_lines(dump, at),
        found matches Some(Err(e)) ==> out@ == "crashdump: magic OK at 0x"@ + hexed(at as nat, 5)
            + " but decode failed: "@ + e@ + "\n"@,
{
    lemma_numbers();
    if let Some(Ok(dump)) = found {
        lemma_registers(dump.registers@, 31);
        assert(dump.registers@.take(31) =~= dump.registers@);
        lemma_log(dump.uart_tail@);
    }
}

/// A boot starts with the watchdogs, the chip and the reset cause, in this order.
pub proof fn law_boot_starts(
    first: BringUpStep,
    watchdogs: AwaitWatchdogs,
    second: BringUpStep,
    chip: AwaitChip,
    third: BringUpStep,
)
    requires
        call_ensures(bring_up::start, (), first),
        call_ensures(AwaitWatchdogs::resume, (watchdogs,), second),
        call_ensures(AwaitChip::resume, (chip,), third),
    ensures
        first matches BringUpStep::DisableWatchdogs { out, .. } && out@
            == "\n=== mini-bootloader alive @ 0x4FF20000 ===\n"@,
        second is InitChip,
        third matches BringUpStep::ReadResetCause { out, .. } && out@
            == "mini-bootloader: init_phase2_full() done\n"@,
{
}

/// The reset cause is told, and a crash dump is looked for at `0x10000`.
pub proof fn law_dump_is_looked_for(
    wait: AwaitCause,
    cause: Cause,
    raw: u8,
    step: BringUpStep,
    line: String,
)
    requires
        call_ensures(AwaitCause::resume, (wait, cause, raw), step),
        call_ensures(reset_cause_line, (cause, raw), line),
    ensures
        step matches BringUpStep::FindCrashDump { out, at, next } && {
            &&& out@ == line@
            &&& at == 0x10000
            &&& next.cause == cause
            &&& next.raw == raw
        },
{
}

/// A dump that is there is loaded from where it was found; without one, the boot
/// goes into the history at `0x12000` as one that did not crash.
pub proof fn law_dump_is_loaded(
    wait: AwaitPresence,
    present: bool,
    step: BringUpStep,
    entry_without: NewEntry,
)
    requires
        call_ensures(AwaitPresence::resume, (wait, present), step),
        call_ensures(entry_for, (wait.cause, false), entry_without),
    ensures
        present ==> (step matches BringUpStep::LoadCrashDump { at, next } && {
            &&& at == 0x10000
            &&& next.cause == wait.cause
            &&& next.raw == wait.raw
        }),
        !present ==> (step matches BringUpStep::AppendHistory { out, at, entry, next } && {
            &&& out@.len() == 0
            &&& at == 0x12000
            &&& entry == entry_without
            &&& next.cause == wait.cause
            &&& next.raw == wait.raw
            &&& !next.crashed
        }),
{
}

/// A dump that was there is reported, and the boot goes into the history as one
/// after a crash, whether or not the dump decoded.
pub proof fn law_dump_counts(
    wait: AwaitDump,
    loaded: Result<CrashDump, String>,
    step: BringUpStep,
    report: String,
)
    requires
        call_ensures(AwaitDump::resume, (wait, loaded), step),
        call_ensures(print_if_present, (Some(loaded), 0x10000u32), report),
    ensures
        step matches BringUpStep::AppendHistory { out, at, entry, next } && {
            &&& out@ == report@
            &&& at == 0x12000
            &&& entry.reason is CrashRecovery
            &&& entry.timestamp_us == 0
            &&& entry.previous_uptime_us == 0
            &&& next.cause == wait.cause
            &&& next.raw == wait.raw
            &&& next.crashed
        },
{
}

/// The history is reported, and the last uptime is looked up at `0x13000`; what is
/// known of this boot is kept.
pub proof fn law_uptime_is_looked_up(
    wait: AwaitHistory,
    stored: Result<(), HistoryError>,
    entries: &[Entry],
    step: BringUpStep,
    report: String,
)
    requires
        call_ensures(AwaitHistory::resume, (wait, stored, entries), step),
        call_ensures(boot_history_report::record_and_print, (stored, entries), report),
    ensures
        step matches BringUpStep::LoadUptime { out, at, next } && {
            &&& out@ == report@
            &&& at == 0x13000
            &&& next.cause == wait.cause
            &&& next.raw == wait.raw
            &&& next.crashed == wait.crashed
        },
{
}

/// What is known of this boot goes into the statistics at `0x13000`.
pub proof fn law_boot_is_counted(
    wait: AwaitUptime,
    uptime: u32,
    step: BringUpStep,
    expected: BootEvent,
)
    requires
        call_ensures(AwaitUptime::resume, (wait, uptime), step),
        call_ensures(event_for, (wait.cause, wait.raw, wait.crashed, uptime), expected),
    ensures
        step matches BringUpStep::AppendBootstat { at, event, .. } && {
            &&& at == 0x13000
            &&& event == expected
            &&& event.raw == wait.raw
            &&& event.uptime_seconds == uptime
            &&& wait.crashed ==> event.reason is PanicReset
        },
{
}

/// The statistics are reported, and then comes the PSRAM; the boot goes on
/// whether or not it came up.
pub proof fn law_boot_goes_on(
    wait: AwaitBootstat,
    appended: Result<(), BootstatError>,
    record: BootRecord,
    step: BringUpStep,
    report: String,
    last_wait: AwaitPsram,
    psram: Result<(u8, u8), String>,
    last: BringUpStep,
    line: String,
)
    requires
        call_ensures(AwaitBootstat::resume, (wait, appended, &record), step),
        call_ensures(bootstat_report::record_and_print, (appended, &record), report),
        call_ensures(AwaitPsram::resume, (last_wait, psram), last),
        psram matches Ok((vendor_id, density)) ==> call_ensures(
            psram_line,
            (vendor_id, density),
            line,
        ),
    ensures
        step matches BringUpStep::InitPsram { out, .. } && out@ == report@,
        last matches BringUpStep::Done { out } && out@ == match psram {
            Ok(_) => line@,
            Err(e) => "psram::init() FAILED: "@ + e@ + " (continuing)\n"@,
        },
{
}

} // verus!
