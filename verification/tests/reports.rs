use mini_bootloader::boot_history_report as history;
use mini_bootloader::boot_history_report::{BootReason, Entry, HistoryError, NewEntry};
use mini_bootloader::bootstat_report as bootstat;
use mini_bootloader::bootstat_report::{BootEvent, BootRecord, BootstatError, ResetReason};
use mini_bootloader::crashdump_report as crashdump;
use mini_bootloader::crashdump_report::{CrashDump, CrashReason};
use mini_bootloader::gpio;
use mini_bootloader::gpio::Pull;
use mini_bootloader::reset_cause::Cause;

const CAUSES: [Cause; 18] = [
    Cause::PowerOn,
    Cause::UsbUartChip,
    Cause::UsbJtagChip,
    Cause::HpJtag,
    Cause::DigitalSystemSoftware,
    Cause::HpCoreSoftware,
    Cause::PmuHpSystemPowerDown,
    Cause::HpCoreLockup,
    Cause::HpWatchdogSystem,
    Cause::LpWatchdogSystem,
    Cause::HpWatchdogCore,
    Cause::LpWatchdogCore,
    Cause::LpWatchdogChip,
    Cause::SuperWatchdog,
    Cause::BrownOut,
    Cause::Glitch,
    Cause::EfuseCrc,
    Cause::Unknown(0x3F),
];

fn dump(message: &str, tail: &[u8]) -> CrashDump {
    let mut registers = [0u32; 31];
    for (i, r) in registers.iter_mut().enumerate() {
        *r = 0x1000 + i as u32;
    }
    CrashDump {
        timestamp_us: 1234567890123,
        reason_tag: 1,
        reason: CrashReason::Panic,
        boot_count: 7,
        mcause: 5,
        mepc: 0x4FF5_0010,
        mtval: 0xDEAD_BEEF,
        mstatus: 0x1880,
        registers,
        message: message.to_string(),
        uart_tail: tail.to_vec(),
    }
}

#[test]
fn no_dump_prints_nothing() {
    assert_eq!(crashdump::print_if_present(None, 0x10000), "");
}

#[test]
fn dump_that_does_not_decode_is_reported() {
    assert_eq!(
        crashdump::print_if_present(Some(Err("bad crc".to_string())), 0x10000),
        "crashdump: magic OK at 0x10000 but decode failed: bad crc\n"
    );
}

#[test]
fn dump_is_printed_in_full() {
    let out = crashdump::print_if_present(Some(Ok(dump("oops", b"a\r\n\tb\x1b"))), 0x10000);
    let expected = "
=== crashdump from previous boot ===
  partition    : 0x10000
  timestamp_us : 1234567890123
  reason_tag   : 1 (panic)
  boot_count   : 7
  mcause       : 0x00000005 (exception: load access fault)
  mepc         : 0x4FF50010
  mtval        : 0xDEADBEEF
  mstatus      : 0x00001880
  message      : \"oops\"
  registers (x1..x31):
    x1 =0x00001000 x2 =0x00001001 x3 =0x00001002 x4 =0x00001003
    x5 =0x00001004 x6 =0x00001005 x7 =0x00001006 x8 =0x00001007
    x9 =0x00001008 x10=0x00001009 x11=0x0000100A x12=0x0000100B
    x13=0x0000100C x14=0x0000100D x15=0x0000100E x16=0x0000100F
    x17=0x00001010 x18=0x00001011 x19=0x00001012 x20=0x00001013
    x21=0x00001014 x22=0x00001015 x23=0x00001016 x24=0x00001017
    x25=0x00001018 x26=0x00001019 x27=0x0000101A x28=0x0000101B
    x29=0x0000101C x30=0x0000101D x31=0x0000101E
  uart tail    : 6 bytes
  ----- BEGIN UART TAIL -----
a
    b\\x1B
  ----- END UART TAIL -----
=== end crashdump ===
note: app should forward the dump and call p4_crashdump::erase(0x10000) when done
";
    assert_eq!(out, expected);
}

#[test]
fn dump_without_message_and_tail_is_shorter() {
    let out = crashdump::print_if_present(Some(Ok(dump("", b""))), 0x500);
    assert!(!out.contains("message"));
    assert!(out.contains("  uart tail    : 0 bytes\n=== end crashdump ===\n"));
    assert!(out.contains("  partition    : 0x00500\n"));
}

#[test]
fn log_bytes_are_escaped() {
    let all: Vec<u8> = (0..=255).collect();
    let mut out = String::new();
    crashdump::push_escaped(&mut out, &all);
    assert!(out.chars().all(|c| c == '\n' || (' '..='~').contains(&c)));
    assert!(out.starts_with("\\x00\\x01"));
    assert!(out.ends_with("\\xFE\\xFF"));
    assert!(out.contains("\\x08    \n\\x0B\\x0C\\x0E"));
}

#[test]
fn crash_reasons_have_names() {
    let names: Vec<&str> = [
        CrashReason::Panic,
        CrashReason::Trap,
        CrashReason::Watchdog,
        CrashReason::Brownout,
        CrashReason::Other,
        CrashReason::Unknown,
    ]
    .into_iter()
    .map(crashdump::reason_name)
    .collect();
    assert_eq!(names, vec!["panic", "trap", "watchdog", "brownout", "other", "unknown"]);
}

#[test]
fn trap_causes_have_names() {
    let name = |v: u32| {
        let mut out = String::new();
        crashdump::push_mcause(&mut out, v);
        out
    };
    assert_eq!(name(0), "exception: instr addr misaligned");
    assert_eq!(name(2), "exception: illegal instruction");
    assert_eq!(name(10), "exception: exception");
    assert_eq!(name(11), "exception: ecall from M-mode");
    assert_eq!(name(15), "exception: store/AMO page fault");
    assert_eq!(name(0x7FFF_FFFF), "exception: exception");
    assert_eq!(name(0x8000_0000), "interrupt: platform/clic intr");
    assert_eq!(name(0x8000_0003), "interrupt: machine software intr");
    assert_eq!(name(0x8000_0007), "interrupt: machine timer intr");
    assert_eq!(name(0x8000_000B), "interrupt: machine external intr");
    assert_eq!(name(0xFFFF_FFFF), "interrupt: platform/clic intr");
}

#[test]
fn history_reason_follows_the_cause() {
    let reasons: Vec<BootReason> =
        CAUSES.iter().map(|c| history::map_cause_to_reason(*c)).collect();
    assert_eq!(
        reasons,
        vec![
            BootReason::PowerOn,
            BootReason::ExternalReset,
            BootReason::ExternalReset,
            BootReason::ExternalReset,
            BootReason::SoftwareReset,
            BootReason::SoftwareReset,
            BootReason::SoftwareReset,
            BootReason::SoftwareReset,
            BootReason::WatchdogReset,
            BootReason::WatchdogReset,
            BootReason::WatchdogReset,
            BootReason::WatchdogReset,
            BootReason::WatchdogReset,
            BootReason::WatchdogReset,
            BootReason::BrownoutReset,
            BootReason::Intrusion,
            BootReason::Intrusion,
            BootReason::Unknown,
        ]
    );
}

#[test]
fn bootstat_reason_follows_the_cause() {
    let reasons: Vec<ResetReason> =
        CAUSES.iter().map(|c| bootstat::map_cause_to_reason(*c)).collect();
    assert_eq!(
        reasons,
        vec![
            ResetReason::PowerOn,
            ResetReason::ExternalReset,
            ResetReason::ExternalReset,
            ResetReason::JtagReset,
            ResetReason::SoftwareReset,
            ResetReason::SoftwareReset,
            ResetReason::DeepSleepWake,
            ResetReason::WatchdogTimer,
            ResetReason::WatchdogTimer,
            ResetReason::WatchdogTimer,
            ResetReason::WatchdogTimer,
            ResetReason::WatchdogTimer,
            ResetReason::WatchdogTimer,
            ResetReason::WatchdogTimer,
            ResetReason::Brownout,
            ResetReason::Intrusion,
            ResetReason::Intrusion,
            ResetReason::Unknown,
        ]
    );
}

#[test]
fn both_reports_tell_the_same_tampering() {
    for cause in CAUSES {
        let tampered = cause == Cause::Glitch || cause == Cause::EfuseCrc;
        assert_eq!(bootstat::map_cause_to_reason(cause) == ResetReason::Intrusion, tampered);
        assert_eq!(history::map_cause_to_reason(cause) == BootReason::Intrusion, tampered);
    }
}

#[test]
fn crash_dump_trumps_the_cause() {
    for cause in CAUSES {
        assert_eq!(
            history::entry_for(cause, true),
            NewEntry {
                timestamp_us: 0,
                previous_uptime_us: 0,
                reason: BootReason::CrashRecovery
            }
        );
        assert_eq!(history::entry_for(cause, false).reason, history::map_cause_to_reason(cause));
        assert_eq!(
            bootstat::event_for(cause, 0x0C, true, 99),
            BootEvent { reason: ResetReason::PanicReset, raw: 0x0C, uptime_seconds: 99 }
        );
        assert_eq!(
            bootstat::event_for(cause, 3, false, 0).reason,
            bootstat::map_cause_to_reason(cause)
        );
    }
}

fn entry(seq: u32, kind: Option<BootReason>) -> Entry {
    Entry { seq, timestamp_us: 12, previous_uptime_us: 3456, reason: 4, kind }
}

#[test]
fn history_prints_the_latest_entries() {
    let entries: Vec<Entry> =
        (0..7).map(|i| entry(107 - i, Some(BootReason::WatchdogReset))).collect();
    let out = history::record_and_print(Ok(()), &entries);
    let lines: Vec<&str> = out.lines().collect();
    assert_eq!(lines[0], "boot-history: appended seq #107 (now 7 entries)");
    assert_eq!(lines[1], "boot-history: last 5 of 7 entries:");
    assert_eq!(
        lines[2],
        "  seq=  107  ts_us=              12  prev_uptime_us=         3456  reason=4 (watchdog)"
    );
    assert_eq!(lines.len(), 7);
    assert!(lines[6].starts_with("  seq=  103  "));
    assert!(out.ends_with("\n"));
}

#[test]
fn history_prints_what_there_is() {
    let out = history::record_and_print(Ok(()), &[entry(1, None)]);
    assert_eq!(
        out,
        "boot-history: appended seq #1 (now 1 entries)\nboot-history: last 1 of 1 entries:\n  \
         seq=    1  ts_us=              12  prev_uptime_us=         3456  reason=4 (?)\n"
    );
    assert_eq!(
        history::record_and_print(Ok(()), &[]),
        "boot-history: appended seq #0 (now 0 entries)\n"
    );
}

#[test]
fn history_write_failures_are_reported() {
    assert_eq!(
        history::record_and_print(Err(HistoryError::Rom(-3)), &[entry(1, None)]),
        "boot-history: flash write failed (rom=-3)\n"
    );
    assert_eq!(
        history::record_and_print(Err(HistoryError::Other("unaligned".to_string())), &[]),
        "boot-history: write failed: unaligned\n"
    );
}

#[test]
fn history_reasons_have_names() {
    let names: Vec<&str> = [
        BootReason::Unknown,
        BootReason::PowerOn,
        BootReason::ExternalReset,
        BootReason::SoftwareReset,
        BootReason::WatchdogReset,
        BootReason::BrownoutReset,
        BootReason::DeepSleepWake,
        BootReason::CrashRecovery,
        BootReason::Intrusion,
    ]
    .into_iter()
    .map(|r| history::reason_name(Some(r)))
    .collect();
    assert_eq!(
        names,
        vec![
            "unknown",
            "power-on",
            "external",
            "software",
            "watchdog",
            "brownout",
            "deep-sleep-wake",
            "crash-recovery",
            "intrusion",
        ]
    );
    assert_eq!(history::reason_name(None), "?");
}

fn boot_record(last_panic_pc: u32) -> BootRecord {
    BootRecord {
        boot_count: 42,
        last_reason: "watchdog".to_string(),
        last_reason_raw: 0x7,
        crash_count: 3,
        uptime_hours: 100,
        last_uptime_seconds: 3599,
        last_panic_pc,
    }
}

#[test]
fn bootstat_prints_one_line() {
    let line = "bootstat: boot #42 reason=watchdog (raw 0x07) crashes=3 uptime=100h last_run=3599s";
    assert_eq!(bootstat::record_and_print(Ok(()), &boot_record(0)), format!("{}\n", line));
    assert_eq!(
        bootstat::record_and_print(Ok(()), &boot_record(0x4FF5_1234)),
        format!("{}, last panic PC = 0x4FF51234\n", line)
    );
}

#[test]
fn bootstat_write_failures_are_reported() {
    assert_eq!(
        bootstat::record_and_print(Err(BootstatError::Rom(1)), &boot_record(9)),
        "bootstat: flash write failed (rom=1)\n"
    );
    assert_eq!(
        bootstat::record_and_print(Err(BootstatError::Other("full".to_string())), &boot_record(9)),
        "bootstat: write failed: full\n"
    );
}

#[test]
fn pad_becomes_an_input() {
    let (off, on) = gpio::configure_input(35, Pull::Up);
    assert_eq!(off.addr, 0x500E_2024);
    assert_eq!(off.apply(0xFFFF_FFFF), !(1 << 3));
    assert_eq!(on.addr, 0x500E_1004 + 4 * 35);
    assert_eq!(on.apply(0), 0x1300);
    assert_eq!(on.apply(0xFFFF_FFFF), 0xFFFF_9F7F);
    assert_eq!(on.apply(on.apply(0x1234_5678)), on.apply(0x1234_5678));

    let (off, on) = gpio::configure_input(0, Pull::Down);
    assert_eq!(off.addr, 0x500E_2020);
    assert_eq!(off.apply(0x3), 0x2);
    assert_eq!(on.apply(0), 0x1280);
    assert_eq!(gpio::configure_input(56, Pull::Floating).1.apply(0x7380), 0x1200);
}

#[test]
fn pad_level_is_its_bit() {
    assert_eq!(gpio::input_register(31), 0x500E_2044);
    assert_eq!(gpio::input_register(32), 0x500E_2048);
    assert!(gpio::read(31, 0x8000_0000));
    assert!(!gpio::read(30, 0x8000_0000));
    assert!(gpio::read(32, 1));
    assert!(!gpio::read(56, !(1 << 24)));
}
