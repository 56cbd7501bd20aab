use mini_bootloader::boot_history_report::{BootReason, Entry, NewEntry};
use mini_bootloader::boot_log;
use mini_bootloader::bootstat_report::{BootEvent, BootRecord, ResetReason};
use mini_bootloader::bring_up;
use mini_bootloader::bring_up::BringUpStep;
use mini_bootloader::reset_cause::Cause;

/// What the start of a boot is answered, and what came of it.
struct Start {
    cause: Cause,
    dump: Option<&'static str>,
    psram: Result<(u8, u8), String>,
    order: Vec<&'static str>,
    entry: Option<NewEntry>,
    event: Option<BootEvent>,
    printed: String,
}

impl Start {
    fn new(cause: Cause, dump: Option<&'static str>) -> Start {
        Start {
            cause,
            dump,
            psram: Ok((0x0D, 7)),
            order: Vec::new(),
            entry: None,
            event: None,
            printed: String::new(),
        }
    }

    fn print(&mut self, what: &'static str, out: &str) {
        self.order.push(what);
        self.printed.push_str(out);
    }

    fn run(&mut self) {
        let mut step = bring_up::start();
        loop {
            step = match step {
                BringUpStep::DisableWatchdogs { out, next } => {
                    self.print("watchdogs", &out);
                    next.resume()
                }
                BringUpStep::InitChip { next } => {
                    self.print("chip", "");
                    next.resume()
                }
                BringUpStep::ReadResetCause { out, next } => {
                    self.print("cause", &out);
                    next.resume(self.cause, 0x0C)
                }
                BringUpStep::FindCrashDump { out, at, next } => {
                    assert_eq!(at, 0x10000);
                    self.print("find dump", &out);
                    next.resume(self.dump.is_some())
                }
                BringUpStep::LoadCrashDump { at, next } => {
                    assert_eq!(at, 0x10000);
                    self.print("load dump", "");
                    next.resume(Err(self.dump.unwrap().to_string()))
                }
                BringUpStep::AppendHistory { out, at, entry, next } => {
                    assert_eq!(at, 0x12000);
                    self.print("history", &out);
                    self.entry = Some(entry);
                    let entries: [Entry; 0] = [];
                    next.resume(Ok(()), &entries)
                }
                BringUpStep::LoadUptime { out, at, next } => {
                    assert_eq!(at, 0x13000);
                    self.print("uptime", &out);
                    next.resume(99)
                }
                BringUpStep::AppendBootstat { at, event, next } => {
                    assert_eq!(at, 0x13000);
                    self.print("bootstat", "");
                    self.event = Some(event);
                    let record = BootRecord {
                        boot_count: 1,
                        last_reason: "x".to_string(),
                        last_reason_raw: event.raw,
                        crash_count: 0,
                        uptime_hours: 0,
                        last_uptime_seconds: event.uptime_seconds,
                        last_panic_pc: 0,
                    };
                    next.resume(Ok(()), &record)
                }
                BringUpStep::InitPsram { out, next } => {
                    self.print("psram", &out);
                    next.resume(self.psram.clone())
                }
                BringUpStep::Done { out } => {
                    self.print("done", &out);
                    return;
                }
            };
        }
    }
}

#[test]
fn reports_come_before_the_psram() {
    let mut s = Start::new(Cause::PowerOn, None);
    s.run();
    assert_eq!(
        s.order,
        vec![
            "watchdogs",
            "chip",
            "cause",
            "find dump",
            "history",
            "uptime",
            "bootstat",
            "psram",
            "done",
        ]
    );
    assert_eq!(
        s.printed,
        "\n=== mini-bootloader alive @ 0x4FF20000 ===\nmini-bootloader: init_phase2_full() done\n\
         reset cause: PowerOn (raw 0x0C)\nboot-history: appended seq #0 (now 0 entries)\n\
         bootstat: boot #1 reason=x (raw 0x0C) crashes=0 uptime=0h last_run=99s\n\
         psram::init() OK vendor=0x0D density=0x7 (32 MB)\n"
    );
    assert_eq!(s.entry.unwrap().reason, BootReason::PowerOn);
    assert_eq!(
        s.event.unwrap(),
        BootEvent { reason: ResetReason::PowerOn, raw: 0x0C, uptime_seconds: 99 }
    );
}

#[test]
fn crash_dump_counts_even_where_it_does_not_decode() {
    let mut s = Start::new(Cause::HpCoreSoftware, Some("bad crc"));
    s.run();
    assert!(s.order.contains(&"load dump"));
    assert!(s.printed.contains(
        "crashdump: magic OK at 0x10000 but decode failed: bad crc\nboot-history: "
    ));
    assert_eq!(s.entry.unwrap().reason, BootReason::CrashRecovery);
    assert_eq!(s.event.unwrap().reason, ResetReason::PanicReset);
}

#[test]
fn boot_goes_on_without_psram() {
    let mut s = Start::new(Cause::PowerOn, None);
    s.psram = Err("no reply".to_string());
    s.run();
    assert!(s.printed.ends_with("psram::init() FAILED: no reply (continuing)\n"));
    assert_eq!(s.order.last(), Some(&"done"));
}

#[test]
fn reset_causes_read_like_their_debug_text() {
    for cause in [
        Cause::PowerOn,
        Cause::UsbUartChip,
        Cause::UsbJtagChip,
        Cause::HpJtag,
        Cause::DigitalSystemSoftware,
        Cause::HpCoreSoftware,
        Cause::PmuHpSystemPowerDown,
        Cause::HpCoreLockup,
        Cause::HpWatchdogSystem,
        Cause::LpWatchdogSystem,
        Cause::HpWatchdogCore,
        Cause::LpWatchdogCore,
        Cause::LpWatchdogChip,
        Cause::SuperWatchdog,
        Cause::BrownOut,
        Cause::Glitch,
        Cause::EfuseCrc,
        Cause::Unknown(63),
    ] {
        assert_eq!(
            boot_log::reset_cause_line(cause, 0x3F),
            format!("reset cause: {:?} (raw 0x3F)\n", cause)
        );
    }
}
