use mini_bootloader::app::AppLoadError;
use mini_bootloader::boot::HaltReason;
use mini_bootloader::boot_log;
use mini_bootloader::flash::FlashError;
use mini_bootloader::partition::{PartitionEntry, PartitionError, PARTITION_TABLE_READ_LEN};
use mini_bootloader::slot_select;
use mini_bootloader::slot_select::{
    BootAction, OtaSource, PickStep, SelectionOutcome, SkipReason, Slot, SlotNames, SlotSelectError,
};
use mini_bootloader::verify::VerifyError;

/// A device: which partitions hold an image, what otadata says, and what was
/// stored.
struct Device {
    partitions: Vec<(&'static str, u8, u32)>,
    good_images: Vec<u32>,
    table_fails: bool,
    otadata: Option<u8>,
    store_works: bool,
    stored: Vec<u8>,
    printed: String,
}

impl Device {
    fn new() -> Device {
        Device {
            partitions: vec![("factory", 0, 0x2_0000), ("ota_0", 0x10, 0x12_0000), ("ota_1", 0x11, 0x22_0000)],
            good_images: vec![0x2_0000, 0x12_0000, 0x22_0000],
            table_fails: false,
            otadata: Some(0),
            store_works: true,
            stored: Vec::new(),
            printed: String::new(),
        }
    }

    fn table(&self) -> [u8; PARTITION_TABLE_READ_LEN] {
        let mut t = [0xFFu8; PARTITION_TABLE_READ_LEN];
        for (i, (label, subtype, offset)) in self.partitions.iter().enumerate() {
            let r = &mut t[i * 32..(i + 1) * 32];
            r.fill(0);
            r[0] = 0xAA;
            r[1] = 0x50;
            r[3] = *subtype;
            r[4..8].copy_from_slice(&offset.to_le_bytes());
            r[8..12].copy_from_slice(&0x10_0000u32.to_le_bytes());
            r[12..12 + label.len()].copy_from_slice(label.as_bytes());
        }
        t
    }

    fn header(&self, at: u32) -> Result<[u8; 24], FlashError> {
        let mut b = [0xFFu8; 24];
        if self.good_images.contains(&at) {
            b[0] = 0xE9;
        }
        Ok(b)
    }

    fn pick(&mut self, action: BootAction<u8>) -> Result<(u32, SelectionOutcome), SlotSelectError> {
        let names = SlotNames { a: "A".to_string(), b: "B".to_string() };
        let mut action = Some(action);
        let mut step = slot_select::pick::<u8>();
        let table = self.table();
        loop {
            step = match step {
                PickStep::LoadOtaData { at, next } => {
                    assert_eq!(at, 0xF000);
                    next.resume(self.otadata.ok_or("bad crc".to_string()))
                }
                PickStep::Select { out, source, max_attempts, next } => {
                    self.printed.push_str(&out);
                    assert_eq!(max_attempts, 3);
                    match source {
                        OtaSource::Stored(s) => assert_eq!(Some(s), self.otadata),
                        OtaSource::Fresh => assert_eq!(None, self.otadata),
                    }
                    next.resume(action.take().unwrap(), &names)
                }
                PickStep::Store { out, at, state, next } => {
                    self.printed.push_str(&out);
                    assert_eq!(at, 0xF000);
                    self.stored.push(state);
                    next.resume(if self.store_works { Ok(()) } else { Err("rom 1".to_string()) })
                }
                PickStep::ReadTable { out, at, next } => {
                    self.printed.push_str(&out);
                    assert_eq!(at, 0x8000);
                    if self.table_fails {
                        next.resume(Err(FlashError::Rom(5)))
                    } else {
                        next.resume(Ok(&table))
                    }
                }
                PickStep::ReadHeader { out, at, next } => {
                    self.printed.push_str(&out);
                    next.resume(self.header(at))
                }
                PickStep::ReadFactoryTable { out, at, next } => {
                    self.printed.push_str(&out);
                    assert_eq!(at, 0x8000);
                    if self.table_fails {
                        next.resume(Err(FlashError::Rom(5)))
                    } else {
                        next.resume(Ok(&table))
                    }
                }
                PickStep::ReadFactoryHeader { out, at, next } => {
                    self.printed.push_str(&out);
                    next.resume(self.header(at))
                }
                PickStep::Done { out, picked } => {
                    self.printed.push_str(&out);
                    return picked.map(|(p, outcome)| (p.offset, outcome));
                }
            };
        }
    }
}

#[test]
fn stable_slot_boots_and_nothing_is_stored() {
    let mut d = Device::new();
    let (offset, outcome) = d.pick(BootAction::Stable(Slot::B)).unwrap();
    assert_eq!(offset, 0x22_0000);
    assert_eq!(outcome, SelectionOutcome::OtaStable(Slot::B));
    assert!(d.stored.is_empty());
    assert_eq!(d.printed, "boot slot: ota_1 @ 0x220000 (1024 KB)\n");
}

#[test]
fn unreadable_otadata_comes_up_fresh() {
    let mut d = Device::new();
    d.otadata = None;
    let (offset, outcome) = d.pick(BootAction::Stable(Slot::A)).unwrap();
    assert_eq!(offset, 0x12_0000);
    assert_eq!(outcome, SelectionOutcome::OtaFresh);
    assert_eq!(
        d.printed,
        "otadata: decode failed (bad crc) — using fresh\nboot slot: ota_0 @ 0x120000 (1024 KB)\n"
    );
}

#[test]
fn pending_slot_is_counted_before_it_boots() {
    let mut d = Device::new();
    let action = BootAction::Pending { slot: Slot::B, attempt: 2, new_state: 77 };
    let (offset, outcome) = d.pick(action).unwrap();
    assert_eq!(offset, 0x22_0000);
    assert_eq!(outcome, SelectionOutcome::OtaPending { slot: Slot::B, attempt: 2 });
    assert_eq!(d.stored, vec![77]);
    assert_eq!(
        d.printed,
        "otadata: slot B pending, attempt 2/3\nboot slot: ota_1 @ 0x220000 (1024 KB)\n"
    );
}

#[test]
fn rollback_boots_the_stable_slot() {
    let mut d = Device::new();
    let action = BootAction::Rollback { from: Slot::B, to: Slot::A, new_state: 78 };
    let (offset, outcome) = d.pick(action).unwrap();
    assert_eq!(offset, 0x12_0000);
    assert_eq!(outcome, SelectionOutcome::OtaRollback { from: Slot::B, to: Slot::A });
    assert_eq!(d.stored, vec![78]);
    assert_eq!(
        d.printed,
        "otadata: slot B exceeded 3 attempts — rolling back to A\n\
         boot slot: ota_0 @ 0x120000 (1024 KB)\n"
    );
}

#[test]
fn failed_store_adds_a_line_and_nothing_else() {
    let action = || BootAction::Pending { slot: Slot::A, attempt: 1, new_state: 1 };
    let mut works = Device::new();
    let mut fails = Device::new();
    fails.store_works = false;
    let (offset, outcome) = fails.pick(action()).unwrap();
    assert_eq!(offset, 0x12_0000);
    assert_eq!(outcome, SelectionOutcome::OtaPending { slot: Slot::A, attempt: 1 });
    assert_eq!(works.pick(action()).unwrap(), (offset, outcome));
    let line = "otadata: store_to_flash FAILED (rom 1) — booting anyway\n";
    assert!(fails.printed.contains(line));
    assert_eq!(fails.printed.replace(line, ""), works.printed);
}

#[test]
fn blank_slot_falls_back_to_factory() {
    let mut d = Device::new();
    d.good_images = vec![0x2_0000];
    let (offset, outcome) = d.pick(BootAction::Stable(Slot::A)).unwrap();
    assert_eq!(offset, 0x2_0000);
    assert_eq!(outcome, SelectionOutcome::FactoryFallback { skipped: Slot::A });
    assert_eq!(
        d.printed,
        "slot ota_0 header invalid (BadMagic(255)) — falling back to factory\n\
         factory app: label=\"factory\" offset=0x20000 (1024 KB) — booting as fallback\n"
    );
}

#[test]
fn missing_slot_falls_back_to_factory() {
    let mut d = Device::new();
    d.partitions.retain(|p| p.0 == "factory");
    let (offset, outcome) = d.pick(BootAction::Stable(Slot::B)).unwrap();
    assert_eq!(offset, 0x2_0000);
    assert_eq!(outcome, SelectionOutcome::FactoryFallback { skipped: Slot::B });
    assert!(d.printed.starts_with(
        "slot ota_1 lookup failed (NoFactoryApp) — falling back to factory\nfactory app: "
    ));
}

#[test]
fn nothing_to_boot_is_an_error() {
    let mut d = Device::new();
    d.good_images.clear();
    assert!(matches!(d.pick(BootAction::Stable(Slot::A)), Err(SlotSelectError::NoBootableApp)));
    assert!(d.printed.ends_with("factory app header invalid: BadMagic(255)\n"));

    let mut d = Device::new();
    d.partitions.clear();
    assert!(matches!(d.pick(BootAction::Stable(Slot::A)), Err(SlotSelectError::NoBootableApp)));
}

#[test]
fn unreadable_table_is_told_apart() {
    let mut d = Device::new();
    d.table_fails = true;
    assert!(matches!(
        d.pick(BootAction::Stable(Slot::A)),
        Err(SlotSelectError::Partition(PartitionError::Flash(FlashError::Rom(5))))
    ));
    assert_eq!(
        d.printed,
        "slot ota_0 lookup failed (Flash(Rom(5))) — falling back to factory\n"
    );
}

#[test]
fn partition_errors_convert() {
    assert!(matches!(
        SlotSelectError::from(PartitionError::NoFactoryApp),
        SlotSelectError::Partition(PartitionError::NoFactoryApp)
    ));
}

fn part(label: &[u8; 16]) -> PartitionEntry {
    PartitionEntry { kind: 0, subtype: 0, offset: 0x2_0000, size: 0x10_0400, label: *label }
}

#[test]
fn log_lines_of_the_choice() {
    assert_eq!(boot_log::fresh_line("bad crc"), "otadata: decode failed (bad crc) — using fresh\n");
    let names = SlotNames { a: "A".to_string(), b: "B".to_string() };
    assert_eq!(boot_log::action_line(&BootAction::<u8>::Stable(Slot::A), &names), "");
    assert_eq!(boot_log::store_line(&Ok(())), "");
    assert_eq!(
        boot_log::slot_line(Slot::B, &part(b"ota_1\0\0\0\0\0\0\0\0\0\0\0")),
        "boot slot: ota_1 @ 0x20000 (1025 KB)\n"
    );
    assert_eq!(
        boot_log::factory_line(&part(b"fa\"ct\n\0\0\0\0\0\0\0\0\0\0")),
        "factory app: label=\"fa\\\"ct\\n\" offset=0x20000 (1025 KB) — booting as fallback\n"
    );
    let e = AppLoadError::BadMagic(0);
    assert_eq!(
        boot_log::factory_header_line(e),
        format!("factory app header invalid: {:?}\n", e)
    );
    let because = SkipReason::Lookup(PartitionError::Flash(FlashError::Unaligned));
    assert_eq!(
        boot_log::skip_line(Slot::A, because),
        "slot ota_0 lookup failed (Flash(Unaligned)) — falling back to factory\n"
    );
}

#[test]
fn log_lines_of_the_boot() {
    let header = mini_bootloader::app::ImageHeader {
        magic: 0xE9,
        segment_count: 3,
        entry_addr: 0x4FF5_0000,
        chip_id: 0x12,
        hash_appended: true,
    };
    assert_eq!(
        boot_log::header_line(&header),
        "app header: magic=0xE9 segs=3 entry=0x4FF50000 chip=0x0012 hash=true\n"
    );
    let mut digest = [0u8; 32];
    for (i, b) in digest.iter_mut().enumerate() {
        *b = 0xA0 + i as u8;
    }
    assert_eq!(boot_log::checked_line(&Some(digest)), "sha256: OK (a0a1a2a3…bcbdbebf)\n");
    assert_eq!(
        boot_log::checked_line(&None),
        "sha256: skipped (image declares hash_appended=0)\n"
    );
    assert_eq!(
        boot_log::segment_line(1, 0x4800_0000, 5000),
        "  seg1: load=0x48000000 len=5000 (4 KB)\n"
    );
    assert_eq!(
        boot_log::jump_lines(0x4FF5_0000),
        "mini-bootloader: arming TIMG1 WDT (30000 ms) — app must feed or call \
         bootloader::wdt::disable_timg1()\nmini-bootloader: jumping to app @ 0x4FF50000\n"
    );
}

#[test]
fn log_lines_of_a_halt() {
    let errors = [
        AppLoadError::Flash(FlashError::Rom(-1)),
        AppLoadError::BadMagic(7),
        AppLoadError::SegmentTooLarge(0x80_0004),
        AppLoadError::UnalignedSegment(3),
    ];
    for e in errors {
        assert_eq!(
            boot_log::halt_lines(&HaltReason::Header(e)),
            format!("app::read_header ERR {:?}\n", e)
        );
        assert_eq!(
            boot_log::halt_lines(&HaltReason::Load(e)),
            format!("app::load_segments ERR {:?}\n", e)
        );
        assert_eq!(
            boot_log::halt_lines(&HaltReason::Digest(VerifyError::TotalSize(e))),
            format!("sha256: ERR TotalSize({:?}) — refusing to boot\n", e)
        );
    }
    for e in [VerifyError::NoHash, VerifyError::Flash(FlashError::Unaligned)] {
        assert_eq!(
            boot_log::halt_lines(&HaltReason::Digest(e)),
            format!("sha256: ERR {:?} — refusing to boot\n", e)
        );
    }
    for e in [
        SlotSelectError::NoBootableApp,
        SlotSelectError::Partition(PartitionError::NoFactoryApp),
        SlotSelectError::Partition(PartitionError::Flash(FlashError::Rom(2))),
    ] {
        assert_eq!(
            boot_log::halt_lines(&HaltReason::NoImage(e)),
            format!("slot_select::pick ERR {:?}\n", e)
        );
    }
    let mismatch = VerifyError::Mismatch { expected: [0xAB; 32], actual: [0x01; 32] };
    assert_eq!(
        boot_log::halt_lines(&HaltReason::Digest(mismatch)),
        format!(
            "sha256: MISMATCH — refusing to boot\n  expected:{}\n  actual:  {}\n",
            " ab".repeat(32),
            " 01".repeat(32)
        )
    );
}
