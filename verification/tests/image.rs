use mini_bootloader::app;
use mini_bootloader::app::{AppLoadError, Handover, ImageHeader, LoadStep, SizeStep};
use mini_bootloader::boot;
use mini_bootloader::boot::{BootStep, HaltReason, LaunchStep, WDT_TIMEOUT_MS};
use mini_bootloader::boot_log;
use mini_bootloader::flash::FlashError;
use mini_bootloader::partition::PartitionEntry;
use mini_bootloader::slot_select::{SelectionOutcome, Slot, SlotSelectError};
use mini_bootloader::verify;
use mini_bootloader::verify::{VerifyError, VerifyStep};

const BASE: u32 = 0x20000;

/// An image with these segments, and its digest where `hashed`.
fn image(hashed: bool, segments: &[(u32, Vec<u8>)]) -> Vec<u8> {
    let mut b = vec![0u8; 24];
    b[0] = 0xE9;
    b[1] = segments.len() as u8;
    b[4..8].copy_from_slice(&0x4FF5_0000u32.to_le_bytes());
    b[12..14].copy_from_slice(&18u16.to_le_bytes());
    b[23] = hashed as u8;
    for (addr, data) in segments {
        b.extend_from_slice(&addr.to_le_bytes());
        b.extend_from_slice(&(data.len() as u32).to_le_bytes());
        b.extend_from_slice(data);
    }
    b.push(0);
    while b.len() % 16 != 0 {
        b.push(0);
    }
    if hashed {
        let digest = digest_of(&b);
        b.extend_from_slice(&digest);
    }
    b
}

fn digest_of(data: &[u8]) -> [u8; 32] {
    let mut hasher = <sha2::Sha256 as sha2::Digest>::new();
    sha2::Digest::update(&mut hasher, data);
    sha2::Digest::finalize(hasher).into()
}

struct Flash {
    bytes: Vec<u8>,
    broken_at: Option<u32>,
}

impl Flash {
    fn with(image: &[u8]) -> Flash {
        Flash { bytes: image.to_vec(), broken_at: None }
    }

    fn read(&self, at: u32, out: &mut [u8]) -> Result<(), FlashError> {
        if self.broken_at == Some(at) {
            return Err(FlashError::Rom(3));
        }
        for (i, b) in out.iter_mut().enumerate() {
            *b = self.bytes.get((at - BASE) as usize + i).copied().unwrap_or(0xFF);
        }
        Ok(())
    }

    fn array<const N: usize>(&self, at: u32) -> Result<[u8; N], FlashError> {
        let mut b = [0u8; N];
        self.read(at, &mut b)?;
        Ok(b)
    }
}

fn header_at(flash: &Flash) -> ImageHeader {
    app::read_header(flash.array(BASE)).unwrap()
}

fn run_size(flash: &Flash) -> Result<u32, AppLoadError> {
    let mut step = app::compute_image_total_size(BASE, &header_at(flash));
    loop {
        step = match step {
            SizeStep::ReadSegmentHeader { at, walk } => walk.resume(flash.array(at)),
            SizeStep::Done(r) => return r,
        };
    }
}

fn run_verify(flash: &Flash) -> (Result<[u8; 32], VerifyError>, Vec<usize>) {
    let mut chunks = Vec::new();
    let mut step = verify::verify_app_sha256(BASE, &header_at(flash));
    loop {
        step = match step {
            VerifyStep::ReadSegmentHeader { at, walk } => walk.resume(flash.array(at)),
            VerifyStep::ReadChunk { at, len, hash } => {
                chunks.push(len);
                // What lies behind the part that was asked for must not count.
                let mut chunk = [0x5Au8; 1024];
                match flash.read(at, &mut chunk[..len]) {
                    Ok(()) => hash.resume(Ok(&chunk)),
                    Err(e) => hash.resume(Err(e)),
                }
            }
            VerifyStep::ReadDigest { at, compare } => compare.resume(flash.array(at)),
            VerifyStep::Done(r) => return (r, chunks),
        };
    }
}

type Copied = Vec<(usize, u32, Vec<u8>)>;

fn run_load(flash: &Flash) -> (Result<u32, AppLoadError>, Copied) {
    let mut copied = Vec::new();
    let mut index = 0;
    let mut step = app::load_segments(BASE, &header_at(flash));
    loop {
        step = match step {
            LoadStep::ReadSegmentHeader { at, walk } => walk.resume(flash.array(at)),
            LoadStep::Segment { index: i, segment, .. } => {
                index = i;
                segment.begin()
            }
            LoadStep::Copy { request, copy } => {
                let mut data = vec![0u8; request.len as usize];
                match flash.read(request.target, &mut data) {
                    Ok(()) => {
                        copied.push((index, request.dest as u32, data));
                        copy.resume(0)
                    }
                    Err(FlashError::Rom(status)) => copy.resume(status),
                    Err(FlashError::Unaligned) => unreachable!(),
                }
            }
            LoadStep::Done(r) => return (r, copied),
        };
    }
}

enum End {
    Jump(u32, Option<[u8; 32]>),
    Halt(HaltReason),
}

fn part_at(offset: u32) -> PartitionEntry {
    PartitionEntry { kind: 0, subtype: 0x10, offset, size: 0x10_0000, label: *b"ota_0\0\0\0\0\0\0\0\0\0\0\0" }
}

fn run_boot(flash: &Flash) -> (End, Copied) {
    let (end, copied, _) = run_boot_aloud(flash);
    (end, copied)
}

/// Boots, and gives what is printed too.
fn run_boot_aloud(flash: &Flash) -> (End, Copied, String) {
    let mut printed = String::new();
    let mut copied = Vec::new();
    let mut accepted = None;
    let mut index = 0;
    let mut step = boot::boot(Ok((part_at(BASE), SelectionOutcome::OtaStable(Slot::A))));
    loop {
        printed.push_str(&boot_log::step_lines(&step));
        step = match step {
            BootStep::ReadHeader { at, next } => next.resume(flash.array(at)),
            BootStep::HeaderRead { header, next } => {
                assert_eq!(header.magic, 0xE9);
                next.begin()
            }
            BootStep::ReadSegmentHeader { at, next } => next.resume(flash.array(at)),
            BootStep::ReadChunk { at, len, next } => {
                let mut chunk = [0u8; 1024];
                match flash.read(at, &mut chunk[..len]) {
                    Ok(()) => next.resume(Ok(&chunk)),
                    Err(e) => next.resume(Err(e)),
                }
            }
            BootStep::ReadDigest { at, next } => next.resume(flash.array(at)),
            BootStep::Checked { digest, next } => {
                accepted = digest;
                next.begin()
            }
            BootStep::ReadLoadHeader { at, next } => next.resume(flash.array(at)),
            BootStep::Segment { index: i, next, .. } => {
                index = i;
                next.begin()
            }
            BootStep::Copy { request, next } => {
                let mut data = vec![0u8; request.len as usize];
                flash.read(request.target, &mut data).unwrap();
                copied.push((index, request.dest as u32, data));
                next.resume(0)
            }
            BootStep::Jump(launch) => {
                let entry_addr = launch.entry_addr();
                assert_eq!(
                    boot::launch_steps(&launch),
                    [
                        LaunchStep::DrainConsole,
                        LaunchStep::ArmWatchdog { timeout_ms: 30_000 },
                        LaunchStep::HandOver(Handover::WriteBack { map: 0x30 }),
                        LaunchStep::HandOver(Handover::Invalidate { map: 0x23 }),
                        LaunchStep::HandOver(Handover::FenceInstructions),
                        LaunchStep::HandOver(Handover::Jump { entry_addr }),
                    ]
                );
                return (End::Jump(entry_addr, accepted), copied, printed);
            }
            BootStep::Heartbeat(reason) => return (End::Halt(reason), copied, printed),
        };
    }
}

fn small() -> Vec<(u32, Vec<u8>)> {
    vec![(0x4FF5_0000, vec![1, 2, 3, 4, 5, 6, 7, 8])]
}

fn large() -> Vec<(u32, Vec<u8>)> {
    let data = |n: usize, k: usize| (0..n).map(|i| (i * k) as u8).collect::<Vec<u8>>();
    vec![
        (0x4FF5_0000, data(1500, 7)),
        (0x4800_0000, data(0, 1)),
        (0x4FF6_0000, data(2048, 13)),
    ]
}

#[test]
fn header_decodes_every_field() {
    let flash = Flash::with(&image(true, &small()));
    let h = header_at(&flash);
    assert_eq!(h.magic, 0xE9);
    assert_eq!(h.segment_count, 1);
    assert_eq!(h.entry_addr, 0x4FF5_0000);
    assert_eq!(h.chip_id, 18);
    assert!(h.hash_appended);
}

#[test]
fn header_with_bad_magic_is_refused() {
    let blank = Flash::with(&[]);
    assert!(matches!(app::read_header(blank.array(BASE)), Err(AppLoadError::BadMagic(0xFF))));
    assert!(matches!(
        app::read_header(Err(FlashError::Rom(-2))),
        Err(AppLoadError::Flash(FlashError::Rom(-2)))
    ));
}

#[test]
fn size_counts_headers_checksum_padding_and_digest() {
    // 24 + 8 + 8 + checksum, rounded up to 48, and 32 for the digest.
    assert!(matches!(run_size(&Flash::with(&image(true, &small()))), Ok(80)));
    assert!(matches!(run_size(&Flash::with(&image(false, &small()))), Ok(48)));
    // A body that ends on a multiple of 16 still gets a checksum of its own.
    let full = vec![(0u32, vec![0u8; 16])];
    assert!(matches!(run_size(&Flash::with(&image(false, &full))), Ok(64)));
    assert!(matches!(run_size(&Flash::with(&image(true, &[]))), Ok(64)));
}

#[test]
fn size_of_a_written_image_is_its_length() {
    let written = image(true, &large());
    assert_eq!(run_size(&Flash::with(&written)).unwrap() as usize, written.len());
}

#[test]
fn size_refuses_a_segment_that_is_too_large() {
    let mut b = image(true, &small());
    b[28..32].copy_from_slice(&0x80_0001u32.to_le_bytes());
    assert!(matches!(
        run_size(&Flash::with(&b)),
        Err(AppLoadError::SegmentTooLarge(0x80_0001))
    ));
    b[28..32].copy_from_slice(&0x80_0000u32.to_le_bytes());
    assert!(run_size(&Flash::with(&b)).is_ok());
}

#[test]
fn digest_of_a_known_image_is_accepted() {
    let flash = Flash::with(&image(true, &small()));
    let (r, chunks) = run_verify(&flash);
    let hex: String = r.unwrap().iter().map(|b| format!("{:02x}", b)).collect();
    assert_eq!(hex, "9c13201eca11c038388c5c6508ad9c32935e480238c9065840a0ce82920c6e4b");
    assert_eq!(chunks, vec![48]);
}

#[test]
fn long_image_is_hashed_in_chunks() {
    let written = image(true, &large());
    let (r, chunks) = run_verify(&Flash::with(&written));
    assert_eq!(r.unwrap()[..], written[written.len() - 32..]);
    // 24 + 3 * 8 + 1500 + 2048 + 1, rounded up to 3600.
    assert_eq!(chunks, vec![1024, 1024, 1024, 528]);
}

#[test]
fn one_changed_byte_is_a_mismatch() {
    let written = image(true, &large());
    let at = written.len() - 32;
    for i in [0x20, 1523, at - 1, at, written.len() - 1] {
        let mut b = written.clone();
        b[i] ^= 1;
        match run_verify(&Flash::with(&b)).0 {
            Err(VerifyError::Mismatch { expected, actual }) => {
                assert_eq!(expected[..], b[at..]);
                assert_eq!(actual, digest_of(&b[..at]));
            }
            _ => panic!("changed byte {} went unnoticed", i),
        }
    }
}

#[test]
fn verify_reports_each_failure() {
    let plain = Flash::with(&image(false, &small()));
    assert!(matches!(run_verify(&plain).0, Err(VerifyError::NoHash)));

    let mut b = image(true, &small());
    b[28..32].copy_from_slice(&0xFFFF_FFFFu32.to_le_bytes());
    assert!(matches!(
        run_verify(&Flash::with(&b)).0,
        Err(VerifyError::TotalSize(AppLoadError::SegmentTooLarge(0xFFFF_FFFF)))
    ));

    // The segment header, the first chunk, the digest.
    let written = image(true, &small());
    for at in [BASE + 24, BASE, BASE + 48] {
        let header = header_at(&Flash::with(&written));
        let flash = Flash { bytes: written.clone(), broken_at: Some(at) };
        let mut step = verify::verify_app_sha256(BASE, &header);
        let r = loop {
            step = match step {
                VerifyStep::ReadSegmentHeader { at, walk } => walk.resume(flash.array(at)),
                VerifyStep::ReadChunk { at, hash, .. } => match flash.array::<1024>(at) {
                    Ok(chunk) => hash.resume(Ok(&chunk)),
                    Err(e) => hash.resume(Err(e)),
                },
                VerifyStep::ReadDigest { at, compare } => compare.resume(flash.array(at)),
                VerifyStep::Done(r) => break r,
            };
        };
        assert!(matches!(r, Err(VerifyError::Flash(FlashError::Rom(3)))));
    }
}

#[test]
fn verify_errors_convert() {
    assert!(matches!(
        VerifyError::from(FlashError::Unaligned),
        VerifyError::Flash(FlashError::Unaligned)
    ));
    assert!(matches!(
        VerifyError::from(AppLoadError::Flash(FlashError::Rom(1))),
        VerifyError::Flash(FlashError::Rom(1))
    ));
    assert!(matches!(
        VerifyError::from(AppLoadError::BadMagic(7)),
        VerifyError::TotalSize(AppLoadError::BadMagic(7))
    ));
}

#[test]
fn load_copies_every_segment_to_its_address() {
    let segments = large();
    let (r, copied) = run_load(&Flash::with(&image(true, &segments)));
    assert!(matches!(r, Ok(0x4FF5_0000)));
    let expected: Copied = segments
        .into_iter()
        .enumerate()
        .map(|(i, (addr, data))| (i, addr, data))
        .collect();
    assert_eq!(copied, expected);
}

#[test]
fn load_reports_each_failure() {
    let mut b = image(false, &small());
    b[28..32].copy_from_slice(&0x80_0004u32.to_le_bytes());
    assert!(matches!(
        run_load(&Flash::with(&b)).0,
        Err(AppLoadError::SegmentTooLarge(0x80_0004))
    ));
    b[28..32].copy_from_slice(&6u32.to_le_bytes());
    assert!(matches!(run_load(&Flash::with(&b)).0, Err(AppLoadError::UnalignedSegment(6))));

    let odd = vec![(0x4FF5_0002, vec![0u8; 4])];
    let (r, copied) = run_load(&Flash::with(&image(false, &odd)));
    assert!(matches!(r, Err(AppLoadError::Flash(FlashError::Unaligned))));
    assert!(copied.is_empty());

    for at in [BASE + 24, BASE + 32] {
        let flash = Flash { bytes: image(false, &small()), broken_at: Some(at) };
        assert!(matches!(
            run_load(&flash).0,
            Err(AppLoadError::Flash(FlashError::Rom(3)))
        ));
    }
}

#[test]
fn load_addresses_wrap_at_the_end_of_the_address_space() {
    let header = ImageHeader {
        magic: 0xE9,
        segment_count: 1,
        entry_addr: 0,
        chip_id: 18,
        hash_appended: false,
    };
    match app::load_segments(0xFFFF_FFF0, &header) {
        LoadStep::ReadSegmentHeader { at, .. } => assert_eq!(at, 8),
        _ => panic!("no segment header was asked for"),
    }
}

#[test]
fn good_image_boots_with_its_segments_in_memory() {
    let (end, copied) = run_boot(&Flash::with(&image(true, &large())));
    match end {
        End::Jump(entry, accepted) => {
            assert_eq!(entry, 0x4FF5_0000);
            assert!(accepted.is_some());
        }
        End::Halt(_) => panic!("a good image was refused"),
    }
    assert_eq!(copied.len(), 3);
    assert_eq!(copied[2], (2, 0x4FF6_0000, large()[2].1.clone()));
}

#[test]
fn boot_tells_what_it_does() {
    let (_, _, printed) = run_boot_aloud(&Flash::with(&image(true, &small())));
    assert_eq!(
        printed,
        "app header: magic=0xE9 segs=1 entry=0x4FF50000 chip=0x0012 hash=true\n\
         sha256: OK (9c13201e…920c6e4b)\n  seg0: load=0x4FF50000 len=8 (0 KB)\n\
         mini-bootloader: arming TIMG1 WDT (30000 ms) — app must feed or call \
         bootloader::wdt::disable_timg1()\nmini-bootloader: jumping to app @ 0x4FF50000\n"
    );
    let (_, _, printed) = run_boot_aloud(&Flash::with(&image(false, &[])));
    assert!(printed.contains("sha256: skipped (image declares hash_appended=0)\n"));
    let (_, _, printed) = run_boot_aloud(&Flash::with(&[]));
    assert_eq!(printed, "app::read_header ERR BadMagic(255)\n");
}

#[test]
fn image_without_digest_boots_unchecked() {
    let (end, copied) = run_boot(&Flash::with(&image(false, &small())));
    assert!(matches!(end, End::Jump(0x4FF5_0000, None)));
    assert_eq!(copied, vec![(0, 0x4FF5_0000, vec![1, 2, 3, 4, 5, 6, 7, 8])]);
}

#[test]
fn image_without_segments_boots() {
    let (end, copied) = run_boot(&Flash::with(&image(true, &[])));
    assert!(matches!(end, End::Jump(0x4FF5_0000, Some(_))));
    assert!(copied.is_empty());
}

#[test]
fn corrupt_image_halts_before_anything_is_loaded() {
    let mut b = image(true, &small());
    b[33] ^= 0x80;
    let (end, copied) = run_boot(&Flash::with(&b));
    assert!(matches!(end, End::Halt(HaltReason::Digest(VerifyError::Mismatch { .. }))));
    assert!(copied.is_empty());
}

#[test]
fn boot_halts_for_each_reason() {
    assert!(matches!(
        boot::boot(Err(SlotSelectError::NoBootableApp)),
        BootStep::Heartbeat(HaltReason::NoImage(SlotSelectError::NoBootableApp))
    ));
    assert!(matches!(
        run_boot(&Flash::with(&[])).0,
        End::Halt(HaltReason::Header(AppLoadError::BadMagic(0xFF)))
    ));
    let odd = vec![(0x4FF5_0000, vec![0u8; 5])];
    assert!(matches!(
        run_boot(&Flash::with(&image(true, &odd))).0,
        End::Halt(HaltReason::Load(AppLoadError::UnalignedSegment(5)))
    ));
    let flash = Flash { bytes: image(true, &small()), broken_at: Some(BASE + 48) };
    assert!(matches!(
        run_boot(&flash).0,
        End::Halt(HaltReason::Digest(VerifyError::Flash(FlashError::Rom(3))))
    ));
}

#[test]
fn caches_are_settled_before_the_jump() {
    assert_eq!(
        app::jump_to_entry(0x4FF5_0000),
        [
            Handover::WriteBack { map: 0x30 },
            Handover::Invalidate { map: 0x23 },
            Handover::FenceInstructions,
            Handover::Jump { entry_addr: 0x4FF5_0000 },
        ]
    );
}

#[test]
fn watchdog_gives_the_app_half_a_minute() {
    assert_eq!(WDT_TIMEOUT_MS, 30_000);
}
