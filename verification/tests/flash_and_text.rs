use mini_bootloader::boot_log;
use mini_bootloader::bytes;
use mini_bootloader::flash;
use mini_bootloader::flash::{FlashError, RomRead};
use mini_bootloader::text;
use mini_bootloader::uart;

#[test]
fn read_rejects_unaligned_len() {
    let mut buf = [0u8; 7];
    let r = flash::read(0x8000, buf.as_mut_ptr() as usize, 7);
    assert_eq!(r, Err(FlashError::Unaligned));
}

#[test]
fn read_rejects_an_unaligned_destination() {
    assert_eq!(flash::read(0, 0x4FF5_0002, 8), Err(FlashError::Unaligned));
    // The address in flash may be anything.
    assert_eq!(
        flash::read(0x8001, 0x4FF5_0004, 8),
        Ok(RomRead { target: 0x8001, dest: 0x4FF5_0004, len: 8 })
    );
}

#[test]
fn read_into_asks_for_the_whole_array() {
    assert_eq!(
        flash::read_into::<24>(0x2_0000, 0x1000),
        Ok(RomRead { target: 0x2_0000, dest: 0x1000, len: 24 })
    );
    assert_eq!(flash::read_into::<6>(0x2_0000, 0x1000), Err(FlashError::Unaligned));
}

#[test]
fn status_of_the_rom_becomes_a_result() {
    let request = flash::read(0, 0, 4).unwrap();
    assert_eq!(request.finish(0), Ok(()));
    assert_eq!(request.finish(-1), Err(FlashError::Rom(-1)));
    assert_eq!(request.finish(7), Err(FlashError::Rom(7)));
}

#[test]
fn words_are_little_endian() {
    assert_eq!(flash::read_u32(Ok([0x78, 0x56, 0x34, 0x12])), Ok(0x1234_5678));
    assert_eq!(flash::read_u32(Err(FlashError::Rom(1))), Err(FlashError::Rom(1)));
    assert_eq!(bytes::u16_at(&[0xFF, 0xAA, 0x50], 1), 0x50AA);
    assert_eq!(bytes::u32_at(&0xDEAD_BEEFu32.to_le_bytes(), 0), 0xDEAD_BEEF);
}

#[test]
fn flash_errors_read_like_their_debug_text() {
    for e in [FlashError::Unaligned, FlashError::Rom(0), FlashError::Rom(i32::MIN)] {
        let mut out = String::from("x: ");
        flash::push_flash_error(&mut out, e);
        assert_eq!(out, format!("x: {:?}", e));
    }
}

#[test]
fn numbers_read_like_the_formatter_writes_them() {
    for n in [0u64, 1, 9, 10, 15, 16, 99, 255, 4096, 65535, 1 << 32, u64::MAX] {
        let mut out = String::new();
        text::push_dec(&mut out, n);
        out.push(' ');
        text::push_hex(&mut out, n, 8);
        out.push(' ');
        text::push_hex(&mut out, n, 1);
        out.push(' ');
        text::push_right(&mut out, n, 5);
        out.push(' ');
        text::push_left(&mut out, n, 2);
        assert_eq!(out, format!("{} {:08X} {:X} {:>5} {:<2}", n, n, n, n, n));
    }
    for v in [0, 7, -7, i32::MAX, i32::MIN] {
        let mut out = String::new();
        text::push_signed(&mut out, v);
        assert_eq!(out, format!("{}", v));
    }
    for b in 0..=255u8 {
        let mut out = String::new();
        text::push_low_hex(&mut out, b);
        assert_eq!(out, format!("{:02x}", b));
    }
    let mut out = String::new();
    text::push_bool(&mut out, true);
    text::push_bool(&mut out, false);
    text::push_run(&mut out, '=', 3);
    assert_eq!(out, "truefalse===");
}

#[test]
fn text_ends_at_the_first_nul() {
    assert_eq!(text::nul_position(b"abc\0d"), 3);
    assert_eq!(text::nul_position(b"abc"), 3);
    assert_eq!(text::nul_position(b""), 0);
    assert_eq!(text::decode_or(b"abc\0\xFF", "?"), "abc");
    assert_eq!(text::decode_or(b"\xFFabc", "?"), "?");
    assert_eq!(text::decode_or("h\u{fc}".as_bytes(), "?"), "h\u{fc}");
    assert!(text::same_text("ota_0", "ota_0"));
    assert!(!text::same_text("ota_0", "ota_1"));
    assert!(!text::same_bytes(b"ab", b"abc"));
}

#[test]
fn fifo_counts_come_from_the_status_word() {
    assert_eq!(uart::txfifo_count(0xAB7F_00CD), 0x7F);
    assert_eq!(uart::rxfifo_count(0xAB7F_01CD), 0xCD);
    assert!(uart::can_send(127 << 16));
    assert!(!uart::can_send(128 << 16));
    assert!(!uart::can_send(255 << 16));
    assert!(uart::is_drained(0xFF00_FFFF));
    assert!(!uart::is_drained(1 << 16));
    assert!(uart::can_receive(1));
    assert!(!uart::can_receive(0xFFFF_FF00));
    assert_eq!(uart::received(0x1234_5641), 0x41);
}

#[test]
fn line_feeds_get_carriage_returns() {
    assert_eq!(uart::wire_bytes("a\nb\n\n"), b"a\r\nb\r\n\r\n");
    assert_eq!(uart::wire_bytes("plain"), b"plain");
    assert_eq!(uart::wire_bytes(""), b"");
    assert_eq!(uart::wire_bytes("\u{2026}\n"), "\u{2026}\r\n".as_bytes());
}

#[test]
fn heartbeat_counts_and_starts_over() {
    assert_eq!(boot_log::heartbeat(0), ("bl-tick 0\n".to_string(), 1));
    assert_eq!(boot_log::heartbeat(41), ("bl-tick 41\n".to_string(), 42));
    assert_eq!(boot_log::heartbeat(u32::MAX), ("bl-tick 4294967295\n".to_string(), 0));
}

#[test]
fn psram_size_follows_the_density_code() {
    let sizes: Vec<usize> = (0..10).map(boot_log::psram_megabytes).collect();
    assert_eq!(sizes, vec![0, 4, 0, 8, 0, 16, 64, 32, 0, 0]);
    assert_eq!(
        boot_log::psram_line(0x0D, 7),
        "psram::init() OK vendor=0x0D density=0x7 (32 MB)\n"
    );
}
