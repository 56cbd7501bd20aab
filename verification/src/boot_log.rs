//! The lines that a boot writes to the console.
use vstd::prelude::*;
use vstd::string::*;
use crate::app::{AppLoadError, ImageHeader};
use crate::boot::{BootStep, HaltReason, WDT_TIMEOUT_MS};
use crate::flash::{flash_error_text, push_flash_error};
use crate::partition::{label_text, PartitionEntry, PartitionError, PartitionView};
use crate::reset_cause::Cause;
use crate::slot_select::{
    slot_label, slot_name, BootAction, SkipReason, Slot, SlotNames, SlotSelectError,
    MAX_BOOT_ATTEMPTS,
};
use crate::text::{
    bool_text, dec, hex, low_hex, push_bool, push_dec, push_hex, push_low_hex,
};
use crate::verify::{VerifyError, HASH_LEN};

verus! {

/// How many bytes of PSRAM a density code of the chip's mode register 2 stands
/// for.
pub open spec fn density_bytes(density: u8) -> Option<int> {
    if density == 1 {
        Some(0x40_0000)
    } else if density == 3 {
        Some(0x80_0000)
    } else if density == 5 {
        Some(0x100_0000)
    } else if density == 7 {
        Some(0x200_0000)
    } else if density == 6 {
        Some(0x400_0000)
    } else {
        None
    }
}

/// `psram::PsramSize::from_mr2_density` names the size that a density code
/// stands for, and `psram::PsramSize::bytes` says how many bytes that is: 4, 8,
/// 16, 32 and 64 MB for the codes 1, 3, 5, 7 and 6, and nothing for any other.
#[verifier::external_body]
fn psram_bytes(density: u8) -> (bytes: Option<usize>)
    ensures
        bytes is Some <==> density_bytes(density) is Some,
        bytes matches Some(n) ==> n == density_bytes(density)->0,
{
    match psram::PsramSize::from_mr2_density(density) {
        Some(size) => Some(size.bytes()),
        None => None,
    }
}

/// The megabytes of PSRAM that a density code stands for, zero for an unknown
/// one.
pub open spec fn density_megabytes(density: u8) -> int {
    match density_bytes(density) {
        Some(n) => n / 0x10_0000,
        None => 0,
    }
}

/// The megabytes of PSRAM that a density code stands for, zero for an unknown
/// one.
pub fn psram_megabytes(density: u8) -> (mb: usize)
    ensures
        mb == density_megabytes(density),
{
    match psram_bytes(density) {
        Some(n) => n / 0x10_0000,
        None => 0,
    }
}

/// The line after a successful PSRAM bring-up.
pub open spec fn psram_text(vendor_id: u8, density: u8) -> Seq<char> {
    "psram::init() OK vendor=0x"@ + hex(vendor_id as nat, 2) + " density=0x"@ + hex(
        density as nat,
        1,
    ) + " ("@ + dec(density_megabytes(density) as nat) + " MB)\n"@
}

/// The line after a successful PSRAM bring-up.
pub fn psram_line(vendor_id: u8, density: u8) -> (line: String)
    ensures
        line@ == psram_text(vendor_id, density),
{
    let mut line = String::new();
    line.append("psram::init() OK vendor=0x");
    push_hex(&mut line, vendor_id as u64, 2);
    line.append(" density=0x");
    push_hex(&mut line, density as u64, 1);
    line.append(" (");
    push_dec(&mut line, psram_megabytes(density) as u64);
    line.append(" MB)\n");
    line
}

/// The line after a PSRAM bring-up that failed, for the reason `error`.
pub open spec fn psram_failed_text(error: Seq<char>) -> Seq<char> {
    "psram::init() FAILED: "@ + error + " (continuing)\n"@
}

/// The line after a PSRAM bring-up that failed, for the reason `error`.
pub fn psram_failed_line(error: &str) -> (line: String)
    ensures
        line@ == psram_failed_text(error@),
{
    let mut line = String::new();
    line.append("psram::init() FAILED: ");
    line.append(error);
    line.append(" (continuing)\n");
    line
}

/// The name of a reset cause.
pub open spec fn cause_text(cause: Cause) -> Seq<char> {
    match cause {
        Cause::PowerOn => "PowerOn"@,
        Cause::UsbUartChip => "UsbUartChip"@,
        Cause::UsbJtagChip => "UsbJtagChip"@,
        Cause::HpJtag => "HpJtag"@,
        Cause::DigitalSystemSoftware => "DigitalSystemSoftware"@,
        Cause::HpCoreSoftware => "HpCoreSoftware"@,
        Cause::PmuHpSystemPowerDown => "PmuHpSystemPowerDown"@,
        Cause::HpCoreLockup => "HpCoreLockup"@,
        Cause::HpWatchdogSystem => "HpWatchdogSystem"@,
        Cause::LpWatchdogSystem => "LpWatchdogSystem"@,
        Cause::HpWatchdogCore => "HpWatchdogCore"@,
        Cause::LpWatchdogCore => "LpWatchdogCore"@,
        Cause::LpWatchdogChip => "LpWatchdogChip"@,
        Cause::SuperWatchdog => "SuperWatchdog"@,
        Cause::BrownOut => "BrownOut"@,
        Cause::Glitch => "Glitch"@,
        Cause::EfuseCrc => "EfuseCrc"@,
        Cause::Unknown(code) => "Unknown("@ + dec(code as nat) + ")"@,
    }
}

fn push_cause(out: &mut String, cause: Cause)
    ensures
        final(out)@ == old(out)@ + cause_text(cause),
{
    let name = match cause {
        Cause::PowerOn => "PowerOn",
        Cause::UsbUartChip => "UsbUartChip",
        Cause::UsbJtagChip => "UsbJtagChip",
        Cause::HpJtag => "HpJtag",
        Cause::DigitalSystemSoftware => "DigitalSystemSoftware",
        Cause::HpCoreSoftware => "HpCoreSoftware",
        Cause::PmuHpSystemPowerDown => "PmuHpSystemPowerDown",
        Cause::HpCoreLockup => "HpCoreLockup",
        Cause::HpWatchdogSystem => "HpWatchdogSystem",
        Cause::LpWatchdogSystem => "LpWatchdogSystem",
        Cause::HpWatchdogCore => "HpWatchdogCore",
        Cause::LpWatchdogCore => "LpWatchdogCore",
        Cause::LpWatchdogChip => "LpWatchdogChip",
        Cause::SuperWatchdog => "SuperWatchdog",
        Cause::BrownOut => "BrownOut",
        Cause::Glitch => "Glitch",
        Cause::EfuseCrc => "EfuseCrc",
        Cause::Unknown(code) => {
            out.append("Unknown(");
            push_dec(out, code as u64);
            out.append(")");
            return;
        },
    };
    out.append(name);
}

/// The line for the reset cause, and its raw code.
pub open spec fn reset_cause_text(cause: Cause, raw: u8) -> Seq<char> {
    "reset cause: "@ + cause_text(cause) + " (raw 0x"@ + hex(raw as nat, 2) + ")\n"@
}

/// The line for the reset cause, and its raw code.
pub fn reset_cause_line(cause: Cause, raw: u8) -> (line: String)
    ensures
        line@ == reset_cause_text(cause, raw),
{
    let mut line = String::new();
    line.append("reset cause: ");
    push_cause(&mut line, cause);
    line.append(" (raw 0x");
    push_hex(&mut line, raw as u64, 2);
    line.append(")\n");
    line
}

/// A load error in words.
pub open spec fn load_error_text(e: AppLoadError) -> Seq<char> {
    match e {
        AppLoadError::Flash(f) => "Flash("@ + flash_error_text(f) + ")"@,
        AppLoadError::BadMagic(m) => "BadMagic("@ + dec(m as nat) + ")"@,
        AppLoadError::SegmentTooLarge(n) => "SegmentTooLarge("@ + dec(n as nat) + ")"@,
        AppLoadError::UnalignedSegment(n) => "UnalignedSegment("@ + dec(n as nat) + ")"@,
    }
}

/// Appends a load error in words.
pub fn push_load_error(out: &mut String, e: AppLoadError)
    ensures
        final(out)@ == old(out)@ + load_error_text(e),
{
    match e {
        AppLoadError::Flash(f) => {
            out.append("Flash(");
            push_flash_error(out, f);
        },
        AppLoadError::BadMagic(m) => {
            out.append("BadMagic(");
            push_dec(out, m as u64);
        },
        AppLoadError::SegmentTooLarge(n) => {
            out.append("SegmentTooLarge(");
            push_dec(out, n as u64);
        },
        AppLoadError::UnalignedSegment(n) => {
            out.append("UnalignedSegment(");
            push_dec(out, n as u64);
        },
    }
    out.append(")");
}

/// A partition error in words.
pub open spec fn partition_error_text(e: PartitionError) -> Seq<char> {
    match e {
        PartitionError::Flash(f) => "Flash("@ + flash_error_text(f) + ")"@,
        PartitionError::NoFactoryApp => "NoFactoryApp"@,
    }
}

/// Appends a partition error in words.
pub fn push_partition_error(out: &mut String, e: PartitionError)
    ensures
        final(out)@ == old(out)@ + partition_error_text(e),
{
    match e {
        PartitionError::Flash(f) => {
            out.append("Flash(");
            push_flash_error(out, f);
            out.append(")");
        },
        PartitionError::NoFactoryApp => {
            out.append("NoFactoryApp");
        },
    }
}

/// The line where otadata did not decode, for the reason `error`.
pub open spec fn fresh_text(error: Seq<char>) -> Seq<char> {
    "otadata: decode failed ("@ + error + ") — using fresh\n"@
}

/// The line where otadata did not decode, for the reason `error`.
pub fn fresh_line(error: &str) -> (line: String)
    ensures
        line@ == fresh_text(error@),
{
    let mut line = String::new();
    line.append("otadata: decode failed (");
    line.append(error);
    line.append(") — using fresh\n");
    line
}

/// The line for what the update policy says, if it changes anything.
pub open spec fn action_text<S>(action: BootAction<S>, names: SlotNames) -> Seq<char> {
    match action {
        BootAction::Stable(_) => Seq::empty(),
        BootAction::Pending { slot, attempt, .. } => "otadata: slot "@ + slot_name(names, slot)
            + " pending, attempt "@ + dec(attempt as nat) + "/"@ + dec(MAX_BOOT_ATTEMPTS as nat)
            + "\n"@,
        BootAction::Rollback { from, to, .. } => "otadata: slot "@ + slot_name(names, from)
            + " exceeded "@ + dec(MAX_BOOT_ATTEMPTS as nat) + " attempts — rolling back to "@
            + slot_name(names, to) + "\n"@,
    }
}

/// The line for what the update policy says, if it changes anything.
pub fn action_line<S>(action: &BootAction<S>, names: &SlotNames) -> (line: String)
    ensures
        line@ == action_text(*action, *names),
{
    match action {
        BootAction::Stable(_) => String::new(),
        BootAction::Pending { slot, attempt, .. } => pending_line(names.of(*slot), *attempt),
        BootAction::Rollback { from, to, .. } => rollback_line(names.of(*from), names.of(*to)),
    }
}

fn pending_line(slot: &str, attempt: u8) -> (line: String)
    ensures
        line@ == "otadata: slot "@ + slot@ + " pending, attempt "@ + dec(attempt as nat) + "/"@
            + dec(MAX_BOOT_ATTEMPTS as nat) + "\n"@,
{
    let mut line = String::new();
    line.append("otadata: slot ");
    line.append(slot);
    line.append(" pending, attempt ");
    push_dec(&mut line, attempt as u64);
    line.append("/");
    push_dec(&mut line, MAX_BOOT_ATTEMPTS as u64);
    line.append("\n");
    line
}

fn rollback_line(from: &str, to: &str) -> (line: String)
    ensures
        line@ == "otadata: slot "@ + from@ + " exceeded "@ + dec(MAX_BOOT_ATTEMPTS as nat)
            + " attempts — rolling back to "@ + to@ + "\n"@,
{
    let mut line = String::new();
    line.append("otadata: slot ");
    line.append(from);
    line.append(" exceeded ");
    push_dec(&mut line, MAX_BOOT_ATTEMPTS as u64);
    line.append(" attempts — rolling back to ");
    line.append(to);
    line.append("\n");
    line
}

/// The line where the new otadata could not be stored, for the reason `error`.
pub open spec fn store_failed_text(error: Seq<char>) -> Seq<char> {
    "otadata: store_to_flash FAILED ("@ + error + ") — booting anyway\n"@
}

/// The line for what came of storing the new otadata, if there is anything to
/// say.
pub open spec fn store_text(stored: Result<(), String>) -> Seq<char> {
    match stored {
        Ok(()) => Seq::empty(),
        Err(e) => store_failed_text(e@),
    }
}

/// The line for what came of storing the new otadata, if there is anything to
/// say.
pub fn store_line(stored: &Result<(), String>) -> (line: String)
    ensures
        line@ == store_text(*stored),
{
    let mut line = String::new();
    if let Err(e) = stored {
        line.append("otadata: store_to_flash FAILED (");
        line.append(e.as_str());
        line.append(") — booting anyway\n");
    }
    line
}

/// The line where the chosen slot boots.
pub open spec fn slot_text(slot: Slot, part: PartitionView) -> Seq<char> {
    "boot slot: "@ + slot_label(slot) + " @ 0x"@ + hex(part.offset as nat, 1) + " ("@ + dec(
        (part.size / 1024) as nat,
    ) + " KB)\n"@
}

/// The line where the chosen slot boots.
pub fn slot_line(slot: Slot, part: &PartitionEntry) -> (line: String)
    ensures
        line@ == slot_text(slot, part@),
{
    let mut line = String::new();
    line.append("boot slot: ");
    line.append(slot.label());
    line.append(" @ 0x");
    push_hex(&mut line, part.offset as u64, 1);
    line.append(" (");
    push_dec(&mut line, (part.size / 1024) as u64);
    line.append(" KB)\n");
    line
}

/// The line where a slot is skipped.
pub open spec fn skip_text(slot: Slot, because: SkipReason) -> Seq<char> {
    "slot "@ + slot_label(slot) + (match because {
        SkipReason::Header(e) => " header invalid ("@ + load_error_text(e),
        SkipReason::Lookup(e) => " lookup failed ("@ + partition_error_text(e),
    }) + ") — falling back to factory\n"@
}

/// The line where a slot is skipped.
pub fn skip_line(slot: Slot, because: SkipReason) -> (line: String)
    ensures
        line@ == skip_text(slot, because),
{
    let mut line = String::new();
    line.append("slot ");
    line.append(slot.label());
    match because {
        SkipReason::Header(e) => {
            line.append(" header invalid (");
            push_load_error(&mut line, e);
        },
        SkipReason::Lookup(e) => {
            line.append(" lookup failed (");
            push_partition_error(&mut line, e);
        },
    }
    line.append(") — falling back to factory\n");
    line
}

/// What the standard library's `Debug` makes of a string: in quotes, with what
/// is not printable escaped.
pub uninterp spec fn quoted(s: Seq<char>) -> Seq<char>;

/// `format!` of the standard library with `{:?}` and a string gives its
/// `Debug` text.
#[verifier::external_body]
fn quote(s: &str) -> (q: String)
    ensures
        q@ == quoted(s@),
{
    format!("{:?}", s)
}

/// The line where the factory app boots in place of a slot.
pub open spec fn factory_text(part: PartitionView) -> Seq<char> {
    "factory app: label="@ + quoted(label_text(part.label)) + " offset=0x"@ + hex(
        part.offset as nat,
        1,
    ) + " ("@ + dec((part.size / 1024) as nat) + " KB) — booting as fallback\n"@
}

/// The line where the factory app boots in place of a slot.
pub fn factory_line(part: &PartitionEntry) -> (line: String)
    ensures
        line@ == factory_text(part@),
{
    let mut line = String::new();
    line.append("factory app: label=");
    line.append(quote(part.label_str()).as_str());
    line.append(" offset=0x");
    push_hex(&mut line, part.offset as u64, 1);
    line.append(" (");
    push_dec(&mut line, (part.size / 1024) as u64);
    line.append(" KB) — booting as fallback\n");
    line
}

/// The line where the factory app has no readable header.
pub open spec fn factory_header_text(e: AppLoadError) -> Seq<char> {
    "factory app header invalid: "@ + load_error_text(e) + "\n"@
}

/// The line where the factory app has no readable header.
pub fn factory_header_line(e: AppLoadError) -> (line: String)
    ensures
        line@ == factory_header_text(e),
{
    let mut line = String::new();
    line.append("factory app header invalid: ");
    push_load_error(&mut line, e);
    line.append("\n");
    line
}

/// The line for the header of the image that is booted.
pub open spec fn header_text(h: ImageHeader) -> Seq<char> {
    "app header: magic=0x"@ + hex(h.magic as nat, 2) + " segs="@ + dec(h.segment_count as nat)
        + " entry=0x"@ + hex(h.entry_addr as nat, 8) + " chip=0x"@ + hex(h.chip_id as nat, 4)
        + " hash="@ + bool_text(h.hash_appended) + "\n"@
}

/// The line for the header of the image that is booted.
pub fn header_line(h: &ImageHeader) -> (line: String)
    ensures
        line@ == header_text(*h),
{
    let mut line = String::new();
    line.append("app header: magic=0x");
    push_hex(&mut line, h.magic as u64, 2);
    line.append(" segs=");
    push_dec(&mut line, h.segment_count as u64);
    line.append(" entry=0x");
    push_hex(&mut line, h.entry_addr as u64, 8);
    line.append(" chip=0x");
    push_hex(&mut line, h.chip_id as u64, 4);
    line.append(" hash=");
    push_bool(&mut line, h.hash_appended);
    line.append("\n");
    line
}

/// The line after the check: the ends of the digest that was accepted, or that
/// there is none.
pub open spec fn checked_text(digest: Option<[u8; HASH_LEN]>) -> Seq<char> {
    match digest {
        Some(d) => "sha256: OK ("@ + low_hex(d@[0]) + low_hex(d@[1]) + low_hex(d@[2]) + low_hex(
            d@[3],
        ) + "…"@ + low_hex(d@[28]) + low_hex(d@[29]) + low_hex(d@[30]) + low_hex(d@[31])
            + ")\n"@,
        None => "sha256: skipped (image declares hash_appended=0)\n"@,
    }
}

/// The line after the check: the ends of the digest that was accepted, or that
/// there is none.
pub fn checked_line(digest: &Option<[u8; HASH_LEN]>) -> (line: String)
    ensures
        line@ == checked_text(*digest),
{
    let mut line = String::new();
    match digest {
        Some(d) => {
            line.append("sha256: OK (");
            push_low_hex(&mut line, d[0]);
            push_low_hex(&mut line, d[1]);
            push_low_hex(&mut line, d[2]);
            push_low_hex(&mut line, d[3]);
            line.append("…");
            push_low_hex(&mut line, d[28]);
            push_low_hex(&mut line, d[29]);
            push_low_hex(&mut line, d[30]);
            push_low_hex(&mut line, d[31]);
            line.append(")\n");
        },
        None => {
            line.append("sha256: skipped (image declares hash_appended=0)\n");
        },
    }
    line
}

/// Bytes in lower-case hexadecimal, a space in front of each.
pub open spec fn spaced_hex(b: Seq<u8>) -> Seq<char>
    decreases b.len(),
{
    if b.len() == 0 {
        Seq::empty()
    } else {
        spaced_hex(b.drop_last()) + " "@ + low_hex(b.last())
    }
}

fn push_spaced_hex(out: &mut String, b: &[u8])
    ensures
        final(out)@ == old(out)@ + spaced_hex(b@),
{
    let mut i: usize = 0;
    while i < b.len()
        invariant
            i <= b@.len(),
            out@ == old(out)@ + spaced_hex(b@.take(i as int)),
        decreases b@.len() - i,
    {
        out.append(" ");
        push_low_hex(out, b[i]);
        i += 1;
        assert(b@.take(i as int).drop_last() =~= b@.take(i - 1));
    }
    assert(b@.take(i as int) =~= b@);
}

/// Why nothing is booted, in words.
pub open spec fn halt_text(reason: HaltReason) -> Seq<char> {
    match reason {
        HaltReason::NoImage(SlotSelectError::NoBootableApp) => {
            "slot_select::pick ERR NoBootableApp\n"@
        },
        HaltReason::NoImage(SlotSelectError::Partition(e)) => "slot_select::pick ERR Partition("@
            + partition_error_text(e) + ")\n"@,
        HaltReason::Header(e) => "app::read_header ERR "@ + load_error_text(e) + "\n"@,
        HaltReason::Digest(VerifyError::Mismatch { expected, actual }) => {
            "sha256: MISMATCH — refusing to boot\n"@ + "  expected:"@ + spaced_hex(expected@)
                + "\n"@ + "  actual:  "@ + spaced_hex(actual@) + "\n"@
        },
        HaltReason::Digest(VerifyError::Flash(e)) => "sha256: ERR Flash("@ + flash_error_text(e)
            + ") — refusing to boot\n"@,
        HaltReason::Digest(VerifyError::NoHash) => "sha256: ERR NoHash — refusing to boot\n"@,
        HaltReason::Digest(VerifyError::TotalSize(e)) => "sha256: ERR TotalSize("@
            + load_error_text(e) + ") — refusing to boot\n"@,
        HaltReason::Load(e) => "app::load_segments ERR "@ + load_error_text(e) + "\n"@,
    }
}

/// The lines that say why nothing is booted.
pub fn halt_lines(reason: &HaltReason) -> (lines: String)
    ensures
        lines@ == halt_text(*reason),
{
    let mut out = String::new();
    match reason {
        HaltReason::NoImage(SlotSelectError::NoBootableApp) => {
            out.append("slot_select::pick ERR NoBootableApp\n");
        },
        HaltReason::NoImage(SlotSelectError::Partition(e)) => {
            out.append("slot_select::pick ERR Partition(");
            push_partition_error(&mut out, *e);
            out.append(")\n");
        },
        HaltReason::Header(e) => {
            out.append("app::read_header ERR ");
            push_load_error(&mut out, *e);
            out.append("\n");
        },
        HaltReason::Digest(VerifyError::Mismatch { expected, actual }) => {
            out.append("sha256: MISMATCH — refusing to boot\n");
            out.append("  expected:");
            push_spaced_hex(&mut out, expected.as_slice());
            out.append("\n");
            out.append("  actual:  ");
            push_spaced_hex(&mut out, actual.as_slice());
            out.append("\n");
        },
        HaltReason::Digest(VerifyError::Flash(e)) => {
            out.append("sha256: ERR Flash(");
            push_flash_error(&mut out, *e);
            out.append(") — refusing to boot\n");
        },
        HaltReason::Digest(VerifyError::NoHash) => {
            out.append("sha256: ERR NoHash — refusing to boot\n");
        },
        HaltReason::Digest(VerifyError::TotalSize(e)) => {
            out.append("sha256: ERR TotalSize(");
            push_load_error(&mut out, *e);
            out.append(") — refusing to boot\n");
        },
        HaltReason::Load(e) => {
            out.append("app::load_segments ERR ");
            push_load_error(&mut out, *e);
            out.append("\n");
        },
    }
    out
}

/// The line for a segment that is about to be copied.
pub open spec fn segment_text(index: usize, load_addr: u32, data_len: u32) -> Seq<char> {
    "  seg"@ + dec(index as nat) + ": load=0x"@ + hex(load_addr as nat, 8) + " len="@ + dec(
        data_len as nat,
    ) + " ("@ + dec((data_len / 1024) as nat) + " KB)\n"@
}

/// The line for a segment that is about to be copied.
pub fn segment_line(index: usize, load_addr: u32, data_len: u32) -> (line: String)
    ensures
        line@ == segment_text(index, load_addr, data_len),
{
    let mut line = String::new();
    line.append("  seg");
    push_dec(&mut line, index as u64);
    line.append(": load=0x");
    push_hex(&mut line, load_addr as u64, 8);
    line.append(" len=");
    push_dec(&mut line, data_len as u64);
    line.append(" (");
    push_dec(&mut line, (data_len / 1024) as u64);
    line.append(" KB)\n");
    line
}

/// The lines right before the jump.
pub open spec fn jump_text(entry_addr: u32) -> Seq<char> {
    "mini-bootloader: arming TIMG1 WDT ("@ + dec(WDT_TIMEOUT_MS as nat)
        + " ms) — app must feed or call bootloader::wdt::disable_timg1()\n"@
        + "mini-bootloader: jumping to app @ 0x"@ + hex(entry_addr as nat, 8) + "\n"@
}

/// The lines right before the jump.
pub fn jump_lines(entry_addr: u32) -> (lines: String)
    ensures
        lines@ == jump_text(entry_addr),
{
    let mut out = String::new();
    out.append("mini-bootloader: arming TIMG1 WDT (");
    push_dec(&mut out, WDT_TIMEOUT_MS as u64);
    out.append(" ms) — app must feed or call bootloader::wdt::disable_timg1()\n");
    out.append("mini-bootloader: jumping to app @ 0x");
    push_hex(&mut out, entry_addr as u64, 8);
    out.append("\n");
    out
}

/// The lines that go with a step of a boot, to be printed before it is made.
pub open spec fn step_text(step: BootStep) -> Seq<char> {
    match step {
        BootStep::HeaderRead { header, .. } => header_text(header),
        BootStep::Checked { digest, .. } => checked_text(digest),
        BootStep::Segment { index, load_addr, data_len, .. } => segment_text(
            index,
            load_addr,
            data_len,
        ),
        BootStep::Jump(launch) => jump_text(launch@.0.header.entry_addr),
        BootStep::Heartbeat(reason) => halt_text(reason),
        _ => Seq::empty(),
    }
}

/// The lines that go with a step of a boot, to be printed before it is made.
pub fn step_lines(step: &BootStep) -> (lines: String)
    ensures
        lines@ == step_text(*step),
{
    match step {
        BootStep::HeaderRead { header, .. } => header_line(header),
        BootStep::Checked { digest, .. } => checked_line(digest),
        BootStep::Segment { index, load_addr, data_len, .. } => segment_line(
            *index,
            *load_addr,
            *data_len,
        ),
        BootStep::Jump(launch) => jump_lines(launch.entry_addr()),
        BootStep::Heartbeat(reason) => halt_lines(reason),
        _ => String::new(),
    }
}

/// The heartbeat of tick `tick`, and the tick that comes after it; the count
/// starts over after the last.
pub fn heartbeat(tick: u32) -> (r: (String, u32))
    ensures
        r.0@ == "bl-tick "@ + dec(tick as nat) + "\n"@,
        r.1 == if tick == u32::MAX { 0 } else { tick + 1 },
{
    let mut line = String::new();
    line.append("bl-tick ");
    push_dec(&mut line, tick as u64);
    line.append("\n");
    (line, tick.wrapping_add(1))
}

} // verus!
