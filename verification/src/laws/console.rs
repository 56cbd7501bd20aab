//! Numbers, texts, the lines of a boot, and bytes on the wire.
use vstd::arithmetic::div_mod::*;
use vstd::prelude::*;
use vstd::utf8::*;
use crate::app::{AppLoadError, ImageHeader};
use crate::boot::{BootStep, HaltReason, Launch};
use crate::boot_log::{
    action_line, checked_line, factory_header_line, factory_line, fresh_line, halt_lines,
    header_line, heartbeat, jump_lines, psram_failed_line, psram_line, psram_megabytes,
    push_load_error, push_partition_error, quoted, reset_cause_line, segment_line, skip_line,
    slot_line, spaced_hex, step_lines, store_line,
};
use crate::flash::{push_flash_error, FlashError};
use crate::partition::{PartitionEntry, PartitionError};
use crate::reset_cause::Cause;
use crate::slot_select::{BootAction, SkipReason, Slot, SlotNames, SlotSelectError};
use crate::text::{
    dec, decode_or, digits, hex, law_nul_len, low_hex, nul_position, pad_start, push_bool,
    push_dec, push_digits, push_hex, push_left, push_low_hex, push_right, push_run, push_signed,
    same_bytes, same_text, shortfall, signed_dec,
};
use crate::uart::{
    can_receive, can_send, is_drained, on_wire, received, rxfifo_count, txfifo_count, wire_bytes,
};
use crate::verify::VerifyError;

verus! {

/// What a digit stands for.
pub open spec fn digit_value(c: char) -> int {
    if '0' <= c <= '9' {
        c as int - '0' as int
    } else if 'A' <= c <= 'F' {
        c as int - 'A' as int + 10
    } else if 'a' <= c <= 'f' {
        c as int - 'a' as int + 10
    } else {
        -1
    }
}

/// What a row of digits stands for.
pub open spec fn value_of(s: Seq<char>, base: int) -> int
    decreases s.len(),
{
    if s.len() == 0 {
        0
    } else {
        value_of(s.drop_last(), base) * base + digit_value(s.last())
    }
}

/// `s` is `n` written in `base`: it reads as `n`, in digits of that base, upper
/// case, and it does not begin with a zero unless it is one.
pub open spec fn is_number(s: Seq<char>, n: nat, base: int) -> bool {
    &&& s.len() > 0
    &&& value_of(s, base) == n
    &&& forall|i: int|
        0 <= i < s.len() ==> 0 <= digit_value(#[trigger] s[i]) < base && s[i] <= 'F'
    &&& s.len() > 1 ==> s[0] != '0'
}

/// The digit that stands for `d`.
pub open spec fn digit(d: int) -> char {
    if d < 10 {
        ('0' as int + d) as char
    } else {
        ('A' as int + d - 10) as char
    }
}

/// `n` written in `base`.
pub open spec fn written(n: nat, base: nat) -> Seq<char>
    decreases n,
{
    if n < base || base < 2 {
        seq![digit(n as int)]
    } else {
        proof {
            lemma_div_decreases(n as int, base as int);
        }
        written(n / base, base) + seq![digit((n % base) as int)]
    }
}

/// `v` written in decimal, behind a minus sign if and only if it is negative.
pub open spec fn signed(v: int) -> Seq<char> {
    if v < 0 {
        seq!['-'] + written((-v) as nat, 10)
    } else {
        written(v as nat, 10)
    }
}

/// `s` filled up to `width` with `fill` at its start.
pub open spec fn filled(s: Seq<char>, width: nat, fill: char) -> Seq<char> {
    if s.len() < width {
        Seq::new((width - s.len()) as nat, |i: int| fill) + s
    } else {
        s
    }
}

/// `n` in hexadecimal, of at least `width` digits.
pub open spec fn hexed(n: nat, width: nat) -> Seq<char> {
    filled(written(n, 16), width, '0')
}

/// What is written can be read back.
pub proof fn law_written_reads_back(n: nat, base: nat)
    requires
        2 <= base <= 16,
    ensures
        is_number(written(n, base), n, base as int),
        n > 0 ==> written(n, base)[0] != '0',
    decreases n,
{
    let s = written(n, base);
    if n < base {
        assert(s.drop_last() =~= Seq::empty());
        assert(value_of(s.drop_last(), base as int) == 0);
        assert(digit_value(s[0]) == n);
    } else {
        lemma_div_decreases(n as int, base as int);
        lemma_mod_bound(n as int, base as int);
        lemma_fundamental_div_mod(n as int, base as int);
        lemma_div_non_zero(n as int, base as int);
        law_written_reads_back(n / base, base);
        let front = written(n / base, base);
        assert(s.drop_last() =~= front);
        assert(digit_value(s.last()) == n % base);
        assert(value_of(s, base as int) == (n / base) * base + n % base);
        assert((n / base) * base == base * (n / base)) by (nonlinear_arith);
        assert forall|i: int| 0 <= i < s.len() implies 0 <= digit_value(#[trigger] s[i]) < base
            && s[i] <= 'F' by {
            if i < front.len() {
                assert(s[i] == front[i]);
            }
        }
    }
}

proof fn lemma_digits(n: nat, base: nat)
    requires
        2 <= base <= 16,
    ensures
        digits(n, base) == written(n, base),
    decreases n,
{
    if n >= base {
        lemma_div_decreases(n as int, base as int);
        lemma_mod_bound(n as int, base as int);
        lemma_digits(n / base, base);
    }
    assert(digits(n, base) =~= written(n, base));
}

/// All numbers are written alike.
pub proof fn lemma_numbers()
    ensures
        forall|n: nat| #[trigger] dec(n) == written(n, 10),
        forall|v: int| #[trigger] signed_dec(v) == signed(v),
        forall|n: nat, width: nat| #[trigger] hex(n, width as int) == hexed(n, width),
        forall|n: nat, width: nat|
            #[trigger] pad_start(dec(n), width as int, ' ') == filled(written(n, 10), width, ' '),
{
    assert forall|n: nat| #[trigger] dec(n) == written(n, 10) by {
        lemma_digits(n, 10);
    }
    assert forall|v: int| #[trigger] signed_dec(v) == signed(v) by {
        reveal_strlit("-");
        lemma_digits((-v) as nat, 10);
        lemma_digits(v as nat, 10);
        assert("-"@ =~= seq!['-']);
    }
    assert forall|n: nat, width: nat| #[trigger] hex(n, width as int) == hexed(n, width) by {
        lemma_digits(n, 16);
        assert(hex(n, width as int) =~= hexed(n, width));
    }
    assert forall|n: nat, width: nat|
        #[trigger] pad_start(dec(n), width as int, ' ') == filled(written(n, 10), width, ' ') by {
        lemma_digits(n, 10);
        assert(pad_start(dec(n), width as int, ' ') =~= filled(written(n, 10), width, ' '));
    }
}

/// What was appended to `old`.
pub open spec fn tail(old: Seq<char>, new: Seq<char>) -> Seq<char> {
    new.skip(old.len() as int)
}

/// A number that is appended can be read back, in any base.
pub proof fn law_number_reads_back(out: &mut String, n: u64, base: u64)
    requires
        2 <= base <= 16,
        call_ensures(push_digits, (out, n, base), ()),
    ensures
        final(out)@ == old(out)@ + tail(old(out)@, final(out)@),
        is_number(tail(old(out)@, final(out)@), n as nat, base as int),
{
    lemma_digits(n as nat, base as nat);
    law_written_reads_back(n as nat, base as nat);
    assert(tail(old(out)@, final(out)@) =~= written(n as nat, base as nat));
}

/// A number that is appended in decimal can be read back.
pub proof fn law_decimal_reads_back(out: &mut String, n: u64)
    requires
        call_ensures(push_dec, (out, n), ()),
    ensures
        final(out)@ == old(out)@ + tail(old(out)@, final(out)@),
        is_number(tail(old(out)@, final(out)@), n as nat, 10),
{
    lemma_numbers();
    law_written_reads_back(n as nat, 10);
    assert(tail(old(out)@, final(out)@) =~= written(n as nat, 10));
}

/// A signed number is its magnitude, with a minus sign in front of it if and
/// only if it is negative.
pub proof fn law_signed_reads_back(out: &mut String, v: i32)
    requires
        call_ensures(push_signed, (out, v), ()),
    ensures
        final(out)@ == old(out)@ + tail(old(out)@, final(out)@),
        v >= 0 ==> is_number(tail(old(out)@, final(out)@), v as nat, 10),
        v < 0 ==> tail(old(out)@, final(out)@).len() > 0 && tail(old(out)@, final(out)@)[0] == '-'
            && is_number(tail(old(out)@, final(out)@).skip(1), (-v) as nat, 10),
{
    lemma_numbers();
    assert(tail(old(out)@, final(out)@) =~= signed(v as int));
    if v < 0 {
        law_written_reads_back((-v) as nat, 10);
        assert(signed(v as int).skip(1) =~= written((-v) as nat, 10));
    } else {
        law_written_reads_back(v as nat, 10);
    }
}

/// Numbers are filled up to the width that is asked for, and never cut: with
/// zeros in front of hexadecimal ones, with spaces in front of those in a right
/// column and behind those in a left one.
pub proof fn law_numbers_are_filled_up(
    zeros: &mut String,
    right: &mut String,
    left: &mut String,
    n: u64,
    width: usize,
)
    requires
        call_ensures(push_hex, (zeros, n, width), ()),
        call_ensures(push_right, (right, n, width), ()),
        call_ensures(push_left, (left, n, width), ()),
    ensures
        final(zeros)@ == old(zeros)@ + filled(written(n as nat, 16), width as nat, '0'),
        final(right)@ == old(right)@ + filled(written(n as nat, 10), width as nat, ' '),
        ({
            let s = tail(old(left)@, final(left)@);
            let d = written(n as nat, 10);
            &&& final(left)@ == old(left)@ + s
            &&& s.len() == if d.len() < width {
                width as nat
            } else {
                d.len()
            }
            &&& s.take(d.len() as int) == d
            &&& forall|i: int| d.len() <= i < s.len() ==> s[i] == ' '
        }),
{
    lemma_numbers();
    let d = written(n as nat, 10);
    assert(hex(n as nat, (width as nat) as int) == hexed(n as nat, width as nat));
    assert(pad_start(dec(n as nat), (width as nat) as int, ' ') == filled(d, width as nat, ' '));
    let s = tail(old(left)@, final(left)@);
    assert(s =~= crate::text::pad_end(d, width as int));
    assert(s.take(d.len() as int) =~= d);
}

/// A byte in lower case can be read back from its two digits.
pub proof fn law_low_hex_reads_back(out: &mut String, b: u8)
    requires
        call_ensures(push_low_hex, (out, b), ()),
    ensures
        final(out)@.len() == old(out)@.len() + 2,
        16 * digit_value(tail(old(out)@, final(out)@)[0]) + digit_value(
            tail(old(out)@, final(out)@)[1],
        ) == b,
        forall|i: int|
            0 <= i < 2 ==> {
                let c = #[trigger] tail(old(out)@, final(out)@)[i];
                '0' <= c <= '9' || 'a' <= c <= 'f'
            },
{
    assert(tail(old(out)@, final(out)@) =~= low_hex(b));
}

/// A truth value in words, and copies of a character.
pub proof fn law_words_and_runs(
    a: &mut String,
    truth: bool,
    b: &mut String,
    c: char,
    n: usize,
    i: int,
)
    requires
        call_ensures(push_bool, (a, truth), ()),
        call_ensures(push_run, (b, c, n), ()),
    ensures
        truth ==> final(a)@ == old(a)@ + "true"@,
        !truth ==> final(a)@ == old(a)@ + "false"@,
        final(b)@.len() == old(b)@.len() + n,
        0 <= i < old(b)@.len() ==> final(b)@[i] == old(b)@[i],
        old(b)@.len() <= i < final(b)@.len() ==> final(b)@[i] == c,
{
}

/// What digits fall short of a width is what fills them up to it.
pub proof fn law_shortfall_fills_up(n: u64, base: u64, width: usize, k: usize)
    requires
        2 <= base <= 16,
        call_ensures(shortfall, (n, base, width), k),
    ensures
        written(n as nat, base as nat).len() <= width ==> k + written(
            n as nat,
            base as nat,
        ).len() == width,
        written(n as nat, base as nat).len() > width ==> k == 0,
{
    lemma_digits(n as nat, base as nat);
}

/// The first NUL is found, or the end where there is none.
pub proof fn law_first_nul(b: &[u8], n: usize)
    requires
        call_ensures(nul_position, (b,), n),
    ensures
        n <= b@.len(),
        forall|i: int| 0 <= i < n ==> b@[i] != 0,
        n < b@.len() ==> b@[n as int] == 0,
{
    law_nul_len(b@, n as nat);
}

/// Bytes in front of the first NUL read as the text that they encode, and as
/// `otherwise` where they encode none.
pub proof fn law_field_reads_as_text(b: &[u8], otherwise: &str, s: &str, n: int)
    requires
        call_ensures(decode_or, (b, otherwise), s),
        0 <= n <= b@.len(),
        forall|i: int| 0 <= i < n ==> #[trigger] b@[i] != 0,
        n < b@.len() ==> b@[n] == 0,
    ensures
        valid_utf8(b@.take(n)) ==> encode_utf8(s@) == b@.take(n),
        !valid_utf8(b@.take(n)) ==> s@ == otherwise@,
{
    law_nul_len(b@, n as nat);
}

/// Two texts, or two byte strings, are found equal if and only if they are.
pub proof fn law_equal_if_the_same(a: &str, b: &str, x: &[u8], y: &[u8], r: bool, q: bool)
    requires
        call_ensures(same_text, (a, b), r),
        call_ensures(same_bytes, (x, y), q),
    ensures
        r <==> a@ == b@,
        q <==> x@ == y@,
{
}

/// The heartbeat tells its tick, and counts on to the next; after the last of 32
/// bits it starts over.
pub proof fn law_heartbeat_counts(tick: u32, r: (String, u32))
    requires
        call_ensures(heartbeat, (tick,), r),
    ensures
        r.0@ == "bl-tick "@ + written(tick as nat, 10) + "\n"@,
        r.1 == (tick + 1) % 0x1_0000_0000,
{
    lemma_numbers();
}

/// The PSRAM has 4, 8, 16, 32 or 64 MB by the density codes 1, 3, 5, 7 and 6, and
/// an unknown size by any other.
pub proof fn law_psram_sizes(density: u8, mb: usize)
    requires
        call_ensures(psram_megabytes, (density,), mb),
    ensures
        density == 1 ==> mb == 4,
        density == 3 ==> mb == 8,
        density == 5 ==> mb == 16,
        density == 7 ==> mb == 32,
        density == 6 ==> mb == 64,
        density == 0 || density == 2 || density == 4 || density > 7 ==> mb == 0,
{
}

/// A flash error tells its status.
pub open spec fn flash_words(e: FlashError) -> Seq<char> {
    match e {
        FlashError::Unaligned => "Unaligned"@,
        FlashError::Rom(status) => "Rom("@ + signed(status as int) + ")"@,
    }
}

/// A load error tells its flash error, its magic or its length.
pub open spec fn load_words(e: AppLoadError) -> Seq<char> {
    match e {
        AppLoadError::Flash(f) => "Flash("@ + flash_words(f) + ")"@,
        AppLoadError::BadMagic(m) => "BadMagic("@ + written(m as nat, 10) + ")"@,
        AppLoadError::SegmentTooLarge(n) => "SegmentTooLarge("@ + written(n as nat, 10) + ")"@,
        AppLoadError::UnalignedSegment(n) => "UnalignedSegment("@ + written(n as nat, 10) + ")"@,
    }
}

/// A partition error tells its flash error.
pub open spec fn partition_words(e: PartitionError) -> Seq<char> {
    match e {
        PartitionError::Flash(f) => "Flash("@ + flash_words(f) + ")"@,
        PartitionError::NoFactoryApp => "NoFactoryApp"@,
    }
}

/// Errors tell all that they hold.
pub proof fn law_errors_tell(
    a: &mut String,
    b: &mut String,
    c: &mut String,
    flash: FlashError,
    load: AppLoadError,
    partition: PartitionError,
)
    requires
        call_ensures(push_flash_error, (a, flash), ()),
        call_ensures(push_load_error, (b, load), ()),
        call_ensures(push_partition_error, (c, partition), ()),
    ensures
        final(a)@ == old(a)@ + flash_words(flash),
        final(b)@ == old(b)@ + load_words(load),
        final(c)@ == old(c)@ + partition_words(partition),
{
    lemma_numbers();
}

/// The line of a reset cause that has no name tells its code, and each line the
/// raw code.
pub proof fn law_reset_cause_is_told(cause: Cause, raw: u8, line: String)
    requires
        call_ensures(reset_cause_line, (cause, raw), line),
    ensures
        line@ == "reset cause: "@ + (match cause {
            Cause::PowerOn => "PowerOn"@,
            Cause::UsbUartChip => "UsbUartChip"@,
            Cause::UsbJtagChip => "UsbJtagChip"@,
            Cause::HpJtag => "HpJtag"@,
            Cause::DigitalSystemSoftware => "DigitalSystemSoftware"@,
            Cause::HpCoreSoftware => "HpCoreSoftware"@,
            Cause::PmuHpSystemPowerDown => "PmuHpSystemPowerDown"@,
            Cause::HpCoreLockup => "HpCoreLockup"@,
            Cause::HpWatchdogSystem => "HpWatchdogSystem"@,
            Cause::LpWatchdogSystem => "LpWatchdogSystem"@,
            Cause::HpWatchdogCore => "HpWatchdogCore"@,
            Cause::LpWatchdogCore => "LpWatchdogCore"@,
            Cause::LpWatchdogChip => "LpWatchdogChip"@,
            Cause::SuperWatchdog => "SuperWatchdog"@,
            Cause::BrownOut => "BrownOut"@,
            Cause::Glitch => "Glitch"@,
            Cause::EfuseCrc => "EfuseCrc"@,
            Cause::Unknown(code) => "Unknown("@ + written(code as nat, 10) + ")"@,
        }) + " (raw 0x"@ + hexed(raw as nat, 2) + ")\n"@,
{
    lemma_numbers();
}

/// The line of the PSRAM tells its codes and its size, or why it did not come up.
pub proof fn law_psram_is_told(
    vendor_id: u8,
    density: u8,
    mb: usize,
    line: String,
    error: &str,
    failed: String,
)
    requires
        call_ensures(psram_line, (vendor_id, density), line),
        call_ensures(psram_megabytes, (density,), mb),
        call_ensures(psram_failed_line, (error,), failed),
    ensures
        line@ == "psram::init() OK vendor=0x"@ + hexed(vendor_id as nat, 2) + " density=0x"@
            + hexed(density as nat, 1) + " ("@ + written(mb as nat, 10) + " MB)\n"@,
        failed@ == "psram::init() FAILED: "@ + error@ + " (continuing)\n"@,
{
    lemma_numbers();
}

/// The name of a slot among these.
pub open spec fn name_of(names: SlotNames, slot: Slot) -> Seq<char> {
    match slot {
        Slot::A => names.a@,
        Slot::B => names.b@,
    }
}

/// The label of a slot.
pub open spec fn label_of(slot: Slot) -> Seq<char> {
    match slot {
        Slot::A => "ota_0"@,
        Slot::B => "ota_1"@,
    }
}

/// The update policy is announced where it changes something: a probation with
/// its slot and attempt of three, a rollback with both slots, each by its own
/// name; a stable boot is not.
pub proof fn law_action_is_announced<S>(action: BootAction<S>, names: SlotNames, line: String)
    requires
        call_ensures(action_line::<S>, (&action, &names), line),
    ensures
        action is Stable ==> line@.len() == 0,
        action matches BootAction::Pending { slot, attempt, .. } ==> line@ == "otadata: slot "@
            + name_of(names, slot) + " pending, attempt "@ + written(attempt as nat, 10) + "/"@
            + seq!['3'] + "\n"@,
        action matches BootAction::Rollback { from, to, .. } ==> line@ == "otadata: slot "@
            + name_of(names, from) + " exceeded "@ + seq!['3'] + " attempts — rolling back to "@
            + name_of(names, to) + "\n"@,
{
    lemma_numbers();
    assert(written(3, 10) =~= seq!['3']);
}

/// A store that failed is told with its reason, one that worked is not told; a
/// state that does not decode is told with its reason.
pub proof fn law_failures_of_the_state_are_told(
    stored: Result<(), String>,
    line: String,
    error: &str,
    fresh: String,
)
    requires
        call_ensures(store_line, (&stored,), line),
        call_ensures(fresh_line, (error,), fresh),
    ensures
        stored is Ok ==> line@.len() == 0,
        stored matches Err(e) ==> line@ == "otadata: store_to_flash FAILED ("@ + e@
            + ") — booting anyway\n"@,
        fresh@ == "otadata: decode failed ("@ + error@ + ") — using fresh\n"@,
{
}

/// The line of the slot that boots tells its label, its offset and its size in
/// whole kilobytes.
pub proof fn law_slot_is_told(slot: Slot, part: PartitionEntry, line: String)
    requires
        call_ensures(slot_line, (slot, &part), line),
    ensures
        line@ == "boot slot: "@ + label_of(slot) + " @ 0x"@ + written(part.offset as nat, 16)
            + " ("@ + written((part.size as nat) / 1024, 10) + " KB)\n"@,
{
    lemma_numbers();
    law_written_reads_back(part.offset as nat, 16);
    assert(hex(part.offset as nat, 1nat as int) == hexed(part.offset as nat, 1));
}

/// The line of a slot that is skipped tells its label and why.
pub proof fn law_skip_is_told(slot: Slot, because: SkipReason, line: String)
    requires
        call_ensures(skip_line, (slot, because), line),
    ensures
        because matches SkipReason::Header(e) ==> line@ == "slot "@ + label_of(slot) + (
        " header invalid ("@ + load_words(e)) + ") — falling back to factory\n"@,
        because matches SkipReason::Lookup(e) ==> line@ == "slot "@ + label_of(slot) + (
        " lookup failed ("@ + partition_words(e)) + ") — falling back to factory\n"@,
{
    lemma_numbers();
}

/// The line of the factory app that boots in place of a slot tells its label in
/// quotes, its offset and its size in whole kilobytes; the line of one that has
/// no header tells why.
pub proof fn law_factory_is_told(
    part: PartitionEntry,
    label: &str,
    line: String,
    e: AppLoadError,
    bad: String,
)
    requires
        call_ensures(factory_line, (&part,), line),
        call_ensures(PartitionEntry::label_str, (&part,), label),
        call_ensures(factory_header_line, (e,), bad),
    ensures
        line@ == "factory app: label="@ + quoted(label@) + " offset=0x"@ + written(
            part.offset as nat,
            16,
        ) + " ("@ + written((part.size as nat) / 1024, 10) + " KB) — booting as fallback\n"@,
        bad@ == "factory app header invalid: "@ + load_words(e) + "\n"@,
{
    lemma_numbers();
    law_written_reads_back(part.offset as nat, 16);
    assert(hex(part.offset as nat, 1nat as int) == hexed(part.offset as nat, 1));
}

/// The line of a header tells all of its fields.
pub proof fn law_header_is_told(h: ImageHeader, line: String)
    requires
        call_ensures(header_line, (&h,), line),
    ensures
        line@ == "app header: magic=0x"@ + hexed(h.magic as nat, 2) + " segs="@ + written(
            h.segment_count as nat,
            10,
        ) + " entry=0x"@ + hexed(h.entry_addr as nat, 8) + " chip=0x"@ + hexed(h.chip_id as nat, 4)
            + " hash="@ + (if h.hash_appended {
            "true"@
        } else {
            "false"@
        }) + "\n"@,
{
    lemma_numbers();
}

/// A byte in two digits, lower case.
pub open spec fn pair(b: u8) -> Seq<char> {
    seq![low_digit_of(b / 16), low_digit_of(b % 16)]
}

/// The digit that stands for `d`, lower case.
pub open spec fn low_digit_of(d: u8) -> char {
    if d < 10 {
        ('0' as int + d) as char
    } else {
        ('a' as int + d - 10) as char
    }
}

proof fn lemma_pairs()
    ensures
        forall|b: u8| #[trigger] low_hex(b) == pair(b),
{
    assert forall|b: u8| #[trigger] low_hex(b) == pair(b) by {
        assert(low_hex(b) =~= pair(b));
    }
}

/// The line of a check tells the first and the last four bytes of the digest, or
/// that there is none.
pub proof fn law_check_is_told(digest: Option<[u8; 32]>, line: String)
    requires
        call_ensures(checked_line, (&digest,), line),
    ensures
        digest is None ==> line@ == "sha256: skipped (image declares hash_appended=0)\n"@,
        digest matches Some(d) ==> line@ == "sha256: OK ("@ + pair(d@[0]) + pair(d@[1]) + pair(d@[2])
            + pair(d@[3]) + "…"@ + pair(d@[28]) + pair(d@[29]) + pair(d@[30]) + pair(d@[31])
            + ")\n"@,
{
    lemma_pairs();
}

/// Bytes in two digits each, behind a space each.
pub open spec fn pairs(b: Seq<u8>) -> Seq<char> {
    Seq::new(
        3 * b.len(),
        |i: int|
            if i % 3 == 0 {
                ' '
            } else {
                pair(b[i / 3])[i % 3 - 1]
            },
    )
}

proof fn lemma_spaced(b: Seq<u8>)
    ensures
        spaced_hex(b) == pairs(b),
    decreases b.len(),
{
    reveal_strlit(" ");
    if b.len() > 0 {
        lemma_pairs();
        lemma_spaced(b.drop_last());
        assert(spaced_hex(b) =~= pairs(b));
    } else {
        assert(spaced_hex(b) =~= pairs(b));
    }
}

/// A halt tells its reason: both digests in full where they differ.
pub proof fn law_halt_is_told(reason: HaltReason, lines: String)
    requires
        call_ensures(halt_lines, (&reason,), lines),
    ensures
        lines@ == match reason {
            HaltReason::NoImage(SlotSelectError::NoBootableApp) => {
                "slot_select::pick ERR NoBootableApp\n"@
            },
            HaltReason::NoImage(SlotSelectError::Partition(e)) => {
                "slot_select::pick ERR Partition("@ + partition_words(e) + ")\n"@
            },
            HaltReason::Header(e) => "app::read_header ERR "@ + load_words(e) + "\n"@,
            HaltReason::Digest(VerifyError::Mismatch { expected, actual }) => {
                "sha256: MISMATCH — refusing to boot\n"@ + "  expected:"@ + pairs(expected@)
                    + "\n"@ + "  actual:  "@ + pairs(actual@) + "\n"@
            },
            HaltReason::Digest(VerifyError::Flash(e)) => "sha256: ERR Flash("@ + flash_words(e)
                + ") — refusing to boot\n"@,
            HaltReason::Digest(VerifyError::NoHash) => "sha256: ERR NoHash — refusing to boot\n"@,
            HaltReason::Digest(VerifyError::TotalSize(e)) => "sha256: ERR TotalSize("@
                + load_words(e) + ") — refusing to boot\n"@,
            HaltReason::Load(e) => "app::load_segments ERR "@ + load_words(e) + "\n"@,
        },
{
    lemma_numbers();
    if let HaltReason::Digest(VerifyError::Mismatch { expected, actual }) = reason {
        lemma_spaced(expected@);
        lemma_spaced(actual@);
    }
}

/// The line of a segment tells its index, its load address and its length, in
/// bytes and in whole kilobytes.
pub proof fn law_segment_is_told(index: usize, load_addr: u32, data_len: u32, line: String)
    requires
        call_ensures(segment_line, (index, load_addr, data_len), line),
    ensures
        line@ == "  seg"@ + written(index as nat, 10) + ": load=0x"@ + hexed(load_addr as nat, 8)
            + " len="@ + written(data_len as nat, 10) + " ("@ + written(
            (data_len as nat) / 1024,
            10,
        ) + " KB)\n"@,
{
    lemma_numbers();
}

/// The lines before a jump tell the watchdog's thirty seconds, and where the jump
/// goes.
pub proof fn law_jump_is_told(entry_addr: u32, lines: String)
    requires
        call_ensures(jump_lines, (entry_addr,), lines),
    ensures
        lines@ == "mini-bootloader: arming TIMG1 WDT ("@ + written(30_000, 10)
            + " ms) — app must feed or call bootloader::wdt::disable_timg1()\n"@
            + "mini-bootloader: jumping to app @ 0x"@ + hexed(entry_addr as nat, 8) + "\n"@,
{
    lemma_numbers();
}

/// A step is told by the lines of what it holds; the others are not told.
pub proof fn law_step_is_told(step: BootStep, lines: String, other: String, entry: u32)
    requires
        call_ensures(step_lines, (&step,), lines),
        step matches BootStep::HeaderRead { header, .. } ==> call_ensures(
            header_line,
            (&header,),
            other,
        ),
        step matches BootStep::Checked { digest, .. } ==> call_ensures(
            checked_line,
            (&digest,),
            other,
        ),
        step matches BootStep::Segment { index, load_addr, data_len, .. } ==> call_ensures(
            segment_line,
            (index, load_addr, data_len),
            other,
        ),
        step matches BootStep::Jump(launch) ==> call_ensures(Launch::entry_addr, (&launch,), entry)
            && call_ensures(jump_lines, (entry,), other),
        step matches BootStep::Heartbeat(reason) ==> call_ensures(halt_lines, (&reason,), other),
    ensures
        match step {
            BootStep::HeaderRead { .. }
            | BootStep::Checked { .. }
            | BootStep::Segment { .. }
            | BootStep::Jump(_)
            | BootStep::Heartbeat(_) => lines@ == other@,
            _ => lines@.len() == 0,
        },
{
}

/// What the FIFOs hold stands in the status word: bits 16 to 23 for what is to
/// be sent, bits 0 to 7 for what was received.
pub proof fn law_fifo_counts(
    status: u32,
    tx: u32,
    rx: u32,
    send: bool,
    drained: bool,
    receive: bool,
)
    requires
        call_ensures(txfifo_count, (status,), tx),
        call_ensures(rxfifo_count, (status,), rx),
        call_ensures(can_send, (status,), send),
        call_ensures(is_drained, (status,), drained),
        call_ensures(can_receive, (status,), receive),
    ensures
        tx == (status / 0x1_0000) % 0x100,
        rx == status % 0x100,
        send <==> tx < 128,
        drained <==> tx == 0,
        receive <==> rx != 0,
{
}

/// The byte that was received is the lowest of the FIFO word.
pub proof fn law_received_byte(fifo: u32, b: u8)
    requires
        call_ensures(received, (fifo,), b),
    ensures
        b == fifo % 0x100,
{
}

/// One text behind another is on the wire as the one behind the other.
pub proof fn law_wire_of_joined_texts(
    a: &str,
    b: &str,
    both: &str,
    wa: Vec<u8>,
    wb: Vec<u8>,
    w: Vec<u8>,
)
    requires
        encode_utf8(both@) == encode_utf8(a@) + encode_utf8(b@),
        call_ensures(wire_bytes, (a,), wa),
        call_ensures(wire_bytes, (b,), wb),
        call_ensures(wire_bytes, (both,), w),
    ensures
        w@ == wa@ + wb@,
{
    lemma_wire_joined(encode_utf8(a@), encode_utf8(b@));
}

proof fn lemma_wire_joined(x: Seq<u8>, y: Seq<u8>)
    ensures
        on_wire(x + y) == on_wire(x) + on_wire(y),
    decreases y.len(),
{
    if y.len() == 0 {
        assert(x + y =~= x);
        assert(on_wire(x) + on_wire(y) =~= on_wire(x));
    } else {
        lemma_wire_joined(x, y.drop_last());
        assert((x + y).drop_last() =~= x + y.drop_last());
        assert(on_wire(x + y) =~= on_wire(x) + on_wire(y));
    }
}

/// A text without a line feed is on the wire byte for byte; a line feed goes out
/// behind a carriage return.
pub proof fn law_wire_bytes(s: &str, w: Vec<u8>)
    requires
        call_ensures(wire_bytes, (s,), w),
    ensures
        !encode_utf8(s@).contains(0x0A) ==> w@ == encode_utf8(s@),
        encode_utf8(s@) == seq![0x0Au8] ==> w@ == seq![0x0Du8, 0x0Au8],
{
    if !encode_utf8(s@).contains(0x0A) {
        crate::uart::law_plain_text_is_kept(encode_utf8(s@));
    }
    if encode_utf8(s@) == seq![0x0Au8] {
        assert(seq![0x0Au8].drop_last() =~= Seq::empty());
        assert(on_wire(seq![0x0Au8].drop_last()) =~= Seq::empty());
        assert(w@ =~= seq![0x0Du8, 0x0Au8]);
    }
}

} // verus!
