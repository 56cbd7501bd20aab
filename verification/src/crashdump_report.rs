//! The report of a crash dump that an earlier boot left behind.
//!
//! A dump is printed and left where it is: erasing it is for whoever has
//! forwarded it.
use vstd::prelude::*;
use vstd::string::*;
use crate::text::{dec, hex, pad_end, push_dec, push_hex, push_left};

verus! {

/// Where the crash dump partition begins.
pub const CRASHDUMP_PARTITION_OFFSET: u32 = 0x10000;

/// Why a dump was taken.
#[derive(Debug, Clone, Copy, PartialEq, Eq, Structural)]
pub enum CrashReason {
    Panic,
    Trap,
    Watchdog,
    Brownout,
    Other,
    Unknown,
}

/// A decoded crash dump.
pub struct CrashDump {
    pub timestamp_us: u64,
    /// The reason as it is stored.
    pub reason_tag: u32,
    /// What the tag stands for.
    pub reason: CrashReason,
    pub boot_count: u32,
    pub mcause: u32,
    pub mepc: u32,
    pub mtval: u32,
    pub mstatus: u32,
    /// The registers x1 to x31.
    pub registers: [u32; 31],
    pub message: String,
    /// The end of the console log.
    pub uart_tail: Vec<u8>,
}

/// The name of a reason.
pub open spec fn reason_text(reason: CrashReason) -> Seq<char> {
    match reason {
        CrashReason::Panic => "panic"@,
        CrashReason::Trap => "trap"@,
        CrashReason::Watchdog => "watchdog"@,
        CrashReason::Brownout => "brownout"@,
        CrashReason::Other => "other"@,
        CrashReason::Unknown => "unknown"@,
    }
}

/// The name of a reason.
pub fn reason_name(reason: CrashReason) -> (s: &'static str)
    ensures
        s@ == reason_text(reason),
{
    match reason {
        CrashReason::Panic => "panic",
        CrashReason::Trap => "trap",
        CrashReason::Watchdog => "watchdog",
        CrashReason::Brownout => "brownout",
        CrashReason::Other => "other",
        CrashReason::Unknown => "unknown",
    }
}

/// The name of a machine-mode interrupt.
pub open spec fn interrupt_text(code: int) -> Seq<char> {
    if code == 3 {
        "machine software intr"@
    } else if code == 7 {
        "machine timer intr"@
    } else if code == 11 {
        "machine external intr"@
    } else {
        "platform/clic intr"@
    }
}

/// The name of an exception.
pub open spec fn exception_text(code: int) -> Seq<char> {
    if code == 0 {
        "instr addr misaligned"@
    } else if code == 1 {
        "instr access fault"@
    } else if code == 2 {
        "illegal instruction"@
    } else if code == 3 {
        "breakpoint"@
    } else if code == 4 {
        "load addr misaligned"@
    } else if code == 5 {
        "load access fault"@
    } else if code == 6 {
        "store/AMO addr misaligned"@
    } else if code == 7 {
        "store/AMO access fault"@
    } else if code == 8 {
        "ecall from U-mode"@
    } else if code == 9 {
        "ecall from S-mode"@
    } else if code == 11 {
        "ecall from M-mode"@
    } else if code == 12 {
        "instr page fault"@
    } else if code == 13 {
        "load page fault"@
    } else if code == 15 {
        "store/AMO page fault"@
    } else {
        "exception"@
    }
}

/// An `mcause` value in words: its top bit tells interrupts from exceptions,
/// the rest is the code.
pub open spec fn mcause_text(mcause: u32) -> Seq<char> {
    if mcause >= 0x8000_0000 {
        "interrupt: "@ + interrupt_text(mcause - 0x8000_0000)
    } else {
        "exception: "@ + exception_text(mcause as int)
    }
}

/// Appends an `mcause` value in words.
pub fn push_mcause(out: &mut String, mcause: u32)
    ensures
        final(out)@ == old(out)@ + mcause_text(mcause),
{
    if mcause >= 0x8000_0000 {
        out.append("interrupt: ");
        out.append(
            match mcause - 0x8000_0000 {
                3 => "machine software intr",
                7 => "machine timer intr",
                11 => "machine external intr",
                _ => "platform/clic intr",
            },
        );
    } else {
        out.append("exception: ");
        out.append(
            match mcause {
                0 => "instr addr misaligned",
                1 => "instr access fault",
                2 => "illegal instruction",
                3 => "breakpoint",
                4 => "load addr misaligned",
                5 => "load access fault",
                6 => "store/AMO addr misaligned",
                7 => "store/AMO access fault",
                8 => "ecall from U-mode",
                9 => "ecall from S-mode",
                11 => "ecall from M-mode",
                12 => "instr page fault",
                13 => "load page fault",
                15 => "store/AMO page fault",
                _ => "exception",
            },
        );
    }
}

/// Register `x{i + 1}` as it is printed, four to a line.
pub open spec fn register_text(regs: Seq<u32>, i: int) -> Seq<char> {
    (if i % 4 == 0 {
        "   "@
    } else {
        Seq::empty()
    }) + " x"@ + pad_end(dec((i + 1) as nat), 2) + "=0x"@ + hex(regs[i] as nat, 8) + (if i % 4 == 3
        || i == regs.len() - 1 {
        "\n"@
    } else {
        Seq::empty()
    })
}

/// The first `n` registers as they are printed.
pub open spec fn registers_text(regs: Seq<u32>, n: nat) -> Seq<char>
    decreases n,
{
    if n == 0 {
        Seq::empty()
    } else {
        registers_text(regs, (n - 1) as nat) + register_text(regs, n - 1)
    }
}

fn push_register(out: &mut String, regs: &[u32; 31], i: usize)
    requires
        i < 31,
    ensures
        final(out)@ == old(out)@ + register_text(regs@, i as int),
{
    if i % 4 == 0 {
        out.append("   ");
    }
    out.append(" x");
    push_left(out, i as u64 + 1, 2);
    out.append("=0x");
    push_hex(out, regs[i] as u64, 8);
    if i % 4 == 3 || i == 30 {
        out.append("\n");
    }
}

/// Appends the registers x1 to x31, four to a line.
pub fn push_registers(out: &mut String, regs: &[u32; 31])
    ensures
        final(out)@ == old(out)@ + registers_text(regs@, 31),
{
    let mut i: usize = 0;
    while i < 31
        invariant
            i <= 31,
            out@ == old(out)@ + registers_text(regs@, i as nat),
        decreases 31 - i,
    {
        push_register(out, regs, i);
        i += 1;
    }
}

/// A byte of a log as it is printed: what is not printable is escaped.
pub open spec fn escaped_byte(b: u8) -> Seq<char> {
    if b == 0x0A {
        "\n"@
    } else if b == 0x0D {
        Seq::empty()
    } else if b == 0x09 {
        "    "@
    } else if 0x20 <= b <= 0x7E {
        seq![b as char]
    } else {
        "\\x"@ + hex(b as nat, 2)
    }
}

/// A log as it is printed.
pub open spec fn escaped(bytes: Seq<u8>) -> Seq<char>
    decreases bytes.len(),
{
    if bytes.len() == 0 {
        Seq::empty()
    } else {
        escaped(bytes.drop_last()) + escaped_byte(bytes.last())
    }
}

/// Appends a log, with what is not printable escaped.
pub fn push_escaped(out: &mut String, bytes: &[u8])
    ensures
        final(out)@ == old(out)@ + escaped(bytes@),
{
    let mut i: usize = 0;
    while i < bytes.len()
        invariant
            i <= bytes@.len(),
            out@ == old(out)@ + escaped(bytes@.take(i as int)),
        decreases bytes@.len() - i,
    {
        let b = bytes[i];
        if b == 0x0A {
            out.append("\n");
        } else if b == 0x09 {
            out.append("    ");
        } else if 0x20 <= b && b <= 0x7E {
            out.push(b as char);
        } else if b != 0x0D {
            out.append("\\x");
            push_hex(out, b as u64, 2);
        }
        i += 1;
        assert(bytes@.take(i as int).drop_last() =~= bytes@.take(i - 1));
        assert(out@ =~= old(out)@ + escaped(bytes@.take(i as int)));
    }
    assert(bytes@.take(i as int) =~= bytes@);
}

/// The line for the message, if there is one.
pub open spec fn message_text(message: Seq<char>) -> Seq<char> {
    if message.len() == 0 {
        Seq::empty()
    } else {
        "  message      : \""@ + message + "\"\n"@
    }
}

/// The lines for the end of the console log.
pub open spec fn tail_text(tail: Seq<u8>) -> Seq<char> {
    "  uart tail    : "@ + dec(tail.len()) + " bytes\n"@ + (if tail.len() == 0 {
        Seq::empty()
    } else {
        "  ----- BEGIN UART TAIL -----\n"@ + escaped(tail) + "\n  ----- END UART TAIL -----\n"@
    })
}

/// The trap registers of a dump as they are printed.
pub open spec fn trap_text(dump: CrashDump) -> Seq<char> {
    "  mcause       : 0x"@ + hex(dump.mcause as nat, 8) + " ("@ + mcause_text(dump.mcause)
        + ")\n  mepc         : 0x"@ + hex(dump.mepc as nat, 8) + "\n  mtval        : 0x"@ + hex(
        dump.mtval as nat,
        8,
    ) + "\n  mstatus      : 0x"@ + hex(dump.mstatus as nat, 8) + "\n"@
}

fn push_trap(out: &mut String, dump: &CrashDump)
    ensures
        final(out)@ == old(out)@ + trap_text(*dump),
{
    out.append("  mcause       : 0x");
    push_hex(out, dump.mcause as u64, 8);
    out.append(" (");
    push_mcause(out, dump.mcause);
    out.append(")\n  mepc         : 0x");
    push_hex(out, dump.mepc as u64, 8);
    out.append("\n  mtval        : 0x");
    push_hex(out, dump.mtval as u64, 8);
    out.append("\n  mstatus      : 0x");
    push_hex(out, dump.mstatus as u64, 8);
    out.append("\n");
}

/// What a dump says of itself, as it is printed.
pub open spec fn origin_text(dump: CrashDump, partition_offset: u32) -> Seq<char> {
    "\n=== crashdump from previous boot ===\n  partition    : 0x"@ + hex(
        partition_offset as nat,
        5,
    ) + "\n  timestamp_us : "@ + dec(dump.timestamp_us as nat) + "\n  reason_tag   : "@ + dec(
        dump.reason_tag as nat,
    ) + " ("@ + reason_text(dump.reason) + ")\n  boot_count   : "@ + dec(dump.boot_count as nat)
        + "\n"@
}

fn push_origin(out: &mut String, dump: &CrashDump, partition_offset: u32)
    ensures
        final(out)@ == old(out)@ + origin_text(*dump, partition_offset),
{
    out.append("\n=== crashdump from previous boot ===\n  partition    : 0x");
    push_hex(out, partition_offset as u64, 5);
    out.append("\n  timestamp_us : ");
    push_dec(out, dump.timestamp_us);
    out.append("\n  reason_tag   : ");
    push_dec(out, dump.reason_tag as u64);
    out.append(" (");
    out.append(reason_name(dump.reason));
    out.append(")\n  boot_count   : ");
    push_dec(out, dump.boot_count as u64);
    out.append("\n");
}

/// A dump as it is printed.
pub open spec fn dump_text(dump: CrashDump, partition_offset: u32) -> Seq<char> {
    origin_text(dump, partition_offset) + trap_text(dump) + message_text(dump.message@)
        + "  registers (x1..x31):\n"@ + registers_text(dump.registers@, 31) + tail_text(
        dump.uart_tail@,
    )
        + "=== end crashdump ===\nnote: app should forward the dump and call p4_crashdump::erase(0x"@
        + hex(partition_offset as nat, 5) + ") when done\n"@
}

fn push_dump(out: &mut String, dump: &CrashDump, partition_offset: u32)
    ensures
        final(out)@ == old(out)@ + dump_text(*dump, partition_offset),
{
    push_origin(out, dump, partition_offset);
    push_trap(out, dump);
    push_message(out, dump.message.as_str());
    out.append("  registers (x1..x31):\n");
    push_registers(out, &dump.registers);
    push_tail(out, dump.uart_tail.as_slice());
    out.append(
        "=== end crashdump ===\nnote: app should forward the dump and call p4_crashdump::erase(0x",
    );
    push_hex(out, partition_offset as u64, 5);
    out.append(") when done\n");
}

fn push_message(out: &mut String, message: &str)
    ensures
        final(out)@ == old(out)@ + message_text(message@),
{
    if !message.is_empty() {
        out.append("  message      : \"");
        out.append(message);
        out.append("\"\n");
    }
}

fn push_tail(out: &mut String, tail: &[u8])
    ensures
        final(out)@ == old(out)@ + tail_text(tail@),
{
    out.append("  uart tail    : ");
    push_dec(out, tail.len() as u64);
    out.append(" bytes\n");
    if tail.len() > 0 {
        out.append("  ----- BEGIN UART TAIL -----\n");
        push_escaped(out, tail);
        out.append("\n  ----- END UART TAIL -----\n");
    }
}

/// The report at the start of a boot: see [`print_if_present`].
pub open spec fn report_text(
    found: Option<Result<CrashDump, String>>,
    partition_offset: u32,
) -> Seq<char> {
    match found {
        None => Seq::empty(),
        Some(Ok(dump)) => dump_text(dump, partition_offset),
        Some(Err(e)) => "crashdump: magic OK at 0x"@ + hex(partition_offset as nat, 5)
            + " but decode failed: "@ + e@ + "\n"@,
    }
}

/// The report at the start of a boot. `found` is what the partition holds where
/// it begins like a dump: the dump, or why it does not decode. Where there is
/// no dump, nothing is printed.
pub fn print_if_present(found: Option<Result<CrashDump, String>>, partition_offset: u32) -> (out:
    String)
    ensures
        out@ == report_text(found, partition_offset),
{
    let mut out = String::new();
    match found {
        None => {},
        Some(Ok(dump)) => {
            push_dump(&mut out, &dump, partition_offset);
        },
        Some(Err(e)) => {
            out.append("crashdump: magic OK at 0x");
            push_hex(&mut out, partition_offset as u64, 5);
            out.append(" but decode failed: ");
            out.append(e.as_str());
            out.append("\n");
        },
    }
    out
}

/// Whatever a log holds, what is printed of it is printable, or a line feed:
/// the log of a dump cannot drive the terminal.
pub proof fn law_escaped_is_printable(bytes: Seq<u8>, i: int)
    requires
        0 <= i < escaped(bytes).len(),
    ensures
        ' ' <= escaped(bytes)[i] <= '~' || escaped(bytes)[i] == '\n',
    decreases bytes.len(),
{
    let front = escaped(bytes.drop_last());
    if i < front.len() {
        law_escaped_is_printable(bytes.drop_last(), i);
    } else {
        let b = bytes.last();
        let k = i - front.len();
        assert(escaped(bytes)[i] == escaped_byte(b)[k]);
        lemma_escaped_byte_is_printable(b, k);
    }
}

proof fn lemma_escaped_byte_is_printable(b: u8, k: int)
    requires
        0 <= k < escaped_byte(b).len(),
    ensures
        ' ' <= escaped_byte(b)[k] <= '~' || escaped_byte(b)[k] == '\n',
{
    reveal_strlit("\n");
    reveal_strlit("    ");
    reveal_strlit("\\x");
    lemma_hex_byte_is_printable(b, k - 2);
}

proof fn lemma_hex_byte_is_printable(b: u8, k: int)
    ensures
        hex(b as nat, 2).len() == 2,
        0 <= k < 2 ==> '0' <= hex(b as nat, 2)[k] <= 'F',
{
    reveal_with_fuel(crate::text::digits, 3);
    let n = b as nat;
    assert(n / 16 < 16 && n % 16 < 16);
}

} // verus!
