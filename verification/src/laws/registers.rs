//! Flash reads, words in byte strings, and pads.
use vstd::prelude::*;
use crate::bytes::{u16_at, u32_at};
use crate::flash;
use crate::flash::{read_into, read_u32, FlashError, RomRead};
use crate::gpio;
use crate::gpio::{configure_input, input_register, Pull, RegisterUpdate};
use crate::laws::{half, word};

verus! {

/// A word of two or of four bytes is read from where it is asked for, the lowest
/// byte first.
pub proof fn law_words_are_their_bytes(b: &[u8], at: usize, x: u16, y: u32)
    requires
        at + 2 <= b@.len() ==> call_ensures(u16_at, (b, at), x),
        at + 4 <= b@.len() ==> call_ensures(u32_at, (b, at), y),
    ensures
        at + 2 <= b@.len() ==> x == half(b@, at as int),
        at + 4 <= b@.len() ==> y == word(b@, at as int),
{
}

/// A read is asked of the ROM as it is asked for, if and only if both its length
/// and its destination are whole words.
pub proof fn law_read_is_passed_on(
    addr: u32,
    dest: usize,
    len: usize,
    r: Result<RomRead, FlashError>,
)
    requires
        call_ensures(flash::read, (addr, dest, len), r),
    ensures
        r is Ok <==> len % 4 == 0 && dest % 4 == 0,
        r matches Err(e) ==> e == FlashError::Unaligned,
        r matches Ok(request) ==> {
            &&& request.target == addr
            &&& request.dest == dest
            &&& request.len == len as i32
            &&& len <= 0x7FFF_FFFF ==> request.len == len
        },
{
}

/// A read of an array asks for as many bytes as the array has.
pub proof fn law_array_is_read_whole<const N: usize>(
    addr: u32,
    dest: usize,
    r: Result<RomRead, FlashError>,
)
    requires
        call_ensures(read_into::<N>, (addr, dest), r),
    ensures
        r is Ok <==> N % 4 == 0 && dest % 4 == 0,
        r matches Err(e) ==> e == FlashError::Unaligned,
        r matches Ok(request) ==> {
            &&& request.target == addr
            &&& request.dest == dest
            &&& request.len == N as i32
            &&& N <= 0x7FFF_FFFF ==> request.len == N
        },
{
}

/// A word that was read is the number that its bytes stand for; an error is
/// handed on.
pub proof fn law_word_is_read(b: Result<[u8; 4], FlashError>, r: Result<u32, FlashError>)
    requires
        call_ensures(read_u32, (b,), r),
    ensures
        b matches Ok(bytes) ==> r matches Ok(v) && v == word(bytes@, 0),
        b matches Err(e) ==> r matches Err(f) && f == e,
{
}

/// A read succeeded if and only if the ROM says zero; any other status is handed
/// on.
pub proof fn law_status_is_handed_on(request: RomRead, status: i32, r: Result<(), FlashError>)
    requires
        call_ensures(RomRead::finish, (request, status), r),
    ensures
        r is Ok <==> status == 0,
        r matches Err(e) ==> e == FlashError::Rom(status),
{
}

/// Bit `k` of `v`.
pub open spec fn bit(v: u32, k: u8) -> bool {
    (v >> k) & 1 == 1
}

proof fn lemma_bits(v: u32, clear: u32, set: u32, k: u8)
    requires
        k < 32,
    ensures
        bit((v & !clear) | set, k) <==> bit(set, k) || bit(v, k) && !bit(clear, k),
{
    assert(((((v & !clear) | set) >> k) & 1 == 1) <==> ((set >> k) & 1 == 1 || (v >> k) & 1 == 1
        && !((clear >> k) & 1 == 1))) by (bit_vector)
        requires
            k < 32,
    ;
}

proof fn lemma_one_bit(n: u8, k: u8)
    requires
        n < 32,
        k < 32,
    ensures
        bit(1u32 << n, k) <==> k == n,
{
    assert((((1u32 << n) >> k) & 1 == 1) <==> k == n) by (bit_vector)
        requires
            n < 32,
            k < 32,
    ;
}

/// A change of a register sets what it sets, clears what it clears, and leaves
/// the rest, bit by bit; what is both cleared and set is set.
pub proof fn law_update_goes_bit_by_bit(update: RegisterUpdate, v: u32, r: u32, k: u8)
    requires
        k < 32,
        call_ensures(RegisterUpdate::apply, (update, v), r),
    ensures
        bit(update.set, k) ==> bit(r, k),
        bit(update.clear, k) && !bit(update.set, k) ==> !bit(r, k),
        !bit(update.clear, k) && !bit(update.set, k) ==> bit(r, k) == bit(v, k),
{
    lemma_bits(v, update.clear, update.set, k);
}

/// To make a pad an input, its bit of the output enables is cleared and no other
/// bit is touched; in its own multiplexer register, the input (bit 9) is enabled,
/// the GPIO matrix (1 in bits 12 to 14) is selected, the pull-up (bit 8) and the
/// pull-down (bit 7) are as asked for, and no other bit is touched.
pub proof fn law_pad_becomes_an_input(
    gpio_num: u8,
    pull: Pull,
    changes: (RegisterUpdate, RegisterUpdate),
    enable: u32,
    enable_after: u32,
    mux: u32,
    mux_after: u32,
    k: u8,
)
    requires
        gpio_num < 64,
        k < 32,
        call_ensures(configure_input, (gpio_num, pull), changes),
        call_ensures(RegisterUpdate::apply, (changes.0, enable), enable_after),
        call_ensures(RegisterUpdate::apply, (changes.1, mux), mux_after),
    ensures
        changes.0.addr == if gpio_num < 32 {
            0x500E_2020
        } else {
            0x500E_2024int
        },
        bit(enable_after, k) <==> bit(enable, k) && k != gpio_num % 32,
        changes.1.addr == 0x500E_1004 + 4 * gpio_num,
        bit(mux_after, k) <==> if k == 9 {
            true
        } else if k == 8 {
            pull is Up
        } else if k == 7 {
            pull is Down
        } else if k == 12 {
            true
        } else if k == 13 || k == 14 {
            false
        } else {
            bit(mux, k)
        },
{
    lemma_bits(enable, changes.0.clear, changes.0.set, k);
    lemma_one_bit((gpio_num % 32) as u8, k);
    assert(!bit(0u32, k)) by {
        assert(!((0u32 >> k) & 1 == 1)) by (bit_vector);
    }
    lemma_bits(mux, changes.1.clear, changes.1.set, k);
    let clear = changes.1.clear;
    let set = changes.1.set;
    let p = match pull {
        Pull::Up => 0x100u32,
        Pull::Down => 0x80u32,
        Pull::Floating => 0u32,
    };
    assert(clear == 0x100u32 | 0x80u32 | 0x200u32 | 0x7000u32);
    assert(set == 0x200u32 | p | 0x1000u32);
    assert((((clear >> k) & 1 == 1) <==> (7 <= k <= 9 || 12 <= k <= 14)) && (((set >> k) & 1 == 1)
        <==> (k == 9 || k == 12 || k == 8 && p == 0x100 || k == 7 && p == 0x80))) by (bit_vector)
        requires
            k < 32,
            p == 0x100 || p == 0x80 || p == 0,
            clear == 0x100u32 | 0x80u32 | 0x200u32 | 0x7000u32,
            set == 0x200u32 | p | 0x1000u32,
    ;
}

/// The level of a pad is its bit of the input register, of the first register for
/// the pads 0 to 31 and of the second for the others.
pub proof fn law_level_is_the_bit(gpio_num: u8, addr: usize, v: u32, high: bool)
    requires
        gpio_num < 64,
        call_ensures(input_register, (gpio_num,), addr),
        call_ensures(gpio::read, (gpio_num, v), high),
    ensures
        addr == if gpio_num < 32 {
            0x500E_2044
        } else {
            0x500E_2048int
        },
        high <==> bit(v, (gpio_num % 32) as u8),
{
    let n: u8 = (gpio_num % 32) as u8;
    assert((v & (1u32 << n) != 0) <==> ((v >> n) & 1 == 1)) by (bit_vector)
        requires
            n < 32,
    ;
}

} // verus!
