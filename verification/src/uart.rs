//! The console on UART0: what its registers say, and the bytes of a text on
//! the wire.
use vstd::prelude::*;

verus! {

/// How many bytes the transmit FIFO holds.
pub const UART_TXFIFO_CAPACITY: u32 = 128;

/// How many bytes wait in the transmit FIFO, by the status register.
pub fn txfifo_count(status: u32) -> (n: u32)
    ensures
        n == (status / 0x1_0000) % 0x100,
{
    let n = (status & 0xFF_0000) >> 16;
    assert((status & 0xFF_0000) >> 16 == (status / 0x1_0000) % 0x100) by (bit_vector);
    n
}

/// How many bytes wait in the receive FIFO, by the status register.
pub fn rxfifo_count(status: u32) -> (n: u32)
    ensures
        n == status % 0x100,
{
    let n = status & 0xFF;
    assert(status & 0xFF == status % 0x100) by (bit_vector);
    n
}

/// Whether the transmit FIFO takes one more byte.
pub fn can_send(status: u32) -> (r: bool)
    ensures
        r == ((status / 0x1_0000) % 0x100 < UART_TXFIFO_CAPACITY),
{
    txfifo_count(status) < UART_TXFIFO_CAPACITY
}

/// Whether all that was sent is on the wire.
pub fn is_drained(status: u32) -> (r: bool)
    ensures
        r == ((status / 0x1_0000) % 0x100 == 0),
{
    txfifo_count(status) == 0
}

/// Whether a byte was received.
pub fn can_receive(status: u32) -> (r: bool)
    ensures
        r == (status % 0x100 != 0),
{
    rxfifo_count(status) != 0
}

/// The byte that was received, in the FIFO register.
pub fn received(fifo: u32) -> (b: u8)
    ensures
        b == fifo % 0x100,
{
    assert(fifo & 0xFF == fifo % 0x100) by (bit_vector);
    (fifo & 0xFF) as u8
}

/// Bytes on the wire: a carriage return stands in front of each line feed.
pub open spec fn on_wire(b: Seq<u8>) -> Seq<u8>
    decreases b.len(),
{
    if b.len() == 0 {
        Seq::empty()
    } else if b.last() == 0x0A {
        on_wire(b.drop_last()).push(0x0D).push(0x0A)
    } else {
        on_wire(b.drop_last()).push(b.last())
    }
}

/// The bytes of a text on the wire.
pub fn wire_bytes(s: &str) -> (out: Vec<u8>)
    ensures
        out@ == on_wire(vstd::utf8::encode_utf8(s@)),
{
    let b = s.as_bytes();
    let mut out: Vec<u8> = Vec::new();
    let mut i: usize = 0;
    while i < b.len()
        invariant
            i <= b@.len(),
            out@ == on_wire(b@.take(i as int)),
        decreases b@.len() - i,
    {
        if b[i] == 0x0A {
            out.push(0x0D);
        }
        out.push(b[i]);
        i += 1;
        assert(b@.take(i as int).drop_last() =~= b@.take(i - 1));
    }
    assert(b@.take(i as int) =~= b@);
    out
}

/// Every line feed on the wire comes right after a carriage return.
pub proof fn law_line_feeds_are_led(b: Seq<u8>, i: int)
    requires
        0 <= i < on_wire(b).len(),
        on_wire(b)[i] == 0x0A,
    ensures
        i > 0,
        on_wire(b)[i - 1] == 0x0D,
    decreases b.len(),
{
    let front = on_wire(b.drop_last());
    if i < front.len() {
        law_line_feeds_are_led(b.drop_last(), i);
    }
}

/// Text without line feeds is on the wire as it is.
pub proof fn law_plain_text_is_kept(b: Seq<u8>)
    requires
        !b.contains(0x0A),
    ensures
        on_wire(b) == b,
    decreases b.len(),
{
    if b.len() > 0 {
        assert(b.contains(b.last()));
        assert forall|i: int| 0 <= i < b.drop_last().len() implies b.drop_last()[i] != 0x0A by {
            assert(b.contains(b[i]));
        }
        law_plain_text_is_kept(b.drop_last());
        assert(b.drop_last().push(b.last()) =~= b);
    }
}

} // verus!
