//! What the operations of this crate do, said of what goes into them and what
//! comes out.
//!
//! `call_ensures(f, args, r)` reads: `r` is a result of `f` on `args`. The laws
//! say of such a result what it must satisfy, in bytes and numbers, or how it
//! relates to the result of another call. They lean on the contracts, and on
//! nothing that the contracts do not say.
//!
//! * [`image`]: headers, sizes, digests and loads, one step at a time.
//! * [`table`]: the partition table and the searches in it.
//! * [`choice`]: from the update policy to the partition that boots.
//! * [`boot`]: the steps of a boot.
//! * [`run`]: a whole boot, from the partition to the jump.
//! * [`shell`]: the recovery shell.
//! * [`console`]: numbers, texts, the lines of a boot, and bytes on the wire.
//! * [`reports`]: the reports at the start of a boot.
//! * [`registers`]: flash reads, words in byte strings, and pads.
use vstd::prelude::*;
use crate::app::SegmentHeader;

pub mod boot;
pub mod choice;
pub mod console;
pub mod image;
pub mod registers;
pub mod reports;
pub mod run;
pub mod shell;
pub mod table;

verus! {

/// The number that two bytes from `at` on stand for, the lowest first.
pub open spec fn half(b: Seq<u8>, at: int) -> int {
    b[at] + 0x100 * b[at + 1]
}

/// The number that four bytes from `at` on stand for, the lowest first.
pub open spec fn word(b: Seq<u8>, at: int) -> int {
    b[at] + 0x100 * b[at + 1] + 0x1_0000 * b[at + 2] + 0x100_0000 * b[at + 3]
}

/// The flash address `pos` bytes behind `offset`; addresses have 32 bits.
pub open spec fn place(offset: u32, pos: int) -> int {
    (offset + pos) % 0x1_0000_0000
}

/// Where an image with segments of these data lengths ends, without its
/// checksum: 24 bytes of header, and 8 more in front of each segment.
pub open spec fn end_of(lens: Seq<u32>) -> int {
    lens.fold_left(24int, |end: int, len: u32| end + 8 + len)
}

/// The data lengths of segments.
pub open spec fn lens_of(segments: Seq<SegmentHeader>) -> Seq<u32> {
    segments.map_values(|s: SegmentHeader| s.data_len)
}

/// `size` is the next multiple of 16 behind the end of the segments: there is
/// room for a checksum of 1 to 16 bytes.
pub open spec fn closes(size: int, lens: Seq<u32>) -> bool {
    &&& size % 16 == 0
    &&& end_of(lens) < size <= end_of(lens) + 16
}

} // verus!
