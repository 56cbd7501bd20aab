//! Flash reads through the mask-ROM routine.
//!
//! The ROM routine copies whole words to a word-aligned place in memory and
//! answers with a status. [`read`] turns a request into the call to make, or
//! refuses it; [`RomRead::finish`] turns the status into a result.
use vstd::prelude::*;
use vstd::string::*;
use crate::bytes::{le_u32, u32_at};
use crate::text::{push_signed, signed_dec};

verus! {

#[derive(Debug, Clone, Copy, PartialEq, Eq, Structural)]
pub enum FlashError {
    /// Length or destination is not a multiple of 4 bytes: the ROM reads words.
    Unaligned,
    /// The ROM returned a non-zero status.
    Rom(i32),
}

/// The arguments of one call of the ROM read routine.
#[derive(Debug, Clone, Copy, PartialEq, Eq, Structural)]
pub struct RomRead {
    pub target: u32,
    pub dest: usize,
    pub len: i32,
}

/// A flash as reads see it: what a read at an address, of a length, gives.
pub type FlashModel = spec_fn(u32, int) -> Result<Seq<u8>, FlashError>;

/// Whether every read that succeeds gives as many bytes as were asked for.
pub open spec fn reads_whole(flash: FlashModel) -> bool {
    forall|at: u32, len: int|
        len >= 0 && (#[trigger] flash(at, len)) is Ok ==> flash(at, len)->Ok_0.len() == len
}

/// Whether the ROM takes a read of `len` bytes to `dest`.
pub open spec fn word_aligned(dest: usize, len: usize) -> bool {
    len % 4 == 0 && dest % 4 == 0
}

/// What a ROM status means.
pub open spec fn rom_result(status: i32) -> Result<(), FlashError> {
    if status == 0 {
        Ok(())
    } else {
        Err(FlashError::Rom(status))
    }
}

/// Asks for `len` bytes of flash at `addr`, to be copied to `dest`.
pub fn read(addr: u32, dest: usize, len: usize) -> (r: Result<RomRead, FlashError>)
    ensures
        r == if word_aligned(dest, len) {
            Ok::<RomRead, FlashError>(RomRead { target: addr, dest, len: len as i32 })
        } else {
            Err(FlashError::Unaligned)
        },
{
    if len % 4 != 0 || dest % 4 != 0 {
        return Err(FlashError::Unaligned);
    }
    Ok(RomRead { target: addr, dest, len: len as i32 })
}

/// Asks for a whole array of `N` bytes at `addr`, to be copied to `dest`.
pub fn read_into<const N: usize>(addr: u32, dest: usize) -> (r: Result<RomRead, FlashError>)
    ensures
        r == if word_aligned(dest, N) {
            Ok::<RomRead, FlashError>(RomRead { target: addr, dest, len: N as i32 })
        } else {
            Err(FlashError::Unaligned)
        },
{
    read(addr, dest, N)
}

/// The 32-bit word in a four-byte read.
pub fn read_u32(word: Result<[u8; 4], FlashError>) -> (r: Result<u32, FlashError>)
    ensures
        match word {
            Ok(b) => r == Ok::<u32, FlashError>(le_u32(b@, 0)),
            Err(e) => r == Err::<u32, FlashError>(e),
        },
{
    match word {
        Ok(b) => Ok(u32_at(b.as_slice(), 0)),
        Err(e) => Err(e),
    }
}

impl RomRead {
    /// What the ROM's status says of this read.
    pub fn finish(self, status: i32) -> (r: Result<(), FlashError>)
        ensures
            r == rom_result(status),
    {
        if status == 0 {
            Ok(())
        } else {
            Err(FlashError::Rom(status))
        }
    }
}

/// A flash error in words.
pub open spec fn flash_error_text(e: FlashError) -> Seq<char> {
    match e {
        FlashError::Unaligned => "Unaligned"@,
        FlashError::Rom(status) => "Rom("@ + signed_dec(status as int) + ")"@,
    }
}

/// Appends a flash error in words.
pub fn push_flash_error(out: &mut String, e: FlashError)
    ensures
        final(out)@ == old(out)@ + flash_error_text(e),
{
    match e {
        FlashError::Unaligned => {
            out.append("Unaligned");
        },
        FlashError::Rom(status) => {
            out.append("Rom(");
            push_signed(out, status);
            out.append(")");
        },
    }
}

} // verus!
