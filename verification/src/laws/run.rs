//! A whole boot, from the partition to the jump.
//!
//! A run is a list of steps: the first is the answer of `boot`, and each of the
//! others is what the one before it was resumed to, with its read answered from
//! a flash. Memory is what the ROM was asked to copy, one request at a time.
use vstd::prelude::*;
use crate::app;
use crate::app::{copy_request, data_lens, seg_headers, Handover, Segment};
use crate::boot::{
    boot, boot_on, boot_result, launch_steps, law_boot_of_image, law_jump_is_earned, BootCopy,
    BootDigest, BootHash, BootHeaded, BootHeader, BootLoad, BootSegment, BootSize, BootStep,
    BootWalk, HaltReason, Launch, LaunchStep,
};
use crate::bytes::{le_bytes, wrap_u32};
use crate::flash::{FlashError, FlashModel};
use crate::laws::word;
use crate::layout::{body, copyable, holds, holds_part, payload, well_laid_out};
use crate::partition::PartitionEntry;
use crate::sha::sha256;
use crate::slot_select::SelectionOutcome;
use crate::verify::{chunk_size, VerifyError};

verus! {

/// `read` is what the flash holds at `at`.
pub open spec fn answered<const N: usize>(
    flash: FlashModel,
    at: u32,
    read: Result<[u8; N], FlashError>,
) -> bool {
    match flash(at, N as int) {
        Ok(data) => read matches Ok(b) && b@ == data,
        Err(e) => read == Err::<[u8; N], FlashError>(e),
    }
}

/// `chunk` begins with what the flash holds in `len` bytes at `at`.
pub open spec fn chunk_answered(
    flash: FlashModel,
    at: u32,
    len: usize,
    chunk: Result<&[u8; 1024], FlashError>,
) -> bool {
    match flash(at, len as int) {
        Ok(data) => chunk matches Ok(b) && b@.take(len as int) == data,
        Err(e) => chunk == Err::<&[u8; 1024], FlashError>(e),
    }
}

/// Every read that succeeds gives as many bytes as were asked for.
pub open spec fn gives_all(flash: FlashModel) -> bool {
    forall|at: u32, len: int|
        len >= 0 && (#[trigger] flash(at, len)) is Ok ==> flash(at, len)->Ok_0.len() == len
}

/// The four bytes of a number, the lowest first.
pub open spec fn four_bytes(v: int) -> Seq<u8> {
    seq![
        (v % 0x100) as u8,
        (v / 0x100 % 0x100) as u8,
        (v / 0x1_0000 % 0x100) as u8,
        (v / 0x100_0000 % 0x100) as u8,
    ]
}

/// Segments as they lie in an image: load address, data length, data, and right
/// behind it the next.
pub open spec fn packed(segs: Seq<Segment>) -> Seq<u8>
    decreases segs.len(),
{
    if segs.len() == 0 {
        Seq::empty()
    } else {
        packed(segs.drop_last()) + four_bytes(segs.last().load_addr as int) + four_bytes(
            segs.last().data.len() as int,
        ) + segs.last().data
    }
}

/// An image that the bootloader is meant to boot: a 24-byte header that counts
/// the segments, the segments, a checksum of 1 to 16 bytes up to a multiple of
/// 16, and 32 bytes of digest where the header declares one. Segments are whole
/// words, at most 8 MB long, for word-aligned places.
pub open spec fn is_image(
    head: Seq<u8>,
    segs: Seq<Segment>,
    checksum: Seq<u8>,
    digest: Seq<u8>,
) -> bool {
    &&& head.len() == 24
    &&& head[0] == 0xE9
    &&& head[1] == segs.len()
    &&& 1 <= checksum.len() <= 16
    &&& (head + packed(segs) + checksum).len() % 16 == 0
    &&& digest.len() == if head[23] != 0 {
        32int
    } else {
        0
    }
    &&& forall|i: int|
        #![trigger segs[i]]
        0 <= i < segs.len() ==> {
            &&& segs[i].data.len() <= 0x80_0000
            &&& segs[i].data.len() % 4 == 0
            &&& segs[i].load_addr % 4 == 0
        }
}

/// A read of `len` bytes `pos` bytes behind `offset` gives that part of `image`.
pub open spec fn part_lies(
    flash: FlashModel,
    offset: u32,
    image: Seq<u8>,
    pos: int,
    len: int,
) -> bool {
    flash(((offset + pos) % 0x1_0000_0000) as u32, len) == Ok::<Seq<u8>, FlashError>(
        image.subrange(pos, pos + len),
    )
}

/// The flash holds `image` from `offset` on.
pub open spec fn lies(flash: FlashModel, offset: u32, image: Seq<u8>) -> bool {
    forall|pos: int, len: int|
        0 <= pos && 0 <= len && pos + len <= image.len() ==> #[trigger] part_lies(
            flash,
            offset,
            image,
            pos,
            len,
        )
}

/// What holds at each step of a run from `offset`.
pub open spec fn on_course(
    flash: FlashModel,
    offset: u32,
    step: BootStep,
    memory: Seq<Segment>,
) -> bool {
    &&& boot_result(step, flash, memory) == boot_on(flash, offset)
    &&& match step {
        BootStep::ReadHeader { at, next } => at == next@ && memory.len() == 0,
        BootStep::HeaderRead { .. } => memory.len() == 0,
        BootStep::ReadSegmentHeader { at, next } => {
            &&& at == wrap_u32(next@.1.flash_offset + app::segment_start(next@.1.lens))
            &&& memory.len() == 0
        },
        BootStep::ReadChunk { at, len, next } => {
            &&& at == wrap_u32(next@.1.flash_offset + next@.1.payload.len())
            &&& len == chunk_size(next@.1.payload_len, next@.1.payload.len() as int)
            &&& memory.len() == 0
        },
        BootStep::ReadDigest { at, next } => {
            &&& at == wrap_u32(next@.1.flash_offset + next@.1.payload_len)
            &&& memory.len() == 0
        },
        BootStep::Checked { .. } => memory.len() == 0,
        BootStep::ReadLoadHeader { at, next } => {
            &&& at == wrap_u32(
                next@.1.flash_offset + app::segment_start(data_lens(next@.1.placed)),
            )
            &&& seg_headers(memory) == next@.1.placed
        },
        BootStep::Segment { next, .. } => seg_headers(memory) == next@.1.placed,
        BootStep::Copy { request, next } => {
            &&& request == copy_request(next@.1, next@.2)
            &&& request.len == next@.2.data_len
            &&& next@.2.load_addr % 4 == 0
            &&& seg_headers(memory) == next@.1.placed
        },
        BootStep::Jump(_) => true,
        BootStep::Heartbeat(reason) => reason is Load || memory.len() == 0,
    }
}

/// Packed segments are the body of an image.
proof fn lemma_packed(segs: Seq<Segment>)
    requires
        forall|i: int| 0 <= i < segs.len() ==> (#[trigger] segs[i]).data.len() <= 0x80_0000,
    ensures
        packed(segs) == body(segs),
    decreases segs.len(),
{
    if segs.len() > 0 {
        let s = segs.last();
        assert(s.data.len() <= 0x80_0000);
        assert forall|i: int| 0 <= i < segs.drop_last().len() implies (
        #[trigger] segs.drop_last()[i]).data.len() <= 0x80_0000 by {
            assert(segs[i].data.len() <= 0x80_0000);
        }
        lemma_packed(segs.drop_last());
        assert(four_bytes(s.load_addr as int) =~= le_bytes(s.load_addr));
        assert(four_bytes(s.data.len() as int) =~= le_bytes(s.data.len() as u32));
        assert(packed(segs) =~= body(segs));
    }
}

/// An image of the right shape boots, or is refused for its digest.
proof fn lemma_image(
    flash: FlashModel,
    offset: u32,
    head: Seq<u8>,
    segs: Seq<Segment>,
    checksum: Seq<u8>,
    digest: Seq<u8>,
)
    requires
        is_image(head, segs, checksum, digest),
        lies(flash, offset, head + packed(segs) + checksum + digest),
    ensures
        well_laid_out(head, segs, checksum),
        copyable(segs),
        payload(head, segs, checksum) == head + packed(segs) + checksum,
        holds(flash, offset, payload(head, segs, checksum) + digest),
{
    assert forall|i: int| 0 <= i < segs.len() implies (#[trigger] segs[i]).data.len()
        <= 0x80_0000 by {}
    lemma_packed(segs);
    let image = head + packed(segs) + checksum + digest;
    assert(payload(head, segs, checksum) + digest =~= image);
    assert forall|pos: int, len: int|
        0 <= pos && 0 <= len && pos + len <= image.len() implies #[trigger] holds_part(
        flash,
        offset,
        image,
        pos,
        len,
    ) by {
        assert(part_lies(flash, offset, image, pos, len));
    }
}

/// A run that ends in a jump has read a header that begins with 0xE9, goes to the
/// entry address of its bytes 4 to 7, and has copied as many segments as its
/// byte 1 says. On an image, it ends in a jump to that address with exactly the
/// image's segments copied, each in full to its load address, provided that the
/// digest, where there is one, is the SHA-256 of all that stands in front of it;
/// if it is not, the run ends in a heartbeat that tells both digests, and
/// nothing was copied. No run on an image ends in any other way.
#[verifier::rlimit(60)]
pub proof fn law_run(
    flash: FlashModel,
    part: PartitionEntry,
    outcome: SelectionOutcome,
    steps: Seq<BootStep>,
    memory: Seq<Seq<Segment>>,
    i: int,
    head: Seq<u8>,
    segs: Seq<Segment>,
    checksum: Seq<u8>,
    digest: Seq<u8>,
)
    requires
        gives_all(flash),
        0 <= i < steps.len(),
        memory.len() == steps.len(),
        memory[0].len() == 0,
        call_ensures(boot, (Ok((part, outcome)),), steps[0]),
        forall|j: int|
            0 <= j < steps.len() - 1 ==> match #[trigger] steps[j] {
                BootStep::ReadHeader { at, next: k } => memory[j + 1] == memory[j] && exists|read|
                    answered::<24>(flash, at, read) && #[trigger] call_ensures(
                        BootHeader::resume,
                        (k, read),
                        steps[j + 1],
                    ),
                BootStep::HeaderRead { next: k, .. } => memory[j + 1] == memory[j] && call_ensures(
                    BootHeaded::begin,
                    (k,),
                    steps[j + 1],
                ),
                BootStep::ReadSegmentHeader { at, next: k } => memory[j + 1] == memory[j]
                    && exists|read|
                    answered::<8>(flash, at, read) && #[trigger] call_ensures(
                        BootSize::resume,
                        (k, read),
                        steps[j + 1],
                    ),
                BootStep::ReadChunk { at, len, next: k } => memory[j + 1] == memory[j]
                    && exists|chunk|
                    chunk_answered(flash, at, len, chunk) && #[trigger] call_ensures(
                        BootHash::resume,
                        (k, chunk),
                        steps[j + 1],
                    ),
                BootStep::ReadDigest { at, next: k } => memory[j + 1] == memory[j] && exists|read|
                    answered::<32>(flash, at, read) && #[trigger] call_ensures(
                        BootDigest::resume,
                        (k, read),
                        steps[j + 1],
                    ),
                BootStep::Checked { next: k, .. } => memory[j + 1] == memory[j] && call_ensures(
                    BootLoad::begin,
                    (k,),
                    steps[j + 1],
                ),
                BootStep::ReadLoadHeader { at, next: k } => memory[j + 1] == memory[j]
                    && exists|read|
                    answered::<8>(flash, at, read) && #[trigger] call_ensures(
                        BootWalk::resume,
                        (k, read),
                        steps[j + 1],
                    ),
                BootStep::Segment { next: k, .. } => memory[j + 1] == memory[j] && call_ensures(
                    BootSegment::begin,
                    (k,),
                    steps[j + 1],
                ),
                BootStep::Copy { request, next: k } => match flash(
                    request.target,
                    request.len as int,
                ) {
                    Ok(data) => {
                        &&& memory[j + 1] == memory[j].push(
                            Segment { load_addr: request.dest as u32, data },
                        )
                        &&& call_ensures(BootCopy::resume, (k, 0i32), steps[j + 1])
                    },
                    Err(FlashError::Rom(status)) => {
                        &&& status != 0
                        &&& memory[j + 1] == memory[j]
                        &&& call_ensures(BootCopy::resume, (k, status), steps[j + 1])
                    },
                    Err(FlashError::Unaligned) => false,
                },
                BootStep::Jump(_) => false,
                BootStep::Heartbeat(_) => false,
            },
    ensures
        on_course(flash, part.offset, steps[i], memory[i]),
        steps[i] matches BootStep::Jump(launch) ==> {
            &&& flash(part.offset, 24) matches Ok(b)
            &&& b[0] == 0xE9
            &&& launch@.0.header.entry_addr == word(b, 4)
            &&& memory[i].len() == b[1]
        },
        is_image(head, segs, checksum, digest) && lies(
            flash,
            part.offset,
            head + packed(segs) + checksum + digest,
        ) ==> {
            let covered = head + packed(segs) + checksum;
            &&& steps[i] matches BootStep::Jump(launch) ==> {
                &&& head[23] == 0 || digest == sha256(covered)
                &&& launch@.0.header.entry_addr == word(head, 4)
                &&& memory[i] == segs
            }
            &&& steps[i] matches BootStep::Heartbeat(reason) ==> {
                &&& head[23] != 0
                &&& digest != sha256(covered)
                &&& memory[i].len() == 0
                &&& reason matches HaltReason::Digest(VerifyError::Mismatch { expected, actual })
                &&& expected@ == digest
                &&& actual@ == sha256(covered)
            }
        },
    decreases i,
{
    assert(crate::flash::reads_whole(flash));
    assert(seg_headers(Seq::empty()) =~= Seq::empty());
    assert(memory[0] =~= Seq::empty());
    if i > 0 {
        law_run(
            flash,
            part,
            outcome,
            steps,
            memory,
            i - 1,
            head,
            segs,
            checksum,
            digest,
        );
        let before = memory[i - 1];
        assert(before.len() == 0 ==> before =~= Seq::empty());
        match steps[i - 1] {
            BootStep::Copy { request, next: k } => {
                if let Ok(data) = flash(request.target, request.len as int) {
                    let segment = Segment { load_addr: request.dest as u32, data };
                    assert(app::copied_on(flash, k@.1, k@.2) == Ok::<Segment, app::AppLoadError>(
                        segment,
                    ));
                    assert(segment.data.len() == k@.2.data_len);
                    assert(seg_headers(before.push(segment)) =~= k@.1.placed.push(k@.2));
                    assert(boot_result(steps[i], flash, before.push(segment)) == boot_on(
                        flash,
                        part.offset,
                    ));
                } else {
                    assert(boot_result(steps[i], flash, before) == boot_on(flash, part.offset));
                }
            },
            _ => {
                assert(boot_result(steps[i], flash, before) == boot_on(flash, part.offset));
            },
        }
    }
    assert(on_course(flash, part.offset, steps[i], memory[i]));
    law_jump_is_earned(flash, part.offset);
    if is_image(head, segs, checksum, digest) && lies(
        flash,
        part.offset,
        head + packed(segs) + checksum + digest,
    ) {
        lemma_image(flash, part.offset, head, segs, checksum, digest);
        law_boot_of_image(flash, part.offset, head, segs, checksum, digest);
    }
}

/// A launch drains the console, arms the watchdog with half a minute, settles
/// the caches, and jumps to the entry address of the image that was booted.
pub proof fn law_launch_order(launch: Launch, steps: [LaunchStep; 6])
    requires
        call_ensures(launch_steps, (&launch,), steps),
    ensures
        steps@[0] == LaunchStep::DrainConsole,
        steps@[1] == (LaunchStep::ArmWatchdog { timeout_ms: 30_000 }),
        steps@[2] == LaunchStep::HandOver(Handover::WriteBack { map: 0x30 }),
        steps@[3] == LaunchStep::HandOver(Handover::Invalidate { map: 0x23 }),
        steps@[4] == LaunchStep::HandOver(Handover::FenceInstructions),
        steps@[5] == LaunchStep::HandOver(
            Handover::Jump { entry_addr: launch@.0.header.entry_addr },
        ),
{
    assert(0x10u32 | 0x20u32 == 0x30u32) by (bit_vector);
    assert(0x01u32 | 0x02u32 | 0x20u32 == 0x23u32) by (bit_vector);
}

} // verus!
