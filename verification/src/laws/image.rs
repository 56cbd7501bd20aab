//! Headers, sizes, digests and loads, one step at a time.
use vstd::prelude::*;
use crate::app::{
    compute_image_total_size, data_lens, jump_to_entry, load_segments, read_header, segment_start,
    AppLoadError, Handover, ImageHeader, LoadCopy, LoadSegment, LoadStep, LoadView, LoadWalk,
    SegmentHeader, SizeStep, SizeWalk, SizeWalkView,
};
use crate::flash::FlashError;
use crate::laws::{closes, end_of, half, lens_of, place, word};
use crate::sha::sha256;
use crate::verify::{
    verify_app_sha256, HashView, VerifyDigest, VerifyError, VerifyHash, VerifySize, VerifyStep,
};

verus! {

/// Segments end where the lengths in front of them say.
pub proof fn lemma_end_of(lens: Seq<u32>)
    ensures
        segment_start(lens) == end_of(lens),
    decreases lens.len(),
{
    if lens.len() > 0 {
        lemma_end_of(lens.drop_last());
    }
}

/// A header is read from 24 bytes if and only if the first of them is 0xE9:
/// then it holds the segment count of byte 1, the entry address of bytes 4 to
/// 7, the chip of bytes 12 and 13, and a digest is declared where byte 23 is
/// not zero. A wrong first byte is reported.
pub proof fn law_header_holds_its_bytes(b: [u8; 24], r: Result<ImageHeader, AppLoadError>)
    requires
        call_ensures(read_header, (Ok(b),), r),
    ensures
        b@[0] == 0xE9 ==> r is Ok,
        b@[0] != 0xE9 ==> r == Err::<ImageHeader, AppLoadError>(AppLoadError::BadMagic(b@[0])),
        r matches Ok(h) ==> {
            &&& h.magic == 0xE9
            &&& h.segment_count == b@[1]
            &&& h.entry_addr == word(b@, 4)
            &&& h.chip_id == half(b@, 12)
            &&& h.hash_appended == (b@[23] != 0)
        },
{
}

/// Two headers that agree in their entry address bytes have the same entry
/// address, and two that do not have not.
pub proof fn law_entry_address_is_its_bytes(
    a: [u8; 24],
    b: [u8; 24],
    ra: ImageHeader,
    rb: ImageHeader,
)
    requires
        call_ensures(read_header, (Ok(a),), Ok(ra)),
        call_ensures(read_header, (Ok(b),), Ok(rb)),
    ensures
        ra.entry_addr == rb.entry_addr <==> a@.subrange(4, 8) == b@.subrange(4, 8),
{
    if a@.subrange(4, 8) == b@.subrange(4, 8) {
        assert forall|i: int| 4 <= i < 8 implies a@[i] == b@[i] by {
            assert(a@.subrange(4, 8)[i - 4] == a@[i]);
            assert(b@.subrange(4, 8)[i - 4] == b@[i]);
        }
    }
    if ra.entry_addr == rb.entry_addr {
        assert(a@[4] == b@[4] && a@[5] == b@[5] && a@[6] == b@[6] && a@[7] == b@[7]);
        assert(a@.subrange(4, 8) =~= b@.subrange(4, 8));
    }
}

/// A header that cannot be read is reported with the error of the read.
pub proof fn law_unreadable_header(e: FlashError, r: Result<ImageHeader, AppLoadError>)
    requires
        call_ensures(read_header, (Err(e),), r),
    ensures
        r == Err::<ImageHeader, AppLoadError>(AppLoadError::Flash(e)),
{
}

/// `size` is the length of an image with segments of these data lengths.
pub open spec fn sized(size: u32, hashed: bool, lens: Seq<u32>) -> bool {
    if hashed {
        closes(size - 32, lens)
    } else {
        closes(size as int, lens)
    }
}

/// `step` is right for a size walk that has seen these data lengths: the next
/// segment header lies right behind the last segment, and behind the last of
/// all the size is known.
pub open spec fn right_size_step(
    step: SizeStep,
    offset: u32,
    header: ImageHeader,
    lens: Seq<u32>,
) -> bool {
    if lens.len() < header.segment_count {
        step matches SizeStep::ReadSegmentHeader { at, walk } && {
            &&& at == place(offset, end_of(lens))
            &&& walk@ == SizeWalkView { flash_offset: offset, header, lens }
        }
    } else {
        step matches SizeStep::Done(Ok(size)) && sized(size, header.hash_appended, lens)
    }
}

/// A size walk begins right behind the header.
pub proof fn law_size_begins(offset: u32, header: ImageHeader, step: SizeStep)
    requires
        call_ensures(compute_image_total_size, (offset, &header), step),
    ensures
        right_size_step(step, offset, header, Seq::empty()),
{
    lemma_end_of(Seq::empty());
}

/// A size walk takes the data length from bytes 4 to 7 of a segment header and
/// goes on behind that segment; one of more than 8 MB is refused.
pub proof fn law_size_goes_on(walk: SizeWalk, b: [u8; 8], step: SizeStep)
    requires
        call_ensures(SizeWalk::resume, (walk, Ok::<[u8; 8], FlashError>(b)), step),
    ensures
        word(b@, 4) > 0x80_0000 ==> step == SizeStep::Done(
            Err(AppLoadError::SegmentTooLarge(word(b@, 4) as u32)),
        ),
        word(b@, 4) <= 0x80_0000 ==> right_size_step(
            step,
            walk@.flash_offset,
            walk@.header,
            walk@.lens.push(word(b@, 4) as u32),
        ),
{
    lemma_end_of(walk@.lens.push(word(b@, 4) as u32));
}

/// A segment header that cannot be read ends a size walk with the error of the
/// read.
pub proof fn law_size_read_fails(walk: SizeWalk, e: FlashError, step: SizeStep)
    requires
        call_ensures(SizeWalk::resume, (walk, Err::<[u8; 8], FlashError>(e)), step),
    ensures
        step == SizeStep::Done(Err(AppLoadError::Flash(e))),
{
}

/// `step` is right for a check that has hashed these bytes of an image: it reads
/// on where they end, at most 1024 bytes and no further than the digest, and
/// then reads the digest.
pub open spec fn right_hash_step(step: VerifyStep, view: HashView) -> bool {
    if view.payload.len() < view.payload_len {
        step matches VerifyStep::ReadChunk { at, len, hash } && {
            &&& at == place(view.flash_offset, view.payload.len() as int)
            &&& 0 < len <= 1024
            &&& view.payload.len() + len <= view.payload_len
            &&& len == 1024 || view.payload.len() + len == view.payload_len
            &&& hash@ == view
        }
    } else {
        step matches VerifyStep::ReadDigest { at, compare } && {
            &&& at == place(view.flash_offset, view.payload_len)
            &&& compare@ == view
        }
    }
}

/// `step` is right for a check that has seen these data lengths: once it has
/// seen all, it hashes everything up to the multiple of 16 that closes the
/// image.
pub open spec fn right_check_step(
    step: VerifyStep,
    offset: u32,
    header: ImageHeader,
    lens: Seq<u32>,
) -> bool {
    if lens.len() < header.segment_count {
        step matches VerifyStep::ReadSegmentHeader { at, walk } && {
            &&& at == place(offset, end_of(lens))
            &&& walk@ == SizeWalkView { flash_offset: offset, header, lens }
        }
    } else {
        step matches VerifyStep::ReadChunk { hash, .. } && {
            &&& closes(hash@.payload_len, lens)
            &&& hash@.flash_offset == offset
            &&& hash@.payload.len() == 0
            &&& right_hash_step(step, hash@)
        }
    }
}

/// A check begins right behind the header, and only where the header declares a
/// digest.
pub proof fn law_check_begins(offset: u32, header: ImageHeader, step: VerifyStep)
    requires
        call_ensures(verify_app_sha256, (offset, &header), step),
    ensures
        !header.hash_appended ==> step == VerifyStep::Done(Err(VerifyError::NoHash)),
        header.hash_appended ==> right_check_step(step, offset, header, Seq::empty()),
{
    lemma_end_of(Seq::empty());
}

/// A check takes the data length from bytes 4 to 7 of a segment header and goes
/// on behind that segment; one of more than 8 MB is refused.
pub proof fn law_check_goes_on(walk: VerifySize, b: [u8; 8], step: VerifyStep)
    requires
        call_ensures(VerifySize::resume, (walk, Ok::<[u8; 8], FlashError>(b)), step),
    ensures
        word(b@, 4) > 0x80_0000 ==> step == VerifyStep::Done(
            Err(VerifyError::TotalSize(AppLoadError::SegmentTooLarge(word(b@, 4) as u32))),
        ),
        word(b@, 4) <= 0x80_0000 ==> right_check_step(
            step,
            walk@.flash_offset,
            walk@.header,
            walk@.lens.push(word(b@, 4) as u32),
        ),
{
    lemma_end_of(walk@.lens.push(word(b@, 4) as u32));
}

/// A check hashes what it asked for of a chunk, and nothing behind it.
pub proof fn law_check_hashes(
    before: VerifyStep,
    view: HashView,
    chunk: &[u8; 1024],
    step: VerifyStep,
)
    requires
        right_hash_step(before, view),
        before is ReadChunk,
        call_ensures(
            VerifyHash::resume,
            (before->hash, Ok::<&[u8; 1024], FlashError>(chunk)),
            step,
        ),
    ensures
        right_hash_step(
            step,
            HashView { payload: view.payload + chunk@.take(before->len as int), ..view },
        ),
{
}

/// A check accepts a digest if and only if it is the SHA-256 of all that was
/// hashed; otherwise it reports both.
pub proof fn law_check_compares(compare: VerifyDigest, digest: [u8; 32], step: VerifyStep)
    requires
        call_ensures(VerifyDigest::resume, (compare, Ok::<[u8; 32], FlashError>(digest)), step),
    ensures
        digest@ == sha256(compare@.payload) ==> (step matches VerifyStep::Done(Ok(d)) && d@
            == digest@),
        digest@ != sha256(compare@.payload) ==> (step matches VerifyStep::Done(
            Err(VerifyError::Mismatch { expected, actual }),
        ) && expected@ == digest@ && actual@ == sha256(compare@.payload)),
{
}

/// Whatever a check cannot read, it ends with the error of the read, and accepts
/// nothing.
pub proof fn law_check_read_fails(
    walk: VerifySize,
    hash: VerifyHash,
    compare: VerifyDigest,
    e: FlashError,
    step: VerifyStep,
)
    requires
        call_ensures(VerifySize::resume, (walk, Err::<[u8; 8], FlashError>(e)), step)
            || call_ensures(VerifyHash::resume, (hash, Err::<&[u8; 1024], FlashError>(e)), step)
            || call_ensures(VerifyDigest::resume, (compare, Err::<[u8; 32], FlashError>(e)), step),
    ensures
        step == VerifyStep::Done(Err(VerifyError::Flash(e))),
{
}

/// `step` is right for a load with these segments in memory: the next segment
/// header lies right behind the last segment, and behind the last of all the
/// load ends with the entry address.
pub open spec fn right_load_step(step: LoadStep, load: LoadView) -> bool {
    if load.placed.len() < load.header.segment_count {
        step matches LoadStep::ReadSegmentHeader { at, walk } && {
            &&& at == place(load.flash_offset, end_of(lens_of(load.placed)))
            &&& walk@ == load
        }
    } else {
        step == LoadStep::Done(Ok(load.header.entry_addr))
    }
}

/// A load begins right behind the header, with nothing in memory.
pub proof fn law_load_begins(offset: u32, header: ImageHeader, step: LoadStep)
    requires
        call_ensures(load_segments, (offset, &header), step),
    ensures
        right_load_step(
            step,
            LoadView { flash_offset: offset, header, placed: Seq::empty() },
        ),
{
    assert(lens_of(Seq::empty()) =~= Seq::empty());
    assert(data_lens(Seq::empty()) =~= Seq::empty());
    lemma_end_of(Seq::empty());
}

/// A load takes the load address from bytes 0 to 3 of a segment header and the
/// data length from bytes 4 to 7. A length of more than 8 MB, or one that is no
/// whole number of words, is refused; any other segment is announced as it is.
pub proof fn law_load_announces(walk: LoadWalk, b: [u8; 8], step: LoadStep)
    requires
        call_ensures(LoadWalk::resume, (walk, Ok::<[u8; 8], FlashError>(b)), step),
    ensures
        word(b@, 4) > 0x80_0000 ==> step == LoadStep::Done(
            Err(AppLoadError::SegmentTooLarge(word(b@, 4) as u32)),
        ),
        word(b@, 4) <= 0x80_0000 && word(b@, 4) % 4 != 0 ==> step == LoadStep::Done(
            Err(AppLoadError::UnalignedSegment(word(b@, 4) as u32)),
        ),
        word(b@, 4) <= 0x80_0000 && word(b@, 4) % 4 == 0 ==> (step matches LoadStep::Segment {
            index,
            load_addr,
            data_len,
            segment,
        } && {
            &&& index == walk@.placed.len()
            &&& load_addr == word(b@, 0)
            &&& data_len == word(b@, 4)
            &&& segment@ == (walk@, SegmentHeader { load_addr, data_len })
        }),
{
}

/// The ROM is asked for all bytes of a segment, from right behind its header in
/// flash, to its load address; a load address that is no multiple of 4 is
/// refused.
pub proof fn law_load_copies_all(segment: LoadSegment, step: LoadStep)
    requires
        call_ensures(LoadSegment::begin, (segment,), step),
    ensures
        segment@.1.load_addr % 4 != 0 ==> step == LoadStep::Done(
            Err(AppLoadError::Flash(FlashError::Unaligned)),
        ),
        segment@.1.load_addr % 4 == 0 ==> (step matches LoadStep::Copy { request, copy } && {
            &&& request.target == place(
                segment@.0.flash_offset,
                end_of(lens_of(segment@.0.placed)) + 8,
            )
            &&& request.dest == segment@.1.load_addr
            &&& request.len == segment@.1.data_len
            &&& copy@ == segment@
        }),
{
    assert(data_lens(segment@.0.placed) =~= lens_of(segment@.0.placed));
    lemma_end_of(lens_of(segment@.0.placed));
}

/// A segment that was copied is in memory, and the load goes on behind it; a
/// copy that failed ends the load with the status of the ROM.
pub proof fn law_load_goes_on(copy: LoadCopy, status: i32, step: LoadStep)
    requires
        call_ensures(LoadCopy::resume, (copy, status), step),
    ensures
        status != 0 ==> step == LoadStep::Done(Err(AppLoadError::Flash(FlashError::Rom(status)))),
        status == 0 ==> right_load_step(
            step,
            LoadView { placed: copy@.0.placed.push(copy@.1), ..copy@.0 },
        ),
{
    let placed = copy@.0.placed.push(copy@.1);
    assert(data_lens(placed) =~= lens_of(placed));
    lemma_end_of(lens_of(placed));
}

/// A segment header that cannot be read ends a load with the error of the read.
pub proof fn law_load_read_fails(walk: LoadWalk, e: FlashError, step: LoadStep)
    requires
        call_ensures(LoadWalk::resume, (walk, Err::<[u8; 8], FlashError>(e)), step),
    ensures
        step == LoadStep::Done(Err(AppLoadError::Flash(e))),
{
}

/// Into an application: what was stored is written back from the data caches
/// (bits 4 and 5 of a cache map), what may be stale is dropped from the
/// instruction caches (bits 0, 1 and 5), the instruction fetch is fenced, and
/// only then comes the jump, to the address that was given.
pub proof fn law_handover_order(entry_addr: u32, steps: [Handover; 4])
    requires
        call_ensures(jump_to_entry, (entry_addr,), steps),
    ensures
        steps@[0] == (Handover::WriteBack { map: 0x30 }),
        steps@[1] == (Handover::Invalidate { map: 0x23 }),
        steps@[2] == Handover::FenceInstructions,
        steps@[3] == (Handover::Jump { entry_addr }),
{
    assert(0x10u32 | 0x20u32 == 0x30u32) by (bit_vector);
    assert(0x01u32 | 0x02u32 | 0x20u32 == 0x23u32) by (bit_vector);
}

} // verus!
