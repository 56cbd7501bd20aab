//! The steps of a boot: what each asks for, and what it makes of the answer.
use vstd::prelude::*;
use crate::app::{data_lens, AppLoadError, LoadView, SegmentHeader, SizeWalkView};
use crate::boot::{
    boot, BootCopy, BootDigest, BootHash, BootHeaded, BootHeader, BootLoad, BootSegment, BootSize,
    BootStep, BootWalk, HaltReason, ImageView, Launch,
};
use crate::flash::FlashError;
use crate::laws::image::lemma_end_of;
use crate::laws::{closes, end_of, half, lens_of, place, word};
use crate::partition::PartitionEntry;
use crate::sha::sha256;
use crate::slot_select::{SelectionOutcome, SlotSelectError};
use crate::verify::{HashView, VerifyError};

verus! {

/// A boot reads the header at the offset of the partition that was picked,
/// whatever it was picked for; without one, it halts with the reason.
pub proof fn law_boot_begins(
    picked: Result<(PartitionEntry, SelectionOutcome), SlotSelectError>,
    step: BootStep,
)
    requires
        call_ensures(boot, (picked,), step),
    ensures
        picked matches Ok((part, _)) ==> (step matches BootStep::ReadHeader { at, next } && at
            == part.offset && next@ == part.offset),
        picked matches Err(e) ==> step == BootStep::Heartbeat(HaltReason::NoImage(e)),
{
}

/// A boot goes on with a header that begins with 0xE9, as its bytes say; with any
/// other it halts, and with one that cannot be read.
pub proof fn law_boot_takes_the_header(
    wait: BootHeader,
    read: Result<[u8; 24], FlashError>,
    step: BootStep,
)
    requires
        call_ensures(BootHeader::resume, (wait, read), step),
    ensures
        read matches Ok(b) ==> {
            &&& b@[0] == 0xE9 ==> {
                &&& step matches BootStep::HeaderRead { header, next }
                &&& header.magic == 0xE9
                &&& header.segment_count == b@[1]
                &&& header.entry_addr == word(b@, 4)
                &&& header.chip_id == half(b@, 12)
                &&& header.hash_appended == (b@[23] != 0)
                &&& next@.header == header
                &&& next@.flash_offset == wait@
            }
            &&& b@[0] != 0xE9 ==> step == BootStep::Heartbeat(
                HaltReason::Header(AppLoadError::BadMagic(b@[0])),
            )
        },
        read matches Err(e) ==> step == BootStep::Heartbeat(
            HaltReason::Header(AppLoadError::Flash(e)),
        ),
{
}

/// `step` is right for a boot whose check has hashed these bytes of an image.
pub open spec fn right_hash_step(step: BootStep, image: ImageView, view: HashView) -> bool {
    if view.payload.len() < view.payload_len {
        step matches BootStep::ReadChunk { at, len, next } && {
            &&& at == place(view.flash_offset, view.payload.len() as int)
            &&& 0 < len <= 1024
            &&& view.payload.len() + len <= view.payload_len
            &&& len == 1024 || view.payload.len() + len == view.payload_len
            &&& next@ == (image, view)
        }
    } else {
        step matches BootStep::ReadDigest { at, next } && {
            &&& at == place(view.flash_offset, view.payload_len)
            &&& next@ == (image, view)
        }
    }
}

/// `step` is right for a boot whose check of the image at `offset` has seen these
/// data lengths.
pub open spec fn right_check_step(
    step: BootStep,
    image: ImageView,
    walk: SizeWalkView,
    lens: Seq<u32>,
) -> bool {
    if lens.len() < walk.header.segment_count {
        step matches BootStep::ReadSegmentHeader { at, next } && {
            &&& at == place(walk.flash_offset, end_of(lens))
            &&& next@ == (image, SizeWalkView { lens, ..walk })
        }
    } else {
        step matches BootStep::ReadChunk { next, .. } && {
            &&& closes(next@.1.payload_len, lens)
            &&& next@.1.flash_offset == walk.flash_offset
            &&& next@.1.payload.len() == 0
            &&& right_hash_step(step, image, next@.1)
        }
    }
}

/// An image that declares a digest is checked from its first segment on; one that
/// declares none is loaded at once.
pub proof fn law_boot_checks_first(wait: BootHeaded, step: BootStep)
    requires
        call_ensures(BootHeaded::begin, (wait,), step),
    ensures
        !wait@.header.hash_appended ==> (step matches BootStep::Checked { digest, next } && digest
            is None && next@ == wait@),
        wait@.header.hash_appended ==> right_check_step(
            step,
            wait@,
            (SizeWalkView {
                flash_offset: wait@.flash_offset,
                header: wait@.header,
                lens: Seq::empty(),
            }),
            Seq::empty(),
        ),
{
    lemma_end_of(Seq::empty());
}

/// The check goes from segment to segment by their data lengths; one of more than
/// 8 MB, or one that cannot be read, halts the boot.
pub proof fn law_boot_sizes_the_image(
    wait: BootSize,
    read: Result<[u8; 8], FlashError>,
    step: BootStep,
)
    requires
        call_ensures(BootSize::resume, (wait, read), step),
    ensures
        read matches Ok(b) ==> {
            &&& word(b@, 4) > 0x80_0000 ==> step == BootStep::Heartbeat(
                HaltReason::Digest(
                    VerifyError::TotalSize(AppLoadError::SegmentTooLarge(word(b@, 4) as u32)),
                ),
            )
            &&& word(b@, 4) <= 0x80_0000 ==> right_check_step(
                step,
                wait@.0,
                wait@.1,
                wait@.1.lens.push(word(b@, 4) as u32),
            )
        },
        read matches Err(e) ==> step == BootStep::Heartbeat(
            HaltReason::Digest(VerifyError::Flash(e)),
        ),
{
    if let Ok(b) = read {
        lemma_end_of(wait@.1.lens.push(word(b@, 4) as u32));
    }
}

/// The check hashes what was asked for of a chunk; one that cannot be read halts
/// the boot.
pub proof fn law_boot_hashes_the_image(
    before: BootStep,
    image: ImageView,
    view: HashView,
    chunk: Result<&[u8; 1024], FlashError>,
    step: BootStep,
)
    requires
        right_hash_step(before, image, view),
        before is ReadChunk,
        call_ensures(BootHash::resume, (before->ReadChunk_next, chunk), step),
    ensures
        chunk matches Ok(b) ==> right_hash_step(
            step,
            image,
            HashView { payload: view.payload + b@.take(before->len as int), ..view },
        ),
        chunk matches Err(e) ==> step == BootStep::Heartbeat(
            HaltReason::Digest(VerifyError::Flash(e)),
        ),
{
}

/// The image is accepted if and only if the digest behind it is the SHA-256 of all
/// that was hashed; else the boot halts, with both digests.
pub proof fn law_boot_compares_the_digest(
    wait: BootDigest,
    read: Result<[u8; 32], FlashError>,
    step: BootStep,
)
    requires
        call_ensures(BootDigest::resume, (wait, read), step),
    ensures
        read matches Ok(d) ==> {
            let hashed = sha256(wait@.1.payload);
            &&& d@ == hashed ==> {
                &&& step matches BootStep::Checked { digest, next }
                &&& digest matches Some(told)
                &&& told@ == d@
                &&& next@.header == wait@.0.header
                &&& next@.flash_offset == wait@.0.flash_offset
            }
            &&& d@ != hashed ==> {
                &&& step matches BootStep::Heartbeat(reason)
                &&& reason matches HaltReason::Digest(VerifyError::Mismatch { expected, actual })
                &&& expected@ == d@
                &&& actual@ == hashed
            }
        },
        read matches Err(e) ==> step == BootStep::Heartbeat(
            HaltReason::Digest(VerifyError::Flash(e)),
        ),
{
}

/// `step` is right for a boot whose load has copied these segments: the next
/// header lies right behind the last of them, and behind the last of all comes the
/// jump.
pub open spec fn right_load_step(step: BootStep, image: ImageView, load: LoadView) -> bool {
    if load.placed.len() < load.header.segment_count {
        step matches BootStep::ReadLoadHeader { at, next } && {
            &&& at == place(load.flash_offset, end_of(lens_of(load.placed)))
            &&& next@ == (image, load)
        }
    } else {
        step matches BootStep::Jump(launch) && launch@ == (image, load.placed)
    }
}

/// A load begins with the first segment of the image that was accepted.
pub proof fn law_boot_loads_the_image(wait: BootLoad, step: BootStep)
    requires
        call_ensures(BootLoad::begin, (wait,), step),
    ensures
        right_load_step(
            step,
            wait@,
            LoadView {
                flash_offset: wait@.flash_offset,
                header: wait@.header,
                placed: Seq::empty(),
            },
        ),
{
    assert(lens_of(Seq::empty()) =~= Seq::empty());
    assert(data_lens(Seq::empty()) =~= Seq::empty());
    lemma_end_of(Seq::empty());
}

/// A segment is announced by its load address and data length; a length of more
/// than 8 MB, one that is no whole number of words, or a header that cannot be
/// read halts the boot.
pub proof fn law_boot_announces_a_segment(
    wait: BootWalk,
    read: Result<[u8; 8], FlashError>,
    step: BootStep,
)
    requires
        call_ensures(BootWalk::resume, (wait, read), step),
    ensures
        read matches Ok(b) ==> {
            let len = word(b@, 4);
            &&& len > 0x80_0000 ==> step == BootStep::Heartbeat(
                HaltReason::Load(AppLoadError::SegmentTooLarge(len as u32)),
            )
            &&& len <= 0x80_0000 && len % 4 != 0 ==> step == BootStep::Heartbeat(
                HaltReason::Load(AppLoadError::UnalignedSegment(len as u32)),
            )
            &&& len <= 0x80_0000 && len % 4 == 0 ==> {
                &&& step matches BootStep::Segment { index, load_addr, data_len, next }
                &&& index == wait@.1.placed.len()
                &&& load_addr == word(b@, 0)
                &&& data_len == len
                &&& next@ == (wait@.0, wait@.1, SegmentHeader { load_addr, data_len })
            }
        },
        read matches Err(e) ==> step == BootStep::Heartbeat(
            HaltReason::Load(AppLoadError::Flash(e)),
        ),
{
}

/// All bytes of a segment are asked for, from right behind its header, to its load
/// address; a load address that is no multiple of 4 halts the boot.
pub proof fn law_boot_copies_a_segment(wait: BootSegment, step: BootStep)
    requires
        call_ensures(BootSegment::begin, (wait,), step),
    ensures
        wait@.2.load_addr % 4 != 0 ==> step == BootStep::Heartbeat(
            HaltReason::Load(AppLoadError::Flash(FlashError::Unaligned)),
        ),
        wait@.2.load_addr % 4 == 0 ==> (step matches BootStep::Copy { request, next } && {
            &&& request.target == place(
                wait@.1.flash_offset,
                end_of(lens_of(wait@.1.placed)) + 8,
            )
            &&& request.dest == wait@.2.load_addr
            &&& request.len == wait@.2.data_len
            &&& next@ == wait@
        }),
{
    assert(data_lens(wait@.1.placed) =~= lens_of(wait@.1.placed));
    lemma_end_of(lens_of(wait@.1.placed));
}

/// A segment that was copied is followed by the next; a copy that failed halts the
/// boot with the status of the ROM.
pub proof fn law_boot_goes_on_behind_a_segment(wait: BootCopy, status: i32, step: BootStep)
    requires
        call_ensures(BootCopy::resume, (wait, status), step),
    ensures
        status != 0 ==> step == BootStep::Heartbeat(
            HaltReason::Load(AppLoadError::Flash(FlashError::Rom(status))),
        ),
        status == 0 ==> right_load_step(
            step,
            wait@.0,
            LoadView { placed: wait@.1.placed.push(wait@.2), ..wait@.1 },
        ),
{
    let placed = wait@.1.placed.push(wait@.2);
    assert(data_lens(placed) =~= lens_of(placed));
    lemma_end_of(lens_of(placed));
}

/// A launch goes to the entry address of the header that its image was read with:
/// bytes 4 to 7 of an image that begins with 0xE9, with as many segments copied as
/// byte 1 says, and with its digest right where byte 23 declares one.
pub proof fn law_launch_goes_to_the_entry(launch: Launch, addr: u32)
    requires
        call_ensures(Launch::entry_addr, (&launch,), addr),
    ensures
        addr == launch@.0.header.entry_addr,
        ({
            let head = launch@.0.head;
            &&& head[0] == 0xE9
            &&& addr == word(head, 4)
            &&& launch@.1.len() == head[1]
            &&& head[23] != 0 ==> {
                &&& launch@.0.accepted matches Some((hashed, digest))
                &&& digest == sha256(hashed)
            }
        }),
{
}

} // verus!
