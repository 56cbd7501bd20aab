//! Whole images, and what the walks make of them.
//!
//! An image is laid out as a header, segments and a padded checksum, and
//! possibly a digest. The laws say where each walk ends over a flash that
//! holds an image.
use vstd::prelude::*;
use crate::app::{
    copy_request, data_lens, header_of, image_size, load_on, load_view, payload_size, seg_headers,
    segment_bytes, segment_header_of, segment_on, segment_start, size_on, within_limit,
    AppLoadError, Loaded, Segment, MAX_SEGMENT_LEN,
};
use crate::bytes::{law_le_round_trip, le_bytes, le_u32, wrap_u32};
use crate::flash::{FlashError, FlashModel};
use crate::sha::sha256;
use crate::verify::{chunk_size, hashed_on, verified_on, HashView, VerifyView, HASH_LEN};

verus! {

/// The bytes of a segment in an image.
pub open spec fn segment_record(s: Segment) -> Seq<u8> {
    le_bytes(s.load_addr) + le_bytes(s.data.len() as u32) + s.data
}

/// The bytes of segments one after the other.
pub open spec fn body(segs: Seq<Segment>) -> Seq<u8>
    decreases segs.len(),
{
    if segs.len() == 0 {
        Seq::empty()
    } else {
        body(segs.drop_last()) + segment_record(segs.last())
    }
}

/// The data lengths of segments.
pub open spec fn seg_lens(segs: Seq<Segment>) -> Seq<u32> {
    segs.map_values(|s: Segment| s.data.len() as u32)
}

/// The part of an image that a digest covers.
pub open spec fn payload(head: Seq<u8>, segs: Seq<Segment>, tail: Seq<u8>) -> Seq<u8> {
    head + body(segs) + tail
}

/// Header, segments and checksum fit together: a 24-byte header, segments of at
/// most 8 MB, and a checksum of 1 to 16 bytes that ends on a multiple of 16.
pub open spec fn well_laid_out(head: Seq<u8>, segs: Seq<Segment>, tail: Seq<u8>) -> bool {
    &&& head.len() == 24
    &&& head[0] == 0xE9
    &&& head[1] == segs.len()
    &&& forall|i: int| 0 <= i < segs.len() ==> (#[trigger] segs[i]).data.len() <= 0x80_0000
    &&& 1 <= tail.len() <= 16
    &&& payload(head, segs, tail).len() % 16 == 0
}

/// The ROM can copy each of the segments.
pub open spec fn copyable(segs: Seq<Segment>) -> bool {
    forall|i: int|
        0 <= i < segs.len() ==> (#[trigger] segs[i]).data.len() % 4 == 0 && segs[i].load_addr % 4
            == 0
}

/// A read of `len` bytes at `pos` of the image at `flash_offset` gives that part
/// of `image`.
pub open spec fn holds_part(
    flash: FlashModel,
    flash_offset: u32,
    image: Seq<u8>,
    pos: int,
    len: int,
) -> bool {
    flash(wrap_u32(flash_offset + pos), len) == Ok::<Seq<u8>, FlashError>(
        image.subrange(pos, pos + len),
    )
}

/// The flash holds `image` at `flash_offset`.
pub open spec fn holds(flash: FlashModel, flash_offset: u32, image: Seq<u8>) -> bool {
    forall|pos: int, len: int|
        0 <= pos && 0 <= len && pos + len <= image.len() ==> #[trigger] holds_part(
            flash,
            flash_offset,
            image,
            pos,
            len,
        )
}

/// The segments of a body take the bytes that their lengths say.
proof fn lemma_body_len(segs: Seq<Segment>)
    requires
        forall|i: int| 0 <= i < segs.len() ==> (#[trigger] segs[i]).data.len() <= MAX_SEGMENT_LEN,
    ensures
        body(segs).len() == segment_bytes(seg_lens(segs)),
    decreases segs.len(),
{
    if segs.len() > 0 {
        assert(segs.last().data.len() <= MAX_SEGMENT_LEN);
        assert forall|i: int| 0 <= i < segs.drop_last().len() implies (
        #[trigger] segs.drop_last()[i]).data.len() <= MAX_SEGMENT_LEN by {
            assert(segs[i].data.len() <= MAX_SEGMENT_LEN);
        }
        lemma_body_len(segs.drop_last());
        assert(seg_lens(segs).drop_last() =~= seg_lens(segs.drop_last()));
    }
}

/// A body begins with the body of its first segments.
proof fn lemma_body_prefix(segs: Seq<Segment>, i: int)
    requires
        0 <= i <= segs.len(),
    ensures
        body(segs.take(i)).len() <= body(segs).len(),
        body(segs).take(body(segs.take(i)).len() as int) == body(segs.take(i)),
    decreases segs.len(),
{
    if i == segs.len() {
        assert(segs.take(i) =~= segs);
        assert(body(segs).take(body(segs).len() as int) =~= body(segs));
    } else {
        lemma_body_prefix(segs.drop_last(), i);
        assert(segs.drop_last().take(i) =~= segs.take(i));
        let n = body(segs.take(i)).len() as int;
        assert(body(segs).take(n) =~= body(segs.drop_last()).take(n));
    }
}

/// Each segment of an image lies where the lengths of those in front of it put
/// it: its load address, its length, and then its data.
pub proof fn law_segment_lies_at_start(
    head: Seq<u8>,
    segs: Seq<Segment>,
    tail: Seq<u8>,
    digest: Seq<u8>,
    i: int,
)
    requires
        well_laid_out(head, segs, tail),
        0 <= i < segs.len(),
    ensures
        ({
            let image = payload(head, segs, tail) + digest;
            let at = segment_start(seg_lens(segs.take(i))) as int;
            &&& at + 8 + segs[i].data.len() <= image.len()
            &&& le_u32(image, at) == segs[i].load_addr
            &&& le_u32(image, at + 4) == segs[i].data.len()
            &&& image.subrange(at, at + 8) == le_bytes(segs[i].load_addr) + le_bytes(
                segs[i].data.len() as u32,
            )
            &&& image.subrange(at + 8, at + 8 + segs[i].data.len()) == segs[i].data
        }),
{
    let image = payload(head, segs, tail) + digest;
    let at = segment_start(seg_lens(segs.take(i))) as int;
    let s = segs[i];
    let upto = segs.take(i + 1);
    assert(s.data.len() <= MAX_SEGMENT_LEN);
    assert forall|j: int| 0 <= j < segs.take(i).len() implies (
    #[trigger] segs.take(i)[j]).data.len() <= MAX_SEGMENT_LEN by {
        assert(segs[j].data.len() <= MAX_SEGMENT_LEN);
    }
    lemma_body_len(segs.take(i));
    lemma_body_prefix(segs, i + 1);
    assert(upto.drop_last() =~= segs.take(i));
    assert(upto.last() == s);
    let rec = segment_record(s);
    let front = body(segs.take(i));
    assert(body(upto) == front + rec);
    assert forall|k: int| 0 <= k < rec.len() implies #[trigger] image[at + k] == rec[k] by {
        assert(image[at + k] == body(segs)[front.len() + k]);
        assert(body(segs)[front.len() + k] == body(segs).take(body(upto).len() as int)[front.len()
            + k]);
        assert(body(upto)[front.len() + k] == rec[k]);
    }
    law_le_round_trip(s.load_addr);
    law_le_round_trip(s.data.len() as u32);
    let a = le_bytes(s.load_addr);
    let b = le_bytes(s.data.len() as u32);
    assert(rec[0] == a[0] && rec[1] == a[1] && rec[2] == a[2] && rec[3] == a[3]);
    assert(rec[4] == b[0] && rec[5] == b[1] && rec[6] == b[2] && rec[7] == b[3]);
    assert(image[at + 0] == rec[0] && image[at + 1] == rec[1] && image[at + 2] == rec[2]
        && image[at + 3] == rec[3]);
    assert(image[at + 4] == rec[4] && image[at + 5] == rec[5] && image[at + 6] == rec[6]
        && image[at + 7] == rec[7]);
    assert(image.subrange(at, at + 8) =~= a + b);
    assert(image.subrange(at + 8, at + 8 + s.data.len()) =~= s.data) by {
        assert forall|k: int| 0 <= k < s.data.len() implies image[at + 8 + k] == s.data[k] by {
            assert(rec[8 + k] == s.data[k]);
            assert(image[at + (8 + k)] == rec[8 + k]);
        }
    }
}

/// An image is as long as the lengths of its segments say.
pub proof fn law_image_len(head: Seq<u8>, segs: Seq<Segment>, tail: Seq<u8>)
    requires
        well_laid_out(head, segs, tail),
    ensures
        payload(head, segs, tail).len() == payload_size(seg_lens(segs)),
        payload_size(seg_lens(segs)) + HASH_LEN <= u32::MAX,
        within_limit(seg_lens(segs)),
{
    lemma_body_len(segs);
    assert forall|i: int| 0 <= i < seg_lens(segs).len() implies #[trigger] seg_lens(segs)[i]
        <= MAX_SEGMENT_LEN by {
        assert(segs[i].data.len() <= MAX_SEGMENT_LEN);
    }
    crate::app::law_segment_bytes_bound(seg_lens(segs));
}

/// The size walk over an image comes to the length of that image, with the
/// digest where the header declares one.
pub proof fn law_size_of_image(
    flash: FlashModel,
    flash_offset: u32,
    head: Seq<u8>,
    segs: Seq<Segment>,
    tail: Seq<u8>,
    digest: Seq<u8>,
)
    requires
        well_laid_out(head, segs, tail),
        digest.len() == (if header_of(head).hash_appended { HASH_LEN } else { 0 }),
        holds(flash, flash_offset, payload(head, segs, tail) + digest),
    ensures
        size_on(flash, flash_offset, header_of(head), Seq::empty()) == Ok::<u32, AppLoadError>(
            (payload(head, segs, tail) + digest).len() as u32,
        ),
{
    assert(seg_lens(segs.take(0)) =~= Seq::<u32>::empty());
    lemma_size_from(flash, flash_offset, head, segs, tail, digest, 0);
    law_image_len(head, segs, tail);
}

proof fn lemma_size_from(
    flash: FlashModel,
    flash_offset: u32,
    head: Seq<u8>,
    segs: Seq<Segment>,
    tail: Seq<u8>,
    digest: Seq<u8>,
    i: int,
)
    requires
        well_laid_out(head, segs, tail),
        holds(flash, flash_offset, payload(head, segs, tail) + digest),
        0 <= i <= segs.len(),
    ensures
        size_on(flash, flash_offset, header_of(head), seg_lens(segs.take(i))) == Ok::<
            u32,
            AppLoadError,
        >(image_size(header_of(head).hash_appended, seg_lens(segs)) as u32),
    decreases segs.len() - i,
{
    if i == segs.len() {
        assert(segs.take(i) =~= segs);
    } else {
        let image = payload(head, segs, tail) + digest;
        let at = segment_start(seg_lens(segs.take(i))) as int;
        assert(segs[i].data.len() <= MAX_SEGMENT_LEN);
        law_segment_lies_at_start(head, segs, tail, digest, i);
        lemma_size_from(flash, flash_offset, head, segs, tail, digest, i + 1);
        assert(holds_part(flash, flash_offset, image, at, 8));
        assert(le_u32(image.subrange(at, at + 8), 4) == le_u32(image, at + 4));
        assert(seg_lens(segs.take(i)).push(segs[i].data.len() as u32) =~= seg_lens(
            segs.take(i + 1),
        ));
    }
}

/// A load over an image puts exactly the image's segments at their load
/// addresses.
pub proof fn law_load_of_image(
    flash: FlashModel,
    flash_offset: u32,
    head: Seq<u8>,
    segs: Seq<Segment>,
    tail: Seq<u8>,
    digest: Seq<u8>,
)
    requires
        well_laid_out(head, segs, tail),
        copyable(segs),
        holds(flash, flash_offset, payload(head, segs, tail) + digest),
    ensures
        load_on(flash, flash_offset, header_of(head), Seq::empty()) == Ok::<
            Loaded,
            AppLoadError,
        >(Loaded { entry_addr: header_of(head).entry_addr, segments: segs }),
{
    assert(segs.take(0) =~= Seq::<Segment>::empty());
    lemma_load_from(flash, flash_offset, head, segs, tail, digest, 0);
}

proof fn lemma_load_from(
    flash: FlashModel,
    flash_offset: u32,
    head: Seq<u8>,
    segs: Seq<Segment>,
    tail: Seq<u8>,
    digest: Seq<u8>,
    i: int,
)
    requires
        well_laid_out(head, segs, tail),
        copyable(segs),
        holds(flash, flash_offset, payload(head, segs, tail) + digest),
        0 <= i <= segs.len(),
    ensures
        load_on(flash, flash_offset, header_of(head), segs.take(i)) == Ok::<
            Loaded,
            AppLoadError,
        >(Loaded { entry_addr: header_of(head).entry_addr, segments: segs }),
    decreases segs.len() - i,
{
    if i == segs.len() {
        assert(segs.take(i) =~= segs);
    } else {
        let image = payload(head, segs, tail) + digest;
        let done = segs.take(i);
        let load = load_view(flash_offset, header_of(head), done);
        let at = segment_start(seg_lens(done)) as int;
        let s = segs[i];
        assert(s.data.len() <= MAX_SEGMENT_LEN && s.data.len() % 4 == 0 && s.load_addr % 4 == 0);
        law_segment_lies_at_start(head, segs, tail, digest, i);
        lemma_load_from(flash, flash_offset, head, segs, tail, digest, i + 1);
        assert(data_lens(seg_headers(done)) =~= seg_lens(done));
        assert(holds_part(flash, flash_offset, image, at, 8));
        let b = image.subrange(at, at + 8);
        assert(le_u32(b, 0) == le_u32(image, at));
        assert(le_u32(b, 4) == le_u32(image, at + 4));
        let next = segment_header_of(b);
        assert(holds_part(flash, flash_offset, image, at + 8, s.data.len() as int));
        assert(copy_request(load, next).target == wrap_u32(flash_offset + (at + 8)));
        assert(segment_on(flash, load) == Ok::<Segment, AppLoadError>(s));
        assert(done.push(s) =~= segs.take(i + 1));
    }
}

/// The chunks of a check make up the image without its digest, whatever the
/// image is.
pub proof fn law_chunks_cover_payload(
    flash: FlashModel,
    flash_offset: u32,
    image: Seq<u8>,
    payload_len: int,
    read: int,
)
    requires
        0 <= read <= payload_len <= image.len(),
        holds(flash, flash_offset, image),
    ensures
        hashed_on(flash, HashView { flash_offset, payload_len, payload: image.take(read) }) == Ok::<
            Seq<u8>,
            FlashError,
        >(image.take(payload_len)),
    decreases payload_len - read,
{
    if read < payload_len {
        let n = chunk_size(payload_len, read);
        assert(holds_part(flash, flash_offset, image, read, n));
        assert(image.take(read) + image.subrange(read, read + n) =~= image.take(read + n));
        law_chunks_cover_payload(flash, flash_offset, image, payload_len, read + n);
    }
}

/// A check accepts an image if and only if the appended digest is the SHA-256
/// of all that stands in front of it; otherwise it reports both digests.
pub proof fn law_check_of_image(
    flash: FlashModel,
    flash_offset: u32,
    head: Seq<u8>,
    segs: Seq<Segment>,
    tail: Seq<u8>,
    digest: Seq<u8>,
)
    requires
        well_laid_out(head, segs, tail),
        header_of(head).hash_appended,
        digest.len() == HASH_LEN,
        holds(flash, flash_offset, payload(head, segs, tail) + digest),
    ensures
        verified_on(flash, flash_offset, header_of(head)) == if digest == sha256(
            payload(head, segs, tail),
        ) {
            VerifyView::Accepted(digest)
        } else {
            VerifyView::Mismatch { expected: digest, actual: sha256(payload(head, segs, tail)) }
        },
{
    let covered = payload(head, segs, tail);
    let image = covered + digest;
    law_size_of_image(flash, flash_offset, head, segs, tail, digest);
    law_image_len(head, segs, tail);
    let n = covered.len() as int;
    assert(image.take(0) =~= Seq::<u8>::empty());
    law_chunks_cover_payload(flash, flash_offset, image, n, 0);
    assert(image.take(n) =~= covered);
    assert(holds_part(flash, flash_offset, image, n, HASH_LEN as int));
    assert(image.subrange(n, n + HASH_LEN) =~= digest);
}

/// The part of an image that is hashed is a multiple of 16 long, so every
/// chunk of it is a whole number of words.
pub proof fn law_chunks_are_whole_words(lens: Seq<u32>, chunks: int)
    requires
        0 <= chunks * 1024 < payload_size(lens),
    ensures
        payload_size(lens) % 16 == 0,
        chunk_size(payload_size(lens), chunks * 1024) % 4 == 0,
        chunk_size(payload_size(lens), chunks * 1024) > 0,
{
}

} // verus!
