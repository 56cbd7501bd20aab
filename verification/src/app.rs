//! The application image in flash.
//!
//! ```text
//! 0x00..0x18   image header: magic, segment count, entry address, chip, ...
//! 0x18..0x20   header of segment 0: load address, data length
//! 0x20..       data of segment 0
//! ...          the next segment header right after, no padding
//! end          one checksum byte, padded to a multiple of 16,
//!              and a 32-byte SHA-256 if the header says so
//! ```
//!
//! Walks over the segments are step machines: each step asks for one flash
//! read, and its continuation takes what came back.
use vstd::prelude::*;
use vstd::std_specs::convert::FromSpecImpl;
use crate::bytes::{le_u16, le_u32, u16_at, u32_at, wrap_u32};
use crate::flash;
use crate::flash::{FlashError, FlashModel, RomRead};

verus! {

pub const ESP_IMAGE_HEADER_MAGIC: u8 = 0xE9;

pub const IMAGE_HEADER_SIZE: u32 = 24;

pub const SEGMENT_HEADER_SIZE: u32 = 8;

pub const HASH_LEN: u32 = 32;

/// The longest segment that any memory of the chip could take.
pub const MAX_SEGMENT_LEN: u32 = 0x80_0000;

#[derive(Debug, Clone, Copy)]
pub struct ImageHeader {
    pub magic: u8,
    pub segment_count: u8,
    pub entry_addr: u32,
    pub chip_id: u16,
    /// Whether a SHA-256 of the rest of the image is appended at its end.
    pub hash_appended: bool,
}

#[derive(Debug, Clone, Copy)]
pub enum AppLoadError {
    Flash(FlashError),
    BadMagic(u8),
    /// The data length is too large for any plausible target.
    SegmentTooLarge(u32),
    /// The data length is no whole number of words.
    UnalignedSegment(u32),
}

impl From<FlashError> for AppLoadError {
    fn from(e: FlashError) -> (r: Self) {
        AppLoadError::Flash(e)
    }
}

impl FromSpecImpl<FlashError> for AppLoadError {
    open spec fn obeys_from_spec() -> bool {
        true
    }

    open spec fn from_spec(e: FlashError) -> Self {
        AppLoadError::Flash(e)
    }
}

/// The header that 24 bytes hold.
pub open spec fn header_of(b: Seq<u8>) -> ImageHeader {
    ImageHeader {
        magic: b[0],
        segment_count: b[1],
        entry_addr: le_u32(b, 4),
        chip_id: le_u16(b, 12),
        hash_appended: b[23] != 0,
    }
}

/// What a read of a header comes to.
pub open spec fn header_in(read: Result<Seq<u8>, FlashError>) -> Result<ImageHeader, AppLoadError> {
    match read {
        Err(e) => Err(AppLoadError::Flash(e)),
        Ok(b) => if b[0] == ESP_IMAGE_HEADER_MAGIC {
            Ok(header_of(b))
        } else {
            Err(AppLoadError::BadMagic(b[0]))
        },
    }
}

/// A read of a fixed-size array, with its bytes as a sequence.
pub open spec fn read_view<const N: usize>(read: Result<[u8; N], FlashError>) -> Result<
    Seq<u8>,
    FlashError,
> {
    match read {
        Ok(b) => Ok(b@),
        Err(e) => Err(e),
    }
}

/// Decodes the image header as it was read.
pub fn read_header(read: Result<[u8; 24], FlashError>) -> (r: Result<ImageHeader, AppLoadError>)
    ensures
        r == header_in(read_view(read)),
{
    let b = match read {
        Ok(b) => b,
        Err(e) => {
            return Err(AppLoadError::from(e));
        },
    };
    let magic = b[0];
    if magic != ESP_IMAGE_HEADER_MAGIC {
        return Err(AppLoadError::BadMagic(magic));
    }
    Ok(
        ImageHeader {
            magic,
            segment_count: b[1],
            entry_addr: u32_at(b.as_slice(), 4),
            chip_id: u16_at(b.as_slice(), 12),
            hash_appended: b[23] != 0,
        },
    )
}

/// The bytes that segments of these data lengths take, headers included.
pub open spec fn segment_bytes(lens: Seq<u32>) -> nat
    decreases lens.len(),
{
    if lens.len() == 0 {
        0
    } else {
        segment_bytes(lens.drop_last()) + SEGMENT_HEADER_SIZE as nat + lens.last() as nat
    }
}

/// Where, from the start of the image, the segment after these begins.
pub open spec fn segment_start(lens: Seq<u32>) -> nat {
    IMAGE_HEADER_SIZE as nat + segment_bytes(lens)
}

/// `n` rounded up to a multiple of 16.
pub open spec fn round_up_16(n: int) -> int {
    (n + 15) / 16 * 16
}

/// The length of the part of an image that its digest covers: header and
/// segments, and the checksum byte padded to a multiple of 16.
pub open spec fn payload_size(lens: Seq<u32>) -> int {
    round_up_16(segment_start(lens) as int + 1)
}

/// The length of a whole image.
pub open spec fn image_size(hash_appended: bool, lens: Seq<u32>) -> int {
    payload_size(lens) + if hash_appended {
        HASH_LEN as int
    } else {
        0
    }
}

/// No segment is longer than the limit.
pub open spec fn within_limit(lens: Seq<u32>) -> bool {
    forall|i: int| 0 <= i < lens.len() ==> #[trigger] lens[i] <= MAX_SEGMENT_LEN
}

/// Segments within the limit take no more than their number allows.
pub proof fn law_segment_bytes_bound(lens: Seq<u32>)
    requires
        within_limit(lens),
    ensures
        segment_bytes(lens) <= lens.len() * (SEGMENT_HEADER_SIZE + MAX_SEGMENT_LEN),
    decreases lens.len(),
{
    if lens.len() > 0 {
        assert(lens.last() <= MAX_SEGMENT_LEN);
        law_segment_bytes_bound(lens.drop_last());
    }
}

/// The next step of the computation of an image's length.
pub enum SizeStep {
    /// Read the 8-byte segment header at `at`, and resume `walk` with it.
    ReadSegmentHeader { at: u32, walk: SizeWalk },
    Done(Result<u32, AppLoadError>),
}

/// The segments of an image whose headers have been read so far.
pub struct SizeWalk {
    flash_offset: u32,
    header: ImageHeader,
    index: u8,
    total: u32,
    lens: Ghost<Seq<u32>>,
}

/// A walk over segment headers: the image, and the data lengths seen.
#[verifier::ext_equal]
pub struct SizeWalkView {
    pub flash_offset: u32,
    pub header: ImageHeader,
    pub lens: Seq<u32>,
}

impl View for SizeWalk {
    type V = SizeWalkView;

    closed spec fn view(&self) -> SizeWalkView {
        SizeWalkView { flash_offset: self.flash_offset, header: self.header, lens: self.lens@ }
    }
}

/// `step` is the step after segments of lengths `lens` have been seen.
pub open spec fn size_step(
    step: SizeStep,
    flash_offset: u32,
    header: ImageHeader,
    lens: Seq<u32>,
) -> bool {
    &&& within_limit(lens)
    &&& if lens.len() < header.segment_count {
        step matches SizeStep::ReadSegmentHeader { at, walk } && {
            &&& at == wrap_u32(flash_offset + segment_start(lens))
            &&& walk@ == SizeWalkView { flash_offset, header, lens }
        }
    } else {
        step matches SizeStep::Done(Ok(size)) && size == image_size(header.hash_appended, lens)
    }
}

/// `step` is what comes after a segment header was read for `walk`.
pub open spec fn size_resumed(
    walk: SizeWalkView,
    read: Result<Seq<u8>, FlashError>,
    step: SizeStep,
) -> bool {
    match read {
        Err(e) => step == SizeStep::Done(Err(AppLoadError::Flash(e))),
        Ok(b) => if le_u32(b, 4) > MAX_SEGMENT_LEN {
            step == SizeStep::Done(Err(AppLoadError::SegmentTooLarge(le_u32(b, 4))))
        } else {
            size_step(step, walk.flash_offset, walk.header, walk.lens.push(le_u32(b, 4)))
        },
    }
}

/// The length that the walk over the segments comes to, with those of `lens`
/// seen, where every read is answered from `flash`.
pub open spec fn size_on(
    flash: FlashModel,
    flash_offset: u32,
    header: ImageHeader,
    lens: Seq<u32>,
) -> Result<u32, AppLoadError>
    decreases header.segment_count - lens.len(),
{
    if lens.len() >= header.segment_count {
        Ok(image_size(header.hash_appended, lens) as u32)
    } else {
        match flash(wrap_u32(flash_offset + segment_start(lens)), 8) {
            Err(e) => Err(AppLoadError::Flash(e)),
            Ok(b) => if le_u32(b, 4) > MAX_SEGMENT_LEN {
                Err(AppLoadError::SegmentTooLarge(le_u32(b, 4)))
            } else {
                size_on(flash, flash_offset, header, lens.push(le_u32(b, 4)))
            },
        }
    }
}

/// The length that a walk comes to from `step` on.
pub open spec fn size_result(step: SizeStep, flash: FlashModel) -> Result<u32, AppLoadError> {
    match step {
        SizeStep::Done(r) => r,
        SizeStep::ReadSegmentHeader { walk, .. } => size_on(
            flash,
            walk@.flash_offset,
            walk@.header,
            walk@.lens,
        ),
    }
}

impl SizeWalk {
    #[verifier::type_invariant]
    spec fn wf(self) -> bool {
        &&& self.index == self.lens@.len()
        &&& self.index < self.header.segment_count
        &&& self.total == segment_start(self.lens@)
        &&& within_limit(self.lens@)
    }

    /// Takes the segment header that was asked for.
    pub fn resume(self, read: Result<[u8; 8], FlashError>) -> (step: SizeStep)
        ensures
            size_resumed(self@, read_view(read), step),
            forall|flash: FlashModel|
                flash(wrap_u32(self@.flash_offset + segment_start(self@.lens)), 8) == read_view(
                    read,
                ) ==> #[trigger] size_result(step, flash) == size_on(
                    flash,
                    self@.flash_offset,
                    self@.header,
                    self@.lens,
                ),
    {
        proof {
            use_type_invariant(&self);
        }
        let b = match read {
            Ok(b) => b,
            Err(e) => {
                return SizeStep::Done(Err(AppLoadError::from(e)));
            },
        };
        let data_len = u32_at(b.as_slice(), 4);
        if data_len > MAX_SEGMENT_LEN {
            return SizeStep::Done(Err(AppLoadError::SegmentTooLarge(data_len)));
        }
        let ghost lens = self.lens@.push(data_len);
        proof {
            reveal_with_fuel(size_on, 2);
            assert(lens.drop_last() =~= self.lens@);
            law_segment_bytes_bound(self.lens@);
        }
        next_size_step(
            self.flash_offset,
            self.header,
            self.index + 1,
            self.total + SEGMENT_HEADER_SIZE + data_len,
            Ghost(lens),
        )
    }
}

fn next_size_step(
    flash_offset: u32,
    header: ImageHeader,
    index: u8,
    total: u32,
    Ghost(lens): Ghost<Seq<u32>>,
) -> (step: SizeStep)
    requires
        index == lens.len(),
        index <= header.segment_count,
        total == segment_start(lens),
        within_limit(lens),
    ensures
        size_step(step, flash_offset, header, lens),
{
    if index < header.segment_count {
        return SizeStep::ReadSegmentHeader {
            at: flash_offset.wrapping_add(total),
            walk: SizeWalk { flash_offset, header, index, total, lens: Ghost(lens) },
        };
    }
    proof {
        law_segment_bytes_bound(lens);
    }
    let mut size: u32 = total + 1;
    let up: u32 = size + 15;
    assert(up & !15u32 == up / 16 * 16) by (bit_vector);
    size = up & !15u32;
    if header.hash_appended {
        size = size + HASH_LEN;
    }
    SizeStep::Done(Ok(size))
}

/// Starts the computation of the length of the image at `flash_offset`: header,
/// segment headers and data, checksum padded to a multiple of 16, and digest.
pub fn compute_image_total_size(flash_offset: u32, header: &ImageHeader) -> (step: SizeStep)
    ensures
        size_step(step, flash_offset, *header, Seq::empty()),
        forall|flash: FlashModel| #[trigger]
            size_result(step, flash) == size_on(flash, flash_offset, *header, Seq::empty()),
{
    next_size_step(flash_offset, *header, 0, IMAGE_HEADER_SIZE, Ghost(Seq::empty()))
}

/// The load address and data length of a segment.
#[derive(Debug, Clone, Copy, PartialEq, Eq, Structural)]
pub struct SegmentHeader {
    pub load_addr: u32,
    pub data_len: u32,
}

/// The segment header that 8 bytes hold.
pub open spec fn segment_header_of(b: Seq<u8>) -> SegmentHeader {
    SegmentHeader { load_addr: le_u32(b, 0), data_len: le_u32(b, 4) }
}

/// The data lengths of segments.
pub open spec fn data_lens(segments: Seq<SegmentHeader>) -> Seq<u32> {
    segments.map_values(|s: SegmentHeader| s.data_len)
}

/// A segment: where it goes, and what goes there.
#[verifier::ext_equal]
pub struct Segment {
    pub load_addr: u32,
    pub data: Seq<u8>,
}

/// What a load leaves in memory, and where that is entered.
#[verifier::ext_equal]
pub struct Loaded {
    pub entry_addr: u32,
    pub segments: Seq<Segment>,
}

/// The headers of segments.
pub open spec fn seg_headers(segs: Seq<Segment>) -> Seq<SegmentHeader> {
    segs.map_values(
        |s: Segment| SegmentHeader { load_addr: s.load_addr, data_len: s.data.len() as u32 },
    )
}

/// The next step of loading an image.
pub enum LoadStep {
    /// Read the 8-byte segment header at `at`, and resume `walk` with it.
    ReadSegmentHeader { at: u32, walk: LoadWalk },
    /// Segment `index` is about to be copied: report it, and begin.
    Segment { index: usize, load_addr: u32, data_len: u32, segment: LoadSegment },
    /// Make this ROM call, and resume `copy` with its status.
    Copy { request: RomRead, copy: LoadCopy },
    /// The load is over; where it worked, the application is entered here.
    Done(Result<u32, AppLoadError>),
}

/// A load in progress, about to read a segment header.
pub struct LoadWalk {
    flash_offset: u32,
    header: ImageHeader,
    index: u8,
    pos: u32,
    placed: Ghost<Seq<SegmentHeader>>,
}

/// A load in progress, about to copy a segment.
pub struct LoadSegment {
    walk: LoadWalk,
    next: SegmentHeader,
}

/// A load in progress, with a segment being copied.
pub struct LoadCopy {
    walk: LoadWalk,
    next: SegmentHeader,
    request: RomRead,
}

/// A load: the image, and the segments that are in place.
#[verifier::ext_equal]
pub struct LoadView {
    pub flash_offset: u32,
    pub header: ImageHeader,
    pub placed: Seq<SegmentHeader>,
}

impl View for LoadWalk {
    type V = LoadView;

    closed spec fn view(&self) -> LoadView {
        LoadView { flash_offset: self.flash_offset, header: self.header, placed: self.placed@ }
    }
}

impl View for LoadSegment {
    type V = (LoadView, SegmentHeader);

    closed spec fn view(&self) -> (LoadView, SegmentHeader) {
        (self.walk@, self.next)
    }
}

impl View for LoadCopy {
    type V = (LoadView, SegmentHeader);

    closed spec fn view(&self) -> (LoadView, SegmentHeader) {
        (self.walk@, self.next)
    }
}

/// Whether the loader takes a segment of this length.
pub open spec fn loadable_len(data_len: u32) -> bool {
    data_len <= MAX_SEGMENT_LEN && data_len % 4 == 0
}

/// The error with which the loader refuses a segment of this length.
pub open spec fn length_error(data_len: u32) -> AppLoadError {
    if data_len > MAX_SEGMENT_LEN {
        AppLoadError::SegmentTooLarge(data_len)
    } else {
        AppLoadError::UnalignedSegment(data_len)
    }
}

/// The ROM call that copies the segment `next` after those in place.
pub open spec fn copy_request(load: LoadView, next: SegmentHeader) -> RomRead {
    RomRead {
        target: wrap_u32(
            load.flash_offset + segment_start(data_lens(load.placed)) + SEGMENT_HEADER_SIZE,
        ),
        dest: next.load_addr as usize,
        len: next.data_len as i32,
    }
}

/// `step` is the step of a load after `load.placed` have been copied.
pub open spec fn load_step(step: LoadStep, load: LoadView) -> bool {
    if load.placed.len() < load.header.segment_count {
        step matches LoadStep::ReadSegmentHeader { at, walk } && {
            &&& at == wrap_u32(load.flash_offset + segment_start(data_lens(load.placed)))
            &&& walk@ == load
        }
    } else {
        step == LoadStep::Done(Ok(load.header.entry_addr))
    }
}

/// `step` is what comes after a segment header was read for `load`: the segment
/// is announced, or its length is refused.
pub open spec fn load_resumed(
    load: LoadView,
    read: Result<Seq<u8>, FlashError>,
    step: LoadStep,
) -> bool {
    match read {
        Err(e) => step == LoadStep::Done(Err(AppLoadError::Flash(e))),
        Ok(b) => {
            let next = segment_header_of(b);
            if loadable_len(next.data_len) {
                step matches LoadStep::Segment { index, load_addr, data_len, segment } && {
                    &&& index == load.placed.len()
                    &&& load_addr == next.load_addr
                    &&& data_len == next.data_len
                    &&& segment@ == (load, next)
                }
            } else {
                step == LoadStep::Done(Err(length_error(next.data_len)))
            }
        },
    }
}

/// `step` begins to copy `next`, or refuses a load address that is not
/// word-aligned.
pub open spec fn copy_begun(load: LoadView, next: SegmentHeader, step: LoadStep) -> bool {
    if next.load_addr % 4 == 0 {
        step matches LoadStep::Copy { request, copy } && {
            &&& request == copy_request(load, next)
            &&& request.dest == next.load_addr
            &&& request.len == next.data_len
            &&& copy@ == (load, next)
        }
    } else {
        step == LoadStep::Done(Err(AppLoadError::Flash(FlashError::Unaligned)))
    }
}

/// `step` is what comes after the ROM answered the copy of `next` with
/// `status`.
pub open spec fn copy_resumed(
    load: LoadView,
    next: SegmentHeader,
    status: i32,
    step: LoadStep,
) -> bool {
    if status == 0 {
        load_step(step, LoadView { placed: load.placed.push(next), ..load })
    } else {
        step == LoadStep::Done(Err(AppLoadError::Flash(FlashError::Rom(status))))
    }
}

/// What the copy of the segment `next` gives on `flash`: the bytes that the ROM
/// is asked for, at the place that it is given.
pub open spec fn copied_on(flash: FlashModel, load: LoadView, next: SegmentHeader) -> Result<
    Segment,
    AppLoadError,
> {
    if next.load_addr % 4 != 0 {
        Err(AppLoadError::Flash(FlashError::Unaligned))
    } else {
        let request = copy_request(load, next);
        match flash(request.target, request.len as int) {
            Err(e) => Err(AppLoadError::Flash(e)),
            Ok(data) => Ok(Segment { load_addr: request.dest as u32, data }),
        }
    }
}

/// The segment after those of `load` on `flash`: its header, and its copy.
pub open spec fn segment_on(flash: FlashModel, load: LoadView) -> Result<Segment, AppLoadError> {
    match flash(wrap_u32(load.flash_offset + segment_start(data_lens(load.placed))), 8) {
        Err(e) => Err(AppLoadError::Flash(e)),
        Ok(b) => if loadable_len(segment_header_of(b).data_len) {
            copied_on(flash, load, segment_header_of(b))
        } else {
            Err(length_error(segment_header_of(b).data_len))
        },
    }
}

/// A load that has copied `done`.
pub open spec fn load_view(flash_offset: u32, header: ImageHeader, done: Seq<Segment>) -> LoadView {
    LoadView { flash_offset, header, placed: seg_headers(done) }
}

/// What a load comes to with `done` copied, where every read is answered from
/// `flash`.
pub open spec fn load_on(
    flash: FlashModel,
    flash_offset: u32,
    header: ImageHeader,
    done: Seq<Segment>,
) -> Result<Loaded, AppLoadError>
    decreases header.segment_count - done.len(),
{
    if done.len() >= header.segment_count {
        Ok(Loaded { entry_addr: header.entry_addr, segments: done })
    } else {
        match segment_on(flash, load_view(flash_offset, header, done)) {
            Err(e) => Err(e),
            Ok(segment) => load_on(flash, flash_offset, header, done.push(segment)),
        }
    }
}

/// What a load comes to that copies `next` after `done`.
pub open spec fn load_from_copy(
    flash: FlashModel,
    load: LoadView,
    next: SegmentHeader,
    done: Seq<Segment>,
) -> Result<Loaded, AppLoadError> {
    match copied_on(flash, load, next) {
        Err(e) => Err(e),
        Ok(segment) => load_on(flash, load.flash_offset, load.header, done.push(segment)),
    }
}

/// What a load comes to from `step` on, with `done` copied.
pub open spec fn load_result(step: LoadStep, flash: FlashModel, done: Seq<Segment>) -> Result<
    Loaded,
    AppLoadError,
> {
    match step {
        LoadStep::Done(Ok(entry_addr)) => Ok(Loaded { entry_addr, segments: done }),
        LoadStep::Done(Err(e)) => Err(e),
        LoadStep::ReadSegmentHeader { walk, .. } => load_on(
            flash,
            walk@.flash_offset,
            walk@.header,
            done,
        ),
        LoadStep::Segment { segment, .. } => load_from_copy(
            flash,
            segment@.0,
            segment@.1,
            done,
        ),
        LoadStep::Copy { copy, .. } => load_from_copy(flash, copy@.0, copy@.1, done),
    }
}

impl LoadWalk {
    #[verifier::type_invariant]
    spec fn wf(self) -> bool {
        &&& self.index == self.placed@.len()
        &&& self.index < self.header.segment_count
        &&& self.pos == wrap_u32(self.flash_offset + segment_start(data_lens(self.placed@)))
    }

    /// Takes the segment header that was asked for.
    pub fn resume(self, read: Result<[u8; 8], FlashError>) -> (step: LoadStep)
        ensures
            load_resumed(self@, read_view(read), step),
            forall|flash: FlashModel, done: Seq<Segment>|
                seg_headers(done) == self@.placed && flash(
                    wrap_u32(self@.flash_offset + segment_start(data_lens(self@.placed))),
                    8,
                ) == read_view(read) ==> #[trigger] load_result(step, flash, done) == load_on(
                    flash,
                    self@.flash_offset,
                    self@.header,
                    done,
                ),
    {
        proof {
            use_type_invariant(&self);
        }
        let b = match read {
            Ok(b) => b,
            Err(e) => {
                return LoadStep::Done(Err(AppLoadError::from(e)));
            },
        };
        let load_addr = u32_at(b.as_slice(), 0);
        let data_len = u32_at(b.as_slice(), 4);
        if data_len > MAX_SEGMENT_LEN {
            return LoadStep::Done(Err(AppLoadError::SegmentTooLarge(data_len)));
        }
        if data_len % 4 != 0 {
            return LoadStep::Done(Err(AppLoadError::UnalignedSegment(data_len)));
        }
        let index = self.index as usize;
        LoadStep::Segment {
            index,
            load_addr,
            data_len,
            segment: LoadSegment { walk: self, next: SegmentHeader { load_addr, data_len } },
        }
    }
}

impl LoadSegment {
    #[verifier::type_invariant]
    spec fn wf(self) -> bool {
        loadable_len(self.next.data_len)
    }

    /// Begins to copy the segment. A load address that is not word-aligned is
    /// refused here.
    pub fn begin(self) -> (step: LoadStep)
        ensures
            copy_begun(self@.0, self@.1, step),
            forall|flash: FlashModel, done: Seq<Segment>| #[trigger]
                load_result(step, flash, done) == load_from_copy(flash, self@.0, self@.1, done),
    {
        proof {
            use_type_invariant(&self);
            use_type_invariant(&self.walk);
        }
        let from = self.walk.pos.wrapping_add(SEGMENT_HEADER_SIZE);
        match flash::read(from, self.next.load_addr as usize, self.next.data_len as usize) {
            Ok(request) => LoadStep::Copy {
                request,
                copy: LoadCopy { walk: self.walk, next: self.next, request },
            },
            Err(e) => LoadStep::Done(Err(AppLoadError::from(e))),
        }
    }
}

impl LoadCopy {
    /// Takes the status of the ROM call.
    pub fn resume(self, status: i32) -> (step: LoadStep)
        ensures
            copy_resumed(self@.0, self@.1, status, step),
            self@.0.placed.len() < self@.0.header.segment_count,
            forall|flash: FlashModel, done: Seq<Segment>, segment: Segment|
                {
                    &&& seg_headers(done) == self@.0.placed
                    &&& copied_on(flash, self@.0, self@.1) == Ok::<Segment, AppLoadError>(segment)
                    &&& segment.data.len() == self@.1.data_len
                    &&& status == 0
                } ==> #[trigger] load_result(step, flash, done.push(segment)) == load_from_copy(
                    flash,
                    self@.0,
                    self@.1,
                    done,
                ),
            forall|flash: FlashModel, done: Seq<Segment>|
                status != 0 && copied_on(flash, self@.0, self@.1) == Err::<Segment, AppLoadError>(
                    AppLoadError::Flash(FlashError::Rom(status)),
                ) ==> #[trigger] load_result(step, flash, done) == load_from_copy(
                    flash,
                    self@.0,
                    self@.1,
                    done,
                ),
    {
        proof {
            use_type_invariant(&self.walk);
        }
        if let Err(e) = self.request.finish(status) {
            return LoadStep::Done(Err(AppLoadError::from(e)));
        }
        proof {
            let placed = self.walk.placed@.push(self.next);
            assert(data_lens(placed).drop_last() =~= data_lens(self.walk.placed@));
        }
        next_load_step(
            self.walk.flash_offset,
            self.walk.header,
            self.walk.index + 1,
            self.walk.pos.wrapping_add(SEGMENT_HEADER_SIZE).wrapping_add(self.next.data_len),
            Ghost(self.walk.placed@.push(self.next)),
        )
    }
}

fn next_load_step(
    flash_offset: u32,
    header: ImageHeader,
    index: u8,
    pos: u32,
    Ghost(placed): Ghost<Seq<SegmentHeader>>,
) -> (step: LoadStep)
    requires
        index == placed.len(),
        index <= header.segment_count,
        pos == wrap_u32(flash_offset + segment_start(data_lens(placed))),
    ensures
        load_step(step, LoadView { flash_offset, header, placed }),
{
    if index < header.segment_count {
        LoadStep::ReadSegmentHeader {
            at: pos,
            walk: LoadWalk { flash_offset, header, index, pos, placed: Ghost(placed) },
        }
    } else {
        LoadStep::Done(Ok(header.entry_addr))
    }
}

/// Starts to load all segments of the image at `flash_offset` to their load
/// addresses. A load that works ends with the entry address to jump to.
///
/// The driver makes sure that those addresses are memory, and that they do not
/// collide with anything still in use.
pub fn load_segments(flash_offset: u32, header: &ImageHeader) -> (step: LoadStep)
    ensures
        load_step(
            step,
            LoadView { flash_offset, header: *header, placed: Seq::empty() },
        ),
        forall|flash: FlashModel| #[trigger]
            load_result(step, flash, Seq::empty()) == load_on(
                flash,
                flash_offset,
                *header,
                Seq::empty(),
            ),
{
    assert(data_lens(Seq::empty()) =~= Seq::empty());
    next_load_step(
        flash_offset,
        *header,
        0,
        flash_offset.wrapping_add(IMAGE_HEADER_SIZE),
        Ghost(Seq::empty()),
    )
}

/// The first level instruction cache of core 0, in a cache map.
pub const CACHE_MAP_L1_ICACHE_0: u32 = 0x01;

/// The first level instruction cache of core 1, in a cache map.
pub const CACHE_MAP_L1_ICACHE_1: u32 = 0x02;

/// The first level data cache, in a cache map.
pub const CACHE_MAP_L1_DCACHE: u32 = 0x10;

/// The second level cache, in a cache map.
pub const CACHE_MAP_L2: u32 = 0x20;

/// One step of the way into the application.
#[derive(Debug, Clone, Copy, PartialEq, Eq, Structural)]
pub enum Handover {
    /// Write these caches back to memory.
    WriteBack { map: u32 },
    /// Invalidate these caches.
    Invalidate { map: u32 },
    /// Synchronise the instruction fetch.
    FenceInstructions,
    /// Jump, and never come back.
    Jump { entry_addr: u32 },
}

/// The steps into an application whose segments are in place.
pub open spec fn handover_to(entry_addr: u32) -> Seq<Handover> {
    seq![
        Handover::WriteBack { map: CACHE_MAP_L1_DCACHE | CACHE_MAP_L2 },
        Handover::Invalidate {
            map: CACHE_MAP_L1_ICACHE_0 | CACHE_MAP_L1_ICACHE_1 | CACHE_MAP_L2,
        },
        Handover::FenceInstructions,
        Handover::Jump { entry_addr },
    ]
}

/// The steps, in this order, into an application whose segments are in place.
/// The segments were stored through the data caches, so those are written back
/// first; then the instruction caches are emptied of what was there before.
pub fn jump_to_entry(entry_addr: u32) -> (steps: [Handover; 4])
    ensures
        steps@ == handover_to(entry_addr),
{
    let steps = [
        Handover::WriteBack { map: CACHE_MAP_L1_DCACHE | CACHE_MAP_L2 },
        Handover::Invalidate { map: CACHE_MAP_L1_ICACHE_0 | CACHE_MAP_L1_ICACHE_1 | CACHE_MAP_L2 },
        Handover::FenceInstructions,
        Handover::Jump { entry_addr },
    ];
    assert(steps@ =~= handover_to(entry_addr));
    steps
}

} // verus!
