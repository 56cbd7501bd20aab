//! The check of an image against its appended SHA-256.
//!
//! The digest covers everything in front of it. It is computed over the image
//! as it is read, in chunks, and compared with the appended one.
use vstd::prelude::*;
use vstd::std_specs::convert::FromSpecImpl;
use crate::app;
use crate::app::{
    payload_size, read_view, segment_start, size_on, size_result, size_step, AppLoadError,
    ImageHeader, SizeStep, SizeWalk, SizeWalkView, MAX_SEGMENT_LEN,
};
use crate::bytes::{le_u32, wrap_u32};
use crate::flash::{FlashError, FlashModel};
use crate::sha::{absorbed, sha256, sha256_finalize, sha256_new, sha256_update, Hasher};
use crate::text::same_bytes;

verus! {

pub const HASH_LEN: usize = 32;

/// How much of the image is read at a time.
pub const CHUNK_LEN: usize = 1024;

#[derive(Debug, Clone, Copy)]
pub enum VerifyError {
    /// A flash read failed.
    Flash(FlashError),
    /// The image declares no digest: there is nothing to verify.
    NoHash,
    /// The computed digest is not the appended one.
    Mismatch { expected: [u8; HASH_LEN], actual: [u8; HASH_LEN] },
    /// The length of the image could not be determined.
    TotalSize(AppLoadError),
}

impl From<FlashError> for VerifyError {
    fn from(e: FlashError) -> (r: Self) {
        VerifyError::Flash(e)
    }
}

impl FromSpecImpl<FlashError> for VerifyError {
    open spec fn obeys_from_spec() -> bool {
        true
    }

    open spec fn from_spec(e: FlashError) -> Self {
        VerifyError::Flash(e)
    }
}

impl From<AppLoadError> for VerifyError {
    fn from(e: AppLoadError) -> (r: Self) {
        match e {
            AppLoadError::Flash(f) => VerifyError::Flash(f),
            other => VerifyError::TotalSize(other),
        }
    }
}

impl FromSpecImpl<AppLoadError> for VerifyError {
    open spec fn obeys_from_spec() -> bool {
        true
    }

    open spec fn from_spec(e: AppLoadError) -> Self {
        match e {
            AppLoadError::Flash(f) => VerifyError::Flash(f),
            other => VerifyError::TotalSize(other),
        }
    }
}

/// The next step of the check.
pub enum VerifyStep {
    /// Read the 8-byte segment header at `at`, and resume `walk` with it.
    ReadSegmentHeader { at: u32, walk: VerifySize },
    /// Read `len` bytes at `at` into the front of a chunk, and resume `hash`
    /// with it.
    ReadChunk { at: u32, len: usize, hash: VerifyHash },
    /// Read the appended digest at `at`, and resume `compare` with it.
    ReadDigest { at: u32, compare: VerifyDigest },
    Done(Result<[u8; HASH_LEN], VerifyError>),
}

/// A check that is finding out how long the image is.
pub struct VerifySize {
    flash_offset: u32,
    header: ImageHeader,
    walk: SizeWalk,
}

/// A check that is hashing the image.
pub struct VerifyHash {
    flash_offset: u32,
    payload_len: usize,
    read: usize,
    want: usize,
    hasher: Hasher,
}

/// A check that has hashed the image.
pub struct VerifyDigest {
    hashed: Ghost<HashView>,
    actual: [u8; HASH_LEN],
}

/// A check that is hashing: the image, its length without the digest, and its
/// bytes so far.
#[verifier::ext_equal]
pub struct HashView {
    pub flash_offset: u32,
    pub payload_len: int,
    pub payload: Seq<u8>,
}

impl View for VerifySize {
    type V = SizeWalkView;

    closed spec fn view(&self) -> SizeWalkView {
        self.walk@
    }
}

impl View for VerifyHash {
    type V = HashView;

    closed spec fn view(&self) -> HashView {
        HashView {
            flash_offset: self.flash_offset,
            payload_len: self.payload_len as int,
            payload: absorbed(self.hasher),
        }
    }
}

impl View for VerifyDigest {
    type V = HashView;

    closed spec fn view(&self) -> HashView {
        self.hashed@
    }
}

/// How many bytes the next chunk takes, with `read` of `payload_len` read.
pub open spec fn chunk_size(payload_len: int, read: int) -> int {
    if payload_len - read < CHUNK_LEN {
        payload_len - read
    } else {
        CHUNK_LEN as int
    }
}

/// `step` is the step of a check that has hashed `view.payload`.
pub open spec fn hash_step(step: VerifyStep, view: HashView) -> bool {
    if view.payload.len() < view.payload_len {
        step matches VerifyStep::ReadChunk { at, len, hash } && {
            &&& at == wrap_u32(view.flash_offset + view.payload.len())
            &&& len == chunk_size(view.payload_len, view.payload.len() as int)
            &&& hash@ == view
        }
    } else {
        step matches VerifyStep::ReadDigest { at, compare } && {
            &&& at == wrap_u32(view.flash_offset + view.payload_len)
            &&& compare@ == view
        }
    }
}

/// `step` is the step of a check after segments of lengths `lens` have been
/// seen.
pub open spec fn verify_step(
    step: VerifyStep,
    flash_offset: u32,
    header: ImageHeader,
    lens: Seq<u32>,
) -> bool {
    if lens.len() < header.segment_count {
        step matches VerifyStep::ReadSegmentHeader { at, walk } && {
            &&& at == wrap_u32(flash_offset + segment_start(lens))
            &&& walk@ == SizeWalkView { flash_offset, header, lens }
        }
    } else {
        hash_step(
            step,
            HashView { flash_offset, payload_len: payload_size(lens), payload: Seq::empty() },
        )
    }
}

/// `step` is what comes after a segment header was read for `walk`.
pub open spec fn size_resumed(
    walk: SizeWalkView,
    read: Result<Seq<u8>, FlashError>,
    step: VerifyStep,
) -> bool {
    match read {
        Err(e) => step == VerifyStep::Done(Err(VerifyError::Flash(e))),
        Ok(b) => if le_u32(b, 4) > MAX_SEGMENT_LEN {
            step == VerifyStep::Done(
                Err(VerifyError::TotalSize(AppLoadError::SegmentTooLarge(le_u32(b, 4)))),
            )
        } else {
            verify_step(step, walk.flash_offset, walk.header, walk.lens.push(le_u32(b, 4)))
        },
    }
}

/// A chunk as it was read, with its bytes as a sequence.
pub open spec fn chunk_view(chunk: Result<&[u8; CHUNK_LEN], FlashError>) -> Result<
    Seq<u8>,
    FlashError,
> {
    match chunk {
        Ok(b) => Ok(b@),
        Err(e) => Err(e),
    }
}

/// `step` is what comes after a chunk was read for `hash`: the part of it that
/// was asked for is hashed.
pub open spec fn hash_resumed(
    hash: HashView,
    chunk: Result<Seq<u8>, FlashError>,
    step: VerifyStep,
) -> bool {
    match chunk {
        Err(e) => step == VerifyStep::Done(Err(VerifyError::Flash(e))),
        Ok(b) => hash_step(
            step,
            HashView {
                payload: hash.payload + b.take(
                    chunk_size(hash.payload_len, hash.payload.len() as int),
                ),
                ..hash
            },
        ),
    }
}

/// `step` is what comes after the appended digest was read for `hash`.
pub open spec fn digest_resumed(
    hash: HashView,
    digest: Result<Seq<u8>, FlashError>,
    step: VerifyStep,
) -> bool {
    match digest {
        Err(e) => step == VerifyStep::Done(Err(VerifyError::Flash(e))),
        Ok(expected) => if expected == sha256(hash.payload) {
            step matches VerifyStep::Done(Ok(d)) && d@ == expected
        } else {
            step matches VerifyStep::Done(Err(VerifyError::Mismatch { expected: e, actual })) && {
                &&& e@ == expected
                &&& actual@ == sha256(hash.payload)
            }
        },
    }
}

/// The outcome of a check, with digests as sequences.
#[verifier::ext_equal]
pub enum VerifyView {
    Accepted(Seq<u8>),
    Mismatch { expected: Seq<u8>, actual: Seq<u8> },
    NoHash,
    Flash(FlashError),
    TotalSize(AppLoadError),
}

/// A result of a check, with digests as sequences.
pub open spec fn verify_view(r: Result<[u8; HASH_LEN], VerifyError>) -> VerifyView {
    match r {
        Ok(digest) => VerifyView::Accepted(digest@),
        Err(VerifyError::Mismatch { expected, actual }) => VerifyView::Mismatch {
            expected: expected@,
            actual: actual@,
        },
        Err(VerifyError::NoHash) => VerifyView::NoHash,
        Err(VerifyError::Flash(e)) => VerifyView::Flash(e),
        Err(VerifyError::TotalSize(e)) => VerifyView::TotalSize(e),
    }
}

/// The bytes that a check hashes, with `view.payload` hashed, where every read
/// is answered from `flash`.
pub open spec fn hashed_on(flash: FlashModel, view: HashView) -> Result<Seq<u8>, FlashError>
    decreases view.payload_len - view.payload.len(),
{
    if view.payload.len() >= view.payload_len {
        Ok(view.payload)
    } else {
        let n = chunk_size(view.payload_len, view.payload.len() as int);
        match flash(wrap_u32(view.flash_offset + view.payload.len()), n) {
            Err(e) => Err(e),
            Ok(chunk) => if chunk.len() == n {
                hashed_on(flash, HashView { payload: view.payload + chunk, ..view })
            } else {
                Ok(view.payload)
            },
        }
    }
}

/// What comes of a check that has hashed `view.payload` in full.
pub open spec fn compared_on(flash: FlashModel, view: HashView) -> VerifyView {
    match flash(wrap_u32(view.flash_offset + view.payload_len), HASH_LEN as int) {
        Err(e) => VerifyView::Flash(e),
        Ok(expected) => if expected == sha256(view.payload) {
            VerifyView::Accepted(expected)
        } else {
            VerifyView::Mismatch { expected, actual: sha256(view.payload) }
        },
    }
}

/// What comes of a check that has hashed `view.payload`.
pub open spec fn checked_on(flash: FlashModel, view: HashView) -> VerifyView {
    match hashed_on(flash, view) {
        Err(e) => VerifyView::Flash(e),
        Ok(payload) => compared_on(flash, HashView { payload, ..view }),
    }
}

/// What comes of a check that has found out the length of the image, or not.
pub open spec fn sized_on(
    flash: FlashModel,
    flash_offset: u32,
    size: Result<u32, AppLoadError>,
) -> VerifyView {
    match size {
        Err(AppLoadError::Flash(e)) => VerifyView::Flash(e),
        Err(e) => VerifyView::TotalSize(e),
        Ok(size) => checked_on(
            flash,
            HashView { flash_offset, payload_len: size - HASH_LEN, payload: Seq::empty() },
        ),
    }
}

/// What comes of the check of the image at `flash_offset`.
pub open spec fn verified_on(flash: FlashModel, flash_offset: u32, header: ImageHeader) -> VerifyView {
    if header.hash_appended {
        sized_on(flash, flash_offset, size_on(flash, flash_offset, header, Seq::empty()))
    } else {
        VerifyView::NoHash
    }
}

/// What a check comes to from `step` on, where every read is answered from
/// `flash`.
pub open spec fn verify_result(step: VerifyStep, flash: FlashModel) -> VerifyView {
    match step {
        VerifyStep::Done(r) => verify_view(r),
        VerifyStep::ReadSegmentHeader { walk, .. } => sized_on(
            flash,
            walk@.flash_offset,
            size_on(flash, walk@.flash_offset, walk@.header, walk@.lens),
        ),
        VerifyStep::ReadChunk { hash, .. } => checked_on(flash, hash@),
        VerifyStep::ReadDigest { compare, .. } => compared_on(flash, compare@),
    }
}

/// Whether `chunk` holds what `flash` gives for the next read of `view`.
pub open spec fn chunk_from(
    chunk: Result<&[u8; CHUNK_LEN], FlashError>,
    flash: FlashModel,
    view: HashView,
) -> bool {
    let n = chunk_size(view.payload_len, view.payload.len() as int);
    match flash(wrap_u32(view.flash_offset + view.payload.len()), n) {
        Err(e) => chunk == Err::<&[u8; CHUNK_LEN], FlashError>(e),
        Ok(data) => chunk is Ok && chunk->Ok_0@.take(n) == data,
    }
}

fn next_verify_step(
    flash_offset: u32,
    header: ImageHeader,
    step: SizeStep,
    Ghost(lens): Ghost<Seq<u32>>,
) -> (next: VerifyStep)
    requires
        header.hash_appended,
        step is ReadSegmentHeader || step->Done_0 is Ok ==> size_step(
            step,
            flash_offset,
            header,
            lens,
        ),
    ensures
        step is ReadSegmentHeader || step->Done_0 is Ok ==> verify_step(
            next,
            flash_offset,
            header,
            lens,
        ),
        step matches SizeStep::Done(Err(e)) ==> next == VerifyStep::Done(
            Err(<VerifyError as vstd::std_specs::convert::FromSpec<AppLoadError>>::from_spec(e)),
        ),
        forall|flash: FlashModel| #[trigger]
            verify_result(next, flash) == sized_on(
                flash,
                flash_offset,
                size_result(step, flash),
            ),
{
    match step {
        SizeStep::ReadSegmentHeader { at, walk } => VerifyStep::ReadSegmentHeader {
            at,
            walk: VerifySize { flash_offset, header, walk },
        },
        SizeStep::Done(Ok(total)) => {
            let payload_len = total as usize - HASH_LEN;
            next_hash_step(flash_offset, payload_len, 0, sha256_new())
        },
        SizeStep::Done(Err(e)) => VerifyStep::Done(Err(VerifyError::from(e))),
    }
}

fn next_hash_step(flash_offset: u32, payload_len: usize, read: usize, hasher: Hasher) -> (step:
    VerifyStep)
    requires
        read == absorbed(hasher).len(),
        read <= payload_len <= u32::MAX,
    ensures
        hash_step(
            step,
            HashView { flash_offset, payload_len: payload_len as int, payload: absorbed(hasher) },
        ),
        forall|flash: FlashModel| #[trigger]
            verify_result(step, flash) == checked_on(
                flash,
                HashView {
                    flash_offset,
                    payload_len: payload_len as int,
                    payload: absorbed(hasher),
                },
            ),
{
    if read < payload_len {
        let left = payload_len - read;
        let want = if left < CHUNK_LEN { left } else { CHUNK_LEN };
        VerifyStep::ReadChunk {
            at: flash_offset.wrapping_add(read as u32),
            len: want,
            hash: VerifyHash { flash_offset, payload_len, read, want, hasher },
        }
    } else {
        let ghost view = HashView {
            flash_offset,
            payload_len: payload_len as int,
            payload: absorbed(hasher),
        };
        VerifyStep::ReadDigest {
            at: flash_offset.wrapping_add(payload_len as u32),
            compare: VerifyDigest { hashed: Ghost(view), actual: sha256_finalize(hasher) },
        }
    }
}

impl VerifySize {
    #[verifier::type_invariant]
    spec fn wf(self) -> bool {
        &&& self.header.hash_appended
        &&& self.walk@.flash_offset == self.flash_offset
        &&& self.walk@.header == self.header
    }

    /// Takes the segment header that was asked for.
    pub fn resume(self, read: Result<[u8; 8], FlashError>) -> (step: VerifyStep)
        ensures
            size_resumed(self@, read_view(read), step),
            forall|flash: FlashModel|
                flash(wrap_u32(self@.flash_offset + segment_start(self@.lens)), 8) == read_view(
                    read,
                ) ==> #[trigger] verify_result(step, flash) == sized_on(
                    flash,
                    self@.flash_offset,
                    size_on(flash, self@.flash_offset, self@.header, self@.lens),
                ),
    {
        proof {
            use_type_invariant(&self);
        }
        let VerifySize { flash_offset, header, walk } = self;
        let ghost lens = walk@.lens;
        next_verify_step(
            flash_offset,
            header,
            walk.resume(read),
            Ghost(lens.push(le_u32(read->Ok_0@, 4))),
        )
    }
}

impl VerifyHash {
    #[verifier::type_invariant]
    spec fn wf(self) -> bool {
        &&& self.read == absorbed(self.hasher).len()
        &&& self.read < self.payload_len <= u32::MAX
        &&& self.want == chunk_size(self.payload_len as int, self.read as int)
    }

    /// Takes the chunk that was asked for; only its first `len` bytes count.
    pub fn resume(self, chunk: Result<&[u8; CHUNK_LEN], FlashError>) -> (step: VerifyStep)
        ensures
            hash_resumed(self@, chunk_view(chunk), step),
            forall|flash: FlashModel|
                chunk_from(chunk, flash, self@) ==> #[trigger] verify_result(step, flash)
                    == checked_on(flash, self@),
    {
        proof {
            use_type_invariant(&self);
        }
        let b = match chunk {
            Ok(b) => b,
            Err(e) => {
                return VerifyStep::Done(Err(VerifyError::from(e)));
            },
        };
        let VerifyHash { flash_offset, payload_len, read, want, mut hasher } = self;
        let part = &b.as_slice()[0..want];
        assert(part@ =~= b@.take(want as int));
        sha256_update(&mut hasher, part);
        next_hash_step(flash_offset, payload_len, read + want, hasher)
    }
}

impl VerifyDigest {
    #[verifier::type_invariant]
    spec fn wf(self) -> bool {
        self.actual@ == sha256(self.hashed@.payload)
    }

    /// Takes the appended digest.
    pub fn resume(self, digest: Result<[u8; HASH_LEN], FlashError>) -> (step: VerifyStep)
        ensures
            digest_resumed(self@, read_view(digest), step),
            forall|flash: FlashModel|
                flash(wrap_u32(self@.flash_offset + self@.payload_len), HASH_LEN as int)
                    == read_view(digest) ==> #[trigger] verify_result(step, flash) == compared_on(
                    flash,
                    self@,
                ),
    {
        proof {
            use_type_invariant(&self);
        }
        let expected = match digest {
            Ok(expected) => expected,
            Err(e) => {
                return VerifyStep::Done(Err(VerifyError::from(e)));
            },
        };
        if !same_bytes(self.actual.as_slice(), expected.as_slice()) {
            return VerifyStep::Done(
                Err(VerifyError::Mismatch { expected, actual: self.actual }),
            );
        }
        assert(self.actual == expected) by {
            assert(self.actual =~= expected);
        }
        VerifyStep::Done(Ok(self.actual))
    }
}

/// Starts the check of the image at `flash_offset` against its digest.
pub fn verify_app_sha256(flash_offset: u32, header: &ImageHeader) -> (step: VerifyStep)
    ensures
        if header.hash_appended {
            verify_step(step, flash_offset, *header, Seq::empty())
        } else {
            step == VerifyStep::Done(Err(VerifyError::NoHash))
        },
        forall|flash: FlashModel| #[trigger]
            verify_result(step, flash) == verified_on(flash, flash_offset, *header),
{
    if !header.hash_appended {
        return VerifyStep::Done(Err(VerifyError::NoHash));
    }
    next_verify_step(
        flash_offset,
        *header,
        app::compute_image_total_size(flash_offset, header),
        Ghost(Seq::empty()),
    )
}

} // verus!
