//! From a chosen partition to the jump into the application.
//!
//! The image header is read, the appended digest is checked where the header
//! declares one, the segments are copied to their load addresses, and only
//! then is there something to jump to. On any failure there is not: the boot
//! halts, and a heartbeat keeps the console alive.
//!
//! A boot is a step machine. It owns the check and the load, so that a
//! [`Launch`] cannot come about without them.
use vstd::prelude::*;
use crate::app;
use crate::app::{
    copy_begun, copy_resumed, handover_to, header_in, header_of, load_from_copy, load_on,
    load_resumed, load_result, load_step, read_view, seg_headers, AppLoadError, Handover,
    ImageHeader, LoadCopy, LoadSegment, LoadStep, LoadView, LoadWalk, Loaded, Segment,
    SegmentHeader, SizeWalkView,
};
use crate::bytes::wrap_u32;
use crate::flash::{FlashError, FlashModel, RomRead};
use crate::layout::{
    copyable, holds, holds_part, law_check_of_image, law_load_of_image, payload, well_laid_out,
};
use crate::partition::PartitionEntry;
use crate::sha::sha256;
use crate::slot_select::{
    law_choice_has_image, slot_result, SelectionOutcome, Slot, SlotSelectError,
};
use crate::verify;
use crate::verify::{
    checked_on, chunk_from, chunk_view, compared_on, digest_resumed, hash_resumed, sized_on,
    size_resumed, verified_on, verify_result, verify_step, verify_view, HashView, VerifyDigest,
    VerifyError, VerifyHash, VerifySize, VerifyStep, VerifyView, CHUNK_LEN, HASH_LEN,
};

verus! {

/// How long the application has until it must feed or disable the watchdog
/// that is armed right before the jump.
pub const WDT_TIMEOUT_MS: u32 = 30_000;

/// Why nothing is booted.
pub enum HaltReason {
    /// There is no partition to boot from.
    NoImage(SlotSelectError),
    /// The image header cannot be read.
    Header(AppLoadError),
    /// The image does not stand up to its digest.
    Digest(VerifyError),
    /// A segment cannot be loaded.
    Load(AppLoadError),
}

/// The next step of a boot.
#[allow(inconsistent_fields)]
pub enum BootStep {
    /// Read the 24-byte image header at `at`, and resume `next` with it.
    ReadHeader { at: u32, next: BootHeader },
    /// The image has this header; begin `next` to go on with it.
    HeaderRead { header: ImageHeader, next: BootHeaded },
    /// Read the 8-byte segment header at `at` for the check.
    ReadSegmentHeader { at: u32, next: BootSize },
    /// Read `len` bytes at `at` into the front of a chunk, for the check.
    ReadChunk { at: u32, len: usize, next: BootHash },
    /// Read the appended digest at `at`.
    ReadDigest { at: u32, next: BootDigest },
    /// The image stood up to `digest`, or has none; begin `next` to load it.
    Checked { digest: Option<[u8; HASH_LEN]>, next: BootLoad },
    /// Read the 8-byte segment header at `at` for the load.
    ReadLoadHeader { at: u32, next: BootWalk },
    /// A segment is about to be copied; begin `next` to do so.
    Segment { index: usize, load_addr: u32, data_len: u32, next: BootSegment },
    /// Perform `request`, and resume `next` with the status.
    Copy { request: RomRead, next: BootCopy },
    /// Make the [`launch_steps`].
    Jump(Launch),
    /// Boot nothing, and keep the console alive.
    Heartbeat(HaltReason),
}

/// An image that is being booted.
struct Image {
    flash_offset: u32,
    header: ImageHeader,
    head: Ghost<Seq<u8>>,
    accepted: Ghost<Option<(Seq<u8>, Seq<u8>)>>,
}

/// An image that is being booted: the bytes that its header was read from,
/// and, once it stood up to it, what was hashed and the digest.
#[verifier::ext_equal]
pub struct ImageView {
    pub flash_offset: u32,
    pub header: ImageHeader,
    pub head: Seq<u8>,
    pub accepted: Option<(Seq<u8>, Seq<u8>)>,
}

impl View for Image {
    type V = ImageView;

    closed spec fn view(&self) -> ImageView {
        ImageView {
            flash_offset: self.flash_offset,
            header: self.header,
            head: self.head@,
            accepted: self.accepted@,
        }
    }
}

/// The header was read from the image and has the right magic.
pub open spec fn headed(image: ImageView) -> bool {
    header_in(Ok(image.head)) == Ok::<ImageHeader, AppLoadError>(image.header)
}

/// The image is fit to be loaded: a digest that the header declares was read
/// and is the SHA-256 of what was hashed.
pub open spec fn fit(image: ImageView) -> bool {
    &&& headed(image)
    &&& image.header.hash_appended ==> {
        &&& image.accepted matches Some((payload, digest))
        &&& digest == sha256(payload)
    }
}

/// An application that may be jumped to.
pub struct Launch {
    image: Image,
    entry_addr: u32,
    placed: Ghost<Seq<SegmentHeader>>,
}

impl View for Launch {
    type V = (ImageView, Seq<SegmentHeader>);

    closed spec fn view(&self) -> (ImageView, Seq<SegmentHeader>) {
        (self.image@, self.placed@)
    }
}

impl Launch {
    #[verifier::type_invariant]
    spec fn wf(self) -> bool {
        &&& fit(self.image@)
        &&& self.entry_addr == self.image.header.entry_addr
        &&& self.placed@.len() == self.image.header.segment_count
    }

    /// Where the application begins. That there is a launch at all means that
    /// its image is fit, and that all of its segments were copied.
    pub fn entry_addr(&self) -> (addr: u32)
        ensures
            addr == self@.0.header.entry_addr,
            fit(self@.0),
            self@.1.len() == self@.0.header.segment_count,
    {
        proof {
            use_type_invariant(self);
        }
        self.entry_addr
    }
}

/// One step of a launch.
#[derive(Debug, Clone, Copy, PartialEq, Eq, Structural)]
pub enum LaunchStep {
    /// Wait until the whole log is on the wire.
    DrainConsole,
    /// Arm the watchdog.
    ArmWatchdog { timeout_ms: u32 },
    /// Go on into the application.
    HandOver(Handover),
}

/// The steps of a launch to `entry_addr`.
pub open spec fn launch_of(entry_addr: u32) -> Seq<LaunchStep> {
    seq![
        LaunchStep::DrainConsole,
        LaunchStep::ArmWatchdog { timeout_ms: WDT_TIMEOUT_MS },
        LaunchStep::HandOver(handover_to(entry_addr)[0]),
        LaunchStep::HandOver(handover_to(entry_addr)[1]),
        LaunchStep::HandOver(handover_to(entry_addr)[2]),
        LaunchStep::HandOver(handover_to(entry_addr)[3]),
    ]
}

/// The steps of a launch, in this order. The log goes first, so that a slow
/// console does not eat into the watchdog's time; the watchdog is armed before
/// anything of the application runs.
pub fn launch_steps(launch: &Launch) -> (steps: [LaunchStep; 6])
    ensures
        steps@ == launch_of(launch@.0.header.entry_addr),
{
    let over = app::jump_to_entry(launch.entry_addr());
    let steps = [
        LaunchStep::DrainConsole,
        LaunchStep::ArmWatchdog { timeout_ms: WDT_TIMEOUT_MS },
        LaunchStep::HandOver(over[0]),
        LaunchStep::HandOver(over[1]),
        LaunchStep::HandOver(over[2]),
        LaunchStep::HandOver(over[3]),
    ];
    assert(steps@ =~= launch_of(launch@.0.header.entry_addr));
    steps
}

/// A boot that waits for the image header.
pub struct BootHeader {
    flash_offset: u32,
}

/// A boot that has the image header.
pub struct BootHeaded {
    image: Image,
}

/// A boot whose check is finding out how long the image is.
pub struct BootSize {
    image: Image,
    walk: VerifySize,
}

/// A boot whose check is hashing the image.
pub struct BootHash {
    image: Image,
    hash: VerifyHash,
}

/// A boot whose check has hashed the image.
pub struct BootDigest {
    image: Image,
    compare: VerifyDigest,
}

/// A boot whose image is fit to be loaded.
pub struct BootLoad {
    image: Image,
}

/// A boot whose load waits for a segment header.
pub struct BootWalk {
    image: Image,
    walk: LoadWalk,
}

/// A boot whose load is about to copy a segment.
pub struct BootSegment {
    image: Image,
    segment: LoadSegment,
}

/// A boot whose load waits for a segment to be copied.
pub struct BootCopy {
    image: Image,
    copy: LoadCopy,
}

impl View for BootHeader {
    type V = u32;

    closed spec fn view(&self) -> u32 {
        self.flash_offset
    }
}

impl View for BootHeaded {
    type V = ImageView;

    closed spec fn view(&self) -> ImageView {
        self.image@
    }
}

impl View for BootSize {
    type V = (ImageView, SizeWalkView);

    closed spec fn view(&self) -> (ImageView, SizeWalkView) {
        (self.image@, self.walk@)
    }
}

impl View for BootHash {
    type V = (ImageView, HashView);

    closed spec fn view(&self) -> (ImageView, HashView) {
        (self.image@, self.hash@)
    }
}

impl View for BootDigest {
    type V = (ImageView, HashView);

    closed spec fn view(&self) -> (ImageView, HashView) {
        (self.image@, self.compare@)
    }
}

impl View for BootLoad {
    type V = ImageView;

    closed spec fn view(&self) -> ImageView {
        self.image@
    }
}

impl View for BootWalk {
    type V = (ImageView, LoadView);

    closed spec fn view(&self) -> (ImageView, LoadView) {
        (self.image@, self.walk@)
    }
}

impl View for BootSegment {
    type V = (ImageView, LoadView, SegmentHeader);

    closed spec fn view(&self) -> (ImageView, LoadView, SegmentHeader) {
        (self.image@, self.segment@.0, self.segment@.1)
    }
}

impl View for BootCopy {
    type V = (ImageView, LoadView, SegmentHeader);

    closed spec fn view(&self) -> (ImageView, LoadView, SegmentHeader) {
        (self.image@, self.copy@.0, self.copy@.1)
    }
}

/// The boot of an image whose header was just read.
pub open spec fn fresh_image(flash_offset: u32, header: ImageHeader, head: Seq<u8>) -> ImageView {
    ImageView { flash_offset, header, head, accepted: None }
}

/// The boot of `image` after it stood up to the digest of `payload`.
pub open spec fn accepted_image(image: ImageView, payload: Seq<u8>) -> ImageView {
    ImageView { accepted: Some((payload, sha256(payload))), ..image }
}

/// `step` is the step of a boot whose check is at `check`, with `payload`
/// hashed.
pub open spec fn checks(
    step: BootStep,
    check: VerifyStep,
    image: ImageView,
    payload: Seq<u8>,
) -> bool {
    match check {
        VerifyStep::ReadSegmentHeader { at, walk } => {
            &&& step matches BootStep::ReadSegmentHeader { at: a, next }
            &&& a == at
            &&& next@ == (image, walk@)
        },
        VerifyStep::ReadChunk { at, len, hash } => {
            &&& step matches BootStep::ReadChunk { at: a, len: n, next }
            &&& a == at
            &&& n == len
            &&& next@ == (image, hash@)
        },
        VerifyStep::ReadDigest { at, compare } => {
            &&& step matches BootStep::ReadDigest { at: a, next }
            &&& a == at
            &&& next@ == (image, compare@)
        },
        VerifyStep::Done(Ok(d)) => {
            &&& step matches BootStep::Checked { digest, next }
            &&& digest == Some(d)
            &&& next@ == accepted_image(image, payload)
        },
        VerifyStep::Done(Err(e)) => step == BootStep::Heartbeat(HaltReason::Digest(e)),
    }
}

/// `step` is the step of a boot whose load is at `load`.
pub open spec fn loads(
    step: BootStep,
    load: LoadStep,
    image: ImageView,
    placed: Seq<SegmentHeader>,
) -> bool {
    match load {
        LoadStep::ReadSegmentHeader { at, walk } => {
            &&& step matches BootStep::ReadLoadHeader { at: a, next }
            &&& a == at
            &&& next@ == (image, walk@)
        },
        LoadStep::Segment { index, load_addr, data_len, segment } => {
            &&& step matches BootStep::Segment { index: i, load_addr: a, data_len: n, next }
            &&& i == index
            &&& a == load_addr
            &&& n == data_len
            &&& next@ == (image, segment@.0, segment@.1)
        },
        LoadStep::Copy { request, copy } => {
            &&& step matches BootStep::Copy { request: r, next }
            &&& r == request
            &&& next@ == (image, copy@.0, copy@.1)
        },
        LoadStep::Done(Ok(entry_addr)) => {
            &&& entry_addr == image.header.entry_addr
            &&& step matches BootStep::Jump(launch)
            &&& launch@ == (image, placed)
        },
        LoadStep::Done(Err(e)) => step == BootStep::Heartbeat(HaltReason::Load(e)),
    }
}

/// Why nothing is booted, with digests as sequences.
#[verifier::ext_equal]
pub enum HaltView {
    NoImage(SlotSelectError),
    Header(AppLoadError),
    Digest(VerifyView),
    Load(AppLoadError),
}

/// What a boot comes to.
#[verifier::ext_equal]
pub enum BootEnd {
    /// A jump to `entry_addr`, with these segments in memory.
    Jump { entry_addr: u32, segments: Seq<Segment> },
    Heartbeat(HaltView),
}

/// A reason to halt, with digests as sequences.
pub open spec fn halt_view(reason: HaltReason) -> HaltView {
    match reason {
        HaltReason::NoImage(e) => HaltView::NoImage(e),
        HaltReason::Header(e) => HaltView::Header(e),
        HaltReason::Digest(e) => HaltView::Digest(verify_view(Err(e))),
        HaltReason::Load(e) => HaltView::Load(e),
    }
}

/// What a boot comes to that has loaded `loaded`, or not.
pub open spec fn jumped(loaded: Result<Loaded, AppLoadError>) -> BootEnd {
    match loaded {
        Ok(l) => BootEnd::Jump { entry_addr: l.entry_addr, segments: l.segments },
        Err(e) => BootEnd::Heartbeat(HaltView::Load(e)),
    }
}

/// What a boot comes to whose image is fit.
pub open spec fn fit_on(flash: FlashModel, flash_offset: u32, header: ImageHeader) -> BootEnd {
    jumped(load_on(flash, flash_offset, header, Seq::empty()))
}

/// What a boot comes to whose check comes to `check`.
pub open spec fn judged_on(
    flash: FlashModel,
    flash_offset: u32,
    header: ImageHeader,
    check: VerifyView,
) -> BootEnd {
    match check {
        VerifyView::Accepted(_) => fit_on(flash, flash_offset, header),
        refused => BootEnd::Heartbeat(HaltView::Digest(refused)),
    }
}

/// What a boot comes to whose image has this header.
pub open spec fn headed_on(flash: FlashModel, flash_offset: u32, header: ImageHeader) -> BootEnd {
    if header.hash_appended {
        judged_on(flash, flash_offset, header, verified_on(flash, flash_offset, header))
    } else {
        fit_on(flash, flash_offset, header)
    }
}

/// What a boot from `flash_offset` comes to, where every read is answered from
/// `flash`.
pub open spec fn boot_on(flash: FlashModel, flash_offset: u32) -> BootEnd {
    match header_in(flash(flash_offset, 24)) {
        Err(e) => BootEnd::Heartbeat(HaltView::Header(e)),
        Ok(header) => headed_on(flash, flash_offset, header),
    }
}

/// What a boot comes to from `step` on, with `done` copied.
pub open spec fn boot_result(step: BootStep, flash: FlashModel, done: Seq<Segment>) -> BootEnd {
    match step {
        BootStep::Heartbeat(reason) => BootEnd::Heartbeat(halt_view(reason)),
        BootStep::Jump(launch) => jumped(
            Ok(Loaded { entry_addr: launch@.0.header.entry_addr, segments: done }),
        ),
        BootStep::ReadHeader { next, .. } => boot_on(flash, next@),
        BootStep::HeaderRead { next, .. } => headed_on(flash, next@.flash_offset, next@.header),
        BootStep::ReadSegmentHeader { next, .. } => judged_on(
            flash,
            next@.0.flash_offset,
            next@.0.header,
            sized_on(
                flash,
                next@.1.flash_offset,
                app::size_on(flash, next@.1.flash_offset, next@.1.header, next@.1.lens),
            ),
        ),
        BootStep::ReadChunk { next, .. } => judged_on(
            flash,
            next@.0.flash_offset,
            next@.0.header,
            checked_on(flash, next@.1),
        ),
        BootStep::ReadDigest { next, .. } => judged_on(
            flash,
            next@.0.flash_offset,
            next@.0.header,
            compared_on(flash, next@.1),
        ),
        BootStep::Checked { next, .. } => fit_on(flash, next@.flash_offset, next@.header),
        BootStep::ReadLoadHeader { next, .. } => jumped(
            load_on(flash, next@.1.flash_offset, next@.1.header, done),
        ),
        BootStep::Segment { next, .. } => jumped(load_from_copy(flash, next@.1, next@.2, done)),
        BootStep::Copy { next, .. } => jumped(load_from_copy(flash, next@.1, next@.2, done)),
    }
}

/// Starts to boot from the partition that was picked, if one was.
pub fn boot(picked: Result<(PartitionEntry, SelectionOutcome), SlotSelectError>) -> (step: BootStep)
    ensures
        match picked {
            Ok((part, _)) => step matches BootStep::ReadHeader { at, next } && {
                &&& at == part.offset
                &&& next@ == part.offset
            },
            Err(e) => step == BootStep::Heartbeat(HaltReason::NoImage(e)),
        },
{
    match picked {
        Ok((part, _)) => BootStep::ReadHeader {
            at: part.offset,
            next: BootHeader { flash_offset: part.offset },
        },
        Err(e) => BootStep::Heartbeat(HaltReason::NoImage(e)),
    }
}

fn next_check_step(image: Image, check: VerifyStep, Ghost(payload): Ghost<Seq<u8>>) -> (step:
    BootStep)
    requires
        headed(image@),
        check matches VerifyStep::Done(Ok(d)) ==> d@ == sha256(payload),
    ensures
        checks(step, check, image@, payload),
        forall|flash: FlashModel| #[trigger]
            boot_result(step, flash, Seq::empty()) == judged_on(
                flash,
                image@.flash_offset,
                image@.header,
                verify_result(check, flash),
            ),
{
    match check {
        VerifyStep::ReadSegmentHeader { at, walk } => BootStep::ReadSegmentHeader {
            at,
            next: BootSize { image, walk },
        },
        VerifyStep::ReadChunk { at, len, hash } => BootStep::ReadChunk {
            at,
            len,
            next: BootHash { image, hash },
        },
        VerifyStep::ReadDigest { at, compare } => BootStep::ReadDigest {
            at,
            next: BootDigest { image, compare },
        },
        VerifyStep::Done(Ok(digest)) => {
            let Image { flash_offset, header, head, accepted } = image;
            let image = Image {
                flash_offset,
                header,
                head,
                accepted: Ghost(Some((payload, sha256(payload)))),
            };
            BootStep::Checked { digest: Some(digest), next: BootLoad { image } }
        },
        VerifyStep::Done(Err(e)) => BootStep::Heartbeat(HaltReason::Digest(e)),
    }
}

/// `load` loads an image with this header.
spec fn load_has_header(load: LoadStep, header: ImageHeader) -> bool {
    match load {
        LoadStep::ReadSegmentHeader { walk, .. } => walk@.header == header,
        LoadStep::Segment { segment, .. } => segment@.0.header == header,
        LoadStep::Copy { copy, .. } => copy@.0.header == header,
        LoadStep::Done(Ok(entry_addr)) => entry_addr == header.entry_addr,
        LoadStep::Done(Err(_)) => true,
    }
}

fn next_boot_load_step(image: Image, load: LoadStep, Ghost(placed): Ghost<Seq<SegmentHeader>>)
    -> (step: BootStep)
    requires
        fit(image@),
        load_has_header(load, image@.header),
        load is Done && load->Done_0 is Ok ==> placed.len() == image@.header.segment_count,
    ensures
        loads(step, load, image@, placed),
        forall|flash: FlashModel, done: Seq<Segment>| #[trigger]
            boot_result(step, flash, done) == jumped(load_result(load, flash, done)),
{
    match load {
        LoadStep::ReadSegmentHeader { at, walk } => BootStep::ReadLoadHeader {
            at,
            next: BootWalk { image, walk },
        },
        LoadStep::Segment { index, load_addr, data_len, segment } => BootStep::Segment {
            index,
            load_addr,
            data_len,
            next: BootSegment { image, segment },
        },
        LoadStep::Copy { request, copy } => BootStep::Copy {
            request,
            next: BootCopy { image, copy },
        },
        LoadStep::Done(Ok(entry_addr)) => BootStep::Jump(
            Launch { image, entry_addr, placed: Ghost(placed) },
        ),
        LoadStep::Done(Err(e)) => BootStep::Heartbeat(HaltReason::Load(e)),
    }
}

impl BootHeader {
    /// Takes the image header that was asked for.
    pub fn resume(self, read: Result<[u8; 24], FlashError>) -> (step: BootStep)
        ensures
            match header_in(read_view(read)) {
                Err(e) => step == BootStep::Heartbeat(HaltReason::Header(e)),
                Ok(h) => step matches BootStep::HeaderRead { header, next } && {
                    &&& header == h
                    &&& next@ == fresh_image(self@, h, read->Ok_0@)
                },
            },
            forall|flash: FlashModel|
                flash(self@, 24) == read_view(read) ==> #[trigger] boot_result(
                    step,
                    flash,
                    Seq::empty(),
                ) == boot_on(flash, self@),
    {
        match app::read_header(read) {
            Ok(header) => {
                let image = Image {
                    flash_offset: self.flash_offset,
                    header,
                    head: Ghost(read->Ok_0@),
                    accepted: Ghost(None),
                };
                BootStep::HeaderRead { header, next: BootHeaded { image } }
            },
            Err(e) => BootStep::Heartbeat(HaltReason::Header(e)),
        }
    }
}

impl BootHeaded {
    #[verifier::type_invariant]
    spec fn wf(self) -> bool {
        headed(self.image@)
    }

    /// Begins the check where the header declares a digest, and skips it where
    /// it does not.
    pub fn begin(self) -> (step: BootStep)
        ensures
            if self@.header.hash_appended {
                exists|check: VerifyStep|
                    {
                        &&& #[trigger] checks(step, check, self@, Seq::empty())
                        &&& verify_step(
                            check,
                            self@.flash_offset,
                            self@.header,
                            Seq::empty(),
                        )
                    }
            } else {
                step matches BootStep::Checked { digest: None, next } && next@ == self@
            },
            forall|flash: FlashModel| #[trigger]
                boot_result(step, flash, Seq::empty()) == headed_on(
                    flash,
                    self@.flash_offset,
                    self@.header,
                ),
    {
        proof {
            use_type_invariant(&self);
        }
        let image = self.image;
        if image.header.hash_appended {
            let check = verify::verify_app_sha256(image.flash_offset, &image.header);
            next_check_step(image, check, Ghost(Seq::empty()))
        } else {
            BootStep::Checked { digest: None, next: BootLoad { image } }
        }
    }
}

impl BootSize {
    #[verifier::type_invariant]
    spec fn wf(self) -> bool {
        headed(self.image@)
    }

    /// Takes the segment header that was asked for.
    pub fn resume(self, read: Result<[u8; 8], FlashError>) -> (step: BootStep)
        ensures
            exists|check: VerifyStep|
                {
                    &&& #[trigger] checks(step, check, self@.0, Seq::empty())
                    &&& size_resumed(self@.1, read_view(read), check)
                },
            forall|flash: FlashModel|
                flash(
                    wrap_u32(self@.1.flash_offset + app::segment_start(self@.1.lens)),
                    8,
                ) == read_view(read) ==> #[trigger] boot_result(step, flash, Seq::empty())
                    == judged_on(
                    flash,
                    self@.0.flash_offset,
                    self@.0.header,
                    sized_on(
                        flash,
                        self@.1.flash_offset,
                        app::size_on(flash, self@.1.flash_offset, self@.1.header, self@.1.lens),
                    ),
                ),
    {
        proof {
            use_type_invariant(&self);
        }
        let BootSize { image, walk } = self;
        let check = walk.resume(read);
        next_check_step(image, check, Ghost(Seq::empty()))
    }
}

impl BootHash {
    #[verifier::type_invariant]
    spec fn wf(self) -> bool {
        headed(self.image@)
    }

    /// Takes the chunk that was asked for; only its first `len` bytes count.
    pub fn resume(self, chunk: Result<&[u8; CHUNK_LEN], FlashError>) -> (step: BootStep)
        ensures
            exists|check: VerifyStep|
                {
                    &&& #[trigger] checks(step, check, self@.0, Seq::empty())
                    &&& hash_resumed(self@.1, chunk_view(chunk), check)
                },
            forall|flash: FlashModel|
                chunk_from(chunk, flash, self@.1) ==> #[trigger] boot_result(
                    step,
                    flash,
                    Seq::empty(),
                ) == judged_on(
                    flash,
                    self@.0.flash_offset,
                    self@.0.header,
                    checked_on(flash, self@.1),
                ),
    {
        proof {
            use_type_invariant(&self);
        }
        let BootHash { image, hash } = self;
        let check = hash.resume(chunk);
        next_check_step(image, check, Ghost(Seq::empty()))
    }
}

impl BootDigest {
    #[verifier::type_invariant]
    spec fn wf(self) -> bool {
        headed(self.image@)
    }

    /// Takes the appended digest.
    pub fn resume(self, digest: Result<[u8; HASH_LEN], FlashError>) -> (step: BootStep)
        ensures
            exists|check: VerifyStep|
                {
                    &&& #[trigger] checks(step, check, self@.0, self@.1.payload)
                    &&& digest_resumed(self@.1, read_view(digest), check)
                },
            forall|flash: FlashModel|
                flash(wrap_u32(self@.1.flash_offset + self@.1.payload_len), HASH_LEN as int)
                    == read_view(digest) ==> #[trigger] boot_result(step, flash, Seq::empty())
                    == judged_on(
                    flash,
                    self@.0.flash_offset,
                    self@.0.header,
                    compared_on(flash, self@.1),
                ),
    {
        proof {
            use_type_invariant(&self);
        }
        let BootDigest { image, compare } = self;
        let ghost payload = compare@.payload;
        let check = compare.resume(digest);
        next_check_step(image, check, Ghost(payload))
    }
}

impl BootLoad {
    #[verifier::type_invariant]
    spec fn wf(self) -> bool {
        fit(self.image@)
    }

    /// Begins to load the image.
    pub fn begin(self) -> (step: BootStep)
        ensures
            exists|load: LoadStep|
                {
                    &&& #[trigger] loads(step, load, self@, Seq::empty())
                    &&& load_step(
                        load,
                        LoadView {
                            flash_offset: self@.flash_offset,
                            header: self@.header,
                            placed: Seq::empty(),
                        },
                    )
                },
            forall|flash: FlashModel| #[trigger]
                boot_result(step, flash, Seq::empty()) == fit_on(
                    flash,
                    self@.flash_offset,
                    self@.header,
                ),
    {
        proof {
            use_type_invariant(&self);
        }
        let load = app::load_segments(self.image.flash_offset, &self.image.header);
        next_boot_load_step(self.image, load, Ghost(Seq::empty()))
    }
}

impl BootWalk {
    #[verifier::type_invariant]
    spec fn wf(self) -> bool {
        &&& fit(self.image@)
        &&& self.walk@.header == self.image.header
    }

    /// Takes the segment header that was asked for.
    pub fn resume(self, read: Result<[u8; 8], FlashError>) -> (step: BootStep)
        ensures
            exists|load: LoadStep|
                {
                    &&& #[trigger] loads(step, load, self@.0, self@.1.placed)
                    &&& load_resumed(self@.1, read_view(read), load)
                },
            forall|flash: FlashModel, done: Seq<Segment>|
                seg_headers(done) == self@.1.placed && flash(
                    wrap_u32(
                        self@.1.flash_offset + app::segment_start(app::data_lens(self@.1.placed)),
                    ),
                    8,
                ) == read_view(read) ==> #[trigger] boot_result(step, flash, done) == jumped(
                    load_on(flash, self@.1.flash_offset, self@.1.header, done),
                ),
    {
        proof {
            use_type_invariant(&self);
        }
        let BootWalk { image, walk } = self;
        let ghost placed = walk@.placed;
        let load = walk.resume(read);
        let ghost came = load;
        let step = next_boot_load_step(image, load, Ghost(placed));
        assert(loads(step, came, self@.0, placed) && load_resumed(self@.1, read_view(read), came));
        step
    }
}

impl BootSegment {
    #[verifier::type_invariant]
    spec fn wf(self) -> bool {
        &&& fit(self.image@)
        &&& self.segment@.0.header == self.image.header
    }

    /// Begins to copy the segment.
    pub fn begin(self) -> (step: BootStep)
        ensures
            exists|load: LoadStep|
                {
                    &&& #[trigger] loads(step, load, self@.0, self@.1.placed)
                    &&& copy_begun(self@.1, self@.2, load)
                },
            forall|flash: FlashModel, done: Seq<Segment>| #[trigger]
                boot_result(step, flash, done) == jumped(
                    load_from_copy(flash, self@.1, self@.2, done),
                ),
    {
        proof {
            use_type_invariant(&self);
        }
        let BootSegment { image, segment } = self;
        let ghost placed = segment@.0.placed;
        let load = segment.begin();
        let ghost came = load;
        let step = next_boot_load_step(image, load, Ghost(placed));
        assert(loads(step, came, self@.0, placed) && copy_begun(self@.1, self@.2, came));
        step
    }
}

impl BootCopy {
    #[verifier::type_invariant]
    spec fn wf(self) -> bool {
        &&& fit(self.image@)
        &&& self.copy@.0.header == self.image.header
    }

    /// Takes the status of the ROM call.
    pub fn resume(self, status: i32) -> (step: BootStep)
        ensures
            exists|load: LoadStep|
                {
                    &&& #[trigger] loads(step, load, self@.0, self@.1.placed.push(self@.2))
                    &&& copy_resumed(self@.1, self@.2, status, load)
                },
            forall|flash: FlashModel, done: Seq<Segment>, segment: Segment|
                {
                    &&& seg_headers(done) == self@.1.placed
                    &&& app::copied_on(flash, self@.1, self@.2) == Ok::<Segment, AppLoadError>(
                        segment,
                    )
                    &&& segment.data.len() == self@.2.data_len
                    &&& status == 0
                } ==> #[trigger] boot_result(step, flash, done.push(segment)) == jumped(
                    load_from_copy(flash, self@.1, self@.2, done),
                ),
            forall|flash: FlashModel, done: Seq<Segment>|
                status != 0 && app::copied_on(flash, self@.1, self@.2) == Err::<
                    Segment,
                    AppLoadError,
                >(AppLoadError::Flash(FlashError::Rom(status))) ==> #[trigger] boot_result(
                    step,
                    flash,
                    done,
                ) == jumped(load_from_copy(flash, self@.1, self@.2, done)),
    {
        proof {
            use_type_invariant(&self);
        }
        let BootCopy { image, copy } = self;
        let ghost placed = copy@.0.placed.push(copy@.1);
        let load = copy.resume(status);
        let ghost came = load;
        let step = next_boot_load_step(image, load, Ghost(placed));
        assert(loads(step, came, self@.0, placed) && copy_resumed(self@.1, self@.2, status, came));
        step
    }
}

/// A load that comes to an end has copied as many segments as the header says,
/// and is entered where the header says.
proof fn lemma_load_is_complete(
    flash: FlashModel,
    flash_offset: u32,
    header: ImageHeader,
    done: Seq<Segment>,
)
    requires
        done.len() <= header.segment_count,
    ensures
        load_on(flash, flash_offset, header, done) matches Ok(l) ==> {
            &&& l.entry_addr == header.entry_addr
            &&& l.segments.len() == header.segment_count
        },
    decreases header.segment_count - done.len(),
{
    if done.len() < header.segment_count {
        match app::segment_on(flash, app::load_view(flash_offset, header, done)) {
            Ok(segment) => {
                lemma_load_is_complete(flash, flash_offset, header, done.push(segment));
            },
            Err(_) => {},
        }
    }
}

/// A boot ends in a jump only if the header was read, the digest that it
/// declares was accepted, and all of its segments are in memory; the jump goes
/// to the entry address of that header.
pub proof fn law_jump_is_earned(flash: FlashModel, flash_offset: u32)
    ensures
        boot_on(flash, flash_offset) matches BootEnd::Jump { entry_addr, segments } ==> {
            &&& header_in(flash(flash_offset, 24)) matches Ok(header)
            &&& entry_addr == header.entry_addr
            &&& header.hash_appended ==> verified_on(flash, flash_offset, header) is Accepted
            &&& load_on(flash, flash_offset, header, Seq::empty()) == Ok::<
                Loaded,
                AppLoadError,
            >(Loaded { entry_addr, segments })
            &&& segments.len() == header.segment_count
        },
{
    if let Ok(header) = header_in(flash(flash_offset, 24)) {
        lemma_load_is_complete(flash, flash_offset, header, Seq::empty());
    }
}

/// An image that does not stand up to the digest that it declares is never
/// jumped to, and nothing of it is loaded.
pub proof fn law_refused_image_halts(flash: FlashModel, flash_offset: u32, header: ImageHeader)
    requires
        header_in(flash(flash_offset, 24)) == Ok::<ImageHeader, AppLoadError>(header),
        header.hash_appended,
        !(verified_on(flash, flash_offset, header) is Accepted),
    ensures
        boot_on(flash, flash_offset) == BootEnd::Heartbeat(
            HaltView::Digest(verified_on(flash, flash_offset, header)),
        ),
{
}

/// An image in flash whose digest is right, or that has none, boots: exactly
/// its segments are in memory when it is jumped to. One whose digest is wrong
/// does not boot.
pub proof fn law_boot_of_image(
    flash: FlashModel,
    flash_offset: u32,
    head: Seq<u8>,
    segs: Seq<Segment>,
    tail: Seq<u8>,
    digest: Seq<u8>,
)
    requires
        well_laid_out(head, segs, tail),
        copyable(segs),
        digest.len() == (if header_of(head).hash_appended { HASH_LEN } else { 0 }),
        holds(flash, flash_offset, payload(head, segs, tail) + digest),
    ensures
        boot_on(flash, flash_offset) == if header_of(head).hash_appended && digest != sha256(
            payload(head, segs, tail),
        ) {
            BootEnd::Heartbeat(
                HaltView::Digest(
                    VerifyView::Mismatch {
                        expected: digest,
                        actual: sha256(payload(head, segs, tail)),
                    },
                ),
            )
        } else {
            BootEnd::Jump { entry_addr: header_of(head).entry_addr, segments: segs }
        },
{
    let image = payload(head, segs, tail) + digest;
    assert(holds_part(flash, flash_offset, image, 0, 24));
    assert(image.subrange(0, 24) =~= head);
    law_load_of_image(flash, flash_offset, head, segs, tail, digest);
    if header_of(head).hash_appended {
        law_check_of_image(flash, flash_offset, head, segs, tail, digest);
    }
}

/// A boot of what was picked never fails at the header: it was looked at
/// before.
pub proof fn law_picked_header_is_good(flash: FlashModel, slot: Slot, outcome: SelectionOutcome)
    ensures
        slot_result(flash, slot, outcome) matches Ok((p, _)) ==> !(boot_on(
            flash,
            p.offset,
        ) matches BootEnd::Heartbeat(HaltView::Header(_))),
{
    law_choice_has_image(flash, slot, outcome);
}

} // verus!
