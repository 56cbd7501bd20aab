//! Which app partition to boot, by the A/B state in the `otadata` partition.
//!
//! 1. Load otadata; where it does not decode, go on from a fresh state.
//! 2. Let the update policy choose; store the new state if the choice changed
//!    it. A store that fails is no reason not to boot.
//! 3. Look up the chosen slot's partition by its label.
//! 4. Read its image header. A slot without one falls back to the factory app.
//! 5. Without a factory app there is nothing to boot; a partition table that
//!    cannot be read is told apart.
//!
//! The attempt counter is stored before anything of the slot is read, so a hang
//! of the app is counted at the next boot.
use vstd::prelude::*;
use vstd::std_specs::convert::FromSpecImpl;
use crate::app;
use crate::app::{header_in, read_view, AppLoadError};
use crate::boot_log::{
    action_line, action_text, factory_header_line, factory_header_text, factory_line, factory_text,
    fresh_line, fresh_text, skip_line, skip_text, slot_line, slot_text, store_failed_text,
    store_line, store_text,
};
use crate::flash::{FlashError, FlashModel};
use crate::partition;
use crate::partition::{
    factory_in, labelled_in, table_view, PartitionEntry, PartitionError, PartitionView,
    PARTITION_TABLE_OFFSET, PARTITION_TABLE_READ_LEN,
};

verus! {

/// Flash offset of the `otadata` partition.
pub const OTADATA_PARTITION_OFFSET: u32 = 0xF000;

/// Boot attempts before an automatic rollback.
pub const MAX_BOOT_ATTEMPTS: u8 = 3;

/// One of the two update slots.
#[derive(Clone, Copy, Debug, PartialEq, Eq, Structural)]
pub enum Slot {
    A,
    B,
}

/// The partition label of a slot.
pub open spec fn slot_label(slot: Slot) -> Seq<char> {
    match slot {
        Slot::A => "ota_0"@,
        Slot::B => "ota_1"@,
    }
}

impl Slot {
    /// The partition label of the slot.
    pub fn label(self) -> (s: &'static str)
        ensures
            s@ == slot_label(self),
    {
        match self {
            Slot::A => "ota_0",
            Slot::B => "ota_1",
        }
    }
}

/// The names of the slots in the log.
pub struct SlotNames {
    pub a: String,
    pub b: String,
}

/// The name of a slot in the log.
pub open spec fn slot_name(names: SlotNames, slot: Slot) -> Seq<char> {
    match slot {
        Slot::A => names.a@,
        Slot::B => names.b@,
    }
}

impl SlotNames {
    /// The name of a slot.
    pub fn of(&self, slot: Slot) -> (name: &str)
        ensures
            name@ == slot_name(*self, slot),
    {
        match slot {
            Slot::A => self.a.as_str(),
            Slot::B => self.b.as_str(),
        }
    }
}

/// What the update policy says, with the otadata state `S` to store.
pub enum BootAction<S> {
    /// Boot this slot; the state is as it was.
    Stable(Slot),
    /// The slot is on probation, and this is one more attempt.
    Pending { slot: Slot, attempt: u8, new_state: S },
    /// The slot used up its attempts.
    Rollback { from: Slot, to: Slot, new_state: S },
}

/// What was decided.
#[derive(Clone, Copy, Debug, PartialEq, Eq, Structural)]
pub enum SelectionOutcome {
    /// Booted the requested slot; otadata unchanged.
    OtaStable(Slot),
    /// The slot was on probation, its attempt counter went up.
    OtaPending { slot: Slot, attempt: u8 },
    /// The slot used up its attempts, rolled back to the stable one.
    OtaRollback { from: Slot, to: Slot },
    /// The slot could not be looked up or has no image; the factory app boots.
    FactoryFallback { skipped: Slot },
    /// otadata was unreadable or blank; came up on a fresh state.
    OtaFresh,
}

#[derive(Debug, Clone, Copy)]
pub enum SlotSelectError {
    /// Neither the slot nor a factory partition has a loadable image.
    NoBootableApp,
    /// The partition table could not be used.
    Partition(PartitionError),
}

impl From<PartitionError> for SlotSelectError {
    fn from(e: PartitionError) -> (r: Self) {
        SlotSelectError::Partition(e)
    }
}

impl FromSpecImpl<PartitionError> for SlotSelectError {
    open spec fn obeys_from_spec() -> bool {
        true
    }

    open spec fn from_spec(e: PartitionError) -> Self {
        SlotSelectError::Partition(e)
    }
}

/// Where the policy takes the otadata state from.
pub enum OtaSource<S> {
    Stored(S),
    Fresh,
}

/// Why a slot was skipped.
#[derive(Debug, Clone, Copy)]
pub enum SkipReason {
    Lookup(PartitionError),
    Header(AppLoadError),
}

/// The next step of the choice. `out` is printed first.
#[allow(inconsistent_fields)]
pub enum PickStep<S> {
    /// Load the otadata state at `at`; resume with it, or why there is none.
    LoadOtaData { at: u32, next: AwaitOtaData },
    /// Run the update policy on this state; resume with what it says.
    Select { out: String, source: OtaSource<S>, max_attempts: u8, next: AwaitSelection },
    /// Store this state at `at`; resume with what came of it.
    Store { out: String, at: u32, state: S, next: AwaitStore },
    /// Read the partition table at `at`; resume with it.
    ReadTable { out: String, at: u32, next: AwaitTable },
    /// Read the 24-byte image header at `at`; resume with it.
    ReadHeader { out: String, at: u32, next: AwaitHeader },
    /// The slot is skipped: read the partition table at `at` for the factory
    /// app; resume with it.
    ReadFactoryTable { out: String, at: u32, next: AwaitFactoryTable },
    /// Read the 24-byte image header of the factory app at `at`; resume with it.
    ReadFactoryHeader { out: String, at: u32, next: AwaitFactoryHeader },
    Done { out: String, picked: Result<(PartitionEntry, SelectionOutcome), SlotSelectError> },
}

pub struct AwaitOtaData {}

pub struct AwaitSelection {
    pub decoded_ok: bool,
}

pub struct AwaitStore {
    pub slot: Slot,
    pub outcome: SelectionOutcome,
}

pub struct AwaitTable {
    pub slot: Slot,
    pub outcome: SelectionOutcome,
}

pub struct AwaitHeader {
    pub slot: Slot,
    pub outcome: SelectionOutcome,
    pub part: PartitionEntry,
}

pub struct AwaitFactoryTable {
    pub skipped: Slot,
}

pub struct AwaitFactoryHeader {
    pub skipped: Slot,
    pub part: PartitionEntry,
}

/// The slot that an action boots.
pub open spec fn chosen_slot<S>(action: BootAction<S>) -> Slot {
    match action {
        BootAction::Stable(slot) => slot,
        BootAction::Pending { slot, .. } => slot,
        BootAction::Rollback { to, .. } => to,
    }
}

/// What an action is reported as.
pub open spec fn outcome_of<S>(decoded_ok: bool, action: BootAction<S>) -> SelectionOutcome {
    match action {
        BootAction::Stable(slot) => if decoded_ok {
            SelectionOutcome::OtaStable(slot)
        } else {
            SelectionOutcome::OtaFresh
        },
        BootAction::Pending { slot, attempt, .. } => SelectionOutcome::OtaPending { slot, attempt },
        BootAction::Rollback { from, to, .. } => SelectionOutcome::OtaRollback { from, to },
    }
}

/// The state that an action has stored, if it changed it.
pub open spec fn state_to_store<S>(action: BootAction<S>) -> Option<S> {
    match action {
        BootAction::Stable(_) => None,
        BootAction::Pending { new_state, .. } => Some(new_state),
        BootAction::Rollback { new_state, .. } => Some(new_state),
    }
}

/// `step` prints `text` and reads the partition table for a slot.
pub open spec fn reads_table<S>(
    step: PickStep<S>,
    text: Seq<char>,
    slot: Slot,
    outcome: SelectionOutcome,
) -> bool {
    &&& step matches PickStep::ReadTable { out, at, next }
    &&& out@ == text
    &&& at == PARTITION_TABLE_OFFSET
    &&& next == (AwaitTable { slot, outcome })
}

/// `step` tells that a slot is skipped, and reads the partition table for the
/// factory app.
pub open spec fn skips<S>(step: PickStep<S>, skipped: Slot, because: SkipReason) -> bool {
    &&& step matches PickStep::ReadFactoryTable { out, at, next }
    &&& out@ == skip_text(skipped, because)
    &&& at == PARTITION_TABLE_OFFSET
    &&& next == (AwaitFactoryTable { skipped })
}

/// `step` prints `text` and ends the choice.
pub open spec fn ends<S>(
    step: PickStep<S>,
    text: Seq<char>,
    result: Result<(PartitionEntry, SelectionOutcome), SlotSelectError>,
) -> bool {
    &&& step matches PickStep::Done { out, picked }
    &&& out@ == text
    &&& picked == result
}

/// `step` is what comes after the new state was stored, or not: the same either
/// way, but for a line.
pub open spec fn store_resumed<S>(
    wait: AwaitStore,
    stored: Result<(), String>,
    step: PickStep<S>,
) -> bool {
    reads_table(step, store_text(stored), wait.slot, wait.outcome)
}

/// Whether a readable image header lies at the start of `p`.
pub open spec fn has_image(flash: FlashModel, p: PartitionView) -> bool {
    header_in(flash(p.offset, 24)) is Ok
}

/// The partition table of a flash.
pub open spec fn table_of(flash: FlashModel) -> Result<Seq<u8>, FlashError> {
    flash(PARTITION_TABLE_OFFSET, PARTITION_TABLE_READ_LEN as int)
}

/// The partition of a slot, if it holds an image.
pub open spec fn slot_image(flash: FlashModel, slot: Slot) -> Option<PartitionView> {
    match labelled_in(table_of(flash), slot_label(slot)) {
        Ok(p) if has_image(flash, p) => Some(p),
        _ => None,
    }
}

/// The factory partition, if it holds an image.
pub open spec fn factory_image(flash: FlashModel) -> Option<PartitionView> {
    match factory_in(table_of(flash)) {
        Ok(p) if has_image(flash, p) => Some(p),
        _ => None,
    }
}

/// What boots in place of `skipped`. A partition table that cannot be read is
/// told apart from one without an application.
pub open spec fn fallback_result(flash: FlashModel, skipped: Slot) -> Result<
    (PartitionView, SelectionOutcome),
    SlotSelectError,
> {
    match factory_in(table_of(flash)) {
        Ok(p) => if has_image(flash, p) {
            Ok((p, SelectionOutcome::FactoryFallback { skipped }))
        } else {
            Err(SlotSelectError::NoBootableApp)
        },
        Err(PartitionError::Flash(e)) => Err(SlotSelectError::Partition(PartitionError::Flash(e))),
        Err(PartitionError::NoFactoryApp) => Err(SlotSelectError::NoBootableApp),
    }
}

/// What boots where the policy chose `slot`.
pub open spec fn slot_result(flash: FlashModel, slot: Slot, outcome: SelectionOutcome) -> Result<
    (PartitionView, SelectionOutcome),
    SlotSelectError,
> {
    match slot_image(flash, slot) {
        Some(p) => Ok((p, outcome)),
        None => fallback_result(flash, slot),
    }
}

/// What boots where the chosen slot's partition has been found.
pub open spec fn header_result(flash: FlashModel, wait: AwaitHeader) -> Result<
    (PartitionView, SelectionOutcome),
    SlotSelectError,
> {
    if has_image(flash, wait.part@) {
        Ok((wait.part@, wait.outcome))
    } else {
        fallback_result(flash, wait.slot)
    }
}

/// What boots where the factory partition has been found.
pub open spec fn factory_header_result(flash: FlashModel, wait: AwaitFactoryHeader) -> Result<
    (PartitionView, SelectionOutcome),
    SlotSelectError,
> {
    if has_image(flash, wait.part@) {
        Ok((wait.part@, SelectionOutcome::FactoryFallback { skipped: wait.skipped }))
    } else {
        Err(SlotSelectError::NoBootableApp)
    }
}

/// What a choice comes to from `step` on, where the policy has spoken and every
/// read is answered from `flash`.
pub open spec fn pick_result<S>(step: PickStep<S>, flash: FlashModel) -> Result<
    (PartitionView, SelectionOutcome),
    SlotSelectError,
>
    recommends
        !(step is LoadOtaData),
        !(step is Select),
{
    match step {
        PickStep::Store { next, .. } => slot_result(flash, next.slot, next.outcome),
        PickStep::ReadTable { next, .. } => slot_result(flash, next.slot, next.outcome),
        PickStep::ReadHeader { next, .. } => header_result(flash, next),
        PickStep::ReadFactoryTable { next, .. } => fallback_result(flash, next.skipped),
        PickStep::ReadFactoryHeader { next, .. } => factory_header_result(flash, next),
        PickStep::Done { picked: Ok((part, outcome)), .. } => Ok((part@, outcome)),
        PickStep::Done { picked: Err(e), .. } => Err(e),
        _ => Err(SlotSelectError::NoBootableApp),
    }
}

/// What is told of the factory app once its partition has been found.
pub open spec fn factory_header_told(flash: FlashModel, part: PartitionView) -> Seq<char> {
    match header_in(flash(part.offset, 24)) {
        Ok(_) => factory_text(part),
        Err(e) => factory_header_text(e),
    }
}

/// What is told of the factory app.
pub open spec fn factory_told(flash: FlashModel) -> Seq<char> {
    match factory_in(table_of(flash)) {
        Ok(p) => factory_header_told(flash, p),
        Err(_) => Seq::empty(),
    }
}

/// What is told of a slot once its partition has been found.
pub open spec fn header_told(flash: FlashModel, slot: Slot, part: PartitionView) -> Seq<char> {
    match header_in(flash(part.offset, 24)) {
        Ok(_) => slot_text(slot, part),
        Err(e) => skip_text(slot, SkipReason::Header(e)) + factory_told(flash),
    }
}

/// What is told of a slot.
pub open spec fn slot_told(flash: FlashModel, slot: Slot) -> Seq<char> {
    match labelled_in(table_of(flash), slot_label(slot)) {
        Ok(p) => header_told(flash, slot, p),
        Err(e) => skip_text(slot, SkipReason::Lookup(e)) + factory_told(flash),
    }
}

/// All that is printed from `step` on, where the new state has been stored and
/// every read is answered from `flash`.
pub open spec fn told_on<S>(step: PickStep<S>, flash: FlashModel) -> Seq<char>
    recommends
        !(step is LoadOtaData),
        !(step is Select),
        !(step is Store),
{
    match step {
        PickStep::ReadTable { out, next, .. } => out@ + slot_told(flash, next.slot),
        PickStep::ReadHeader { out, next, .. } => out@ + header_told(flash, next.slot, next.part@),
        PickStep::ReadFactoryTable { out, .. } => out@ + factory_told(flash),
        PickStep::ReadFactoryHeader { out, next, .. } => out@ + factory_header_told(
            flash,
            next.part@,
        ),
        PickStep::Done { out, .. } => out@,
        _ => Seq::empty(),
    }
}

/// Starts the choice.
pub fn pick<S>() -> (step: PickStep<S>)
    ensures
        step == (PickStep::<S>::LoadOtaData {
            at: OTADATA_PARTITION_OFFSET,
            next: AwaitOtaData {  },
        }),
{
    PickStep::LoadOtaData { at: OTADATA_PARTITION_OFFSET, next: AwaitOtaData {  } }
}

impl AwaitOtaData {
    /// Takes the otadata state, or why it did not decode.
    pub fn resume<S>(self, state: Result<S, String>) -> (step: PickStep<S>)
        ensures
            step matches PickStep::Select { out, source, max_attempts, next } && {
                &&& out@ == match state {
                    Ok(_) => Seq::empty(),
                    Err(e) => fresh_text(e@),
                }
                &&& source == match state {
                    Ok(s) => OtaSource::Stored(s),
                    Err(_) => OtaSource::Fresh,
                }
                &&& max_attempts == MAX_BOOT_ATTEMPTS
                &&& next == (AwaitSelection { decoded_ok: state is Ok })
            },
    {
        match state {
            Ok(s) => PickStep::Select {
                out: String::new(),
                source: OtaSource::Stored(s),
                max_attempts: MAX_BOOT_ATTEMPTS,
                next: AwaitSelection { decoded_ok: true },
            },
            Err(e) => PickStep::Select {
                out: fresh_line(e.as_str()),
                source: OtaSource::Fresh,
                max_attempts: MAX_BOOT_ATTEMPTS,
                next: AwaitSelection { decoded_ok: false },
            },
        }
    }
}

impl AwaitSelection {
    /// Takes what the update policy says. A state that it changed is stored
    /// before anything of the slot is read.
    pub fn resume<S>(self, action: BootAction<S>, names: &SlotNames) -> (step: PickStep<S>)
        ensures
            match state_to_store(action) {
                Some(new_state) => step matches PickStep::Store { out, at, state, next } && {
                    &&& out@ == action_text(action, *names)
                    &&& at == OTADATA_PARTITION_OFFSET
                    &&& state == new_state
                    &&& next == (AwaitStore {
                        slot: chosen_slot(action),
                        outcome: outcome_of(self.decoded_ok, action),
                    })
                },
                None => reads_table(
                    step,
                    action_text(action, *names),
                    chosen_slot(action),
                    outcome_of(self.decoded_ok, action),
                ),
            },
            forall|flash: FlashModel| #[trigger]
                pick_result(step, flash) == slot_result(
                    flash,
                    chosen_slot(action),
                    outcome_of(self.decoded_ok, action),
                ),
    {
        let out = action_line(&action, names);
        match action {
            BootAction::Stable(slot) => {
                let outcome = if self.decoded_ok {
                    SelectionOutcome::OtaStable(slot)
                } else {
                    SelectionOutcome::OtaFresh
                };
                PickStep::ReadTable {
                    out,
                    at: PARTITION_TABLE_OFFSET,
                    next: AwaitTable { slot, outcome },
                }
            },
            BootAction::Pending { slot, attempt, new_state } => PickStep::Store {
                out,
                at: OTADATA_PARTITION_OFFSET,
                state: new_state,
                next: AwaitStore { slot, outcome: SelectionOutcome::OtaPending { slot, attempt } },
            },
            BootAction::Rollback { from, to, new_state } => PickStep::Store {
                out,
                at: OTADATA_PARTITION_OFFSET,
                state: new_state,
                next: AwaitStore {
                    slot: to,
                    outcome: SelectionOutcome::OtaRollback { from, to },
                },
            },
        }
    }
}

impl AwaitStore {
    /// Goes on to the partition table, whether or not the state was stored: to
    /// halt would be worse than to boot with an old counter.
    pub fn resume<S>(self, stored: Result<(), String>) -> (step: PickStep<S>)
        ensures
            store_resumed(self, stored, step),
            forall|flash: FlashModel| #[trigger]
                pick_result(step, flash) == slot_result(flash, self.slot, self.outcome),
            forall|flash: FlashModel| #[trigger]
                told_on(step, flash) == store_text(stored) + slot_told(flash, self.slot),
    {
        PickStep::ReadTable {
            out: store_line(&stored),
            at: PARTITION_TABLE_OFFSET,
            next: AwaitTable { slot: self.slot, outcome: self.outcome },
        }
    }
}

/// Skips a slot, and goes on with the factory app.
fn fall_back_to_factory<S>(skipped: Slot, because: SkipReason) -> (step: PickStep<S>)
    ensures
        skips(step, skipped, because),
{
    PickStep::ReadFactoryTable {
        out: skip_line(skipped, because),
        at: PARTITION_TABLE_OFFSET,
        next: AwaitFactoryTable { skipped },
    }
}

impl AwaitTable {
    /// Takes the partition table: looks up the slot.
    pub fn resume<S>(self, read: Result<&[u8; PARTITION_TABLE_READ_LEN], FlashError>) -> (step:
        PickStep<S>)
        ensures
            match labelled_in(table_view(read), slot_label(self.slot)) {
                Ok(p) => step matches PickStep::ReadHeader { out, at, next } && {
                    &&& out@ == Seq::<char>::empty()
                    &&& at == p.offset
                    &&& next.part@ == p
                    &&& next.slot == self.slot
                    &&& next.outcome == self.outcome
                },
                Err(e) => skips(step, self.slot, SkipReason::Lookup(e)),
            },
            forall|flash: FlashModel|
                table_of(flash) == table_view(read) ==> #[trigger] pick_result(step, flash)
                    == slot_result(flash, self.slot, self.outcome),
            forall|flash: FlashModel|
                table_of(flash) == table_view(read) ==> #[trigger] told_on(step, flash)
                    == slot_told(flash, self.slot),
    {
        match partition::find_by_label(read, self.slot.label()) {
            Ok(part) => PickStep::ReadHeader {
                out: String::new(),
                at: part.offset,
                next: AwaitHeader { slot: self.slot, outcome: self.outcome, part },
            },
            Err(e) => fall_back_to_factory(self.slot, SkipReason::Lookup(e)),
        }
    }
}

impl AwaitHeader {
    /// Takes the slot's image header.
    pub fn resume<S>(self, read: Result<[u8; 24], FlashError>) -> (step: PickStep<S>)
        ensures
            match header_in(read_view(read)) {
                Ok(_) => ends(
                    step,
                    slot_text(self.slot, self.part@),
                    Ok((self.part, self.outcome)),
                ),
                Err(e) => skips(step, self.slot, SkipReason::Header(e)),
            },
            forall|flash: FlashModel|
                flash(self.part.offset, 24) == read_view(read) ==> #[trigger] pick_result(
                    step,
                    flash,
                ) == header_result(flash, self),
            forall|flash: FlashModel|
                flash(self.part.offset, 24) == read_view(read) ==> #[trigger] told_on(step, flash)
                    == header_told(flash, self.slot, self.part@),
    {
        match app::read_header(read) {
            Ok(_) => PickStep::Done {
                out: slot_line(self.slot, &self.part),
                picked: Ok((self.part, self.outcome)),
            },
            Err(e) => fall_back_to_factory(self.slot, SkipReason::Header(e)),
        }
    }
}

impl AwaitFactoryTable {
    /// Takes the partition table: looks up the factory app.
    pub fn resume<S>(self, read: Result<&[u8; PARTITION_TABLE_READ_LEN], FlashError>) -> (step:
        PickStep<S>)
        ensures
            match factory_in(table_view(read)) {
                Ok(p) => step matches PickStep::ReadFactoryHeader { out, at, next } && {
                    &&& out@ == Seq::<char>::empty()
                    &&& at == p.offset
                    &&& next.part@ == p
                    &&& next.skipped == self.skipped
                },
                Err(PartitionError::Flash(e)) => ends(
                    step,
                    Seq::empty(),
                    Err(SlotSelectError::Partition(PartitionError::Flash(e))),
                ),
                Err(PartitionError::NoFactoryApp) => ends(
                    step,
                    Seq::empty(),
                    Err(SlotSelectError::NoBootableApp),
                ),
            },
            forall|flash: FlashModel|
                table_of(flash) == table_view(read) ==> #[trigger] pick_result(step, flash)
                    == fallback_result(flash, self.skipped),
            forall|flash: FlashModel|
                table_of(flash) == table_view(read) ==> #[trigger] told_on(step, flash)
                    == factory_told(flash),
    {
        match partition::find_factory_app(read) {
            Ok(part) => PickStep::ReadFactoryHeader {
                out: String::new(),
                at: part.offset,
                next: AwaitFactoryHeader { skipped: self.skipped, part },
            },
            Err(PartitionError::NoFactoryApp) => PickStep::Done {
                out: String::new(),
                picked: Err(SlotSelectError::NoBootableApp),
            },
            Err(e) => PickStep::Done { out: String::new(), picked: Err(SlotSelectError::from(e)) },
        }
    }
}

impl AwaitFactoryHeader {
    /// Takes the factory app's image header.
    pub fn resume<S>(self, read: Result<[u8; 24], FlashError>) -> (step: PickStep<S>)
        ensures
            match header_in(read_view(read)) {
                Ok(_) => ends(
                    step,
                    factory_text(self.part@),
                    Ok((self.part, SelectionOutcome::FactoryFallback { skipped: self.skipped })),
                ),
                Err(e) => ends(
                    step,
                    factory_header_text(e),
                    Err(SlotSelectError::NoBootableApp),
                ),
            },
            forall|flash: FlashModel|
                flash(self.part.offset, 24) == read_view(read) ==> #[trigger] pick_result(
                    step,
                    flash,
                ) == factory_header_result(flash, self),
            forall|flash: FlashModel|
                flash(self.part.offset, 24) == read_view(read) ==> #[trigger] told_on(step, flash)
                    == factory_header_told(flash, self.part@),
    {
        match app::read_header(read) {
            Ok(_) => PickStep::Done {
                out: factory_line(&self.part),
                picked: Ok(
                    (self.part, SelectionOutcome::FactoryFallback { skipped: self.skipped }),
                ),
            },
            Err(e) => PickStep::Done {
                out: factory_header_line(e),
                picked: Err(SlotSelectError::NoBootableApp),
            },
        }
    }
}

/// What is chosen always has a readable image header: a blank or corrupt slot
/// is never booted. Where nothing is chosen, neither the slot nor a factory
/// partition has one; and it is the partition table that is to blame exactly
/// where it cannot be read.
pub proof fn law_choice_has_image(flash: FlashModel, slot: Slot, outcome: SelectionOutcome)
    ensures
        match slot_result(flash, slot, outcome) {
            Ok((p, _)) => has_image(flash, p),
            Err(e) => {
                &&& slot_image(flash, slot) is None
                &&& factory_image(flash) is None
                &&& e == match table_of(flash) {
                    Ok(_) => SlotSelectError::NoBootableApp,
                    Err(f) => SlotSelectError::Partition(PartitionError::Flash(f)),
                }
            },
        },
        table_of(flash) matches Err(f) ==> slot_result(flash, slot, outcome) == Err::<
            (PartitionView, SelectionOutcome),
            SlotSelectError,
        >(SlotSelectError::Partition(PartitionError::Flash(f))),
{
}

/// A store that fails changes nothing but the log: the same partition, outcome
/// or error comes of the choice, and one line more is printed, which tells of
/// the failure.
pub proof fn law_failed_store_adds_one_line<S>(
    wait: AwaitStore,
    stored: PickStep<S>,
    failed: PickStep<S>,
    error: String,
    flash: FlashModel,
)
    requires
        store_resumed(wait, Ok(()), stored),
        store_resumed(wait, Err(error), failed),
    ensures
        pick_result(failed, flash) == pick_result(stored, flash),
        told_on(failed, flash) == store_failed_text(error@) + told_on(stored, flash),
{
    assert(told_on(stored, flash) =~= slot_told(flash, wait.slot));
}

/// The chosen slot boots wherever it holds an image, and the factory app boots
/// only in place of one that does not.
pub proof fn law_factory_is_the_rescue(flash: FlashModel, slot: Slot, outcome: SelectionOutcome)
    requires
        outcome != (SelectionOutcome::FactoryFallback { skipped: slot }),
    ensures
        slot_image(flash, slot) is Some <==> slot_result(flash, slot, outcome) == Ok::<
            (PartitionView, SelectionOutcome),
            SlotSelectError,
        >((slot_image(flash, slot)->0, outcome)),
        slot_image(flash, slot) is None && factory_image(flash) is Some <==> slot_result(
            flash,
            slot,
            outcome,
        ) == Ok::<(PartitionView, SelectionOutcome), SlotSelectError>(
            (factory_image(flash)->0, SelectionOutcome::FactoryFallback { skipped: slot }),
        ),
{
}

/// A state that the policy changed is always handed out to be stored, and only
/// then: on probation and on rollback, never on a stable boot.
pub proof fn law_changed_state_is_stored<S>(action: BootAction<S>, decoded_ok: bool)
    ensures
        state_to_store(action) is Some <==> !(action is Stable),
        state_to_store(action) is Some <==> outcome_of(decoded_ok, action) is OtaPending
            || outcome_of(decoded_ok, action) is OtaRollback,
{
}

} // verus!
