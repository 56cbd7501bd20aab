//! From the update policy to the partition that boots.
use vstd::prelude::*;
use vstd::utf8::*;
use crate::app::AppLoadError;
use crate::boot_log::{
    action_line, factory_header_line, factory_line, skip_line, slot_line, store_line,
};
use crate::flash::FlashError;
use crate::laws::table::{
    factory_at, first_factory, first_labelled, is_record, labelled_at, lemma_factory_in,
    lemma_labelled_in, listed,
};
use crate::partition::{PartitionEntry, PartitionError};
use crate::slot_select::{
    pick, AwaitFactoryHeader, AwaitFactoryTable, AwaitHeader, AwaitOtaData, AwaitSelection,
    AwaitStore, AwaitTable, BootAction, OtaSource, PickStep, SelectionOutcome, SkipReason, Slot,
    SlotNames, SlotSelectError,
};
use crate::verify::VerifyError;

verus! {

/// The bytes of a slot's label: `ota_0` or `ota_1`.
pub open spec fn label_bytes(slot: Slot) -> Seq<u8> {
    match slot {
        Slot::A => seq![0x6Fu8, 0x74, 0x61, 0x5F, 0x30],
        Slot::B => seq![0x6Fu8, 0x74, 0x61, 0x5F, 0x31],
    }
}

proof fn lemma_label_bytes(slot: Slot)
    ensures
        crate::slot_select::slot_label(slot).len() > 0,
        encode_utf8(crate::slot_select::slot_label(slot)) == label_bytes(slot),
{
    reveal_strlit("ota_0");
    reveal_strlit("ota_1");
    is_ascii_chars_encode_utf8("ota_0"@);
    is_ascii_chars_encode_utf8("ota_1"@);
    assert(encode_utf8("ota_0"@) =~= label_bytes(Slot::A));
    assert(encode_utf8("ota_1"@) =~= label_bytes(Slot::B));
}

/// A choice begins with the otadata at 0xF000.
pub proof fn law_choice_begins<S>(step: PickStep<S>)
    requires
        call_ensures(pick::<S>, (), step),
    ensures
        step matches PickStep::LoadOtaData { at, .. } && at == 0xF000,
{
}

/// A state that decoded goes to the policy as it is, and one that did not is
/// replaced by a fresh one; three attempts are allowed either way.
pub proof fn law_policy_gets_the_state<S>(
    wait: AwaitOtaData,
    state: Result<S, String>,
    step: PickStep<S>,
)
    requires
        call_ensures(AwaitOtaData::resume::<S>, (wait, state), step),
    ensures
        step matches PickStep::Select { source, max_attempts, next, .. } && {
            &&& max_attempts == 3
            &&& next.decoded_ok == (state is Ok)
            &&& state matches Ok(s) ==> source == OtaSource::Stored(s)
            &&& state is Err ==> source == OtaSource::<S>::Fresh
        },
{
}

/// What the policy says is done: the slot that it names is the slot that is
/// looked up, and the outcome names the same slot. After a rollback that is the
/// slot rolled back to, never the one rolled back from. A state that the policy
/// changed is handed out to be stored first, and no other.
pub proof fn law_policy_is_obeyed<S>(
    wait: AwaitSelection,
    action: BootAction<S>,
    names: SlotNames,
    step: PickStep<S>,
)
    requires
        call_ensures(AwaitSelection::resume::<S>, (wait, action, &names), step),
    ensures
        action matches BootAction::Stable(slot) ==> {
            &&& step matches PickStep::ReadTable { at, next, .. }
            &&& at == 0x8000
            &&& next.slot == slot
            &&& wait.decoded_ok ==> next.outcome == SelectionOutcome::OtaStable(slot)
            &&& !wait.decoded_ok ==> next.outcome == SelectionOutcome::OtaFresh
        },
        action matches BootAction::Pending { slot, attempt, new_state } ==> {
            &&& step matches PickStep::Store { at, state, next, .. }
            &&& at == 0xF000
            &&& state == new_state
            &&& next.slot == slot
            &&& next.outcome == (SelectionOutcome::OtaPending { slot, attempt })
        },
        action matches BootAction::Rollback { from, to, new_state } ==> {
            &&& step matches PickStep::Store { at, state, next, .. }
            &&& at == 0xF000
            &&& state == new_state
            &&& next.slot == to
            &&& next.outcome == (SelectionOutcome::OtaRollback { from, to })
        },
{
}

/// Whether or not the new state was stored, the same slot is looked up for the
/// same outcome.
pub proof fn law_store_decides_nothing<S>(
    wait: AwaitStore,
    stored: Result<(), String>,
    step: PickStep<S>,
)
    requires
        call_ensures(AwaitStore::resume::<S>, (wait, stored), step),
    ensures
        step matches PickStep::ReadTable { at, next, .. } && {
            &&& at == 0x8000
            &&& next.slot == wait.slot
            &&& next.outcome == wait.outcome
        },
{
}

/// The slot is looked up by its label: where the table lists it, the image header
/// at the offset in its first such record is read next; where it does not, the
/// slot is skipped and the table is read again.
pub proof fn law_slot_is_looked_up<S>(wait: AwaitTable, t: [u8; 1024], step: PickStep<S>)
    requires
        call_ensures(AwaitTable::resume::<S>, (wait, Ok::<&[u8; 1024], FlashError>(&t)), step),
    ensures
        forall|i: int| #[trigger]
            first_labelled(t@, i, label_bytes(wait.slot)) ==> {
                &&& step matches PickStep::ReadHeader { at, next, .. }
                &&& is_record(next.part, t@, i)
                &&& at == next.part.offset
                &&& next.slot == wait.slot
                &&& next.outcome == wait.outcome
            },
        (forall|i: int|
            #[trigger] listed(t@, i) ==> !labelled_at(t@, i, label_bytes(wait.slot))) ==> {
            &&& step matches PickStep::ReadFactoryTable { at, next, .. }
            &&& at == 0x8000
            &&& next.skipped == wait.slot
        },
{
    lemma_label_bytes(wait.slot);
    lemma_labelled_in(t@, crate::slot_select::slot_label(wait.slot));
}

/// A slot boots if and only if its image header begins with 0xE9; any other slot
/// is skipped.
pub proof fn law_slot_needs_a_header<S>(wait: AwaitHeader, b: [u8; 24], step: PickStep<S>)
    requires
        call_ensures(AwaitHeader::resume::<S>, (wait, Ok::<[u8; 24], FlashError>(b)), step),
    ensures
        b@[0] == 0xE9 ==> (step matches PickStep::Done { picked, .. } && picked == Ok::<
            (PartitionEntry, SelectionOutcome),
            SlotSelectError,
        >((wait.part, wait.outcome))),
        b@[0] != 0xE9 ==> (step matches PickStep::ReadFactoryTable { at, next, .. } && at == 0x8000
            && next.skipped == wait.slot),
{
}

/// A table or a header that cannot be read has the slot skipped too.
pub proof fn law_unreadable_slot_is_skipped<S>(
    table: AwaitTable,
    header: AwaitHeader,
    e: FlashError,
    table_step: PickStep<S>,
    header_step: PickStep<S>,
)
    requires
        call_ensures(
            AwaitTable::resume::<S>,
            (table, Err::<&[u8; 1024], FlashError>(e)),
            table_step,
        ),
        call_ensures(
            AwaitHeader::resume::<S>,
            (header, Err::<[u8; 24], FlashError>(e)),
            header_step,
        ),
    ensures
        table_step matches PickStep::ReadFactoryTable { next, .. } && next.skipped == table.slot,
        header_step matches PickStep::ReadFactoryTable { next, .. } && next.skipped == header.slot,
{
}

/// In place of a skipped slot the first listed factory app is looked at; without
/// one there is nothing to boot.
pub proof fn law_factory_is_looked_up<S>(
    wait: AwaitFactoryTable,
    t: [u8; 1024],
    step: PickStep<S>,
)
    requires
        call_ensures(
            AwaitFactoryTable::resume::<S>,
            (wait, Ok::<&[u8; 1024], FlashError>(&t)),
            step,
        ),
    ensures
        forall|i: int| #[trigger]
            first_factory(t@, i) ==> {
                &&& step matches PickStep::ReadFactoryHeader { at, next, .. }
                &&& is_record(next.part, t@, i)
                &&& at == next.part.offset
                &&& next.skipped == wait.skipped
            },
        (forall|i: int| #[trigger] listed(t@, i) ==> !factory_at(t@, i)) ==> (step matches
            PickStep::Done { picked, .. } && picked == Err::<
            (PartitionEntry, SelectionOutcome),
            SlotSelectError,
        >(SlotSelectError::NoBootableApp)),
{
    lemma_factory_in(t@);
}

/// The factory app boots if and only if its image header begins with 0xE9, and
/// the outcome names the slot that was skipped for it.
pub proof fn law_factory_needs_a_header<S>(
    wait: AwaitFactoryHeader,
    read: Result<[u8; 24], FlashError>,
    step: PickStep<S>,
)
    requires
        call_ensures(AwaitFactoryHeader::resume::<S>, (wait, read), step),
    ensures
        step matches PickStep::Done { picked, .. } && picked == if read is Ok && read->Ok_0@[0]
            == 0xE9 {
            Ok::<(PartitionEntry, SelectionOutcome), SlotSelectError>(
                (wait.part, SelectionOutcome::FactoryFallback { skipped: wait.skipped }),
            )
        } else {
            Err(SlotSelectError::NoBootableApp)
        },
{
}

/// A table that cannot be read when the factory app is looked up is told apart
/// from one that has nothing to boot.
pub proof fn law_unreadable_table_is_told<S>(
    wait: AwaitFactoryTable,
    e: FlashError,
    step: PickStep<S>,
)
    requires
        call_ensures(
            AwaitFactoryTable::resume::<S>,
            (wait, Err::<&[u8; 1024], FlashError>(e)),
            step,
        ),
    ensures
        step matches PickStep::Done { picked, .. } && picked == Err::<
            (PartitionEntry, SelectionOutcome),
            SlotSelectError,
        >(SlotSelectError::Partition(PartitionError::Flash(e))),
{
}

/// The slot that a choice is for, by what the policy said.
pub open spec fn slot_named<S>(action: BootAction<S>, slot: Slot) -> bool {
    match action {
        BootAction::Stable(s) => s == slot,
        BootAction::Pending { slot: s, .. } => s == slot,
        BootAction::Rollback { to, .. } => to == slot,
    }
}

/// A whole choice that ends with the slot: what boots is the first listed
/// partition with the label of the slot that the policy named, whichever slot
/// that is, and the outcome names that very slot. A rollback boots the slot that
/// it rolls back to.
pub proof fn law_booted_slot_is_the_named_one<S>(
    wait: AwaitSelection,
    action: BootAction<S>,
    names: SlotNames,
    first: PickStep<S>,
    stored: Result<(), String>,
    second: PickStep<S>,
    t: [u8; 1024],
    third: PickStep<S>,
    b: [u8; 24],
    last: PickStep<S>,
    slot: Slot,
)
    requires
        slot_named(action, slot),
        call_ensures(AwaitSelection::resume::<S>, (wait, action, &names), first),
        match first {
            PickStep::Store { next, .. } => call_ensures(
                AwaitStore::resume::<S>,
                (next, stored),
                second,
            ),
            _ => second == first,
        },
        second matches PickStep::ReadTable { next, .. } && call_ensures(
            AwaitTable::resume::<S>,
            (next, Ok::<&[u8; 1024], FlashError>(&t)),
            third,
        ),
        third matches PickStep::ReadHeader { next, .. } && call_ensures(
            AwaitHeader::resume::<S>,
            (next, Ok::<[u8; 24], FlashError>(b)),
            last,
        ),
        last is Done,
    ensures
        exists|i: int| listed(t@, i) && labelled_at(t@, i, label_bytes(slot)),
        last matches PickStep::Done { picked, .. } && picked is Ok && {
            let (part, outcome) = picked->Ok_0;
            &&& b@[0] == 0xE9
            &&& forall|i: int| #[trigger]
                first_labelled(t@, i, label_bytes(slot)) ==> is_record(part, t@, i)
            &&& match outcome {
                SelectionOutcome::OtaStable(s) => s == slot && action is Stable,
                SelectionOutcome::OtaFresh => action is Stable && !wait.decoded_ok,
                SelectionOutcome::OtaPending { slot: s, attempt } => s == slot && (action matches
                    BootAction::Pending { attempt: n, .. } && n == attempt),
                SelectionOutcome::OtaRollback { from, to } => to == slot && (action matches
                    BootAction::Rollback { from: f, .. } && f == from),
                SelectionOutcome::FactoryFallback { .. } => false,
            }
        },
{
    law_policy_is_obeyed(wait, action, names, first);
    if let PickStep::Store { next, .. } = first {
        law_store_decides_nothing(next, stored, second);
    }
    if let PickStep::ReadTable { next, .. } = second {
        law_slot_is_looked_up(next, t, third);
    }
    if let PickStep::ReadHeader { next, .. } = third {
        law_slot_needs_a_header(next, b, last);
    }
}

/// A slot goes by its own label and its own name.
pub proof fn law_slots_have_names(slot: Slot, label: &'static str, names: SlotNames, name: &str)
    requires
        call_ensures(Slot::label, (slot,), label),
        call_ensures(SlotNames::of, (&names, slot), name),
    ensures
        encode_utf8(label@) == label_bytes(slot),
        slot is A ==> name@ == names.a@,
        slot is B ==> name@ == names.b@,
{
    lemma_label_bytes(slot);
}

/// Until the slot is looked up, a choice tells why a state did not decode, what the
/// policy changed, and why that could not be stored; and nothing else.
pub proof fn law_policy_is_told<S>(
    first: AwaitOtaData,
    state: Result<S, String>,
    select: PickStep<S>,
    second: AwaitSelection,
    action: BootAction<S>,
    names: SlotNames,
    act: PickStep<S>,
    act_line: String,
    third: AwaitStore,
    stored: Result<(), String>,
    store: PickStep<S>,
    stored_line: String,
)
    requires
        call_ensures(AwaitOtaData::resume::<S>, (first, state), select),
        call_ensures(AwaitSelection::resume::<S>, (second, action, &names), act),
        call_ensures(action_line::<S>, (&action, &names), act_line),
        call_ensures(AwaitStore::resume::<S>, (third, stored), store),
        call_ensures(store_line, (&stored,), stored_line),
    ensures
        select matches PickStep::Select { out, .. } && out@ == match state {
            Ok(_) => Seq::empty(),
            Err(e) => "otadata: decode failed ("@ + e@ + ") — using fresh\n"@,
        },
        act matches PickStep::ReadTable { out, .. } ==> out@ == act_line@,
        act matches PickStep::Store { out, .. } ==> out@ == act_line@,
        act is ReadTable || act is Store,
        store matches PickStep::ReadTable { out, .. } && out@ == stored_line@,
{
}

/// A slot that is skipped is told with the reason: a table or a header that cannot
/// be read, a label that is not listed, or a wrong first byte. A slot that boots is
/// told.
pub proof fn law_slot_is_told<S>(
    table: AwaitTable,
    read_table: Result<&[u8; 1024], FlashError>,
    table_step: PickStep<S>,
    table_line: String,
    header: AwaitHeader,
    read_header: Result<[u8; 24], FlashError>,
    header_step: PickStep<S>,
    header_line: String,
)
    requires
        call_ensures(AwaitTable::resume::<S>, (table, read_table), table_step),
        call_ensures(
            skip_line,
            (
                table.slot,
                SkipReason::Lookup(
                    match read_table {
                        Ok(_) => PartitionError::NoFactoryApp,
                        Err(e) => PartitionError::Flash(e),
                    },
                ),
            ),
            table_line,
        ),
        call_ensures(AwaitHeader::resume::<S>, (header, read_header), header_step),
        match read_header {
            Ok(b) => if b@[0] == 0xE9 {
                call_ensures(slot_line, (header.slot, &header.part), header_line)
            } else {
                call_ensures(
                    skip_line,
                    (header.slot, SkipReason::Header(AppLoadError::BadMagic(b@[0]))),
                    header_line,
                )
            },
            Err(e) => call_ensures(
                skip_line,
                (header.slot, SkipReason::Header(AppLoadError::Flash(e))),
                header_line,
            ),
        },
    ensures
        table_step matches PickStep::ReadHeader { out, .. } ==> out@.len() == 0,
        table_step matches PickStep::ReadFactoryTable { out, .. } ==> out@ == table_line@,
        table_step is ReadHeader || table_step is ReadFactoryTable,
        header_step matches PickStep::Done { out, .. } ==> out@ == header_line@,
        header_step matches PickStep::ReadFactoryTable { out, .. } ==> out@ == header_line@,
        header_step is Done || header_step is ReadFactoryTable,
{
}

/// A factory app that boots is told, and one that has no header with the reason;
/// to look it up tells nothing.
pub proof fn law_factory_is_told<S>(
    table: AwaitFactoryTable,
    read_table: Result<&[u8; 1024], FlashError>,
    table_step: PickStep<S>,
    header: AwaitFactoryHeader,
    read_header: Result<[u8; 24], FlashError>,
    header_step: PickStep<S>,
    header_line: String,
)
    requires
        call_ensures(AwaitFactoryTable::resume::<S>, (table, read_table), table_step),
        call_ensures(AwaitFactoryHeader::resume::<S>, (header, read_header), header_step),
        match read_header {
            Ok(b) => if b@[0] == 0xE9 {
                call_ensures(factory_line, (&header.part,), header_line)
            } else {
                call_ensures(factory_header_line, (AppLoadError::BadMagic(b@[0]),), header_line)
            },
            Err(e) => call_ensures(factory_header_line, (AppLoadError::Flash(e),), header_line),
        },
    ensures
        table_step matches PickStep::ReadFactoryHeader { out, .. } ==> out@.len() == 0,
        table_step matches PickStep::Done { out, .. } ==> out@.len() == 0,
        table_step is ReadFactoryHeader || table_step is Done,
        header_step matches PickStep::Done { out, .. } && out@ == header_line@,
{
}

/// An error that is handed up is wrapped, and all that it holds is kept; a flash
/// error stays one.
pub proof fn law_errors_are_wrapped(
    flash: FlashError,
    load: AppLoadError,
    partition: PartitionError,
    a: AppLoadError,
    b: PartitionError,
    c: VerifyError,
    d: VerifyError,
    e: SlotSelectError,
)
    requires
        call_ensures(<AppLoadError as From<FlashError>>::from, (flash,), a),
        call_ensures(<PartitionError as From<FlashError>>::from, (flash,), b),
        call_ensures(<VerifyError as From<FlashError>>::from, (flash,), c),
        call_ensures(<VerifyError as From<AppLoadError>>::from, (load,), d),
        call_ensures(<SlotSelectError as From<PartitionError>>::from, (partition,), e),
    ensures
        a == AppLoadError::Flash(flash),
        b == PartitionError::Flash(flash),
        c == VerifyError::Flash(flash),
        load matches AppLoadError::Flash(f) ==> d == VerifyError::Flash(f),
        !(load is Flash) ==> d == VerifyError::TotalSize(load),
        e == SlotSelectError::Partition(partition),
{
}

} // verus!
