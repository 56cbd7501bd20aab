//! The partition table at flash 0x8000.
//!
//! A table is a run of 32-byte records. A partition has magic `0x50AA`; a
//! checksum record has magic `0xEBEB` and is skipped; any other magic ends the
//! table.
use vstd::prelude::*;
use vstd::std_specs::convert::FromSpecImpl;
use crate::bytes::{le_u16, le_u32, u16_at, u32_at};
use crate::flash::FlashError;
use crate::text::{before_nul, decode_or, decoded_or, same_text};

verus! {

pub const PARTITION_TABLE_OFFSET: u32 = 0x8000;

/// How much of the table is read: 32 records, enough for any realistic layout.
pub const PARTITION_TABLE_READ_LEN: usize = 0x400;

/// The length of one record.
pub const RECORD_LEN: usize = 32;

pub const ESP_PARTITION_MAGIC: u16 = 0x50AA;

pub const ESP_PARTITION_MAGIC_MD5: u16 = 0xEBEB;

pub const PART_TYPE_APP: u8 = 0x00;

pub const PART_TYPE_DATA: u8 = 0x01;

pub const PART_TYPE_END: u8 = 0xFF;

pub const PART_SUBTYPE_FACTORY: u8 = 0x00;

#[derive(Debug, Clone, Copy)]
pub struct PartitionEntry {
    pub kind: u8,
    pub subtype: u8,
    pub offset: u32,
    pub size: u32,
    /// Raw label bytes (NUL-terminated within 16 bytes).
    pub label: [u8; 16],
}

/// A partition, with its label as a sequence.
#[verifier::ext_equal]
pub struct PartitionView {
    pub kind: u8,
    pub subtype: u8,
    pub offset: u32,
    pub size: u32,
    pub label: Seq<u8>,
}

impl View for PartitionEntry {
    type V = PartitionView;

    open spec fn view(&self) -> PartitionView {
        PartitionView {
            kind: self.kind,
            subtype: self.subtype,
            offset: self.offset,
            size: self.size,
            label: self.label@,
        }
    }
}

#[derive(Debug, Clone, Copy)]
pub enum PartitionError {
    Flash(FlashError),
    /// Walked all entries up to the terminator without a match.
    NoFactoryApp,
}

impl From<FlashError> for PartitionError {
    fn from(e: FlashError) -> (r: Self) {
        PartitionError::Flash(e)
    }
}

impl FromSpecImpl<FlashError> for PartitionError {
    open spec fn obeys_from_spec() -> bool {
        true
    }

    open spec fn from_spec(e: FlashError) -> Self {
        PartitionError::Flash(e)
    }
}

/// The partition that a 32-byte record describes.
pub open spec fn partition_of(b: Seq<u8>) -> PartitionView {
    PartitionView {
        kind: b[2],
        subtype: b[3],
        offset: le_u32(b, 4),
        size: le_u32(b, 8),
        label: b.subrange(12, 28),
    }
}

/// The text of a label: what stands in front of the first NUL, or nothing
/// where that is no UTF-8.
pub open spec fn label_text(label: Seq<u8>) -> Seq<char> {
    decoded_or(before_nul(label), ""@)
}

/// The record that holds `p`, with its four flag bytes.
pub open spec fn record_of(p: PartitionView, flags: Seq<u8>) -> Seq<u8> {
    seq![0xAAu8, 0x50u8, p.kind, p.subtype] + crate::bytes::le_bytes(p.offset)
        + crate::bytes::le_bytes(p.size) + p.label + flags
}

/// Whether a record ends the table: it is no partition and no checksum, or a
/// partition of the type that stands for the end.
pub open spec fn ends_table(record: Seq<u8>) -> bool {
    if le_u16(record, 0) == ESP_PARTITION_MAGIC {
        record[2] == PART_TYPE_END
    } else {
        le_u16(record, 0) != ESP_PARTITION_MAGIC_MD5
    }
}

/// The partitions of a table: those of its records in front of the terminator
/// that are no checksum.
pub open spec fn table_partitions(table: Seq<u8>) -> Seq<PartitionView>
    decreases table.len(),
{
    if table.len() < RECORD_LEN || ends_table(table.take(RECORD_LEN as int)) {
        Seq::empty()
    } else {
        let record = table.take(RECORD_LEN as int);
        let rest = table.skip(RECORD_LEN as int);
        if le_u16(record, 0) == ESP_PARTITION_MAGIC {
            seq![partition_of(record)] + table_partitions(rest)
        } else {
            table_partitions(rest)
        }
    }
}

/// Whether a partition holds the factory app.
pub open spec fn is_factory(p: PartitionView) -> bool {
    p.kind == PART_TYPE_APP && p.subtype == PART_SUBTYPE_FACTORY
}

/// Whether a partition has the label `label`.
pub open spec fn is_labelled(p: PartitionView, label: Seq<char>) -> bool {
    label_text(p.label) == label
}

/// The first partition that meets `wanted`.
pub open spec fn first_of(
    parts: Seq<PartitionView>,
    wanted: spec_fn(PartitionView) -> bool,
) -> Option<PartitionView>
    decreases parts.len(),
{
    if parts.len() == 0 {
        None
    } else if wanted(parts[0]) {
        Some(parts[0])
    } else {
        first_of(parts.skip(1), wanted)
    }
}

/// The outcome of a search in a table as it was read.
pub open spec fn search(
    read: Result<Seq<u8>, FlashError>,
    wanted: spec_fn(PartitionView) -> bool,
) -> Result<PartitionView, PartitionError> {
    match read {
        Err(e) => Err(PartitionError::Flash(e)),
        Ok(table) => match first_of(table_partitions(table), wanted) {
            Some(p) => Ok(p),
            None => Err(PartitionError::NoFactoryApp),
        },
    }
}

/// The outcome of the search for the factory app.
pub open spec fn factory_in(read: Result<Seq<u8>, FlashError>) -> Result<
    PartitionView,
    PartitionError,
> {
    search(read, |p: PartitionView| is_factory(p))
}

/// The outcome of the search for the partition labelled `label`.
pub open spec fn labelled_in(read: Result<Seq<u8>, FlashError>, label: Seq<char>) -> Result<
    PartitionView,
    PartitionError,
> {
    search(read, |p: PartitionView| is_labelled(p, label))
}

/// A table read, with its bytes as a sequence.
pub open spec fn table_view(
    read: Result<&[u8; PARTITION_TABLE_READ_LEN], FlashError>,
) -> Result<Seq<u8>, FlashError> {
    match read {
        Ok(table) => Ok(table@),
        Err(e) => Err(e),
    }
}

/// A found partition, with its label as a sequence.
pub open spec fn found_view(r: Result<PartitionEntry, PartitionError>) -> Result<
    PartitionView,
    PartitionError,
> {
    match r {
        Ok(p) => Ok(p@),
        Err(e) => Err(e),
    }
}

impl PartitionEntry {
    /// Decodes a record. `None` if the magic is wrong: the caller decides
    /// whether that means terminator or corruption.
    pub fn parse(bytes: &[u8; 32]) -> (r: Option<Self>)
        ensures
            r is Some <==> le_u16(bytes@, 0) == ESP_PARTITION_MAGIC,
            r matches Some(p) ==> p@ == partition_of(bytes@),
    {
        let b = bytes.as_slice();
        if u16_at(b, 0) != ESP_PARTITION_MAGIC {
            return None;
        }
        let mut label = [0u8; 16];
        let mut i: usize = 0;
        while i < 16
            invariant
                i <= 16,
                forall|j: int| 0 <= j < i ==> label@[j] == bytes@[12 + j],
            decreases 16 - i,
        {
            label[i] = bytes[12 + i];
            i += 1;
        }
        assert(label@ =~= bytes@.subrange(12, 28));
        Some(
            PartitionEntry {
                kind: bytes[2],
                subtype: bytes[3],
                offset: u32_at(b, 4),
                size: u32_at(b, 8),
                label,
            },
        )
    }

    /// The label as text, up to its first NUL. Empty where it is no UTF-8.
    pub fn label_str(&self) -> (s: &str)
        ensures
            s@ == label_text(self.label@),
    {
        decode_or(self.label.as_slice(), "")
    }
}

/// All partitions of a table, in their order: walks the records up to the
/// terminator and skips checksums.
pub fn entries(table: &[u8; PARTITION_TABLE_READ_LEN]) -> (parts: Vec<PartitionEntry>)
    ensures
        parts@.map_values(|p: PartitionEntry| p@) == table_partitions(table@),
{
    let mut parts: Vec<PartitionEntry> = Vec::new();
    let mut at: usize = 0;
    let ghost view = |p: PartitionEntry| p@;
    assert(table@.skip(0) =~= table@);
    assert(parts@.map_values(view) + table_partitions(table@) =~= table_partitions(table@));
    while at < PARTITION_TABLE_READ_LEN
        invariant
            at <= PARTITION_TABLE_READ_LEN,
            at % RECORD_LEN == 0,
            view == (|p: PartitionEntry| p@),
            parts@.map_values(view) + table_partitions(table@.skip(at as int)) == table_partitions(
                table@,
            ),
        decreases PARTITION_TABLE_READ_LEN - at,
    {
        let ghost here = table@.skip(at as int);
        let ghost before = parts@;
        let mut record = [0u8; 32];
        let mut i: usize = 0;
        while i < 32
            invariant
                i <= 32,
                at + 32 <= PARTITION_TABLE_READ_LEN,
                forall|j: int| 0 <= j < i ==> record@[j] == table@[at + j],
            decreases 32 - i,
        {
            record[i] = table[at + i];
            i += 1;
        }
        assert(record@ =~= here.take(32));
        assert(here.skip(32) =~= table@.skip(at + 32));
        let magic = u16_at(record.as_slice(), 0);
        if magic == ESP_PARTITION_MAGIC {
            if record[2] == PART_TYPE_END {
                assert(parts@.map_values(view) + table_partitions(here)
                    =~= parts@.map_values(view));
                return parts;
            }
            if let Some(p) = PartitionEntry::parse(&record) {
                parts.push(p);
                assert(parts@.map_values(view) =~= before.map_values(view) + seq![
                    partition_of(record@),
                ]);
                assert(parts@.map_values(view) + table_partitions(here.skip(32))
                    =~= before.map_values(view) + table_partitions(here));
            }
        } else if magic != ESP_PARTITION_MAGIC_MD5 {
            assert(parts@.map_values(view) + table_partitions(here) =~= parts@.map_values(view));
            return parts;
        }
        at += RECORD_LEN;
    }
    assert(parts@.map_values(view) + table_partitions(table@.skip(at as int))
        =~= parts@.map_values(view));
    parts
}

/// What is searched for in a table.
#[derive(Clone, Copy)]
enum Wanted<'a> {
    Factory,
    Labelled(&'a str),
}

/// Whether a partition is what is searched for.
spec fn meets(wanted: Wanted, p: PartitionView) -> bool {
    match wanted {
        Wanted::Factory => is_factory(p),
        Wanted::Labelled(label) => is_labelled(p, label@),
    }
}

fn takes(wanted: Wanted, p: &PartitionEntry) -> (r: bool)
    ensures
        r == meets(wanted, p@),
{
    match wanted {
        Wanted::Factory => p.kind == PART_TYPE_APP && p.subtype == PART_SUBTYPE_FACTORY,
        Wanted::Labelled(label) => same_text(p.label_str(), label),
    }
}

/// Finds the first partition that is wanted in the table as it was read.
fn find_first(
    read: Result<&[u8; PARTITION_TABLE_READ_LEN], FlashError>,
    wanted: Wanted,
) -> (r: Result<PartitionEntry, PartitionError>)
    ensures
        found_view(r) == search(table_view(read), |p: PartitionView| meets(wanted, p)),
{
    let table = match read {
        Ok(table) => table,
        Err(e) => {
            return Err(PartitionError::from(e));
        },
    };
    let parts = entries(table);
    let ghost views = parts@.map_values(|p: PartitionEntry| p@);
    let ghost sought = |p: PartitionView| meets(wanted, p);
    let mut i: usize = 0;
    assert(views.skip(0) =~= views);
    while i < parts.len()
        invariant
            i <= parts@.len(),
            views == parts@.map_values(|p: PartitionEntry| p@),
            sought == (|p: PartitionView| meets(wanted, p)),
            read == Ok::<&[u8; PARTITION_TABLE_READ_LEN], FlashError>(table),
            views == table_partitions(table@),
            first_of(views.skip(i as int), sought) == first_of(views, sought),
        decreases parts@.len() - i,
    {
        let p = parts[i];
        assert(views.skip(i as int)[0] == p@);
        assert(views.skip(i as int).skip(1) =~= views.skip(i + 1));
        if takes(wanted, &p) {
            return Ok(p);
        }
        i += 1;
    }
    Err(PartitionError::NoFactoryApp)
}

/// Finds the factory app in the partition table as it was read.
pub fn find_factory_app(
    read: Result<&[u8; PARTITION_TABLE_READ_LEN], FlashError>,
) -> (r: Result<PartitionEntry, PartitionError>)
    ensures
        found_view(r) == factory_in(table_view(read)),
{
    assert((|p: PartitionView| meets(Wanted::Factory, p)) =~= (|p: PartitionView| is_factory(p)));
    find_first(read, Wanted::Factory)
}

/// Finds the first partition labelled `label` in the table as it was read.
pub fn find_by_label(
    read: Result<&[u8; PARTITION_TABLE_READ_LEN], FlashError>,
    label: &str,
) -> (r: Result<PartitionEntry, PartitionError>)
    ensures
        found_view(r) == labelled_in(table_view(read), label@),
{
    assert((|p: PartitionView| meets(Wanted::Labelled(label), p)) =~= (|p: PartitionView|
        is_labelled(p, label@)));
    find_first(read, Wanted::Labelled(label))
}

/// A record that holds a partition is decoded to that partition.
pub proof fn law_record_round_trip(p: PartitionView, flags: Seq<u8>)
    requires
        p.label.len() == 16,
        flags.len() == 4,
    ensures
        record_of(p, flags).len() == RECORD_LEN,
        le_u16(record_of(p, flags), 0) == ESP_PARTITION_MAGIC,
        partition_of(record_of(p, flags)) == p,
{
    let r = record_of(p, flags);
    assert(r.subrange(12, 28) =~= p.label);
    crate::bytes::law_le_round_trip(p.offset);
    crate::bytes::law_le_round_trip(p.size);
    assert(r[4] == crate::bytes::le_bytes(p.offset)[0]);
    assert(r[5] == crate::bytes::le_bytes(p.offset)[1]);
    assert(r[6] == crate::bytes::le_bytes(p.offset)[2]);
    assert(r[7] == crate::bytes::le_bytes(p.offset)[3]);
    assert(r[8] == crate::bytes::le_bytes(p.size)[0]);
    assert(r[9] == crate::bytes::le_bytes(p.size)[1]);
    assert(r[10] == crate::bytes::le_bytes(p.size)[2]);
    assert(r[11] == crate::bytes::le_bytes(p.size)[3]);
}

/// Nothing behind the terminator is ever found: tables that agree up to a
/// terminator record hold the same partitions.
pub proof fn law_terminator_ends_table(head: Seq<u8>, end: Seq<u8>, tail: Seq<u8>)
    requires
        head.len() % RECORD_LEN as nat == 0,
        end.len() == RECORD_LEN,
        ends_table(end),
    ensures
        table_partitions(head + end + tail) == table_partitions(head),
    decreases head.len(),
{
    let whole = head + end + tail;
    if head.len() == 0 {
        assert(whole.take(RECORD_LEN as int) =~= end);
    } else {
        law_terminator_ends_table(head.skip(RECORD_LEN as int), end, tail);
        assert(whole.skip(RECORD_LEN as int) =~= head.skip(RECORD_LEN as int) + end + tail);
        assert(whole.take(RECORD_LEN as int) =~= head.take(RECORD_LEN as int));
    }
}

/// A checksum record changes nothing: the partitions of a table are those of
/// the table without it.
pub proof fn law_checksum_is_skipped(head: Seq<u8>, checksum: Seq<u8>, tail: Seq<u8>)
    requires
        head.len() % RECORD_LEN as nat == 0,
        checksum.len() == RECORD_LEN,
        le_u16(checksum, 0) == ESP_PARTITION_MAGIC_MD5,
    ensures
        table_partitions(head + checksum + tail) == table_partitions(head + tail),
    decreases head.len(),
{
    let with = head + checksum + tail;
    let without = head + tail;
    if head.len() == 0 {
        assert(with.take(RECORD_LEN as int) =~= checksum);
        assert(with.skip(RECORD_LEN as int) =~= tail);
        assert(without =~= tail);
    } else {
        let rest = head.skip(RECORD_LEN as int);
        law_checksum_is_skipped(rest, checksum, tail);
        assert(with.skip(RECORD_LEN as int) =~= rest + checksum + tail);
        assert(without.skip(RECORD_LEN as int) =~= rest + tail);
        assert(with.take(RECORD_LEN as int) =~= without.take(RECORD_LEN as int));
    }
}

/// The first match is a match, and nothing in front of it is one; there is
/// none only where nothing matches.
pub proof fn law_first_match(parts: Seq<PartitionView>, wanted: spec_fn(PartitionView) -> bool)
    ensures
        match first_of(parts, wanted) {
            Some(p) => exists|i: int|
                0 <= i < parts.len() && #[trigger] parts[i] == p && wanted(p) && (forall|j: int|
                    0 <= j < i ==> !wanted(#[trigger] parts[j])),
            None => forall|j: int| 0 <= j < parts.len() ==> !wanted(#[trigger] parts[j]),
        },
    decreases parts.len(),
{
    if parts.len() > 0 && !wanted(parts[0]) {
        let rest = parts.skip(1);
        law_first_match(rest, wanted);
        match first_of(rest, wanted) {
            Some(p) => {
                let i = choose|i: int|
                    0 <= i < rest.len() && #[trigger] rest[i] == p && wanted(p) && (forall|j: int|
                        0 <= j < i ==> !wanted(#[trigger] rest[j]));
                assert(parts[i + 1] == p);
                assert forall|j: int| 0 <= j < i + 1 implies !wanted(#[trigger] parts[j]) by {
                    if j > 0 {
                        assert(rest[j - 1] == parts[j]);
                    }
                }
            },
            None => {
                assert forall|j: int| 0 <= j < parts.len() implies !wanted(
                    #[trigger] parts[j],
                ) by {
                    if j > 0 {
                        assert(rest[j - 1] == parts[j]);
                    }
                }
            },
        }
    }
}

} // verus!
