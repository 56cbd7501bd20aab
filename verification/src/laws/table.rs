//! The partition table and the searches in it.
//!
//! A table is 32 records of 32 bytes. A record that begins with AA 50 is a
//! partition, unless its type in byte 2 is FF; one that begins with EB EB is a
//! checksum. Any other record ends the table, as does a partition of type FF.
use vstd::prelude::*;
use vstd::utf8::*;
use crate::flash::FlashError;
use crate::laws::word;
use crate::partition::{
    factory_in, find_by_label, find_factory_app, first_of, is_factory, is_labelled, labelled_in,
    partition_of, table_partitions, PartitionEntry, PartitionError, PartitionView,
};
use crate::text::{before_nul, law_nul_len, nul_len};

verus! {

/// Record `i` ends the table.
pub open spec fn ends_at(t: Seq<u8>, i: int) -> bool {
    if t[32 * i] == 0xAA && t[32 * i + 1] == 0x50 {
        t[32 * i + 2] == 0xFF
    } else {
        !(t[32 * i] == 0xEB && t[32 * i + 1] == 0xEB)
    }
}

/// The table has not ended before record `i`, and record `i` is a partition.
pub open spec fn listed(t: Seq<u8>, i: int) -> bool {
    &&& 0 <= i < 32
    &&& forall|j: int| 0 <= j <= i ==> !#[trigger] ends_at(t, j)
    &&& t[32 * i] == 0xAA
    &&& t[32 * i + 1] == 0x50
}

/// Record `i` is of type 0 (application) and subtype 0 (factory).
pub open spec fn factory_at(t: Seq<u8>, i: int) -> bool {
    t[32 * i + 2] == 0 && t[32 * i + 3] == 0
}

/// Record `i` has `name` for a label: in bytes 12 to 27, with a NUL behind it
/// unless it fills them.
pub open spec fn labelled_at(t: Seq<u8>, i: int, name: Seq<u8>) -> bool {
    &&& name.len() <= 16
    &&& forall|q: int|
        0 <= q < name.len() ==> #[trigger] name[q] != 0 && t[32 * i + 12 + q] == name[q]
    &&& name.len() < 16 ==> t[32 * i + 12 + name.len()] == 0
}

/// `p` is what record `i` says: type and subtype in bytes 2 and 3, offset in
/// bytes 4 to 7, size in bytes 8 to 11, label in bytes 12 to 27.
pub open spec fn is_record(p: PartitionEntry, t: Seq<u8>, i: int) -> bool {
    &&& p.kind == t[32 * i + 2]
    &&& p.subtype == t[32 * i + 3]
    &&& p.offset == word(t, 32 * i + 4)
    &&& p.size == word(t, 32 * i + 8)
    &&& p.label@ == t.subrange(32 * i + 12, 32 * i + 28)
}

spec fn record(t: Seq<u8>, i: int) -> Seq<u8> {
    t.subrange(32 * i, 32 * i + 32)
}

/// A record decodes if and only if it begins with AA 50, to what its bytes say.
pub proof fn law_record_holds_its_bytes(b: [u8; 32], r: Option<PartitionEntry>)
    requires
        call_ensures(PartitionEntry::parse, (&b,), r),
    ensures
        r is Some <==> b@[0] == 0xAA && b@[1] == 0x50,
        r matches Some(p) ==> is_record(p, b@, 0),
{
}

/// A walk that finds what is sought in record `i` comes to it.
proof fn lemma_found(
    t: Seq<u8>,
    k: int,
    i: int,
    sought: spec_fn(PartitionView) -> bool,
)
    requires
        t.len() == 1024,
        0 <= k <= i,
        listed(t, i),
        sought(partition_of(record(t, i))),
        forall|j: int|
            k <= j < i && t[32 * j] == 0xAA && t[32 * j + 1] == 0x50 ==> !sought(
                partition_of(#[trigger] record(t, j)),
            ),
    ensures
        first_of(table_partitions(t.skip(32 * k)), sought) == Some(partition_of(record(t, i))),
    decreases i - k,
{
    let here = t.skip(32 * k);
    assert(here.take(32) =~= record(t, k));
    assert(here.skip(32) =~= t.skip(32 * (k + 1)));
    assert(!ends_at(t, k));
    let rest = table_partitions(here.skip(32));
    let parts = table_partitions(here);
    if t[32 * k] == 0xAA && t[32 * k + 1] == 0x50 {
        assert(parts =~= seq![partition_of(record(t, k))] + rest);
        assert(parts[0] == partition_of(record(t, k)));
        assert(parts.skip(1) =~= rest);
    }
    if k < i {
        lemma_found(t, k + 1, i, sought);
    }
}

/// A walk on which nothing is sought comes to nothing.
proof fn lemma_not_found(t: Seq<u8>, k: int, sought: spec_fn(PartitionView) -> bool)
    requires
        t.len() == 1024,
        0 <= k <= 32,
        forall|j: int| 0 <= j < k ==> !#[trigger] ends_at(t, j),
        forall|j: int|
            k <= j && listed(t, j) ==> !sought(partition_of(#[trigger] record(t, j))),
    ensures
        first_of(table_partitions(t.skip(32 * k)), sought) == None::<PartitionView>,
    decreases 32 - k,
{
    let here = t.skip(32 * k);
    if k < 32 {
        assert(here.take(32) =~= record(t, k));
        assert(here.skip(32) =~= t.skip(32 * (k + 1)));
        if !ends_at(t, k) {
            lemma_not_found(t, k + 1, sought);
            let rest = table_partitions(here.skip(32));
            let parts = table_partitions(here);
            if t[32 * k] == 0xAA && t[32 * k + 1] == 0x50 {
                assert(listed(t, k));
                assert(parts =~= seq![partition_of(record(t, k))] + rest);
                assert(parts[0] == partition_of(record(t, k)));
                assert(parts.skip(1) =~= rest);
            }
        } else {
            assert(table_partitions(here) =~= Seq::empty());
        }
    }
}

/// `p` is what record `i` says.
pub open spec fn says_record(p: PartitionView, t: Seq<u8>, i: int) -> bool {
    &&& p.kind == t[32 * i + 2]
    &&& p.subtype == t[32 * i + 3]
    &&& p.offset == word(t, 32 * i + 4)
    &&& p.size == word(t, 32 * i + 8)
    &&& p.label == t.subrange(32 * i + 12, 32 * i + 28)
}

/// Record `i` is the first listed one of the factory app.
pub open spec fn first_factory(t: Seq<u8>, i: int) -> bool {
    &&& listed(t, i)
    &&& factory_at(t, i)
    &&& forall|j: int| 0 <= j < i && #[trigger] listed(t, j) ==> !factory_at(t, j)
}

/// Record `i` is the first listed one with the label `name`.
pub open spec fn first_labelled(t: Seq<u8>, i: int, name: Seq<u8>) -> bool {
    &&& listed(t, i)
    &&& labelled_at(t, i, name)
    &&& forall|j: int| 0 <= j < i && #[trigger] listed(t, j) ==> !labelled_at(t, j, name)
}

/// What the search for the factory app comes to.
pub proof fn lemma_factory_in(s: Seq<u8>)
    requires
        s.len() == 1024,
    ensures
        forall|i: int| #[trigger]
            first_factory(s, i) ==> (factory_in(Ok(s)) matches Ok(p) && says_record(p, s, i)),
        (forall|i: int| #[trigger] listed(s, i) ==> !factory_at(s, i)) ==> factory_in(Ok(s))
            == Err::<PartitionView, PartitionError>(PartitionError::NoFactoryApp),
{
    let sought = |p: PartitionView| is_factory(p);
    assert(s.skip(0) =~= s);
    assert forall|i: int| #[trigger] first_factory(s, i) implies factory_in(Ok(s)) matches Ok(p)
        && says_record(p, s, i) by {
        assert forall|j: int|
            0 <= j < i && s[32 * j] == 0xAA && s[32 * j + 1] == 0x50 implies !sought(
            partition_of(#[trigger] record(s, j)),
        ) by {
            assert(listed(s, j));
        }
        lemma_found(s, 0, i, sought);
        assert(record(s, i).subrange(12, 28) =~= s.subrange(32 * i + 12, 32 * i + 28));
    }
    if forall|i: int| #[trigger] listed(s, i) ==> !factory_at(s, i) {
        lemma_not_found(s, 0, sought);
    }
}

/// The search for the factory app gives the first listed record of type 0 and
/// subtype 0, wherever it lies, whatever its size and label; it fails if and only
/// if no listed record is one.
pub proof fn law_factory_is_found(t: [u8; 1024], r: Result<PartitionEntry, PartitionError>)
    requires
        call_ensures(find_factory_app, (Ok(&t),), r),
    ensures
        forall|i: int| #[trigger]
            first_factory(t@, i) ==> (r matches Ok(p) && is_record(p, t@, i)),
        (forall|i: int| #[trigger] listed(t@, i) ==> !factory_at(t@, i)) ==> r == Err::<
            PartitionEntry,
            PartitionError,
        >(PartitionError::NoFactoryApp),
{
    lemma_factory_in(t@);
}

/// A label is its bytes in front of the first NUL.
proof fn lemma_labelled(p: PartitionView, t: Seq<u8>, i: int, name: Seq<char>)
    requires
        t.len() == 1024,
        0 <= i < 32,
        p.label == t.subrange(32 * i + 12, 32 * i + 28),
        name.len() > 0,
    ensures
        is_labelled(p, name) <==> labelled_at(t, i, encode_utf8(name)),
{
    let b = encode_utf8(name);
    let head = before_nul(p.label);
    encode_utf8_valid_utf8(name);
    encode_utf8_decode_utf8(name);
    law_nul_len(p.label, nul_len(p.label));
    if labelled_at(t, i, b) {
        assert forall|q: int| 0 <= q < b.len() implies p.label[q] != 0 by {
            assert(b[q] != 0 && t[32 * i + 12 + q] == b[q]);
        }
        law_nul_len(p.label, b.len());
        assert forall|q: int| 0 <= q < b.len() implies head[q] == b[q] by {
            assert(b[q] != 0 && t[32 * i + 12 + q] == b[q]);
        }
        assert(head =~= b);
    }
    if is_labelled(p, name) {
        if valid_utf8(head) {
            decode_utf8_encode_utf8(head);
            assert(head == b);
            assert forall|q: int| 0 <= q < b.len() implies #[trigger] b[q] != 0 && t[32 * i + 12
                + q] == b[q] by {
                assert(head[q] == p.label[q]);
            }
        } else {
            reveal_strlit("");
            assert(""@.len() == 0);
        }
    }
}

/// What the search for a label comes to.
pub proof fn lemma_labelled_in(s: Seq<u8>, label: Seq<char>)
    requires
        s.len() == 1024,
        label.len() > 0,
    ensures
        forall|i: int| #[trigger]
            first_labelled(s, i, encode_utf8(label)) ==> (labelled_in(Ok(s), label) matches Ok(p)
                && says_record(p, s, i)),
        (forall|i: int|
            #[trigger] listed(s, i) ==> !labelled_at(s, i, encode_utf8(label))) ==> labelled_in(
            Ok(s),
            label,
        ) == Err::<PartitionView, PartitionError>(PartitionError::NoFactoryApp),
{
    let name = encode_utf8(label);
    let sought = |p: PartitionView| is_labelled(p, label);
    assert(s.skip(0) =~= s);
    assert forall|i: int| 0 <= i < 32 implies (sought(partition_of(#[trigger] record(s, i)))
        <==> labelled_at(s, i, name)) by {
        assert(record(s, i).subrange(12, 28) =~= s.subrange(32 * i + 12, 32 * i + 28));
        lemma_labelled(partition_of(record(s, i)), s, i, label);
    }
    assert forall|i: int| #[trigger] first_labelled(s, i, name) implies labelled_in(Ok(s), label)
        matches Ok(p) && says_record(p, s, i) by {
        assert forall|j: int|
            0 <= j < i && s[32 * j] == 0xAA && s[32 * j + 1] == 0x50 implies !sought(
            partition_of(#[trigger] record(s, j)),
        ) by {
            assert(listed(s, j));
        }
        assert(sought(partition_of(record(s, i))));
        lemma_found(s, 0, i, sought);
        assert(record(s, i).subrange(12, 28) =~= s.subrange(32 * i + 12, 32 * i + 28));
    }
    if forall|i: int| #[trigger] listed(s, i) ==> !labelled_at(s, i, name) {
        lemma_not_found(s, 0, sought);
    }
}

/// The search for a label gives the first listed record that has it, in full and
/// up to a NUL, wherever it lies; it fails if and only if no listed record has
/// it.
pub proof fn law_label_is_found(
    t: [u8; 1024],
    label: &str,
    r: Result<PartitionEntry, PartitionError>,
)
    requires
        call_ensures(find_by_label, (Ok(&t), label), r),
        label@.len() > 0,
    ensures
        forall|i: int| #[trigger]
            first_labelled(t@, i, encode_utf8(label@)) ==> (r matches Ok(p) && is_record(p, t@, i)),
        (forall|i: int|
            #[trigger] listed(t@, i) ==> !labelled_at(t@, i, encode_utf8(label@))) ==> r == Err::<
            PartitionEntry,
            PartitionError,
        >(PartitionError::NoFactoryApp),
{
    lemma_labelled_in(t@, label@);
}

/// The label of record `i` reads as nothing: no byte stands in front of its first
/// NUL, or what stands there is no text.
pub open spec fn nameless_at(t: Seq<u8>, i: int) -> bool {
    exists|n: int| #[trigger] nameless_up_to(t, i, n)
}

/// The first NUL in the label of record `i` is its byte `n`, or it has none and `n`
/// is 16; what stands in front of it is nothing, or no text.
pub open spec fn nameless_up_to(t: Seq<u8>, i: int, n: int) -> bool {
    &&& 0 <= n <= 16
    &&& forall|q: int| 0 <= q < n ==> #[trigger] t[32 * i + 12 + q] != 0
    &&& n < 16 ==> t[32 * i + 12 + n] == 0
    &&& n == 0 || !valid_utf8(t.subrange(32 * i + 12, 32 * i + 12 + n))
}

proof fn lemma_nameless(p: PartitionView, t: Seq<u8>, i: int)
    requires
        t.len() == 1024,
        0 <= i < 32,
        p.label == t.subrange(32 * i + 12, 32 * i + 28),
    ensures
        is_labelled(p, Seq::empty()) <==> nameless_at(t, i),
{
    let n = nul_len(p.label);
    let head = before_nul(p.label);
    law_nul_len(p.label, n);
    reveal_strlit("");
    assert(""@ =~= Seq::<char>::empty());
    assert(head =~= t.subrange(32 * i + 12, 32 * i + 12 + n));
    assert forall|q: int| 0 <= q < n implies #[trigger] t[32 * i + 12 + q] != 0 by {
        assert(p.label[q] == t[32 * i + 12 + q]);
    }
    if n == 0 {
        assert(head =~= Seq::empty());
        encode_utf8_valid_utf8(Seq::empty());
        encode_utf8_decode_utf8(Seq::empty());
        assert(encode_utf8(Seq::empty()) =~= Seq::empty());
    }
    if is_labelled(p, Seq::empty()) {
        if valid_utf8(head) {
            decode_utf8_encode_utf8(head);
            assert(encode_utf8(Seq::empty()) =~= Seq::empty());
        }
        assert(nameless_up_to(t, i, n as int));
    }
    if nameless_at(t, i) {
        let m = choose|m: int| #[trigger] nameless_up_to(t, i, m);
        assert forall|q: int| 0 <= q < m implies p.label[q] != 0 by {
            assert(t[32 * i + 12 + q] != 0);
        }
        law_nul_len(p.label, m as nat);
    }
}

/// The search for an empty label gives the first listed record whose label reads as
/// nothing; it fails if and only if there is none.
pub proof fn law_empty_label_is_found(
    t: [u8; 1024],
    label: &str,
    r: Result<PartitionEntry, PartitionError>,
)
    requires
        call_ensures(find_by_label, (Ok(&t), label), r),
        label@.len() == 0,
    ensures
        forall|i: int|
            #[trigger] listed(t@, i) && nameless_at(t@, i) && (forall|j: int|
                0 <= j < i && #[trigger] listed(t@, j) ==> !nameless_at(t@, j)) ==> (r matches Ok(p)
                && is_record(p, t@, i)),
        (forall|i: int| #[trigger] listed(t@, i) ==> !nameless_at(t@, i)) ==> r == Err::<
            PartitionEntry,
            PartitionError,
        >(PartitionError::NoFactoryApp),
{
    let s = t@;
    let none = Seq::<char>::empty();
    assert(label@ =~= none);
    let sought = |p: PartitionView| is_labelled(p, none);
    assert(s.skip(0) =~= s);
    assert forall|i: int| 0 <= i < 32 implies (sought(partition_of(#[trigger] record(s, i)))
        <==> nameless_at(s, i)) by {
        assert(record(s, i).subrange(12, 28) =~= s.subrange(32 * i + 12, 32 * i + 28));
        lemma_nameless(partition_of(record(s, i)), s, i);
    }
    assert forall|i: int|
        #[trigger] listed(s, i) && nameless_at(s, i) && (forall|j: int|
            0 <= j < i && #[trigger] listed(s, j) ==> !nameless_at(s, j)) implies r matches Ok(p)
        && is_record(p, s, i) by {
        assert forall|j: int|
            0 <= j < i && s[32 * j] == 0xAA && s[32 * j + 1] == 0x50 implies !sought(
            partition_of(#[trigger] record(s, j)),
        ) by {
            assert(listed(s, j));
        }
        assert(sought(partition_of(record(s, i))));
        lemma_found(s, 0, i, sought);
        assert(record(s, i).subrange(12, 28) =~= s.subrange(32 * i + 12, 32 * i + 28));
    }
    if forall|i: int| #[trigger] listed(s, i) ==> !nameless_at(s, i) {
        lemma_not_found(s, 0, sought);
    }
}

/// A label reads as its bytes in front of the first NUL, where those are text.
pub proof fn law_label_is_its_bytes(p: PartitionEntry, s: &str, n: int)
    requires
        call_ensures(PartitionEntry::label_str, (&p,), s),
        0 <= n <= 16,
        forall|i: int| 0 <= i < n ==> #[trigger] p.label@[i] != 0,
        n < 16 ==> p.label@[n] == 0,
    ensures
        valid_utf8(p.label@.take(n)) ==> encode_utf8(s@) == p.label@.take(n),
        !valid_utf8(p.label@.take(n)) ==> s@.len() == 0,
{
    law_nul_len(p.label@, n as nat);
    reveal_strlit("");
    if valid_utf8(p.label@.take(n)) {
        decode_utf8_encode_utf8(p.label@.take(n));
    }
}

/// A table that cannot be read is reported with the error of the read.
pub proof fn law_unreadable_table(
    e: FlashError,
    label: &str,
    r: Result<PartitionEntry, PartitionError>,
)
    requires
        call_ensures(find_factory_app, (Err(e),), r) || call_ensures(
            find_by_label,
            (Err(e), label),
            r,
        ),
    ensures
        r == Err::<PartitionEntry, PartitionError>(PartitionError::Flash(e)),
{
}

} // verus!
