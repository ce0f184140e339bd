//! The wire layout of an encoded message, as spec functions.
//!
//! A field is `tag=value` followed by the separator. A frame is BeginString
//! (8), BodyLength (9), MsgType (35), the message's entries in order, each
//! scalar followed by the bodies of its groups, and the checksum (10) of all
//! bytes before it, as three digits.

use vstd::prelude::*;
use vstd::utf8::encode_utf8;
use crate::wire::{decimal, checksum, three_digits};
use crate::message::{
    FieldModel, GroupModel, EntryModel, MessageModel, entries_insert, entries_insert_groups,
    entries_have, entry_index, entries_wf, fields_wf, fields_have,
};

verus! {

/// Tag of the protocol version field.
pub const BEGIN_STRING_TAG: u32 = 8;

/// Tag of the body length field.
pub const BODY_LENGTH_TAG: u32 = 9;

/// Tag of the message type field.
pub const MSG_TYPE_TAG: u32 = 35;

/// One field on the wire.
pub open spec fn field_bytes(tag: u32, value: Seq<u8>, sep: u8) -> Seq<u8> {
    decimal(tag as nat) + seq![61u8] + value + seq![sep]
}

/// The fields of `fs`, in order.
pub open spec fn fields_bytes(fs: Seq<FieldModel>, sep: u8) -> Seq<u8>
    decreases fs.len(),
{
    if fs.len() == 0 {
        Seq::empty()
    } else {
        fields_bytes(fs.drop_last(), sep) + field_bytes(fs.last().0, fs.last().1, sep)
    }
}

/// The bodies of the groups `gs`, in order.
pub open spec fn groups_bytes(gs: Seq<GroupModel>, sep: u8) -> Seq<u8>
    decreases gs.len(),
{
    if gs.len() == 0 {
        Seq::empty()
    } else {
        groups_bytes(gs.drop_last(), sep) + fields_bytes(gs.last().fields, sep)
    }
}

/// One entry: its scalar field, then the bodies of its groups.
pub open spec fn entry_bytes(e: EntryModel, sep: u8) -> Seq<u8> {
    field_bytes(e.tag, e.value, sep) + groups_bytes(e.groups, sep)
}

/// The entries of `es`, in order.
pub open spec fn entries_bytes(es: Seq<EntryModel>, sep: u8) -> Seq<u8>
    decreases es.len(),
{
    if es.len() == 0 {
        Seq::empty()
    } else {
        entries_bytes(es.drop_last(), sep) + entry_bytes(es.last(), sep)
    }
}

/// What BodyLength counts: MsgType and the entries.
pub open spec fn body_bytes(m: MessageModel, sep: u8) -> Seq<u8> {
    field_bytes(MSG_TYPE_TAG, encode_utf8(m.message_type), sep) + entries_bytes(m.entries, sep)
}

/// Everything before the checksum field.
pub open spec fn frame_before_checksum(begin: Seq<char>, m: MessageModel, sep: u8) -> Seq<u8> {
    field_bytes(BEGIN_STRING_TAG, encode_utf8(begin), sep) + field_bytes(
        BODY_LENGTH_TAG,
        decimal(body_bytes(m, sep).len()),
        sep,
    ) + body_bytes(m, sep)
}

/// The checksum field for the checksum value `c`.
pub open spec fn checksum_field(c: nat, sep: u8) -> Seq<u8> {
    seq![49u8, 48u8, 61u8] + three_digits(c) + seq![sep]
}

/// The complete frame of `m` under protocol version `begin`.
pub open spec fn encoding(begin: Seq<char>, m: MessageModel, sep: u8) -> Seq<u8> {
    let pre = frame_before_checksum(begin, m, sep);
    pre + checksum_field(checksum(pre), sep)
}

/// `es` after inserting each field of `ps` in turn.
pub open spec fn entries_insert_all(es: Seq<EntryModel>, ps: Seq<FieldModel>) -> Seq<EntryModel>
    decreases ps.len(),
{
    if ps.len() == 0 {
        es
    } else {
        entries_insert(entries_insert_all(es, ps.drop_last()), ps.last().0, ps.last().1)
    }
}

/// Inserting distinct positive tags into an empty message puts them on the
/// wire in the order of insertion.
pub proof fn lemma_fresh_inserts_keep_order(ps: Seq<FieldModel>, sep: u8)
    requires
        fields_wf(ps),
    ensures
        entries_bytes(entries_insert_all(Seq::empty(), ps), sep) == fields_bytes(ps, sep),
        forall|t: u32|
            entries_have(entries_insert_all(Seq::empty(), ps), t) == fields_have(ps, t),
        forall|i: int|
            0 <= i < entries_insert_all(Seq::empty(), ps).len() ==> (#[trigger] entries_insert_all(
                Seq::empty(),
                ps,
            )[i]).groups.len() == 0,
    decreases ps.len(),
{
    if ps.len() > 0 {
        let init = ps.drop_last();
        let (t, v) = ps.last();
        lemma_fresh_inserts_keep_order(init, sep);
        let es = entries_insert_all(Seq::empty(), init);
        if fields_have(init, t) {
            let k = choose|k: int| 0 <= k < init.len() && init[k].0 == t;
            assert(ps[k].0 == ps[ps.len() - 1].0);
        }
        assert(!entries_have(es, t));
        let e = EntryModel { tag: t, value: v, groups: Seq::empty() };
        let es2 = es.push(e);
        assert(es2.drop_last() =~= es);
        assert(groups_bytes(Seq::<GroupModel>::empty(), sep) == Seq::<u8>::empty());
        assert(entry_bytes(e, sep) =~= field_bytes(t, v, sep));
        assert forall|u: u32| entries_have(es2, u) == fields_have(ps, u) by {
            if fields_have(ps, u) {
                let k = choose|k: int| 0 <= k < ps.len() && ps[k].0 == u;
                if k < init.len() {
                    assert(init[k].0 == u);
                    assert(fields_have(init, u));
                    assert(entries_have(es, u));
                    let j = choose|j: int| 0 <= j < es.len() && es[j].tag == u;
                    assert(es2[j].tag == u);
                } else {
                    assert(es2[es.len() as int].tag == u);
                }
            }
            if entries_have(es2, u) {
                let j = choose|j: int| 0 <= j < es2.len() && es2[j].tag == u;
                if j < es.len() {
                    assert(es[j].tag == u);
                    assert(entries_have(es, u));
                    assert(fields_have(init, u));
                    let k = choose|k: int| 0 <= k < init.len() && init[k].0 == u;
                    assert(ps[k].0 == u);
                } else {
                    assert(ps[ps.len() - 1].0 == u);
                }
                assert(fields_have(ps, u));
            }
        }
    }
}

/// The bytes of a concatenation are the concatenation of the bytes.
pub proof fn lemma_entries_bytes_concat(a: Seq<EntryModel>, b: Seq<EntryModel>, sep: u8)
    ensures
        entries_bytes(a + b, sep) == entries_bytes(a, sep) + entries_bytes(b, sep),
    decreases b.len(),
{
    if b.len() == 0 {
        assert(a + b =~= a);
    } else {
        lemma_entries_bytes_concat(a, b.drop_last(), sep);
        assert((a + b).drop_last() =~= a + b.drop_last());
        assert((a + b).last() == b.last());
    }
}

/// Registering no groups writes nothing: neither the message nor its bytes
/// change.
pub proof fn lemma_empty_groups_write_nothing(es: Seq<EntryModel>, tag: u32, sep: u8)
    ensures
        entries_insert_groups(es, tag, Seq::empty()) == es,
        entries_bytes(entries_insert_groups(es, tag, Seq::empty()), sep) == entries_bytes(es, sep),
{
}

/// Registering a non-empty list of groups puts on the wire, in one place, the
/// count field holding the number of groups in decimal, directly followed by
/// the groups' bodies in the order given.
pub proof fn lemma_groups_follow_count(es: Seq<EntryModel>, tag: u32, gs: Seq<GroupModel>, sep: u8)
    requires
        entries_wf(es),
        gs.len() > 0,
    ensures
        exists|before: Seq<u8>, after: Seq<u8>|
            entries_bytes(entries_insert_groups(es, tag, gs), sep) == before + field_bytes(
                tag,
                decimal(gs.len()),
                sep,
            ) + groups_bytes(gs, sep) + after,
{
    let e = EntryModel { tag, value: decimal(gs.len()), groups: gs };
    let single = seq![e];
    assert(single.drop_last() =~= Seq::<EntryModel>::empty());
    assert(single.last() == e);
    assert(entries_bytes(Seq::<EntryModel>::empty(), sep) == Seq::<u8>::empty());
    assert(entries_bytes(single, sep) =~= entry_bytes(e, sep));
    let r = entries_insert_groups(es, tag, gs);
    if entries_have(es, tag) {
        let i = entry_index(es, tag);
        let a = es.take(i);
        let b = es.skip(i + 1);
        assert(r =~= a + single + b);
        lemma_entries_bytes_concat(a + single, b, sep);
        lemma_entries_bytes_concat(a, single, sep);
        let before = entries_bytes(a, sep);
        let after = entries_bytes(b, sep);
        assert(entries_bytes(r, sep) =~= before + field_bytes(tag, decimal(gs.len()), sep)
            + groups_bytes(gs, sep) + after);
    } else {
        assert(r =~= es + single);
        lemma_entries_bytes_concat(es, single, sep);
        let before = entries_bytes(es, sep);
        let after = Seq::<u8>::empty();
        assert(entries_bytes(r, sep) =~= before + field_bytes(tag, decimal(gs.len()), sep)
            + groups_bytes(gs, sep) + after);
    }
}

/// Encoding is a function of its inputs: equal messages under equal framing
/// parameters give byte-identical frames.
pub proof fn lemma_encoding_deterministic(
    begin: Seq<char>,
    m1: MessageModel,
    m2: MessageModel,
    sep: u8,
    r1: Seq<u8>,
    r2: Seq<u8>,
)
    requires
        m1 == m2,
        r1 == encoding(begin, m1, sep),
        r2 == encoding(begin, m2, sep),
    ensures
        r1 == r2,
{
}

/// A frame is self-consistent: after the BeginString field comes a BodyLength
/// field holding the number of bytes between it and the checksum field, and
/// the last seven bytes are the checksum field holding the modulo-256 sum of
/// all bytes before it.
pub proof fn lemma_frame_consistent(begin: Seq<char>, m: MessageModel, sep: u8)
    ensures
        ({
            let w = encoding(begin, m, sep);
            let n = (w.len() - field_bytes(BEGIN_STRING_TAG, encode_utf8(begin), sep).len()
                - field_bytes(BODY_LENGTH_TAG, decimal(body_bytes(m, sep).len()), sep).len()
                - 7) as nat;
            let head = field_bytes(BEGIN_STRING_TAG, encode_utf8(begin), sep) + field_bytes(
                BODY_LENGTH_TAG,
                decimal(n),
                sep,
            );
            &&& w.len() >= head.len() + 7
            &&& n == w.len() - head.len() - 7
            &&& w.subrange(0, head.len() as int) == head
            &&& w.subrange(w.len() - 7, w.len() as int) == checksum_field(
                checksum(w.subrange(0, w.len() - 7)),
                sep,
            )
        }),
{
    let w = encoding(begin, m, sep);
    let pre = frame_before_checksum(begin, m, sep);
    let body = body_bytes(m, sep);
    let h1 = field_bytes(BEGIN_STRING_TAG, encode_utf8(begin), sep);
    let h2 = field_bytes(BODY_LENGTH_TAG, decimal(body.len()), sep);
    assert(checksum_field(checksum(pre), sep).len() == 7);
    assert(w.len() == h1.len() + h2.len() + body.len() + 7);
    assert(w.subrange(0, w.len() - 7) =~= pre);
    assert(w.subrange(0, (h1 + h2).len() as int) =~= h1 + h2);
    assert(w.subrange(w.len() - 7, w.len() as int) =~= checksum_field(checksum(pre), sep));
}

} // verus!
