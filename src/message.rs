//! Outbound messages: an insertion-ordered store of fields keyed by tag, where
//! a tag may also carry the bodies of a repeating group.

use vstd::prelude::*;
use vstd::utf8::encode_utf8;
use crate::wire::{decimal, push_decimal, compute_checksum, push_three_digits, checksum};
use crate::encoding::{field_bytes, fields_bytes, groups_bytes, entries_bytes, body_bytes, frame_before_checksum, checksum_field, encoding, MSG_TYPE_TAG, BEGIN_STRING_TAG, BODY_LENGTH_TAG};

verus! {

/// A tag and its raw value, as the model sees them.
pub type FieldModel = (u32, Seq<u8>);

/// Whether `fs` holds a field with tag `tag`.
pub open spec fn fields_have(fs: Seq<FieldModel>, tag: u32) -> bool {
    exists|i: int| 0 <= i < fs.len() && fs[i].0 == tag
}

/// No tag occurs twice in `fs`, and every tag is positive.
pub open spec fn fields_wf(fs: Seq<FieldModel>) -> bool {
    &&& forall|i: int| 0 <= i < fs.len() ==> fs[i].0 > 0
    &&& forall|i: int, j: int| 0 <= i < j < fs.len() ==> fs[i].0 != fs[j].0
}

/// `fs` after storing `v` under `tag`: the field keeps its place when the tag
/// is present, and is appended otherwise.
pub open spec fn fields_upsert(fs: Seq<FieldModel>, tag: u32, v: Seq<u8>) -> Seq<FieldModel> {
    if fields_have(fs, tag) {
        let i = choose|i: int| 0 <= i < fs.len() && fs[i].0 == tag;
        fs.update(i, (tag, v))
    } else {
        fs.push((tag, v))
    }
}

/// One block of a repeating group, as the model sees it.
pub struct GroupModel {
    pub start_tag: u32,
    pub delimiter_tag: u32,
    pub fields: Seq<FieldModel>,
}

/// A tag of a message with its scalar value and the group bodies that follow it.
pub struct EntryModel {
    pub tag: u32,
    pub value: Seq<u8>,
    pub groups: Seq<GroupModel>,
}

/// A message as the model sees it.
pub struct MessageModel {
    pub message_type: Seq<char>,
    pub entries: Seq<EntryModel>,
}

/// Whether `es` holds an entry with tag `tag`.
pub open spec fn entries_have(es: Seq<EntryModel>, tag: u32) -> bool {
    exists|i: int| 0 <= i < es.len() && es[i].tag == tag
}

/// The position of the entry with tag `tag` in `es`.
pub open spec fn entry_index(es: Seq<EntryModel>, tag: u32) -> int {
    choose|i: int| 0 <= i < es.len() && es[i].tag == tag
}

/// No tag occurs twice in `es`, every tag is positive, and so is every tag
/// inside its groups.
pub open spec fn entries_wf(es: Seq<EntryModel>) -> bool {
    &&& forall|i: int| 0 <= i < es.len() ==> es[i].tag > 0
    &&& forall|i: int, j: int| 0 <= i < j < es.len() ==> es[i].tag != es[j].tag
    &&& forall|i: int, k: int|
        0 <= i < es.len() && 0 <= k < es[i].groups.len() ==> fields_wf(
            #[trigger] es[i].groups[k].fields,
        )
}

/// `es` after writing the scalar `v` under `tag`; groups already stored under
/// the tag stay.
pub open spec fn entries_insert(es: Seq<EntryModel>, tag: u32, v: Seq<u8>) -> Seq<EntryModel> {
    if entries_have(es, tag) {
        let i = entry_index(es, tag);
        es.update(i, EntryModel { tag, value: v, groups: es[i].groups })
    } else {
        es.push(EntryModel { tag, value: v, groups: Seq::empty() })
    }
}

/// `es` after registering `gs` under `tag`: nothing for an empty list, else the
/// count of `gs` as the scalar of `tag` and `gs` as its groups, replacing what
/// was there.
pub open spec fn entries_insert_groups(
    es: Seq<EntryModel>,
    tag: u32,
    gs: Seq<GroupModel>,
) -> Seq<EntryModel> {
    if gs.len() == 0 {
        es
    } else {
        let e = EntryModel { tag, value: decimal(gs.len()), groups: gs };
        if entries_have(es, tag) {
            es.update(entry_index(es, tag), e)
        } else {
            es.push(e)
        }
    }
}

/// A field of a group body.
#[derive(Clone)]
pub struct Field {
    tag: u32,
    value: Vec<u8>,
}

impl View for Field {
    type V = FieldModel;

    closed spec fn view(&self) -> FieldModel {
        (self.tag, self.value@)
    }
}

/// The model of a list of fields.
pub open spec fn fields_view(fs: Seq<Field>) -> Seq<FieldModel> {
    fs.map_values(|f: Field| f@)
}

/// Why a field could not be stored.
#[derive(PartialEq, Eq, Structural, Debug, Clone, Copy)]
pub enum FieldError {
    /// The tag was zero; tags are positive.
    InvalidTag,
}

/// The UTF-8 bytes of `s`.
fn utf8_bytes(s: &str) -> (r: Vec<u8>)
    ensures
        r@ == encode_utf8(s@),
{
    let b: &[u8] = s.as_bytes();
    let mut r: Vec<u8> = Vec::new();
    let mut i: usize = 0;
    while i < b.len()
        invariant
            i <= b@.len(),
            b@ == encode_utf8(s@),
            r@ == b@.take(i as int),
        decreases b@.len() - i,
    {
        r.push(b[i]);
        i = i + 1;
        assert(r@ =~= b@.take(i as int));
    }
    assert(b@.take(b@.len() as int) =~= b@);
    r
}

/// One repeated block of a group: its start tag, the tag that opens each
/// block, and its own ordered fields.
#[derive(Clone)]
pub struct RepeatingGroup {
    start_tag: u32,
    delimiter_tag: u32,
    fields: Vec<Field>,
}

impl View for RepeatingGroup {
    type V = GroupModel;

    closed spec fn view(&self) -> GroupModel {
        GroupModel {
            start_tag: self.start_tag,
            delimiter_tag: self.delimiter_tag,
            fields: fields_view(self.fields@),
        }
    }
}

/// The model of a list of groups.
pub open spec fn groups_view(gs: Seq<RepeatingGroup>) -> Seq<GroupModel> {
    gs.map_values(|g: RepeatingGroup| g@)
}

impl RepeatingGroup {
    /// Well-formed: every tag of the body is positive and occurs once.
    pub open spec fn wf(&self) -> bool {
        fields_wf(self@.fields)
    }

    /// An empty block for the group that starts at `start_tag`.
    pub fn new(start_tag: u32, delimiter_tag: u32) -> (r: Result<RepeatingGroup, FieldError>)
        ensures
            (start_tag == 0 || delimiter_tag == 0) <==> r is Err,
            r is Err ==> r == Err::<RepeatingGroup, FieldError>(FieldError::InvalidTag),
            r matches Ok(g) ==> g.wf() && g@ == (GroupModel {
                start_tag,
                delimiter_tag,
                fields: Seq::empty(),
            }),
    {
        if start_tag == 0 || delimiter_tag == 0 {
            return Err(FieldError::InvalidTag);
        }
        let g = RepeatingGroup { start_tag, delimiter_tag, fields: Vec::new() };
        assert(g@.fields =~= Seq::<FieldModel>::empty());
        Ok(g)
    }

    /// The group's start tag.
    pub fn start_tag(&self) -> (r: u32)
        ensures
            r == self@.start_tag,
    {
        self.start_tag
    }

    /// The tag that opens each block.
    pub fn delimiter_tag(&self) -> (r: u32)
        ensures
            r == self@.delimiter_tag,
    {
        self.delimiter_tag
    }

    /// The number of fields in the body.
    pub fn len(&self) -> (r: usize)
        ensures
            r == self@.fields.len(),
    {
        self.fields.len()
    }

    /// The tag and value of the `i`-th field of the body.
    pub fn field(&self, i: usize) -> (r: (u32, &Vec<u8>))
        requires
            i < self@.fields.len(),
        ensures
            r.0 == self@.fields[i as int].0,
            r.1@ == self@.fields[i as int].1,
    {
        let f = &self.fields[i];
        (f.tag, &f.value)
    }

    /// Stores `value` under `tag` in the body: in place when the tag is
    /// present, at the end otherwise. A zero tag leaves the block unchanged.
    pub fn append(&mut self, tag: u32, value: String) -> (r: Result<(), FieldError>)
        requires
            old(self).wf(),
        ensures
            final(self).wf(),
            tag == 0 ==> r == Err::<(), FieldError>(FieldError::InvalidTag) && *final(self) == *old(
                self,
            ),
            tag != 0 ==> r is Ok && final(self)@ == (GroupModel {
                fields: fields_upsert(old(self)@.fields, tag, encode_utf8(value@)),
                ..old(self)@
            }),
    {
        if tag == 0 {
            return Err(FieldError::InvalidTag);
        }
        let bytes = utf8_bytes(value.as_str());
        let ghost fs = old(self)@.fields;
        let mut i: usize = 0;
        while i < self.fields.len()
            invariant
                i <= self.fields@.len(),
                *self == *old(self),
                fs == fields_view(self.fields@),
                fields_wf(fs),
                bytes@ == encode_utf8(value@),
                tag > 0,
                forall|k: int| 0 <= k < i ==> fs[k].0 != tag,
            decreases self.fields@.len() - i,
        {
            if self.fields[i].tag == tag {
                proof {
                    assert(fs[i as int] == self.fields@[i as int]@);
                    assert(fields_have(fs, tag));
                }
                let nf = Field { tag, value: bytes };
                assert(nf@ == (tag, encode_utf8(value@)));
                self.fields[i] = nf;
                proof {
                    let j = choose|j: int| 0 <= j < fs.len() && fs[j].0 == tag;
                    assert(j == i as int);
                    assert(fields_view(self.fields@) =~= fs.update(i as int, (tag, encode_utf8(value@))));
                }
                return Ok(());
            }
            i = i + 1;
        }
        self.fields.push(Field { tag, value: bytes });
        assert(fields_view(self.fields@) =~= fs.push((tag, encode_utf8(value@))));
        Ok(())
    }
}

/// A tag of a message: its scalar value and the group blocks that follow it.
#[derive(Clone)]
struct Entry {
    tag: u32,
    value: Vec<u8>,
    groups: Vec<RepeatingGroup>,
}

impl View for Entry {
    type V = EntryModel;

    closed spec fn view(&self) -> EntryModel {
        EntryModel { tag: self.tag, value: self.value@, groups: groups_view(self.groups@) }
    }
}

/// An application message: its type and its fields in insertion order.
#[derive(Clone)]
pub struct Message {
    message_type: String,
    entries: Vec<Entry>,
}

impl View for Message {
    type V = MessageModel;

    closed spec fn view(&self) -> MessageModel {
        MessageModel {
            message_type: self.message_type@,
            entries: self.entries@.map_values(|e: Entry| e@),
        }
    }
}

impl Message {
    /// Well-formed: tags are positive and unique, also inside each group.
    pub open spec fn wf(&self) -> bool {
        entries_wf(self@.entries)
    }

    /// An empty message of type `message_type`.
    pub fn new(message_type: String) -> (r: Message)
        ensures
            r.wf(),
            r@ == (MessageModel { message_type: message_type@, entries: Seq::empty() }),
    {
        let r = Message { message_type, entries: Vec::new() };
        assert(r@.entries =~= Seq::<EntryModel>::empty());
        r
    }

    /// The message type.
    pub fn message_type(&self) -> (r: &String)
        ensures
            r@ == self@.message_type,
    {
        &self.message_type
    }

    /// The number of tags in the message.
    pub fn len(&self) -> (r: usize)
        ensures
            r == self@.entries.len(),
    {
        self.entries.len()
    }

    /// The tag, scalar value and groups of the `i`-th entry.
    pub fn entry(&self, i: usize) -> (r: (u32, &Vec<u8>, &Vec<RepeatingGroup>))
        requires
            i < self@.entries.len(),
        ensures
            r.0 == self@.entries[i as int].tag,
            r.1@ == self@.entries[i as int].value,
            groups_view(r.2@) == self@.entries[i as int].groups,
    {
        let e = &self.entries[i];
        (e.tag, &e.value, &e.groups)
    }

    /// The position of the entry with tag `tag`, if there is one.
    fn find(&self, tag: u32) -> (r: Option<usize>)
        requires
            self.wf(),
        ensures
            r is None <==> !entries_have(self@.entries, tag),
            r matches Some(i) ==> i < self@.entries.len() && i as int == entry_index(
                self@.entries,
                tag,
            ),
    {
        let ghost es = self@.entries;
        let mut i: usize = 0;
        while i < self.entries.len()
            invariant
                i <= self.entries@.len(),
                es == self@.entries,
                entries_wf(es),
                forall|k: int| 0 <= k < i ==> es[k].tag != tag,
            decreases self.entries@.len() - i,
        {
            assert(es[i as int] == self.entries@[i as int]@);
            if self.entries[i].tag == tag {
                assert(entries_have(es, tag));
                return Some(i);
            }
            i = i + 1;
        }
        None
    }

    /// Stores `value` under `tag`: in place when the tag is present (its
    /// groups stay), at the end otherwise. A zero tag is refused and leaves
    /// the message unchanged.
    pub fn insert(&mut self, tag: u32, value: String) -> (r: Result<(), FieldError>)
        requires
            old(self).wf(),
        ensures
            final(self).wf(),
            tag == 0 ==> r == Err::<(), FieldError>(FieldError::InvalidTag) && *final(self) == *old(
                self,
            ),
            tag != 0 ==> r is Ok && final(self)@ == (MessageModel {
                entries: entries_insert(old(self)@.entries, tag, encode_utf8(value@)),
                ..old(self)@
            }),
    {
        if tag == 0 {
            return Err(FieldError::InvalidTag);
        }
        let bytes = utf8_bytes(value.as_str());
        let ghost es = old(self)@.entries;
        match self.find(tag) {
            Some(i) => {
                let ghost i0 = i as int;
                assert(self.entries@[i0]@ == es[i0]);
                let e = self.entries.remove(i);
                let ne = Entry { tag, value: bytes, groups: e.groups };
                assert(ne@ == (EntryModel { tag, value: encode_utf8(value@), groups: es[i0].groups }));
                self.entries.insert(i, ne);
                assert(self@.entries =~= entries_insert(es, tag, encode_utf8(value@)));
            },
            None => {
                let ne = Entry { tag, value: bytes, groups: Vec::new() };
                assert(ne@.groups =~= Seq::<GroupModel>::empty());
                self.entries.push(ne);
                assert(self@.entries =~= entries_insert(es, tag, encode_utf8(value@)));
            },
        }
        Ok(())
    }

    /// Registers `groups` under `start_tag`. An empty list changes nothing.
    /// Otherwise the count of `groups`, in decimal, becomes the scalar value of
    /// `start_tag`, and `groups` replace whatever groups the tag had. A zero
    /// tag is refused and leaves the message unchanged.
    pub fn insert_groups(&mut self, start_tag: u32, groups: Vec<RepeatingGroup>) -> (r: Result<
        (),
        FieldError,
    >)
        requires
            old(self).wf(),
            forall|k: int| 0 <= k < groups@.len() ==> (#[trigger] groups@[k]).wf(),
        ensures
            final(self).wf(),
            groups@.len() == 0 ==> r is Ok && *final(self) == *old(self),
            groups@.len() > 0 && start_tag == 0 ==> r == Err::<(), FieldError>(
                FieldError::InvalidTag,
            ) && *final(self) == *old(self),
            groups@.len() > 0 && start_tag != 0 ==> r is Ok && final(self)@ == (MessageModel {
                entries: entries_insert_groups(old(self)@.entries, start_tag, groups_view(groups@)),
                ..old(self)@
            }),
    {
        if groups.len() == 0 {
            return Ok(());
        }
        if start_tag == 0 {
            return Err(FieldError::InvalidTag);
        }
        let mut count: Vec<u8> = Vec::new();
        push_decimal(&mut count, groups.len() as u64);
        assert(count@ =~= decimal(groups@.len()));
        let ghost es = old(self)@.entries;
        let ghost gv = groups_view(groups@);
        assert forall|k: int| 0 <= k < gv.len() implies fields_wf(#[trigger] gv[k].fields) by {
            assert(groups@[k].wf());
        }
        let ne = Entry { tag: start_tag, value: count, groups };
        assert(ne@ == (EntryModel { tag: start_tag, value: decimal(gv.len()), groups: gv }));
        match self.find(start_tag) {
            Some(i) => {
                let _ = self.entries.remove(i);
                self.entries.insert(i, ne);
                assert(self@.entries =~= entries_insert_groups(es, start_tag, gv));
            },
            None => {
                self.entries.push(ne);
                assert(self@.entries =~= entries_insert_groups(es, start_tag, gv));
            },
        }
        Ok(())
    }
}

/// Appends all of `v` to `out`.
fn push_all(out: &mut Vec<u8>, v: &Vec<u8>)
    ensures
        final(out)@ == old(out)@ + v@,
{
    let mut i: usize = 0;
    while i < v.len()
        invariant
            i <= v@.len(),
            out@ == old(out)@ + v@.take(i as int),
        decreases v@.len() - i,
    {
        out.push(v[i]);
        i = i + 1;
        assert(out@ =~= old(out)@ + v@.take(i as int));
    }
    assert(v@.take(v@.len() as int) =~= v@);
}

/// Appends the field `tag=value` and the separator to `out`.
fn push_field(out: &mut Vec<u8>, tag: u32, value: &Vec<u8>, sep: u8)
    ensures
        final(out)@ == old(out)@ + field_bytes(tag, value@, sep),
{
    push_decimal(out, tag as u64);
    out.push(61);
    push_all(out, value);
    out.push(sep);
    assert(final(out)@ =~= old(out)@ + field_bytes(tag, value@, sep));
}

/// Appends the fields of `fs` in order.
fn push_fields(out: &mut Vec<u8>, fs: &Vec<Field>, sep: u8)
    ensures
        final(out)@ == old(out)@ + fields_bytes(fields_view(fs@), sep),
{
    let ghost fv = fields_view(fs@);
    let mut i: usize = 0;
    while i < fs.len()
        invariant
            i <= fs@.len(),
            fv == fields_view(fs@),
            out@ == old(out)@ + fields_bytes(fv.take(i as int), sep),
        decreases fs@.len() - i,
    {
        proof {
            assert(fv.take(i as int + 1).drop_last() =~= fv.take(i as int));
            assert(fv[i as int] == fs@[i as int]@);
        }
        push_field(out, fs[i].tag, &fs[i].value, sep);
        i = i + 1;
        assert(out@ =~= old(out)@ + fields_bytes(fv.take(i as int), sep));
    }
    assert(fv.take(fv.len() as int) =~= fv);
}

/// Appends the bodies of `gs` in order.
fn push_groups(out: &mut Vec<u8>, gs: &Vec<RepeatingGroup>, sep: u8)
    ensures
        final(out)@ == old(out)@ + groups_bytes(groups_view(gs@), sep),
{
    let ghost gv = groups_view(gs@);
    let mut i: usize = 0;
    while i < gs.len()
        invariant
            i <= gs@.len(),
            gv == groups_view(gs@),
            out@ == old(out)@ + groups_bytes(gv.take(i as int), sep),
        decreases gs@.len() - i,
    {
        proof {
            assert(gv.take(i as int + 1).drop_last() =~= gv.take(i as int));
            assert(gv[i as int] == gs@[i as int]@);
        }
        push_fields(out, &gs[i].fields, sep);
        i = i + 1;
        assert(out@ =~= old(out)@ + groups_bytes(gv.take(i as int), sep));
    }
    assert(gv.take(gv.len() as int) =~= gv);
}

impl Message {
    /// Appends the entries in order, each scalar followed by its groups.
    fn push_entries(&self, out: &mut Vec<u8>, sep: u8)
        ensures
            final(out)@ == old(out)@ + entries_bytes(self@.entries, sep),
    {
        let ghost ev = self@.entries;
        let mut i: usize = 0;
        while i < self.entries.len()
            invariant
                i <= self.entries@.len(),
                ev == self@.entries,
                out@ == old(out)@ + entries_bytes(ev.take(i as int), sep),
            decreases self.entries@.len() - i,
        {
            proof {
                assert(ev.take(i as int + 1).drop_last() =~= ev.take(i as int));
                assert(ev[i as int] == self.entries@[i as int]@);
            }
            let e = &self.entries[i];
            push_field(out, e.tag, &e.value, sep);
            push_groups(out, &e.groups, sep);
            i = i + 1;
            assert(out@ =~= old(out)@ + entries_bytes(ev.take(i as int), sep));
        }
        assert(ev.take(ev.len() as int) =~= ev);
    }
}

/// Encodes `message` as a complete frame: BeginString `begin_string`,
/// BodyLength, MsgType, the entries in insertion order with each group's
/// bodies after its count, and the checksum. Fields end with `separator`.
pub fn encode_message(message: &Message, begin_string: &str, separator: u8) -> (r: Vec<u8>)
    ensures
        r@ == encoding(begin_string@, message@, separator),
{
    let mut body: Vec<u8> = Vec::new();
    let mt = utf8_bytes(message.message_type.as_str());
    push_field(&mut body, MSG_TYPE_TAG, &mt, separator);
    message.push_entries(&mut body, separator);
    assert(body@ =~= body_bytes(message@, separator));

    let mut out: Vec<u8> = Vec::new();
    let begin = utf8_bytes(begin_string);
    push_field(&mut out, BEGIN_STRING_TAG, &begin, separator);
    let mut length: Vec<u8> = Vec::new();
    push_decimal(&mut length, body.len() as u64);
    assert(length@ =~= decimal(body@.len()));
    push_field(&mut out, BODY_LENGTH_TAG, &length, separator);
    push_all(&mut out, &body);
    assert(out@ =~= frame_before_checksum(begin_string@, message@, separator));

    let c = compute_checksum(&out);
    let ghost pre = out@;
    out.push(49);
    out.push(48);
    out.push(61);
    push_three_digits(&mut out, c);
    out.push(separator);
    assert(out@ =~= pre + checksum_field(checksum(pre), separator));
    out
}

} // verus!
