use crate::errors::{Error, ErrorKind, Result};
use crate::reader::{Reader, eof, le_uint};
use vstd::prelude::*;
use vstd::slice::slice_to_vec;

verus! {

/// A property identifier.
///
/// The low 26 bits hold the property's id, the next five bits its type and
/// the top bit a boolean value. See [MS-ONESTORE] 2.6.6.
#[derive(Debug, PartialEq, Eq, Structural, Clone, Copy, Hash)]
pub struct PropertyId(pub u32);

/// The type bits of the property identifier word `v`.
pub open spec fn prop_type_of(v: u32) -> u32 {
    (v >> 26u32) & 0x1fu32
}

impl PropertyId {
    /// The property identifier with the given 32-bit word.
    pub fn new(value: u32) -> (p: PropertyId)
        ensures
            p.0 == value,
    {
        PropertyId(value)
    }

    /// The whole 32-bit word.
    pub fn value(&self) -> (v: u32)
        ensures
            v == self.0,
    {
        self.0
    }

    /// The property's id: the low 26 bits.
    pub fn id(&self) -> (v: u32)
        ensures
            v == self.0 & 0x3ffffffu32,
    {
        self.0 & 0x3ffffff
    }

    /// The property's type: bits 26 to 30.
    pub fn prop_type(&self) -> (v: u32)
        ensures
            v == prop_type_of(self.0),
    {
        self.0 >> 26 & 0x1f
    }

    /// The boolean value that the top bit holds.
    pub fn bool(&self) -> (b: bool)
        ensures
            b == (self.0 >> 31u32 == 1),
    {
        self.0 >> 31 == 1
    }

    /// Reads a property identifier from a little-endian 32-bit word.
    pub fn parse(reader: &mut Reader) -> (r: Result<PropertyId>)
        requires
            old(reader).wf(),
        ensures
            old(reader).rest().len() < 4 ==> r == eof::<PropertyId>(),
            old(reader).rest().len() >= 4 ==> r == Ok::<PropertyId, Error>(
                PropertyId(u32_at(old(reader).rest())),
            ) && final(reader).advanced_from(*old(reader), 4),
    {
        let v = reader.get_u32()?;
        Ok(PropertyId::new(v))
    }
}

/// The little-endian 32-bit word at the front of `s`.
pub open spec fn u32_at(s: Seq<u8>) -> u32 {
    le_uint(s.take(4)) as u32
}

/// A property value.
#[derive(Debug)]
pub enum PropertyValue {
    Empty,
    Bool(bool),
    U8(u8),
    U16(u16),
    U32(u32),
    U64(u64),
    Vec(Vec<u8>),
    ObjectId,
    ObjectIds(u32),
    ObjectSpaceId,
    ObjectSpaceIds(u32),
    ContextId,
    ContextIds(u32),
    PropertyValues(PropertyId, Vec<PropertySet>),
    PropertySet(PropertySet),
}

/// A set of properties: identifiers with their values, in file order.
#[derive(Debug)]
pub struct PropertySet {
    entries: Vec<(PropertyId, PropertyValue)>,
}

/// The mathematical content of a [`PropertyValue`].
pub enum PropertyValueModel {
    Empty,
    Bool(bool),
    U8(u8),
    U16(u16),
    U32(u32),
    U64(u64),
    Vec(Seq<u8>),
    ObjectId,
    ObjectIds(u32),
    ObjectSpaceId,
    ObjectSpaceIds(u32),
    ContextId,
    ContextIds(u32),
    PropertyValues(PropertyId, Seq<PropertySetModel>),
    PropertySet(PropertySetModel),
}

/// The mathematical content of a [`PropertySet`]: its entries in file order.
pub struct PropertySetModel {
    pub entries: Seq<(PropertyId, PropertyValueModel)>,
}

impl PropertyValue {
    /// The mathematical content of this value.
    pub open spec fn model(&self) -> PropertyValueModel
        decreases self,
    {
        match self {
            PropertyValue::Empty => PropertyValueModel::Empty,
            PropertyValue::Bool(v) => PropertyValueModel::Bool(*v),
            PropertyValue::U8(v) => PropertyValueModel::U8(*v),
            PropertyValue::U16(v) => PropertyValueModel::U16(*v),
            PropertyValue::U32(v) => PropertyValueModel::U32(*v),
            PropertyValue::U64(v) => PropertyValueModel::U64(*v),
            PropertyValue::Vec(v) => PropertyValueModel::Vec(v@),
            PropertyValue::ObjectId => PropertyValueModel::ObjectId,
            PropertyValue::ObjectIds(v) => PropertyValueModel::ObjectIds(*v),
            PropertyValue::ObjectSpaceId => PropertyValueModel::ObjectSpaceId,
            PropertyValue::ObjectSpaceIds(v) => PropertyValueModel::ObjectSpaceIds(*v),
            PropertyValue::ContextId => PropertyValueModel::ContextId,
            PropertyValue::ContextIds(v) => PropertyValueModel::ContextIds(*v),
            PropertyValue::PropertyValues(id, sets) => PropertyValueModel::PropertyValues(
                *id,
                set_seq_model(sets@),
            ),
            PropertyValue::PropertySet(set) => PropertyValueModel::PropertySet(set.model()),
        }
    }
}

impl PropertySet {
    /// The mathematical content of this set.
    pub closed spec fn model(&self) -> PropertySetModel
        decreases self,
    {
        PropertySetModel { entries: entry_seq_model(self.entries@) }
    }
}

/// The models of a sequence of property sets.
pub open spec fn set_seq_model(s: Seq<PropertySet>) -> Seq<PropertySetModel>
    decreases s,
{
    if s.len() == 0 {
        seq![]
    } else {
        set_seq_model(s.drop_last()).push(s.last().model())
    }
}

/// The models of a sequence of property entries.
pub open spec fn entry_seq_model(s: Seq<(PropertyId, PropertyValue)>) -> Seq<(PropertyId, PropertyValueModel)>
    decreases s,
{
    if s.len() == 0 {
        seq![]
    } else {
        entry_seq_model(s.drop_last()).push((s.last().0, s.last().1.model()))
    }
}

/// The identifiers of `count` properties stored one after another as
/// little-endian 32-bit words at the front of `s`.
pub open spec fn ids_spec(s: Seq<u8>, count: nat) -> Result<(Seq<PropertyId>, int)> {
    if s.len() < 4 * count {
        eof()
    } else {
        Ok((Seq::new(count, |i: int| PropertyId(u32_at(s.skip(4 * i)))), 4 * count as int))
    }
}

/// The result of decoding the value of property `id` from the front of `s`,
/// with the number of bytes it takes.
pub open spec fn value_spec(id: PropertyId, s: Seq<u8>) -> Result<(PropertyValueModel, int)>
    decreases s.len(), 1nat, 0nat,
{
    let t = prop_type_of(id.0);
    if t == 0x1 {
        Ok((PropertyValueModel::Empty, 0))
    } else if t == 0x2 {
        Ok((PropertyValueModel::Bool(id.0 >> 31u32 == 1), 0))
    } else if t == 0x3 {
        if s.len() < 1 {
            eof()
        } else {
            Ok((PropertyValueModel::U8(s[0]), 1))
        }
    } else if t == 0x4 {
        if s.len() < 2 {
            eof()
        } else {
            Ok((PropertyValueModel::U16(le_uint(s.take(2)) as u16), 2))
        }
    } else if t == 0x5 {
        if s.len() < 4 {
            eof()
        } else {
            Ok((PropertyValueModel::U32(u32_at(s)), 4))
        }
    } else if t == 0x6 {
        if s.len() < 8 {
            eof()
        } else {
            Ok((PropertyValueModel::U64(le_uint(s.take(8)) as u64), 8))
        }
    } else if t == 0x7 {
        if s.len() < 4 || s.len() - 4 < u32_at(s) {
            eof()
        } else {
            Ok((PropertyValueModel::Vec(s.subrange(4, 4 + u32_at(s))), 4 + u32_at(s)))
        }
    } else if t == 0x8 {
        Ok((PropertyValueModel::ObjectId, 0))
    } else if t == 0x9 {
        if s.len() < 4 {
            eof()
        } else {
            Ok((PropertyValueModel::ObjectIds(u32_at(s)), 4))
        }
    } else if t == 0xA {
        Ok((PropertyValueModel::ObjectSpaceId, 0))
    } else if t == 0xB {
        if s.len() < 4 {
            eof()
        } else {
            Ok((PropertyValueModel::ObjectSpaceIds(u32_at(s)), 4))
        }
    } else if t == 0xC {
        Ok((PropertyValueModel::ContextId, 0))
    } else if t == 0xD {
        if s.len() < 4 {
            eof()
        } else {
            Ok((PropertyValueModel::ContextIds(u32_at(s)), 4))
        }
    } else if t == 0x10 {
        if s.len() < 8 {
            eof()
        } else {
            match sets_spec(s.skip(8), u32_at(s) as nat) {
                Ok((sets, n)) => Ok(
                    (PropertyValueModel::PropertyValues(PropertyId(u32_at(s.skip(4))), sets), 8 + n),
                ),
                Err(e) => Err(e),
            }
        }
    } else if t == 0x11 {
        match set_spec(s) {
            Ok((set, n)) => Ok((PropertyValueModel::PropertySet(set), n)),
            Err(e) => Err(e),
        }
    } else {
        Err(Error { kind: ErrorKind::UnexpectedPropertyType { prop_type: t } })
    }
}

/// The result of decoding a property set from the front of `s`: a
/// little-endian 16-bit count, that many property identifiers, then the
/// value of each property in the same order.
pub open spec fn set_spec(s: Seq<u8>) -> Result<(PropertySetModel, int)>
    decreases s.len(), 0nat, 0nat,
{
    if s.len() < 2 {
        eof()
    } else {
        let count = le_uint(s.take(2)) as u16;
        match ids_spec(s.skip(2), count as nat) {
            Ok((ids, n)) => match values_spec(ids, s.skip(2 + n)) {
                Ok((entries, m)) => Ok((PropertySetModel { entries }, 2 + n + m)),
                Err(e) => Err(e),
            },
            Err(e) => Err(e),
        }
    }
}

/// The result of decoding the values of the properties `ids`, one after
/// another, from the front of `s`.
pub open spec fn values_spec(ids: Seq<PropertyId>, s: Seq<u8>) -> Result<(Seq<(PropertyId, PropertyValueModel)>, int)>
    decreases s.len(), 2nat, ids.len(),
{
    if ids.len() == 0 {
        Ok((seq![], 0))
    } else {
        match values_spec(ids.drop_last(), s) {
            Ok((entries, n)) => if 0 <= n <= s.len() {
                match value_spec(ids.last(), s.skip(n)) {
                    Ok((v, m)) => Ok((entries.push((ids.last(), v)), n + m)),
                    Err(e) => Err(e),
                }
            } else {
                eof()
            },
            Err(e) => Err(e),
        }
    }
}

/// The result of decoding `count` property sets, one after another, from
/// the front of `s`.
pub open spec fn sets_spec(s: Seq<u8>, count: nat) -> Result<(Seq<PropertySetModel>, int)>
    decreases s.len(), 3nat, count,
{
    if count == 0 {
        Ok((seq![], 0))
    } else {
        match sets_spec(s, (count - 1) as nat) {
            Ok((sets, n)) => if 0 <= n <= s.len() {
                match set_spec(s.skip(n)) {
                    Ok((set, m)) => Ok((sets.push(set), n + m)),
                    Err(e) => Err(e),
                }
            } else {
                eof()
            },
            Err(e) => Err(e),
        }
    }
}

/// Once decoding a prefix of the values fails, decoding all of them fails
/// in the same way.
proof fn lemma_values_err_persists(ids: Seq<PropertyId>, s: Seq<u8>, i: int)
    requires
        0 <= i <= ids.len(),
        values_spec(ids.take(i), s) is Err,
    ensures
        values_spec(ids, s) == values_spec(ids.take(i), s),
    decreases ids.len(),
{
    if i < ids.len() {
        assert(ids.drop_last().take(i) =~= ids.take(i));
        lemma_values_err_persists(ids.drop_last(), s, i);
    } else {
        assert(ids.take(i) =~= ids);
    }
}

/// Once decoding a prefix of the property sets fails, decoding all of them
/// fails in the same way.
proof fn lemma_sets_err_persists(s: Seq<u8>, i: nat, count: nat)
    requires
        i <= count,
        sets_spec(s, i) is Err,
    ensures
        sets_spec(s, count) == sets_spec(s, i),
    decreases count,
{
    if count > i {
        lemma_sets_err_persists(s, i, (count - 1) as nat);
    }
}

/// The value of the last entry of `entries` whose identifier word is `v`.
pub open spec fn entries_get(entries: Seq<(PropertyId, PropertyValueModel)>, v: u32) -> Option<PropertyValueModel>
    decreases entries.len(),
{
    if entries.len() == 0 {
        None
    } else if entries.last().0.0 == v {
        Some(entries.last().1)
    } else {
        entries_get(entries.drop_last(), v)
    }
}

/// The model of a sequence of entries holds, position by position, the
/// identifier and the model of each value.
proof fn lemma_entry_seq_model(s: Seq<(PropertyId, PropertyValue)>)
    ensures
        entry_seq_model(s).len() == s.len(),
        forall|i: int| 0 <= i < s.len() ==> #[trigger] entry_seq_model(s)[i] == (s[i].0, s[i].1.model()),
    decreases s.len(),
{
    if s.len() > 0 {
        lemma_entry_seq_model(s.drop_last());
    }
}

impl PropertySet {
    /// The value of the property whose identifier word equals that of `id`;
    /// when several entries carry it, the last one.
    pub fn get(&self, id: PropertyId) -> (r: Option<&PropertyValue>)
        ensures
            match entries_get(self.model().entries, id.0) {
                Some(m) => r matches Some(x) && x.model() == m,
                None => r is None,
            },
    {
        let mut i = self.entries.len();
        proof {
            lemma_entry_seq_model(self.entries@);
            assert(self.entries@.take(i as int) =~= self.entries@);
        }
        while i > 0
            invariant
                i <= self.entries@.len(),
                entries_get(self.model().entries, id.0) == entries_get(entry_seq_model(self.entries@.take(i as int)), id.0),
            decreases i,
        {
            let ghost prefix = self.entries@.take(i as int);
            proof {
                lemma_entry_seq_model(prefix);
                lemma_entry_seq_model(prefix.drop_last());
                assert(entry_seq_model(prefix).drop_last() =~= entry_seq_model(prefix.drop_last()));
                assert(prefix.drop_last() =~= self.entries@.take(i - 1));
            }
            if self.entries[i - 1].0.0 == id.0 {
                return Some(&self.entries[i - 1].1);
            }
            i = i - 1;
        }
        None
    }

    /// Reads a property set: a little-endian 16-bit count, that many
    /// property identifiers, then the value of each property.
    ///
    /// See [MS-ONESTORE] 2.6.7.
    pub fn parse(reader: &mut Reader) -> (r: Result<PropertySet>)
        requires
            old(reader).wf(),
        ensures
            match set_spec(old(reader).rest()) {
                Ok((m, n)) => r matches Ok(x) && x.model() == m && final(reader).advanced_from(*old(reader), n),
                Err(e) => r == Err::<PropertySet, Error>(e),
            },
        decreases old(reader).rest().len(), 0nat,
    {
        let ghost start = *reader;
        let ghost s = start.rest();
        let count = reader.get_u16()?;
        let ghost after_count = *reader;
        let ghost t = after_count.rest();
        let mut ids: Vec<PropertyId> = Vec::new();
        let mut i: u16 = 0;
        proof {
            Reader::lemma_advanced_refl(after_count);
        }
        while i < count
            invariant
                i <= count,
                start == *old(reader),
                s == start.rest(),
                start.wf(),
                s.len() >= 2,
                count == le_uint(s.take(2)) as u16,
                after_count.wf(),
                after_count.advanced_from(start, 2),
                t == after_count.rest(),
                reader.advanced_from(after_count, 4 * i),
                ids@ =~= Seq::new(i as nat, |j: int| PropertyId(u32_at(t.skip(4 * j)))),
            decreases count - i,
        {
            let ghost before = *reader;
            let id = PropertyId::parse(reader);
            match id {
                Ok(id) => {
                    proof {
                        Reader::lemma_advanced_trans(after_count, before, *reader, 4 * i, 4);
                    }
                    ids.push(id);
                    i = i + 1;
                },
                Err(e) => {
                    proof {
                        assert(t.len() < 4 * (count as int));
                        assert(t == s.skip(2));
                        assert(set_spec(s) == Err::<(PropertySetModel, int), Error>(e));
                    }
                    return Err(e);
                },
            }
        }
        let ghost after_ids = *reader;
        let ghost u = after_ids.rest();
        proof {
            assert(ids_spec(t, count as nat) == Ok::<(Seq<PropertyId>, int), Error>((ids@, 4 * count as int)));
            assert(u == s.skip(2 + 4 * count as int));
            Reader::lemma_advanced_refl(after_ids);
        }
        let mut entries: Vec<(PropertyId, PropertyValue)> = Vec::new();
        let mut k: usize = 0;
        let ghost mut consumed: int = 0;
        while k < ids.len()
            invariant
                k <= ids@.len(),
                ids@.len() == count,
                s.len() >= 2,
                count == le_uint(s.take(2)) as u16,
                start == *old(reader),
                s == start.rest(),
                start.wf(),
                after_ids.advanced_from(start, 2 + 4 * count as int),
                u == after_ids.rest(),
                reader.advanced_from(after_ids, consumed),
                ids_spec(s.skip(2), count as nat) == Ok::<(Seq<PropertyId>, int), Error>((ids@, 4 * count as int)),
                values_spec(ids@.take(k as int), u) == Ok::<(Seq<(PropertyId, PropertyValueModel)>, int), Error>((entry_seq_model(entries@), consumed)),
            decreases ids@.len() - k,
        {
            let ghost before = *reader;
            let id = ids[k];
            proof {
                assert(ids@.take(k + 1).drop_last() =~= ids@.take(k as int));
                assert(ids@.take(k + 1).last() == id);
            }
            match PropertyValue::parse(id, reader) {
                Ok(v) => {
                    let ghost vm = v.model();
                    let ghost old_entries = entries@;
                    entries.push((id, v));
                    proof {
                        let m = reader.offset() - before.offset();
                        Reader::lemma_advanced_trans(after_ids, before, *reader, consumed, m);
                        assert(entries@.drop_last() =~= old_entries);
                        consumed = consumed + m;
                    }
                    k = k + 1;
                },
                Err(e) => {
                    proof {
                        lemma_values_err_persists(ids@, u, k + 1);
                        assert(ids@.take(count as int) =~= ids@);
                        assert(u == s.skip(2 + 4 * count as int));
                        assert(values_spec(ids@, u) == Err::<(Seq<(PropertyId, PropertyValueModel)>, int), Error>(e));
                        assert(set_spec(s) == Err::<(PropertySetModel, int), Error>(e));
                    }
                    return Err(e);
                },
            }
        }
        proof {
            assert(ids@.take(k as int) =~= ids@);
            Reader::lemma_advanced_trans(start, after_ids, *reader, 2 + 4 * count as int, consumed);
        }
        Ok(PropertySet { entries })
    }
}

impl PropertySet {
    /// The set with no properties.
    pub fn new_empty() -> (r: PropertySet)
        ensures
            r.model().entries.len() == 0,
    {
        PropertySet { entries: Vec::new() }
    }

    /// A copy of this set with the same content.
    pub fn duplicate(&self) -> (r: PropertySet)
        ensures
            r.model() == self.model(),
        decreases self,
    {
        let mut entries: Vec<(PropertyId, PropertyValue)> = Vec::new();
        let mut i: usize = 0;
        proof {
            lemma_entry_seq_model(self.entries@);
        }
        while i < self.entries.len()
            invariant
                i <= self.entries@.len(),
                entry_seq_model(entries@) == entry_seq_model(self.entries@.take(i as int)),
            decreases self.entries@.len() - i,
        {
            proof {
                assert(decreases_to!(self => self.entries));
                assert(decreases_to!(self.entries => self.entries@[i as int]));
            }
            let v = self.entries[i].1.duplicate();
            let ghost old_entries = entries@;
            entries.push((self.entries[i].0, v));
            proof {
                assert(entries@.drop_last() =~= old_entries);
                assert(self.entries@.take(i + 1).drop_last() =~= self.entries@.take(i as int));
            }
            i = i + 1;
        }
        proof {
            assert(self.entries@.take(i as int) =~= self.entries@);
        }
        PropertySet { entries }
    }
}

impl PropertyValue {
    /// A copy of this value with the same content.
    pub fn duplicate(&self) -> (r: PropertyValue)
        ensures
            r.model() == self.model(),
        decreases self,
    {
        match self {
            PropertyValue::Empty => PropertyValue::Empty,
            PropertyValue::Bool(v) => PropertyValue::Bool(*v),
            PropertyValue::U8(v) => PropertyValue::U8(*v),
            PropertyValue::U16(v) => PropertyValue::U16(*v),
            PropertyValue::U32(v) => PropertyValue::U32(*v),
            PropertyValue::U64(v) => PropertyValue::U64(*v),
            PropertyValue::Vec(v) => PropertyValue::Vec(slice_to_vec(v.as_slice())),
            PropertyValue::ObjectId => PropertyValue::ObjectId,
            PropertyValue::ObjectIds(v) => PropertyValue::ObjectIds(*v),
            PropertyValue::ObjectSpaceId => PropertyValue::ObjectSpaceId,
            PropertyValue::ObjectSpaceIds(v) => PropertyValue::ObjectSpaceIds(*v),
            PropertyValue::ContextId => PropertyValue::ContextId,
            PropertyValue::ContextIds(v) => PropertyValue::ContextIds(*v),
            PropertyValue::PropertyValues(id, sets) => {
                let mut copies: Vec<PropertySet> = Vec::new();
                let mut i: usize = 0;
                while i < sets.len()
                    invariant
                        i <= sets@.len(),
                        *self == PropertyValue::PropertyValues(*id, *sets),
                        set_seq_model(copies@) == set_seq_model(sets@.take(i as int)),
                    decreases sets@.len() - i,
                {
                    proof {
                        assert(decreases_to!(self => self->PropertyValues_1));
                        assert(decreases_to!(self->PropertyValues_1 => sets@[i as int]));
                    }
                    let c = sets[i].duplicate();
                    let ghost old_copies = copies@;
                    copies.push(c);
                    proof {
                        assert(copies@.drop_last() =~= old_copies);
                        assert(sets@.take(i + 1).drop_last() =~= sets@.take(i as int));
                    }
                    i = i + 1;
                }
                proof {
                    assert(sets@.take(i as int) =~= sets@);
                }
                PropertyValue::PropertyValues(*id, copies)
            },
            PropertyValue::PropertySet(set) => PropertyValue::PropertySet(set.duplicate()),
        }
    }

    /// The value when this is a boolean.
    pub fn to_bool(&self) -> (r: Option<bool>)
        ensures
            r == (match self {
                PropertyValue::Bool(v) => Some(*v),
                _ => None,
            }),
    {
        if let PropertyValue::Bool(v) = self {
            Some(*v)
        } else {
            None
        }
    }

    /// The value when this is an 8-bit integer.
    pub fn to_u8(&self) -> (r: Option<u8>)
        ensures
            r == (match self {
                PropertyValue::U8(v) => Some(*v),
                _ => None,
            }),
    {
        if let PropertyValue::U8(v) = self {
            Some(*v)
        } else {
            None
        }
    }

    /// The value when this is a 16-bit integer.
    pub fn to_u16(&self) -> (r: Option<u16>)
        ensures
            r == (match self {
                PropertyValue::U16(v) => Some(*v),
                _ => None,
            }),
    {
        if let PropertyValue::U16(v) = self {
            Some(*v)
        } else {
            None
        }
    }

    /// The value when this is a 32-bit integer.
    pub fn to_u32(&self) -> (r: Option<u32>)
        ensures
            r == (match self {
                PropertyValue::U32(v) => Some(*v),
                _ => None,
            }),
    {
        if let PropertyValue::U32(v) = self {
            Some(*v)
        } else {
            None
        }
    }

    /// The value when this is a 64-bit integer.
    pub fn to_u64(&self) -> (r: Option<u64>)
        ensures
            r == (match self {
                PropertyValue::U64(v) => Some(*v),
                _ => None,
            }),
    {
        if let PropertyValue::U64(v) = self {
            Some(*v)
        } else {
            None
        }
    }

    /// The bytes when this is a byte vector.
    pub fn to_vec(&self) -> (r: Option<&[u8]>)
        ensures
            match self {
                PropertyValue::Vec(v) => r matches Some(b) && b@ == v@,
                _ => r is None,
            },
    {
        if let PropertyValue::Vec(v) = self {
            Some(v.as_slice())
        } else {
            None
        }
    }

    /// `Some(())` when this is a single object reference.
    pub fn to_object_id(&self) -> (r: Option<()>)
        ensures
            r is Some <==> self is ObjectId,
    {
        if let PropertyValue::ObjectId = self {
            Some(())
        } else {
            None
        }
    }

    /// The count when this is an array of object references.
    pub fn to_object_ids(&self) -> (r: Option<u32>)
        ensures
            r == (match self {
                PropertyValue::ObjectIds(v) => Some(*v),
                _ => None,
            }),
    {
        if let PropertyValue::ObjectIds(v) = self {
            Some(*v)
        } else {
            None
        }
    }

    /// The count when this is an array of object space references.
    pub fn to_object_space_ids(&self) -> (r: Option<u32>)
        ensures
            r == (match self {
                PropertyValue::ObjectSpaceIds(v) => Some(*v),
                _ => None,
            }),
    {
        if let PropertyValue::ObjectSpaceIds(v) = self {
            Some(*v)
        } else {
            None
        }
    }

    /// The identifier and the sets when this is a list of property sets.
    pub fn to_property_values(&self) -> (r: Option<(PropertyId, &[PropertySet])>)
        ensures
            match self {
                PropertyValue::PropertyValues(id, sets) => r matches Some((i, s)) && i == *id && s@ == sets@,
                _ => r is None,
            },
    {
        if let PropertyValue::PropertyValues(id, values) = self {
            Some((*id, values.as_slice()))
        } else {
            None
        }
    }

    /// Reads the value of the property `property_id`; its type bits decide
    /// how many bytes it takes and what it holds.
    pub fn parse(property_id: PropertyId, reader: &mut Reader) -> (r: Result<PropertyValue>)
        requires
            old(reader).wf(),
        ensures
            match value_spec(property_id, old(reader).rest()) {
                Ok((m, n)) => r matches Ok(x) && x.model() == m && final(reader).advanced_from(*old(reader), n),
                Err(e) => r == Err::<PropertyValue, Error>(e),
            },
        decreases old(reader).rest().len(), 2nat,
    {
        let ghost start = *reader;
        proof {
            Reader::lemma_advanced_refl(start);
        }
        let prop_type = property_id.prop_type();
        let value = if prop_type == 0x1 {
            PropertyValue::Empty
        } else if prop_type == 0x2 {
            PropertyValue::Bool(property_id.bool())
        } else if prop_type == 0x3 {
            PropertyValue::U8(reader.get_u8()?)
        } else if prop_type == 0x4 {
            PropertyValue::U16(reader.get_u16()?)
        } else if prop_type == 0x5 {
            PropertyValue::U32(reader.get_u32()?)
        } else if prop_type == 0x6 {
            PropertyValue::U64(reader.get_u64()?)
        } else if prop_type == 0x7 {
            Self::parse_vec(reader)?
        } else if prop_type == 0x8 {
            PropertyValue::ObjectId
        } else if prop_type == 0x9 {
            PropertyValue::ObjectIds(reader.get_u32()?)
        } else if prop_type == 0xA {
            PropertyValue::ObjectSpaceId
        } else if prop_type == 0xB {
            PropertyValue::ObjectSpaceIds(reader.get_u32()?)
        } else if prop_type == 0xC {
            PropertyValue::ContextId
        } else if prop_type == 0xD {
            PropertyValue::ContextIds(reader.get_u32()?)
        } else if prop_type == 0x10 {
            Self::parse_property_values(reader)?
        } else if prop_type == 0x11 {
            PropertyValue::PropertySet(PropertySet::parse(reader)?)
        } else {
            return Err(Error::new(ErrorKind::UnexpectedPropertyType { prop_type }));
        };
        Ok(value)
    }

    /// Reads a byte vector: a little-endian 32-bit length, then that many
    /// bytes.
    fn parse_vec(reader: &mut Reader) -> (r: Result<PropertyValue>)
        requires
            old(reader).wf(),
        ensures
            ({
                let s = old(reader).rest();
                if s.len() < 4 || s.len() - 4 < u32_at(s) {
                    r == eof::<PropertyValue>()
                } else {
                    r matches Ok(PropertyValue::Vec(v)) && v@ == s.subrange(4, 4 + u32_at(s))
                        && final(reader).advanced_from(*old(reader), 4 + u32_at(s))
                }
            }),
    {
        let ghost start = *reader;
        let size = reader.get_u32()?;
        let ghost mid = *reader;
        let data = reader.read(size as usize)?;
        proof {
            Reader::lemma_advanced_trans(start, mid, *reader, 4, size as int);
            assert(data@ =~= start.rest().subrange(4, 4 + size));
        }
        Ok(PropertyValue::Vec(slice_to_vec(data)))
    }

    /// Reads a list of property sets: a little-endian 32-bit count, a
    /// property identifier, then that many property sets.
    fn parse_property_values(reader: &mut Reader) -> (r: Result<PropertyValue>)
        requires
            old(reader).wf(),
        ensures
            ({
                let s = old(reader).rest();
                if s.len() < 8 {
                    r == eof::<PropertyValue>()
                } else {
                    match sets_spec(s.skip(8), u32_at(s) as nat) {
                        Ok((sets, n)) => r matches Ok(x) && x.model() == PropertyValueModel::PropertyValues(PropertyId(u32_at(s.skip(4))), sets)
                            && final(reader).advanced_from(*old(reader), 8 + n),
                        Err(e) => r == Err::<PropertyValue, Error>(e),
                    }
                }
            }),
        decreases old(reader).rest().len(), 1nat,
    {
        let ghost start = *reader;
        let ghost s = start.rest();
        let size = reader.get_u32()?;
        let ghost mid = *reader;
        let id = PropertyId::parse(reader)?;
        let ghost after = *reader;
        let ghost t = after.rest();
        proof {
            Reader::lemma_advanced_trans(start, mid, after, 4, 4);
            assert(t == s.skip(8));
            Reader::lemma_advanced_refl(after);
        }
        let mut sets: Vec<PropertySet> = Vec::new();
        let mut i: u32 = 0;
        let ghost mut consumed: int = 0;
        while i < size
            invariant
                i <= size,
                start == *old(reader),
                s == start.rest(),
                start.wf(),
                s.len() >= 8,
                size == u32_at(s),
                id == PropertyId(u32_at(s.skip(4))),
                after.advanced_from(start, 8),
                t == after.rest(),
                reader.advanced_from(after, consumed),
                sets_spec(t, i as nat) == Ok::<(Seq<PropertySetModel>, int), Error>((set_seq_model(sets@), consumed)),
            decreases size - i,
        {
            let ghost before = *reader;
            match PropertySet::parse(reader) {
                Ok(set) => {
                    let ghost old_sets = sets@;
                    sets.push(set);
                    proof {
                        let m = reader.offset() - before.offset();
                        Reader::lemma_advanced_trans(after, before, *reader, consumed, m);
                        assert(sets@.drop_last() =~= old_sets);
                        consumed = consumed + m;
                    }
                    i = i + 1;
                },
                Err(e) => {
                    proof {
                        lemma_sets_err_persists(t, (i + 1) as nat, size as nat);
                    }
                    return Err(e);
                },
            }
        }
        proof {
            Reader::lemma_advanced_trans(start, after, *reader, 8, consumed);
        }
        Ok(PropertyValue::PropertyValues(id, sets))
    }
}

/// The value of a property whose type has a fixed size sits at the front
/// of the bytes that follow and takes exactly that size ([MS-ONESTORE]
/// 2.6.6): none for the types that carry no data or their data in the
/// identifier word, one byte, two, four or eight for the numbers, and a
/// 32-bit count for the ID-array types (object IDs 0x9, object space IDs
/// 0xB, context IDs 0xD); too few bytes is the end of the input.
pub proof fn law_fixed_size_property_values(id: PropertyId, s: Seq<u8>)
    ensures
        ({
            let t = (id.0 >> 26u32) & 0x1fu32;
            let count = le_uint(s.take(4)) as u32;
            &&& t == 0x1 ==> value_spec(id, s) == Ok::<(PropertyValueModel, int), Error>((PropertyValueModel::Empty, 0))
            &&& t == 0x2 ==> value_spec(id, s) == Ok::<(PropertyValueModel, int), Error>(
                (PropertyValueModel::Bool(id.0 >> 31u32 == 1), 0),
            )
            &&& t == 0x3 && s.len() >= 1 ==> value_spec(id, s) == Ok::<(PropertyValueModel, int), Error>(
                (PropertyValueModel::U8(s[0]), 1),
            )
            &&& t == 0x4 && s.len() >= 2 ==> value_spec(id, s) == Ok::<(PropertyValueModel, int), Error>(
                (PropertyValueModel::U16(le_uint(s.take(2)) as u16), 2),
            )
            &&& t == 0x5 && s.len() >= 4 ==> value_spec(id, s) == Ok::<(PropertyValueModel, int), Error>(
                (PropertyValueModel::U32(count), 4),
            )
            &&& t == 0x6 && s.len() >= 8 ==> value_spec(id, s) == Ok::<(PropertyValueModel, int), Error>(
                (PropertyValueModel::U64(le_uint(s.take(8)) as u64), 8),
            )
            &&& t == 0x8 ==> value_spec(id, s) == Ok::<(PropertyValueModel, int), Error>((PropertyValueModel::ObjectId, 0))
            &&& t == 0x9 && s.len() >= 4 ==> value_spec(id, s) == Ok::<(PropertyValueModel, int), Error>(
                (PropertyValueModel::ObjectIds(count), 4),
            )
            &&& t == 0xA ==> value_spec(id, s) == Ok::<(PropertyValueModel, int), Error>((PropertyValueModel::ObjectSpaceId, 0))
            &&& t == 0xB && s.len() >= 4 ==> value_spec(id, s) == Ok::<(PropertyValueModel, int), Error>(
                (PropertyValueModel::ObjectSpaceIds(count), 4),
            )
            &&& t == 0xC ==> value_spec(id, s) == Ok::<(PropertyValueModel, int), Error>((PropertyValueModel::ContextId, 0))
            &&& t == 0xD && s.len() >= 4 ==> value_spec(id, s) == Ok::<(PropertyValueModel, int), Error>(
                (PropertyValueModel::ContextIds(count), 4),
            )
            &&& t == 0x7 && s.len() >= 4 && s.len() - 4 >= count ==> value_spec(id, s) == Ok::<
                (PropertyValueModel, int),
                Error,
            >((PropertyValueModel::Vec(s.subrange(4, 4 + count)), 4 + count))
            &&& (t == 0x5 || t == 0x7 || t == 0x9 || t == 0xB || t == 0xD) && s.len() < 4 ==> value_spec(
                id,
                s,
            ) == Err::<(PropertyValueModel, int), Error>(Error { kind: ErrorKind::UnexpectedEof })
        }),
{
}

proof fn lemma_values_keep_ids(ids: Seq<PropertyId>, s: Seq<u8>)
    ensures
        values_spec(ids, s) matches Ok((entries, _)) ==> entries.len() == ids.len() && forall|i: int|
            0 <= i < ids.len() ==> #[trigger] entries[i].0 == ids[i],
    decreases ids.len(),
{
    if ids.len() > 0 {
        lemma_values_keep_ids(ids.drop_last(), s);
    }
}

/// A property set holds as many properties as its 16-bit count says, in
/// the order of the identifiers that follow the count: property `i` has
/// the little-endian 32-bit identifier at offset `2 + 4 * i`.
pub proof fn law_property_set_holds_its_counted_ids(s: Seq<u8>)
    ensures
        set_spec(s) matches Ok((set, _)) ==> set.entries.len() == (le_uint(s.take(2)) as u16)
            && forall|i: int|
            0 <= i < set.entries.len() ==> #[trigger] set.entries[i].0 == PropertyId(
                le_uint(s.subrange(2 + 4 * i, 6 + 4 * i)) as u32,
            ),
{
    if s.len() >= 2 {
        let count = le_uint(s.take(2)) as u16;
        match ids_spec(s.skip(2), count as nat) {
            Ok((ids, n)) => {
                lemma_values_keep_ids(ids, s.skip(2 + n));
                assert forall|i: int| 0 <= i < count implies #[trigger] ids[i] == PropertyId(
                    le_uint(s.subrange(2 + 4 * i, 6 + 4 * i)) as u32,
                ) by {
                    assert(s.skip(2).skip(4 * i).take(4) =~= s.subrange(2 + 4 * i, 6 + 4 * i));
                }
            },
            Err(_) => {},
        }
    }
}

/// Looking a property up finds the last entry with that identifier: when
/// entry `j` has identifier word `v` and no later entry does, the lookup
/// gives entry `j`'s value; when no entry has `v`, it gives nothing.
pub proof fn law_lookup_finds_the_last_entry(
    entries: Seq<(PropertyId, PropertyValueModel)>,
    v: u32,
    j: int,
)
    ensures
        0 <= j < entries.len() && entries[j].0.0 == v && (forall|k: int|
            j < k < entries.len() ==> #[trigger] entries[k].0.0 != v) ==> entries_get(entries, v)
            == Some(entries[j].1),
        (forall|k: int| 0 <= k < entries.len() ==> #[trigger] entries[k].0.0 != v) ==> entries_get(
            entries,
            v,
        ) is None,
    decreases entries.len(),
{
    if entries.len() > 0 {
        let last = entries.len() - 1;
        let d = entries.drop_last();
        if entries[last].0.0 != v {
            assert forall|k: int| 0 <= k < d.len() implies #[trigger] d[k] == entries[k] by {}
            law_lookup_finds_the_last_entry(d, v, j);
        }
    }
}

} // verus!
