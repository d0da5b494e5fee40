//! PDO mapping tables and the decoder that turns PDO payloads into typed values.

use vstd::prelude::*;
use vstd::slice::slice_subrange;

use crate::dictionary::{ObjectV, Variable, VariableV};
use crate::eds::{Eds, last_by_name, views};
use crate::types::{CobId, DataType, ValueType, ValueV, unsigned_of};

verus! {

/// One mapped object of a PDO: its address and its length in bytes.
#[derive(Debug, Clone, Copy, PartialEq, Eq, Structural)]
pub struct MappedPdo(pub CobId, pub u8);

/// The slot that a packed mapping entry describes: bits 31 to 16 are the index, 15 to 8
/// the subindex and 7 to 0 the length in bits, of which whole bytes are kept.
pub open spec fn mapped_of(v: nat) -> MappedPdo {
    MappedPdo(CobId((v / 65536) as u16, ((v / 256) % 256) as u8), ((v % 256) / 8) as u8)
}

/// Reads a packed mapping entry.
pub fn unpack_mapping(value: usize) -> (r: MappedPdo)
    ensures
        r == mapped_of(value as nat),
{
    let index = (value / 65536) as u16;
    let subindex = ((value / 256) % 256) as u8;
    let bit_len = (value % 256) as u8;
    MappedPdo(CobId(index, subindex), bit_len / 8)
}

/// The slots that mapping entries give: one per entry holding an unsigned value, in order.
pub open spec fn mapped_entries(vars: Seq<VariableV>) -> Seq<MappedPdo>
    decreases vars.len(),
{
    if vars.len() == 0 {
        Seq::empty()
    } else {
        match unsigned_of(vars.last().default_value) {
            Some(v) => mapped_entries(vars.drop_last()).push(mapped_of(v)),
            None => mapped_entries(vars.drop_last()),
        }
    }
}

/// `slots` holds the first eight of `items`, in order, and nothing after them.
pub open spec fn fills(slots: Seq<Option<MappedPdo>>, items: Seq<MappedPdo>) -> bool {
    &&& slots.len() == 8
    &&& forall|i: int|
        0 <= i < 8 ==> #[trigger] slots[i] == (if i < items.len() {
            Some(items[i])
        } else {
            None
        })
}

/// The table that holds the first eight of `items`.
pub open spec fn slots_of(items: Seq<MappedPdo>) -> Seq<Option<MappedPdo>> {
    Seq::new(8, |i: int| if i < items.len() { Some(items[i]) } else { None })
}

/// A filled table is the table of its items.
pub proof fn lemma_fills_slots(slots: Seq<Option<MappedPdo>>, items: Seq<MappedPdo>)
    requires
        fills(slots, items),
    ensures
        slots == slots_of(items),
{
    assert(slots =~= slots_of(items));
}

/// A PDO mapping table.
#[derive(Debug)]
pub struct PdoMapping {
    /// A maximum of 8 objects can be mapped into a single PDO
    pub slots: [Option<MappedPdo>; 8],
}

impl PdoMapping {
    /// Fills the table with the first eight items; further items are dropped.
    pub fn from(items: Vec<MappedPdo>) -> (r: Self)
        ensures
            fills(r.slots@, items@),
    {
        let mut slots: [Option<MappedPdo>; 8] = [None; 8];
        let mut i: usize = 0;
        while i < 8 && i < items.len()
            invariant
                i <= 8,
                i <= items@.len(),
                forall|j: int|
                    0 <= j < 8 ==> #[trigger] slots@[j] == (if j < i {
                        Some(items@[j])
                    } else {
                        None
                    }),
            decreases 8 - i,
        {
            slots[i] = Some(items[i]);
            i = i + 1;
        }
        PdoMapping { slots }
    }
}


/// The slots that the variables' values describe, in order.
fn unpack_all(vars: &Vec<Variable>) -> (r: Vec<MappedPdo>)
    ensures
        r@ == mapped_entries(views(vars@)),
{
    let ghost vs = views(vars@);
    let mut out: Vec<MappedPdo> = Vec::new();
    let mut i: usize = 0;
    while i < vars.len()
        invariant
            vs == views(vars@),
            i <= vars@.len(),
            out@ == mapped_entries(vs.subrange(0, i as int)),
        decreases vars@.len() - i,
    {
        let ghost pre = vs.subrange(0, i as int);
        let ghost next = vs.subrange(0, i + 1);
        assert(next.drop_last() =~= pre);
        assert(next.last() == vars@[i as int]@);
        if let Some(v) = vars[i].default_value.to_unsigned_int() {
            out.push(unpack_mapping(v));
        }
        i = i + 1;
    }
    assert(vs.subrange(0, vars@.len() as int) =~= vs);
    out
}

impl Eds {
    /// The member variables whose values describe the mapping at `cobid`: resolved as an
    /// array first, else as a record.
    pub open spec fn mapping_vars(&self, cobid: CobId) -> Option<Seq<VariableV>> {
        match (self.group_at(cobid), self.count_at(cobid)) {
            (Some(ObjectV::Array(_)), Some(n)) => Some(self.members(cobid.0, n)),
            (Some(_), Some(n)) => Some(
                last_by_name(self.members(cobid.0, n), self.members(cobid.0, n).len() as int),
            ),
            _ => None,
        }
    }

    /// Resolves the PDO mapping parameter at `cobid` into a mapping table.
    pub fn get_pdo_mapping(&self, cobid: CobId) -> (r: Option<PdoMapping>)
        ensures
            match self.mapping_vars(cobid) {
                Some(vars) => r matches Some(m) && fills(m.slots@, mapped_entries(vars)),
                None => r is None,
            },
    {
        let vars = match self.get_array(&cobid) {
            Some(array) => array.items,
            None => match self.get_record(&cobid) {
                Some(record) => record.items,
                None => {
                    return None;
                },
            },
        };
        Some(PdoMapping::from(unpack_all(&vars)))
    }

    /// Mapping of transmit PDO 1 (object 0x1A00).
    pub fn get_tpdo1_mapping(&self) -> (r: Option<PdoMapping>)
        ensures
            match self.mapping_vars(CobId(0x1A00, 0x00)) {
                Some(vars) => r matches Some(m) && fills(m.slots@, mapped_entries(vars)),
                None => r is None,
            },
    {
        self.get_pdo_mapping(CobId(0x1A00, 0x00))
    }

    /// Mapping of transmit PDO 2 (object 0x1A01).
    pub fn get_tpdo2_mapping(&self) -> (r: Option<PdoMapping>)
        ensures
            match self.mapping_vars(CobId(0x1A01, 0x00)) {
                Some(vars) => r matches Some(m) && fills(m.slots@, mapped_entries(vars)),
                None => r is None,
            },
    {
        self.get_pdo_mapping(CobId(0x1A01, 0x00))
    }

    /// Mapping of transmit PDO 3 (object 0x1A02).
    pub fn get_tpdo3_mapping(&self) -> (r: Option<PdoMapping>)
        ensures
            match self.mapping_vars(CobId(0x1A02, 0x00)) {
                Some(vars) => r matches Some(m) && fills(m.slots@, mapped_entries(vars)),
                None => r is None,
            },
    {
        self.get_pdo_mapping(CobId(0x1A02, 0x00))
    }

    /// Mapping of transmit PDO 4 (object 0x1A03).
    pub fn get_tpdo4_mapping(&self) -> (r: Option<PdoMapping>)
        ensures
            match self.mapping_vars(CobId(0x1A03, 0x00)) {
                Some(vars) => r matches Some(m) && fills(m.slots@, mapped_entries(vars)),
                None => r is None,
            },
    {
        self.get_pdo_mapping(CobId(0x1A03, 0x00))
    }
}


/// Little-endian value of two bytes.
pub open spec fn le16(b: Seq<u8>) -> int {
    b[0] + b[1] * 256
}

/// Little-endian value of four bytes.
pub open spec fn le32(b: Seq<u8>) -> int {
    b[0] + b[1] * 256 + b[2] * 65536 + b[3] * 16777216
}

/// The value that raw bytes hold for a data type: a fixed width type whose width is the
/// number of bytes, read little-endian; `None` for any other type or width.
pub open spec fn value_from_bytes(b: Seq<u8>, dt: DataType) -> Option<ValueV> {
    match dt {
        DataType::Bool => if b.len() == 1 {
            Some(ValueV::Bool(b[0] != 0))
        } else {
            None
        },
        DataType::U8 => if b.len() == 1 {
            Some(ValueV::U8(b[0]))
        } else {
            None
        },
        DataType::I8 => if b.len() == 1 {
            Some(ValueV::I8(b[0] as i8))
        } else {
            None
        },
        DataType::U16 => if b.len() == 2 {
            Some(ValueV::U16(le16(b) as u16))
        } else {
            None
        },
        DataType::I16 => if b.len() == 2 {
            Some(ValueV::I16(le16(b) as u16 as i16))
        } else {
            None
        },
        DataType::U32 => if b.len() == 4 {
            Some(ValueV::U32(le32(b) as u32))
        } else {
            None
        },
        DataType::I32 => if b.len() == 4 {
            Some(ValueV::I32(le32(b) as u32 as i32))
        } else {
            None
        },
        _ => None,
    }
}

/// Decodes raw bytes as a value of the given data type.
pub fn value_type_from_bytes(src: &[u8], data_type: DataType) -> (r: Option<ValueType>)
    ensures
        match value_from_bytes(src@, data_type) {
            Some(v) => r matches Some(x) && x@ == v,
            None => r is None,
        },
{
    let n = src.len();
    match data_type {
        DataType::Bool if n == 1 => Some(ValueType::Bool(src[0] != 0)),
        DataType::U8 if n == 1 => Some(ValueType::U8(src[0])),
        DataType::I8 if n == 1 => Some(ValueType::I8(src[0] as i8)),
        DataType::U16 if n == 2 => Some(ValueType::U16(src[0] as u16 + src[1] as u16 * 256)),
        DataType::I16 if n == 2 => Some(
            ValueType::I16((src[0] as u16 + src[1] as u16 * 256) as i16),
        ),
        DataType::U32 if n == 4 => Some(
            ValueType::U32(
                src[0] as u32 + src[1] as u32 * 256 + src[2] as u32 * 65536 + src[3] as u32
                    * 16777216,
            ),
        ),
        DataType::I32 if n == 4 => Some(
            ValueType::I32(
                (src[0] as u32 + src[1] as u32 * 256 + src[2] as u32 * 65536 + src[3] as u32
                    * 16777216) as i32,
            ),
        ),
        _ => None,
    }
}

/// The occupied slots of a decoder table, in order.
pub open spec fn occupied(slots: Seq<Option<(MappedPdo, DataType)>>) -> Seq<(MappedPdo, DataType)>
    decreases slots.len(),
{
    if slots.len() == 0 {
        Seq::empty()
    } else {
        match slots.last() {
            Some(e) => occupied(slots.drop_last()).push(e),
            None => occupied(slots.drop_last()),
        }
    }
}

/// The values that occupied slots read from `data`, starting at byte `offset`: each slot
/// takes as many bytes as its length; once a slot finds too few bytes left, it and all
/// later slots read nothing.
pub open spec fn decoded(
    entries: Seq<(MappedPdo, DataType)>,
    data: Seq<u8>,
    offset: int,
) -> Seq<Option<(CobId, ValueV)>>
    decreases entries.len(),
{
    if entries.len() == 0 {
        Seq::empty()
    } else {
        let m = entries[0].0;
        let end = offset + m.1;
        if end > data.len() {
            Seq::new(entries.len(), |i: int| None)
        } else {
            seq![
                match value_from_bytes(data.subrange(offset, end), entries[0].1) {
                    Some(v) => Some((m.0, v)),
                    None => None,
                },
            ] + decoded(entries.drop_first(), data, end)
        }
    }
}

pub open spec fn item_view(x: Option<(CobId, ValueType)>) -> Option<(CobId, ValueV)> {
    match x {
        Some(p) => Some((p.0, p.1@)),
        None => None,
    }
}

/// `out` holds what a decoder table reads from `data`: the values of the occupied slots
/// in table order, then `None`.
pub open spec fn decodes_to(
    mapping: Seq<Option<(MappedPdo, DataType)>>,
    data: Seq<u8>,
    out: Seq<Option<(CobId, ValueType)>>,
) -> bool {
    let d = decoded(occupied(mapping), data, 0);
    &&& out.len() == 8
    &&& forall|i: int|
        0 <= i < 8 ==> #[trigger] item_view(out[i]) == (if i < d.len() {
            d[i]
        } else {
            None
        })
}

/// Decodes the payloads of one PDO channel.
pub struct PdoDecoder {
    pub mapping: [Option<(MappedPdo, DataType)>; 8],
}

impl PdoDecoder {
    /// The values of the occupied slots, in table order, followed by `None`.
    pub fn decode(&self, data: &[u8]) -> (r: [Option<(CobId, ValueType)>; 8])
        ensures
            decodes_to(self.mapping@, data@, r@),
    {
        let mut entries: Vec<(MappedPdo, DataType)> = Vec::new();
        let mut i: usize = 0;
        while i < 8
            invariant
                i <= 8,
                entries@ == occupied(self.mapping@.subrange(0, i as int)),
                entries@.len() <= i,
            decreases 8 - i,
        {
            assert(self.mapping@.subrange(0, i + 1).drop_last() =~= self.mapping@.subrange(
                0,
                i as int,
            ));
            if let Some(e) = self.mapping[i] {
                entries.push(e);
            }
            i = i + 1;
        }
        assert(self.mapping@.subrange(0, 8) =~= self.mapping@);
        let ghost all = decoded(entries@, data@, 0);
        let mut values: [Option<(CobId, ValueType)>; 8] = [None, None, None, None, None, None, None, None];
        let mut offset: usize = 0;
        let mut k: usize = 0;
        proof {
            lemma_decoded_len(entries@, data@, 0);
            assert(entries@.subrange(0, entries@.len() as int) =~= entries@);
            assert(all.subrange(0, all.len() as int) =~= all);
        }
        while k < entries.len()
            invariant
                entries@.len() <= 8,
                k <= entries@.len(),
                offset <= data@.len(),
                all == decoded(entries@, data@, 0),
                all.len() == entries@.len(),
                decoded(entries@.subrange(k as int, entries@.len() as int), data@, offset as int)
                    == all.subrange(k as int, all.len() as int),
                forall|j: int| 0 <= j < k ==> #[trigger] item_view(values@[j]) == all[j],
                forall|j: int| k <= j < 8 ==> #[trigger] values@[j] is None,
            decreases entries@.len() - k,
        {
            let ghost rest = entries@.subrange(k as int, entries@.len() as int);
            let (m, data_type) = entries[k];
            let len = m.1 as usize;
            if len > data.len() - offset {
                proof {
                    assert(all.subrange(k as int, all.len() as int) =~= Seq::new(rest.len(), |i: int| None));
                    assert forall|j: int| k <= j < all.len() implies all[j] is None by {
                        assert(all.subrange(k as int, all.len() as int)[j - k] == all[j]);
                    }
                    assert(entries@.subrange(entries@.len() as int, entries@.len() as int) =~= Seq::empty());
                    assert(all.subrange(all.len() as int, all.len() as int) =~= Seq::empty());
                }
                k = entries.len();
            } else {
                let end = offset + len;
                let value = value_type_from_bytes(slice_subrange(data, offset, end), data_type);
                proof {
                    assert(rest.drop_first() =~= entries@.subrange(k + 1, entries@.len() as int));
                    assert(all.subrange(k as int, all.len() as int)[0] == all[k as int]);
                    assert(all.subrange(k + 1, all.len() as int) =~= all.subrange(k as int, all.len() as int).drop_first());
                }
                match value {
                    Some(v) => {
                        values[k] = Some((m.0, v));
                    },
                    None => {},
                }
                offset = end;
                k = k + 1;
            }
        }
        proof {
            lemma_decoded_len(entries@, data@, 0);
        }
        values
    }
}

/// `dec` pairs each occupied slot of `mapping` with the data type of its target, where
/// the dictionary has a variable there, and leaves the other slots empty.
pub open spec fn binds(eds: Eds, mapping: Seq<Option<MappedPdo>>, dec: Seq<Option<(MappedPdo, DataType)>>) -> bool {
    &&& dec.len() == 8
    &&& forall|i: int|
        0 <= i < 8 ==> #[trigger] dec[i] == match mapping[i] {
            Some(m) => match eds.variable_at(m.0) {
                Some(v) => Some((m, v.data_type)),
                None => None,
            },
            None => None,
        }
}

impl Eds {
    /// Binds each mapped slot to the data type of its target.
    pub fn get_pdo_decoder(&self, pdo_mapping: PdoMapping) -> (r: PdoDecoder)
        ensures
            binds(*self, pdo_mapping.slots@, r.mapping@),
    {
        let mut mapping: [Option<(MappedPdo, DataType)>; 8] = [None; 8];
        let mut i: usize = 0;
        while i < 8
            invariant
                i <= 8,
                forall|j: int|
                    0 <= j < 8 ==> #[trigger] mapping@[j] == if j < i {
                        match pdo_mapping.slots@[j] {
                            Some(m) => match self.variable_at(m.0) {
                                Some(v) => Some((m, v.data_type)),
                                None => None,
                            },
                            None => None,
                        }
                    } else {
                        None
                    },
            decreases 8 - i,
        {
            if let Some(mapped) = pdo_mapping.slots[i] {
                if let Some(var) = self.get_variable(&mapped.0) {
                    mapping[i] = Some((mapped, var.data_type));
                }
            }
            i = i + 1;
        }
        PdoDecoder { mapping }
    }

    /// Decoder of transmit PDO 1.
    pub fn get_tpdo1_decoder(&self) -> (r: Option<PdoDecoder>)
        ensures
            match self.mapping_vars(CobId(0x1A00, 0x00)) {
                Some(vars) => r matches Some(d) && binds(
                    *self,
                    slots_of(mapped_entries(vars)),
                    d.mapping@,
                ),
                None => r is None,
            },
    {
        match self.get_tpdo1_mapping() {
            Some(mapping) => {
                proof {
                    lemma_fills_slots(mapping.slots@, mapped_entries(self.mapping_vars(CobId(0x1A00, 0x00))->0));
                }
                Some(self.get_pdo_decoder(mapping))
            },
            None => None,
        }
    }

    /// Decoder of transmit PDO 2.
    pub fn get_tpdo2_decoder(&self) -> (r: Option<PdoDecoder>)
        ensures
            match self.mapping_vars(CobId(0x1A01, 0x00)) {
                Some(vars) => r matches Some(d) && binds(
                    *self,
                    slots_of(mapped_entries(vars)),
                    d.mapping@,
                ),
                None => r is None,
            },
    {
        match self.get_tpdo2_mapping() {
            Some(mapping) => {
                proof {
                    lemma_fills_slots(mapping.slots@, mapped_entries(self.mapping_vars(CobId(0x1A01, 0x00))->0));
                }
                Some(self.get_pdo_decoder(mapping))
            },
            None => None,
        }
    }

    /// Decoder of transmit PDO 3.
    pub fn get_tpdo3_decoder(&self) -> (r: Option<PdoDecoder>)
        ensures
            match self.mapping_vars(CobId(0x1A02, 0x00)) {
                Some(vars) => r matches Some(d) && binds(
                    *self,
                    slots_of(mapped_entries(vars)),
                    d.mapping@,
                ),
                None => r is None,
            },
    {
        match self.get_tpdo3_mapping() {
            Some(mapping) => {
                proof {
                    lemma_fills_slots(mapping.slots@, mapped_entries(self.mapping_vars(CobId(0x1A02, 0x00))->0));
                }
                Some(self.get_pdo_decoder(mapping))
            },
            None => None,
        }
    }

    /// Decoder of transmit PDO 4.
    pub fn get_tpdo4_decoder(&self) -> (r: Option<PdoDecoder>)
        ensures
            match self.mapping_vars(CobId(0x1A03, 0x00)) {
                Some(vars) => r matches Some(d) && binds(
                    *self,
                    slots_of(mapped_entries(vars)),
                    d.mapping@,
                ),
                None => r is None,
            },
    {
        match self.get_tpdo4_mapping() {
            Some(mapping) => {
                proof {
                    lemma_fills_slots(mapping.slots@, mapped_entries(self.mapping_vars(CobId(0x1A03, 0x00))->0));
                }
                Some(self.get_pdo_decoder(mapping))
            },
            None => None,
        }
    }
}

pub proof fn lemma_decoded_len(entries: Seq<(MappedPdo, DataType)>, data: Seq<u8>, offset: int)
    ensures
        decoded(entries, data, offset).len() == entries.len(),
    decreases entries.len(),
{
    if entries.len() > 0 {
        lemma_decoded_len(entries.drop_first(), data, offset + entries[0].0.1);
    }
}

} // verus!
