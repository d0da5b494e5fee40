//! The dictionary store: objects and group descriptors keyed by address, and the
//! lookups that resolve arrays and records into their member variables.

use vstd::prelude::*;
use std::collections::HashMap;

use core::num::ParseIntError;

use crate::dictionary::{ArrayInfo, InfoV, Object, ObjectV, RecordInfo, Variable, VariableV};
use crate::number::{
    digit_value, eds_number, eds_string_to_i16, eds_string_to_i32, eds_string_to_i8,
    eds_string_to_u16, eds_string_to_u32, eds_string_to_u8, hex_digit,
};
use crate::sections::{Section, load_sections, ini_sections, prop_get, prop_of, props_view, section_view};
use crate::text::str_eq;
use crate::types::{
    AccessType, AccessTypeError, CobId, DataType, DataTypeError, ObjectType, ObjectTypeError,
    ValueType, ValueV, access_type_of, data_type_of, object_type_of, unsigned_of,
};

verus! {

broadcast use vstd::std_specs::hash::group_hash_axioms;

/// A dictionary entry whose type fields could not be read.
#[derive(Debug)]
pub enum InvalidObjectError {
    InvalidDataType(DataTypeError),
    InvalidAccessType(AccessTypeError),
    InvalidObjectType(ObjectTypeError),
}

/// Errors of loading a dictionary.
#[derive(Debug)]
pub enum EdsError {
    /// The text could not be read; holds the reader's message
    FileError(String),
    /// The text is no valid INI
    ConfigError(ini::ParseError),
    InvalidObject(InvalidObjectError),
    ParseIntError(ParseIntError),
    /// A section lacks the named property
    IncorrectProperties(String),
    /// A section lacks the named value
    MissingProperty(String),
    /// The section name is no address
    InvalidCobIdSection(String),
}

/// Why loading a text fails.
pub enum LoadFault {
    /// The INI reader rejects the text
    Syntax,
    /// An `ObjectType` or `SubNumber` value is no number that fits in a byte
    BadNumber,
    /// An `ObjectType` code names no object kind
    BadObjectType(u8),
    /// A section name is no address
    BadSection(Seq<char>),
    /// An array or record section has no `ParameterName`
    MissingName,
    /// An array or record section has no `SubNumber`
    MissingSubNumber,
    /// A named section has no `ObjectType`
    MissingObjectType,
}

/// `e` is the error that reports `f`.
pub open spec fn reports(e: EdsError, f: LoadFault) -> bool {
    match f {
        LoadFault::Syntax => e is ConfigError,
        LoadFault::BadNumber => e is ParseIntError,
        LoadFault::BadObjectType(c) => e matches EdsError::InvalidObject(
            InvalidObjectError::InvalidObjectType(ObjectTypeError::Invalid(d)),
        ) && d == c,
        LoadFault::BadSection(n) => e matches EdsError::InvalidCobIdSection(t) && t@ == n,
        LoadFault::MissingName => e matches EdsError::IncorrectProperties(t) && t@
            == "ParameterName"@,
        LoadFault::MissingSubNumber => e matches EdsError::MissingProperty(t) && t@
            == "SubNumber"@,
        LoadFault::MissingObjectType => e matches EdsError::MissingProperty(t) && t@
            == "ObjectType"@,
    }
}

/// Value of four hexadecimal digits.
pub open spec fn hex4(s: Seq<char>) -> int {
    digit_value(s[0], 16)->0 * 4096 + digit_value(s[1], 16)->0 * 256 + digit_value(s[2], 16)->0
        * 16 + digit_value(s[3], 16)->0
}

/// The address a section name gives: four hexadecimal digits for the index, optionally
/// followed by `sub` and one hexadecimal digit for the subindex (0 when absent).
pub open spec fn section_cobid(s: Seq<char>) -> Option<CobId> {
    if (s.len() == 4 || s.len() == 8) && (forall|i: int|
        0 <= i < 4 ==> #[trigger] digit_value(s[i], 16) is Some) {
        if s.len() == 4 {
            Some(CobId(hex4(s) as u16, 0))
        } else if s[4] == 's' && s[5] == 'u' && s[6] == 'b' && digit_value(s[7], 16) is Some {
            Some(CobId(hex4(s) as u16, digit_value(s[7], 16)->0 as u8))
        } else {
            None
        }
    } else {
        None
    }
}

/// Reads the address out of a section name.
pub fn eds_section_to_cobid(section: &str) -> (r: Result<CobId, EdsError>)
    ensures
        match section_cobid(section@) {
            Some(c) => r matches Ok(d) && d == c,
            None => r matches Err(EdsError::InvalidCobIdSection(t)) && t@ == section@,
        },
{
    broadcast use vstd::string::is_ascii_spec_bytes;

    if !section.is_ascii() {
        proof {
            if section_cobid(section@) is Some {
                assert(vstd::utf8::is_ascii_chars(section@)) by {
                    assert forall|i: int| 0 <= i < section@.len() implies '\0' <= #[trigger] section@[i] <= '\u{7f}' by {
                        if i < 4 {
                            assert(digit_value(section@[i], 16) is Some);
                        } else if i == 7 {
                            assert(digit_value(section@[7], 16) is Some);
                        }
                    }
                }
            }
        }
        return Err(EdsError::InvalidCobIdSection(section.to_owned()));
    }
    let b = section.as_bytes();
    assert(b@.len() == section@.len());
    assert forall|i: int| 0 <= i < b@.len() implies #[trigger] b@[i] as int == section@[i] as int by {
        assert(b@[i] == section@[i] as u8);
    }
    if b.len() != 4 && b.len() != 8 {
        return Err(EdsError::InvalidCobIdSection(section.to_owned()));
    }
    let d0 = hex_digit(b[0]);
    let d1 = hex_digit(b[1]);
    let d2 = hex_digit(b[2]);
    let d3 = hex_digit(b[3]);
    match (d0, d1, d2, d3) {
        (Some(d0), Some(d1), Some(d2), Some(d3)) => {
            let index: u16 = d0 as u16 * 4096 + d1 as u16 * 256 + d2 as u16 * 16 + d3 as u16;
            assert(forall|i: int| 0 <= i < 4 ==> #[trigger] digit_value(section@[i], 16) is Some);
            if b.len() == 4 {
                return Ok(CobId(index, 0));
            }
            if b[4] == 0x73 && b[5] == 0x75 && b[6] == 0x62 {
                if let Some(sub) = hex_digit(b[7]) {
                    return Ok(CobId(index, sub));
                }
            }
            Err(EdsError::InvalidCobIdSection(section.to_owned()))
        },
        _ => {
            proof {
                if d0 is None {
                    assert(digit_value(section@[0], 16) is None);
                } else if d1 is None {
                    assert(digit_value(section@[1], 16) is None);
                } else if d2 is None {
                    assert(digit_value(section@[2], 16) is None);
                } else {
                    assert(digit_value(section@[3], 16) is None);
                }
            }
            Err(EdsError::InvalidCobIdSection(section.to_owned()))
        },
    }
}

/// An unsigned byte written as an EDS literal.
pub open spec fn u8_of(text: Seq<char>) -> Option<u8> {
    match eds_number(text, false) {
        Some(v) => if v <= u8::MAX {
            Some(v as u8)
        } else {
            None
        },
        None => None,
    }
}

/// The value that `text` gives for data type `dt`: integers are read as EDS literals and
/// must fit the type; a `Bool` is true when its byte value is not zero; text types, and
/// `F32`, keep the text.
pub open spec fn value_of(text: Seq<char>, dt: DataType) -> Option<ValueV> {
    match dt {
        DataType::Bool => match u8_of(text) {
            Some(v) => Some(ValueV::Bool(v != 0)),
            None => None,
        },
        DataType::U8 => match u8_of(text) {
            Some(v) => Some(ValueV::U8(v)),
            None => None,
        },
        DataType::U16 => match eds_number(text, false) {
            Some(v) => if v <= u16::MAX {
                Some(ValueV::U16(v as u16))
            } else {
                None
            },
            None => None,
        },
        DataType::U32 => match eds_number(text, false) {
            Some(v) => if v <= u32::MAX {
                Some(ValueV::U32(v as u32))
            } else {
                None
            },
            None => None,
        },
        DataType::I8 => match eds_number(text, true) {
            Some(v) => if i8::MIN <= v <= i8::MAX {
                Some(ValueV::I8(v as i8))
            } else {
                None
            },
            None => None,
        },
        DataType::I16 => match eds_number(text, true) {
            Some(v) => if i16::MIN <= v <= i16::MAX {
                Some(ValueV::I16(v as i16))
            } else {
                None
            },
            None => None,
        },
        DataType::I32 => match eds_number(text, true) {
            Some(v) => if i32::MIN <= v <= i32::MAX {
                Some(ValueV::I32(v as i32))
            } else {
                None
            },
            None => None,
        },
        DataType::F32 => Some(ValueV::F32(text)),
        DataType::VString => Some(ValueV::VString(text)),
        DataType::OString => Some(ValueV::OString(text)),
    }
}

/// Reads a default value of the given data type.
pub fn parse_value_type(source: &str, data_type: DataType) -> (r: Result<ValueType, EdsError>)
    ensures
        match value_of(source@, data_type) {
            Some(v) => r matches Ok(x) && x@ == v,
            None => r matches Err(e) && e is ParseIntError,
        },
{
    match data_type {
        DataType::Bool => match eds_string_to_u8(source) {
            Ok(v) => Ok(ValueType::Bool(v != 0)),
            Err(e) => Err(EdsError::ParseIntError(e)),
        },
        DataType::U8 => match eds_string_to_u8(source) {
            Ok(v) => Ok(ValueType::U8(v)),
            Err(e) => Err(EdsError::ParseIntError(e)),
        },
        DataType::U16 => match eds_string_to_u16(source) {
            Ok(v) => Ok(ValueType::U16(v)),
            Err(e) => Err(EdsError::ParseIntError(e)),
        },
        DataType::U32 => match eds_string_to_u32(source) {
            Ok(v) => Ok(ValueType::U32(v)),
            Err(e) => Err(EdsError::ParseIntError(e)),
        },
        DataType::I8 => match eds_string_to_i8(source) {
            Ok(v) => Ok(ValueType::I8(v)),
            Err(e) => Err(EdsError::ParseIntError(e)),
        },
        DataType::I16 => match eds_string_to_i16(source) {
            Ok(v) => Ok(ValueType::I16(v)),
            Err(e) => Err(EdsError::ParseIntError(e)),
        },
        DataType::I32 => match eds_string_to_i32(source) {
            Ok(v) => Ok(ValueType::I32(v)),
            Err(e) => Err(EdsError::ParseIntError(e)),
        },
        DataType::F32 => Ok(ValueType::F32(source.to_owned())),
        DataType::VString => Ok(ValueType::VString(source.to_owned())),
        DataType::OString => Ok(ValueType::OString(source.to_owned())),
    }
}

/// The variable that a section's properties describe, if all five of its fields read
/// well: `ParameterName`, `AccessType`, `DataType`, `DefaultValue` and `PDOMapping`.
pub open spec fn variable_of(p: Seq<(Seq<char>, Seq<char>)>) -> Option<VariableV> {
    match (
        prop_of(p, "ParameterName"@),
        prop_of(p, "AccessType"@),
        prop_of(p, "DataType"@),
        prop_of(p, "DefaultValue"@),
        prop_of(p, "PDOMapping"@),
    ) {
        (Some(name), Some(access), Some(dt), Some(default), Some(pdo)) => {
            match (access_type_of(access), eds_number(dt, false), u8_of(pdo)) {
                (Some(a), Some(code), Some(m)) => if code <= u16::MAX && data_type_of(
                    code as u16,
                ) is Some {
                    let t = data_type_of(code as u16)->0;
                    match value_of(default, t) {
                        Some(v) => Some(
                            VariableV {
                                name,
                                data_type: t,
                                access_type: a,
                                default_value: v,
                                pdo_mapping: m != 0,
                            },
                        ),
                        None => None,
                    }
                } else {
                    None
                },
                _ => None,
            }
        },
        _ => None,
    }
}

fn variable_from_props(props: &Vec<(String, String)>) -> (r: Option<Variable>)
    ensures
        match variable_of(props_view(props@)) {
            Some(v) => r matches Some(x) && x@ == v,
            None => r is None,
        },
{
    let name = prop_get(props, "ParameterName")?;
    let access = prop_get(props, "AccessType")?;
    let dt = prop_get(props, "DataType")?;
    let default = prop_get(props, "DefaultValue")?;
    let pdo = prop_get(props, "PDOMapping")?;
    let access_type = match AccessType::parse(access.as_str()) {
        Ok(a) => a,
        Err(_) => {
            return None;
        },
    };
    let code = match eds_string_to_u16(dt.as_str()) {
        Ok(c) => c,
        Err(_) => {
            proof {
                if eds_number(dt@, false) is Some {
                    assert(eds_number(dt@, false)->0 > u16::MAX);
                }
            }
            return None;
        },
    };
    let data_type = match DataType::try_from(code) {
        Ok(t) => t,
        Err(_) => {
            return None;
        },
    };
    let default_value = match parse_value_type(default.as_str(), data_type) {
        Ok(v) => v,
        Err(_) => {
            return None;
        },
    };
    let pdo_mapping = match eds_string_to_u8(pdo.as_str()) {
        Ok(m) => m != 0,
        Err(_) => {
            return None;
        },
    };
    Some(
        Variable {
            parameter_name: name.clone(),
            data_type,
            access_type,
            default_value,
            pdo_mapping,
        },
    )
}

/// The name and member count that an array or record section declares.
pub open spec fn info_of(p: Seq<(Seq<char>, Seq<char>)>) -> Result<InfoV, LoadFault> {
    match prop_of(p, "ParameterName"@) {
        None => Err(LoadFault::MissingName),
        Some(name) => match prop_of(p, "SubNumber"@) {
            None => Err(LoadFault::MissingSubNumber),
            Some(n) => match u8_of(n) {
                Some(v) => Ok(InfoV { name, subnumber: v }),
                None => Err(LoadFault::BadNumber),
            },
        },
    }
}

fn info_from_props(props: &Vec<(String, String)>) -> (r: Result<(String, u8), EdsError>)
    ensures
        match info_of(props_view(props@)) {
            Ok(i) => r matches Ok(x) && x.0@ == i.name && x.1 == i.subnumber,
            Err(f) => r matches Err(e) && reports(e, f),
        },
{
    let name = match prop_get(props, "ParameterName") {
        Some(n) => n.clone(),
        None => {
            return Err(EdsError::IncorrectProperties(String::from_str("ParameterName")));
        },
    };
    let subnumber = match prop_get(props, "SubNumber") {
        Some(s) => match eds_string_to_u8(s.as_str()) {
            Ok(v) => v,
            Err(e) => {
                return Err(EdsError::ParseIntError(e));
            },
        },
        None => {
            return Err(EdsError::MissingProperty(String::from_str("SubNumber")));
        },
    };
    Ok((name, subnumber))
}

fn array_from_props(props: &Vec<(String, String)>) -> (r: Result<ArrayInfo, EdsError>)
    ensures
        match info_of(props_view(props@)) {
            Ok(i) => r matches Ok(x) && x@ == i,
            Err(f) => r matches Err(e) && reports(e, f),
        },
{
    let (parameter_name, subnumber) = info_from_props(props)?;
    Ok(ArrayInfo { parameter_name, subnumber })
}

fn record_from_props(props: &Vec<(String, String)>) -> (r: Result<RecordInfo, EdsError>)
    ensures
        match info_of(props_view(props@)) {
            Ok(i) => r matches Ok(x) && x@ == i,
            Err(f) => r matches Err(e) && reports(e, f),
        },
{
    let (parameter_name, subnumber) = info_from_props(props)?;
    Ok(RecordInfo { parameter_name, subnumber })
}

/// Objects and group descriptors, keyed by `CobId::key`.
pub type Tables = (Map<u32, ObjectV>, Map<u32, ObjectV>);

/// The tables after one more section is read. The unnamed section (keys before the first
/// header) is ignored; a named section without an `ObjectType` fails the whole load, as
/// do a bad object code, section name or group section; a variable section that does
/// not read well is skipped.
pub open spec fn load_section(
    st: Tables,
    sec: (Option<Seq<char>>, Seq<(Seq<char>, Seq<char>)>),
) -> Result<Tables, LoadFault> {
    match (sec.0, prop_of(sec.1, "ObjectType"@)) {
        (None, _) => Ok(st),
        (Some(_), None) => Err(LoadFault::MissingObjectType),
        (Some(name), Some(ot)) => match u8_of(ot) {
            None => Err(LoadFault::BadNumber),
            Some(code) => match object_type_of(code) {
                None => Err(LoadFault::BadObjectType(code)),
                Some(kind) => match section_cobid(name) {
                    None => Err(LoadFault::BadSection(name)),
                    Some(c) => match kind {
                        ObjectType::Variable => match variable_of(sec.1) {
                            Some(v) => Ok((st.0.insert(c.spec_key(), ObjectV::Variable(v)), st.1)),
                            None => Ok(st),
                        },
                        ObjectType::Array => match info_of(sec.1) {
                            Ok(i) => Ok((st.0, st.1.insert(c.spec_key(), ObjectV::Array(i)))),
                            Err(f) => Err(f),
                        },
                        ObjectType::Record => match info_of(sec.1) {
                            Ok(i) => Ok((st.0, st.1.insert(c.spec_key(), ObjectV::Record(i)))),
                            Err(f) => Err(f),
                        },
                    },
                },
            },
        },
    }
}

/// The tables that the first `n` sections give.
pub open spec fn load_prefix(
    secs: Seq<(Option<Seq<char>>, Seq<(Seq<char>, Seq<char>)>)>,
    n: int,
) -> Result<Tables, LoadFault>
    decreases n,
{
    if n <= 0 {
        Ok((Map::empty(), Map::empty()))
    } else {
        match load_prefix(secs, n - 1) {
            Ok(st) => load_section(st, secs[n - 1]),
            Err(f) => Err(f),
        }
    }
}

/// The tables that an EDS text gives.
pub open spec fn load_text(text: Seq<char>) -> Result<Tables, LoadFault> {
    match ini_sections(text) {
        None => Err(LoadFault::Syntax),
        Some(secs) => load_prefix(secs, secs.len() as int),
    }
}

/// Once a load has failed, reading further sections keeps the failure.
pub proof fn lemma_failure_stays(
    secs: Seq<(Option<Seq<char>>, Seq<(Seq<char>, Seq<char>)>)>,
    j: int,
    k: int,
)
    requires
        0 <= j <= k,
        load_prefix(secs, j) is Err,
    ensures
        load_prefix(secs, k) == load_prefix(secs, j),
    decreases k - j,
{
    if k > j {
        lemma_failure_stays(secs, j, k - 1);
    }
}

/// The members of an array, in subindex order.
#[derive(Debug)]
pub struct Array {
    pub items: Vec<Variable>,
    pub max_len: usize,
}

/// The members of a record, one per parameter name, in subindex order. They are held in
/// a vector with distinct names, since vstd's `HashMap` model covers integer keys and not
/// `String` ones.
#[derive(Debug)]
pub struct Record {
    pub items: Vec<Variable>,
    pub num_items: usize,
}

/// The views of a sequence of variables.
pub open spec fn views(s: Seq<Variable>) -> Seq<VariableV> {
    s.map_values(|v: Variable| v@)
}

/// Member `i` of `s` has a namesake further on.
pub open spec fn shadowed(s: Seq<VariableV>, i: int) -> bool {
    exists|j: int| i < j < s.len() && #[trigger] s[j].name == s[i].name
}

/// Of the first `n` members of `s`, those that no later member of the same name replaces.
pub open spec fn last_by_name(s: Seq<VariableV>, n: int) -> Seq<VariableV>
    decreases n,
{
    if n <= 0 {
        Seq::empty()
    } else if shadowed(s, n - 1) {
        last_by_name(s, n - 1)
    } else {
        last_by_name(s, n - 1).push(s[n - 1])
    }
}

impl Record {
    /// The member with the given parameter name.
    pub fn get(&self, name: &str) -> (r: Option<&Variable>)
        ensures
            r is Some <==> exists|i: int|
                0 <= i < self.items@.len() && #[trigger] self.items@[i].parameter_name@ == name@,
            r matches Some(v) ==> v.parameter_name@ == name@ && self.items@.contains(*v),
    {
        let mut i: usize = 0;
        while i < self.items.len()
            invariant
                i <= self.items@.len(),
                forall|j: int| 0 <= j < i ==> #[trigger] self.items@[j].parameter_name@ != name@,
            decreases self.items@.len() - i,
        {
            if str_eq(self.items[i].parameter_name.as_str(), name) {
                return Some(&self.items[i]);
            }
            i = i + 1;
        }
        None
    }
}

/// An object dictionary built from EDS text.
pub struct Eds {
    /// Variables, keyed by `CobId::key`
    pub(crate) objects: HashMap<u32, Object>,
    /// Arrays and records, keyed by `CobId::key`
    pub(crate) metadata: HashMap<u32, Object>,
}

impl Eds {
    pub closed spec fn objects_view(&self) -> Map<u32, ObjectV> {
        self.objects@.map_values(|o: Object| o@)
    }

    pub closed spec fn metadata_view(&self) -> Map<u32, ObjectV> {
        self.metadata@.map_values(|o: Object| o@)
    }

    /// The variable at `c`, if there is one.
    pub open spec fn variable_at(&self, c: CobId) -> Option<VariableV> {
        if self.objects_view().contains_key(c.spec_key()) && self.objects_view()[c.spec_key()] is Variable {
            Some(self.objects_view()[c.spec_key()]->Variable_0)
        } else {
            None
        }
    }

    /// The live member count of the group at `c`: the unsigned value of its subindex 0.
    pub open spec fn count_at(&self, c: CobId) -> Option<nat> {
        match self.variable_at(CobId(c.0, 0)) {
            Some(v) => unsigned_of(v.default_value),
            None => None,
        }
    }

    /// The variables present at subindices 1 to `n` of `index` (255 at most), in order.
    pub open spec fn members(&self, index: u16, n: nat) -> Seq<VariableV>
        decreases n,
    {
        if n == 0 {
            Seq::empty()
        } else if n > 255 {
            self.members(index, 255)
        } else {
            match self.variable_at(CobId(index, n as u8)) {
                Some(v) => self.members(index, (n - 1) as nat).push(v),
                None => self.members(index, (n - 1) as nat),
            }
        }
    }

    /// The group descriptor at `c`, if there is one.
    pub open spec fn group_at(&self, c: CobId) -> Option<ObjectV> {
        if self.metadata_view().contains_key(c.spec_key()) {
            Some(self.metadata_view()[c.spec_key()])
        } else {
            None
        }
    }

    pub fn get_variable(&self, cobid: &CobId) -> (r: Option<Variable>)
        ensures
            match self.variable_at(*cobid) {
                Some(v) => r is Some && r->0@ == v,
                None => r is None,
            },
    {
        match self.objects.get(&cobid.key()) {
            Some(Object::Variable(v)) => Some(v.clone()),
            _ => None,
        }
    }

    /// The variables at subindices 1 to `num` of `cobid`'s index, those that exist.
    fn collect_members(&self, cobid: &CobId, num: usize) -> (r: Vec<Variable>)
        ensures
            views(r@) == self.members(cobid.0, num as nat),
    {
        let limit: usize = if num > 255 {
            255
        } else {
            num
        };
        proof {
            if num > 255 {
                assert(self.members(cobid.0, num as nat) == self.members(cobid.0, 255));
            }
        }
        let mut items: Vec<Variable> = Vec::new();
        let mut i: usize = 1;
        while i <= limit
            invariant
                limit <= 255,
                1 <= i <= limit + 1,
                views(items@) == self.members(cobid.0, (i - 1) as nat),
            decreases limit + 1 - i,
        {
            let var = self.get_variable(&cobid.with_subindex(i as u8));
            proof {
                assert(self.members(cobid.0, i as nat) == match self.variable_at(CobId(cobid.0, i as u8)) {
                    Some(v) => self.members(cobid.0, (i - 1) as nat).push(v),
                    None => self.members(cobid.0, (i - 1) as nat),
                });
            }
            match var {
                Some(v) => {
                    items.push(v);
                    assert(views(items@) =~= self.members(cobid.0, (i - 1) as nat).push(
                        self.variable_at(CobId(cobid.0, i as u8))->0,
                    ));
                },
                None => {},
            }
            i = i + 1;
        }
        items
    }

    /// The member count read from subindex 0 of `cobid`'s index.
    fn member_count(&self, cobid: &CobId) -> (r: Option<usize>)
        ensures
            r is Some <==> self.count_at(*cobid) is Some,
            r is Some ==> r->0 as nat == self.count_at(*cobid)->0,
    {
        match self.get_variable(&cobid.with_subindex(0)) {
            Some(var) => var.default_value.to_unsigned_int(),
            None => None,
        }
    }

    /// Resolves the array at `cobid` into its members, in subindex order.
    pub fn get_array(&self, cobid: &CobId) -> (r: Option<Array>)
        ensures
            r is Some <==> (self.group_at(*cobid) matches Some(ObjectV::Array(_))
                && self.count_at(*cobid) is Some),
            r matches Some(a) ==> {
                &&& views(a.items@) == self.members(cobid.0, self.count_at(*cobid)->0)
                &&& a.max_len == self.group_at(*cobid)->0->Array_0.subnumber
            },
    {
        if let Some(Object::Array(array_info)) = self.metadata.get(&cobid.key()) {
            match self.member_count(cobid) {
                Some(num) => {
                    let items = self.collect_members(cobid, num);
                    Some(Array { items, max_len: array_info.subnumber as usize })
                },
                None => None,
            }
        } else {
            None
        }
    }

    /// Resolves the group at `cobid` into its members keyed by name: of members sharing
    /// a name, the one at the highest subindex stays.
    pub fn get_record(&self, cobid: &CobId) -> (r: Option<Record>)
        ensures
            r is Some <==> (self.group_at(*cobid) is Some && self.count_at(*cobid) is Some),
            r matches Some(rec) ==> {
                let m = self.members(cobid.0, self.count_at(*cobid)->0);
                &&& views(rec.items@) == last_by_name(m, m.len() as int)
                &&& rec.num_items as nat == self.count_at(*cobid)->0
            },
    {
        if self.metadata.get(&cobid.key()).is_none() {
            return None;
        }
        let num = match self.member_count(cobid) {
            Some(num) => num,
            None => {
                return None;
            },
        };
        let members = self.collect_members(cobid, num);
        let ghost m = views(members@);
        let mut items: Vec<Variable> = Vec::new();
        let mut i: usize = 0;
        while i < members.len()
            invariant
                m == views(members@),
                i <= members@.len(),
                views(items@) == last_by_name(m, i as int),
            decreases members@.len() - i,
        {
            let mut later = false;
            let mut j: usize = i + 1;
            while j < members.len()
                invariant
                    m == views(members@),
                    i < j <= members@.len(),
                    later == exists|k: int| i < k < j && #[trigger] m[k].name == m[i as int].name,
                decreases members@.len() - j,
            {
                assert(m[j as int].name == members@[j as int].parameter_name@);
                assert(m[i as int].name == members@[i as int].parameter_name@);
                if str_eq(members[j].parameter_name.as_str(), members[i].parameter_name.as_str()) {
                    later = true;
                }
                assert(later == exists|k: int| i < k < j + 1 && #[trigger] m[k].name == m[i as int].name) by {
                    if m[j as int].name == m[i as int].name {
                        assert(i < j as int && m[j as int].name == m[i as int].name);
                    }
                }
                j = j + 1;
            }
            if !later {
                items.push(members[i].clone());
                assert(views(items@) =~= last_by_name(m, i as int).push(m[i as int]));
            }
            i = i + 1;
        }
        Some(Record { items, num_items: num })
    }

    /// Loads a dictionary from EDS text.
    pub fn from_str(s: &str) -> (r: Result<Eds, EdsError>)
        ensures
            match load_text(s@) {
                Ok(t) => r matches Ok(eds) && eds.objects_view() == t.0 && eds.metadata_view() == t.1,
                Err(f) => r matches Err(e) && reports(e, f),
            },
    {
        match load_sections(s) {
            Ok(sections) => Eds::from_sections(&sections),
            Err(e) => Err(EdsError::ConfigError(e)),
        }
    }

    /// Builds a dictionary from the sections of an EDS text, in order.
    pub fn from_sections(sections: &Vec<Section>) -> (r: Result<Eds, EdsError>)
        ensures
            match load_prefix(
                sections@.map_values(|x: Section| section_view(x)),
                sections@.len() as int,
            ) {
                Ok(t) => r matches Ok(eds) && eds.objects_view() == t.0 && eds.metadata_view() == t.1,
                Err(f) => r matches Err(e) && reports(e, f),
            },
    {
        let ghost secs = sections@.map_values(|x: Section| section_view(x));
        let mut objects: HashMap<u32, Object> = HashMap::new();
        let mut metadata: HashMap<u32, Object> = HashMap::new();
        let mut i: usize = 0;
        assert(objects@.map_values(|o: Object| o@) =~= Map::empty());
        assert(metadata@.map_values(|o: Object| o@) =~= Map::empty());
        while i < sections.len()
            invariant
                secs == sections@.map_values(|x: Section| section_view(x)),
                i <= sections@.len(),
                load_prefix(secs, i as int) == Ok::<Tables, LoadFault>(
                    (objects@.map_values(|o: Object| o@), metadata@.map_values(|o: Object| o@)),
                ),
            decreases sections@.len() - i,
        {
            let sec = &sections[i];
            let ghost sv = secs[i as int];
            let ghost st: Tables = (
                objects@.map_values(|o: Object| o@),
                metadata@.map_values(|o: Object| o@),
            );
            assert(sv == section_view(*sec));
            assert(load_prefix(secs, i + 1) == load_section(st, sv));
            if let Some(name) = &sec.name {
                let failed: Option<EdsError> = match prop_get(&sec.props, "ObjectType") {
                    None => Some(EdsError::MissingProperty(String::from_str("ObjectType"))),
                    Some(object_type_str) => match eds_string_to_u8(object_type_str.as_str()) {
                        Err(e) => Some(EdsError::ParseIntError(e)),
                        Ok(value) => match ObjectType::try_from(value) {
                            Err(e) => Some(EdsError::InvalidObject(InvalidObjectError::InvalidObjectType(e))),
                            Ok(object_type) => match eds_section_to_cobid(name.as_str()) {
                                Err(e) => Some(e),
                                Ok(cobid) => match object_type {
                                    ObjectType::Variable => {
                                        if let Some(var) = variable_from_props(&sec.props) {
                                            let ghost v = var@;
                                            objects.insert(cobid.key(), Object::Variable(var));
                                            assert(objects@.map_values(|o: Object| o@) =~= st.0.insert(
                                                cobid.spec_key(),
                                                ObjectV::Variable(v),
                                            ));
                                        }
                                        None
                                    },
                                    ObjectType::Array => match array_from_props(&sec.props) {
                                        Ok(info) => {
                                            let ghost v = info@;
                                            metadata.insert(cobid.key(), Object::Array(info));
                                            assert(metadata@.map_values(|o: Object| o@) =~= st.1.insert(
                                                cobid.spec_key(),
                                                ObjectV::Array(v),
                                            ));
                                            None
                                        },
                                        Err(e) => Some(e),
                                    },
                                    ObjectType::Record => match record_from_props(&sec.props) {
                                        Ok(info) => {
                                            let ghost v = info@;
                                            metadata.insert(cobid.key(), Object::Record(info));
                                            assert(metadata@.map_values(|o: Object| o@) =~= st.1.insert(
                                                cobid.spec_key(),
                                                ObjectV::Record(v),
                                            ));
                                            None
                                        },
                                        Err(e) => Some(e),
                                    },
                                },
                            },
                        },
                    },
                };
                if let Some(e) = failed {
                    proof {
                        lemma_failure_stays(secs, i + 1, secs.len() as int);
                    }
                    return Err(e);
                }
            }
            i = i + 1;
        }
        let eds = Eds { objects, metadata };
        assert(eds.objects_view() == objects@.map_values(|o: Object| o@));
        assert(eds.metadata_view() == metadata@.map_values(|o: Object| o@));
        Ok(eds)
    }

    /// All objects that are variables, keyed by `CobId::key`.
    pub fn objects(&self) -> (r: &HashMap<u32, Object>)
        ensures
            r@.map_values(|o: Object| o@) == self.objects_view(),
    {
        &self.objects
    }

    /// All array and record descriptors, keyed by `CobId::key`.
    pub fn metadata(&self) -> (r: &HashMap<u32, Object>)
        ensures
            r@.map_values(|o: Object| o@) == self.metadata_view(),
    {
        &self.metadata
    }
}

} // verus!
