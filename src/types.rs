//! The value and type model shared by the object dictionary and the PDO decoder.

use vstd::prelude::*;

use crate::text::str_eq;

verus! {

/// Data types of dictionary entries.
#[derive(Debug, Clone, Copy, PartialEq, Eq, Structural)]
pub enum DataType {
    Bool,
    I8,
    I16,
    I32,
    U8,
    U16,
    U32,
    F32,
    VString,
    OString,
}

#[derive(Debug, Clone, Copy, PartialEq, Eq, Structural)]
pub enum DataTypeError {
    Invalid(u16),
}

/// The data type that an EDS type code names, if any.
pub open spec fn data_type_of(code: u16) -> Option<DataType> {
    if code == 0x0001 {
        Some(DataType::Bool)
    } else if code == 0x0002 {
        Some(DataType::I8)
    } else if code == 0x0003 {
        Some(DataType::I16)
    } else if code == 0x0004 {
        Some(DataType::I32)
    } else if code == 0x0005 {
        Some(DataType::U8)
    } else if code == 0x0006 {
        Some(DataType::U16)
    } else if code == 0x0007 {
        Some(DataType::U32)
    } else if code == 0x0008 {
        Some(DataType::F32)
    } else if code == 0x0009 {
        Some(DataType::VString)
    } else if code == 0x000A {
        Some(DataType::OString)
    } else {
        None
    }
}

impl TryFrom<u16> for DataType {
    type Error = DataTypeError;

    fn try_from(value: u16) -> (r: Result<DataType, DataTypeError>) {
        match value {
            0x0001 => Ok(DataType::Bool),
            0x0002 => Ok(DataType::I8),
            0x0003 => Ok(DataType::I16),
            0x0004 => Ok(DataType::I32),
            0x0005 => Ok(DataType::U8),
            0x0006 => Ok(DataType::U16),
            0x0007 => Ok(DataType::U32),
            0x0008 => Ok(DataType::F32),
            0x0009 => Ok(DataType::VString),
            0x000A => Ok(DataType::OString),
            _ => Err(DataTypeError::Invalid(value)),
        }
    }
}

impl vstd::std_specs::convert::TryFromSpecImpl<u16> for DataType {
    open spec fn obeys_try_from_spec() -> bool {
        true
    }

    open spec fn try_from_spec(v: u16) -> Result<DataType, DataTypeError> {
        match data_type_of(v) {
            Some(t) => Ok(t),
            None => Err(DataTypeError::Invalid(v)),
        }
    }
}

/// Access rights of a dictionary entry.
#[derive(Debug, Clone, Copy, PartialEq, Eq, Structural)]
pub enum AccessType {
    ReadOnly,
    WriteOnly,
    ReadWrite,
    Const,
    ReadWriteProcessOutput,
    ReadWriteProcessInput,
}

#[derive(Debug, Clone, PartialEq, Eq)]
pub enum AccessTypeError {
    Invalid(String),
}

/// The access type that an EDS access code names, if any.
pub open spec fn access_type_of(s: Seq<char>) -> Option<AccessType> {
    if s == "ro"@ {
        Some(AccessType::ReadOnly)
    } else if s == "wo"@ {
        Some(AccessType::WriteOnly)
    } else if s == "rw"@ {
        Some(AccessType::ReadWrite)
    } else if s == "const"@ {
        Some(AccessType::Const)
    } else if s == "rww"@ {
        Some(AccessType::ReadWriteProcessOutput)
    } else if s == "rwr"@ {
        Some(AccessType::ReadWriteProcessInput)
    } else {
        None
    }
}

impl AccessType {
    /// Reads an EDS access code; an unknown code is returned in the error.
    pub fn parse(value: &str) -> (r: Result<AccessType, AccessTypeError>)
        ensures
            match access_type_of(value@) {
                Some(t) => r == Ok::<AccessType, AccessTypeError>(t),
                None => r matches Err(AccessTypeError::Invalid(s)) && s@ == value@,
            },
    {
        if str_eq(value, "ro") {
            Ok(AccessType::ReadOnly)
        } else if str_eq(value, "wo") {
            Ok(AccessType::WriteOnly)
        } else if str_eq(value, "rw") {
            Ok(AccessType::ReadWrite)
        } else if str_eq(value, "const") {
            Ok(AccessType::Const)
        } else if str_eq(value, "rww") {
            Ok(AccessType::ReadWriteProcessOutput)
        } else if str_eq(value, "rwr") {
            Ok(AccessType::ReadWriteProcessInput)
        } else {
            Err(AccessTypeError::Invalid(value.to_owned()))
        }
    }
}

impl<'a> TryFrom<&'a str> for AccessType {
    type Error = AccessTypeError;

    fn try_from(value: &'a str) -> (r: Result<AccessType, AccessTypeError>)
        ensures
            match access_type_of(value@) {
                Some(t) => r == Ok::<AccessType, AccessTypeError>(t),
                None => r matches Err(AccessTypeError::Invalid(s)) && s@ == value@,
            },
    {
        AccessType::parse(value)
    }
}

// The error holds an owned copy of the text, which no spec expression can build, so the
// exact result is stated on `try_from` itself above rather than through `try_from_spec`.
impl<'a> vstd::std_specs::convert::TryFromSpecImpl<&'a str> for AccessType {
    open spec fn obeys_try_from_spec() -> bool {
        false
    }

    open spec fn try_from_spec(v: &'a str) -> Result<AccessType, AccessTypeError> {
        arbitrary()
    }
}


/// A concrete value of one of the data types.
///
/// `F32` holds the value's EDS text: this library does no floating point arithmetic.
#[derive(Debug, PartialEq, Eq)]
pub enum ValueType {
    Bool(bool),
    I8(i8),
    I16(i16),
    I32(i32),
    U8(u8),
    U16(u16),
    U32(u32),
    F32(String),
    VString(String),
    OString(String),
}

/// A value with its text as a character sequence.
pub enum ValueV {
    Bool(bool),
    I8(i8),
    I16(i16),
    I32(i32),
    U8(u8),
    U16(u16),
    U32(u32),
    F32(Seq<char>),
    VString(Seq<char>),
    OString(Seq<char>),
}

impl View for ValueType {
    type V = ValueV;

    open spec fn view(&self) -> ValueV {
        match *self {
            ValueType::Bool(v) => ValueV::Bool(v),
            ValueType::I8(v) => ValueV::I8(v),
            ValueType::I16(v) => ValueV::I16(v),
            ValueType::I32(v) => ValueV::I32(v),
            ValueType::U8(v) => ValueV::U8(v),
            ValueType::U16(v) => ValueV::U16(v),
            ValueType::U32(v) => ValueV::U32(v),
            ValueType::F32(v) => ValueV::F32(v@),
            ValueType::VString(v) => ValueV::VString(v@),
            ValueType::OString(v) => ValueV::OString(v@),
        }
    }
}

impl Clone for ValueType {
    fn clone(&self) -> (r: ValueType)
        ensures
            r == *self,
    {
        match self {
            ValueType::Bool(v) => ValueType::Bool(*v),
            ValueType::I8(v) => ValueType::I8(*v),
            ValueType::I16(v) => ValueType::I16(*v),
            ValueType::I32(v) => ValueType::I32(*v),
            ValueType::U8(v) => ValueType::U8(*v),
            ValueType::U16(v) => ValueType::U16(*v),
            ValueType::U32(v) => ValueType::U32(*v),
            ValueType::F32(v) => ValueType::F32(v.clone()),
            ValueType::VString(v) => ValueType::VString(v.clone()),
            ValueType::OString(v) => ValueType::OString(v.clone()),
        }
    }
}

/// The unsigned integer a value stands for: defined for `Bool`, `U8`, `U16` and `U32` only.
pub open spec fn unsigned_of(v: ValueV) -> Option<nat> {
    match v {
        ValueV::Bool(b) => Some(if b { 1nat } else { 0nat }),
        ValueV::U8(i) => Some(i as nat),
        ValueV::U16(i) => Some(i as nat),
        ValueV::U32(i) => Some(i as nat),
        _ => None,
    }
}

impl ValueType {
    pub fn to_unsigned_int(&self) -> (r: Option<usize>)
        ensures
            r is Some <==> unsigned_of(self@) is Some,
            r is Some ==> r->0 as nat == unsigned_of(self@)->0,
    {
        match *self {
            ValueType::Bool(b) => Some(if b { 1 } else { 0 }),
            ValueType::U8(i) => Some(i as usize),
            ValueType::U16(i) => Some(i as usize),
            ValueType::U32(i) => Some(i as usize),
            _ => None,
        }
    }
}

/// Kinds of dictionary objects.
#[derive(Debug, Clone, Copy, PartialEq, Eq, Structural)]
pub enum ObjectType {
    Variable,
    Array,
    Record,
}

#[derive(Debug, Clone, Copy, PartialEq, Eq, Structural)]
pub enum ObjectTypeError {
    Invalid(u8),
}

/// The object kind that an EDS object code names, if any.
pub open spec fn object_type_of(code: u8) -> Option<ObjectType> {
    if code == 0x07 {
        Some(ObjectType::Variable)
    } else if code == 0x08 {
        Some(ObjectType::Array)
    } else if code == 0x09 {
        Some(ObjectType::Record)
    } else {
        None
    }
}

impl TryFrom<u8> for ObjectType {
    type Error = ObjectTypeError;

    fn try_from(value: u8) -> (r: Result<ObjectType, ObjectTypeError>) {
        match value {
            0x07 => Ok(ObjectType::Variable),
            0x08 => Ok(ObjectType::Array),
            0x09 => Ok(ObjectType::Record),
            _ => Err(ObjectTypeError::Invalid(value)),
        }
    }
}

impl vstd::std_specs::convert::TryFromSpecImpl<u8> for ObjectType {
    open spec fn obeys_try_from_spec() -> bool {
        true
    }

    open spec fn try_from_spec(v: u8) -> Result<ObjectType, ObjectTypeError> {
        match object_type_of(v) {
            Some(t) => Ok(t),
            None => Err(ObjectTypeError::Invalid(v)),
        }
    }
}

/// Address of a dictionary entry: index and subindex.
#[derive(Debug, Clone, Copy, PartialEq, Eq, Hash, PartialOrd, Ord, Structural)]
pub struct CobId(pub u16, pub u8);

impl CobId {
    /// One integer per address: the index in the high bits, the subindex in the low byte.
    pub open spec fn spec_key(self) -> u32 {
        (self.0 as u32 * 256 + self.1 as u32) as u32
    }

    pub fn key(&self) -> (r: u32)
        ensures
            r == self.spec_key(),
    {
        self.0 as u32 * 256 + self.1 as u32
    }

    pub fn into_parts(self) -> (r: (u16, u8))
        ensures
            r == (self.0, self.1),
    {
        (self.0, self.1)
    }

    pub fn with_subindex(&self, subindex: u8) -> (r: CobId)
        ensures
            r == CobId(self.0, subindex),
    {
        CobId(self.0, subindex)
    }
}

} // verus!
