//! The object dictionary: variables addressed by `CobId`, and the arrays and records
//! that group them.

use vstd::prelude::*;

use crate::types::{AccessType, DataType, ValueType, ValueV};

verus! {

/// A leaf entry of the dictionary.
#[derive(Debug, PartialEq, Eq)]
pub struct Variable {
    /// Variable name
    pub parameter_name: String,
    /// Value data type
    pub data_type: DataType,
    /// Access type
    pub access_type: AccessType,
    /// Variable default value
    pub default_value: ValueType,
    /// Whether this variable can be PDO mapped
    pub pdo_mapping: bool,
}

/// A variable with its name as a character sequence.
pub struct VariableV {
    pub name: Seq<char>,
    pub data_type: DataType,
    pub access_type: AccessType,
    pub default_value: ValueV,
    pub pdo_mapping: bool,
}

impl View for Variable {
    type V = VariableV;

    open spec fn view(&self) -> VariableV {
        VariableV {
            name: self.parameter_name@,
            data_type: self.data_type,
            access_type: self.access_type,
            default_value: self.default_value@,
            pdo_mapping: self.pdo_mapping,
        }
    }
}

impl Clone for Variable {
    fn clone(&self) -> (r: Variable)
        ensures
            r == *self,
    {
        Variable {
            parameter_name: self.parameter_name.clone(),
            data_type: self.data_type,
            access_type: self.access_type,
            default_value: self.default_value.clone(),
            pdo_mapping: self.pdo_mapping,
        }
    }
}

/// Declared name and maximum member count of an array.
#[derive(Debug, PartialEq, Eq)]
pub struct ArrayInfo {
    /// Array name
    pub parameter_name: String,
    /// Number of elements in the array
    pub subnumber: u8,
}

/// Declared name and maximum member count of a record.
#[derive(Debug, PartialEq, Eq)]
pub struct RecordInfo {
    /// Record name
    pub parameter_name: String,
    /// Number of members in the record
    pub subnumber: u8,
}

/// Name and member count of a group, with the name as a character sequence.
pub struct InfoV {
    pub name: Seq<char>,
    pub subnumber: u8,
}

impl View for ArrayInfo {
    type V = InfoV;

    open spec fn view(&self) -> InfoV {
        InfoV { name: self.parameter_name@, subnumber: self.subnumber }
    }
}

impl View for RecordInfo {
    type V = InfoV;

    open spec fn view(&self) -> InfoV {
        InfoV { name: self.parameter_name@, subnumber: self.subnumber }
    }
}

impl Clone for ArrayInfo {
    fn clone(&self) -> (r: ArrayInfo)
        ensures
            r == *self,
    {
        ArrayInfo { parameter_name: self.parameter_name.clone(), subnumber: self.subnumber }
    }
}

impl Clone for RecordInfo {
    fn clone(&self) -> (r: RecordInfo)
        ensures
            r == *self,
    {
        RecordInfo { parameter_name: self.parameter_name.clone(), subnumber: self.subnumber }
    }
}

/// An entry of the dictionary.
#[derive(Debug)]
pub enum Object {
    Variable(Variable),
    Array(ArrayInfo),
    Record(RecordInfo),
}

pub enum ObjectV {
    Variable(VariableV),
    Array(InfoV),
    Record(InfoV),
}

impl View for Object {
    type V = ObjectV;

    open spec fn view(&self) -> ObjectV {
        match *self {
            Object::Variable(v) => ObjectV::Variable(v@),
            Object::Array(a) => ObjectV::Array(a@),
            Object::Record(r) => ObjectV::Record(r@),
        }
    }
}

impl Clone for Object {
    fn clone(&self) -> (r: Object)
        ensures
            r == *self,
    {
        match self {
            Object::Variable(v) => Object::Variable(v.clone()),
            Object::Array(a) => Object::Array(a.clone()),
            Object::Record(r) => Object::Record(r.clone()),
        }
    }
}

#[derive(Debug, Clone, Copy, PartialEq, Eq, Structural)]
pub enum ObjectError {
    FailedToConvert,
}

impl Object {
    pub fn into_variable(self) -> (r: Result<Variable, ObjectError>)
        ensures
            match self {
                Object::Variable(v) => r == Ok::<Variable, ObjectError>(v),
                _ => r == Err::<Variable, ObjectError>(ObjectError::FailedToConvert),
            },
    {
        if let Object::Variable(var) = self {
            Ok(var)
        } else {
            Err(ObjectError::FailedToConvert)
        }
    }

    pub fn into_array(self) -> (r: Result<ArrayInfo, ObjectError>)
        ensures
            match self {
                Object::Array(a) => r == Ok::<ArrayInfo, ObjectError>(a),
                _ => r == Err::<ArrayInfo, ObjectError>(ObjectError::FailedToConvert),
            },
    {
        if let Object::Array(arr) = self {
            Ok(arr)
        } else {
            Err(ObjectError::FailedToConvert)
        }
    }

    pub fn into_record(self) -> (r: Result<RecordInfo, ObjectError>)
        ensures
            match self {
                Object::Record(a) => r == Ok::<RecordInfo, ObjectError>(a),
                _ => r == Err::<RecordInfo, ObjectError>(ObjectError::FailedToConvert),
            },
    {
        if let Object::Record(rec) = self {
            Ok(rec)
        } else {
            Err(ObjectError::FailedToConvert)
        }
    }

    pub fn is_variable(&self) -> (r: bool)
        ensures
            r == (*self is Variable),
    {
        matches!(*self, Object::Variable(_))
    }

    pub fn is_array(&self) -> (r: bool)
        ensures
            r == (*self is Array),
    {
        matches!(*self, Object::Array(_))
    }

    pub fn is_record(&self) -> (r: bool)
        ensures
            r == (*self is Record),
    {
        matches!(*self, Object::Record(_))
    }

    pub fn is_metadata(&self) -> (r: bool)
        ensures
            r == (*self is Array || *self is Record),
    {
        self.is_array() || self.is_record()
    }
}

} // verus!
