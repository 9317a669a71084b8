//! Property types, their modifiers, and the 32-bit word that carries both.

use crate::text::push_char;
use vstd::prelude::*;
use vstd::string::*;

verus! {

/// The largest wire code of a base type.
pub const MAX_DEVPROP_TYPE: u32 = 25;

/// The smallest wire code of a base type.
pub const MIN_DEVPROP_TYPE: u32 = 0;

/// The modifier bits of an array of fixed-size values.
pub const DEVPROP_TYPEMOD_ARRAY: u32 = 0x1000;

/// The modifier bits of a list of NUL-terminated strings.
pub const DEVPROP_TYPEMOD_LIST: u32 = 0x2000;

/// The bits of a type word that hold the base type.
pub const BASE_TYPE_MASK: u32 = 0x1f;

/// The bits of a type word that hold the modifier.
pub const MODIFIER_MASK: u32 = 0xffff_ffe0;

/// Why a type word was not accepted.
#[derive(Clone, Copy, Debug, PartialEq, Eq, Hash, Structural)]
pub enum DecodeError {
    /// The word names no base type.
    InvalidType,
    /// The modifier bits are none of the three known patterns, or the base
    /// bits name no base type.
    InvalidTypeMod,
}

/// The base types of device properties, in the order of their wire codes.
#[derive(Clone, Copy, Debug, PartialEq, Eq, PartialOrd, Ord, Hash, Structural)]
pub enum PropertyType {
    /// The property does not exist.
    Empty,
    /// The property exists and has no value.
    Null,
    /// A signed 8-bit integer.
    SByte,
    /// An unsigned 8-bit integer.
    Byte,
    /// A signed 16-bit integer.
    Int16,
    /// An unsigned 16-bit integer.
    UInt16,
    /// A signed 32-bit integer.
    Int32,
    /// An unsigned 32-bit integer.
    UInt32,
    /// A signed 64-bit integer.
    Int64,
    /// An unsigned 64-bit integer.
    UInt64,
    /// A single-precision floating-point number.
    Float,
    /// A double-precision floating-point number.
    Double,
    /// A fixed-point decimal number.
    Decimal,
    /// A globally unique identifier.
    Guid,
    /// A fixed-point currency amount.
    Currency,
    /// A number of days since December 31, 1899, as a double.
    Date,
    /// A count of 100-nanosecond ticks since January 1, 1601.
    FileTime,
    /// A truth value in one byte.
    Boolean,
    /// A NUL-terminated string of UTF-16 code units.
    String,
    /// A security descriptor.
    SecurityDescriptor,
    /// A NUL-terminated string that holds a security descriptor in its
    /// definition language.
    SecurityDescriptorString,
    /// A property key.
    PropertyKey,
    /// A property type word.
    PropertyType,
    /// A Win32 error code.
    Error,
    /// An NTSTATUS code.
    NtStatus,
    /// A NUL-terminated string that refers to a resource.
    StringIndirect,
}

impl DeepView for PropertyType {
    type V = PropertyType;

    open spec fn deep_view(&self) -> PropertyType {
        *self
    }
}

impl DeepView for PropertyTypeMod {
    type V = PropertyTypeMod;

    open spec fn deep_view(&self) -> PropertyTypeMod {
        *self
    }
}

impl PropertyType {
    /// The wire code of this type.
    pub open spec fn code(self) -> u32 {
        match self {
            PropertyType::Empty => 0,
            PropertyType::Null => 1,
            PropertyType::SByte => 2,
            PropertyType::Byte => 3,
            PropertyType::Int16 => 4,
            PropertyType::UInt16 => 5,
            PropertyType::Int32 => 6,
            PropertyType::UInt32 => 7,
            PropertyType::Int64 => 8,
            PropertyType::UInt64 => 9,
            PropertyType::Float => 10,
            PropertyType::Double => 11,
            PropertyType::Decimal => 12,
            PropertyType::Guid => 13,
            PropertyType::Currency => 14,
            PropertyType::Date => 15,
            PropertyType::FileTime => 16,
            PropertyType::Boolean => 17,
            PropertyType::String => 18,
            PropertyType::SecurityDescriptor => 19,
            PropertyType::SecurityDescriptorString => 20,
            PropertyType::PropertyKey => 21,
            PropertyType::PropertyType => 22,
            PropertyType::Error => 23,
            PropertyType::NtStatus => 24,
            PropertyType::StringIndirect => 25,
        }
    }

    /// The type with the wire code `code`, if there is one.
    pub open spec fn of_code(code: u32) -> Option<PropertyType> {
        if code == 0 {
            Some(PropertyType::Empty)
        } else if code == 1 {
            Some(PropertyType::Null)
        } else if code == 2 {
            Some(PropertyType::SByte)
        } else if code == 3 {
            Some(PropertyType::Byte)
        } else if code == 4 {
            Some(PropertyType::Int16)
        } else if code == 5 {
            Some(PropertyType::UInt16)
        } else if code == 6 {
            Some(PropertyType::Int32)
        } else if code == 7 {
            Some(PropertyType::UInt32)
        } else if code == 8 {
            Some(PropertyType::Int64)
        } else if code == 9 {
            Some(PropertyType::UInt64)
        } else if code == 10 {
            Some(PropertyType::Float)
        } else if code == 11 {
            Some(PropertyType::Double)
        } else if code == 12 {
            Some(PropertyType::Decimal)
        } else if code == 13 {
            Some(PropertyType::Guid)
        } else if code == 14 {
            Some(PropertyType::Currency)
        } else if code == 15 {
            Some(PropertyType::Date)
        } else if code == 16 {
            Some(PropertyType::FileTime)
        } else if code == 17 {
            Some(PropertyType::Boolean)
        } else if code == 18 {
            Some(PropertyType::String)
        } else if code == 19 {
            Some(PropertyType::SecurityDescriptor)
        } else if code == 20 {
            Some(PropertyType::SecurityDescriptorString)
        } else if code == 21 {
            Some(PropertyType::PropertyKey)
        } else if code == 22 {
            Some(PropertyType::PropertyType)
        } else if code == 23 {
            Some(PropertyType::Error)
        } else if code == 24 {
            Some(PropertyType::NtStatus)
        } else if code == 25 {
            Some(PropertyType::StringIndirect)
        } else {
            None
        }
    }

    /// The name of this type, as the operating system's headers spell it.
    pub open spec fn spec_name(self) -> Seq<char> {
        match self {
            PropertyType::Boolean => "DEVPROP_TYPE_BOOLEAN"@,
            PropertyType::Byte => "DEVPROP_TYPE_BYTE"@,
            PropertyType::Currency => "DEVPROP_TYPE_CURRENCY"@,
            PropertyType::Date => "DEVPROP_TYPE_DATE"@,
            PropertyType::Decimal => "DEVPROP_TYPE_DECIMAL"@,
            PropertyType::PropertyKey => "DEVPROP_TYPE_DEVPROPKEY"@,
            PropertyType::PropertyType => "DEVPROP_TYPE_DEVPROPTYPE"@,
            PropertyType::Double => "DEVPROP_TYPE_DOUBLE"@,
            PropertyType::Empty => "DEVPROP_TYPE_EMPTY"@,
            PropertyType::Error => "DEVPROP_TYPE_ERROR"@,
            PropertyType::FileTime => "DEVPROP_TYPE_FILETIME"@,
            PropertyType::Float => "DEVPROP_TYPE_FLOAT"@,
            PropertyType::Guid => "DEVPROP_TYPE_GUID"@,
            PropertyType::Int16 => "DEVPROP_TYPE_INT16"@,
            PropertyType::Int32 => "DEVPROP_TYPE_INT32"@,
            PropertyType::Int64 => "DEVPROP_TYPE_INT64"@,
            PropertyType::NtStatus => "DEVPROP_TYPE_NTSTATUS"@,
            PropertyType::Null => "DEVPROP_TYPE_NULL"@,
            PropertyType::SByte => "DEVPROP_TYPE_SBYTE"@,
            PropertyType::SecurityDescriptor => "DEVPROP_TYPE_SECURITY_DESCRIPTOR"@,
            PropertyType::SecurityDescriptorString => "DEVPROP_TYPE_SECURITY_DESCRIPTOR_STRING"@,
            PropertyType::String => "DEVPROP_TYPE_STRING"@,
            PropertyType::StringIndirect => "DEVPROP_TYPE_STRING_INDIRECT"@,
            PropertyType::UInt16 => "DEVPROP_TYPE_UINT16"@,
            PropertyType::UInt32 => "DEVPROP_TYPE_UINT32"@,
            PropertyType::UInt64 => "DEVPROP_TYPE_UINT64"@,
        }
    }

    /// Whether values of this type are NUL-terminated strings.
    pub open spec fn spec_is_string(self) -> bool {
        self == PropertyType::String || self == PropertyType::StringIndirect || self
            == PropertyType::SecurityDescriptorString
    }

    /// Whether values of this type are integers: the sized integers, the two
    /// fixed-point types, and the truth value.
    pub open spec fn spec_is_int(self) -> bool {
        self == PropertyType::Byte || self == PropertyType::SByte || self == PropertyType::Int16
            || self == PropertyType::UInt16 || self == PropertyType::Int32 || self
            == PropertyType::UInt32 || self == PropertyType::Int64 || self == PropertyType::UInt64
            || self == PropertyType::Decimal || self == PropertyType::Currency || self
            == PropertyType::Boolean
    }

    /// Whether values of this type are floating-point numbers: the two
    /// precisions and the date.
    pub open spec fn spec_is_float(self) -> bool {
        self == PropertyType::Float || self == PropertyType::Double || self == PropertyType::Date
    }

    /// The number of bytes that a value of this type takes, where every value
    /// takes the same number.
    ///
    /// Strings vary in length, the two empty types hold nothing, and the size
    /// of a security descriptor follows the pointer width of the machine that
    /// wrote it: these have no size here.
    pub open spec fn spec_static_size(self) -> Option<usize> {
        match self {
            PropertyType::Boolean | PropertyType::Byte | PropertyType::SByte => Some(1),
            PropertyType::Int16 | PropertyType::UInt16 => Some(2),
            PropertyType::Int32 | PropertyType::UInt32 | PropertyType::Float => Some(4),
            PropertyType::Int64
            | PropertyType::UInt64
            | PropertyType::FileTime
            | PropertyType::Decimal
            | PropertyType::Currency
            | PropertyType::Double
            | PropertyType::Date => Some(8),
            PropertyType::PropertyKey => Some(20),
            PropertyType::PropertyType | PropertyType::Error | PropertyType::NtStatus => Some(4),
            PropertyType::Guid => Some(16),
            PropertyType::Empty
            | PropertyType::Null
            | PropertyType::String
            | PropertyType::StringIndirect
            | PropertyType::SecurityDescriptorString
            | PropertyType::SecurityDescriptor => None,
        }
    }

    /// Whether values of this type are NUL-terminated strings.
    pub fn is_string(&self) -> (r: bool)
        ensures
            r == self.spec_is_string(),
    {
        match self {
            PropertyType::String
            | PropertyType::StringIndirect
            | PropertyType::SecurityDescriptorString => true,
            _ => false,
        }
    }

    /// Whether values of this type are integers, so that they can be widened
    /// to `i128`.
    pub fn is_int(&self) -> (r: bool)
        ensures
            r == self.spec_is_int(),
    {
        match self {
            PropertyType::Byte
            | PropertyType::SByte
            | PropertyType::Int16
            | PropertyType::UInt16
            | PropertyType::Int32
            | PropertyType::UInt32
            | PropertyType::Int64
            | PropertyType::UInt64
            | PropertyType::Decimal
            | PropertyType::Currency
            | PropertyType::Boolean => true,
            _ => false,
        }
    }

    /// Whether values of this type are floating-point numbers.
    pub fn is_float(&self) -> (r: bool)
        ensures
            r == self.spec_is_float(),
    {
        match self {
            PropertyType::Float | PropertyType::Double | PropertyType::Date => true,
            _ => false,
        }
    }

    /// The number of bytes of a value of this type, for the types whose
    /// values all have the same size.
    pub fn static_size(&self) -> (r: Option<usize>)
        ensures
            r == self.spec_static_size(),
            r matches Some(n) ==> 1 <= n <= 20,
    {
        match self {
            PropertyType::Boolean | PropertyType::Byte | PropertyType::SByte => Some(1),
            PropertyType::Int16 | PropertyType::UInt16 => Some(2),
            PropertyType::Int32 | PropertyType::UInt32 | PropertyType::Float => Some(4),
            PropertyType::Int64
            | PropertyType::UInt64
            | PropertyType::FileTime
            | PropertyType::Decimal
            | PropertyType::Currency
            | PropertyType::Double
            | PropertyType::Date => Some(8),
            PropertyType::PropertyKey => Some(20),
            PropertyType::PropertyType | PropertyType::Error | PropertyType::NtStatus => Some(4),
            PropertyType::Guid => Some(16),
            _ => None,
        }
    }

    /// The name of this type, as the operating system's headers spell it.
    pub fn name(&self) -> (r: &'static str)
        ensures
            r@ == self.spec_name(),
    {
        match self {
            PropertyType::Boolean => "DEVPROP_TYPE_BOOLEAN",
            PropertyType::Byte => "DEVPROP_TYPE_BYTE",
            PropertyType::Currency => "DEVPROP_TYPE_CURRENCY",
            PropertyType::Date => "DEVPROP_TYPE_DATE",
            PropertyType::Decimal => "DEVPROP_TYPE_DECIMAL",
            PropertyType::PropertyKey => "DEVPROP_TYPE_DEVPROPKEY",
            PropertyType::PropertyType => "DEVPROP_TYPE_DEVPROPTYPE",
            PropertyType::Double => "DEVPROP_TYPE_DOUBLE",
            PropertyType::Empty => "DEVPROP_TYPE_EMPTY",
            PropertyType::Error => "DEVPROP_TYPE_ERROR",
            PropertyType::FileTime => "DEVPROP_TYPE_FILETIME",
            PropertyType::Float => "DEVPROP_TYPE_FLOAT",
            PropertyType::Guid => "DEVPROP_TYPE_GUID",
            PropertyType::Int16 => "DEVPROP_TYPE_INT16",
            PropertyType::Int32 => "DEVPROP_TYPE_INT32",
            PropertyType::Int64 => "DEVPROP_TYPE_INT64",
            PropertyType::NtStatus => "DEVPROP_TYPE_NTSTATUS",
            PropertyType::Null => "DEVPROP_TYPE_NULL",
            PropertyType::SByte => "DEVPROP_TYPE_SBYTE",
            PropertyType::SecurityDescriptor => "DEVPROP_TYPE_SECURITY_DESCRIPTOR",
            PropertyType::SecurityDescriptorString => "DEVPROP_TYPE_SECURITY_DESCRIPTOR_STRING",
            PropertyType::String => "DEVPROP_TYPE_STRING",
            PropertyType::StringIndirect => "DEVPROP_TYPE_STRING_INDIRECT",
            PropertyType::UInt16 => "DEVPROP_TYPE_UINT16",
            PropertyType::UInt32 => "DEVPROP_TYPE_UINT32",
            PropertyType::UInt64 => "DEVPROP_TYPE_UINT64",
        }
    }

    /// The name of this type, as a string of its own.
    pub fn to_string(&self) -> (r: String)
        ensures
            r@ == self.spec_name(),
    {
        String::from_str(self.name())
    }

    /// This type as a single value.
    pub fn as_plain(self) -> (r: PropertyTypeMod)
        ensures
            r == PropertyTypeMod::Plain(self),
    {
        PropertyTypeMod::Plain(self)
    }

    /// This type as an array, if its values have a fixed size.
    pub fn as_array(self) -> (r: Option<PropertyTypeMod>)
        ensures
            r == if self.spec_static_size() is Some {
                Some(PropertyTypeMod::Array(self))
            } else {
                None
            },
            r matches Some(m) ==> m.spec_is_valid(),
    {
        match self.static_size() {
            Some(_) => Some(PropertyTypeMod::Array(self)),
            None => None,
        }
    }

    /// This type as a list, if its values are strings.
    pub fn as_list(self) -> (r: Option<PropertyTypeMod>)
        ensures
            r == if self.spec_is_string() {
                Some(PropertyTypeMod::List(self))
            } else {
                None
            },
            r matches Some(m) ==> m.spec_is_valid(),
    {
        if self.is_string() {
            Some(PropertyTypeMod::List(self))
        } else {
            None
        }
    }

    /// The type with the wire code `ty`, or `InvalidType` where the code is
    /// above the largest one.
    pub fn try_from_win32(ty: u32) -> (r: Result<PropertyType, DecodeError>)
        ensures
            r == match PropertyType::of_code(ty) {
                Some(t) => Ok::<PropertyType, DecodeError>(t),
                None => Err(DecodeError::InvalidType),
            },
    {
        match PropertyType::from_win32(ty) {
            Some(t) => Ok(t),
            None => Err(DecodeError::InvalidType),
        }
    }

    /// The type with the wire code `ty`; `None` for every code above the
    /// largest one.
    pub fn from_win32(ty: u32) -> (r: Option<PropertyType>)
        ensures
            r == PropertyType::of_code(ty),
            r is None <==> ty > MAX_DEVPROP_TYPE,
            r matches Some(t) ==> t.code() == ty,
    {
        match ty {
            0 => Some(PropertyType::Empty),
            1 => Some(PropertyType::Null),
            2 => Some(PropertyType::SByte),
            3 => Some(PropertyType::Byte),
            4 => Some(PropertyType::Int16),
            5 => Some(PropertyType::UInt16),
            6 => Some(PropertyType::Int32),
            7 => Some(PropertyType::UInt32),
            8 => Some(PropertyType::Int64),
            9 => Some(PropertyType::UInt64),
            10 => Some(PropertyType::Float),
            11 => Some(PropertyType::Double),
            12 => Some(PropertyType::Decimal),
            13 => Some(PropertyType::Guid),
            14 => Some(PropertyType::Currency),
            15 => Some(PropertyType::Date),
            16 => Some(PropertyType::FileTime),
            17 => Some(PropertyType::Boolean),
            18 => Some(PropertyType::String),
            19 => Some(PropertyType::SecurityDescriptor),
            20 => Some(PropertyType::SecurityDescriptorString),
            21 => Some(PropertyType::PropertyKey),
            22 => Some(PropertyType::PropertyType),
            23 => Some(PropertyType::Error),
            24 => Some(PropertyType::NtStatus),
            25 => Some(PropertyType::StringIndirect),
            _ => None,
        }
    }

    /// The wire code of this type.
    pub fn win32_devprop_type(&self) -> (r: u32)
        ensures
            r == self.code(),
            r <= MAX_DEVPROP_TYPE,
    {
        match self {
            PropertyType::Empty => 0,
            PropertyType::Null => 1,
            PropertyType::SByte => 2,
            PropertyType::Byte => 3,
            PropertyType::Int16 => 4,
            PropertyType::UInt16 => 5,
            PropertyType::Int32 => 6,
            PropertyType::UInt32 => 7,
            PropertyType::Int64 => 8,
            PropertyType::UInt64 => 9,
            PropertyType::Float => 10,
            PropertyType::Double => 11,
            PropertyType::Decimal => 12,
            PropertyType::Guid => 13,
            PropertyType::Currency => 14,
            PropertyType::Date => 15,
            PropertyType::FileTime => 16,
            PropertyType::Boolean => 17,
            PropertyType::String => 18,
            PropertyType::SecurityDescriptor => 19,
            PropertyType::SecurityDescriptorString => 20,
            PropertyType::PropertyKey => 21,
            PropertyType::PropertyType => 22,
            PropertyType::Error => 23,
            PropertyType::NtStatus => 24,
            PropertyType::StringIndirect => 25,
        }
    }
}

/// A base type together with the shape in which its values appear.
#[derive(Clone, Copy, Debug, PartialEq, Eq, PartialOrd, Ord, Hash, Structural)]
pub enum PropertyTypeMod {
    /// A single value.
    Plain(PropertyType),
    /// Values of a fixed size, one after the other.
    Array(PropertyType),
    /// NUL-terminated strings, one after the other, ended by an empty
    /// string.
    List(PropertyType),
}

impl PropertyTypeMod {
    /// The base type.
    pub open spec fn spec_base_type(self) -> PropertyType {
        match self {
            PropertyTypeMod::Plain(ty) => ty,
            PropertyTypeMod::Array(ty) => ty,
            PropertyTypeMod::List(ty) => ty,
        }
    }

    /// The modifier bits of this shape.
    pub open spec fn mod_bits(self) -> u32 {
        match self {
            PropertyTypeMod::Plain(_) => 0,
            PropertyTypeMod::Array(_) => DEVPROP_TYPEMOD_ARRAY,
            PropertyTypeMod::List(_) => DEVPROP_TYPEMOD_LIST,
        }
    }

    /// The type word: the code of the base type in the low five bits, the
    /// modifier bits above them.
    pub open spec fn word(self) -> u32 {
        (self.spec_base_type().code() + self.mod_bits()) as u32
    }

    /// The shape and base type that the type word `ty` holds, if it holds
    /// any: its low five bits must be the code of a base type, and the rest
    /// one of the three modifier patterns.
    pub open spec fn of_word(ty: u32) -> Option<PropertyTypeMod> {
        let rest = ty - ty % 32;
        match PropertyType::of_code(ty % 32) {
            Some(base) => if rest == 0 {
                Some(PropertyTypeMod::Plain(base))
            } else if rest == DEVPROP_TYPEMOD_ARRAY {
                Some(PropertyTypeMod::Array(base))
            } else if rest == DEVPROP_TYPEMOD_LIST {
                Some(PropertyTypeMod::List(base))
            } else {
                None
            },
            None => None,
        }
    }

    /// The name of this shape and base type: the name of the base type, in
    /// square brackets where it is an array or a list.
    pub open spec fn spec_name(self) -> Seq<char> {
        match self {
            PropertyTypeMod::Plain(ty) => ty.spec_name(),
            PropertyTypeMod::Array(ty) | PropertyTypeMod::List(ty) => seq!['['] + ty.spec_name()
                + seq![']'],
        }
    }

    /// Whether this is an array or a list.
    pub open spec fn spec_is_sequence(self) -> bool {
        self is Array || self is List
    }

    /// Whether the shape fits the base type: an array needs values of a
    /// fixed size, a list needs strings.
    pub open spec fn spec_is_valid(self) -> bool {
        match self {
            PropertyTypeMod::Plain(_) => true,
            PropertyTypeMod::Array(ty) => ty.spec_static_size() is Some,
            PropertyTypeMod::List(ty) => ty.spec_is_string(),
        }
    }

    /// The base type, without the modifier.
    pub fn base_type(&self) -> (r: PropertyType)
        ensures
            r == self.spec_base_type(),
    {
        match *self {
            PropertyTypeMod::Plain(ty) => ty,
            PropertyTypeMod::Array(ty) => ty,
            PropertyTypeMod::List(ty) => ty,
        }
    }

    /// Whether this is an array or a list.
    pub fn is_sequence(&self) -> (r: bool)
        ensures
            r == self.spec_is_sequence(),
    {
        match self {
            PropertyTypeMod::Array(_) | PropertyTypeMod::List(_) => true,
            PropertyTypeMod::Plain(_) => false,
        }
    }

    /// Whether the shape fits the base type.
    pub fn is_valid(&self) -> (r: bool)
        ensures
            r == self.spec_is_valid(),
    {
        match self {
            PropertyTypeMod::Plain(_) => true,
            PropertyTypeMod::Array(ty) => ty.static_size().is_some(),
            PropertyTypeMod::List(ty) => ty.is_string(),
        }
    }

    /// The name of this shape and base type.
    pub fn to_string(&self) -> (r: String)
        ensures
            r@ == self.spec_name(),
    {
        match self {
            PropertyTypeMod::Plain(ty) => ty.to_string(),
            PropertyTypeMod::Array(ty) | PropertyTypeMod::List(ty) => {
                let mut s = String::new();
                push_char(&mut s, '[');
                s.append(ty.name());
                push_char(&mut s, ']');
                assert(s@ =~= self.spec_name());
                s
            },
        }
    }

    /// The type word of this shape and base type.
    pub fn win32_devprop_type(&self) -> (r: u32)
        ensures
            r == self.word(),
            PropertyTypeMod::of_word(r) == Some(*self),
    {
        let base: u32 = self.base_type().win32_devprop_type();
        let bits: u32 = match self {
            PropertyTypeMod::Plain(_) => 0,
            PropertyTypeMod::Array(_) => DEVPROP_TYPEMOD_ARRAY,
            PropertyTypeMod::List(_) => DEVPROP_TYPEMOD_LIST,
        };
        proof {
            assert(base <= 25 && (bits == 0 || bits == 0x1000 || bits == 0x2000) ==> base | bits
                == base + bits) by (bit_vector);
            lemma_type_mod_round_trip(*self);
        }
        base | bits
    }

    /// The shape and base type that the type word `ty` holds, or
    /// `InvalidTypeMod` where it holds none.
    pub fn try_from_win32(ty: u32) -> (r: Result<PropertyTypeMod, DecodeError>)
        ensures
            r == match PropertyTypeMod::of_word(ty) {
                Some(m) => Ok::<PropertyTypeMod, DecodeError>(m),
                None => Err(DecodeError::InvalidTypeMod),
            },
    {
        match PropertyTypeMod::from_win32(ty) {
            Some(m) => Ok(m),
            None => Err(DecodeError::InvalidTypeMod),
        }
    }

    /// The shape and base type that the type word `ty` holds, if it holds
    /// any.
    pub fn from_win32(ty: u32) -> (r: Option<PropertyTypeMod>)
        ensures
            r == PropertyTypeMod::of_word(ty),
            r matches Some(m) ==> m.word() == ty,
    {
        proof {
            lemma_word_of_word(ty);
        }
        let (bits, base) = match PropertyTypeMod::parse_win32(ty) {
            Some(v) => v,
            None => {
                return None;
            },
        };
        match PropertyType::from_win32(base as u32) {
            Some(base) => if bits == DEVPROP_TYPEMOD_LIST {
                Some(PropertyTypeMod::List(base))
            } else if bits == DEVPROP_TYPEMOD_ARRAY {
                Some(PropertyTypeMod::Array(base))
            } else {
                Some(PropertyTypeMod::Plain(base))
            },
            None => None,
        }
    }

    /// Splits a type word into its modifier bits and its base bits, where
    /// the modifier bits are one of the three known patterns.
    pub fn parse_win32(ty: u32) -> (r: Option<(u32, u8)>)
        ensures
            r == if ty - ty % 32 == 0 || ty - ty % 32 == DEVPROP_TYPEMOD_ARRAY || ty - ty % 32
                == DEVPROP_TYPEMOD_LIST {
                Some(((ty - ty % 32) as u32, (ty % 32) as u8))
            } else {
                None
            },
    {
        let base: u32 = ty & BASE_TYPE_MASK;
        let bits: u32 = ty & MODIFIER_MASK;
        proof {
            assert(ty & 0x1f == ty % 32) by (bit_vector);
            assert(ty & 0xffff_ffe0 == ty - ty % 32) by (bit_vector);
        }
        if bits == DEVPROP_TYPEMOD_LIST || bits == DEVPROP_TYPEMOD_ARRAY || bits == 0 {
            Some((bits, base as u8))
        } else {
            None
        }
    }
}

impl From<PropertyType> for PropertyTypeMod {
    /// The base type as a single value.
    fn from(ty: PropertyType) -> (r: PropertyTypeMod) {
        ty.as_plain()
    }
}

impl vstd::std_specs::convert::FromSpecImpl<PropertyType> for PropertyTypeMod {
    open spec fn obeys_from_spec() -> bool {
        true
    }

    open spec fn from_spec(ty: PropertyType) -> PropertyTypeMod {
        PropertyTypeMod::Plain(ty)
    }
}

impl From<PropertyType> for u32 {
    /// The wire code of the type.
    fn from(ty: PropertyType) -> (r: u32) {
        ty.win32_devprop_type()
    }
}

impl vstd::std_specs::convert::FromSpecImpl<PropertyType> for u32 {
    open spec fn obeys_from_spec() -> bool {
        true
    }

    open spec fn from_spec(ty: PropertyType) -> u32 {
        ty.code()
    }
}

impl From<PropertyTypeMod> for u32 {
    /// The type word of the shape and base type.
    fn from(ty: PropertyTypeMod) -> (r: u32) {
        ty.win32_devprop_type()
    }
}

impl vstd::std_specs::convert::FromSpecImpl<PropertyTypeMod> for u32 {
    open spec fn obeys_from_spec() -> bool {
        true
    }

    open spec fn from_spec(ty: PropertyTypeMod) -> u32 {
        ty.word()
    }
}

impl TryFrom<u32> for PropertyType {
    type Error = DecodeError;

    /// The type with the wire code `ty`.
    fn try_from(ty: u32) -> (r: Result<PropertyType, DecodeError>) {
        PropertyType::try_from_win32(ty)
    }
}

impl vstd::std_specs::convert::TryFromSpecImpl<u32> for PropertyType {
    open spec fn obeys_try_from_spec() -> bool {
        true
    }

    open spec fn try_from_spec(ty: u32) -> Result<PropertyType, DecodeError> {
        match PropertyType::of_code(ty) {
            Some(t) => Ok(t),
            None => Err(DecodeError::InvalidType),
        }
    }
}

impl TryFrom<u32> for PropertyTypeMod {
    type Error = DecodeError;

    /// The shape and base type that the type word `ty` holds.
    fn try_from(ty: u32) -> (r: Result<PropertyTypeMod, DecodeError>) {
        PropertyTypeMod::try_from_win32(ty)
    }
}

impl vstd::std_specs::convert::TryFromSpecImpl<u32> for PropertyTypeMod {
    open spec fn obeys_try_from_spec() -> bool {
        true
    }

    open spec fn try_from_spec(ty: u32) -> Result<PropertyTypeMod, DecodeError> {
        match PropertyTypeMod::of_word(ty) {
            Some(m) => Ok(m),
            None => Err(DecodeError::InvalidTypeMod),
        }
    }
}

/// Decoding the type word of a shape and base type gives them back, for
/// every shape and every base type.
pub proof fn lemma_type_mod_round_trip(m: PropertyTypeMod)
    ensures
        PropertyTypeMod::of_word(m.word()) == Some(m),
{
    let base = m.spec_base_type();
    assert(PropertyType::of_code(base.code()) == Some(base));
    assert(base.code() <= 25);
}

/// A type word that decodes is the type word of what it decodes to: no two
/// words hold the same shape and base type.
pub proof fn lemma_word_of_word(ty: u32)
    ensures
        PropertyTypeMod::of_word(ty) matches Some(m) ==> m.word() == ty,
{
    if let Some(base) = PropertyType::of_code((ty % 32) as u32) {
        assert(base.code() == ty % 32);
    }
}

/// A wire code above the largest one names no type, and every other code
/// names the one type that has it.
pub proof fn lemma_code_range(code: u32)
    ensures
        code > MAX_DEVPROP_TYPE ==> PropertyType::of_code(code) is None,
        code <= MAX_DEVPROP_TYPE ==> PropertyType::of_code(code) is Some
            && PropertyType::of_code(code).unwrap().code() == code,
{
}

/// Every type has a wire code in range, and is the type of that code.
pub proof fn lemma_code_of_type(ty: PropertyType)
    ensures
        MIN_DEVPROP_TYPE <= ty.code() <= MAX_DEVPROP_TYPE,
        PropertyType::of_code(ty.code()) == Some(ty),
{
}

} // verus!
