//! The values that can be read out of a property.
//!
//! A type of values says which types of property it is read from, and
//! what it reads from their bytes. Several types of values may be read
//! from one type of property: a count of ticks reads as a number and as a
//! point in time.
//!
//! Nothing is read but bytes: no floating-point number is made here, and
//! the types `FloatBits` and `DoubleBits` hold the bits of one.

use crate::bytes::{
    native_value, read_i16, read_i32, read_i64, read_i8, read_u16, read_u32,
    read_u64, read_u8, signed16, signed32, signed64, signed8,
};
use crate::guid::{read_guid, Guid};
use crate::key::{read_key, PropertyKey};
use crate::status::{HResult, NtStatus, Win32Error};
use crate::time::{filetime_to_std, read_filetime, FileTime, UnixTime};
use crate::ty::{PropertyType, PropertyTypeMod};
use vstd::prelude::*;

verus! {

/// The 32 bits of a single-precision floating-point number.
#[derive(Clone, Copy, Debug, PartialEq, Eq, Hash, Structural)]
pub struct FloatBits {
    /// The bits, the sign the most significant.
    pub bits: u32,
}

/// The 64 bits of a double-precision floating-point number.
#[derive(Clone, Copy, Debug, PartialEq, Eq, Hash, Structural)]
pub struct DoubleBits {
    /// The bits, the sign the most significant.
    pub bits: u64,
}

impl DeepView for FloatBits {
    type V = FloatBits;

    open spec fn deep_view(&self) -> FloatBits {
        *self
    }
}

impl DeepView for DoubleBits {
    type V = DoubleBits;

    open spec fn deep_view(&self) -> DoubleBits {
        *self
    }
}

/// A type of values of a fixed number of bytes. Such a value is read as a
/// single value, from bytes of exactly its size, and as an element of an
/// array, from bytes that hold a whole number of values.
pub trait FixedValue: Sized + DeepView {
    /// The base type that values of this type are written as.
    spec fn spec_base_type() -> PropertyType;

    /// Whether values of this type are read from the base type `ty`.
    spec fn spec_accepts(ty: PropertyType) -> bool;

    /// The number of bytes of a value.
    spec fn spec_size() -> nat;

    /// The value that `bytes` hold, if they hold one.
    spec fn spec_read(bytes: Seq<u8>) -> Option<Self::V>;

    /// Values of this type are read from the base type that they are
    /// written as.
    proof fn lemma_accepts_base_type()
        ensures
            Self::spec_accepts(Self::spec_base_type()),
    ;

    /// The values of a base type that this type is read from have the
    /// size of this type.
    proof fn lemma_size_of_accepted(ty: PropertyType)
        ensures
            Self::spec_accepts(ty) ==> ty.spec_static_size() is Some
                && ty.spec_static_size().unwrap() == Self::spec_size(),
            Self::spec_size() >= 1,
    ;

    /// The base type that values of this type are written as.
    fn base_type() -> (r: PropertyType)
        ensures
            r == Self::spec_base_type(),
    ;

    /// Whether values of this type are read from the base type `ty`.
    fn accepts(ty: PropertyType) -> (r: bool)
        ensures
            r == Self::spec_accepts(ty),
    ;

    /// The number of bytes of a value.
    fn size() -> (r: usize)
        ensures
            r == Self::spec_size(),
            r >= 1,
    ;

    /// Reads the value that lies at the offset `at` of `data`.
    fn read(data: &[u8], at: usize) -> (r: Option<Self>)
        requires
            at + Self::spec_size() <= data@.len(),
        ensures
            r.deep_view() == Self::spec_read(data@.subrange(at as int, at + Self::spec_size())),
    ;
}

impl FixedValue for bool {
    open spec fn spec_base_type() -> PropertyType {
        PropertyType::Boolean
    }

    open spec fn spec_accepts(ty: PropertyType) -> bool {
        ty == PropertyType::Boolean
    }

    open spec fn spec_size() -> nat {
        1
    }

    open spec fn spec_read(bytes: Seq<u8>) -> Option<bool> {
        Some(bytes[0] != 0)
    }

    proof fn lemma_accepts_base_type() {
    }

    proof fn lemma_size_of_accepted(ty: PropertyType) {
    }

    fn base_type() -> (r: PropertyType) {
        PropertyType::Boolean
    }

    fn accepts(ty: PropertyType) -> (r: bool) {
        match ty {
            PropertyType::Boolean => true,
            _ => false,
        }
    }

    fn size() -> (r: usize) {
        1
    }

    fn read(data: &[u8], at: usize) -> (r: Option<bool>) {
        Some(read_u8(data, at) != 0)
    }
}

impl FixedValue for u8 {
    open spec fn spec_base_type() -> PropertyType {
        PropertyType::Byte
    }

    open spec fn spec_accepts(ty: PropertyType) -> bool {
        ty == PropertyType::Byte
    }

    open spec fn spec_size() -> nat {
        1
    }

    open spec fn spec_read(bytes: Seq<u8>) -> Option<u8> {
        Some(bytes[0])
    }

    proof fn lemma_accepts_base_type() {
    }

    proof fn lemma_size_of_accepted(ty: PropertyType) {
    }

    fn base_type() -> (r: PropertyType) {
        PropertyType::Byte
    }

    fn accepts(ty: PropertyType) -> (r: bool) {
        match ty {
            PropertyType::Byte => true,
            _ => false,
        }
    }

    fn size() -> (r: usize) {
        1
    }

    fn read(data: &[u8], at: usize) -> (r: Option<u8>) {
        Some(read_u8(data, at))
    }
}

impl FixedValue for i8 {
    open spec fn spec_base_type() -> PropertyType {
        PropertyType::SByte
    }

    open spec fn spec_accepts(ty: PropertyType) -> bool {
        ty == PropertyType::SByte
    }

    open spec fn spec_size() -> nat {
        1
    }

    open spec fn spec_read(bytes: Seq<u8>) -> Option<i8> {
        Some(signed8(native_value(bytes)))
    }

    proof fn lemma_accepts_base_type() {
    }

    proof fn lemma_size_of_accepted(ty: PropertyType) {
    }

    fn base_type() -> (r: PropertyType) {
        PropertyType::SByte
    }

    fn accepts(ty: PropertyType) -> (r: bool) {
        match ty {
            PropertyType::SByte => true,
            _ => false,
        }
    }

    fn size() -> (r: usize) {
        1
    }

    fn read(data: &[u8], at: usize) -> (r: Option<i8>) {
        Some(read_i8(data, at))
    }
}

impl FixedValue for u16 {
    open spec fn spec_base_type() -> PropertyType {
        PropertyType::UInt16
    }

    open spec fn spec_accepts(ty: PropertyType) -> bool {
        ty == PropertyType::UInt16
    }

    open spec fn spec_size() -> nat {
        2
    }

    open spec fn spec_read(bytes: Seq<u8>) -> Option<u16> {
        Some(native_value(bytes) as u16)
    }

    proof fn lemma_accepts_base_type() {
    }

    proof fn lemma_size_of_accepted(ty: PropertyType) {
    }

    fn base_type() -> (r: PropertyType) {
        PropertyType::UInt16
    }

    fn accepts(ty: PropertyType) -> (r: bool) {
        match ty {
            PropertyType::UInt16 => true,
            _ => false,
        }
    }

    fn size() -> (r: usize) {
        2
    }

    fn read(data: &[u8], at: usize) -> (r: Option<u16>) {
        Some(read_u16(data, at))
    }
}

impl FixedValue for i16 {
    open spec fn spec_base_type() -> PropertyType {
        PropertyType::Int16
    }

    open spec fn spec_accepts(ty: PropertyType) -> bool {
        ty == PropertyType::Int16
    }

    open spec fn spec_size() -> nat {
        2
    }

    open spec fn spec_read(bytes: Seq<u8>) -> Option<i16> {
        Some(signed16(native_value(bytes)))
    }

    proof fn lemma_accepts_base_type() {
    }

    proof fn lemma_size_of_accepted(ty: PropertyType) {
    }

    fn base_type() -> (r: PropertyType) {
        PropertyType::Int16
    }

    fn accepts(ty: PropertyType) -> (r: bool) {
        match ty {
            PropertyType::Int16 => true,
            _ => false,
        }
    }

    fn size() -> (r: usize) {
        2
    }

    fn read(data: &[u8], at: usize) -> (r: Option<i16>) {
        Some(read_i16(data, at))
    }
}

impl FixedValue for u32 {
    open spec fn spec_base_type() -> PropertyType {
        PropertyType::UInt32
    }

    open spec fn spec_accepts(ty: PropertyType) -> bool {
        ty == PropertyType::UInt32
    }

    open spec fn spec_size() -> nat {
        4
    }

    open spec fn spec_read(bytes: Seq<u8>) -> Option<u32> {
        Some(native_value(bytes) as u32)
    }

    proof fn lemma_accepts_base_type() {
    }

    proof fn lemma_size_of_accepted(ty: PropertyType) {
    }

    fn base_type() -> (r: PropertyType) {
        PropertyType::UInt32
    }

    fn accepts(ty: PropertyType) -> (r: bool) {
        match ty {
            PropertyType::UInt32 => true,
            _ => false,
        }
    }

    fn size() -> (r: usize) {
        4
    }

    fn read(data: &[u8], at: usize) -> (r: Option<u32>) {
        Some(read_u32(data, at))
    }
}

impl FixedValue for i32 {
    open spec fn spec_base_type() -> PropertyType {
        PropertyType::Int32
    }

    open spec fn spec_accepts(ty: PropertyType) -> bool {
        ty == PropertyType::Int32
    }

    open spec fn spec_size() -> nat {
        4
    }

    open spec fn spec_read(bytes: Seq<u8>) -> Option<i32> {
        Some(signed32(native_value(bytes)))
    }

    proof fn lemma_accepts_base_type() {
    }

    proof fn lemma_size_of_accepted(ty: PropertyType) {
    }

    fn base_type() -> (r: PropertyType) {
        PropertyType::Int32
    }

    fn accepts(ty: PropertyType) -> (r: bool) {
        match ty {
            PropertyType::Int32 => true,
            _ => false,
        }
    }

    fn size() -> (r: usize) {
        4
    }

    fn read(data: &[u8], at: usize) -> (r: Option<i32>) {
        Some(read_i32(data, at))
    }
}

impl FixedValue for u64 {
    open spec fn spec_base_type() -> PropertyType {
        PropertyType::UInt64
    }

    open spec fn spec_accepts(ty: PropertyType) -> bool {
        ty == PropertyType::UInt64 || ty == PropertyType::FileTime
    }

    open spec fn spec_size() -> nat {
        8
    }

    open spec fn spec_read(bytes: Seq<u8>) -> Option<u64> {
        Some(native_value(bytes) as u64)
    }

    proof fn lemma_accepts_base_type() {
    }

    proof fn lemma_size_of_accepted(ty: PropertyType) {
    }

    fn base_type() -> (r: PropertyType) {
        PropertyType::UInt64
    }

    fn accepts(ty: PropertyType) -> (r: bool) {
        match ty {
            PropertyType::UInt64 | PropertyType::FileTime => true,
            _ => false,
        }
    }

    fn size() -> (r: usize) {
        8
    }

    fn read(data: &[u8], at: usize) -> (r: Option<u64>) {
        Some(read_u64(data, at))
    }
}

impl FixedValue for i64 {
    open spec fn spec_base_type() -> PropertyType {
        PropertyType::Int64
    }

    open spec fn spec_accepts(ty: PropertyType) -> bool {
        ty == PropertyType::Int64 || ty == PropertyType::Decimal || ty == PropertyType::Currency
    }

    open spec fn spec_size() -> nat {
        8
    }

    open spec fn spec_read(bytes: Seq<u8>) -> Option<i64> {
        Some(signed64(native_value(bytes)))
    }

    proof fn lemma_accepts_base_type() {
    }

    proof fn lemma_size_of_accepted(ty: PropertyType) {
    }

    fn base_type() -> (r: PropertyType) {
        PropertyType::Int64
    }

    fn accepts(ty: PropertyType) -> (r: bool) {
        match ty {
            PropertyType::Int64 | PropertyType::Decimal | PropertyType::Currency => true,
            _ => false,
        }
    }

    fn size() -> (r: usize) {
        8
    }

    fn read(data: &[u8], at: usize) -> (r: Option<i64>) {
        Some(read_i64(data, at))
    }
}

impl FixedValue for FloatBits {
    open spec fn spec_base_type() -> PropertyType {
        PropertyType::Float
    }

    open spec fn spec_accepts(ty: PropertyType) -> bool {
        ty == PropertyType::Float
    }

    open spec fn spec_size() -> nat {
        4
    }

    open spec fn spec_read(bytes: Seq<u8>) -> Option<FloatBits> {
        Some(FloatBits { bits: native_value(bytes) as u32 })
    }

    proof fn lemma_accepts_base_type() {
    }

    proof fn lemma_size_of_accepted(ty: PropertyType) {
    }

    fn base_type() -> (r: PropertyType) {
        PropertyType::Float
    }

    fn accepts(ty: PropertyType) -> (r: bool) {
        match ty {
            PropertyType::Float => true,
            _ => false,
        }
    }

    fn size() -> (r: usize) {
        4
    }

    fn read(data: &[u8], at: usize) -> (r: Option<FloatBits>) {
        Some(FloatBits { bits: read_u32(data, at) })
    }
}

impl FixedValue for DoubleBits {
    open spec fn spec_base_type() -> PropertyType {
        PropertyType::Double
    }

    open spec fn spec_accepts(ty: PropertyType) -> bool {
        ty == PropertyType::Double || ty == PropertyType::Date
    }

    open spec fn spec_size() -> nat {
        8
    }

    open spec fn spec_read(bytes: Seq<u8>) -> Option<DoubleBits> {
        Some(DoubleBits { bits: native_value(bytes) as u64 })
    }

    proof fn lemma_accepts_base_type() {
    }

    proof fn lemma_size_of_accepted(ty: PropertyType) {
    }

    fn base_type() -> (r: PropertyType) {
        PropertyType::Double
    }

    fn accepts(ty: PropertyType) -> (r: bool) {
        match ty {
            PropertyType::Double | PropertyType::Date => true,
            _ => false,
        }
    }

    fn size() -> (r: usize) {
        8
    }

    fn read(data: &[u8], at: usize) -> (r: Option<DoubleBits>) {
        Some(DoubleBits { bits: read_u64(data, at) })
    }
}

impl FixedValue for PropertyType {
    open spec fn spec_base_type() -> PropertyType {
        PropertyType::PropertyType
    }

    open spec fn spec_accepts(ty: PropertyType) -> bool {
        ty == PropertyType::PropertyType
    }

    open spec fn spec_size() -> nat {
        4
    }

    open spec fn spec_read(bytes: Seq<u8>) -> Option<PropertyType> {
        PropertyType::of_code(native_value(bytes) as u32)
    }

    proof fn lemma_accepts_base_type() {
    }

    proof fn lemma_size_of_accepted(ty: PropertyType) {
    }

    fn base_type() -> (r: PropertyType) {
        PropertyType::PropertyType
    }

    fn accepts(ty: PropertyType) -> (r: bool) {
        match ty {
            PropertyType::PropertyType => true,
            _ => false,
        }
    }

    fn size() -> (r: usize) {
        4
    }

    fn read(data: &[u8], at: usize) -> (r: Option<PropertyType>) {
        PropertyType::from_win32(read_u32(data, at))
    }
}

impl FixedValue for Win32Error {
    open spec fn spec_base_type() -> PropertyType {
        PropertyType::Error
    }

    open spec fn spec_accepts(ty: PropertyType) -> bool {
        ty == PropertyType::Error
    }

    open spec fn spec_size() -> nat {
        4
    }

    open spec fn spec_read(bytes: Seq<u8>) -> Option<Win32Error> {
        Some(Win32Error { code: native_value(bytes) as u32 })
    }

    proof fn lemma_accepts_base_type() {
    }

    proof fn lemma_size_of_accepted(ty: PropertyType) {
    }

    fn base_type() -> (r: PropertyType) {
        PropertyType::Error
    }

    fn accepts(ty: PropertyType) -> (r: bool) {
        match ty {
            PropertyType::Error => true,
            _ => false,
        }
    }

    fn size() -> (r: usize) {
        4
    }

    fn read(data: &[u8], at: usize) -> (r: Option<Win32Error>) {
        Some(Win32Error { code: read_u32(data, at) })
    }
}

impl FixedValue for NtStatus {
    open spec fn spec_base_type() -> PropertyType {
        PropertyType::NtStatus
    }

    open spec fn spec_accepts(ty: PropertyType) -> bool {
        ty == PropertyType::NtStatus
    }

    open spec fn spec_size() -> nat {
        4
    }

    open spec fn spec_read(bytes: Seq<u8>) -> Option<NtStatus> {
        Some(NtStatus { code: signed32(native_value(bytes)) })
    }

    proof fn lemma_accepts_base_type() {
    }

    proof fn lemma_size_of_accepted(ty: PropertyType) {
    }

    fn base_type() -> (r: PropertyType) {
        PropertyType::NtStatus
    }

    fn accepts(ty: PropertyType) -> (r: bool) {
        match ty {
            PropertyType::NtStatus => true,
            _ => false,
        }
    }

    fn size() -> (r: usize) {
        4
    }

    fn read(data: &[u8], at: usize) -> (r: Option<NtStatus>) {
        Some(NtStatus { code: read_i32(data, at) })
    }
}

impl FixedValue for Guid {
    open spec fn spec_base_type() -> PropertyType {
        PropertyType::Guid
    }

    open spec fn spec_accepts(ty: PropertyType) -> bool {
        ty == PropertyType::Guid
    }

    open spec fn spec_size() -> nat {
        16
    }

    open spec fn spec_read(bytes: Seq<u8>) -> Option<Guid> {
        Some(Guid::of_bytes(bytes))
    }

    proof fn lemma_accepts_base_type() {
    }

    proof fn lemma_size_of_accepted(ty: PropertyType) {
    }

    fn base_type() -> (r: PropertyType) {
        PropertyType::Guid
    }

    fn accepts(ty: PropertyType) -> (r: bool) {
        match ty {
            PropertyType::Guid => true,
            _ => false,
        }
    }

    fn size() -> (r: usize) {
        16
    }

    fn read(data: &[u8], at: usize) -> (r: Option<Guid>) {
        Some(read_guid(data, at))
    }
}

impl FixedValue for PropertyKey {
    open spec fn spec_base_type() -> PropertyType {
        PropertyType::PropertyKey
    }

    open spec fn spec_accepts(ty: PropertyType) -> bool {
        ty == PropertyType::PropertyKey
    }

    open spec fn spec_size() -> nat {
        20
    }

    open spec fn spec_read(bytes: Seq<u8>) -> Option<PropertyKey> {
        Some(PropertyKey::of_bytes(bytes))
    }

    proof fn lemma_accepts_base_type() {
    }

    proof fn lemma_size_of_accepted(ty: PropertyType) {
    }

    fn base_type() -> (r: PropertyType) {
        PropertyType::PropertyKey
    }

    fn accepts(ty: PropertyType) -> (r: bool) {
        match ty {
            PropertyType::PropertyKey => true,
            _ => false,
        }
    }

    fn size() -> (r: usize) {
        20
    }

    fn read(data: &[u8], at: usize) -> (r: Option<PropertyKey>) {
        Some(read_key(data, at))
    }
}

/// A type of values that can be read out of a property.
///
/// What is read depends on the type of the property and on its bytes, and
/// on nothing else: not on where the bytes lie, nor on who owns them.
pub trait InfoPropertyValue<'a>: Sized + DeepView {
    /// The shape and base type that values of this type are written as.
    spec fn spec_type() -> PropertyTypeMod;

    /// Whether values of this type are read from properties of the type
    /// `type_`.
    spec fn spec_supports_type(type_: PropertyTypeMod) -> bool;

    /// The value that a property of the type `type_` with the bytes `data`
    /// holds, if it holds one of this type.
    spec fn spec_get(type_: PropertyTypeMod, data: Seq<u8>) -> Option<Self::V>;

    /// Only a supported type gives a value.
    proof fn lemma_get_supported(type_: PropertyTypeMod, data: Seq<u8>)
        ensures
            Self::spec_get(type_, data) is Some ==> Self::spec_supports_type(type_),
    ;

    /// The type that values of this type are written as is a supported
    /// one.
    proof fn lemma_type_supported()
        ensures
            Self::spec_supports_type(Self::spec_type()),
    ;

    /// The shape and base type that values of this type are written as.
    fn canonical_type() -> (r: PropertyTypeMod)
        ensures
            r == Self::spec_type(),
    ;

    /// Whether values of this type are read from properties of the type
    /// `type_`.
    fn supports_type(type_: PropertyTypeMod) -> (r: bool)
        ensures
            r == Self::spec_supports_type(type_),
    ;

    /// Reads a value from the bytes of a single value of the base type
    /// `type_`.
    fn get_plain(type_: PropertyType, data: &'a [u8]) -> (r: Option<Self>)
        ensures
            r.deep_view() == Self::spec_get(PropertyTypeMod::Plain(type_), data@),
    ;

    /// Reads a value from the bytes of a property of the type `type_`.
    fn get(type_: PropertyTypeMod, data: &'a [u8]) -> (r: Option<Self>)
        ensures
            r.deep_view() == Self::spec_get(type_, data@),
    ;
}

impl<'a, T: FixedValue> InfoPropertyValue<'a> for T {
    open spec fn spec_type() -> PropertyTypeMod {
        PropertyTypeMod::Plain(T::spec_base_type())
    }

    open spec fn spec_supports_type(type_: PropertyTypeMod) -> bool {
        type_ matches PropertyTypeMod::Plain(ty) && T::spec_accepts(ty)
    }

    open spec fn spec_get(type_: PropertyTypeMod, data: Seq<u8>) -> Option<T::V> {
        if Self::spec_supports_type(type_) && data.len() == T::spec_size() {
            T::spec_read(data)
        } else {
            None
        }
    }

    proof fn lemma_get_supported(type_: PropertyTypeMod, data: Seq<u8>) {
    }

    proof fn lemma_type_supported() {
        T::lemma_accepts_base_type();
    }

    fn canonical_type() -> (r: PropertyTypeMod) {
        PropertyTypeMod::Plain(T::base_type())
    }

    fn supports_type(type_: PropertyTypeMod) -> (r: bool) {
        match type_ {
            PropertyTypeMod::Plain(ty) => T::accepts(ty),
            _ => false,
        }
    }

    fn get_plain(type_: PropertyType, data: &'a [u8]) -> (r: Option<Self>) {
        if T::accepts(type_) && data.len() == T::size() {
            proof {
                assert(data@.subrange(0, data@.len() as int) =~= data@);
            }
            T::read(data, 0)
        } else {
            None
        }
    }

    fn get(type_: PropertyTypeMod, data: &'a [u8]) -> (r: Option<Self>) {
        match type_ {
            PropertyTypeMod::Plain(ty) => Self::get_plain(ty, data),
            _ => None,
        }
    }
}

impl<'a, T: FixedValue> InfoPropertyValue<'a> for Vec<T> {
    open spec fn spec_type() -> PropertyTypeMod {
        PropertyTypeMod::Array(T::spec_base_type())
    }

    open spec fn spec_supports_type(type_: PropertyTypeMod) -> bool {
        type_ matches PropertyTypeMod::Array(ty) && T::spec_accepts(ty)
    }

    open spec fn spec_get(type_: PropertyTypeMod, data: Seq<u8>) -> Option<Seq<T::V>> {
        if Self::spec_supports_type(type_) && data.len() % T::spec_size() == 0 && forall|i: int|
            0 <= i < data.len() / T::spec_size() ==> (#[trigger] spec_record::<T>(data, i)) is Some {
            Some(
                Seq::new(
                    data.len() / T::spec_size(),
                    |i: int| spec_record::<T>(data, i).unwrap(),
                ),
            )
        } else {
            None
        }
    }

    proof fn lemma_get_supported(type_: PropertyTypeMod, data: Seq<u8>) {
    }

    proof fn lemma_type_supported() {
        T::lemma_accepts_base_type();
    }

    fn canonical_type() -> (r: PropertyTypeMod) {
        PropertyTypeMod::Array(T::base_type())
    }

    fn supports_type(type_: PropertyTypeMod) -> (r: bool) {
        match type_ {
            PropertyTypeMod::Array(ty) => T::accepts(ty),
            _ => false,
        }
    }

    fn get_plain(type_: PropertyType, data: &'a [u8]) -> (r: Option<Self>) {
        None
    }

    fn get(type_: PropertyTypeMod, data: &'a [u8]) -> (r: Option<Self>) {
        match type_ {
            PropertyTypeMod::Array(ty) => {
                let size: usize = T::size();
                if !T::accepts(ty) || data.len() % size != 0 {
                    assert(Self::spec_get(type_, data@) is None);
                    return None;
                }
                let count: usize = data.len() / size;
                let mut out: Vec<T> = Vec::new();
                let mut i: usize = 0;
                while i < count
                    invariant
                        type_ == PropertyTypeMod::Array(ty),
                        T::spec_accepts(ty),
                        data@.len() <= usize::MAX,
                        size == T::spec_size(),
                        size >= 1,
                        count == data@.len() / (size as nat),
                        data@.len() % (size as nat) == 0,
                        i <= count,
                        out@.len() == i,
                        forall|k: int|
                            0 <= k < i ==> (#[trigger] spec_record::<T>(data@, k)) == Some(
                                out@[k].deep_view(),
                            ),
                    decreases count - i,
                {
                    proof {
                        lemma_record_bounds(data@.len() as int, size as int, i as int);
                    }
                    match T::read(data, i * size) {
                        Some(v) => {
                            out.push(v);
                        },
                        None => {
                            assert(spec_record::<T>(data@, i as int) is None);
                            assert(Self::spec_get(type_, data@) is None);
                            return None;
                        },
                    }
                    i = i + 1;
                }
                proof {
                    assert(out.deep_view() =~= Seq::new(
                        data@.len() / T::spec_size(),
                        |i: int| spec_record::<T>(data@, i).unwrap(),
                    ));
                    assert(Self::spec_get(type_, data@) == Some(out.deep_view()));
                }
                Some(out)
            },
            _ => None,
        }
    }
}

impl<'a> InfoPropertyValue<'a> for &'a [u8] {
    open spec fn spec_type() -> PropertyTypeMod {
        PropertyTypeMod::Array(PropertyType::Byte)
    }

    open spec fn spec_supports_type(type_: PropertyTypeMod) -> bool {
        type_ == PropertyTypeMod::Array(PropertyType::Byte)
    }

    open spec fn spec_get(type_: PropertyTypeMod, data: Seq<u8>) -> Option<Seq<u8>> {
        if type_ == PropertyTypeMod::Array(PropertyType::Byte) {
            Some(data)
        } else {
            None
        }
    }

    proof fn lemma_get_supported(type_: PropertyTypeMod, data: Seq<u8>) {
    }

    proof fn lemma_type_supported() {
    }

    fn canonical_type() -> (r: PropertyTypeMod) {
        PropertyTypeMod::Array(PropertyType::Byte)
    }

    fn supports_type(type_: PropertyTypeMod) -> (r: bool) {
        type_ == PropertyTypeMod::Array(PropertyType::Byte)
    }

    fn get_plain(type_: PropertyType, data: &'a [u8]) -> (r: Option<&'a [u8]>) {
        None
    }

    fn get(type_: PropertyTypeMod, data: &'a [u8]) -> (r: Option<&'a [u8]>) {
        match type_ {
            PropertyTypeMod::Array(PropertyType::Byte) => {
                assert(data.deep_view() =~= data@);
                Some(data)
            },
            _ => None,
        }
    }
}

impl<'a> InfoPropertyValue<'a> for () {
    open spec fn spec_type() -> PropertyTypeMod {
        PropertyTypeMod::Plain(PropertyType::Null)
    }

    open spec fn spec_supports_type(type_: PropertyTypeMod) -> bool {
        type_ == PropertyTypeMod::Plain(PropertyType::Null)
    }

    open spec fn spec_get(type_: PropertyTypeMod, data: Seq<u8>) -> Option<()> {
        if type_ == PropertyTypeMod::Plain(PropertyType::Null) {
            Some(())
        } else {
            None
        }
    }

    proof fn lemma_get_supported(type_: PropertyTypeMod, data: Seq<u8>) {
    }

    proof fn lemma_type_supported() {
    }

    fn canonical_type() -> (r: PropertyTypeMod) {
        PropertyTypeMod::Plain(PropertyType::Null)
    }

    fn supports_type(type_: PropertyTypeMod) -> (r: bool) {
        type_ == PropertyTypeMod::Plain(PropertyType::Null)
    }

    fn get_plain(type_: PropertyType, data: &'a [u8]) -> (r: Option<()>) {
        match type_ {
            PropertyType::Null => Some(()),
            _ => None,
        }
    }

    fn get(type_: PropertyTypeMod, data: &'a [u8]) -> (r: Option<()>) {
        match type_ {
            PropertyTypeMod::Plain(ty) => Self::get_plain(ty, data),
            _ => None,
        }
    }
}

impl<'a> InfoPropertyValue<'a> for PropertyTypeMod {
    open spec fn spec_type() -> PropertyTypeMod {
        PropertyTypeMod::Plain(PropertyType::PropertyType)
    }

    open spec fn spec_supports_type(type_: PropertyTypeMod) -> bool {
        type_ == PropertyTypeMod::Plain(PropertyType::PropertyType)
    }

    open spec fn spec_get(type_: PropertyTypeMod, data: Seq<u8>) -> Option<PropertyTypeMod> {
        if type_ == PropertyTypeMod::Plain(PropertyType::PropertyType) && data.len() == 4 {
            PropertyTypeMod::of_word(native_value(data) as u32)
        } else {
            None
        }
    }

    proof fn lemma_get_supported(type_: PropertyTypeMod, data: Seq<u8>) {
    }

    proof fn lemma_type_supported() {
    }

    fn canonical_type() -> (r: PropertyTypeMod) {
        PropertyTypeMod::Plain(PropertyType::PropertyType)
    }

    fn supports_type(type_: PropertyTypeMod) -> (r: bool) {
        type_ == PropertyTypeMod::Plain(PropertyType::PropertyType)
    }

    fn get_plain(type_: PropertyType, data: &'a [u8]) -> (r: Option<PropertyTypeMod>) {
        match type_ {
            PropertyType::PropertyType => {
                if data.len() == 4 {
                    proof {
                        assert(data@.subrange(0, 4) =~= data@);
                    }
                    PropertyTypeMod::from_win32(read_u32(data, 0))
                } else {
                    None
                }
            },
            _ => None,
        }
    }

    fn get(type_: PropertyTypeMod, data: &'a [u8]) -> (r: Option<PropertyTypeMod>) {
        match type_ {
            PropertyTypeMod::Plain(ty) => Self::get_plain(ty, data),
            _ => None,
        }
    }
}

impl<'a> InfoPropertyValue<'a> for HResult {
    open spec fn spec_type() -> PropertyTypeMod {
        PropertyTypeMod::Plain(PropertyType::Error)
    }

    open spec fn spec_supports_type(type_: PropertyTypeMod) -> bool {
        type_ == PropertyTypeMod::Plain(PropertyType::Error) || type_ == PropertyTypeMod::Plain(
            PropertyType::NtStatus,
        )
    }

    open spec fn spec_get(type_: PropertyTypeMod, data: Seq<u8>) -> Option<HResult> {
        if type_ == PropertyTypeMod::Plain(PropertyType::Error) && data.len() == 4 {
            Some((Win32Error { code: native_value(data) as u32 }).spec_to_hresult())
        } else if type_ == PropertyTypeMod::Plain(PropertyType::NtStatus) && data.len() == 4 {
            Some((NtStatus { code: signed32(native_value(data)) }).spec_to_hresult())
        } else {
            None
        }
    }

    proof fn lemma_get_supported(type_: PropertyTypeMod, data: Seq<u8>) {
    }

    proof fn lemma_type_supported() {
    }

    fn canonical_type() -> (r: PropertyTypeMod) {
        PropertyTypeMod::Plain(PropertyType::Error)
    }

    fn supports_type(type_: PropertyTypeMod) -> (r: bool) {
        match type_ {
            PropertyTypeMod::Plain(PropertyType::Error | PropertyType::NtStatus) => true,
            _ => false,
        }
    }

    fn get_plain(type_: PropertyType, data: &'a [u8]) -> (r: Option<HResult>) {
        match type_ {
            PropertyType::Error => match Win32Error::get_plain(type_, data) {
                Some(code) => Some(code.to_hresult()),
                None => None,
            },
            PropertyType::NtStatus => match NtStatus::get_plain(type_, data) {
                Some(code) => Some(code.to_hresult()),
                None => None,
            },
            _ => None,
        }
    }

    fn get(type_: PropertyTypeMod, data: &'a [u8]) -> (r: Option<HResult>) {
        match type_ {
            PropertyTypeMod::Plain(ty) => Self::get_plain(ty, data),
            _ => None,
        }
    }
}

impl<'a> InfoPropertyValue<'a> for FileTime {
    open spec fn spec_type() -> PropertyTypeMod {
        PropertyTypeMod::Plain(PropertyType::FileTime)
    }

    open spec fn spec_supports_type(type_: PropertyTypeMod) -> bool {
        type_ == PropertyTypeMod::Plain(PropertyType::FileTime) || type_ == PropertyTypeMod::Plain(
            PropertyType::Date,
        )
    }

    open spec fn spec_get(type_: PropertyTypeMod, data: Seq<u8>) -> Option<FileTime> {
        if type_ == PropertyTypeMod::Plain(PropertyType::FileTime) && data.len() == 8 {
            Some(FileTime::of_bytes(data))
        } else {
            None
        }
    }

    proof fn lemma_get_supported(type_: PropertyTypeMod, data: Seq<u8>) {
    }

    proof fn lemma_type_supported() {
    }

    fn canonical_type() -> (r: PropertyTypeMod) {
        PropertyTypeMod::Plain(PropertyType::FileTime)
    }

    fn supports_type(type_: PropertyTypeMod) -> (r: bool) {
        match type_ {
            PropertyTypeMod::Plain(PropertyType::Date | PropertyType::FileTime) => true,
            _ => false,
        }
    }

    fn get_plain(type_: PropertyType, data: &'a [u8]) -> (r: Option<FileTime>) {
        match type_ {
            PropertyType::FileTime => {
                if data.len() == 8 {
                    proof {
                        assert(data@.subrange(0, 8) =~= data@);
                    }
                    Some(read_filetime(data, 0))
                } else {
                    None
                }
            },
            _ => None,
        }
    }

    fn get(type_: PropertyTypeMod, data: &'a [u8]) -> (r: Option<FileTime>) {
        match type_ {
            PropertyTypeMod::Plain(ty) => Self::get_plain(ty, data),
            _ => None,
        }
    }
}

impl<'a> InfoPropertyValue<'a> for UnixTime {
    open spec fn spec_type() -> PropertyTypeMod {
        PropertyTypeMod::Plain(PropertyType::FileTime)
    }

    open spec fn spec_supports_type(type_: PropertyTypeMod) -> bool {
        FileTime::spec_supports_type(type_)
    }

    open spec fn spec_get(type_: PropertyTypeMod, data: Seq<u8>) -> Option<UnixTime> {
        match FileTime::spec_get(type_, data) {
            Some(ticks) => Some(ticks.unix_time()),
            None => None,
        }
    }

    proof fn lemma_get_supported(type_: PropertyTypeMod, data: Seq<u8>) {
    }

    proof fn lemma_type_supported() {
    }

    fn canonical_type() -> (r: PropertyTypeMod) {
        PropertyTypeMod::Plain(PropertyType::FileTime)
    }

    fn supports_type(type_: PropertyTypeMod) -> (r: bool) {
        FileTime::supports_type(type_)
    }

    fn get_plain(type_: PropertyType, data: &'a [u8]) -> (r: Option<UnixTime>) {
        match type_ {
            PropertyType::FileTime | PropertyType::Date => match FileTime::get_plain(type_, data) {
                Some(ticks) => filetime_to_std(&ticks),
                None => None,
            },
            _ => None,
        }
    }

    fn get(type_: PropertyTypeMod, data: &'a [u8]) -> (r: Option<UnixTime>) {
        match type_ {
            PropertyTypeMod::Plain(ty) => Self::get_plain(ty, data),
            _ => None,
        }
    }
}

/// The value that the record `i` of `data` holds, the records lying one
/// after the other.
pub open spec fn spec_record<T: FixedValue>(data: Seq<u8>, i: int) -> Option<T::V> {
    T::spec_read(data.subrange(i * T::spec_size(), (i + 1) * T::spec_size()))
}

/// What is read depends on the bytes alone: a copy of the same bytes, at
/// whatever offset of whatever buffer it lies, aligned for the type or not,
/// reads as the same value.
pub proof fn lemma_get_anywhere<'a, T: InfoPropertyValue<'a>>(
    type_: PropertyTypeMod,
    a: Seq<u8>,
    i: int,
    b: Seq<u8>,
    j: int,
    n: int,
)
    requires
        0 <= n,
        0 <= i,
        i + n <= a.len(),
        0 <= j,
        j + n <= b.len(),
        a.subrange(i, i + n) == b.subrange(j, j + n),
    ensures
        T::spec_get(type_, a.subrange(i, i + n)) == T::spec_get(type_, b.subrange(j, j + n)),
{
}

/// An array of `n` values of `k` bytes each reads as exactly `n` values
/// where each of them reads, and bytes that leave a rest when cut into
/// pieces of `k` read as nothing.
pub proof fn lemma_array_get_count<T: FixedValue>(ty: PropertyType, data: Seq<u8>, n: nat)
    requires
        T::spec_size() > 0,
    ensures
        data.len() == n * T::spec_size() && Vec::<T>::spec_get(PropertyTypeMod::Array(ty), data)
            is Some ==> Vec::<T>::spec_get(PropertyTypeMod::Array(ty), data).unwrap().len() == n,
        data.len() % T::spec_size() != 0 ==> Vec::<T>::spec_get(PropertyTypeMod::Array(ty), data)
            is None,
{
    let k = T::spec_size() as int;
    if data.len() == n * k {
        vstd::arithmetic::div_mod::lemma_fundamental_div_mod_converse(
            data.len() as int,
            k,
            n as int,
            0,
        );
    }
}

/// Record `i` of `len / size` records lies within `len` bytes.
pub proof fn lemma_record_bounds(len: int, size: int, i: int)
    requires
        size > 0,
        len >= 0,
        len % size == 0,
        0 <= i < len / size,
    ensures
        0 <= i * size,
        i * size + size == (i + 1) * size,
        (i + 1) * size <= len,
        i * size + size <= len,
{
    assert(len == size * (len / size)) by {
        vstd::arithmetic::div_mod::lemma_fundamental_div_mod(len, size);
    }
    assert(i * size >= 0) by (nonlinear_arith)
        requires
            i >= 0,
            size > 0,
    ;
    assert(i * size + size == (i + 1) * size) by (nonlinear_arith);
    assert((i + 1) * size <= (len / size) * size) by (nonlinear_arith)
        requires
            i + 1 <= len / size,
            size > 0,
    ;
    assert((len / size) * size == size * (len / size)) by (nonlinear_arith);
}

} // verus!
