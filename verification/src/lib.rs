//! Typed decoding of device properties.
//!
//! A device property arrives as a 32-bit type word and a buffer of bytes.
//! This library says which values such a pair holds: integers, strings,
//! GUIDs, time stamps, arrays of fixed-size records and lists of
//! NUL-terminated strings.

pub mod bytes;
pub mod device;
pub mod guid;
pub mod key;
pub mod property;
pub mod show;
pub mod status;
pub mod text;
pub mod time;
pub mod ty;
pub mod value;
pub mod vcp;
pub mod wide;

pub use crate::guid::Guid;
pub use crate::key::PropertyKey;
pub use crate::property::{iter_array, Property};
pub use crate::show::{bracketed, Rendering, Shown};
pub use crate::status::{HResult, NtStatus, Win32Error};
pub use crate::time::{filetime_epoch, filetime_to_std, CalendarTime, FileTime, UnixTime};
pub use crate::ty::{DecodeError, PropertyType, PropertyTypeMod};
pub use crate::value::{DoubleBits, FixedValue, FloatBits, InfoPropertyValue};
pub use crate::wide::{
    iter_string_list, wide_str_from_slice_truncated, MissingNulTerminator, WideCString, WideString,
};
