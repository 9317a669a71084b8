//! Error codes of the operating system.

use crate::text::hex_text;
use vstd::prelude::*;
use vstd::string::*;

verus! {

/// A Win32 error code.
#[derive(Clone, Copy, Debug, PartialEq, Eq, PartialOrd, Ord, Hash, Structural)]
pub struct Win32Error {
    /// The code.
    pub code: u32,
}

/// An NTSTATUS code.
#[derive(Clone, Copy, Debug, PartialEq, Eq, PartialOrd, Ord, Hash, Structural)]
pub struct NtStatus {
    /// The code.
    pub code: i32,
}

/// An HRESULT code.
#[derive(Clone, Copy, Debug, PartialEq, Eq, PartialOrd, Ord, Hash, Structural)]
pub struct HResult {
    /// The code.
    pub code: i32,
}

impl DeepView for Win32Error {
    type V = Win32Error;

    open spec fn deep_view(&self) -> Win32Error {
        *self
    }
}

impl DeepView for NtStatus {
    type V = NtStatus;

    open spec fn deep_view(&self) -> NtStatus {
        *self
    }
}

impl DeepView for HResult {
    type V = HResult;

    open spec fn deep_view(&self) -> HResult {
        *self
    }
}

/// `windows::Win32::Foundation::WIN32_ERROR::to_hresult`: zero stays zero;
/// of any other code the low 16 bits are kept and set under the facility 7
/// and the failure bit, which as a signed number is 0x7ff9_0000 below them.
#[verifier::external_body]
fn win32_error_to_hresult(code: u32) -> (r: i32)
    ensures
        r == if code == 0 {
            0
        } else {
            code % 0x1_0000 - 0x7ff9_0000
        },
{
    windows::Win32::Foundation::WIN32_ERROR(code).to_hresult().0
}

/// `windows::Win32::Foundation::NTSTATUS::to_hresult`: the code with the
/// bit 0x1000_0000 set.
#[verifier::external_body]
fn ntstatus_to_hresult(code: i32) -> (r: i32)
    ensures
        r == code | 0x1000_0000i32,
{
    windows::Win32::Foundation::NTSTATUS(code).to_hresult().0
}

/// `Display` of `windows::core::HRESULT`: `0x` and the eight upper-case
/// hexadecimal digits of the code's 32 bits.
#[verifier::external_body]
fn hresult_to_string(code: i32) -> (r: String)
    ensures
        r@ == (HResult { code }).text(),
{
    format!("{}", windows::core::HRESULT(code))
}

impl Win32Error {
    /// The HRESULT of this error code.
    pub open spec fn spec_to_hresult(self) -> HResult {
        HResult {
            code: if self.code == 0 {
                0i32
            } else {
                (self.code % 0x1_0000 - 0x7ff9_0000) as i32
            },
        }
    }

    /// The HRESULT of this error code.
    pub fn to_hresult(&self) -> (r: HResult)
        ensures
            r == self.spec_to_hresult(),
    {
        HResult { code: win32_error_to_hresult(self.code) }
    }
}

impl NtStatus {
    /// The HRESULT of this status code.
    pub open spec fn spec_to_hresult(self) -> HResult {
        HResult { code: self.code | 0x1000_0000i32 }
    }

    /// The HRESULT of this status code.
    pub fn to_hresult(&self) -> (r: HResult)
        ensures
            r == self.spec_to_hresult(),
    {
        HResult { code: ntstatus_to_hresult(self.code) }
    }
}

impl HResult {
    /// The 32 bits of the code as an unsigned number.
    pub open spec fn bits(self) -> nat {
        if self.code < 0 {
            (self.code + 0x1_0000_0000) as nat
        } else {
            self.code as nat
        }
    }

    /// The text of the code: `0x` and the eight upper-case hexadecimal
    /// digits of its 32 bits.
    pub open spec fn text(self) -> Seq<char> {
        seq!['0', 'x'] + hex_text(self.bits(), 8, true)
    }

    /// The text of the code.
    pub fn to_string(&self) -> (r: String)
        ensures
            r@ == self.text(),
    {
        hresult_to_string(self.code)
    }
}

} // verus!
