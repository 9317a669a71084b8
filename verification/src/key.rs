//! Property keys.

use crate::bytes::{native_value, read_u32};
use crate::guid::{read_guid, Guid};
use crate::text::{decimal_text, push_char, push_decimal};
use vstd::prelude::*;
use vstd::string::*;

verus! {

/// The key of a device property: a category and an identifier within it.
#[derive(Clone, Copy, Debug, PartialEq, Eq, PartialOrd, Ord, Hash, Structural)]
pub struct PropertyKey {
    /// The category of the property.
    pub fmtid: Guid,
    /// The identifier of the property within its category.
    pub pid: u32,
}

impl DeepView for PropertyKey {
    type V = PropertyKey;

    open spec fn deep_view(&self) -> PropertyKey {
        *self
    }
}

impl PropertyKey {
    /// The text of the key: the category, a backslash, and the identifier
    /// in decimal.
    pub open spec fn text(self) -> Seq<char> {
        self.fmtid.text() + seq!['\\'] + decimal_text(self.pid as nat)
    }

    /// The key that 20 bytes hold: the category in 16 bytes, then the
    /// identifier in four, in the byte order of the machine.
    pub open spec fn of_bytes(bytes: Seq<u8>) -> PropertyKey {
        PropertyKey {
            fmtid: Guid::of_bytes(bytes.subrange(0, 16)),
            pid: native_value(bytes.subrange(16, 20)) as u32,
        }
    }

    /// The category of the property.
    pub fn format(&self) -> (r: &Guid)
        ensures
            *r == self.fmtid,
    {
        &self.fmtid
    }

    /// The identifier of the property within its category.
    pub fn id(&self) -> (r: u32)
        ensures
            r == self.pid,
    {
        self.pid
    }

    /// The text of the key.
    pub fn to_string(&self) -> (r: String)
        ensures
            r@ == self.text(),
    {
        let mut s = self.fmtid.to_string();
        push_char(&mut s, '\\');
        push_decimal(&mut s, self.pid as u128);
        assert(s@ =~= self.text());
        s
    }
}

/// Reads the key that lies at the offset `at` of `data`.
pub fn read_key(data: &[u8], at: usize) -> (r: PropertyKey)
    requires
        at + 20 <= data.len(),
    ensures
        r == PropertyKey::of_bytes(data@.subrange(at as int, at + 20)),
{
    proof {
        let b = data@.subrange(at as int, at + 20);
        assert(b.subrange(0, 16) =~= data@.subrange(at as int, at + 16));
        assert(b.subrange(16, 20) =~= data@.subrange(at + 16, at + 16 + 4));
    }
    PropertyKey { fmtid: read_guid(data, at), pid: read_u32(data, at + 16) }
}

} // verus!
