//! Globally unique identifiers.

use crate::bytes::{be_value, native_value, read_be_u64, read_u16, read_u32};
use crate::text::{hex_text, push_char, push_hex};
use vstd::prelude::*;

verus! {

/// A globally unique identifier of 128 bits.
///
/// The last eight bytes are held as one number, the first of them the most
/// significant, so that identifiers order as their 128-bit values do.
#[derive(Clone, Copy, Debug, PartialEq, Eq, PartialOrd, Ord, Hash, Structural)]
pub struct Guid {
    /// The first 32 bits.
    pub data1: u32,
    /// The next 16 bits.
    pub data2: u16,
    /// The next 16 bits.
    pub data3: u16,
    /// The last eight bytes, the first of them the most significant.
    pub data4: u64,
}

impl DeepView for Guid {
    type V = Guid;

    open spec fn deep_view(&self) -> Guid {
        *self
    }
}

/// `windows::core::GUID::to_u128`, on the identifier that
/// `windows::core::GUID::from_values` makes of the four parts: the parts set
/// side by side in 128 bits, the first part the most significant.
#[verifier::external_body]
fn guid_to_u128(data1: u32, data2: u16, data3: u16, data4: u64) -> (r: u128)
    ensures
        r == data1 * 0x1_0000_0000_0000_0000_0000_0000 + data2 * 0x1_0000_0000_0000_0000_0000
            + data3 * 0x1_0000_0000_0000_0000 + data4,
{
    windows::core::GUID::from_values(data1, data2, data3, data4.to_be_bytes()).to_u128()
}

impl Guid {
    /// The identifier as one number of 128 bits.
    pub open spec fn value(self) -> nat {
        (self.data1 * 0x1_0000_0000_0000_0000_0000_0000 + self.data2
            * 0x1_0000_0000_0000_0000_0000 + self.data3 * 0x1_0000_0000_0000_0000
            + self.data4) as nat
    }

    /// The identifier that 16 bytes hold: two numbers in the byte order of
    /// the machine, of four and two and two bytes, then eight single bytes.
    pub open spec fn of_bytes(bytes: Seq<u8>) -> Guid {
        Guid {
            data1: native_value(bytes.subrange(0, 4)) as u32,
            data2: native_value(bytes.subrange(4, 6)) as u16,
            data3: native_value(bytes.subrange(6, 8)) as u16,
            data4: be_value(bytes.subrange(8, 16)) as u64,
        }
    }

    /// The text of the identifier: its 32 lower-case hexadecimal digits in
    /// groups of 8, 4, 4, 4 and 12, with hyphens between the groups and
    /// braces around them.
    pub open spec fn text(self) -> Seq<char> {
        seq!['{'] + hex_text(self.data1 as nat, 8, false) + seq!['-'] + hex_text(
            self.data2 as nat,
            4,
            false,
        ) + seq!['-'] + hex_text(self.data3 as nat, 4, false) + seq!['-'] + hex_text(
            (self.data4 / 0x1_0000_0000_0000) as nat,
            4,
            false,
        ) + seq!['-'] + hex_text(self.data4 as nat, 12, false) + seq!['}']
    }

    /// The identifier as one number of 128 bits.
    pub fn to_u128(&self) -> (r: u128)
        ensures
            r == self.value(),
    {
        guid_to_u128(self.data1, self.data2, self.data3, self.data4)
    }

    /// The text of the identifier.
    pub fn to_string(&self) -> (r: String)
        ensures
            r@ == self.text(),
    {
        let mut s = String::new();
        push_char(&mut s, '{');
        push_hex(&mut s, self.data1 as u64, 8, false);
        push_char(&mut s, '-');
        push_hex(&mut s, self.data2 as u64, 4, false);
        push_char(&mut s, '-');
        push_hex(&mut s, self.data3 as u64, 4, false);
        push_char(&mut s, '-');
        push_hex(&mut s, self.data4 / 0x1_0000_0000_0000, 4, false);
        push_char(&mut s, '-');
        push_hex(&mut s, self.data4, 12, false);
        push_char(&mut s, '}');
        assert(s@ =~= self.text());
        s
    }
}

/// Reads the identifier that lies at the offset `at` of `data`.
pub fn read_guid(data: &[u8], at: usize) -> (r: Guid)
    requires
        at + 16 <= data.len(),
    ensures
        r == Guid::of_bytes(data@.subrange(at as int, at + 16)),
{
    proof {
        let b = data@.subrange(at as int, at + 16);
        assert(b.subrange(0, 4) =~= data@.subrange(at as int, at + 4));
        assert(b.subrange(4, 6) =~= data@.subrange(at + 4, at + 4 + 2));
        assert(b.subrange(6, 8) =~= data@.subrange(at + 6, at + 6 + 2));
        assert(b.subrange(8, 16) =~= data@.subrange(at + 8, at + 8 + 8));
    }
    Guid {
        data1: read_u32(data, at),
        data2: read_u16(data, at + 4),
        data3: read_u16(data, at + 6),
        data4: read_be_u64(data, at + 8),
    }
}

} // verus!
