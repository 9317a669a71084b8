//! What a monitor answers over DDC/CI, in the form its callers want it.

use vstd::prelude::*;

verus! {

/// The code type of a feature that starts an operation of the monitor and
/// falls back by itself.
pub const MC_MOMENTARY: i32 = 0;

/// The code type of a feature that sets a parameter of the monitor.
pub const MC_SET_PARAMETER: i32 = 1;

/// The value of a feature: its type, and the maximum and the current value
/// in two bytes each.
#[derive(Clone, Copy, Debug, PartialEq, Eq, Hash, Structural)]
pub struct VcpReply {
    /// 0 for a feature that sets a parameter, 1 for a momentary one.
    pub ty: u8,
    /// The high byte of the maximum.
    pub mh: u8,
    /// The low byte of the maximum.
    pub ml: u8,
    /// The high byte of the current value.
    pub sh: u8,
    /// The low byte of the current value.
    pub sl: u8,
}

/// The timing of a monitor: a status byte and two frequencies.
#[derive(Clone, Copy, Debug, PartialEq, Eq, Hash, Structural)]
pub struct TimingReply {
    /// The status byte.
    pub timing_status: u8,
    /// The horizontal frequency.
    pub horizontal_frequency: u16,
    /// The vertical frequency.
    pub vertical_frequency: u16,
}

/// The value of a feature, from what the operating system reports of it:
/// the low two bytes of the maximum and of the current value, and the type
/// 1 for a momentary feature and 0 for every other.
pub fn vcp_reply(code_type: i32, current: u32, maximum: u32) -> (r: VcpReply)
    ensures
        r.ty == if code_type == MC_MOMENTARY {
            1u8
        } else {
            0u8
        },
        r.mh == (maximum / 256) % 256,
        r.ml == maximum % 256,
        r.sh == (current / 256) % 256,
        r.sl == current % 256,
{
    VcpReply {
        ty: if code_type == MC_MOMENTARY {
            1
        } else {
            0
        },
        mh: ((maximum / 256) % 256) as u8,
        ml: (maximum % 256) as u8,
        sh: ((current / 256) % 256) as u8,
        sl: (current % 256) as u8,
    }
}

/// The timing of a monitor, from what the operating system reports of it:
/// the status byte, and the low two bytes of each frequency.
pub fn timing_reply(status: u8, horizontal: u32, vertical: u32) -> (r: TimingReply)
    ensures
        r.timing_status == status,
        r.horizontal_frequency == horizontal % 0x1_0000,
        r.vertical_frequency == vertical % 0x1_0000,
{
    TimingReply {
        timing_status: status,
        horizontal_frequency: (horizontal % 0x1_0000) as u16,
        vertical_frequency: (vertical % 0x1_0000) as u16,
    }
}

/// The capabilities string without its last byte, which is the NUL that
/// ends it; an empty string stays empty.
pub fn trim_capabilities(string: Vec<u8>) -> (r: Vec<u8>)
    ensures
        r@ == if string@.len() > 0 {
            string@.drop_last()
        } else {
            string@
        },
{
    let mut string = string;
    let _ = string.pop();
    string
}

/// How many bytes of an EDID of `edid_len` bytes are read from the offset
/// `offset` into a buffer of `capacity` bytes: as many as are left and
/// fit; nothing where the offset lies beyond the EDID.
pub fn edid_span(edid_len: usize, offset: u8, capacity: usize) -> (r: Option<usize>)
    ensures
        r == if offset <= edid_len {
            Some(
                if capacity <= edid_len - offset {
                    capacity
                } else {
                    (edid_len - offset) as usize
                },
            )
        } else {
            None
        },
{
    let offset: usize = offset as usize;
    if offset > edid_len {
        return None;
    }
    let left: usize = edid_len - offset;
    if capacity <= left {
        Some(capacity)
    } else {
        Some(left)
    }
}

} // verus!
