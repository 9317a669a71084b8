//! Time stamps.

use crate::bytes::{native_value, read_u32};
use crate::text::{hex_text, padded_text, push_char, push_hex, push_padded};
use vstd::prelude::*;
use vstd::string::*;

verus! {

/// The seconds from January 1, 1601 to January 1, 1970.
pub const FILETIME_EPOCH_SECONDS: i64 = 11_644_473_600;

/// The ticks of 100 nanoseconds in a second.
pub const TICKS_PER_SECOND: u64 = 10_000_000;

/// A count of 100-nanosecond ticks since January 1, 1601, in two halves.
#[derive(Clone, Copy, Debug, PartialEq, Eq, PartialOrd, Ord, Hash, Structural)]
pub struct FileTime {
    /// The low 32 bits of the count.
    pub low: u32,
    /// The high 32 bits of the count.
    pub high: u32,
}

/// A point in time: whole seconds since January 1, 1970, negative before
/// it, and the nanoseconds after that second.
#[derive(Clone, Copy, Debug, PartialEq, Eq, PartialOrd, Ord, Hash, Structural)]
pub struct UnixTime {
    /// The whole seconds since January 1, 1970.
    pub secs: i64,
    /// The nanoseconds after that second, below 1,000,000,000.
    pub nanos: u32,
}

/// A date and a time of day, as a calendar shows them.
#[derive(Clone, Copy, Debug, PartialEq, Eq, Hash, Structural)]
pub struct CalendarTime {
    /// The year.
    pub year: u16,
    /// The month, January being 1.
    pub month: u16,
    /// The day of the week, Sunday being 0.
    pub day_of_week: u16,
    /// The day of the month.
    pub day: u16,
    /// The hour.
    pub hour: u16,
    /// The minute.
    pub minute: u16,
    /// The second.
    pub second: u16,
    /// The milliseconds.
    pub milliseconds: u16,
}

impl DeepView for FileTime {
    type V = FileTime;

    open spec fn deep_view(&self) -> FileTime {
        *self
    }
}

impl DeepView for UnixTime {
    type V = UnixTime;

    open spec fn deep_view(&self) -> UnixTime {
        *self
    }
}

impl FileTime {
    /// The count that eight bytes hold: the low half in the first four,
    /// the high half in the last four, each in the byte order of the
    /// machine.
    pub open spec fn of_bytes(bytes: Seq<u8>) -> FileTime {
        FileTime {
            low: native_value(bytes.subrange(0, 4)) as u32,
            high: native_value(bytes.subrange(4, 8)) as u32,
        }
    }

    /// The count of ticks.
    pub open spec fn spec_ticks(self) -> nat {
        (self.high * 0x1_0000_0000 + self.low) as nat
    }

    /// The point in time that lies this many ticks after January 1, 1601.
    pub open spec fn unix_time(self) -> UnixTime {
        UnixTime {
            secs: (self.spec_ticks() / 10_000_000 - 11_644_473_600) as i64,
            nanos: ((self.spec_ticks() % 10_000_000) * 100) as u32,
        }
    }

    /// The text of the count: the eight lower-case hexadecimal digits of
    /// the high half, then those of the low half.
    pub open spec fn text(self) -> Seq<char> {
        hex_text(self.high as nat, 8, false) + hex_text(self.low as nat, 8, false)
    }

    /// The count of ticks.
    pub fn ticks(&self) -> (r: u64)
        ensures
            r == self.spec_ticks(),
    {
        (self.high as u64) * 0x1_0000_0000 + (self.low as u64)
    }

    /// The text of the count.
    pub fn to_string(&self) -> (r: String)
        ensures
            r@ == self.text(),
    {
        let mut s = String::new();
        push_hex(&mut s, self.high as u64, 8, false);
        push_hex(&mut s, self.low as u64, 8, false);
        assert(s@ =~= self.text());
        s
    }
}

impl UnixTime {
    /// Whether the nanoseconds stay below a second.
    pub open spec fn wf(self) -> bool {
        self.nanos < 1_000_000_000
    }
}

impl CalendarTime {
    /// The text of the date and time: year, month and day with hyphens
    /// between them, a `T`, hour, minute and second with colons between
    /// them, a full stop and the milliseconds. The year has at least four
    /// digits, every other number at least two.
    pub open spec fn text(self) -> Seq<char> {
        padded_text(self.year as nat, 4) + seq!['-'] + padded_text(self.month as nat, 2)
            + seq!['-'] + padded_text(self.day as nat, 2) + seq!['T'] + padded_text(
            self.hour as nat,
            2,
        ) + seq![':'] + padded_text(self.minute as nat, 2) + seq![':'] + padded_text(
            self.second as nat,
            2,
        ) + seq!['.'] + padded_text(self.milliseconds as nat, 2)
    }

    /// The text of the date and time.
    pub fn to_string(&self) -> (r: String)
        ensures
            r@ == self.text(),
    {
        let mut s = String::new();
        push_padded(&mut s, self.year as u128, 4);
        push_char(&mut s, '-');
        push_padded(&mut s, self.month as u128, 2);
        push_char(&mut s, '-');
        push_padded(&mut s, self.day as u128, 2);
        push_char(&mut s, 'T');
        push_padded(&mut s, self.hour as u128, 2);
        push_char(&mut s, ':');
        push_padded(&mut s, self.minute as u128, 2);
        push_char(&mut s, ':');
        push_padded(&mut s, self.second as u128, 2);
        push_char(&mut s, '.');
        push_padded(&mut s, self.milliseconds as u128, 2);
        assert(s@ =~= self.text());
        s
    }
}

/// Reads the count of ticks that lies at the offset `at` of `data`.
pub fn read_filetime(data: &[u8], at: usize) -> (r: FileTime)
    requires
        at + 8 <= data.len(),
    ensures
        r == FileTime::of_bytes(data@.subrange(at as int, at + 8)),
{
    proof {
        let b = data@.subrange(at as int, at + 8);
        assert(b.subrange(0, 4) =~= data@.subrange(at as int, at + 4));
        assert(b.subrange(4, 8) =~= data@.subrange(at + 4, at + 4 + 4));
    }
    FileTime { low: read_u32(data, at), high: read_u32(data, at + 4) }
}

/// January 1, 1601, from which ticks are counted: 11,644,473,600 seconds
/// before January 1, 1970.
pub fn filetime_epoch() -> (r: Option<UnixTime>)
    ensures
        r matches Some(t) && t.secs == -11_644_473_600 && t.nanos == 0,
{
    Some(UnixTime { secs: -FILETIME_EPOCH_SECONDS, nanos: 0 })
}

/// The point in time of a count of ticks: the whole seconds of the count
/// after January 1, 1601, and a hundred nanoseconds for each tick that is
/// left.
pub fn filetime_to_std(v: &FileTime) -> (r: Option<UnixTime>)
    ensures
        r == Some(v.unix_time()),
        v.unix_time().wf(),
        v.unix_time().secs == v.spec_ticks() / 10_000_000 - 11_644_473_600,
        v.unix_time().nanos == (v.spec_ticks() % 10_000_000) * 100,
{
    let ticks: u64 = v.ticks();
    let secs: u64 = ticks / TICKS_PER_SECOND;
    let nanos: u32 = ((ticks % TICKS_PER_SECOND) as u32) * 100;
    match filetime_epoch() {
        Some(epoch) => Some(UnixTime { secs: epoch.secs + (secs as i64), nanos }),
        None => None,
    }
}

} // verus!
