use ddc_winapi::{
    filetime_epoch, filetime_to_std, CalendarTime, FileTime, Property, PropertyType,
    PropertyTypeMod, UnixTime,
};
use std::borrow::Cow;

fn plain(ty: PropertyType, data: &[u8]) -> Property<'_> {
    Property::new(PropertyTypeMod::Plain(ty), Cow::Borrowed(data))
}

#[test]
fn a_truth_value_widens_to_zero_or_one() {
    assert_eq!(plain(PropertyType::Boolean, &[1]).to_i128(), Some(1));
    assert_eq!(plain(PropertyType::Boolean, &[0xff]).to_i128(), Some(1));
    assert_eq!(plain(PropertyType::Boolean, &[0]).to_i128(), Some(0));
    assert_eq!(plain(PropertyType::Boolean, &[]).to_i128(), None);
    assert_eq!(plain(PropertyType::Boolean, &[0, 0]).to_i128(), None);
}

#[test]
fn the_greatest_u64_widens_without_loss() {
    let bytes = u64::MAX.to_ne_bytes();
    let p = plain(PropertyType::UInt64, &bytes);
    assert_eq!(p.to_i128(), Some(u64::MAX as i128));
    assert_eq!(p.to_i128(), Some(18_446_744_073_709_551_615));
}

#[test]
fn every_integer_type_widens() {
    assert_eq!(plain(PropertyType::Byte, &[200]).to_i128(), Some(200));
    assert_eq!(plain(PropertyType::SByte, &[200]).to_i128(), Some(-56));
    assert_eq!(plain(PropertyType::UInt16, &0xfffeu16.to_ne_bytes()).to_i128(), Some(0xfffe));
    assert_eq!(plain(PropertyType::Int16, &(-2i16).to_ne_bytes()).to_i128(), Some(-2));
    assert_eq!(
        plain(PropertyType::UInt32, &u32::MAX.to_ne_bytes()).to_i128(),
        Some(u32::MAX as i128)
    );
    assert_eq!(
        plain(PropertyType::Int32, &i32::MIN.to_ne_bytes()).to_i128(),
        Some(i32::MIN as i128)
    );
    assert_eq!(
        plain(PropertyType::Int64, &i64::MIN.to_ne_bytes()).to_i128(),
        Some(i64::MIN as i128)
    );
    assert_eq!(plain(PropertyType::Decimal, &(-3i64).to_ne_bytes()).to_i128(), Some(-3));
    assert_eq!(plain(PropertyType::Currency, &(12345i64).to_ne_bytes()).to_i128(), Some(12345));
}

#[test]
fn what_is_no_integer_does_not_widen() {
    assert_eq!(plain(PropertyType::Float, &1.0f32.to_ne_bytes()).to_i128(), None);
    assert_eq!(plain(PropertyType::Double, &1.0f64.to_ne_bytes()).to_i128(), None);
    assert_eq!(plain(PropertyType::FileTime, &[0; 8]).to_i128(), None);
    assert_eq!(plain(PropertyType::Error, &[0; 4]).to_i128(), None);
    assert_eq!(plain(PropertyType::PropertyType, &[0; 4]).to_i128(), None);
    assert_eq!(plain(PropertyType::Null, &[]).to_i128(), None);
    assert_eq!(plain(PropertyType::UInt32, &[0; 3]).to_i128(), None);
    let data = [1u8];
    let array = Property::new(PropertyTypeMod::Array(PropertyType::Byte), Cow::Borrowed(&data[..]));
    assert_eq!(array.to_i128(), None);
}

#[test]
fn the_epoch_of_ticks() {
    assert_eq!(filetime_epoch(), Some(UnixTime { secs: -11_644_473_600, nanos: 0 }));
    let zero = FileTime { low: 0, high: 0 };
    assert_eq!(filetime_to_std(&zero), filetime_epoch());
}

#[test]
fn ticks_to_seconds_and_nanoseconds() {
    // January 1, 1970.
    let ticks: u64 = 116_444_736_000_000_000;
    let t = FileTime { low: ticks as u32, high: (ticks >> 32) as u32 };
    assert_eq!(t.ticks(), ticks);
    assert_eq!(filetime_to_std(&t), Some(UnixTime { secs: 0, nanos: 0 }));
    let ticks: u64 = 116_444_736_000_000_000 + 10_000_000 * 86_400 + 1_234_567;
    let t = FileTime { low: ticks as u32, high: (ticks >> 32) as u32 };
    assert_eq!(filetime_to_std(&t), Some(UnixTime { secs: 86_400, nanos: 123_456_700 }));
    let t = FileTime { low: 1, high: 0 };
    assert_eq!(filetime_to_std(&t), Some(UnixTime { secs: -11_644_473_600, nanos: 100 }));
    let t = FileTime { low: u32::MAX, high: u32::MAX };
    assert_eq!(t.ticks(), u64::MAX);
    assert_eq!(
        filetime_to_std(&t),
        Some(UnixTime { secs: 1_844_674_407_370 - 11_644_473_600, nanos: 955_161_500 })
    );
}

#[test]
fn ticks_from_bytes() {
    let mut bytes = Vec::new();
    bytes.extend_from_slice(&0x89ab_cdefu32.to_ne_bytes());
    bytes.extend_from_slice(&0x01d9_4567u32.to_ne_bytes());
    let t = plain(PropertyType::FileTime, &bytes).get::<FileTime>().unwrap();
    assert_eq!(t, FileTime { low: 0x89ab_cdef, high: 0x01d9_4567 });
    assert_eq!(t.ticks(), 0x01d9_4567_89ab_cdef);
    assert_eq!(t.to_string(), "01d9456789abcdef");
    assert_eq!(
        plain(PropertyType::FileTime, &bytes).get::<UnixTime>(),
        filetime_to_std(&t)
    );
    assert_eq!(plain(PropertyType::FileTime, &bytes[..7]).get::<FileTime>(), None);
    assert_eq!(FileTime { low: 0x1f, high: 0 }.to_string(), "000000000000001f");
}

#[test]
fn calendar_text() {
    let t = CalendarTime {
        year: 2023,
        month: 4,
        day_of_week: 6,
        day: 1,
        hour: 9,
        minute: 5,
        second: 7,
        milliseconds: 3,
    };
    assert_eq!(t.to_string(), "2023-04-01T09:05:07.03");
    let t = CalendarTime {
        year: 1601,
        month: 12,
        day_of_week: 0,
        day: 31,
        hour: 23,
        minute: 59,
        second: 59,
        milliseconds: 999,
    };
    assert_eq!(t.to_string(), "1601-12-31T23:59:59.999");
    let t = CalendarTime {
        year: 30827,
        month: 0,
        day_of_week: 0,
        day: 0,
        hour: 0,
        minute: 0,
        second: 0,
        milliseconds: 0,
    };
    assert_eq!(t.to_string(), "30827-00-00T00:00:00.00");
}
