use ddc_winapi::{
    DoubleBits, FileTime, FixedValue, FloatBits, Guid, HResult, InfoPropertyValue, NtStatus,
    Property, PropertyKey, PropertyType, PropertyTypeMod, UnixTime, Win32Error,
};
use std::borrow::Cow;

fn plain(ty: PropertyType, data: &[u8]) -> Property<'_> {
    Property::new(PropertyTypeMod::Plain(ty), Cow::Borrowed(data))
}

#[test]
fn integers_are_read_in_the_byte_order_of_the_machine() {
    assert_eq!(plain(PropertyType::Byte, &[0xfe]).get::<u8>(), Some(0xfe));
    assert_eq!(plain(PropertyType::SByte, &[0xfe]).get::<i8>(), Some(-2));
    assert_eq!(plain(PropertyType::SByte, &[0x7f]).get::<i8>(), Some(127));
    assert_eq!(plain(PropertyType::SByte, &[0x80]).get::<i8>(), Some(-128));
    assert_eq!(plain(PropertyType::UInt16, &0x1234u16.to_ne_bytes()).get::<u16>(), Some(0x1234));
    assert_eq!(plain(PropertyType::Int16, &(-2i16).to_ne_bytes()).get::<i16>(), Some(-2));
    assert_eq!(plain(PropertyType::Int16, &i16::MIN.to_ne_bytes()).get::<i16>(), Some(i16::MIN));
    assert_eq!(
        plain(PropertyType::UInt32, &0x1234_5678u32.to_ne_bytes()).get::<u32>(),
        Some(0x1234_5678)
    );
    assert_eq!(plain(PropertyType::Int32, &(-7i32).to_ne_bytes()).get::<i32>(), Some(-7));
    assert_eq!(plain(PropertyType::Int32, &i32::MIN.to_ne_bytes()).get::<i32>(), Some(i32::MIN));
    assert_eq!(
        plain(PropertyType::UInt64, &0x0123_4567_89ab_cdefu64.to_ne_bytes()).get::<u64>(),
        Some(0x0123_4567_89ab_cdef)
    );
    assert_eq!(plain(PropertyType::UInt64, &u64::MAX.to_ne_bytes()).get::<u64>(), Some(u64::MAX));
    assert_eq!(plain(PropertyType::Int64, &(-9i64).to_ne_bytes()).get::<i64>(), Some(-9));
    assert_eq!(plain(PropertyType::Int64, &i64::MIN.to_ne_bytes()).get::<i64>(), Some(i64::MIN));
    assert_eq!(plain(PropertyType::Int64, &i64::MAX.to_ne_bytes()).get::<i64>(), Some(i64::MAX));
}

#[test]
fn two_bytes_are_not_handed_back_unchanged() {
    // The first byte is the less significant one on a little-endian machine,
    // the more significant one on a big-endian machine.
    let v = plain(PropertyType::UInt16, &[1, 2]).get::<u16>().unwrap();
    assert_eq!(v, u16::from_ne_bytes([1, 2]));
    assert!(v == 0x0201 || v == 0x0102);
    let v = plain(PropertyType::UInt32, &[1, 2, 3, 4]).get::<u32>().unwrap();
    assert_eq!(v, u32::from_ne_bytes([1, 2, 3, 4]));
    let v = plain(PropertyType::UInt64, &[1, 2, 3, 4, 5, 6, 7, 8]).get::<u64>().unwrap();
    assert_eq!(v, u64::from_ne_bytes([1, 2, 3, 4, 5, 6, 7, 8]));
}

#[test]
fn a_value_of_the_wrong_length_is_refused() {
    assert_eq!(plain(PropertyType::UInt16, &[1]).get::<u16>(), None);
    assert_eq!(plain(PropertyType::UInt16, &[1, 2, 3]).get::<u16>(), None);
    assert_eq!(plain(PropertyType::UInt16, &[]).get::<u16>(), None);
    assert_eq!(plain(PropertyType::UInt32, &[1, 2, 3]).get::<u32>(), None);
    assert_eq!(plain(PropertyType::UInt64, &[0; 9]).get::<u64>(), None);
    assert_eq!(plain(PropertyType::Boolean, &[1, 0]).get::<bool>(), None);
    assert_eq!(plain(PropertyType::Guid, &[0; 15]).get::<Guid>(), None);
    assert_eq!(plain(PropertyType::PropertyKey, &[0; 16]).get::<PropertyKey>(), None);
}

#[test]
fn a_value_of_another_type_is_refused() {
    assert_eq!(plain(PropertyType::Int16, &[1, 2]).get::<u16>(), None);
    assert_eq!(plain(PropertyType::UInt16, &[1, 2]).get::<i16>(), None);
    assert_eq!(plain(PropertyType::Byte, &[1]).get::<bool>(), None);
    assert_eq!(plain(PropertyType::Boolean, &[1]).get::<u8>(), None);
    assert_eq!(
        Property::new(PropertyTypeMod::Array(PropertyType::UInt16), Cow::Borrowed(&[1, 2][..]))
            .get::<u16>(),
        None
    );
    assert_eq!(plain(PropertyType::UInt16, &[1, 2]).get::<Vec<u16>>(), None);
}

#[test]
fn one_wire_type_may_serve_several_targets() {
    let bytes = 0x01d9_0000_0000_0000u64.to_ne_bytes();
    assert_eq!(plain(PropertyType::FileTime, &bytes).get::<u64>(), Some(0x01d9_0000_0000_0000));
    assert_eq!(
        plain(PropertyType::FileTime, &bytes).get::<FileTime>().map(|t| t.ticks()),
        Some(0x01d9_0000_0000_0000)
    );
    assert!(plain(PropertyType::FileTime, &bytes).get::<UnixTime>().is_some());
    assert_eq!(plain(PropertyType::Decimal, &(-5i64).to_ne_bytes()).get::<i64>(), Some(-5));
    assert_eq!(plain(PropertyType::Currency, &(77i64).to_ne_bytes()).get::<i64>(), Some(77));
    assert_eq!(plain(PropertyType::Int64, &bytes).get::<u64>(), None);
}

#[test]
fn truth_values() {
    assert_eq!(plain(PropertyType::Boolean, &[0]).get::<bool>(), Some(false));
    assert_eq!(plain(PropertyType::Boolean, &[1]).get::<bool>(), Some(true));
    assert_eq!(plain(PropertyType::Boolean, &[0xff]).get::<bool>(), Some(true));
}

#[test]
fn floating_point_bits() {
    let bytes = 1.5f32.to_ne_bytes();
    let bits = plain(PropertyType::Float, &bytes).get::<FloatBits>().unwrap();
    assert_eq!(f32::from_bits(bits.bits), 1.5f32);
    let bytes = (-2.25f64).to_ne_bytes();
    let bits = plain(PropertyType::Double, &bytes).get::<DoubleBits>().unwrap();
    assert_eq!(f64::from_bits(bits.bits), -2.25f64);
    let bits = plain(PropertyType::Date, &bytes).get::<DoubleBits>().unwrap();
    assert_eq!(f64::from_bits(bits.bits), -2.25f64);
    assert_eq!(plain(PropertyType::Double, &bytes).get::<FloatBits>(), None);
    assert_eq!(plain(PropertyType::Float, &bytes[..4]).get::<DoubleBits>(), None);
}

#[test]
fn nothing() {
    assert_eq!(plain(PropertyType::Null, &[]).get::<()>(), Some(()));
    assert_eq!(plain(PropertyType::Null, &[1, 2, 3]).get::<()>(), Some(()));
    assert_eq!(plain(PropertyType::Empty, &[]).get::<()>(), None);
}

#[test]
fn property_types_as_values() {
    let bytes = 18u32.to_ne_bytes();
    assert_eq!(
        plain(PropertyType::PropertyType, &bytes).get::<PropertyType>(),
        Some(PropertyType::String)
    );
    assert_eq!(
        plain(PropertyType::PropertyType, &bytes).get::<PropertyTypeMod>(),
        Some(PropertyTypeMod::Plain(PropertyType::String))
    );
    let bytes = 0x2012u32.to_ne_bytes();
    assert_eq!(plain(PropertyType::PropertyType, &bytes).get::<PropertyType>(), None);
    assert_eq!(
        plain(PropertyType::PropertyType, &bytes).get::<PropertyTypeMod>(),
        Some(PropertyTypeMod::List(PropertyType::String))
    );
    let bytes = 26u32.to_ne_bytes();
    assert_eq!(plain(PropertyType::PropertyType, &bytes).get::<PropertyType>(), None);
    assert_eq!(plain(PropertyType::PropertyType, &bytes).get::<PropertyTypeMod>(), None);
    let bytes = 0x0100_0003u32.to_ne_bytes();
    assert_eq!(plain(PropertyType::PropertyType, &bytes).get::<PropertyType>(), None);
}

fn guid_bytes() -> Vec<u8> {
    let mut bytes = Vec::new();
    bytes.extend_from_slice(&0x4d36e96eu32.to_ne_bytes());
    bytes.extend_from_slice(&0xe325u16.to_ne_bytes());
    bytes.extend_from_slice(&0x11ceu16.to_ne_bytes());
    bytes.extend_from_slice(&[0xbf, 0xc1, 0x08, 0x00, 0x2b, 0xe1, 0x03, 0x18]);
    bytes
}

#[test]
fn guids() {
    let bytes = guid_bytes();
    let guid = plain(PropertyType::Guid, &bytes).get::<Guid>().unwrap();
    assert_eq!(
        guid,
        Guid { data1: 0x4d36e96e, data2: 0xe325, data3: 0x11ce, data4: 0xbfc1_0800_2be1_0318 }
    );
    assert_eq!(guid.to_string(), "{4d36e96e-e325-11ce-bfc1-08002be10318}");
    assert_eq!(guid.to_u128(), 0x4d36e96e_e325_11ce_bfc1_08002be10318);
    let theirs = windows::core::GUID::from_u128(0x4d36e96e_e325_11ce_bfc1_08002be10318);
    assert_eq!(theirs.data1, guid.data1);
    assert_eq!(theirs.data2, guid.data2);
    assert_eq!(theirs.data3, guid.data3);
    assert_eq!(u64::from_be_bytes(theirs.data4), guid.data4);
    assert_eq!(theirs.to_u128(), guid.to_u128());
}

#[test]
fn guid_text_keeps_leading_zeros() {
    let guid = Guid { data1: 1, data2: 2, data3: 3, data4: 0x0004_0000_0000_0005 };
    assert_eq!(guid.to_string(), "{00000001-0002-0003-0004-000000000005}");
    assert_eq!(guid.to_u128(), 0x00000001_0002_0003_0004_000000000005);
}

#[test]
fn guids_order_as_their_values_do() {
    let a = Guid { data1: 1, data2: 0xffff, data3: 0xffff, data4: u64::MAX };
    let b = Guid { data1: 2, data2: 0, data3: 0, data4: 0 };
    let c = Guid { data1: 2, data2: 0, data3: 0, data4: 1 };
    assert!(a < b && b < c);
    assert!(a.to_u128() < b.to_u128() && b.to_u128() < c.to_u128());
}

#[test]
fn property_keys() {
    let mut bytes = guid_bytes();
    bytes.extend_from_slice(&14u32.to_ne_bytes());
    let key = plain(PropertyType::PropertyKey, &bytes).get::<PropertyKey>().unwrap();
    assert_eq!(key.id(), 14);
    assert_eq!(key.format().to_string(), "{4d36e96e-e325-11ce-bfc1-08002be10318}");
    assert_eq!(key.to_string(), "{4d36e96e-e325-11ce-bfc1-08002be10318}\\14");
}

#[test]
fn error_codes() {
    let bytes = 5u32.to_ne_bytes();
    assert_eq!(
        plain(PropertyType::Error, &bytes).get::<Win32Error>(),
        Some(Win32Error { code: 5 })
    );
    let code = plain(PropertyType::Error, &bytes).get::<HResult>().unwrap();
    assert_eq!(code, HResult { code: 0x8007_0005u32 as i32 });
    assert_eq!(code.to_string(), "0x80070005");
    assert_eq!(code.code, windows::Win32::Foundation::WIN32_ERROR(5).to_hresult().0);
    assert_eq!(
        plain(PropertyType::Error, &0u32.to_ne_bytes()).get::<HResult>(),
        Some(HResult { code: 0 })
    );
    assert_eq!(Win32Error { code: 0x0012_0005 }.to_hresult(), HResult { code: 0x8007_0005u32 as i32 });
    assert_eq!(Win32Error { code: 0xffff_ffff }.to_hresult(), HResult { code: 0x8007_ffffu32 as i32 });
    assert_eq!(Win32Error { code: 0x0001_0000 }.to_hresult(), HResult { code: 0x8007_0000u32 as i32 });
}

#[test]
fn status_codes() {
    let bytes = (0xC000_0005u32 as i32).to_ne_bytes();
    assert_eq!(
        plain(PropertyType::NtStatus, &bytes).get::<NtStatus>(),
        Some(NtStatus { code: 0xC000_0005u32 as i32 })
    );
    let code = plain(PropertyType::NtStatus, &bytes).get::<HResult>().unwrap();
    assert_eq!(code, HResult { code: 0xD000_0005u32 as i32 });
    assert_eq!(code.to_string(), "0xD0000005");
    assert_eq!(NtStatus { code: 0 }.to_hresult(), HResult { code: 0x1000_0000 });
    assert_eq!(HResult { code: 0 }.to_string(), "0x00000000");
    assert_eq!(HResult { code: 0x1abc }.to_string(), "0x00001ABC");
    assert_eq!(HResult { code: -1 }.to_string(), "0xFFFFFFFF");
    assert_eq!(plain(PropertyType::UInt32, &bytes).get::<HResult>(), None);
    assert_eq!(plain(PropertyType::Error, &bytes[..3]).get::<HResult>(), None);
}

#[test]
fn what_a_type_supports() {
    assert_eq!(u16::canonical_type(), PropertyTypeMod::Plain(PropertyType::UInt16));
    assert_eq!(<Vec<u16>>::canonical_type(), PropertyTypeMod::Array(PropertyType::UInt16));
    assert_eq!(<()>::canonical_type(), PropertyTypeMod::Plain(PropertyType::Null));
    assert_eq!(HResult::canonical_type(), PropertyTypeMod::Plain(PropertyType::Error));
    assert_eq!(FileTime::canonical_type(), PropertyTypeMod::Plain(PropertyType::FileTime));
    assert_eq!(UnixTime::canonical_type(), PropertyTypeMod::Plain(PropertyType::FileTime));
    assert_eq!(String::canonical_type(), PropertyTypeMod::Plain(PropertyType::String));
    assert_eq!(u64::base_type(), PropertyType::UInt64);
    assert_eq!(u64::size(), 8);
    assert_eq!(Guid::size(), 16);
    assert_eq!(PropertyKey::size(), 20);
    assert!(u64::accepts(PropertyType::FileTime));
    assert!(!u64::accepts(PropertyType::Int64));
    assert!(u64::supports_type(PropertyTypeMod::Plain(PropertyType::UInt64)));
    assert!(u64::supports_type(PropertyTypeMod::Plain(PropertyType::FileTime)));
    assert!(!u64::supports_type(PropertyTypeMod::Array(PropertyType::UInt64)));
    assert!(<Vec<u64>>::supports_type(PropertyTypeMod::Array(PropertyType::UInt64)));
    assert!(!<Vec<u64>>::supports_type(PropertyTypeMod::Plain(PropertyType::UInt64)));
    assert!(i64::supports_type(PropertyTypeMod::Plain(PropertyType::Currency)));
    assert!(DoubleBits::supports_type(PropertyTypeMod::Plain(PropertyType::Date)));
    assert!(FileTime::supports_type(PropertyTypeMod::Plain(PropertyType::Date)));
    assert!(FileTime::supports_type(PropertyTypeMod::Plain(PropertyType::FileTime)));
    assert!(UnixTime::supports_type(PropertyTypeMod::Plain(PropertyType::Date)));
    assert!(HResult::supports_type(PropertyTypeMod::Plain(PropertyType::NtStatus)));
    assert!(!HResult::supports_type(PropertyTypeMod::Plain(PropertyType::UInt32)));
    assert!(String::supports_type(PropertyTypeMod::Plain(PropertyType::StringIndirect)));
    assert!(!String::supports_type(PropertyTypeMod::List(PropertyType::String)));
    assert!(<()>::supports_type(PropertyTypeMod::Plain(PropertyType::Null)));
    assert!(!<()>::supports_type(PropertyTypeMod::Plain(PropertyType::Empty)));
}

#[test]
fn a_supported_type_may_still_hold_no_value() {
    // A date is a type that a count of ticks claims, and reads nothing from.
    let bytes = 2.0f64.to_ne_bytes();
    assert!(FileTime::supports_type(PropertyTypeMod::Plain(PropertyType::Date)));
    assert_eq!(plain(PropertyType::Date, &bytes).get::<FileTime>(), None);
    assert_eq!(plain(PropertyType::Date, &bytes).get::<UnixTime>(), None);
}

#[test]
fn get_plain_and_get_agree_on_single_values() {
    let bytes = 0xbeefu16.to_ne_bytes();
    assert_eq!(u16::get_plain(PropertyType::UInt16, &bytes), Some(0xbeef));
    assert_eq!(u16::get(PropertyTypeMod::Plain(PropertyType::UInt16), &bytes), Some(0xbeef));
    assert_eq!(<Vec<u16>>::get_plain(PropertyType::UInt16, &bytes), None);
    assert_eq!(
        <Vec<u16>>::get(PropertyTypeMod::Array(PropertyType::UInt16), &bytes),
        Some(vec![0xbeef])
    );
}

#[test]
fn decoding_again_gives_the_same() {
    let bytes = 0x1234_5678u32.to_ne_bytes();
    let p = plain(PropertyType::UInt32, &bytes);
    assert_eq!(p.get::<u32>(), p.get::<u32>());
    assert_eq!(p.get::<u32>(), Some(0x1234_5678));
    assert_eq!(p.get::<u16>(), p.get::<u16>());
}

#[test]
fn a_borrowed_value_is_read_only_from_borrowed_bytes() {
    let bytes = 0x1234u16.to_ne_bytes();
    let borrowed = Property::new(PropertyTypeMod::Plain(PropertyType::UInt16), Cow::Borrowed(&bytes[..]));
    let owned = Property::new(PropertyTypeMod::Plain(PropertyType::UInt16), Cow::Owned(bytes.to_vec()));
    assert_eq!(borrowed.get_ref::<u16>(), Some(0x1234));
    assert_eq!(owned.get_ref::<u16>(), None);
    assert_eq!(owned.get::<u16>(), Some(0x1234));
    assert_eq!(borrowed.get_ref::<i16>(), None);
    assert_eq!(borrowed.data(), &bytes[..]);
    assert_eq!(owned.data(), &bytes[..]);
}

#[test]
fn clones_are_equal() {
    let bytes = [1u8, 2, 3];
    let borrowed = Property::new(PropertyTypeMod::Array(PropertyType::Byte), Cow::Borrowed(&bytes[..]));
    let owned = Property::new(PropertyTypeMod::Array(PropertyType::Byte), Cow::Owned(bytes.to_vec()));
    assert_eq!(borrowed.clone(), borrowed);
    assert_eq!(owned.clone(), owned);
    assert_eq!(owned, borrowed);
    assert!(matches!(borrowed.clone().data, Cow::Borrowed(_)));
    assert!(matches!(owned.clone().data, Cow::Owned(_)));
}

#[test]
fn bytes_are_borrowed_from_a_property_that_borrows_them() {
    let bytes = [1u8, 2, 3];
    let borrowed = Property::new(PropertyTypeMod::Array(PropertyType::Byte), Cow::Borrowed(&bytes[..]));
    let owned = Property::new(PropertyTypeMod::Array(PropertyType::Byte), Cow::Owned(bytes.to_vec()));
    let outlives: &[u8] = {
        let copy = borrowed.clone();
        copy.get_ref::<&[u8]>().unwrap()
    };
    assert_eq!(outlives, &bytes[..]);
    assert_eq!(owned.get_ref::<&[u8]>(), None);
    assert_eq!(owned.get::<&[u8]>(), Some(&bytes[..]));
    assert!(matches!(borrowed.borrow(), Some(Cow::Borrowed(b)) if b == &bytes[..]));
    assert!(matches!(owned.borrow(), Some(Cow::Owned(b)) if b == bytes.to_vec()));
    let other = Property::new(PropertyTypeMod::Array(PropertyType::SByte), Cow::Borrowed(&bytes[..]));
    assert_eq!(other.get::<&[u8]>(), None);
    assert_eq!(other.borrow(), None);
    let plain = Property::new(PropertyTypeMod::Plain(PropertyType::Byte), Cow::Borrowed(&bytes[..1]));
    assert_eq!(plain.get::<&[u8]>(), None);
    assert_eq!(<&[u8]>::canonical_type(), PropertyTypeMod::Array(PropertyType::Byte));
    assert!(<&[u8]>::supports_type(PropertyTypeMod::Array(PropertyType::Byte)));
    assert_eq!(<&[u8]>::get_plain(PropertyType::Byte, &bytes), None);
}
