use ddc_winapi::ty::{
    BASE_TYPE_MASK, MODIFIER_MASK, DEVPROP_TYPEMOD_ARRAY, DEVPROP_TYPEMOD_LIST,
    MAX_DEVPROP_TYPE, MIN_DEVPROP_TYPE,
};
use ddc_winapi::{DecodeError, PropertyType, PropertyTypeMod};
use windows::Win32::Devices::Properties;

fn all_types() -> Vec<PropertyType> {
    (0..=25u32).map(|code| PropertyType::from_win32(code).unwrap()).collect()
}

#[test]
fn type_codes_outside_the_range_are_refused() {
    assert_eq!(PropertyType::from_win32(26), None);
    assert_eq!(PropertyType::from_win32(u32::MAX), None);
    assert_eq!(PropertyType::try_from_win32(26), Err(DecodeError::InvalidType));
    assert_eq!(PropertyType::from_win32(25), Some(PropertyType::StringIndirect));
    assert_eq!(PropertyType::from_win32(0), Some(PropertyType::Empty));
    for code in 26..5000u32 {
        assert_eq!(PropertyType::from_win32(code), None);
    }
}

#[test]
fn type_codes_round_trip() {
    for code in 0..=25u32 {
        let ty = PropertyType::from_win32(code).unwrap();
        assert_eq!(ty.win32_devprop_type(), code);
        assert_eq!(PropertyType::try_from_win32(code), Ok(ty));
    }
}

#[test]
fn type_codes_are_those_of_the_system_headers() {
    assert_eq!(MIN_DEVPROP_TYPE, 0);
    assert_eq!(MAX_DEVPROP_TYPE, Properties::MAX_DEVPROP_TYPE);
    assert_eq!(DEVPROP_TYPEMOD_ARRAY, Properties::DEVPROP_TYPEMOD_ARRAY);
    assert_eq!(DEVPROP_TYPEMOD_LIST, Properties::DEVPROP_TYPEMOD_LIST);
    assert_eq!(BASE_TYPE_MASK, 0x1f);
    assert_eq!(MODIFIER_MASK, 0xffff_ffe0);
    assert_eq!(BASE_TYPE_MASK & Properties::MAX_DEVPROP_TYPE, Properties::MAX_DEVPROP_TYPE);
    let pairs = [
        (PropertyType::Empty, Properties::DEVPROP_TYPE_EMPTY),
        (PropertyType::Null, Properties::DEVPROP_TYPE_NULL),
        (PropertyType::SByte, Properties::DEVPROP_TYPE_SBYTE),
        (PropertyType::Byte, Properties::DEVPROP_TYPE_BYTE),
        (PropertyType::Int16, Properties::DEVPROP_TYPE_INT16),
        (PropertyType::UInt16, Properties::DEVPROP_TYPE_UINT16),
        (PropertyType::Int32, Properties::DEVPROP_TYPE_INT32),
        (PropertyType::UInt32, Properties::DEVPROP_TYPE_UINT32),
        (PropertyType::Int64, Properties::DEVPROP_TYPE_INT64),
        (PropertyType::UInt64, Properties::DEVPROP_TYPE_UINT64),
        (PropertyType::Float, Properties::DEVPROP_TYPE_FLOAT),
        (PropertyType::Double, Properties::DEVPROP_TYPE_DOUBLE),
        (PropertyType::Decimal, Properties::DEVPROP_TYPE_DECIMAL),
        (PropertyType::Guid, Properties::DEVPROP_TYPE_GUID),
        (PropertyType::Currency, Properties::DEVPROP_TYPE_CURRENCY),
        (PropertyType::Date, Properties::DEVPROP_TYPE_DATE),
        (PropertyType::FileTime, Properties::DEVPROP_TYPE_FILETIME),
        (PropertyType::Boolean, Properties::DEVPROP_TYPE_BOOLEAN),
        (PropertyType::String, Properties::DEVPROP_TYPE_STRING),
        (PropertyType::SecurityDescriptor, Properties::DEVPROP_TYPE_SECURITY_DESCRIPTOR),
        (
            PropertyType::SecurityDescriptorString,
            Properties::DEVPROP_TYPE_SECURITY_DESCRIPTOR_STRING,
        ),
        (PropertyType::PropertyKey, Properties::DEVPROP_TYPE_DEVPROPKEY),
        (PropertyType::PropertyType, Properties::DEVPROP_TYPE_DEVPROPTYPE),
        (PropertyType::Error, Properties::DEVPROP_TYPE_ERROR),
        (PropertyType::NtStatus, Properties::DEVPROP_TYPE_NTSTATUS),
        (PropertyType::StringIndirect, Properties::DEVPROP_TYPE_STRING_INDIRECT),
    ];
    for (ty, code) in pairs {
        assert_eq!(ty.win32_devprop_type(), code.0);
    }
    assert_eq!(
        PropertyTypeMod::List(PropertyType::String).win32_devprop_type(),
        Properties::DEVPROP_TYPE_STRING_LIST.0
    );
    assert_eq!(
        PropertyTypeMod::Array(PropertyType::Byte).win32_devprop_type(),
        Properties::DEVPROP_TYPE_BINARY.0
    );
}

#[test]
fn types_order_as_their_codes_do() {
    let types = all_types();
    for pair in types.windows(2) {
        assert!(pair[0] < pair[1]);
    }
}

#[test]
fn type_words_round_trip_for_every_shape_and_type() {
    for ty in all_types() {
        for m in [PropertyTypeMod::Plain(ty), PropertyTypeMod::Array(ty), PropertyTypeMod::List(ty)]
        {
            let word = m.win32_devprop_type();
            assert_eq!(PropertyTypeMod::from_win32(word), Some(m));
            assert_eq!(PropertyTypeMod::try_from_win32(word), Ok(m));
            assert_eq!(m.base_type(), ty);
        }
    }
}

#[test]
fn type_word_values() {
    assert_eq!(PropertyTypeMod::Plain(PropertyType::UInt32).win32_devprop_type(), 7);
    assert_eq!(PropertyTypeMod::Array(PropertyType::Byte).win32_devprop_type(), 0x1003);
    assert_eq!(PropertyTypeMod::List(PropertyType::String).win32_devprop_type(), 0x2012);
    assert_eq!(PropertyTypeMod::from_win32(0x2012), Some(PropertyTypeMod::List(PropertyType::String)));
    assert_eq!(PropertyTypeMod::from_win32(0x1003), Some(PropertyTypeMod::Array(PropertyType::Byte)));
    assert_eq!(PropertyTypeMod::from_win32(17), Some(PropertyTypeMod::Plain(PropertyType::Boolean)));
}

#[test]
fn type_words_with_unknown_bits_are_refused() {
    // Both modifiers at once.
    assert_eq!(PropertyTypeMod::from_win32(0x3003), None);
    // A bit between the base type and the modifiers.
    assert_eq!(PropertyTypeMod::from_win32(0x0020), None);
    assert_eq!(PropertyTypeMod::from_win32(0x0800 | 3), None);
    // A bit above the modifiers.
    assert_eq!(PropertyTypeMod::from_win32(0x4000 | 3), None);
    assert_eq!(PropertyTypeMod::from_win32(0x8000_0000), None);
    // Base bits that name no type.
    assert_eq!(PropertyTypeMod::from_win32(26), None);
    assert_eq!(PropertyTypeMod::from_win32(31), None);
    assert_eq!(PropertyTypeMod::from_win32(0x1000 | 26), None);
    assert_eq!(PropertyTypeMod::from_win32(0x2000 | 31), None);
    assert_eq!(PropertyTypeMod::try_from_win32(0x3003), Err(DecodeError::InvalidTypeMod));
    assert_eq!(PropertyTypeMod::try_from_win32(26), Err(DecodeError::InvalidTypeMod));
    assert_eq!(PropertyTypeMod::from_win32(u32::MAX), None);
}

#[test]
fn every_word_that_decodes_encodes_to_itself() {
    for word in 0..0x5000u32 {
        if let Some(m) = PropertyTypeMod::from_win32(word) {
            assert_eq!(m.win32_devprop_type(), word);
        }
    }
}

#[test]
fn parse_splits_modifier_and_base() {
    assert_eq!(PropertyTypeMod::parse_win32(0x2012), Some((0x2000, 0x12)));
    assert_eq!(PropertyTypeMod::parse_win32(0x1003), Some((0x1000, 3)));
    assert_eq!(PropertyTypeMod::parse_win32(0x1f), Some((0, 0x1f)));
    assert_eq!(PropertyTypeMod::parse_win32(0x3000), None);
    assert_eq!(PropertyTypeMod::parse_win32(0x20), None);
}

#[test]
fn classification() {
    let strings = [
        PropertyType::String,
        PropertyType::StringIndirect,
        PropertyType::SecurityDescriptorString,
    ];
    let ints = [
        PropertyType::Byte,
        PropertyType::SByte,
        PropertyType::Int16,
        PropertyType::UInt16,
        PropertyType::Int32,
        PropertyType::UInt32,
        PropertyType::Int64,
        PropertyType::UInt64,
        PropertyType::Decimal,
        PropertyType::Currency,
        PropertyType::Boolean,
    ];
    let floats = [PropertyType::Float, PropertyType::Double, PropertyType::Date];
    for ty in all_types() {
        assert_eq!(ty.is_string(), strings.contains(&ty));
        assert_eq!(ty.is_int(), ints.contains(&ty));
        assert_eq!(ty.is_float(), floats.contains(&ty));
    }
}

#[test]
fn static_sizes() {
    assert_eq!(PropertyType::Boolean.static_size(), Some(1));
    assert_eq!(PropertyType::Byte.static_size(), Some(1));
    assert_eq!(PropertyType::SByte.static_size(), Some(1));
    assert_eq!(PropertyType::Int16.static_size(), Some(2));
    assert_eq!(PropertyType::UInt16.static_size(), Some(2));
    assert_eq!(PropertyType::Int32.static_size(), Some(4));
    assert_eq!(PropertyType::UInt32.static_size(), Some(4));
    assert_eq!(PropertyType::Float.static_size(), Some(4));
    assert_eq!(PropertyType::Int64.static_size(), Some(8));
    assert_eq!(PropertyType::UInt64.static_size(), Some(8));
    assert_eq!(PropertyType::FileTime.static_size(), Some(8));
    assert_eq!(PropertyType::Decimal.static_size(), Some(8));
    assert_eq!(PropertyType::Currency.static_size(), Some(8));
    assert_eq!(PropertyType::Double.static_size(), Some(8));
    assert_eq!(PropertyType::Date.static_size(), Some(8));
    assert_eq!(PropertyType::PropertyKey.static_size(), Some(20));
    assert_eq!(PropertyType::PropertyType.static_size(), Some(4));
    assert_eq!(PropertyType::Error.static_size(), Some(4));
    assert_eq!(PropertyType::NtStatus.static_size(), Some(4));
    assert_eq!(PropertyType::Guid.static_size(), Some(16));
    assert_eq!(PropertyType::String.static_size(), None);
    assert_eq!(PropertyType::StringIndirect.static_size(), None);
    assert_eq!(PropertyType::SecurityDescriptorString.static_size(), None);
    assert_eq!(PropertyType::SecurityDescriptor.static_size(), None);
    assert_eq!(PropertyType::Empty.static_size(), None);
    assert_eq!(PropertyType::Null.static_size(), None);
}

#[test]
fn shapes() {
    assert_eq!(PropertyType::Byte.as_plain(), PropertyTypeMod::Plain(PropertyType::Byte));
    assert_eq!(PropertyType::Byte.as_array(), Some(PropertyTypeMod::Array(PropertyType::Byte)));
    assert_eq!(PropertyType::String.as_array(), None);
    assert_eq!(PropertyType::String.as_list(), Some(PropertyTypeMod::List(PropertyType::String)));
    assert_eq!(
        PropertyType::StringIndirect.as_list(),
        Some(PropertyTypeMod::List(PropertyType::StringIndirect))
    );
    assert_eq!(PropertyType::Byte.as_list(), None);
    assert_eq!(PropertyType::Guid.as_list(), None);
    assert!(PropertyType::String.as_list().unwrap().is_valid());
    assert!(PropertyType::Guid.as_array().unwrap().is_valid());
    assert!(PropertyTypeMod::Plain(PropertyType::String).is_valid());
    assert!(PropertyTypeMod::Array(PropertyType::Guid).is_valid());
    assert!(!PropertyTypeMod::Array(PropertyType::String).is_valid());
    assert!(PropertyTypeMod::List(PropertyType::String).is_valid());
    assert!(!PropertyTypeMod::List(PropertyType::Byte).is_valid());
    assert!(!PropertyTypeMod::Plain(PropertyType::Byte).is_sequence());
    assert!(PropertyTypeMod::Array(PropertyType::Byte).is_sequence());
    assert!(PropertyTypeMod::List(PropertyType::String).is_sequence());
}

#[test]
fn names() {
    assert_eq!(PropertyType::Boolean.to_string(), "DEVPROP_TYPE_BOOLEAN");
    assert_eq!(PropertyType::PropertyKey.name(), "DEVPROP_TYPE_DEVPROPKEY");
    assert_eq!(PropertyType::PropertyType.name(), "DEVPROP_TYPE_DEVPROPTYPE");
    assert_eq!(
        PropertyType::SecurityDescriptorString.name(),
        "DEVPROP_TYPE_SECURITY_DESCRIPTOR_STRING"
    );
    assert_eq!(PropertyTypeMod::Plain(PropertyType::UInt64).to_string(), "DEVPROP_TYPE_UINT64");
    assert_eq!(PropertyTypeMod::Array(PropertyType::Byte).to_string(), "[DEVPROP_TYPE_BYTE]");
    assert_eq!(PropertyTypeMod::List(PropertyType::String).to_string(), "[DEVPROP_TYPE_STRING]");
    for ty in all_types() {
        assert!(ty.name().starts_with("DEVPROP_TYPE_"));
        assert_eq!(ty.to_string(), ty.name());
    }
}

#[test]
fn conversions() {
    assert_eq!(PropertyTypeMod::from(PropertyType::Guid), PropertyTypeMod::Plain(PropertyType::Guid));
    assert_eq!(u32::from(PropertyType::Guid), 13);
    assert_eq!(u32::from(PropertyTypeMod::List(PropertyType::String)), 0x2012);
    assert_eq!(PropertyType::try_from(13u32), Ok(PropertyType::Guid));
    assert_eq!(PropertyType::try_from(26u32), Err(DecodeError::InvalidType));
    assert_eq!(PropertyTypeMod::try_from(0x2012u32), Ok(PropertyTypeMod::List(PropertyType::String)));
    assert_eq!(PropertyTypeMod::try_from(0x3012u32), Err(DecodeError::InvalidTypeMod));
}
