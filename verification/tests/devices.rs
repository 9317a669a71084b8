use ddc_winapi::device::{
    hardware_id, id_matches, id_source, is_monitor_id, is_primary, same_units, starts_with,
    DeviceClass, IdSource,
};
use ddc_winapi::vcp::{
    edid_span, timing_reply, trim_capabilities, vcp_reply, TimingReply, VcpReply, MC_MOMENTARY,
    MC_SET_PARAMETER,
};
use ddc_winapi::WideCString;

fn units(s: &str) -> Vec<u16> {
    s.encode_utf16().collect()
}

fn c_string(s: &str) -> WideCString {
    let mut u = units(s);
    u.push(0);
    WideCString::from_slice(&u).unwrap()
}

#[test]
fn code_types_are_those_of_the_system_headers() {
    assert_eq!(MC_MOMENTARY, windows::Win32::Devices::Display::MC_MOMENTARY.0);
    assert_eq!(MC_SET_PARAMETER, windows::Win32::Devices::Display::MC_SET_PARAMETER.0);
}

#[test]
fn feature_values() {
    assert_eq!(
        vcp_reply(MC_SET_PARAMETER, 0x1234, 0xabcd),
        VcpReply { ty: 0, mh: 0xab, ml: 0xcd, sh: 0x12, sl: 0x34 }
    );
    assert_eq!(
        vcp_reply(MC_MOMENTARY, 50, 100),
        VcpReply { ty: 1, mh: 0, ml: 100, sh: 0, sl: 50 }
    );
    assert_eq!(vcp_reply(7, 0, 0).ty, 0);
    assert_eq!(vcp_reply(-1, 0, 0).ty, 0);
    assert_eq!(
        vcp_reply(MC_SET_PARAMETER, 0xffff_1234, 0x0001_0000),
        VcpReply { ty: 0, mh: 0, ml: 0, sh: 0x12, sl: 0x34 }
    );
}

#[test]
fn timing() {
    assert_eq!(
        timing_reply(0x80, 67_500, 60),
        TimingReply { timing_status: 0x80, horizontal_frequency: (67_500u32 % 65_536) as u16, vertical_frequency: 60 }
    );
    assert_eq!(timing_reply(0, 65_535, 65_536).horizontal_frequency, 65_535);
    assert_eq!(timing_reply(0, 65_535, 65_536).vertical_frequency, 0);
}

#[test]
fn capabilities_lose_their_nul() {
    assert_eq!(trim_capabilities(b"(prot(monitor))\0".to_vec()), b"(prot(monitor))".to_vec());
    assert_eq!(trim_capabilities(b"x".to_vec()), Vec::<u8>::new());
    assert_eq!(trim_capabilities(Vec::new()), Vec::<u8>::new());
}

#[test]
fn edid_spans() {
    assert_eq!(edid_span(128, 0, 256), Some(128));
    assert_eq!(edid_span(128, 0, 64), Some(64));
    assert_eq!(edid_span(128, 100, 64), Some(28));
    assert_eq!(edid_span(128, 128, 64), Some(0));
    assert_eq!(edid_span(128, 129, 64), None);
    assert_eq!(edid_span(0, 0, 64), Some(0));
    assert_eq!(edid_span(0, 1, 64), None);
    assert_eq!(edid_span(1000, 255, 0), Some(0));
}

#[test]
fn primary_flag() {
    assert!(is_primary(1));
    assert!(is_primary(3));
    assert!(!is_primary(0));
    assert!(!is_primary(2));
    assert!(is_primary(u32::MAX));
}

#[test]
fn prefixes() {
    assert!(starts_with(&units("MONITOR\\ABC"), &units("MONITOR\\")));
    assert!(starts_with(&units("abc"), &units("abc")));
    assert!(starts_with(&units("abc"), &[]));
    assert!(!starts_with(&units("ab"), &units("abc")));
    assert!(!starts_with(&units("abd"), &units("abc")));
    assert!(same_units(&units("abc"), &units("abc")));
    assert!(!same_units(&units("abc"), &units("abcd")));
    assert!(!same_units(&units("abc"), &units("abd")));
    assert!(same_units(&[], &[]));
}

#[test]
fn monitor_identifiers() {
    assert!(is_monitor_id(&units("MONITOR\\GSM5B09\\{4d36e96e-e325-11ce-bfc1-08002be10318}\\0001")));
    assert!(is_monitor_id(&units("MONITOR\\")));
    assert!(!is_monitor_id(&units("MONITOR")));
    assert!(!is_monitor_id(&units("PCI\\VEN_10DE")));
    assert!(!is_monitor_id(&units("monitor\\x")));
    assert!(!is_monitor_id(&[]));
}

#[test]
fn hardware_identifiers() {
    let ids = vec![c_string("MONITOR\\GSM5B09")];
    let driver = c_string("{4d36e96e-e325-11ce-bfc1-08002be10318}\\0001");
    assert_eq!(
        hardware_id(&ids, &driver),
        units("MONITOR\\GSM5B09\\{4d36e96e-e325-11ce-bfc1-08002be10318}\\0001")
    );
    let ids = vec![c_string("a"), c_string("bc")];
    assert_eq!(hardware_id(&ids, &c_string("d")), units("a\\bc\\d"));
    assert_eq!(hardware_id(&vec![], &c_string("d")), units("d"));
    assert_eq!(hardware_id(&vec![c_string("")], &c_string("")), units("\\"));
}

#[test]
fn what_is_held_against_an_identifier() {
    assert_eq!(id_source(DeviceClass::Monitor, false), IdSource::Parent);
    assert_eq!(id_source(DeviceClass::Monitor, true), IdSource::Hardware);
    assert_eq!(id_source(DeviceClass::Display, false), IdSource::Hardware);
    assert_eq!(id_source(DeviceClass::Display, true), IdSource::Nothing);
    assert_eq!(id_source(DeviceClass::Other, false), IdSource::Nothing);
    assert_eq!(id_source(DeviceClass::Other, true), IdSource::Nothing);
    assert!(id_matches(IdSource::Parent, &units("PCI\\VEN\\1"), &units("PCI\\VEN")));
    assert!(!id_matches(IdSource::Parent, &units("PCI"), &units("PCI\\VEN")));
    assert!(id_matches(IdSource::Hardware, &units("PCI\\VEN"), &units("PCI\\VEN")));
    assert!(!id_matches(IdSource::Hardware, &units("PCI\\VEN\\1"), &units("PCI\\VEN")));
    assert!(!id_matches(IdSource::Nothing, &units("PCI"), &units("PCI")));
}
