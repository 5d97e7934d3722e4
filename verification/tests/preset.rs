use sunmao_tools::preset::{
    clap_preset_bytes, fuid_to_string, host_uses_com_uid_layout, read_clap_preset,
    read_vst3_preset, write_vst3_preset, write_vst3_preset_with_class_string, VST3_CLASS_ID_SIZE,
    VST3_FORMAT_VERSION, VST3_HEADER_SIZE,
};
use sunmao_tools::request::TargetPlatform;

/// The IID of `IComponent` in the native byte layout.
const ICOMPONENT_NATIVE: [i8; 16] = [
    0xE8u8 as i8,
    0x31,
    0xFFu8 as i8,
    0x31,
    0xF2u8 as i8,
    0xD5u8 as i8,
    0x43,
    0x01,
    0x92u8 as i8,
    0x8Eu8 as i8,
    0xBBu8 as i8,
    0xEEu8 as i8,
    0x25,
    0x69,
    0x78,
    0x02,
];

/// The layout the preset tests write and read with: the one a Linux host uses.
fn layout() -> bool {
    host_uses_com_uid_layout(TargetPlatform::Linux)
}

/// A UID from its four 32-bit words, stored as the given layout stores it.
fn tuid_for_layout(l1: u32, l2: u32, l3: u32, l4: u32, com: bool) -> [i8; 16] {
    let mut bytes = Vec::new();
    if com {
        bytes.extend_from_slice(&l1.to_le_bytes());
        bytes.extend_from_slice(&((l2 >> 16) as u16).to_le_bytes());
        bytes.extend_from_slice(&(l2 as u16).to_le_bytes());
    } else {
        bytes.extend_from_slice(&l1.to_be_bytes());
        bytes.extend_from_slice(&l2.to_be_bytes());
    }
    bytes.extend_from_slice(&l3.to_be_bytes());
    bytes.extend_from_slice(&l4.to_be_bytes());
    let mut out = [0i8; 16];
    for (slot, byte) in out.iter_mut().zip(bytes) {
        *slot = byte as i8;
    }
    out
}

#[test]
fn a_native_layout_uid_prints_its_bytes_in_order() {
    assert_eq!(
        fuid_to_string(&ICOMPONENT_NATIVE, false),
        "E831FF31F2D54301928EBBEE25697802"
    );
}

#[test]
fn the_com_layout_reverses_the_first_three_guid_fields() {
    assert_eq!(
        fuid_to_string(&ICOMPONENT_NATIVE, true),
        "31FF31E8D5F20143928EBBEE25697802"
    );
}

#[test]
fn both_uid_layouts_print_the_same_canonical_string() {
    for (l1, l2, l3, l4) in [
        (0xE831_FF31u32, 0xF2D5_4301u32, 0x928E_BBEEu32, 0x2569_7802u32),
        (0xDCD7_BBE3, 0x7742_448D, 0xA874_AACC, 0x979C_759E),
        (0x0000_0001, 0x0002_0003, 0x0004_0005, 0x0006_0007),
    ] {
        let canonical = format!("{l1:08X}{l2:08X}{l3:08X}{l4:08X}");
        assert_eq!(
            fuid_to_string(&tuid_for_layout(l1, l2, l3, l4, false), false),
            canonical
        );
        assert_eq!(
            fuid_to_string(&tuid_for_layout(l1, l2, l3, l4, true), true),
            canonical
        );
    }
}

#[test]
fn the_same_bytes_yield_different_class_strings_on_windows_and_elsewhere() {
    let native = fuid_to_string(&ICOMPONENT_NATIVE, false);
    let com = fuid_to_string(&ICOMPONENT_NATIVE, true);
    assert_ne!(native, com);
    assert_eq!(native.len(), VST3_CLASS_ID_SIZE);
    assert_eq!(com.len(), VST3_CLASS_ID_SIZE);
    assert_eq!(native[16..], com[16..]);
}

#[test]
fn a_preset_round_trips_through_the_container() {
    let state = b"SMV3PRM\0\x01\x00\x00\x00 arbitrary payload".to_vec();
    let bytes = write_vst3_preset(&ICOMPONENT_NATIVE, &state, layout());
    let preset = read_vst3_preset(&bytes).expect("round trip");
    assert_eq!(preset.component_state, state);
    assert_eq!(
        preset.class_string,
        fuid_to_string(&ICOMPONENT_NATIVE, layout())
    );
    assert_eq!(preset.controller_state, None);
}

#[test]
fn an_empty_state_still_produces_a_readable_preset() {
    let bytes = write_vst3_preset(&ICOMPONENT_NATIVE, &[], layout());
    let preset = read_vst3_preset(&bytes).expect("round trip");
    assert!(preset.component_state.is_empty());
}

#[test]
fn the_header_lands_where_the_layout_says_it_does() {
    let bytes = write_vst3_preset(&ICOMPONENT_NATIVE, b"payload", layout());
    assert_eq!(&bytes[0..4], b"VST3");
    assert_eq!(i32::from_le_bytes(bytes[4..8].try_into().unwrap()), 1);
    assert_eq!(bytes[8..40].len(), VST3_CLASS_ID_SIZE);
    let list_offset = i64::from_le_bytes(bytes[40..48].try_into().unwrap()) as usize;
    assert_eq!(list_offset, VST3_HEADER_SIZE + b"payload".len());
    assert_eq!(&bytes[list_offset..list_offset + 4], b"List");
    assert_eq!(&bytes[VST3_HEADER_SIZE..list_offset], b"payload");
}

#[test]
fn a_controller_chunk_written_by_another_vendor_is_preserved() {
    let class_string = fuid_to_string(&ICOMPONENT_NATIVE, false);
    let comp = b"component".to_vec();
    let cont = b"controller".to_vec();
    let list_offset = VST3_HEADER_SIZE + comp.len() + cont.len();
    let mut bytes = Vec::new();
    bytes.extend_from_slice(b"VST3");
    bytes.extend_from_slice(&VST3_FORMAT_VERSION.to_le_bytes());
    bytes.extend_from_slice(class_string.as_bytes());
    bytes.extend_from_slice(&(list_offset as i64).to_le_bytes());
    bytes.extend_from_slice(&comp);
    bytes.extend_from_slice(&cont);
    bytes.extend_from_slice(b"List");
    bytes.extend_from_slice(&2i32.to_le_bytes());
    bytes.extend_from_slice(b"Comp");
    bytes.extend_from_slice(&(VST3_HEADER_SIZE as i64).to_le_bytes());
    bytes.extend_from_slice(&(comp.len() as i64).to_le_bytes());
    bytes.extend_from_slice(b"Cont");
    bytes.extend_from_slice(&((VST3_HEADER_SIZE + comp.len()) as i64).to_le_bytes());
    bytes.extend_from_slice(&(cont.len() as i64).to_le_bytes());

    let preset = read_vst3_preset(&bytes).expect("two-entry preset");
    assert_eq!(preset.component_state, comp);
    assert_eq!(preset.controller_state, Some(cont));
}

#[test]
fn a_file_that_is_not_a_preset_is_rejected() {
    let error = read_vst3_preset(b"this is not a preset at all, not even close!!!!!!!!")
        .expect_err("must reject");
    assert!(error.contains("'VST3' header ID"), "{error}");
}

#[test]
fn a_truncated_preset_is_rejected_rather_than_indexed_past_the_end() {
    let bytes = write_vst3_preset(&ICOMPONENT_NATIVE, b"payload", layout());
    for cut in 0..bytes.len() {
        let _ = read_vst3_preset(&bytes[..cut]);
    }
    assert!(read_vst3_preset(&bytes[..VST3_HEADER_SIZE]).is_err());
}

#[test]
fn a_chunk_pointing_past_the_end_is_rejected() {
    let mut bytes = write_vst3_preset(&ICOMPONENT_NATIVE, b"payload", layout());
    let list_offset = i64::from_le_bytes(bytes[40..48].try_into().unwrap()) as usize;
    let size_at = list_offset + 8 + 12;
    bytes[size_at..size_at + 8].copy_from_slice(&i64::MAX.to_le_bytes());
    let error = read_vst3_preset(&bytes).expect_err("must reject");
    assert!(
        error.contains("past the end") || error.contains("overflow"),
        "{error}"
    );
}

#[test]
fn a_preset_with_no_component_chunk_is_rejected() {
    let class_string = fuid_to_string(&ICOMPONENT_NATIVE, false);
    let mut bytes = Vec::new();
    bytes.extend_from_slice(b"VST3");
    bytes.extend_from_slice(&VST3_FORMAT_VERSION.to_le_bytes());
    bytes.extend_from_slice(class_string.as_bytes());
    bytes.extend_from_slice(&(VST3_HEADER_SIZE as i64).to_le_bytes());
    bytes.extend_from_slice(b"List");
    bytes.extend_from_slice(&0i32.to_le_bytes());
    let error = read_vst3_preset(&bytes).expect_err("must reject");
    assert!(error.contains("'Comp'"), "{error}");
}

#[test]
fn a_future_format_version_is_rejected() {
    let mut bytes = write_vst3_preset(&ICOMPONENT_NATIVE, b"payload", layout());
    bytes[4..8].copy_from_slice(&2i32.to_le_bytes());
    let error = read_vst3_preset(&bytes).expect_err("must reject");
    assert!(error.contains("version 2"), "{error}");
}

#[test]
fn clap_presets_are_the_state_stream_verbatim() {
    let state = b"SMCLPRM\0\x01\x00\x00\x00payload";
    assert_eq!(clap_preset_bytes(state), state);
    assert_eq!(read_clap_preset(state).expect("accepted"), state);
}

#[test]
fn a_vst3_preset_handed_to_the_clap_loader_is_named_as_such() {
    let bytes = write_vst3_preset(&ICOMPONENT_NATIVE, b"payload", layout());
    let error = read_clap_preset(&bytes).expect_err("must reject");
    assert!(error.contains("VST3 preset"), "{error}");
}

#[test]
fn an_empty_clap_preset_is_rejected() {
    assert!(read_clap_preset(&[]).is_err());
}

#[test]
fn windows_hosts_use_the_com_layout_and_others_do_not() {
    assert!(host_uses_com_uid_layout(TargetPlatform::Windows));
    assert!(!host_uses_com_uid_layout(TargetPlatform::Macos));
    assert!(!host_uses_com_uid_layout(TargetPlatform::Linux));
}

#[test]
fn a_class_string_preset_reads_back_its_class_string() {
    let class = "0123456789ABCDEF0123456789ABCDEF";
    let bytes = write_vst3_preset_with_class_string(class, b"state");
    let preset = read_vst3_preset(&bytes).expect("round trip");
    assert_eq!(preset.class_string, class);
    assert_eq!(preset.component_state, b"state".to_vec());
}
