use sunmao_tools::host::{
    gui_gesture_counts, gui_gesture_evidence, GestureCounts, GestureVerdict,
    reference_parameter_kind, validate_reference_parameter_kinds, ParamKind, ReferenceKind,
    is_vst3_module, plugin_extension, process_frame_count,
    runtime_plugin_requires_all_parameter_kinds, FrameCountError, PluginFormat, PluginInfo,
    TestResult, results_report, validate_host_events, HostEventCheck, speaker_count, validate_bus_arrangements,
};

#[test]
fn recognizes_native_and_windows_vst3_module_suffixes() {
    assert!(is_vst3_module("Plugin.dylib"));
    assert!(is_vst3_module("Plugin.so"));
    assert!(is_vst3_module("Plugin.dll"));
    assert!(is_vst3_module("Plugin.vst3"));
    assert!(is_vst3_module("Plugin.VST3"));
    assert!(is_vst3_module("Plugin"));
    assert!(!is_vst3_module("Info.plist"));
}

#[test]
fn frame_count_accepts_zero_input_synth_buffers() {
    assert_eq!(process_frame_count(0, 0, 1024, 2, 512), Ok(512));
}

#[test]
fn frame_count_rejects_mismatched_and_oversized_buffers() {
    assert!(process_frame_count(1024, 2, 511, 2, 512).is_err());
    assert!(process_frame_count(1022, 2, 1024, 2, 512).is_err());
    assert!(process_frame_count(0, 0, 1026, 2, 512).is_err());
}

#[test]
fn frame_count_errors_say_what_is_wrong() {
    let cases = [
        (process_frame_count(0, 0, 8, 0, 512), "plugin has no audio output channels"),
        (
            process_frame_count(0, 0, 511, 2, 512),
            "output buffer has 511 samples, not divisible by 2 channels",
        ),
        (
            process_frame_count(0, 0, 1026, 2, 512),
            "process block has 513 frames, exceeding maximum 512",
        ),
        (
            process_frame_count(4, 0, 8, 2, 512),
            "plugin has no audio inputs but received 4 samples",
        ),
        (
            process_frame_count(7, 2, 8, 2, 512),
            "input buffer has 7 samples, not divisible by 2 channels",
        ),
        (
            process_frame_count(1022, 2, 1024, 2, 512),
            "input/output frame mismatch: 511 input, 512 output",
        ),
    ];
    for (result, message) in cases {
        assert_eq!(result.unwrap_err().message(), message);
    }
    let huge = process_frame_count(0, 0, 0x8000_0000, 1, usize::MAX).unwrap_err();
    assert_eq!(huge, FrameCountError::TooManyFrames { frames: 0x8000_0000 });
    assert_eq!(huge.message(), "process block has too many frames: 2147483648");
    assert_eq!(process_frame_count(1024, 2, 1024, 2, 512), Ok(512));
}

#[test]
fn plugin_dispatch_extensions_are_case_insensitive() {
    assert_eq!(plugin_extension("Gain.CLAP"), "clap");
    assert_eq!(plugin_extension("Gain.VST3"), "vst3");
    assert_eq!(plugin_extension("Gain.Component"), "component");
    assert_eq!(plugin_extension("Gain"), "");
}

fn info(name: &str, format: PluginFormat) -> PluginInfo {
    PluginInfo {
        name: name.to_string(),
        vendor: String::new(),
        version: String::new(),
        id: String::new(),
        path: String::new(),
        format,
        class_index: 0,
        input_channels: 2,
        output_channels: 2,
        is_synth: false,
    }
}

#[test]
fn only_the_reference_gain_plugin_must_expose_every_parameter_kind() {
    assert!(runtime_plugin_requires_all_parameter_kinds(&info("SunMao Gain", PluginFormat::CLAP)));
    assert!(runtime_plugin_requires_all_parameter_kinds(&info("SunMao Gain", PluginFormat::VST3)));
    assert!(!runtime_plugin_requires_all_parameter_kinds(&info("SunMao Gain", PluginFormat::AU)));
    assert!(!runtime_plugin_requires_all_parameter_kinds(&info("SunMao Sine", PluginFormat::CLAP)));
}

#[test]
fn test_results_record_pass_and_failure() {
    let pass = TestResult::pass("process");
    assert!(pass.passed);
    assert_eq!(pass.name, "process");
    assert!(pass.message.is_empty());
    let fail = TestResult::fail("state", "round trip lost a value");
    assert!(!fail.passed);
    assert_eq!(fail.message, "round trip lost a value");
    assert_eq!(PluginFormat::VST3.name(), "VST3");
}

fn param(name: &str, is_stepped: bool) -> ParamKind {
    ParamKind { name: name.to_string(), is_stepped, can_automate: true }
}

#[test]
fn reference_parameter_kind_contract_requires_float_int_and_bool_metadata() {
    assert!(runtime_plugin_requires_all_parameter_kinds(&info("SunMao Gain", PluginFormat::CLAP)));
    let parameters = vec![param("Gain", false), param("Polarity", true), param("Bypass", true)];
    assert!(validate_reference_parameter_kinds(&parameters));

    let mut invalid = parameters;
    invalid[2].is_stepped = false;
    assert!(!validate_reference_parameter_kinds(&invalid));
    assert_eq!(
        reference_parameter_kind(&invalid, "Bypass", true),
        ReferenceKind::InvalidFlags { is_stepped: false, can_automate: true }
    );
    assert_eq!(reference_parameter_kind(&invalid, "Mix", false), ReferenceKind::Missing);
}

/// Host gesture evidence with the published value, as the GUI test reads it.
#[derive(Clone, Copy)]
struct Evidence {
    counts: GestureCounts,
    last_completed_value: f64,
}

fn validate_gui_gesture_evidence(
    format: PluginFormat,
    before: Option<Evidence>,
    after: Option<Evidence>,
    parameter_id: u32,
    parameter_value: f64,
) -> Result<(usize, usize, usize), String> {
    let published = after.map(|e| e.last_completed_value).unwrap_or(f64::NAN);
    let matches = published.is_finite() && (published - parameter_value).abs() <= 1.0e-6;
    gui_gesture_evidence(
        format,
        before.map(|e| e.counts),
        after.map(|e| e.counts),
        parameter_id,
        matches,
        &format!("{published:.6}"),
        &format!("{parameter_value:.6}"),
    )
}

#[test]
fn gui_gesture_validation_requires_all_host_callbacks() {
    let before = Evidence {
        counts: GestureCounts {
            begin_count: 2,
            value_count: 5,
            end_count: 2,
            completed_count: 2,
            last_completed_param_id: 7,
        },
        last_completed_value: 0.25,
    };
    let complete = Evidence {
        counts: GestureCounts {
            begin_count: 3,
            value_count: 8,
            end_count: 3,
            completed_count: 3,
            last_completed_param_id: 7,
        },
        last_completed_value: 0.75,
    };
    assert_eq!(
        validate_gui_gesture_evidence(PluginFormat::CLAP, Some(before), Some(complete), 7, 0.75)
            .unwrap(),
        (1, 3, 1)
    );

    let missing_end = Evidence {
        counts: GestureCounts { end_count: before.counts.end_count, ..complete.counts },
        ..complete
    };
    assert!(validate_gui_gesture_evidence(
        PluginFormat::VST3,
        Some(before),
        Some(missing_end),
        7,
        0.75,
    )
    .is_err());

    let unordered = Evidence {
        counts: GestureCounts { completed_count: before.counts.completed_count, ..complete.counts },
        ..complete
    };
    assert!(validate_gui_gesture_evidence(
        PluginFormat::CLAP,
        Some(before),
        Some(unordered),
        7,
        0.75,
    )
    .is_err());
}

#[test]
fn gesture_refusals_say_what_was_missing() {
    let counts = GestureCounts {
        begin_count: 1,
        value_count: 1,
        end_count: 1,
        completed_count: 1,
        last_completed_param_id: 9,
    };
    assert_eq!(
        gui_gesture_counts(PluginFormat::AU, None, None, 1),
        Ok(GestureVerdict::NotTracked)
    );
    assert_eq!(
        gui_gesture_counts(PluginFormat::VST3, None, Some(counts), 1).unwrap_err(),
        "VST3 host exposes no GUI gesture evidence"
    );
    assert_eq!(
        gui_gesture_counts(PluginFormat::CLAP, Some(counts), Some(counts), 9).unwrap_err(),
        "CLAP host callbacks were incomplete (begin +0, value +0, end +0, completed +0)"
    );
    let later = GestureCounts {
        begin_count: 2,
        value_count: 2,
        end_count: 2,
        completed_count: 2,
        ..counts
    };
    assert_eq!(
        gui_gesture_counts(PluginFormat::CLAP, Some(counts), Some(later), 4).unwrap_err(),
        "CLAP host completed a gesture for parameter 9, expected 4"
    );
}

// VST3 speaker bits and the arrangements built from them.
const SPEAKER_L: u64 = 1 << 0;
const SPEAKER_R: u64 = 1 << 1;
const SPEAKER_C: u64 = 1 << 2;
const SPEAKER_LFE: u64 = 1 << 3;
const SPEAKER_LS: u64 = 1 << 4;
const SPEAKER_RS: u64 = 1 << 5;
const SPEAKER_CS: u64 = 1 << 8;
const SPEAKER_SL: u64 = 1 << 9;
const SPEAKER_SR: u64 = 1 << 10;
const K51: u64 = SPEAKER_L | SPEAKER_R | SPEAKER_C | SPEAKER_LFE | SPEAKER_LS | SPEAKER_RS;
const K71_MUSIC: u64 = K51 | SPEAKER_SL | SPEAKER_SR;
const K60_CINE: u64 = SPEAKER_L | SPEAKER_R | SPEAKER_C | SPEAKER_LS | SPEAKER_RS | SPEAKER_CS;

#[test]
fn bus_arrangement_validation_matches_declared_channel_counts() {
    assert!(validate_bus_arrangements("input", &vec![6, 8], &vec![K51, K71_MUSIC]).is_ok());
    assert!(validate_bus_arrangements("output", &vec![6], &vec![K60_CINE]).is_ok());
    let mismatch = validate_bus_arrangements("output", &vec![8], &vec![K51])
        .expect_err("speaker count mismatch");
    assert!(mismatch.contains("6 speakers"));
}

#[test]
fn bus_arrangement_messages_name_the_bus_and_the_counts() {
    assert_eq!(
        validate_bus_arrangements("output", &vec![8], &vec![K51]).unwrap_err(),
        "VST3 output bus 0 arrangement has 6 speakers but advertises 8 channels"
    );
    assert_eq!(
        validate_bus_arrangements("input", &vec![2, 2], &vec![SPEAKER_L | SPEAKER_R]).unwrap_err(),
        "VST3 input arrangement count mismatch: buses=2, arrangements=1"
    );
    assert_eq!(
        validate_bus_arrangements("input", &vec![2, 1], &vec![SPEAKER_L | SPEAKER_R, K51])
            .unwrap_err(),
        "VST3 input bus 1 arrangement has 6 speakers but advertises 1 channels"
    );
    assert!(validate_bus_arrangements("input", &vec![], &vec![]).is_ok());
    assert_eq!(speaker_count(u64::MAX), 64);
    assert_eq!(speaker_count(0), 0);
    assert_eq!(speaker_count(K71_MUSIC), 8);
}

#[test]
fn result_reports_list_each_check_and_count_them() {
    let results = vec![
        TestResult::pass("load (1.0ms)"),
        TestResult::fail("initialize", "no factory"),
        TestResult::pass("params (0 found)"),
    ];
    let (lines, all_passed) = results_report(&results);
    let rule = "-".repeat(60);
    assert_eq!(
        lines,
        vec![
            String::new(),
            "Test Results:".to_string(),
            rule.clone(),
            "  [PASS] load (1.0ms)".to_string(),
            "  [FAIL] initialize - no factory".to_string(),
            "  [PASS] params (0 found)".to_string(),
            rule,
            "Summary: 2 passed, 1 failed, 3 total".to_string(),
        ]
    );
    assert!(!all_passed);
    let (lines, all_passed) = results_report(&vec![TestResult::pass("reset")]);
    assert_eq!(lines.last().unwrap(), "Summary: 1 passed, 0 failed, 1 total");
    assert!(all_passed);
    let (lines, all_passed) = results_report(&vec![]);
    assert_eq!(lines.len(), 5);
    assert_eq!(lines[4], "Summary: 0 passed, 0 failed, 0 total");
    assert!(all_passed);
}

/// A host event as the runner holds it, with float operands.
#[derive(Clone, Copy, Debug)]
enum HostEvent {
    NoteOn { sample_offset: u32, channel: u8, pitch: u8, velocity: f32 },
    NoteOff { sample_offset: u32, channel: u8, pitch: u8, velocity: f32 },
    ParamValue { sample_offset: u32, id: u32, value: f64 },
}

impl HostEvent {
    fn sample_offset(self) -> u32 {
        match self {
            Self::NoteOn { sample_offset, .. } | Self::NoteOff { sample_offset, .. } => sample_offset,
            Self::ParamValue { sample_offset, .. } => sample_offset,
        }
    }

    /// The event with its float operand judged, as the library checks it.
    fn checked(self) -> HostEventCheck {
        match self {
            Self::NoteOn { sample_offset, channel, pitch, velocity }
            | Self::NoteOff { sample_offset, channel, pitch, velocity } => HostEventCheck::Note {
                sample_offset,
                channel,
                pitch,
                velocity_ok: velocity.is_finite() && (0.0..=1.0).contains(&velocity),
                velocity_shown: velocity.to_string(),
            },
            Self::ParamValue { sample_offset, id, value } => HostEventCheck::ParamValue {
                sample_offset,
                id,
                value_finite: value.is_finite(),
                value_shown: value.to_string(),
            },
        }
    }
}

fn validate(events: &[HostEvent], frames: usize) -> Result<(), String> {
    validate_host_events(&events.iter().map(|e| e.checked()).collect(), frames)
}

#[test]
fn host_event_validation_preserves_ordered_sample_offsets() {
    let events = [
        HostEvent::NoteOn { sample_offset: 17, channel: 0, pitch: 60, velocity: 0.8 },
        HostEvent::NoteOff { sample_offset: 31, channel: 0, pitch: 60, velocity: 0.0 },
    ];
    assert_eq!(events[0].sample_offset(), 17);
    assert!(validate(&events, 64).is_ok());
    assert!(validate(&events, 31).is_err());
    assert!(validate(&[events[1], events[0]], 64).is_err());
}

#[test]
fn host_event_validation_accepts_parameter_points_and_rejects_invalid_values() {
    let events = [
        HostEvent::ParamValue { sample_offset: 17, id: 42, value: 0.25 },
        HostEvent::ParamValue { sample_offset: 31, id: 42, value: 0.75 },
    ];
    assert!(validate(&events, 64).is_ok());
    assert!(validate(&events, 31).is_err());
    assert!(validate(&[events[1], events[0]], 64).is_err());
    assert!(validate(&[HostEvent::ParamValue { sample_offset: 0, id: u32::MAX, value: 0.5 }], 1).is_err());
    assert!(validate(&[HostEvent::ParamValue { sample_offset: 0, id: 42, value: f64::NAN }], 1).is_err());
}

#[test]
fn host_event_refusals_name_the_event() {
    assert_eq!(
        validate(&[HostEvent::NoteOn { sample_offset: 0, channel: 16, pitch: 60, velocity: 0.5 }], 8).unwrap_err(),
        "event 0 has invalid MIDI channel 16"
    );
    assert_eq!(
        validate(&[
            HostEvent::NoteOn { sample_offset: 0, channel: 0, pitch: 60, velocity: 0.5 },
            HostEvent::NoteOff { sample_offset: 1, channel: 0, pitch: 128, velocity: 0.5 },
        ], 8).unwrap_err(),
        "event 1 has invalid MIDI pitch 128"
    );
    assert_eq!(
        validate(&[HostEvent::NoteOn { sample_offset: 0, channel: 0, pitch: 60, velocity: 1.5 }], 8).unwrap_err(),
        "event 0 has invalid velocity 1.5"
    );
    assert_eq!(
        validate(&[HostEvent::ParamValue { sample_offset: 0, id: 1, value: f64::INFINITY }], 8).unwrap_err(),
        "event 0 has a non-finite parameter value inf"
    );
    assert_eq!(
        validate(&[HostEvent::ParamValue { sample_offset: 9, id: 1, value: 0.0 }], 8).unwrap_err(),
        "event 0 offset 9 is outside 8-frame block"
    );
    assert_eq!(
        validate(&[
            HostEvent::ParamValue { sample_offset: 5, id: 1, value: 0.0 },
            HostEvent::ParamValue { sample_offset: 4, id: 1, value: 0.0 },
        ], 8).unwrap_err(),
        "input events must be ordered by sample offset"
    );
    assert!(validate(&[], 0).is_ok());
}

#[test]
fn gesture_refusals_show_both_values() {
    let counts = |n| GestureCounts {
        begin_count: n,
        value_count: n,
        end_count: n,
        completed_count: n,
        last_completed_param_id: 7,
    };
    assert_eq!(
        gui_gesture_evidence(PluginFormat::CLAP, Some(counts(1)), Some(counts(2)), 7, false, "0.500000", "0.750000")
            .unwrap_err(),
        "CLAP host callback published 0.500000, parameter reports 0.750000"
    );
    assert_eq!(
        gui_gesture_evidence(PluginFormat::AU, None, None, 7, false, "", ""),
        Ok((0, 0, 0))
    );
}
