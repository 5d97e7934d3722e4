//! What the test host knows of a plug-in before it loads it, and the checks
//! it makes on buffers and results.
use vstd::prelude::*;
use crate::paths::{file_name, path_ext, path_extension, path_file_name};
use crate::text::{
    char_len, decimal, eq_ignore_ascii_case, is_ascii_lowercase_of, push_decimal, str_eq,
    str_eq_ignore_ascii_case, to_ascii_lowercase,
};

verus! {

/// The plug-in formats the host can load.
#[allow(non_camel_case_types)]
#[derive(Copy, Clone, Debug, PartialEq, Eq, Structural)]
pub enum PluginFormat {
    CLAP,
    VST3,
    AU,
}

impl PluginFormat {
    /// The format's name as reports print it.
    pub fn name(&self) -> (s: &'static str)
        ensures
            s@ == format_name(*self),
    {
        match self {
            PluginFormat::CLAP => "CLAP",
            PluginFormat::VST3 => "VST3",
            PluginFormat::AU => "AU",
        }
    }
}

pub open spec fn format_name(f: PluginFormat) -> Seq<char> {
    match f {
        PluginFormat::CLAP => "CLAP"@,
        PluginFormat::VST3 => "VST3"@,
        PluginFormat::AU => "AU"@,
    }
}

/// Information about a discovered plug-in.
#[derive(Clone, Debug)]
pub struct PluginInfo {
    pub name: String,
    pub vendor: String,
    pub version: String,
    pub id: String,
    pub path: String,
    pub format: PluginFormat,
    /// Factory class index for formats that expose several plug-in classes.
    pub class_index: u32,
    pub input_channels: u32,
    pub output_channels: u32,
    pub is_synth: bool,
}

/// The outcome of one named check.
#[derive(Clone, Debug)]
pub struct TestResult {
    pub name: String,
    pub passed: bool,
    pub message: String,
}

impl TestResult {
    /// A passed check, with no message.
    pub fn pass(name: &str) -> (r: TestResult)
        ensures
            r.name@ == name@,
            r.passed,
            r.message@ == Seq::<char>::empty(),
    {
        let message = String::new();
        TestResult { name: name.to_owned(), passed: true, message }
    }

    /// A failed check and why it failed.
    pub fn fail(name: &str, msg: &str) -> (r: TestResult)
        ensures
            r.name@ == name@,
            !r.passed,
            r.message@ == msg@,
    {
        TestResult { name: name.to_owned(), passed: false, message: msg.to_owned() }
    }
}

/// Module suffixes that a VST3 bundle may hold: native libraries, and the
/// `.vst3` suffix that Windows modules use.
pub open spec fn vst3_module_extension(ext: Seq<char>) -> bool {
    eq_ignore_ascii_case(ext, "dylib"@) || eq_ignore_ascii_case(ext, "so"@) || eq_ignore_ascii_case(
        ext,
        "dll"@,
    ) || eq_ignore_ascii_case(ext, "vst3"@)
}

/// Whether a file can be a platform VST3 module inside a bundle: a known
/// module suffix in any case, or no extension at all (the macOS executable).
pub open spec fn vst3_module(path: Seq<char>) -> bool {
    match path_extension(path) {
        None => file_name(path) is Some,
        Some(ext) => vst3_module_extension(ext),
    }
}

pub fn is_vst3_module(path: &str) -> (b: bool)
    ensures
        b == vst3_module(path@),
{
    match path_ext(path) {
        None => path_file_name(path).is_some(),
        Some(ext) => {
            let e = ext.as_str();
            str_eq_ignore_ascii_case(e, "dylib") || str_eq_ignore_ascii_case(e, "so")
                || str_eq_ignore_ascii_case(e, "dll") || str_eq_ignore_ascii_case(e, "vst3")
        },
    }
}

/// The extension of a plug-in path in lower case, empty without one; the
/// host picks the loader by it.
pub fn plugin_extension(path: &str) -> (s: String)
    ensures
        match path_extension(path@) {
            None => s@ == Seq::<char>::empty(),
            Some(ext) => is_ascii_lowercase_of(s@, ext),
        },
{
    match path_ext(path) {
        None => String::new(),
        Some(ext) => to_ascii_lowercase(ext.as_str()),
    }
}

/// The reference gain plug-in must expose float, integer and boolean
/// parameters; AU builds of it are not held to that.
pub fn runtime_plugin_requires_all_parameter_kinds(info: &PluginInfo) -> (b: bool)
    ensures
        b == (info.name@ == "SunMao Gain"@ && info.format != PluginFormat::AU),
{
    str_eq(info.name.as_str(), "SunMao Gain") && info.format != PluginFormat::AU
}

/// Why a process block's buffers were refused.
#[derive(Copy, Clone, Debug, PartialEq, Eq, Structural)]
pub enum FrameCountError {
    NoOutputChannels,
    OutputNotDivisible { samples: usize, channels: usize },
    TooManyFrames { frames: usize },
    ExceedsMaximum { frames: usize, max_frames: usize },
    UnexpectedInput { samples: usize },
    InputNotDivisible { samples: usize, channels: usize },
    FrameMismatch { input_frames: usize, output_frames: usize },
}

/// The largest block length a plug-in API accepts (`i32::MAX`).
pub const MAX_BLOCK_FRAMES: usize = 0x7fff_ffff;

/// The frames of an interleaved process block, or why its buffers do not
/// fit the plug-in's channel counts and the host's block limit.
pub open spec fn frame_count_spec(
    input_len: usize,
    input_channels: usize,
    output_len: usize,
    output_channels: usize,
    max_frames: usize,
) -> Result<usize, FrameCountError> {
    if output_channels == 0 {
        Err(FrameCountError::NoOutputChannels)
    } else if output_len % output_channels != 0 {
        Err(FrameCountError::OutputNotDivisible { samples: output_len, channels: output_channels })
    } else {
        let frames = (output_len / output_channels) as usize;
        if frames > MAX_BLOCK_FRAMES {
            Err(FrameCountError::TooManyFrames { frames })
        } else if frames > max_frames {
            Err(FrameCountError::ExceedsMaximum { frames, max_frames })
        } else if input_channels == 0 {
            if input_len != 0 {
                Err(FrameCountError::UnexpectedInput { samples: input_len })
            } else {
                Ok(frames)
            }
        } else if input_len % input_channels != 0 {
            Err(FrameCountError::InputNotDivisible { samples: input_len, channels: input_channels })
        } else if (input_len / input_channels) as usize != frames {
            Err(
                FrameCountError::FrameMismatch {
                    input_frames: (input_len / input_channels) as usize,
                    output_frames: frames,
                },
            )
        } else {
            Ok(frames)
        }
    }
}

/// Checks the buffers of one process block and returns its frame count.
pub fn process_frame_count(
    input_len: usize,
    input_channels: usize,
    output_len: usize,
    output_channels: usize,
    max_frames: usize,
) -> (r: Result<usize, FrameCountError>)
    ensures
        r == frame_count_spec(input_len, input_channels, output_len, output_channels, max_frames),
{
    if output_channels == 0 {
        return Err(FrameCountError::NoOutputChannels);
    }
    if output_len % output_channels != 0 {
        return Err(
            FrameCountError::OutputNotDivisible { samples: output_len, channels: output_channels },
        );
    }
    let frames = output_len / output_channels;
    if frames > MAX_BLOCK_FRAMES {
        return Err(FrameCountError::TooManyFrames { frames });
    }
    if frames > max_frames {
        return Err(FrameCountError::ExceedsMaximum { frames, max_frames });
    }
    if input_channels == 0 {
        if input_len != 0 {
            return Err(FrameCountError::UnexpectedInput { samples: input_len });
        }
    } else {
        if input_len % input_channels != 0 {
            return Err(
                FrameCountError::InputNotDivisible { samples: input_len, channels: input_channels },
            );
        }
        let input_frames = input_len / input_channels;
        if input_frames != frames {
            return Err(FrameCountError::FrameMismatch { input_frames, output_frames: frames });
        }
    }
    Ok(frames)
}

/// The report line for a refused process block.
pub open spec fn frame_count_message(e: FrameCountError) -> Seq<char> {
    match e {
        FrameCountError::NoOutputChannels => "plugin has no audio output channels"@,
        FrameCountError::OutputNotDivisible { samples, channels } => "output buffer has "@
            + decimal(samples as nat) + " samples, not divisible by "@ + decimal(channels as nat)
            + " channels"@,
        FrameCountError::TooManyFrames { frames } => "process block has too many frames: "@
            + decimal(frames as nat),
        FrameCountError::ExceedsMaximum { frames, max_frames } => "process block has "@ + decimal(
            frames as nat,
        ) + " frames, exceeding maximum "@ + decimal(max_frames as nat),
        FrameCountError::UnexpectedInput { samples } => "plugin has no audio inputs but received "@
            + decimal(samples as nat) + " samples"@,
        FrameCountError::InputNotDivisible { samples, channels } => "input buffer has "@ + decimal(
            samples as nat,
        ) + " samples, not divisible by "@ + decimal(channels as nat) + " channels"@,
        FrameCountError::FrameMismatch { input_frames, output_frames } =>
            "input/output frame mismatch: "@ + decimal(input_frames as nat) + " input, "@
            + decimal(output_frames as nat) + " output"@,
    }
}

impl FrameCountError {
    /// The report line for this refusal.
    pub fn message(&self) -> (s: String)
        ensures
            s@ == frame_count_message(*self),
    {
        let mut s = String::new();
        match *self {
            FrameCountError::NoOutputChannels => {
                s.append("plugin has no audio output channels");
            },
            FrameCountError::OutputNotDivisible { samples, channels } => {
                s.append("output buffer has ");
                push_decimal(&mut s, samples as u64);
                s.append(" samples, not divisible by ");
                push_decimal(&mut s, channels as u64);
                s.append(" channels");
            },
            FrameCountError::TooManyFrames { frames } => {
                s.append("process block has too many frames: ");
                push_decimal(&mut s, frames as u64);
            },
            FrameCountError::ExceedsMaximum { frames, max_frames } => {
                s.append("process block has ");
                push_decimal(&mut s, frames as u64);
                s.append(" frames, exceeding maximum ");
                push_decimal(&mut s, max_frames as u64);
            },
            FrameCountError::UnexpectedInput { samples } => {
                s.append("plugin has no audio inputs but received ");
                push_decimal(&mut s, samples as u64);
                s.append(" samples");
            },
            FrameCountError::InputNotDivisible { samples, channels } => {
                s.append("input buffer has ");
                push_decimal(&mut s, samples as u64);
                s.append(" samples, not divisible by ");
                push_decimal(&mut s, channels as u64);
                s.append(" channels");
            },
            FrameCountError::FrameMismatch { input_frames, output_frames } => {
                s.append("input/output frame mismatch: ");
                push_decimal(&mut s, input_frames as u64);
                s.append(" input, ");
                push_decimal(&mut s, output_frames as u64);
                s.append(" output");
            },
        }
        s
    }
}

/// What the reference-parameter check reads of a parameter.
#[derive(Clone, Debug)]
pub struct ParamKind {
    pub name: String,
    pub is_stepped: bool,
    pub can_automate: bool,
}

/// How a reference parameter fares.
#[derive(Copy, Clone, Debug, PartialEq, Eq, Structural)]
pub enum ReferenceKind {
    Valid,
    InvalidFlags { is_stepped: bool, can_automate: bool },
    Missing,
}

/// The index of the first parameter with a name.
pub open spec fn first_named(params: Seq<ParamKind>, name: Seq<char>, i: int) -> Option<int>
    decreases params.len() - i,
{
    if i < 0 || i >= params.len() {
        None
    } else if params[i].name@ == name {
        Some(i)
    } else {
        first_named(params, name, i + 1)
    }
}

/// The first parameter with the name must be automatable and stepped as
/// expected.
pub open spec fn reference_kind(params: Seq<ParamKind>, name: Seq<char>, stepped: bool) -> ReferenceKind {
    match first_named(params, name, 0) {
        None => ReferenceKind::Missing,
        Some(i) => if params[i].is_stepped == stepped && params[i].can_automate {
            ReferenceKind::Valid
        } else {
            ReferenceKind::InvalidFlags {
                is_stepped: params[i].is_stepped,
                can_automate: params[i].can_automate,
            }
        },
    }
}

pub fn reference_parameter_kind(params: &Vec<ParamKind>, name: &str, should_be_stepped: bool) -> (r:
    ReferenceKind)
    ensures
        r == reference_kind(params@, name@, should_be_stepped),
{
    let mut i: usize = 0;
    while i < params.len()
        invariant
            i <= params@.len(),
            first_named(params@, name@, 0) == first_named(params@, name@, i as int),
        decreases params@.len() - i,
    {
        let p = &params[i];
        if str_eq(p.name.as_str(), name) {
            if p.is_stepped == should_be_stepped && p.can_automate {
                return ReferenceKind::Valid;
            }
            return ReferenceKind::InvalidFlags {
                is_stepped: p.is_stepped,
                can_automate: p.can_automate,
            };
        }
        i = i + 1;
    }
    ReferenceKind::Missing
}

/// The reference gain plug-in's parameters: a continuous `Gain`, and
/// stepped `Polarity` and `Bypass`, all automatable.
pub open spec fn reference_kinds_valid(params: Seq<ParamKind>) -> bool {
    &&& reference_kind(params, "Gain"@, false) == ReferenceKind::Valid
    &&& reference_kind(params, "Polarity"@, true) == ReferenceKind::Valid
    &&& reference_kind(params, "Bypass"@, true) == ReferenceKind::Valid
}

pub fn validate_reference_parameter_kinds(params: &Vec<ParamKind>) -> (b: bool)
    ensures
        b == reference_kinds_valid(params@),
{
    let gain = reference_parameter_kind(params, "Gain", false);
    let polarity = reference_parameter_kind(params, "Polarity", true);
    let bypass = reference_parameter_kind(params, "Bypass", true);
    gain == ReferenceKind::Valid && polarity == ReferenceKind::Valid && bypass
        == ReferenceKind::Valid
}

/// The counters a host keeps of the parameter callbacks a GUI gesture
/// caused, and the last parameter a completed gesture was for.
#[derive(Copy, Clone, Debug, PartialEq, Eq, Structural)]
pub struct GestureCounts {
    pub begin_count: usize,
    pub value_count: usize,
    pub end_count: usize,
    pub completed_count: usize,
    pub last_completed_param_id: u32,
}

/// What the callback counters show of a GUI gesture.
#[derive(Copy, Clone, Debug, PartialEq, Eq, Structural)]
pub enum GestureVerdict {
    /// The format's host does not report gestures.
    NotTracked,
    /// Callbacks of every kind arrived, for the expected parameter; the
    /// published value is still to be compared.
    Counted { begin: usize, value: usize, end: usize },
}

/// `usize::saturating_sub`.
pub open spec fn saturating_sub(a: usize, b: usize) -> usize {
    if a >= b {
        (a - b) as usize
    } else {
        0
    }
}

/// The verdict on a GUI gesture from the counters before and after it; only
/// CLAP and VST3 hosts report gestures.
pub open spec fn gesture_spec(
    format: PluginFormat,
    before: Option<GestureCounts>,
    after: Option<GestureCounts>,
    parameter_id: u32,
) -> Result<GestureVerdict, Seq<char>> {
    if format == PluginFormat::AU {
        Ok(GestureVerdict::NotTracked)
    } else {
        match (before, after) {
            (Some(b), Some(a)) => {
                let begin = saturating_sub(a.begin_count, b.begin_count);
                let value = saturating_sub(a.value_count, b.value_count);
                let end = saturating_sub(a.end_count, b.end_count);
                let completed = saturating_sub(a.completed_count, b.completed_count);
                if begin == 0 || value == 0 || end == 0 || completed == 0 {
                    Err(
                        format_name(format) + " host callbacks were incomplete (begin +"@
                            + decimal(begin as nat) + ", value +"@ + decimal(value as nat)
                            + ", end +"@ + decimal(end as nat) + ", completed +"@ + decimal(
                            completed as nat,
                        ) + ")"@,
                    )
                } else if a.last_completed_param_id != parameter_id {
                    Err(
                        format_name(format) + " host completed a gesture for parameter "@
                            + decimal(a.last_completed_param_id as nat) + ", expected "@
                            + decimal(parameter_id as nat),
                    )
                } else {
                    Ok(GestureVerdict::Counted { begin, value, end })
                }
            },
            _ => Err(format_name(format) + " host exposes no GUI gesture evidence"@),
        }
    }
}

pub open spec fn gesture_result_view(r: Result<GestureVerdict, String>) -> Result<
    GestureVerdict,
    Seq<char>,
> {
    match r {
        Ok(v) => Ok(v),
        Err(m) => Err(m@),
    }
}

/// Checks the callbacks a GUI gesture caused, all but the published value.
pub fn gui_gesture_counts(
    format: PluginFormat,
    before: Option<GestureCounts>,
    after: Option<GestureCounts>,
    parameter_id: u32,
) -> (r: Result<GestureVerdict, String>)
    ensures
        gesture_result_view(r) == gesture_spec(format, before, after, parameter_id),
{
    if format == PluginFormat::AU {
        return Ok(GestureVerdict::NotTracked);
    }
    let name = format.name();
    let (b, a) = match (before, after) {
        (Some(b), Some(a)) => (b, a),
        _ => {
            let mut m = name.to_owned();
            m.append(" host exposes no GUI gesture evidence");
            return Err(m);
        },
    };
    let begin = a.begin_count.saturating_sub(b.begin_count);
    let value = a.value_count.saturating_sub(b.value_count);
    let end = a.end_count.saturating_sub(b.end_count);
    let completed = a.completed_count.saturating_sub(b.completed_count);
    if begin == 0 || value == 0 || end == 0 || completed == 0 {
        let mut m = name.to_owned();
        m.append(" host callbacks were incomplete (begin +");
        push_decimal(&mut m, begin as u64);
        m.append(", value +");
        push_decimal(&mut m, value as u64);
        m.append(", end +");
        push_decimal(&mut m, end as u64);
        m.append(", completed +");
        push_decimal(&mut m, completed as u64);
        m.append(")");
        return Err(m);
    }
    if a.last_completed_param_id != parameter_id {
        let mut m = name.to_owned();
        m.append(" host completed a gesture for parameter ");
        push_decimal(&mut m, a.last_completed_param_id as u64);
        m.append(", expected ");
        push_decimal(&mut m, parameter_id as u64);
        return Err(m);
    }
    Ok(GestureVerdict::Counted { begin, value, end })
}

/// The verdict on a GUI gesture, given whether the value the host's
/// callback published is a finite number within one millionth of what the
/// parameter reports, and both values as they print with six decimals:
/// how many begin, value and end callbacks it caused (none counted where
/// the format does not report gestures), or why it is refused.
pub open spec fn gesture_evidence_spec(
    format: PluginFormat,
    before: Option<GestureCounts>,
    after: Option<GestureCounts>,
    parameter_id: u32,
    published_matches: bool,
    published_shown: Seq<char>,
    parameter_shown: Seq<char>,
) -> Result<(usize, usize, usize), Seq<char>> {
    match gesture_spec(format, before, after, parameter_id) {
        Err(m) => Err(m),
        Ok(GestureVerdict::NotTracked) => Ok((0, 0, 0)),
        Ok(GestureVerdict::Counted { begin, value, end }) => if published_matches {
            Ok((begin, value, end))
        } else {
            Err(format_name(format) + " host callback published "@ + published_shown
                + ", parameter reports "@ + parameter_shown)
        },
    }
}

/// Checks the evidence a GUI gesture left: every kind of host callback,
/// for the expected parameter, with the parameter's value published.
pub fn gui_gesture_evidence(
    format: PluginFormat,
    before: Option<GestureCounts>,
    after: Option<GestureCounts>,
    parameter_id: u32,
    published_matches: bool,
    published_shown: &str,
    parameter_shown: &str,
) -> (r: Result<(usize, usize, usize), String>)
    ensures
        match (r, gesture_evidence_spec(
            format,
            before,
            after,
            parameter_id,
            published_matches,
            published_shown@,
            parameter_shown@,
        )) {
            (Ok(a), Ok(b)) => a == b,
            (Err(m), Err(t)) => m@ == t,
            _ => false,
        },
{
    match gui_gesture_counts(format, before, after, parameter_id) {
        Err(m) => Err(m),
        Ok(GestureVerdict::NotTracked) => Ok((0, 0, 0)),
        Ok(GestureVerdict::Counted { begin, value, end }) => {
            if published_matches {
                Ok((begin, value, end))
            } else {
                let mut m = format.name().to_owned();
                m.append(" host callback published ");
                m.append(published_shown);
                m.append(", parameter reports ");
                m.append(parameter_shown);
                Err(m)
            }
        },
    }
}

// ------------------------------------------------------------ VST3 buses

/// The number of set bits of `x`: the speakers of a VST3 speaker arrangement.
pub open spec fn popcount(x: nat) -> nat
    decreases x,
{
    if x == 0 {
        0
    } else {
        x % 2 + popcount(x / 2)
    }
}

proof fn lemma_popcount_le(x: nat)
    ensures
        popcount(x) <= x,
    decreases x,
{
    if x > 0 {
        lemma_popcount_le(x / 2);
    }
}

/// The speakers of an arrangement.
pub fn speaker_count(arrangement: u64) -> (n: u64)
    ensures
        n == popcount(arrangement as nat),
{
    let mut x = arrangement;
    let mut n: u64 = 0;
    proof {
        lemma_popcount_le(arrangement as nat);
    }
    while x > 0
        invariant
            n + popcount(x as nat) == popcount(arrangement as nat),
            popcount(arrangement as nat) <= arrangement,
        decreases x,
    {
        n = n + x % 2;
        x = x / 2;
    }
    n
}

/// The first bus from `k` on whose arrangement does not have as many
/// speakers as the bus has channels.
pub open spec fn first_bus_mismatch(channels: Seq<usize>, arrangements: Seq<u64>, k: int) -> Option<
    int,
>
    decreases channels.len() - k,
{
    if k < 0 || k >= channels.len() {
        None
    } else if popcount(arrangements[k] as nat) != channels[k] {
        Some(k)
    } else {
        first_bus_mismatch(channels, arrangements, k + 1)
    }
}

/// The verdict on the speaker arrangements a VST3 processor reports for the
/// buses of one direction, against the buses' channel counts.
pub open spec fn bus_arrangement_verdict(
    direction: Seq<char>,
    channels: Seq<usize>,
    arrangements: Seq<u64>,
) -> Result<(), Seq<char>> {
    if channels.len() != arrangements.len() {
        Err("VST3 "@ + direction + " arrangement count mismatch: buses="@ + decimal(channels.len())
            + ", arrangements="@ + decimal(arrangements.len()))
    } else {
        match first_bus_mismatch(channels, arrangements, 0) {
            None => Ok(()),
            Some(i) => Err("VST3 "@ + direction + " bus "@ + decimal(i as nat)
                + " arrangement has "@ + decimal(popcount(arrangements[i] as nat))
                + " speakers but advertises "@ + decimal(channels[i] as nat) + " channels"@),
        }
    }
}

/// The view of a verdict with a message.
pub open spec fn message_result_view(r: Result<(), String>) -> Result<(), Seq<char>> {
    match r {
        Ok(()) => Ok(()),
        Err(m) => Err(m@),
    }
}

/// Checks that each bus's speaker arrangement has as many speakers as the bus
/// has channels, and that there is one arrangement per bus.
pub fn validate_bus_arrangements(direction: &str, channels: &Vec<usize>, arrangements: &Vec<u64>) -> (r:
    Result<(), String>)
    ensures
        message_result_view(r) == bus_arrangement_verdict(direction@, channels@, arrangements@),
{
    if channels.len() != arrangements.len() {
        let mut m = String::new();
        m.append("VST3 ");
        m.append(direction);
        m.append(" arrangement count mismatch: buses=");
        push_decimal(&mut m, channels.len() as u64);
        m.append(", arrangements=");
        push_decimal(&mut m, arrangements.len() as u64);
        return Err(m);
    }
    let mut i: usize = 0;
    while i < channels.len()
        invariant
            channels.len() == arrangements.len(),
            i <= channels.len(),
            first_bus_mismatch(channels@, arrangements@, 0) == first_bus_mismatch(
                channels@,
                arrangements@,
                i as int,
            ),
        decreases channels.len() - i,
    {
        let speakers = speaker_count(arrangements[i]);
        if speakers != channels[i] as u64 {
            let mut m = String::new();
            m.append("VST3 ");
            m.append(direction);
            m.append(" bus ");
            push_decimal(&mut m, i as u64);
            m.append(" arrangement has ");
            push_decimal(&mut m, speakers);
            m.append(" speakers but advertises ");
            push_decimal(&mut m, channels[i] as u64);
            m.append(" channels");
            return Err(m);
        }
        i = i + 1;
    }
    Ok(())
}

// ------------------------------------------------------------ result report

/// The rule that frames a result report: sixty dashes.
pub open spec fn report_rule() -> Seq<char> {
    Seq::new(60, |i: int| '-')
}

/// A result's report line: its status, its name, and its message if it has one.
pub open spec fn result_line(r: TestResult) -> Seq<char> {
    "  ["@ + (if r.passed {
        "PASS"@
    } else {
        "FAIL"@
    }) + "] "@ + r.name@ + (if r.message@.len() == 0 {
        Seq::<char>::empty()
    } else {
        " - "@ + r.message@
    })
}

/// How many of the results passed.
pub open spec fn passed_count(rs: Seq<TestResult>) -> nat
    decreases rs.len(),
{
    if rs.len() == 0 {
        0
    } else {
        passed_count(rs.drop_last()) + if rs.last().passed {
            1nat
        } else {
            0nat
        }
    }
}

/// The lines of a result report: a heading, one line per result, and a
/// summary of the counts.
pub open spec fn report_lines(rs: Seq<TestResult>) -> Seq<Seq<char>> {
    let passed = passed_count(rs);
    let failed = (rs.len() - passed) as nat;
    seq![Seq::<char>::empty(), "Test Results:"@, report_rule()] + rs.map_values(
        |r: TestResult| result_line(r),
    ) + seq![
        report_rule(),
        "Summary: "@ + decimal(passed) + " passed, "@ + decimal(failed) + " failed, "@ + decimal(
            passed + failed,
        ) + " total"@,
    ]
}

proof fn lemma_passed_count_le(rs: Seq<TestResult>)
    ensures
        passed_count(rs) <= rs.len(),
    decreases rs.len(),
{
    if rs.len() > 0 {
        lemma_passed_count_le(rs.drop_last());
    }
}

fn rule_line() -> (s: String)
    ensures
        s@ == report_rule(),
{
    let mut s = String::new();
    let mut i: usize = 0;
    while i < 60
        invariant
            i <= 60,
            s@ == Seq::new(i as nat, |j: int| '-'),
        decreases 60 - i,
    {
        proof {
            reveal_strlit("-");
        }
        s.append("-");
        i = i + 1;
        assert(s@ =~= Seq::new(i as nat, |j: int| '-'));
    }
    s
}

fn result_line_text(r: &TestResult) -> (s: String)
    ensures
        s@ == result_line(*r),
{
    let mut s = String::new();
    s.append("  [");
    if r.passed {
        s.append("PASS");
    } else {
        s.append("FAIL");
    }
    s.append("] ");
    s.append(r.name.as_str());
    if char_len(r.message.as_str()) != 0 {
        s.append(" - ");
        s.append(r.message.as_str());
    }
    assert(s@ =~= result_line(*r));
    s
}

/// The report of a run's results, line by line, and whether every result
/// passed.
pub fn results_report(results: &Vec<TestResult>) -> (report: (Vec<String>, bool))
    ensures
        report.0@.map_values(|l: String| l@) == report_lines(results@),
        report.1 == (passed_count(results@) == results@.len()),
{
    let mut lines: Vec<String> = Vec::new();
    lines.push(String::new());
    lines.push("Test Results:".to_string());
    lines.push(rule_line());
    let mut passed: usize = 0;
    let mut i: usize = 0;
    while i < results.len()
        invariant
            i <= results.len(),
            passed == passed_count(results@.take(i as int)),
            passed <= i,
            lines@.len() == 3 + i,
            lines@.map_values(|l: String| l@) == seq![
                Seq::<char>::empty(),
                "Test Results:"@,
                report_rule(),
            ] + results@.take(i as int).map_values(|r: TestResult| result_line(r)),
        decreases results.len() - i,
    {
        let r = &results[i];
        proof {
            assert(results@.take(i + 1).drop_last() =~= results@.take(i as int));
        }
        if r.passed {
            passed = passed + 1;
        }
        let text = result_line_text(r);
        let ghost before = lines@;
        let ghost line = text@;
        lines.push(text);
        proof {
            assert(lines@.map_values(|l: String| l@) =~= before.map_values(|l: String| l@).push(
                line,
            ));
            assert(results@.take(i + 1).map_values(|r: TestResult| result_line(r)) =~= results@.take(
                i as int,
            ).map_values(|r: TestResult| result_line(r)).push(result_line(results@[i as int])));
        }
        i = i + 1;
        assert(lines@.map_values(|l: String| l@) =~= seq![
            Seq::<char>::empty(),
            "Test Results:"@,
            report_rule(),
        ] + results@.take(i as int).map_values(|r: TestResult| result_line(r)));
    }
    let failed = results.len() - passed;
    lines.push(rule_line());
    let mut summary = String::new();
    summary.append("Summary: ");
    push_decimal(&mut summary, passed as u64);
    summary.append(" passed, ");
    push_decimal(&mut summary, failed as u64);
    summary.append(" failed, ");
    push_decimal(&mut summary, (passed + failed) as u64);
    summary.append(" total");
    lines.push(summary);
    proof {
        assert(results@.take(results@.len() as int) =~= results@);
    }
    assert(lines@.map_values(|l: String| l@) =~= report_lines(results@));
    (lines, failed == 0)
}

// ------------------------------------------------------------ input events

/// An input event for one process block, with its floating-point operand
/// judged by the caller: a note's velocity must be a finite number from 0
/// to 1, a parameter value a finite number. `*_shown` is the operand as the
/// number prints.
#[derive(Clone, Debug)]
pub enum HostEventCheck {
    Note { sample_offset: u32, channel: u8, pitch: u8, velocity_ok: bool, velocity_shown: String },
    ParamValue { sample_offset: u32, id: u32, value_finite: bool, value_shown: String },
}

/// Where in the block an event falls.
pub open spec fn event_offset(e: HostEventCheck) -> u32 {
    match e {
        HostEventCheck::Note { sample_offset, .. } => sample_offset,
        HostEventCheck::ParamValue { sample_offset, .. } => sample_offset,
    }
}

/// What is wrong with the event at `index` on its own, for a block of
/// `frames` frames, if anything.
pub open spec fn event_fault(e: HostEventCheck, index: nat, frames: nat) -> Option<Seq<char>> {
    let at = "event "@ + decimal(index);
    let field_fault = match e {
        HostEventCheck::Note { channel, pitch, velocity_ok, velocity_shown, .. } => if channel > 15 {
            Some(at + " has invalid MIDI channel "@ + decimal(channel as nat))
        } else if pitch > 127 {
            Some(at + " has invalid MIDI pitch "@ + decimal(pitch as nat))
        } else if !velocity_ok {
            Some(at + " has invalid velocity "@ + velocity_shown@)
        } else {
            None
        },
        HostEventCheck::ParamValue { id, value_finite, value_shown, .. } => if id == u32::MAX {
            Some(at + " has an invalid parameter ID"@)
        } else if !value_finite {
            Some(at + " has a non-finite parameter value "@ + value_shown@)
        } else {
            None
        },
    };
    match field_fault {
        Some(f) => Some(f),
        None => if event_offset(e) >= frames {
            Some(at + " offset "@ + decimal(event_offset(e) as nat) + " is outside "@ + decimal(frames)
                + "-frame block"@)
        } else {
            None
        },
    }
}

/// The first fault among the events from `k` on: each event's own fault,
/// and then that it does not come before the event ahead of it.
pub open spec fn events_fault(events: Seq<HostEventCheck>, frames: nat, k: int) -> Option<Seq<char>>
    decreases events.len() - k,
{
    if k < 0 || k >= events.len() {
        None
    } else {
        match event_fault(events[k], k as nat, frames) {
            Some(f) => Some(f),
            None => if k > 0 && event_offset(events[k]) < event_offset(events[k - 1]) {
                Some("input events must be ordered by sample offset"@)
            } else {
                events_fault(events, frames, k + 1)
            },
        }
    }
}

fn event_refusal(e: &HostEventCheck, index: usize, frames: usize) -> (r: Option<String>)
    ensures
        match r {
            None => event_fault(*e, index as nat, frames as nat) is None,
            Some(m) => event_fault(*e, index as nat, frames as nat) == Some(m@),
        },
{
    let mut at = "event ".to_string();
    push_decimal(&mut at, index as u64);
    let offset = match e {
        HostEventCheck::Note { sample_offset, channel, pitch, velocity_ok, velocity_shown } => {
            if *channel > 15 {
                at.append(" has invalid MIDI channel ");
                push_decimal(&mut at, *channel as u64);
                return Some(at);
            }
            if *pitch > 127 {
                at.append(" has invalid MIDI pitch ");
                push_decimal(&mut at, *pitch as u64);
                return Some(at);
            }
            if !*velocity_ok {
                at.append(" has invalid velocity ");
                at.append(velocity_shown.as_str());
                return Some(at);
            }
            *sample_offset
        },
        HostEventCheck::ParamValue { sample_offset, id, value_finite, value_shown } => {
            if *id == u32::MAX {
                at.append(" has an invalid parameter ID");
                return Some(at);
            }
            if !*value_finite {
                at.append(" has a non-finite parameter value ");
                at.append(value_shown.as_str());
                return Some(at);
            }
            *sample_offset
        },
    };
    if offset as usize >= frames {
        at.append(" offset ");
        push_decimal(&mut at, offset as u64);
        at.append(" is outside ");
        push_decimal(&mut at, frames as u64);
        at.append("-frame block");
        return Some(at);
    }
    None
}

/// Checks a block's input events: valid MIDI channels and pitches, valid
/// velocities and parameter values, parameter IDs other than `u32::MAX`,
/// offsets inside the block, and offsets that never go back.
pub fn validate_host_events(events: &Vec<HostEventCheck>, frames: usize) -> (r: Result<(), String>)
    ensures
        match r {
            Ok(()) => events_fault(events@, frames as nat, 0) is None,
            Err(m) => events_fault(events@, frames as nat, 0) == Some(m@),
        },
{
    let mut previous_offset: u32 = 0;
    let mut index: usize = 0;
    while index < events.len()
        invariant
            index <= events@.len(),
            events_fault(events@, frames as nat, 0) == events_fault(events@, frames as nat, index as int),
            index > 0 ==> previous_offset == event_offset(events@[index - 1]),
        decreases events@.len() - index,
    {
        let e = &events[index];
        if let Some(m) = event_refusal(e, index, frames) {
            return Err(m);
        }
        let offset = match e {
            HostEventCheck::Note { sample_offset, .. } => *sample_offset,
            HostEventCheck::ParamValue { sample_offset, .. } => *sample_offset,
        };
        if index > 0 && offset < previous_offset {
            return Err("input events must be ordered by sample offset".to_string());
        }
        previous_offset = offset;
        index = index + 1;
    }
    Ok(())
}

/// An event that the block check accepts on its own: a valid MIDI channel
/// and pitch with a valid velocity, or a parameter ID other than
/// `u32::MAX` with a finite value, at an offset inside the block.
pub open spec fn event_acceptable(e: HostEventCheck, frames: nat) -> bool {
    &&& match e {
        HostEventCheck::Note { channel, pitch, velocity_ok, .. } => channel <= 15 && pitch <= 127
            && velocity_ok,
        HostEventCheck::ParamValue { id, value_finite, .. } => id != u32::MAX && value_finite,
    }
    &&& event_offset(e) < frames
}

proof fn lemma_event_fault_none(e: HostEventCheck, index: nat, frames: nat)
    ensures
        event_fault(e, index, frames) is None <==> event_acceptable(e, frames),
{
}

proof fn lemma_events_fault_from(events: Seq<HostEventCheck>, frames: nat, k: int)
    requires
        0 <= k <= events.len(),
    ensures
        events_fault(events, frames, k) is None <==> (
            (forall|i: int| k <= i < events.len() ==> #[trigger] event_acceptable(events[i], frames))
            && (forall|i: int|
                k <= i < events.len() && i > 0 ==> event_offset(events[i - 1]) <= event_offset(
                    #[trigger] events[i],
                ))),
    decreases events.len() - k,
{
    if k < events.len() {
        lemma_events_fault_from(events, frames, k + 1);
        lemma_event_fault_none(events[k], k as nat, frames);
    }
}

/// A block's input events are accepted exactly when each is valid on its own
/// and inside the block, and no offset goes back: events may share a sample
/// offset (a chord, simultaneous parameter points); only an offset below
/// the one before it is refused.
pub proof fn events_accepted_exactly_when_valid_and_in_order(events: Seq<HostEventCheck>, frames: nat)
    ensures
        events_fault(events, frames, 0) is None <==> (
            (forall|i: int| 0 <= i < events.len() ==> #[trigger] event_acceptable(events[i], frames))
            && (forall|i: int|
                0 < i < events.len() ==> event_offset(events[i - 1]) <= event_offset(
                    #[trigger] events[i],
                ))),
{
    lemma_events_fault_from(events, frames, 0);
}

} // verus!
