use sunmao_tools::gui_test::{
    gui_point_halves, parse_gui_test_args, CoordinateCheck, GuiPointText, GuiTestOptions,
};
use sunmao_tools::gui::{
    class_name, drag_rectangle_score, macos_host_window_style, wide_null, InputDelivery,
};

#[test]
fn ui_automation_drag_scoring_requires_a_rectangle_intersection() {
    let bounds = (100, 100, 200, 120);
    assert_eq!(drag_rectangle_score(bounds, (10, 10), (90, 90)), 0);
    assert_eq!(drag_rectangle_score(bounds, (10, 110), (250, 110)), 2);
    assert_eq!(
        drag_rectangle_score((100, 100, 120, 110), (0, 105), (300, 105)),
        1
    );
    assert_eq!(drag_rectangle_score(bounds, (110, 110), (190, 110)), 7);
    assert_eq!(
        drag_rectangle_score(bounds, (i32::MIN, i32::MIN), (i32::MAX, i32::MAX),),
        1
    );
}

#[test]
fn empty_rectangles_and_near_misses_score_nothing() {
    assert_eq!(drag_rectangle_score((10, 10, 10, 20), (10, 15), (10, 15)), 0);
    assert_eq!(drag_rectangle_score((0, 0, 10, 10), (10, 0), (20, 10)), 0);
    assert_eq!(drag_rectangle_score((0, 0, 10, 10), (-5, 9), (9, -5)), 2);
    assert_eq!(drag_rectangle_score((0, 0, 10, 10), (-1, 5), (1000, 5)), 1);
    assert_eq!(drag_rectangle_score((0, 0, 10, 10), (-4, 30), (30, -4)), 0);
    assert_eq!(drag_rectangle_score((0, 0, 10, 10), (-5, 5), (15, 5)), 2);
    assert_eq!(drag_rectangle_score((0, 0, 10, 10), (5, 5), (50, 50)), 4);
}

#[test]
fn macos_host_window_is_fixed_size() {
    const RESIZABLE: u64 = 1 << 3;
    assert_eq!(macos_host_window_style() & RESIZABLE, 0);
}

#[test]
fn windows_strings_are_utf16_and_nul_terminated() {
    let value = wide_null("SunMao");
    assert_eq!(value.last(), Some(&0));
    assert_eq!(
        String::from_utf16(&value[..value.len() - 1]).unwrap(),
        "SunMao"
    );
}

#[test]
fn wide_strings_match_the_standard_encoding() {
    for text in ["", "a\u{e9}", "\u{1F3B5} tune", "Bundle & Name"] {
        let mut expected: Vec<u16> = text.encode_utf16().collect();
        expected.push(0);
        assert_eq!(wide_null(text), expected);
    }
    let class = class_name();
    assert_eq!(
        String::from_utf16(&class[..class.len() - 1]).unwrap(),
        "SunMaoRunnerPluginHostWindow"
    );
}

#[test]
fn deliveries_describe_themselves() {
    assert_eq!(InputDelivery::NativeMouse.description(), "native mouse");
    assert_eq!(InputDelivery::WebViewDom.description(), "WebView DOM gesture");
    assert_eq!(
        InputDelivery::WindowsUiAutomation.description(),
        "Windows UI Automation"
    );
}

/// The number parser's verdict on each argument's coordinate pair, as the
/// host judges it: X first, then Y, then both finite and not negative.
fn coordinate_checks(args: &[String]) -> Vec<CoordinateCheck> {
    args.iter()
        .map(|a| match gui_point_halves(a) {
            None => CoordinateCheck::Valid,
            Some(p) => match (p.x.parse::<f64>(), p.y.parse::<f64>()) {
                (Err(_), _) => CoordinateCheck::InvalidX,
                (_, Err(_)) => CoordinateCheck::InvalidY,
                (Ok(x), Ok(y)) if x.is_finite() && y.is_finite() && x >= 0.0 && y >= 0.0 => {
                    CoordinateCheck::Valid
                }
                _ => CoordinateCheck::OutOfRange,
            },
        })
        .collect()
}

fn parse_gui_args(args: &[&str]) -> Result<GuiTestOptions, String> {
    let args: Vec<String> = args.iter().map(|a| a.to_string()).collect();
    let checks = coordinate_checks(&args);
    parse_gui_test_args(&args, &checks)
}

fn point(p: &GuiPointText) -> (f64, f64) {
    (p.x.parse().unwrap(), p.y.parse().unwrap())
}

#[test]
fn gui_test_arguments_parse_explicit_drag_contract() {
    let options = parse_gui_args(&[
        "--auto-close",
        "--verify-pixels",
        "--verify-input",
        "--drag-from",
        "120,150",
        "--drag-to",
        "400,150",
        "Gain.clap",
    ])
    .unwrap();
    assert!(options.auto_close);
    assert!(options.verify_pixels);
    let drag = options.input_drag.unwrap();
    assert_eq!(point(&drag.from), (120.0, 150.0));
    assert_eq!(point(&drag.to), (400.0, 150.0));
    assert_eq!(options.path, "Gain.clap");
}

#[test]
fn gui_test_arguments_reject_partial_or_unowned_drag_contracts() {
    let partial = parse_gui_args(&["--verify-input", "--drag-from", "64,110", "Gain.vst3"]);
    assert!(partial.unwrap_err().contains("requires both"));

    let unowned = parse_gui_args(&["--drag-from", "64,110", "--drag-to", "456,110", "Gain.vst3"]);
    assert!(unowned.unwrap_err().contains("require --verify-input"));

    let malformed = parse_gui_args(&["--verify-input", "--drag-from", "64", "Gain.vst3"]);
    assert!(malformed.unwrap_err().contains("expects X,Y"));
}

#[test]
fn gui_test_arguments_default_the_drag_and_name_each_refusal() {
    let options = parse_gui_args(&["--verify-input", "Gain.clap"]).unwrap();
    assert!(!options.auto_close && !options.verify_pixels);
    let drag = options.input_drag.unwrap();
    assert_eq!(point(&drag.from), (64.0, 110.0));
    assert_eq!(point(&drag.to), (456.0, 110.0));
    assert!(parse_gui_args(&["Gain.clap"]).unwrap().input_drag.is_none());

    assert_eq!(
        parse_gui_args(&["--drag-from", "a,1", "Gain.clap"]).unwrap_err(),
        "--drag-from has invalid X coordinate 'a'"
    );
    assert_eq!(
        parse_gui_args(&["--drag-to", "1,2,3", "Gain.clap"]).unwrap_err(),
        "--drag-to has invalid Y coordinate '2,3'"
    );
    assert_eq!(
        parse_gui_args(&["--drag-to", "-1,2", "Gain.clap"]).unwrap_err(),
        "--drag-to coordinates must be finite and non-negative, got '-1,2'"
    );
    assert_eq!(
        parse_gui_args(&["--drag-to", "inf,2"]).unwrap_err(),
        "--drag-to coordinates must be finite and non-negative, got 'inf,2'"
    );
    assert_eq!(
        parse_gui_args(&["Gain.clap", "--drag-from"]).unwrap_err(),
        "--drag-from requires an X,Y value"
    );
    assert_eq!(
        parse_gui_args(&["--drag-from", "1,1", "--drag-from", "2,2", "Gain.clap"]).unwrap_err(),
        "--drag-from may only be specified once"
    );
    assert_eq!(
        parse_gui_args(&["--verbose", "Gain.clap"]).unwrap_err(),
        "unknown gui-test option '--verbose'"
    );
    assert_eq!(
        parse_gui_args(&["A.clap", "B.clap"]).unwrap_err(),
        "gui-test expects exactly one plugin path"
    );
    assert_eq!(parse_gui_args(&["--auto-close"]).unwrap_err(), "gui-test requires a plugin path");
    let halves = gui_point_halves("1,2,3").unwrap();
    assert_eq!((halves.x.as_str(), halves.y.as_str()), ("1", "2,3"));
    assert!(gui_point_halves("12").is_none());
}
