//! The arguments of the test host's `gui-test` command.
//!
//! Coordinates are floating-point numbers. The grammar finds each coordinate
//! pair and splits it at its first comma; what the number parser makes of the
//! two halves comes in from the caller, one verdict per argument, and the
//! halves are handed on as the text they were written as.
use vstd::prelude::*;
use crate::scanner::{copy_range, find, find_str};
use crate::text::{char_len, str_eq};

verus! {

/// What the number parser makes of the two halves of a coordinate pair,
/// judged in this order: the X half, the Y half, then both values.
#[derive(Copy, Clone, Debug, PartialEq, Eq, Structural)]
pub enum CoordinateCheck {
    /// Both halves are finite, non-negative numbers.
    Valid,
    /// The X half is not a number.
    InvalidX,
    /// The X half is a number and the Y half is not.
    InvalidY,
    /// Both halves are numbers, and one is infinite, not a number, or negative.
    OutOfRange,
}

/// A point as its two coordinates were written.
#[derive(Clone, Debug)]
pub struct GuiPointText {
    pub x: String,
    pub y: String,
}

/// The drag gesture a GUI test performs.
#[derive(Clone, Debug)]
pub struct GuiDragText {
    pub from: GuiPointText,
    pub to: GuiPointText,
}

/// What a `gui-test` command asks for.
#[derive(Clone, Debug)]
pub struct GuiTestOptions {
    pub auto_close: bool,
    pub verify_pixels: bool,
    pub input_drag: Option<GuiDragText>,
    pub path: String,
}

/// A point over char views.
pub type PointView = (Seq<char>, Seq<char>);

/// `gui-test` options over char views.
pub struct GuiTestOptionsView {
    pub auto_close: bool,
    pub verify_pixels: bool,
    pub input_drag: Option<(PointView, PointView)>,
    pub path: Seq<char>,
}

impl View for GuiPointText {
    type V = PointView;

    open spec fn view(&self) -> PointView {
        (self.x@, self.y@)
    }
}

impl View for GuiTestOptions {
    type V = GuiTestOptionsView;

    open spec fn view(&self) -> GuiTestOptionsView {
        GuiTestOptionsView {
            auto_close: self.auto_close,
            verify_pixels: self.verify_pixels,
            input_drag: match self.input_drag {
                None => None,
                Some(d) => Some((d.from@, d.to@)),
            },
            path: self.path@,
        }
    }
}

/// A coordinate pair split at its first comma.
pub open spec fn point_halves(value: Seq<char>) -> Option<PointView> {
    match find(value, ","@) {
        None => None,
        Some(i) => Some((value.take(i), value.skip(i + 1))),
    }
}

/// Splits a coordinate pair at its first comma.
pub fn gui_point_halves(value: &str) -> (r: Option<GuiPointText>)
    ensures
        match r {
            None => point_halves(value@) is None,
            Some(p) => point_halves(value@) == Some(p@),
        },
{
    proof {
        reveal_strlit(",");
    }
    match find_str(value, ",") {
        None => None,
        Some(i) => {
            let n = char_len(value);
            proof {
                crate::scanner::lemma_find_from_found(value@, ","@, 0);
            }
            let x = copy_range(value, 0, i);
            let y = copy_range(value, i + 1, n);
            assert(x@ =~= value@.take(i as int));
            assert(y@ =~= value@.skip(i + 1));
            Some(GuiPointText { x, y })
        },
    }
}

/// The point an option's value gives, or why it gives none.
pub open spec fn gui_point_result(value: Seq<char>, option: Seq<char>, check: CoordinateCheck) -> Result<
    PointView,
    Seq<char>,
> {
    match point_halves(value) {
        None => Err(option + " expects X,Y, got '"@ + value + "'"@),
        Some((x, y)) => match check {
            CoordinateCheck::Valid => Ok((x, y)),
            CoordinateCheck::InvalidX => Err(option + " has invalid X coordinate '"@ + x + "'"@),
            CoordinateCheck::InvalidY => Err(option + " has invalid Y coordinate '"@ + y + "'"@),
            CoordinateCheck::OutOfRange => Err(option
                + " coordinates must be finite and non-negative, got '"@ + value + "'"@),
        },
    }
}

/// What the arguments read so far have set.
pub struct GuiArgsView {
    pub auto_close: bool,
    pub verify_pixels: bool,
    pub verify_input: bool,
    pub from: Option<PointView>,
    pub to: Option<PointView>,
    pub path: Option<Seq<char>>,
}

/// Nothing set yet.
pub open spec fn gui_args_start() -> GuiArgsView {
    GuiArgsView {
        auto_close: false,
        verify_pixels: false,
        verify_input: false,
        from: None,
        to: None,
        path: None,
    }
}

/// Reads the arguments from `i` on, each with the verdict on its coordinate
/// pair, into what they set, or stops at the first refused one.
pub open spec fn gui_args_scan(
    args: Seq<Seq<char>>,
    checks: Seq<CoordinateCheck>,
    i: int,
    st: GuiArgsView,
) -> Result<GuiArgsView, Seq<char>>
    decreases args.len() - i,
{
    if i < 0 || i >= args.len() {
        Ok(st)
    } else {
        let a = args[i];
        if a == "--auto-close"@ {
            gui_args_scan(args, checks, i + 1, GuiArgsView { auto_close: true, ..st })
        } else if a == "--verify-pixels"@ {
            gui_args_scan(args, checks, i + 1, GuiArgsView { verify_pixels: true, ..st })
        } else if a == "--verify-input"@ {
            gui_args_scan(args, checks, i + 1, GuiArgsView { verify_input: true, ..st })
        } else if a == "--drag-from"@ || a == "--drag-to"@ {
            if i + 1 >= args.len() {
                Err(a + " requires an X,Y value"@)
            } else {
                match gui_point_result(args[i + 1], a, checks[i + 1]) {
                    Err(e) => Err(e),
                    Ok(p) => if a == "--drag-from"@ {
                        if st.from is Some {
                            Err("--drag-from may only be specified once"@)
                        } else {
                            gui_args_scan(args, checks, i + 2, GuiArgsView { from: Some(p), ..st })
                        }
                    } else {
                        if st.to is Some {
                            Err("--drag-to may only be specified once"@)
                        } else {
                            gui_args_scan(args, checks, i + 2, GuiArgsView { to: Some(p), ..st })
                        }
                    },
                }
            }
        } else if a.len() > 0 && a[0] == '-' {
            Err("unknown gui-test option '"@ + a + "'"@)
        } else if st.path is Some {
            Err("gui-test expects exactly one plugin path"@)
        } else {
            gui_args_scan(args, checks, i + 1, GuiArgsView { path: Some(a), ..st })
        }
    }
}

/// The drag a GUI test performs when input is verified with no points given.
pub open spec fn default_gui_drag() -> (PointView, PointView) {
    (("64"@, "110"@), ("456"@, "110"@))
}

/// The views of a list of strings.
pub open spec fn arg_views(args: Seq<String>) -> Seq<Seq<char>> {
    args.map_values(|a: String| a@)
}

/// What a `gui-test` command line asks for, given the verdict on each
/// argument's coordinate pair, or why it is refused.
pub open spec fn gui_test_options(args: Seq<Seq<char>>, checks: Seq<CoordinateCheck>) -> Result<
    GuiTestOptionsView,
    Seq<char>,
> {
    match gui_args_scan(args, checks, 0, gui_args_start()) {
        Err(e) => Err(e),
        Ok(st) => match st.path {
            None => Err("gui-test requires a plugin path"@),
            Some(path) => {
                let options = |drag: Option<(PointView, PointView)>|
                    GuiTestOptionsView {
                        auto_close: st.auto_close,
                        verify_pixels: st.verify_pixels,
                        input_drag: drag,
                        path,
                    };
                if !st.verify_input {
                    if st.from is None && st.to is None {
                        Ok(options(None))
                    } else {
                        Err("--drag-from/--drag-to require --verify-input"@)
                    }
                } else {
                    match (st.from, st.to) {
                        (Some(f), Some(t)) => Ok(options(Some((f, t)))),
                        (None, None) => Ok(options(Some(default_gui_drag()))),
                        _ => Err("--verify-input requires both --drag-from and --drag-to"@),
                    }
                }
            },
        },
    }
}

/// The view of a parse result.
pub open spec fn options_result_view(r: Result<GuiTestOptions, String>) -> Result<
    GuiTestOptionsView,
    Seq<char>,
> {
    match r {
        Ok(o) => Ok(o@),
        Err(e) => Err(e@),
    }
}

fn joined(a: &str, b: &str, c: &str, d: &str) -> (s: String)
    ensures
        s@ == a@ + b@ + c@ + d@,
{
    let mut s = a.to_owned();
    s.append(b);
    s.append(c);
    s.append(d);
    s
}

/// The point an option's value gives, given the verdict on its halves.
pub fn parse_gui_point(value: &str, option: &str, check: CoordinateCheck) -> (r: Result<
    GuiPointText,
    String,
>)
    ensures
        match (r, gui_point_result(value@, option@, check)) {
            (Ok(p), Ok(q)) => p@ == q,
            (Err(m), Err(t)) => m@ == t,
            _ => false,
        },
{
    let halves = gui_point_halves(value);
    match halves {
        None => Err(joined(option, " expects X,Y, got '", value, "'")),
        Some(p) => match check {
            CoordinateCheck::Valid => Ok(p),
            CoordinateCheck::InvalidX => Err(
                joined(option, " has invalid X coordinate '", p.x.as_str(), "'"),
            ),
            CoordinateCheck::InvalidY => Err(
                joined(option, " has invalid Y coordinate '", p.y.as_str(), "'"),
            ),
            CoordinateCheck::OutOfRange => Err(
                joined(option, " coordinates must be finite and non-negative, got '", value, "'"),
            ),
        },
    }
}

/// The view of an optional point.
pub open spec fn opt_point_view(p: Option<GuiPointText>) -> Option<PointView> {
    match p {
        None => None,
        Some(q) => Some(q@),
    }
}

/// The view of an optional string.
pub open spec fn opt_text_view(p: Option<String>) -> Option<Seq<char>> {
    match p {
        None => None,
        Some(q) => Some(q@),
    }
}

fn text_point(x: &str, y: &str) -> (p: GuiPointText)
    ensures
        p@ == (x@, y@),
{
    GuiPointText { x: x.to_owned(), y: y.to_owned() }
}

/// Reads a `gui-test` command line: the flags, an explicit drag gesture or
/// the default one, and the one plug-in path. `checks[i]` is the number
/// parser's verdict on the coordinate pair of `args[i]`.
pub fn parse_gui_test_args(args: &Vec<String>, checks: &Vec<CoordinateCheck>) -> (r: Result<
    GuiTestOptions,
    String,
>)
    requires
        checks@.len() == args@.len(),
    ensures
        options_result_view(r) == gui_test_options(arg_views(args@), checks@),
{
    let ghost av = arg_views(args@);
    let mut auto_close = false;
    let mut verify_pixels = false;
    let mut verify_input = false;
    let mut drag_from: Option<GuiPointText> = None;
    let mut drag_to: Option<GuiPointText> = None;
    let mut path: Option<String> = None;
    let mut index: usize = 0;
    while index < args.len()
        invariant
            checks@.len() == args@.len(),
            av == arg_views(args@),
            index <= args@.len(),
            gui_args_scan(av, checks@, 0, gui_args_start()) == gui_args_scan(
                av,
                checks@,
                index as int,
                GuiArgsView {
                    auto_close,
                    verify_pixels,
                    verify_input,
                    from: opt_point_view(drag_from),
                    to: opt_point_view(drag_to),
                    path: opt_text_view(path),
                },
            ),
        decreases args.len() - index,
    {
        let a = args[index].as_str();
        assert(av[index as int] == a@);
        proof {
            reveal_strlit("-");
        }
        if str_eq(a, "--auto-close") {
            auto_close = true;
            index = index + 1;
        } else if str_eq(a, "--verify-pixels") {
            verify_pixels = true;
            index = index + 1;
        } else if str_eq(a, "--verify-input") {
            verify_input = true;
            index = index + 1;
        } else if str_eq(a, "--drag-from") || str_eq(a, "--drag-to") {
            if index + 1 >= args.len() {
                let mut m = a.to_owned();
                m.append(" requires an X,Y value");
                return Err(m);
            }
            assert(av[index + 1] == args@[index + 1]@);
            let point = match parse_gui_point(args[index + 1].as_str(), a, checks[index + 1]) {
                Ok(p) => p,
                Err(e) => {
                    return Err(e);
                },
            };
            if str_eq(a, "--drag-from") {
                if drag_from.is_some() {
                    return Err("--drag-from may only be specified once".to_string());
                }
                drag_from = Some(point);
            } else {
                if drag_to.is_some() {
                    return Err("--drag-to may only be specified once".to_string());
                }
                drag_to = Some(point);
            }
            index = index + 2;
        } else if char_len(a) > 0 && a.get_char(0) == '-' {
            let mut m = "unknown gui-test option '".to_string();
            m.append(a);
            m.append("'");
            return Err(m);
        } else {
            if path.is_some() {
                return Err("gui-test expects exactly one plugin path".to_string());
            }
            path = Some(a.to_owned());
            index = index + 1;
        }
    }
    let path = match path {
        Some(p) => p,
        None => {
            return Err("gui-test requires a plugin path".to_string());
        },
    };
    let input_drag = if !verify_input {
        if drag_from.is_none() && drag_to.is_none() {
            None
        } else {
            return Err("--drag-from/--drag-to require --verify-input".to_string());
        }
    } else {
        match (drag_from, drag_to) {
            (Some(from), Some(to)) => Some(GuiDragText { from, to }),
            (None, None) => Some(
                GuiDragText { from: text_point("64", "110"), to: text_point("456", "110") },
            ),
            _ => {
                return Err("--verify-input requires both --drag-from and --drag-to".to_string());
            },
        }
    };
    Ok(GuiTestOptions { auto_close, verify_pixels, input_drag, path })
}

} // verus!
