//! The plug-in editor window's platform-independent decisions: how it is
//! styled, how strings reach Win32, and whether a drag gesture meets a
//! control's rectangle.
use vstd::prelude::*;
use crate::text::char_len;

verus! {

/// How a GUI test delivers its drag gesture to the plug-in's editor.
#[derive(Copy, Clone, Debug, PartialEq, Eq, Structural)]
pub enum InputDelivery {
    NativeMouse,
    WindowsMessage,
    WindowsMessageAndNativeMouse,
    WindowsUiAutomation,
    WebViewDom,
}

pub open spec fn delivery_text(d: InputDelivery) -> Seq<char> {
    match d {
        InputDelivery::NativeMouse => "native mouse"@,
        InputDelivery::WindowsMessage => "Win32 window messages"@,
        InputDelivery::WindowsMessageAndNativeMouse => "Win32 window messages and native mouse"@,
        InputDelivery::WindowsUiAutomation => "Windows UI Automation"@,
        InputDelivery::WebViewDom => "WebView DOM gesture"@,
    }
}

impl InputDelivery {
    /// How reports name the delivery.
    pub fn description(&self) -> (s: &'static str)
        ensures
            s@ == delivery_text(*self),
    {
        match self {
            InputDelivery::NativeMouse => "native mouse",
            InputDelivery::WindowsMessage => "Win32 window messages",
            InputDelivery::WindowsMessageAndNativeMouse => "Win32 window messages and native mouse",
            InputDelivery::WindowsUiAutomation => "Windows UI Automation",
            InputDelivery::WebViewDom => "WebView DOM gesture",
        }
    }
}

/// `NSWindowStyleMaskTitled`.
pub const NS_WINDOW_STYLE_MASK_TITLED: u64 = 1;

/// `NSWindowStyleMaskClosable`.
pub const NS_WINDOW_STYLE_MASK_CLOSABLE: u64 = 2;

/// `NSWindowStyleMaskMiniaturizable`.
pub const NS_WINDOW_STYLE_MASK_MINIATURIZABLE: u64 = 4;

/// `NSWindowStyleMaskResizable`.
pub const NS_WINDOW_STYLE_MASK_RESIZABLE: u64 = 8;

/// The host window on macOS is titled, closable and miniaturizable, and is
/// never resizable: the plug-in's editor decides its size.
pub fn macos_host_window_style() -> (style: u64)
    ensures
        style == NS_WINDOW_STYLE_MASK_TITLED | NS_WINDOW_STYLE_MASK_CLOSABLE
            | NS_WINDOW_STYLE_MASK_MINIATURIZABLE,
        style & NS_WINDOW_STYLE_MASK_RESIZABLE == 0,
{
    let style = NS_WINDOW_STYLE_MASK_TITLED | NS_WINDOW_STYLE_MASK_CLOSABLE
        | NS_WINDOW_STYLE_MASK_MINIATURIZABLE;
    assert(style == 7) by (bit_vector)
        requires
            style == 1u64 | 2u64 | 4u64,
    ;
    assert(style & 8 == 0) by (bit_vector)
        requires
            style == 7,
    ;
    style
}

/// The UTF-16 code units of a char.
pub open spec fn utf16_of(c: char) -> Seq<u16> {
    let v = c as u32;
    if v < 0x10000 {
        seq![v as u16]
    } else {
        seq![
            (0xd800 + (v - 0x10000) / 1024) as u16,
            (0xdc00 + (v - 0x10000) % 1024) as u16,
        ]
    }
}

/// `str::encode_utf16`.
pub open spec fn utf16_units(s: Seq<char>) -> Seq<u16>
    decreases s.len(),
{
    if s.len() == 0 {
        Seq::empty()
    } else {
        utf16_units(s.drop_last()) + utf16_of(s.last())
    }
}

/// A string as Win32 takes it: UTF-16 code units and a terminating 0.
pub fn wide_null(value: &str) -> (w: Vec<u16>)
    ensures
        w@ == utf16_units(value@).push(0),
{
    let n = char_len(value);
    let mut w: Vec<u16> = Vec::new();
    let mut i: usize = 0;
    while i < n
        invariant
            n == value@.len(),
            i <= n,
            w@ == utf16_units(value@.take(i as int)),
        decreases n - i,
    {
        let c = value.get_char(i);
        let v = c as u32;
        if v < 0x10000 {
            w.push(v as u16);
        } else {
            let high = (0xd800 + (v - 0x10000) / 1024) as u16;
            let low = (0xdc00 + (v - 0x10000) % 1024) as u16;
            w.push(high);
            w.push(low);
        }
        assert(value@.take(i + 1).drop_last() =~= value@.take(i as int));
        assert(value@.take(i + 1).last() == c);
        assert(w@ =~= utf16_units(value@.take(i as int)) + utf16_of(c));
        i = i + 1;
    }
    assert(value@.take(n as int) =~= value@);
    w.push(0);
    w
}

/// The window class the host registers on Windows.
pub fn class_name() -> (w: Vec<u16>)
    ensures
        w@ == utf16_units("SunMaoRunnerPluginHostWindow"@).push(0),
{
    wide_null("SunMaoRunnerPluginHostWindow")
}

// ------------------------------------------------------------ drag scoring

/// A point lies in the half-open rectangle `left..right` by `top..bottom`.
pub open spec fn in_rect(bounds: (i32, i32, i32, i32), p: (i32, i32)) -> bool {
    bounds.0 <= p.0 < bounds.2 && bounds.1 <= p.1 < bounds.3
}

/// Half of `v`, rounded toward zero as integer division does.
pub open spec fn half_toward_zero(v: int) -> int {
    if v >= 0 {
        v / 2
    } else {
        -((-v) / 2)
    }
}

/// The midpoint of a segment, each coordinate rounded toward zero.
pub open spec fn midpoint(a: (i32, i32), b: (i32, i32)) -> (i32, i32) {
    (half_toward_zero(a.0 + b.0) as i32, half_toward_zero(a.1 + b.1) as i32)
}

/// The clipping constraints `p * t <= q` on the segment parameter `t` that
/// keep the point `from + t * (to - from)` within the rectangle's pixels
/// `left..=right-1`, `top..=bottom-1`.
pub open spec fn clip_p(from: (i32, i32), to: (i32, i32), k: int) -> int {
    if k == 0 {
        -(to.0 - from.0)
    } else if k == 1 {
        to.0 - from.0
    } else if k == 2 {
        -(to.1 - from.1)
    } else {
        to.1 - from.1
    }
}

pub open spec fn clip_q(bounds: (i32, i32, i32, i32), from: (i32, i32), k: int) -> int {
    if k == 0 {
        from.0 - bounds.0
    } else if k == 1 {
        (bounds.2 - 1) - from.0
    } else if k == 2 {
        from.1 - bounds.1
    } else {
        (bounds.3 - 1) - from.1
    }
}

/// Some `t` in `0..=1` meets all four constraints: no constraint without
/// direction is broken, every lower bound is at most 1, every upper bound
/// at least 0, and every lower bound at most every upper bound.
pub open spec fn segment_meets_rect(bounds: (i32, i32, i32, i32), from: (i32, i32), to: (i32, i32)) -> bool {
    &&& forall|k: int|
        0 <= k < 4 && clip_p(from, to, k) == 0 ==> clip_q(bounds, from, k) >= 0
    &&& forall|k: int|
        0 <= k < 4 && clip_p(from, to, k) < 0 ==> clip_q(bounds, from, k) >= clip_p(from, to, k)
    &&& forall|k: int| 0 <= k < 4 && clip_p(from, to, k) > 0 ==> clip_q(bounds, from, k) >= 0
    &&& forall|i: int, j: int|
        0 <= i < 4 && 0 <= j < 4 && clip_p(from, to, i) < 0 && clip_p(from, to, j) > 0 ==> clip_q(
            bounds,
            from,
            i,
        ) * clip_p(from, to, j) >= clip_q(bounds, from, j) * clip_p(from, to, i)
}

/// How well a drag from `from` to `to` hits a control's rectangle: 4 if it
/// starts inside, plus 2 if its midpoint is inside, plus 1 if it ends
/// inside; without any of these, 1 if the segment still crosses the
/// rectangle, else 0. An empty rectangle scores 0.
pub open spec fn drag_score(bounds: (i32, i32, i32, i32), from: (i32, i32), to: (i32, i32)) -> u8 {
    if bounds.2 <= bounds.0 || bounds.3 <= bounds.1 {
        0
    } else {
        let points = (if in_rect(bounds, from) {
            4int
        } else {
            0int
        }) + (if in_rect(bounds, midpoint(from, to)) {
            2int
        } else {
            0int
        }) + (if in_rect(bounds, to) {
            1int
        } else {
            0int
        });
        if points != 0 {
            points as u8
        } else if segment_meets_rect(bounds, from, to) {
            1
        } else {
            0
        }
    }
}

fn contains(bounds: (i32, i32, i32, i32), p: (i32, i32)) -> (b: bool)
    ensures
        b == in_rect(bounds, p),
{
    p.0 >= bounds.0 && p.0 < bounds.2 && p.1 >= bounds.1 && p.1 < bounds.3
}

fn half_sum(a: i32, b: i32) -> (h: i32)
    ensures
        h == half_toward_zero(a + b),
{
    let s: i64 = (a as i64) + (b as i64);
    let h: i64 = if s >= 0 {
        s / 2
    } else {
        -((-s) / 2)
    };
    h as i32
}

fn clip_pair(bounds: (i32, i32, i32, i32), from: (i32, i32), to: (i32, i32), k: usize) -> (r: (
    i64,
    i64,
))
    requires
        k < 4,
    ensures
        r.0 == clip_p(from, to, k as int),
        r.1 == clip_q(bounds, from, k as int),
        -0x2_0000_0000 <= r.0 <= 0x2_0000_0000,
        -0x2_0000_0000 <= r.1 <= 0x2_0000_0000,
{
    let dx: i64 = (to.0 as i64) - (from.0 as i64);
    let dy: i64 = (to.1 as i64) - (from.1 as i64);
    if k == 0 {
        (-dx, (from.0 as i64) - (bounds.0 as i64))
    } else if k == 1 {
        (dx, (bounds.2 as i64) - 1 - (from.0 as i64))
    } else if k == 2 {
        (-dy, (from.1 as i64) - (bounds.1 as i64))
    } else {
        (dy, (bounds.3 as i64) - 1 - (from.1 as i64))
    }
}

proof fn lemma_product_bound(a: int, b: int)
    requires
        -0x2_0000_0000 <= a <= 0x2_0000_0000,
        -0x2_0000_0000 <= b <= 0x2_0000_0000,
    ensures
        -0x4_0000_0000_0000_0000 <= a * b <= 0x4_0000_0000_0000_0000,
{
    assert(-0x4_0000_0000_0000_0000 <= a * b <= 0x4_0000_0000_0000_0000) by (nonlinear_arith)
        requires
            -0x2_0000_0000 <= a <= 0x2_0000_0000,
            -0x2_0000_0000 <= b <= 0x2_0000_0000,
    ;
}

fn segment_crosses(bounds: (i32, i32, i32, i32), from: (i32, i32), to: (i32, i32)) -> (b: bool)
    ensures
        b == segment_meets_rect(bounds, from, to),
{
    let mut k: usize = 0;
    while k < 4
        invariant
            k <= 4,
            forall|m: int| 0 <= m < k && clip_p(from, to, m) == 0 ==> clip_q(bounds, from, m) >= 0,
            forall|m: int|
                0 <= m < k && clip_p(from, to, m) < 0 ==> clip_q(bounds, from, m) >= clip_p(
                    from,
                    to,
                    m,
                ),
            forall|m: int| 0 <= m < k && clip_p(from, to, m) > 0 ==> clip_q(bounds, from, m) >= 0,
        decreases 4 - k,
    {
        let (p, q) = clip_pair(bounds, from, to, k);
        if p == 0 && q < 0 {
            return false;
        }
        if p < 0 && q < p {
            return false;
        }
        if p > 0 && q < 0 {
            return false;
        }
        k = k + 1;
    }
    let mut i: usize = 0;
    while i < 4
        invariant
            i <= 4,
            forall|a: int, c: int|
                0 <= a < i && 0 <= c < 4 && clip_p(from, to, a) < 0 && clip_p(from, to, c) > 0
                    ==> clip_q(bounds, from, a) * clip_p(from, to, c) >= clip_q(bounds, from, c)
                    * clip_p(from, to, a),
        decreases 4 - i,
    {
        let (pi, qi) = clip_pair(bounds, from, to, i);
        let mut j: usize = 0;
        while j < 4
            invariant
                i < 4,
                j <= 4,
                pi == clip_p(from, to, i as int),
                qi == clip_q(bounds, from, i as int),
                -0x2_0000_0000 <= pi <= 0x2_0000_0000,
                -0x2_0000_0000 <= qi <= 0x2_0000_0000,
                forall|a: int, c: int|
                    0 <= a < i && 0 <= c < 4 && clip_p(from, to, a) < 0 && clip_p(from, to, c) > 0
                        ==> clip_q(bounds, from, a) * clip_p(from, to, c) >= clip_q(bounds, from, c)
                        * clip_p(from, to, a),
                forall|c: int|
                    0 <= c < j && pi < 0 && clip_p(from, to, c) > 0 ==> qi * clip_p(from, to, c)
                        >= clip_q(bounds, from, c) * pi,
            decreases 4 - j,
        {
            let (pj, qj) = clip_pair(bounds, from, to, j);
            if pi < 0 && pj > 0 {
                proof {
                    lemma_product_bound(qi as int, pj as int);
                    lemma_product_bound(qj as int, pi as int);
                }
                let lhs: i128 = (qi as i128) * (pj as i128);
                let rhs: i128 = (qj as i128) * (pi as i128);
                if lhs < rhs {
                    return false;
                }
            }
            j = j + 1;
        }
        i = i + 1;
    }
    true
}

/// Scores a drag gesture against a control's rectangle.
pub fn drag_rectangle_score(bounds: (i32, i32, i32, i32), from: (i32, i32), to: (i32, i32)) -> (s:
    u8)
    ensures
        s == drag_score(bounds, from, to),
{
    if bounds.2 <= bounds.0 || bounds.3 <= bounds.1 {
        return 0;
    }
    let mid = (half_sum(from.0, to.0), half_sum(from.1, to.1));
    let a: u8 = if contains(bounds, from) {
        4
    } else {
        0
    };
    let b: u8 = if contains(bounds, mid) {
        2
    } else {
        0
    };
    let c: u8 = if contains(bounds, to) {
        1
    } else {
        0
    };
    let points = a + b + c;
    if points != 0 {
        return points;
    }
    if segment_crosses(bounds, from, to) {
        1
    } else {
        0
    }
}

} // verus!
