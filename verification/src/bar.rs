//! Status bar configuration and the planning of what the bar draws.
use vstd::prelude::*;

use crate::ipc::{CompositorSnapshot, WorkspaceInfo};
use crate::text::{chars_of, str_eq};

verus! {

/// Widget names understood by the bar. Unknown entries are ignored so
/// configs stay forward compatible.
#[derive(Debug, Clone, Copy, PartialEq, Eq, Structural)]
pub enum Widget {
    Workspaces,
    Clock,
}

impl Widget {
    /// The widget a configuration name stands for.
    pub open spec fn spec_parse(name: Seq<char>) -> Option<Widget> {
        if name == "workspaces"@ {
            Some(Widget::Workspaces)
        } else if name == "clock"@ {
            Some(Widget::Clock)
        } else {
            None
        }
    }

    /// The widget a configuration name stands for, if any.
    pub fn parse(name: &str) -> (w: Option<Widget>)
        ensures
            w == Widget::spec_parse(name@),
    {
        if str_eq(name, "workspaces") {
            Some(Widget::Workspaces)
        } else if str_eq(name, "clock") {
            Some(Widget::Clock)
        } else {
            None
        }
    }
}

/// Bar settings; colors are ARGB with alpha always 0xFF.
#[derive(Debug, PartialEq, Eq)]
pub struct BarConfig {
    pub height: u32,
    pub widgets: Vec<Widget>,
    pub background: u32,
    pub foreground: u32,
    pub accent: u32,
    pub inactive: u32,
}

pub const DEFAULT_BAR_HEIGHT: u32 = 28u32;
pub const DEFAULT_BACKGROUND: u32 = 0xFF1A_1B26u32;
pub const DEFAULT_FOREGROUND: u32 = 0xFFC0_CAF5u32;
pub const DEFAULT_ACCENT: u32 = 0xFF7A_A2F7u32;
pub const DEFAULT_INACTIVE: u32 = 0xFF56_5F89u32;

impl BarConfig {
    /// The built-in configuration.
    pub fn default() -> (c: BarConfig)
        ensures
            c.height == DEFAULT_BAR_HEIGHT,
            c.widgets@ == seq![Widget::Workspaces, Widget::Clock],
            c.background == DEFAULT_BACKGROUND,
            c.foreground == DEFAULT_FOREGROUND,
            c.accent == DEFAULT_ACCENT,
            c.inactive == DEFAULT_INACTIVE,
    {
        let mut widgets: Vec<Widget> = Vec::new();
        widgets.push(Widget::Workspaces);
        widgets.push(Widget::Clock);
        BarConfig {
            height: DEFAULT_BAR_HEIGHT,
            widgets,
            background: DEFAULT_BACKGROUND,
            foreground: DEFAULT_FOREGROUND,
            accent: DEFAULT_ACCENT,
            inactive: DEFAULT_INACTIVE,
        }
    }
}

/// Unicode `White_Space` characters, as trimmed by `str::trim`.
pub open spec fn is_white_space(c: char) -> bool {
    let u = c as u32;
    ||| 0x9 <= u <= 0xD
    ||| u == 0x20
    ||| u == 0x85
    ||| u == 0xA0
    ||| u == 0x1680
    ||| 0x2000 <= u <= 0x200A
    ||| u == 0x2028
    ||| u == 0x2029
    ||| u == 0x202F
    ||| u == 0x205F
    ||| u == 0x3000
}

/// `s` without its leading white space.
pub open spec fn trim_start(s: Seq<char>) -> Seq<char>
    decreases s.len(),
{
    if s.len() > 0 && is_white_space(s[0]) {
        trim_start(s.drop_first())
    } else {
        s
    }
}

/// `s` without its trailing white space.
pub open spec fn trim_end(s: Seq<char>) -> Seq<char>
    decreases s.len(),
{
    if s.len() > 0 && is_white_space(s.last()) {
        trim_end(s.drop_last())
    } else {
        s
    }
}

/// `s` without its leading `'#'` characters.
pub open spec fn strip_hashes(s: Seq<char>) -> Seq<char>
    decreases s.len(),
{
    if s.len() > 0 && s[0] == '#' {
        strip_hashes(s.drop_first())
    } else {
        s
    }
}

/// `c` is a hexadecimal digit.
pub open spec fn is_hex(c: char) -> bool {
    ('0' <= c <= '9') || ('a' <= c <= 'f') || ('A' <= c <= 'F')
}

/// Value of a hexadecimal digit.
pub open spec fn hex_val(c: char) -> nat {
    if '0' <= c <= '9' {
        (c as nat - '0' as nat) as nat
    } else if 'a' <= c <= 'f' {
        (c as nat - 'a' as nat + 10) as nat
    } else {
        (c as nat - 'A' as nat + 10) as nat
    }
}

/// All characters are hexadecimal digits.
pub open spec fn all_hex(s: Seq<char>) -> bool {
    forall|i: int| 0 <= i < s.len() ==> is_hex(#[trigger] s[i])
}

/// Value of a string of hexadecimal digits.
pub open spec fn hex_number(s: Seq<char>) -> nat
    decreases s.len(),
{
    if s.len() == 0 {
        0
    } else {
        hex_number(s.drop_last()) * 16 + hex_val(s.last())
    }
}

/// The RGB value a six-byte color string stands for: six hexadecimal
/// digits, or a `'+'` sign followed by five (as `u32::from_str_radix`
/// reads it).
pub open spec fn color_digits(h: Seq<char>) -> Option<nat> {
    if h.len() != 6 {
        None
    } else if all_hex(h) {
        Some(hex_number(h))
    } else if h[0] == '+' && all_hex(h.drop_first()) {
        Some(hex_number(h.drop_first()))
    } else {
        None
    }
}

/// The ARGB color a configuration string stands for: surrounding white
/// space and leading `'#'` are ignored, the rest must be a six-digit hex
/// RGB value; anything else yields the fallback.
pub open spec fn spec_parse_color(raw: Seq<char>, fallback: u32) -> u32 {
    match color_digits(strip_hashes(trim_end(trim_start(raw)))) {
        Some(rgb) => (0xFF00_0000 + rgb) as u32,
        None => fallback,
    }
}

/// Trimming from the front of a suffix.
proof fn lemma_trim_start_step(s: Seq<char>, i: int)
    requires
        0 <= i < s.len(),
        is_white_space(s[i]),
    ensures
        trim_start(s.subrange(i, s.len() as int)) == trim_start(s.subrange(i + 1, s.len() as int)),
{
    assert(s.subrange(i, s.len() as int).drop_first() =~= s.subrange(i + 1, s.len() as int));
}

/// Trimming from the back of a prefix.
proof fn lemma_trim_end_step(s: Seq<char>, j: int)
    requires
        0 < j <= s.len(),
        is_white_space(s[j - 1]),
    ensures
        trim_end(s.subrange(0, j)) == trim_end(s.subrange(0, j - 1)),
{
    assert(s.subrange(0, j).drop_last() =~= s.subrange(0, j - 1));
}

/// Stripping `'#'` from the front of a suffix.
proof fn lemma_strip_step(s: Seq<char>, i: int)
    requires
        0 <= i < s.len(),
        s[i] == '#',
    ensures
        strip_hashes(s.subrange(i, s.len() as int)) == strip_hashes(s.subrange(i + 1, s.len() as int)),
{
    assert(s.subrange(i, s.len() as int).drop_first() =~= s.subrange(i + 1, s.len() as int));
}

fn is_white_space_exec(c: char) -> (r: bool)
    ensures
        r == is_white_space(c),
{
    let u = c as u32;
    (0x9 <= u && u <= 0xD) || u == 0x20 || u == 0x85 || u == 0xA0 || u == 0x1680 || (0x2000 <= u
        && u <= 0x200A) || u == 0x2028 || u == 0x2029 || u == 0x202F || u == 0x205F || u == 0x3000
}

fn hex_digit(c: char) -> (r: Option<u32>)
    ensures
        r is Some <==> is_hex(c),
        r matches Some(v) ==> v == hex_val(c) && v < 16,
{
    if '0' <= c && c <= '9' {
        Some((c as u32) - ('0' as u32))
    } else if 'a' <= c && c <= 'f' {
        Some((c as u32) - ('a' as u32) + 10)
    } else if 'A' <= c && c <= 'F' {
        Some((c as u32) - ('A' as u32) + 10)
    } else {
        None
    }
}

/// Reads `cs[lo..hi]` as hexadecimal digits.
fn read_hex(cs: &Vec<char>, lo: usize, hi: usize) -> (r: Option<u32>)
    requires
        lo <= hi <= cs@.len(),
        hi - lo <= 6,
    ensures
        r is Some <==> all_hex(cs@.subrange(lo as int, hi as int)),
        r matches Some(v) ==> v == hex_number(cs@.subrange(lo as int, hi as int)),
        r matches Some(v) ==> v < 0x100_0000,
{
    let mut acc: u32 = 0;
    let mut i: usize = lo;
    while i < hi
        invariant
            lo <= i <= hi <= cs@.len(),
            hi - lo <= 6,
            all_hex(cs@.subrange(lo as int, i as int)),
            acc == hex_number(cs@.subrange(lo as int, i as int)),
            acc < pow16((i - lo) as nat),
        decreases hi - i,
    {
        match hex_digit(cs[i]) {
            Some(d) => {
                proof {
                    let s = cs@.subrange(lo as int, i + 1);
                    assert(s.drop_last() =~= cs@.subrange(lo as int, i as int));
                    assert(pow16((i + 1 - lo) as nat) == pow16((i - lo) as nat) * 16);
                    assert(pow16((i - lo) as nat) <= 0x10_0000) by {
                        lemma_pow16_bound((i - lo) as nat);
                    }
                    assert(acc * 16 + d < pow16((i - lo) as nat) * 16) by (nonlinear_arith)
                        requires
                            acc < pow16((i - lo) as nat),
                            d < 16,
                    ;
                }
                acc = acc * 16 + d;
            },
            None => {
                proof {
                    assert(cs@.subrange(lo as int, hi as int)[i - lo] == cs@[i as int]);
                }
                return None;
            },
        }
        i = i + 1;
    }
    proof {
        lemma_pow16_bound((hi - lo) as nat);
    }
    Some(acc)
}

/// Powers of sixteen.
pub open spec fn pow16(n: nat) -> nat
    decreases n,
{
    if n == 0 {
        1
    } else {
        pow16((n - 1) as nat) * 16
    }
}

proof fn lemma_pow16_bound(n: nat)
    requires
        n <= 6,
    ensures
        pow16(n) <= 0x100_0000,
        n <= 5 ==> pow16(n) <= 0x10_0000,
{
    reveal_with_fuel(pow16, 7);
}

/// Parses a `#rrggbb` color into ARGB with an opaque alpha channel;
/// returns `fallback` when the text is not such a color.
pub fn parse_color(raw: &str, fallback: u32) -> (c: u32)
    ensures
        c == spec_parse_color(raw@, fallback),
{
    let cs = chars_of(raw);
    let ghost s = cs@;
    let n = cs.len();
    // Leading white space.
    let mut lo: usize = 0;
    assert(s.subrange(0, n as int) =~= s);
    while lo < n && is_white_space_exec(cs[lo])
        invariant
            lo <= n == s.len(),
            cs@ == s,
            trim_start(s) == trim_start(s.subrange(lo as int, n as int)),
        decreases n - lo,
    {
        proof {
            lemma_trim_start_step(s, lo as int);
        }
        lo = lo + 1;
    }
    proof {
        assert(s.subrange(0, n as int) =~= s);
    }
    let ghost t = s.subrange(lo as int, n as int);
    assert(trim_start(s) == t);
    // Trailing white space.
    let mut hi: usize = n;
    assert(t.subrange(0, (n - lo) as int) =~= t);
    while hi > lo && is_white_space_exec(cs[hi - 1])
        invariant
            lo <= hi <= n == s.len(),
            cs@ == s,
            t == s.subrange(lo as int, n as int),
            trim_end(t) == trim_end(t.subrange(0, hi - lo)),
        decreases hi,
    {
        proof {
            assert(t.subrange(0, hi - lo)[hi - lo - 1] == s[hi - 1]);
            lemma_trim_end_step(t, (hi - lo) as int);
        }
        hi = hi - 1;
    }
    proof {
        assert(t.subrange(0, (n - lo) as int) =~= t);
        if hi > lo {
            assert(!is_white_space(t.subrange(0, hi - lo).last()));
        }
    }
    let ghost u = s.subrange(lo as int, hi as int);
    assert(trim_end(t) == u) by {
        assert(t.subrange(0, hi - lo) =~= u);
    }
    // Leading '#'.
    let mut start: usize = lo;
    assert(u.subrange(0, hi - lo) =~= u);
    while start < hi && cs[start] == '#'
        invariant
            lo <= start <= hi <= n == s.len(),
            cs@ == s,
            u == s.subrange(lo as int, hi as int),
            strip_hashes(u) == strip_hashes(u.subrange(start - lo, hi - lo)),
        decreases hi - start,
    {
        proof {
            assert(u[start - lo] == s[start as int]);
            lemma_strip_step(u, start - lo);
            assert(u.subrange(start - lo + 1, hi - lo) =~= u.subrange(start - lo + 1, u.len() as int));
        }
        start = start + 1;
    }
    let ghost h = s.subrange(start as int, hi as int);
    proof {
        assert(u.subrange(0, hi - lo) =~= u);
        assert(u.subrange(start - lo, hi - lo) =~= h);
        if start < hi {
            assert(h[0] == s[start as int]);
        }
        assert(strip_hashes(h) == h);
    }
    if hi - start != 6 {
        return fallback;
    }
    match read_hex(&cs, start, hi) {
        Some(rgb) => {
            return 0xFF00_0000 + rgb;
        },
        None => {},
    }
    if cs[start] == '+' {
        match read_hex(&cs, start + 1, hi) {
            Some(rgb) => {
                proof {
                    assert(h.drop_first() =~= s.subrange(start + 1, hi as int));
                }
                return 0xFF00_0000 + rgb;
            },
            None => {
                proof {
                    assert(h.drop_first() =~= s.subrange(start + 1, hi as int));
                }
            },
        }
    }
    fallback
}

} // verus!

verus! {

/// Bar settings as read from the configuration script, before defaults
/// and validation are applied.
pub struct RawBarConfig {
    pub height: Option<u32>,
    /// Widget names in configuration order.
    pub widgets: Vec<String>,
    pub background: Option<String>,
    pub foreground: Option<String>,
    pub accent: Option<String>,
    pub inactive: Option<String>,
}

/// The known widgets named by `names`, in order; unknown names are skipped.
pub open spec fn known_widgets(names: Seq<String>) -> Seq<Widget>
    decreases names.len(),
{
    if names.len() == 0 {
        Seq::empty()
    } else {
        let rest = known_widgets(names.drop_last());
        match Widget::spec_parse(names.last()@) {
            Some(w) => rest.push(w),
            None => rest,
        }
    }
}

/// `h` clamped into `lo..=hi`.
pub open spec fn clamp(h: u32, lo: u32, hi: u32) -> u32 {
    if h < lo {
        lo
    } else if h > hi {
        hi
    } else {
        h
    }
}

/// A configured color, or the fallback when none is configured.
pub open spec fn color_or(raw: Option<String>, fallback: u32) -> u32 {
    match raw {
        Some(s) => spec_parse_color(s@, fallback),
        None => fallback,
    }
}

fn resolve_color(raw: &Option<String>, fallback: u32) -> (c: u32)
    ensures
        c == color_or(*raw, fallback),
{
    match raw {
        Some(s) => parse_color(s.as_str(), fallback),
        None => fallback,
    }
}

impl BarConfig {
    /// Applies defaults and validation to raw settings: the height is
    /// clamped to 16..=64 (28 when unset), unknown widget names are skipped
    /// (all defaults when none is left), and each color falls back to its
    /// default when unset or invalid.
    pub fn resolve(raw: &RawBarConfig) -> (c: BarConfig)
        ensures
            c.height == clamp(
                match raw.height {
                    Some(h) => h,
                    None => DEFAULT_BAR_HEIGHT,
                },
                16,
                64,
            ),
            known_widgets(raw.widgets@).len() > 0 ==> c.widgets@ == known_widgets(raw.widgets@),
            known_widgets(raw.widgets@).len() == 0 ==> c.widgets@ == seq![
                Widget::Workspaces,
                Widget::Clock,
            ],
            c.background == color_or(raw.background, DEFAULT_BACKGROUND),
            c.foreground == color_or(raw.foreground, DEFAULT_FOREGROUND),
            c.accent == color_or(raw.accent, DEFAULT_ACCENT),
            c.inactive == color_or(raw.inactive, DEFAULT_INACTIVE),
    {
        let defaults = BarConfig::default();
        let h = match raw.height {
            Some(h) => h,
            None => defaults.height,
        };
        let height = if h < 16 {
            16
        } else if h > 64 {
            64
        } else {
            h
        };
        let mut widgets: Vec<Widget> = Vec::new();
        let mut i: usize = 0;
        while i < raw.widgets.len()
            invariant
                i <= raw.widgets@.len(),
                widgets@ == known_widgets(raw.widgets@.take(i as int)),
            decreases raw.widgets@.len() - i,
        {
            proof {
                assert(raw.widgets@.take(i + 1).drop_last() =~= raw.widgets@.take(i as int));
            }
            match Widget::parse(raw.widgets[i].as_str()) {
                Some(w) => widgets.push(w),
                None => {},
            }
            i = i + 1;
        }
        proof {
            assert(raw.widgets@.take(i as int) =~= raw.widgets@);
        }
        if widgets.len() == 0 {
            widgets = defaults.widgets;
        }
        BarConfig {
            height,
            widgets,
            background: resolve_color(&raw.background, defaults.background),
            foreground: resolve_color(&raw.foreground, defaults.foreground),
            accent: resolve_color(&raw.accent, defaults.accent),
            inactive: resolve_color(&raw.inactive, defaults.inactive),
        }
    }
}

/// Width in pixels of `s` in the bar font (fixed 6 pixel advance).
pub open spec fn spec_text_width(s: Seq<char>) -> int {
    s.len() * 6int
}

/// Width in pixels of `s` in the bar font (fixed 6 pixel advance).
pub fn text_width(s: &str) -> (w: u32)
    requires
        s@.len() * 6 <= u32::MAX,
    ensures
        w == spec_text_width(s@),
{
    let n = chars_of(s).len();
    (n as u32) * 6
}

/// `s` reads as a time of day `HH:MM`: a zero-padded hour from 00 to 23,
/// a colon, and a zero-padded minute from 00 to 59.
pub open spec fn is_clock_text(s: Seq<char>) -> bool {
    &&& s.len() == 5
    &&& '0' <= s[0] <= '2'
    &&& '0' <= s[1] <= '9'
    &&& s[0] == '2' ==> s[1] <= '3'
    &&& s[2] == ':'
    &&& '0' <= s[3] <= '5'
    &&& '0' <= s[4] <= '9'
}

/// The clock text for a time of day: hour and minute, each as two
/// decimal digits, separated by a colon.
pub open spec fn spec_clock_text(hour: u32, minute: u32) -> Seq<char> {
    seq![
        crate::text::digit_char((hour / 10) as nat),
        crate::text::digit_char((hour % 10) as nat),
        ':',
        crate::text::digit_char((minute / 10) as nat),
        crate::text::digit_char((minute % 10) as nat),
    ]
}

/// Text of the clock widget for the local time `hour`:`minute`, as
/// `HH:MM` (zero-padded).
pub fn clock_text(hour: u32, minute: u32) -> (s: String)
    requires
        hour < 24,
        minute < 60,
    ensures
        s@ == spec_clock_text(hour, minute),
        is_clock_text(s@),
        s@.len() * 6 + 16 <= u32::MAX,
{
    let mut s = String::new();
    crate::text::string_push(&mut s, crate::text::digit(hour / 10));
    crate::text::string_push(&mut s, crate::text::digit(hour % 10));
    crate::text::string_push(&mut s, ':');
    crate::text::string_push(&mut s, crate::text::digit(minute / 10));
    crate::text::string_push(&mut s, crate::text::digit(minute % 10));
    assert(s@ =~= spec_clock_text(hour, minute));
    s
}

/// Clickable workspace cell, in surface-local coordinates.
#[derive(Debug, Clone, Copy, PartialEq, Eq, Structural)]
pub struct WorkspaceCell {
    pub x0: u32,
    pub x1: u32,
    pub index: usize,
}

/// One drawing step of the bar.
#[derive(Debug, PartialEq, Eq)]
pub enum DrawOp {
    /// Paint the whole canvas.
    Fill { color: u32 },
    /// Paint a rectangle (clipped to the canvas).
    FillRect { x: u32, y: u32, w: u32, h: u32, color: u32 },
    /// Draw text with its top-left corner at (`x`, `y`).
    Text { text: String, x: u32, y: u32, color: u32 },
}

/// A drawing step as a mathematical value (text as its characters).
pub enum DrawStep {
    Fill { color: u32 },
    FillRect { x: u32, y: u32, w: u32, h: u32, color: u32 },
    Text { text: Seq<char>, x: u32, y: u32, color: u32 },
}

impl View for DrawOp {
    type V = DrawStep;

    open spec fn view(&self) -> DrawStep {
        match self {
            DrawOp::Fill { color } => DrawStep::Fill { color: *color },
            DrawOp::FillRect { x, y, w, h, color } => DrawStep::FillRect {
                x: *x,
                y: *y,
                w: *w,
                h: *h,
                color: *color,
            },
            DrawOp::Text { text, x, y, color } => DrawStep::Text {
                text: text@,
                x: *x,
                y: *y,
                color: *color,
            },
        }
    }
}

/// The steps of a list of drawing operations.
pub open spec fn steps(ops: Seq<DrawOp>) -> Seq<DrawStep> {
    ops.map_values(|o: DrawOp| o@)
}

/// What to draw, and where the workspace cells are.
pub struct BarPlan {
    pub ops: Vec<DrawOp>,
    pub cells: Vec<WorkspaceCell>,
}

/// Text color of the active workspace label.
pub const ACTIVE_LABEL_COLOR: u32 = 0xFFFF_FFFFu32;

/// Width of the cell of a workspace label: the label plus 16 pixels of
/// padding, at least as wide as the bar is tall.
pub open spec fn cell_width(info: WorkspaceInfo, height: u32) -> int {
    let lw = spec_text_width(info.name@);
    if lw + 16 > height {
        lw + 16
    } else {
        height as int
    }
}

/// Drawing steps for the cell of workspace `info` at `x`, `cw` wide.
pub open spec fn cell_ops(info: WorkspaceInfo, config: BarConfig, x: int, cw: int, height: u32) -> Seq<DrawStep> {
    let lw = spec_text_width(info.name@);
    let tx = (x + (cw - lw) / 2) as u32;
    if info.active {
        seq![
            DrawStep::FillRect { x: x as u32, y: 0, w: cw as u32, h: height, color: config.accent },
            DrawStep::Text { text: info.name@, x: tx, y: 7, color: ACTIVE_LABEL_COLOR },
        ]
    } else {
        let color = if info.window_count > 0 {
            config.foreground
        } else {
            config.inactive
        };
        let label = seq![DrawStep::Text { text: info.name@, x: tx, y: 7, color }];
        if info.window_count > 0 {
            label.push(
                DrawStep::FillRect {
                    x: (x + 4) as u32,
                    y: (height - 4) as u32,
                    w: (cw - 8) as u32,
                    h: 2,
                    color: config.inactive,
                },
            )
        } else {
            label
        }
    }
}

/// The workspace cells from workspace `i` on, starting at `x`: cells are
/// laid out left to right with a 2 pixel gap until one does not fit.
pub open spec fn cells_from(ws: Seq<WorkspaceInfo>, i: int, x: int, width: u32, height: u32) -> Seq<WorkspaceCell>
    decreases ws.len() - i,
{
    if i < 0 || i >= ws.len() {
        Seq::empty()
    } else {
        let cw = cell_width(ws[i], height);
        if x + cw > width {
            Seq::empty()
        } else {
            seq![WorkspaceCell { x0: x as u32, x1: (x + cw) as u32, index: i as usize }] + cells_from(
                ws,
                i + 1,
                x + cw + 2,
                width,
                height,
            )
        }
    }
}

/// Drawing steps of the workspace cells from workspace `i` on.
pub open spec fn cell_ops_from(
    ws: Seq<WorkspaceInfo>,
    config: BarConfig,
    i: int,
    x: int,
    width: u32,
    height: u32,
) -> Seq<DrawStep>
    decreases ws.len() - i,
{
    if i < 0 || i >= ws.len() {
        Seq::empty()
    } else {
        let cw = cell_width(ws[i], height);
        if x + cw > width {
            Seq::empty()
        } else {
            cell_ops(ws[i], config, x, cw, height) + cell_ops_from(
                ws,
                config,
                i + 1,
                x + cw + 2,
                width,
                height,
            )
        }
    }
}

/// Where the free space right of the workspace cells starts.
pub open spec fn cells_end(ws: Seq<WorkspaceInfo>, i: int, x: int, width: u32, height: u32) -> int
    decreases ws.len() - i,
{
    if i < 0 || i >= ws.len() {
        x
    } else {
        let cw = cell_width(ws[i], height);
        if x + cw > width {
            x
        } else {
            cells_end(ws, i + 1, x + cw + 2, width, height)
        }
    }
}

/// Drawing step of the clock, right-aligned with 8 pixels of padding,
/// when it fits right of the workspace cells.
pub open spec fn clock_ops(clock: Seq<char>, config: BarConfig, free_from: int, width: u32) -> Seq<DrawStep> {
    let cw = spec_text_width(clock);
    let free = if width >= free_from {
        width - free_from
    } else {
        0
    };
    if cw + 16 < free {
        seq![DrawStep::Text { text: clock, x: (width - cw - 8) as u32, y: 7, color: config.foreground }]
    } else {
        Seq::empty()
    }
}

/// The complete drawing plan of the bar.
pub open spec fn bar_ops(
    config: BarConfig,
    ws: Seq<WorkspaceInfo>,
    clock: Seq<char>,
    width: u32,
    height: u32,
) -> Seq<DrawStep> {
    let has_ws = config.widgets@.contains(Widget::Workspaces);
    let has_clock = config.widgets@.contains(Widget::Clock);
    let cells = if has_ws {
        cell_ops_from(ws, config, 0, 4, width, height)
    } else {
        Seq::empty()
    };
    let end = if has_ws {
        cells_end(ws, 0, 4, width, height)
    } else {
        4
    };
    let clock_part = if has_clock {
        clock_ops(clock, config, end, width)
    } else {
        Seq::empty()
    };
    seq![DrawStep::Fill { color: config.background }] + cells + clock_part
}

/// Inputs on which drawing the bar stays within `u32` arithmetic.
pub open spec fn bar_inputs_ok(ws: Seq<WorkspaceInfo>, clock: Seq<char>, width: u32, height: u32) -> bool {
    &&& width <= u32::MAX - 2
    &&& clock.len() * 6 + 16 <= u32::MAX
    &&& forall|i: int| 0 <= i < ws.len() ==> (#[trigger] ws[i]).name@.len() * 6 + 16 <= u32::MAX
    &&& height >= 4 || forall|i: int|
        0 <= i < ws.len() ==> (#[trigger] ws[i]).active || ws[i].window_count == 0
}

fn contains_widget(ws: &Vec<Widget>, w: Widget) -> (r: bool)
    ensures
        r == ws@.contains(w),
{
    let mut i: usize = 0;
    while i < ws.len()
        invariant
            i <= ws@.len(),
            forall|j: int| 0 <= j < i ==> ws@[j] != w,
        decreases ws@.len() - i,
    {
        if ws[i] == w {
            return true;
        }
        i = i + 1;
    }
    false
}

/// Plans the whole bar: background, workspace cells on the left (active
/// one highlighted, occupied ones underlined) and the clock on the right.
/// Returns the drawing steps and the clickable workspace cells.
pub fn plan_bar(
    config: &BarConfig,
    snapshot: &CompositorSnapshot,
    clock_text: &str,
    width: u32,
    height: u32,
) -> (plan: BarPlan)
    requires
        bar_inputs_ok(snapshot.workspaces@, clock_text@, width, height),
    ensures
        steps(plan.ops@) == bar_ops(*config, snapshot.workspaces@, clock_text@, width, height),
        config.widgets@.contains(Widget::Workspaces) ==> plan.cells@ == cells_from(
            snapshot.workspaces@,
            0,
            4,
            width,
            height,
        ),
        !config.widgets@.contains(Widget::Workspaces) ==> plan.cells@.len() == 0,
{
    let ws = &snapshot.workspaces;
    let ghost wss = ws@;
    let mut ops: Vec<DrawOp> = Vec::new();
    ops.push(DrawOp::Fill { color: config.background });
    let mut cells: Vec<WorkspaceCell> = Vec::new();
    let has_ws = contains_widget(&config.widgets, Widget::Workspaces);
    let has_clock = contains_widget(&config.widgets, Widget::Clock);
    let mut x: u32 = 4;
    if has_ws {
        let ghost ops0 = ops@;
        let mut i: usize = 0;
        while i < ws.len()
            invariant
                bar_inputs_ok(wss, clock_text@, width, height),
                wss == ws@,
                i <= wss.len(),
                ops0 == seq![DrawOp::Fill { color: config.background }],
                steps(ops@) + cell_ops_from(wss, *config, i as int, x as int, width, height)
                    == steps(ops0) + cell_ops_from(wss, *config, 0, 4, width, height),
                cells@ + cells_from(wss, i as int, x as int, width, height) == cells_from(
                    wss,
                    0,
                    4,
                    width,
                    height,
                ),
                cells_end(wss, i as int, x as int, width, height) == cells_end(wss, 0, 4, width, height),
            ensures
                i < wss.len() ==> cell_ops_from(wss, *config, i as int, x as int, width, height)
                    == Seq::<DrawStep>::empty() && cells_from(wss, i as int, x as int, width, height)
                    == Seq::<WorkspaceCell>::empty() && cells_end(
                    wss,
                    i as int,
                    x as int,
                    width,
                    height,
                ) == x,
            decreases wss.len() - i,
        {
            let info = &ws[i];
            let lw = text_width(info.name.as_str());
            let cw = if lw + 16 > height {
                lw + 16
            } else {
                height
            };
            if x > width || cw > width - x {
                break;
            }
            let tx = x + (cw - lw) / 2;
            let ghost before = ops@;
            if info.active {
                ops.push(DrawOp::FillRect { x, y: 0, w: cw, h: height, color: config.accent });
                ops.push(DrawOp::Text { text: info.name.clone(), x: tx, y: 7, color: ACTIVE_LABEL_COLOR });
            } else {
                let color = if info.window_count > 0 {
                    config.foreground
                } else {
                    config.inactive
                };
                ops.push(DrawOp::Text { text: info.name.clone(), x: tx, y: 7, color });
                if info.window_count > 0 {
                    ops.push(
                        DrawOp::FillRect {
                            x: x + 4,
                            y: height - 4,
                            w: cw - 8,
                            h: 2,
                            color: config.inactive,
                        },
                    );
                }
            }
            proof {
                assert(steps(ops@) =~= steps(before) + cell_ops(
                    wss[i as int],
                    *config,
                    x as int,
                    cw as int,
                    height,
                ));
                assert(steps(ops@) + cell_ops_from(wss, *config, i + 1, x + cw + 2, width, height)
                    =~= steps(before) + cell_ops_from(
                    wss,
                    *config,
                    i as int,
                    x as int,
                    width,
                    height,
                ));
            }
            let ghost cells_before = cells@;
            cells.push(WorkspaceCell { x0: x, x1: x + cw, index: i });
            proof {
                assert(cells@ + cells_from(wss, i + 1, x + cw + 2, width, height) =~= cells_before
                    + cells_from(wss, i as int, x as int, width, height));
            }
            x = x + cw + 2;
            i = i + 1;
        }
        proof {
            assert(cells@ + Seq::<WorkspaceCell>::empty() =~= cells@);
            assert(steps(ops@) + Seq::<DrawStep>::empty() =~= steps(ops@));
        }
    }
    let ghost after_cells = ops@;
    if has_clock {
        let pad: u32 = 8;
        let clock_w = text_width(clock_text);
        let free = if width >= x {
            width - x
        } else {
            0
        };
        if clock_w + pad * 2 < free {
            let tx = width - clock_w - pad;
            ops.push(
                DrawOp::Text {
                    text: String::from_str(clock_text),
                    x: tx,
                    y: 7,
                    color: config.foreground,
                },
            );
        }
    }
    proof {
        let clock_part = if has_clock {
            clock_ops(clock_text@, *config, x as int, width)
        } else {
            Seq::empty()
        };
        assert(steps(ops@) =~= steps(after_cells) + clock_part);
    }
    BarPlan { ops, cells }
}

} // verus!

verus! {

/// The first cell that covers column `x`, if any.
pub open spec fn cell_at(cells: Seq<WorkspaceCell>, x: u32) -> Option<int>
    decreases cells.len(),
{
    if cells.len() == 0 {
        None
    } else {
        match cell_at(cells.drop_last(), x) {
            Some(i) => Some(i),
            None => if cells.last().x0 <= x < cells.last().x1 {
                Some(cells.len() - 1)
            } else {
                None
            },
        }
    }
}

/// The command a click at column `x` sends: switching to the workspace of
/// the first cell under it, by its 1-based number.
pub fn click_command(cells: &Vec<WorkspaceCell>, x: u32) -> (c: Option<crate::ipc::IpcCommand>)
    requires
        forall|i: int| 0 <= i < cells@.len() ==> (#[trigger] cells@[i]).index < usize::MAX,
    ensures
        match cell_at(cells@, x) {
            Some(i) => c == Some(
                crate::ipc::IpcCommand::Workspace {
                    action: crate::ipc::WorkspaceAction::Switch((cells@[i].index + 1) as usize),
                },
            ),
            None => c is None,
        },
{
    let mut i: usize = 0;
    while i < cells.len()
        invariant
            forall|j: int| 0 <= j < cells@.len() ==> (#[trigger] cells@[j]).index < usize::MAX,
            i <= cells@.len(),
            cell_at(cells@.take(i as int), x) is None,
        decreases cells@.len() - i,
    {
        proof {
            assert(cells@.take(i + 1).drop_last() =~= cells@.take(i as int));
        }
        if x >= cells[i].x0 && x < cells[i].x1 {
            proof {
                lemma_cell_at_prefix(cells@, x, (i + 1) as int);
            }
            return Some(
                crate::ipc::IpcCommand::Workspace {
                    action: crate::ipc::WorkspaceAction::Switch(cells[i].index + 1),
                },
            );
        }
        i = i + 1;
    }
    proof {
        assert(cells@.take(i as int) =~= cells@);
    }
    None
}

/// A hit in a prefix is the hit of the whole sequence.
proof fn lemma_cell_at_prefix(cells: Seq<WorkspaceCell>, x: u32, n: int)
    requires
        0 <= n <= cells.len(),
        cell_at(cells.take(n), x) is Some,
    ensures
        cell_at(cells, x) == cell_at(cells.take(n), x),
    decreases cells.len() - n,
{
    if n < cells.len() {
        assert(cells.take(n + 1).drop_last() =~= cells.take(n));
        lemma_cell_at_prefix(cells, x, n + 1);
    } else {
        assert(cells.take(n) =~= cells);
    }
}

/// The cells laid out from workspace `i` at `x` are in workspace order,
/// left to right, each non-empty, within the bar, and at least 2 pixels
/// apart.
pub open spec fn cells_well_laid(cells: Seq<WorkspaceCell>, i: int, x: int, width: u32) -> bool {
    &&& forall|k: int|
        0 <= k < cells.len() ==> x <= (#[trigger] cells[k]).x0 && cells[k].x0 < cells[k].x1 && cells[k].x1
            <= width && cells[k].index == i + k
    &&& forall|k: int, l: int|
        0 <= k < l < cells.len() ==> (#[trigger] cells[k]).x1 + 2 <= (#[trigger] cells[l]).x0
}

/// Law: the workspace cells of the bar are laid out in workspace order,
/// left to right, inside the bar, without overlapping.
pub proof fn cells_are_laid_out(ws: Seq<WorkspaceInfo>, i: int, x: int, width: u32, height: u32)
    requires
        0 <= i,
        0 <= x,
        ws.len() <= usize::MAX,
    ensures
        cells_well_laid(cells_from(ws, i, x, width, height), i, x, width),
        i <= ws.len() ==> cells_from(ws, i, x, width, height).len() <= ws.len() - i,
    decreases ws.len() - i,
{
    if i < ws.len() {
        let cw = cell_width(ws[i], height);
        if x + cw <= width {
            cells_are_laid_out(ws, i + 1, x + cw + 2, width, height);
            let rest = cells_from(ws, i + 1, x + cw + 2, width, height);
            let c = WorkspaceCell { x0: x as u32, x1: (x + cw) as u32, index: i as usize };
            let all = cells_from(ws, i, x, width, height);
            assert(all == seq![c] + rest);
            assert forall|k: int, l: int| 0 <= k < l < all.len() implies (#[trigger] all[k]).x1 + 2
                <= (#[trigger] all[l]).x0 by {
                if k > 0 {
                    assert(all[k] == rest[k - 1]);
                }
                assert(all[l] == rest[l - 1]);
            }
            assert forall|k: int| 0 <= k < all.len() implies x <= (#[trigger] all[k]).x0 && all[k].x0
                < all[k].x1 && all[k].x1 <= width && all[k].index == i + k by {
                if k > 0 {
                    assert(all[k] == rest[k - 1]);
                }
            }
        }
    }
}

/// Column `x` lies in cell `k` and in no cell before it.
pub open spec fn first_cover(cells: Seq<WorkspaceCell>, x: u32, k: int) -> bool {
    &&& 0 <= k < cells.len()
    &&& cells[k].x0 <= x < cells[k].x1
    &&& forall|j: int| 0 <= j < k ==> !((#[trigger] cells[j]).x0 <= x < cells[j].x1)
}

proof fn lemma_cell_at(cells: Seq<WorkspaceCell>, x: u32)
    ensures
        match cell_at(cells, x) {
            Some(k) => first_cover(cells, x, k),
            None => forall|j: int| 0 <= j < cells.len() ==> !((#[trigger] cells[j]).x0 <= x < cells[j].x1),
        },
    decreases cells.len(),
{
    if cells.len() > 0 {
        let p = cells.drop_last();
        lemma_cell_at(p, x);
        match cell_at(p, x) {
            Some(k) => {
                assert forall|j: int| 0 <= j < k implies !((#[trigger] cells[j]).x0 <= x < cells[j].x1) by {
                    assert(cells[j] == p[j]);
                }
                assert(cells[k] == p[k]);
            },
            None => {
                assert forall|j: int| 0 <= j < cells.len() - 1 implies !((#[trigger] cells[j]).x0 <= x
                    < cells[j].x1) by {
                    assert(cells[j] == p[j]);
                }
            },
        }
    }
}

/// Law: a click at column `x` of the bar selects the cell under it (the
/// only one, as cells do not overlap), and the command it sends switches
/// the compositor to that cell's workspace.
pub proof fn click_switches_to_cell_workspace(ws: Seq<WorkspaceInfo>, width: u32, height: u32, x: u32, k: int)
    requires
        ws.len() < usize::MAX,
        0 <= k < cells_from(ws, 0, 4, width, height).len(),
        cells_from(ws, 0, 4, width, height)[k].x0 <= x < cells_from(ws, 0, 4, width, height)[k].x1,
    ensures
        cell_at(cells_from(ws, 0, 4, width, height), x) == Some(k),
        crate::ipc::spec_plan_command(
            crate::ipc::IpcCommand::Workspace {
                action: crate::ipc::WorkspaceAction::Switch(
                    (cells_from(ws, 0, 4, width, height)[k].index + 1) as usize,
                ),
            },
        ) == crate::ipc::IpcAction::SwitchWorkspace(k as usize),
{
    let cells = cells_from(ws, 0, 4, width, height);
    cells_are_laid_out(ws, 0, 4, width, height);
    lemma_cell_at(cells, x);
    assert forall|j: int| 0 <= j < k implies !((#[trigger] cells[j]).x0 <= x < cells[j].x1) by {
        assert(cells[j].x1 + 2 <= cells[k].x0);
    }
    match cell_at(cells, x) {
        Some(m) => {
            if m < k {
                assert(!(cells[m].x0 <= x < cells[m].x1));
            } else if m > k {
                assert(!(cells[k].x0 <= x < cells[k].x1));
            }
        },
        None => {
            assert(!(cells[k].x0 <= x < cells[k].x1));
        },
    }
    assert(cells[k].index == k);
    crate::ipc::switch_numbering_roundtrip(k as usize);
}

/// The free space right of the cells starts past every cell.
proof fn lemma_cells_end(ws: Seq<WorkspaceInfo>, i: int, x: int, width: u32, height: u32)
    requires
        0 <= i,
        0 <= x,
    ensures
        cells_end(ws, i, x, width, height) >= x,
        forall|k: int|
            0 <= k < cells_from(ws, i, x, width, height).len() ==> (#[trigger] cells_from(
                ws,
                i,
                x,
                width,
                height,
            )[k]).x1 + 2 <= cells_end(ws, i, x, width, height),
    decreases ws.len() - i,
{
    if i < ws.len() {
        let cw = cell_width(ws[i], height);
        if x + cw <= width {
            lemma_cells_end(ws, i + 1, x + cw + 2, width, height);
            let rest = cells_from(ws, i + 1, x + cw + 2, width, height);
            let all = cells_from(ws, i, x, width, height);
            assert forall|k: int| 0 <= k < all.len() implies (#[trigger] all[k]).x1 + 2 <= cells_end(
                ws,
                i,
                x,
                width,
                height,
            ) by {
                if k > 0 {
                    assert(all[k] == rest[k - 1]);
                }
            }
        }
    }
}

/// Law: the clock, when the bar shows it, is right-aligned with 8 pixels
/// of padding and starts at least 8 pixels right of the last workspace
/// cell, so the two never overlap.
pub proof fn clock_clear_of_cells(
    ws: Seq<WorkspaceInfo>,
    clock: Seq<char>,
    config: BarConfig,
    width: u32,
    height: u32,
)
    ensures
        ({
            let cells = cells_from(ws, 0, 4, width, height);
            let ops = clock_ops(clock, config, cells_end(ws, 0, 4, width, height), width);
            ops.len() > 0 ==> (ops[0] matches DrawStep::Text { x, .. } && x + spec_text_width(clock) + 8
                == width && forall|k: int| 0 <= k < cells.len() ==> (#[trigger] cells[k]).x1 + 8 <= x)
        }),
{
    lemma_cells_end(ws, 0, 4, width, height);
}

/// Law: the cell of an inactive workspace shows its label, and an
/// underline exactly when the workspace holds windows: an empty inactive
/// workspace draws no rectangle at all, one with windows draws one
/// 2-pixel bar, 4 pixels in from the cell's sides, along the bottom of the
/// bar. An active workspace's cell is filled with the accent color.
pub proof fn underline_marks_occupied_workspaces(
    info: WorkspaceInfo,
    config: BarConfig,
    x: int,
    cw: int,
    height: u32,
)
    ensures
        ({
            let ops = cell_ops(info, config, x, cw, height);
            &&& !info.active ==> ((exists|k: int| 0 <= k < ops.len() && #[trigger] ops[k] is FillRect)
                <==> info.window_count > 0)
            &&& !info.active && info.window_count > 0 ==> (ops.last() matches DrawStep::FillRect {
                x: ux,
                y: uy,
                w: uw,
                h: uh,
                color,
            } && ux == (x + 4) as u32 && uy == (height - 4) as u32 && uw == (cw - 8) as u32 && uh
                == 2 && color == config.inactive)
            &&& !info.active ==> (ops[0] matches DrawStep::Text { text, .. } && text == info.name@)
            &&& info.active ==> (ops[0] matches DrawStep::FillRect { color, .. } && color
                == config.accent)
        }),
{
    let ops = cell_ops(info, config, x, cw, height);
    if !info.active && info.window_count == 0 {
        assert(ops.len() == 1);
        assert(!(ops[0] is FillRect));
    }
    if !info.active && info.window_count > 0 {
        assert(ops[1] is FillRect);
    }
}

} // verus!
