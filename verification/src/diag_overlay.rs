//! The diagnostics panel: its text, when it is drawn anew, and its pixels.

use vstd::prelude::*;

use crate::geometry::Point;
use crate::geometry::Rect;
use crate::layout::rect_contains;
use crate::state::ShoestringWm;
use crate::text::concat2;
use crate::text::concat3;
use crate::text::decimal_string;
use crate::text::str_eq;

verus! {

/// The room between the panel's edge and its text, in logical pixels.
pub const PADDING: i32 = 6;

/// The room between the panel and the output's corner, in logical pixels.
pub const MARGIN: i32 = 8;

/// The least time between two rebuilds, in milliseconds.
pub const REFRESH_MS: u64 = 200;

/// The height, in logical pixels, where that of the output is not known.
pub const FALLBACK_HEIGHT: i32 = 720;

/// A picture: four bytes per pixel.
#[derive(Debug)]
pub struct Panel {
    pub width: u32,
    pub height: u32,
    pub pixels: Vec<u8>,
}

/// Whether a font was found.
#[derive(Clone, Copy, Debug, PartialEq, Eq, Structural)]
pub enum FontState {
    Unknown,
    Loaded,
    Failed,
}

/// The panel's state.
#[derive(Debug)]
pub struct DiagOverlay {
    pub enabled: bool,
    pub font: FontState,
    pub buffer: Option<Panel>,
    /// The text and the scale that the picture was made from.
    pub key: Option<(String, i32)>,
    /// When it was last built, in milliseconds.
    pub last_build: Option<u64>,
}

impl Default for DiagOverlay {
    fn default() -> (r: Self)
        ensures
            !r.enabled,
            r.font == FontState::Unknown,
            r.buffer is None,
            r.key is None,
            r.last_build is None,
    {
        DiagOverlay {
            enabled: false,
            font: FontState::Unknown,
            buffer: None,
            key: None,
            last_build: None,
        }
    }
}

impl DiagOverlay {
    /// Shows or hides the panel. It is built anew at once.
    pub fn toggle(&mut self) -> (r: bool)
        ensures
            *final(self) == (DiagOverlay {
                enabled: !old(self).enabled,
                last_build: None,
                ..*old(self)
            }),
            r == final(self).enabled,
    {
        self.enabled = !self.enabled;
        self.last_build = None;
        self.enabled
    }

    /// Whether the panel is due to be built: it never was, the scale is another,
    /// or the last time is long enough ago.
    pub open spec fn is_due(self, scale: i32, now_ms: u64) -> bool {
        ||| self.buffer is None
        ||| self.key matches Some(k) && k.1 != scale
        ||| match self.last_build {
            Some(t) => now_ms - t >= REFRESH_MS,
            None => true,
        }
    }

    /// Whether the panel is due to be built.
    pub fn due(&self, scale: i32, now_ms: u64) -> (r: bool)
        ensures
            r == self.is_due(scale, now_ms),
    {
        if self.buffer.is_none() {
            return true;
        }
        if let Some(k) = &self.key {
            if k.1 != scale {
                return true;
            }
        }
        match self.last_build {
            Some(t) => t <= now_ms && now_ms - t >= REFRESH_MS,
            None => true,
        }
    }

    /// The panel was built, or needed no building.
    pub fn mark_built(&mut self, now_ms: u64)
        ensures
            *final(self) == (DiagOverlay { last_build: Some(now_ms), ..*old(self) }),
    {
        self.last_build = Some(now_ms);
    }

    /// Whether a font is to be looked for. It is looked for once.
    pub fn wants_font(&self) -> (r: bool)
        ensures
            r == (self.font == FontState::Unknown),
    {
        self.font == FontState::Unknown
    }

    /// A font was found, or not.
    pub fn ensure_font(&mut self, found: bool)
        ensures
            *final(self) == (DiagOverlay {
                font: if old(self).font != FontState::Unknown {
                    old(self).font
                } else if found {
                    FontState::Loaded
                } else {
                    FontState::Failed
                },
                ..*old(self)
            }),
    {
        if self.font == FontState::Unknown {
            self.font = if found {
                FontState::Loaded
            } else {
                FontState::Failed
            };
        }
    }

    /// Whether the picture is not that of the text at the scale.
    pub open spec fn stale_for(self, text: Seq<char>, scale: i32) -> bool {
        !(self.buffer is Some && (self.key matches Some(k) && k.0@ == text && k.1 == scale))
    }

    /// Whether a picture of the text is to be made: there is a font, and the
    /// picture is not one of it already.
    pub fn wants(&self, text: &str, scale: i32) -> (r: bool)
        ensures
            r == (self.font == FontState::Loaded && self.stale_for(text@, scale)),
    {
        if self.font != FontState::Loaded {
            return false;
        }
        if self.buffer.is_none() {
            return true;
        }
        match &self.key {
            Some(k) => !(str_eq(k.0.as_str(), text) && k.1 == scale),
            None => true,
        }
    }

    /// Where the panel is drawn on its output, once there is one.
    pub fn element(&self, scale: i32) -> (r: Option<Point>)
        requires
            i32::MIN <= MARGIN * scale <= i32::MAX,
        ensures
            r == (if self.buffer is Some {
                Some(Point { x: (MARGIN * scale) as i32, y: (MARGIN * scale) as i32 })
            } else {
                None
            }),
    {
        if self.buffer.is_none() {
            return None;
        }
        Some(Point { x: MARGIN * scale, y: MARGIN * scale })
    }

    /// Takes a picture of the text.
    pub fn update(&mut self, text: String, scale: i32, panel: Panel)
        ensures
            *final(self) == (if old(self).font == FontState::Loaded && old(self).stale_for(
                text@,
                scale,
            ) {
                DiagOverlay { buffer: Some(panel), key: Some((text, scale)), ..*old(self) }
            } else {
                *old(self)
            }),
    {
        if self.wants(text.as_str(), scale) {
            self.buffer = Some(panel);
            self.key = Some((text, scale));
        }
    }
}

/// A reading.
#[derive(Clone, Copy, Debug, PartialEq, Eq, Structural)]
#[allow(inconsistent_fields)]
pub enum MetricValue {
    Gauge { value: i64 },
    Counter { value: u64 },
}

/// A number with its sign, in decimal digits.
pub open spec fn signed_decimal(n: int) -> Seq<char> {
    if n < 0 {
        "-"@ + crate::text::decimal((-n) as nat)
    } else {
        crate::text::decimal(n as nat)
    }
}

/// A reading in decimal digits.
pub open spec fn value_text(v: MetricValue) -> Seq<char> {
    match v {
        MetricValue::Gauge { value } => signed_decimal(value as int),
        MetricValue::Counter { value } => crate::text::decimal(value as nat),
    }
}

fn fmt_value(v: MetricValue) -> (r: String)
    ensures
        r@ == value_text(v),
{
    match v {
        MetricValue::Gauge { value } => if value >= 0 {
            decimal_string(value as u64)
        } else {
            let m: u64 = (-(value as i128)) as u64;
            let digits = decimal_string(m);
            concat2("-", digits.as_str())
        },
        MetricValue::Counter { value } => decimal_string(value),
    }
}

/// The panel's lines: a title, and one for each reading.
pub open spec fn metric_lines(snapshot: Seq<(String, MetricValue)>) -> Seq<Seq<char>> {
    Seq::new(
        snapshot.len() + 1,
        |i: int|
            if i == 0 {
                "shoestring-wm diagnostics"@
            } else {
                snapshot[i - 1].0@ + " = "@ + value_text(snapshot[i - 1].1)
            },
    )
}

/// Lines cut to a number of rows. The last row then says how many are missing;
/// where there is only one row, it says nothing else.
pub open spec fn clipped(lines: Seq<Seq<char>>, max_rows: int) -> Seq<Seq<char>> {
    if max_rows >= 1 && lines.len() > max_rows {
        lines.take(max_rows - 1).push(
            "… "@ + crate::text::decimal((lines.len() - (max_rows - 1)) as nat)
                + " more (shoestring-ctl metrics)"@,
        )
    } else {
        lines
    }
}

/// Lines with a line feed between them.
pub open spec fn joined(lines: Seq<Seq<char>>) -> Seq<char>
    decreases lines.len(),
{
    if lines.len() == 0 {
        Seq::empty()
    } else if lines.len() == 1 {
        lines[0]
    } else {
        joined(lines.drop_last()) + "\n"@ + lines.last()
    }
}

fn join_lines(lines: &Vec<String>) -> (r: String)
    ensures
        r@ == joined(crate::text::views(lines@)),
{
    let ghost all = crate::text::views(lines@);
    if lines.len() == 0 {
        let s = String::new();
        assert(s@ =~= Seq::empty());
        return s;
    }
    let mut s = lines[0].clone();
    let mut i: usize = 1;
    assert(all.take(1)[0] == all[0]);
    while i < lines.len()
        invariant
            1 <= i <= lines@.len(),
            all == crate::text::views(lines@),
            s@ == joined(all.take(i as int)),
        decreases lines@.len() - i,
    {
        assert(all.take(i + 1).drop_last() =~= all.take(i as int));
        assert(all.take(i + 1).last() == all[i as int]);
        s = concat3(s.as_str(), "\n", lines[i].as_str());
        i += 1;
    }
    assert(all.take(i as int) =~= all);
    s
}

/// Whether the first difference between two names is at `k`, and puts the one
/// before the other.
pub open spec fn parts_at(a: Seq<char>, b: Seq<char>, k: int) -> bool {
    &&& 0 <= k <= a.len()
    &&& k < b.len()
    &&& a.take(k) == b.take(k)
    &&& k < a.len() ==> a[k] < b[k]
}

/// Whether a name comes before another, character by character.
pub open spec fn name_before(a: Seq<char>, b: Seq<char>) -> bool {
    exists|k: int| parts_at(a, b, k)
}

/// Whether readings come in the order of their names, each name once.
pub open spec fn by_name(snapshot: Seq<(String, MetricValue)>) -> bool {
    forall|i: int, j: int|
        0 <= i < j < snapshot.len() ==> name_before(
            (#[trigger] snapshot[i]).0@,
            (#[trigger] snapshot[j]).0@,
        )
}

/// The panel's text, at most so many rows of it. The readings come in the order
/// of their names.
pub fn format_metrics(snapshot: &Vec<(String, MetricValue)>, max_rows: usize) -> (r: String)
    requires
        snapshot@.len() < usize::MAX,
        by_name(snapshot@),
    ensures
        r@ == joined(clipped(metric_lines(snapshot@), max_rows as int)),
{
    let ghost want = metric_lines(snapshot@);
    let mut lines: Vec<String> = Vec::new();
    lines.push("shoestring-wm diagnostics".to_string());
    assert(crate::text::views(lines@) =~= want.take(1));
    let mut i: usize = 0;
    while i < snapshot.len()
        invariant
            i <= snapshot@.len(),
            want == metric_lines(snapshot@),
            lines@.len() == i + 1,
            crate::text::views(lines@) == want.take(i + 1),
        decreases snapshot@.len() - i,
    {
        let v = fmt_value(snapshot[i].1);
        lines.push(concat3(snapshot[i].0.as_str(), " = ", v.as_str()));
        assert(crate::text::views(lines@) =~= want.take(i + 2));
        i += 1;
    }
    assert(want.take(i + 1) =~= want);
    if max_rows >= 1 && lines.len() > max_rows {
        let shown = max_rows - 1;
        let hidden = lines.len() - shown;
        lines.truncate(shown);
        let n = decimal_string(hidden as u64);
        lines.push(concat3("… ", n.as_str(), " more (shoestring-ctl metrics)"));
        assert(crate::text::views(lines@) =~= clipped(want, max_rows as int));
    }
    join_lines(&lines)
}

/// However many readings there are, the panel's text has no more lines than
/// rows, as soon as there is a row.
pub proof fn law_rows_limited(snapshot: Seq<(String, MetricValue)>, max_rows: int)
    requires
        max_rows >= 1,
    ensures
        clipped(metric_lines(snapshot), max_rows).len() <= max_rows,
{
}

/// How many rows fit an output with the given height, where one takes `line_h`.
pub open spec fn rows_in(height: Option<i32>, line_h: int) -> int {
    crate::geometry::max(
        crate::geometry::max(
            (match height {
                Some(h) => h as int,
                None => FALLBACK_HEIGHT as int,
            }) - 2 * MARGIN,
            line_h,
        ) / line_h,
        1,
    )
}

/// How many rows fit an output with the given height, where one takes `line_h`.
/// At least one does.
pub fn diag_overlay_max_rows(height: Option<i32>, line_h: i32) -> (r: usize)
    requires
        line_h >= 1,
        height matches Some(h) ==> h >= i32::MIN + 2 * MARGIN,
    ensures
        r as int == rows_in(height, line_h as int),
{
    let h = match height {
        Some(h) => h,
        None => FALLBACK_HEIGHT,
    };
    let free = h - 2 * MARGIN;
    let usable: i32 = if free >= line_h {
        free
    } else {
        line_h
    };
    let rows: u32 = usable as u32 / line_h as u32;
    assert(usable as int / line_h as int >= 1) by (nonlinear_arith)
        requires
            usable >= line_h,
            line_h >= 1,
    ;
    rows as usize
}

/// The width and the height of a panel, in pixels.
pub open spec fn panel_size(text_w: int, line_h: int, lines: int, scale: int) -> (int, int) {
    let pad = PADDING * crate::geometry::max(scale, 1);
    (
        crate::geometry::max(text_w + 2 * pad, 1),
        crate::geometry::max(line_h * lines + 2 * pad, 1),
    )
}

/// Every pixel of one color.
pub open spec fn filled(w: int, h: int, color: [u8; 4]) -> Seq<u8> {
    Seq::new((w * h * 4) as nat, |k: int| color@[k % 4])
}

/// A channel that a color covers in part.
pub open spec fn mixed(bg: u8, fg: u8, coverage: u8) -> int {
    crate::geometry::clamp(
        bg + crate::geometry::quot(coverage * (fg - bg), 255),
        0,
        255,
    )
}

/// A picture's bytes after a glyph was drawn on it at `(x, y)`: where the glyph
/// covers a pixel, the color is mixed in and the alpha is at least the coverage.
pub open spec fn drawn(
    buf: Seq<u8>,
    dst_w: int,
    dst_h: int,
    g: GlyphView,
    color: [u8; 4],
) -> Seq<u8> {
    Seq::new(
        buf.len(),
        |k: int|
            {
                let px = (k / 4) % dst_w;
                let py = (k / 4) / dst_w;
                let sx = px - g.x;
                let sy = py - g.y;
                if dst_w > 0 && py < dst_h && 0 <= sx < g.width && 0 <= sy < g.height {
                    let coverage = g.coverage[sy * g.width + sx];
                    if coverage == 0 {
                        buf[k]
                    } else if k % 4 == 3 {
                        if buf[k] >= coverage {
                            buf[k]
                        } else {
                            coverage
                        }
                    } else {
                        mixed(buf[k], color@[k % 4], coverage) as u8
                    }
                } else {
                    buf[k]
                }
            },
    )
}

/// A glyph's picture: how much of each pixel it covers, and where it goes.
#[derive(Debug)]
pub struct Glyph {
    pub x: i32,
    pub y: i32,
    pub width: u32,
    pub height: u32,
    pub coverage: Vec<u8>,
}

/// A glyph by its values.
pub struct GlyphView {
    pub x: int,
    pub y: int,
    pub width: int,
    pub height: int,
    pub coverage: Seq<u8>,
}

impl View for Glyph {
    type V = GlyphView;

    open spec fn view(&self) -> GlyphView {
        GlyphView {
            x: self.x as int,
            y: self.y as int,
            width: self.width as int,
            height: self.height as int,
            coverage: self.coverage@,
        }
    }
}

impl Glyph {
    /// Whether the picture is complete and the numbers do not run over.
    pub open spec fn fits(self) -> bool {
        &&& self.width <= i32::MAX
        &&& self.height <= i32::MAX
        &&& self.coverage@.len() >= self.width * self.height
        &&& self.x + self.width <= i32::MAX
        &&& self.y + self.height <= i32::MAX
    }
}

fn mix(bg: u8, fg: u8, coverage: u8) -> (r: u8)
    ensures
        r as int == mixed(bg, fg, coverage),
{
    let d: i32 = fg as i32 - bg as i32;
    assert(-65025 <= coverage * d <= 65025) by (nonlinear_arith)
        requires
            -255 <= d <= 255,
            0 <= coverage <= 255,
    ;
    let step: i32 = coverage as i32 * d / 255;
    let v: i32 = bg as i32 + step;
    if v < 0 {
        0
    } else if v > 255 {
        255
    } else {
        v as u8
    }
}

/// Whether so many bytes hold a picture of a given size.
pub open spec fn is_picture(len: int, w: int, h: int) -> bool {
    len >= w * h * 4
}

/// A picture in one color.
pub fn fill(w: u32, h: u32, color: [u8; 4]) -> (r: Vec<u8>)
    requires
        w * h * 4 <= usize::MAX,
    ensures
        r@ == filled(w as int, h as int, color),
{
    assert(0 <= w * h <= w * h * 4) by (nonlinear_arith);
    let n: usize = w as usize * h as usize * 4;
    let mut v: Vec<u8> = Vec::new();
    let mut k: usize = 0;
    while k < n
        invariant
            k <= n,
            n == w * h * 4,
            v@ == filled(w as int, h as int, color).take(k as int),
        decreases n - k,
    {
        v.push(color[k % 4]);
        k += 1;
        assert(v@ =~= filled(w as int, h as int, color).take(k as int));
    }
    assert(v@ =~= filled(w as int, h as int, color));
    v
}

/// The byte at `k` of a picture after a glyph was drawn on it.
fn drawn_byte(
    buf: &Vec<u8>,
    k: usize,
    dst_w: u32,
    dst_h: u32,
    g: &Glyph,
    color: [u8; 4],
) -> (r: u8)
    requires
        g.fits(),
        dst_w <= i32::MAX,
        dst_h <= i32::MAX,
        k < buf@.len(),
    ensures
        r == drawn(buf@, dst_w as int, dst_h as int, g@, color)[k as int],
{
    if dst_w == 0 {
        return buf[k];
    }
    let p: usize = k / 4;
    let px: i64 = (p % (dst_w as usize)) as i64;
    let row: usize = p / (dst_w as usize);
    if row >= dst_h as usize {
        return buf[k];
    }
    let py: i64 = row as i64;
    let sx: i64 = px - g.x as i64;
    let sy: i64 = py - g.y as i64;
    if sx < 0 || sx >= g.width as i64 || sy < 0 || sy >= g.height as i64 {
        return buf[k];
    }
    assert(0 <= sy * g.width + sx < g.width * g.height) by (nonlinear_arith)
        requires
            0 <= sx < g.width,
            0 <= sy < g.height,
    ;
    assert(0 <= sy * g.width) by (nonlinear_arith)
        requires
            0 <= sy,
            0 <= g.width,
    ;
    let n: usize = g.coverage.len();
    assert(sy * g.width + sx < n);
    let at: usize = sy as usize * g.width as usize + sx as usize;
    let coverage = g.coverage[at];
    if coverage == 0 {
        buf[k]
    } else if k % 4 == 3 {
        if buf[k] >= coverage {
            buf[k]
        } else {
            coverage
        }
    } else {
        mix(buf[k], color[k % 4], coverage)
    }
}

/// Draws a glyph. What lies outside the picture is left out, and bytes behind the
/// picture stay.
pub fn blit_alpha(buf: &mut Vec<u8>, dst_w: u32, dst_h: u32, g: &Glyph, color: [u8; 4])
    requires
        g.fits(),
        dst_w <= i32::MAX,
        dst_h <= i32::MAX,
        is_picture(old(buf)@.len() as int, dst_w as int, dst_h as int),
    ensures
        final(buf)@ == drawn(old(buf)@, dst_w as int, dst_h as int, g@, color),
{
    let ghost before = buf@;
    let ghost want = drawn(before, dst_w as int, dst_h as int, g@, color);
    let mut out: Vec<u8> = Vec::new();
    let mut k: usize = 0;
    while k < buf.len()
        invariant
            k <= buf@.len(),
            g.fits(),
            dst_w <= i32::MAX,
            dst_h <= i32::MAX,
            buf@ == before,
            want == drawn(before, dst_w as int, dst_h as int, g@, color),
            out@ == want.take(k as int),
        decreases buf@.len() - k,
    {
        let b = drawn_byte(buf, k, dst_w, dst_h, g, color);
        out.push(b);
        k += 1;
        assert(out@ =~= want.take(k as int));
    }
    assert(out@ =~= want);
    *buf = out;
}

/// What a glyph does to a pixel and to the bytes behind the picture. A pixel that
/// it does not reach or does not cover stays; one that it covers wholly has its
/// color and is opaque; each color of another comes nearer to it without passing
/// it, and its alpha is at least the coverage. The bytes behind the picture stay.
pub proof fn law_glyph_on_pixel(
    buf: Seq<u8>,
    w: int,
    h: int,
    g: GlyphView,
    color: [u8; 4],
    x: int,
    y: int,
    c: int,
    k: int,
)
    requires
        0 <= w,
        0 <= h,
        is_picture(buf.len() as int, w, h),
    ensures
        drawn(buf, w, h, g, color).len() == buf.len(),
        w * h * 4 <= k < buf.len() ==> drawn(buf, w, h, g, color)[k] == buf[k],
        0 <= x < w && 0 <= y < h && 0 <= c < 4 ==> {
            let at = (y * w + x) * 4 + c;
            let sx = x - g.x;
            let sy = y - g.y;
            let after = drawn(buf, w, h, g, color)[at];
            if 0 <= sx < g.width && 0 <= sy < g.height && g.coverage[sy * g.width + sx] != 0 {
                let coverage = g.coverage[sy * g.width + sx];
                if c == 3 {
                    after as int == crate::geometry::max(buf[at] as int, coverage as int)
                } else {
                    &&& after as int == mixed(buf[at], color@[c], coverage)
                    &&& coverage == 255 ==> after == color@[c]
                    &&& buf[at] <= color@[c] ==> buf[at] <= after <= color@[c]
                    &&& color@[c] <= buf[at] ==> color@[c] <= after <= buf[at]
                }
            } else {
                after == buf[at]
            }
        },
{
    if 0 <= x < w && 0 <= y < h && 0 <= c < 4 {
        let p = y * w + x;
        let at = p * 4 + c;
        assert(0 <= p < w * h) by (nonlinear_arith)
            requires
                p == y * w + x,
                0 <= x < w,
                0 <= y < h,
        ;
        assert(0 <= at < buf.len());
        assert(at / 4 == p && at % 4 == c);
        vstd::arithmetic::div_mod::lemma_fundamental_div_mod_converse(p, w, y, x);
        let sx = x - g.x;
        let sy = y - g.y;
        if c < 3 {
            law_mix_between(buf[at], color@[c], g.coverage[sy * g.width + sx]);
        }
    }
    if w * h * 4 <= k < buf.len() && w > 0 {
        assert((k / 4) / w >= h) by (nonlinear_arith)
            requires
                k / 4 >= w * h,
                w > 0,
        ;
    }
}

/// A picture's bytes with the colors scaled by the alpha, and red and blue
/// swapped. Bytes that do not make a whole pixel stay.
pub open spec fn premultiplied(buf: Seq<u8>) -> Seq<u8> {
    Seq::new(
        buf.len(),
        |k: int|
            {
                let p = k - k % 4;
                if p + 4 > buf.len() || k % 4 == 3 {
                    buf[k]
                } else {
                    (buf[p + 2 - k % 4] * buf[p + 3] / 255) as u8
                }
            },
    )
}

/// Scales the colors by the alpha, and swaps red and blue.
pub fn premultiply_to_bgra(buf: &mut Vec<u8>)
    ensures
        final(buf)@ == premultiplied(old(buf)@),
{
    let ghost before = buf@;
    let ghost want = premultiplied(before);
    let n: usize = buf.len();
    let mut out: Vec<u8> = Vec::new();
    let mut k: usize = 0;
    while k < n
        invariant
            k <= n,
            n == buf@.len(),
            buf@ == before,
            want == premultiplied(before),
            out@ == want.take(k as int),
        decreases n - k,
    {
        let c: usize = k % 4;
        let p: usize = k - c;
        let b: u8 = if n - p < 4 || c == 3 {
            buf[k]
        } else {
            let v = buf[p + 2 - c];
            let a = buf[p + 3];
            assert(0 <= v * a <= 65025) by (nonlinear_arith)
                requires
                    0 <= v <= 255,
                    0 <= a <= 255,
            ;
            ((v as u16) * (a as u16) / 255) as u8
        };
        out.push(b);
        k += 1;
        assert(out@ =~= want.take(k as int));
    }
    assert(out@ =~= want);
    *buf = out;
}

/// A picture after glyphs were drawn on it, one after the other.
pub open spec fn drawn_all(
    buf: Seq<u8>,
    w: int,
    h: int,
    glyphs: Seq<Glyph>,
    color: [u8; 4],
) -> Seq<u8>
    decreases glyphs.len(),
{
    if glyphs.len() == 0 {
        buf
    } else {
        drawn(drawn_all(buf, w, h, glyphs.drop_last(), color), w, h, glyphs.last()@, color)
    }
}

proof fn lemma_drawn_len(buf: Seq<u8>, w: int, h: int, glyphs: Seq<Glyph>, color: [u8; 4])
    ensures
        drawn_all(buf, w, h, glyphs, color).len() == buf.len(),
    decreases glyphs.len(),
{
    if glyphs.len() > 0 {
        lemma_drawn_len(buf, w, h, glyphs.drop_last(), color);
    }
}

/// The panel: its ground, the glyphs of its text, the colors scaled by the
/// alpha. Its size is that of the text and of the room around it.
pub fn rasterize(
    text_w: i32,
    line_h: i32,
    lines: i32,
    scale: i32,
    glyphs: &Vec<Glyph>,
    fg: [u8; 4],
    bg: [u8; 4],
) -> (r: Panel)
    requires
        scale <= 0x800_0000,
        i32::MIN <= line_h * lines <= i32::MAX,
        i32::MIN <= text_w + 2 * PADDING * crate::geometry::max(scale as int, 1) <= i32::MAX,
        i32::MIN <= line_h * lines + 2 * PADDING * crate::geometry::max(scale as int, 1)
            <= i32::MAX,
        ({
            let s = panel_size(text_w as int, line_h as int, lines as int, scale as int);
            s.0 * s.1 * 4 <= u32::MAX
        }),
        forall|i: int| 0 <= i < glyphs@.len() ==> (#[trigger] glyphs@[i]).fits(),
    ensures
        ({
            let s = panel_size(text_w as int, line_h as int, lines as int, scale as int);
            &&& r.width as int == s.0
            &&& r.height as int == s.1
            &&& r.pixels@ == premultiplied(
                drawn_all(filled(s.0, s.1, bg), s.0, s.1, glyphs@, fg),
            )
        }),
{
    let factor: i32 = if scale >= 1 {
        scale
    } else {
        1
    };
    assert(PADDING * factor == 6 * factor);
    let pad: i32 = PADDING * factor;
    assert(2 * PADDING * factor == 2 * pad);
    let wide: i32 = text_w + 2 * pad;
    let high: i32 = line_h * lines + 2 * pad;
    let w: u32 = if wide >= 1 {
        wide as u32
    } else {
        1
    };
    let h: u32 = if high >= 1 {
        high as u32
    } else {
        1
    };
    let ghost s = panel_size(text_w as int, line_h as int, lines as int, scale as int);
    assert(s == (w as int, h as int));
    let mut buf = fill(w, h, bg);
    let ghost ground = buf@;
    let mut i: usize = 0;
    while i < glyphs.len()
        invariant
            i <= glyphs@.len(),
            0 < w <= i32::MAX,
            h <= i32::MAX,
            ground == filled(w as int, h as int, bg),
            is_picture(ground.len() as int, w as int, h as int),
            buf@ == drawn_all(ground, w as int, h as int, glyphs@.take(i as int), fg),
            forall|j: int| 0 <= j < glyphs@.len() ==> (#[trigger] glyphs@[j]).fits(),
        decreases glyphs@.len() - i,
    {
        proof {
            lemma_drawn_len(ground, w as int, h as int, glyphs@.take(i as int), fg);
            assert(glyphs@.take(i + 1).drop_last() =~= glyphs@.take(i as int));
        }
        blit_alpha(&mut buf, w, h, &glyphs[i], fg);
        i += 1;
    }
    assert(glyphs@.take(i as int) =~= glyphs@);
    premultiply_to_bgra(&mut buf);
    Panel { width: w, height: h, pixels: buf }
}

/// A covered channel lies between the ground and the color; uncovered it is the
/// ground, wholly covered it is the color.
pub proof fn law_mix_between(bg: u8, fg: u8, coverage: u8)
    ensures
        mixed(bg, fg, 0) == bg,
        mixed(bg, fg, 255) == fg,
        bg <= fg ==> bg <= mixed(bg, fg, coverage) <= fg,
        fg <= bg ==> fg <= mixed(bg, fg, coverage) <= bg,
{
    let d = fg - bg;
    assert(0 * d == 0);
    assert(255 * d / 255 == d) by (nonlinear_arith);
    assert((255 * -d) / 255 == -d) by (nonlinear_arith);
    assert(255 * -d == -(255 * d)) by (nonlinear_arith);
    assert(d >= 0 ==> 0 <= coverage * d <= 255 * d) by (nonlinear_arith)
        requires
            0 <= coverage <= 255,
    ;
    assert(d <= 0 ==> 255 * d <= coverage * d <= 0) by (nonlinear_arith)
        requires
            0 <= coverage <= 255,
    ;
}

/// A scaled color of a whole pixel is never brighter than its alpha allows, and
/// opaque colors stay as they are.
pub proof fn law_premultiplied_bounded(buf: Seq<u8>, k: int)
    requires
        0 <= k < buf.len(),
        k - k % 4 + 4 <= buf.len(),
    ensures
        premultiplied(buf)[k] <= premultiplied(buf)[k - k % 4 + 3],
        buf[k - k % 4 + 3] == 255 && k % 4 != 3 ==> premultiplied(buf)[k] == buf[k - k % 4 + 2 - k
            % 4],
{
    let p = k - k % 4;
    let a = buf[p + 3];
    if k % 4 != 3 {
        let v = buf[p + 2 - k % 4];
        assert(v * a / 255 <= a) by (nonlinear_arith)
            requires
                0 <= v <= 255,
                0 <= a <= 255,
        ;
        assert(0 <= v * a / 255) by (nonlinear_arith)
            requires
                0 <= v <= 255,
                0 <= a <= 255,
        ;
        assert(v * 255 / 255 == v) by (nonlinear_arith);
        assert((p + 3) % 4 == 3);
    }
}

impl ShoestringWm {
    /// Whether an output's place holds a point.
    pub open spec fn under(self, i: int, p: Point) -> bool {
        &&& 0 <= i < self.desktop.space.outputs@.len()
        &&& self.desktop.space.outputs@[i].geometry matches Some(g)
        &&& g.holds(p.x as int, p.y as int)
    }

    /// Whether the output at `i` is the one that the panel is drawn on: the first
    /// under the pointer, else the first.
    pub open spec fn panel_on(self, pointer: Option<Point>, i: int) -> bool {
        let n = self.desktop.space.outputs@.len();
        if pointer is Some && exists|j: int| self.under(j, pointer->0) {
            self.under(i, pointer->0) && forall|j: int| 0 <= j < i ==> !self.under(j, pointer->0)
        } else {
            i == 0 && n > 0
        }
    }

    /// Whether the panel is switched on and drawn on an output.
    pub open spec fn panel_here(self, output: u64, pointer: Option<Point>) -> bool {
        self.diag_overlay.enabled && exists|i: int| #[trigger]
            self.panel_on(pointer, i) && self.desktop.space.outputs@[i].id == output
    }

    /// The output that the panel is drawn on. The pointer's place is rounded
    /// down.
    pub fn diag_overlay_output(&self, pointer: Option<Point>) -> (r: Option<u64>)
        ensures
            match r {
                Some(id) => exists|i: int| #[trigger]
                    self.panel_on(pointer, i) && self.desktop.space.outputs@[i].id == id,
                None => self.desktop.space.outputs@.len() == 0,
            },
    {
        let outputs = &self.desktop.space.outputs;
        if let Some(p) = pointer {
            let mut i: usize = 0;
            while i < outputs.len()
                invariant
                    i <= outputs@.len(),
                    outputs@ == self.desktop.space.outputs@,
                    pointer == Some(p),
                    forall|j: int| 0 <= j < i ==> !self.under(j, p),
                decreases outputs@.len() - i,
            {
                let here = match outputs[i].geometry {
                    Some(g) => rect_contains(g, p),
                    None => false,
                };
                if here {
                    assert(self.under(i as int, p));
                    assert(pointer->0 == p);
                    assert(self.under(i as int, pointer->0));
                    assert(self.panel_on(pointer, i as int));
                    return Some(outputs[i].id);
                }
                i += 1;
            }
        }
        if outputs.len() == 0 {
            return None;
        }
        assert(self.panel_on(pointer, 0));
        Some(outputs[0].id)
    }

    /// The text of the panel, where it is shown and due to be built.
    /// [`DiagOverlay::update`] and [`DiagOverlay::mark_built`] follow.
    pub fn refresh_diag_overlay(
        &self,
        scale: i32,
        now_ms: u64,
        snapshot: &Vec<(String, MetricValue)>,
        height: Option<i32>,
        line_h: i32,
    ) -> (r: Option<String>)
        requires
            snapshot@.len() < usize::MAX,
            by_name(snapshot@),
            line_h >= 1,
            height matches Some(h) ==> h >= i32::MIN + 2 * MARGIN,
        ensures
            match r {
                Some(text) => {
                    &&& self.diag_overlay.enabled
                    &&& self.diag_overlay.is_due(scale, now_ms)
                    &&& text@ == joined(
                        clipped(metric_lines(snapshot@), rows_in(height, line_h as int)),
                    )
                },
                None => !(self.diag_overlay.enabled && self.diag_overlay.is_due(scale, now_ms)),
            },
    {
        if !self.diag_overlay.enabled || !self.diag_overlay.due(scale, now_ms) {
            return None;
        }
        let rows = diag_overlay_max_rows(height, line_h);
        Some(format_metrics(snapshot, rows))
    }

    /// Whether the panel shows on an output.
    pub fn is_diag_overlay_output(&self, output: u64, pointer: Option<Point>) -> (r: bool)
        ensures
            r == self.panel_here(output, pointer),
    {
        if !self.diag_overlay.enabled {
            return false;
        }
        match self.diag_overlay_output(pointer) {
            Some(id) => {
                proof {
                    let i = choose|i: int| #[trigger]
                        self.panel_on(pointer, i) && self.desktop.space.outputs@[i].id == id;
                    assert forall|j: int| #[trigger] self.panel_on(pointer, j) implies j == i by {
                        assert(self.panel_on(pointer, i));
                    }
                }
                id == output
            },
            None => false,
        }
    }
}

/// An output's size in pixels and in logical pixels, for its wallpaper. The
/// logical size is that of its place, or else the one that follows from the
/// scale; none without a mode.
pub fn wallpaper_dims(
    mode: Option<(i32, i32)>,
    geometry: Option<Rect>,
    scaled: (i32, i32),
) -> (r: Option<((i32, i32), (i32, i32))>)
    ensures
        r == (match mode {
            Some(m) => Some(
                (
                    m,
                    match geometry {
                        Some(g) => (g.size.w, g.size.h),
                        None => scaled,
                    },
                ),
            ),
            None => None,
        }),
{
    match mode {
        Some(m) => {
            let logical = match geometry {
                Some(g) => (g.size.w, g.size.h),
                None => scaled,
            };
            Some((m, logical))
        },
        None => None,
    }
}

/// Once built, a panel of the same scale is left alone until the least time is
/// over, and is due from then on; for another scale it is due at once.
pub proof fn law_panel_throttled(d: DiagOverlay, built_ms: u64, scale: i32, now_ms: u64)
    requires
        d.buffer is Some,
        d.key is Some,
        d.last_build == Some(built_ms),
    ensures
        (d.key->0).1 == scale ==> (d.is_due(scale, now_ms) <==> now_ms - built_ms >= REFRESH_MS),
        (d.key->0).1 != scale ==> d.is_due(scale, now_ms),
{
}

/// A reading is written so that it reads back, with a minus in front of a negative
/// one.
pub proof fn law_reading_reads_back(v: MetricValue, n: int)
    ensures
        crate::text::decimal_value(signed_decimal(n), true) == Some(n),
        v matches MetricValue::Gauge { value } ==> crate::text::decimal_value(value_text(v), true)
            == Some(value as int),
        v matches MetricValue::Counter { value } ==> crate::text::decimal_value(value_text(v), true)
            == Some(value as int),
{
    lemma_signed_reads_back(n);
    match v {
        MetricValue::Gauge { value } => lemma_signed_reads_back(value as int),
        MetricValue::Counter { value } => crate::text::law_decimal_reads_back(value as nat),
    }
}

proof fn lemma_signed_reads_back(n: int)
    ensures
        crate::text::decimal_value(signed_decimal(n), true) == Some(n),
{
    if n < 0 {
        reveal_strlit("-");
        let d = crate::text::decimal((-n) as nat);
        crate::text::law_decimal_reads_back((-n) as nat);
        assert(signed_decimal(n) =~= seq!['-'] + d);
        assert((seq!['-'] + d).drop_first() =~= d);
        assert((seq!['-'] + d)[0] == '-');
    } else {
        crate::text::law_decimal_reads_back(n as nat);
    }
}

/// The panel shows its title and one line for each reading, in order. Where there are
/// more lines than rows, the last row stands for those that are missing, itself
/// included, and tells how many they are; the others are shown as they are.
pub proof fn law_panel_lines(snapshot: Seq<(String, MetricValue)>, max_rows: int, i: int)
    requires
        max_rows >= 1,
    ensures
        ({
            let lines = metric_lines(snapshot);
            let shown = clipped(lines, max_rows);
            &&& lines.len() == snapshot.len() + 1
            &&& lines[0] == "shoestring-wm diagnostics"@
            &&& 0 <= i < snapshot.len() ==> lines[i + 1] == snapshot[i].0@ + " = "@ + value_text(
                snapshot[i].1,
            )
            &&& snapshot.len() < max_rows ==> shown == lines
            &&& snapshot.len() >= max_rows ==> {
                &&& shown.len() == max_rows
                &&& 0 <= i < max_rows - 1 ==> shown[i] == lines[i]
                &&& shown[max_rows - 1] == "… "@ + crate::text::decimal(
                    (snapshot.len() + 2 - max_rows) as nat,
                ) + " more (shoestring-ctl metrics)"@
            }
        }),
{
}

/// Between two lines stands one line feed, and none stands elsewhere.
pub proof fn law_lines_joined(lines: Seq<Seq<char>>, line: Seq<char>)
    ensures
        joined(Seq::empty()).len() == 0,
        joined(seq![line]) == line,
        lines.len() > 0 ==> joined(lines.push(line)) == joined(lines) + seq!['\n'] + line,
{
    reveal_strlit("\n");
    assert("\n"@ =~= seq!['\n']);
    assert(lines.push(line).drop_last() =~= lines);
}

/// As many rows show as fit the output's height, less eight logical pixels above and
/// as many below, and at least one; an output of unknown height counts as 720 high.
pub proof fn law_rows_fit(height: Option<i32>, line_h: int)
    requires
        line_h >= 1,
    ensures
        ({
            let h: int = match height {
                Some(h) => h as int,
                None => 720,
            };
            let rows = rows_in(height, line_h);
            &&& rows >= 1
            &&& h - 16 >= line_h ==> rows * line_h <= h - 16 < (rows + 1) * line_h
            &&& h - 16 < line_h ==> rows == 1
        }),
{
    let h: int = match height {
        Some(h) => h as int,
        None => 720,
    };
    let room = crate::geometry::max(h - 16, line_h);
    vstd::arithmetic::div_mod::lemma_fundamental_div_mod(room, line_h);
    let q = room / line_h;
    assert(line_h * q == q * line_h && (q + 1) * line_h == q * line_h + line_h) by (nonlinear_arith);
    assert(q >= 1) by (nonlinear_arith)
        requires
            q == room / line_h,
            room >= line_h,
            line_h >= 1,
    ;
    if h - 16 < line_h {
        assert(q == 1) by (nonlinear_arith)
            requires
                q == line_h / line_h,
                line_h >= 1,
        ;
    }
}

/// A panel has six logical pixels around its text on every side, scaled like the text,
/// and at least one pixel.
pub proof fn law_room_around_text(text_w: int, line_h: int, lines: int, scale: int)
    requires
        scale >= 1,
        text_w >= 0,
        line_h * lines >= 0,
    ensures
        panel_size(text_w, line_h, lines, scale).0 == text_w + 12 * scale,
        panel_size(text_w, line_h, lines, scale).1 == line_h * lines + 12 * scale,
        panel_size(text_w, line_h, lines, 0) == panel_size(text_w, line_h, lines, 1),
{
}

/// A ground has its color in every pixel.
pub proof fn law_ground_is_even(w: int, h: int, color: [u8; 4], k: int, c: int)
    requires
        0 <= w,
        0 <= h,
        0 <= k < w * h,
        0 <= c < 4,
    ensures
        filled(w, h, color).len() == w * h * 4,
        filled(w, h, color)[4 * k + c] == color@[c],
{
    assert((4 * k + c) % 4 == c);
    assert(w * h * 4 >= 0);
}

/// A channel comes as near to a color as the coverage says, in parts of 255, rounded
/// toward the ground.
pub proof fn law_mix_share(bg: u8, fg: u8, coverage: u8)
    ensures
        bg <= fg ==> 255 * (mixed(bg, fg, coverage) - bg) <= coverage * (fg - bg) < 255 * (mixed(
            bg,
            fg,
            coverage,
        ) - bg) + 255,
        fg <= bg ==> 255 * (bg - mixed(bg, fg, coverage)) <= coverage * (bg - fg) < 255 * (bg
            - mixed(bg, fg, coverage)) + 255,
{
    law_mix_between(bg, fg, coverage);
    let d = coverage * (fg - bg);
    let e = coverage * (bg - fg);
    assert(d == -e) by (nonlinear_arith)
        requires
            d == coverage * (fg - bg),
            e == coverage * (bg - fg),
    ;
    if bg <= fg {
        assert(0 <= d <= 255 * (fg - bg)) by (nonlinear_arith)
            requires
                d == coverage * (fg - bg),
                bg <= fg,
                coverage <= 255,
        ;
    } else {
        assert(0 <= e <= 255 * (bg - fg)) by (nonlinear_arith)
            requires
                e == coverage * (bg - fg),
                fg <= bg,
                coverage <= 255,
        ;
    }
}

/// A whole pixel of red, green, blue and alpha becomes one of blue, green, red and
/// alpha, each color being its share of the alpha, rounded down.
pub proof fn law_premultiplied_pixel(buf: Seq<u8>, p: int)
    requires
        0 <= p,
        4 * p + 4 <= buf.len(),
    ensures
        ({
            let out = premultiplied(buf);
            let a = buf[4 * p + 3] as int;
            &&& out.len() == buf.len()
            &&& out[4 * p] == buf[4 * p + 2] * a / 255
            &&& out[4 * p + 1] == buf[4 * p + 1] * a / 255
            &&& out[4 * p + 2] == buf[4 * p] * a / 255
            &&& out[4 * p + 3] == a
        }),
{
    let a = buf[4 * p + 3] as int;
    let x = buf[4 * p] as int;
    let y = buf[4 * p + 1] as int;
    let z = buf[4 * p + 2] as int;
    assert(0 <= x * a <= 255 * 255 && 0 <= y * a <= 255 * 255 && 0 <= z * a <= 255 * 255)
        by (nonlinear_arith)
        requires
            0 <= x <= 255,
            0 <= y <= 255,
            0 <= z <= 255,
            0 <= a <= 255,
    ;
    assert((4 * p) % 4 == 0 && (4 * p + 1) % 4 == 1 && (4 * p + 2) % 4 == 2 && (4 * p + 3) % 4
        == 3);
}

/// Glyphs are drawn one over the other, the first of them first.
pub proof fn law_glyphs_in_order(
    buf: Seq<u8>,
    w: int,
    h: int,
    glyphs: Seq<Glyph>,
    g: Glyph,
    color: [u8; 4],
)
    ensures
        drawn_all(buf, w, h, Seq::empty(), color) == buf,
        drawn_all(buf, w, h, glyphs.push(g), color) == drawn(
            drawn_all(buf, w, h, glyphs, color),
            w,
            h,
            g@,
            color,
        ),
{
    assert(glyphs.push(g).drop_last() =~= glyphs);
}

/// The panel is due where it has no picture, where its picture has another scale, where
/// it was never built, and 200 milliseconds after it was; a picture is the right one
/// where it was made of this text and at this scale.
pub proof fn law_panel_due(d: DiagOverlay, scale: i32, now_ms: u64, text: Seq<char>)
    ensures
        d.buffer is None ==> d.is_due(scale, now_ms) && d.stale_for(text, scale),
        d.last_build is None ==> d.is_due(scale, now_ms),
        d.key is Some && (d.key->0).1 != scale ==> d.is_due(scale, now_ms) && d.stale_for(
            text,
            scale,
        ),
        d.key is Some && (d.key->0).0@ != text ==> d.stale_for(text, scale),
        d.key is None ==> d.stale_for(text, scale),
        d.buffer is Some && d.last_build is Some && (d.key is None || (d.key->0).1 == scale) ==> (
        d.is_due(scale, now_ms) <==> now_ms >= d.last_build->0 + 200),
        d.buffer is Some && d.key is Some && (d.key->0).0@ == text && (d.key->0).1 == scale
            ==> !d.stale_for(text, scale),
{
}

/// The panel is drawn on one output: the first that the pointer is over, and where it
/// is over none, the first of all.
pub proof fn law_panel_place(wm: ShoestringWm, pointer: Option<Point>, i: int, j: int)
    requires
        0 <= i < wm.desktop.space.outputs@.len(),
    ensures
        ({
            let over = |k: int|
                pointer is Some && wm.desktop.space.outputs@[k].geometry is Some
                    && wm.desktop.space.outputs@[k].geometry->0.holds(
                    pointer->0.x as int,
                    pointer->0.y as int,
                );
            &&& over(i) && (forall|k: int| 0 <= k < i ==> !#[trigger] over(k)) ==> (wm.panel_on(
                pointer,
                j,
            ) <==> j == i)
            &&& (forall|k: int| 0 <= k < wm.desktop.space.outputs@.len() ==> !#[trigger] over(k))
                ==> (wm.panel_on(pointer, j) <==> j == 0)
        }),
{
    let over = |k: int|
        pointer is Some && wm.desktop.space.outputs@[k].geometry is Some
            && wm.desktop.space.outputs@[k].geometry->0.holds(
            pointer->0.x as int,
            pointer->0.y as int,
        );
    assert forall|k: int|
        0 <= k < wm.desktop.space.outputs@.len() && pointer is Some implies wm.under(k, pointer->0)
        == #[trigger] over(k) by {}
    if over(i) && (forall|k: int| 0 <= k < i ==> !#[trigger] over(k)) {
        assert(wm.under(i, pointer->0));
        if wm.panel_on(pointer, j) {
            assert(wm.under(j, pointer->0));
            assert(over(j));
            if i < j {
                assert(!wm.under(i, pointer->0));
            }
        }
        assert forall|k: int| 0 <= k < i implies !wm.under(k, pointer->0) by {
            assert(!over(k));
        }
    }
    if forall|k: int| 0 <= k < wm.desktop.space.outputs@.len() ==> !#[trigger] over(k) {
        if pointer is Some {
            assert forall|k: int| !wm.under(k, pointer->0) by {
                if wm.under(k, pointer->0) {
                    assert(over(k));
                }
            }
        }
    }
}

/// The panel shows on an output exactly where it is switched on and drawn on that
/// output.
pub proof fn law_panel_shows(wm: ShoestringWm, output: u64, pointer: Option<Point>, i: int)
    requires
        wm.panel_on(pointer, i),
    ensures
        !wm.diag_overlay.enabled ==> !wm.panel_here(output, pointer),
        wm.diag_overlay.enabled && wm.desktop.space.outputs@[i].id == output ==> wm.panel_here(
            output,
            pointer,
        ),
        wm.desktop.space.outputs@[i].id != output ==> !wm.panel_here(output, pointer),
{
    if wm.panel_here(output, pointer) {
        let k = choose|k: int| #[trigger]
            wm.panel_on(pointer, k) && wm.desktop.space.outputs@[k].id == output;
        assert(wm.panel_on(pointer, k));
        if pointer is Some && exists|j: int| wm.under(j, pointer->0) {
            if i < k {
                assert(!wm.under(i, pointer->0));
            }
            if k < i {
                assert(!wm.under(k, pointer->0));
            }
        }
    }
}

/// Names are ordered by their first difference: the lesser character there decides, and
/// a name comes before what it begins.
pub proof fn law_names_ordered(common: Seq<char>, a: Seq<char>, b: Seq<char>, c: char, d: char)
    ensures
        c < d ==> name_before(common.push(c) + a, common.push(d) + b),
        b.len() > 0 ==> name_before(common, common + b),
        !name_before(a, a),
{
    let x = common.push(c) + a;
    let y = common.push(d) + b;
    let k = common.len() as int;
    if c < d {
        assert(x.take(k) =~= common);
        assert(y.take(k) =~= common);
        assert(x[k] == c && y[k] == d);
        assert(parts_at(x, y, k));
    }
    if b.len() > 0 {
        let z = common + b;
        assert(common.take(k) =~= common);
        assert(z.take(k) =~= common);
        assert(parts_at(common, z, k));
    }
    assert forall|i: int| !parts_at(a, a, i) by {}
}

} // verus!
