//! Window borders, drawn inside the windows' rectangles.

use vstd::prelude::*;

use crate::geometry::rect;
use crate::geometry::Point;
use crate::geometry::Rect;
use crate::geometry::Size;
use crate::layout::contains_id;
use crate::layout::Space;
use crate::seqs::retain;
use crate::state::ShoestringWm;

verus! {

/// The four bars of a border: top, bottom, left and right. The first two span
/// the whole width, the others fill the gap between them.
pub open spec fn ring(r: Rect, width: int) -> Seq<Rect> {
    seq![
        Rect { loc: r.loc, size: Size { w: r.size.w, h: width as i32 } },
        Rect {
            loc: Point { x: r.loc.x, y: (r.bottom() - width) as i32 },
            size: Size { w: r.size.w, h: width as i32 },
        },
        Rect {
            loc: Point { x: r.loc.x, y: (r.loc.y + width) as i32 },
            size: Size { w: width as i32, h: (r.size.h - 2 * width) as i32 },
        },
        Rect {
            loc: Point { x: (r.right() - width) as i32, y: (r.loc.y + width) as i32 },
            size: Size { w: width as i32, h: (r.size.h - 2 * width) as i32 },
        },
    ]
}

/// Whether a rectangle can hold a border without its bars overlapping.
pub open spec fn holds_ring(r: Rect, width: int) -> bool {
    width > 0 && r.size.w >= 2 * width && r.size.h >= 2 * width
}

/// The four bars of a border inside a rectangle; none where it is too small.
pub fn ring_rects(r: Rect, width: i32) -> (e: Option<[Rect; 4]>)
    requires
        r.fits(),
        width <= 0x3fff_ffff,
    ensures
        match e {
            Some(bars) => holds_ring(r, width as int) && bars@ == ring(r, width as int),
            None => !holds_ring(r, width as int),
        },
{
    let w = r.size.w;
    let h = r.size.h;
    if width <= 0 || w < 2 * width || h < 2 * width {
        return None;
    }
    let inner_h = h - 2 * width;
    let bars = [
        rect(r.loc.x, r.loc.y, w, width),
        rect(r.loc.x, r.loc.y + h - width, w, width),
        rect(r.loc.x, r.loc.y + width, width, inner_h),
        rect(r.loc.x + w - width, r.loc.y + width, width, inner_h),
    ];
    assert(bars@ =~= ring(r, width as int));
    Some(bars)
}

/// The bars of a border cover the rectangle's frame and nothing else: each point
/// of the frame lies on exactly one bar, and no bar reaches outside the
/// rectangle or into what it frames.
pub proof fn law_ring_partitions_frame(r: Rect, width: int, x: int, y: int)
    requires
        r.fits(),
        holds_ring(r, width),
    ensures
        ({
            let bars = ring(r, width);
            let inside = r.loc.x + width <= x < r.right() - width && r.loc.y + width <= y
                < r.bottom() - width;
            let hits = (if bars[0].holds(x, y) {
                1int
            } else {
                0
            }) + (if bars[1].holds(x, y) {
                1int
            } else {
                0
            }) + (if bars[2].holds(x, y) {
                1int
            } else {
                0
            }) + (if bars[3].holds(x, y) {
                1int
            } else {
                0
            });
            hits == (if r.holds(x, y) && !inside {
                1int
            } else {
                0
            })
        }),
{
    let bars = ring(r, width);
    assert(bars[0].holds(x, y) <==> r.loc.x <= x < r.right() && r.loc.y <= y < r.loc.y + width);
    assert(bars[1].holds(x, y) <==> r.loc.x <= x < r.right() && r.bottom() - width <= y
        < r.bottom());
    assert(bars[2].holds(x, y) <==> r.loc.x <= x < r.loc.x + width && r.loc.y + width <= y
        < r.bottom() - width);
    assert(bars[3].holds(x, y) <==> r.right() - width <= x < r.right() && r.loc.y + width <= y
        < r.bottom() - width);
}

/// A border to draw: its window, whether that has the focus, and the bars,
/// relative to the output.
#[derive(Clone, Copy, Debug)]
pub struct Border {
    pub window: u64,
    pub focused: bool,
    pub bars: [Rect; 4],
}

/// Whether two rectangles meet. Unlike an overlap this counts a rectangle
/// without area that lies inside the other.
pub open spec fn meet(a: Rect, b: Rect) -> bool {
    &&& a.loc.x < b.right()
    &&& b.loc.x < a.right()
    &&& a.loc.y < b.bottom()
    &&& b.loc.y < a.bottom()
}

/// The rectangle of a mapped window.
pub open spec fn placed_rect(p: crate::layout::Placed) -> Rect {
    Rect { loc: p.loc, size: p.window.size }
}

/// Whether a window has a border on an output with the given place.
pub open spec fn bordered(p: crate::layout::Placed, geo: Option<Rect>, width: int) -> bool {
    &&& match geo {
        Some(o) => meet(o, placed_rect(p)),
        None => true,
    }
    &&& holds_ring(placed_rect(p), width)
}

/// The corner that an output's elements are placed from.
pub open spec fn origin(geo: Option<Rect>) -> Point {
    match geo {
        Some(o) => o.loc,
        None => Point { x: 0, y: 0 },
    }
}

/// A rectangle relative to a corner.
pub open spec fn relative(r: Rect, o: Point) -> Rect {
    Rect {
        loc: Point { x: (r.loc.x - o.x) as i32, y: (r.loc.y - o.y) as i32 },
        size: r.size,
    }
}

/// Whether a border is that of a mapped window.
pub open spec fn border_of(
    p: crate::layout::Placed,
    geo: Option<Rect>,
    focused: Option<u64>,
    width: int,
    b: Border,
) -> bool {
    &&& b.window == p.window.id
    &&& b.focused == (focused == Some(p.window.id))
    &&& b.bars@ == ring(placed_rect(p), width).map_values(|r: Rect| relative(r, origin(geo)))
}

/// The places of the windows with a border, in order.
pub open spec fn bordered_at(
    elements: Seq<crate::layout::Placed>,
    geo: Option<Rect>,
    width: int,
) -> Seq<int>
    decreases elements.len(),
{
    if elements.len() == 0 {
        Seq::empty()
    } else {
        let k = elements.len() - 1;
        let before = bordered_at(elements.drop_last(), geo, width);
        if bordered(elements[k], geo, width) {
            before.push(k)
        } else {
            before
        }
    }
}

/// Whether borders are those of the windows at the places.
pub open spec fn borders_of(
    elements: Seq<crate::layout::Placed>,
    geo: Option<Rect>,
    focused: Option<u64>,
    width: int,
    places: Seq<int>,
    borders: Seq<Border>,
) -> bool {
    &&& places.len() == borders.len()
    &&& forall|i: int|
        0 <= i < borders.len() ==> #[trigger] border_at(
            elements,
            geo,
            focused,
            width,
            places[i],
            borders[i],
        )
}

/// Whether a border is that of the window at the place.
pub open spec fn border_at(
    elements: Seq<crate::layout::Placed>,
    geo: Option<Rect>,
    focused: Option<u64>,
    width: int,
    place: int,
    b: Border,
) -> bool {
    0 <= place < elements.len() && border_of(elements[place], geo, focused, width, b)
}

/// Whether everything can be placed relative to the output.
pub open spec fn elements_fit(elements: Seq<crate::layout::Placed>, geo: Option<Rect>) -> bool {
    &&& match geo {
        Some(o) => o.fits(),
        None => true,
    }
    &&& forall|i: int|
        0 <= i < elements.len() ==> {
            let r = placed_rect(#[trigger] elements[i]);
            &&& r.fits()
            &&& i32::MIN <= r.loc.x - origin(geo).x
            &&& r.right() - origin(geo).x <= i32::MAX
            &&& i32::MIN <= r.loc.y - origin(geo).y
            &&& r.bottom() - origin(geo).y <= i32::MAX
        }
}

fn shift(r: Rect, o: Point) -> (s: Rect)
    requires
        i32::MIN <= r.loc.x - o.x <= i32::MAX,
        i32::MIN <= r.loc.y - o.y <= i32::MAX,
    ensures
        s == relative(r, o),
{
    Rect { loc: Point { x: r.loc.x - o.x, y: r.loc.y - o.y }, size: r.size }
}

/// The borders on an output, the lowest window's first; none where the width is
/// not positive.
pub fn border_elements(
    space: &Space,
    geo: Option<Rect>,
    focused: Option<u64>,
    width: i32,
) -> (r: Vec<Border>)
    requires
        width <= 0x3fff_ffff,
        width > 0 ==> elements_fit(space.elements@, geo),
    ensures
        width <= 0 ==> r@.len() == 0,
        width > 0 ==> borders_of(
            space.elements@,
            geo,
            focused,
            width as int,
            bordered_at(space.elements@, geo, width as int),
            r@,
        ),
{
    let mut out: Vec<Border> = Vec::new();
    if width <= 0 {
        return out;
    }
    let mut i: usize = 0;
    let ghost all = space.elements@;
    let o = match geo {
        Some(g) => g.loc,
        None => Point { x: 0, y: 0 },
    };
    while i < space.elements.len()
        invariant
            i <= all.len(),
            all == space.elements@,
            0 < width <= 0x3fff_ffff,
            o == origin(geo),
            elements_fit(all, geo),
            borders_of(
                all,
                geo,
                focused,
                width as int,
                bordered_at(all.take(i as int), geo, width as int),
                out@,
            ),
        decreases all.len() - i,
    {
        let p = &space.elements[i];
        let g = Rect { loc: p.loc, size: p.window.size };
        assert(g == placed_rect(all[i as int]));
        assert(all.take(i + 1).drop_last() =~= all.take(i as int));
        assert(all.take(i + 1)[i as int] == all[i as int]);
        let ghost before = out@;
        let ghost places = bordered_at(all.take(i as int), geo, width as int);
        let on = match geo {
            Some(a) => a.loc.x < g.loc.x + g.size.w && g.loc.x < a.loc.x + a.size.w && a.loc.y
                < g.loc.y + g.size.h && g.loc.y < a.loc.y + a.size.h,
            None => true,
        };
        assert(on == (match geo {
            Some(a) => meet(a, g),
            None => true,
        }));
        if on {
            if let Some(bars) = ring_rects(g, width) {
                let has_focus = match focused {
                    Some(f) => f == p.window.id,
                    None => false,
                };
                let b = Border {
                    window: p.window.id,
                    focused: has_focus,
                    bars: [
                        shift(bars[0], o),
                        shift(bars[1], o),
                        shift(bars[2], o),
                        shift(bars[3], o),
                    ],
                };
                assert(b.bars@ =~= ring(g, width as int).map_values(
                    |r: Rect| relative(r, origin(geo)),
                ));
                out.push(b);
                assert(border_of(all[i as int], geo, focused, width as int, b));
                assert forall|k: int| 0 <= k < out@.len() implies #[trigger] border_at(
                    all,
                    geo,
                    focused,
                    width as int,
                    places.push(i as int)[k],
                    out@[k],
                ) by {
                    if k < before.len() {
                        assert(border_at(all, geo, focused, width as int, places[k], before[k]));
                    }
                }
                assert(bordered_at(all.take(i + 1), geo, width as int) == places.push(i as int));
            } else {
                assert(bordered_at(all.take(i + 1), geo, width as int) == places);
            }
        } else {
            assert(bordered_at(all.take(i + 1), geo, width as int) == places);
        }
        i += 1;
    }
    assert(all.take(i as int) =~= all);
    out
}

impl ShoestringWm {
    /// The borders on an output: none while the session is locked, where a
    /// fullscreen window covers the output, or where the width is zero. The
    /// windows that are not mapped any more are forgotten.
    pub fn output_border_elements(
        &mut self,
        geo: Option<Rect>,
        locked: bool,
        fullscreen: bool,
    ) -> (r: Vec<Border>)
        requires
            elements_fit(old(self).desktop.space.elements@, geo),
            old(self).config.border_width <= 0x3fff_ffff,
        ensures
            *final(self) == (ShoestringWm {
                window_borders: final(self).window_borders,
                ..*old(self)
            }),
            ({
                let width = old(self).config.border_width as int;
                let space = old(self).desktop.space;
                let kept = old(self).window_borders@.filter(
                    |w: u64| space.location(w) is Some,
                );
                if locked || fullscreen || width == 0 {
                    r@.len() == 0 && final(self).window_borders@ == kept
                } else {
                    &&& borders_of(
                        space.elements@,
                        geo,
                        match old(self).desktop.focused {
                            Some(f) => Some(f.id),
                            None => None,
                        },
                        width,
                        bordered_at(space.elements@, geo, width),
                        r@,
                    )
                    &&& final(self).window_borders@ == with_new(kept, r@)
                }
            }),
    {
        let ghost space = self.desktop.space;
        let s = &self.desktop.space;
        let keep = |w: &u64| -> (b: bool)
            ensures
                b == (s.location(*w) is Some),
            { s.element_location(*w).is_some() };
        retain(&mut self.window_borders, keep, Ghost(|w: u64| space.location(w) is Some));
        let width: i32 = self.config.border_width as i32;
        if locked || fullscreen || width <= 0 {
            return Vec::new();
        }
        let focused = match self.desktop.focused {
            Some(f) => Some(f.id),
            None => None,
        };
        let r = border_elements(&self.desktop.space, geo, focused, width);
        let mut i: usize = 0;
        let ghost kept = self.window_borders@;
        while i < r.len()
            invariant
                i <= r@.len(),
                *self == (ShoestringWm { window_borders: self.window_borders, ..*old(self) }),
                self.window_borders@ == with_new(kept, r@.take(i as int)),
            decreases r@.len() - i,
        {
            assert(r@.take(i + 1).drop_last() =~= r@.take(i as int));
            if !contains_id(&self.window_borders, r[i].window) {
                self.window_borders.push(r[i].window);
            }
            i += 1;
        }
        assert(r@.take(i as int) =~= r@);
        r
    }
}

/// A list of windows, with those of the borders that it lacks behind it.
pub open spec fn with_new(known: Seq<u64>, borders: Seq<Border>) -> Seq<u64>
    decreases borders.len(),
{
    if borders.len() == 0 {
        known
    } else {
        let before = with_new(known, borders.drop_last());
        if before.contains(borders.last().window) {
            before
        } else {
            before.push(borders.last().window)
        }
    }
}

/// The windows with a border on an output are those that reach into its place and can
/// hold one, each once and from the lowest up.
pub proof fn law_windows_with_border(
    elements: Seq<crate::layout::Placed>,
    geo: Option<Rect>,
    width: int,
    i: int,
)
    ensures
        bordered_at(elements, geo, width).contains(i) <==> 0 <= i < elements.len() && {
            let x = elements[i].loc.x as int;
            let y = elements[i].loc.y as int;
            let w = elements[i].window.size.w as int;
            let h = elements[i].window.size.h as int;
            &&& geo matches Some(o) ==> x < o.loc.x + o.size.w && o.loc.x < x + w && y < o.loc.y
                + o.size.h && o.loc.y < y + h
            &&& width > 0 && w >= 2 * width && h >= 2 * width
        },
        forall|j: int, k: int|
            0 <= j < k < bordered_at(elements, geo, width).len() ==> (#[trigger] bordered_at(
                elements,
                geo,
                width,
            )[j]) < (#[trigger] bordered_at(elements, geo, width)[k]),
        forall|j: int|
            0 <= j < bordered_at(elements, geo, width).len() ==> (#[trigger] bordered_at(
                elements,
                geo,
                width,
            )[j]) < elements.len(),
    decreases elements.len(),
{
    if elements.len() > 0 {
        let init = elements.drop_last();
        law_windows_with_border(init, geo, width, i);
        let before = bordered_at(init, geo, width);
        crate::seqs::lemma_push_contains(before, elements.len() - 1, i);
        if 0 <= i < init.len() {
            assert(init[i] == elements[i]);
        }
        let all = bordered_at(elements, geo, width);
        assert forall|j: int| 0 <= j < all.len() implies (#[trigger] all[j]) < elements.len() by {
            if j < before.len() {
                assert(before[j] < init.len());
            }
        }
        assert forall|j: int, k: int| 0 <= j < k < all.len() implies (#[trigger] all[j])
            < (#[trigger] all[k]) by {
            assert(before[j] < init.len());
            if k < before.len() {
                assert(before[j] < before[k]);
            }
        }
    }
}

/// A border is drawn around its own window, as that of a window with the focus exactly
/// where it has it, and its bars stand relative to the output.
pub proof fn law_border_of_the_window(
    p: crate::layout::Placed,
    geo: Option<Rect>,
    focused: Option<u64>,
    width: int,
    b: Border,
    k: int,
)
    requires
        border_of(p, geo, focused, width, b),
        0 <= k < 4,
    ensures
        b.window == p.window.id,
        b.focused <==> focused == Some(p.window.id),
        ({
            let bar = ring(Rect { loc: p.loc, size: p.window.size }, width)[k];
            &&& b.bars@[k].size == bar.size
            &&& geo is None ==> b.bars@[k].loc == bar.loc
            &&& geo matches Some(o) ==> {
                &&& i32::MIN <= bar.loc.x - o.loc.x <= i32::MAX ==> b.bars@[k].loc.x == bar.loc.x
                    - o.loc.x
                &&& i32::MIN <= bar.loc.y - o.loc.y <= i32::MAX ==> b.bars@[k].loc.y == bar.loc.y
                    - o.loc.y
            }
        }),
{
}

/// The windows of new borders are remembered behind those that are, each once.
pub proof fn law_borders_remembered(known: Seq<u64>, borders: Seq<Border>, window: u64)
    ensures
        with_new(known, borders).contains(window) <==> known.contains(window) || exists|i: int|
            0 <= i < borders.len() && (#[trigger] borders[i]).window == window,
        known.is_prefix_of(with_new(known, borders)),
        known.no_duplicates() ==> with_new(known, borders).no_duplicates(),
    decreases borders.len(),
{
    if borders.len() > 0 {
        let init = borders.drop_last();
        let before = with_new(known, init);
        let last = borders.last().window;
        law_borders_remembered(known, init, window);
        assert(borders.last() == borders[borders.len() - 1]);
        crate::seqs::lemma_push_contains(before, last, window);
        if exists|i: int| 0 <= i < init.len() && (#[trigger] init[i]).window == window {
            let i = choose|i: int| 0 <= i < init.len() && (#[trigger] init[i]).window == window;
            assert(borders[i] == init[i]);
        }
        if exists|i: int| 0 <= i < borders.len() && (#[trigger] borders[i]).window == window {
            let i = choose|i: int|
                0 <= i < borders.len() && (#[trigger] borders[i]).window == window;
            if i < init.len() {
                assert(init[i] == borders[i]);
            }
        }
        if !before.contains(last) {
            assert(before.push(last).subrange(0, known.len() as int) =~= before.subrange(
                0,
                known.len() as int,
            ));
        }
    } else {
        assert(known.subrange(0, known.len() as int) =~= known);
    }
}

/// Each border on an output is that of its own window, one for each window that has
/// one, the lowest first.
pub proof fn law_borders_are_their_own(
    elements: Seq<crate::layout::Placed>,
    geo: Option<Rect>,
    focused: Option<u64>,
    width: int,
    borders: Seq<Border>,
    i: int,
)
    requires
        borders_of(elements, geo, focused, width, bordered_at(elements, geo, width), borders),
        0 <= i < borders.len(),
    ensures
        borders.len() == bordered_at(elements, geo, width).len(),
        ({
            let p = bordered_at(elements, geo, width)[i];
            &&& 0 <= p < elements.len()
            &&& borders[i].window == elements[p].window.id
            &&& borders[i].focused <==> focused == Some(elements[p].window.id)
            &&& border_of(elements[p], geo, focused, width, borders[i])
        }),
{
    assert(border_at(
        elements,
        geo,
        focused,
        width,
        bordered_at(elements, geo, width)[i],
        borders[i],
    ));
}

} // verus!
