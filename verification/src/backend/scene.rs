//! What an output shows, whatever draws it.

use vstd::prelude::*;

use crate::geometry::Point;
use crate::geometry::Rect;
use crate::layout::fullscreen_window_on;
use crate::layout::rect_contains;
use crate::state::ShoestringWm;

verus! {

/// The color behind everything.
#[derive(Clone, Copy, Debug, PartialEq, Eq, Structural)]
pub enum Ground {
    Black,
    Gray,
}

/// The windows that an output shows.
#[derive(Clone, Copy, Debug, PartialEq, Eq, Structural)]
pub enum Windows {
    Hidden,
    /// One window, over bars and docks too.
    Fullscreen(u64),
    All,
}

/// What lies on top of the windows.
#[derive(Clone, Copy, Debug, PartialEq, Eq, Structural)]
pub enum OnTop {
    Nothing,
    Cursor,
    /// The lock surface, where the output has one.
    Lock(Option<u64>),
}

/// What an output shows.
#[derive(Clone, Copy, Debug, PartialEq, Eq, Structural)]
pub struct Scene {
    pub ground: Ground,
    pub windows: Windows,
    pub on_top: OnTop,
    pub borders: bool,
    pub overlay: bool,
}

/// Where the pointer shows: everywhere, or only on an output with this place that
/// holds it.
#[derive(Clone, Copy, Debug, PartialEq, Eq, Structural)]
pub enum CursorScope {
    Any,
    Within { place: Option<Rect>, pointer: Point },
}

/// Whether the pointer shows.
pub open spec fn cursor_shows(scope: CursorScope) -> bool {
    match scope {
        CursorScope::Any => true,
        CursorScope::Within { place, pointer } => match place {
            Some(r) => r.holds(pointer.x as int, pointer.y as int),
            None => false,
        },
    }
}

/// What an output shows while the session is locked.
pub open spec fn locked_scene(surface: Option<u64>) -> Scene {
    Scene {
        ground: Ground::Black,
        windows: Windows::Hidden,
        on_top: OnTop::Lock(surface),
        borders: false,
        overlay: false,
    }
}

impl ShoestringWm {
    /// Whether a window is fullscreen on an output, with none below it.
    pub open spec fn lowest_fullscreen(self, output: u64, i: int) -> bool {
        let d = self.desktop;
        &&& 0 <= i < d.space.elements@.len()
        &&& crate::layout::covers_output(d.space, d.layout, output, i)
        &&& forall|j: int|
            0 <= j < i ==> !crate::layout::covers_output(d.space, d.layout, output, j)
    }

    /// Whether a scene is what an output shows: the lock surface alone while the
    /// session is locked, a fullscreen window alone where there is one, and else
    /// all windows with their borders.
    pub open spec fn composes(
        self,
        output: u64,
        has_cursor: bool,
        scope: CursorScope,
        borders_here: bool,
        overlay_here: bool,
        r: Scene,
    ) -> bool {
        match self.lock_session {
            Some(l) => r == locked_scene(l.surface_on(output)),
            None => {
                &&& r.ground == Ground::Gray
                &&& r.on_top == (if has_cursor && cursor_shows(scope) {
                    OnTop::Cursor
                } else {
                    OnTop::Nothing
                })
                &&& r.overlay == overlay_here
                &&& match r.windows {
                    Windows::Fullscreen(w) => {
                        &&& !r.borders
                        &&& exists|i: int| #[trigger]
                            self.lowest_fullscreen(output, i)
                                && self.desktop.space.elements@[i].window.id == w
                    },
                    Windows::All => {
                        &&& r.borders == (borders_here && self.config.border_width > 0)
                        &&& forall|i: int| !self.lowest_fullscreen(output, i)
                    },
                    Windows::Hidden => false,
                }
            },
        }
    }

    /// What an output shows. While the session is locked that is the lock surface
    /// and nothing else. A backend that draws no borders, or no overlay on this
    /// output, says so in the two flags.
    pub fn compose_scene(
        &self,
        output: u64,
        has_cursor: bool,
        scope: CursorScope,
        borders_here: bool,
        overlay_here: bool,
    ) -> (r: Scene)
        requires
            self.lock_session is Some ==> self.lock_session->0.wf(),
        ensures
            self.composes(output, has_cursor, scope, borders_here, overlay_here, r),
    {
        if self.is_locked() {
            return Scene {
                ground: Ground::Black,
                windows: Windows::Hidden,
                on_top: OnTop::Lock(self.lock_surface_for(output)),
                borders: false,
                overlay: false,
            };
        }
        let here = match scope {
            CursorScope::Any => true,
            CursorScope::Within { place, pointer } => match place {
                Some(r) => rect_contains(r, pointer),
                None => false,
            },
        };
        let on_top = if has_cursor && here {
            OnTop::Cursor
        } else {
            OnTop::Nothing
        };
        match fullscreen_window_on(&self.desktop.space, &self.desktop.layout, output) {
            Some(w) => {
                proof {
                    let d = self.desktop;
                    let i = choose|i: int|
                        {
                            &&& 0 <= i < d.space.elements@.len()
                            &&& #[trigger] crate::layout::covers_output(
                                d.space,
                                d.layout,
                                output,
                                i,
                            )
                            &&& d.space.elements@[i].window.id == w
                            &&& forall|j: int|
                                0 <= j < i ==> !crate::layout::covers_output(
                                    d.space,
                                    d.layout,
                                    output,
                                    j,
                                )
                        };
                    assert(self.lowest_fullscreen(output, i));
                }
                Scene {
                    ground: Ground::Gray,
                    windows: Windows::Fullscreen(w),
                    on_top,
                    borders: false,
                    overlay: overlay_here,
                }
            },
            None => Scene {
                ground: Ground::Gray,
                windows: Windows::All,
                on_top,
                borders: borders_here && self.config.border_width > 0,
                overlay: overlay_here,
            },
        }
    }

    /// What the one output of a backend without a card shows: the cursor wherever
    /// it is, the borders, and the panel where it is drawn there.
    pub fn redraw(&self, output: u64, has_cursor: bool, pointer: Option<Point>) -> (r: Scene)
        requires
            self.lock_session is Some ==> self.lock_session->0.wf(),
        ensures
            self.composes(
                output,
                has_cursor,
                CursorScope::Any,
                true,
                self.panel_here(output, pointer),
                r,
            ),
    {
        let overlay = self.is_diag_overlay_output(output, pointer);
        self.compose_scene(output, has_cursor, CursorScope::Any, true, overlay)
    }
}

/// A part of what an output shows.
#[derive(Clone, Copy, Debug, PartialEq, Eq, Structural)]
pub enum Layer {
    Overlay,
    Cursor,
    Lock(u64),
    Borders,
    Windows(Windows),
}

/// The parts of a scene, from the top down. A capture leaves the overlay out.
pub open spec fn layers_of(scene: Scene, capture: bool) -> Seq<Layer> {
    let top = if scene.overlay && !capture {
        seq![Layer::Overlay]
    } else {
        Seq::empty()
    };
    let mid = match scene.on_top {
        OnTop::Nothing => Seq::empty(),
        OnTop::Cursor => seq![Layer::Cursor],
        OnTop::Lock(Some(s)) => seq![Layer::Lock(s)],
        OnTop::Lock(None) => Seq::empty(),
    };
    let borders = if scene.borders {
        seq![Layer::Borders]
    } else {
        Seq::empty()
    };
    let windows = if scene.windows == Windows::Hidden {
        Seq::empty()
    } else {
        seq![Layer::Windows(scene.windows)]
    };
    top + (mid + borders + windows)
}

impl Scene {
    /// The parts of the scene, from the top down. A capture leaves the overlay
    /// out.
    pub fn layers(&self, capture: bool) -> (r: Vec<Layer>)
        ensures
            r@ == layers_of(*self, capture),
    {
        let mut r: Vec<Layer> = Vec::new();
        if self.overlay && !capture {
            r.push(Layer::Overlay);
        }
        match self.on_top {
            OnTop::Nothing => {},
            OnTop::Cursor => r.push(Layer::Cursor),
            OnTop::Lock(Some(s)) => r.push(Layer::Lock(s)),
            OnTop::Lock(None) => {},
        }
        if self.borders {
            r.push(Layer::Borders);
        }
        if self.windows != Windows::Hidden {
            r.push(Layer::Windows(self.windows));
        }
        assert(r@ =~= layers_of(*self, capture));
        r
    }
}

/// A capture shows what the screen shows, but for the overlay.
pub proof fn law_capture_matches_screen(scene: Scene)
    ensures
        layers_of(scene, true) == layers_of(Scene { overlay: false, ..scene }, false),
        !scene.overlay ==> layers_of(scene, true) == layers_of(scene, false),
        scene.overlay ==> layers_of(scene, false) == seq![Layer::Overlay] + layers_of(scene, true),
{
    assert(Seq::<Layer>::empty() + layers_of(scene, true) =~= layers_of(scene, true));
}

/// While the session is locked, an output shows no window, no border and no
/// overlay: nothing but its lock surface.
pub proof fn law_locked_shows_lock_only(surface: Option<u64>, capture: bool)
    ensures
        forall|i: int|
            0 <= i < layers_of(locked_scene(surface), capture).len() ==> surface is Some
                && #[trigger] layers_of(locked_scene(surface), capture)[i] == Layer::Lock(
                surface->0,
            ),
{
}

/// Of two outputs that lie beside each other, above or below, at most one shows
/// the cursor.
pub proof fn law_cursor_on_one_output(a: Rect, b: Rect, pointer: Point)
    requires
        a.right() <= b.loc.x || b.right() <= a.loc.x || a.bottom() <= b.loc.y || b.bottom()
            <= a.loc.y,
    ensures
        !(cursor_shows(CursorScope::Within { place: Some(a), pointer }) && cursor_shows(
            CursorScope::Within { place: Some(b), pointer },
        )),
{
}

/// The pointer shows on every output, or where it is bound to one's place only there.
pub proof fn law_where_the_pointer_shows(place: Option<Rect>, pointer: Point)
    ensures
        cursor_shows(CursorScope::Any),
        cursor_shows(CursorScope::Within { place, pointer }) <==> place is Some && place->0.loc.x
            <= pointer.x < place->0.loc.x + place->0.size.w && place->0.loc.y <= pointer.y
            < place->0.loc.y + place->0.size.h,
{
}

/// An output shows a window that is fullscreen on it alone, the lowest of those, and
/// without borders; where none is, all windows. Borders show with all windows only, and
/// only where their width is positive.
pub proof fn law_fullscreen_alone(
    wm: ShoestringWm,
    output: u64,
    has_cursor: bool,
    scope: CursorScope,
    borders_here: bool,
    overlay_here: bool,
    r: Scene,
    i: int,
)
    requires
        wm.composes(output, has_cursor, scope, borders_here, overlay_here, r),
        wm.lock_session is None,
    ensures
        ({
            let full = |j: int|
                wm.desktop.layout.meta_of(wm.desktop.space.elements@[j].window.id).layout
                    is Fullscreen && wm.desktop.space.elements@[j].outputs@.contains(output);
            &&& 0 <= i < wm.desktop.space.elements@.len() && full(i) && (forall|j: int|
                0 <= j < i ==> !#[trigger] full(j)) ==> r.windows == Windows::Fullscreen(
                wm.desktop.space.elements@[i].window.id,
            ) && !r.borders
            &&& (forall|j: int|
                0 <= j < wm.desktop.space.elements@.len() ==> !#[trigger] full(j)) ==> r.windows
                == Windows::All && (r.borders <==> borders_here && wm.config.border_width > 0)
            &&& r.ground is Gray
            &&& r.on_top == OnTop::Cursor <==> has_cursor && cursor_shows(scope)
            &&& r.on_top == OnTop::Nothing <==> !has_cursor || !cursor_shows(scope)
            &&& r.overlay == overlay_here
        }),
{
    let full = |j: int|
        wm.desktop.layout.meta_of(wm.desktop.space.elements@[j].window.id).layout is Fullscreen
            && wm.desktop.space.elements@[j].outputs@.contains(output);
    assert forall|j: int|
        #![trigger full(j)]
        full(j) == crate::layout::covers_output(
            wm.desktop.space,
            wm.desktop.layout,
            output,
            j,
        ) by {}
    if 0 <= i < wm.desktop.space.elements@.len() && full(i) && (forall|j: int|
        0 <= j < i ==> !#[trigger] full(j)) {
        assert forall|j: int| 0 <= j < i implies !crate::layout::covers_output(
            wm.desktop.space,
            wm.desktop.layout,
            output,
            j,
        ) by {
            assert(!full(j));
        }
        assert(wm.lowest_fullscreen(output, i));
        if r.windows is Fullscreen {
            let k = choose|k: int| #[trigger]
                wm.lowest_fullscreen(output, k) && wm.desktop.space.elements@[k].window.id
                    == r.windows->Fullscreen_0;
            assert(wm.lowest_fullscreen(output, k));
            if k < i {
                assert(full(k));
            }
            if i < k {
                assert(full(i));
            }
        }
    }
    if forall|j: int| 0 <= j < wm.desktop.space.elements@.len() ==> !#[trigger] full(j) {
        if r.windows is Fullscreen {
            let k = choose|k: int| #[trigger]
                wm.lowest_fullscreen(output, k) && wm.desktop.space.elements@[k].window.id
                    == r.windows->Fullscreen_0;
            assert(wm.lowest_fullscreen(output, k));
            assert(full(k));
        }
    }
}

/// From the top down come the overlay, then the cursor or the lock surface, then the
/// borders, then the windows, each where the scene has it.
pub proof fn law_layers_from_the_top(scene: Scene, capture: bool)
    ensures
        ({
            let l = layers_of(scene, capture);
            let over: int = if scene.overlay && !capture {
                1
            } else {
                0
            };
            let mid: int = if scene.on_top is Cursor || (scene.on_top matches OnTop::Lock(s)
                && s is Some) {
                1
            } else {
                0
            };
            let edge: int = if scene.borders {
                1
            } else {
                0
            };
            let low: int = if scene.windows is Hidden {
                0
            } else {
                1
            };
            &&& l.len() == over + mid + edge + low
            &&& over == 1 ==> l[0] is Overlay
            &&& scene.on_top is Cursor ==> l[over] is Cursor
            &&& scene.on_top matches OnTop::Lock(Some(s)) ==> l[over] == Layer::Lock(s)
            &&& edge == 1 ==> l[over + mid] is Borders
            &&& low == 1 ==> l[over + mid + edge] == Layer::Windows(scene.windows)
        }),
{
}

/// While the session is locked an output shows its own lock surface on black, where it
/// has one, whatever windows there are.
pub proof fn law_locked_output(
    wm: ShoestringWm,
    output: u64,
    has_cursor: bool,
    scope: CursorScope,
    borders_here: bool,
    overlay_here: bool,
    r: Scene,
)
    requires
        wm.composes(output, has_cursor, scope, borders_here, overlay_here, r),
        wm.lock_session is Some,
    ensures
        r.ground is Black,
        r.windows is Hidden,
        !r.borders && !r.overlay,
        r.on_top == OnTop::Lock(wm.lock_session->0.surface_on(output)),
{
}

} // verus!
