//! The backend on graphics cards and their connectors: which card, which outputs
//! with which mode and place, and when each is painted.

use vstd::prelude::*;

use crate::backend::outputs::OutputCame;
use crate::backend::outputs::OutputGone;
use crate::backend::scene::CursorScope;
use crate::backend::scene::Scene;
use crate::backend::transform_from_config;
use crate::backend::OutputTransform;
use crate::backend::Transform;
use crate::foreign_toplevel_mgmt::SyncPlan;
use crate::geometry::Point;
use crate::geometry::Size;
use crate::layout::Space;
use crate::seqs::retain;
use crate::state::ShoestringWm;
use crate::text::concat2;
use crate::text::concat3;
use crate::text::decimal_string;
use crate::text::str_eq;

verus! {

/// How often the watchdog looks at the active terminal, in milliseconds.
pub const WATCHDOG_MS: u64 = 200;

/// How long until painting is tried again after a failure, in microseconds.
pub const RETRY_US: u64 = 16_000;

/// The refresh rate of an output without a mode, in thousandths of a hertz.
pub const DEFAULT_REFRESH: i32 = 60_000;

/// An output on a card: the pipe that drives it, and whether its refresh rate
/// varies.
#[derive(Clone, Copy, Debug, PartialEq, Eq, Structural)]
pub struct Surface {
    pub crtc: u32,
    pub output: u64,
    pub vrr: bool,
}

/// A card.
#[derive(Debug)]
pub struct Card {
    pub node: u64,
    pub render_node: u64,
    pub surfaces: Vec<Surface>,
}

/// The cards, and whether the session is the active one.
#[derive(Debug)]
pub struct UdevData {
    pub vt_active: bool,
    pub primary_gpu: u64,
    pub cards: Vec<Card>,
    pub input_devices: Vec<u64>,
    /// Whether clients were told that they may hand over buffers of the card.
    pub dmabuf_advertised: bool,
    /// Whether clients were told that they may hand over points in time.
    pub syncobj_advertised: bool,
}

/// A card by its values.
pub struct CardView {
    pub node: u64,
    pub render_node: u64,
    pub surfaces: Seq<Surface>,
}

impl View for Card {
    type V = CardView;

    open spec fn view(&self) -> CardView {
        CardView { node: self.node, render_node: self.render_node, surfaces: self.surfaces@ }
    }
}

/// Why a card could not be taken on.
#[derive(Debug)]
pub enum DeviceAddError {
    DeviceOpen(String),
    DrmDevice(String),
    GbmDevice(String),
    DrmNode(String),
    AddNode(String),
    NoRenderNode,
}

/// The words for why a card could not be taken on.
pub open spec fn device_error_text(e: DeviceAddError) -> Seq<char> {
    match e {
        DeviceAddError::DeviceOpen(w) => "libseat could not open the device: "@ + w@,
        DeviceAddError::DrmDevice(w) => "DrmDevice init failed: "@ + w@,
        DeviceAddError::GbmDevice(w) => "GbmDevice init failed: "@ + w@,
        DeviceAddError::DrmNode(w) => "DrmNode resolution failed: "@ + w@,
        DeviceAddError::AddNode(w) => "Could not register render node with GpuManager: "@ + w@,
        DeviceAddError::NoRenderNode => "Device has no usable render node"@,
    }
}

impl DeviceAddError {
    /// The words for why a card could not be taken on.
    pub fn message(&self) -> (r: String)
        ensures
            r@ == device_error_text(*self),
    {
        match self {
            DeviceAddError::DeviceOpen(w) => concat2(
                "libseat could not open the device: ",
                w.as_str(),
            ),
            DeviceAddError::DrmDevice(w) => concat2("DrmDevice init failed: ", w.as_str()),
            DeviceAddError::GbmDevice(w) => concat2("GbmDevice init failed: ", w.as_str()),
            DeviceAddError::DrmNode(w) => concat2("DrmNode resolution failed: ", w.as_str()),
            DeviceAddError::AddNode(w) => concat2(
                "Could not register render node with GpuManager: ",
                w.as_str(),
            ),
            DeviceAddError::NoRenderNode => "Device has no usable render node".to_string(),
        }
    }
}

/// Whether `i` is the first card that could be resolved.
pub open spec fn first_resolved(all: Seq<Option<u64>>, i: int) -> bool {
    &&& 0 <= i < all.len()
    &&& all[i] is Some
    &&& forall|j: int| 0 <= j < i ==> (#[trigger] all[j]) is None
}

/// The card to paint with: the render node of the seat's primary card, else the
/// first card that could be resolved.
pub fn choose_primary_gpu(primary: Option<u64>, all: &Vec<Option<u64>>, seat: &str) -> (r: Result<
    u64,
    String,
>)
    ensures
        match r {
            Ok(n) => match primary {
                Some(p) => n == p,
                None => exists|i: int| #[trigger] first_resolved(all@, i) && all@[i] == Some(n),
            },
            Err(e) => {
                &&& primary is None
                &&& forall|i: int| 0 <= i < all@.len() ==> (#[trigger] all@[i]) is None
                &&& e@ == "no GPU found for seat "@ + seat@
            },
        },
{
    if let Some(p) = primary {
        return Ok(p);
    }
    let mut i: usize = 0;
    while i < all.len()
        invariant
            i <= all@.len(),
            primary is None,
            forall|j: int| 0 <= j < i ==> (#[trigger] all@[j]) is None,
        decreases all@.len() - i,
    {
        if let Some(n) = all[i] {
            assert(first_resolved(all@, i as int));
            return Ok(n);
        }
        i += 1;
    }
    Err(concat2("no GPU found for seat ", seat))
}

/// The backend as it starts: with the card to paint with, and no card or input
/// device taken on yet.
pub fn init_udev(seat: &str, primary: Option<u64>, all: &Vec<Option<u64>>, vt_active: bool) -> (r:
    Result<UdevData, String>)
    ensures
        match r {
            Ok(u) => {
                &&& u.wf()
                &&& u.vt_active == vt_active
                &&& u.cards@.len() == 0
                &&& u.input_devices@.len() == 0
                &&& !u.dmabuf_advertised
                &&& !u.syncobj_advertised
                &&& match primary {
                    Some(p) => u.primary_gpu == p,
                    None => exists|i: int| #[trigger]
                        first_resolved(all@, i) && all@[i] == Some(u.primary_gpu),
                }
            },
            Err(e) => {
                &&& primary is None
                &&& forall|i: int| 0 <= i < all@.len() ==> (#[trigger] all@[i]) is None
                &&& e@ == "no GPU found for seat "@ + seat@
            },
        },
{
    match choose_primary_gpu(primary, all, seat) {
        Ok(gpu) => Ok(UdevData::new(gpu, vt_active)),
        Err(e) => Err(e),
    }
}

/// Whether a card is taken on no later than another: the primary one first, the
/// others by their number.
pub open spec fn no_later(primary: u64, a: u64, b: u64) -> bool {
    a == primary || (b != primary && a <= b)
}

/// Whether cards are in the order in which they are taken on.
pub open spec fn in_order(primary: u64, s: Seq<u64>) -> bool {
    forall|i: int, j: int|
        0 <= i < j < s.len() ==> no_later(primary, #[trigger] s[i], #[trigger] s[j])
}

fn is_no_later(primary: u64, a: u64, b: u64) -> (r: bool)
    ensures
        r == no_later(primary, a, b),
{
    a == primary || (b != primary && a <= b)
}

/// The cards in the order in which they are taken on.
pub fn device_order(devices: &Vec<u64>, primary: u64) -> (r: Vec<u64>)
    ensures
        in_order(primary, r@),
        r@.to_multiset() == devices@.to_multiset(),
        r@.len() == devices@.len(),
{
    let mut out: Vec<u64> = Vec::new();
    let mut i: usize = 0;
    proof {
        devices@.to_multiset_ensures();
        assert(out@ =~= devices@.take(0));
    }
    while i < devices.len()
        invariant
            i <= devices@.len(),
            in_order(primary, out@),
            out@.to_multiset() == devices@.take(i as int).to_multiset(),
            out@.len() == i,
        decreases devices@.len() - i,
    {
        let d = devices[i];
        let mut k: usize = out.len();
        let ghost before = out@;
        while k > 0 && !is_no_later(primary, out[k - 1], d)
            invariant
                k <= out@.len(),
                out@ == before,
                forall|j: int|
                    k <= j < out@.len() ==> !no_later(primary, #[trigger] out@[j], d),
            decreases k,
        {
            k -= 1;
        }
        out.insert(k, d);
        proof {
            assert(out@ =~= before.insert(k as int, d));
            vstd::seq_lib::to_multiset_insert(before, k as int, d);
            vstd::seq_lib::to_multiset_build(devices@.take(i as int), d);
            assert(devices@.take(i + 1) =~= devices@.take(i as int).push(d));
        }
        i += 1;
    }
    assert(devices@.take(i as int) =~= devices@);
    out
}

/// What was found of a new card.
#[derive(Clone, Copy, Debug, PartialEq, Eq, Structural)]
pub struct CardProbe {
    /// Whether it is no card at all, but painted by the processor.
    pub software: bool,
    pub render_node: Option<u64>,
    /// Whether it can wait for points in time.
    pub syncobj: bool,
}

/// What clients are told once a card is taken on.
#[derive(Clone, Copy, Debug, PartialEq, Eq, Structural)]
pub struct CardAdded {
    pub advertise_dmabuf: bool,
    pub advertise_syncobj: bool,
}

/// What to do about the session's terminal.
#[derive(Clone, Copy, Debug, PartialEq, Eq, Structural)]
pub enum WatchdogStep {
    /// The session is active: no more looking.
    Drop,
    /// Look again later.
    Wait,
    Activate,
}

/// An output that is to be painted.
#[derive(Clone, Copy, Debug, PartialEq, Eq, Structural)]
pub struct RenderTarget {
    pub node: u64,
    pub crtc: u32,
}

/// An output that is being painted, and what paints it.
#[derive(Clone, Copy, Debug, PartialEq, Eq, Structural)]
pub struct RenderJob {
    pub surface: Surface,
    pub painter: u64,
}

/// A change of an output's mode: to the mode in the list of the connector.
#[derive(Clone, Copy, Debug, PartialEq, Eq, Structural)]
pub struct ModeChange {
    pub node: u64,
    pub crtc: u32,
    pub painter: u64,
    pub connector: usize,
    pub mode: usize,
}

/// The outputs of a card.
pub open spec fn card_targets(node: u64, surfaces: Seq<Surface>) -> Seq<RenderTarget> {
    surfaces.map_values(|s: Surface| RenderTarget { node, crtc: s.crtc })
}

/// The outputs of all cards.
pub open spec fn all_targets(cards: Seq<CardView>) -> Seq<RenderTarget>
    decreases cards.len(),
{
    if cards.len() == 0 {
        Seq::empty()
    } else {
        all_targets(cards.drop_last()) + card_targets(cards.last().node, cards.last().surfaces)
    }
}

/// Cards by their values.
pub open spec fn card_views(cards: Seq<Card>) -> Seq<CardView> {
    cards.map_values(|c: Card| c@)
}

/// Cards with one more surface on one of them. A surface on the same pipe is
/// replaced.
pub open spec fn with_surface(cards: Seq<CardView>, node: u64, s: Surface) -> Seq<CardView> {
    cards.map_values(
        |c: CardView|
            if c.node == node {
                CardView {
                    surfaces: c.surfaces.filter(|t: Surface| t.crtc != s.crtc).push(s),
                    ..c
                }
            } else {
                c
            },
    )
}

/// Cards without the surface on a pipe of one of them.
pub open spec fn without_surface(cards: Seq<CardView>, node: u64, crtc: u32) -> Seq<CardView> {
    cards.map_values(
        |c: CardView|
            if c.node == node {
                CardView { surfaces: c.surfaces.filter(|t: Surface| t.crtc != crtc), ..c }
            } else {
                c
            },
    )
}

impl UdevData {
    /// Whether no card is listed twice, and no pipe drives two outputs.
    pub open spec fn wf(self) -> bool {
        &&& forall|i: int, j: int|
            0 <= i < j < self.cards@.len() ==> (#[trigger] self.cards@[i]).node != (
            #[trigger] self.cards@[j]).node
        &&& forall|i: int|
            0 <= i < self.cards@.len() ==> one_per_pipe((#[trigger] self.cards@[i]).surfaces@)
    }

    /// Whether the entry at `i` is that of a card.
    pub open spec fn at(self, node: u64, i: int) -> bool {
        0 <= i < self.cards@.len() && self.cards@[i].node == node
    }

    /// The cards are not known yet.
    pub fn new(primary_gpu: u64, vt_active: bool) -> (r: Self)
        ensures
            r.wf(),
            r.primary_gpu == primary_gpu,
            r.vt_active == vt_active,
            r.cards@.len() == 0,
            r.input_devices@.len() == 0,
            !r.dmabuf_advertised,
            !r.syncobj_advertised,
    {
        UdevData {
            vt_active,
            primary_gpu,
            cards: Vec::new(),
            input_devices: Vec::new(),
            dmabuf_advertised: false,
            syncobj_advertised: false,
        }
    }

    fn find(&self, node: u64) -> (r: Option<usize>)
        ensures
            match r {
                Some(i) => self.at(node, i as int),
                None => forall|i: int| !self.at(node, i),
            },
    {
        let mut i: usize = 0;
        while i < self.cards.len()
            invariant
                i <= self.cards@.len(),
                forall|j: int| 0 <= j < i ==> (#[trigger] self.cards@[j]).node != node,
            decreases self.cards@.len() - i,
        {
            if self.cards[i].node == node {
                return Some(i);
            }
            i += 1;
        }
        None
    }

    /// An input device has come. Its settings are applied, and again when they
    /// change.
    pub fn device_plugged(&mut self, device: u64)
        ensures
            final(self).input_devices@ == old(self).input_devices@.push(device),
            *final(self) == (UdevData {
                input_devices: final(self).input_devices,
                ..*old(self)
            }),
    {
        self.input_devices.push(device);
    }

    /// An input device is gone.
    pub fn device_unplugged(&mut self, device: u64)
        ensures
            final(self).input_devices@ == old(self).input_devices@.filter(|d: u64| d != device),
            *final(self) == (UdevData {
                input_devices: final(self).input_devices,
                ..*old(self)
            }),
    {
        let keep = |d: &u64| -> (b: bool)
            ensures
                b == (*d != device),
            { *d != device };
        retain(&mut self.input_devices, keep, Ghost(|d: u64| d != device));
    }

    /// The user has switched to another terminal, `away`. The result tells
    /// whether to watch for the way back: it cannot be seen where the terminal is
    /// not known.
    pub fn pause_session(&mut self, away: &str) -> (r: bool)
        ensures
            *final(self) == (UdevData { vt_active: false, ..*old(self) }),
            r == (away@.len() > 0),
    {
        self.vt_active = false;
        !away.is_empty()
    }

    /// What to do when the active terminal is `current`, after a switch to
    /// `away`: the session takes over as soon as the user leaves that.
    pub fn watchdog(&self, current: &str, away: &str) -> (r: WatchdogStep)
        ensures
            r == (if self.vt_active {
                WatchdogStep::Drop
            } else if current@ == away@ || current@.len() == 0 {
                WatchdogStep::Wait
            } else {
                WatchdogStep::Activate
            }),
    {
        if self.vt_active {
            return WatchdogStep::Drop;
        }
        if str_eq(current, away) || current.is_empty() {
            return WatchdogStep::Wait;
        }
        WatchdogStep::Activate
    }

    /// Whether the session is to be activated when it is told so: not where the
    /// watchdog was first.
    pub fn activates(&self) -> (r: bool)
        ensures
            r == !self.vt_active,
    {
        !self.vt_active
    }

    /// The session is active again: everything is painted anew. The result lists
    /// the outputs.
    pub fn do_activate_session(&mut self) -> (r: Vec<RenderTarget>)
        ensures
            *final(self) == (UdevData { vt_active: true, ..*old(self) }),
            r@ == all_targets(card_views(old(self).cards@)),
    {
        self.vt_active = true;
        let ghost views = card_views(self.cards@);
        let mut r: Vec<RenderTarget> = Vec::new();
        let mut i: usize = 0;
        while i < self.cards.len()
            invariant
                i <= self.cards@.len(),
                *self == (UdevData { vt_active: true, ..*old(self) }),
                views == card_views(self.cards@),
                r@ == all_targets(views.take(i as int)),
            decreases self.cards@.len() - i,
        {
            let ghost done = r@;
            let mut k: usize = 0;
            let node = self.cards[i].node;
            let ghost ss = self.cards@[i as int].surfaces@;
            assert(r@ =~= done + card_targets(node, ss.take(0)));
            while k < self.cards[i].surfaces.len()
                invariant
                    i < self.cards@.len(),
                    *self == (UdevData { vt_active: true, ..*old(self) }),
                    views == card_views(self.cards@),
                    ss == self.cards@[i as int].surfaces@,
                    node == self.cards@[i as int].node,
                    k <= ss.len(),
                    r@ == done + card_targets(node, ss.take(k as int)),
                decreases ss.len() - k,
            {
                r.push(RenderTarget { node, crtc: self.cards[i].surfaces[k].crtc });
                k += 1;
                assert(r@ =~= done + card_targets(node, ss.take(k as int)));
            }
            assert(ss.take(k as int) =~= ss);
            assert(views.take(i + 1).drop_last() =~= views.take(i as int));
            assert(views.take(i + 1).last() == views[i as int]);
            i += 1;
        }
        assert(views.take(i as int) =~= views);
        r
    }

    /// A card has come. One that only the processor paints is refused. The first
    /// card brings the promise to clients that they may hand over its buffers,
    /// and the first that can the one that they may hand over points in time.
    pub fn device_added(&mut self, node: u64, probe: Result<CardProbe, DeviceAddError>) -> (r:
        Result<CardAdded, DeviceAddError>)
        requires
            old(self).wf(),
        ensures
            final(self).wf(),
            card_came(*old(self), node, probe, *final(self), r),
    {
        let p = match probe {
            Ok(p) => p,
            Err(e) => return Err(e),
        };
        if p.software {
            return Err(DeviceAddError::NoRenderNode);
        }
        let render_node = match p.render_node {
            Some(n) => n,
            None => node,
        };
        let added = CardAdded {
            advertise_dmabuf: !self.dmabuf_advertised,
            advertise_syncobj: !self.syncobj_advertised && p.syncobj,
        };
        let ghost before = self.cards@;
        self.drop_card(node);
        let ghost kept = self.cards@;
        self.cards.push(Card { node, render_node, surfaces: Vec::new() });
        self.dmabuf_advertised = true;
        if p.syncobj {
            self.syncobj_advertised = true;
        }
        proof {
            assert(card_views(self.cards@) =~= card_views(kept).push(
                CardView { node, render_node, surfaces: Seq::empty() },
            ));
            assert forall|i: int, j: int| 0 <= i < j < self.cards@.len() implies (
            #[trigger] self.cards@[i]).node != (#[trigger] self.cards@[j]).node by {
                if j < kept.len() {
                    assert(kept[i].node != kept[j].node);
                } else {
                    assert(kept[i].node != node);
                }
            }
            assert forall|i: int| 0 <= i < self.cards@.len() implies one_per_pipe(
                (#[trigger] self.cards@[i]).surfaces@,
            ) by {
                if i < kept.len() {
                    assert(one_per_pipe(kept[i].surfaces@));
                }
            }
        }
        Ok(added)
    }

    /// Takes a card off the list.
    fn drop_card(&mut self, node: u64) -> (r: Option<u64>)
        requires
            old(self).wf(),
        ensures
            final(self).wf(),
            *final(self) == (UdevData { cards: final(self).cards, ..*old(self) }),
            card_views(final(self).cards@) == card_views(old(self).cards@).filter(
                |c: CardView| c.node != node,
            ),
            forall|i: int|
                0 <= i < final(self).cards@.len() ==> (#[trigger] final(self).cards@[i]).node
                    != node,
            match r {
                Some(n) => exists|i: int| #[trigger]
                    old(self).at(node, i) && old(self).cards@[i].render_node == n,
                None => forall|i: int| !old(self).at(node, i),
            },
    {
        let ghost before = self.cards@;
        let ghost other = |c: CardView| c.node != node;
        match self.find(node) {
            Some(i) => {
                assert(old(self).at(node, i as int));
                let c = self.cards.remove(i);
                proof {
                    let after = self.cards@;
                    assert forall|a: int, b: int| 0 <= a < b < after.len() implies (
                    #[trigger] after[a]).node != (#[trigger] after[b]).node by {
                        let oa = if a < i {
                            a
                        } else {
                            a + 1
                        };
                        let ob = if b < i {
                            b
                        } else {
                            b + 1
                        };
                        assert(before[oa].node != before[ob].node);
                    }
                    assert forall|a: int| 0 <= a < after.len() implies (
                    #[trigger] after[a]).node != node && one_per_pipe(after[a].surfaces@) by {
                        let oa = if a < i {
                            a
                        } else {
                            a + 1
                        };
                        assert(one_per_pipe(before[oa].surfaces@));
                        if oa < i {
                            assert(before[oa].node != before[i as int].node);
                        } else {
                            assert(before[i as int].node != before[oa].node);
                        }
                    }
                    crate::seqs::lemma_filter_remove(card_views(before), other, i as int);
                    assert(card_views(after) =~= card_views(before).remove(i as int));
                }
                Some(c.render_node)
            },
            None => {
                proof {
                    assert forall|a: int| 0 <= a < before.len() implies (
                    #[trigger] before[a]).node != node by {
                        assert(!self.at(node, a));
                    }
                    assert forall|a: int| 0 <= a < card_views(before).len() implies other(
                        #[trigger] card_views(before)[a],
                    ) by {
                        assert(!self.at(node, a));
                    }
                    crate::seqs::lemma_filter_all(card_views(before), other);
                }
                None
            },
        }
    }

    /// A card is gone, once its outputs are. The result is the render node that
    /// is not painted with any more.
    pub fn device_removed(&mut self, node: u64) -> (r: Option<u64>)
        requires
            old(self).wf(),
        ensures
            final(self).wf(),
            *final(self) == (UdevData { cards: final(self).cards, ..*old(self) }),
            card_views(final(self).cards@) == card_views(old(self).cards@).filter(
                |c: CardView| c.node != node,
            ),
            match r {
                Some(n) => exists|i: int| #[trigger]
                    old(self).at(node, i) && old(self).cards@[i].render_node == n,
                None => forall|i: int| !old(self).at(node, i),
            },
    {
        self.drop_card(node)
    }

    /// What paints the outputs of a card: its render node.
    pub fn painter_of(&self, node: u64) -> (r: Option<u64>)
        ensures
            match r {
                Some(n) => exists|i: int| #[trigger]
                    self.at(node, i) && n == self.cards@[i].render_node,
                None => forall|i: int| !self.at(node, i),
            },
    {
        match self.find(node) {
            Some(i) => {
                assert(self.at(node, i as int));
                Some(self.cards[i].render_node)
            },
            None => None,
        }
    }

    /// An output was set up on a card's pipe.
    pub fn surface_ready(&mut self, node: u64, surface: Surface)
        requires
            old(self).wf(),
        ensures
            final(self).wf(),
            *final(self) == (UdevData { cards: final(self).cards, ..*old(self) }),
            card_views(final(self).cards@) == with_surface(
                card_views(old(self).cards@),
                node,
                surface,
            ),
    {
        let ghost before = self.cards@;
        let found = self.find(node);
        match found {
            Some(i) => {
                let c = &mut self.cards[i];
                let crtc = surface.crtc;
                let keep = |s: &Surface| -> (b: bool)
                    ensures
                        b == (s.crtc != crtc),
                    { s.crtc != crtc };
                retain(&mut c.surfaces, keep, Ghost(|s: Surface| s.crtc != surface.crtc));
                c.surfaces.push(surface);
                proof {
                    let after = self.cards@;
                    let old_ss = before[i as int].surfaces@;
                    let p = |s: Surface| s.crtc != surface.crtc;
                    lemma_filter_pipes(old_ss, p);
                    assert forall|a: int| 0 <= a < old_ss.filter(p).len() implies (
                    #[trigger] old_ss.filter(p)[a]).crtc != surface.crtc by {
                        old_ss.lemma_filter_pred(p, a);
                    }
                    lemma_cards_update(before, after, i as int);
                    assert(card_views(after) =~= with_surface(card_views(before), node, surface));
                }
            },
            None => {
                assert(card_views(self.cards@) =~= with_surface(
                    card_views(before),
                    node,
                    surface,
                )) by {
                    assert forall|a: int| 0 <= a < before.len() implies (
                    #[trigger] before[a]).node != node by {
                        assert(!self.at(node, a));
                    }
                }
            },
        }
    }

    /// An output is unplugged or switched off. The result is its surface; none
    /// where there is none on that pipe.
    pub fn connector_disconnected(&mut self, node: u64, crtc: u32) -> (r: Option<Surface>)
        requires
            old(self).wf(),
        ensures
            final(self).wf(),
            *final(self) == (UdevData { cards: final(self).cards, ..*old(self) }),
            card_views(final(self).cards@) == without_surface(
                card_views(old(self).cards@),
                node,
                crtc,
            ),
            match r {
                Some(s) => exists|i: int, k: int| #[trigger] old(self).drives(node, crtc, i, k)
                    && s == old(self).cards@[i].surfaces@[k],
                None => forall|i: int, k: int| !old(self).drives(node, crtc, i, k),
            },
    {
        let ghost before = self.cards@;
        match self.find(node) {
            Some(i) => {
                let mut found: Option<Surface> = None;
                let mut k: usize = 0;
                let ghost ss = self.cards@[i as int].surfaces@;
                while k < self.cards[i].surfaces.len()
                    invariant
                        i < self.cards@.len(),
                        *self == *old(self),
                        self.at(node, i as int),
                        ss == self.cards@[i as int].surfaces@,
                        k <= ss.len(),
                        match found {
                            Some(s) => exists|j: int| #[trigger]
                                old(self).drives(node, crtc, i as int, j) && s == ss[j],
                            None => forall|j: int|
                                0 <= j < k ==> (#[trigger] ss[j]).crtc != crtc,
                        },
                    decreases ss.len() - k,
                {
                    if self.cards[i].surfaces[k].crtc == crtc {
                        assert(old(self).drives(node, crtc, i as int, k as int));
                        found = Some(self.cards[i].surfaces[k]);
                    }
                    k += 1;
                }
                proof {
                    if found is None {
                        assert forall|a: int, b: int| !old(self).drives(node, crtc, a, b) by {
                            if old(self).drives(node, crtc, a, b) {
                                if a < i {
                                    assert(before[a].node != before[i as int].node);
                                }
                                if (i as int) < a {
                                    assert(before[i as int].node != before[a].node);
                                }
                                assert(ss[b].crtc != crtc);
                            }
                        }
                    }
                }
                let c = &mut self.cards[i];
                let keep = |s: &Surface| -> (b: bool)
                    ensures
                        b == (s.crtc != crtc),
                    { s.crtc != crtc };
                retain(&mut c.surfaces, keep, Ghost(|s: Surface| s.crtc != crtc));
                proof {
                    let after = self.cards@;
                    lemma_filter_pipes(ss, |s: Surface| s.crtc != crtc);
                    lemma_cards_update(before, after, i as int);
                    assert(card_views(after) =~= without_surface(card_views(before), node, crtc));
                }
                found
            },
            None => {
                assert(card_views(self.cards@) =~= without_surface(
                    card_views(before),
                    node,
                    crtc,
                )) by {
                    assert forall|a: int| 0 <= a < before.len() implies (
                    #[trigger] before[a]).node != node by {
                        assert(!self.at(node, a));
                    }
                }
                assert forall|a: int, b: int| !old(self).drives(node, crtc, a, b) by {
                    assert(!self.at(node, a));
                }
                None
            },
        }
    }

    /// Whether the surface at `k` of the card at `i` is the one on a pipe.
    pub open spec fn drives(self, node: u64, crtc: u32, i: int, k: int) -> bool {
        &&& self.at(node, i)
        &&& 0 <= k < self.cards@[i].surfaces@.len()
        &&& self.cards@[i].surfaces@[k].crtc == crtc
    }

    /// The place of the surface on a pipe.
    fn find_surface(&self, node: u64, crtc: u32) -> (r: Option<(usize, usize)>)
        requires
            self.wf(),
        ensures
            match r {
                Some((i, k)) => self.drives(node, crtc, i as int, k as int),
                None => forall|i: int, k: int| !self.drives(node, crtc, i, k),
            },
    {
        let i = match self.find(node) {
            Some(i) => i,
            None => {
                assert forall|a: int, b: int| !self.drives(node, crtc, a, b) by {
                    assert(!self.at(node, a));
                }
                return None;
            },
        };
        let mut k: usize = 0;
        while k < self.cards[i].surfaces.len()
            invariant
                self.at(node, i as int),
                k <= self.cards@[i as int].surfaces@.len(),
                forall|j: int|
                    0 <= j < k ==> (#[trigger] self.cards@[i as int].surfaces@[j]).crtc != crtc,
            decreases self.cards@[i as int].surfaces@.len() - k,
        {
            if self.cards[i].surfaces[k].crtc == crtc {
                return Some((i, k));
            }
            k += 1;
        }
        assert forall|a: int, b: int| !self.drives(node, crtc, a, b) by {
            if self.drives(node, crtc, a, b) {
                if a < i {
                    assert(self.cards@[a].node != self.cards@[i as int].node);
                }
                if (i as int) < a {
                    assert(self.cards@[i as int].node != self.cards@[a].node);
                }
                assert(self.cards@[i as int].surfaces@[b].crtc != crtc);
            }
        }
        None
    }

    /// The output on a pipe and what paints it. None where there is no surface on
    /// that pipe any more.
    pub fn job_on(&self, node: u64, crtc: u32) -> (r: Option<RenderJob>)
        requires
            self.wf(),
        ensures
            match r {
                Some(j) => exists|i: int, k: int| #[trigger]
                    self.drives(node, crtc, i, k) && j == (RenderJob {
                        surface: self.cards@[i].surfaces@[k],
                        painter: self.cards@[i].render_node,
                    }),
                None => forall|i: int, k: int| !self.drives(node, crtc, i, k),
            },
    {
        match self.find_surface(node, crtc) {
            Some((i, k)) => {
                assert(self.drives(node, crtc, i as int, k as int));
                Some(
                    RenderJob {
                        surface: self.cards[i].surfaces[k],
                        painter: self.cards[i].render_node,
                    },
                )
            },
            None => None,
        }
    }

    /// A client asks for another mode of an output. The result says what to
    /// switch and to which mode; none where the output is not driven by a card,
    /// or has no mode of that size and rate.
    pub fn change_output_mode(
        &self,
        id: Option<(u64, u32)>,
        connectors: &Vec<Option<Vec<ConnectorMode>>>,
        size: Size,
        refresh: i32,
    ) -> (r: Option<ModeChange>)
        requires
            self.wf(),
        ensures
            match r {
                Some(c) => {
                    &&& id == Some((c.node, c.crtc))
                    &&& exists|i: int, k: int| #[trigger]
                        self.drives(c.node, c.crtc, i, k) && c.painter
                            == self.cards@[i].render_node
                    &&& first_mode(connectors@, size, refresh, c.connector as int, c.mode as int)
                },
                None => match id {
                    Some((node, crtc)) => {
                        ||| forall|i: int, k: int| !self.drives(node, crtc, i, k)
                        ||| forall|d: int, n: int| !is_mode(connectors@, size, refresh, d, n)
                    },
                    None => true,
                },
            },
    {
        let (node, crtc) = match id {
            Some(id) => id,
            None => return None,
        };
        let job = match self.job_on(node, crtc) {
            Some(job) => job,
            None => return None,
        };
        match find_mode(connectors, size, refresh) {
            Some((connector, mode)) => Some(
                ModeChange { node, crtc, painter: job.painter, connector, mode },
            ),
            None => None,
        }
    }

    /// A frame was shown, at the given time by the hardware's clock. A time of
    /// zero counts as none. The result is none where there is no surface on that
    /// pipe any more.
    pub fn frame_finish(
        &self,
        node: u64,
        crtc: u32,
        hardware_time: Option<u64>,
        sequence: Option<u32>,
        refresh: Option<i32>,
    ) -> (r: Option<FrameShown>)
        requires
            self.wf(),
            self.vt_active ==> refresh != Some(0i32),
        ensures
            r is None <==> forall|i: int, k: int| !self.drives(node, crtc, i, k),
            r matches Some(shown) ==> {
                &&& shown.hardware_time == (if hardware_time == Some(0u64) {
                    None
                } else {
                    hardware_time
                })
                &&& shown.sequence == (match sequence {
                    Some(s) => s as u64,
                    None => 0,
                })
                &&& match shown.next_us {
                    Some(us) => self.vt_active && us as int == frame_time(rate(refresh)),
                    None => !self.vt_active,
                }
            },
    {
        match self.find_surface(node, crtc) {
            Some((i, k)) => {
                assert(self.drives(node, crtc, i as int, k as int));
            },
            None => return None,
        }
        let time = match hardware_time {
            Some(t) => if t == 0 {
                None
            } else {
                Some(t)
            },
            None => None,
        };
        let sequence = match sequence {
            Some(s) => s as u64,
            None => 0,
        };
        let next_us = if self.vt_active {
            Some(frame_us(refresh_or_default(refresh)))
        } else {
            None
        };
        Some(FrameShown { hardware_time: time, sequence, next_us })
    }

    /// What follows painting an output. While the session is paused, painting is
    /// not tried again: it is when the session is activated.
    pub fn after_render(&self, outcome: RenderOutcome, refresh: Option<i32>) -> (r: AfterRender)
        requires
            self.vt_active && outcome is Unchanged ==> refresh != Some(0i32),
        ensures
            r.reset_card == (outcome == RenderOutcome::Failed { test_failed: true }),
            r.tell_clients == (outcome is Unchanged || outcome is Painted),
            r.counts == (outcome is Painted),
            match r.again_us {
                Some(us) => self.vt_active && !(outcome == RenderOutcome::Painted { queued: true })
                    && us as int == (if outcome is Unchanged {
                    frame_time(rate(refresh))
                } else {
                    RETRY_US as int
                }),
                None => !self.vt_active || outcome == (RenderOutcome::Painted { queued: true }),
            },
    {
        let again = match outcome {
            RenderOutcome::NoRenderer => Some(RETRY_US),
            RenderOutcome::Failed { .. } => Some(RETRY_US),
            RenderOutcome::Unchanged => if self.vt_active {
                Some(frame_us(refresh_or_default(refresh)))
            } else {
                None
            },
            RenderOutcome::Painted { queued } => if queued {
                None
            } else {
                Some(RETRY_US)
            },
        };
        let reset_card = match outcome {
            RenderOutcome::Failed { test_failed } => test_failed,
            _ => false,
        };
        let counts = match outcome {
            RenderOutcome::Painted { .. } => true,
            _ => false,
        };
        let unchanged = match outcome {
            RenderOutcome::Unchanged => true,
            _ => false,
        };
        AfterRender {
            reset_card,
            tell_clients: counts || unchanged,
            counts,
            again_us: if self.vt_active {
                again
            } else {
                None
            },
        }
    }

    /// The card, the pipe and the length of an output's gamma table, where it can
    /// be set: the output is driven by a card that is there, and the table is not
    /// empty.
    pub fn gamma_target_for_output(&self, id: Option<(u64, u32)>, length: Option<u32>) -> (r: Option<
        (u64, u32, u32),
    >)
        ensures
            match r {
                Some((node, crtc, n)) => {
                    &&& id == Some((node, crtc))
                    &&& length == Some(n)
                    &&& n != 0
                    &&& exists|i: int| self.at(node, i)
                },
                None => {
                    ||| id is None
                    ||| length is None
                    ||| length == Some(0u32)
                    ||| forall|i: int| !self.at((id->0).0, i)
                },
            },
    {
        let (node, crtc) = match id {
            Some(id) => id,
            None => return None,
        };
        let known = match self.find(node) {
            Some(i) => {
                assert(self.at(node, i as int));
                true
            },
            None => false,
        };
        assert(known <==> exists|i: int| self.at(node, i));
        assert(id == Some((node, crtc)));
        match length {
            Some(n) => if known && n != 0 {
                Some((node, crtc, n))
            } else {
                None
            },
            None => None,
        }
    }

    /// A client switches an output off. Whether it was on; an output of another
    /// backend never is.
    pub fn disable_output(&mut self, id: Option<(u64, u32)>) -> (r: Option<Surface>)
        requires
            old(self).wf(),
        ensures
            final(self).wf(),
            match id {
                Some((node, crtc)) => {
                    &&& card_views(final(self).cards@) == without_surface(
                        card_views(old(self).cards@),
                        node,
                        crtc,
                    )
                    &&& match r {
                        Some(s) => exists|i: int, k: int| #[trigger]
                            old(self).drives(node, crtc, i, k) && s
                                == old(self).cards@[i].surfaces@[k],
                        None => forall|i: int, k: int| !old(self).drives(node, crtc, i, k),
                    }
                },
                None => r is None && *final(self) == *old(self),
            },
            *final(self) == (UdevData { cards: final(self).cards, ..*old(self) }),
    {
        match id {
            Some((node, crtc)) => self.connector_disconnected(node, crtc),
            None => None,
        }
    }
}

/// What comes of a card that was found: nothing where it could not be opened or
/// only the processor paints it.
pub open spec fn card_came(
    before: UdevData,
    node: u64,
    probe: Result<CardProbe, DeviceAddError>,
    after: UdevData,
    r: Result<CardAdded, DeviceAddError>,
) -> bool {
    match probe {
        Err(e) => r == Err::<CardAdded, DeviceAddError>(e) && after == before,
        Ok(p) => if p.software {
            r == Err::<CardAdded, DeviceAddError>(DeviceAddError::NoRenderNode) && after == before
        } else {
            &&& r == Ok::<CardAdded, DeviceAddError>(
                CardAdded {
                    advertise_dmabuf: !before.dmabuf_advertised,
                    advertise_syncobj: !before.syncobj_advertised && p.syncobj,
                },
            )
            &&& card_views(after.cards@) == card_views(before.cards@).filter(
                |c: CardView| c.node != node,
            ).push(
                CardView {
                    node,
                    render_node: match p.render_node {
                        Some(n) => n,
                        None => node,
                    },
                    surfaces: Seq::empty(),
                },
            )
            &&& after == (UdevData {
                cards: after.cards,
                dmabuf_advertised: true,
                syncobj_advertised: before.syncobj_advertised || p.syncobj,
                ..before
            })
        },
    }
}

/// A card that was found: its node, what was found out of it, and what came of
/// it.
pub struct CardTry {
    pub node: u64,
    pub probe: Result<CardProbe, DeviceAddError>,
    pub outcome: Result<CardAdded, DeviceAddError>,
}

/// Whether a state follows from one before: a card was found, or something else
/// has happened, which makes and breaks no promise to clients.
pub open spec fn card_step(before: UdevData, t: Option<CardTry>, after: UdevData) -> bool {
    match t {
        Some(t) => card_came(before, t.node, t.probe, after, t.outcome),
        None => {
            &&& after.dmabuf_advertised == before.dmabuf_advertised
            &&& after.syncobj_advertised == before.syncobj_advertised
        },
    }
}

/// Whether finding a card brings the promise that its buffers may be handed over.
pub open spec fn promises_buffers(t: Option<CardTry>) -> bool {
    t matches Some(c) && c.outcome matches Ok(a) && a.advertise_dmabuf
}

/// Whether finding a card brings the promise that points in time may be handed
/// over.
pub open spec fn promises_points(t: Option<CardTry>) -> bool {
    t matches Some(c) && c.outcome matches Ok(a) && a.advertise_syncobj
}

/// However many cards come and go, each promise to clients is made at most once.
pub proof fn law_promised_once(
    states: Seq<UdevData>,
    tries: Seq<Option<CardTry>>,
    i: int,
    j: int,
)
    requires
        states.len() == tries.len() + 1,
        forall|k: int|
            0 <= k < tries.len() ==> card_step(states[k], #[trigger] tries[k], states[k + 1]),
        0 <= i < j < tries.len(),
    ensures
        !(promises_buffers(tries[i]) && promises_buffers(tries[j])),
        !(promises_points(tries[i]) && promises_points(tries[j])),
{
    assert(card_step(states[i], tries[i], states[i + 1]));
    assert(card_step(states[j], tries[j], states[j + 1]));
    lemma_promises_kept(states, tries, i + 1, j);
}

proof fn lemma_promises_kept(states: Seq<UdevData>, tries: Seq<Option<CardTry>>, a: int, b: int)
    requires
        states.len() == tries.len() + 1,
        forall|k: int|
            0 <= k < tries.len() ==> card_step(states[k], #[trigger] tries[k], states[k + 1]),
        0 <= a <= b <= tries.len(),
    ensures
        states[a].dmabuf_advertised ==> states[b].dmabuf_advertised,
        states[a].syncobj_advertised ==> states[b].syncobj_advertised,
    decreases b - a,
{
    if a < b {
        lemma_promises_kept(states, tries, a, b - 1);
        assert(card_step(states[b - 1], tries[b - 1], states[b]));
    }
}

/// Whether no two surfaces are on one pipe.
pub open spec fn one_per_pipe(ss: Seq<Surface>) -> bool {
    forall|i: int, j: int|
        0 <= i < j < ss.len() ==> (#[trigger] ss[i]).crtc != (#[trigger] ss[j]).crtc
}

proof fn lemma_cards_update(before: Seq<Card>, after: Seq<Card>, i: int)
    requires
        0 <= i < before.len(),
        after.len() == before.len(),
        after[i].node == before[i].node,
        forall|k: int| 0 <= k < before.len() && k != i ==> #[trigger] after[k] == before[k],
        one_per_pipe(after[i].surfaces@),
        forall|a: int, b: int|
            0 <= a < b < before.len() ==> (#[trigger] before[a]).node != (
            #[trigger] before[b]).node,
        forall|a: int|
            0 <= a < before.len() ==> one_per_pipe((#[trigger] before[a]).surfaces@),
    ensures
        forall|a: int, b: int|
            0 <= a < b < after.len() ==> (#[trigger] after[a]).node != (#[trigger] after[b]).node,
        forall|a: int| 0 <= a < after.len() ==> one_per_pipe((#[trigger] after[a]).surfaces@),
        forall|a: int|
            0 <= a < before.len() && a != i ==> (#[trigger] before[a]).node != before[i].node,
{
    assert forall|a: int, b: int| 0 <= a < b < after.len() implies (#[trigger] after[a]).node != (
    #[trigger] after[b]).node by {
        assert(before[a].node != before[b].node);
    }
    assert forall|a: int| 0 <= a < after.len() implies one_per_pipe(
        (#[trigger] after[a]).surfaces@,
    ) by {
        assert(one_per_pipe(before[a].surfaces@));
    }
    assert forall|a: int| 0 <= a < before.len() && a != i implies (#[trigger] before[a]).node
        != before[i].node by {
        if a < i {
            assert(before[a].node != before[i].node);
        } else {
            assert(before[i].node != before[a].node);
        }
    }
}

proof fn lemma_filter_pipes(ss: Seq<Surface>, p: spec_fn(Surface) -> bool)
    requires
        one_per_pipe(ss),
    ensures
        one_per_pipe(ss.filter(p)),
        forall|a: int|
            0 <= a < ss.filter(p).len() ==> ss.contains(#[trigger] ss.filter(p)[a]),
    decreases ss.len(),
{
    reveal(Seq::filter);
    if ss.len() > 0 {
        let t = ss.drop_last();
        let l = ss.last();
        assert forall|a: int, b: int| 0 <= a < b < t.len() implies (#[trigger] t[a]).crtc != (
        #[trigger] t[b]).crtc by {
            assert(ss[a].crtc != ss[b].crtc);
        }
        lemma_filter_pipes(t, p);
        let f = t.filter(p);
        let g = ss.filter(p);
        assert forall|a: int| 0 <= a < f.len() implies (#[trigger] f[a]).crtc != l.crtc
            && ss.contains(f[a]) by {
            assert(t.contains(f[a]));
            let k = choose|k: int| 0 <= k < t.len() && t[k] == f[a];
            assert(ss[k] == f[a]);
            assert(ss[k].crtc != ss[ss.len() - 1].crtc);
        }
        if p(l) {
            assert(g == f.push(l));
            assert(ss[ss.len() - 1] == l);
        } else {
            assert(g == f);
        }
    }
}

/// A mode of a connector. The rate is in thousandths of a hertz.
#[derive(Clone, Copy, Debug, PartialEq, Eq, Structural)]
pub struct ConnectorMode {
    pub size: Size,
    pub refresh: i32,
    pub preferred: bool,
}

/// What was found of a connector that was plugged in.
#[derive(Debug)]
pub struct Connector {
    pub interface: String,
    pub interface_id: u32,
    pub modes: Vec<ConnectorMode>,
    pub make: Option<String>,
    pub model: Option<String>,
    pub serial: Option<String>,
}

/// What is configured for an output. The scale is given by its bits.
#[derive(Clone, Copy, Debug, PartialEq, Eq, Structural)]
pub struct OutputConfig {
    pub position: Option<Point>,
    pub scale_bits: Option<u64>,
    pub transform: Option<OutputTransform>,
    pub adaptive_sync: Option<bool>,
}

/// How an output is set up.
#[derive(Debug)]
pub struct ConnectorPlan {
    pub name: String,
    pub make: String,
    pub model: String,
    pub serial: String,
    /// The place of the mode in the connector's list.
    pub mode: usize,
    pub position: Point,
    pub scale_bits: u64,
    pub transform: Option<Transform>,
    pub want_vrr: bool,
}

/// Whether the mode at `i` is the one to use: the first that is preferred, else
/// the first.
pub open spec fn mode_at(modes: Seq<ConnectorMode>, i: int) -> bool {
    ||| first_preferred(modes, i)
    ||| i == 0 && forall|k: int| 0 <= k < modes.len() ==> !(#[trigger] modes[k]).preferred
}

/// Whether the mode at `i` is the first that is preferred.
pub open spec fn first_preferred(modes: Seq<ConnectorMode>, i: int) -> bool {
    &&& 0 <= i < modes.len()
    &&& modes[i].preferred
    &&& forall|j: int| 0 <= j < i ==> !(#[trigger] modes[j]).preferred
}

/// How wide outputs are, side by side.
pub open spec fn total_width(outputs: Seq<crate::layout::OutputArea>) -> int
    decreases outputs.len(),
{
    if outputs.len() == 0 {
        0
    } else {
        total_width(outputs.drop_last()) + width_of(outputs.last())
    }
}

/// How wide an output is; without a place it is not.
pub open spec fn width_of(o: crate::layout::OutputArea) -> int {
    match o.geometry {
        Some(g) => g.size.w as int,
        None => 0,
    }
}

/// Whether the widths can be added up, one after the other.
pub open spec fn widths_fit(outputs: Seq<crate::layout::OutputArea>) -> bool {
    forall|n: int|
        0 <= n <= outputs.len() ==> i32::MIN <= #[trigger] total_width(outputs.take(n)) <= i32::MAX
}

fn sum_widths(space: &Space) -> (r: i32)
    requires
        widths_fit(space.outputs@),
    ensures
        r as int == total_width(space.outputs@),
{
    let mut x: i32 = 0;
    let mut i: usize = 0;
    let ghost all = space.outputs@;
    while i < space.outputs.len()
        invariant
            i <= all.len(),
            all == space.outputs@,
            widths_fit(all),
            x as int == total_width(all.take(i as int)),
        decreases all.len() - i,
    {
        assert(all.take(i + 1).drop_last() =~= all.take(i as int));
        assert(i32::MIN <= total_width(all.take(i + 1)) <= i32::MAX);
        let w = match space.outputs[i].geometry {
            Some(g) => g.size.w,
            None => 0,
        };
        x = x + w;
        i += 1;
    }
    assert(all.take(i as int) =~= all);
    x
}

fn or_unknown(s: Option<String>) -> (r: String)
    ensures
        r@ == (match s {
            Some(t) => t@,
            None => "Unknown"@,
        }),
{
    match s {
        Some(t) => t,
        None => "Unknown".to_string(),
    }
}

/// The mode to use: the first that is preferred, else the first.
pub fn choose_mode(modes: &Vec<ConnectorMode>) -> (r: usize)
    requires
        modes@.len() > 0,
    ensures
        mode_at(modes@, r as int),
        r < modes@.len(),
{
    let mut i: usize = 0;
    while i < modes.len()
        invariant
            i <= modes@.len(),
            modes@.len() > 0,
            forall|j: int| 0 <= j < i ==> !(#[trigger] modes@[j]).preferred,
        decreases modes@.len() - i,
    {
        if modes[i].preferred {
            return i;
        }
        i += 1;
    }
    0
}

/// The place that is configured for an output.
pub open spec fn configured_place(config: Option<OutputConfig>) -> Option<Point> {
    match config {
        Some(c) => c.position,
        None => None,
    }
}

/// The name of the output on a connector.
pub open spec fn connector_name(connector: Connector) -> Seq<char> {
    connector.interface@ + "-"@ + crate::text::decimal(connector.interface_id as nat)
}

/// What is configured for the output with a name: the first entry under it.
pub open spec fn config_of(outputs: Seq<(String, OutputConfig)>, name: Seq<char>) -> Option<
    OutputConfig,
>
    decreases outputs.len(),
{
    if outputs.len() == 0 {
        None
    } else if outputs[0].0@ == name {
        Some(outputs[0].1)
    } else {
        config_of(outputs.drop_first(), name)
    }
}

fn find_config(outputs: &Vec<(String, OutputConfig)>, name: &str) -> (r: Option<OutputConfig>)
    ensures
        r == config_of(outputs@, name@),
{
    let ghost all = outputs@;
    let mut i: usize = 0;
    assert(all.skip(0) =~= all);
    while i < outputs.len()
        invariant
            i <= all.len(),
            all == outputs@,
            config_of(all, name@) == config_of(all.skip(i as int), name@),
        decreases all.len() - i,
    {
        assert(all.skip(i as int)[0] == all[i as int]);
        assert(all.skip(i as int).drop_first() =~= all.skip(i + 1));
        if str_eq(outputs[i].0.as_str(), name) {
            return Some(outputs[i].1);
        }
        i += 1;
    }
    None
}

/// How an output is set up: its name is that of the connector, and what is
/// configured under that name counts. Without a configured place it lies right
/// of all the others, and without a configured scale it has the general one.
pub fn connector_connected(
    connector: Connector,
    outputs: &Vec<(String, OutputConfig)>,
    default_scale_bits: u64,
    space: &Space,
) -> (r: ConnectorPlan)
    requires
        connector.modes@.len() > 0,
        configured_place(config_of(outputs@, connector_name(connector))) is None ==> widths_fit(
            space.outputs@,
        ),
    ensures
        r.name@ == connector_name(connector),
        r.make@ == (match connector.make {
            Some(t) => t@,
            None => "Unknown"@,
        }),
        r.model@ == (match connector.model {
            Some(t) => t@,
            None => "Unknown"@,
        }),
        r.serial@ == (match connector.serial {
            Some(t) => t@,
            None => "Unknown"@,
        }),
        mode_at(connector.modes@, r.mode as int),
        r.mode < connector.modes@.len(),
        ({
            let config = config_of(outputs@, connector_name(connector));
            &&& r.position == (match configured_place(config) {
                Some(p) => p,
                None => Point { x: total_width(space.outputs@) as i32, y: 0 },
            })
            &&& r.scale_bits == (match config {
                Some(c) => match c.scale_bits {
                    Some(s) => s,
                    None => default_scale_bits,
                },
                None => default_scale_bits,
            })
            &&& r.transform == (match config {
                Some(c) => match c.transform {
                    Some(t) => Some(crate::backend::transform_of(t)),
                    None => None,
                },
                None => None,
            })
            &&& r.want_vrr == (config matches Some(c) && c.adaptive_sync == Some(true))
        }),
{
    let digits = decimal_string(connector.interface_id as u64);
    let name = concat3(connector.interface.as_str(), "-", digits.as_str());
    let mode = choose_mode(&connector.modes);
    let config = find_config(outputs, name.as_str());
    let place = match config {
        Some(c) => c.position,
        None => None,
    };
    let position = match place {
        Some(p) => p,
        None => Point { x: sum_widths(space), y: 0 },
    };
    let (scale_bits, transform, want_vrr) = match config {
        Some(c) => (
            match c.scale_bits {
                Some(s) => s,
                None => default_scale_bits,
            },
            match c.transform {
                Some(t) => Some(transform_from_config(t)),
                None => None,
            },
            match c.adaptive_sync {
                Some(b) => b,
                None => false,
            },
        ),
        None => (default_scale_bits, None, false),
    };
    ConnectorPlan {
        name,
        make: or_unknown(connector.make),
        model: or_unknown(connector.model),
        serial: or_unknown(connector.serial),
        mode,
        position,
        scale_bits,
        transform,
        want_vrr,
    }
}

/// Whether a connector's refresh rate can vary.
#[derive(Clone, Copy, Debug, PartialEq, Eq, Structural)]
pub enum VrrSupport {
    Supported,
    RequiresModeset,
    NotSupported,
    /// It could not be found out.
    Unknown,
}

/// Whether the refresh rate varies: it is wanted, the connector can do it, and
/// switching it on has worked.
pub fn resolve_vrr(want: bool, support: VrrSupport, switched_on: bool) -> (r: bool)
    ensures
        r == (want && (support == VrrSupport::Supported || support == VrrSupport::RequiresModeset)
            && switched_on),
{
    want && match support {
        VrrSupport::Supported => switched_on,
        VrrSupport::RequiresModeset => switched_on,
        _ => false,
    }
}

/// How an output on a card is painted.
#[derive(Clone, Copy, Debug, PartialEq, Eq, Structural)]
pub struct FramePlan {
    pub job: RenderJob,
    /// What is painted. The captures of the output that wait are taken of it
    /// before.
    pub scene: Scene,
    /// Whether the varying rate is switched on again, in case something has reset
    /// it.
    pub assert_vrr: bool,
}

impl ShoestringWm {
    /// An output on a card is to be painted: by what, with what on it, and how.
    /// Only the output that the pointer is on shows the cursor, and there are
    /// neither borders nor the panel. None where there is no surface on that pipe
    /// any more. [`UdevData::after_render`] follows.
    pub fn render_surface(
        &self,
        udev: &UdevData,
        node: u64,
        crtc: u32,
        has_cursor: bool,
        pointer: Point,
    ) -> (r: Option<FramePlan>)
        requires
            udev.wf(),
            self.lock_session is Some ==> self.lock_session->0.wf(),
        ensures
            match r {
                Some(p) => {
                    &&& exists|i: int, k: int| #[trigger]
                        udev.drives(node, crtc, i, k) && p.job == (RenderJob {
                            surface: udev.cards@[i].surfaces@[k],
                            painter: udev.cards@[i].render_node,
                        })
                    &&& self.composes(
                        p.job.surface.output,
                        has_cursor,
                        CursorScope::Within {
                            place: crate::backend::outputs::place_of(
                                self.desktop.space.outputs@,
                                p.job.surface.output,
                            ),
                            pointer,
                        },
                        false,
                        false,
                        p.scene,
                    )
                    &&& p.assert_vrr == p.job.surface.vrr
                },
                None => forall|i: int, k: int| !udev.drives(node, crtc, i, k),
            },
    {
        let job = match udev.job_on(node, crtc) {
            Some(j) => j,
            None => return None,
        };
        let output = job.surface.output;
        let scope = CursorScope::Within { place: self.output_geometry(output), pointer };
        let scene = self.compose_scene(output, has_cursor, scope, false, false);
        Some(FramePlan { job, scene, assert_vrr: job.surface.vrr })
    }
}

/// Who is told of an output on a connector that has come, and what each window's
/// handles are told.
#[derive(Debug)]
pub struct ConnectorUp {
    pub came: OutputCame,
    pub taskbars: Vec<SyncPlan>,
}

/// Who is told that an output on a connector is gone, and what each window's
/// handles are told.
#[derive(Debug)]
pub struct ConnectorDown {
    pub gone: OutputGone,
    pub taskbars: Vec<SyncPlan>,
}

/// Whether each window's handles are told of the outputs that show it, as the
/// desktop stands.
pub open spec fn taskbars_told(
    before: ShoestringWm,
    after: ShoestringWm,
    told: Seq<SyncPlan>,
) -> bool {
    let views = crate::foreign_toplevel_mgmt::handle_views(before.foreign_toplevel_mgmt.windows@);
    &&& told.len() == views.len()
    &&& forall|i: int|
        0 <= i < told.len() ==> crate::foreign_toplevel_mgmt::sync_told(
            after.desktop,
            views[i],
            #[trigger] told[i],
        )
    &&& crate::foreign_toplevel_mgmt::handle_views(after.foreign_toplevel_mgmt.windows@)
        == views.map_values(
        |v: crate::foreign_toplevel_mgmt::HandlesView|
            crate::foreign_toplevel_mgmt::synced(after.desktop.space, v),
    )
    &&& after.foreign_toplevel_mgmt.managers == before.foreign_toplevel_mgmt.managers
}

impl ShoestringWm {
    /// The output on a connector shows: it is announced, with the mode it has and
    /// whether its rate varies, and the taskbars hear which windows are on it.
    /// [`ShoestringWm::map_output`] and [`UdevData::surface_ready`] come before,
    /// and the output's first picture follows.
    pub fn connector_up(&mut self, plan: &ConnectorPlan, mode: Size, vrr: bool) -> (r: ConnectorUp)
        requires
            old(self).foreign_toplevel_mgmt.wf(),
        ensures
            final(self).foreign_toplevel_mgmt.wf(),
            *final(self) == (ShoestringWm {
                output_management: final(self).output_management,
                foreign_toplevel_mgmt: final(self).foreign_toplevel_mgmt,
                ..*old(self)
            }),
            final(self).output_management == (
            crate::handlers::output_management::OutputManagementState {
                serial: crate::backend::outputs::serial_after(old(self).output_management.serial),
                ..old(self).output_management
            }),
            r.came.event.name@ == plan.name@,
            r.came.event.width == mode.w,
            r.came.event.height == mode.h,
            r.came.event.scale_bits == plan.scale_bits,
            r.came.event.adaptive_sync == vrr,
            r.came.event.transform@ == crate::backend::name_of(
                match plan.transform {
                    Some(t) => t,
                    None => Transform::Normal,
                },
            ),
            r.came.subscribers@ == crate::backend::outputs::followers(*old(self)),
            r.came.managers@ == old(self).output_management.managers@,
            r.came.serial == final(self).output_management.serial,
            taskbars_told(*old(self), *final(self), r.taskbars@),
    {
        let transform = match plan.transform {
            Some(t) => t,
            None => Transform::Normal,
        };
        let came = self.announce_output(
            plan.name.clone(),
            (mode.w, mode.h),
            plan.scale_bits,
            vrr,
            transform,
        );
        let taskbars = self.broadcast_all();
        ConnectorUp { came, taskbars }
    }

    /// The output on a connector is unplugged or switched off: it has no place,
    /// and the clients that knew of it and the taskbars are told.
    /// [`UdevData::connector_disconnected`] or [`UdevData::disable_output`] comes
    /// before.
    pub fn connector_down(&mut self, output: u64, name: &str) -> (r: ConnectorDown)
        requires
            old(self).foreign_toplevel_mgmt.wf(),
        ensures
            final(self).foreign_toplevel_mgmt.wf(),
            final(self).desktop.space.outputs@ == old(self).desktop.space.outputs@.filter(
                crate::backend::outputs::other_area(output),
            ),
            final(self).desktop.outputs@ == old(self).desktop.outputs@.filter(
                crate::backend::outputs::other_name(name@),
            ),
            crate::backend::outputs::off_output(
                old(self).desktop.space.elements@,
                output,
                final(self).desktop.space.elements@,
            ),
            final(self).output_management.serial == crate::backend::outputs::serial_after(
                old(self).output_management.serial,
            ),
            crate::backend::outputs::only_outputs_differ(
                ShoestringWm {
                    foreign_toplevel_mgmt: final(self).foreign_toplevel_mgmt,
                    ..*old(self)
                },
                *final(self),
            ),
            r.gone.subscribers@ == crate::backend::outputs::followers(*old(self)),
            r.gone.managers@ == old(self).output_management.managers@,
            r.gone.serial == final(self).output_management.serial,
            taskbars_told(*old(self), *final(self), r.taskbars@),
    {
        let gone = self.output_gone(output, name);
        let taskbars = self.broadcast_all();
        ConnectorDown { gone, taskbars }
    }
}

/// A change of a connector, as a scan shows it.
#[derive(Clone, Copy, Debug, PartialEq, Eq, Structural)]
#[allow(inconsistent_fields)]
pub enum ScanEvent {
    Connected { connector: u64, crtc: Option<u32> },
    Disconnected { connector: u64, crtc: Option<u32> },
}

/// A change of a connector that has a pipe.
#[derive(Clone, Copy, Debug, PartialEq, Eq, Structural)]
pub struct ConnectorChange {
    pub connector: u64,
    pub crtc: u32,
    pub connected: bool,
}

/// The change that a scan's event stands for; none without a pipe.
pub open spec fn change_of(e: ScanEvent) -> Option<ConnectorChange> {
    match e {
        ScanEvent::Connected { connector, crtc: Some(crtc) } => Some(
            ConnectorChange { connector, crtc, connected: true },
        ),
        ScanEvent::Disconnected { connector, crtc: Some(crtc) } => Some(
            ConnectorChange { connector, crtc, connected: false },
        ),
        _ => None,
    }
}

/// The changes that a scan shows, in order. Connectors without a pipe are passed
/// over.
pub fn device_changed(events: &Vec<ScanEvent>) -> (r: Vec<ConnectorChange>)
    ensures
        r@ == crate::seqs::picked(events@, |e: ScanEvent| change_of(e)),
{
    let pick = |e: &ScanEvent| -> (c: Option<ConnectorChange>)
        ensures
            c == change_of(*e),
        {
            match *e {
                ScanEvent::Connected { connector, crtc: Some(crtc) } => Some(
                    ConnectorChange { connector, crtc, connected: true },
                ),
                ScanEvent::Disconnected { connector, crtc: Some(crtc) } => Some(
                    ConnectorChange { connector, crtc, connected: false },
                ),
                _ => None,
            }
        };
    crate::seqs::pick_map(events, pick, Ghost(|e: ScanEvent| change_of(e)))
}

/// Whether the mode at `m` of the connector at `c` is the one that is asked for.
pub open spec fn is_mode(
    connectors: Seq<Option<Vec<ConnectorMode>>>,
    size: Size,
    refresh: i32,
    c: int,
    m: int,
) -> bool {
    &&& 0 <= c < connectors.len()
    &&& connectors[c] matches Some(modes)
    &&& 0 <= m < modes@.len()
    &&& modes@[m].size == size
    &&& modes@[m].refresh == refresh
}

/// Whether a place comes before another in the lists.
pub open spec fn earlier(c: int, m: int, d: int, n: int) -> bool {
    c < d || (c == d && m < n)
}

/// Whether the mode at `m` of the connector at `c` is the first that is asked for.
pub open spec fn first_mode(
    connectors: Seq<Option<Vec<ConnectorMode>>>,
    size: Size,
    refresh: i32,
    c: int,
    m: int,
) -> bool {
    &&& is_mode(connectors, size, refresh, c, m)
    &&& forall|d: int, n: int| #[trigger]
        is_mode(connectors, size, refresh, d, n) ==> !earlier(d, n, c, m)
}

/// The mode with a size and a rate: the first in the lists of an output's
/// connectors. A list is absent where it could not be read.
pub fn find_mode(connectors: &Vec<Option<Vec<ConnectorMode>>>, size: Size, refresh: i32) -> (r:
    Option<(usize, usize)>)
    ensures
        match r {
            Some((c, m)) => first_mode(connectors@, size, refresh, c as int, m as int),
            None => forall|d: int, n: int| !is_mode(connectors@, size, refresh, d, n),
        },
{
    let mut c: usize = 0;
    while c < connectors.len()
        invariant
            c <= connectors@.len(),
            forall|d: int, n: int| d < c ==> !#[trigger] is_mode(connectors@, size, refresh, d, n),
        decreases connectors@.len() - c,
    {
        if let Some(modes) = &connectors[c] {
            let mut m: usize = 0;
            while m < modes.len()
                invariant
                    c < connectors@.len(),
                    connectors@[c as int] == Some(*modes),
                    m <= modes@.len(),
                    forall|d: int, n: int|
                        d < c ==> !#[trigger] is_mode(connectors@, size, refresh, d, n),
                    forall|n: int|
                        n < m ==> !#[trigger] is_mode(connectors@, size, refresh, c as int, n),
                decreases modes@.len() - m,
            {
                if modes[m].size == size && modes[m].refresh == refresh {
                    assert(is_mode(connectors@, size, refresh, c as int, m as int));
                    return Some((c, m));
                }
                m += 1;
            }
        }
        c += 1;
    }
    None
}

/// How long a frame shows, in microseconds, at a rate in thousandths of a hertz.
pub open spec fn frame_time(refresh: int) -> int {
    if refresh > 0 {
        1_000_000_000int / refresh
    } else {
        0
    }
}

/// The rate of an output, or the one to go by without a mode.
pub open spec fn rate(refresh: Option<i32>) -> int {
    match refresh {
        Some(x) => x as int,
        None => DEFAULT_REFRESH as int,
    }
}

fn frame_us(refresh: i32) -> (r: u64)
    requires
        refresh != 0,
    ensures
        r as int == frame_time(refresh as int),
{
    if refresh > 0 {
        1_000_000_000u64 / refresh as u64
    } else {
        0
    }
}

fn refresh_or_default(refresh: Option<i32>) -> (r: i32)
    ensures
        r as int == rate(refresh),
{
    match refresh {
        Some(x) => x,
        None => DEFAULT_REFRESH,
    }
}

/// What is said of a frame that was shown.
#[derive(Clone, Copy, Debug, PartialEq, Eq, Structural)]
pub struct FrameShown {
    /// When, by the hardware's clock in nanoseconds; else it is now.
    pub hardware_time: Option<u64>,
    pub sequence: u64,
    /// After how many microseconds to paint again; not while the session is
    /// paused.
    pub next_us: Option<u64>,
}

/// How painting an output has gone.
#[derive(Clone, Copy, Debug, PartialEq, Eq, Structural)]
pub enum RenderOutcome {
    NoRenderer,
    /// It has failed; whether since the card's state is not what was thought.
    Failed { test_failed: bool },
    /// Nothing had changed.
    Unchanged,
    /// A frame was painted; whether it could be handed to the card.
    Painted { queued: bool },
}

/// What follows painting an output.
#[derive(Clone, Copy, Debug, PartialEq, Eq, Structural)]
pub struct AfterRender {
    /// Whether the card is reset, so that the next frame sets everything anew.
    pub reset_card: bool,
    /// Whether clients are told to draw their next frame.
    pub tell_clients: bool,
    /// Whether the frame counts as shown.
    pub counts: bool,
    /// After how many microseconds to try again. After a frame that was handed to
    /// the card, that one's showing leads on.
    pub again_us: Option<u64>,
}

/// An output that is plugged in without a configured place lies right of all the
/// others, where these have their places from the left without gaps.
pub proof fn law_new_output_beside(outputs: Seq<crate::layout::OutputArea>, i: int, x: int, y: int)
    requires
        0 <= i < outputs.len(),
        outputs[i].geometry matches Some(g) && g.loc.x == total_width(outputs.take(i)),
        outputs[i].geometry matches Some(g) && g.holds(x, y),
        forall|k: int| 0 <= k < outputs.len() ==> width_of(#[trigger] outputs[k]) >= 0,
    ensures
        x < total_width(outputs),
{
    lemma_width_grows(outputs, i + 1);
    assert(outputs.take(i + 1).drop_last() =~= outputs.take(i));
    assert(outputs.take(i + 1).last() == outputs[i]);
}

proof fn lemma_width_grows(outputs: Seq<crate::layout::OutputArea>, n: int)
    requires
        0 <= n <= outputs.len(),
        forall|k: int| 0 <= k < outputs.len() ==> width_of(#[trigger] outputs[k]) >= 0,
    ensures
        total_width(outputs.take(n)) <= total_width(outputs),
    decreases outputs.len(),
{
    if n < outputs.len() {
        let t = outputs.drop_last();
        assert forall|k: int| 0 <= k < t.len() implies width_of(#[trigger] t[k]) >= 0 by {
            assert(t[k] == outputs[k]);
        }
        lemma_width_grows(t, n);
        assert(t.take(n) =~= outputs.take(n));
        assert(width_of(outputs[outputs.len() - 1]) >= 0);
    } else {
        assert(outputs.take(n) =~= outputs);
    }
}

/// The primary card comes first whatever its number is, and the others follow by their
/// numbers.
pub proof fn law_primary_card_first(primary: u64, a: u64, b: u64, s: Seq<u64>, i: int, j: int)
    requires
        in_order(primary, s),
    ensures
        no_later(primary, primary, b),
        a != primary ==> !no_later(primary, a, primary),
        a != primary && b != primary ==> (no_later(primary, a, b) <==> a <= b),
        0 <= i < j < s.len() && s[j] == primary ==> s[i] == primary,
        0 <= i < j < s.len() && s[i] != primary ==> s[i] <= s[j],
{
    if 0 <= i < j < s.len() {
        assert(no_later(primary, s[i], s[j]));
    }
}

/// The outputs that are painted anew are those of all cards, one for each pipe that
/// drives one.
pub proof fn law_all_outputs_painted(cards: Seq<CardView>, t: RenderTarget)
    ensures
        all_targets(cards).contains(t) <==> exists|i: int, k: int|
            #![trigger cards[i].surfaces[k]]
            0 <= i < cards.len() && 0 <= k < cards[i].surfaces.len() && cards[i].node == t.node
                && cards[i].surfaces[k].crtc == t.crtc,
    decreases cards.len(),
{
    if cards.len() > 0 {
        let init = cards.drop_last();
        let c = cards.last();
        let n = cards.len() - 1;
        law_all_outputs_painted(init, t);
        let a = all_targets(init);
        let b = card_targets(c.node, c.surfaces);
        let all = all_targets(cards);
        assert(all == a + b);
        if all.contains(t) {
            let k = choose|k: int| 0 <= k < all.len() && all[k] == t;
            if k < a.len() {
                assert(a[k] == t);
                let (i, m) = choose|i: int, m: int|
                    #![trigger init[i].surfaces[m]]
                    0 <= i < init.len() && 0 <= m < init[i].surfaces.len() && init[i].node == t.node
                        && init[i].surfaces[m].crtc == t.crtc;
                assert(cards[i].surfaces[m].crtc == t.crtc);
            } else {
                assert(b[k - a.len()] == t);
                assert(cards[n].surfaces[k - a.len()].crtc == t.crtc);
            }
        }
        if exists|i: int, k: int|
            #![trigger cards[i].surfaces[k]]
            0 <= i < cards.len() && 0 <= k < cards[i].surfaces.len() && cards[i].node == t.node
                && cards[i].surfaces[k].crtc == t.crtc {
            let (i, m) = choose|i: int, k: int|
                #![trigger cards[i].surfaces[k]]
                0 <= i < cards.len() && 0 <= k < cards[i].surfaces.len() && cards[i].node == t.node
                    && cards[i].surfaces[k].crtc == t.crtc;
            if i < n {
                assert(init[i].surfaces[m].crtc == t.crtc);
                let k = choose|k: int| 0 <= k < a.len() && a[k] == t;
                assert(all[k] == t);
            } else {
                assert(b[m] == t);
                assert(all[a.len() + m] == t);
            }
        }
    }
}

/// An output on a pipe takes the place of what the pipe drove before, and one that goes
/// leaves the pipe without any; no other pipe of the card and no other card changes.
pub proof fn law_one_pipe_changes(
    cards: Seq<CardView>,
    node: u64,
    s: Surface,
    crtc: u32,
    i: int,
    t: Surface,
)
    requires
        0 <= i < cards.len(),
    ensures
        ({
            let on = with_surface(cards, node, s);
            let off = without_surface(cards, node, crtc);
            &&& on.len() == cards.len() && off.len() == cards.len()
            &&& on[i].node == cards[i].node && off[i].node == cards[i].node
            &&& on[i].render_node == cards[i].render_node && off[i].render_node
                == cards[i].render_node
            &&& cards[i].node != node ==> on[i] == cards[i] && off[i] == cards[i]
            &&& cards[i].node == node ==> (on[i].surfaces.contains(t) <==> t == s
                || cards[i].surfaces.contains(t) && t.crtc != s.crtc)
            &&& cards[i].node == node ==> (off[i].surfaces.contains(t)
                <==> cards[i].surfaces.contains(t) && t.crtc != crtc)
        }),
{
    let p = |u: Surface| u.crtc != s.crtc;
    let q = |u: Surface| u.crtc != crtc;
    crate::seqs::lemma_filter_in(cards[i].surfaces, p, t);
    crate::seqs::lemma_filter_in(cards[i].surfaces, q, t);
    crate::seqs::lemma_push_contains(cards[i].surfaces.filter(p), s, t);
}

/// A card is taken on exactly where it was opened and is one: it is then the last of
/// the list, without outputs, and painted by its render node, or by itself where it has
/// none. Otherwise nothing changes.
pub proof fn law_card_taken_on(
    before: UdevData,
    node: u64,
    probe: Result<CardProbe, DeviceAddError>,
    after: UdevData,
    r: Result<CardAdded, DeviceAddError>,
    c: CardView,
)
    requires
        card_came(before, node, probe, after, r),
    ensures
        r is Ok <==> probe is Ok && !probe->Ok_0.software,
        r is Err ==> after == before,
        probe matches Err(e) ==> r == Err::<CardAdded, DeviceAddError>(e),
        probe is Ok && probe->Ok_0.software ==> r->Err_0 is NoRenderNode,
        r is Ok ==> {
            let all = card_views(after.cards@);
            &&& all.len() > 0
            &&& all.last().node == node
            &&& all.last().surfaces.len() == 0
            &&& probe->Ok_0.render_node matches Some(n) ==> all.last().render_node == n
            &&& probe->Ok_0.render_node is None ==> all.last().render_node == node
            &&& c.node != node ==> (all.contains(c) <==> card_views(before.cards@).contains(c))
            &&& r->Ok_0.advertise_dmabuf == !before.dmabuf_advertised
            &&& r->Ok_0.advertise_syncobj == (!before.syncobj_advertised && probe->Ok_0.syncobj)
            &&& after.dmabuf_advertised
            &&& after.vt_active == before.vt_active && after.primary_gpu == before.primary_gpu
        },
{
    if r is Ok {
        let p = |c: CardView| c.node != node;
        let b = card_views(before.cards@);
        crate::seqs::lemma_filter_in(b, p, c);
        crate::seqs::lemma_push_contains(b.filter(p), card_views(after.cards@).last(), c);
    }
}

/// The mode of a connector is the first that it prefers, and the first of all where it
/// prefers none; there is one such mode.
pub proof fn law_preferred_mode(modes: Seq<ConnectorMode>, i: int, j: int)
    requires
        mode_at(modes, i),
        0 <= j < modes.len(),
    ensures
        0 <= i < modes.len(),
        modes[j].preferred ==> modes[i].preferred && i <= j,
        !modes[i].preferred ==> i == 0,
        mode_at(modes, j) ==> i == j,
{
    if modes[j].preferred && first_preferred(modes, i) && j < i {
        assert(!modes[j].preferred);
    }
    if mode_at(modes, j) && first_preferred(modes, i) && i < j {
        assert(!modes[i].preferred);
    }
}

/// The outputs side by side are as wide as all of them together; one without a place
/// takes no room.
pub proof fn law_widths_add_up(
    outputs: Seq<crate::layout::OutputArea>,
    o: crate::layout::OutputArea,
)
    ensures
        total_width(Seq::empty()) == 0,
        o.geometry matches Some(g) ==> total_width(outputs.push(o)) == total_width(outputs)
            + g.size.w,
        o.geometry is None ==> total_width(outputs.push(o)) == total_width(outputs),
{
    assert(outputs.push(o).drop_last() =~= outputs);
}

/// What is configured for an output is the first entry under its name; an output
/// without an entry has nothing configured.
pub proof fn law_output_config_found(
    outputs: Seq<(String, OutputConfig)>,
    name: Seq<char>,
    k: int,
)
    ensures
        0 <= k < outputs.len() && outputs[k].0@ == name && (forall|j: int|
            0 <= j < k ==> (#[trigger] outputs[j]).0@ != name) ==> config_of(outputs, name) == Some(
            outputs[k].1,
        ),
        (forall|j: int| 0 <= j < outputs.len() ==> (#[trigger] outputs[j]).0@ != name) ==> config_of(
            outputs,
            name,
        ) is None,
    decreases outputs.len(),
{
    if outputs.len() > 0 && outputs[0].0@ != name {
        let rest = outputs.drop_first();
        law_output_config_found(rest, name, k - 1);
        if 0 <= k < outputs.len() && outputs[k].0@ == name && (forall|j: int|
            0 <= j < k ==> (#[trigger] outputs[j]).0@ != name) {
            assert(rest[k - 1] == outputs[k]);
            assert forall|j: int| 0 <= j < k - 1 implies (#[trigger] rest[j]).0@ != name by {
                assert(rest[j] == outputs[j + 1]);
            }
        }
        if forall|j: int| 0 <= j < outputs.len() ==> (#[trigger] outputs[j]).0@ != name {
            assert forall|j: int| 0 <= j < rest.len() implies (#[trigger] rest[j]).0@ != name by {
                assert(rest[j] == outputs[j + 1]);
            }
        }
    } else if outputs.len() > 0 {
        if 0 <= k < outputs.len() && (forall|j: int|
            0 <= j < k ==> (#[trigger] outputs[j]).0@ != name) {
            if k > 0 {
                assert(outputs[0].0@ != name);
            }
        }
    }
}

/// A scan's event is a change exactly where the connector has a pipe; what it says of
/// the connector is kept.
pub proof fn law_changes_with_a_pipe(e: ScanEvent)
    ensures
        e matches ScanEvent::Connected { connector, crtc } ==> {
            &&& change_of(e) is Some <==> crtc is Some
            &&& crtc is Some ==> change_of(e) == Some(
                ConnectorChange { connector, crtc: crtc->0, connected: true },
            )
        },
        e matches ScanEvent::Disconnected { connector, crtc } ==> {
            &&& change_of(e) is Some <==> crtc is Some
            &&& crtc is Some ==> change_of(e) == Some(
                ConnectorChange { connector, crtc: crtc->0, connected: false },
            )
        },
{
}

/// The mode that is switched to has the size and the rate that are asked for, and no
/// mode before it in the lists has.
pub proof fn law_mode_asked_for(
    connectors: Seq<Option<Vec<ConnectorMode>>>,
    size: Size,
    refresh: i32,
    c: int,
    m: int,
    d: int,
    n: int,
)
    requires
        first_mode(connectors, size, refresh, c, m),
    ensures
        0 <= c < connectors.len() && connectors[c] is Some && 0 <= m < connectors[c]->0@.len(),
        (connectors[c]->0)@[m].size == size && (connectors[c]->0)@[m].refresh == refresh,
        0 <= d < connectors.len() && connectors[d] is Some && 0 <= n < connectors[d]->0@.len() && (d
            < c || d == c && n < m) ==> (connectors[d]->0)@[n].size != size
            || (connectors[d]->0)@[n].refresh != refresh,
{
    if 0 <= d < connectors.len() && connectors[d] is Some && 0 <= n < connectors[d]->0@.len() && (d
        < c || d == c && n < m) {
        if is_mode(connectors, size, refresh, d, n) {
            assert(!earlier(d, n, c, m));
        }
    }
}

/// A frame shows for as many microseconds as there are of it in a second, rounded down;
/// an output without a mode counts as one of 60 hertz.
pub proof fn law_frame_time(refresh: int)
    requires
        refresh > 0,
    ensures
        frame_time(refresh) * refresh <= 1_000_000_000 < (frame_time(refresh) + 1) * refresh,
        frame_time(0) == 0 && frame_time(-refresh) == 0,
        rate(None) == 60000,
{
    vstd::arithmetic::div_mod::lemma_fundamental_div_mod(1_000_000_000, refresh);
    let q = frame_time(refresh);
    assert(refresh * q == q * refresh && (q + 1) * refresh == q * refresh + refresh)
        by (nonlinear_arith);
}

/// The rate of an output with a mode is that of the mode.
pub proof fn law_rate_of_the_mode(refresh: i32)
    ensures
        rate(Some(refresh)) == refresh,
{
}

/// A pipe of a card drives an output exactly where the card is listed with a surface on
/// that pipe, and no pipe drives two.
pub proof fn law_what_a_pipe_drives(
    u: UdevData,
    node: u64,
    crtc: u32,
    i: int,
    k: int,
    j: int,
    m: int,
)
    ensures
        u.drives(node, crtc, i, k) <==> 0 <= i < u.cards@.len() && u.cards@[i].node == node && 0
            <= k < u.cards@[i].surfaces@.len() && u.cards@[i].surfaces@[k].crtc == crtc,
        u.wf() && u.drives(node, crtc, i, k) && u.drives(node, crtc, j, m) ==> i == j && k == m,
{
    if u.wf() && u.drives(node, crtc, i, k) && u.drives(node, crtc, j, m) {
        if i < j {
            assert(u.cards@[i].node != u.cards@[j].node);
        }
        if j < i {
            assert(u.cards@[j].node != u.cards@[i].node);
        }
        assert(one_per_pipe(u.cards@[i].surfaces@));
        let s = u.cards@[i].surfaces@;
        if k < m {
            assert(s[k].crtc != s[m].crtc);
        }
        if m < k {
            assert(s[m].crtc != s[k].crtc);
        }
    }
}

/// Of the cards of a seat the first counts that could be resolved.
pub proof fn law_first_card_resolved(all: Seq<Option<u64>>, i: int, j: int)
    ensures
        first_resolved(all, i) <==> 0 <= i < all.len() && all[i] is Some && forall|k: int|
            0 <= k < i ==> (#[trigger] all[k]) is None,
        first_resolved(all, i) && first_resolved(all, j) ==> i == j,
{
    if first_resolved(all, i) && first_resolved(all, j) {
        if i < j {
            assert(all[i] is None);
        }
        if j < i {
            assert(all[j] is None);
        }
    }
}

/// The handles of every window are told, in the order of the windows: to leave the
/// outputs that no longer show it and to enter those that do now, as the desktop stands.
pub proof fn law_taskbars_told(
    before: ShoestringWm,
    after: ShoestringWm,
    told: Seq<SyncPlan>,
    i: int,
    x: u64,
)
    requires
        taskbars_told(before, after, told),
        0 <= i < before.foreign_toplevel_mgmt.windows@.len(),
    ensures
        told.len() == before.foreign_toplevel_mgmt.windows@.len(),
        ({
            let w = before.foreign_toplevel_mgmt.windows@[i];
            let now = crate::foreign_toplevel_mgmt::outputs_of(after.desktop.space, w.window);
            &&& told[i].handles@ == w.handles@
            &&& told[i].leave@.contains(x) <==> w.last_outputs@.contains(x) && !now.contains(x)
            &&& told[i].enter@.contains(x) <==> now.contains(x) && !w.last_outputs@.contains(x)
            &&& i < after.foreign_toplevel_mgmt.windows@.len()
            &&& after.foreign_toplevel_mgmt.windows@[i].window == w.window
            &&& after.foreign_toplevel_mgmt.windows@[i].handles@ == w.handles@
            &&& after.foreign_toplevel_mgmt.windows@[i].last_outputs@ == now
        }),
        after.foreign_toplevel_mgmt.managers == before.foreign_toplevel_mgmt.managers,
{
    let b = crate::foreign_toplevel_mgmt::handle_views(before.foreign_toplevel_mgmt.windows@);
    let a = crate::foreign_toplevel_mgmt::handle_views(after.foreign_toplevel_mgmt.windows@);
    crate::foreign_toplevel_mgmt::law_sync_told(after.desktop, b[i], told[i], x);
    assert(a.len() == b.len());
    assert(a[i] == crate::foreign_toplevel_mgmt::synced(after.desktop.space, b[i]));
    assert(a[i] == after.foreign_toplevel_mgmt.windows@[i]@);
}

/// A card that comes changes nothing but the list of cards and what clients were
/// promised.
pub proof fn law_card_changes_little(
    before: UdevData,
    node: u64,
    probe: Result<CardProbe, DeviceAddError>,
    after: UdevData,
    r: Result<CardAdded, DeviceAddError>,
)
    requires
        card_came(before, node, probe, after, r),
    ensures
        after == (UdevData {
            cards: after.cards,
            dmabuf_advertised: after.dmabuf_advertised,
            syncobj_advertised: after.syncobj_advertised,
            ..before
        }),
        before.syncobj_advertised ==> after.syncobj_advertised,
        r is Ok ==> after.syncobj_advertised == (before.syncobj_advertised || probe->Ok_0.syncobj),
{
}

/// A mode that is asked for is the one to switch to as soon as none before it in the
/// lists is asked for too.
pub proof fn law_first_mode_counts(
    connectors: Seq<Option<Vec<ConnectorMode>>>,
    size: Size,
    refresh: i32,
    c: int,
    m: int,
)
    requires
        is_mode(connectors, size, refresh, c, m),
        forall|d: int, n: int|
            #[trigger] is_mode(connectors, size, refresh, d, n) ==> !(d < c || d == c && n < m),
    ensures
        first_mode(connectors, size, refresh, c, m),
{
}

} // verus!
