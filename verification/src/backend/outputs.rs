//! Outputs that come and go, whatever drives them.

use vstd::prelude::*;

use crate::backend::headless::OutputSetup;
use crate::backend::transform_name;
use crate::backend::Transform;
use crate::desktop::OutputInfo;
use crate::geometry::Point;
use crate::geometry::Rect;
use crate::geometry::Size;
use crate::ipc::ClientId;
use crate::layout::OutputArea;
use crate::seqs::copy_vec;
use crate::seqs::retain;
use crate::state::ShoestringWm;
use crate::text::str_eq;

verus! {

/// What the socket's clients are told of an output that has come.
#[derive(Debug)]
pub struct OutputEvent {
    pub name: String,
    /// Width and height of its mode.
    pub width: i32,
    pub height: i32,
    pub scale_bits: u64,
    pub adaptive_sync: bool,
    /// The name of its orientation.
    pub transform: &'static str,
}

/// Who is told of an output that has come, and what.
#[derive(Debug)]
pub struct OutputCame {
    pub event: OutputEvent,
    /// The connections that the event is written to.
    pub subscribers: Vec<ClientId>,
    /// The clients that arrange outputs, and the serial that the outputs have
    /// now.
    pub managers: Vec<u64>,
    pub serial: u32,
}

/// Who is told that an output has gone.
#[derive(Debug)]
pub struct OutputGone {
    pub managers: Vec<u64>,
    pub serial: u32,
    pub subscribers: Vec<ClientId>,
}

/// The serial behind a serial: the next number, and zero behind the last.
pub open spec fn serial_after(serial: u32) -> u32 {
    if serial == u32::MAX {
        0
    } else {
        (serial + 1) as u32
    }
}

/// The place of the output with an identifier; the length where there is none.
pub open spec fn area_place(outputs: Seq<OutputArea>, id: u64) -> int
    decreases outputs.len(),
{
    if outputs.len() == 0 || outputs[0].id == id {
        0
    } else {
        1 + area_place(outputs.drop_first(), id)
    }
}

/// The place of the output with a name; the length where there is none.
pub open spec fn info_place(outputs: Seq<OutputInfo>, name: Seq<char>) -> int
    decreases outputs.len(),
{
    if outputs.len() == 0 || outputs[0].name@ == name {
        0
    } else {
        1 + info_place(outputs.drop_first(), name)
    }
}

/// Where an output is in the desktop; none where it has no place or no mode.
pub open spec fn place_of(outputs: Seq<OutputArea>, id: u64) -> Option<Rect> {
    let k = area_place(outputs, id);
    if k < outputs.len() {
        outputs[k].geometry
    } else {
        None
    }
}

/// A sequence with a new entry at a place, or at its end where it has no such
/// place.
pub open spec fn put_at<T>(s: Seq<T>, place: int, t: T) -> Seq<T> {
    if 0 <= place < s.len() {
        s.update(place, t)
    } else {
        s.push(t)
    }
}

/// Every output but one.
pub open spec fn other_area(id: u64) -> spec_fn(OutputArea) -> bool {
    |o: OutputArea| o.id != id
}

/// Every output but that with a name.
pub open spec fn other_name(name: Seq<char>) -> spec_fn(OutputInfo) -> bool {
    |o: OutputInfo| o.name@ != name
}

/// Every identifier but one.
pub open spec fn other_id(id: u64) -> spec_fn(u64) -> bool {
    |o: u64| o != id
}

/// Whether a window is where it was, but does not show on an output.
pub open spec fn left_output(
    before: crate::layout::Placed,
    id: u64,
    after: crate::layout::Placed,
) -> bool {
    &&& after.window == before.window
    &&& after.loc == before.loc
    &&& after.outputs@ == before.outputs@.filter(other_id(id))
}

/// Whether windows are where they were, but do not show on an output.
pub open spec fn off_output(
    before: Seq<crate::layout::Placed>,
    id: u64,
    after: Seq<crate::layout::Placed>,
) -> bool {
    &&& after.len() == before.len()
    &&& forall|i: int|
        0 <= i < before.len() ==> left_output(before[i], id, #[trigger] after[i])
}

/// The connections that follow the events.
pub open spec fn followers(wm: ShoestringWm) -> Seq<ClientId> {
    match wm.ipc {
        Some(s) => crate::ipc::ids(
            s.clients@.filter(|e: (ClientId, crate::ipc::Client)| e.1.subscriber),
        ),
        None => Seq::empty(),
    }
}

/// Whether everything is as before but the outputs and who shows on them.
pub open spec fn only_outputs_differ(before: ShoestringWm, after: ShoestringWm) -> bool {
    after == (ShoestringWm {
        desktop: crate::desktop::Desktop {
            space: after.desktop.space,
            outputs: after.desktop.outputs,
            ..before.desktop
        },
        output_management: crate::handlers::output_management::OutputManagementState {
            serial: after.output_management.serial,
            ..before.output_management
        },
        ..before
    })
}

impl ShoestringWm {
    fn area_at(&self, id: u64) -> (r: usize)
        ensures
            r as int == area_place(self.desktop.space.outputs@, id),
            r <= self.desktop.space.outputs@.len(),
    {
        let ghost all = self.desktop.space.outputs@;
        let mut i: usize = 0;
        assert(all.skip(0) =~= all);
        while i < self.desktop.space.outputs.len()
            invariant
                i <= all.len(),
                all == self.desktop.space.outputs@,
                area_place(all, id) == i + area_place(all.skip(i as int), id),
            decreases all.len() - i,
        {
            assert(all.skip(i as int)[0] == all[i as int]);
            assert(all.skip(i as int).drop_first() =~= all.skip(i + 1));
            if self.desktop.space.outputs[i].id == id {
                return i;
            }
            i += 1;
        }
        i
    }

    fn info_at(&self, name: &str) -> (r: usize)
        ensures
            r as int == info_place(self.desktop.outputs@, name@),
            r <= self.desktop.outputs@.len(),
    {
        let ghost all = self.desktop.outputs@;
        let mut i: usize = 0;
        assert(all.skip(0) =~= all);
        while i < self.desktop.outputs.len()
            invariant
                i <= all.len(),
                all == self.desktop.outputs@,
                info_place(all, name@) == i + info_place(all.skip(i as int), name@),
            decreases all.len() - i,
        {
            assert(all.skip(i as int)[0] == all[i as int]);
            assert(all.skip(i as int).drop_first() =~= all.skip(i + 1));
            if str_eq(self.desktop.outputs[i].name.as_str(), name) {
                return i;
            }
            i += 1;
        }
        i
    }

    /// Where an output is in the desktop.
    pub fn output_geometry(&self, id: u64) -> (r: Option<Rect>)
        ensures
            r == place_of(self.desktop.space.outputs@, id),
    {
        let k = self.area_at(id);
        if k < self.desktop.space.outputs.len() {
            self.desktop.space.outputs[k].geometry
        } else {
            None
        }
    }

    /// An output has a place in the desktop. One that had a place already keeps
    /// its rank among the outputs; another is the last.
    pub fn map_output(&mut self, area: OutputArea, info: OutputInfo)
        ensures
            final(self).desktop.space.outputs@ == put_at(
                old(self).desktop.space.outputs@,
                area_place(old(self).desktop.space.outputs@, area.id),
                area,
            ),
            final(self).desktop.outputs@ == put_at(
                old(self).desktop.outputs@,
                info_place(old(self).desktop.outputs@, info.name@),
                info,
            ),
            final(self).desktop.space.elements == old(self).desktop.space.elements,
            final(self).output_management.serial == old(self).output_management.serial,
            only_outputs_differ(*old(self), *final(self)),
    {
        let at = self.area_at(area.id);
        if at < self.desktop.space.outputs.len() {
            self.desktop.space.outputs.set(at, area);
        } else {
            self.desktop.space.outputs.push(area);
        }
        let k = self.info_at(info.name.as_str());
        if k < self.desktop.outputs.len() {
            self.desktop.outputs.set(k, info);
        } else {
            self.desktop.outputs.push(info);
        }
    }

    /// An output that was mapped is announced: to the connections that follow the
    /// events, and to the clients that arrange outputs, under a new serial.
    pub fn announce_output(
        &mut self,
        name: String,
        mode: (i32, i32),
        scale_bits: u64,
        adaptive_sync: bool,
        transform: Transform,
    ) -> (r: OutputCame)
        ensures
            *final(self) == (ShoestringWm {
                output_management: final(self).output_management,
                ..*old(self)
            }),
            final(self).output_management == (
            crate::handlers::output_management::OutputManagementState {
                serial: serial_after(old(self).output_management.serial),
                ..old(self).output_management
            }),
            r.event.name == name,
            r.event.width == mode.0,
            r.event.height == mode.1,
            r.event.scale_bits == scale_bits,
            r.event.adaptive_sync == adaptive_sync,
            r.event.transform@ == crate::backend::name_of(transform),
            r.subscribers@ == followers(*old(self)),
            r.managers@ == old(self).output_management.managers@,
            r.serial == final(self).output_management.serial,
    {
        self.output_management.serial = self.output_management.serial.wrapping_add(1);
        OutputCame {
            event: OutputEvent {
                name,
                width: mode.0,
                height: mode.1,
                scale_bits,
                adaptive_sync,
                transform: transform_name(transform),
            },
            subscribers: self.emit_ipc(),
            managers: copy_vec(&self.output_management.managers),
            serial: self.output_management.serial,
        }
    }

    /// An output is gone: it has no place, no window shows on it, and the clients
    /// that knew of it are told, those that arrange outputs under a new serial.
    pub fn output_gone(&mut self, id: u64, name: &str) -> (r: OutputGone)
        ensures
            final(self).desktop.space.outputs@ == old(self).desktop.space.outputs@.filter(
                other_area(id),
            ),
            final(self).desktop.outputs@ == old(self).desktop.outputs@.filter(other_name(name@)),
            off_output(
                old(self).desktop.space.elements@,
                id,
                final(self).desktop.space.elements@,
            ),
            final(self).output_management.serial == serial_after(
                old(self).output_management.serial,
            ),
            only_outputs_differ(*old(self), *final(self)),
            r.subscribers@ == followers(*old(self)),
            r.managers@ == old(self).output_management.managers@,
            r.serial == final(self).output_management.serial,
    {
        let subscribers = self.emit_ipc();
        let managers = copy_vec(&self.output_management.managers);
        self.output_management.serial = self.output_management.serial.wrapping_add(1);
        let other = |o: &OutputArea| -> (b: bool)
            ensures
                b == (o.id != id),
            { o.id != id };
        retain(&mut self.desktop.space.outputs, other, Ghost(other_area(id)));
        let named = |o: &OutputInfo| -> (b: bool)
            ensures
                b == (o.name@ != name@),
            { !str_eq(o.name.as_str(), name) };
        retain(&mut self.desktop.outputs, named, Ghost(other_name(name@)));
        let ghost all = self.desktop.space.elements@;
        let ghost before = *self;
        let mut i: usize = 0;
        while i < self.desktop.space.elements.len()
            invariant
                i <= all.len(),
                all.len() == self.desktop.space.elements@.len(),
                all == before.desktop.space.elements@,
                forall|k: int|
                    0 <= k < i ==> left_output(
                        all[k],
                        id,
                        #[trigger] self.desktop.space.elements@[k],
                    ),
                forall|k: int|
                    i <= k < all.len() ==> #[trigger] self.desktop.space.elements@[k] == all[k],
                *self == (ShoestringWm {
                    desktop: crate::desktop::Desktop {
                        space: crate::layout::Space {
                            elements: self.desktop.space.elements,
                            ..before.desktop.space
                        },
                        ..before.desktop
                    },
                    ..before
                }),
            decreases all.len() - i,
        {
            let elsewhere = |o: &u64| -> (b: bool)
                ensures
                    b == (*o != id),
                { *o != id };
            retain(&mut self.desktop.space.elements[i].outputs, elsewhere, Ghost(other_id(id)));
            i += 1;
        }
        OutputGone { managers, serial: self.output_management.serial, subscribers }
    }
}

/// The place of an output at the origin, all of it free.
pub open spec fn area_at_origin(id: u64, size: Size) -> OutputArea {
    let whole = Rect { loc: Point { x: 0, y: 0 }, size };
    OutputArea { id, geometry: Some(whole), zone: whole }
}

/// Whether the manager knows of an output at the origin besides those before, and
/// who is told of it: under its name, upright, and without a rate that varies.
pub open spec fn came_at_origin(
    before: ShoestringWm,
    id: u64,
    setup: OutputSetup,
    size: Size,
    scale_bits: u64,
    after: ShoestringWm,
    came: OutputCame,
) -> bool {
    let infos = before.desktop.outputs@;
    let at = info_place(infos, setup.name@);
    &&& after.desktop.space.outputs@ == put_at(
        before.desktop.space.outputs@,
        area_place(before.desktop.space.outputs@, id),
        area_at_origin(id, size),
    )
    &&& exists|info: OutputInfo|
        {
            &&& #[trigger] put_at(infos, at, info) == after.desktop.outputs@
            &&& info.name@ == setup.name@
            &&& info.geometry == area_at_origin(id, size).geometry
            &&& info.mode == Some((setup.size.w, setup.size.h))
            &&& info.scale_bits == scale_bits
        }
    &&& after.desktop.space.elements == before.desktop.space.elements
    &&& after.output_management.serial == serial_after(before.output_management.serial)
    &&& only_outputs_differ(before, after)
    &&& came.event.name@ == setup.name@
    &&& came.event.width == setup.size.w
    &&& came.event.height == setup.size.h
    &&& came.event.scale_bits == scale_bits
    &&& !came.event.adaptive_sync
    &&& came.event.transform@ == crate::backend::name_of(setup.reported)
    &&& came.subscribers@ == followers(before)
    &&& came.managers@ == before.output_management.managers@
    &&& came.serial == after.output_management.serial
}

impl ShoestringWm {
    /// The one output of a backend without a card has come, at the origin. `size`
    /// is what its mode measures in the desktop at its scale.
    pub fn output_at_origin(
        &mut self,
        id: u64,
        setup: &OutputSetup,
        size: Size,
        scale_bits: u64,
    ) -> (r: OutputCame)
        ensures
            came_at_origin(*old(self), id, *setup, size, scale_bits, *final(self), r),
    {
        let whole = Rect { loc: Point { x: 0, y: 0 }, size };
        let info = OutputInfo {
            name: setup.name.clone(),
            geometry: Some(whole),
            mode: Some((setup.size.w, setup.size.h)),
            scale_bits,
        };
        self.map_output(OutputArea { id, geometry: Some(whole), zone: whole }, info);
        self.announce_output(
            setup.name.clone(),
            (setup.size.w, setup.size.h),
            scale_bits,
            false,
            setup.reported,
        )
    }
}

/// An output that comes and goes again leaves the others where they were.
pub proof fn law_output_comes_and_goes(outputs: Seq<OutputArea>, area: OutputArea)
    requires
        forall|i: int| 0 <= i < outputs.len() ==> (#[trigger] outputs[i]).id != area.id,
    ensures
        put_at(outputs, area_place(outputs, area.id), area).filter(other_area(area.id)) == outputs,
{
    lemma_no_place(outputs, area.id);
    let p = other_area(area.id);
    let all = outputs.push(area);
    reveal(Seq::filter);
    assert(all.drop_last() =~= outputs);
    crate::seqs::lemma_filter_all(outputs, p);
}

proof fn lemma_no_place(outputs: Seq<OutputArea>, id: u64)
    requires
        forall|i: int| 0 <= i < outputs.len() ==> (#[trigger] outputs[i]).id != id,
    ensures
        area_place(outputs, id) == outputs.len(),
    decreases outputs.len(),
{
    if outputs.len() > 0 {
        lemma_no_place(outputs.drop_first(), id);
    }
}

/// Once an output is gone it is not listed, and no window shows on it.
pub proof fn law_gone_output_shows_nothing(
    outputs: Seq<OutputArea>,
    before: Seq<crate::layout::Placed>,
    after: Seq<crate::layout::Placed>,
    id: u64,
)
    requires
        off_output(before, id, after),
    ensures
        forall|i: int|
            0 <= i < outputs.filter(other_area(id)).len() ==> (#[trigger] outputs.filter(
                other_area(id),
            )[i]).id != id,
        forall|i: int| 0 <= i < after.len() ==> !(#[trigger] after[i]).outputs@.contains(id),
{
    let kept = outputs.filter(other_area(id));
    assert forall|i: int| 0 <= i < kept.len() implies (#[trigger] kept[i]).id != id by {
        crate::seqs::lemma_filter_in(outputs, other_area(id), kept[i]);
    }
    assert forall|i: int| 0 <= i < after.len() implies !(#[trigger] after[i]).outputs@.contains(
        id,
    ) by {
        assert(left_output(before[i], id, after[i]));
        crate::seqs::lemma_filter_in(before[i].outputs@, other_id(id), id);
    }
}

/// An output is found by its identifier, the first of it, and has the place that is
/// listed; one that is not listed has none.
pub proof fn law_output_found(outputs: Seq<OutputArea>, id: u64, k: int)
    ensures
        0 <= k < outputs.len() && outputs[k].id == id && (forall|j: int|
            0 <= j < k ==> (#[trigger] outputs[j]).id != id) ==> area_place(outputs, id) == k
            && place_of(outputs, id) == outputs[k].geometry,
        (forall|j: int| 0 <= j < outputs.len() ==> (#[trigger] outputs[j]).id != id) ==> area_place(
            outputs,
            id,
        ) == outputs.len() && place_of(outputs, id) is None,
    decreases outputs.len(),
{
    if outputs.len() > 0 && outputs[0].id != id {
        let rest = outputs.drop_first();
        law_output_found(rest, id, k - 1);
        if 0 <= k < outputs.len() && outputs[k].id == id && (forall|j: int|
            0 <= j < k ==> (#[trigger] outputs[j]).id != id) {
            assert(rest[k - 1] == outputs[k]);
            assert forall|j: int| 0 <= j < k - 1 implies (#[trigger] rest[j]).id != id by {
                assert(rest[j] == outputs[j + 1]);
            }
        }
        if forall|j: int| 0 <= j < outputs.len() ==> (#[trigger] outputs[j]).id != id {
            assert forall|j: int| 0 <= j < rest.len() implies (#[trigger] rest[j]).id != id by {
                assert(rest[j] == outputs[j + 1]);
            }
        }
    } else if outputs.len() > 0 {
        if 0 <= k < outputs.len() && (forall|j: int|
            0 <= j < k ==> (#[trigger] outputs[j]).id != id) {
            if k > 0 {
                assert(outputs[0].id != id);
            }
        }
    }
}

/// The report of an output is found by its name, the first of it.
pub proof fn law_report_found(outputs: Seq<OutputInfo>, name: Seq<char>, k: int)
    ensures
        0 <= k < outputs.len() && outputs[k].name@ == name && (forall|j: int|
            0 <= j < k ==> (#[trigger] outputs[j]).name@ != name) ==> info_place(outputs, name)
            == k,
        (forall|j: int| 0 <= j < outputs.len() ==> (#[trigger] outputs[j]).name@ != name)
            ==> info_place(outputs, name) == outputs.len(),
    decreases outputs.len(),
{
    if outputs.len() > 0 && outputs[0].name@ != name {
        let rest = outputs.drop_first();
        law_report_found(rest, name, k - 1);
        if 0 <= k < outputs.len() && outputs[k].name@ == name && (forall|j: int|
            0 <= j < k ==> (#[trigger] outputs[j]).name@ != name) {
            assert(rest[k - 1] == outputs[k]);
            assert forall|j: int| 0 <= j < k - 1 implies (#[trigger] rest[j]).name@ != name by {
                assert(rest[j] == outputs[j + 1]);
            }
        }
        if forall|j: int| 0 <= j < outputs.len() ==> (#[trigger] outputs[j]).name@ != name {
            assert forall|j: int| 0 <= j < rest.len() implies (#[trigger] rest[j]).name@ != name by {
                assert(rest[j] == outputs[j + 1]);
            }
        }
    } else if outputs.len() > 0 {
        if 0 <= k < outputs.len() && (forall|j: int|
            0 <= j < k ==> (#[trigger] outputs[j]).name@ != name) {
            if k > 0 {
                assert(outputs[0].name@ != name);
            }
        }
    }
}

/// An output that is mapped has its new place from then on, whether it had one before
/// or not, and keeps its rank; the others stay as they are.
pub proof fn law_mapped_output_found(outputs: Seq<OutputArea>, area: OutputArea, i: int)
    requires
        forall|j: int, k: int|
            0 <= j < k < outputs.len() ==> (#[trigger] outputs[j]).id != (#[trigger] outputs[k]).id,
    ensures
        ({
            let after = put_at(outputs, area_place(outputs, area.id), area);
            &&& after.contains(area)
            &&& 0 <= i < outputs.len() && outputs[i].id != area.id ==> after[i] == outputs[i]
            &&& 0 <= i < outputs.len() && outputs[i].id == area.id ==> after[i] == area
                && after.len() == outputs.len()
            &&& (forall|j: int| 0 <= j < outputs.len() ==> (#[trigger] outputs[j]).id != area.id)
                ==> after.len() == outputs.len() + 1 && after.last() == area
        }),
{
    let after = put_at(outputs, area_place(outputs, area.id), area);
    if exists|k: int| 0 <= k < outputs.len() && (#[trigger] outputs[k]).id == area.id {
        let k = choose|k: int| 0 <= k < outputs.len() && (#[trigger] outputs[k]).id == area.id;
        law_output_found(outputs, area.id, k);
        assert(after[k] == area);
    } else {
        law_output_found(outputs, area.id, 0);
        assert(after.last() == area);
    }
}

/// Serials count up by one and begin again at zero behind the last.
pub proof fn law_serial_counts(serial: u32)
    ensures
        serial < u32::MAX ==> serial_after(serial) == serial + 1,
        serial_after(u32::MAX) == 0,
        serial_after(serial) != serial,
{
}

/// The connections that are told of outputs are those that follow the events.
pub proof fn law_followers_are_told(wm: ShoestringWm, server: crate::ipc::Server, id: ClientId)
    requires
        wm.ipc == Some(server),
    ensures
        followers(wm).contains(id) <==> exists|i: int|
            0 <= i < server.clients@.len() && (#[trigger] server.clients@[i]).0 == id
                && server.clients@[i].1.subscriber,
{
    let p = |e: (ClientId, crate::ipc::Client)| e.1.subscriber;
    let s = server.clients@.filter(p);
    let f = followers(wm);
    assert(f == crate::ipc::ids(s));
    if f.contains(id) {
        let k = choose|k: int| 0 <= k < f.len() && f[k] == id;
        assert(s.contains(s[k]));
        crate::seqs::lemma_filter_in(server.clients@, p, s[k]);
        let i = choose|i: int| 0 <= i < server.clients@.len() && server.clients@[i] == s[k];
        assert(server.clients@[i].0 == id);
    }
    if exists|i: int|
        0 <= i < server.clients@.len() && (#[trigger] server.clients@[i]).0 == id
            && server.clients@[i].1.subscriber {
        let i = choose|i: int|
            0 <= i < server.clients@.len() && (#[trigger] server.clients@[i]).0 == id
                && server.clients@[i].1.subscriber;
        let e = server.clients@[i];
        assert(server.clients@.contains(e));
        crate::seqs::lemma_filter_in(server.clients@, p, e);
        let k = choose|k: int| 0 <= k < s.len() && s[k] == e;
        assert(f[k] == id);
    }
}

/// A window stays where it is when an output goes, and shows on the others as before.
pub proof fn law_windows_stay_when_an_output_goes(
    before: Seq<crate::layout::Placed>,
    id: u64,
    after: Seq<crate::layout::Placed>,
    i: int,
    other: u64,
)
    requires
        off_output(before, id, after),
        0 <= i < before.len(),
    ensures
        after.len() == before.len(),
        after[i].window == before[i].window,
        after[i].loc == before[i].loc,
        after[i].outputs@.contains(other) <==> before[i].outputs@.contains(other) && other != id,
{
    assert(left_output(before[i], id, after[i]));
    crate::seqs::lemma_filter_in(before[i].outputs@, other_id(id), other);
}

/// The one output of a backend without a card is listed at the origin, all of it free,
/// and is told of under its own name and mode.
pub proof fn law_came_at_origin(
    before: ShoestringWm,
    id: u64,
    setup: OutputSetup,
    size: Size,
    scale_bits: u64,
    after: ShoestringWm,
    came: OutputCame,
)
    requires
        came_at_origin(before, id, setup, size, scale_bits, after, came),
        forall|j: int, k: int|
            0 <= j < k < before.desktop.space.outputs@.len() ==> (
            #[trigger] before.desktop.space.outputs@[j]).id != (
            #[trigger] before.desktop.space.outputs@[k]).id,
    ensures
        ({
            let r = Rect { loc: Point { x: 0, y: 0 }, size };
            after.desktop.space.outputs@.contains(OutputArea { id, geometry: Some(r), zone: r })
        }),
        came.event.name@ == setup.name@,
        came.event.width == setup.size.w && came.event.height == setup.size.h,
        !came.event.adaptive_sync,
        came.serial == serial_after(before.output_management.serial),
        after.desktop.layout == before.desktop.layout,
{
    law_mapped_output_found(before.desktop.space.outputs@, area_at_origin(id, size), 0);
}

/// The reports of the other outputs stay when an output goes, and its own does not.
pub proof fn law_reports_when_an_output_goes(
    outputs: Seq<OutputInfo>,
    name: Seq<char>,
    o: OutputInfo,
)
    ensures
        outputs.filter(other_name(name)).contains(o) <==> outputs.contains(o) && o.name@ != name,
{
    crate::seqs::lemma_filter_in(outputs, other_name(name), o);
}

/// Outputs that come and go change neither the windows that are known nor their layouts,
/// workspaces or the focus, and nothing outside the desktop but the serial.
pub proof fn law_outputs_change_little(before: ShoestringWm, after: ShoestringWm)
    requires
        only_outputs_differ(before, after),
    ensures
        after == (ShoestringWm {
            desktop: after.desktop,
            output_management: after.output_management,
            ..before
        }),
        after.desktop.layout == before.desktop.layout,
        after.desktop.toplevels == before.desktop.toplevels,
        after.desktop.workspaces == before.desktop.workspaces,
        after.desktop.focused == before.desktop.focused,
        after.output_management.managers == before.output_management.managers,
{
}

} // verus!
