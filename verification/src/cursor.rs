//! The pointer's picture: the frames of a theme's cursor files, and which of them
//! shows at a given time.

use std::collections::HashMap;

use vstd::prelude::*;

use crate::text::parse_u32;

verus! {

broadcast use vstd::std_specs::hash::group_hash_axioms;

/// The size of cursors where none is set.
pub const DEFAULT_SIZE: u32 = 24;

/// One frame of a cursor.
#[derive(Debug)]
pub struct Frame {
    /// The nominal size.
    pub size: u32,
    pub width: u32,
    pub height: u32,
    /// The point of the picture that is the pointer's place.
    pub xhot: u32,
    pub yhot: u32,
    /// How long the frame shows, in milliseconds.
    pub delay: u32,
    /// Four bytes per pixel, in the order of the file.
    pub pixels_rgba: Vec<u8>,
}

/// A frame by its values.
pub struct FrameView {
    pub size: u32,
    pub width: u32,
    pub height: u32,
    pub xhot: u32,
    pub yhot: u32,
    pub delay: u32,
    pub pixels_rgba: Seq<u8>,
}

impl View for Frame {
    type V = FrameView;

    open spec fn view(&self) -> FrameView {
        FrameView {
            size: self.size,
            width: self.width,
            height: self.height,
            xhot: self.xhot,
            yhot: self.yhot,
            delay: self.delay,
            pixels_rgba: self.pixels_rgba@,
        }
    }
}

/// The frames by their values.
pub open spec fn frame_views(frames: Seq<Frame>) -> Seq<FrameView> {
    frames.map_values(|f: Frame| f@)
}

/// The frames of a cursor file, for the `xcursor` crate; none where it is not a
/// cursor file.
pub uninterp spec fn xcursor_frames(content: Seq<u8>) -> Option<Seq<FrameView>>;

/// `xcursor::parser::parse_xcursor` reads a cursor file. It depends on nothing
/// but the bytes.
#[verifier::external_body]
fn parse_frames(content: &[u8]) -> (r: Option<Vec<Frame>>)
    ensures
        match r {
            Some(frames) => xcursor_frames(content@) == Some(frame_views(frames@)),
            None => xcursor_frames(content@) is None,
        },
{
    let images = xcursor::parser::parse_xcursor(content)?;
    let convert = |i: xcursor::parser::Image| Frame {
        size: i.size,
        width: i.width,
        height: i.height,
        xhot: i.xhot,
        yhot: i.yhot,
        delay: i.delay,
        pixels_rgba: i.pixels_rgba,
    };
    Some(images.into_iter().map(convert).collect())
}

/// Whether the file at `i` is the first that is there and is a cursor file.
pub open spec fn first_parsed(files: Seq<Option<Vec<u8>>>, i: int) -> bool {
    &&& 0 <= i < files.len()
    &&& parses(files[i])
    &&& forall|j: int| 0 <= j < i ==> !parses(#[trigger] files[j])
}

/// Whether a file is there and is a cursor file.
pub open spec fn parses(file: Option<Vec<u8>>) -> bool {
    file matches Some(bytes) && xcursor_frames(bytes@) is Some
}

/// The frames of the first of some files that is there and is a cursor file.
/// The files are those of an icon's names, the usual name first.
pub fn load_named(files: &Vec<Option<Vec<u8>>>) -> (r: Option<Vec<Frame>>)
    ensures
        match r {
            Some(frames) => exists|i: int|
                first_parsed(files@, i) && xcursor_frames((files@[i]->0)@) == Some(
                    frame_views(frames@),
                ),
            None => forall|i: int| 0 <= i < files@.len() ==> !parses(#[trigger] files@[i]),
        },
{
    let mut i: usize = 0;
    while i < files.len()
        invariant
            i <= files@.len(),
            forall|j: int| 0 <= j < i ==> !parses(#[trigger] files@[j]),
        decreases files@.len() - i,
    {
        if let Some(bytes) = &files[i] {
            if let Some(frames) = parse_frames(bytes.as_slice()) {
                assert(first_parsed(files@, i as int));
                return Some(frames);
            }
        }
        i += 1;
    }
    None
}

/// The cursor size that a setting asks for, or else the usual one.
pub open spec fn wanted_size(setting: Option<Seq<char>>) -> int {
    match setting {
        Some(s) => match crate::text::decimal_in(s, 0, u32::MAX as int) {
            Some(n) => n,
            None => DEFAULT_SIZE as int,
        },
        None => DEFAULT_SIZE as int,
    }
}

fn cursor_size(setting: Option<&str>) -> (r: u32)
    ensures
        r as int == wanted_size(crate::text::opt_str_view(setting)),
{
    match setting {
        Some(s) => match parse_u32(s) {
            Some(n) => n,
            None => DEFAULT_SIZE,
        },
        None => DEFAULT_SIZE,
    }
}

/// A number of 32 bits, read with a sign.
pub open spec fn signed(x: u32) -> int {
    if x <= i32::MAX {
        x as int
    } else {
        x - 0x1_0000_0000
    }
}

fn to_signed(x: u32) -> (r: i32)
    ensures
        r as int == signed(x),
{
    #[verifier::truncate]
    let r: i32 = x as i32;
    assert(x <= 0x7fff_ffffu32 ==> x as i32 == x) by (bit_vector);
    assert(x > 0x7fff_ffffu32 ==> x as i32 == x - 0x1_0000_0000) by (bit_vector);
    r
}

/// How far a frame's nominal size is from the wanted one.
pub open spec fn off_by(target: u32, size: u32) -> int {
    let d = signed(target) - signed(size);
    if d < 0 {
        -d
    } else {
        d
    }
}

/// Whether the frame at `i` is the first whose size is nearest to the wanted one.
pub open spec fn nearest_at(frames: Seq<Frame>, target: u32, i: int) -> bool {
    &&& 0 <= i < frames.len()
    &&& forall|j: int|
        0 <= j < frames.len() ==> off_by(target, frames[i].size) <= off_by(
            target,
            (#[trigger] frames[j]).size,
        )
    &&& forall|j: int|
        0 <= j < i ==> off_by(target, frames[i].size) < off_by(target, (#[trigger] frames[j]).size)
}

/// The places of the frames of a size, in order.
pub open spec fn of_size(frames: Seq<Frame>, size: u32) -> Seq<int>
    decreases frames.len(),
{
    if frames.len() == 0 {
        Seq::empty()
    } else {
        let before = of_size(frames.drop_last(), size);
        if frames.last().size == size {
            before.push(frames.len() - 1)
        } else {
            before
        }
    }
}

/// How long the frames at the places show, in all.
pub open spec fn duration(frames: Seq<Frame>, places: Seq<int>) -> int
    decreases places.len(),
{
    if places.len() == 0 {
        0
    } else {
        duration(frames, places.drop_last()) + frames[places.last()].delay
    }
}

/// Whether the `k`-th of the frames at the places shows at the time `t` of the
/// animation.
pub open spec fn shows_at(frames: Seq<Frame>, places: Seq<int>, t: int, k: int) -> bool {
    &&& 0 <= k < places.len()
    &&& duration(frames, places.take(k)) <= t < duration(frames, places.take(k + 1))
}

/// Whether the frame at `r` is the one to show: of the nearest size, and the one
/// whose turn it is. Without delays it is the first of that size.
pub open spec fn frame_at(frames: Seq<Frame>, target: u32, millis: int, r: int) -> bool {
    exists|n: int| #[trigger]
        nearest_at(frames, target, n) && {
            let places = of_size(frames, frames[n].size);
            let total = duration(frames, places);
            if total == 0 {
                places.len() > 0 && r == places[0]
            } else {
                exists|k: int| #[trigger]
                    shows_at(frames, places, millis % total, k) && r == places[k]
            }
        }
}

proof fn lemma_duration_grows(frames: Seq<Frame>, places: Seq<int>, i: int, j: int)
    requires
        0 <= i <= j <= places.len(),
    ensures
        0 <= duration(frames, places.take(i)) <= duration(frames, places.take(j)),
    decreases j,
{
    if i < j {
        lemma_duration_grows(frames, places, i, j - 1);
        assert(places.take(j).drop_last() =~= places.take(j - 1));
    } else if j > 0 {
        lemma_duration_grows(frames, places, j - 1, j - 1);
        assert(places.take(j).drop_last() =~= places.take(j - 1));
    }
}

proof fn lemma_of_size(frames: Seq<Frame>, size: u32)
    ensures
        forall|i: int|
            0 <= i < of_size(frames, size).len() ==> 0 <= #[trigger] of_size(frames, size)[i]
                < frames.len(),
        of_size(frames, size).len() <= frames.len(),
    decreases frames.len(),
{
    if frames.len() > 0 {
        lemma_of_size(frames.drop_last(), size);
    }
}

proof fn lemma_of_size_holds(frames: Seq<Frame>, size: u32, n: int)
    requires
        0 <= n < frames.len(),
        frames[n].size == size,
    ensures
        of_size(frames, size).len() > 0,
    decreases frames.len(),
{
    if n < frames.len() - 1 {
        lemma_of_size_holds(frames.drop_last(), size, n);
    }
}

/// Whether one of the frames can be picked: there is one, and the numbers do not
/// run over.
pub open spec fn usable_frames(frames: Seq<Frame>, target: u32) -> bool {
    &&& frames.len() > 0
    &&& forall|i: int|
        0 <= i < frames.len() ==> off_by(target, (#[trigger] frames[i]).size) <= i32::MAX
    &&& forall|n: int| #[trigger]
        nearest_at(frames, target, n) ==> duration(frames, of_size(frames, frames[n].size))
            <= u32::MAX
}

proof fn lemma_nearest_unique(frames: Seq<Frame>, target: u32, m: int, n: int)
    requires
        nearest_at(frames, target, m),
        nearest_at(frames, target, n),
    ensures
        m == n,
{
    if m < n {
        assert(off_by(target, frames[n].size) < off_by(target, frames[m].size));
    }
    if n < m {
        assert(off_by(target, frames[m].size) < off_by(target, frames[n].size));
    }
}

/// Whether one of the frames can be picked.
pub fn frames_usable(target_size: u32, frames: &Vec<Frame>) -> (r: bool)
    ensures
        r == usable_frames(frames@, target_size),
{
    if frames.len() == 0 {
        return false;
    }
    let ghost all = frames@;
    let target: i64 = to_signed(target_size) as i64;
    let mut n: usize = 0;
    let mut best: i64 = 0x1_0000_0000;
    let mut i: usize = 0;
    while i < frames.len()
        invariant
            i <= all.len(),
            all == frames@,
            i == 0 ==> n == 0 && best == 0x1_0000_0000,
            i > 0 ==> n < i && best as int == off_by(target_size, all[n as int].size),
            target as int == signed(target_size),
            forall|j: int|
                0 <= j < i ==> off_by(target_size, (#[trigger] all[j]).size) <= i32::MAX,
            forall|j: int|
                0 <= j < i ==> best as int <= off_by(target_size, (#[trigger] all[j]).size),
            forall|j: int|
                0 <= j < n ==> (best as int) < off_by(target_size, (#[trigger] all[j]).size),
        decreases all.len() - i,
    {
        let size: i64 = to_signed(frames[i].size) as i64;
        let d: i64 = if target < size {
            size - target
        } else {
            target - size
        };
        assert(d as int == off_by(target_size, all[i as int].size));
        if d > 0x7fff_ffff {
            return false;
        }
        if d < best {
            best = d;
            n = i;
        }
        i += 1;
    }
    assert(nearest_at(all, target_size, n as int));
    let size = frames[n].size;
    let ghost places = of_size(all, size);
    proof {
        lemma_of_size(all, size);
        assert(places.take(places.len() as int) =~= places);
    }
    let mut total: u64 = 0;
    let ghost mut k: int = 0;
    let mut i: usize = 0;
    while i < frames.len()
        invariant
            i <= all.len(),
            all == frames@,
            n < all.len(),
            size == all[n as int].size,
            nearest_at(all, target_size, n as int),
            places == of_size(all, size),
            0 <= k <= places.len(),
            k == of_size(all.take(i as int), size).len(),
            of_size(all.take(i as int), size) =~= places.take(k),
            total as int == duration(all, places.take(k)),
            total <= u32::MAX,
            places.take(places.len() as int) == places,
        decreases all.len() - i,
    {
        assert(all.take(i + 1).drop_last() =~= all.take(i as int));
        assert(all.take(i + 1).last() == all[i as int]);
        proof {
            lemma_of_size_prefix(all, size, i + 1);
        }
        if frames[i].size == size {
            proof {
                assert(of_size(all.take(i + 1), size).len() == k + 1);
                assert(of_size(all.take(i + 1), size)[k] == i);
                assert(places[k] == i);
                assert(places.take(k + 1).drop_last() =~= places.take(k));
                lemma_duration_grows(all, places, k + 1, places.len() as int);
                k = k + 1;
            }
            total = total + frames[i].delay as u64;
            if total > u32::MAX as u64 {
                return false;
            }
        }
        i += 1;
    }
    proof {
        assert(all.take(i as int) =~= all);
        assert(k == places.len());
        assert forall|m: int| #[trigger] nearest_at(all, target_size, m) implies duration(
            all,
            of_size(all, all[m].size),
        ) <= u32::MAX by {
            lemma_nearest_unique(all, target_size, m, n as int);
        }
    }
    true
}

/// The frame to show: of the nominal size nearest to the wanted one, and of
/// these the one whose turn it is after so many milliseconds.
pub fn nearest_frame(target_size: u32, millis: u32, frames: &Vec<Frame>) -> (r: usize)
    requires
        usable_frames(frames@, target_size),
    ensures
        frame_at(frames@, target_size, millis as int, r as int),
        r < frames@.len(),
{
    let ghost all = frames@;
    let target = to_signed(target_size);
    let mut n: usize = 0;
    let mut best: i32 = abs_diff(target, to_signed(frames[0].size));
    let mut i: usize = 1;
    while i < frames.len()
        invariant
            1 <= i <= all.len(),
            all == frames@,
            n < i,
            target as int == signed(target_size),
            forall|j: int|
                0 <= j < all.len() ==> off_by(target_size, (#[trigger] all[j]).size) <= i32::MAX,
            best as int == off_by(target_size, all[n as int].size),
            forall|j: int|
                0 <= j < i ==> best as int <= off_by(target_size, (#[trigger] all[j]).size),
            forall|j: int|
                0 <= j < n ==> (best as int) < off_by(target_size, (#[trigger] all[j]).size),
        decreases all.len() - i,
    {
        assert(off_by(target_size, all[i as int].size) <= i32::MAX);
        let d = abs_diff(target, to_signed(frames[i].size));
        if d < best {
            best = d;
            n = i;
        }
        i += 1;
    }
    assert(nearest_at(all, target_size, n as int));
    let size = frames[n].size;
    let ghost places = of_size(all, size);
    proof {
        lemma_of_size(all, size);
        lemma_of_size_holds(all, size, n as int);
        assert(duration(all, places) <= u32::MAX);
        assert(places.take(places.len() as int) =~= places);
    }
    let mut same: Vec<usize> = Vec::new();
    let mut total: u32 = 0;
    let mut i: usize = 0;
    while i < frames.len()
        invariant
            i <= all.len(),
            all == frames@,
            places == of_size(all, size),
            places.len() <= all.len(),
            same@.len() <= places.len(),
            same@.len() == of_size(all.take(i as int), size).len(),
            of_size(all.take(i as int), size) =~= places.take(same@.len() as int),
            forall|k: int| 0 <= k < same@.len() ==> #[trigger] same@[k] as int == places[k],
            forall|k: int| 0 <= k < places.len() ==> 0 <= #[trigger] places[k] < all.len(),
            total as int == duration(all, places.take(same@.len() as int)),
            duration(all, places) <= u32::MAX,
            places.take(places.len() as int) == places,
        decreases all.len() - i,
    {
        assert(all.take(i + 1).drop_last() =~= all.take(i as int));
        assert(all.take(i + 1).last() == all[i as int]);
        proof {
            lemma_of_size_prefix(all, size, i + 1);
        }
        if frames[i].size == size {
            let ghost k = same@.len() as int;
            assert(of_size(all.take(i + 1), size).len() == k + 1);
            assert(of_size(all.take(i + 1), size)[k] == i);
            assert(places[k] == i);
            proof {
                assert(places.take(k + 1).drop_last() =~= places.take(k));
                lemma_duration_grows(all, places, k + 1, places.len() as int);
            }
            total = total + frames[i].delay;
            same.push(i);
        }
        i += 1;
    }
    assert(all.take(i as int) =~= all);
    assert(same@.len() == places.len());
    if total == 0 {
        return same[0];
    }
    let mut rest: u32 = millis % total;
    let ghost t = rest as int;
    let mut k: usize = 0;
    while k < same.len()
        invariant
            k <= same@.len(),
            all == frames@,
            places == of_size(all, size),
            same@.len() == places.len(),
            forall|j: int| 0 <= j < same@.len() ==> #[trigger] same@[j] as int == places[j],
            forall|j: int| 0 <= j < places.len() ==> 0 <= #[trigger] places[j] < all.len(),
            total as int == duration(all, places),
            total > 0,
            nearest_at(all, target_size, n as int),
            size == all[n as int].size,
            t == millis as int % total as int,
            0 <= t < total,
            rest as int == t - duration(all, places.take(k as int)),
        decreases same@.len() - k,
    {
        let f = &frames[same[k]];
        assert(places.take(k + 1).drop_last() =~= places.take(k as int));
        if rest < f.delay {
            assert(shows_at(all, places, t, k as int));
            return same[k];
        }
        rest = rest - f.delay;
        k += 1;
    }
    assert(places.take(k as int) =~= places);
    same[0]
}

proof fn lemma_of_size_prefix(frames: Seq<Frame>, size: u32, n: int)
    requires
        0 <= n <= frames.len(),
    ensures
        of_size(frames.take(n), size).len() <= of_size(frames, size).len(),
        of_size(frames.take(n), size) =~= of_size(frames, size).take(
            of_size(frames.take(n), size).len() as int,
        ),
    decreases frames.len(),
{
    if n < frames.len() {
        lemma_of_size_prefix(frames.drop_last(), size, n);
        assert(frames.drop_last().take(n) =~= frames.take(n));
    } else {
        assert(frames.take(n) =~= frames);
    }
}

fn abs_diff(a: i32, b: i32) -> (r: i32)
    requires
        -(i32::MAX as int) <= a - b <= i32::MAX,
    ensures
        r as int == (if a < b {
            b - a
        } else {
            a - b
        }),
{
    if a < b {
        b - a
    } else {
        a - b
    }
}

/// The cursors that were looked for, by icon. An icon that the theme does not
/// have is noted as such, so that it is not looked for again.
#[derive(Debug)]
pub struct Cursor {
    pub size: u32,
    pub cache: HashMap<u32, Option<Vec<Frame>>>,
}

/// The icon of the plain arrow.
pub const DEFAULT_ICON: u32 = 0;

impl Cursor {
    /// The cursors of a theme and of a size, as they are set. Nothing was looked
    /// for yet. The result also names the theme.
    pub fn load(theme: Option<String>, size: Option<&str>) -> (r: (Self, String))
        ensures
            r.0.size as int == wanted_size(crate::text::opt_str_view(size)),
            r.0.cache@ == Map::<u32, Option<Vec<Frame>>>::empty(),
            match theme {
                Some(t) => r.1 == t,
                None => r.1@ == "default"@,
            },
    {
        let name = match theme {
            Some(t) => t,
            None => "default".to_string(),
        };
        (Cursor { size: cursor_size(size), cache: HashMap::new() }, name)
    }

    /// Whether an icon has frames.
    pub open spec fn has(self, icon: u32) -> bool {
        self.cache@.contains_key(icon) && self.cache@[icon] is Some
    }

    /// Whether an icon is still to be looked for.
    pub fn missing(&self, icon: u32) -> (r: bool)
        ensures
            r == !self.cache@.contains_key(icon),
    {
        !self.cache.contains_key(&icon)
    }

    /// Notes what the files of an icon hold. What is known of an icon stays.
    pub fn store(&mut self, icon: u32, files: &Vec<Option<Vec<u8>>>)
        ensures
            final(self).size == old(self).size,
            old(self).cache@.contains_key(icon) ==> final(self).cache@ == old(self).cache@,
            !old(self).cache@.contains_key(icon) ==> {
                &&& final(self).cache@.dom() == old(self).cache@.dom().insert(icon)
                &&& forall|k: u32| #[trigger]
                    old(self).cache@.contains_key(k) ==> final(self).cache@[k]
                        == old(self).cache@[k]
                &&& match final(self).cache@[icon] {
                    Some(frames) => exists|i: int|
                        first_parsed(files@, i) && xcursor_frames((files@[i]->0)@) == Some(
                            frame_views(frames@),
                        ),
                    None => forall|i: int|
                        0 <= i < files@.len() ==> !parses(#[trigger] files@[i]),
                }
            },
    {
        if self.cache.contains_key(&icon) {
            return ;
        }
        let frames = load_named(files);
        self.cache.insert(icon, frames);
        assert(self.cache@.dom() =~= old(self).cache@.dom().insert(icon));
    }

    /// The icon whose frames show for an icon: its own, or else the arrow's.
    pub open spec fn resolved(self, icon: u32) -> Option<u32> {
        if self.has(icon) {
            Some(icon)
        } else if self.has(DEFAULT_ICON) {
            Some(DEFAULT_ICON)
        } else {
            None
        }
    }

    fn has_frames(&self, icon: u32) -> (r: bool)
        ensures
            r == self.has(icon),
    {
        match self.cache.get(&icon) {
            Some(f) => f.is_some(),
            None => false,
        }
    }

    /// The icon and the frame to show: those of the icon, or else of the arrow,
    /// at the size for the output's scale, and by the time since the start.
    pub fn current_frame(&self, icon: u32, scale: u32, millis: u32) -> (r: Option<(u32, usize)>)
        requires
            self.size * crate::geometry::max(scale as int, 1) <= u32::MAX,
            self.resolved(icon) matches Some(k) ==> usable_frames(
                (self.cache@[k]->0)@,
                (self.size * crate::geometry::max(scale as int, 1)) as u32,
            ),
        ensures
            match r {
                Some((k, f)) => {
                    &&& self.resolved(icon) == Some(k)
                    &&& frame_at(
                        (self.cache@[k]->0)@,
                        (self.size * crate::geometry::max(scale as int, 1)) as u32,
                        millis as int,
                        f as int,
                    )
                },
                None => self.resolved(icon) is None,
            },
    {
        let k = if self.has_frames(icon) {
            icon
        } else if self.has_frames(DEFAULT_ICON) {
            DEFAULT_ICON
        } else {
            return None;
        };
        let factor: u32 = if scale >= 1 {
            scale
        } else {
            1
        };
        let target = self.size * factor;
        match self.cache.get(&k) {
            Some(Some(frames)) => Some((k, nearest_frame(target, millis, frames))),
            _ => None,
        }
    }

    /// The same for any cache: none also where the frames that were read cannot
    /// be picked from.
    pub fn frame_to_show(&self, icon: u32, scale: u32, millis: u32) -> (r: Option<(u32, usize)>)
        ensures
            ({
                let target = self.size * crate::geometry::max(scale as int, 1);
                match self.resolved(icon) {
                    Some(k) => if target <= u32::MAX && usable_frames(
                        (self.cache@[k]->0)@,
                        target as u32,
                    ) {
                        r matches Some((x, f)) && x == k && frame_at(
                            (self.cache@[k]->0)@,
                            target as u32,
                            millis as int,
                            f as int,
                        )
                    } else {
                        r is None
                    },
                    None => r is None,
                }
            }),
    {
        let k = if self.has_frames(icon) {
            icon
        } else if self.has_frames(DEFAULT_ICON) {
            DEFAULT_ICON
        } else {
            return None;
        };
        let factor: u32 = if scale >= 1 {
            scale
        } else {
            1
        };
        let size: u32 = self.size;
        assert(size * factor <= u64::MAX) by (nonlinear_arith)
            requires
                0 <= size <= u32::MAX,
                0 <= factor <= u32::MAX,
        ;
        let wide: u64 = size as u64 * factor as u64;
        if wide > u32::MAX as u64 {
            return None;
        }
        match self.cache.get(&k) {
            Some(Some(frames)) => if frames_usable(wide as u32, frames) {
                self.current_frame(icon, scale, millis)
            } else {
                None
            },
            _ => None,
        }
    }
}

/// An animation repeats: a whole round later the same frame shows.
pub proof fn law_animation_loops(frames: Seq<Frame>, target: u32, millis: int, n: int, r: int)
    requires
        0 <= millis,
        nearest_at(frames, target, n),
        frame_at(frames, target, millis, r),
    ensures
        frame_at(
            frames,
            target,
            millis + duration(frames, of_size(frames, frames[n].size)),
            r,
        ),
{
    let places = of_size(frames, frames[n].size);
    let total = duration(frames, places);
    lemma_duration_grows(frames, places, places.len() as int, places.len() as int);
    assert(places.take(places.len() as int) =~= places);
    let m = choose|m: int| #[trigger]
        nearest_at(frames, target, m) && {
            let p = of_size(frames, frames[m].size);
            let t = duration(frames, p);
            if t == 0 {
                p.len() > 0 && r == p[0]
            } else {
                exists|k: int| #[trigger] shows_at(frames, p, millis % t, k) && r == p[k]
            }
        };
    lemma_nearest_unique(frames, target, m, n);
    if total != 0 {
        assert((millis + total) % total == millis % total) by (nonlinear_arith)
            requires
                total > 0,
                0 <= millis,
        ;
    }
}

/// The size of cursors is the number that is set, and 24 where none is set or what is
/// set is no number.
pub proof fn law_cursor_size(n: u32, s: Seq<char>)
    ensures
        wanted_size(None) == 24,
        wanted_size(Some(crate::text::decimal(n as nat))) == n,
        s.len() > 0 && !crate::text::is_digit(s[0]) && s[0] != '+' ==> wanted_size(Some(s)) == 24,
        s.len() == 0 ==> wanted_size(Some(s)) == 24,
{
    crate::text::law_decimal_reads_back(n as nat);
    let d = crate::text::decimal(n as nat);
    crate::text::law_decimal_reading(d, 0, u32::MAX as int);
    crate::text::law_decimal_reading(s, 0, u32::MAX as int);
    if s.len() > 0 && s[0] == '-' {
        crate::text::law_decimal_reading(s.drop_first(), 0, u32::MAX as int);
        assert(seq!['-'] + s.drop_first() =~= s);
    }
}

/// The frame that shows is of the size nearest to the wanted one: no frame is nearer.
pub proof fn law_nearest_size_shows(frames: Seq<Frame>, target: u32, millis: int, r: int, j: int)
    requires
        frame_at(frames, target, millis, r),
        0 <= j < frames.len(),
        target <= i32::MAX,
        forall|k: int| 0 <= k < frames.len() ==> (#[trigger] frames[k]).size <= i32::MAX,
    ensures
        0 <= r < frames.len(),
        ({
            let a = if frames[r].size >= target {
                frames[r].size - target
            } else {
                target - frames[r].size
            };
            let b = if frames[j].size >= target {
                frames[j].size - target
            } else {
                target - frames[j].size
            };
            a <= b
        }),
{
    let n = choose|n: int| #[trigger]
        nearest_at(frames, target, n) && {
            let places = of_size(frames, frames[n].size);
            let total = duration(frames, places);
            if total == 0 {
                places.len() > 0 && r == places[0]
            } else {
                exists|k: int| #[trigger]
                    shows_at(frames, places, millis % total, k) && r == places[k]
            }
        };
    assert(nearest_at(frames, target, n));
    let places = of_size(frames, frames[n].size);
    assert(places.contains(r)) by {
        if duration(frames, places) == 0 {
            assert(places[0] == r);
        } else {
            let k = choose|k: int| #[trigger]
                shows_at(frames, places, millis % duration(frames, places), k) && r == places[k];
            assert(places[k] == r);
        }
    }
    law_frames_of_a_size(frames, frames[n].size, r);
    assert(off_by(target, frames[n].size) <= off_by(target, frames[j].size));
}

/// The frames of a size are all of them and no others, in order.
pub proof fn law_frames_of_a_size(frames: Seq<Frame>, size: u32, i: int)
    ensures
        of_size(frames, size).contains(i) <==> 0 <= i < frames.len() && frames[i].size == size,
        forall|j: int, k: int|
            0 <= j < k < of_size(frames, size).len() ==> (#[trigger] of_size(frames, size)[j]) < (
            #[trigger] of_size(frames, size)[k]),
        forall|j: int|
            0 <= j < of_size(frames, size).len() ==> (#[trigger] of_size(frames, size)[j])
                < frames.len(),
    decreases frames.len(),
{
    if frames.len() > 0 {
        let init = frames.drop_last();
        law_frames_of_a_size(init, size, i);
        let before = of_size(init, size);
        crate::seqs::lemma_push_contains(before, frames.len() - 1, i);
        if 0 <= i < init.len() {
            assert(init[i] == frames[i]);
        }
        let all = of_size(frames, size);
        assert forall|j: int| 0 <= j < all.len() implies (#[trigger] all[j]) < frames.len() by {
            if j < before.len() {
                assert(before[j] < init.len());
            }
        }
        assert forall|j: int, k: int| 0 <= j < k < all.len() implies (#[trigger] all[j])
            < (#[trigger] all[k]) by {
            assert(before[j] < init.len());
            if k < before.len() {
                assert(before[j] < before[k]);
            }
        }
    }
}

/// A frame shows for its delay: its turn begins when the delays of those before it are
/// over, and lasts as long as its own.
pub proof fn law_turn_of_a_frame(frames: Seq<Frame>, places: Seq<int>, t: int, k: int)
    requires
        0 <= k < places.len(),
        0 <= places[k] < frames.len(),
    ensures
        duration(frames, Seq::empty()) == 0,
        duration(frames, places.take(k + 1)) == duration(frames, places.take(k))
            + frames[places[k]].delay,
        shows_at(frames, places, t, k) <==> 0 <= t - duration(frames, places.take(k))
            < frames[places[k]].delay,
{
    assert(places.take(k + 1).drop_last() =~= places.take(k));
    assert(places.take(k + 1).last() == places[k]);
}

/// An icon shows its own frames where it has some, and else those of the plain arrow;
/// where that has none either, nothing shows.
pub proof fn law_icon_or_arrow(c: Cursor, icon: u32)
    ensures
        ({
            let found = |k: u32| c.cache@.contains_key(k) && c.cache@[k] is Some;
            &&& found(icon) ==> c.resolved(icon) == Some(icon)
            &&& !found(icon) && found(0) ==> c.resolved(icon) == Some(0u32)
            &&& !found(icon) && !found(0) ==> c.resolved(icon) is None
        }),
{
}

/// Of an icon's files the first counts that is there and is a cursor file.
pub proof fn law_first_file_counts(files: Seq<Option<Vec<u8>>>, i: int, j: int)
    ensures
        first_parsed(files, i) && first_parsed(files, j) ==> i == j,
        first_parsed(files, i) ==> files[i] is Some && xcursor_frames((files[i]->0)@) is Some,
        first_parsed(files, i) && 0 <= j < i && files[j] is Some ==> xcursor_frames(
            (files[j]->0)@,
        ) is None,
{
    if first_parsed(files, i) && 0 <= j < i {
        assert(!parses(files[j]));
    }
    if first_parsed(files, i) && first_parsed(files, j) {
        if j < i {
            assert(!parses(files[j]));
        }
        if i < j {
            assert(!parses(files[i]));
        }
    }
}

/// A number of 32 bits stands for itself up to the greatest one with a sign, and beyond
/// that for the negative one that has the same bits; sizes are compared by these.
pub proof fn law_size_with_a_sign(x: u32, target: u32)
    ensures
        x < 0x8000_0000 ==> signed(x) == x,
        x >= 0x8000_0000 ==> signed(x) == x - 0x1_0000_0000,
        off_by(target, x) == signed(target) - signed(x) || off_by(target, x) == signed(x) - signed(
            target,
        ),
        off_by(target, x) >= 0,
{
}

} // verus!
