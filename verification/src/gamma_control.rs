//! Gamma ramps: one owner per output, and the ramp from before the first owner
//! put back in the end.

use vstd::prelude::*;

use crate::state::ShoestringWm;
use crate::text::concat3;
use crate::text::decimal_string;
use crate::text::str_eq;
use crate::wire::lowest_first;
use crate::wire::read_u16;

verus! {

/// Attached to the manager.
pub struct GammaControlManagerData;

/// Attached to each control: its output, or nothing where the output was not
/// known.
pub struct GammaControlData {
    pub output_name: String,
}

/// The ramps of the three channels, with equally many entries.
#[derive(Debug)]
pub struct GammaRamp {
    pub red: Vec<u16>,
    pub green: Vec<u16>,
    pub blue: Vec<u16>,
}

/// Three ramps as sequences.
pub struct RampView {
    pub red: Seq<u16>,
    pub green: Seq<u16>,
    pub blue: Seq<u16>,
}

impl View for GammaRamp {
    type V = RampView;

    open spec fn view(&self) -> RampView {
        RampView { red: self.red@, green: self.green@, blue: self.blue@ }
    }
}

/// Why a client's table is not taken.
#[derive(Clone, Copy, Debug, PartialEq, Eq, Structural)]
pub enum GammaReadError {
    /// It is too short.
    BadSize,
    /// It could not be read.
    Io,
}

/// Who owns an output's ramp.
#[derive(Clone, Copy, Debug, PartialEq, Eq, Structural)]
pub enum GammaOwner {
    /// A client, through a control.
    Client(u64),
    /// The manager itself, asked over the socket.
    Ipc,
}

impl GammaOwner {
    /// Whether the owner is the control.
    pub fn is_client(&self, resource: u64) -> (r: bool)
        ensures
            r == (*self == GammaOwner::Client(resource)),
    {
        match self {
            GammaOwner::Client(c) => *c == resource,
            GammaOwner::Ipc => false,
        }
    }
}

/// An output whose ramp can be set.
#[derive(Debug)]
pub struct GammaTarget {
    pub name: String,
    pub node: u64,
    pub crtc: u32,
    /// Entries per channel.
    pub size: u32,
}

/// An owner's hold on an output's ramp.
#[derive(Debug)]
pub struct GammaControl {
    pub name: String,
    pub owner: GammaOwner,
    pub node: u64,
    pub crtc: u32,
    pub size: u32,
    /// The ramp from before the first owner.
    pub original: GammaRamp,
    /// The ramp that the owner has set.
    pub current: Option<GammaRamp>,
}

/// The outputs whose ramps are owned.
#[derive(Debug)]
pub struct GammaControlState {
    pub controls: Vec<GammaControl>,
}

/// The entry `i` of a linear ramp of `n` entries.
pub open spec fn linear(n: int, i: int) -> int {
    i * 65535 / crate::geometry::max(n - 1, 1)
}

/// Whether a channel is linear.
pub open spec fn is_linear(s: Seq<u16>, n: int) -> bool {
    &&& s.len() == n
    &&& forall|i: int| 0 <= i < n ==> #[trigger] s[i] == linear(n, i)
}

proof fn lemma_linear(n: int, i: int)
    requires
        0 <= i < n,
    ensures
        0 <= linear(n, i) <= 65535,
        i * 65535 <= n * 65535,
{
    let d = crate::geometry::max(n - 1, 1);
    assert(i <= d);
    assert(0 <= i * 65535 / d <= 65535) by (nonlinear_arith)
        requires
            0 <= i <= d,
            d >= 1,
    ;
}

/// A linear channel of `size` entries.
fn linear_channel(size: u32) -> (r: Vec<u16>)
    ensures
        is_linear(r@, size as int),
{
    let denom: u64 = if size >= 2 {
        size as u64 - 1
    } else {
        1
    };
    let mut v: Vec<u16> = Vec::new();
    let mut i: u32 = 0;
    while i < size
        invariant
            i <= size,
            denom == crate::geometry::max(size - 1, 1),
            v@.len() == i,
            forall|k: int| 0 <= k < i ==> #[trigger] v@[k] == linear(size as int, k),
        decreases size - i,
    {
        proof {
            lemma_linear(size as int, i as int);
        }
        let x: u64 = i as u64 * 65535 / denom;
        v.push(x as u16);
        i += 1;
    }
    v
}

impl GammaRamp {
    /// The ramp that corrects nothing.
    pub fn identity(size: u32) -> (r: Self)
        ensures
            is_linear(r.red@, size as int),
            is_linear(r.green@, size as int),
            is_linear(r.blue@, size as int),
    {
        GammaRamp {
            red: linear_channel(size),
            green: linear_channel(size),
            blue: linear_channel(size),
        }
    }
}

/// The ramp that corrects nothing begins at the least value, ends at the
/// greatest, and never falls.
pub proof fn law_identity_full_range(n: int, i: int, j: int)
    requires
        n >= 2,
        0 <= i <= j < n,
    ensures
        linear(n, 0) == 0,
        linear(n, n - 1) == 65535,
        linear(n, i) <= linear(n, j),
{
    let d = n - 1;
    assert(d * 65535 / d == 65535) by (nonlinear_arith)
        requires
            d >= 1,
    ;
    assert(i * 65535 / d <= j * 65535 / d) by (nonlinear_arith)
        requires
            0 <= i <= j,
            d >= 1,
    ;
}

/// Whether a channel is read from bytes, from the entry `from` on.
pub open spec fn channel_of(bytes: Seq<u8>, from: int, s: Seq<u16>, little: bool) -> bool {
    forall|i: int|
        0 <= i < s.len() ==> #[trigger] s[i] == crate::wire::u16_of(
            bytes[2 * (from + i)],
            bytes[2 * (from + i) + 1],
            little,
        )
}

/// Whether a ramp is read from a table: the red entries, then the green ones,
/// then the blue ones, two bytes each.
pub open spec fn ramp_of(bytes: Seq<u8>, size: int, r: RampView, little: bool) -> bool {
    &&& r.red.len() == size
    &&& r.green.len() == size
    &&& r.blue.len() == size
    &&& channel_of(bytes, 0, r.red, little)
    &&& channel_of(bytes, size, r.green, little)
    &&& channel_of(bytes, 2 * size, r.blue, little)
}

/// Whether a ramp is read from a table, in one byte order or the other.
pub open spec fn is_ramp(bytes: Seq<u8>, size: int, r: RampView) -> bool {
    exists|little: bool| #[trigger] ramp_of(bytes, size, r, little)
}

fn read_channel(bytes: &Vec<u8>, from: u64, size: u32, little: bool) -> (r: Vec<u16>)
    requires
        from <= 0x2_0000_0000,
        2 * (from + size) <= bytes@.len(),
    ensures
        r@.len() == size,
        channel_of(bytes@, from as int, r@, little),
{
    let mut v: Vec<u16> = Vec::new();
    let mut i: u32 = 0;
    let total: usize = bytes.len();
    while i < size
        invariant
            i <= size,
            total == bytes@.len(),
            from <= 0x2_0000_0000,
            2 * (from + size) <= bytes@.len(),
            v@.len() == i,
            channel_of(bytes@, from as int, v@, little),
        decreases size - i,
    {
        let at: usize = (2 * (from + i as u64)) as usize;
        assert(at == 2 * (from + i));
        v.push(read_u16(bytes[at], bytes[at + 1], little));
        i += 1;
    }
    v
}

/// Reads a client's table of `size` entries per channel, in the byte order of
/// the machine. A table that is too short is refused; what lies behind it does
/// not count.
pub fn read_ramp(bytes: &Vec<u8>, size: u32) -> (r: Result<GammaRamp, GammaReadError>)
    ensures
        match r {
            Ok(ramp) => bytes@.len() >= 6 * size && is_ramp(bytes@, size as int, ramp@),
            Err(e) => bytes@.len() < 6 * size && e == GammaReadError::BadSize,
        },
{
    let little = lowest_first();
    match read_ramp_in(bytes, size, little) {
        Ok(ramp) => {
            assert(ramp_of(bytes@, size as int, ramp@, little));
            Ok(ramp)
        },
        Err(e) => Err(e),
    }
}

/// Reads a client's table of `size` entries per channel, in the given byte order.
pub fn read_ramp_in(bytes: &Vec<u8>, size: u32, little: bool) -> (r: Result<
    GammaRamp,
    GammaReadError,
>)
    ensures
        match r {
            Ok(ramp) => bytes@.len() >= 6 * size && ramp_of(bytes@, size as int, ramp@, little),
            Err(e) => bytes@.len() < 6 * size && e == GammaReadError::BadSize,
        },
{
    let total: usize = bytes.len();
    if (total as u64) < 6 * (size as u64) {
        return Err(GammaReadError::BadSize);
    }
    assert(bytes@.len() >= 6 * size);
    let n: u64 = size as u64;
    let red = read_channel(bytes, 0, size, little);
    let green = read_channel(bytes, n, size, little);
    let blue = read_channel(bytes, 2 * n, size, little);
    let ramp = GammaRamp { red, green, blue };
    Ok(ramp)
}

/// A copy of a channel.
fn clone_channel(v: &Vec<u16>) -> (r: Vec<u16>)
    ensures
        r@ == v@,
{
    let mut r: Vec<u16> = Vec::new();
    let mut i: usize = 0;
    while i < v.len()
        invariant
            i <= v@.len(),
            r@ == v@.take(i as int),
        decreases v@.len() - i,
    {
        r.push(v[i]);
        i += 1;
    }
    assert(v@.take(i as int) =~= v@);
    r
}

/// A copy of a ramp.
pub fn clone_ramp(g: &GammaRamp) -> (r: GammaRamp)
    ensures
        r@ == g@,
{
    GammaRamp {
        red: clone_channel(&g.red),
        green: clone_channel(&g.green),
        blue: clone_channel(&g.blue),
    }
}

impl GammaControlState {
    /// Whether each output has at most one owner.
    pub open spec fn wf(self) -> bool {
        forall|i: int, j: int|
            0 <= i < j < self.controls@.len() ==> (#[trigger] self.controls@[i]).name@
                != (#[trigger] self.controls@[j]).name@
    }

    /// Whether the hold at `i` is that on the output.
    pub open spec fn held_at(self, name: Seq<char>, i: int) -> bool {
        0 <= i < self.controls@.len() && self.controls@[i].name@ == name
    }

    /// Whether nobody owns the output.
    pub open spec fn free(self, name: Seq<char>) -> bool {
        forall|i: int| !self.held_at(name, i)
    }

    fn find(&self, name: &str) -> (r: Option<usize>)
        ensures
            match r {
                Some(i) => self.held_at(name@, i as int),
                None => self.free(name@),
            },
    {
        let mut i: usize = 0;
        while i < self.controls.len()
            invariant
                i <= self.controls@.len(),
                forall|j: int| 0 <= j < i ==> (#[trigger] self.controls@[j]).name@ != name@,
            decreases self.controls@.len() - i,
        {
            if str_eq(self.controls[i].name.as_str(), name) {
                return Some(i);
            }
            i += 1;
        }
        None
    }

    /// Whether the ramp of an output has to be read before a new owner takes it:
    /// only where it has no owner yet.
    pub fn needs_read(&self, name: &str) -> (r: bool)
        ensures
            r == self.free(name@),
    {
        match self.find(name) {
            Some(i) => {
                assert(self.held_at(name@, i as int));
                false
            },
            None => true,
        }
    }

    /// A new owner takes an output. `read` is the output's ramp, where it was
    /// read. The ramp to put back is handed on from the owner before; without
    /// one it is the output's own, and without that the one that corrects
    /// nothing. The result is the client that has lost the output.
    pub fn take_over(
        &mut self,
        target: &GammaTarget,
        owner: GammaOwner,
        read: Option<GammaRamp>,
        current: Option<GammaRamp>,
    ) -> (r: Option<u64>)
        requires
            old(self).wf(),
        ensures
            final(self).wf(),
            taken_over(*old(self), *target, owner, read, current, *final(self), r),
    {
        let ghost before = self.controls@;
        let mut failed: Option<u64> = None;
        let original = match self.find(target.name.as_str()) {
            Some(i) => {
                let old_control = self.controls.remove(i);
                proof {
                    assert forall|j: int| #[trigger] old(self).held_at(
                        target.name@,
                        j,
                    ) implies j == i by {
                        if j < i {
                            assert(before[j].name@ != before[i as int].name@);
                        }
                        if (i as int) < j {
                            assert(before[i as int].name@ != before[j].name@);
                        }
                    }
                    assert(old(self).held_at(target.name@, i as int));
                    assert(self.controls@ == before.remove(i as int));
                }
                if let GammaOwner::Client(c) = old_control.owner {
                    failed = Some(c);
                }
                old_control.original
            },
            None => match read {
                Some(ramp) => ramp,
                None => GammaRamp::identity(target.size),
            },
        };
        let ghost rest = self.controls@;
        proof {
            assert forall|a: int| 0 <= a < rest.len() implies (#[trigger] rest[a]).name@
                != target.name@ by {
                if old(self).free(target.name@) {
                    assert(!old(self).held_at(target.name@, a));
                } else {
                    let i = choose|i: int| old(self).held_at(target.name@, i);
                    let oa = if a < i {
                        a
                    } else {
                        a + 1
                    };
                    assert(rest[a] == before[oa]);
                    assert(before[oa].name@ != before[i].name@);
                }
            }
            assert forall|a: int, b: int| 0 <= a < b < rest.len() implies (
            #[trigger] rest[a]).name@ != (#[trigger] rest[b]).name@ by {
                if !old(self).free(target.name@) {
                    let i = choose|i: int| old(self).held_at(target.name@, i);
                    let oa = if a < i {
                        a
                    } else {
                        a + 1
                    };
                    let ob = if b < i {
                        b
                    } else {
                        b + 1
                    };
                    assert(rest[a] == before[oa] && rest[b] == before[ob]);
                    assert(before[oa].name@ != before[ob].name@);
                }
            }
        }
        self.controls.push(
            GammaControl {
                name: target.name.clone(),
                owner,
                node: target.node,
                crtc: target.crtc,
                size: target.size,
                original,
                current,
            },
        );
        assert(self.controls@.drop_last() =~= rest);
        failed
    }

    /// The hold of a control on an output, where it is still its owner.
    pub fn holder(&self, name: &str, resource: u64) -> (r: Option<usize>)
        ensures
            match r {
                Some(i) => self.held_at(name@, i as int) && self.controls@[i as int].owner
                    == GammaOwner::Client(resource),
                None => self.wf() ==> forall|i: int|
                    #[trigger] self.held_at(name@, i) ==> self.controls@[i].owner
                        != GammaOwner::Client(resource),
            },
    {
        match self.find(name) {
            Some(i) => {
                if self.controls[i].owner.is_client(resource) {
                    Some(i)
                } else {
                    proof {
                        if self.wf() {
                            assert forall|j: int| #[trigger] self.held_at(
                                name@,
                                j,
                            ) implies self.controls@[j].owner != GammaOwner::Client(resource) by {
                                if j < i {
                                    assert(self.controls@[j].name@
                                        != self.controls@[i as int].name@);
                                }
                                if (i as int) < j {
                                    assert(self.controls@[i as int].name@
                                        != self.controls@[j].name@);
                                }
                            }
                        }
                    }
                    None
                }
            },
            None => None,
        }
    }

    /// A client's table has been put into effect on an output it owns.
    pub fn store(&mut self, i: usize, ramp: GammaRamp)
        requires
            old(self).wf(),
            i < old(self).controls@.len(),
        ensures
            final(self).wf(),
            final(self).controls@ == old(self).controls@.update(
                i as int,
                GammaControl { current: Some(ramp), ..old(self).controls@[i as int] },
            ),
    {
        let ghost before = self.controls@;
        let c = &mut self.controls[i];
        c.current = Some(ramp);
        proof {
            assert forall|a: int, b: int| 0 <= a < b < self.controls@.len() implies (
            #[trigger] self.controls@[a]).name@ != (#[trigger] self.controls@[b]).name@ by {
                assert(before[a].name@ != before[b].name@);
            }
        }
    }

    /// A control gives its output up. Only the owner can: a control that has
    /// lost the output changes nothing. The result is the hold that is over; its
    /// original ramp is to be put back.
    pub fn release(&mut self, name: &str, resource: u64) -> (r: Option<GammaControl>)
        requires
            old(self).wf(),
        ensures
            final(self).wf(),
            match r {
                Some(c) => exists|i: int|
                    {
                        &&& #[trigger] old(self).held_at(name@, i)
                        &&& old(self).controls@[i].owner == GammaOwner::Client(resource)
                        &&& c == old(self).controls@[i]
                        &&& final(self).controls@ == old(self).controls@.remove(i)
                    },
                None => {
                    &&& final(self).controls@ == old(self).controls@
                    &&& forall|i: int|
                        #[trigger] old(self).held_at(name@, i) ==> old(self).controls@[i].owner
                            != GammaOwner::Client(resource)
                },
            },
    {
        match self.holder(name, resource) {
            Some(i) => {
                let ghost before = self.controls@;
                let c = self.controls.remove(i);
                proof {
                    assert(old(self).held_at(name@, i as int));
                    lemma_remove_distinct(before, i as int);
                }
                Some(c)
            },
            None => None,
        }
    }

    /// Gives up what the manager itself has set, on the output or on all of
    /// them. The result lists the holds that are over; their original ramps are
    /// to be put back. Clients keep theirs.
    pub fn reset_ipc(&mut self, filter: Option<&str>) -> (r: Vec<GammaControl>)
        requires
            old(self).wf(),
        ensures
            final(self).wf(),
            reset_done(*old(self), crate::text::opt_str_view(filter), r@, *final(self)),
    {
        let ghost f = crate::text::opt_str_view(filter);
        let ghost all = self.controls@;
        let ghost p = reset_by(f);
        let ghost q = kept_by(f);
        let ghost mut k: int = 0;
        let mut out: Vec<GammaControl> = Vec::new();
        let mut i: usize = 0;
        proof {
            reveal(Seq::filter);
            assert(all.take(0).filter(p) =~= Seq::empty());
            assert(all.take(0).filter(q) =~= Seq::empty());
            assert(self.controls@ =~= all.take(0).filter(q) + all.skip(0));
        }
        while i < self.controls.len()
            invariant
                0 <= k <= all.len(),
                f == crate::text::opt_str_view(filter),
                p == reset_by(f),
                q == kept_by(f),
                self.controls@ == all.take(k).filter(q) + all.skip(k),
                i == all.take(k).filter(q).len(),
                out@ == all.take(k).filter(p),
            decreases all.len() - k,
        {
            let ghost kept = all.take(k).filter(q);
            proof {
                reveal(Seq::filter);
                assert(self.controls@[i as int] == all.skip(k)[0]);
                assert(self.controls@[i as int] == all[k]);
                assert(all.take(k + 1).drop_last() =~= all.take(k));
                assert(all.take(k + 1).last() == all[k]);
            }
            let named = match filter {
                Some(n) => str_eq(self.controls[i].name.as_str(), n),
                None => true,
            };
            let own = match self.controls[i].owner {
                GammaOwner::Ipc => true,
                GammaOwner::Client(_) => false,
            };
            if own && named {
                let c = self.controls.remove(i);
                out.push(c);
                assert(self.controls@ =~= kept + all.skip(k + 1));
            } else {
                assert(self.controls@ =~= kept.push(all[k]) + all.skip(k + 1));
                i += 1;
            }
            proof {
                k = k + 1;
            }
        }
        proof {
            assert(all.skip(k).len() == 0);
            assert(all.take(k) =~= all);
            assert(self.controls@ =~= all.filter(q));
            lemma_filter_distinct(all, q);
        }
        out
    }
}

/// What a change of owner leaves behind: the new hold comes last, the old one on
/// the output is gone, and the others stay. The ramp to put back is handed on
/// from the owner before; without one it is the output's own, and without that
/// the one that corrects nothing.
pub open spec fn taken_over(
    before: GammaControlState,
    target: GammaTarget,
    owner: GammaOwner,
    read: Option<GammaRamp>,
    current: Option<GammaRamp>,
    after: GammaControlState,
    failed: Option<u64>,
) -> bool {
    let c = after.controls@.last();
    let n = target.size as int;
    &&& after.controls@.len() > 0
    &&& c.name@ == target.name@
    &&& c.owner == owner
    &&& c.node == target.node
    &&& c.crtc == target.crtc
    &&& c.size == target.size
    &&& c.current == current
    &&& forall|i: int| #[trigger] before.held_at(target.name@, i) ==> {
        &&& c.original == before.controls@[i].original
        &&& after.controls@.drop_last() == before.controls@.remove(i)
        &&& failed == (match before.controls@[i].owner {
            GammaOwner::Client(x) => Some(x),
            GammaOwner::Ipc => None,
        })
    }
    &&& before.free(target.name@) ==> {
        &&& failed is None
        &&& after.controls@.drop_last() == before.controls@
        &&& read matches Some(ramp) ==> c.original == ramp
        &&& read is None ==> is_linear(c.original.red@, n) && is_linear(c.original.green@, n)
            && is_linear(c.original.blue@, n)
    }
}

/// A change of owner: what `taken_over` relates two states by.
pub struct Takeover {
    pub target: GammaTarget,
    pub owner: GammaOwner,
    pub read: Option<GammaRamp>,
    pub current: Option<GammaRamp>,
    pub failed: Option<u64>,
}

/// Whether the state at `i` turns into the next one by the change at `i`.
pub open spec fn takeover_step(
    states: Seq<GammaControlState>,
    steps: Seq<Takeover>,
    i: int,
) -> bool {
    taken_over(
        states[i],
        steps[i].target,
        steps[i].owner,
        steps[i].read,
        steps[i].current,
        states[i + 1],
        steps[i].failed,
    )
}

/// However often an output changes owners, the ramp to put back stays the one
/// from before the first of them, and every client that loses the output is
/// told.
pub proof fn law_original_survives(
    states: Seq<GammaControlState>,
    steps: Seq<Takeover>,
    name: Seq<char>,
    k: int,
)
    requires
        states.len() == steps.len() + 1,
        forall|i: int| 0 <= i < steps.len() ==> #[trigger] takeover_step(states, steps, i),
        forall|i: int| 0 <= i < steps.len() ==> (#[trigger] steps[i]).target.name@ == name,
        1 <= k <= steps.len(),
    ensures
        states[k].held_at(name, states[k].controls@.len() - 1),
        states[k].controls@.last().original == states[1].controls@.last().original,
        k >= 2 ==> steps[k - 1].failed == (match steps[k - 2].owner {
            GammaOwner::Client(c) => Some(c),
            GammaOwner::Ipc => None,
        }),
    decreases k,
{
    assert(takeover_step(states, steps, k - 1));
    assert(steps[k - 1].target.name@ == name);
    if k >= 2 {
        law_original_survives(states, steps, name, k - 1);
        assert(takeover_step(states, steps, k - 2));
        assert(states[k - 1].held_at(name, states[k - 1].controls@.len() - 1));
    }
}

/// The entry `i` of a table: the red entries, then the green ones, then the blue
/// ones.
pub open spec fn table_entry(r: RampView, i: int) -> u16 {
    let n = r.red.len();
    if i < n {
        r.red[i]
    } else if i < 2 * n {
        r.green[i - n]
    } else {
        r.blue[i - 2 * n]
    }
}

/// The table of a ramp in the given byte order.
pub open spec fn table_of(r: RampView, little: bool) -> Seq<u8> {
    Seq::new(
        6 * r.red.len(),
        |k: int|
            {
                let x = table_entry(r, k / 2) as int;
                if (k % 2 == 0) == little {
                    (x % 256) as u8
                } else {
                    (x / 256) as u8
                }
            },
    )
}

/// Reading a table gives back the ramp that it was written from, in the same
/// byte order, and nothing else.
pub proof fn law_table_reads_back(r: RampView, other: RampView, little: bool)
    requires
        r.red.len() == r.green.len() == r.blue.len(),
    ensures
        table_of(r, little).len() == 6 * r.red.len(),
        ramp_of(table_of(r, little), r.red.len() as int, r, little),
        ramp_of(table_of(r, little), r.red.len() as int, other, little) ==> other == r,
{
    let n = r.red.len() as int;
    let t = table_of(r, little);
    assert forall|i: int| 0 <= i < 3 * n implies crate::wire::u16_of(
        #[trigger] t[2 * i],
        t[2 * i + 1],
        little,
    ) == table_entry(r, i) by {
        assert((2 * i) / 2 == i && (2 * i + 1) / 2 == i);
        assert((2 * i) % 2 == 0 && (2 * i + 1) % 2 == 1);
    }
    assert forall|i: int| 0 <= i < n implies #[trigger] r.red[i] == crate::wire::u16_of(
        t[2 * (0 + i)],
        t[2 * (0 + i) + 1],
        little,
    ) by {
        assert(table_entry(r, i) == r.red[i]);
    }
    assert forall|i: int| 0 <= i < n implies #[trigger] r.green[i] == crate::wire::u16_of(
        t[2 * (n + i)],
        t[2 * (n + i) + 1],
        little,
    ) by {
        assert(table_entry(r, n + i) == r.green[i]);
    }
    assert forall|i: int| 0 <= i < n implies #[trigger] r.blue[i] == crate::wire::u16_of(
        t[2 * (2 * n + i)],
        t[2 * (2 * n + i) + 1],
        little,
    ) by {
        assert(table_entry(r, 2 * n + i) == r.blue[i]);
    }
    if ramp_of(t, n, other, little) {
        assert(other.red =~= r.red);
        assert(other.green =~= r.green);
        assert(other.blue =~= r.blue);
    }
}

/// Whether a reset reaches a hold: the manager itself owns it, and its output is
/// the one named, if one is.
pub open spec fn resets(c: GammaControl, filter: Option<Seq<char>>) -> bool {
    c.owner == GammaOwner::Ipc && match filter {
        Some(f) => c.name@ == f,
        None => true,
    }
}

/// The holds that a reset reaches.
pub open spec fn reset_by(filter: Option<Seq<char>>) -> spec_fn(GammaControl) -> bool {
    |c: GammaControl| resets(c, filter)
}

/// The holds that a reset leaves alone.
pub open spec fn kept_by(filter: Option<Seq<char>>) -> spec_fn(GammaControl) -> bool {
    |c: GammaControl| !resets(c, filter)
}

/// What a reset ends and what it leaves, each in order.
pub open spec fn reset_done(
    before: GammaControlState,
    filter: Option<Seq<char>>,
    ended: Seq<GammaControl>,
    after: GammaControlState,
) -> bool {
    &&& ended == before.controls@.filter(reset_by(filter))
    &&& after.controls@ == before.controls@.filter(kept_by(filter))
}

/// Whether no two holds are on one output.
pub open spec fn distinct(s: Seq<GammaControl>) -> bool {
    forall|i: int, j: int|
        0 <= i < j < s.len() ==> (#[trigger] s[i]).name@ != (#[trigger] s[j]).name@
}

proof fn lemma_remove_distinct(s: Seq<GammaControl>, i: int)
    requires
        distinct(s),
        0 <= i < s.len(),
    ensures
        distinct(s.remove(i)),
{
    let r = s.remove(i);
    assert forall|a: int, b: int| 0 <= a < b < r.len() implies (#[trigger] r[a]).name@ != (
    #[trigger] r[b]).name@ by {
        let oa = if a < i {
            a
        } else {
            a + 1
        };
        let ob = if b < i {
            b
        } else {
            b + 1
        };
        assert(s[oa].name@ != s[ob].name@);
    }
}

proof fn lemma_filter_distinct(s: Seq<GammaControl>, p: spec_fn(GammaControl) -> bool)
    requires
        distinct(s),
    ensures
        distinct(s.filter(p)),
        forall|k: int| 0 <= k < s.filter(p).len() ==> s.contains(#[trigger] s.filter(p)[k]),
    decreases s.len(),
{
    reveal(Seq::filter);
    if s.len() > 0 {
        let t = s.drop_last();
        assert forall|i: int, j: int| 0 <= i < j < t.len() implies (#[trigger] t[i]).name@ != (
        #[trigger] t[j]).name@ by {
            assert(s[i].name@ != s[j].name@);
        }
        lemma_filter_distinct(t, p);
        let f = s.filter(p);
        let g = t.filter(p);
        assert forall|k: int| 0 <= k < f.len() implies s.contains(#[trigger] f[k]) by {
            if k < g.len() {
                assert(f[k] == g[k]);
                let x = choose|x: int| 0 <= x < t.len() && t[x] == g[k];
                assert(s[x] == f[k]);
            } else {
                assert(s[s.len() - 1] == f[k]);
            }
        }
        assert forall|i: int, j: int| 0 <= i < j < f.len() implies (#[trigger] f[i]).name@ != (
        #[trigger] f[j]).name@ by {
            assert(f[i] == g[i]);
            if j < g.len() {
                assert(f[j] == g[j]);
            } else {
                let x = choose|x: int| 0 <= x < t.len() && t[x] == g[i];
                assert(s[x].name@ != s[s.len() - 1].name@);
            }
        }
    }
}

/// What is done with a ramp for an output.
#[derive(Clone, Copy, Debug, PartialEq, Eq, Structural)]
pub enum ApplyStep {
    /// It cannot be put into effect.
    Refuse,
    /// It waits until the terminal is active again, and counts as done.
    Later,
    /// It is handed to the device.
    Push,
}

/// What is done with a ramp: `vt_active` is none without a device backend;
/// `known` tells whether the output's device is there.
pub fn apply_gamma(vt_active: Option<bool>, known: bool) -> (r: ApplyStep)
    ensures
        r == (match vt_active {
            None => ApplyStep::Refuse,
            Some(false) => ApplyStep::Later,
            Some(true) => if known {
                ApplyStep::Push
            } else {
                ApplyStep::Refuse
            },
        }),
{
    match vt_active {
        None => ApplyStep::Refuse,
        Some(active) => if !active {
            ApplyStep::Later
        } else if known {
            ApplyStep::Push
        } else {
            ApplyStep::Refuse
        },
    }
}

/// What is wrong with a request to set the gamma, apart from its outputs: the
/// temperature is looked at first, then the brightness, then the exponent.
pub open spec fn gamma_range_error(
    temperature: u32,
    brightness_ok: bool,
    brightness: Seq<char>,
    gamma_ok: bool,
    gamma: Seq<char>,
) -> Option<Seq<char>> {
    if !(1000 <= temperature <= 25000) {
        Some(
            "temperature "@ + crate::text::decimal(temperature as nat)
                + "K out of range (1000–25000)"@,
        )
    } else if !brightness_ok {
        Some("brightness "@ + brightness + " out of range (0.1–1.0)"@)
    } else if !gamma_ok {
        Some("gamma "@ + gamma + " out of range (0.1–10.0)"@)
    } else {
        None
    }
}

/// The places of the outputs that a request to set the gamma reaches.
pub open spec fn gamma_places(capable: Seq<GammaTarget>, filter: Option<Seq<char>>) -> Seq<int>
    decreases capable.len(),
{
    if capable.len() == 0 {
        Seq::empty()
    } else {
        let k = capable.len() - 1;
        let before = gamma_places(capable.drop_last(), filter);
        if filter is None || capable[k].name@ == filter->0 {
            before.push(k)
        } else {
            before
        }
    }
}

/// Why a request to set the gamma is refused: something is out of range, or it
/// reaches no output.
pub open spec fn gamma_fault(
    capable: Seq<GammaTarget>,
    filter: Option<Seq<char>>,
    range: Option<Seq<char>>,
) -> Option<Seq<char>> {
    if range is Some {
        range
    } else if gamma_places(capable, filter).len() == 0 {
        Some(
            match filter {
                Some(n) => "no gamma-capable output named '"@ + n + "'"@,
                None => "no gamma-capable outputs"@,
            },
        )
    } else {
        None
    }
}

/// The outputs that a request to set the gamma reaches, by their places among
/// those whose ramp can be set. `brightness_ok` and `gamma_ok` tell whether
/// these are in range; the texts are what the error calls them.
pub fn plan_gamma(
    capable: &Vec<GammaTarget>,
    filter: Option<&str>,
    temperature: u32,
    brightness_ok: bool,
    brightness: &str,
    gamma_ok: bool,
    gamma: &str,
) -> (r: Result<Vec<usize>, String>)
    ensures
        ({
            let f = crate::text::opt_str_view(filter);
            let range = gamma_range_error(
                temperature,
                brightness_ok,
                brightness@,
                gamma_ok,
                gamma@,
            );
            let places = gamma_places(capable@, f);
            match r {
                Ok(v) => {
                    &&& gamma_fault(capable@, f, range) is None
                    &&& v@.len() == places.len()
                    &&& forall|i: int| 0 <= i < v@.len() ==> #[trigger] v@[i] == places[i]
                },
                Err(m) => gamma_fault(capable@, f, range) == Some(m@),
            }
        }),
{
    if !(1000 <= temperature && temperature <= 25000) {
        let t = decimal_string(temperature as u64);
        return Err(concat3("temperature ", t.as_str(), "K out of range (1000–25000)"));
    }
    if !brightness_ok {
        return Err(concat3("brightness ", brightness, " out of range (0.1–1.0)"));
    }
    if !gamma_ok {
        return Err(concat3("gamma ", gamma, " out of range (0.1–10.0)"));
    }
    let ghost f = crate::text::opt_str_view(filter);
    let ghost all = capable@;
    let mut v: Vec<usize> = Vec::new();
    let mut i: usize = 0;
    while i < capable.len()
        invariant
            i <= all.len(),
            all == capable@,
            f == crate::text::opt_str_view(filter),
            v@.len() == gamma_places(all.take(i as int), f).len(),
            forall|k: int|
                0 <= k < v@.len() ==> #[trigger] v@[k] == gamma_places(all.take(i as int), f)[k],
        decreases all.len() - i,
    {
        proof {
            assert(all.take(i + 1).drop_last() =~= all.take(i as int));
            assert(all.take(i + 1)[i as int] == all[i as int]);
        }
        let named = match filter {
            Some(n) => str_eq(capable[i].name.as_str(), n),
            None => true,
        };
        if named {
            v.push(i);
        }
        i += 1;
    }
    assert(all.take(i as int) =~= all);
    if v.len() == 0 {
        return Err(
            match filter {
                Some(n) => concat3("no gamma-capable output named '", n, "'"),
                None => "no gamma-capable outputs".to_owned(),
            },
        );
    }
    Ok(v)
}

/// An output whose gamma is set: its new ramp, the one that it had, where that
/// was read, and whether the device took the new one.
#[derive(Debug)]
pub struct GammaSet {
    pub target: GammaTarget,
    pub ramp: GammaRamp,
    pub read: Option<GammaRamp>,
    pub applied: bool,
}

/// What was done to an output whose gamma is set: its new ramp, the one that it
/// had, where that was read, and whether the device took the new one.
#[derive(Debug)]
pub struct GammaDone {
    pub ramp: GammaRamp,
    pub read: Option<GammaRamp>,
    pub applied: bool,
}

/// The outputs at the places, each with what was done to it.
pub open spec fn gamma_sets(
    capable: Seq<GammaTarget>,
    places: Seq<int>,
    done: Seq<GammaDone>,
) -> Seq<GammaSet> {
    Seq::new(
        places.len(),
        |i: int|
            GammaSet {
                target: capable[places[i]],
                ramp: done[i].ramp,
                read: done[i].read,
                applied: done[i].applied,
            },
    )
}

proof fn lemma_places_within(capable: Seq<GammaTarget>, filter: Option<Seq<char>>, i: int)
    requires
        0 <= i < gamma_places(capable, filter).len(),
    ensures
        0 <= gamma_places(capable, filter)[i] < capable.len(),
    decreases capable.len(),
{
    let before = gamma_places(capable.drop_last(), filter);
    if i < before.len() {
        lemma_places_within(capable.drop_last(), filter, i);
    }
}

/// Whether the state at `i` turns into the next one when the manager takes the
/// output at `i`.
pub open spec fn set_step(
    states: Seq<GammaControlState>,
    sets: Seq<GammaSet>,
    lost: Seq<Option<u64>>,
    i: int,
) -> bool {
    taken_over(
        states[i],
        sets[i].target,
        GammaOwner::Ipc,
        sets[i].read,
        Some(sets[i].ramp),
        states[i + 1],
        lost[i],
    )
}

/// Whether the manager takes the outputs one after the other, from the first
/// state to the last. `lost` tells the client that has lost each.
pub open spec fn set_steps(
    states: Seq<GammaControlState>,
    sets: Seq<GammaSet>,
    lost: Seq<Option<u64>>,
) -> bool {
    &&& states.len() == sets.len() + 1
    &&& lost.len() == sets.len()
    &&& forall|i: int| 0 <= i < sets.len() ==> #[trigger] set_step(states, sets, lost, i)
}

/// Whether the manager takes the outputs one after the other.
pub open spec fn all_taken(
    before: GammaControlState,
    sets: Seq<GammaSet>,
    lost: Seq<Option<u64>>,
    after: GammaControlState,
) -> bool {
    exists|states: Seq<GammaControlState>|
        #[trigger] set_steps(states, sets, lost) && states.first() == before && states.last()
            == after
}

/// How many outputs took their new ramps.
pub open spec fn taken_count(sets: Seq<GammaSet>) -> nat
    decreases sets.len(),
{
    if sets.len() == 0 {
        0
    } else {
        taken_count(sets.drop_last()) + if sets.last().applied {
            1nat
        } else {
            0nat
        }
    }
}

/// What comes of a client's table.
#[derive(Debug)]
pub enum TableOutcome {
    /// It is in effect.
    Stored,
    /// The client is told of its mistake.
    ProtocolError,
    /// The control has failed; the ramp of the hold that is over is put back.
    Failed(Option<GammaControl>),
}

impl ShoestringWm {
    /// A client asks for control of an output; `target` is none where the output
    /// is not known or has no ramp. The result is none where the control fails
    /// at once, else the client that has lost the output.
    pub fn create_control(
        &mut self,
        target: Option<&GammaTarget>,
        resource: u64,
        read: Option<GammaRamp>,
    ) -> (r: Option<Option<u64>>)
        requires
            old(self).gamma_control.wf(),
        ensures
            final(self).gamma_control.wf(),
            *final(self) == (ShoestringWm {
                gamma_control: final(self).gamma_control,
                ..*old(self)
            }),
            match target {
                None => r is None && *final(self) == *old(self),
                Some(t) => r is Some && taken_over(
                    old(self).gamma_control,
                    *t,
                    GammaOwner::Client(resource),
                    read,
                    None,
                    final(self).gamma_control,
                    r->0,
                ),
            },
    {
        match target {
            None => None,
            Some(t) => Some(
                self.gamma_control.take_over(t, GammaOwner::Client(resource), read, None),
            ),
        }
    }

    /// A client's table for an output that its control still owns, at the place
    /// `i`: `read` is the table or why it was not read, and `applied` tells
    /// whether the device took it.
    pub fn gamma_table(
        &mut self,
        i: usize,
        read: Result<GammaRamp, GammaReadError>,
        applied: bool,
    ) -> (r: TableOutcome)
        requires
            old(self).gamma_control.wf(),
            i < old(self).gamma_control.controls@.len(),
        ensures
            final(self).gamma_control.wf(),
            *final(self) == (ShoestringWm {
                gamma_control: final(self).gamma_control,
                ..*old(self)
            }),
            ({
                let b = old(self).gamma_control.controls@;
                let a = final(self).gamma_control.controls@;
                match read {
                    Ok(ramp) => if applied {
                        &&& r is Stored
                        &&& a == b.update(
                            i as int,
                            GammaControl { current: Some(ramp), ..b[i as int] },
                        )
                    } else {
                        &&& r == TableOutcome::Failed(Some(b[i as int]))
                        &&& a == b.remove(i as int)
                    },
                    Err(GammaReadError::BadSize) => r is ProtocolError && a == b,
                    Err(GammaReadError::Io) => {
                        &&& r == TableOutcome::Failed(Some(b[i as int]))
                        &&& a == b.remove(i as int)
                    },
                }
            }),
    {
        let give_up = match read {
            Ok(ramp) => {
                if applied {
                    self.gamma_control.store(i, ramp);
                    return TableOutcome::Stored;
                }
                true
            },
            Err(GammaReadError::BadSize) => false,
            Err(GammaReadError::Io) => true,
        };
        if give_up {
            let ghost before = self.gamma_control.controls@;
            let c = self.gamma_control.controls.remove(i);
            proof {
                lemma_remove_distinct(before, i as int);
            }
            TableOutcome::Failed(Some(c))
        } else {
            TableOutcome::ProtocolError
        }
    }

    /// A control is gone: its output's original ramp is put back, where it still
    /// owned the output.
    pub fn release_gamma_control(&mut self, name: &str, resource: u64) -> (r: Option<GammaControl>)
        requires
            old(self).gamma_control.wf(),
        ensures
            final(self).gamma_control.wf(),
            *final(self) == (ShoestringWm {
                gamma_control: final(self).gamma_control,
                ..*old(self)
            }),
            ({
                let b = old(self).gamma_control;
                let a = final(self).gamma_control.controls@;
                match r {
                    Some(c) => exists|i: int|
                        {
                            &&& #[trigger] b.held_at(name@, i)
                            &&& b.controls@[i].owner == GammaOwner::Client(resource)
                            &&& c == b.controls@[i]
                            &&& a == b.controls@.remove(i)
                        },
                    None => {
                        &&& a == b.controls@
                        &&& forall|i: int|
                            #[trigger] b.held_at(name@, i) ==> b.controls@[i].owner
                                != GammaOwner::Client(resource)
                    },
                }
            }),
    {
        self.gamma_control.release(name, resource)
    }

    /// The holds whose ramps are to be put into effect again after the terminal
    /// was away, by their places: those with a ramp, in order.
    pub fn reapply_all_gamma(&self) -> (r: Vec<usize>)
        ensures
            forall|i: int|
                0 <= i < r@.len() ==> (#[trigger] r@[i]) < self.gamma_control.controls@.len()
                    && self.gamma_control.controls@[r@[i] as int].current is Some,
            forall|i: int, j: int| 0 <= i < j < r@.len() ==> #[trigger] r@[i] < #[trigger] r@[j],
            forall|k: usize|
                k < self.gamma_control.controls@.len() && (
                #[trigger] self.gamma_control.controls@[k as int]).current is Some ==> r@.contains(k),
    {
        let mut r: Vec<usize> = Vec::new();
        let mut i: usize = 0;
        while i < self.gamma_control.controls.len()
            invariant
                i <= self.gamma_control.controls@.len(),
                forall|a: int|
                    0 <= a < r@.len() ==> (#[trigger] r@[a]) < i
                        && self.gamma_control.controls@[r@[a] as int].current is Some,
                forall|a: int, b: int| 0 <= a < b < r@.len() ==> #[trigger] r@[a] < #[trigger] r@[b],
                forall|k: usize|
                    k < i && (#[trigger] self.gamma_control.controls@[k as int]).current is Some
                        ==> r@.contains(k),
            decreases self.gamma_control.controls@.len() - i,
        {
            let ghost before = r@;
            if self.gamma_control.controls[i].current.is_some() {
                r.push(i);
                assert(r@[before.len() as int] == i);
            }
            proof {
                assert forall|k: usize|
                    k < i + 1 && (
                    #[trigger] self.gamma_control.controls@[k as int]).current is Some implies r@.contains(
                k) by {
                    if k < i {
                        let x = choose|x: int| 0 <= x < before.len() && before[x] == k;
                        assert(r@[x] == k);
                    }
                }
            }
            i += 1;
        }
        r
    }

    /// A request to set the gamma, with what was done to each output that it
    /// reaches. It is judged first: one that is refused changes nothing, and the
    /// result is why. Else the manager takes the outputs. The result then tells
    /// how many took their ramps; that none did is an error. Beside it are the
    /// clients that have lost the outputs.
    pub fn set_gamma_ipc(
        &mut self,
        capable: &Vec<GammaTarget>,
        filter: Option<&str>,
        temperature: u32,
        brightness_ok: bool,
        brightness: &str,
        gamma_ok: bool,
        gamma: &str,
        done: Vec<GammaDone>,
    ) -> (r: (Result<usize, String>, Vec<Option<u64>>))
        requires
            old(self).gamma_control.wf(),
            ({
                let f = crate::text::opt_str_view(filter);
                let range = gamma_range_error(
                    temperature,
                    brightness_ok,
                    brightness@,
                    gamma_ok,
                    gamma@,
                );
                gamma_fault(capable@, f, range) is None ==> done@.len() == gamma_places(
                    capable@,
                    f,
                ).len()
            }),
        ensures
            final(self).gamma_control.wf(),
            *final(self) == (ShoestringWm {
                gamma_control: final(self).gamma_control,
                ..*old(self)
            }),
            ({
                let f = crate::text::opt_str_view(filter);
                let range = gamma_range_error(
                    temperature,
                    brightness_ok,
                    brightness@,
                    gamma_ok,
                    gamma@,
                );
                let sets = gamma_sets(capable@, gamma_places(capable@, f), done@);
                match gamma_fault(capable@, f, range) {
                    Some(fault) => {
                        &&& *final(self) == *old(self)
                        &&& r.0 matches Err(m)
                        &&& m@ == fault
                        &&& r.1@.len() == 0
                    },
                    None => {
                        &&& all_taken(
                            old(self).gamma_control,
                            sets,
                            r.1@,
                            final(self).gamma_control,
                        )
                        &&& match r.0 {
                            Ok(n) => n == taken_count(sets) && n > 0,
                            Err(m) => taken_count(sets) == 0 && m@
                                == "the DRM driver rejected the gamma ramp"@,
                        }
                    },
                }
            }),
    {
        let places = match plan_gamma(
            capable,
            filter,
            temperature,
            brightness_ok,
            brightness,
            gamma_ok,
            gamma,
        ) {
            Ok(places) => places,
            Err(message) => {
                return (Err(message), Vec::new());
            },
        };
        let ghost f = crate::text::opt_str_view(filter);
        let ghost want = gamma_sets(capable@, gamma_places(capable@, f), done@);
        let ghost all = done@;
        let mut sets: Vec<GammaSet> = Vec::new();
        let mut left = done;
        let mut i: usize = 0;
        assert(left@ =~= all.skip(0));
        while i < places.len()
            invariant
                i <= places@.len(),
                left@ == all.skip(i as int),
                all.len() == places@.len(),
                places@.len() == gamma_places(capable@, f).len(),
                forall|k: int|
                    0 <= k < places@.len() ==> #[trigger] places@[k] == gamma_places(
                        capable@,
                        f,
                    )[k],
                want == gamma_sets(capable@, gamma_places(capable@, f), all),
                sets@ == want.take(i as int),
            decreases places@.len() - i,
        {
            proof {
                lemma_places_within(capable@, f, i as int);
            }
            let d = left.remove(0);
            assert(d == all[i as int]);
            let t = &capable[places[i]];
            let target = GammaTarget {
                name: t.name.clone(),
                node: t.node,
                crtc: t.crtc,
                size: t.size,
            };
            sets.push(GammaSet { target, ramp: d.ramp, read: d.read, applied: d.applied });
            i += 1;
            assert(left@ =~= all.skip(i as int));
            assert(sets@ =~= want.take(i as int));
        }
        assert(sets@ =~= want);
        self.take_outputs(sets)
    }

    /// The manager takes outputs, with ramps of its own. The result tells how
    /// many outputs took their ramps; that none did is an error. Beside it are
    /// the clients that have lost the outputs.
    pub fn take_outputs(&mut self, sets: Vec<GammaSet>) -> (r: (
        Result<usize, String>,
        Vec<Option<u64>>,
    ))
        requires
            old(self).gamma_control.wf(),
        ensures
            final(self).gamma_control.wf(),
            *final(self) == (ShoestringWm {
                gamma_control: final(self).gamma_control,
                ..*old(self)
            }),
            all_taken(old(self).gamma_control, sets@, r.1@, final(self).gamma_control),
            match r.0 {
                Ok(n) => n == taken_count(sets@) && n > 0,
                Err(m) => taken_count(sets@) == 0 && m@
                    == "the DRM driver rejected the gamma ramp"@,
            },
    {
        let ghost all = sets@;
        let n: usize = sets.len();
        let mut left = sets;
        let mut lost: Vec<Option<u64>> = Vec::new();
        let mut applied: usize = 0;
        let ghost mut states: Seq<GammaControlState> = seq![self.gamma_control];
        let ghost mut i: int = 0;
        assert(left@ =~= all.skip(0));
        while left.len() > 0
            invariant
                0 <= i <= all.len(),
                left@ == all.skip(i),
                self.gamma_control.wf(),
                *self == (ShoestringWm { gamma_control: self.gamma_control, ..*old(self) }),
                states.len() == i + 1,
                states.first() == old(self).gamma_control,
                states.last() == self.gamma_control,
                lost@.len() == i,
                forall|k: int| 0 <= k < i ==> #[trigger] set_step(states, all, lost@, k),
                applied == taken_count(all.take(i)),
                applied <= i,
                all.len() == n,
            decreases left@.len(),
        {
            let ghost states0 = states;
            let ghost lost0 = lost@;
            let s = left.remove(0);
            assert(s == all[i]);
            let ok = s.applied;
            let gone = self.gamma_control.take_over(
                &s.target,
                GammaOwner::Ipc,
                s.read,
                Some(s.ramp),
            );
            lost.push(gone);
            proof {
                states = states.push(self.gamma_control);
                assert forall|k: int| 0 <= k < i + 1 implies #[trigger] set_step(
                    states,
                    all,
                    lost@,
                    k,
                ) by {
                    if k < i {
                        assert(set_step(states0, all, lost0, k));
                    }
                }
                assert(all.take(i + 1).drop_last() =~= all.take(i));
                assert(all.take(i + 1).last() == all[i]);
                i = i + 1;
                assert(left@ =~= all.skip(i));
            }
            if ok {
                applied += 1;
            }
        }
        proof {
            assert(i == all.len());
            assert(all.take(i) =~= all);
            assert(set_steps(states, all, lost@));
            assert(all_taken(old(self).gamma_control, all, lost@, self.gamma_control));
        }
        let outcome: Result<usize, String> = if applied == 0 {
            Err("the DRM driver rejected the gamma ramp".to_owned())
        } else {
            Ok(applied)
        };
        (outcome, lost)
    }

    /// Gives up the manager's own ramps on the output or on all of them; clients
    /// keep theirs. The result lists the holds that are over.
    pub fn reset_gamma_ipc(&mut self, filter: Option<&str>) -> (r: Vec<GammaControl>)
        requires
            old(self).gamma_control.wf(),
        ensures
            final(self).gamma_control.wf(),
            *final(self) == (ShoestringWm {
                gamma_control: final(self).gamma_control,
                ..*old(self)
            }),
            reset_done(
                old(self).gamma_control,
                crate::text::opt_str_view(filter),
                r@,
                final(self).gamma_control,
            ),
    {
        self.gamma_control.reset_ipc(filter)
    }
}

/// What happens to the ramps, as seen from one output: the manager takes outputs,
/// or something else that leaves the output's hold alone.
pub enum GammaEvent {
    Takes { sets: Seq<GammaSet>, lost: Seq<Option<u64>> },
    Elsewhere,
}

/// Whether two states agree on an output: nobody owns it in either, or the same
/// hold is on it.
pub open spec fn same_hold(a: GammaControlState, b: GammaControlState, name: Seq<char>) -> bool {
    &&& a.free(name) <==> b.free(name)
    &&& forall|i: int, j: int| #[trigger]
        a.held_at(name, i) && #[trigger] b.held_at(name, j) ==> a.controls@[i] == b.controls@[j]
}

/// Whether a state follows from one before by what happens.
pub open spec fn gamma_step(
    before: GammaControlState,
    e: GammaEvent,
    after: GammaControlState,
    name: Seq<char>,
) -> bool {
    match e {
        GammaEvent::Takes { sets, lost } => all_taken(before, sets, lost, after),
        GammaEvent::Elsewhere => after.wf() && same_hold(before, after, name),
    }
}

/// Whether the first of some sets on an output comes with the output's ramp.
pub open spec fn first_set(sets: Seq<GammaSet>, name: Seq<char>, ramp: GammaRamp, j: int) -> bool {
    &&& 0 <= j < sets.len()
    &&& sets[j].target.name@ == name
    &&& sets[j].read == Some(ramp)
    &&& forall|i: int| 0 <= i < j ==> (#[trigger] sets[i]).target.name@ != name
}

/// Whether the manager holds an output, with the ramp to put back.
pub open spec fn own_hold(s: GammaControlState, name: Seq<char>, ramp: GammaRamp) -> bool {
    exists|i: int| #[trigger]
        s.held_at(name, i) && s.controls@[i].owner == GammaOwner::Ipc && s.controls@[i].original
            == ramp
}

proof fn lemma_taken(
    before: GammaControlState,
    t: GammaTarget,
    owner: GammaOwner,
    read: Option<GammaRamp>,
    current: Option<GammaRamp>,
    after: GammaControlState,
    failed: Option<u64>,
    name: Seq<char>,
)
    requires
        before.wf(),
        taken_over(before, t, owner, read, current, after, failed),
    ensures
        after.wf(),
        after.held_at(t.name@, after.controls@.len() - 1),
        t.name@ != name ==> same_hold(before, after, name),
{
    let b = before.controls@;
    let a = after.controls@;
    let rest = a.drop_last();
    assert(a =~= rest.push(a.last()));
    if before.free(t.name@) {
        assert(rest == b);
        assert forall|i: int| 0 <= i < b.len() implies (#[trigger] b[i]).name@ != t.name@ by {
            assert(!before.held_at(t.name@, i));
        }
        assert forall|i: int| #[trigger] before.held_at(name, i) implies after.held_at(
            name,
            i,
        ) && a[i] == b[i] by {
            assert(a[i] == rest[i]);
        }
        assert forall|i: int| t.name@ != name && #[trigger] after.held_at(
            name,
            i,
        ) implies before.held_at(name, i) && a[i] == b[i] by {
            assert(i < rest.len());
            assert(a[i] == rest[i]);
        }
    } else {
        let k = choose|k: int| before.held_at(t.name@, k);
        assert(before.held_at(t.name@, k));
        assert(rest == b.remove(k));
        lemma_remove_distinct(b, k);
        assert forall|i: int| 0 <= i < rest.len() implies (#[trigger] rest[i]).name@
            != t.name@ by {
            let o = if i < k {
                i
            } else {
                i + 1
            };
            assert(rest[i] == b[o]);
            assert(b[o].name@ != b[k].name@);
        }
        assert forall|i: int| t.name@ != name && #[trigger] before.held_at(name, i) implies ({
            let o = if i < k {
                i
            } else {
                i - 1
            };
            after.held_at(name, o) && a[o] == b[i]
        }) by {
            let o = if i < k {
                i
            } else {
                i - 1
            };
            assert(rest[o] == b[i]);
            assert(a[o] == rest[o]);
        }
        assert forall|i: int| t.name@ != name && #[trigger] after.held_at(name, i) implies ({
            let o = if i < k {
                i
            } else {
                i + 1
            };
            before.held_at(name, o) && b[o] == a[i]
        }) by {
            assert(i < rest.len());
            assert(a[i] == rest[i]);
        }
    }
    assert forall|i: int, j: int| 0 <= i < j < a.len() implies (#[trigger] a[i]).name@ != (
    #[trigger] a[j]).name@ by {
        assert(a[i] == rest[i]);
        if j < rest.len() {
            assert(a[j] == rest[j]);
        }
    }
    if t.name@ != name {
        lemma_same_hold(before, after, name);
    }
}

proof fn lemma_same_hold(before: GammaControlState, after: GammaControlState, name: Seq<char>)
    requires
        before.wf(),
        after.wf(),
        forall|i: int| #[trigger]
            before.held_at(name, i) ==> exists|j: int| #[trigger]
                after.held_at(name, j) && after.controls@[j] == before.controls@[i],
        forall|j: int| #[trigger]
            after.held_at(name, j) ==> exists|i: int| #[trigger]
                before.held_at(name, i) && before.controls@[i] == after.controls@[j],
    ensures
        same_hold(before, after, name),
{
    assert forall|i: int, j: int| #[trigger]
        before.held_at(name, i) && #[trigger] after.held_at(
            name,
            j,
        ) implies before.controls@[i] == after.controls@[j] by {
        let k = choose|k: int| #[trigger]
            after.held_at(name, k) && after.controls@[k] == before.controls@[i];
        lemma_one_hold(after, name, j, k);
    }
}

proof fn lemma_one_hold(s: GammaControlState, name: Seq<char>, i: int, j: int)
    requires
        s.wf(),
        s.held_at(name, i),
        s.held_at(name, j),
    ensures
        i == j,
{
    if i < j {
        assert(s.controls@[i].name@ != s.controls@[j].name@);
    }
    if j < i {
        assert(s.controls@[j].name@ != s.controls@[i].name@);
    }
}

proof fn lemma_sets_own(
    states: Seq<GammaControlState>,
    sets: Seq<GammaSet>,
    lost: Seq<Option<u64>>,
    name: Seq<char>,
    ramp: GammaRamp,
    m: int,
)
    requires
        set_steps(states, sets, lost),
        states[0].wf(),
        0 <= m <= sets.len(),
    ensures
        states[m].wf(),
        own_hold(states[0], name, ramp) ==> own_hold(states[m], name, ramp),
        forall|j: int| #[trigger]
            first_set(sets, name, ramp, j) && states[0].free(name) ==> if m <= j {
                states[m].free(name)
            } else {
                own_hold(states[m], name, ramp)
            },
    decreases m,
{
    if m > 0 {
        lemma_sets_own(states, sets, lost, name, ramp, m - 1);
        let b = states[m - 1];
        let a = states[m];
        let t = sets[m - 1];
        assert(set_step(states, sets, lost, m - 1));
        lemma_taken(
            b,
            t.target,
            GammaOwner::Ipc,
            t.read,
            Some(t.ramp),
            a,
            lost[m - 1],
            name,
        );
        let last = a.controls@.len() - 1;
        if own_hold(b, name, ramp) {
            let i = choose|i: int| #[trigger]
                b.held_at(name, i) && b.controls@[i].owner == GammaOwner::Ipc
                    && b.controls@[i].original == ramp;
            assert(b.held_at(name, i));
            if t.target.name@ == name {
                assert(a.held_at(name, last));
            } else {
                assert(!a.free(name));
                let k = choose|k: int| a.held_at(name, k);
                assert(a.held_at(name, k));
            }
            assert(own_hold(a, name, ramp));
        }
        assert forall|j: int| #[trigger]
            first_set(sets, name, ramp, j) && states[0].free(name) implies if m <= j {
            a.free(name)
        } else {
            own_hold(a, name, ramp)
        } by {
            if m - 1 < j {
                assert(sets[m - 1].target.name@ != name);
            } else if m - 1 == j {
                assert(a.held_at(name, last));
            }
        }
    }
}

proof fn lemma_hold_kept(
    states: Seq<GammaControlState>,
    events: Seq<GammaEvent>,
    name: Seq<char>,
    ramp: GammaRamp,
    k: int,
)
    requires
        states.len() == events.len() + 1,
        states[0].wf(),
        states[0].free(name),
        forall|i: int|
            0 <= i < events.len() ==> gamma_step(
                states[i],
                #[trigger] events[i],
                states[i + 1],
                name,
            ),
        events.len() > 0,
        events[0] matches GammaEvent::Takes { sets, lost } && exists|j: int|
            first_set(sets, name, ramp, j),
        1 <= k <= events.len(),
    ensures
        states[k].wf(),
        own_hold(states[k], name, ramp),
    decreases k,
{
    if k > 1 {
        lemma_hold_kept(states, events, name, ramp, k - 1);
    }
    let b = states[k - 1];
    let a = states[k];
    assert(gamma_step(b, events[k - 1], a, name));
    match events[k - 1] {
        GammaEvent::Takes { sets, lost } => {
            let inner = choose|inner: Seq<GammaControlState>|
                #[trigger] set_steps(inner, sets, lost) && inner.first() == b && inner.last() == a;
            lemma_sets_own(inner, sets, lost, name, ramp, sets.len() as int);
            if k == 1 {
                let j = choose|j: int| first_set(sets, name, ramp, j);
                assert(first_set(sets, name, ramp, j));
            }
        },
        GammaEvent::Elsewhere => {
            let i = choose|i: int| #[trigger]
                b.held_at(name, i) && b.controls@[i].owner == GammaOwner::Ipc
                    && b.controls@[i].original == ramp;
            assert(b.held_at(name, i));
            assert(!a.free(name));
            let j = choose|j: int| a.held_at(name, j);
            assert(a.held_at(name, j));
        },
    }
}

/// However often the manager has set an output's gamma, and whatever has happened
/// on other outputs meanwhile, one reset of the output ends one hold and puts back
/// the ramp that the output had before the first time. The other holds stay, and
/// a second reset ends none.
pub proof fn law_reset_puts_first_back(
    states: Seq<GammaControlState>,
    events: Seq<GammaEvent>,
    name: Seq<char>,
    ramp: GammaRamp,
    ended: Seq<GammaControl>,
    after: GammaControlState,
    again: Seq<GammaControl>,
    later: GammaControlState,
)
    requires
        states.len() == events.len() + 1,
        states[0].wf(),
        states[0].free(name),
        forall|i: int|
            0 <= i < events.len() ==> gamma_step(
                states[i],
                #[trigger] events[i],
                states[i + 1],
                name,
            ),
        events.len() > 0,
        events[0] matches GammaEvent::Takes { sets, lost } && exists|j: int|
            first_set(sets, name, ramp, j),
        reset_done(states.last(), Some(name), ended, after),
        reset_done(after, Some(name), again, later),
    ensures
        ended.len() == 1,
        ended[0].name@ == name,
        ended[0].original == ramp,
        after.free(name),
        exists|i: int| #[trigger]
            states.last().held_at(name, i) && ended[0] == states.last().controls@[i]
                && after.controls@ == states.last().controls@.remove(i),
        again.len() == 0,
        later.controls@ == after.controls@,
{
    let n = events.len() as int;
    lemma_hold_kept(states, events, name, ramp, n);
    let s = states[n];
    let all = s.controls@;
    let i = choose|i: int| #[trigger]
        s.held_at(name, i) && s.controls@[i].owner == GammaOwner::Ipc && s.controls@[i].original
            == ramp;
    assert(s.held_at(name, i));
    let p = reset_by(Some(name));
    let q = kept_by(Some(name));
    assert forall|j: int| 0 <= j < all.len() && j != i implies !resets(
        #[trigger] all[j],
        Some(name),
    ) by {
        if all[j].name@ == name {
            assert(s.held_at(name, j));
            lemma_one_hold(s, name, i, j);
        }
    }
    crate::seqs::lemma_filter_remove(all, q, i);
    crate::seqs::lemma_filter_only(all, p, i);
    let left = after.controls@;
    assert forall|j: int| 0 <= j < left.len() implies (#[trigger] left[j]).name@ != name by {
        let o = if j < i {
            j
        } else {
            j + 1
        };
        assert(left[j] == all[o]);
        if all[o].name@ == name {
            assert(s.held_at(name, o));
            lemma_one_hold(s, name, i, o);
        }
    }
    crate::seqs::lemma_filter_all(left, q);
    crate::seqs::lemma_filter_none(left, p);
}

/// An entry of the ramp that corrects nothing is its share of the greatest value,
/// rounded down.
pub proof fn law_identity_share(n: int, i: int)
    requires
        n >= 2,
        0 <= i < n,
    ensures
        linear(n, i) * (n - 1) <= i * 65535 < (linear(n, i) + 1) * (n - 1),
{
    let d = n - 1;
    vstd::arithmetic::div_mod::lemma_fundamental_div_mod(i * 65535, d);
    let q = linear(n, i);
    assert(d * q == q * d && (q + 1) * d == q * d + d) by (nonlinear_arith);
}

/// A table gives the red entries first, then the green and then the blue ones, of two
/// bytes each, the lower one first or last as the order says.
pub proof fn law_table_layout(bytes: Seq<u8>, size: int, r: RampView, little: bool, i: int)
    requires
        ramp_of(bytes, size, r, little),
        0 <= i < size,
    ensures
        r.red.len() == size && r.green.len() == size && r.blue.len() == size,
        little ==> r.red[i] == bytes[2 * i] + 256 * bytes[2 * i + 1],
        !little ==> r.red[i] == 256 * bytes[2 * i] + bytes[2 * i + 1],
        little ==> r.green[i] == bytes[2 * size + 2 * i] + 256 * bytes[2 * size + 2 * i + 1],
        !little ==> r.green[i] == 256 * bytes[2 * size + 2 * i] + bytes[2 * size + 2 * i + 1],
        little ==> r.blue[i] == bytes[4 * size + 2 * i] + 256 * bytes[4 * size + 2 * i + 1],
        !little ==> r.blue[i] == 256 * bytes[4 * size + 2 * i] + bytes[4 * size + 2 * i + 1],
{
    assert(2 * (0 + i) == 2 * i);
    assert(2 * (size + i) == 2 * size + 2 * i);
    assert(2 * (2 * size + i) == 4 * size + 2 * i);
}

/// A request to set the gamma is refused for a temperature outside 1000 to 25000
/// kelvin, else for its brightness, else for its exponent, else where no output whose
/// ramp can be set is meant; any other is taken.
pub proof fn law_gamma_refused(
    capable: Seq<GammaTarget>,
    filter: Option<Seq<char>>,
    temperature: u32,
    brightness_ok: bool,
    brightness: Seq<char>,
    gamma_ok: bool,
    gamma: Seq<char>,
)
    ensures
        ({
            let range = gamma_range_error(temperature, brightness_ok, brightness, gamma_ok, gamma);
            let fault = gamma_fault(capable, filter, range);
            let meant = |t: GammaTarget| filter is None || t.name@ == filter->0;
            let warm = 1000 <= temperature <= 25000;
            &&& fault is None <==> warm && brightness_ok && gamma_ok && exists|i: int|
                0 <= i < capable.len() && meant(#[trigger] capable[i])
            &&& !warm ==> fault == Some(
                "temperature "@ + crate::text::decimal(temperature as nat)
                    + "K out of range (1000–25000)"@,
            )
            &&& warm && !brightness_ok ==> fault == Some(
                "brightness "@ + brightness + " out of range (0.1–1.0)"@,
            )
            &&& warm && brightness_ok && !gamma_ok ==> fault == Some(
                "gamma "@ + gamma + " out of range (0.1–10.0)"@,
            )
            &&& warm && brightness_ok && gamma_ok && fault is Some && filter is None ==> fault
                == Some("no gamma-capable outputs"@)
            &&& warm && brightness_ok && gamma_ok && fault is Some && filter is Some ==> fault
                == Some("no gamma-capable output named '"@ + filter->0 + "'"@)
        }),
{
    let meant = |t: GammaTarget| filter is None || t.name@ == filter->0;
    let places = gamma_places(capable, filter);
    if places.len() > 0 {
        assert(places.contains(places[0]));
        law_outputs_reached(capable, filter, places[0]);
        assert(meant(capable[places[0]]));
    }
    if exists|i: int| 0 <= i < capable.len() && meant(#[trigger] capable[i]) {
        let i = choose|i: int| 0 <= i < capable.len() && meant(#[trigger] capable[i]);
        law_outputs_reached(capable, filter, i);
        assert(places.contains(i));
    }
}

/// A request to set the gamma reaches the output that it names, or all of them where
/// it names none, each once and in order.
pub proof fn law_outputs_reached(capable: Seq<GammaTarget>, filter: Option<Seq<char>>, i: int)
    ensures
        gamma_places(capable, filter).contains(i) <==> 0 <= i < capable.len() && (filter is None
            || capable[i].name@ == filter->0),
        forall|j: int, k: int|
            0 <= j < k < gamma_places(capable, filter).len() ==> (#[trigger] gamma_places(
                capable,
                filter,
            )[j]) < (#[trigger] gamma_places(capable, filter)[k]),
    decreases capable.len(),
{
    if capable.len() > 0 {
        let l = capable.len() - 1;
        let init = capable.drop_last();
        law_outputs_reached(init, filter, i);
        let before = gamma_places(init, filter);
        crate::seqs::lemma_push_contains(before, l, i);
        if 0 <= i < l {
            assert(init[i] == capable[i]);
        }
        let places = gamma_places(capable, filter);
        assert forall|j: int, k: int| 0 <= j < k < places.len() implies (#[trigger] places[j])
            < (#[trigger] places[k]) by {
            lemma_places_within(init, filter, j);
            if k < before.len() {
                assert(before[j] < before[k]);
            }
        }
    }
}

/// The count of the outputs that took their ramps goes up by one for each that did.
pub proof fn law_count_of_taken(sets: Seq<GammaSet>, s: GammaSet)
    ensures
        taken_count(sets.push(s)) == taken_count(sets) + if s.applied {
            1nat
        } else {
            0nat
        },
        taken_count(Seq::<GammaSet>::empty()) == 0,
        taken_count(sets) <= sets.len(),
        taken_count(sets) == 0 <==> forall|i: int|
            0 <= i < sets.len() ==> !(#[trigger] sets[i]).applied,
    decreases sets.len(),
{
    assert(sets.push(s).drop_last() =~= sets);
    if sets.len() > 0 {
        let init = sets.drop_last();
        law_count_of_taken(init, s);
        assert(sets.last() == sets[sets.len() - 1]);
        assert forall|i: int| 0 <= i < init.len() implies init[i] == sets[i] by {}
        if taken_count(sets) == 0 {
            assert forall|i: int| 0 <= i < sets.len() implies !(#[trigger] sets[i]).applied by {
                if i < init.len() {
                    assert(init[i] == sets[i]);
                }
            }
        }
        if forall|i: int| 0 <= i < sets.len() ==> !(#[trigger] sets[i]).applied {
            assert forall|i: int| 0 <= i < init.len() implies !(#[trigger] init[i]).applied by {
                assert(init[i] == sets[i]);
            }
        }
    }
}

/// Each output that a request reaches is set as was done to it.
pub proof fn law_sets_of_the_request(
    capable: Seq<GammaTarget>,
    places: Seq<int>,
    done: Seq<GammaDone>,
    i: int,
)
    requires
        0 <= i < places.len(),
    ensures
        gamma_sets(capable, places, done).len() == places.len(),
        gamma_sets(capable, places, done)[i].target == capable[places[i]],
        gamma_sets(capable, places, done)[i].ramp == done[i].ramp,
        gamma_sets(capable, places, done)[i].read == done[i].read,
        gamma_sets(capable, places, done)[i].applied == done[i].applied,
{
}

/// A reset ends what the manager itself has set, on the output that is named or on
/// all where none is, and nothing else: a client keeps its hold.
pub proof fn law_reset_ends(
    before: GammaControlState,
    filter: Option<Seq<char>>,
    ended: Seq<GammaControl>,
    after: GammaControlState,
    c: GammaControl,
)
    requires
        reset_done(before, filter, ended, after),
        before.controls@.contains(c),
    ensures
        ended.contains(c) <==> c.owner is Ipc && (filter is None || c.name@ == filter->0),
        after.controls@.contains(c) <==> c.owner is Client || filter is Some && c.name@
            != filter->0,
{
    crate::seqs::lemma_filter_in(before.controls@, reset_by(filter), c);
    crate::seqs::lemma_filter_in(before.controls@, kept_by(filter), c);
}

/// A new owner takes one output and no other. A client that held it is told; the ramp
/// to put back is the one that the owner before was to put back, and without an owner
/// before the output's own, where that was read.
pub proof fn law_takeover(
    before: GammaControlState,
    target: GammaTarget,
    owner: GammaOwner,
    read: Option<GammaRamp>,
    current: Option<GammaRamp>,
    after: GammaControlState,
    failed: Option<u64>,
    c: GammaControl,
)
    requires
        before.wf(),
        taken_over(before, target, owner, read, current, after, failed),
    ensures
        c.name@ != target.name@ ==> (after.controls@.contains(c) <==> before.controls@.contains(
            c,
        )),
        before.controls@.contains(c) && c.name@ == target.name@ ==> {
            &&& c.owner matches GammaOwner::Client(x) ==> failed == Some(x)
            &&& c.owner is Ipc ==> failed is None
            &&& after.controls@.last().original == c.original
        },
        (forall|d: GammaControl| #[trigger]
            before.controls@.contains(d) ==> d.name@ != target.name@) ==> failed is None && (
        read is Some ==> after.controls@.last().original == read->0),
        after.controls@.last().name@ == target.name@ && after.controls@.last().owner == owner
            && after.controls@.last().current == current && after.controls@.last().node
            == target.node && after.controls@.last().crtc == target.crtc
            && after.controls@.last().size == target.size,
{
    let b = before.controls@;
    let a = after.controls@;
    let rest = a.drop_last();
    assert(a =~= rest.push(a.last()));
    crate::seqs::lemma_push_contains(rest, a.last(), c);
    if before.free(target.name@) {
        if b.contains(c) {
            let i = choose|i: int| 0 <= i < b.len() && b[i] == c;
            assert(!before.held_at(target.name@, i));
        }
    } else {
        let i = choose|i: int| before.held_at(target.name@, i);
        assert(before.held_at(target.name@, i));
        assert(b.contains(b[i]));
        if b.contains(c) {
            let k = choose|k: int| 0 <= k < b.len() && b[k] == c;
            if c.name@ == target.name@ {
                assert(before.held_at(target.name@, k));
            } else {
                if k < i {
                    assert(rest[k] == c);
                } else {
                    assert(rest[k - 1] == c);
                }
            }
        }
        if rest.contains(c) {
            let k = choose|k: int| 0 <= k < rest.len() && rest[k] == c;
            if k < i {
                assert(b[k] == c);
            } else {
                assert(b[k + 1] == c);
            }
        }
    }
}

/// The outputs of a request are taken one after the other, and for each it is told who
/// has lost it; without outputs nothing changes.
pub proof fn law_taken_one_by_one(
    before: GammaControlState,
    sets: Seq<GammaSet>,
    lost: Seq<Option<u64>>,
    after: GammaControlState,
)
    requires
        all_taken(before, sets, lost, after),
    ensures
        lost.len() == sets.len(),
        sets.len() == 0 ==> after == before,
        sets.len() == 1 ==> taken_over(
            before,
            sets[0].target,
            GammaOwner::Ipc,
            sets[0].read,
            Some(sets[0].ramp),
            after,
            lost[0],
        ),
{
    let states = choose|states: Seq<GammaControlState>|
        #[trigger] set_steps(states, sets, lost) && states.first() == before && states.last()
            == after;
    assert(set_steps(states, sets, lost));
    if sets.len() == 1 {
        assert(set_step(states, sets, lost, 0));
        assert(states[1] == states.last());
    }
}

/// A ramp that corrects nothing has as many entries as it says, each its share.
pub proof fn law_linear_channel(s: Seq<u16>, n: int, i: int)
    requires
        is_linear(s, n),
    ensures
        s.len() == n,
        0 <= i < n ==> s[i] == linear(n, i),
{
}

} // verus!
