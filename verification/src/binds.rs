//! Key bindings: names of modifiers and keys compiled into lookups.

use vstd::prelude::*;

use crate::config::clone_action;
use crate::config::Action;
use crate::text::concat3;
use crate::text::str_eq;
use crate::text::to_lower;

verus! {

pub const MOD_CTRL: u8 = 0b0001;

pub const MOD_ALT: u8 = 0b0010;

pub const MOD_SHIFT: u8 = 0b0100;

pub const MOD_LOGO: u8 = 0b1000;

/// A set of modifiers.
#[derive(Clone, Copy, Debug, PartialEq, Eq, Structural, Hash)]
pub struct ModMask {
    pub bits: u8,
}

/// Which modifiers are down.
#[derive(Clone, Copy, Debug, PartialEq, Eq, Structural)]
pub struct ModifiersState {
    pub ctrl: bool,
    pub alt: bool,
    pub shift: bool,
    pub logo: bool,
}

/// The bit, where the modifier is down.
pub open spec fn bit_if(down: bool, bit: u8) -> u8 {
    if down {
        bit
    } else {
        0
    }
}

/// The bits of a state of the modifiers.
pub open spec fn state_bits(s: ModifiersState) -> u8 {
    bit_if(s.ctrl, MOD_CTRL) | bit_if(s.alt, MOD_ALT) | bit_if(s.shift, MOD_SHIFT) | bit_if(
        s.logo,
        MOD_LOGO,
    )
}

/// The bit of the modifier with a name. Case does not matter.
pub open spec fn modifier_bit(name: Seq<char>) -> Option<u8> {
    let n = crate::text::lower(name);
    if n == "super"@ || n == "logo"@ || n == "mod4"@ || n == "win"@ {
        Some(MOD_LOGO)
    } else if n == "ctrl"@ || n == "control"@ {
        Some(MOD_CTRL)
    } else if n == "alt"@ || n == "mod1"@ {
        Some(MOD_ALT)
    } else if n == "shift"@ {
        Some(MOD_SHIFT)
    } else {
        None
    }
}

impl ModMask {
    /// No modifier.
    pub fn empty() -> (r: Self)
        ensures
            r.bits == 0,
    {
        ModMask { bits: 0 }
    }

    /// The modifiers of either set.
    pub fn union(self, other: ModMask) -> (r: Self)
        ensures
            r.bits == self.bits | other.bits,
    {
        ModMask { bits: self.bits | other.bits }
    }

    /// The modifiers that are down.
    pub fn from_state(state: &ModifiersState) -> (r: Self)
        ensures
            r.bits == state_bits(*state),
    {
        let mut m: u8 = 0;
        if state.ctrl {
            m = m | MOD_CTRL;
        }
        if state.alt {
            m = m | MOD_ALT;
        }
        if state.shift {
            m = m | MOD_SHIFT;
        }
        if state.logo {
            m = m | MOD_LOGO;
        }
        proof {
            let c = bit_if(state.ctrl, MOD_CTRL);
            let a = bit_if(state.alt, MOD_ALT);
            let s = bit_if(state.shift, MOD_SHIFT);
            let l = bit_if(state.logo, MOD_LOGO);
            assert(0u8 | c == c) by (bit_vector);
            assert(c | 0u8 == c) by (bit_vector);
            assert((c | a) | 0u8 == c | a) by (bit_vector);
            assert((c | a | s) | 0u8 == c | a | s) by (bit_vector);
        }
        ModMask { bits: m }
    }

    /// The modifier with a name; case does not matter.
    pub fn parse_name(name: &str) -> (r: Option<Self>)
        ensures
            match r {
                Some(m) => modifier_bit(name@) == Some(m.bits),
                None => modifier_bit(name@) is None,
            },
    {
        let low = to_lower(name);
        let n = low.as_str();
        if str_eq(n, "super") || str_eq(n, "logo") || str_eq(n, "mod4") || str_eq(n, "win") {
            Some(ModMask { bits: MOD_LOGO })
        } else if str_eq(n, "ctrl") || str_eq(n, "control") {
            Some(ModMask { bits: MOD_CTRL })
        } else if str_eq(n, "alt") || str_eq(n, "mod1") {
            Some(ModMask { bits: MOD_ALT })
        } else if str_eq(n, "shift") {
            Some(ModMask { bits: MOD_SHIFT })
        } else {
            None
        }
    }
}

/// Two states of the modifiers have the same mask only where they are the same,
/// so a binding matches exactly the modifiers it names.
pub proof fn law_masks_distinct(a: ModifiersState, b: ModifiersState)
    ensures
        state_bits(a) == state_bits(b) ==> a == b,
{
    let ca = bit_if(a.ctrl, MOD_CTRL);
    let aa = bit_if(a.alt, MOD_ALT);
    let sa = bit_if(a.shift, MOD_SHIFT);
    let la = bit_if(a.logo, MOD_LOGO);
    let cb = bit_if(b.ctrl, MOD_CTRL);
    let ab = bit_if(b.alt, MOD_ALT);
    let sb = bit_if(b.shift, MOD_SHIFT);
    let lb = bit_if(b.logo, MOD_LOGO);
    assert((ca | aa | sa | la) == (cb | ab | sb | lb) ==> ca == cb && aa == ab && sa == sb && la
        == lb) by (bit_vector)
        requires
            ca == 0u8 || ca == 1u8,
            aa == 0u8 || aa == 2u8,
            sa == 0u8 || sa == 4u8,
            la == 0u8 || la == 8u8,
            cb == 0u8 || cb == 1u8,
            ab == 0u8 || ab == 2u8,
            sb == 0u8 || sb == 4u8,
            lb == 0u8 || lb == 8u8,
    ;
}

/// A binding as it is configured.
#[derive(Debug)]
pub struct Binding {
    pub mods: Vec<String>,
    pub key: String,
    pub action: Action,
}

/// A binding that can be looked up.
#[derive(Debug)]
pub struct CompiledBind {
    pub mods: ModMask,
    pub keysym: u32,
    pub action: Action,
}

/// The bindings in effect, in the order of the configuration.
#[derive(Debug)]
pub struct BindingTable {
    pub binds: Vec<CompiledBind>,
}

/// The keysym that stands for no key.
pub const NO_SYMBOL: u32 = 0;

/// The place of the first name that is no modifier.
pub open spec fn first_unknown(names: Seq<String>, i: int) -> bool {
    &&& 0 <= i < names.len()
    &&& modifier_bit(names[i]@) is None
    &&& forall|j: int| 0 <= j < i ==> modifier_bit((#[trigger] names[j])@) is Some
}

/// The bits of the modifiers with the names, all of which are known.
pub open spec fn names_bits(names: Seq<String>) -> u8
    decreases names.len(),
{
    if names.len() == 0 {
        0
    } else {
        names_bits(names.drop_last()) | modifier_bit(names.last()@)->0
    }
}

/// Why a binding cannot be used, given the keysym of its key.
pub open spec fn bind_error(b: Binding, keysym: u32) -> Option<Seq<char>> {
    if exists|i: int| first_unknown(b.mods@, i) {
        let i = choose|i: int| first_unknown(b.mods@, i);
        Some(
            "unknown modifier '"@ + b.mods@[i]@ + "' in binding for key '"@ + b.key@ + "'"@,
        )
    } else if keysym == NO_SYMBOL {
        Some("unknown keysym '"@ + b.key@ + "'"@)
    } else {
        None
    }
}

/// Whether a compiled binding is that of `b`.
pub open spec fn compiles_to(b: Binding, keysym: u32, c: CompiledBind) -> bool {
    &&& c.mods.bits == names_bits(b.mods@)
    &&& c.keysym == keysym
    &&& crate::config::same_action(b.action, c.action)
}

proof fn lemma_first_unknown_unique(names: Seq<String>, i: int, j: int)
    requires
        first_unknown(names, i),
        first_unknown(names, j),
    ensures
        i == j,
{
    if i < j {
        assert(modifier_bit(names[i]@) is Some);
    }
    if j < i {
        assert(modifier_bit(names[j]@) is Some);
    }
}

/// Compiles one binding, given the keysym that its key's name stands for.
pub fn compile_one(b: &Binding, keysym: u32) -> (r: Result<CompiledBind, String>)
    ensures
        match r {
            Ok(c) => bind_error(*b, keysym) is None && compiles_to(*b, keysym, c),
            Err(why) => bind_error(*b, keysym) == Some(why@),
        },
{
    let mut mods = ModMask::empty();
    let mut i: usize = 0;
    let ghost names = b.mods@;
    while i < b.mods.len()
        invariant
            i <= names.len(),
            names == b.mods@,
            forall|j: int| 0 <= j < i ==> modifier_bit((#[trigger] names[j])@) is Some,
            mods.bits == names_bits(names.take(i as int)),
        decreases names.len() - i,
    {
        match ModMask::parse_name(b.mods[i].as_str()) {
            Some(m) => {
                assert(names.take(i + 1).drop_last() =~= names.take(i as int));
                mods = mods.union(m);
            },
            None => {
                proof {
                    assert(first_unknown(names, i as int));
                    lemma_first_unknown_unique(
                        names,
                        i as int,
                        choose|k: int| first_unknown(names, k),
                    );
                }
                let head = concat3("unknown modifier '", b.mods[i].as_str(), "' in binding for key '");
                return Err(concat3(head.as_str(), b.key.as_str(), "'"));
            },
        }
        i += 1;
    }
    assert(names.take(i as int) =~= names);
    assert(forall|k: int| !first_unknown(names, k));
    if keysym == NO_SYMBOL {
        return Err(concat3("unknown keysym '", b.key.as_str(), "'"));
    }
    Ok(CompiledBind { mods, keysym, action: clone_action(&b.action) })
}

/// The places of the bindings that can be used, in order.
pub open spec fn usable(bindings: Seq<Binding>, keysyms: Seq<u32>) -> Seq<int>
    decreases bindings.len(),
{
    if bindings.len() == 0 {
        Seq::empty()
    } else {
        let k = bindings.len() - 1;
        let before = usable(bindings.drop_last(), keysyms);
        if bind_error(bindings[k], keysyms[k]) is None {
            before.push(k)
        } else {
            before
        }
    }
}

/// What is said of the bindings that cannot be used, in order.
pub open spec fn complaints(bindings: Seq<Binding>, keysyms: Seq<u32>) -> Seq<Seq<char>>
    decreases bindings.len(),
{
    if bindings.len() == 0 {
        Seq::empty()
    } else {
        let k = bindings.len() - 1;
        let before = complaints(bindings.drop_last(), keysyms);
        match bind_error(bindings[k], keysyms[k]) {
            Some(why) => before.push(why),
            None => before,
        }
    }
}

/// Whether compiled bindings are those at the places.
pub open spec fn compiled(
    bindings: Seq<Binding>,
    keysyms: Seq<u32>,
    places: Seq<int>,
    binds: Seq<CompiledBind>,
) -> bool {
    &&& places.len() == binds.len()
    &&& forall|i: int|
        0 <= i < binds.len() ==> #[trigger] compiled_at(bindings, keysyms, places[i], binds[i])
}

/// Whether a compiled binding is the one at the place.
pub open spec fn compiled_at(
    bindings: Seq<Binding>,
    keysyms: Seq<u32>,
    place: int,
    c: CompiledBind,
) -> bool {
    &&& 0 <= place < bindings.len()
    &&& compiles_to(bindings[place], keysyms[place], c)
}

proof fn lemma_compiled_push(
    bindings: Seq<Binding>,
    keysyms: Seq<u32>,
    places: Seq<int>,
    binds: Seq<CompiledBind>,
    k: int,
    cb: CompiledBind,
)
    requires
        compiled(bindings, keysyms, places, binds),
        0 <= k < bindings.len(),
        compiles_to(bindings[k], keysyms[k], cb),
    ensures
        compiled(bindings, keysyms, places.push(k), binds.push(cb)),
{
    let all = binds.push(cb);
    let at = places.push(k);
    assert forall|i: int| 0 <= i < all.len() implies #[trigger] compiled_at(
        bindings,
        keysyms,
        at[i],
        all[i],
    ) by {
        if i < binds.len() {
            assert(compiled_at(bindings, keysyms, places[i], binds[i]));
        }
    }
}

/// Whether the binding at `i` is the first for the modifiers and the key.
pub open spec fn first_bound(binds: Seq<CompiledBind>, mods: ModMask, keysym: u32, i: int) -> bool {
    &&& 0 <= i < binds.len()
    &&& binds[i].mods == mods
    &&& binds[i].keysym == keysym
    &&& forall|j: int|
        0 <= j < i ==> (#[trigger] binds[j]).mods != mods || binds[j].keysym != keysym
}

impl BindingTable {
    /// Compiles the bindings. The second list holds, for each binding, the
    /// keysym that its key's name stands for. A binding that cannot be used is
    /// left out, with a warning.
    pub fn compile(bindings: &Vec<Binding>, keysyms: &Vec<u32>) -> (r: (Self, Vec<String>))
        requires
            bindings@.len() == keysyms@.len(),
        ensures
            compiled(bindings@, keysyms@, usable(bindings@, keysyms@), r.0.binds@),
            crate::text::views(r.1@) == complaints(bindings@, keysyms@),
    {
        let mut binds: Vec<CompiledBind> = Vec::new();
        let mut warnings: Vec<String> = Vec::new();
        let mut i: usize = 0;
        let ghost bs = bindings@;
        let ghost ks = keysyms@;
        assert(crate::text::views(warnings@) =~= Seq::empty());
        while i < bindings.len()
            invariant
                i <= bs.len(),
                bs == bindings@,
                ks == keysyms@,
                bs.len() == ks.len(),
                compiled(bs, ks, usable(bs.take(i as int), ks), binds@),
                crate::text::views(warnings@) == complaints(bs.take(i as int), ks),
            decreases bs.len() - i,
        {
            assert(bs.take(i + 1).drop_last() =~= bs.take(i as int));
            assert(bs.take(i + 1)[i as int] == bs[i as int]);
            match compile_one(&bindings[i], keysyms[i]) {
                Ok(cb) => {
                    let ghost before = binds@;
                    let ghost places = usable(bs.take(i as int), ks);
                    binds.push(cb);
                    proof {
                        assert(usable(bs.take(i + 1), ks) == places.push(i as int));
                        lemma_compiled_push(bs, ks, places, before, i as int, cb);
                    }
                },
                Err(why) => {
                    let ghost before = warnings@;
                    warnings.push(why);
                    assert(usable(bs.take(i + 1), ks) == usable(bs.take(i as int), ks));
                    assert(crate::text::views(warnings@) =~= crate::text::views(before).push(why@));
                },
            }
            i += 1;
        }
        assert(bs.take(i as int) =~= bs);
        (BindingTable { binds }, warnings)
    }

    /// The action bound to the modifiers and the key: that of the first binding
    /// with exactly these.
    pub fn lookup(&self, mods: ModMask, keysym: u32) -> (r: Option<&Action>)
        ensures
            match r {
                Some(a) => exists|i: int|
                    #[trigger] first_bound(self.binds@, mods, keysym, i) && *a
                        == self.binds@[i].action,
                None => forall|i: int| !first_bound(self.binds@, mods, keysym, i),
            },
    {
        let mut i: usize = 0;
        while i < self.binds.len()
            invariant
                i <= self.binds@.len(),
                forall|j: int|
                    0 <= j < i ==> (#[trigger] self.binds@[j]).mods != mods
                        || self.binds@[j].keysym != keysym,
            decreases self.binds@.len() - i,
        {
            if self.binds[i].mods == mods && self.binds[i].keysym == keysym {
                assert(first_bound(self.binds@, mods, keysym, i as int));
                return Some(&self.binds[i].action);
            }
            i += 1;
        }
        None
    }
}

/// Every binding is either in effect or warned of, and never both: as many
/// bindings are compiled and warnings given as were configured.
pub proof fn law_every_binding_accounted(bindings: Seq<Binding>, keysyms: Seq<u32>)
    ensures
        usable(bindings, keysyms).len() + complaints(bindings, keysyms).len() == bindings.len(),
    decreases bindings.len(),
{
    if bindings.len() > 0 {
        law_every_binding_accounted(bindings.drop_last(), keysyms);
    }
}

/// The names of the modifiers, in any case of their letters; no other name is one.
pub proof fn law_modifier_names(name: Seq<char>)
    ensures
        ({
            let n = crate::text::lower(name);
            let bit = modifier_bit(name);
            &&& bit == Some(8u8) <==> n == "super"@ || n == "logo"@ || n == "mod4"@ || n == "win"@
            &&& bit == Some(1u8) <==> n == "ctrl"@ || n == "control"@
            &&& bit == Some(2u8) <==> n == "alt"@ || n == "mod1"@
            &&& bit == Some(4u8) <==> n == "shift"@
            &&& bit is Some ==> bit == Some(1u8) || bit == Some(2u8) || bit == Some(4u8) || bit
                == Some(8u8)
        }),
{
    reveal_strlit("super");
    reveal_strlit("logo");
    reveal_strlit("mod4");
    reveal_strlit("win");
    reveal_strlit("ctrl");
    reveal_strlit("control");
    reveal_strlit("alt");
    reveal_strlit("mod1");
    reveal_strlit("shift");
    let n = crate::text::lower(name);
    if n == "super"@ || n == "logo"@ || n == "mod4"@ || n == "win"@ {
        assert(n[0] == 's' && n[1] == 'u' || n[0] == 'l' || n[0] == 'm' && n[3] == '4' || n[0]
            == 'w');
    }
    if n == "ctrl"@ || n == "control"@ {
        assert(n[0] == 'c');
    }
    if n == "alt"@ || n == "mod1"@ {
        assert(n[0] == 'a' || n[0] == 'm' && n[3] == '1');
    }
    if n == "shift"@ {
        assert(n[0] == 's' && n[1] == 'h');
    }
}

/// The mask of a state of the keyboard has the bit of a modifier exactly where that
/// modifier is down.
pub proof fn law_mask_tells_state(s: ModifiersState)
    ensures
        state_bits(s) & 1u8 != 0 <==> s.ctrl,
        state_bits(s) & 2u8 != 0 <==> s.alt,
        state_bits(s) & 4u8 != 0 <==> s.shift,
        state_bits(s) & 8u8 != 0 <==> s.logo,
        state_bits(s) < 16,
{
    let c = bit_if(s.ctrl, MOD_CTRL);
    let a = bit_if(s.alt, MOD_ALT);
    let h = bit_if(s.shift, MOD_SHIFT);
    let l = bit_if(s.logo, MOD_LOGO);
    assert((c == 0 || c == 1) && (a == 0 || a == 2) && (h == 0 || h == 4) && (l == 0 || l == 8)
        ==> ((c | a | h | l) & 1 != 0 <==> c == 1) && ((c | a | h | l) & 2 != 0 <==> a == 2) && ((c
        | a | h | l) & 4 != 0 <==> h == 4) && ((c | a | h | l) & 8 != 0 <==> l == 8) && (c | a | h
        | l) < 16) by (bit_vector);
}

/// A binding asks for exactly the modifiers that it names, however often and in
/// whatever order: its mask has the bit of a modifier exactly where a name stands
/// for that modifier.
pub proof fn law_binding_mask(names: Seq<String>, bit: u8)
    requires
        bit == 1 || bit == 2 || bit == 4 || bit == 8,
        forall|i: int| 0 <= i < names.len() ==> modifier_bit((#[trigger] names[i])@) is Some,
    ensures
        names_bits(names) & bit != 0 <==> exists|i: int|
            0 <= i < names.len() && modifier_bit((#[trigger] names[i])@) == Some(bit),
    decreases names.len(),
{
    if names.len() == 0 {
        assert(0u8 & bit == 0) by (bit_vector);
    } else {
        let init = names.drop_last();
        assert forall|i: int| 0 <= i < init.len() implies modifier_bit(
            (#[trigger] init[i])@,
        ) is Some by {
            assert(init[i] == names[i]);
        }
        law_binding_mask(init, bit);
        let a = names_bits(init);
        assert(names[names.len() - 1] == names.last());
        law_modifier_names(names.last()@);
        let m = modifier_bit(names.last()@)->0;
        assert((bit == 1 || bit == 2 || bit == 4 || bit == 8) && (m == 1 || m == 2 || m == 4 || m
            == 8) ==> ((a | m) & bit != 0 <==> a & bit != 0 || m == bit)) by (bit_vector);
        if exists|i: int| 0 <= i < init.len() && modifier_bit((#[trigger] init[i])@) == Some(bit) {
            let i = choose|i: int|
                0 <= i < init.len() && modifier_bit((#[trigger] init[i])@) == Some(bit);
            assert(names[i] == init[i]);
        }
        if exists|i: int| 0 <= i < names.len() && modifier_bit((#[trigger] names[i])@) == Some(
            bit,
        ) {
            let i = choose|i: int|
                0 <= i < names.len() && modifier_bit((#[trigger] names[i])@) == Some(bit);
            if i < init.len() {
                assert(init[i] == names[i]);
            }
        }
    }
}

/// A binding can be used exactly where all its modifiers are known and its key is;
/// what is said of one that cannot names the first unknown modifier, else the key.
pub proof fn law_usable_bindings(b: Binding, keysym: u32, i: int)
    ensures
        bind_error(b, keysym) is None <==> keysym != 0 && forall|j: int|
            0 <= j < b.mods@.len() ==> modifier_bit((#[trigger] b.mods@[j])@) is Some,
        0 <= i < b.mods@.len() && modifier_bit(b.mods@[i]@) is None && (forall|j: int|
            0 <= j < i ==> modifier_bit((#[trigger] b.mods@[j])@) is Some) ==> bind_error(b, keysym)
            == Some(
            "unknown modifier '"@ + b.mods@[i]@ + "' in binding for key '"@ + b.key@ + "'"@,
        ),
        keysym == 0 && (forall|j: int|
            0 <= j < b.mods@.len() ==> modifier_bit((#[trigger] b.mods@[j])@) is Some)
            ==> bind_error(b, keysym) == Some("unknown keysym '"@ + b.key@ + "'"@),
{
    if 0 <= i < b.mods@.len() && modifier_bit(b.mods@[i]@) is None && (forall|j: int|
        0 <= j < i ==> modifier_bit((#[trigger] b.mods@[j])@) is Some) {
        assert(first_unknown(b.mods@, i));
        lemma_first_unknown_unique(b.mods@, i, choose|k: int| first_unknown(b.mods@, k));
    }
    if exists|j: int| 0 <= j < b.mods@.len() && modifier_bit((#[trigger] b.mods@[j])@) is None {
        let j = choose|j: int|
            0 <= j < b.mods@.len() && modifier_bit((#[trigger] b.mods@[j])@) is None;
        lemma_some_first_unknown(b.mods@, j);
    }
}

proof fn lemma_some_first_unknown(names: Seq<String>, j: int)
    requires
        0 <= j < names.len(),
        modifier_bit(names[j]@) is None,
    ensures
        exists|i: int| first_unknown(names, i),
    decreases j,
{
    if exists|k: int| 0 <= k < j && modifier_bit((#[trigger] names[k])@) is None {
        let k = choose|k: int| 0 <= k < j && modifier_bit((#[trigger] names[k])@) is None;
        lemma_some_first_unknown(names, k);
    } else {
        assert(first_unknown(names, j));
    }
}

/// The bindings in effect are those that can be used, each once and in the order of
/// the configuration.
pub proof fn law_bindings_in_order(bindings: Seq<Binding>, keysyms: Seq<u32>, place: int)
    requires
        bindings.len() == keysyms.len(),
    ensures
        usable(bindings, keysyms).contains(place) <==> 0 <= place < bindings.len() && bind_error(
            bindings[place],
            keysyms[place],
        ) is None,
        forall|i: int, j: int|
            0 <= i < j < usable(bindings, keysyms).len() ==> (#[trigger] usable(
                bindings,
                keysyms,
            )[i]) < (#[trigger] usable(bindings, keysyms)[j]),
{
    lemma_usable(bindings, keysyms, place);
}

proof fn lemma_usable(bindings: Seq<Binding>, keysyms: Seq<u32>, place: int)
    requires
        bindings.len() <= keysyms.len(),
    ensures
        usable(bindings, keysyms).contains(place) <==> 0 <= place < bindings.len() && bind_error(
            bindings[place],
            keysyms[place],
        ) is None,
        forall|i: int, j: int|
            0 <= i < j < usable(bindings, keysyms).len() ==> (#[trigger] usable(
                bindings,
                keysyms,
            )[i]) < (#[trigger] usable(bindings, keysyms)[j]),
        forall|i: int|
            0 <= i < usable(bindings, keysyms).len() ==> (#[trigger] usable(bindings, keysyms)[i])
                < bindings.len(),
    decreases bindings.len(),
{
    if bindings.len() > 0 {
        let k = bindings.len() - 1;
        let init = bindings.drop_last();
        lemma_usable(init, keysyms, place);
        let before = usable(init, keysyms);
        crate::seqs::lemma_push_contains(before, k, place);
        if 0 <= place < init.len() {
            assert(init[place] == bindings[place]);
        }
        assert forall|i: int| 0 <= i < usable(bindings, keysyms).len() implies (#[trigger] usable(
            bindings,
            keysyms,
        )[i]) < bindings.len() by {
            if i < before.len() {
                assert(before[i] < init.len());
            }
        }
        assert forall|i: int, j: int|
            0 <= i < j < usable(bindings, keysyms).len() implies (#[trigger] usable(
            bindings,
            keysyms,
        )[i]) < (#[trigger] usable(bindings, keysyms)[j]) by {
            if j < before.len() {
                assert(before[i] < before[j]);
            } else {
                assert(before[i] < init.len());
            }
        }
    }
}

/// A compiled binding asks for the modifiers and the key of its own, and does what
/// its own does.
pub proof fn law_compiled_is_its_own(b: Binding, keysym: u32, c: CompiledBind, bit: u8)
    requires
        bind_error(b, keysym) is None,
        compiles_to(b, keysym, c),
        bit == 1 || bit == 2 || bit == 4 || bit == 8,
    ensures
        c.keysym == keysym,
        crate::config::same_action(b.action, c.action),
        c.mods.bits & bit != 0 <==> exists|i: int|
            0 <= i < b.mods@.len() && modifier_bit((#[trigger] b.mods@[i])@) == Some(bit),
{
    law_usable_bindings(b, keysym, 0);
    law_binding_mask(b.mods@, bit);
}

/// The table has one entry for each binding that can be used, in the order of the
/// configuration: with the key and the modifiers of that binding, and its action.
pub proof fn law_table_entries(
    bindings: Seq<Binding>,
    keysyms: Seq<u32>,
    binds: Seq<CompiledBind>,
    i: int,
)
    requires
        bindings.len() == keysyms.len(),
        compiled(bindings, keysyms, usable(bindings, keysyms), binds),
        0 <= i < binds.len(),
    ensures
        binds.len() == usable(bindings, keysyms).len(),
        ({
            let p = usable(bindings, keysyms)[i];
            &&& 0 <= p < bindings.len()
            &&& binds[i].keysym == keysyms[p]
            &&& binds[i].mods.bits == names_bits(bindings[p].mods@)
            &&& crate::config::same_action(bindings[p].action, binds[i].action)
        }),
{
    assert(compiled_at(bindings, keysyms, usable(bindings, keysyms)[i], binds[i]));
}

/// The binding of a key is the first with exactly the modifiers that are down and that
/// key.
pub proof fn law_first_binding(
    binds: Seq<CompiledBind>,
    mods: ModMask,
    keysym: u32,
    i: int,
    j: int,
)
    requires
        first_bound(binds, mods, keysym, i),
    ensures
        0 <= i < binds.len() && binds[i].mods.bits == mods.bits && binds[i].keysym == keysym,
        0 <= j < i ==> binds[j].mods.bits != mods.bits || binds[j].keysym != keysym,
        first_bound(binds, mods, keysym, j) ==> i == j,
{
    if 0 <= j < i {
        assert(binds[j].mods != mods || binds[j].keysym != keysym);
    }
    if first_bound(binds, mods, keysym, j) && i < j {
        assert(binds[i].mods != mods || binds[i].keysym != keysym);
    }
}

} // verus!
