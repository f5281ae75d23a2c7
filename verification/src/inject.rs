//! Synthetic input: keys, text and clicks on behalf of scripts.
//!
//! The events go through the same seat as real input but never through the key
//! bindings, so a script cannot quit the manager by typing a chord.

use vstd::prelude::*;

use crate::state::ShoestringWm;
use crate::text::chars_of;
use crate::text::concat3;
use crate::text::parse_u32;
use crate::text::str_eq;
use crate::text::to_lower;

verus! {

pub const BTN_LEFT: u32 = 0x110;

pub const BTN_RIGHT: u32 = 0x111;

pub const BTN_MIDDLE: u32 = 0x112;

/// The keysym of the left shift key.
pub const SHIFT_L: u32 = 0xffe1;

/// Why an injection is refused.
#[derive(Debug)]
pub enum InjectError {
    UnknownKeysym(String),
    KeysymNotInKeymap(String),
    UnsupportedChar(char),
    UnknownButton(String),
}

/// What an [`InjectError`] says.
pub enum Fault {
    UnknownKeysym(Seq<char>),
    KeysymNotInKeymap(Seq<char>),
    UnsupportedChar(char),
    UnknownButton(Seq<char>),
}

impl View for InjectError {
    type V = Fault;

    open spec fn view(&self) -> Fault {
        match self {
            InjectError::UnknownKeysym(s) => Fault::UnknownKeysym(s@),
            InjectError::KeysymNotInKeymap(s) => Fault::KeysymNotInKeymap(s@),
            InjectError::UnsupportedChar(c) => Fault::UnsupportedChar(*c),
            InjectError::UnknownButton(s) => Fault::UnknownButton(s@),
        }
    }
}

/// How the standard library quotes a text for debugging.
pub uninterp spec fn quoted_str(s: Seq<char>) -> Seq<char>;

/// How the standard library quotes a character for debugging.
pub uninterp spec fn quoted_char(c: char) -> Seq<char>;

/// The `Debug` form of a `str`: its characters between double quotes, special
/// ones escaped.
#[verifier::external_body]
fn quote_str(s: &str) -> (r: String)
    ensures
        r@ == quoted_str(s@),
{
    format!("{:?}", s)
}

/// The `Debug` form of a `char`: the character between single quotes, escaped
/// where it is special.
#[verifier::external_body]
fn quote_char(c: char) -> (r: String)
    ensures
        r@ == quoted_char(c),
{
    format!("{:?}", c)
}

/// The message of a fault.
pub open spec fn fault_message(f: Fault) -> Seq<char> {
    match f {
        Fault::UnknownKeysym(s) => "unknown keysym name: "@ + quoted_str(s),
        Fault::KeysymNotInKeymap(s) => "keysym "@ + quoted_str(s)
            + " is not produced by any key in the current keymap"@,
        Fault::UnsupportedChar(c) => "character "@ + quoted_char(c)
            + " cannot be typed (v1 supports ASCII letters/digits/space)"@,
        Fault::UnknownButton(s) => "unknown button: "@ + quoted_str(s)
            + " (expected left/right/middle or a numeric BTN_* code)"@,
    }
}

impl InjectError {
    /// The message that a client gets.
    pub fn message(&self) -> (r: String)
        ensures
            r@ == fault_message(self@),
    {
        match self {
            InjectError::UnknownKeysym(s) => {
                let q = quote_str(s.as_str());
                crate::text::concat2("unknown keysym name: ", q.as_str())
            },
            InjectError::KeysymNotInKeymap(s) => {
                let q = quote_str(s.as_str());
                concat3(
                    "keysym ",
                    q.as_str(),
                    " is not produced by any key in the current keymap",
                )
            },
            InjectError::UnsupportedChar(c) => {
                let q = quote_char(*c);
                concat3(
                    "character ",
                    q.as_str(),
                    " cannot be typed (v1 supports ASCII letters/digits/space)",
                )
            },
            InjectError::UnknownButton(s) => {
                let q = quote_str(s.as_str());
                concat3(
                    "unknown button: ",
                    q.as_str(),
                    " (expected left/right/middle or a numeric BTN_* code)",
                )
            },
        }
    }
}

/// A key of the keymap: its keysyms by layout and level.
#[derive(Debug)]
pub struct KeyLevels {
    pub keycode: u32,
    pub layouts: Vec<Vec<Vec<u32>>>,
}

/// A key event to send.
#[derive(Clone, Copy, Debug, PartialEq, Eq, Structural)]
pub struct KeyStep {
    pub keycode: u32,
    pub pressed: bool,
}

/// The key that produces a keysym, and whether shift has to be held for it.
#[derive(Clone, Copy, Debug, PartialEq, Eq, Structural)]
pub struct ResolvedKey {
    pub keycode: u32,
    pub shifted: bool,
}

/// The first level that yields the keysym and nothing else.
pub open spec fn level_of(levels: Seq<Vec<u32>>, target: u32) -> Option<nat>
    decreases levels.len(),
{
    if levels.len() == 0 {
        None
    } else if levels[0]@ == seq![target] {
        Some(0)
    } else {
        match level_of(levels.drop_first(), target) {
            Some(n) => Some(n + 1),
            None => None,
        }
    }
}

/// The level in the first layout that yields the keysym.
pub open spec fn layout_level(layouts: Seq<Vec<Vec<u32>>>, target: u32) -> Option<nat>
    decreases layouts.len(),
{
    if layouts.len() == 0 {
        None
    } else {
        match level_of(layouts[0]@, target) {
            Some(n) => Some(n),
            None => layout_level(layouts.drop_first(), target),
        }
    }
}

/// The first key that yields the keysym. Levels above the first need shift.
pub open spec fn resolved(keys: Seq<KeyLevels>, target: u32) -> Option<ResolvedKey>
    decreases keys.len(),
{
    if keys.len() == 0 {
        None
    } else {
        match layout_level(keys[0].layouts@, target) {
            Some(n) => Some(ResolvedKey { keycode: keys[0].keycode, shifted: n > 0 }),
            None => resolved(keys.drop_first(), target),
        }
    }
}

fn find_level(levels: &Vec<Vec<u32>>, target: u32) -> (r: Option<usize>)
    ensures
        match r {
            Some(n) => level_of(levels@, target) == Some(n as nat),
            None => level_of(levels@, target) is None,
        },
{
    let ghost all = levels@;
    let mut i: usize = 0;
    assert(all.skip(0) =~= all);
    while i < levels.len()
        invariant
            i <= all.len(),
            all == levels@,
            level_of(all, target) == (match level_of(all.skip(i as int), target) {
                Some(n) => Some(n + i as nat),
                None => None,
            }),
        decreases all.len() - i,
    {
        assert(all.skip(i as int).drop_first() =~= all.skip(i + 1));
        assert(all.skip(i as int)[0] == all[i as int]);
        let syms = &levels[i];
        if syms.len() == 1 && syms[0] == target {
            assert(syms@ =~= seq![target]);
            return Some(i);
        }
        i += 1;
    }
    None
}

fn find_layout(layouts: &Vec<Vec<Vec<u32>>>, target: u32) -> (r: Option<usize>)
    ensures
        match r {
            Some(n) => layout_level(layouts@, target) == Some(n as nat),
            None => layout_level(layouts@, target) is None,
        },
{
    let ghost all = layouts@;
    let mut i: usize = 0;
    assert(all.skip(0) =~= all);
    while i < layouts.len()
        invariant
            i <= all.len(),
            all == layouts@,
            layout_level(all, target) == layout_level(all.skip(i as int), target),
        decreases all.len() - i,
    {
        assert(all.skip(i as int).drop_first() =~= all.skip(i + 1));
        assert(all.skip(i as int)[0] == all[i as int]);
        if let Some(n) = find_level(&layouts[i], target) {
            return Some(n);
        }
        i += 1;
    }
    None
}

/// The keysym name that a short modifier name stands for. Case does not matter.
pub open spec fn alias_of(name: Seq<char>) -> Option<Seq<char>> {
    let n = crate::text::lower(name);
    if n == "super"@ || n == "logo"@ || n == "mod4"@ || n == "win"@ {
        Some("Super_L"@)
    } else if n == "ctrl"@ || n == "control"@ {
        Some("Control_L"@)
    } else if n == "alt"@ || n == "mod1"@ {
        Some("Alt_L"@)
    } else if n == "shift"@ {
        Some("Shift_L"@)
    } else {
        None
    }
}

/// The keysym name of a short modifier name; none for any other name.
pub fn resolve_modifier_alias(name: &str) -> (r: Option<&'static str>)
    ensures
        crate::text::opt_str_view(r) == alias_of(name@),
{
    let low = to_lower(name);
    let n = low.as_str();
    if str_eq(n, "super") || str_eq(n, "logo") || str_eq(n, "mod4") || str_eq(n, "win") {
        Some("Super_L")
    } else if str_eq(n, "ctrl") || str_eq(n, "control") {
        Some("Control_L")
    } else if str_eq(n, "alt") || str_eq(n, "mod1") {
        Some("Alt_L")
    } else if str_eq(n, "shift") {
        Some("Shift_L")
    } else {
        None
    }
}

/// The keysym name that a modifier of a chord stands for: its alias, or the
/// name itself.
pub open spec fn modifier_name(name: Seq<char>) -> Seq<char> {
    match alias_of(name) {
        Some(a) => a,
        None => name,
    }
}

/// The keysym name to look up for a modifier of a chord.
pub fn modifier_keysym_name(name: &str) -> (r: String)
    ensures
        r@ == modifier_name(name@),
{
    match resolve_modifier_alias(name) {
        Some(a) => a.to_owned(),
        None => name.to_owned(),
    }
}

/// The keysym name of the key that a modifier's bit stands for.
pub open spec fn key_of_bit(bit: u8) -> Option<Seq<char>> {
    if bit == crate::binds::MOD_LOGO {
        Some("Super_L"@)
    } else if bit == crate::binds::MOD_CTRL {
        Some("Control_L"@)
    } else if bit == crate::binds::MOD_ALT {
        Some("Alt_L"@)
    } else if bit == crate::binds::MOD_SHIFT {
        Some("Shift_L"@)
    } else {
        None
    }
}

/// The modifier names that a chord accepts are those that bindings accept, and a
/// name stands for the same modifier in both: the key that is pressed is that of
/// the bit. No two bits have one key.
pub proof fn law_aliases_match_bindings(name: Seq<char>, other: Seq<char>)
    ensures
        alias_of(name) is Some <==> crate::binds::modifier_bit(name) is Some,
        crate::binds::modifier_bit(name) matches Some(bit) ==> alias_of(name) == key_of_bit(bit),
        alias_of(name) == alias_of(other) <==> crate::binds::modifier_bit(name)
            == crate::binds::modifier_bit(other),
{
    reveal_strlit("Super_L");
    reveal_strlit("Control_L");
    reveal_strlit("Alt_L");
    reveal_strlit("Shift_L");
    assert("Super_L"@[0] == 'S' && "Super_L"@[1] == 'u');
    assert("Shift_L"@[0] == 'S' && "Shift_L"@[1] == 'h');
    assert("Control_L"@[0] == 'C');
    assert("Alt_L"@[0] == 'A');
}

/// Judges the keysym that a name was found to stand for.
pub fn parse_keysym_name(name: &str, keysym: u32) -> (r: Result<u32, InjectError>)
    ensures
        match r {
            Ok(s) => keysym != crate::binds::NO_SYMBOL && s == keysym,
            Err(e) => keysym == crate::binds::NO_SYMBOL && e@ == Fault::UnknownKeysym(name@),
        },
{
    if keysym == crate::binds::NO_SYMBOL {
        Err(InjectError::UnknownKeysym(name.to_owned()))
    } else {
        Ok(keysym)
    }
}

/// The button that a text names: one of three names, or a number.
pub open spec fn button_of(s: Seq<char>) -> Option<int> {
    if s == "left"@ || s == "Left"@ {
        Some(BTN_LEFT as int)
    } else if s == "right"@ || s == "Right"@ {
        Some(BTN_RIGHT as int)
    } else if s == "middle"@ || s == "Middle"@ {
        Some(BTN_MIDDLE as int)
    } else {
        crate::text::decimal_in(s, 0, u32::MAX as int)
    }
}

/// The button that a text names.
pub fn parse_button(s: &str) -> (r: Result<u32, InjectError>)
    ensures
        match r {
            Ok(code) => button_of(s@) == Some(code as int),
            Err(e) => button_of(s@) is None && e@ == Fault::UnknownButton(s@),
        },
{
    if str_eq(s, "left") || str_eq(s, "Left") {
        Ok(BTN_LEFT)
    } else if str_eq(s, "right") || str_eq(s, "Right") {
        Ok(BTN_RIGHT)
    } else if str_eq(s, "middle") || str_eq(s, "Middle") {
        Ok(BTN_MIDDLE)
    } else {
        match parse_u32(s) {
            Some(code) => Ok(code),
            None => Err(InjectError::UnknownButton(s.to_owned())),
        }
    }
}

/// Whether text injection covers a character.
pub open spec fn typable(c: char) -> bool {
    'A' <= c <= 'Z' || 'a' <= c <= 'z' || '0' <= c <= '9' || c == ' '
}

/// Whether text injection covers a character: ASCII letters, digits and space.
pub fn is_supported_ascii(ch: char) -> (r: bool)
    ensures
        r == typable(ch),
{
    ('A' <= ch && ch <= 'Z') || ('a' <= ch && ch <= 'z') || ('0' <= ch && ch <= '9') || ch == ' '
}

/// What is wrong with a key of a chord: its name stands for no keysym, or no
/// key yields the keysym.
pub open spec fn key_fault(keys: Seq<KeyLevels>, name: Seq<char>, keysym: u32) -> Option<Fault> {
    if keysym == crate::binds::NO_SYMBOL {
        Some(Fault::UnknownKeysym(name))
    } else if resolved(keys, keysym) is None {
        Some(Fault::KeysymNotInKeymap(name))
    } else {
        None
    }
}

/// The first thing wrong with the modifiers of a chord.
pub open spec fn modifiers_fault(
    keys: Seq<KeyLevels>,
    names: Seq<String>,
    keysyms: Seq<u32>,
) -> Option<Fault>
    decreases names.len(),
{
    if names.len() == 0 {
        None
    } else {
        match modifiers_fault(keys, names.drop_last(), keysyms) {
            Some(f) => Some(f),
            None => key_fault(keys, modifier_name(names.last()@), keysyms[names.len() - 1]),
        }
    }
}

/// The first thing wrong with a chord.
pub open spec fn chord_fault(
    keys: Seq<KeyLevels>,
    modifiers: Seq<String>,
    modifier_syms: Seq<u32>,
    name: Seq<char>,
    keysym: u32,
) -> Option<Fault> {
    match modifiers_fault(keys, modifiers, modifier_syms) {
        Some(f) => Some(f),
        None => key_fault(keys, name, keysym),
    }
}

/// The keycodes of keysyms that all have one.
pub open spec fn codes(keys: Seq<KeyLevels>, keysyms: Seq<u32>) -> Seq<u32> {
    keysyms.map_values(|s: u32| resolved(keys, s)->0.keycode)
}

/// Presses of keys, in order.
pub open spec fn presses(keycodes: Seq<u32>) -> Seq<KeyStep> {
    keycodes.map_values(|k: u32| KeyStep { keycode: k, pressed: true })
}

/// Releases of keys, the last one first.
pub open spec fn releases(keycodes: Seq<u32>) -> Seq<KeyStep> {
    keycodes.reverse().map_values(|k: u32| KeyStep { keycode: k, pressed: false })
}

/// A key pressed and released.
pub open spec fn tap(keycode: u32) -> Seq<KeyStep> {
    seq![KeyStep { keycode, pressed: true }, KeyStep { keycode, pressed: false }]
}

/// The events of a chord: the modifiers go down in order, the key is tapped,
/// and the modifiers come up in reverse.
pub open spec fn chord(keycodes: Seq<u32>, key: u32) -> Seq<KeyStep> {
    presses(keycodes) + tap(key) + releases(keycodes)
}

/// The events that type one character.
pub open spec fn char_steps(keys: Seq<KeyLevels>, c: char) -> Seq<KeyStep> {
    let key = resolved(keys, c as u32)->0;
    match resolved(keys, SHIFT_L) {
        Some(shift) if key.shifted => chord(seq![shift.keycode], key.keycode),
        _ => tap(key.keycode),
    }
}

/// The events that type a text.
pub open spec fn text_steps(keys: Seq<KeyLevels>, s: Seq<char>) -> Seq<KeyStep>
    decreases s.len(),
{
    if s.len() == 0 {
        Seq::empty()
    } else {
        text_steps(keys, s.drop_last()) + char_steps(keys, s.last())
    }
}

/// Whether the character at `i` is the first that is not covered.
pub open spec fn first_untypable(s: Seq<char>, i: int) -> bool {
    &&& 0 <= i < s.len()
    &&& !typable(s[i])
    &&& forall|j: int| 0 <= j < i ==> typable(#[trigger] s[j])
}

/// Whether the character at `i` is the first that no key yields.
pub open spec fn first_keyless(keys: Seq<KeyLevels>, s: Seq<char>, i: int) -> bool {
    &&& 0 <= i < s.len()
    &&& resolved(keys, s[i] as u32) is None
    &&& forall|j: int| 0 <= j < i ==> resolved(keys, (#[trigger] s[j]) as u32) is Some
}

/// The character on account of which a text is not typed in full: the first that
/// is not covered, else the first that no key yields.
pub open spec fn text_fault(keys: Seq<KeyLevels>, s: Seq<char>) -> Option<char> {
    if exists|i: int| first_untypable(s, i) {
        Some(s[choose|i: int| first_untypable(s, i)])
    } else if exists|i: int| first_keyless(keys, s, i) {
        Some(s[choose|i: int| first_keyless(keys, s, i)])
    } else {
        None
    }
}

/// There is at most one first character of either kind.
pub proof fn lemma_text_fault(keys: Seq<KeyLevels>, s: Seq<char>, i: int)
    ensures
        first_untypable(s, i) ==> text_fault(keys, s) == Some(s[i]),
        (forall|j: int| !first_untypable(s, j)) && first_keyless(keys, s, i) ==> text_fault(keys, s)
            == Some(s[i]),
{
    if first_untypable(s, i) {
        let c = choose|c: int| first_untypable(s, c);
        if c < i {
            assert(typable(s[c]));
        }
        if i < c {
            assert(typable(s[i]));
        }
    } else if first_keyless(keys, s, i) {
        let c = choose|c: int| first_keyless(keys, s, c);
        if c < i {
            assert(resolved(keys, s[c] as u32) is Some);
        }
        if i < c {
            assert(resolved(keys, s[i] as u32) is Some);
        }
    }
}

/// Where the keyboard focus goes on a click.
#[derive(Clone, Copy, Debug, PartialEq, Eq, Structural)]
pub enum ClickFocus {
    Focus(u64),
    Keep,
    Clear,
}

/// Where the focus goes on a click: to the window under the pointer, unless a
/// layer surface above the windows covers it; nowhere only over the bare
/// desktop.
pub open spec fn focus_for_click(
    window: Option<u64>,
    overlay: bool,
    surface: bool,
) -> ClickFocus {
    match window {
        Some(w) => if overlay {
            ClickFocus::Keep
        } else {
            ClickFocus::Focus(w)
        },
        None => if surface {
            ClickFocus::Keep
        } else {
            ClickFocus::Clear
        },
    }
}

/// Where the focus goes on a click, given the window under the pointer, whether
/// a top or overlay layer covers the point, and whether any surface is there.
pub fn click_focus(window: Option<u64>, overlay: bool, surface: bool) -> (r: ClickFocus)
    ensures
        r == focus_for_click(window, overlay, surface),
{
    match window {
        Some(w) => if overlay {
            ClickFocus::Keep
        } else {
            ClickFocus::Focus(w)
        },
        None => if surface {
            ClickFocus::Keep
        } else {
            ClickFocus::Clear
        },
    }
}

/// An injected click: the button to press and release, the point to move to
/// first, as the bits of two double-precision numbers.
#[derive(Clone, Copy, Debug)]
pub struct ClickPlan {
    pub button: u32,
    pub move_to: Option<(u64, u64)>,
}

impl ShoestringWm {
    /// The first key of the keymap that yields a keysym.
    pub fn resolve_keysym(&self, target: u32) -> (r: Option<ResolvedKey>)
        ensures
            r == resolved(self.keymap@, target),
    {
        let ghost all = self.keymap@;
        let mut i: usize = 0;
        assert(all.skip(0) =~= all);
        while i < self.keymap.len()
            invariant
                i <= all.len(),
                all == self.keymap@,
                resolved(all, target) == resolved(all.skip(i as int), target),
            decreases all.len() - i,
        {
            assert(all.skip(i as int).drop_first() =~= all.skip(i + 1));
            assert(all.skip(i as int)[0] == all[i as int]);
            if let Some(n) = find_layout(&self.keymap[i].layouts, target) {
                return Some(ResolvedKey { keycode: self.keymap[i].keycode, shifted: n > 0 });
            }
            i += 1;
        }
        None
    }

    fn dispatch_key(&mut self, keycode: u32, pressed: bool)
        ensures
            final(self).key_queue@ == old(self).key_queue@.push(KeyStep { keycode, pressed }),
            *final(self) == (ShoestringWm { key_queue: final(self).key_queue, ..*old(self) }),
    {
        self.key_queue.push(KeyStep { keycode, pressed });
    }

    /// Queues a press of a key.
    pub fn press_key(&mut self, keycode: u32)
        ensures
            final(self).key_queue@ == old(self).key_queue@.push(
                KeyStep { keycode, pressed: true },
            ),
            *final(self) == (ShoestringWm { key_queue: final(self).key_queue, ..*old(self) }),
    {
        self.dispatch_key(keycode, true);
    }

    /// Queues a release of a key.
    pub fn release_key(&mut self, keycode: u32)
        ensures
            final(self).key_queue@ == old(self).key_queue@.push(
                KeyStep { keycode, pressed: false },
            ),
            *final(self) == (ShoestringWm { key_queue: final(self).key_queue, ..*old(self) }),
    {
        self.dispatch_key(keycode, false);
    }

    /// Queues a press and a release of a key.
    pub fn tap_key(&mut self, keycode: u32)
        ensures
            final(self).key_queue@ == old(self).key_queue@ + tap(keycode),
            *final(self) == (ShoestringWm { key_queue: final(self).key_queue, ..*old(self) }),
    {
        self.press_key(keycode);
        self.release_key(keycode);
        assert(self.key_queue@ =~= old(self).key_queue@ + tap(keycode));
    }

    /// Queues a chord. The keysyms are those that the names stand for: that of
    /// [`modifier_keysym_name`] for each modifier, and that of the key. All
    /// names are settled before the first event, so that a chord is sent whole
    /// or not at all.
    pub fn inject_key(
        &mut self,
        keysym_name: &str,
        modifiers: &Vec<String>,
        keysym: u32,
        modifier_syms: &Vec<u32>,
    ) -> (r: Result<(), InjectError>)
        requires
            modifiers@.len() == modifier_syms@.len(),
        ensures
            ({
                let fault = chord_fault(
                    old(self).keymap@,
                    modifiers@,
                    modifier_syms@,
                    keysym_name@,
                    keysym,
                );
                match r {
                    Ok(_) => {
                        &&& fault is None
                        &&& final(self).key_queue@ == old(self).key_queue@ + chord(
                            codes(old(self).keymap@, modifier_syms@),
                            resolved(old(self).keymap@, keysym)->0.keycode,
                        )
                    },
                    Err(e) => fault == Some(e@) && final(self).key_queue@ == old(self).key_queue@,
                }
            }),
            *final(self) == (ShoestringWm { key_queue: final(self).key_queue, ..*old(self) }),
    {
        let ghost keys = self.keymap@;
        let ghost names = modifiers@;
        let ghost syms = modifier_syms@;
        let mut mod_keycodes: Vec<u32> = Vec::new();
        let mut i: usize = 0;
        assert(mod_keycodes@ =~= codes(keys, syms.take(0)));
        while i < modifiers.len()
            invariant
                i <= names.len(),
                names == modifiers@,
                syms == modifier_syms@,
                names.len() == syms.len(),
                keys == self.keymap@,
                *self == *old(self),
                modifiers_fault(keys, names.take(i as int), syms) is None,
                mod_keycodes@ == codes(keys, syms.take(i as int)),
            decreases names.len() - i,
        {
            let name = modifier_keysym_name(modifiers[i].as_str());
            proof {
                assert(names.take(i + 1).drop_last() =~= names.take(i as int));
                assert(names.take(i + 1).last() == names[i as int]);
                lemma_fault_stays(keys, names, syms, i + 1);
                assert(syms.take(i + 1) =~= syms.take(i as int).push(syms[i as int]));
            }
            let sym = match parse_keysym_name(name.as_str(), modifier_syms[i]) {
                Ok(s) => s,
                Err(e) => {
                    return Err(e);
                },
            };
            match self.resolve_keysym(sym) {
                Some(key) => {
                    mod_keycodes.push(key.keycode);
                    assert(mod_keycodes@ =~= codes(keys, syms.take(i + 1)));
                },
                None => {
                    return Err(InjectError::KeysymNotInKeymap(name));
                },
            }
            i += 1;
        }
        assert(names.take(i as int) =~= names);
        assert(syms.take(i as int) =~= syms);
        let sym = match parse_keysym_name(keysym_name, keysym) {
            Ok(s) => s,
            Err(e) => {
                return Err(e);
            },
        };
        let key = match self.resolve_keysym(sym) {
            Some(key) => key,
            None => {
                return Err(InjectError::KeysymNotInKeymap(keysym_name.to_owned()));
            },
        };
        let ghost held = mod_keycodes@;
        let ghost start = self.key_queue@;
        let mut p: usize = 0;
        assert(presses(held.take(0)) =~= Seq::empty());
        while p < mod_keycodes.len()
            invariant
                p <= held.len(),
                held == mod_keycodes@,
                start == old(self).key_queue@,
                self.key_queue@ =~= start + presses(held.take(p as int)),
                *self == (ShoestringWm { key_queue: self.key_queue, ..*old(self) }),
            decreases held.len() - p,
        {
            self.press_key(mod_keycodes[p]);
            p += 1;
        }
        assert(held.take(p as int) =~= held);
        self.tap_key(key.keycode);
        let ghost down = start + presses(held) + tap(key.keycode);
        let mut q: usize = mod_keycodes.len();
        while q > 0
            invariant
                q <= held.len(),
                held == mod_keycodes@,
                self.key_queue@ =~= down + releases(held).take(held.len() - q),
                *self == (ShoestringWm { key_queue: self.key_queue, ..*old(self) }),
            decreases q,
        {
            q -= 1;
            self.release_key(mod_keycodes[q]);
        }
        assert(releases(held).take(held.len() as int) =~= releases(held));
        assert(self.key_queue@ =~= start + chord(held, key.keycode));
        Ok(())
    }

    /// Queues the events that type a text. A text with a character that is not
    /// covered is refused whole. Where the keymap lacks a key for a character,
    /// the text before it is typed.
    pub fn inject_text(&mut self, text: &str) -> (r: Result<(), InjectError>)
        ensures
            *final(self) == (ShoestringWm { key_queue: final(self).key_queue, ..*old(self) }),
            ({
                let keys = old(self).keymap@;
                let s = text@;
                match r {
                    Ok(_) => {
                        &&& forall|i: int| !first_untypable(s, i)
                        &&& forall|i: int| !first_keyless(keys, s, i)
                        &&& final(self).key_queue@ == old(self).key_queue@ + text_steps(keys, s)
                    },
                    Err(e) => {
                        ||| exists|i: int|
                            #[trigger] first_untypable(s, i) && e@ == Fault::UnsupportedChar(s[i])
                                && final(self).key_queue@ == old(self).key_queue@
                        ||| (forall|i: int| !first_untypable(s, i)) && exists|i: int|
                            #[trigger] first_keyless(keys, s, i) && e@ == Fault::UnsupportedChar(
                                s[i],
                            ) && final(self).key_queue@ == old(self).key_queue@ + text_steps(
                                keys,
                                s.take(i),
                            )
                    },
                }
            }),
    {
        let v = chars_of(text);
        let ghost s = text@;
        let ghost keys = self.keymap@;
        let ghost start = self.key_queue@;
        let mut i: usize = 0;
        while i < v.len()
            invariant
                i <= s.len(),
                v@ == s,
                s == text@,
                *self == *old(self),
                forall|j: int| 0 <= j < i ==> typable(#[trigger] s[j]),
            decreases s.len() - i,
        {
            if !is_supported_ascii(v[i]) {
                assert(first_untypable(s, i as int));
                return Err(InjectError::UnsupportedChar(v[i]));
            }
            i += 1;
        }
        assert(forall|k: int| !first_untypable(s, k));
        let shift = self.resolve_keysym(SHIFT_L);
        let mut k: usize = 0;
        assert(s.take(0) =~= Seq::empty());
        assert(start + text_steps(keys, s.take(0)) =~= start);
        while k < v.len()
            invariant
                k <= s.len(),
                v@ == s,
                s == text@,
                keys == self.keymap@,
                keys == old(self).keymap@,
                start == old(self).key_queue@,
                shift == resolved(keys, SHIFT_L),
                forall|j: int| 0 <= j < s.len() ==> typable(#[trigger] s[j]),
                forall|j: int| !first_untypable(s, j),
                forall|j: int| 0 <= j < k ==> resolved(keys, (#[trigger] s[j]) as u32) is Some,
                self.key_queue@ == start + text_steps(keys, s.take(k as int)),
                *self == (ShoestringWm { key_queue: self.key_queue, ..*old(self) }),
            decreases s.len() - k,
        {
            let ch = v[k];
            let ghost so_far = self.key_queue@;
            proof {
                assert(s.take(k + 1).drop_last() =~= s.take(k as int));
                assert(s.take(k + 1).last() == ch);
            }
            match self.resolve_keysym(ch as u32) {
                Some(key) => {
                    let held: Option<u32> = if key.shifted {
                        match shift {
                            Some(sk) => Some(sk.keycode),
                            None => None,
                        }
                    } else {
                        None
                    };
                    if let Some(kc) = held {
                        self.press_key(kc);
                    }
                    self.tap_key(key.keycode);
                    if let Some(kc) = held {
                        self.release_key(kc);
                        assert(self.key_queue@ =~= so_far + chord(seq![kc], key.keycode));
                    }
                    assert(self.key_queue@ =~= so_far + char_steps(keys, ch));
                    assert(self.key_queue@ =~= start + text_steps(keys, s.take(k + 1)));
                },
                None => {
                    assert(first_keyless(keys, s, k as int));
                    return Err(InjectError::UnsupportedChar(ch));
                },
            }
            k += 1;
        }
        assert(s.take(k as int) =~= s);
        assert(forall|j: int| !first_keyless(keys, s, j));
        Ok(())
    }

    /// What an injected click does: it moves the pointer where a point is given,
    /// then presses and releases the button.
    pub fn inject_click(&self, button: &str, xy: Option<(u64, u64)>) -> (r: Result<
        ClickPlan,
        InjectError,
    >)
        ensures
            match r {
                Ok(p) => button_of(button@) == Some(p.button as int) && p.move_to == xy,
                Err(e) => button_of(button@) is None && e@ == Fault::UnknownButton(button@),
            },
    {
        match parse_button(button) {
            Ok(code) => Ok(ClickPlan { button: code, move_to: xy }),
            Err(e) => Err(e),
        }
    }
}

proof fn lemma_fault_stays(keys: Seq<KeyLevels>, names: Seq<String>, syms: Seq<u32>, n: int)
    requires
        0 <= n <= names.len(),
    ensures
        modifiers_fault(keys, names.take(n), syms) is Some ==> modifiers_fault(keys, names, syms)
            == modifiers_fault(keys, names.take(n), syms),
    decreases names.len(),
{
    if n < names.len() {
        lemma_fault_stays(keys, names.drop_last(), syms, n);
        assert(names.drop_last().take(n) =~= names.take(n));
    } else {
        assert(names.take(n) =~= names);
    }
}

/// Every key that a chord presses it also releases, and the last pressed comes
/// up first: the chord read backwards, with presses and releases exchanged, is
/// the chord itself.
pub proof fn law_chord_balanced(keycodes: Seq<u32>, key: u32, i: int)
    requires
        0 <= i < chord(keycodes, key).len(),
    ensures
        ({
            let c = chord(keycodes, key);
            let mirror = c[c.len() - 1 - i];
            c[i].keycode == mirror.keycode && c[i].pressed != mirror.pressed
        }),
{
    let n = keycodes.len() as int;
    let c = chord(keycodes, key);
    assert(c.len() == 2 * n + 2);
}

/// How often a key is down after some events: each press counts, each release
/// counts against it.
pub open spec fn held(steps: Seq<KeyStep>, keycode: u32) -> int
    decreases steps.len(),
{
    if steps.len() == 0 {
        0
    } else {
        let last = steps.last();
        held(steps.drop_last(), keycode) + if last.keycode != keycode {
            0int
        } else if last.pressed {
            1int
        } else {
            -1int
        }
    }
}

proof fn lemma_held_sum(a: Seq<KeyStep>, b: Seq<KeyStep>, keycode: u32)
    ensures
        held(a + b, keycode) == held(a, keycode) + held(b, keycode),
    decreases b.len(),
{
    if b.len() == 0 {
        assert(a + b =~= a);
    } else {
        assert((a + b).drop_last() =~= a + b.drop_last());
        lemma_held_sum(a, b.drop_last(), keycode);
    }
}

proof fn lemma_held_one(step: KeyStep, keycode: u32)
    ensures
        held(seq![step], keycode) == (if step.keycode != keycode {
            0int
        } else if step.pressed {
            1int
        } else {
            -1int
        }),
{
    reveal_with_fuel(held, 2);
    assert(seq![step].drop_last() =~= Seq::empty());
}

proof fn lemma_held_modifiers(keycodes: Seq<u32>, keycode: u32)
    ensures
        held(presses(keycodes), keycode) + held(releases(keycodes), keycode) == 0,
    decreases keycodes.len(),
{
    if keycodes.len() == 0 {
        assert(presses(keycodes) =~= Seq::empty());
        assert(releases(keycodes) =~= Seq::empty());
    } else {
        let rest = keycodes.drop_last();
        let up = KeyStep { keycode: keycodes.last(), pressed: false };
        lemma_held_modifiers(rest, keycode);
        assert(presses(keycodes).drop_last() =~= presses(rest));
        assert(releases(keycodes) =~= seq![up] + releases(rest));
        lemma_held_sum(seq![up], releases(rest), keycode);
        lemma_held_one(up, keycode);
    }
}

/// A chord leaves no key down.
pub proof fn law_chord_lets_go(keycodes: Seq<u32>, key: u32, keycode: u32)
    ensures
        held(chord(keycodes, key), keycode) == 0,
{
    let down = KeyStep { keycode: key, pressed: true };
    let up = KeyStep { keycode: key, pressed: false };
    lemma_held_sum(presses(keycodes) + tap(key), releases(keycodes), keycode);
    lemma_held_sum(presses(keycodes), tap(key), keycode);
    assert(tap(key) =~= seq![down] + seq![up]);
    lemma_held_sum(seq![down], seq![up], keycode);
    lemma_held_one(down, keycode);
    lemma_held_one(up, keycode);
    lemma_held_modifiers(keycodes, keycode);
}

/// However far a text is typed, no key stays down behind a character.
pub proof fn law_text_lets_go(keys: Seq<KeyLevels>, s: Seq<char>, keycode: u32)
    ensures
        held(text_steps(keys, s), keycode) == 0,
    decreases s.len(),
{
    if s.len() > 0 {
        law_text_lets_go(keys, s.drop_last(), keycode);
        lemma_held_sum(text_steps(keys, s.drop_last()), char_steps(keys, s.last()), keycode);
        let key = resolved(keys, s.last() as u32)->0;
        law_chord_lets_go(Seq::empty(), key.keycode, keycode);
        assert(chord(Seq::empty(), key.keycode) =~= tap(key.keycode));
        if let Some(shift) = resolved(keys, SHIFT_L) {
            law_chord_lets_go(seq![shift.keycode], key.keycode, keycode);
        }
    }
}

/// Whether the key at `i` yields the keysym, and nothing else, on a level of a
/// layout.
pub open spec fn yields(
    keys: Seq<KeyLevels>,
    target: u32,
    i: int,
    layout: int,
    level: int,
) -> bool {
    &&& 0 <= i < keys.len()
    &&& 0 <= layout < keys[i].layouts@.len()
    &&& 0 <= level < keys[i].layouts@[layout]@.len()
    &&& keys[i].layouts@[layout]@[level]@ == seq![target]
}

proof fn lemma_level(levels: Seq<Vec<u32>>, target: u32)
    ensures
        match level_of(levels, target) {
            Some(n) => n < levels.len() && levels[n as int]@ == seq![target],
            None => forall|n: int|
                0 <= n < levels.len() ==> (#[trigger] levels[n])@ != seq![target],
        },
    decreases levels.len(),
{
    if levels.len() > 0 && levels[0]@ != seq![target] {
        let rest = levels.drop_first();
        lemma_level(rest, target);
        if level_of(rest, target) is None {
            assert forall|n: int| 0 <= n < levels.len() implies (#[trigger] levels[n])@
                != seq![target] by {
                if n > 0 {
                    assert(rest[n - 1] == levels[n]);
                }
            }
        }
    }
}

proof fn lemma_layout(layouts: Seq<Vec<Vec<u32>>>, target: u32) -> (l: int)
    ensures
        match layout_level(layouts, target) {
            Some(n) => {
                &&& 0 <= l < layouts.len()
                &&& n < layouts[l]@.len()
                &&& layouts[l]@[n as int]@ == seq![target]
            },
            None => forall|k: int, n: int|
                0 <= k < layouts.len() && 0 <= n < layouts[k]@.len() ==> (
                #[trigger] layouts[k]@[n])@ != seq![target],
        },
    decreases layouts.len(),
{
    if layouts.len() == 0 {
        0
    } else {
        lemma_level(layouts[0]@, target);
        if level_of(layouts[0]@, target) is Some {
            0
        } else {
            let rest = layouts.drop_first();
            let l = lemma_layout(rest, target);
            if layout_level(rest, target) is None {
                assert forall|k: int, n: int|
                    0 <= k < layouts.len() && 0 <= n < layouts[k]@.len() implies (
                #[trigger] layouts[k]@[n])@ != seq![target] by {
                    if k > 0 {
                        assert(rest[k - 1]@[n] == layouts[k]@[n]);
                    }
                }
            }
            l + 1
        }
    }
}

/// The key that a keysym is typed with yields it, on the first level without
/// shift or on another one with shift, and no key before it does. A keysym
/// without a key is yielded by none.
pub proof fn law_key_yields_symbol(keys: Seq<KeyLevels>, target: u32)
    ensures
        match resolved(keys, target) {
            Some(r) => exists|i: int, layout: int, level: int|
                {
                    &&& #[trigger] yields(keys, target, i, layout, level)
                    &&& keys[i].keycode == r.keycode
                    &&& r.shifted == (level > 0)
                    &&& forall|j: int, a: int, b: int|
                        0 <= j < i ==> !#[trigger] yields(keys, target, j, a, b)
                },
            None => forall|i: int, layout: int, level: int|
                !#[trigger] yields(keys, target, i, layout, level),
        },
    decreases keys.len(),
{
    if keys.len() > 0 {
        let here = keys[0].layouts@;
        let l = lemma_layout(here, target);
        match layout_level(here, target) {
            Some(n) => {
                assert(yields(keys, target, 0, l, n as int));
            },
            None => {
                let rest = keys.drop_first();
                law_key_yields_symbol(rest, target);
                assert forall|a: int, b: int| !#[trigger] yields(keys, target, 0, a, b) by {
                    if 0 <= a < here.len() && 0 <= b < here[a]@.len() {
                        assert(here[a]@[b]@ != seq![target]);
                    }
                }
                assert forall|j: int, a: int, b: int| j > 0 implies (#[trigger] yields(
                    keys,
                    target,
                    j,
                    a,
                    b,
                ) <==> yields(rest, target, j - 1, a, b)) by {
                    if j < keys.len() {
                        assert(rest[j - 1] == keys[j]);
                    }
                }
                if let Some(r) = resolved(rest, target) {
                    let (i, a, b) = choose|i: int, a: int, b: int|
                        {
                            &&& #[trigger] yields(rest, target, i, a, b)
                            &&& rest[i].keycode == r.keycode
                            &&& r.shifted == (b > 0)
                            &&& forall|j: int, c: int, d: int|
                                0 <= j < i ==> !#[trigger] yields(rest, target, j, c, d)
                        };
                    assert(yields(keys, target, i + 1, a, b));
                    assert forall|j: int, c: int, d: int| 0 <= j < i + 1 implies !#[trigger] yields(
                        keys,
                        target,
                        j,
                        c,
                        d,
                    ) by {
                        if j > 0 {
                            assert(!yields(rest, target, j - 1, c, d));
                        }
                    }
                } else {
                    assert forall|i: int, a: int, b: int| !#[trigger] yields(
                        keys,
                        target,
                        i,
                        a,
                        b,
                    ) by {
                        if i > 0 {
                            assert(!yields(rest, target, i - 1, a, b));
                        }
                    }
                }
            },
        }
    }
}

/// The modifiers that a chord may name, in any case of their letters, and the keys
/// that they stand for; any other name stands for itself.
pub proof fn law_chord_modifiers(name: Seq<char>)
    ensures
        ({
            let n = crate::text::lower(name);
            &&& n == "super"@ || n == "logo"@ || n == "mod4"@ || n == "win"@ ==> modifier_name(name)
                == "Super_L"@
            &&& n == "ctrl"@ || n == "control"@ ==> modifier_name(name) == "Control_L"@
            &&& n == "alt"@ || n == "mod1"@ ==> modifier_name(name) == "Alt_L"@
            &&& n == "shift"@ ==> modifier_name(name) == "Shift_L"@
            &&& crate::binds::modifier_bit(name) is None ==> modifier_name(name) == name
        }),
{
    crate::binds::law_modifier_names(name);
    law_aliases_match_bindings(name, name);
}

/// A button has a name or a number. The three names are those of the left, the
/// right and the middle one; any number that fits is the button with that number.
pub proof fn law_button_names(s: Seq<char>, n: u32)
    ensures
        s == "left"@ || s == "Left"@ ==> button_of(s) == Some(0x110int),
        s == "right"@ || s == "Right"@ ==> button_of(s) == Some(0x111int),
        s == "middle"@ || s == "Middle"@ ==> button_of(s) == Some(0x112int),
        button_of(crate::text::decimal(n as nat)) == Some(n as int),
        button_of(s) matches Some(b) ==> 0 <= b <= u32::MAX,
        button_of(s) is None ==> crate::text::decimal_in(s, 0, u32::MAX as int) is None,
        s.len() == 0 ==> button_of(s) is None,
{
    reveal_strlit("left");
    reveal_strlit("Left");
    reveal_strlit("right");
    reveal_strlit("Right");
    reveal_strlit("middle");
    reveal_strlit("Middle");
    if s == "left"@ || s == "Left"@ {
        assert(s[0] == 'l' || s[0] == 'L');
    }
    if s == "right"@ || s == "Right"@ {
        assert(s[0] == 'r' || s[0] == 'R');
    }
    if s == "middle"@ || s == "Middle"@ {
        assert(s[0] == 'm' || s[0] == 'M');
    }
    crate::text::law_decimal_reads_back(n as nat);
    let d = crate::text::decimal(n as nat);
    assert(crate::text::is_digit(d[0]));
}

/// A chord presses its modifiers in their order, taps its key, and lets the
/// modifiers go.
pub proof fn law_chord_in_order(keycodes: Seq<u32>, key: u32, i: int)
    ensures
        ({
            let c = chord(keycodes, key);
            let n = keycodes.len() as int;
            &&& c.len() == 2 * n + 2
            &&& 0 <= i < n ==> c[i] == (KeyStep { keycode: keycodes[i], pressed: true })
            &&& c[n] == (KeyStep { keycode: key, pressed: true })
            &&& c[n + 1] == (KeyStep { keycode: key, pressed: false })
            &&& 0 <= i < n ==> c[2 * n + 1 - i] == (KeyStep {
                keycode: keycodes[i],
                pressed: false,
            })
        }),
{
    let c = chord(keycodes, key);
    let n = keycodes.len() as int;
    if 0 <= i < n {
        assert(releases(keycodes)[n - 1 - i] == (KeyStep {
            keycode: keycodes.reverse()[n - 1 - i],
            pressed: false,
        }));
    }
}

/// A chord is sent exactly where every name stands for a keysym that some key
/// yields; otherwise the first name that does not is told.
pub proof fn law_chord_refused(
    keys: Seq<KeyLevels>,
    modifiers: Seq<String>,
    syms: Seq<u32>,
    name: Seq<char>,
    keysym: u32,
    i: int,
)
    requires
        modifiers.len() == syms.len(),
    ensures
        ({
            let good = |s: u32| s != 0 && resolved(keys, s) is Some;
            let fault = chord_fault(keys, modifiers, syms, name, keysym);
            &&& fault is None <==> good(keysym) && forall|j: int|
                0 <= j < syms.len() ==> good(#[trigger] syms[j])
            &&& 0 <= i < syms.len() && !good(syms[i]) && (forall|j: int|
                0 <= j < i ==> good(#[trigger] syms[j])) ==> fault == Some(
                if syms[i] == 0 {
                    Fault::UnknownKeysym(modifier_name(modifiers[i]@))
                } else {
                    Fault::KeysymNotInKeymap(modifier_name(modifiers[i]@))
                },
            )
            &&& !good(keysym) && (forall|j: int| 0 <= j < syms.len() ==> good(#[trigger] syms[j]))
                ==> fault == Some(
                if keysym == 0 {
                    Fault::UnknownKeysym(name)
                } else {
                    Fault::KeysymNotInKeymap(name)
                },
            )
        }),
{
    lemma_modifiers_fault(keys, modifiers, syms, i);
}

proof fn lemma_modifiers_fault(
    keys: Seq<KeyLevels>,
    modifiers: Seq<String>,
    syms: Seq<u32>,
    i: int,
)
    requires
        modifiers.len() <= syms.len(),
    ensures
        ({
            let n = modifiers.len() as int;
            let good = |s: u32| s != 0 && resolved(keys, s) is Some;
            let fault = modifiers_fault(keys, modifiers, syms);
            &&& fault is None <==> forall|j: int| 0 <= j < n ==> good(#[trigger] syms[j])
            &&& 0 <= i < n && !good(syms[i]) && (forall|j: int|
                0 <= j < i ==> good(#[trigger] syms[j])) ==> fault == Some(
                if syms[i] == 0 {
                    Fault::UnknownKeysym(modifier_name(modifiers[i]@))
                } else {
                    Fault::KeysymNotInKeymap(modifier_name(modifiers[i]@))
                },
            )
        }),
    decreases modifiers.len(),
{
    if modifiers.len() > 0 {
        let n = modifiers.len() as int;
        let init = modifiers.drop_last();
        let good = |s: u32| s != 0 && resolved(keys, s) is Some;
        lemma_modifiers_fault(keys, init, syms, i);
        if i < n - 1 && 0 <= i {
            assert(init[i] == modifiers[i]);
        }
        if modifiers_fault(keys, init, syms) is None {
            assert(good(syms[n - 1]) ==> forall|j: int| 0 <= j < n ==> good(#[trigger] syms[j]));
        } else {
            let k = choose|j: int| 0 <= j < n - 1 && !good(#[trigger] syms[j]);
            assert(!good(syms[k]));
        }
    }
}

/// Typing a text types its characters one after the other: what types two texts
/// after each other types the one and then the other.
pub proof fn law_text_typed_in_order(keys: Seq<KeyLevels>, a: Seq<char>, b: Seq<char>, c: char)
    ensures
        text_steps(keys, a + b) == text_steps(keys, a) + text_steps(keys, b),
        text_steps(keys, seq![c]) == char_steps(keys, c),
        text_steps(keys, Seq::empty()).len() == 0,
    decreases b.len(),
{
    assert(seq![c].drop_last() =~= Seq::empty());
    reveal_with_fuel(text_steps, 2);
    assert(text_steps(keys, seq![c]) =~= char_steps(keys, c));
    if b.len() > 0 {
        law_text_typed_in_order(keys, a, b.drop_last(), c);
        assert((a + b).drop_last() =~= a + b.drop_last());
        assert(text_steps(keys, a + b) =~= text_steps(keys, a) + text_steps(keys, b));
    } else {
        assert(a + b =~= a);
        assert(text_steps(keys, a + b) =~= text_steps(keys, a) + text_steps(keys, b));
    }
}

/// A character is typed by tapping the key that yields it; shift is held around the
/// tap exactly where the key needs it and there is a shift key.
pub proof fn law_character_typed(keys: Seq<KeyLevels>, c: char, key: ResolvedKey)
    requires
        resolved(keys, c as u32) == Some(key),
    ensures
        ({
            let steps = char_steps(keys, c);
            let shift = resolved(keys, 0xffe1);
            let down = KeyStep { keycode: key.keycode, pressed: true };
            let up = KeyStep { keycode: key.keycode, pressed: false };
            &&& !key.shifted || shift is None ==> steps == seq![down, up]
            &&& key.shifted && shift is Some ==> steps == seq![
                KeyStep { keycode: shift->0.keycode, pressed: true },
                down,
                up,
                KeyStep { keycode: shift->0.keycode, pressed: false },
            ]
        }),
{
    if key.shifted && resolved(keys, SHIFT_L) is Some {
        let s = resolved(keys, SHIFT_L)->0.keycode;
        assert(seq![s].reverse() =~= seq![s]);
        assert(char_steps(keys, c) =~= seq![
            KeyStep { keycode: s, pressed: true },
            KeyStep { keycode: key.keycode, pressed: true },
            KeyStep { keycode: key.keycode, pressed: false },
            KeyStep { keycode: s, pressed: false },
        ]);
    }
}

/// Text injection covers the letters and digits of ASCII and the space. A text with
/// anything else is refused for the first of it; one that is covered is refused for
/// the first character without a key; any other is not.
pub proof fn law_text_refused(keys: Seq<KeyLevels>, s: Seq<char>, i: int)
    ensures
        ({
            let covered = |c: char|
                65 <= c as int <= 90 || 97 <= c as int <= 122 || 48 <= c as int <= 57 || c as int
                    == 32;
            let has_key = |c: char| resolved(keys, c as u32) is Some;
            &&& 0 <= i < s.len() && !covered(s[i]) && (forall|j: int|
                0 <= j < i ==> covered(#[trigger] s[j])) ==> text_fault(keys, s) == Some(s[i])
            &&& 0 <= i < s.len() && !has_key(s[i]) && (forall|j: int|
                0 <= j < i ==> has_key(#[trigger] s[j])) && (forall|j: int|
                0 <= j < s.len() ==> covered(#[trigger] s[j])) ==> text_fault(keys, s) == Some(s[i])
            &&& (forall|j: int| 0 <= j < s.len() ==> covered(#[trigger] s[j]) && has_key(s[j]))
                ==> text_fault(keys, s) is None
        }),
{
    let covered = |c: char|
        65 <= c as int <= 90 || 97 <= c as int <= 122 || 48 <= c as int <= 57 || c as int == 32;
    let has_key = |c: char| resolved(keys, c as u32) is Some;
    if 0 <= i < s.len() && !covered(s[i]) && (forall|j: int| 0 <= j < i ==> covered(#[trigger] s[j])) {
        assert forall|j: int| 0 <= j < i implies typable(#[trigger] s[j]) by {
            assert(covered(s[j]));
        }
        assert(first_untypable(s, i));
        let k = choose|k: int| first_untypable(s, k);
        assert(first_untypable(s, k));
        if k < i {
            assert(covered(s[k]));
        }
        if i < k {
            assert(typable(s[i]));
        }
    }
    if forall|j: int| 0 <= j < s.len() ==> covered(#[trigger] s[j]) {
        assert forall|k: int| !first_untypable(s, k) by {
            if first_untypable(s, k) {
                assert(covered(s[k]));
            }
        }
        if 0 <= i < s.len() && !has_key(s[i]) && (forall|j: int|
            0 <= j < i ==> has_key(#[trigger] s[j])) {
            assert forall|j: int| 0 <= j < i implies resolved(
                keys,
                (#[trigger] s[j]) as u32,
            ) is Some by {
                assert(has_key(s[j]));
            }
            assert(first_keyless(keys, s, i));
            let k = choose|k: int| first_keyless(keys, s, k);
            assert(first_keyless(keys, s, k));
            if k < i {
                assert(has_key(s[k]));
            }
            if i < k {
                assert(resolved(keys, s[i] as u32) is Some);
            }
        }
    }
    if forall|j: int| 0 <= j < s.len() ==> covered(#[trigger] s[j]) && has_key(s[j]) {
        assert forall|k: int| !first_untypable(s, k) by {
            if first_untypable(s, k) {
                assert(covered(s[k]));
            }
        }
        assert forall|k: int| !first_keyless(keys, s, k) by {
            if first_keyless(keys, s, k) {
                assert(covered(s[k]) && has_key(s[k]));
            }
        }
    }
}

/// A click focuses the window under it unless a layer above the windows covers it,
/// and clears the focus only over the bare desktop.
pub proof fn law_click_focus(window: Option<u64>, overlay: bool, surface: bool)
    ensures
        ({
            let f = focus_for_click(window, overlay, surface);
            &&& f is Focus <==> window is Some && !overlay
            &&& f is Focus ==> window == Some(f->Focus_0)
            &&& f is Clear <==> window is None && !surface
        }),
{
}

/// The keys of a chord's modifiers, in order, are those that yield their keysyms.
pub proof fn law_modifier_codes(keys: Seq<KeyLevels>, syms: Seq<u32>, i: int)
    requires
        0 <= i < syms.len(),
    ensures
        codes(keys, syms).len() == syms.len(),
        resolved(keys, syms[i]) matches Some(k) ==> codes(keys, syms)[i] == k.keycode,
{
}

} // verus!
