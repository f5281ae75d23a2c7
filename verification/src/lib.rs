//! The rules of a stacking Wayland window manager, proved.

use vstd::prelude::*;

use crate::text::chars_of;
use crate::text::parse_i32;
use crate::text::string_of;
use crate::text::trim;

pub mod backend;
pub mod binds;
pub mod capture_stream;
pub mod clipboard;
pub mod config;
pub mod config_watcher;
pub mod confirm;
pub mod cursor;
pub mod dbus_iface;
pub mod decorations;
pub mod desktop;
pub mod diag_overlay;
pub mod drawing;
pub mod ext_screencopy;
pub mod ext_workspace;
pub mod focus;
pub mod foreign_toplevel_mgmt;
pub mod gamma_control;
pub mod geometry;
pub mod grabs;
pub mod handlers;
pub mod inject;
pub mod input;
pub mod input_config;
pub mod ipc;
pub mod ipc_client;
pub mod layout;
pub mod pointer;
pub mod seqs;
pub mod startup;
pub mod state;
pub mod text;
pub mod wire;

verus! {

/// The place of the first `x` or `X` in a text.
pub open spec fn size_separator(s: Seq<char>) -> Option<int> {
    if exists|i: int| 0 <= i < s.len() && (s[i] == 'x' || s[i] == 'X') {
        Some(
            choose|i: int|
                0 <= i < s.len() && (s[i] == 'x' || s[i] == 'X') && forall|j: int|
                    0 <= j < i ==> s[j] != 'x' && s[j] != 'X',
        )
    } else {
        None
    }
}

/// An `i32` written in decimal, with white space around it allowed.
pub open spec fn padded_number(s: Seq<char>) -> Option<int> {
    text::decimal_in(text::trimmed(s), i32::MIN as int, i32::MAX as int)
}

/// The size that a `WIDTHxHEIGHT` text stands for: the text is split at its
/// first `x` or `X`, and both halves are positive numbers.
pub open spec fn output_size(s: Seq<char>) -> Option<(int, int)> {
    match size_separator(s) {
        Some(k) => match (padded_number(s.take(k)), padded_number(s.skip(k + 1))) {
            (Some(w), Some(h)) => if w > 0 && h > 0 {
                Some((w, h))
            } else {
                None
            },
            _ => None,
        },
        None => None,
    }
}

proof fn lemma_separator(s: Seq<char>, k: int)
    requires
        0 <= k < s.len(),
        s[k] == 'x' || s[k] == 'X',
        forall|j: int| 0 <= j < k ==> s[j] != 'x' && s[j] != 'X',
    ensures
        size_separator(s) == Some(k),
{
    let c = size_separator(s)->0;
    if c < k {
        assert(s[c] != 'x' && s[c] != 'X');
    } else if k < c {
        assert(s[k] != 'x' && s[k] != 'X');
    }
}

/// Parses a `WIDTHxHEIGHT` size such as `1360x856`; the letter may be in either
/// case. Only two strictly positive integers make a size.
pub fn parse_output_size(spec: &str) -> (r: Option<(i32, i32)>)
    ensures
        match r {
            Some(p) => output_size(spec@) == Some((p.0 as int, p.1 as int)),
            None => output_size(spec@) is None,
        },
{
    let v = chars_of(spec);
    let mut k: usize = 0;
    while k < v.len() && v[k] != 'x' && v[k] != 'X'
        invariant
            k <= v@.len(),
            v@ == spec@,
            forall|j: int| 0 <= j < k ==> v@[j] != 'x' && v@[j] != 'X',
        decreases v@.len() - k,
    {
        k += 1;
    }
    if k == v.len() {
        return None;
    }
    proof {
        lemma_separator(spec@, k as int);
    }
    let left = string_of(&v, 0, k);
    let right = string_of(&v, k + 1, v.len());
    assert(left@ =~= spec@.take(k as int));
    assert(right@ =~= spec@.skip(k + 1));
    let left = trim(left.as_str());
    let right = trim(right.as_str());
    match (parse_i32(left.as_str()), parse_i32(right.as_str())) {
        (Some(w), Some(h)) => if w > 0 && h > 0 {
            Some((w, h))
        } else {
            None
        },
        _ => None,
    }
}

/// A width and a height with the letter between them, in either case, make that size.
pub proof fn law_size_reads_back(w: i32, h: i32, letter: char)
    requires
        w > 0,
        h > 0,
        letter == 'x' || letter == 'X',
    ensures
        output_size(text::decimal(w as nat).push(letter) + text::decimal(h as nat)) == Some(
            (w as int, h as int),
        ),
{
    let a = text::decimal(w as nat);
    let b = text::decimal(h as nat);
    text::law_decimal_reads_back(w as nat);
    text::law_decimal_reads_back(h as nat);
    let s = a.push(letter) + b;
    let k = a.len() as int;
    assert forall|j: int| 0 <= j < k implies s[j] != 'x' && s[j] != 'X' by {
        assert(text::is_digit(a[j]));
        assert(s[j] == a[j]);
    }
    assert(s[k] == letter);
    lemma_separator(s, k);
    assert(s.take(k) =~= a);
    assert(s.skip(k + 1) =~= b);
    lemma_digits_stay(a);
    lemma_digits_stay(b);
}

proof fn lemma_digits_stay(s: Seq<char>)
    requires
        text::all_digits(s),
        s.len() > 0,
    ensures
        text::trimmed(s) == s,
{
    text::law_trim(s);
    let (from, to) = choose|from: int, to: int|
        0 <= from <= to <= s.len() && text::trimmed(s) == #[trigger] s.subrange(from, to)
            && (forall|i: int| 0 <= i < from ==> text::white_space(#[trigger] s[i])) && (forall|
            i: int,
        |
            to <= i < s.len() ==> text::white_space(#[trigger] s[i]));
    if from > 0 {
        assert(text::is_digit(s[0]));
        assert(text::white_space(s[0]));
    }
    if to < s.len() {
        assert(text::is_digit(s[to]));
        assert(text::white_space(s[to]));
    }
    assert(s.subrange(0, s.len() as int) =~= s);
}

/// A text is a size only by its first letter: both halves around it are numbers, with
/// white space around them allowed, and both are positive. Without the letter there is
/// no size.
pub proof fn law_size_has_two_halves(s: Seq<char>, k: int)
    ensures
        (forall|j: int| 0 <= j < s.len() ==> (#[trigger] s[j]) != 'x' && s[j] != 'X')
            ==> output_size(s) is None,
        0 <= k < s.len() && (s[k] == 'x' || s[k] == 'X') && (forall|j: int|
            0 <= j < k ==> (#[trigger] s[j]) != 'x' && s[j] != 'X') ==> {
            let a = text::decimal_in(text::trimmed(s.take(k)), i32::MIN as int, i32::MAX as int);
            let b = text::decimal_in(
                text::trimmed(s.skip(k + 1)),
                i32::MIN as int,
                i32::MAX as int,
            );
            &&& output_size(s) is Some <==> a is Some && b is Some && a->0 > 0 && b->0 > 0
            &&& output_size(s) is Some ==> output_size(s) == Some((a->0, b->0))
        },
{
    if 0 <= k < s.len() && (s[k] == 'x' || s[k] == 'X') && (forall|j: int|
        0 <= j < k ==> (#[trigger] s[j]) != 'x' && s[j] != 'X') {
        lemma_separator(s, k);
    }
}

} // verus!
