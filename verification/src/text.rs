//! Text helpers over the character view of `str` and `String`.

use vstd::prelude::*;
use vstd::string::StrSliceExecFns;
use vstd::string::StringExecFns;

verus! {

/// `String::push` appends the character at the end of the string.
pub assume_specification[ String::push ](s: &mut String, ch: char)
    ensures
        final(s)@ == old(s)@.push(ch),
;

/// `char::is_whitespace` tells whether the character has the Unicode
/// `White_Space` property; [`white_space`] lists the code points that do.
pub assume_specification[ char::is_whitespace ](c: char) -> (b: bool)
    ensures
        b == white_space(c),
;

/// The code points with the Unicode `White_Space` property.
pub open spec fn white_space(c: char) -> bool {
    let n = c as int;
    ||| 0x09 <= n <= 0x0d
    ||| n == 0x20
    ||| n == 0x85
    ||| n == 0xa0
    ||| n == 0x1680
    ||| 0x2000 <= n <= 0x200a
    ||| n == 0x2028
    ||| n == 0x2029
    ||| n == 0x202f
    ||| n == 0x205f
    ||| n == 0x3000
}

/// The views of a list of strings.
pub open spec fn views(v: Seq<String>) -> Seq<Seq<char>> {
    v.map_values(|s: String| s@)
}

/// Whether two strings hold the same characters.
pub fn str_eq(a: &str, b: &str) -> (r: bool)
    ensures
        r == (a@ == b@),
{
    a.to_owned() == b.to_owned()
}

/// An optional string as a value of views.
pub open spec fn opt_view(s: Option<String>) -> Option<Seq<char>> {
    match s {
        Some(t) => Some(t@),
        None => None,
    }
}

/// An optional string slice as a value of views.
pub open spec fn opt_str_view(s: Option<&str>) -> Option<Seq<char>> {
    match s {
        Some(t) => Some(t@),
        None => None,
    }
}

/// The characters of a string, in order.
pub fn chars_of(s: &str) -> (v: Vec<char>)
    ensures
        v@ == s@,
{
    let mut v: Vec<char> = Vec::new();
    for c in it: s.chars()
        invariant
            it.seq() == s@,
            v@ == s@.take(it.index()),
    {
        v.push(c);
    }
    v
}

/// The string made of the characters `v[from..to]`.
pub fn string_of(v: &Vec<char>, from: usize, to: usize) -> (s: String)
    requires
        from <= to <= v@.len(),
    ensures
        s@ == v@.subrange(from as int, to as int),
{
    let mut s = String::new();
    let mut i: usize = from;
    while i < to
        invariant
            from <= i <= to <= v@.len(),
            s@ == v@.subrange(from as int, i as int),
        decreases to - i,
    {
        s.push(v[i]);
        i += 1;
    }
    s
}

/// The ASCII lower case of one character; other characters are kept.
pub open spec fn lower_char(c: char) -> char {
    if 'A' <= c <= 'Z' {
        (c as u32 + 32) as char
    } else {
        c
    }
}

/// The ASCII lower case of a text.
pub open spec fn lower(s: Seq<char>) -> Seq<char> {
    s.map_values(|c: char| lower_char(c))
}

fn lower_one(c: char) -> (r: char)
    ensures
        r == lower_char(c),
{
    if 'A' <= c && c <= 'Z' {
        let b: u8 = c as u8;
        let low: u8 = b + 32;
        low as char
    } else {
        c
    }
}

/// A copy of `s` with ASCII upper case letters mapped to lower case.
pub fn to_lower(s: &str) -> (r: String)
    ensures
        r@ == lower(s@),
{
    let v = chars_of(s);
    let mut r = String::new();
    let mut i: usize = 0;
    while i < v.len()
        invariant
            i <= v@.len(),
            v@ == s@,
            r@ == lower(s@.take(i as int)),
        decreases v@.len() - i,
    {
        r.push(lower_one(v[i]));
        assert(lower(s@.take(i + 1)) =~= lower(s@.take(i as int)).push(lower_char(s@[i as int])));
        i += 1;
    }
    assert(s@.take(i as int) =~= s@);
    r
}

/// A text without its leading white space.
pub open spec fn trim_start(s: Seq<char>) -> Seq<char>
    decreases s.len(),
{
    if s.len() > 0 && white_space(s[0]) {
        trim_start(s.drop_first())
    } else {
        s
    }
}

/// A text without its trailing white space.
pub open spec fn trim_end(s: Seq<char>) -> Seq<char>
    decreases s.len(),
{
    if s.len() > 0 && white_space(s.last()) {
        trim_end(s.drop_last())
    } else {
        s
    }
}

/// A text without its leading and trailing white space.
pub open spec fn trimmed(s: Seq<char>) -> Seq<char> {
    trim_end(trim_start(s))
}

/// A copy of `s` without leading and trailing white space.
pub fn trim(s: &str) -> (r: String)
    ensures
        r@ == trimmed(s@),
{
    let v = chars_of(s);
    let mut a: usize = 0;
    assert(s@.skip(0) =~= s@);
    while a < v.len() && v[a].is_whitespace()
        invariant
            a <= v@.len(),
            v@ == s@,
            trim_start(s@) == trim_start(s@.skip(a as int)),
        decreases v@.len() - a,
    {
        assert(s@.skip(a as int).drop_first() =~= s@.skip(a + 1));
        a += 1;
    }
    assert(trim_start(s@) == s@.skip(a as int));
    let mut b: usize = v.len();
    assert(s@.subrange(a as int, b as int) =~= s@.skip(a as int));
    while b > a && v[b - 1].is_whitespace()
        invariant
            a <= b <= v@.len(),
            v@ == s@,
            trim_end(s@.skip(a as int)) == trim_end(s@.subrange(a as int, b as int)),
        decreases b,
    {
        assert(s@.subrange(a as int, b as int).drop_last() =~= s@.subrange(a as int, b - 1));
        b -= 1;
    }
    string_of(&v, a, b)
}

/// The length of the leading run without white space.
pub open spec fn word_len(s: Seq<char>) -> nat
    decreases s.len(),
{
    if s.len() > 0 && !white_space(s[0]) {
        1 + word_len(s.drop_first())
    } else {
        0
    }
}

pub proof fn lemma_word_len_bound(s: Seq<char>)
    ensures
        word_len(s) <= s.len(),
    decreases s.len(),
{
    if s.len() > 0 && !white_space(s[0]) {
        lemma_word_len_bound(s.drop_first());
    }
}

pub proof fn lemma_trim_start_bound(s: Seq<char>)
    ensures
        trim_start(s).len() <= s.len(),
        trim_start(s).len() > 0 ==> word_len(trim_start(s)) > 0,
    decreases s.len(),
{
    if s.len() > 0 && white_space(s[0]) {
        lemma_trim_start_bound(s.drop_first());
    }
}

/// The words of a text: its maximal runs without white space, in order.
pub open spec fn words(s: Seq<char>) -> Seq<Seq<char>>
    decreases s.len(),
{
    proof {
        lemma_trim_start_bound(s);
        lemma_word_len_bound(trim_start(s));
    }
    let t = trim_start(s);
    if t.len() == 0 {
        Seq::empty()
    } else {
        let n = word_len(t) as int;
        seq![t.take(n)] + words(t.skip(n))
    }
}

/// The words of `s`, split at white space.
pub fn split_whitespace(s: &str) -> (r: Vec<String>)
    ensures
        views(r@) == words(s@),
{
    let v = chars_of(s);
    let mut r: Vec<String> = Vec::new();
    let mut i: usize = 0;
    assert(s@.skip(0) =~= s@);
    assert(views(r@) + words(s@) =~= words(s@));
    while i < v.len()
        invariant
            i <= v@.len(),
            v@ == s@,
            views(r@) + words(s@.skip(i as int)) == words(s@),
        decreases v@.len() - i,
    {
        let ghost rest = s@.skip(i as int);
        if v[i].is_whitespace() {
            assert(rest.drop_first() =~= s@.skip(i + 1));
            assert(trim_start(rest) == trim_start(s@.skip(i + 1)));
            i += 1;
        } else {
            let start: usize = i;
            assert(trim_start(rest) == rest);
            while i < v.len() && !v[i].is_whitespace()
                invariant
                    start <= i <= v@.len(),
                    v@ == s@,
                    word_len(s@.skip(start as int)) == (i - start) + word_len(s@.skip(i as int)),
                decreases v@.len() - i,
            {
                assert(s@.skip(i as int).drop_first() =~= s@.skip(i + 1));
                i += 1;
            }
            assert(word_len(s@.skip(i as int)) == 0);
            let w = string_of(&v, start, i);
            assert(w@ =~= rest.take(i - start));
            assert(rest.skip(i - start) =~= s@.skip(i as int));
            let ghost before = r@;
            r.push(w);
            assert(views(r@) =~= views(before).push(w@));
            assert(views(r@) + words(s@.skip(i as int)) =~= views(before) + (seq![w@] + words(s@.skip(i as int))));
        }
    }
    assert(s@.skip(i as int) =~= Seq::<char>::empty());
    assert(views(r@) + words(s@.skip(i as int)) =~= views(r@));
    r
}

/// Whether a character is an ASCII decimal digit.
pub open spec fn is_digit(c: char) -> bool {
    '0' <= c <= '9'
}

/// The number written by a run of decimal digits.
pub open spec fn digits_value(s: Seq<char>) -> nat
    decreases s.len(),
{
    if s.len() == 0 {
        0
    } else {
        digits_value(s.drop_last()) * 10 + (s.last() as int - '0' as int) as nat
    }
}

/// Whether a text is a non-empty run of decimal digits.
pub open spec fn all_digits(s: Seq<char>) -> bool {
    &&& s.len() > 0
    &&& forall|i: int| 0 <= i < s.len() ==> is_digit(#[trigger] s[i])
}

/// The number that a text writes in decimal: an optional sign and at least one
/// digit. A minus sign is accepted only where `signed` holds.
pub open spec fn decimal_value(s: Seq<char>, signed: bool) -> Option<int> {
    let neg = s.len() > 0 && s[0] == '-' && signed;
    let plus = s.len() > 0 && s[0] == '+';
    let digits = if neg || plus {
        s.drop_first()
    } else {
        s
    };
    if all_digits(digits) {
        if neg {
            Some(-(digits_value(digits) as int))
        } else {
            Some(digits_value(digits) as int)
        }
    } else {
        None
    }
}

/// The number that a text writes in decimal, where it lies in the range.
pub open spec fn decimal_in(s: Seq<char>, low: int, high: int) -> Option<int> {
    match decimal_value(s, low < 0) {
        Some(n) => if low <= n <= high {
            Some(n)
        } else {
            None
        },
        None => None,
    }
}

proof fn lemma_digits_grow(s: Seq<char>, k: int)
    requires
        0 <= k <= s.len(),
    ensures
        digits_value(s.take(k)) <= digits_value(s),
    decreases s.len(),
{
    if k < s.len() {
        lemma_digits_grow(s.drop_last(), k);
        assert(s.drop_last().take(k) =~= s.take(k));
    } else {
        assert(s.take(k) =~= s);
    }
}

/// The number written by the digits `v[from..]`, where there is at least one
/// digit, nothing else, and the number is at most `limit`.
fn parse_digits(v: &Vec<char>, from: usize, limit: u64) -> (r: Option<u64>)
    requires
        from <= v@.len(),
        limit <= 0x1_0000_0000_0000,
    ensures
        ({
            let digits = v@.skip(from as int);
            let ok = all_digits(digits) && digits_value(digits) <= limit;
            &&& r is Some == ok
            &&& r is Some ==> r->0 == digits_value(digits)
        }),
{
    let ghost digits = v@.skip(from as int);
    if from == v.len() {
        return None;
    }
    let mut i: usize = from;
    let mut acc: u64 = 0;
    assert(digits.take(0) =~= Seq::<char>::empty());
    while i < v.len()
        invariant
            from <= i <= v@.len(),
            digits == v@.skip(from as int),
            limit <= 0x1_0000_0000_0000,
            acc <= limit,
            forall|j: int| 0 <= j < i - from ==> is_digit(#[trigger] digits[j]),
            acc == digits_value(digits.take(i - from)),
        decreases v@.len() - i,
    {
        let c = v[i];
        assert(digits[i - from] == c);
        if !('0' <= c && c <= '9') {
            return None;
        }
        let d: u64 = (c as u8 - '0' as u8) as u64;
        acc = acc * 10 + d;
        assert(digits.take(i - from + 1).drop_last() =~= digits.take(i - from));
        assert(acc == digits_value(digits.take(i - from + 1)));
        if acc > limit {
            proof {
                lemma_digits_grow(digits, i - from + 1);
            }
            return None;
        }
        i += 1;
    }
    assert(digits.take(i - from) =~= digits);
    Some(acc)
}

/// Reads a `u32` written in decimal.
pub fn parse_u32(s: &str) -> (r: Option<u32>)
    ensures
        match r {
            Some(n) => decimal_in(s@, 0, u32::MAX as int) == Some(n as int),
            None => decimal_in(s@, 0, u32::MAX as int) is None,
        },
{
    let v = chars_of(s);
    let from: usize = if v.len() > 0 && v[0] == '+' {
        1
    } else {
        0
    };
    proof {
        assert(v@.skip(0) =~= s@);
        if s@.len() > 0 {
            assert(v@.skip(1) =~= s@.drop_first());
        }
    }
    match parse_digits(&v, from, u32::MAX as u64) {
        Some(n) => Some(n as u32),
        None => None,
    }
}

/// Reads an `i32` written in decimal.
pub fn parse_i32(s: &str) -> (r: Option<i32>)
    ensures
        match r {
            Some(n) => decimal_in(s@, i32::MIN as int, i32::MAX as int) == Some(n as int),
            None => decimal_in(s@, i32::MIN as int, i32::MAX as int) is None,
        },
{
    let v = chars_of(s);
    let neg = v.len() > 0 && v[0] == '-';
    let from: usize = if neg || (v.len() > 0 && v[0] == '+') {
        1
    } else {
        0
    };
    proof {
        assert(v@.skip(0) =~= s@);
        if s@.len() > 0 {
            assert(v@.skip(1) =~= s@.drop_first());
        }
    }
    let limit: u64 = if neg {
        0x8000_0000
    } else {
        0x7fff_ffff
    };
    match parse_digits(&v, from, limit) {
        Some(n) => if neg {
            Some((-(n as i64)) as i32)
        } else {
            Some(n as i32)
        },
        None => None,
    }
}

/// The digit with the value `d`.
pub open spec fn digit_char(d: nat) -> char {
    ('0' as int + d as int) as char
}

/// The decimal digits of a number, without leading zeros.
pub open spec fn decimal(n: nat) -> Seq<char>
    decreases n,
{
    if n < 10 {
        seq![digit_char(n)]
    } else {
        decimal(n / 10).push(digit_char(n % 10))
    }
}

/// Appends the decimal digits of `n`.
pub fn push_decimal(s: &mut String, n: u64)
    ensures
        final(s)@ == old(s)@ + decimal(n as nat),
    decreases n,
{
    let ghost before = s@;
    if n >= 10 {
        push_decimal(s, n / 10);
    }
    let d: u8 = 48u8 + (n % 10) as u8;
    s.push(d as char);
    assert(s@ =~= before + decimal(n as nat));
}

/// The decimal digits of `n` as a string.
pub fn decimal_string(n: u64) -> (r: String)
    ensures
        r@ == decimal(n as nat),
{
    let mut s = String::new();
    push_decimal(&mut s, n);
    assert(s@ =~= decimal(n as nat));
    s
}

/// `a` followed by `b`.
pub fn concat2(a: &str, b: &str) -> (r: String)
    ensures
        r@ == a@ + b@,
{
    a.to_owned().concat(b)
}

/// `a`, `b` and `c` one after the other.
pub fn concat3(a: &str, b: &str, c: &str) -> (r: String)
    ensures
        r@ == a@ + b@ + c@,
{
    a.to_owned().concat(b).concat(c)
}

/// Whether a list of strings holds `s`.
pub fn contains_str(v: &Vec<String>, s: &str) -> (r: bool)
    ensures
        r == views(v@).contains(s@),
{
    let mut i: usize = 0;
    while i < v.len()
        invariant
            i <= v@.len(),
            forall|j: int| 0 <= j < i ==> views(v@)[j] != s@,
        decreases v@.len() - i,
    {
        if str_eq(v[i].as_str(), s) {
            assert(views(v@)[i as int] == s@);
            return true;
        }
        i += 1;
    }
    false
}

/// A copy of a list of strings.
pub fn clone_strings(v: &Vec<String>) -> (r: Vec<String>)
    ensures
        r@ == v@,
{
    let mut r: Vec<String> = Vec::new();
    let mut i: usize = 0;
    while i < v.len()
        invariant
            i <= v@.len(),
            r@ == v@.take(i as int),
        decreases v@.len() - i,
    {
        r.push(v[i].clone());
        i += 1;
    }
    assert(v@.take(i as int) =~= v@);
    r
}

/// Whether a text begins with another.
pub fn starts_with(s: &str, prefix: &str) -> (r: bool)
    ensures
        r == prefix@.is_prefix_of(s@),
{
    let a = chars_of(s);
    let b = chars_of(prefix);
    if b.len() > a.len() {
        return false;
    }
    let mut i: usize = 0;
    while i < b.len()
        invariant
            i <= b@.len() <= a@.len(),
            a@ == s@,
            b@ == prefix@,
            forall|j: int| 0 <= j < i ==> a@[j] == b@[j],
        decreases b@.len() - i,
    {
        if a[i] != b[i] {
            assert(a@.subrange(0, b@.len() as int)[i as int] == a@[i as int]);
            assert(!(b@ =~= a@.subrange(0, b@.len() as int)));
            return false;
        }
        i += 1;
    }
    assert(a@.subrange(0, b@.len() as int) =~= b@);
    true
}

/// Lower case changes the ASCII capitals, each into its own small letter, and
/// nothing else; a text keeps its length, and twice is the same as once.
pub proof fn law_lower_case(s: Seq<char>, i: int)
    requires
        0 <= i < s.len(),
    ensures
        lower(s).len() == s.len(),
        65 <= s[i] as int <= 90 ==> lower(s)[i] as int == s[i] as int + 32,
        !(65 <= s[i] as int <= 90) ==> lower(s)[i] == s[i],
        lower(lower(s))[i] == lower(s)[i],
{
}

/// Trimming takes white space off both ends and nothing else: what is left begins
/// and ends with something else, and what went was white space.
pub proof fn law_trim(s: Seq<char>)
    ensures
        trimmed(s).len() > 0 ==> !white_space(trimmed(s)[0]) && !white_space(trimmed(s).last()),
        exists|from: int, to: int|
            0 <= from <= to <= s.len() && trimmed(s) == #[trigger] s.subrange(from, to) && (forall|
                i: int,
            |
                0 <= i < from ==> white_space(#[trigger] s[i])) && (forall|i: int|
                to <= i < s.len() ==> white_space(#[trigger] s[i])),
{
    let t = trim_start(s);
    lemma_trim_start(s);
    let from = s.len() - t.len();
    lemma_trim_end(t);
    let r = trim_end(t);
    assert(r =~= s.subrange(from, from + r.len())) by {
        assert forall|i: int| 0 <= i < r.len() implies r[i] == s[from + i] by {
            assert(r[i] == t[i]);
            assert(t[i] == s[from + i]);
        }
    }
    assert forall|i: int| from + r.len() <= i < s.len() implies white_space(#[trigger] s[i]) by {
        assert(t[i - from] == s[i]);
    }
    if r.len() > 0 {
        assert(r[0] == t[0]);
    }
}

proof fn lemma_trim_start(s: Seq<char>)
    ensures
        trim_start(s).len() <= s.len(),
        trim_start(s) == s.skip(s.len() - trim_start(s).len()),
        forall|i: int| 0 <= i < s.len() - trim_start(s).len() ==> white_space(#[trigger] s[i]),
        trim_start(s).len() > 0 ==> !white_space(trim_start(s)[0]),
    decreases s.len(),
{
    if s.len() > 0 && white_space(s[0]) {
        let rest = s.drop_first();
        lemma_trim_start(rest);
        let n = trim_start(s).len();
        assert(rest.skip(rest.len() - n) =~= s.skip(s.len() - n));
        assert forall|i: int| 0 <= i < s.len() - n implies white_space(#[trigger] s[i]) by {
            if i > 0 {
                assert(rest[i - 1] == s[i]);
            }
        }
    } else {
        assert(s.skip(0) =~= s);
    }
}

proof fn lemma_trim_end(s: Seq<char>)
    ensures
        trim_end(s).len() <= s.len(),
        trim_end(s) == s.take(trim_end(s).len() as int),
        forall|i: int| trim_end(s).len() <= i < s.len() ==> white_space(#[trigger] s[i]),
        trim_end(s).len() > 0 ==> !white_space(trim_end(s).last()),
    decreases s.len(),
{
    if s.len() > 0 && white_space(s.last()) {
        let rest = s.drop_last();
        lemma_trim_end(rest);
        let n = trim_end(s).len() as int;
        assert(rest.take(n) =~= s.take(n));
        assert forall|i: int| n <= i < s.len() implies white_space(#[trigger] s[i]) by {
            if i < s.len() - 1 {
                assert(rest[i] == s[i]);
            }
        }
    } else {
        assert(s.take(s.len() as int) =~= s);
    }
}

/// A text with two parts that white space divides has the words of the one and then
/// those of the other; a word has no white space in it and is not empty; a text
/// without white space is one word.
pub proof fn law_words(s: Seq<char>)
    ensures
        forall|i: int|
            0 <= i < words(s).len() ==> (#[trigger] words(s)[i]).len() > 0 && forall|j: int|
                0 <= j < words(s)[i].len() ==> !white_space(#[trigger] words(s)[i][j]),
        s.len() > 0 && (forall|j: int| 0 <= j < s.len() ==> !white_space(#[trigger] s[j]))
            ==> words(s) == seq![s],
        (forall|j: int| 0 <= j < s.len() ==> white_space(#[trigger] s[j])) ==> words(s).len() == 0,
        words(s).len() == 0 ==> forall|j: int|
            0 <= j < s.len() ==> white_space(#[trigger] s[j]),
    decreases s.len(),
{
    let t = trim_start(s);
    lemma_trim_start(s);
    lemma_trim_start_bound(s);
    lemma_word_len_bound(t);
    if t.len() > 0 {
        let n = word_len(t) as int;
        lemma_word(t);
        law_words(t.skip(n));
        assert forall|i: int| 0 <= i < words(s).len() implies (#[trigger] words(s)[i]).len() > 0
            && forall|j: int| 0 <= j < words(s)[i].len() ==> !white_space(
            #[trigger] words(s)[i][j],
        ) by {
            if i > 0 {
                assert(words(s)[i] == words(t.skip(n))[i - 1]);
            } else {
                assert(words(s)[0] == t.take(n));
            }
        }
        if forall|j: int| 0 <= j < s.len() ==> !white_space(#[trigger] s[j]) {
            assert(t.len() == s.len());
            assert(t =~= s);
            if n < t.len() {
                assert(!white_space(t[n]));
            }
            assert(t.skip(n).len() == 0);
            assert(t.take(n) =~= s);
            assert(words(t.skip(n)) =~= Seq::empty());
            assert(words(s) =~= seq![s]);
        }
        assert(s[s.len() - t.len()] == t[0]);
    }
}

proof fn lemma_word(t: Seq<char>)
    ensures
        word_len(t) <= t.len(),
        forall|j: int| 0 <= j < word_len(t) ==> !white_space(#[trigger] t[j]),
        word_len(t) < t.len() ==> white_space(t[word_len(t) as int]),
    decreases t.len(),
{
    if t.len() > 0 && !white_space(t[0]) {
        let rest = t.drop_first();
        lemma_word(rest);
        assert forall|j: int| 0 <= j < word_len(t) implies !white_space(#[trigger] t[j]) by {
            if j > 0 {
                assert(rest[j - 1] == t[j]);
            }
        }
    }
}

/// What white space divides falls apart: the words of a text are its first word and
/// the words of what follows.
pub proof fn law_words_divide(word: Seq<char>, gap: char, rest: Seq<char>)
    requires
        word.len() > 0,
        forall|j: int| 0 <= j < word.len() ==> !white_space(#[trigger] word[j]),
        white_space(gap),
    ensures
        words(word.push(gap) + rest) == seq![word] + words(rest),
        words(seq![gap] + rest) == words(rest),
{
    let s = word.push(gap) + rest;
    assert(s[0] == word[0]);
    assert(trim_start(s) == s);
    lemma_word(s);
    let n = word_len(s) as int;
    assert(n == word.len()) by {
        if n < word.len() {
            assert(s[n] == word[n]);
        }
        if n > word.len() {
            assert(s[word.len() as int] == gap);
        }
    }
    assert(s.take(n) =~= word);
    let tail = s.skip(n);
    assert(tail =~= seq![gap] + rest);
    lemma_gap(gap, rest);
    lemma_trim_start_bound(s);
    lemma_word_len_bound(s);
}

proof fn lemma_gap(gap: char, rest: Seq<char>)
    requires
        white_space(gap),
    ensures
        words(seq![gap] + rest) == words(rest),
{
    let s = seq![gap] + rest;
    assert(s[0] == gap);
    assert(s.drop_first() =~= rest);
    assert(trim_start(s) == trim_start(rest));
}

/// A number written in decimal reads back as itself, with digits only and without a
/// zero in front.
pub proof fn law_decimal_reads_back(n: nat)
    ensures
        all_digits(decimal(n)),
        digits_value(decimal(n)) == n,
        n > 0 ==> decimal(n)[0] != '0',
        n == 0 ==> decimal(n) == seq!['0'],
        decimal_value(decimal(n), true) == Some(n as int),
        decimal_value(decimal(n), false) == Some(n as int),
    decreases n,
{
    let s = decimal(n);
    if n < 10 {
        assert(s.drop_last() =~= Seq::empty());
        assert(s.last() == digit_char(n));
        assert(digits_value(s.drop_last()) == 0);
    } else {
        law_decimal_reads_back(n / 10);
        let init = decimal(n / 10);
        assert(s.drop_last() =~= init);
        assert(s[0] == init[0]);
        assert forall|i: int| 0 <= i < s.len() implies is_digit(#[trigger] s[i]) by {
            if i < init.len() {
                assert(s[i] == init[i]);
            }
        }
    }
    assert(is_digit(s[0]));
}

/// A text writes a number only where it is digits, with at most one sign in front; a
/// minus counts only where negative numbers do, and a number out of the range is
/// none.
pub proof fn law_decimal_reading(s: Seq<char>, low: int, high: int)
    requires
        low <= 0 <= high,
    ensures
        decimal_in(s, low, high) matches Some(n) ==> low <= n <= high,
        s.len() == 0 ==> decimal_in(s, low, high) is None,
        all_digits(s) && digits_value(s) <= high ==> decimal_in(s, low, high) == Some(
            digits_value(s) as int,
        ),
        all_digits(s) && digits_value(s) > high ==> decimal_in(s, low, high) is None,
        all_digits(s) && digits_value(s) <= high ==> decimal_in(seq!['+'] + s, low, high) == Some(
            digits_value(s) as int,
        ),
        all_digits(s) && low < 0 && low <= -digits_value(s) ==> decimal_in(seq!['-'] + s, low, high)
            == Some(-(digits_value(s) as int)),
        low == 0 ==> decimal_in(seq!['-'] + s, low, high) is None,
        s.len() > 0 && !is_digit(s[0]) && s[0] != '+' && s[0] != '-' ==> decimal_in(
            s,
            low,
            high,
        ) is None,
{
    assert((seq!['+'] + s).drop_first() =~= s);
    assert((seq!['-'] + s).drop_first() =~= s);
    assert((seq!['-'] + s)[0] == '-');
    if s.len() > 0 {
        assert(all_digits(s) ==> is_digit(s[0]));
    }
}

/// Digits count by their places: one more digit behind a number is ten times the
/// number and the digit.
pub proof fn law_digit_places(s: Seq<char>, d: char)
    requires
        is_digit(d),
    ensures
        digits_value(s.push(d)) == 10 * digits_value(s) + (d as int - 48),
        digits_value(Seq::empty()) == 0,
{
    assert(s.push(d).drop_last() =~= s);
}

} // verus!
