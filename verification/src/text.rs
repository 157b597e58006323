//! Text primitives: characters in and out of strings, number rendering, joining and trimming.
//!
//! A `String` is modelled by its characters (`s@ : Seq<char>`), so every function here states its
//! result as a sequence of characters.

use vstd::prelude::*;

verus! {

/// `String::push` appends one character to the string and changes nothing before it.
pub assume_specification[ String::push ](s: &mut String, c: char)
    ensures
        final(s)@ == old(s)@.push(c),
;

/// The characters of `s`, in order.
pub fn chars_of(s: &str) -> (out: Vec<char>)
    ensures
        out@ == s@,
{
    let mut out: Vec<char> = Vec::new();
    for c in it: s.chars()
        invariant
            out@ == it.seq().take(it.index() as int),
            it.seq() == s@,
    {
        out.push(c);
    }
    out
}

/// Whether two texts hold the same characters.
pub fn same(a: &str, b: &str) -> (r: bool)
    ensures
        r == (a@ == b@),
{
    let x: String = a.to_owned();
    let y: String = b.to_owned();
    x == y
}

/// An owned copy of `s`.
pub fn owned(s: &str) -> (r: String)
    ensures
        r@ == s@,
{
    s.to_owned()
}

/// The text made of `chars[from..to]`.
pub fn text_between(chars: &Vec<char>, from: usize, to: usize) -> (r: String)
    requires
        from <= to <= chars@.len(),
    ensures
        r@ == chars@.subrange(from as int, to as int),
{
    let mut r = String::new();
    let mut i: usize = from;
    while i < to
        invariant
            from <= i <= to <= chars@.len(),
            r@ == chars@.subrange(from as int, i as int),
        decreases to - i,
    {
        r.push(chars[i]);
        i += 1;
        assert(chars@.subrange(from as int, i as int) =~= chars@.subrange(
            from as int,
            i - 1,
        ).push(chars@[i - 1]));
    }
    r
}

/// `s` with every `from` replaced by `to`.
pub open spec fn swapped(s: Seq<char>, from: char, to: char) -> Seq<char> {
    s.map_values(|c: char| if c == from { to } else { c })
}

/// `chars[start..end]` with every `from` replaced by `to`.
pub fn swap_between(chars: &Vec<char>, start: usize, end: usize, from: char, to: char) -> (r: String)
    requires
        start <= end <= chars@.len(),
    ensures
        r@ == swapped(chars@.subrange(start as int, end as int), from, to),
{
    let mut r = String::new();
    let mut i: usize = start;
    while i < end
        invariant
            start <= i <= end <= chars@.len(),
            r@ == swapped(chars@.subrange(start as int, i as int), from, to),
        decreases end - i,
    {
        let c = chars[i];
        if c == from {
            r.push(to);
        } else {
            r.push(c);
        }
        i += 1;
        assert(swapped(chars@.subrange(start as int, i as int), from, to) =~= swapped(
            chars@.subrange(start as int, i - 1),
            from,
            to,
        ).push(if c == from { to } else { c }));
    }
    r
}

/// `parts` one behind the other, `sep` between them.
pub open spec fn joined(parts: Seq<Seq<char>>, sep: Seq<char>) -> Seq<char>
    decreases parts.len(),
{
    if parts.len() == 0 {
        Seq::empty()
    } else if parts.len() == 1 {
        parts[0]
    } else {
        joined(parts.drop_last(), sep) + sep + parts.last()
    }
}

/// What each of `parts` holds.
pub open spec fn views(parts: Seq<String>) -> Seq<Seq<char>> {
    parts.map_values(|s: String| s@)
}

/// `parts` in one text, `sep` between them.
pub fn join(parts: &Vec<String>, sep: &str) -> (r: String)
    ensures
        r@ == joined(views(parts@), sep@),
{
    let mut r = String::new();
    let mut i: usize = 0;
    assert(views(parts@).take(0) =~= Seq::empty());
    while i < parts.len()
        invariant
            0 <= i <= parts@.len(),
            r@ == joined(views(parts@).take(i as int), sep@),
        decreases parts@.len() - i,
    {
        let ghost now = views(parts@).take(i + 1);
        assert(now.drop_last() =~= views(parts@).take(i as int));
        assert(now.last() == parts@[i as int]@);
        if i > 0 {
            r.append(sep);
        }
        r.append(parts[i].as_str());
        assert(r@ =~= joined(now, sep@));
        i += 1;
    }
    assert(views(parts@).take(i as int) =~= views(parts@));
    r
}

// ---------------------------------------------------------------------------------------------
// Edges
// ---------------------------------------------------------------------------------------------
/// A character with Unicode's `White_Space` property.
pub open spec fn is_space(c: char) -> bool {
    ||| '\u{9}' <= c <= '\u{D}'
    ||| c == ' '
    ||| c == '\u{85}'
    ||| c == '\u{A0}'
    ||| c == '\u{1680}'
    ||| '\u{2000}' <= c <= '\u{200A}'
    ||| c == '\u{2028}'
    ||| c == '\u{2029}'
    ||| c == '\u{202F}'
    ||| c == '\u{205F}'
    ||| c == '\u{3000}'
}

fn space(c: char) -> (r: bool)
    ensures
        r == is_space(c),
{
    ('\u{9}' <= c && c <= '\u{D}') || c == ' ' || c == '\u{85}' || c == '\u{A0}' || c == '\u{1680}'
        || ('\u{2000}' <= c && c <= '\u{200A}') || c == '\u{2028}' || c == '\u{2029}' || c
        == '\u{202F}' || c == '\u{205F}' || c == '\u{3000}'
}

pub open spec fn without_leading_space(s: Seq<char>) -> Seq<char>
    decreases s.len(),
{
    if s.len() > 0 && is_space(s[0]) {
        without_leading_space(s.drop_first())
    } else {
        s
    }
}

pub open spec fn without_trailing_space(s: Seq<char>) -> Seq<char>
    decreases s.len(),
{
    if s.len() > 0 && is_space(s.last()) {
        without_trailing_space(s.drop_last())
    } else {
        s
    }
}

/// `s` without the white space it starts and ends with.
pub open spec fn trimmed(s: Seq<char>) -> Seq<char> {
    without_trailing_space(without_leading_space(s))
}

/// `s` without the white space it starts and ends with.
pub fn trim(s: &str) -> (r: String)
    ensures
        r@ == trimmed(s@),
{
    let chars = chars_of(s);
    let n: usize = chars.len();
    let mut i: usize = 0;
    assert(chars@.skip(0) =~= chars@);
    while i < n && space(chars[i])
        invariant
            i <= n == chars@.len(),
            without_leading_space(chars@) == without_leading_space(chars@.skip(i as int)),
        decreases n - i,
    {
        assert(chars@.skip(i as int).drop_first() =~= chars@.skip(i + 1));
        i += 1;
    }
    let ghost rest = chars@.skip(i as int);
    assert(without_leading_space(chars@) == rest);
    let mut j: usize = n;
    assert(chars@.subrange(i as int, n as int) =~= rest);
    while j > i && space(chars[j - 1])
        invariant
            i <= j <= n == chars@.len(),
            without_trailing_space(rest) == without_trailing_space(
                chars@.subrange(i as int, j as int),
            ),
        decreases j,
    {
        assert(chars@.subrange(i as int, j as int).drop_last() =~= chars@.subrange(i as int, j - 1));
        j -= 1;
    }
    text_between(&chars, i, j)
}

/// `s` behind `prefix`, if it starts with it.
pub open spec fn behind(s: Seq<char>, prefix: Seq<char>) -> Option<Seq<char>> {
    if prefix.len() <= s.len() && s.take(prefix.len() as int) == prefix {
        Some(s.skip(prefix.len() as int))
    } else {
        None
    }
}

/// `s` up to `suffix`, if it ends with it.
pub open spec fn ahead_of(s: Seq<char>, suffix: Seq<char>) -> Option<Seq<char>> {
    if suffix.len() <= s.len() && s.skip(s.len() - suffix.len()) == suffix {
        Some(s.take(s.len() - suffix.len()))
    } else {
        None
    }
}

fn same_chars(a: &Vec<char>, from: usize, b: &Vec<char>) -> (r: bool)
    requires
        from + b@.len() <= a@.len(),
    ensures
        r == (a@.subrange(from as int, from + b@.len()) == b@),
{
    let n: usize = a.len();
    let mut i: usize = 0;
    while i < b.len()
        invariant
            i <= b@.len(),
            from + b@.len() <= n == a@.len(),
            forall|k: int| 0 <= k < i ==> a@[from + k] == b@[k],
        decreases b@.len() - i,
    {
        if a[from + i] != b[i] {
            assert(a@.subrange(from as int, from + b@.len())[i as int] != b@[i as int]);
            return false;
        }
        i += 1;
    }
    assert(a@.subrange(from as int, from + b@.len()) =~= b@);
    true
}

/// `s` behind `prefix`, if it starts with it.
pub fn strip_prefix(s: &str, prefix: &str) -> (r: Option<String>)
    ensures
        match behind(s@, prefix@) {
            Some(rest) => r is Some && r->0@ == rest,
            None => r is None,
        },
{
    let a = chars_of(s);
    let b = chars_of(prefix);
    if b.len() <= a.len() && same_chars(&a, 0, &b) {
        assert(a@.subrange(0, b@.len() as int) =~= a@.take(b@.len() as int));
        assert(a@.subrange(b@.len() as int, a@.len() as int) =~= a@.skip(b@.len() as int));
        Some(text_between(&a, b.len(), a.len()))
    } else {
        assert(b@.len() <= a@.len() ==> a@.subrange(0, b@.len() as int) =~= a@.take(b@.len() as int));
        None
    }
}

/// `s` up to `suffix`, if it ends with it.
pub fn strip_suffix(s: &str, suffix: &str) -> (r: Option<String>)
    ensures
        match ahead_of(s@, suffix@) {
            Some(rest) => r is Some && r->0@ == rest,
            None => r is None,
        },
{
    let a = chars_of(s);
    let b = chars_of(suffix);
    if b.len() <= a.len() {
        let cut: usize = a.len() - b.len();
        assert(a@.subrange(cut as int, cut + b@.len()) =~= a@.skip(cut as int));
        if same_chars(&a, cut, &b) {
            assert(a@.subrange(0, cut as int) =~= a@.take(cut as int));
            return Some(text_between(&a, 0, cut));
        }
    }
    None
}

/// The lines of `s`, without the breaks that end them.
pub open spec fn lines(s: Seq<char>) -> Seq<Seq<char>>
    decreases s.len(),
{
    if s.len() == 0 {
        Seq::empty()
    } else if !s.contains('\n') {
        seq![s]
    } else {
        let at = s.index_of_first('\n')->0;
        proof {
            s.index_of_first_ensures('\n');
        }
        seq![s.take(at)] + lines(s.skip(at + 1))
    }
}

/// A line, its break and what follows are that line and the lines of what follows.
pub proof fn lines_of_a_line(line: Seq<char>, rest: Seq<char>)
    requires
        !line.contains('\n'),
    ensures
        lines(line.push('\n') + rest) == seq![line] + lines(rest),
{
    let s = line.push('\n') + rest;
    let n = line.len() as int;
    assert(s[n] == '\n');
    assert(s.contains('\n'));
    s.index_of_first_ensures('\n');
    let at = s.index_of_first('\n')->0;
    assert(at == n) by {
        if at < n {
            assert(line[at] == '\n');
        }
    }
    assert(s.take(n) =~= line);
    assert(s.skip(n + 1) =~= rest);
}

/// A line put behind whole lines is one line more.
pub proof fn lines_with_a_line(s: Seq<char>, line: Seq<char>)
    requires
        s.len() > 0 ==> s.last() == '\n',
        !line.contains('\n'),
    ensures
        lines(s + line.push('\n')) == lines(s).push(line),
    decreases s.len(),
{
    if s.len() == 0 {
        assert(s + line.push('\n') =~= line.push('\n') + Seq::<char>::empty());
        lines_of_a_line(line, Seq::empty());
        assert(lines(s).push(line) =~= seq![line] + lines(Seq::<char>::empty()));
    } else {
        assert(s[s.len() - 1] == '\n');
        assert(s.contains('\n'));
        s.index_of_first_ensures('\n');
        let at = s.index_of_first('\n')->0;
        let first = s.take(at);
        let rest = s.skip(at + 1);
        assert(!first.contains('\n')) by {
            if first.contains('\n') {
                let k = choose|k: int| 0 <= k < first.len() && first[k] == '\n';
                assert(s[k] == '\n');
            }
        }
        lines_with_a_line(rest, line);
        lines_of_a_line(first, rest + line.push('\n'));
        assert(s + line.push('\n') =~= first.push('\n') + (rest + line.push('\n')));
        assert(seq![first] + lines(rest).push(line) =~= (seq![first] + lines(rest)).push(line));
    }
}

/// Where `c` first stands in `s`, or the end of `s`.
pub open spec fn first_of(s: Seq<char>, c: char) -> int
    decreases s.len(),
{
    if s.len() == 0 || s[0] == c {
        0
    } else {
        1 + first_of(s.drop_first(), c)
    }
}

/// What stands behind the first `c` in `s`; empty where there is none.
pub open spec fn behind_first(s: Seq<char>, c: char) -> Seq<char> {
    let at = first_of(s, c);
    if at < s.len() {
        s.skip(at + 1)
    } else {
        Seq::empty()
    }
}

/// What stands behind the first `c` in `s`; empty where there is none.
pub fn split_behind(s: &str, c: char) -> (r: String)
    ensures
        r@ == behind_first(s@, c),
{
    let chars = chars_of(s);
    let n: usize = chars.len();
    let mut i: usize = 0;
    assert(chars@.skip(0) =~= chars@);
    while i < n && chars[i] != c
        invariant
            i <= n == chars@.len(),
            first_of(chars@, c) == i + first_of(chars@.skip(i as int), c),
        decreases n - i,
    {
        assert(chars@.skip(i as int).drop_first() =~= chars@.skip(i + 1));
        i += 1;
    }
    if i < n {
        assert(chars@.subrange(i + 1, n as int) =~= chars@.skip(i + 1));
        text_between(&chars, i + 1, n)
    } else {
        String::new()
    }
}

/// Where `c` last stands in `s`; before the start where it does not.
pub open spec fn last_of(s: Seq<char>, c: char) -> int
    decreases s.len(),
{
    if s.len() == 0 {
        -1
    } else if s.last() == c {
        s.len() - 1
    } else {
        last_of(s.drop_last(), c)
    }
}

/// The offset behind the last `c` in `s`, or the end of `s` where there is none.
pub open spec fn cut_behind(s: Seq<char>, c: char) -> int {
    if last_of(s, c) < 0 {
        s.len() as int
    } else {
        last_of(s, c) + 1
    }
}

/// The offset behind the last `c` in `chars`, or the end where there is none.
pub fn find_cut(chars: &Vec<char>, c: char) -> (r: usize)
    ensures
        r == cut_behind(chars@, c),
        r <= chars@.len(),
{
    let mut i: usize = chars.len();
    assert(chars@.take(i as int) =~= chars@);
    while i > 0
        invariant
            i <= chars@.len(),
            last_of(chars@, c) == last_of(chars@.take(i as int), c),
        decreases i,
    {
        assert(chars@.take(i as int).drop_last() =~= chars@.take(i - 1));
        if chars[i - 1] == c {
            return i;
        }
        i -= 1;
    }
    chars.len()
}

// ---------------------------------------------------------------------------------------------
// Text as numbers
// ---------------------------------------------------------------------------------------------
/// What a character stands for as a digit.
pub open spec fn digit_value(c: char) -> Option<nat> {
    if '0' <= c <= '9' {
        Some((c as int - '0' as int) as nat)
    } else if 'a' <= c <= 'f' {
        Some((c as int - 'a' as int + 10) as nat)
    } else if 'A' <= c <= 'F' {
        Some((c as int - 'A' as int + 10) as nat)
    } else {
        None
    }
}

/// The number that digits of a base up to sixteen spell, most significant first. Nothing spells none.
pub open spec fn spelled(s: Seq<char>, base: nat) -> Option<nat>
    decreases s.len(),
{
    if s.len() == 0 {
        None
    } else {
        match digit_value(s.last()) {
            None => None,
            Some(d) => if d >= base {
                None
            } else if s.len() == 1 {
                Some(d)
            } else {
                match spelled(s.drop_last(), base) {
                    None => None,
                    Some(n) => Some(n * base + d),
                }
            },
        }
    }
}

/// The unsigned 64-bit number that `s` spells, with or without a plus sign before it.
pub open spec fn unsigned(s: Seq<char>, base: nat) -> Option<u64> {
    let digits = if s.len() > 0 && s[0] == '+' {
        s.drop_first()
    } else {
        s
    };
    match spelled(digits, base) {
        Some(n) => if n <= u64::MAX {
            Some(n as u64)
        } else {
            None
        },
        None => None,
    }
}

fn digit_number(c: char) -> (r: Option<u32>)
    ensures
        match digit_value(c) {
            Some(d) => r is Some && r->0 == d && d < 16,
            None => r is None,
        },
{
    let code: u32 = c as u32;
    if '0' <= c && c <= '9' {
        Some(code - 48)
    } else if 'a' <= c && c <= 'f' {
        Some(code - 87)
    } else if 'A' <= c && c <= 'F' {
        Some(code - 55)
    } else {
        None
    }
}

/// A number that more digits follow is no longer one that fits.
proof fn spelled_grows(s: Seq<char>, base: nat, i: int)
    requires
        base >= 1,
        0 < i <= s.len(),
        spelled(s, base) is Some,
    ensures
        spelled(s.take(i), base) is Some,
        spelled(s.take(i), base)->0 <= spelled(s, base)->0,
    decreases s.len(),
{
    if i < s.len() {
        let rest = s.drop_last();
        spelled_grows(rest, base, i);
        assert(rest.take(i) =~= s.take(i));
        let n = spelled(rest, base)->0;
        assert(n <= n * base) by (nonlinear_arith)
            requires
                base >= 1,
        ;
    } else {
        assert(s.take(i) =~= s);
    }
}

/// The unsigned 64-bit number that `s` spells in `base`, with or without a plus sign before it.
pub fn parse_unsigned(s: &str, base: u32) -> (r: Option<u64>)
    requires
        2 <= base <= 16,
    ensures
        r == unsigned(s@, base as nat),
{
    let chars = chars_of(s);
    let start: usize = if chars.len() > 0 && chars[0] == '+' {
        1
    } else {
        0
    };
    let ghost digits = chars@.skip(start as int);
    assert(start == 1 ==> digits =~= s@.drop_first());
    assert(start == 0 ==> digits =~= s@);
    if start >= chars.len() {
        return None;
    }
    let mut value: u64 = 0;
    let mut i: usize = start;
    while i < chars.len()
        invariant
            2 <= base <= 16,
            start <= i <= chars@.len(),
            digits == chars@.skip(start as int),
            start < chars@.len(),
            unsigned(s@, base as nat) == (match spelled(digits, base as nat) {
                Some(n) => if n <= u64::MAX {
                    Some(n as u64)
                } else {
                    None
                },
                None => None,
            }),
            i == start ==> value == 0,
            i > start ==> spelled(digits.take(i - start), base as nat) == Some(value as nat),
        decreases chars@.len() - i,
    {
        let ghost now = digits.take(i - start + 1);
        assert(now.drop_last() =~= digits.take(i - start));
        assert(now.last() == chars@[i as int]);
        proof {
            if spelled(digits, base as nat) is Some {
                spelled_grows(digits, base as nat, i - start + 1);
            }
        }
        let d: u32 = match digit_number(chars[i]) {
            None => {
                return None;
            },
            Some(d) => d,
        };
        if d >= base {
            return None;
        }
        let wide: u128 = value as u128;
        assert(wide * base <= 0xFFFF_FFFF_FFFF_FFFF * 16) by (nonlinear_arith)
            requires
                wide <= 0xFFFF_FFFF_FFFF_FFFF,
                base <= 16,
        ;
        let next: u128 = wide * base as u128 + d as u128;
        assert(wide * (base as u128) == (value as nat) * (base as nat)) by (nonlinear_arith)
            requires
                wide == value,
        ;
        assert((0nat) * (base as nat) == 0) by (nonlinear_arith);
        assert(spelled(now, base as nat) == Some(next as nat)) by {
            if i == start {
                assert(now =~= seq![chars@[i as int]]);
                assert(now.drop_last() =~= Seq::empty());
            } else {
                assert(spelled(now.drop_last(), base as nat) == Some(value as nat));
            }
        }
        if next > u64::MAX as u128 {
            return None;
        }
        value = next as u64;
        i += 1;
    }
    assert(digits.take(i - start) =~= digits);
    Some(value)
}

// ---------------------------------------------------------------------------------------------
// Order
// ---------------------------------------------------------------------------------------------
/// `a` comes before `b`: at the first place where they differ `a` has the smaller character, or `a`
/// ends there.
pub open spec fn before(a: Seq<char>, b: Seq<char>) -> bool
    decreases a.len(),
{
    if b.len() == 0 {
        false
    } else if a.len() == 0 {
        true
    } else if a[0] == b[0] {
        before(a.drop_first(), b.drop_first())
    } else {
        a[0] < b[0]
    }
}

/// No text comes before itself, and of two texts only one can come before the other.
pub proof fn before_is_strict(a: Seq<char>, b: Seq<char>)
    ensures
        !before(a, a),
        before(a, b) ==> !before(b, a) && a != b,
    decreases a.len(),
{
    if a.len() > 0 && b.len() > 0 && a[0] == b[0] {
        before_is_strict(a.drop_first(), b.drop_first());
    }
    if a.len() > 0 {
        before_is_strict(a.drop_first(), a.drop_first());
    }
}

/// Different texts have an order.
pub proof fn before_is_total(a: Seq<char>, b: Seq<char>)
    ensures
        before(a, b) || before(b, a) || a == b,
    decreases a.len(),
{
    if a.len() > 0 && b.len() > 0 {
        if a[0] == b[0] {
            before_is_total(a.drop_first(), b.drop_first());
            if a.drop_first() == b.drop_first() {
                assert(a =~= seq![a[0]] + a.drop_first());
                assert(b =~= seq![b[0]] + b.drop_first());
            }
        }
    } else if a.len() == 0 && b.len() == 0 {
        assert(a =~= b);
    }
}

pub proof fn before_is_transitive(a: Seq<char>, b: Seq<char>, c: Seq<char>)
    requires
        before(a, b),
        before(b, c),
    ensures
        before(a, c),
    decreases a.len(),
{
    if a.len() > 0 && a[0] == b[0] && b[0] == c[0] {
        before_is_transitive(a.drop_first(), b.drop_first(), c.drop_first());
    }
}

/// Whether `a` comes before `b`.
pub fn precedes(a: &str, b: &str) -> (r: bool)
    ensures
        r == before(a@, b@),
{
    let x = chars_of(a);
    let y = chars_of(b);
    let mut i: usize = 0;
    assert(x@.skip(0) =~= x@);
    assert(y@.skip(0) =~= y@);
    loop
        invariant
            x@ == a@,
            y@ == b@,
            i <= x@.len(),
            i <= y@.len(),
            before(a@, b@) == before(x@.skip(i as int), y@.skip(i as int)),
        decreases x@.len() - i,
    {
        if i >= y.len() {
            return false;
        }
        if i >= x.len() {
            return true;
        }
        if x[i] != y[i] {
            return x[i] < y[i];
        }
        assert(x@.skip(i as int).drop_first() =~= x@.skip(i + 1));
        assert(y@.skip(i as int).drop_first() =~= y@.skip(i + 1));
        i += 1;
    }
}

// ---------------------------------------------------------------------------------------------
// Numbers as text
// ---------------------------------------------------------------------------------------------
/// The digit that stands for `d` in bases up to sixteen, in lower case.
pub open spec fn digit(d: nat) -> char {
    if d == 0 {
        '0'
    } else if d == 1 {
        '1'
    } else if d == 2 {
        '2'
    } else if d == 3 {
        '3'
    } else if d == 4 {
        '4'
    } else if d == 5 {
        '5'
    } else if d == 6 {
        '6'
    } else if d == 7 {
        '7'
    } else if d == 8 {
        '8'
    } else if d == 9 {
        '9'
    } else if d == 10 {
        'a'
    } else if d == 11 {
        'b'
    } else if d == 12 {
        'c'
    } else if d == 13 {
        'd'
    } else if d == 14 {
        'e'
    } else {
        'f'
    }
}

/// `n` written in `base`, most significant digit first and without leading zeros.
pub open spec fn numeral(n: nat, base: nat) -> Seq<char>
    decreases n,
{
    if base < 2 || n < base {
        seq![digit(n)]
    } else {
        proof {
            assert(n / base < n) by (nonlinear_arith)
                requires
                    n >= base,
                    base >= 2,
            ;
        }
        numeral(n / base, base).push(digit(n % base))
    }
}

/// `n` in decimal.
pub open spec fn dec(n: nat) -> Seq<char> {
    numeral(n, 10)
}

/// `n` in lower-case hexadecimal.
pub open spec fn hex(n: nat) -> Seq<char> {
    numeral(n, 16)
}

fn digit_char(d: u128) -> (c: char)
    requires
        d < 16,
    ensures
        c == digit(d as nat),
{
    if d == 0 {
        '0'
    } else if d == 1 {
        '1'
    } else if d == 2 {
        '2'
    } else if d == 3 {
        '3'
    } else if d == 4 {
        '4'
    } else if d == 5 {
        '5'
    } else if d == 6 {
        '6'
    } else if d == 7 {
        '7'
    } else if d == 8 {
        '8'
    } else if d == 9 {
        '9'
    } else if d == 10 {
        'a'
    } else if d == 11 {
        'b'
    } else if d == 12 {
        'c'
    } else if d == 13 {
        'd'
    } else if d == 14 {
        'e'
    } else {
        'f'
    }
}

/// Writes `n` in `base` at the end of `out`.
pub fn push_numeral(out: &mut String, n: u128, base: u128)
    requires
        2 <= base <= 16,
    ensures
        final(out)@ == old(out)@ + numeral(n as nat, base as nat),
    decreases n,
{
    if n < base {
        out.push(digit_char(n));
    } else {
        assert(n / base < n) by (nonlinear_arith)
            requires
                n >= base,
                base >= 2,
        ;
        assert(n % base < base) by (nonlinear_arith)
            requires
                base >= 2,
        ;
        push_numeral(out, n / base, base);
        out.push(digit_char(n % base));
    }
}

/// `n` in decimal.
pub fn decimal(n: u64) -> (r: String)
    ensures
        r@ == dec(n as nat),
{
    let mut r = String::new();
    push_numeral(&mut r, n as u128, 10);
    r
}

// ---------------------------------------------------------------------------------------------
// Laws
// ---------------------------------------------------------------------------------------------
/// A decimal digit.
pub open spec fn is_digit(c: char) -> bool {
    '0' <= c <= '9'
}

/// A decimal numeral is made of digits and is not empty.
pub proof fn dec_is_digits(n: nat)
    ensures
        dec(n).len() > 0,
        forall|i: int| 0 <= i < dec(n).len() ==> is_digit(#[trigger] dec(n)[i]),
    decreases n,
{
    if n >= 10 {
        dec_is_digits(n / 10);
        assert(dec(n) =~= dec(n / 10).push(digit(n % 10)));
    }
}

/// A number reads back from its numeral.
pub proof fn a_numeral_reads_back(n: nat, base: nat)
    requires
        2 <= base <= 16,
    ensures
        spelled(numeral(n, base), base) == Some(n),
        numeral(n, base).len() > 0,
    decreases n,
{
    assert(forall|d: nat| d < 16 ==> digit_value(#[trigger] digit(d)) == Some(d));
    if n < base {
        assert(numeral(n, base) =~= seq![digit(n)]);
    } else {
        assert(n / base < n) by (nonlinear_arith)
            requires
                n >= base,
                base >= 2,
        ;
        assert(n % base < base && n == (n / base) * base + n % base) by (nonlinear_arith)
            requires
                base >= 2,
        ;
        a_numeral_reads_back(n / base, base);
        assert(numeral(n, base).drop_last() =~= numeral(n / base, base));
        assert(numeral(n, base).last() == digit(n % base));
    }
}

/// A numeral is made of digits: it holds no sign, and no mark of a base.
pub proof fn numerals_hold_no_sign(n: nat, base: nat)
    requires
        2 <= base <= 16,
    ensures
        forall|i: int| 0 <= i < numeral(n, base).len() ==> digit_value(#[trigger] numeral(n, base)[i]) is Some,
    decreases n,
{
    if n >= base {
        assert(n / base < n) by (nonlinear_arith)
            requires
                n >= base,
                base >= 2,
        ;
        numerals_hold_no_sign(n / base, base);
        assert(numeral(n, base) =~= numeral(n / base, base).push(digit(n % base)));
    }
}

/// Different numbers have different numerals.
pub proof fn numerals_differ(a: nat, b: nat, base: nat)
    requires
        2 <= base <= 16,
        numeral(a, base) == numeral(b, base),
    ensures
        a == b,
{
    a_numeral_reads_back(a, base);
    a_numeral_reads_back(b, base);
}

/// `prefix` is not empty and its last character is no digit.
pub open spec fn ends_in_no_digit(prefix: Seq<char>) -> bool {
    prefix.len() > 0 && !is_digit(prefix.last())
}

/// A prefix that ends in no digit and a number behind it can be told apart again.
pub proof fn numbered_names_differ(p: Seq<char>, a: nat, q: Seq<char>, b: nat)
    requires
        ends_in_no_digit(p),
        ends_in_no_digit(q),
        p + dec(a) == q + dec(b),
    ensures
        p == q,
        a == b,
{
    let x = dec(a);
    let y = dec(b);
    dec_is_digits(a);
    dec_is_digits(b);
    assert((p + x).len() == (q + y).len());
    if x.len() > y.len() {
        let k = q.len() - 1;
        assert((q + y)[k] == q.last());
        assert((p + x)[k] == x[k - p.len()]);
    } else if x.len() < y.len() {
        let k = p.len() - 1;
        assert((p + x)[k] == p.last());
        assert((q + y)[k] == y[k - q.len()]);
    } else {
        assert(p =~= (p + x).take(p.len() as int));
        assert(q =~= (q + y).take(q.len() as int));
        assert(x =~= (p + x).skip(p.len() as int));
        assert(y =~= (q + y).skip(q.len() as int));
        numerals_differ(a, b, 10);
    }
}

/// Whether `part` stands somewhere in `whole`.
pub open spec fn holds(whole: Seq<char>, part: Seq<char>) -> bool {
    exists|at: int|
        0 <= at <= whole.len() - part.len() && #[trigger] whole.subrange(at, at + part.len()) == part
}

/// What was put between two texts stands in what they make.
pub proof fn holds_the_middle(a: Seq<char>, part: Seq<char>, b: Seq<char>)
    ensures
        holds(a + part + b, part),
{
    let at = a.len() as int;
    assert((a + part + b).subrange(at, at + part.len()) =~= part);
}

/// White space around a text that neither starts nor ends with any is all that is taken off it.
pub proof fn only_the_space_around_is_taken_off(head: Seq<char>, s: Seq<char>, tail: Seq<char>)
    requires
        forall|i: int| 0 <= i < head.len() ==> is_space(#[trigger] head[i]),
        forall|i: int| 0 <= i < tail.len() ==> is_space(#[trigger] tail[i]),
        s.len() > 0 ==> !is_space(s[0]) && !is_space(s.last()),
        s.len() == 0 ==> tail.len() == 0,
    ensures
        trimmed(head + s + tail) == s,
{
    leading_space_goes(head, s + tail);
    assert(head + s + tail =~= head + (s + tail));
    if s.len() > 0 {
        assert((s + tail)[0] == s[0]);
        assert(without_leading_space(s + tail) == s + tail);
    } else {
        assert(s + tail =~= Seq::empty());
    }
    trailing_space_goes(s, tail);
}

proof fn leading_space_goes(head: Seq<char>, s: Seq<char>)
    requires
        forall|i: int| 0 <= i < head.len() ==> is_space(#[trigger] head[i]),
    ensures
        without_leading_space(head + s) == without_leading_space(s),
    decreases head.len(),
{
    if head.len() == 0 {
        assert(head + s =~= s);
    } else {
        assert(is_space(head[0]));
        let rest = head.drop_first();
        assert forall|i: int| 0 <= i < rest.len() implies is_space(#[trigger] rest[i]) by {
            assert(is_space(head[i + 1]));
        }
        leading_space_goes(rest, s);
        assert((head + s).drop_first() =~= rest + s);
    }
}

proof fn trailing_space_goes(s: Seq<char>, tail: Seq<char>)
    requires
        forall|i: int| 0 <= i < tail.len() ==> is_space(#[trigger] tail[i]),
        s.len() > 0 ==> !is_space(s.last()),
    ensures
        without_trailing_space(s + tail) == s,
    decreases tail.len(),
{
    if tail.len() == 0 {
        assert(s + tail =~= s);
    } else {
        let rest = tail.drop_last();
        assert(is_space(tail[tail.len() - 1]));
        assert((s + tail).last() == tail.last());
        assert((s + tail).drop_last() =~= s + rest);
        assert forall|i: int| 0 <= i < rest.len() implies is_space(#[trigger] rest[i]) by {
            assert(is_space(tail[i]));
        }
        trailing_space_goes(s, rest);
    }
}

/// Parts are joined in their order, with the separator between each two and nowhere else.
pub proof fn parts_are_joined_in_their_order(parts: Seq<Seq<char>>, part: Seq<char>, sep: Seq<char>)
    ensures
        joined(Seq::empty(), sep).len() == 0,
        parts.len() == 0 ==> joined(parts.push(part), sep) == part,
        parts.len() > 0 ==> joined(parts.push(part), sep) == joined(parts, sep) + sep + part,
{
    assert(parts.push(part).drop_last() =~= parts);
}

/// One more digit makes a number the base times as large and adds what the digit stands for: a figure for
/// itself, and a letter in either case for ten and more.
pub proof fn one_more_digit_is_the_base_times_as_much(s: Seq<char>, c: char, d: nat, base: nat)
    requires
        2 <= base <= 16,
        d < base,
        (d < 10 && c as int == '0' as int + d) || (d >= 10 && (c as int == 'a' as int + d - 10
            || c as int == 'A' as int + d - 10)),
    ensures
        spelled(seq![c], base) == Some(d),
        s.len() > 0 ==> (spelled(s, base) matches Some(n) ==> spelled(s.push(c), base) == Some(
            n * base + d,
        )),
        s.len() > 0 && spelled(s, base) is None ==> spelled(s.push(c), base) is None,
{
    assert(digit_value(c) == Some(d));
    assert(seq![c].last() == c);
    assert(s.push(c).drop_last() =~= s);
    assert(s.push(c).last() == c);
}

/// A number that is spelled is read where it fits, with a plus sign or without, and not where it does not.
pub proof fn a_number_is_read_where_it_fits(s: Seq<char>, base: nat, n: nat)
    requires
        spelled(s, base) == Some(n),
    ensures
        n <= u64::MAX ==> unsigned(s, base) == Some(n as u64) && unsigned(seq!['+'] + s, base) == Some(
            n as u64,
        ),
        n > u64::MAX ==> unsigned(s, base) is None && unsigned(seq!['+'] + s, base) is None,
{
    assert((seq!['+'] + s).drop_first() =~= s);
    starts_with_a_digit(s, base);
}

proof fn starts_with_a_digit(s: Seq<char>, base: nat)
    requires
        spelled(s, base) is Some,
    ensures
        s.len() > 0,
        digit_value(s[0]) is Some,
    decreases s.len(),
{
    if s.len() > 1 {
        starts_with_a_digit(s.drop_last(), base);
    }
}

/// A text put behind another stands in what they make, and so does the other.
pub proof fn holds_each_of_two(a: Seq<char>, b: Seq<char>)
    ensures
        holds(a + b, a),
        holds(a + b, b),
{
    assert((a + b).subrange(0, 0int + a.len()) =~= a);
    let at = a.len() as int;
    assert((a + b).subrange(at, at + b.len()) =~= b);
}

} // verus!
