//! Text helpers shared by the parsers of this crate.
//!
//! Every function works on characters, not bytes: positions count `char`s.
//! The texts handled here are single table cells and headings, so the helpers
//! favour simple scans over speed.

use vstd::prelude::*;
use vstd::string::StrSliceExecFns;
use vstd::string::StringExecFns;

verus! {

/// Whether `c` is white space: one of the characters that Unicode gives the
/// property `White_Space`. These are the controls from tab to carriage return,
/// the space, the next-line control, the no-break space, the ogham space mark,
/// the spaces from en quad to hair space, the line and paragraph separators,
/// the narrow no-break space, the medium mathematical space and the
/// ideographic space.
pub open spec fn white_space(c: char) -> bool {
    let n = c as u32;
    ||| 0x09 <= n <= 0x0D
    ||| n == 0x20
    ||| n == 0x85
    ||| n == 0xA0
    ||| n == 0x1680
    ||| 0x2000 <= n <= 0x200A
    ||| n == 0x2028
    ||| n == 0x2029
    ||| n == 0x202F
    ||| n == 0x205F
    ||| n == 0x3000
}

/// Whether a character is white space.
pub fn is_white_space(c: char) -> (white: bool)
    ensures
        white == white_space(c),
{
    let n: u32 = c as u32;
    (0x09 <= n && n <= 0x0D) || n == 0x20 || n == 0x85 || n == 0xA0 || n == 0x1680 || (0x2000 <= n
        && n <= 0x200A) || n == 0x2028 || n == 0x2029 || n == 0x202F || n == 0x205F || n == 0x3000
}

/// `s` without its leading white space.
pub open spec fn trimmed_start(s: Seq<char>) -> Seq<char>
    decreases s.len(),
{
    if s.len() > 0 && white_space(s[0]) {
        trimmed_start(s.drop_first())
    } else {
        s
    }
}

/// `s` without its trailing white space.
pub open spec fn trimmed_end(s: Seq<char>) -> Seq<char>
    decreases s.len(),
{
    if s.len() > 0 && white_space(s.last()) {
        trimmed_end(s.drop_last())
    } else {
        s
    }
}

/// `s` without leading and trailing white space.
pub open spec fn trimmed(s: Seq<char>) -> Seq<char> {
    trimmed_end(trimmed_start(s))
}

/// Whether `pat` stands in `s` at position `at`.
pub open spec fn occurs_at(s: Seq<char>, at: int, pat: Seq<char>) -> bool {
    0 <= at && at + pat.len() <= s.len() && s.subrange(at, at + pat.len()) == pat
}

/// `s` with every copy of `pat` at its end removed, one after another.
/// An empty `pat` removes nothing.
pub open spec fn without_suffix(s: Seq<char>, pat: Seq<char>) -> Seq<char>
    decreases s.len(),
{
    if pat.len() > 0 && occurs_at(s, s.len() - pat.len(), pat) {
        without_suffix(s.subrange(0, s.len() - pat.len()), pat)
    } else {
        s
    }
}

/// `s` with every copy of `pat` at its start removed, one after another.
/// An empty `pat` removes nothing.
pub open spec fn without_prefix(s: Seq<char>, pat: Seq<char>) -> Seq<char>
    decreases s.len(),
{
    if pat.len() > 0 && occurs_at(s, 0, pat) {
        without_prefix(s.subrange(pat.len() as int, s.len() as int), pat)
    } else {
        s
    }
}

/// The first position at or after `from` where `pat` stands in `s`.
pub open spec fn first_occurrence(s: Seq<char>, pat: Seq<char>, from: int) -> Option<int>
    decreases s.len() - from,
{
    if from < 0 || from + pat.len() > s.len() {
        None
    } else if occurs_at(s, from, pat) {
        Some(from)
    } else if from >= s.len() {
        None
    } else {
        first_occurrence(s, pat, from + 1)
    }
}

/// The part of `s` from position `at` on, with every copy of `pat` replaced by
/// `to`, scanning from the left and never overlapping. An empty `pat` replaces
/// nothing.
pub open spec fn replaced_from(s: Seq<char>, pat: Seq<char>, to: Seq<char>, at: int) -> Seq<char>
    decreases s.len() - at,
{
    if at < 0 || at >= s.len() {
        Seq::empty()
    } else if pat.len() > 0 && occurs_at(s, at, pat) {
        to + replaced_from(s, pat, to, at + pat.len())
    } else {
        seq![s[at]] + replaced_from(s, pat, to, at + 1)
    }
}

/// `s` with every copy of `pat` replaced by `to`.
pub open spec fn replaced(s: Seq<char>, pat: Seq<char>, to: Seq<char>) -> Seq<char> {
    replaced_from(s, pat, to, 0)
}

/// The first two pieces of `s` when it is cut at every copy of `sep`: what
/// stands before the first copy, and what stands between it and the next copy
/// (or the end). `None` when `sep` is empty or does not occur.
pub open spec fn first_two_pieces(s: Seq<char>, sep: Seq<char>) -> Option<(Seq<char>, Seq<char>)> {
    if sep.len() == 0 {
        None
    } else {
        match first_occurrence(s, sep, 0) {
            None => None,
            Some(k) => {
                let rest = s.subrange(k + sep.len(), s.len() as int);
                match first_occurrence(rest, sep, 0) {
                    None => Some((s.subrange(0, k), rest)),
                    Some(j) => Some((s.subrange(0, k), rest.subrange(0, j))),
                }
            },
        }
    }
}

/// The characters of `s`, in order.
pub fn chars_of(s: &str) -> (chars: Vec<char>)
    ensures
        chars@ == s@,
{
    let mut chars: Vec<char> = Vec::new();
    for c in it: s.chars()
        invariant
            chars@ == it.seq().take(it.index() as int),
    {
        chars.push(c);
    }
    chars
}

/// Whether two texts hold the same characters.
pub fn same_text(a: &str, b: &str) -> (same: bool)
    ensures
        same == (a@ == b@),
{
    let x = chars_of(a);
    let y = chars_of(b);
    if x.len() != y.len() {
        return false;
    }
    let mut i: usize = 0;
    while i < x.len()
        invariant
            i <= x.len(),
            x.len() == y.len(),
            x@ == a@,
            y@ == b@,
            forall|k: int| 0 <= k < i ==> x@[k] == y@[k],
        decreases x.len() - i,
    {
        if x[i] != y[i] {
            assert(x@[i as int] != y@[i as int]);
            return false;
        }
        i += 1;
    }
    assert(x@ =~= y@);
    true
}

/// Whether `pat` stands at position `at` of `text`, looking only at the
/// window of `text` from `lo` up to `hi`.
fn matches_at(text: &Vec<char>, lo: usize, hi: usize, at: usize, pat: &Vec<char>) -> (found: bool)
    requires
        lo <= hi <= text.len(),
        lo <= at,
    ensures
        found == occurs_at(text@.subrange(lo as int, hi as int), at - lo, pat@),
{
    if at > hi || pat.len() > hi - at {
        return false;
    }
    let ghost window = text@.subrange(lo as int, hi as int);
    let mut i: usize = 0;
    while i < pat.len()
        invariant
            i <= pat.len(),
            lo <= at,
            at + pat.len() <= hi <= text.len(),
            window == text@.subrange(lo as int, hi as int),
            forall|k: int| 0 <= k < i ==> text@[at + k] == pat@[k],
        decreases pat.len() - i,
    {
        if text[at + i] != pat[i] {
            assert(window.subrange(at - lo, at - lo + pat.len())[i as int] == text@[at + i]);
            return false;
        }
        i += 1;
    }
    assert(window.subrange(at - lo, at - lo + pat.len()) =~= pat@);
    true
}

/// The first position where `pat` stands in the window of `text` from `lo` up
/// to `hi`, counted from `lo`.
fn find(text: &Vec<char>, lo: usize, hi: usize, pat: &Vec<char>) -> (at: Option<usize>)
    requires
        lo <= hi <= text.len(),
    ensures
        at is Some == first_occurrence(text@.subrange(lo as int, hi as int), pat@, 0) is Some,
        at matches Some(k) ==> first_occurrence(text@.subrange(lo as int, hi as int), pat@, 0)
            == Some(k as int) && k + pat.len() <= hi - lo,
{
    let ghost window = text@.subrange(lo as int, hi as int);
    let mut i: usize = lo;
    loop
        invariant
            lo <= i <= hi <= text.len(),
            window == text@.subrange(lo as int, hi as int),
            first_occurrence(window, pat@, 0) == first_occurrence(window, pat@, i - lo),
        decreases hi - i,
    {
        if pat.len() > hi - i {
            return None;
        }
        if matches_at(text, lo, hi, i, pat) {
            return Some(i - lo);
        }
        if i == hi {
            return None;
        }
        i += 1;
    }
}

/// The text without leading and trailing white space.
pub fn trim(s: &str) -> (t: &str)
    ensures
        t@ == trimmed(s@),
{
    let chars = chars_of(s);
    let n = chars.len();
    let mut from: usize = 0;
    assert(chars@.subrange(0, n as int) =~= chars@);
    while from < n && is_white_space(chars[from])
        invariant
            from <= n,
            n == chars@.len(),
            trimmed_start(chars@) == trimmed_start(chars@.subrange(from as int, n as int)),
        decreases n - from,
    {
        assert(chars@.subrange(from as int, n as int).drop_first() =~= chars@.subrange(
            from + 1,
            n as int,
        ));
        from += 1;
    }
    let ghost rest = chars@.subrange(from as int, n as int);
    assert(trimmed_start(chars@) == rest);
    let mut to: usize = n;
    while to > from && is_white_space(chars[to - 1])
        invariant
            from <= to <= n,
            n == chars@.len(),
            rest == chars@.subrange(from as int, n as int),
            trimmed_end(rest) == trimmed_end(chars@.subrange(from as int, to as int)),
        decreases to - from,
    {
        assert(chars@.subrange(from as int, to as int).drop_last() =~= chars@.subrange(
            from as int,
            to - 1,
        ));
        to -= 1;
    }
    s.substring_char(from, to)
}

/// The text with every copy of `pat` at its end removed.
pub fn trim_end_matches<'a>(s: &'a str, pat: &str) -> (t: &'a str)
    ensures
        t@ == without_suffix(s@, pat@),
{
    let chars = chars_of(s);
    let p = chars_of(pat);
    let mut to: usize = chars.len();
    assert(chars@.subrange(0, to as int) =~= chars@);
    if p.len() == 0 {
        return s.substring_char(0, to);
    }
    while to >= p.len() && matches_at(&chars, 0, to, to - p.len(), &p)
        invariant
            to <= chars.len(),
            p.len() > 0,
            without_suffix(chars@, p@) == without_suffix(chars@.subrange(0, to as int), p@),
        decreases to,
    {
        assert(chars@.subrange(0, to as int).subrange(0, to - p.len()) =~= chars@.subrange(
            0,
            to - p.len(),
        ));
        to -= p.len();
    }
    s.substring_char(0, to)
}

/// The text with every copy of `pat` at its start removed.
pub fn trim_start_matches<'a>(s: &'a str, pat: &str) -> (t: &'a str)
    ensures
        t@ == without_prefix(s@, pat@),
{
    let chars = chars_of(s);
    let p = chars_of(pat);
    let n = chars.len();
    let mut from: usize = 0;
    assert(chars@.subrange(0, n as int) =~= chars@);
    if p.len() == 0 {
        return s.substring_char(0, n);
    }
    while matches_at(&chars, from, n, from, &p)
        invariant
            from <= n,
            n == chars.len(),
            p.len() > 0,
            without_prefix(chars@, p@) == without_prefix(chars@.subrange(from as int, n as int), p@),
        decreases n - from,
    {
        assert(chars@.subrange(from as int, n as int).subrange(p.len() as int, n - from)
            =~= chars@.subrange(from + p.len(), n as int));
        from += p.len();
    }
    s.substring_char(from, n)
}

/// The text with every copy of `pat` replaced by `to`.
pub fn replace(s: &str, pat: &str, to: &str) -> (t: String)
    ensures
        t@ == replaced(s@, pat@, to@),
{
    let chars = chars_of(s);
    let p = chars_of(pat);
    let n = chars.len();
    let mut out = String::new();
    let mut i: usize = 0;
    assert(chars@.subrange(0, n as int) =~= chars@);
    while i < n
        invariant
            i <= n,
            n == chars.len(),
            chars@ == s@,
            p@ == pat@,
            replaced(s@, pat@, to@) == out@ + replaced_from(s@, pat@, to@, i as int),
        decreases n - i,
    {
        let ghost before = out@;
        assert(chars@.subrange(0, n as int) =~= chars@);
        if p.len() > 0 && matches_at(&chars, 0, n, i, &p) {
            out.append(to);
            assert(before + (to@ + replaced_from(s@, pat@, to@, i + p.len())) =~= out@
                + replaced_from(s@, pat@, to@, i + p.len()));
            i += p.len();
        } else {
            let piece = s.substring_char(i, i + 1);
            assert(piece@ =~= seq![s@[i as int]]);
            out.append(piece);
            assert(before + (seq![s@[i as int]] + replaced_from(s@, pat@, to@, i + 1)) =~= out@
                + replaced_from(s@, pat@, to@, i + 1));
            i += 1;
        }
    }
    assert(out@ + Seq::<char>::empty() =~= out@);
    out
}

/// The first two pieces of the text when it is cut at every copy of `sep`.
pub fn split_first_two<'a>(s: &'a str, sep: &str) -> (pieces: Option<(&'a str, &'a str)>)
    ensures
        match pieces {
            Some((a, b)) => first_two_pieces(s@, sep@) == Some((a@, b@)),
            None => first_two_pieces(s@, sep@) is None,
        },
{
    let chars = chars_of(s);
    let p = chars_of(sep);
    let n = chars.len();
    if p.len() == 0 {
        return None;
    }
    assert(chars@.subrange(0, n as int) =~= chars@);
    match find(&chars, 0, n, &p) {
        None => None,
        Some(k) => {
            let start = k + p.len();
            let first = s.substring_char(0, k);
            match find(&chars, start, n, &p) {
                None => Some((first, s.substring_char(start, n))),
                Some(j) => {
                    assert(s@.subrange(start as int, n as int).subrange(0, j as int)
                        =~= s@.subrange(start as int, start + j));
                    Some((first, s.substring_char(start, start + j)))
                },
            }
        },
    }
}

/// The character for a decimal digit.
pub open spec fn digit_char(d: int) -> char {
    if d == 0 {
        '0'
    } else if d == 1 {
        '1'
    } else if d == 2 {
        '2'
    } else if d == 3 {
        '3'
    } else if d == 4 {
        '4'
    } else if d == 5 {
        '5'
    } else if d == 6 {
        '6'
    } else if d == 7 {
        '7'
    } else if d == 8 {
        '8'
    } else {
        '9'
    }
}

/// `n` in decimal notation, without leading zeros.
pub open spec fn decimal(n: nat) -> Seq<char>
    decreases n,
{
    if n < 10 {
        seq![digit_char(n as int)]
    } else {
        decimal(n / 10).push(digit_char((n % 10) as int))
    }
}

/// The last two decimal digits of `n`, with a leading zero where needed.
pub open spec fn two_digits(n: nat) -> Seq<char> {
    seq![digit_char((n / 10 % 10) as int), digit_char((n % 10) as int)]
}

/// The one-character text for a decimal digit.
fn digit_text(d: u64) -> (t: &'static str)
    requires
        d < 10,
    ensures
        t@ == seq![digit_char(d as int)],
{
    let t = if d == 0 {
        "0"
    } else if d == 1 {
        "1"
    } else if d == 2 {
        "2"
    } else if d == 3 {
        "3"
    } else if d == 4 {
        "4"
    } else if d == 5 {
        "5"
    } else if d == 6 {
        "6"
    } else if d == 7 {
        "7"
    } else if d == 8 {
        "8"
    } else {
        "9"
    };
    proof {
        reveal_strlit("0");
        reveal_strlit("1");
        reveal_strlit("2");
        reveal_strlit("3");
        reveal_strlit("4");
        reveal_strlit("5");
        reveal_strlit("6");
        reveal_strlit("7");
        reveal_strlit("8");
        reveal_strlit("9");
        assert(t@ =~= seq![digit_char(d as int)]);
    }
    t
}

/// `n` in decimal notation.
pub fn decimal_text(n: u64) -> (t: String)
    ensures
        t@ == decimal(n as nat),
    decreases n,
{
    if n < 10 {
        String::from_str(digit_text(n))
    } else {
        let mut t = decimal_text(n / 10);
        t.append(digit_text(n % 10));
        assert(t@ =~= decimal((n / 10) as nat).push(digit_char((n % 10) as int)));
        t
    }
}

/// The last two decimal digits of `n`, with a leading zero where needed.
pub fn two_digit_text(n: u32) -> (t: String)
    ensures
        t@ == two_digits(n as nat),
{
    let mut t = String::from_str(digit_text((n / 10 % 10) as u64));
    t.append(digit_text((n % 10) as u64));
    assert(t@ =~= two_digits(n as nat));
    t
}

/// The view of an optional text.
pub open spec fn opt_text(text: Option<String>) -> Option<Seq<char>> {
    match text {
        Some(t) => Some(t@),
        None => None,
    }
}

/// A copy of an optional text.
pub fn clone_text(text: &Option<String>) -> (copy: Option<String>)
    ensures
        opt_text(copy) == opt_text(*text),
{
    match text {
        Some(t) => Some(t.clone()),
        None => None,
    }
}

/// The value of a decimal digit.
pub open spec fn digit_value(c: char) -> Option<nat> {
    if c == '0' {
        Some(0)
    } else if c == '1' {
        Some(1)
    } else if c == '2' {
        Some(2)
    } else if c == '3' {
        Some(3)
    } else if c == '4' {
        Some(4)
    } else if c == '5' {
        Some(5)
    } else if c == '6' {
        Some(6)
    } else if c == '7' {
        Some(7)
    } else if c == '8' {
        Some(8)
    } else if c == '9' {
        Some(9)
    } else {
        None
    }
}

/// The number that a run of decimal digits stands for; `None` where one of
/// the characters is no digit. The empty run stands for 0.
pub open spec fn digits_value(s: Seq<char>) -> Option<nat>
    decreases s.len(),
{
    if s.len() == 0 {
        Some(0)
    } else {
        match (digits_value(s.drop_last()), digit_value(s.last())) {
            (Some(v), Some(d)) => Some(v * 10 + d),
            _ => None,
        }
    }
}

/// The number written in `s`: an optional `+`, then one or more decimal
/// digits and nothing else, standing for a number that fits in 64 bits.
pub open spec fn number_in(s: Seq<char>) -> Option<u64> {
    let digits = if s.len() > 0 && s[0] == '+' {
        s.drop_first()
    } else {
        s
    };
    if digits.len() == 0 {
        None
    } else {
        match digits_value(digits) {
            Some(v) => if v <= u64::MAX {
                Some(v as u64)
            } else {
                None
            },
            None => None,
        }
    }
}

/// A run of digits stands for at least as much as each of its beginnings, and
/// for nothing once a beginning stands for nothing.
proof fn digits_value_grows(s: Seq<char>, upto: int)
    requires
        0 <= upto <= s.len(),
    ensures
        match digits_value(s) {
            Some(v) => digits_value(s.take(upto)) matches Some(p) && p <= v,
            None => true,
        },
    decreases s.len() - upto,
{
    if upto < s.len() {
        digits_value_grows(s, upto + 1);
        assert(s.take(upto + 1).drop_last() =~= s.take(upto));
    } else {
        assert(s.take(upto) =~= s);
    }
}

/// The value of a decimal digit.
fn value_of_digit(c: char) -> (value: Option<u64>)
    ensures
        match value {
            Some(d) => digit_value(c) == Some(d as nat) && d < 10,
            None => digit_value(c) is None,
        },
{
    if c == '0' {
        Some(0)
    } else if c == '1' {
        Some(1)
    } else if c == '2' {
        Some(2)
    } else if c == '3' {
        Some(3)
    } else if c == '4' {
        Some(4)
    } else if c == '5' {
        Some(5)
    } else if c == '6' {
        Some(6)
    } else if c == '7' {
        Some(7)
    } else if c == '8' {
        Some(8)
    } else if c == '9' {
        Some(9)
    } else {
        None
    }
}

/// Reads the number written in a text.
pub fn parse_number(text: &str) -> (number: Option<u64>)
    ensures
        number == number_in(text@),
{
    let chars = chars_of(text);
    let n = chars.len();
    let start: usize = if n > 0 && chars[0] == '+' {
        1
    } else {
        0
    };
    let ghost digits = chars@.subrange(start as int, n as int);
    assert(digits =~= if start == 1 {
        chars@.drop_first()
    } else {
        chars@
    });
    if start == n {
        return None;
    }
    let mut value: u64 = 0;
    let mut i: usize = start;
    assert(digits.take(0) =~= Seq::<char>::empty());
    while i < n
        invariant
            start <= i <= n,
            start < n,
            n == chars.len(),
            digits == chars@.subrange(start as int, n as int),
            digits == (if text@.len() > 0 && text@[0] == '+' {
                text@.drop_first()
            } else {
                text@
            }),
            digits_value(digits.take(i - start)) == Some(value as nat),
        decreases n - i,
    {
        proof {
            assert(digits.take(i - start + 1).drop_last() =~= digits.take(i - start));
            assert(digits.take(i - start + 1).last() == chars@[i as int]);
            digits_value_grows(digits, i - start + 1);
        }
        let digit = match value_of_digit(chars[i]) {
            Some(d) => d,
            None => {
                return None;
            },
        };
        if value > (u64::MAX - digit) / 10 {
            assert(value * 10 + digit > u64::MAX);
            return None;
        }
        value = value * 10 + digit;
        i += 1;
    }
    assert(digits.take(i - start) =~= digits);
    Some(value)
}

/// What `trimmed_start` takes off is white space, and all the white space at
/// the start.
pub proof fn trimmed_start_is_exact(s: Seq<char>)
    ensures
        trimmed_start(s).len() <= s.len(),
        trimmed_start(s) == s.subrange(s.len() - trimmed_start(s).len(), s.len() as int),
        forall|i: int| 0 <= i < s.len() - trimmed_start(s).len() ==> white_space(#[trigger] s[i]),
        trimmed_start(s).len() > 0 ==> !white_space(trimmed_start(s)[0]),
    decreases s.len(),
{
    if s.len() > 0 && white_space(s[0]) {
        let rest = s.drop_first();
        trimmed_start_is_exact(rest);
        let kept = trimmed_start(rest);
        assert(rest.subrange(rest.len() - kept.len(), rest.len() as int) =~= s.subrange(
            s.len() - kept.len(),
            s.len() as int,
        ));
        assert forall|i: int| 0 <= i < s.len() - kept.len() implies white_space(
            #[trigger] s[i],
        ) by {
            if i > 0 {
                assert(s[i] == rest[i - 1]);
            }
        }
    } else {
        assert(s.subrange(0, s.len() as int) =~= s);
    }
}

/// What `trimmed_end` takes off is white space, and all the white space at
/// the end.
pub proof fn trimmed_end_is_exact(s: Seq<char>)
    ensures
        trimmed_end(s).len() <= s.len(),
        trimmed_end(s) == s.subrange(0, trimmed_end(s).len() as int),
        forall|i: int| trimmed_end(s).len() <= i < s.len() ==> white_space(#[trigger] s[i]),
        trimmed_end(s).len() > 0 ==> !white_space(trimmed_end(s).last()),
    decreases s.len(),
{
    if s.len() > 0 && white_space(s.last()) {
        let rest = s.drop_last();
        trimmed_end_is_exact(rest);
        let kept = trimmed_end(rest);
        assert(rest.subrange(0, kept.len() as int) =~= s.subrange(0, kept.len() as int));
        assert forall|i: int| kept.len() <= i < s.len() implies white_space(#[trigger] s[i]) by {
            if i < rest.len() {
                assert(s[i] == rest[i]);
            }
        }
    } else {
        assert(s.subrange(0, s.len() as int) =~= s);
    }
}

/// A number written in decimal is read back as itself.
pub proof fn decimal_round_trip(n: u64)
    ensures
        number_in(decimal(n as nat)) == Some(n),
{
    decimal_is_digits(n as nat);
}

/// The decimal notation of a number is a run of one or more digits that
/// stands for the number.
proof fn decimal_is_digits(n: nat)
    ensures
        decimal(n).len() > 0,
        decimal(n)[0] != '+',
        digits_value(decimal(n)) == Some(n),
    decreases n,
{
    if n < 10 {
        assert(seq![digit_char(n as int)].drop_last() =~= Seq::<char>::empty());
        assert(digits_value(Seq::<char>::empty()) == Some(0nat));
    } else {
        decimal_is_digits(n / 10);
        let before = decimal(n / 10);
        let d = digit_char((n % 10) as int);
        assert(before.push(d).drop_last() =~= before);
        assert(before.push(d)[0] == before[0]);
        assert(digit_value(d) == Some(n % 10));
    }
}

/// What `first_occurrence` finds is the first position at or after `from`
/// where `pat` stands in `s`; where it finds none, there is none.
pub proof fn first_occurrence_is_first(s: Seq<char>, pat: Seq<char>, from: int)
    requires
        0 <= from,
    ensures
        match first_occurrence(s, pat, from) {
            Some(k) => from <= k && occurs_at(s, k, pat) && forall|j: int|
                from <= j < k ==> !occurs_at(s, j, pat),
            None => forall|j: int| from <= j ==> !occurs_at(s, j, pat),
        },
    decreases s.len() - from,
{
    if from + pat.len() <= s.len() && !occurs_at(s, from, pat) && from < s.len() {
        first_occurrence_is_first(s, pat, from + 1);
    } else if from + pat.len() <= s.len() && !occurs_at(s, from, pat) {
        assert(s.subrange(from, from + pat.len()) =~= pat);
    }
}

} // verus!
