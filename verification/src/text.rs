//! Text primitives: decimal numbers, whitespace trimming and lowercase hex.
//!
//! Each of these has the behaviour of its counterpart in std (`u64::to_string`,
//! `str::trim`, `u64::from_str`, `{:02x}`), stated here as a spec function and
//! proved of the executable code.
use vstd::prelude::*;
use vstd::string::*;

verus! {

// ---------------------------------------------------------------------------
// Characters
// ---------------------------------------------------------------------------

/// The Unicode `White_Space` property, which `char::is_whitespace` and
/// `str::trim` go by.
pub open spec fn is_white_space(c: char) -> bool {
    let u = c as u32;
    ||| (0x9 <= u && u <= 0xd)
    ||| u == 0x20
    ||| u == 0x85
    ||| u == 0xa0
    ||| u == 0x1680
    ||| (0x2000 <= u && u <= 0x200a)
    ||| u == 0x2028
    ||| u == 0x2029
    ||| u == 0x202f
    ||| u == 0x205f
    ||| u == 0x3000
}

/// An ASCII decimal digit, the only digits that `u64::from_str` accepts.
pub open spec fn is_decimal_digit(c: char) -> bool {
    0x30 <= (c as u32) && (c as u32) <= 0x39
}

/// The value of a decimal digit.
pub open spec fn digit_value(c: char) -> nat {
    ((c as u32) - 0x30) as nat
}

/// The lowercase character of a hex digit below 16 (decimal digits included).
pub open spec fn hex_char(d: nat) -> char {
    if d == 0 {
        '0'
    } else if d == 1 {
        '1'
    } else if d == 2 {
        '2'
    } else if d == 3 {
        '3'
    } else if d == 4 {
        '4'
    } else if d == 5 {
        '5'
    } else if d == 6 {
        '6'
    } else if d == 7 {
        '7'
    } else if d == 8 {
        '8'
    } else if d == 9 {
        '9'
    } else if d == 10 {
        'a'
    } else if d == 11 {
        'b'
    } else if d == 12 {
        'c'
    } else if d == 13 {
        'd'
    } else if d == 14 {
        'e'
    } else {
        'f'
    }
}

pub fn is_white_space_char(c: char) -> (r: bool)
    ensures
        r == is_white_space(c),
{
    let u = c as u32;
    (0x9 <= u && u <= 0xd) || u == 0x20 || u == 0x85 || u == 0xa0 || u == 0x1680 || (0x2000
        <= u && u <= 0x200a) || u == 0x2028 || u == 0x2029 || u == 0x202f || u == 0x205f || u
        == 0x3000
}

/// The character of a hex digit.
pub fn hex_digit(d: u8) -> (c: char)
    requires
        d < 16,
    ensures
        c == hex_char(d as nat),
{
    if d == 0 {
        '0'
    } else if d == 1 {
        '1'
    } else if d == 2 {
        '2'
    } else if d == 3 {
        '3'
    } else if d == 4 {
        '4'
    } else if d == 5 {
        '5'
    } else if d == 6 {
        '6'
    } else if d == 7 {
        '7'
    } else if d == 8 {
        '8'
    } else if d == 9 {
        '9'
    } else if d == 10 {
        'a'
    } else if d == 11 {
        'b'
    } else if d == 12 {
        'c'
    } else if d == 13 {
        'd'
    } else if d == 14 {
        'e'
    } else {
        'f'
    }
}

/// Appends one character to a string (`String::push`).
#[verifier::external_body]
pub(crate) fn push_char(s: &mut String, c: char)
    ensures
        final(s)@ == old(s)@.push(c),
{
    s.push(c)
}

/// The characters of a string slice, in order.
pub fn chars_of(s: &str) -> (v: Vec<char>)
    ensures
        v@ == s@,
{
    let n = s.unicode_len();
    let mut v: Vec<char> = Vec::new();
    let mut i: usize = 0;
    while i < n
        invariant
            n == s@.len(),
            i <= n,
            v@ == s@.take(i as int),
        decreases n - i,
    {
        let c = s.get_char(i);
        v.push(c);
        assert(s@.take(i + 1) =~= s@.take(i as int).push(c));
        i = i + 1;
    }
    assert(s@.take(n as int) =~= s@);
    v
}

/// A string holding exactly the given characters.
pub fn string_of(cs: &Vec<char>) -> (s: String)
    ensures
        s@ == cs@,
{
    let mut s = String::new();
    let mut i: usize = 0;
    while i < cs.len()
        invariant
            i <= cs.len(),
            s@ == cs@.take(i as int),
        decreases cs.len() - i,
    {
        push_char(&mut s, cs[i]);
        assert(cs@.take(i + 1) =~= cs@.take(i as int).push(cs@[i as int]));
        i = i + 1;
    }
    assert(cs@.take(cs.len() as int) =~= cs@);
    s
}

/// Whether two string slices hold the same text (`str == str`).
pub fn str_eq(a: &str, b: &str) -> (r: bool)
    ensures
        r == (a@ == b@),
{
    let x = chars_of(a);
    let y = chars_of(b);
    if x.len() != y.len() {
        return false;
    }
    let mut i: usize = 0;
    while i < x.len()
        invariant
            x@ == a@,
            y@ == b@,
            x.len() == y.len(),
            i <= x.len(),
            x@.take(i as int) == y@.take(i as int),
        decreases x.len() - i,
    {
        if x[i] != y[i] {
            assert(x@[i as int] != y@[i as int]);
            return false;
        }
        assert(x@.take(i + 1) =~= x@.take(i as int).push(x@[i as int]));
        assert(y@.take(i + 1) =~= y@.take(i as int).push(y@[i as int]));
        i = i + 1;
    }
    assert(x@.take(x.len() as int) =~= x@);
    assert(y@.take(y.len() as int) =~= y@);
    true
}

/// `t` occurs in `s` as a contiguous piece (`str::contains`).
pub open spec fn contains_text(s: Seq<char>, t: Seq<char>) -> bool {
    exists|i: int| 0 <= i && i + t.len() <= s.len() && #[trigger] s.subrange(i, i + t.len()) == t
}

/// A text contains whatever stands in its middle.
pub proof fn lemma_contains_middle(p: Seq<char>, x: Seq<char>, r: Seq<char>)
    ensures
        contains_text(p + x + r, x),
{
    let s = p + x + r;
    assert(s.subrange(p.len() as int, (p.len() + x.len()) as int) =~= x);
}

// ---------------------------------------------------------------------------
// Trimming
// ---------------------------------------------------------------------------

/// `str::trim_start`: leading whitespace removed.
pub open spec fn trim_start(s: Seq<char>) -> Seq<char>
    decreases s.len(),
{
    if s.len() > 0 && is_white_space(s[0]) {
        trim_start(s.drop_first())
    } else {
        s
    }
}

/// `str::trim_end`: trailing whitespace removed.
pub open spec fn trim_end(s: Seq<char>) -> Seq<char>
    decreases s.len(),
{
    if s.len() > 0 && is_white_space(s.last()) {
        trim_end(s.drop_last())
    } else {
        s
    }
}

/// `str::trim`: leading and trailing whitespace removed.
pub open spec fn trim(s: Seq<char>) -> Seq<char> {
    trim_end(trim_start(s))
}

proof fn lemma_trim_start_at(s: Seq<char>, i: int)
    requires
        0 <= i <= s.len(),
        forall|j: int| 0 <= j < i ==> is_white_space(#[trigger] s[j]),
        i == s.len() || !is_white_space(s[i]),
    ensures
        trim_start(s) == s.subrange(i, s.len() as int),
    decreases i,
{
    if i > 0 {
        let t = s.drop_first();
        assert forall|j: int| 0 <= j < i - 1 implies is_white_space(#[trigger] t[j]) by {
            assert(t[j] == s[j + 1]);
        }
        lemma_trim_start_at(t, i - 1);
        assert(t.subrange(i - 1, t.len() as int) =~= s.subrange(i, s.len() as int));
    } else {
        assert(s.subrange(0, s.len() as int) =~= s);
    }
}

proof fn lemma_trim_end_at(s: Seq<char>, e: int)
    requires
        0 <= e <= s.len(),
        forall|j: int| e <= j < s.len() ==> is_white_space(#[trigger] s[j]),
        e == 0 || !is_white_space(s[e - 1]),
    ensures
        trim_end(s) == s.subrange(0, e),
    decreases s.len() - e,
{
    if e < s.len() {
        let t = s.drop_last();
        assert forall|j: int| e <= j < t.len() implies is_white_space(#[trigger] t[j]) by {
            assert(t[j] == s[j]);
        }
        lemma_trim_end_at(t, e);
        assert(t.subrange(0, e) =~= s.subrange(0, e));
    } else {
        assert(s.subrange(0, e) =~= s);
    }
}

/// The bounds of `trim(cs)` within `cs`.
pub fn trim_bounds(cs: &Vec<char>) -> (b: (usize, usize))
    ensures
        b.0 <= b.1 <= cs.len(),
        cs@.subrange(b.0 as int, b.1 as int) == trim(cs@),
{
    let n = cs.len();
    let mut i: usize = 0;
    while i < n && is_white_space_char(cs[i])
        invariant
            n == cs.len(),
            i <= n,
            forall|j: int| 0 <= j < i ==> is_white_space(#[trigger] cs@[j]),
        decreases n - i,
    {
        i = i + 1;
    }
    let mut e: usize = n;
    while e > i && is_white_space_char(cs[e - 1])
        invariant
            n == cs.len(),
            i <= e <= n,
            forall|j: int| e <= j < n ==> is_white_space(#[trigger] cs@[j]),
        decreases e,
    {
        e = e - 1;
    }
    proof {
        lemma_trim_start_at(cs@, i as int);
        let t = cs@.subrange(i as int, n as int);
        assert forall|j: int| e - i <= j < t.len() implies is_white_space(#[trigger] t[j]) by {
            assert(t[j] == cs@[i + j]);
        }
        if e > i {
            assert(t[e - i - 1] == cs@[e - 1]);
        }
        lemma_trim_end_at(t, e - i);
        assert(t.subrange(0, e - i) =~= cs@.subrange(i as int, e as int));
    }
    (i, e)
}

// ---------------------------------------------------------------------------
// Decimal numbers
// ---------------------------------------------------------------------------

/// Every character is a decimal digit.
pub open spec fn all_decimal_digits(s: Seq<char>) -> bool {
    forall|i: int| 0 <= i < s.len() ==> is_decimal_digit(#[trigger] s[i])
}

/// The number that a string of decimal digits denotes.
pub open spec fn decimal_value(s: Seq<char>) -> nat
    decreases s.len(),
{
    if s.len() == 0 {
        0
    } else {
        decimal_value(s.drop_last()) * 10 + digit_value(s.last())
    }
}

/// The digits after an optional leading `+`.
pub open spec fn unsigned_digits(s: Seq<char>) -> Seq<char> {
    if s.len() > 0 && s[0] == '+' {
        s.drop_first()
    } else {
        s
    }
}

/// `u64::from_str`: an optional `+`, then at least one ASCII digit, with a value
/// that fits in 64 bits.
pub open spec fn parsed_u64(s: Seq<char>) -> Option<u64> {
    let d = unsigned_digits(s);
    if d.len() > 0 && all_decimal_digits(d) && decimal_value(d) <= u64::MAX {
        Some(decimal_value(d) as u64)
    } else {
        None
    }
}

/// `u64::to_string`: the decimal digits of `n`, without leading zeros.
pub open spec fn decimal_text(n: nat) -> Seq<char>
    decreases n,
{
    if n < 10 {
        seq![hex_char(n)]
    } else {
        decimal_text(n / 10).push(hex_char(n % 10))
    }
}

proof fn lemma_decimal_prefix_le(s: Seq<char>, m: int)
    requires
        0 <= m <= s.len(),
    ensures
        decimal_value(s.take(m)) <= decimal_value(s),
    decreases s.len(),
{
    if m < s.len() {
        lemma_decimal_prefix_le(s.drop_last(), m);
        assert(s.drop_last().take(m) =~= s.take(m));
    } else {
        assert(s.take(m) =~= s);
    }
}

proof fn lemma_decimal_digit_roundtrip(d: nat)
    requires
        d < 10,
    ensures
        is_decimal_digit(hex_char(d)),
        digit_value(hex_char(d)) == d,
        !is_white_space(hex_char(d)),
        hex_char(d) != '+',
{
}

/// The decimal text of `n` is a string of digits with value `n`.
pub proof fn lemma_decimal_text(n: nat)
    ensures
        decimal_text(n).len() > 0,
        all_decimal_digits(decimal_text(n)),
        decimal_value(decimal_text(n)) == n,
    decreases n,
{
    if n < 10 {
        lemma_decimal_digit_roundtrip(n);
        let t = decimal_text(n);
        assert(t.drop_last() =~= Seq::<char>::empty());
        assert(decimal_value(t.drop_last()) == 0);
        assert(t.last() == hex_char(n));
    } else {
        lemma_decimal_text(n / 10);
        lemma_decimal_digit_roundtrip(n % 10);
        let t = decimal_text(n);
        assert(t.drop_last() =~= decimal_text(n / 10));
        assert(t.last() == hex_char(n % 10));
        assert(decimal_value(t) == decimal_value(decimal_text(n / 10)) * 10 + digit_value(
            hex_char(n % 10),
        ));
        assert(n / 10 * 10 + n % 10 == n);
    }
}

/// Reading back the decimal text of a number gives the number, also after
/// surrounding whitespace is trimmed.
pub proof fn lemma_parse_decimal_text(n: u64)
    ensures
        trim(decimal_text(n as nat)) == decimal_text(n as nat),
        parsed_u64(trim(decimal_text(n as nat))) == Some(n),
{
    let t = decimal_text(n as nat);
    lemma_decimal_text(n as nat);
    assert(!is_white_space(t[0]));
    assert(!is_white_space(t[t.len() - 1]));
    lemma_trim_start_at(t, 0);
    assert(t.subrange(0, t.len() as int) =~= t);
    lemma_trim_end_at(t, t.len() as int);
    assert(t[0] != '+');
}

/// `u64::to_string`.
pub fn decimal_string(n: u64) -> (s: String)
    ensures
        s@ == decimal_text(n as nat),
    decreases n,
{
    if n < 10 {
        let mut s = String::new();
        push_char(&mut s, hex_digit(n as u8));
        assert(s@ =~= decimal_text(n as nat));
        s
    } else {
        let mut s = decimal_string(n / 10);
        push_char(&mut s, hex_digit((n % 10) as u8));
        s
    }
}

/// `u64::from_str` applied to `cs[lo..hi]`.
pub fn parse_u64_in(cs: &Vec<char>, lo: usize, hi: usize) -> (r: Option<u64>)
    requires
        lo <= hi <= cs.len(),
    ensures
        r == parsed_u64(cs@.subrange(lo as int, hi as int)),
{
    let ghost s = cs@.subrange(lo as int, hi as int);
    let mut start = lo;
    if lo < hi && cs[lo] == '+' {
        start = lo + 1;
    }
    let ghost d = cs@.subrange(start as int, hi as int);
    assert(d =~= unsigned_digits(s));
    if start == hi {
        return None;
    }
    let mut value: u64 = 0;
    let mut k: usize = start;
    while k < hi
        invariant
            lo <= start <= k <= hi <= cs.len(),
            d == cs@.subrange(start as int, hi as int),
            s == cs@.subrange(lo as int, hi as int),
            d == unsigned_digits(s),
            d.len() > 0,
            all_decimal_digits(d.take(k - start)),
            value == decimal_value(d.take(k - start)),
        decreases hi - k,
    {
        let c = cs[k];
        let ghost i = k - start;
        assert(d[i] == c);
        let u = c as u32;
        if !(0x30 <= u && u <= 0x39) {
            assert(!all_decimal_digits(d));
            return None;
        }
        let digit = (u - 0x30) as u64;
        assert(d.take(i + 1).drop_last() =~= d.take(i));
        assert(decimal_value(d.take(i + 1)) == decimal_value(d.take(i)) * 10 + digit);
        assert(all_decimal_digits(d.take(i + 1)));
        match value.checked_mul(10) {
            Some(v10) => match v10.checked_add(digit) {
                Some(v) => {
                    value = v;
                },
                None => {
                    proof {
                        lemma_decimal_prefix_le(d, i + 1);
                    }
                    return None;
                },
            },
            None => {
                proof {
                    lemma_decimal_prefix_le(d, i + 1);
                }
                return None;
            },
        }
        k = k + 1;
    }
    assert(d.take(hi - start) =~= d);
    Some(value)
}

/// `s.trim().parse::<u64>()`.
pub fn parse_trimmed_u64(s: &str) -> (r: Option<u64>)
    ensures
        r == parsed_u64(trim(s@)),
{
    let cs = chars_of(s);
    let (lo, hi) = trim_bounds(&cs);
    parse_u64_in(&cs, lo, hi)
}

/// `s.parse::<u64>()`.
pub fn parse_u64(s: &str) -> (r: Option<u64>)
    ensures
        r == parsed_u64(s@),
{
    let cs = chars_of(s);
    assert(cs@.subrange(0, cs@.len() as int) =~= cs@);
    parse_u64_in(&cs, 0, cs.len())
}

} // verus!
