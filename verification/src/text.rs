//! Characters and character sequences: white space, letter case, decimal
//! numbers and padding.
//!
//! The specifications speak of `Seq<char>`, the view of `str` and `String`.

use vstd::prelude::*;
use vstd::string::*;

verus! {

/// `String::push` of std: appends one character.
pub assume_specification[ String::push ](s: &mut String, c: char)
    ensures
        final(s)@ == old(s)@.push(c),
;

/// Whether `c` has the Unicode property White_Space.
pub open spec fn is_white_space(c: char) -> bool {
    let n = c as u32;
    ||| 0x09 <= n <= 0x0D
    ||| n == 0x20
    ||| n == 0x85
    ||| n == 0xA0
    ||| n == 0x1680
    ||| 0x2000 <= n <= 0x200A
    ||| n == 0x2028
    ||| n == 0x2029
    ||| n == 0x202F
    ||| n == 0x205F
    ||| n == 0x3000
}

/// `s` without the white space at its start.
pub open spec fn trim_start(s: Seq<char>) -> Seq<char>
    decreases s.len(),
{
    if s.len() > 0 && is_white_space(s.first()) {
        trim_start(s.drop_first())
    } else {
        s
    }
}

/// `s` without the white space at its end.
pub open spec fn trim_end(s: Seq<char>) -> Seq<char>
    decreases s.len(),
{
    if s.len() > 0 && is_white_space(s.last()) {
        trim_end(s.drop_last())
    } else {
        s
    }
}

/// `s` without the white space at its start and at its end.
pub open spec fn trimmed(s: Seq<char>) -> Seq<char> {
    trim_end(trim_start(s))
}

/// The upper-case form of an ASCII letter; every other character as it is.
pub open spec fn to_upper(c: char) -> char {
    if 'a' <= c <= 'z' {
        ((c as u32) - 32) as char
    } else {
        c
    }
}

/// The lower-case form of an ASCII letter; every other character as it is.
pub open spec fn to_lower(c: char) -> char {
    if 'A' <= c <= 'Z' {
        ((c as u32) + 32) as char
    } else {
        c
    }
}

/// `s` with its ASCII letters in upper case.
pub open spec fn upper(s: Seq<char>) -> Seq<char> {
    Seq::new(s.len(), |i: int| to_upper(s[i]))
}

/// `s` with its ASCII letters in lower case.
pub open spec fn lower(s: Seq<char>) -> Seq<char> {
    Seq::new(s.len(), |i: int| to_lower(s[i]))
}

/// Whether `c` is one of the ten ASCII digits.
pub open spec fn is_digit(c: char) -> bool {
    '0' <= c <= '9'
}

/// The number that the digit `c` stands for.
pub open spec fn digit_value(c: char) -> nat {
    ((c as u32) - 0x30) as nat
}

/// The digit that stands for `d`, for `d` below ten.
pub open spec fn digit_char(d: nat) -> char {
    (0x30 + d) as char
}

/// Whether `s` holds digits only.
pub open spec fn all_digits(s: Seq<char>) -> bool {
    forall|i: int| 0 <= i < s.len() ==> is_digit(#[trigger] s[i])
}

/// The number of digits at the start of `s`.
pub open spec fn digit_run(s: Seq<char>) -> nat
    decreases s.len(),
{
    if s.len() > 0 && is_digit(s.first()) {
        1 + digit_run(s.drop_first())
    } else {
        0
    }
}

/// The number that the digits of `s` denote in base ten; zero for no
/// digits.
pub open spec fn decimal_value(s: Seq<char>) -> nat
    decreases s.len(),
{
    if s.len() == 0 {
        0
    } else {
        10 * decimal_value(s.drop_last()) + digit_value(s.last())
    }
}

/// `n` in base ten, without leading zeros.
pub open spec fn decimal_text(n: nat) -> Seq<char>
    decreases n,
{
    if n < 10 {
        seq![digit_char(n)]
    } else {
        decimal_text(n / 10).push(digit_char(n % 10))
    }
}

/// `count` spaces.
pub open spec fn spaces(count: nat) -> Seq<char> {
    Seq::new(count, |i: int| ' ')
}

/// `s` with spaces in front, as many as it takes to reach `width`
/// characters.
pub open spec fn pad_left(s: Seq<char>, width: nat) -> Seq<char> {
    if s.len() >= width {
        s
    } else {
        spaces((width - s.len()) as nat) + s
    }
}

/// `s` with spaces behind, as many as it takes to reach `width` characters.
pub open spec fn pad_right(s: Seq<char>, width: nat) -> Seq<char> {
    if s.len() >= width {
        s
    } else {
        s + spaces((width - s.len()) as nat)
    }
}

/// The characters of `s`.
pub fn chars_of(s: &str) -> (v: Vec<char>)
    ensures
        v@ == s@,
{
    let mut v: Vec<char> = Vec::new();
    for c in it: s.chars()
        invariant
            it.seq() == s@,
            v@ == s@.take(it.index()),
    {
        v.push(c);
    }
    assert(s@.take(s@.len() as int) == s@);
    v
}

/// The characters of `v` from `start` up to `end`, as a string.
pub fn text_of(v: &Vec<char>, start: usize, end: usize) -> (s: String)
    requires
        start <= end <= v@.len(),
    ensures
        s@ == v@.subrange(start as int, end as int),
{
    let mut s = String::new();
    let mut i: usize = start;
    while i < end
        invariant
            start <= i <= end <= v@.len(),
            s@ == v@.subrange(start as int, i as int),
        decreases end - i,
    {
        s.push(v[i]);
        i += 1;
    }
    s
}

/// Whether `c` is white space.
pub fn is_space(c: char) -> (r: bool)
    ensures
        r == is_white_space(c),
{
    let n: u32 = c as u32;
    (0x09 <= n && n <= 0x0D) || n == 0x20 || n == 0x85 || n == 0xA0 || n == 0x1680 || (0x2000
        <= n && n <= 0x200A) || n == 0x2028 || n == 0x2029 || n == 0x202F || n == 0x205F || n
        == 0x3000
}

/// Where `v` without the white space at both ends starts and ends.
pub fn trim_bounds(v: &Vec<char>) -> (r: (usize, usize))
    ensures
        r.0 <= r.1 <= v@.len(),
        v@.subrange(r.0 as int, r.1 as int) == trimmed(v@),
{
    let len = v.len();
    let mut a: usize = 0;
    assert(v@.skip(0) == v@);
    while a < len && is_space(v[a])
        invariant
            a <= len == v@.len(),
            trim_start(v@) == trim_start(v@.skip(a as int)),
        decreases len - a,
    {
        assert(v@.skip(a as int).drop_first() == v@.skip(a + 1));
        a += 1;
    }
    assert(trim_start(v@) == v@.skip(a as int));
    let mut b: usize = len;
    assert(v@.skip(a as int) == v@.subrange(a as int, b as int));
    while b > a && is_space(v[b - 1])
        invariant
            a <= b <= len == v@.len(),
            trimmed(v@) == trim_end(v@.subrange(a as int, b as int)),
        decreases b,
    {
        assert(v@.subrange(a as int, b as int).drop_last() == v@.subrange(a as int, b - 1));
        b -= 1;
    }
    (a, b)
}

/// `s` without the white space at its start and at its end.
pub fn trim(s: &str) -> (r: String)
    ensures
        r@ == trimmed(s@),
{
    let v = chars_of(s);
    let (a, b) = trim_bounds(&v);
    text_of(&v, a, b)
}

/// Whether `c` is the upper-case ASCII letter `letter` or its lower-case
/// form.
pub fn is_letter(c: char, letter: char) -> (r: bool)
    requires
        'A' <= letter <= 'Z',
    ensures
        r == (to_upper(c) == letter),
        r == (to_lower(c) == to_lower(letter)),
{
    c == letter || (c as u32) == (letter as u32) + 32
}

/// The digit for `d`.
pub fn digit_of(d: u8) -> (c: char)
    requires
        d < 10,
    ensures
        c == digit_char(d as nat),
{
    (0x30 + d) as char
}

/// `n` in base ten.
pub fn decimal_string(n: u128) -> (s: String)
    ensures
        s@ == decimal_text(n as nat),
    decreases n,
{
    if n < 10 {
        let mut s = String::new();
        s.push(digit_of(n as u8));
        s
    } else {
        let mut s = decimal_string(n / 10);
        s.push(digit_of((n % 10) as u8));
        s
    }
}

/// Appends `count` spaces to `out`.
pub fn push_spaces(out: &mut String, count: usize)
    ensures
        final(out)@ == old(out)@ + spaces(count as nat),
{
    let mut i: usize = 0;
    while i < count
        invariant
            i <= count,
            out@ == old(out)@ + spaces(i as nat),
        decreases count - i,
    {
        out.push(' ');
        i += 1;
        assert(spaces(i as nat) == spaces((i - 1) as nat).push(' '));
    }
}

/// Whether `c` is a digit.
pub fn is_digit_char(c: char) -> (r: bool)
    ensures
        r == is_digit(c),
{
    '0' <= c && c <= '9'
}

/// Reads the digits of `v` from `start` on. Returns where they end and the
/// number they denote, or `None` for the number where it exceeds `max`.
pub fn parse_digits(v: &Vec<char>, start: usize, max: u64) -> (r: (usize, Option<u64>))
    requires
        start <= v@.len(),
    ensures
        start <= r.0 <= v@.len(),
        r.0 - start == digit_run(v@.skip(start as int)),
        all_digits(v@.subrange(start as int, r.0 as int)),
        r.1 is Some <==> decimal_value(v@.subrange(start as int, r.0 as int)) <= max,
        r.1 matches Some(n) ==> n == decimal_value(v@.subrange(start as int, r.0 as int)),
{
    let len = v.len();
    let mut i: usize = start;
    let mut value: Option<u64> = Some(0);
    while i < len && is_digit_char(v[i])
        invariant
            start <= i <= len == v@.len(),
            digit_run(v@.skip(start as int)) == (i - start) + digit_run(v@.skip(i as int)),
            all_digits(v@.subrange(start as int, i as int)),
            value is Some <==> decimal_value(v@.subrange(start as int, i as int)) <= max,
            value matches Some(n) ==> n == decimal_value(v@.subrange(start as int, i as int)),
        decreases len - i,
    {
        let d: u64 = ((v[i] as u32) - 0x30) as u64;
        proof {
            let before = v@.subrange(start as int, i as int);
            let now = v@.subrange(start as int, i + 1);
            assert(now.drop_last() == before);
            assert(now.last() == v@[i as int]);
            assert(decimal_value(now) == 10 * decimal_value(before) + d);
            assert(v@.skip(i as int).drop_first() == v@.skip(i + 1));
            assert forall|j: int| 0 <= j < now.len() implies is_digit(#[trigger] now[j]) by {
                if j < before.len() {
                    assert(now[j] == before[j]);
                }
            }
        }
        value = match value {
            Some(n) => if d <= max && n <= (max - d) / 10 {
                Some(10 * n + d)
            } else {
                None
            },
            None => None,
        };
        i += 1;
    }
    (i, value)
}

/// Whether `a` comes before `b` in the order of dictionaries, character by
/// character, a character being less than another where its code is.
pub open spec fn lex_less(a: Seq<char>, b: Seq<char>) -> bool
    decreases a.len(),
{
    if b.len() == 0 {
        false
    } else if a.len() == 0 {
        true
    } else if a.first() != b.first() {
        a.first() < b.first()
    } else {
        lex_less(a.drop_first(), b.drop_first())
    }
}

/// How one text stands to another.
#[derive(Clone, Copy, Debug, PartialEq, Eq, Structural)]
pub enum Order {
    Before,
    Same,
    After,
}

/// No text comes before itself.
pub proof fn lemma_lex_less_irreflexive(a: Seq<char>)
    ensures
        !lex_less(a, a),
    decreases a.len(),
{
    if a.len() > 0 {
        lemma_lex_less_irreflexive(a.drop_first());
    }
}

/// What comes before a text comes before all that the text comes before.
pub proof fn lemma_lex_less_transitive(a: Seq<char>, b: Seq<char>, c: Seq<char>)
    requires
        lex_less(a, b),
        lex_less(b, c),
    ensures
        lex_less(a, c),
    decreases a.len(),
{
    if a.len() > 0 && a.first() == b.first() && b.first() == c.first() {
        lemma_lex_less_transitive(a.drop_first(), b.drop_first(), c.drop_first());
    }
}

/// How `a` stands to `b` in the order of dictionaries.
pub fn order_of(a: &str, b: &str) -> (r: Order)
    ensures
        r == Order::Before <==> lex_less(a@, b@),
        r == Order::Same <==> a@ == b@,
        r == Order::After <==> lex_less(b@, a@),
{
    let x = chars_of(a);
    let y = chars_of(b);
    let mut i: usize = 0;
    proof {
        assert(x@.skip(0) == x@);
        assert(y@.skip(0) == y@);
        lemma_lex_less_irreflexive(a@);
    }
    while i < x.len() && i < y.len()
        invariant
            i <= x@.len(),
            i <= y@.len(),
            x@ == a@,
            y@ == b@,
            x@.take(i as int) == y@.take(i as int),
            lex_less(x@, y@) == lex_less(x@.skip(i as int), y@.skip(i as int)),
            lex_less(y@, x@) == lex_less(y@.skip(i as int), x@.skip(i as int)),
        decreases x@.len() - i,
    {
        proof {
            assert(x@.skip(i as int).drop_first() == x@.skip(i + 1));
            assert(y@.skip(i as int).drop_first() == y@.skip(i + 1));
            assert(x@.skip(i as int).first() == x@[i as int]);
            assert(y@.skip(i as int).first() == y@[i as int]);
        }
        if x[i] < y[i] {
            assert(x@ != y@);
            return Order::Before;
        }
        if y[i] < x[i] {
            assert(x@ != y@);
            return Order::After;
        }
        proof {
            assert(x@.take(i + 1) == x@.take(i as int).push(x@[i as int]));
            assert(y@.take(i + 1) == y@.take(i as int).push(y@[i as int]));
        }
        i += 1;
    }
    if x.len() == y.len() {
        proof {
            assert(x@.take(i as int) == x@);
            assert(y@.take(i as int) == y@);
        }
        Order::Same
    } else if i == x.len() {
        Order::Before
    } else {
        Order::After
    }
}

/// The digit run of a text lies within the text and holds digits only, and
/// what follows it is no digit.
pub proof fn lemma_digit_run_holds_digits(s: Seq<char>)
    ensures
        digit_run(s) <= s.len(),
        all_digits(s.take(digit_run(s) as int)),
        digit_run(s) < s.len() ==> !is_digit(s[digit_run(s) as int]),
    decreases s.len(),
{
    if s.len() > 0 && is_digit(s.first()) {
        let rest = s.drop_first();
        lemma_digit_run_holds_digits(rest);
        let n = digit_run(s) as int;
        if n < s.len() {
            assert(s[n] == rest[n - 1]);
        }
        assert forall|i: int| 0 <= i < s.take(n).len() implies is_digit(#[trigger] s.take(n)[i]) by {
            if i > 0 {
                assert(s.take(n)[i] == rest.take(n - 1)[i - 1]);
            }
        }
    }
}

/// The text of a number holds digits only and denotes the number.
pub proof fn lemma_decimal_text_denotes(n: nat)
    ensures
        decimal_text(n).len() > 0,
        all_digits(decimal_text(n)),
        decimal_value(decimal_text(n)) == n,
    decreases n,
{
    if n < 10 {
        assert(decimal_text(n).drop_last() == Seq::<char>::empty());
        assert(decimal_value(Seq::<char>::empty()) == 0);
    } else {
        lemma_decimal_text_denotes(n / 10);
        let t = decimal_text(n);
        assert(t.drop_last() == decimal_text(n / 10));
        assert(t.last() == digit_char(n % 10));
        assert forall|i: int| 0 <= i < t.len() implies is_digit(#[trigger] t[i]) by {
            if i < t.len() - 1 {
                assert(t[i] == decimal_text(n / 10)[i]);
            }
        }
    }
}

/// Text without white space at its ends has no white space at its ends.
pub proof fn lemma_trimmed_is_trim(s: Seq<char>)
    ensures
        trimmed(trimmed(s)) == trimmed(s),
        trimmed(s).len() > 0 ==> !is_white_space(trimmed(s).first()) && !is_white_space(
            trimmed(s).last(),
        ),
{
    lemma_trim_start_ends(s);
    let t = trim_start(s);
    lemma_trim_end_ends(t);
    let u = trim_end(t);
    if u.len() > 0 {
        assert(u.first() == t.first());
        assert(trim_start(u) == u);
        assert(trim_end(u) == u);
    } else {
        assert(trim_start(u) == u);
        assert(trim_end(u) == u);
    }
}

/// What `trim_start` leaves starts with no white space and is a tail of
/// the text.
proof fn lemma_trim_start_ends(s: Seq<char>)
    ensures
        trim_start(s).len() > 0 ==> !is_white_space(trim_start(s).first()),
        trim_start(s).len() <= s.len(),
    decreases s.len(),
{
    if s.len() > 0 && is_white_space(s.first()) {
        lemma_trim_start_ends(s.drop_first());
    }
}

/// What `trim_end` leaves ends with no white space and is a head of the
/// text.
proof fn lemma_trim_end_ends(s: Seq<char>)
    ensures
        trim_end(s).len() > 0 ==> !is_white_space(trim_end(s).last()),
        trim_end(s).len() <= s.len(),
        trim_end(s) == s.take(trim_end(s).len() as int),
    decreases s.len(),
{
    if s.len() > 0 && is_white_space(s.last()) {
        lemma_trim_end_ends(s.drop_last());
        let n = trim_end(s).len() as int;
        assert(s.drop_last().take(n) == s.take(n));
    } else {
        assert(s.take(s.len() as int) == s);
    }
}

} // verus!
