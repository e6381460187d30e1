//! Scanning and number conversion on sequences of characters.

use vstd::prelude::*;

verus! {

/// Whether `c` has the Unicode property White_Space.
pub open spec fn is_space(c: char) -> bool {
    ||| '\u{9}' <= c <= '\u{D}'
    ||| c == ' '
    ||| c == '\u{85}'
    ||| c == '\u{A0}'
    ||| c == '\u{1680}'
    ||| '\u{2000}' <= c <= '\u{200A}'
    ||| c == '\u{2028}'
    ||| c == '\u{2029}'
    ||| c == '\u{202F}'
    ||| c == '\u{205F}'
    ||| c == '\u{3000}'
}

/// A set of characters that a scan stops at.
#[derive(Clone, Copy, Debug)]
pub enum CharClass {
    /// White space.
    Space,
    /// Anything but white space.
    NonSpace,
    /// One given character.
    Is(char),
}

impl CharClass {
    /// Whether `c` belongs to the class.
    pub open spec fn holds(self, c: char) -> bool {
        match self {
            CharClass::Space => is_space(c),
            CharClass::NonSpace => !is_space(c),
            CharClass::Is(d) => c == d,
        }
    }

    /// Decides `holds`.
    pub fn test(self, c: char) -> (r: bool)
        ensures
            r == self.holds(c),
    {
        match self {
            CharClass::Space => char_is_space(c),
            CharClass::NonSpace => !char_is_space(c),
            CharClass::Is(d) => c == d,
        }
    }
}

/// Decides `is_space`.
pub fn char_is_space(c: char) -> (r: bool)
    ensures
        r == is_space(c),
{
    ('\u{9}' <= c && c <= '\u{D}') || c == ' ' || c == '\u{85}' || c == '\u{A0}' || c == '\u{1680}'
        || ('\u{2000}' <= c && c <= '\u{200A}') || c == '\u{2028}' || c == '\u{2029}' || c
        == '\u{202F}' || c == '\u{205F}' || c == '\u{3000}'
}

/// The index of the first character of `s` in `class`, or the length of `s`
/// where there is none.
pub open spec fn first_in(s: Seq<char>, class: CharClass) -> int
    decreases s.len(),
{
    if s.len() == 0 {
        0
    } else if class.holds(s[0]) {
        0
    } else {
        1 + first_in(s.skip(1), class)
    }
}

/// `first_in` is the one index up to which no character is in the class and
/// at which the sequence ends or a character of the class stands.
pub proof fn lemma_first_in(s: Seq<char>, class: CharClass, r: int)
    requires
        0 <= r <= s.len(),
        forall|k: int| 0 <= k < r ==> !class.holds(#[trigger] s[k]),
        r == s.len() || class.holds(s[r]),
    ensures
        first_in(s, class) == r,
    decreases s.len(),
{
    if s.len() > 0 && !class.holds(s[0]) {
        let t = s.skip(1);
        assert forall|k: int| 0 <= k < r - 1 implies !class.holds(#[trigger] t[k]) by {
            assert(t[k] == s[k + 1]);
        }
        lemma_first_in(t, class, r - 1);
    }
}

/// What `first_in` returns lies within the sequence, passes over no
/// character of the class and stops at one.
pub proof fn lemma_first_in_bounds(s: Seq<char>, class: CharClass)
    ensures
        0 <= first_in(s, class) <= s.len(),
        forall|k: int| 0 <= k < first_in(s, class) ==> !class.holds(#[trigger] s[k]),
        first_in(s, class) < s.len() ==> class.holds(s[first_in(s, class)]),
    decreases s.len(),
{
    if s.len() > 0 && !class.holds(s[0]) {
        let t = s.skip(1);
        lemma_first_in_bounds(t, class);
        assert forall|k: int| 0 <= k < first_in(s, class) implies !class.holds(#[trigger] s[k]) by {
            if k > 0 {
                assert(s[k] == t[k - 1]);
            }
        }
    }
}

/// The characters of `line`, one by one.
pub fn to_chars(line: &str) -> (chars: Vec<char>)
    ensures
        chars@ == line@,
{
    let mut chars: Vec<char> = Vec::new();
    for c in it: line.chars()
        invariant
            it.seq() == line@,
            chars@ == it.seq().take(it.index()),
    {
        chars.push(c);
    }
    assert(line@.take(line@.len() as int) == line@);
    chars
}

/// Scans `chars[from..to]` for the first character in `class`.
pub fn find_first(chars: &Vec<char>, from: usize, to: usize, class: CharClass) -> (at: usize)
    requires
        from <= to <= chars.len(),
    ensures
        from <= at <= to,
        at - from == first_in(chars@.subrange(from as int, to as int), class),
{
    let mut i = from;
    while i < to && !class.test(chars[i])
        invariant
            from <= i <= to <= chars.len(),
            forall|k: int| from <= k < i ==> !class.holds(#[trigger] chars@[k]),
        decreases to - i,
    {
        i += 1;
    }
    proof {
        lemma_first_in(chars@.subrange(from as int, to as int), class, i - from);
    }
    i
}

/// Whether `c` is one of the ten decimal digits.
pub open spec fn is_digit(c: char) -> bool {
    '0' <= c <= '9'
}

/// Whether `s` holds decimal digits only.
pub open spec fn all_digits(s: Seq<char>) -> bool {
    forall|i: int| 0 <= i < s.len() ==> is_digit(#[trigger] s[i])
}

/// The number that the digit `c` stands for.
pub open spec fn digit_value(c: char) -> nat {
    (c as int - '0' as int) as nat
}

/// The digit that stands for `d`, for `d` below ten.
pub open spec fn digit_char(d: nat) -> char {
    if d == 0 {
        '0'
    } else if d == 1 {
        '1'
    } else if d == 2 {
        '2'
    } else if d == 3 {
        '3'
    } else if d == 4 {
        '4'
    } else if d == 5 {
        '5'
    } else if d == 6 {
        '6'
    } else if d == 7 {
        '7'
    } else if d == 8 {
        '8'
    } else {
        '9'
    }
}

/// The number that a sequence of digits denotes in base ten.
pub open spec fn digits_value(s: Seq<char>) -> nat
    decreases s.len(),
{
    if s.len() == 0 {
        0
    } else {
        digits_value(s.drop_last()) * 10 + digit_value(s.last())
    }
}

/// The port number that `s` denotes: an optional `+`, then at least one
/// digit, the whole no greater than 65535.
pub open spec fn parse_u16(s: Seq<char>) -> Option<u16> {
    let d = if s.len() > 0 && s[0] == '+' {
        s.skip(1)
    } else {
        s
    };
    if d.len() > 0 && all_digits(d) && digits_value(d) <= u16::MAX {
        Some(digits_value(d) as u16)
    } else {
        None
    }
}

/// A number in base ten, without sign or leading zeros.
pub open spec fn decimal(n: nat) -> Seq<char>
    decreases n,
{
    if n < 10 {
        seq![digit_char(n)]
    } else {
        decimal(n / 10).push(digit_char(n % 10))
    }
}

/// A prefix of a sequence of digits denotes no more than the whole.
pub proof fn lemma_digits_value_prefix(s: Seq<char>, k: int)
    requires
        0 <= k <= s.len(),
    ensures
        digits_value(s.take(k)) <= digits_value(s),
    decreases s.len() - k,
{
    if k == s.len() {
        assert(s.take(k) == s);
    } else {
        assert(s.drop_last().take(k) == s.take(k));
        lemma_digits_value_prefix(s.drop_last(), k);
    }
}

/// `decimal` writes digits only, at least one, and they denote the number
/// written.
pub proof fn lemma_decimal(n: nat)
    ensures
        decimal(n).len() > 0,
        all_digits(decimal(n)),
        digits_value(decimal(n)) == n,
    decreases n,
{
    if n < 10 {
        let s = decimal(n);
        assert(s.drop_last().len() == 0);
        assert(digits_value(s.drop_last()) == 0);
    } else {
        lemma_decimal(n / 10);
        let s = decimal(n);
        assert(s.drop_last() == decimal(n / 10));
        assert(s.last() == digit_char(n % 10));
    }
}

/// Two numbers that `decimal` writes alike are one number.
pub proof fn lemma_decimal_injective(a: nat, b: nat)
    requires
        decimal(a) == decimal(b),
    ensures
        a == b,
{
    lemma_decimal(a);
    lemma_decimal(b);
}

/// A port number written by `decimal` is read back by `parse_u16`.
pub proof fn lemma_parse_decimal(n: u16)
    ensures
        parse_u16(decimal(n as nat)) == Some(n),
{
    lemma_decimal(n as nat);
    assert(is_digit(decimal(n as nat)[0]));
}

/// Reads `chars[from..to]` as a port number.
pub fn parse_u16_in(chars: &Vec<char>, from: usize, to: usize) -> (r: Option<u16>)
    requires
        from <= to <= chars.len(),
    ensures
        r == parse_u16(chars@.subrange(from as int, to as int)),
{
    let ghost s = chars@.subrange(from as int, to as int);
    let mut i = from;
    if i < to && chars[i] == '+' {
        i += 1;
    }
    let start = i;
    let ghost d = chars@.subrange(start as int, to as int);
    assert(d == if s.len() > 0 && s[0] == '+' {
        s.skip(1)
    } else {
        s
    });
    if i == to {
        return None;
    }
    let mut acc: u32 = 0;
    while i < to
        invariant
            from <= start <= i <= to <= chars.len(),
            s == chars@.subrange(from as int, to as int),
            d == chars@.subrange(start as int, to as int),
            d == if s.len() > 0 && s[0] == '+' {
                s.skip(1)
            } else {
                s
            },
            all_digits(d.take(i - start)),
            acc == digits_value(d.take(i - start)),
            acc <= u16::MAX,
        decreases to - i,
    {
        let c = chars[i];
        if !('0' <= c && c <= '9') {
            assert(!is_digit(d[i - start]));
            return None;
        }
        proof {
            let p = d.take(i - start + 1);
            assert(p.drop_last() == d.take(i - start));
            assert(p.last() == c);
            assert forall|k: int| 0 <= k < p.len() implies is_digit(#[trigger] p[k]) by {
                if k < i - start {
                    assert(p[k] == d.take(i - start)[k]);
                }
            }
        }
        acc = acc * 10 + (c as u32 - '0' as u32);
        if acc > 65535 {
            proof {
                lemma_digits_value_prefix(d, i - start + 1);
            }
            return None;
        }
        i += 1;
    }
    assert(d.take(i - start) == d);
    Some(acc as u16)
}

/// The one-character string of the digit for `d`.
fn digit_str(d: u64) -> (s: &'static str)
    requires
        d < 10,
    ensures
        s@ == seq![digit_char(d as nat)],
{
    proof {
        reveal_strlit("0");
        reveal_strlit("1");
        reveal_strlit("2");
        reveal_strlit("3");
        reveal_strlit("4");
        reveal_strlit("5");
        reveal_strlit("6");
        reveal_strlit("7");
        reveal_strlit("8");
        reveal_strlit("9");
    }
    let s = if d == 0 {
        "0"
    } else if d == 1 {
        "1"
    } else if d == 2 {
        "2"
    } else if d == 3 {
        "3"
    } else if d == 4 {
        "4"
    } else if d == 5 {
        "5"
    } else if d == 6 {
        "6"
    } else if d == 7 {
        "7"
    } else if d == 8 {
        "8"
    } else {
        "9"
    };
    assert(s@ =~= seq![digit_char(d as nat)]);
    s
}

/// Appends `n` in base ten to `out`.
pub fn push_decimal(out: &mut String, n: u64)
    ensures
        final(out)@ == old(out)@ + decimal(n as nat),
    decreases n,
{
    if n >= 10 {
        push_decimal(out, n / 10);
    }
    out.append(digit_str(n % 10));
}

/// `s` without the white space at its end.
pub open spec fn trim_end(s: Seq<char>) -> Seq<char>
    decreases s.len(),
{
    if s.len() > 0 && is_space(s.last()) {
        trim_end(s.drop_last())
    } else {
        s
    }
}

/// `s` without the white space at its start and at its end.
pub open spec fn trimmed(s: Seq<char>) -> Seq<char> {
    trim_end(s.skip(first_in(s, CharClass::NonSpace)))
}

/// `trim_end` cuts where the white space at the end begins.
pub proof fn lemma_trim_end(s: Seq<char>, end: int)
    requires
        0 <= end <= s.len(),
        forall|k: int| end <= k < s.len() ==> is_space(#[trigger] s[k]),
        end == 0 || !is_space(s[end - 1]),
    ensures
        trim_end(s) == s.take(end),
    decreases s.len(),
{
    if end == s.len() {
        assert(s.take(end) == s);
    } else {
        assert(is_space(s[s.len() - 1]));
        lemma_trim_end(s.drop_last(), end);
        assert(s.drop_last().take(end) == s.take(end));
    }
}

/// The part of `line` between the white space at its start and at its end.
pub fn trim<'a>(line: &'a str) -> (r: &'a str)
    ensures
        r@ == trimmed(line@),
{
    let chars = to_chars(line);
    let n = chars.len();
    let start = find_first(&chars, 0, n, CharClass::NonSpace);
    let mut end = n;
    while end > start && char_is_space(chars[end - 1])
        invariant
            start <= end <= n == chars.len(),
            forall|k: int| end <= k < n ==> is_space(#[trigger] chars@[k]),
        decreases end,
    {
        end -= 1;
    }
    proof {
        assert(chars@.subrange(0, n as int) == chars@);
        let rest = line@.skip(start as int);
        lemma_trim_end(rest, end - start);
        assert(rest.take(end - start) == line@.subrange(start as int, end as int));
    }
    line.substring_char(start, end)
}

} // verus!
