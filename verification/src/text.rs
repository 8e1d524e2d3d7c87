//! Characters and numbers as text.
use vstd::prelude::*;

verus! {

/// The lower-case digit that stands for `d`, for `d` below sixteen.
pub open spec fn digit_char(d: nat) -> char {
    if d < 10 {
        (48 + d) as char
    } else {
        (87 + d) as char
    }
}

/// `n` in decimal, without leading zeros.
pub open spec fn decimal_digits(n: nat) -> Seq<char>
    decreases n,
{
    if n < 10 {
        seq![digit_char(n)]
    } else {
        decimal_digits(n / 10).push(digit_char(n % 10))
    }
}

/// `n` in lower-case hexadecimal, without leading zeros.
pub open spec fn hex_digits(n: nat) -> Seq<char>
    decreases n,
{
    if n < 16 {
        seq![digit_char(n)]
    } else {
        hex_digits(n / 16).push(digit_char(n % 16))
    }
}

/// The decimal digits of a number are digits, and write that number.
pub proof fn lemma_decimal_digits_value(n: nat)
    ensures
        decimal_digits(n).len() > 0,
        crate::address::all_digits(decimal_digits(n)),
        crate::address::digits_value(decimal_digits(n)) == n,
    decreases n,
{
    reveal_with_fuel(crate::address::digits_value, 2);
    if n >= 10 {
        lemma_decimal_digits_value(n / 10);
        assert(decimal_digits(n).drop_last() =~= decimal_digits(n / 10));
    } else {
        assert(decimal_digits(n).drop_last() =~= Seq::<char>::empty());
    }
}

fn digit(d: u64) -> (s: &'static str)
    requires
        d < 16,
    ensures
        s@ == seq![digit_char(d as nat)],
{
    proof {
        reveal_strlit("0");
        reveal_strlit("1");
        reveal_strlit("2");
        reveal_strlit("3");
        reveal_strlit("4");
        reveal_strlit("5");
        reveal_strlit("6");
        reveal_strlit("7");
        reveal_strlit("8");
        reveal_strlit("9");
        reveal_strlit("a");
        reveal_strlit("b");
        reveal_strlit("c");
        reveal_strlit("d");
        reveal_strlit("e");
        reveal_strlit("f");
    }
    match d {
        0 => "0",
        1 => "1",
        2 => "2",
        3 => "3",
        4 => "4",
        5 => "5",
        6 => "6",
        7 => "7",
        8 => "8",
        9 => "9",
        10 => "a",
        11 => "b",
        12 => "c",
        13 => "d",
        14 => "e",
        _ => "f",
    }
}

/// `n` in decimal.
pub fn decimal(n: u64) -> (s: String)
    ensures
        s@ == decimal_digits(n as nat),
    decreases n,
{
    if n < 10 {
        digit(n).to_owned()
    } else {
        let mut s = decimal(n / 10);
        s.append(digit(n % 10));
        s
    }
}

/// `n` in hexadecimal.
pub fn hex(n: u64) -> (s: String)
    ensures
        s@ == hex_digits(n as nat),
    decreases n,
{
    if n < 16 {
        digit(n).to_owned()
    } else {
        let mut s = hex(n / 16);
        s.append(digit(n % 16));
        s
    }
}

/// The characters of `s`.
pub fn chars_of(s: &str) -> (v: Vec<char>)
    ensures
        v@ == s@,
{
    let mut v: Vec<char> = Vec::new();
    for c in it: s.chars()
        invariant
            v@ == it.seq().take(it.index()),
            it.seq() == s@,
    {
        v.push(c);
    }
    v
}

/// Whether `c` has the Unicode property `White_Space`.
pub open spec fn is_white_space(c: char) -> bool {
    ||| '\u{9}' <= c <= '\u{d}'
    ||| c == '\u{20}'
    ||| c == '\u{85}'
    ||| c == '\u{a0}'
    ||| c == '\u{1680}'
    ||| '\u{2000}' <= c <= '\u{200a}'
    ||| c == '\u{2028}'
    ||| c == '\u{2029}'
    ||| c == '\u{202f}'
    ||| c == '\u{205f}'
    ||| c == '\u{3000}'
}

fn white_space(c: char) -> (b: bool)
    ensures
        b == is_white_space(c),
{
    ('\u{9}' <= c && c <= '\u{d}') || c == '\u{20}' || c == '\u{85}' || c == '\u{a0}' || c
        == '\u{1680}' || ('\u{2000}' <= c && c <= '\u{200a}') || c == '\u{2028}' || c
        == '\u{2029}' || c == '\u{202f}' || c == '\u{205f}' || c == '\u{3000}'
}

/// `s` without the white space at its start.
pub open spec fn trimmed_start(s: Seq<char>) -> Seq<char>
    decreases s.len(),
{
    if s.len() > 0 && is_white_space(s[0]) {
        trimmed_start(s.drop_first())
    } else {
        s
    }
}

/// `s` without the white space at its end.
pub open spec fn trimmed_end(s: Seq<char>) -> Seq<char>
    decreases s.len(),
{
    if s.len() > 0 && is_white_space(s.last()) {
        trimmed_end(s.drop_last())
    } else {
        s
    }
}

/// `s` without the white space at its two ends.
pub open spec fn trimmed(s: Seq<char>) -> Seq<char> {
    trimmed_end(trimmed_start(s))
}

/// `s` without the white space at its two ends.
pub fn trim(s: &str) -> (t: &str)
    ensures
        t@ == trimmed(s@),
{
    let chars = chars_of(s);
    let mut from: usize = 0;
    assert(s@.skip(0) =~= s@);
    while from < chars.len() && white_space(chars[from])
        invariant
            chars@ == s@,
            from <= chars@.len(),
            trimmed_start(s@.skip(from as int)) == trimmed_start(s@),
        decreases chars@.len() - from,
    {
        assert(s@.skip(from as int).drop_first() =~= s@.skip(from + 1));
        from += 1;
    }
    let ghost rest = s@.skip(from as int);
    assert(rest == trimmed_start(s@));
    let mut to: usize = chars.len();
    assert(s@.subrange(from as int, to as int) =~= rest);
    while to > from && white_space(chars[to - 1])
        invariant
            chars@ == s@,
            from <= to <= chars@.len(),
            trimmed_end(s@.subrange(from as int, to as int)) == trimmed(s@),
        decreases to,
    {
        assert(s@.subrange(from as int, to as int).drop_last() =~= s@.subrange(
            from as int,
            to - 1,
        ));
        to -= 1;
    }
    s.substring_char(from, to)
}

/// Whether `s` begins with `prefix`.
pub fn starts_with(s: &str, prefix: &str) -> (b: bool)
    ensures
        b == prefix@.is_prefix_of(s@),
{
    let chars = chars_of(s);
    let start = chars_of(prefix);
    if start.len() > chars.len() {
        return false;
    }
    let mut i: usize = 0;
    while i < start.len()
        invariant
            chars@ == s@,
            start@ == prefix@,
            i <= start@.len() <= chars@.len(),
            prefix@.take(i as int) =~= s@.take(i as int),
        decreases start@.len() - i,
    {
        if start[i] != chars[i] {
            assert(prefix@[i as int] != s@.take(prefix@.len() as int)[i as int]);
            return false;
        }
        assert(prefix@.take(i + 1) =~= prefix@.take(i as int).push(prefix@[i as int]));
        assert(s@.take(i + 1) =~= s@.take(i as int).push(s@[i as int]));
        i += 1;
    }
    assert(prefix@.take(i as int) =~= prefix@);
    true
}

/// What `s` begins with, at most `count` characters.
pub fn first_chars(s: &str, count: usize) -> (t: &str)
    ensures
        t@ == if s@.len() <= count {
            s@
        } else {
            s@.take(count as int)
        },
{
    let len: usize = s.unicode_len();
    if len <= count {
        s
    } else {
        s.substring_char(0, count)
    }
}

/// The texts one after the other, each but the first behind a colon and a space.
pub open spec fn colon_joined(texts: Seq<Seq<char>>) -> Seq<char>
    decreases texts.len(),
{
    if texts.len() == 0 {
        Seq::empty()
    } else if texts.len() == 1 {
        texts[0]
    } else {
        colon_joined(texts.drop_last()) + ": "@ + texts.last()
    }
}

/// Trimming takes white space alone, from the two ends alone, and leaves none there.
pub proof fn law_trim(s: Seq<char>) -> (k: (int, int))
    ensures
        0 <= k.0 <= k.1 <= s.len(),
        trimmed(s) == s.subrange(k.0, k.1),
        forall|i: int| 0 <= i < k.0 ==> is_white_space(#[trigger] s[i]),
        forall|i: int| k.1 <= i < s.len() ==> is_white_space(#[trigger] s[i]),
        trimmed(s).len() > 0 ==> !is_white_space(trimmed(s)[0]) && !is_white_space(
            trimmed(s).last(),
        ),
{
    let a = lemma_trimmed_start(s);
    let b = lemma_trimmed_end(s.skip(a));
    assert(s.skip(a).take(b) =~= s.subrange(a, a + b));
    assert forall|i: int| a + b <= i < s.len() implies is_white_space(#[trigger] s[i]) by {
        assert(s.skip(a)[i - a] == s[i]);
    }
    (a, a + b)
}

proof fn lemma_trimmed_start(s: Seq<char>) -> (k: int)
    ensures
        0 <= k <= s.len(),
        trimmed_start(s) == s.skip(k),
        forall|i: int| 0 <= i < k ==> is_white_space(#[trigger] s[i]),
        k < s.len() ==> !is_white_space(s[k]),
    decreases s.len(),
{
    if s.len() > 0 && is_white_space(s[0]) {
        let rest = s.drop_first();
        let k = lemma_trimmed_start(rest);
        assert(rest.skip(k) =~= s.skip(k + 1));
        assert forall|i: int| 0 <= i < k + 1 implies is_white_space(#[trigger] s[i]) by {
            if i > 0 {
                assert(rest[i - 1] == s[i]);
            }
        }
        k + 1
    } else {
        assert(s.skip(0) =~= s);
        0
    }
}

proof fn lemma_trimmed_end(s: Seq<char>) -> (k: int)
    ensures
        0 <= k <= s.len(),
        trimmed_end(s) == s.take(k),
        forall|i: int| k <= i < s.len() ==> is_white_space(#[trigger] s[i]),
        k > 0 ==> !is_white_space(s[k - 1]),
    decreases s.len(),
{
    if s.len() > 0 && is_white_space(s.last()) {
        let rest = s.drop_last();
        let k = lemma_trimmed_end(rest);
        assert(rest.take(k) =~= s.take(k));
        assert forall|i: int| k <= i < s.len() implies is_white_space(#[trigger] s[i]) by {
            if i < rest.len() {
                assert(rest[i] == s[i]);
            }
        }
        k
    } else {
        assert(s.take(s.len() as int) =~= s);
        s.len() as int
    }
}

/// A number in decimal is made of digits, of which the last is its remainder by ten and the
/// others write its tenth part. The first is no zero, but for zero itself.
pub proof fn law_decimal_digits(n: nat)
    ensures
        decimal_digits(n).len() > 0,
        forall|i: int|
            0 <= i < decimal_digits(n).len() ==> '0' <= #[trigger] decimal_digits(n)[i] <= '9',
        n < 10 ==> decimal_digits(n).len() == 1,
        n >= 10 ==> decimal_digits(n).drop_last() == decimal_digits(n / 10),
        decimal_digits(n).last() as int == '0' as int + n % 10,
        n > 0 ==> decimal_digits(n)[0] != '0',
    decreases n,
{
    if n >= 10 {
        law_decimal_digits(n / 10);
        let head = decimal_digits(n / 10);
        assert(decimal_digits(n).drop_last() =~= head);
        assert forall|i: int| 0 <= i < decimal_digits(n).len() implies '0'
            <= #[trigger] decimal_digits(n)[i] <= '9' by {
            if i < head.len() {
                assert(decimal_digits(n)[i] == head[i]);
            }
        }
        assert(decimal_digits(n)[0] == head[0]);
    }
}

/// A number in hexadecimal is made of lower-case digits, of which the last is its remainder by
/// sixteen and the others write its sixteenth part. The first is no zero, but for zero itself.
pub proof fn law_hex_digits(n: nat)
    ensures
        hex_digits(n).len() > 0,
        n < 16 ==> hex_digits(n).len() == 1,
        n >= 16 ==> hex_digits(n).drop_last() == hex_digits(n / 16),
        n % 16 < 10 ==> hex_digits(n).last() as int == '0' as int + n % 16,
        n % 16 >= 10 ==> hex_digits(n).last() as int == 'a' as int + n % 16 - 10,
        n > 0 ==> hex_digits(n)[0] != '0',
    decreases n,
{
    if n >= 16 {
        law_hex_digits(n / 16);
        assert(hex_digits(n).drop_last() =~= hex_digits(n / 16));
        assert(hex_digits(n)[0] == hex_digits(n / 16)[0]);
    }
}

/// Joining one text gives that text, and one more text comes behind a colon and a space.
pub proof fn law_colon_joined(texts: Seq<Seq<char>>, t: Seq<char>)
    ensures
        colon_joined(seq![t]) == t,
        texts.len() > 0 ==> colon_joined(texts.push(t)) == colon_joined(texts) + ": "@ + t,
{
    if texts.len() > 0 {
        assert(texts.push(t).drop_last() =~= texts);
    }
}

} // verus!
