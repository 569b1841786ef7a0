//! Decimal numerals and the building of strings.

use vstd::prelude::*;

verus! {

/// `String::push` of the standard library appends one character to the string
/// and leaves the characters before it as they were.
pub assume_specification[ String::push ](s: &mut String, c: char)
    ensures
        final(s)@ == old(s)@.push(c),
;

/// Whether `c` is one of the ten ASCII digits.
pub open spec fn is_digit(c: char) -> bool {
    '0' <= c && c <= '9'
}

/// The number that the digit `c` stands for.
pub open spec fn digit_value(c: char) -> nat {
    if is_digit(c) {
        (c as u32 - 48) as nat
    } else {
        0
    }
}

/// The digit that stands for `d`, for `d` below ten.
pub open spec fn digit_char(d: nat) -> char {
    (d + 48) as char
}

/// Whether every character of `s` is a digit.
pub open spec fn all_digits(s: Seq<char>) -> bool {
    forall|i: int| 0 <= i < s.len() ==> is_digit(#[trigger] s[i])
}

/// The number that the digits `s` spell, most significant digit first.
pub open spec fn decimal_value(s: Seq<char>) -> nat
    decreases s.len(),
{
    if s.len() == 0 {
        0
    } else {
        decimal_value(s.drop_last()) * 10 + digit_value(s.last())
    }
}

/// The shortest numeral of `n`: no leading zero, and `0` for zero.
pub open spec fn decimal_digits(n: nat) -> Seq<char>
    decreases n,
{
    if n < 10 {
        seq![digit_char(n)]
    } else {
        decimal_digits(n / 10).push(digit_char(n % 10))
    }
}

/// Whether `s` is the shortest numeral of some number.
pub open spec fn is_shortest_numeral(s: Seq<char>) -> bool {
    s.len() > 0 && all_digits(s) && (s.len() == 1 || s[0] != '0')
}

/// A numeral without its optional leading plus sign.
pub open spec fn unsigned_part(s: Seq<char>) -> Seq<char> {
    if s.len() > 0 && s[0] == '+' {
        s.skip(1)
    } else {
        s
    }
}

/// The number that `s` spells: an optional plus sign, then one or more digits
/// and nothing else. Leading zeros are allowed. The one numeral that spells
/// no number here is one too large for 64 bits.
pub open spec fn parse_number(s: Seq<char>) -> Option<u64> {
    let d = unsigned_part(s);
    if d.len() > 0 && all_digits(d) && decimal_value(d) <= u64::MAX {
        Some(decimal_value(d) as u64)
    } else {
        None
    }
}

/// A numeral is worth at least as much as any of its prefixes.
pub proof fn lemma_value_of_prefix(s: Seq<char>, k: int)
    requires
        0 <= k <= s.len(),
    ensures
        decimal_value(s.take(k)) <= decimal_value(s),
    decreases s.len(),
{
    if k == s.len() {
        assert(s.take(k) == s);
    } else {
        lemma_value_of_prefix(s.drop_last(), k);
        assert(s.drop_last().take(k) == s.take(k));
    }
}

/// The shortest numeral of a number consists of digits, does not start with a
/// zero unless it is `0`, and spells that number.
pub proof fn lemma_digits_spell(n: nat)
    ensures
        is_shortest_numeral(decimal_digits(n)),
        decimal_value(decimal_digits(n)) == n,
        n >= 10 ==> decimal_digits(n).len() >= 2,
    decreases n,
{
    let s = decimal_digits(n);
    if n < 10 {
        assert(s.drop_last() == Seq::<char>::empty());
        assert(s.last() == digit_char(n));
        assert(decimal_value(s.drop_last()) == 0);
    } else {
        lemma_digits_spell(n / 10);
        let t = decimal_digits(n / 10);
        assert(s.drop_last() == t);
        assert(s.last() == digit_char(n % 10));
        assert(s[0] == t[0]);
        if t.len() == 1 {
            assert(decimal_value(t.drop_last()) == 0);
            assert(t.last() == t[0]);
        }
        assert forall|i: int| 0 <= i < s.len() implies is_digit(#[trigger] s[i]) by {
            if i < t.len() {
                assert(s[i] == t[i]);
            }
        }
    }
}

/// A shortest numeral is the shortest numeral of the number that it spells.
pub proof fn lemma_spelt_digits(s: Seq<char>)
    requires
        is_shortest_numeral(s),
    ensures
        decimal_digits(decimal_value(s)) == s,
        s.len() >= 2 ==> decimal_value(s) >= 10,
        s[0] != '0' ==> decimal_value(s) >= 1,
    decreases s.len(),
{
    let t = s.drop_last();
    let c = s.last();
    assert(is_digit(c));
    if t.len() == 0 {
        assert(decimal_value(t) == 0);
        assert(s == seq![c]);
        assert(digit_char(digit_value(c)) == c);
    } else {
        assert(t[0] == s[0]);
        assert forall|i: int| 0 <= i < t.len() implies is_digit(#[trigger] t[i]) by {
            assert(t[i] == s[i]);
        }
        lemma_spelt_digits(t);
        let v = decimal_value(s);
        assert(v == decimal_value(t) * 10 + digit_value(c));
        assert(v / 10 == decimal_value(t));
        assert(v % 10 == digit_value(c));
        assert(digit_char(digit_value(c)) == c);
        assert(decimal_digits(v) == decimal_digits(v / 10).push(digit_char(v % 10)));
        assert(t.push(c) == s);
    }
}

/// The number that a digit stands for; `None` for any other character.
pub fn digit_of(c: char) -> (res: Option<u8>)
    ensures
        res == (if is_digit(c) {
            Some(digit_value(c) as u8)
        } else {
            None
        }),
{
    if c >= '0' && c <= '9' {
        let b: u8 = c as u8;
        Some(b - 48)
    } else {
        None
    }
}

/// Reads the numeral that `s` holds from its character `from` on.
pub fn number_from(s: &str, from: usize) -> (res: Option<u64>)
    requires
        from <= s@.len(),
    ensures
        res == parse_number(s@.skip(from as int)),
{
    let len = s.unicode_len();
    let ghost t = s@.skip(from as int);
    let mut i: usize = from;
    if i < len && s.get_char(i) == '+' {
        i = i + 1;
    }
    let start: usize = i;
    let ghost d = unsigned_part(t);
    assert(d == s@.skip(start as int));
    if i == len {
        return None;
    }
    let mut acc: u128 = 0;
    assert(d.take(0) == Seq::<char>::empty());
    while i < len
        invariant
            start <= i <= len,
            start < len,
            len == s@.len(),
            d == s@.skip(start as int),
            d == unsigned_part(s@.skip(from as int)),
            all_digits(d.take(i - start)),
            acc == decimal_value(d.take(i - start)),
            acc <= u64::MAX,
        decreases len - i,
    {
        let c = s.get_char(i);
        let ghost head = d.take(i - start);
        let ghost next = d.take(i + 1 - start);
        proof {
            assert(d[i - start] == c);
            assert(next.drop_last() == head);
            assert(next.last() == c);
        }
        match digit_of(c) {
            None => {
                return None;
            },
            Some(v) => {
                acc = acc * 10 + v as u128;
                proof {
                    assert forall|j: int| 0 <= j < next.len() implies is_digit(#[trigger] next[j]) by {
                        if j < head.len() {
                            assert(next[j] == head[j]);
                        }
                    }
                }
                if acc > 18_446_744_073_709_551_615 {
                    proof {
                        lemma_value_of_prefix(d, i + 1 - start);
                    }
                    return None;
                }
            },
        }
        i = i + 1;
    }
    assert(d.take(d.len() as int) == d);
    Some(acc as u64)
}

/// Appends the shortest numeral of `n` to `out`.
pub fn push_decimal(out: &mut String, n: u64)
    ensures
        final(out)@ == old(out)@ + decimal_digits(n as nat),
    decreases n,
{
    if n >= 10 {
        push_decimal(out, n / 10);
    }
    let d: u8 = (n % 10) as u8;
    out.push((d + 48) as char);
    proof {
        let before = old(out)@;
        if n >= 10 {
            assert(before + decimal_digits((n / 10) as nat).push(digit_char((n % 10) as nat))
                == (before + decimal_digits((n / 10) as nat)).push(digit_char((n % 10) as nat)));
        } else {
            assert(before + seq![digit_char(n as nat)] == before.push(digit_char(n as nat)));
        }
    }
}

/// The texts that the strings of `v` hold.
pub open spec fn texts(v: Seq<String>) -> Seq<Seq<char>> {
    Seq::new(v.len(), |i: int| v[i]@)
}

/// The sequence of `n` times the character `c`.
pub open spec fn repeated(c: char, n: nat) -> Seq<char> {
    Seq::new(n, |i: int| c)
}

/// Appends `n` times the character `c` to `out`.
pub fn push_repeated(out: &mut String, c: char, n: usize)
    ensures
        final(out)@ == old(out)@ + repeated(c, n as nat),
{
    let mut i: usize = 0;
    assert(out@ == old(out)@ + repeated(c, 0));
    while i < n
        invariant
            i <= n,
            out@ == old(out)@ + repeated(c, i as nat),
        decreases n - i,
    {
        out.push(c);
        i = i + 1;
        assert(out@ == old(out)@ + repeated(c, i as nat));
    }
}

} // verus!
