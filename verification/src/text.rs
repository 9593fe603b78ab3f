//! Decimal text of integers: writing it, and reading a radius back from it.

use vstd::prelude::*;

verus! {

/// The character of the decimal digit `d`.
pub open spec fn digit_char(d: int) -> char {
    seq!['0', '1', '2', '3', '4', '5', '6', '7', '8', '9'][d]
}

/// Whether `c` is one of the ASCII digits `0` to `9`.
pub open spec fn is_digit(c: char) -> bool {
    '0' <= c && c <= '9'
}

/// The value of the ASCII digit `c`.
pub open spec fn digit_value(c: char) -> nat {
    (c as int - '0' as int) as nat
}

/// The decimal digits of `n`, most significant first, without leading zeros
/// (`0` is the single digit `0`).
pub open spec fn decimal_digits(n: nat) -> Seq<char>
    decreases n,
{
    if n < 10 {
        seq![digit_char(n as int)]
    } else {
        decimal_digits(n / 10).push(digit_char((n % 10) as int))
    }
}

/// The decimal text of `n`, with a `-` in front of negative numbers.
pub open spec fn decimal_text(n: int) -> Seq<char> {
    if n < 0 {
        seq!['-'] + decimal_digits((-n) as nat)
    } else {
        decimal_digits(n as nat)
    }
}

/// Whether every character of `s` is an ASCII digit.
pub open spec fn all_digits(s: Seq<char>) -> bool {
    forall|i: int| 0 <= i < s.len() ==> is_digit(#[trigger] s[i])
}

/// The number that the digits `s` write in decimal (leading zeros allowed).
pub open spec fn digits_value(s: Seq<char>) -> nat
    decreases s.len(),
{
    if s.len() == 0 {
        0
    } else {
        digits_value(s.drop_last()) * 10 + digit_value(s.last())
    }
}

/// What `str::parse::<u32>` gives for `s`: an optional `+` followed by one or
/// more ASCII digits that write a number no greater than `u32::MAX`; any
/// other text is refused.
pub open spec fn parse_u32_spec(s: Seq<char>) -> Option<u32> {
    let digits = if s.len() > 0 && s[0] == '+' { s.drop_first() } else { s };
    if digits.len() > 0 && all_digits(digits) && digits_value(digits) <= u32::MAX {
        Some(digits_value(digits) as u32)
    } else {
        None
    }
}

/// A negative number is written `-` and then the digits of its magnitude;
/// any other is written with its digits alone.
pub proof fn law_decimal_text_sign(n: int)
    ensures
        n < 0 ==> decimal_text(n) == seq!['-'] + decimal_digits((-n) as nat),
        n >= 0 ==> decimal_text(n) == decimal_digits(n as nat),
{
}

/// Empty text, or a `+` alone, is no number.
pub proof fn law_parse_refuses_empty()
    ensures
        parse_u32_spec(Seq::<char>::empty()) is None,
        parse_u32_spec(seq!['+']) is None,
{
    assert(seq!['+'].drop_first() == Seq::<char>::empty());
}

/// A single ASCII digit reads as its value.
pub proof fn law_parse_one_digit(c: char)
    requires
        '0' <= c <= '9',
    ensures
        parse_u32_spec(seq![c]) == Some((c as int - '0' as int) as u32),
{
    let t = seq![c];
    assert(t.drop_last() == Seq::<char>::empty());
    assert(digits_value(Seq::<char>::empty()) == 0);
    assert(all_digits(t));
}

/// A further ASCII digit multiplies the number read so far by ten and adds
/// its value; past `u32::MAX` the text is refused.
pub proof fn law_parse_next_digit(t: Seq<char>, n: u32, c: char)
    requires
        parse_u32_spec(t) == Some(n),
        '0' <= c <= '9',
    ensures
        parse_u32_spec(t.push(c)) == (if n * 10 + (c as int - '0' as int) <= u32::MAX {
            Some((n * 10 + (c as int - '0' as int)) as u32)
        } else {
            None
        }),
{
    let d = if t.len() > 0 && t[0] == '+' { t.drop_first() } else { t };
    let e = t.push(c);
    let de = if e.len() > 0 && e[0] == '+' { e.drop_first() } else { e };
    if t.len() > 0 && t[0] == '+' {
        assert(de == d.push(c));
    } else {
        assert(de == d.push(c));
    }
    lemma_digits_value_push(d, c);
    assert forall|i: int| 0 <= i < de.len() implies is_digit(#[trigger] de[i]) by {
        if i < d.len() {
            assert(de[i] == d[i]);
        }
    }
}

/// One leading `+` may come before the digits.
pub proof fn law_parse_plus(t: Seq<char>)
    requires
        t.len() > 0,
        t[0] != '+',
    ensures
        parse_u32_spec(seq!['+'] + t) == parse_u32_spec(t),
{
    assert((seq!['+'] + t).drop_first() == t);
}

/// Any character that is not an ASCII digit, other than one leading `+`,
/// makes the text no number.
pub proof fn law_parse_refuses_non_digit(t: Seq<char>, i: int)
    requires
        0 <= i < t.len(),
        !('0' <= t[i] <= '9'),
        !(i == 0 && t[i] == '+'),
    ensures
        parse_u32_spec(t) is None,
{
    if t[0] == '+' {
        assert(t.drop_first()[i - 1] == t[i]);
    }
}

/// The text of the digit `d`.
fn digit_str(d: u64) -> (s: &'static str)
    requires
        d < 10,
    ensures
        s@ == seq![digit_char(d as int)],
{
    match d {
        0 => {
            proof {
                reveal_strlit("0");
            }
            "0"
        },
        1 => {
            proof {
                reveal_strlit("1");
            }
            "1"
        },
        2 => {
            proof {
                reveal_strlit("2");
            }
            "2"
        },
        3 => {
            proof {
                reveal_strlit("3");
            }
            "3"
        },
        4 => {
            proof {
                reveal_strlit("4");
            }
            "4"
        },
        5 => {
            proof {
                reveal_strlit("5");
            }
            "5"
        },
        6 => {
            proof {
                reveal_strlit("6");
            }
            "6"
        },
        7 => {
            proof {
                reveal_strlit("7");
            }
            "7"
        },
        8 => {
            proof {
                reveal_strlit("8");
            }
            "8"
        },
        _ => {
            proof {
                reveal_strlit("9");
            }
            "9"
        },
    }
}

/// Appends the decimal digits of `n` to `out`.
pub fn append_decimal_u64(out: &mut String, n: u64)
    ensures
        final(out)@ == old(out)@ + decimal_digits(n as nat),
    decreases n,
{
    if n < 10 {
        out.append(digit_str(n));
    } else {
        append_decimal_u64(out, n / 10);
        out.append(digit_str(n % 10));
        assert(decimal_digits(n as nat) == decimal_digits((n / 10) as nat).push(
            digit_char((n % 10) as int),
        ));
    }
}

/// Appends the decimal text of `n` to `out`, as `format!("{}", n)` writes it.
pub fn append_decimal_i64(out: &mut String, n: i64)
    ensures
        final(out)@ == old(out)@ + decimal_text(n as int),
{
    if n < 0 {
        out.append("-");
        proof {
            reveal_strlit("-");
        }
        let magnitude: u64 = if n == i64::MIN {
            9223372036854775808u64
        } else {
            (-n) as u64
        };
        append_decimal_u64(out, magnitude);
    } else {
        append_decimal_u64(out, n as u64);
    }
}

/// The decimal text of `n`, as `format!("{}", n)` writes it.
pub fn decimal_string(n: i64) -> (s: String)
    ensures
        s@ == decimal_text(n as int),
{
    let mut s = String::new();
    append_decimal_i64(&mut s, n);
    s
}

/// Each digit character is an ASCII digit of its own value.
proof fn lemma_digit_char(d: int)
    requires
        0 <= d < 10,
    ensures
        is_digit(digit_char(d)),
        digit_value(digit_char(d)) == d,
{
    let digits = seq!['0', '1', '2', '3', '4', '5', '6', '7', '8', '9'];
    assert(digit_char(d) == digits[d]);
    if d == 0 {
        assert(digits[0] == '0');
    } else if d == 1 {
        assert(digits[1] == '1');
    } else if d == 2 {
        assert(digits[2] == '2');
    } else if d == 3 {
        assert(digits[3] == '3');
    } else if d == 4 {
        assert(digits[4] == '4');
    } else if d == 5 {
        assert(digits[5] == '5');
    } else if d == 6 {
        assert(digits[6] == '6');
    } else if d == 7 {
        assert(digits[7] == '7');
    } else if d == 8 {
        assert(digits[8] == '8');
    } else {
        assert(digits[9] == '9');
    }
}

/// The decimal digits of `n` are one or more ASCII digits that write `n`,
/// with no leading zero but for `0` itself.
pub proof fn lemma_decimal_digits_value(n: nat)
    ensures
        decimal_digits(n).len() > 0,
        forall|i: int|
            0 <= i < decimal_digits(n).len() ==> '0' <= #[trigger] decimal_digits(n)[i] <= '9',
        all_digits(decimal_digits(n)),
        digits_value(decimal_digits(n)) == n,
        n > 0 ==> decimal_digits(n)[0] != '0',
    decreases n,
{
    if n < 10 {
        lemma_digit_char(n as int);
        assert(decimal_digits(n).drop_last() == Seq::<char>::empty());
        assert(digits_value(Seq::<char>::empty()) == 0);
    } else {
        lemma_decimal_digits_value(n / 10);
        lemma_digit_char((n % 10) as int);
        let prefix = decimal_digits(n / 10);
        lemma_digits_value_push(prefix, digit_char((n % 10) as int));
        assert(decimal_digits(n) == prefix.push(digit_char((n % 10) as int)));
        assert(n == (n / 10) * 10 + n % 10);
        assert forall|i: int| 0 <= i < decimal_digits(n).len() implies is_digit(
            #[trigger] decimal_digits(n)[i],
        ) by {
            if i < prefix.len() {
                assert(decimal_digits(n)[i] == prefix[i]);
            }
        }
    }
}

/// Reading back the decimal text of a `u32` gives the number again: the
/// text that the app writes for a radius is one that it reads as that
/// radius.
pub proof fn law_decimal_reads_back(n: u32)
    ensures
        parse_u32_spec(decimal_text(n as int)) == Some(n),
{
    lemma_decimal_digits_value(n as nat);
    let text = decimal_digits(n as nat);
    assert(is_digit(text[0]));
}

/// Reading a number back from its digits: no digits are worth nothing, and
/// each further digit multiplies what came before by ten and adds its value.
pub proof fn lemma_digits_value_push(s: Seq<char>, c: char)
    ensures
        digits_value(Seq::<char>::empty()) == 0,
        digits_value(s.push(c)) == digits_value(s) * 10 + digit_value(c),
        '0' <= c <= '9' ==> digit_value(c) == c as int - '0' as int,
{
    assert(s.push(c).drop_last() == s);
}

/// A number written with more digits is at least the number written by the
/// first of them.
proof fn lemma_digits_value_grows(s: Seq<char>, i: int)
    requires
        0 <= i <= s.len(),
    ensures
        digits_value(s.take(i)) <= digits_value(s),
    decreases s.len() - i,
{
    if i < s.len() {
        lemma_digits_value_grows(s, i + 1);
        assert(s.take(i + 1) == s.take(i).push(s[i]));
        lemma_digits_value_push(s.take(i), s[i]);
    } else {
        assert(s.take(i) == s);
    }
}

/// The value of `str::parse::<u32>` on `s`: `Some` of the number exactly
/// when `s` is an optional `+` followed by one or more ASCII digits writing a
/// number that fits in a `u32`, else `None`.
pub fn parse_u32(s: &str) -> (res: Option<u32>)
    ensures
        res == parse_u32_spec(s@),
{
    let len: usize = s.unicode_len();
    let mut i: usize = 0;
    if len > 0 && s.get_char(0) == '+' {
        i = 1;
    }
    let start: usize = i;
    let ghost digits = if s@.len() > 0 && s@[0] == '+' { s@.drop_first() } else { s@ };
    assert(digits == s@.subrange(start as int, len as int));
    if start == len {
        return None;
    }
    let mut value: u64 = 0;
    while i < len
        invariant
            start <= i <= len,
            len == s@.len(),
            digits == s@.subrange(start as int, len as int),
            digits == (if s@.len() > 0 && s@[0] == '+' { s@.drop_first() } else { s@ }),
            digits.len() > 0,
            all_digits(digits.take(i - start)),
            value == digits_value(digits.take(i - start)),
            value <= u32::MAX,
        decreases len - i,
    {
        let c = s.get_char(i);
        assert(digits[i - start] == c);
        assert(digits.take(i - start + 1) == digits.take(i - start).push(c));
        if !('0' <= c && c <= '9') {
            assert(!all_digits(digits));
            return None;
        }
        proof {
            lemma_digits_value_push(digits.take(i - start), c);
        }
        let d: u64 = (c as u64) - ('0' as u64);
        value = value * 10 + d;
        if value > 4294967295u64 {
            proof {
                lemma_digits_value_grows(digits, i - start + 1);
            }
            return None;
        }
        i = i + 1;
    }
    assert(digits.take(i - start) == digits);
    Some(value as u32)
}

} // verus!
