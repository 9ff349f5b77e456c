//! Decimal notation: the text of an integer, and the integer of a text.

use vstd::prelude::*;
use vstd::string::*;

verus! {

/// The byte of the plus sign.
const PLUS: u8 = 43;

/// The byte of the minus sign.
const MINUS: u8 = 45;

/// The byte of the digit zero.
const ZERO: u8 = 48;

/// The byte of the digit nine.
const NINE: u8 = 57;

/// The character that stands for the digit `d`.
pub open spec fn digit_char(d: nat) -> char
    recommends
        d < 10,
{
    ((d + 48) as u8) as char
}

/// Whether `c` is one of the ten decimal digits.
pub open spec fn is_digit(c: char) -> bool {
    '0' <= c && c <= '9'
}

/// The digit that `c` stands for.
pub open spec fn digit_value(c: char) -> nat
    recommends
        is_digit(c),
{
    (c as u32 - 48) as nat
}

/// The decimal digits of `n`, most significant first and without a leading
/// zero, except that zero is written `0`.
pub open spec fn digits(n: nat) -> Seq<char>
    decreases n,
{
    if n < 10 {
        seq![digit_char(n)]
    } else {
        digits(n / 10).push(digit_char(n % 10))
    }
}

/// The decimal text of `v`: its digits, after a minus sign if it is negative.
pub open spec fn decimal(v: int) -> Seq<char> {
    if v < 0 {
        seq!['-'] + digits((-v) as nat)
    } else {
        digits(v as nat)
    }
}

/// Whether `s` is a run of one or more decimal digits.
pub open spec fn is_numeral(s: Seq<char>) -> bool {
    s.len() > 0 && forall|i: int| 0 <= i < s.len() ==> is_digit(#[trigger] s[i])
}

/// The number that a run of digits denotes; leading zeros count for nothing.
pub open spec fn number(s: Seq<char>) -> nat
    decreases s.len(),
{
    if s.len() == 0 {
        0
    } else {
        number(s.drop_last()) * 10 + digit_value(s.last())
    }
}

/// The natural number that `s` denotes: a run of digits, with or without a
/// plus sign in front. Anything else denotes nothing.
pub open spec fn natural_of(s: Seq<char>) -> Option<nat> {
    let body = if s.len() > 0 && s[0] == '+' {
        s.drop_first()
    } else {
        s
    };
    if is_numeral(body) {
        Some(number(body))
    } else {
        None
    }
}

/// The integer that `s` denotes: a run of digits, with or without a plus or
/// minus sign in front. Anything else denotes nothing.
pub open spec fn integer_of(s: Seq<char>) -> Option<int> {
    if s.len() > 0 && s[0] == '-' {
        if is_numeral(s.drop_first()) {
            Some(-(number(s.drop_first()) as int))
        } else {
            None
        }
    } else {
        match natural_of(s) {
            Some(n) => Some(n as int),
            None => None,
        }
    }
}

/// The natural number that `s` denotes, if it is at most `max`.
pub open spec fn natural_within(s: Seq<char>, max: int) -> Option<int> {
    match natural_of(s) {
        Some(n) => if n <= max {
            Some(n as int)
        } else {
            None
        },
        None => None,
    }
}

/// The integer that `s` denotes, if it lies between `min` and `max`.
pub open spec fn integer_within(s: Seq<char>, min: int, max: int) -> Option<int> {
    match integer_of(s) {
        Some(v) => if min <= v && v <= max {
            Some(v)
        } else {
            None
        },
        None => None,
    }
}

/// A prefix of a run of digits denotes no more than the whole run.
proof fn lemma_number_prefix(s: Seq<char>, k: int)
    requires
        0 <= k <= s.len(),
    ensures
        number(s.subrange(0, k)) <= number(s),
    decreases s.len(),
{
    if k == s.len() {
        assert(s.subrange(0, k) =~= s);
    } else {
        assert(s.drop_last().subrange(0, k) =~= s.subrange(0, k));
        lemma_number_prefix(s.drop_last(), k);
    }
}

/// The digits of a number are a numeral that denotes it.
pub proof fn lemma_digits_denote(n: nat)
    ensures
        is_numeral(digits(n)),
        number(digits(n)) == n,
    decreases n,
{
    if n < 10 {
        assert(number(digits(n).drop_last()) == 0);
    } else {
        lemma_digits_denote(n / 10);
        assert(digits(n).drop_last() =~= digits(n / 10));
    }
}

/// Decimal text is read back as the integer it was written from.
pub proof fn lemma_decimal_round_trip(v: int)
    ensures
        integer_of(decimal(v)) == Some(v),
        v >= 0 ==> natural_of(decimal(v)) == Some(v as nat),
{
    if v < 0 {
        lemma_digits_denote((-v) as nat);
        assert(decimal(v).drop_first() =~= digits((-v) as nat));
    } else {
        lemma_digits_denote(v as nat);
    }
}

/// Text with a character outside ASCII denotes no number.
proof fn lemma_numbers_are_ascii(s: Seq<char>)
    requires
        !vstd::utf8::is_ascii_chars(s),
    ensures
        natural_of(s) is None,
        integer_of(s) is None,
{
    let i = choose|i: int| 0 <= i < s.len() && !('\0' <= #[trigger] s[i] <= '\u{7f}');
    if i > 0 {
        assert(!is_digit(s.drop_first()[i - 1]));
    }
}

/// The text of one digit.
fn digit_str(d: u128) -> (s: &'static str)
    requires
        d < 10,
    ensures
        s@ == seq![digit_char(d as nat)],
{
    proof {
        reveal_strlit("0");
        reveal_strlit("1");
        reveal_strlit("2");
        reveal_strlit("3");
        reveal_strlit("4");
        reveal_strlit("5");
        reveal_strlit("6");
        reveal_strlit("7");
        reveal_strlit("8");
        reveal_strlit("9");
    }
    if d == 0 {
        "0"
    } else if d == 1 {
        "1"
    } else if d == 2 {
        "2"
    } else if d == 3 {
        "3"
    } else if d == 4 {
        "4"
    } else if d == 5 {
        "5"
    } else if d == 6 {
        "6"
    } else if d == 7 {
        "7"
    } else if d == 8 {
        "8"
    } else {
        "9"
    }
}

/// Appends the digits of `v` to `out`.
fn push_digits(v: u128, out: &mut String)
    ensures
        final(out)@ == old(out)@ + digits(v as nat),
    decreases v,
{
    if v >= 10 {
        push_digits(v / 10, out);
    }
    out.append(digit_str(v % 10));
}

/// The decimal text of a number without sign.
pub fn format_unsigned(v: u128) -> (s: String)
    ensures
        s@ == decimal(v as int),
{
    let mut out = String::new();
    push_digits(v, &mut out);
    out
}

/// The decimal text of a number with sign.
pub fn format_signed(v: i128) -> (s: String)
    ensures
        s@ == decimal(v as int),
{
    let mut out = String::new();
    if v < 0 {
        proof {
            reveal_strlit("-");
        }
        out.append("-");
        let magnitude: u128 = if v == i128::MIN {
            170141183460469231731687303715884105728u128
        } else {
            (-v) as u128
        };
        push_digits(magnitude, &mut out);
    } else {
        push_digits(v as u128, &mut out);
    }
    out
}

/// Reads the run of digits that `text` holds from position `start` on, and
/// gives up as soon as it denotes more than `limit`.
fn parse_digits(text: &str, start: usize, limit: u128) -> (r: Option<u128>)
    requires
        is_ascii(text),
        start <= text@.len(),
    ensures
        r == (if is_numeral(text@.skip(start as int)) && number(text@.skip(start as int))
            <= limit {
            Some(number(text@.skip(start as int)) as u128)
        } else {
            None
        }),
{
    broadcast use is_ascii_spec_bytes;

    let bytes = text.as_bytes();
    let n = bytes.len();
    let ghost body = text@.skip(start as int);
    if start >= n {
        return None;
    }
    let mut acc: u128 = 0;
    let mut i: usize = start;
    while i < n
        invariant
            start <= i <= n,
            start < n,
            n == text@.len(),
            bytes@.len() == n,
            is_ascii(text),
            forall|j: int| 0 <= j < n ==> bytes@[j] == #[trigger] text@[j] as u8,
            body == text@.skip(start as int),
            forall|j: int| 0 <= j < i - start ==> is_digit(#[trigger] body[j]),
            acc == number(body.subrange(0, i - start)),
            acc <= limit,
        decreases n - i,
    {
        let b = bytes[i];
        let ghost next_run = body.subrange(0, i + 1 - start);
        proof {
            assert(next_run.drop_last() =~= body.subrange(0, i - start));
            lemma_number_prefix(body, i + 1 - start);
        }
        if b < ZERO || b > NINE {
            return None;
        }
        let d: u128 = (b - ZERO) as u128;
        let tenfold = match acc.checked_mul(10) {
            Some(t) => t,
            None => {
                return None;
            },
        };
        let next = match tenfold.checked_add(d) {
            Some(x) => x,
            None => {
                return None;
            },
        };
        if next > limit {
            return None;
        }
        acc = next;
        i += 1;
    }
    assert(body.subrange(0, n - start) =~= body);
    Some(acc)
}

/// The number without sign that `text` denotes, where it fits the widest
/// unsigned type.
pub fn parse_unsigned(text: &str) -> (r: Option<u128>)
    ensures
        r == match natural_within(text@, u128::MAX as int) {
            Some(n) => Some(n as u128),
            None => None,
        },
{
    if !text.is_ascii() {
        proof {
            lemma_numbers_are_ascii(text@);
        }
        return None;
    }
    broadcast use is_ascii_spec_bytes;

    let bytes = text.as_bytes();
    let start: usize = if bytes.len() > 0 && bytes[0] == PLUS {
        1
    } else {
        0
    };
    assert(text@.skip(0) =~= text@);
    parse_digits(text, start, u128::MAX)
}

/// The number with sign that `text` denotes, where it fits the widest signed
/// type.
pub fn parse_signed(text: &str) -> (r: Option<i128>)
    ensures
        r == match integer_within(text@, i128::MIN as int, i128::MAX as int) {
            Some(v) => Some(v as i128),
            None => None,
        },
{
    if !text.is_ascii() {
        proof {
            lemma_numbers_are_ascii(text@);
        }
        return None;
    }
    broadcast use is_ascii_spec_bytes;

    let bytes = text.as_bytes();
    assert(text@.skip(0) =~= text@);
    if bytes.len() > 0 && bytes[0] == MINUS {
        match parse_digits(text, 1, 170141183460469231731687303715884105728u128) {
            Some(magnitude) => {
                if magnitude == 170141183460469231731687303715884105728u128 {
                    Some(i128::MIN)
                } else {
                    Some(-(magnitude as i128))
                }
            },
            None => None,
        }
    } else {
        let start: usize = if bytes.len() > 0 && bytes[0] == PLUS {
            1
        } else {
            0
        };
        match parse_digits(text, start, 170141183460469231731687303715884105727u128) {
            Some(magnitude) => Some(magnitude as i128),
            None => None,
        }
    }
}

} // verus!
