//! Small helpers for texts: comparing them and writing numbers.

use vstd::prelude::*;
use vstd::string::*;
use vstd::utf8::is_ascii_chars;

verus! {

/// Whether two texts hold the same characters (`str`'s `==`).
#[verifier::external_body]
pub(crate) fn str_eq(a: &str, b: &str) -> (r: bool)
    ensures
        r == (a@ == b@),
{
    a == b
}

/// The character of a decimal digit.
pub open spec fn digit_char(d: nat) -> char {
    if d == 0 {
        '0'
    } else if d == 1 {
        '1'
    } else if d == 2 {
        '2'
    } else if d == 3 {
        '3'
    } else if d == 4 {
        '4'
    } else if d == 5 {
        '5'
    } else if d == 6 {
        '6'
    } else if d == 7 {
        '7'
    } else if d == 8 {
        '8'
    } else {
        '9'
    }
}

/// A number written in decimal digits, without leading zeros.
pub open spec fn decimal(n: nat) -> Seq<char>
    decreases n,
{
    if n < 10 {
        seq![digit_char(n)]
    } else {
        decimal(n / 10).push(digit_char(n % 10))
    }
}

/// The text of one decimal digit.
fn digit_str(d: u32) -> (s: &'static str)
    requires
        d < 10,
    ensures
        s@ == seq![digit_char(d as nat)],
{
    proof {
        reveal_strlit("0");
        reveal_strlit("1");
        reveal_strlit("2");
        reveal_strlit("3");
        reveal_strlit("4");
        reveal_strlit("5");
        reveal_strlit("6");
        reveal_strlit("7");
        reveal_strlit("8");
        reveal_strlit("9");
    }
    let s = if d == 0 {
        "0"
    } else if d == 1 {
        "1"
    } else if d == 2 {
        "2"
    } else if d == 3 {
        "3"
    } else if d == 4 {
        "4"
    } else if d == 5 {
        "5"
    } else if d == 6 {
        "6"
    } else if d == 7 {
        "7"
    } else if d == 8 {
        "8"
    } else {
        "9"
    };
    assert(s@ =~= seq![digit_char(d as nat)]);
    s
}

/// The digits of a number followed by more characters, where the number is
/// split into its upper part and its last digit.
proof fn lemma_decimal_step(n: nat, tail: Seq<char>)
    requires
        n >= 10,
    ensures
        decimal(n) + tail == decimal(n / 10) + (seq![digit_char(n % 10)] + tail),
{
    assert(decimal(n) + tail =~= decimal(n / 10) + (seq![digit_char(n % 10)] + tail));
}

/// Writes a number in decimal digits.
pub fn decimal_string(n: u32) -> (s: String)
    ensures
        s@ == decimal(n as nat),
{
    let mut rest: u32 = n;
    let mut out = String::new();
    while rest >= 10
        invariant
            decimal(n as nat) == decimal(rest as nat) + out@,
        decreases rest,
    {
        let digit = digit_str(rest % 10);
        proof {
            lemma_decimal_step(rest as nat, out@);
        }
        out = String::from_str(digit).concat(out.as_str());
        rest = rest / 10;
    }
    let r = String::from_str(digit_str(rest)).concat(out.as_str());
    assert(r@ =~= decimal(rest as nat) + out@);
    r
}

/// A signed number written in decimal digits, with a minus sign before a
/// negative one.
pub open spec fn signed_decimal(n: int) -> Seq<char> {
    if n < 0 {
        seq!['-'] + decimal((-n) as nat)
    } else {
        decimal(n as nat)
    }
}

/// Writes a signed number in decimal digits.
pub fn signed_decimal_string(n: i32) -> (s: String)
    ensures
        s@ == signed_decimal(n as int),
{
    if n >= 0 {
        decimal_string(n as u32)
    } else {
        proof {
            reveal_strlit("-");
        }
        let magnitude: u32 = if n == i32::MIN {
            0x8000_0000
        } else {
            (-n) as u32
        };
        let r = String::from_str("-").concat(decimal_string(magnitude).as_str());
        assert(r@ =~= seq!['-'] + decimal((-(n as int)) as nat));
        r
    }
}

/// Whether a character is a decimal digit.
pub open spec fn is_digit(c: char) -> bool {
    '0' <= c <= '9'
}

/// The number a decimal digit stands for.
pub open spec fn digit_of(c: char) -> nat {
    (c as u32 - 48) as nat
}

/// Whether every character is a decimal digit.
pub open spec fn all_digits(s: Seq<char>) -> bool {
    forall|i: int| 0 <= i < s.len() ==> is_digit(#[trigger] s[i])
}

/// The number that decimal digits write.
pub open spec fn number(digits: Seq<char>) -> nat
    decreases digits.len(),
{
    if digits.len() == 0 {
        0
    } else {
        number(digits.drop_last()) * 10 + digit_of(digits.last())
    }
}

/// The unsigned 32-bit number that a text writes: digits, with a plus sign
/// before them or without, that do not go beyond the largest such number.
pub open spec fn parsed_u32(s: Seq<char>) -> Option<u32> {
    let digits = if s.len() > 0 && s[0] == '+' {
        s.skip(1)
    } else {
        s
    };
    if digits.len() == 0 || !all_digits(digits) || number(digits) > u32::MAX {
        None
    } else {
        Some(number(digits) as u32)
    }
}

/// The signed 32-bit number that a text writes: digits, with a plus or a
/// minus sign before them or without, that stay within the range of such
/// numbers.
pub open spec fn parsed_i32(s: Seq<char>) -> Option<i32> {
    let signed = s.len() > 0 && (s[0] == '+' || s[0] == '-');
    let digits = if signed {
        s.skip(1)
    } else {
        s
    };
    let value = if s.len() > 0 && s[0] == '-' {
        -(number(digits) as int)
    } else {
        number(digits) as int
    };
    if digits.len() == 0 || !all_digits(digits) || value < i32::MIN || value > i32::MAX {
        None
    } else {
        Some(value as i32)
    }
}

/// More digits never write a smaller number.
pub proof fn lemma_number_grows(digits: Seq<char>, n: int)
    requires
        0 <= n <= digits.len(),
        all_digits(digits),
    ensures
        number(digits.subrange(0, n)) <= number(digits),
    decreases digits.len() - n,
{
    if n == digits.len() {
        assert(digits.subrange(0, n) =~= digits);
    } else {
        lemma_number_grows(digits, n + 1);
        let longer = digits.subrange(0, n + 1);
        assert(longer.drop_last() =~= digits.subrange(0, n));
        assert(is_digit(digits[n]));
        assert(longer.last() == digits[n]);
    }
}

/// Reads the number that the characters of an ASCII text write from a
/// position on, if they are digits, at least one, and write no more than a
/// limit.
fn read_number(s: &str, from: usize, limit: u64) -> (r: Option<u64>)
    requires
        is_ascii(s),
        from <= s@.len(),
        limit <= 0x1_0000_0000,
    ensures
        match r {
            Some(v) => s@.len() > from && all_digits(s@.skip(from as int)) && v == number(
                s@.skip(from as int),
            ) && v <= limit,
            None => s@.len() == from || !all_digits(s@.skip(from as int)) || number(
                s@.skip(from as int),
            ) > limit,
        },
{
    broadcast use is_ascii_spec_bytes;

    let bytes = s.as_bytes();
    let n = bytes.len();
    let ghost digits = s@.skip(from as int);
    if from >= n {
        return None;
    }
    let mut acc: u64 = 0;
    let mut i: usize = from;
    assert(digits.subrange(0, 0) =~= Seq::<char>::empty());
    while i < n
        invariant
            is_ascii(s),
            bytes@ == s.spec_bytes(),
            n == s@.len(),
            digits == s@.skip(from as int),
            from <= i <= n,
            limit <= 0x1_0000_0000,
            acc <= limit,
            acc == number(digits.subrange(0, i - from)),
            all_digits(digits.subrange(0, i - from)),
        decreases n - i,
    {
        let b = bytes[i];
        let ghost c = s@[i as int];
        let ghost head = digits.subrange(0, i - from);
        let ghost longer = digits.subrange(0, i - from + 1);
        proof {
            assert(bytes@[i as int] == c as u8);
            assert('\0' <= c <= '\u{7f}');
            assert(digits[i - from] == c);
            assert(longer.drop_last() =~= head);
            assert(longer.last() == c);
        }
        if b < 48 || b > 57 {
            assert(!is_digit(digits[i - from]));
            return None;
        }
        assert(is_digit(c));
        assert(digit_of(c) == (b - 48) as nat);
        let next = acc * 10 + (b - 48) as u64;
        assert(next == number(longer));
        assert(all_digits(longer)) by {
            assert forall|k: int| 0 <= k < longer.len() implies is_digit(#[trigger] longer[k]) by {
                if k < head.len() {
                    assert(head[k] == longer[k]);
                }
            }
        }
        if next > limit {
            proof {
                if all_digits(digits) {
                    lemma_number_grows(digits, i - from + 1);
                }
            }
            return None;
        }
        acc = next;
        i += 1;
    }
    assert(digits.subrange(0, n - from) =~= digits);
    Some(acc)
}

/// Reads an unsigned 32-bit number from its decimal writing.
pub fn parse_u32(s: &str) -> (r: Option<u32>)
    ensures
        r == parsed_u32(s@),
{
    broadcast use is_ascii_spec_bytes;

    if !s.is_ascii() {
        proof {
            lemma_not_ascii_not_digits(s@);
        }
        return None;
    }
    let bytes = s.as_bytes();
    let from: usize = if bytes.len() > 0 && bytes[0] == 43 {
        1
    } else {
        0
    };
    proof {
        if s@.len() > 0 {
            assert(bytes@[0] == s@[0] as u8);
            assert('\0' <= s@[0] <= '\u{7f}');
        }
        assert(s@.skip(0) =~= s@);
    }
    match read_number(s, from, 0xffff_ffff) {
        Some(v) => Some(v as u32),
        None => None,
    }
}

/// Reads a signed 32-bit number from its decimal writing.
pub fn parse_i32(s: &str) -> (r: Option<i32>)
    ensures
        r == parsed_i32(s@),
{
    broadcast use is_ascii_spec_bytes;

    if !s.is_ascii() {
        proof {
            lemma_not_ascii_not_digits(s@);
        }
        return None;
    }
    let bytes = s.as_bytes();
    let negative = bytes.len() > 0 && bytes[0] == 45;
    let from: usize = if bytes.len() > 0 && (bytes[0] == 43 || bytes[0] == 45) {
        1
    } else {
        0
    };
    proof {
        if s@.len() > 0 {
            assert(bytes@[0] == s@[0] as u8);
            assert('\0' <= s@[0] <= '\u{7f}');
        }
        assert(s@.skip(0) =~= s@);
    }
    if negative {
        match read_number(s, from, 0x8000_0000) {
            Some(v) => Some((0 - v as i64) as i32),
            None => None,
        }
    } else {
        match read_number(s, from, 0x7fff_ffff) {
            Some(v) => Some(v as i32),
            None => None,
        }
    }
}

/// A text that is not all ASCII writes no number, with a sign or without.
proof fn lemma_not_ascii_not_digits(s: Seq<char>)
    requires
        !is_ascii_chars(s),
    ensures
        !all_digits(s),
        s.len() > 0,
        !all_digits(s.skip(1)) || !(s[0] == '+' || s[0] == '-'),
{
    let i = choose|i: int| 0 <= i < s.len() && !('\0' <= #[trigger] s[i] <= '\u{7f}');
    assert(!is_digit(s[i]));
    if i > 0 {
        assert(s.skip(1)[i - 1] == s[i]);
        assert(!is_digit(s.skip(1)[i - 1]));
    }
}

} // verus!
