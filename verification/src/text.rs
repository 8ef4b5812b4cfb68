//! Text the bot builds: numbers written in decimal, and numbers read back.
use vstd::prelude::*;
use vstd::string::{StrSliceExecFns, StringExecFns};

verus! {

/// The character of a decimal digit.
pub open spec fn digit_char(d: nat) -> char {
    if d == 0 {
        '0'
    } else if d == 1 {
        '1'
    } else if d == 2 {
        '2'
    } else if d == 3 {
        '3'
    } else if d == 4 {
        '4'
    } else if d == 5 {
        '5'
    } else if d == 6 {
        '6'
    } else if d == 7 {
        '7'
    } else if d == 8 {
        '8'
    } else {
        '9'
    }
}

/// A number written in decimal, without leading zeros.
pub open spec fn decimal(n: nat) -> Seq<char>
    decreases n,
{
    if n < 10 {
        seq![digit_char(n)]
    } else {
        decimal(n / 10) + seq![digit_char(n % 10)]
    }
}

/// A signed number written in decimal, with a minus sign when negative.
pub open spec fn signed_decimal(n: int) -> Seq<char> {
    if n < 0 {
        seq!['-'] + decimal((-n) as nat)
    } else {
        decimal(n as nat)
    }
}

/// The text of one decimal digit.
fn digit_str(d: u64) -> (r: &'static str)
    requires
        d < 10,
    ensures
        r@ == seq![digit_char(d as nat)],
{
    if d == 0 {
        proof {
            reveal_strlit("0");
        }
        "0"
    } else if d == 1 {
        proof {
            reveal_strlit("1");
        }
        "1"
    } else if d == 2 {
        proof {
            reveal_strlit("2");
        }
        "2"
    } else if d == 3 {
        proof {
            reveal_strlit("3");
        }
        "3"
    } else if d == 4 {
        proof {
            reveal_strlit("4");
        }
        "4"
    } else if d == 5 {
        proof {
            reveal_strlit("5");
        }
        "5"
    } else if d == 6 {
        proof {
            reveal_strlit("6");
        }
        "6"
    } else if d == 7 {
        proof {
            reveal_strlit("7");
        }
        "7"
    } else if d == 8 {
        proof {
            reveal_strlit("8");
        }
        "8"
    } else {
        proof {
            reveal_strlit("9");
        }
        "9"
    }
}

/// A number written in decimal.
pub fn u64_to_string(n: u64) -> (r: String)
    ensures
        r@ == decimal(n as nat),
    decreases n,
{
    if n < 10 {
        String::from_str(digit_str(n))
    } else {
        let head = u64_to_string(n / 10);
        head.concat(digit_str(n % 10))
    }
}

/// A signed number written in decimal.
pub fn i64_to_string(n: i64) -> (r: String)
    ensures
        r@ == signed_decimal(n as int),
{
    if n < 0 {
        let magnitude: u64 = if n == i64::MIN {
            9_223_372_036_854_775_808u64
        } else {
            (-n) as u64
        };
        proof {
            reveal_strlit("-");
        }
        let digits = u64_to_string(magnitude);
        String::from_str("-").concat(digits.as_str())
    } else {
        u64_to_string(n as u64)
    }
}

/// Appends `tail` to `text`.
pub fn push_text(text: &mut String, tail: &str)
    ensures
        final(text)@ == old(text)@ + tail@,
{
    text.append(tail);
}

/// The value of a decimal digit character.
pub open spec fn digit_value(c: char) -> int {
    c as int - '0' as int
}

/// The character is an ASCII decimal digit.
pub open spec fn is_digit(c: char) -> bool {
    '0' <= c && c <= '9'
}

/// The number that a non-empty run of decimal digits stands for.
pub open spec fn digits_value(s: Seq<char>) -> int
    decreases s.len(),
{
    if s.len() == 0 {
        0
    } else {
        digits_value(s.drop_last()) * 10 + digit_value(s.last())
    }
}

/// Every character of the text is a decimal digit.
pub open spec fn all_digits(s: Seq<char>) -> bool {
    forall|i: int| 0 <= i < s.len() ==> is_digit(#[trigger] s[i])
}

/// The text without a leading `+`, if it has one.
pub open spec fn sign_stripped(s: Seq<char>) -> Seq<char> {
    if s.len() > 0 && s[0] == '+' {
        s.drop_first()
    } else {
        s
    }
}

/// What reading the text as a `u16` gives, the way Rust's standard parser
/// reads it: an optional `+`, then one or more decimal digits whose value
/// fits in a `u16`.
pub open spec fn parse_u16_spec(s: Seq<char>) -> Option<u16> {
    let digits = sign_stripped(s);
    if digits.len() > 0 && all_digits(digits) && digits_value(digits) <= u16::MAX {
        Some(digits_value(digits) as u16)
    } else {
        None
    }
}

proof fn lemma_digits_value_nonneg(s: Seq<char>)
    requires
        forall|i: int| 0 <= i < s.len() ==> is_digit(#[trigger] s[i]),
    ensures
        digits_value(s) >= 0,
        s.len() > 0 ==> digits_value(s) >= digits_value(s.drop_last()),
    decreases s.len(),
{
    if s.len() > 0 {
        assert(is_digit(s[s.len() - 1]));
        lemma_digits_value_nonneg(s.drop_last());
    }
}

/// Reads a text as a `u16` the way Rust's standard parser does.
pub fn parse_u16(s: &str) -> (r: Option<u16>)
    ensures
        r == parse_u16_spec(s@),
{
    let len = s.unicode_len();
    let mut start: usize = 0;
    if len > 0 && s.get_char(0) == '+' {
        start = 1;
    }
    let ghost digits = sign_stripped(s@);
    if start >= len {
        return None;
    }
    let mut value: u32 = 0;
    let mut i: usize = start;
    while i < len
        invariant
            start <= i <= len,
            len == s@.len(),
            start == s@.len() - digits.len(),
            digits == s@.subrange(start as int, s@.len() as int),
            digits == sign_stripped(s@),
            forall|j: int| 0 <= j < i - start ==> is_digit(#[trigger] digits[j]),
            value == digits_value(digits.subrange(0, i - start)),
            value <= u16::MAX,
        decreases len - i,
    {
        let c = s.get_char(i);
        let ghost p = digits.subrange(0, i - start);
        let ghost q = digits.subrange(0, i - start + 1);
        assert(q.drop_last() == p);
        assert(q.last() == c);
        assert(c == digits[i - start]);
        if !('0' <= c && c <= '9') {
            proof {
                assert(!is_digit(digits[i - start]));
                assert(!all_digits(digits));
                assert(parse_u16_spec(s@) is None);
            }
            return None;
        }
        let d = (c as u32) - ('0' as u32);
        proof {
            assert(forall|j: int| 0 <= j < q.len() ==> is_digit(#[trigger] q[j]));
            lemma_digits_value_nonneg(q);
        }
        value = value * 10 + d;
        assert(value == digits_value(q));
        if value > 65535 {
            proof {
                lemma_prefix_value_bound(digits, i - start + 1);
                if all_digits(digits) {
                    assert(digits_value(digits) > u16::MAX);
                }
                assert(parse_u16_spec(s@) is None);
            }
            return None;
        }
        i = i + 1;
    }
    proof {
        assert(digits.subrange(0, len - start) == digits);
    }
    Some(value as u16)
}

/// A run of digits is worth at least any of its prefixes.
proof fn lemma_prefix_value_bound(s: Seq<char>, n: int)
    requires
        0 <= n <= s.len(),
        forall|i: int| 0 <= i < n ==> is_digit(#[trigger] s[i]),
    ensures
        (forall|i: int| 0 <= i < s.len() ==> is_digit(#[trigger] s[i])) ==> digits_value(s)
            >= digits_value(s.subrange(0, n)),
    decreases s.len() - n,
{
    if n < s.len() && (forall|i: int| 0 <= i < s.len() ==> is_digit(#[trigger] s[i])) {
        lemma_prefix_value_bound(s, n + 1);
        let q = s.subrange(0, n + 1);
        assert(q.drop_last() == s.subrange(0, n));
        assert(forall|i: int| 0 <= i < q.len() ==> is_digit(#[trigger] q[i]));
        lemma_digits_value_nonneg(q);
    } else if n == s.len() {
        assert(s.subrange(0, n) == s);
    }
}

} // verus!
