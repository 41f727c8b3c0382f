//! Decimal numerals: what a text says as an integer, and how an integer is
//! written.

use vstd::prelude::*;
use vstd::string::StringExecFns;
use vstd::string::StringSliceAdditionalSpecFns;

verus! {

/// Whether `c` is one of the ten decimal digits.
pub open spec fn is_digit(c: char) -> bool {
    '0' <= c && c <= '9'
}

/// The number that the digit `c` stands for.
pub open spec fn digit_value(c: char) -> int {
    c as u32 as int - 48
}

/// The digit that stands for `d`, for `d` from 0 to 9.
pub open spec fn digit_char(d: int) -> char {
    ((d + 48) as u8) as char
}

/// Whether `s` holds digits only.
pub open spec fn all_digits(s: Seq<char>) -> bool {
    forall|i: int| 0 <= i < s.len() ==> is_digit(#[trigger] s[i])
}

/// The number that a run of digits stands for, the first digit counting most.
pub open spec fn digits_value(s: Seq<char>) -> int
    decreases s.len(),
{
    if s.len() == 0 {
        0
    } else {
        digits_value(s.drop_last()) * 10 + digit_value(s.last())
    }
}

/// The integer that `s` is a numeral of: an optional `+` or `-`, then one or
/// more digits and nothing else. Any other text is no numeral.
pub open spec fn parse_decimal(s: Seq<char>) -> Option<int> {
    if s.len() == 0 {
        None
    } else if s[0] == '-' || s[0] == '+' {
        let body = s.subrange(1, s.len() as int);
        if body.len() > 0 && all_digits(body) {
            if s[0] == '-' {
                Some(-digits_value(body))
            } else {
                Some(digits_value(body))
            }
        } else {
            None
        }
    } else if all_digits(s) {
        Some(digits_value(s))
    } else {
        None
    }
}

/// The digits of `n`, without leading zeros.
pub open spec fn digits_of(n: nat) -> Seq<char>
    decreases n,
{
    if n < 10 {
        seq![digit_char(n as int)]
    } else {
        digits_of(n / 10) + seq![digit_char((n % 10) as int)]
    }
}

/// The decimal text of `n`: its digits, after a `-` where it is negative.
pub open spec fn decimal_text(n: int) -> Seq<char> {
    if n < 0 {
        seq!['-'] + digits_of((-n) as nat)
    } else {
        digits_of(n as nat)
    }
}

/// A run of digits followed by one more digit counts ten times the run plus
/// that digit.
pub proof fn lemma_digits_value_push(s: Seq<char>, c: char)
    ensures
        digits_value(s + seq![c]) == digits_value(s) * 10 + digit_value(c),
        digits_value(s.push(c)) == digits_value(s) * 10 + digit_value(c),
{
    assert((s + seq![c]).drop_last() =~= s);
    assert(s.push(c).drop_last() =~= s);
}

/// A run of digits stands for no less than any of its beginnings.
pub proof fn lemma_digits_value_grows(s: Seq<char>, k: int)
    requires
        all_digits(s),
        0 <= k <= s.len(),
    ensures
        0 <= digits_value(s.take(k)) <= digits_value(s),
    decreases s.len() - k,
{
    lemma_digits_value_nonnegative(s.take(k));
    if k < s.len() {
        lemma_digits_value_grows(s, k + 1);
        assert(s.take(k + 1).drop_last() =~= s.take(k));
        assert(is_digit(s[k]));
    } else {
        assert(s.take(k) =~= s);
    }
}

/// A run of digits stands for a number that is not negative.
pub proof fn lemma_digits_value_nonnegative(s: Seq<char>)
    requires
        all_digits(s),
    ensures
        0 <= digits_value(s),
    decreases s.len(),
{
    if s.len() > 0 {
        lemma_digits_value_nonnegative(s.drop_last());
        assert(is_digit(s.last()));
    }
}

/// A text that holds, after its first character, anything but a digit is
/// no numeral; nor is one whose first character is neither a digit nor a
/// sign.
pub proof fn lemma_numeral_has_digits_only(s: Seq<char>, i: int)
    requires
        0 <= i < s.len(),
        !is_digit(s[i]),
        i > 0 || (s[0] != '-' && s[0] != '+'),
    ensures
        parse_decimal(s) is None,
{
    if s[0] == '-' || s[0] == '+' {
        let body = s.subrange(1, s.len() as int);
        assert(body[i - 1] == s[i]);
    }
}

/// The digits of `n` are digits, at least one, and stand for `n`.
pub proof fn lemma_digits_of(n: nat)
    ensures
        all_digits(digits_of(n)),
        digits_of(n).len() > 0,
        digits_value(digits_of(n)) == n,
    decreases n,
{
    if n < 10 {
        let s = seq![digit_char(n as int)];
        assert(s.drop_last() =~= Seq::<char>::empty());
        assert(digits_value(s.drop_last()) == 0);
    } else {
        lemma_digits_of(n / 10);
        lemma_digits_value_push(digits_of(n / 10), digit_char((n % 10) as int));
    }
}

/// Reading the decimal text of an integer gives that integer back.
pub proof fn lemma_parse_decimal_text(n: int)
    ensures
        parse_decimal(decimal_text(n)) == Some(n),
{
    if n < 0 {
        let body = digits_of((-n) as nat);
        lemma_digits_of((-n) as nat);
        let s = decimal_text(n);
        assert(s.subrange(1, s.len() as int) =~= body);
    } else {
        lemma_digits_of(n as nat);
        assert(is_digit(digits_of(n as nat)[0]));
    }
}

/// The one-character text of the digit `d`.
fn digit_text(d: u8) -> (text: &'static str)
    requires
        d < 10,
    ensures
        text@ == seq![digit_char(d as int)],
{
    proof {
        reveal_strlit("0");
        reveal_strlit("1");
        reveal_strlit("2");
        reveal_strlit("3");
        reveal_strlit("4");
        reveal_strlit("5");
        reveal_strlit("6");
        reveal_strlit("7");
        reveal_strlit("8");
        reveal_strlit("9");
    }
    let text = match d {
        0 => "0",
        1 => "1",
        2 => "2",
        3 => "3",
        4 => "4",
        5 => "5",
        6 => "6",
        7 => "7",
        8 => "8",
        _ => "9",
    };
    assert(text@ =~= seq![digit_char(d as int)]);
    text
}

/// Writes `v` in decimal.
pub fn unsigned_text(v: u64) -> (text: String)
    ensures
        text@ == decimal_text(v as int),
    decreases v,
{
    if v < 10 {
        String::from_str(digit_text(v as u8))
    } else {
        let mut text = unsigned_text(v / 10);
        text.append(digit_text((v % 10) as u8));
        text
    }
}

/// Writes `v` in decimal, with a leading `-` where it is negative.
pub fn signed_text(v: i64) -> (text: String)
    ensures
        text@ == decimal_text(v as int),
{
    if v < 0 {
        let magnitude: u64 = ((-(v + 1)) as u64) + 1;
        let digits = unsigned_text(magnitude);
        let mut text = String::from_str("-");
        proof {
            reveal_strlit("-");
        }
        text.append(digits.as_str());
        assert(text@ =~= seq!['-'] + digits_of((-v) as nat));
        text
    } else {
        unsigned_text(v as u64)
    }
}

/// Reads `s` as a decimal numeral of an `i64`: `None` where `s` is no
/// numeral, or is one of an integer that an `i64` cannot hold.
#[verifier::loop_isolation(false)]
pub fn read_signed(s: &str) -> (read: Option<i64>)
    ensures
        read == match parse_decimal(s@) {
            Some(n) => if i64::MIN <= n <= i64::MAX {
                Some(n as i64)
            } else {
                None
            },
            None => None,
        },
{
    if !s.is_ascii() {
        proof {
            let i = choose|i: int| 0 <= i < s@.len() && !('\0' <= #[trigger] s@[i] <= '\u{7f}');
            if parse_decimal(s@) is Some {
                if s@[0] == '-' || s@[0] == '+' {
                    let body = s@.subrange(1, s@.len() as int);
                    assert(i > 0);
                    assert(is_digit(body[i - 1]));
                } else {
                    assert(is_digit(s@[i]));
                }
            }
        }
        return None;
    }
    let bytes = s.as_bytes();
    let n = bytes.len();
    proof {
        vstd::string::is_ascii_spec_bytes(s);
    }
    if n == 0 {
        return None;
    }
    let negative = bytes[0] == 45u8;
    let start: usize = if bytes[0] == 45u8 || bytes[0] == 43u8 {
        1
    } else {
        0
    };
    assert(s@[0] <= '\u{7f}');
    let ghost body = s@.subrange(start as int, n as int);
    proof {
        if start == 0 {
            assert(body =~= s@);
        }
    }
    if start == n {
        return None;
    }
    let limit: u128 = if negative {
        9223372036854775808
    } else {
        9223372036854775807
    };
    let mut acc: u128 = 0;
    let mut i: usize = start;
    proof {
        assert(body.take(0) =~= Seq::<char>::empty());
    }
    while i < n
        invariant
            start <= i <= n,
            n == s@.len(),
            n == bytes@.len(),
            vstd::string::is_ascii(s),
            bytes@ == s.spec_bytes(),
            s.spec_bytes() =~= Seq::new(s@.len(), |k| s@.index(k) as u8),
            body == s@.subrange(start as int, n as int),
            all_digits(body.take(i - start)),
            acc == digits_value(body.take(i - start)),
            acc <= limit,
            limit <= 9223372036854775808,
        decreases n - i,
    {
        let b = bytes[i];
        assert(s@[i as int] <= '\u{7f}');
        assert(b == s@[i as int] as u8);
        assert(body[i - start] == s@[i as int]);
        if b < 48 || b > 57 {
            assert(!is_digit(body[i - start]));
            return None;
        }
        let d: u128 = (b - 48) as u128;
        proof {
            assert(is_digit(body[i - start]));
            assert(d == digit_value(body[i - start]));
            assert(body.take(i - start + 1) =~= body.take(i - start).push(body[i - start]));
            lemma_digits_value_push(body.take(i - start), body[i - start]);
        }
        let next: u128 = acc * 10 + d;
        if next > limit {
            proof {
                if all_digits(body) {
                    lemma_digits_value_grows(body, i - start + 1);
                }
            }
            return None;
        }
        acc = next;
        i = i + 1;
    }
    proof {
        assert(body.take(n - start) =~= body);
    }
    if negative {
        Some((0i128 - acc as i128) as i64)
    } else {
        Some(acc as i64)
    }
}

} // verus!
