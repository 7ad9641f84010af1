//! Whole numbers as decimal text, the way ids travel in cookies and
//! tokens, and back.
use vstd::prelude::*;
use vstd::string::StringExecFns;

verus! {

/// The character of a decimal digit.
pub open spec fn digit_char(d: int) -> char {
    if d == 0 {
        '0'
    } else if d == 1 {
        '1'
    } else if d == 2 {
        '2'
    } else if d == 3 {
        '3'
    } else if d == 4 {
        '4'
    } else if d == 5 {
        '5'
    } else if d == 6 {
        '6'
    } else if d == 7 {
        '7'
    } else if d == 8 {
        '8'
    } else {
        '9'
    }
}

/// The digit that a character stands for, if it is a decimal digit.
pub open spec fn digit_value(c: char) -> Option<int> {
    if c == '0' {
        Some(0)
    } else if c == '1' {
        Some(1)
    } else if c == '2' {
        Some(2)
    } else if c == '3' {
        Some(3)
    } else if c == '4' {
        Some(4)
    } else if c == '5' {
        Some(5)
    } else if c == '6' {
        Some(6)
    } else if c == '7' {
        Some(7)
    } else if c == '8' {
        Some(8)
    } else if c == '9' {
        Some(9)
    } else {
        None
    }
}

/// The decimal digits of a natural number, without leading zeros.
pub open spec fn nat_digits(n: nat) -> Seq<char>
    decreases n,
{
    if n < 10 {
        seq![digit_char(n as int)]
    } else {
        nat_digits(n / 10).push(digit_char((n % 10) as int))
    }
}

/// The decimal text of a whole number: its digits, after a minus sign
/// where it is negative.
pub open spec fn decimal(n: int) -> Seq<char> {
    if n < 0 {
        seq!['-'] + nat_digits((-n) as nat)
    } else {
        nat_digits(n as nat)
    }
}

/// The number that a text of decimal digits stands for; `None` for the
/// empty text and for a text that holds anything but digits.
pub open spec fn digits_value(s: Seq<char>) -> Option<nat>
    decreases s.len(),
{
    if s.len() == 0 {
        None
    } else {
        match digit_value(s.last()) {
            None => None,
            Some(d) => if s.len() == 1 {
                Some(d as nat)
            } else {
                match digits_value(s.drop_last()) {
                    None => None,
                    Some(front) => Some((front * 10 + d) as nat),
                }
            },
        }
    }
}

/// The whole number that a text stands for: an optional sign, then
/// decimal digits, at least one. `None` for every other text.
pub open spec fn signed_value(s: Seq<char>) -> Option<int> {
    if s.len() > 0 && s[0] == '-' {
        match digits_value(s.drop_first()) {
            Some(v) => Some(-(v as int)),
            None => None,
        }
    } else if s.len() > 0 && s[0] == '+' {
        match digits_value(s.drop_first()) {
            Some(v) => Some(v as int),
            None => None,
        }
    } else {
        match digits_value(s) {
            Some(v) => Some(v as int),
            None => None,
        }
    }
}

/// The 64-bit number that a text stands for; `None` as well for a number
/// outside the range.
pub open spec fn parsed_i64(s: Seq<char>) -> Option<i64> {
    match signed_value(s) {
        Some(n) => if i64::MIN <= n <= i64::MAX {
            Some(n as i64)
        } else {
            None
        },
        None => None,
    }
}

/// The digits of a number stand for the number.
pub proof fn lemma_digits_round_trip(n: nat)
    ensures
        digits_value(nat_digits(n)) == Some(n),
        nat_digits(n).len() > 0,
        digit_value(nat_digits(n)[0]) is Some,
    decreases n,
{
    if n >= 10 {
        lemma_digits_round_trip(n / 10);
        let front = nat_digits(n / 10);
        let all = front.push(digit_char((n % 10) as int));
        assert(all.drop_last() =~= front);
        assert(all.last() == digit_char((n % 10) as int));
        assert(all[0] == front[0]);
    }
}

/// Reading the decimal text of a 64-bit number gives the number back.
pub proof fn law_decimal_round_trip(n: i64)
    ensures
        parsed_i64(decimal(n as int)) == Some(n),
{
    if n < 0 {
        let body = nat_digits((-n) as nat);
        lemma_digits_round_trip((-n) as nat);
        assert(decimal(n as int).drop_first() =~= body);
        assert(decimal(n as int)[0] == '-');
    } else {
        lemma_digits_round_trip(n as nat);
    }
}

/// The text of one decimal digit.
fn digit_text(d: u8) -> (r: &'static str)
    requires
        d < 10,
    ensures
        r@ == seq![digit_char(d as int)],
{
    proof {
        reveal_strlit("0");
        reveal_strlit("1");
        reveal_strlit("2");
        reveal_strlit("3");
        reveal_strlit("4");
        reveal_strlit("5");
        reveal_strlit("6");
        reveal_strlit("7");
        reveal_strlit("8");
        reveal_strlit("9");
    }
    let r = if d == 0 {
        "0"
    } else if d == 1 {
        "1"
    } else if d == 2 {
        "2"
    } else if d == 3 {
        "3"
    } else if d == 4 {
        "4"
    } else if d == 5 {
        "5"
    } else if d == 6 {
        "6"
    } else if d == 7 {
        "7"
    } else if d == 8 {
        "8"
    } else {
        "9"
    };
    proof {
        assert(r@ =~= seq![digit_char(d as int)]);
    }
    r
}

/// The decimal digits of a number, without leading zeros.
pub fn digits_of(n: u64) -> (r: String)
    ensures
        r@ == nat_digits(n as nat),
{
    // the digits from the last to the first
    let mut rest: u64 = n / 10;
    let mut low: Vec<u8> = Vec::new();
    low.push((n % 10) as u8);
    let ghost tail: Seq<char> = seq![digit_char((n % 10) as int)];
    proof {
        assert(nat_digits(n as nat) =~= if n < 10 {
            tail
        } else {
            nat_digits(rest as nat) + tail
        });
    }
    while rest > 0
        invariant
            low.len() == tail.len(),
            low.len() > 0,
            forall|k: int| 0 <= k < low.len() ==> low@[k] < 10,
            forall|k: int|
                0 <= k < low.len() ==> tail[low.len() - 1 - k] == digit_char(
                    (#[trigger] low@[k]) as int,
                ),
            nat_digits(n as nat) == if rest == 0 {
                tail
            } else {
                nat_digits(rest as nat) + tail
            },
        decreases rest,
    {
        let d = (rest % 10) as u8;
        proof {
            let head = digit_char(d as int);
            let grown = seq![head] + tail;
            if rest < 10 {
                assert(nat_digits(rest as nat) + tail =~= grown);
            } else {
                assert(nat_digits(rest as nat) + tail =~= nat_digits((rest / 10) as nat) + grown);
            }
            tail = grown;
        }
        low.push(d);
        rest = rest / 10;
    }
    let mut out = String::new();
    let mut i: usize = low.len();
    proof {
        assert(out@ =~= tail.take(0));
    }
    while i > 0
        invariant
            i <= low.len(),
            low.len() == tail.len(),
            forall|k: int| 0 <= k < low.len() ==> low@[k] < 10,
            forall|k: int|
                0 <= k < low.len() ==> tail[low.len() - 1 - k] == digit_char(
                    (#[trigger] low@[k]) as int,
                ),
            out@ == tail.take(low.len() - i),
        decreases i,
    {
        i -= 1;
        let piece = digit_text(low[i]);
        proof {
            assert(tail.take(low.len() - i) =~= tail.take(low.len() - i - 1) + piece@);
        }
        out.append(piece);
    }
    proof {
        assert(tail.take(tail.len() as int) =~= tail);
    }
    out
}

/// The decimal text of a number.
pub fn to_decimal(n: i64) -> (r: String)
    ensures
        r@ == decimal(n as int),
{
    if n < 0 {
        let magnitude: u64 = if n == i64::MIN {
            9223372036854775808u64
        } else {
            (-n) as u64
        };
        proof {
            reveal_strlit("-");
            assert("-"@ =~= seq!['-']);
        }
        "-".to_owned().concat(digits_of(magnitude).as_str())
    } else {
        digits_of(n as u64)
    }
}

/// The digit that a character stands for.
fn digit_of(c: char) -> (r: Option<u8>)
    ensures
        match r {
            Some(d) => d < 10 && digit_value(c) == Some(d as int),
            None => digit_value(c) is None,
        },
{
    if c == '0' {
        Some(0)
    } else if c == '1' {
        Some(1)
    } else if c == '2' {
        Some(2)
    } else if c == '3' {
        Some(3)
    } else if c == '4' {
        Some(4)
    } else if c == '5' {
        Some(5)
    } else if c == '6' {
        Some(6)
    } else if c == '7' {
        Some(7)
    } else if c == '8' {
        Some(8)
    } else if c == '9' {
        Some(9)
    } else {
        None
    }
}

/// Reads a 64-bit number from its decimal text: an optional sign, then
/// digits. Leading zeros are read over.
pub fn parse_decimal(text: &str) -> (r: Option<i64>)
    ensures
        r == parsed_i64(text@),
{
    let chars = crate::text::chars_of(text);
    let n = chars.len();
    if n == 0 {
        return None;
    }
    let negative = chars[0] == '-';
    let start: usize = if chars[0] == '-' || chars[0] == '+' {
        1
    } else {
        0
    };
    let ghost body = chars@.subrange(start as int, n as int);
    proof {
        if start == 1 {
            assert(body =~= text@.drop_first());
        } else {
            assert(body =~= text@);
        }
    }
    if start == n {
        return None;
    }
    // the magnitude read so far, or the mark that it has left the range
    let mut magnitude: u64 = 0;
    let mut too_large = false;
    let mut i: usize = start;
    let limit: u64 = 9223372036854775808u64;
    while i < n
        invariant
            start <= i <= n,
            start < n,
            start <= 1,
            n == chars.len(),
            chars@ == text@,
            start == 1 ==> body == text@.drop_first() && (text@[0] == '-' || text@[0] == '+'),
            start == 0 ==> body == text@ && text@[0] != '-' && text@[0] != '+',
            limit == 9223372036854775808u64,
            body == chars@.subrange(start as int, n as int),
            magnitude <= limit,
            i > start ==> digits_value(body.take(i - start)) is Some,
            i > start && !too_large ==> digits_value(body.take(i - start)) == Some(
                magnitude as nat,
            ),
            i > start && too_large ==> digits_value(body.take(i - start))->0 > limit,
            i == start ==> magnitude == 0 && !too_large,
        decreases n - i,
    {
        let ghost seen = body.take(i - start);
        let ghost next = body.take(i - start + 1);
        proof {
            assert(next.drop_last() =~= seen);
            assert(next.last() == chars@[i as int]);
        }
        let d = match digit_of(chars[i]) {
            Some(d) => d,
            None => {
                proof {
                    assert(body[i - start] == chars@[i as int]);
                    lemma_bad_digit(body, i - start);
                }
                return None;
            },
        };
        if !too_large {
            if magnitude > (limit - d as u64) / 10 {
                too_large = true;
            } else {
                magnitude = magnitude * 10 + d as u64;
            }
        }
        i += 1;
    }
    proof {
        assert(body.take(n - start) =~= body);
    }
    if too_large {
        return None;
    }
    if negative {
        if magnitude == limit {
            Some(i64::MIN)
        } else {
            Some(-(magnitude as i64))
        }
    } else if magnitude == limit {
        None
    } else {
        Some(magnitude as i64)
    }
}

/// A text with a character that is no digit stands for no number.
proof fn lemma_bad_digit(s: Seq<char>, k: int)
    requires
        0 <= k < s.len(),
        digit_value(s[k]) is None,
    ensures
        digits_value(s) is None,
    decreases s.len(),
{
    if k < s.len() - 1 {
        lemma_bad_digit(s.drop_last(), k);
    }
}

} // verus!
