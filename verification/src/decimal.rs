//! Decimal numerals: writing integers as decimal text and reading them back.
//!
//! The serial protocol carries every number as ASCII decimal, so both
//! directions are specified here: `dec_numeral` says what the text of an
//! integer is, and `is_numeral` / `numeral_value` say which strings denote an
//! integer and which one.

use vstd::prelude::*;
use vstd::string::StrSliceExecFns;
use vstd::string::StringExecFns;

verus! {

/// The decimal digit character for a value below ten.
pub open spec fn digit_char(d: nat) -> char {
    if d == 0 {
        '0'
    } else if d == 1 {
        '1'
    } else if d == 2 {
        '2'
    } else if d == 3 {
        '3'
    } else if d == 4 {
        '4'
    } else if d == 5 {
        '5'
    } else if d == 6 {
        '6'
    } else if d == 7 {
        '7'
    } else if d == 8 {
        '8'
    } else {
        '9'
    }
}

/// The decimal digits of a nonnegative integer, most significant first,
/// with no leading zeros.
pub open spec fn dec_digits(n: nat) -> Seq<char>
    decreases n,
{
    if n < 10 {
        seq![digit_char(n)]
    } else {
        dec_digits(n / 10).push(digit_char(n % 10))
    }
}

/// The decimal numeral of an integer: its digits, preceded by '-' when
/// negative.
pub open spec fn dec_numeral(v: int) -> Seq<char> {
    if v < 0 {
        seq!['-'] + dec_digits((-v) as nat)
    } else {
        dec_digits(v as nat)
    }
}

/// Whether a character is a decimal digit.
pub open spec fn is_digit(c: char) -> bool {
    c == '0' || c == '1' || c == '2' || c == '3' || c == '4' || c == '5' || c == '6' || c == '7'
        || c == '8' || c == '9'
}

/// The value of a digit character.
pub open spec fn digit_value(c: char) -> nat
    recommends
        is_digit(c),
{
    if c == '0' {
        0
    } else if c == '1' {
        1
    } else if c == '2' {
        2
    } else if c == '3' {
        3
    } else if c == '4' {
        4
    } else if c == '5' {
        5
    } else if c == '6' {
        6
    } else if c == '7' {
        7
    } else if c == '8' {
        8
    } else {
        9
    }
}

/// The value of a digit string, read left to right.
pub open spec fn digits_value(s: Seq<char>) -> int
    decreases s.len(),
{
    if s.len() == 0 {
        0
    } else {
        digits_value(s.drop_last()) * 10 + digit_value(s.last())
    }
}

/// The digit part of a numeral: everything after an optional leading sign.
pub open spec fn numeral_body(s: Seq<char>) -> Seq<char> {
    if s.len() > 0 && (s[0] == '-' || s[0] == '+') {
        s.drop_first()
    } else {
        s
    }
}

/// Whether a string is a decimal numeral: an optional sign followed by at
/// least one digit, and nothing else.
pub open spec fn is_numeral(s: Seq<char>) -> bool {
    &&& numeral_body(s).len() > 0
    &&& forall|i: int| 0 <= i < numeral_body(s).len() ==> is_digit(numeral_body(s)[i])
}

/// The integer a numeral denotes.
pub open spec fn numeral_value(s: Seq<char>) -> int
    recommends
        is_numeral(s),
{
    if s.len() > 0 && s[0] == '-' {
        -digits_value(numeral_body(s))
    } else {
        digits_value(numeral_body(s))
    }
}

/// Whether a string is a decimal numeral denoting a value in `i64` range.
pub open spec fn is_i64_numeral(s: Seq<char>) -> bool {
    is_numeral(s) && i64::MIN <= numeral_value(s) <= i64::MAX
}

/// Why a string failed to read as an `i64`, mirroring the distinctions std's
/// integer parsing reports.
#[derive(Clone, Copy, Debug, PartialEq, Eq, Structural)]
pub enum IntParseError {
    /// The string was empty.
    Empty,
    /// The string held a character that is not part of a signed numeral.
    InvalidDigit,
    /// The numeral exceeds `i64::MAX`.
    TooLarge,
    /// The numeral is below `i64::MIN`.
    TooSmall,
}

/// The error that reading a given non-`i64` string reports.
pub open spec fn parse_error_kind(s: Seq<char>) -> IntParseError
    recommends
        !(is_numeral(s) && i64::MIN <= numeral_value(s) <= i64::MAX),
{
    if s.len() == 0 {
        IntParseError::Empty
    } else if !is_numeral(s) {
        IntParseError::InvalidDigit
    } else if numeral_value(s) > i64::MAX {
        IntParseError::TooLarge
    } else {
        IntParseError::TooSmall
    }
}

/// A digit string's value never goes negative.
proof fn lemma_digits_value_nonneg(s: Seq<char>)
    ensures
        digits_value(s) >= 0,
    decreases s.len(),
{
    if s.len() > 0 {
        lemma_digits_value_nonneg(s.drop_last());
    }
}

/// Reading more digits never lowers a digit string's value.
proof fn lemma_digits_value_prefix_le(s: Seq<char>, i: int)
    requires
        0 <= i <= s.len(),
    ensures
        digits_value(s.take(i)) <= digits_value(s),
    decreases s.len() - i,
{
    if i < s.len() {
        assert(s.take(i + 1).drop_last() =~= s.take(i));
        assert(s.take(i + 1).last() == s[i]);
        lemma_digits_value_nonneg(s.take(i));
        lemma_digits_value_prefix_le(s, i + 1);
    } else {
        assert(s.take(i) =~= s);
    }
}

/// The message std's integer parsing reports for the given failure.
pub open spec fn int_parse_error_msg(e: IntParseError) -> Seq<char> {
    match e {
        IntParseError::Empty => "cannot parse integer from empty string"@,
        IntParseError::InvalidDigit => "invalid digit found in string"@,
        IntParseError::TooLarge => "number too large to fit in target type"@,
        IntParseError::TooSmall => "number too small to fit in target type"@,
    }
}

/// The digit value of a character, when it is one.
fn digit_of(c: char) -> (r: Option<u64>)
    ensures
        r is Some <==> is_digit(c),
        r matches Some(d) ==> d < 10 && d == digit_value(c),
{
    if c == '0' {
        Some(0)
    } else if c == '1' {
        Some(1)
    } else if c == '2' {
        Some(2)
    } else if c == '3' {
        Some(3)
    } else if c == '4' {
        Some(4)
    } else if c == '5' {
        Some(5)
    } else if c == '6' {
        Some(6)
    } else if c == '7' {
        Some(7)
    } else if c == '8' {
        Some(8)
    } else if c == '9' {
        Some(9)
    } else {
        None
    }
}

/// Reads a signed decimal numeral as an `i64`, accepting exactly what std's
/// integer parsing accepts: an optional `+` or `-` followed by one or more
/// digits, denoting a value within the type's range.
pub fn parse_i64(s: &str) -> (r: Result<i64, IntParseError>)
    ensures
        r is Ok <==> is_numeral(s@) && i64::MIN <= numeral_value(s@) <= i64::MAX,
        r matches Ok(v) ==> v == numeral_value(s@),
        r == Err::<i64, IntParseError>(IntParseError::Empty) <==> s@.len() == 0,
        r == Err::<i64, IntParseError>(IntParseError::InvalidDigit) <==> s@.len() > 0
            && !is_numeral(s@),
        r == Err::<i64, IntParseError>(IntParseError::TooLarge) <==> is_numeral(s@)
            && numeral_value(s@) > i64::MAX,
        r == Err::<i64, IntParseError>(IntParseError::TooSmall) <==> is_numeral(s@)
            && numeral_value(s@) < i64::MIN,
{
    let n: usize = s.unicode_len();
    if n == 0 {
        return Err(IntParseError::Empty);
    }
    let first = s.get_char(0);
    let neg = first == '-';
    let start: usize = if neg || first == '+' {
        1
    } else {
        0
    };
    let ghost body = numeral_body(s@);
    proof {
        assert(body =~= s@.skip(start as int));
    }
    if start == n {
        return Err(IntParseError::InvalidDigit);
    }
    let mut i: usize = start;
    while i < n
        invariant
            n == s@.len(),
            start <= i <= n,
            body == numeral_body(s@),
            body == s@.skip(start as int),
            forall|j: int| start <= j < i ==> is_digit(s@[j]),
        decreases n - i,
    {
        let c = s.get_char(i);
        if digit_of(c).is_none() {
            proof {
                assert(numeral_body(s@)[i - start as int] == s@[i as int]);
            }
            return Err(IntParseError::InvalidDigit);
        }
        i = i + 1;
    }
    proof {
        assert forall|j: int| 0 <= j < body.len() implies is_digit(body[j]) by {
            assert(body[j] == s@[start as int + j]);
        }
        assert(is_numeral(s@));
    }
    let limit: u64 = if neg {
        9223372036854775808u64
    } else {
        9223372036854775807u64
    };
    let mut acc: u64 = 0;
    let mut i: usize = start;
    proof {
        assert(body.take(0) =~= Seq::<char>::empty());
    }
    while i < n
        invariant
            n == s@.len(),
            start <= i <= n,
            start < n,
            body == numeral_body(s@),
            body == s@.skip(start as int),
            is_numeral(s@),
            neg == (s@[0] == '-'),
            limit == if neg {
                9223372036854775808u64
            } else {
                9223372036854775807u64
            },
            acc == digits_value(body.take(i - start as int)),
            acc <= limit,
        decreases n - i,
    {
        let c = s.get_char(i);
        proof {
            assert(body[i - start as int] == s@[i as int]);
            assert(body.take(i + 1 - start as int).drop_last() =~= body.take(i - start as int));
            assert(body.take(i + 1 - start as int).last() == body[i - start as int]);
        }
        let d = match digit_of(c) {
            Some(d) => d,
            None => {
                proof {
                    assert(is_digit(body[i - start as int]));
                }
                return Err(IntParseError::InvalidDigit);
            },
        };
        let ghost a = acc as int;
        let ghost l = limit as int;
        let ghost dv = d as int;
        proof {
            assert(a > (l - dv) / 10 ==> a * 10 + dv > l) by (nonlinear_arith)
                requires
                    0 <= a,
                    0 <= dv <= 9,
                    dv <= l,
            ;
            assert(a <= (l - dv) / 10 ==> a * 10 + dv <= l) by (nonlinear_arith)
                requires
                    0 <= a,
                    0 <= dv <= 9,
                    dv <= l,
            ;
        }
        if acc > (limit - d) / 10 {
            proof {
                lemma_digits_value_prefix_le(body, i + 1 - start as int);
                assert(digits_value(body) > limit);
            }
            if neg {
                return Err(IntParseError::TooSmall);
            } else {
                return Err(IntParseError::TooLarge);
            }
        }
        acc = acc * 10 + d;
        i = i + 1;
    }
    proof {
        assert(body.take(n - start as int) =~= body);
    }
    if neg {
        if acc == 9223372036854775808u64 {
            Ok(i64::MIN)
        } else {
            Ok(-(acc as i64))
        }
    } else {
        Ok(acc as i64)
    }
}

/// The digits written for a nonnegative integer are digits indeed, and they
/// denote the integer they were written from.
proof fn lemma_dec_digits_value(n: nat)
    ensures
        dec_digits(n).len() >= 1,
        forall|i: int| 0 <= i < dec_digits(n).len() ==> is_digit(#[trigger] dec_digits(n)[i]),
        digits_value(dec_digits(n)) == n,
    decreases n,
{
    if n < 10 {
        assert(dec_digits(n).drop_last() =~= Seq::<char>::empty());
        assert(dec_digits(n).last() == digit_char(n));
        assert(digit_value(digit_char(n)) == n);
        assert(digits_value(Seq::<char>::empty()) == 0);
        assert(digits_value(dec_digits(n)) == n);
    } else {
        lemma_dec_digits_value(n / 10);
        assert(dec_digits(n).drop_last() =~= dec_digits(n / 10));
        assert(dec_digits(n).last() == digit_char(n % 10));
        assert(digit_value(digit_char(n % 10)) == n % 10);
        assert(n / 10 * 10 + n % 10 == n) by (nonlinear_arith);
        assert(digits_value(dec_digits(n)) == digits_value(dec_digits(n / 10)) * 10 + n % 10);
        assert(digits_value(dec_digits(n)) == n);
        assert forall|i: int| 0 <= i < dec_digits(n).len() implies is_digit(
            #[trigger] dec_digits(n)[i],
        ) by {
            if i < dec_digits(n).len() - 1 {
                assert(dec_digits(n)[i] == dec_digits(n / 10)[i]);
            }
        }
    }
}

/// Writing an integer as a decimal numeral and reading the numeral back
/// yields the integer again: the formatting and parsing specifications are
/// two sides of one coin.
pub proof fn lemma_numeral_round_trip(v: int)
    ensures
        is_numeral(dec_numeral(v)),
        numeral_value(dec_numeral(v)) == v,
        v >= 0 ==> numeral_body(dec_numeral(v)) == dec_numeral(v),
        v < 0 ==> dec_numeral(v)[0] == '-' && numeral_body(dec_numeral(v)) == dec_numeral(
            v,
        ).drop_first(),
{
    if v < 0 {
        lemma_dec_digits_value((-v) as nat);
        assert(dec_numeral(v)[0] == '-');
        assert(numeral_body(dec_numeral(v)) =~= dec_digits((-v) as nat));
    } else {
        lemma_dec_digits_value(v as nat);
        assert(dec_numeral(v)[0] == dec_digits(v as nat)[0]);
        assert(is_digit(dec_numeral(v)[0]));
        assert(numeral_body(dec_numeral(v)) == dec_numeral(v));
    }
}

/// The digit character for a value below ten.
fn digit_str(d: u64) -> (s: &'static str)
    requires
        d < 10,
    ensures
        s@ == seq![digit_char(d as nat)],
{
    let s: &'static str = if d == 0 {
        "0"
    } else if d == 1 {
        "1"
    } else if d == 2 {
        "2"
    } else if d == 3 {
        "3"
    } else if d == 4 {
        "4"
    } else if d == 5 {
        "5"
    } else if d == 6 {
        "6"
    } else if d == 7 {
        "7"
    } else if d == 8 {
        "8"
    } else {
        "9"
    };
    proof {
        reveal_strlit("0");
        reveal_strlit("1");
        reveal_strlit("2");
        reveal_strlit("3");
        reveal_strlit("4");
        reveal_strlit("5");
        reveal_strlit("6");
        reveal_strlit("7");
        reveal_strlit("8");
        reveal_strlit("9");
        assert(s@ =~= seq![digit_char(d as nat)]);
    }
    s
}

/// Writes a nonnegative integer as decimal text.
pub fn format_u64(n: u64) -> (s: String)
    ensures
        s@ == dec_digits(n as nat),
    decreases n,
{
    if n < 10 {
        let s = digit_str(n).to_owned();
        proof {
            assert(s@ =~= dec_digits(n as nat));
        }
        s
    } else {
        let s = format_u64(n / 10).concat(digit_str(n % 10));
        proof {
            assert(s@ =~= dec_digits(n as nat));
        }
        s
    }
}

/// Writes a signed integer as decimal text, the way the wire protocol and
/// std's formatting both do.
pub fn format_i64(v: i64) -> (s: String)
    ensures
        s@ == dec_numeral(v as int),
{
    if v >= 0 {
        format_u64(v as u64)
    } else {
        let magnitude: u64 = if v == i64::MIN {
            9223372036854775808u64
        } else {
            (-v) as u64
        };
        let s = String::from_str("-").concat(format_u64(magnitude).as_str());
        proof {
            reveal_strlit("-");
            assert(s@ =~= dec_numeral(v as int));
        }
        s
    }
}

} // verus!
