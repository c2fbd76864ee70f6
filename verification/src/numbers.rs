use vstd::prelude::*;

use crate::error::{Error, IntErrorKind};
use crate::text::{chars_of, push_char};

verus! {

/// Is `c` one of the ASCII digits `0` to `9`?
pub open spec fn is_digit(c: char) -> bool {
    '0' <= c && c <= '9'
}

/// The value of an ASCII digit.
pub open spec fn digit_value(c: char) -> int {
    (c as int) - ('0' as int)
}

/// Reads the digits of `s` from left to right as `str::parse` does for an unsigned type
/// whose largest value is `max`: the first character that is not a digit gives
/// `InvalidDigit`, the first digit that takes the value over `max` gives `PosOverflow`.
pub open spec fn read_digits(s: Seq<char>, max: nat) -> Result<nat, IntErrorKind>
    decreases s.len(),
{
    if s.len() == 0 {
        Ok(0)
    } else {
        match read_digits(s.drop_last(), max) {
            Err(e) => Err(e),
            Ok(v) => if !is_digit(s.last()) {
                Err(IntErrorKind::InvalidDigit)
            } else if v * 10 + digit_value(s.last()) > max {
                Err(IntErrorKind::PosOverflow)
            } else {
                Ok((v * 10 + digit_value(s.last())) as nat)
            },
        }
    }
}

/// What `str::parse` gives for an unsigned integer type whose largest value is `max`: an
/// empty string is `Empty`; one leading `+` is allowed before at least one digit.
pub open spec fn parse_uint(s: Seq<char>, max: nat) -> Result<nat, IntErrorKind> {
    if s.len() == 0 {
        Err(IntErrorKind::Empty)
    } else if s[0] == '+' && s.len() > 1 {
        read_digits(s.drop_first(), max)
    } else {
        read_digits(s, max)
    }
}

/// What `str::parse::<bool>` gives: only `true` and `false` are booleans.
pub open spec fn parse_bool_spec(s: Seq<char>) -> Option<bool> {
    if s == "true"@ {
        Some(true)
    } else if s == "false"@ {
        Some(false)
    } else {
        None
    }
}

proof fn lemma_overflow_test(v: int, d: int, max: int)
    requires
        0 <= v,
        0 <= d <= 9,
        9 <= max,
    ensures
        (v * 10 + d > max) == (v > (max - d) / 10),
{
    assert((v * 10 + d > max) == (v > (max - d) / 10)) by (nonlinear_arith)
        requires
            0 <= v,
            0 <= d <= 9,
            9 <= max,
    ;
}

/// Reads an unsigned integer no larger than `max` from `s`, as `str::parse` does.
pub fn parse_uint_bounded(s: &str, max: u64) -> (r: Result<u64, IntErrorKind>)
    requires
        9 <= max,
    ensures
        match r {
            Ok(v) => parse_uint(s@, max as nat) == Ok::<nat, IntErrorKind>(v as nat),
            Err(k) => parse_uint(s@, max as nat) == Err::<nat, IntErrorKind>(k),
        },
{
    let chars = chars_of(s);
    let n = chars.len();
    if n == 0 {
        return Err(IntErrorKind::Empty);
    }
    let start: usize = if chars[0] == '+' && n > 1 {
        1
    } else {
        0
    };
    let ghost digits = chars@.subrange(start as int, n as int);
    proof {
        if start == 1 {
            assert(digits =~= s@.drop_first());
        } else {
            assert(digits =~= s@);
        }
        assert(chars@.subrange(start as int, start as int) =~= Seq::<char>::empty());
        assert(parse_uint(s@, max as nat) == read_digits(digits, max as nat));
    }
    let mut v: u64 = 0;
    let mut i: usize = start;
    while i < n
        invariant
            chars@ == s@,
            n == chars@.len(),
            start <= i <= n,
            9 <= max,
            v <= max,
            digits == chars@.subrange(start as int, n as int),
            parse_uint(s@, max as nat) == read_digits(digits, max as nat),
            read_digits(chars@.subrange(start as int, i as int), max as nat) == Ok::<
                nat,
                IntErrorKind,
            >(v as nat),
        decreases n - i,
    {
        let c = chars[i];
        proof {
            assert(chars@.subrange(start as int, i + 1).drop_last() =~= chars@.subrange(
                start as int,
                i as int,
            ));
        }
        if !('0' <= c && c <= '9') {
            proof {
                lemma_read_digits_stops(chars@.subrange(start as int, i as int + 1), digits, max as nat);
            }
            return Err(IntErrorKind::InvalidDigit);
        }
        let d: u64 = (c as u32 - '0' as u32) as u64;
        proof {
            lemma_overflow_test(v as int, d as int, max as int);
        }
        if v > (max - d) / 10 {
            proof {
                lemma_read_digits_stops(chars@.subrange(start as int, i as int + 1), digits, max as nat);
            }
            return Err(IntErrorKind::PosOverflow);
        }
        v = v * 10 + d;
        i = i + 1;
    }
    Ok(v)
}

/// Once the digits read so far fail, reading more characters fails the same way.
proof fn lemma_read_digits_stops(prefix: Seq<char>, s: Seq<char>, max: nat)
    requires
        prefix.len() <= s.len(),
        prefix =~= s.subrange(0, prefix.len() as int),
        read_digits(prefix, max) is Err,
    ensures
        read_digits(s, max) == read_digits(prefix, max),
    decreases s.len(),
{
    if s.len() > prefix.len() {
        assert(s.drop_last().subrange(0, prefix.len() as int) =~= prefix);
        lemma_read_digits_stops(prefix, s.drop_last(), max);
    } else {
        assert(prefix =~= s);
    }
}

/// Reads a `u32` from `s`, as `str::parse::<u32>` does.
pub fn parse_u32(s: &str) -> (r: Result<u32, Error>)
    ensures
        match parse_uint(s@, u32::MAX as nat) {
            Ok(v) => r matches Ok(x) && x == v,
            Err(k) => r matches Err(Error::ParseInt(x)) && x == k,
        },
{
    match parse_uint_bounded(s, u32::MAX as u64) {
        Ok(v) => Ok(v as u32),
        Err(k) => Err(Error::ParseInt(k)),
    }
}

/// Reads a `usize` from `s`, as `str::parse::<usize>` does.
pub fn parse_usize(s: &str) -> (r: Result<usize, Error>)
    ensures
        match parse_uint(s@, usize::MAX as nat) {
            Ok(v) => r matches Ok(x) && x == v,
            Err(k) => r matches Err(Error::ParseInt(x)) && x == k,
        },
{
    match parse_uint_bounded(s, usize::MAX as u64) {
        Ok(v) => Ok(v as usize),
        Err(k) => Err(Error::ParseInt(k)),
    }
}

/// Reads a `bool` from `s`, as `str::parse::<bool>` does.
pub fn parse_bool(s: &str) -> (r: Result<bool, Error>)
    ensures
        match parse_bool_spec(s@) {
            Some(b) => r matches Ok(x) && x == b,
            None => r matches Err(Error::ParseBool),
        },
{
    if crate::text::str_eq(s, "true") {
        Ok(true)
    } else if crate::text::str_eq(s, "false") {
        Ok(false)
    } else {
        Err(Error::ParseBool)
    }
}

/// The character of a digit value below ten.
pub open spec fn digit_char(d: nat) -> char {
    ((d + ('0' as nat)) as u32) as char
}

/// The decimal notation of `n`, as `format!("{}", n)` writes it.
pub open spec fn decimal(n: nat) -> Seq<char>
    decreases n,
{
    if n < 10 {
        seq![digit_char(n)]
    } else {
        decimal(n / 10).push(digit_char(n % 10))
    }
}

/// Appends the decimal notation of `n` to `out`.
pub fn push_decimal(out: &mut String, n: u64)
    ensures
        final(out)@ == old(out)@ + decimal(n as nat),
    decreases n,
{
    if n >= 10 {
        push_decimal(out, n / 10);
    }
    let d: u32 = (n % 10) as u32;
    let c: char = char_of_digit(d);
    push_char(out, c);
    proof {
        if n >= 10 {
            assert(decimal(n as nat) == decimal((n / 10) as nat).push(digit_char((n % 10) as nat)));
        }
    }
}

/// The character of a digit value below ten.
fn char_of_digit(d: u32) -> (c: char)
    requires
        d < 10,
    ensures
        c == digit_char(d as nat),
{
    if d == 0 {
        '0'
    } else if d == 1 {
        '1'
    } else if d == 2 {
        '2'
    } else if d == 3 {
        '3'
    } else if d == 4 {
        '4'
    } else if d == 5 {
        '5'
    } else if d == 6 {
        '6'
    } else if d == 7 {
        '7'
    } else if d == 8 {
        '8'
    } else {
        '9'
    }
}

/// The decimal notation of `n` as a new string.
pub fn decimal_string(n: u64) -> (r: String)
    ensures
        r@ == decimal(n as nat),
{
    let mut s = String::new();
    push_decimal(&mut s, n);
    proof {
        assert(s@ =~= decimal(n as nat));
    }
    s
}

} // verus!
