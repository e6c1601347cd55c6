//! Decimal integers written as text.
use crate::text::{dec, digit_char, to_chars};
use vstd::prelude::*;
use vstd::string::*;

verus! {

/// Why a text is no integer of the wanted range.
#[derive(Debug, Clone, Copy, PartialEq, Eq, Structural)]
pub enum ParseIntError {
    Empty,
    InvalidDigit,
    PosOverflow,
    NegOverflow,
}

/// What is said of a text that is no integer.
pub open spec fn parse_error_text(e: ParseIntError) -> Seq<char> {
    match e {
        ParseIntError::Empty => "cannot parse integer from empty string"@,
        ParseIntError::InvalidDigit => "invalid digit found in string"@,
        ParseIntError::PosOverflow => "number too large to fit in target type"@,
        ParseIntError::NegOverflow => "number too small to fit in target type"@,
    }
}

impl ParseIntError {
    /// What is said of the text.
    pub fn message(self) -> (r: String)
        ensures
            r@ == parse_error_text(self),
    {
        match self {
            ParseIntError::Empty => String::from_str("cannot parse integer from empty string"),
            ParseIntError::InvalidDigit => String::from_str("invalid digit found in string"),
            ParseIntError::PosOverflow => String::from_str(
                "number too large to fit in target type",
            ),
            ParseIntError::NegOverflow => String::from_str(
                "number too small to fit in target type",
            ),
        }
    }
}

/// The number that decimal digits stand for behind a value already read, up to `max`. The first
/// character that is no digit, or that makes the number too large, decides the error.
pub open spec fn digits_value(s: Seq<char>, acc: nat, max: nat) -> Result<nat, ParseIntError>
    decreases s.len(),
{
    if s.len() == 0 {
        Ok(acc)
    } else if !('0' <= s[0] && s[0] <= '9') {
        Err(ParseIntError::InvalidDigit)
    } else {
        let v = acc * 10 + (s[0] as u32 - 48) as nat;
        if v > max {
            Err(ParseIntError::PosOverflow)
        } else {
            digits_value(s.skip(1), v, max)
        }
    }
}

/// The unsigned number that a text stands for, up to `max`. One leading plus sign is allowed.
pub open spec fn unsigned_value(s: Seq<char>, max: nat) -> Result<nat, ParseIntError> {
    if s.len() == 0 {
        Err(ParseIntError::Empty)
    } else if s.len() == 1 && (s[0] == '+' || s[0] == '-') {
        Err(ParseIntError::InvalidDigit)
    } else if s[0] == '+' {
        digits_value(s.skip(1), 0, max)
    } else {
        digits_value(s, 0, max)
    }
}

/// The signed number that a text stands for, between `-limit` and `limit - 1`.
pub open spec fn signed_value(s: Seq<char>, limit: nat) -> Result<int, ParseIntError> {
    if s.len() > 1 && s[0] == '-' {
        match digits_value(s.skip(1), 0, limit) {
            Ok(v) => Ok(-(v as int)),
            Err(ParseIntError::PosOverflow) => Err(ParseIntError::NegOverflow),
            Err(e) => Err(e),
        }
    } else {
        match unsigned_value(s, (limit - 1) as nat) {
            Ok(v) => Ok(v as int),
            Err(e) => Err(e),
        }
    }
}

fn parse_digits(chars: &Vec<char>, from: usize, max: u64) -> (r: Result<u64, ParseIntError>)
    requires
        from <= chars@.len(),
    ensures
        match r {
            Ok(v) => digits_value(chars@.skip(from as int), 0, max as nat) == Ok::<
                nat,
                ParseIntError,
            >(v as nat),
            Err(e) => digits_value(chars@.skip(from as int), 0, max as nat) == Err::<
                nat,
                ParseIntError,
            >(e),
        },
{
    let mut acc: u64 = 0;
    let mut i: usize = from;
    while i < chars.len()
        invariant
            from <= i <= chars@.len(),
            acc <= max || i == from,
            digits_value(chars@.skip(from as int), 0, max as nat) == digits_value(
                chars@.skip(i as int),
                acc as nat,
                max as nat,
            ),
        decreases chars@.len() - i,
    {
        let c = chars[i];
        proof {
            let rest = chars@.skip(i as int);
            assert(rest[0] == c);
            assert(rest.skip(1) =~= chars@.skip(i as int + 1));
        }
        if !('0' <= c && c <= '9') {
            return Err(ParseIntError::InvalidDigit);
        }
        let d: u64 = (c as u32 - 48) as u64;
        match acc.checked_mul(10) {
            None => {
                return Err(ParseIntError::PosOverflow);
            },
            Some(m) => match m.checked_add(d) {
                None => {
                    return Err(ParseIntError::PosOverflow);
                },
                Some(v) => {
                    if v > max {
                        return Err(ParseIntError::PosOverflow);
                    }
                    acc = v;
                },
            },
        }
        i = i + 1;
    }
    assert(chars@.skip(i as int) =~= Seq::<char>::empty());
    Ok(acc)
}

/// The unsigned number that a text stands for, up to `max`.
pub fn parse_unsigned(s: &str, max: u64) -> (r: Result<u64, ParseIntError>)
    ensures
        match r {
            Ok(v) => unsigned_value(s@, max as nat) == Ok::<nat, ParseIntError>(v as nat)
                && v <= max,
            Err(e) => unsigned_value(s@, max as nat) == Err::<nat, ParseIntError>(e),
        },
{
    let chars = to_chars(s);
    proof {
        lemma_value_in_range(s@, 0, max as nat);
        lemma_value_in_range(s@.skip(1), 0, max as nat);
        assert(s@.skip(0) =~= s@);
    }
    if chars.len() == 0 {
        return Err(ParseIntError::Empty);
    }
    if chars.len() == 1 && (chars[0] == '+' || chars[0] == '-') {
        return Err(ParseIntError::InvalidDigit);
    }
    if chars[0] == '+' {
        parse_digits(&chars, 1, max)
    } else {
        parse_digits(&chars, 0, max)
    }
}

proof fn lemma_value_in_range(s: Seq<char>, acc: nat, max: nat)
    requires
        acc <= max,
    ensures
        digits_value(s, acc, max) matches Ok(v) ==> v <= max,
    decreases s.len(),
{
    if s.len() > 0 && '0' <= s[0] && s[0] <= '9' {
        let v = acc * 10 + (s[0] as u32 - 48) as nat;
        if v <= max {
            lemma_value_in_range(s.skip(1), v, max);
        }
    }
}

/// The number of 64 bits that a text stands for.
pub fn parse_u64(s: &str) -> (r: Result<u64, ParseIntError>)
    ensures
        match r {
            Ok(v) => unsigned_value(s@, u64::MAX as nat) == Ok::<nat, ParseIntError>(v as nat),
            Err(e) => unsigned_value(s@, u64::MAX as nat) == Err::<nat, ParseIntError>(e),
        },
{
    parse_unsigned(s, u64::MAX)
}

/// The number of 32 bits that a text stands for.
pub fn parse_u32(s: &str) -> (r: Result<u32, ParseIntError>)
    ensures
        match r {
            Ok(v) => unsigned_value(s@, u32::MAX as nat) == Ok::<nat, ParseIntError>(v as nat),
            Err(e) => unsigned_value(s@, u32::MAX as nat) == Err::<nat, ParseIntError>(e),
        },
{
    match parse_unsigned(s, u32::MAX as u64) {
        Ok(v) => Ok(v as u32),
        Err(e) => Err(e),
    }
}

/// The size that a text stands for.
pub fn parse_usize(s: &str) -> (r: Result<usize, ParseIntError>)
    ensures
        match r {
            Ok(v) => unsigned_value(s@, usize::MAX as nat) == Ok::<nat, ParseIntError>(v as nat),
            Err(e) => unsigned_value(s@, usize::MAX as nat) == Err::<nat, ParseIntError>(e),
        },
{
    match parse_unsigned(s, usize::MAX as u64) {
        Ok(v) => Ok(v as usize),
        Err(e) => Err(e),
    }
}

/// The signed number of 32 bits that a text stands for.
pub fn parse_i32(s: &str) -> (r: Result<i32, ParseIntError>)
    ensures
        match r {
            Ok(v) => signed_value(s@, 0x8000_0000) == Ok::<int, ParseIntError>(v as int),
            Err(e) => signed_value(s@, 0x8000_0000) == Err::<int, ParseIntError>(e),
        },
{
    let chars = to_chars(s);
    if chars.len() > 1 && chars[0] == '-' {
        proof {
            lemma_value_in_range(s@.skip(1), 0, 0x8000_0000);
        }
        match parse_digits(&chars, 1, 0x8000_0000) {
            Ok(v) => Ok((-(v as i64)) as i32),
            Err(ParseIntError::PosOverflow) => Err(ParseIntError::NegOverflow),
            Err(e) => Err(e),
        }
    } else {
        match parse_unsigned(s, 0x7fff_ffff) {
            Ok(v) => Ok(v as i32),
            Err(e) => Err(e),
        }
    }
}

proof fn lemma_digits_value_push(s: Seq<char>, c: char, acc: nat, max: nat)
    ensures
        digits_value(s.push(c), acc, max) == (match digits_value(s, acc, max) {
            Ok(v) => digits_value(seq![c], v, max),
            Err(e) => Err(e),
        }),
    decreases s.len(),
{
    let t = s.push(c);
    if s.len() == 0 {
        assert(t =~= seq![c]);
    } else {
        assert(t[0] == s[0]);
        assert(t.skip(1) =~= s.skip(1).push(c));
        if '0' <= s[0] && s[0] <= '9' {
            let v = acc * 10 + (s[0] as u32 - 48) as nat;
            if v <= max {
                lemma_digits_value_push(s.skip(1), c, v, max);
            }
        }
    }
}

/// Decimal digits stand for the number they were written for.
pub proof fn digits_of_number(n: nat, max: nat)
    requires
        n <= max,
    ensures
        digits_value(dec(n), 0, max) == Ok::<nat, ParseIntError>(n),
        dec(n).len() > 0,
        '0' <= dec(n)[0] && dec(n)[0] <= '9',
    decreases n,
{
    if n < 10 {
        reveal_with_fuel(digits_value, 3);
        assert(dec(n).skip(1) =~= Seq::<char>::empty());
    } else {
        digits_of_number(n / 10, max);
        lemma_digits_value_push(dec(n / 10), digit_char(n % 10), 0, max);
        reveal_with_fuel(digits_value, 3);
        assert(seq![digit_char(n % 10)].skip(1) =~= Seq::<char>::empty());
    }
}

/// Reading back the decimal text of a number gives the number.
pub proof fn parse_reads_back_decimal(n: nat, max: nat)
    requires
        n <= max,
    ensures
        unsigned_value(dec(n), max) == Ok::<nat, ParseIntError>(n),
{
    digits_of_number(n, max);
}

/// Distinct numbers have distinct decimal texts.
pub proof fn decimal_texts_are_distinct(a: nat, b: nat)
    requires
        dec(a) == dec(b),
    ensures
        a == b,
{
    parse_reads_back_decimal(a, if a < b { b } else { a });
    parse_reads_back_decimal(b, if a < b { b } else { a });
}

} // verus!
