//! Integer parsing with the acceptance rules of std's `from_str_radix`:
//! an optional sign, then digits of the radix, the value in range.

use vstd::prelude::*;

verus! {

/// Why a text is not an integer; the three reasons std distinguishes.
#[derive(Clone, Copy, Debug, PartialEq, Eq, Structural)]
pub enum IntErrorKind {
    Empty,
    InvalidDigit,
    Overflow,
}

/// Value of `c` as a digit of `radix` (10 or 16), if it is one.
pub open spec fn digit_value(c: char, radix: int) -> Option<int> {
    if '0' <= c && c <= '9' {
        Some(c as int - '0' as int)
    } else if radix == 16 && 'a' <= c && c <= 'f' {
        Some(c as int - 'a' as int + 10)
    } else if radix == 16 && 'A' <= c && c <= 'F' {
        Some(c as int - 'A' as int + 10)
    } else {
        None
    }
}

/// Left-to-right accumulation of digits: the first invalid digit or the
/// first step beyond `max` decides the error.
pub open spec fn scan_digits(d: Seq<char>, radix: int, max: int, acc: int) -> Result<
    int,
    IntErrorKind,
>
    decreases d.len(),
{
    if d.len() == 0 {
        Ok(acc)
    } else {
        match digit_value(d[0], radix) {
            None => Err(IntErrorKind::InvalidDigit),
            Some(x) => if acc * radix + x > max {
                Err(IntErrorKind::Overflow)
            } else {
                scan_digits(d.drop_first(), radix, max, acc * radix + x)
            },
        }
    }
}

/// Unsigned integer of `radix` not above `max`, as std parses it.
pub open spec fn parse_unsigned_spec(s: Seq<char>, radix: int, max: int) -> Result<
    int,
    IntErrorKind,
> {
    if s.len() == 0 {
        Err(IntErrorKind::Empty)
    } else if (s[0] == '+' || s[0] == '-') && s.len() == 1 {
        Err(IntErrorKind::InvalidDigit)
    } else if s[0] == '+' {
        scan_digits(s.drop_first(), radix, max, 0)
    } else {
        scan_digits(s, radix, max, 0)
    }
}

/// Signed 32-bit decimal integer, as std parses it.
pub open spec fn parse_i32_spec(s: Seq<char>) -> Option<int> {
    if s.len() >= 2 && s[0] == '-' {
        match scan_digits(s.drop_first(), 10, 0x8000_0000, 0) {
            Ok(v) => Some(-v),
            Err(_) => None,
        }
    } else {
        match parse_unsigned_spec(s, 10, 0x7fff_ffff) {
            Ok(v) => Some(v),
            Err(_) => None,
        }
    }
}

pub fn digit_of(c: char, radix: u32) -> (r: Option<u32>)
    requires
        radix == 10 || radix == 16,
    ensures
        match r {
            Some(x) => digit_value(c, radix as int) == Some(x as int),
            None => digit_value(c, radix as int) is None,
        },
{
    if '0' <= c && c <= '9' {
        Some(c as u32 - '0' as u32)
    } else if radix == 16 && 'a' <= c && c <= 'f' {
        Some(c as u32 - 'a' as u32 + 10)
    } else if radix == 16 && 'A' <= c && c <= 'F' {
        Some(c as u32 - 'A' as u32 + 10)
    } else {
        None
    }
}

proof fn lemma_scan_step(d: Seq<char>, radix: int, max: int, acc: int, i: int)
    requires
        0 <= i < d.len(),
    ensures
        scan_digits(d.subrange(i, d.len() as int), radix, max, acc) == (match digit_value(
            d[i],
            radix,
        ) {
            None => Err(IntErrorKind::InvalidDigit),
            Some(x) => if acc * radix + x > max {
                Err(IntErrorKind::Overflow)
            } else {
                scan_digits(d.subrange(i + 1, d.len() as int), radix, max, acc * radix + x)
            },
        }),
{
    assert(d.subrange(i, d.len() as int).drop_first() =~= d.subrange(i + 1, d.len() as int));
}

/// Accumulate the digits of `s` from `start` on, with std's left-to-right
/// rules.
fn scan_from(s: &Vec<char>, start: usize, radix: u32, max: u64) -> (r: Result<u64, IntErrorKind>)
    requires
        radix == 10 || radix == 16,
        start <= s.len(),
    ensures
        match r {
            Ok(v) => v <= max && scan_digits(
                s@.subrange(start as int, s.len() as int),
                radix as int,
                max as int,
                0,
            ) == Ok::<int, IntErrorKind>(v as int),
            Err(k) => scan_digits(
                s@.subrange(start as int, s.len() as int),
                radix as int,
                max as int,
                0,
            ) == Err::<int, IntErrorKind>(k),
        },
{
    let ghost d = s@.subrange(start as int, s.len() as int);
    let mut acc: u64 = 0;
    let mut i = start;
    while i < s.len()
        invariant
            start <= i <= s.len(),
            radix == 10 || radix == 16,
            acc <= max,
            d == s@.subrange(start as int, s.len() as int),
            scan_digits(d, radix as int, max as int, 0) == scan_digits(
                s@.subrange(i as int, s.len() as int),
                radix as int,
                max as int,
                acc as int,
            ),
        decreases s.len() - i,
    {
        proof {
            lemma_scan_step(s@, radix as int, max as int, acc as int, i as int);
        }
        let x = match digit_of(s[i], radix) {
            Some(x) => x,
            None => {
                return Err(IntErrorKind::InvalidDigit);
            },
        };
        let wide: u128 = (acc as u128) * (radix as u128) + (x as u128);
        assert(wide == acc * radix + x) by (nonlinear_arith)
            requires
                wide == (acc as u128) * (radix as u128) + (x as u128),
                acc <= u64::MAX,
                radix <= 16,
                x < 16,
        ;
        if wide > max as u128 {
            return Err(IntErrorKind::Overflow);
        }
        acc = wide as u64;
        i += 1;
    }
    assert(s@.subrange(i as int, s.len() as int).len() == 0);
    Ok(acc)
}

/// Parse `s` as an unsigned integer of `radix` not above `max`, with std's
/// rules.
pub fn parse_unsigned(s: &Vec<char>, radix: u32, max: u64) -> (r: Result<u64, IntErrorKind>)
    requires
        radix == 10 || radix == 16,
    ensures
        match r {
            Ok(v) => v <= max && parse_unsigned_spec(s@, radix as int, max as int) == Ok::<
                int,
                IntErrorKind,
            >(v as int),
            Err(k) => parse_unsigned_spec(s@, radix as int, max as int) == Err::<int, IntErrorKind>(
                k,
            ),
        },
{
    if s.len() == 0 {
        return Err(IntErrorKind::Empty);
    }
    if (s[0] == '+' || s[0] == '-') && s.len() == 1 {
        return Err(IntErrorKind::InvalidDigit);
    }
    if s[0] == '+' {
        assert(s@.subrange(1, s.len() as int) =~= s@.drop_first());
        scan_from(s, 1, radix, max)
    } else {
        assert(s@.subrange(0, s.len() as int) =~= s@);
        scan_from(s, 0, radix, max)
    }
}

/// Largest value of `usize` on this machine, as a `u64`.
pub fn usize_max() -> (m: u64)
    ensures
        m as int == usize::MAX as int,
{
    usize::MAX as u64
}

/// Parse a decimal `usize` with std's rules.
pub fn parse_usize(s: &Vec<char>) -> (r: Result<usize, IntErrorKind>)
    ensures
        match r {
            Ok(v) => parse_unsigned_spec(s@, 10, usize::MAX as int) == Ok::<int, IntErrorKind>(
                v as int,
            ),
            Err(k) => parse_unsigned_spec(s@, 10, usize::MAX as int) == Err::<int, IntErrorKind>(
                k,
            ),
        },
{
    match parse_unsigned(s, 10, usize_max()) {
        Ok(v) => Ok(v as usize),
        Err(k) => Err(k),
    }
}

/// Parse a signed 32-bit decimal integer with std's rules.
pub fn parse_i32(s: &Vec<char>) -> (r: Option<i32>)
    ensures
        match r {
            Some(v) => parse_i32_spec(s@) == Some(v as int),
            None => parse_i32_spec(s@) is None,
        },
{
    if s.len() >= 2 && s[0] == '-' {
        assert(s@.subrange(1, s.len() as int) =~= s@.drop_first());
        match scan_from(s, 1, 10, 0x8000_0000) {
            Ok(v) => Some((0 - (v as i64)) as i32),
            Err(_) => None,
        }
    } else {
        match parse_unsigned(s, 10, 0x7fff_ffff) {
            Ok(v) => Some(v as i32),
            Err(_) => None,
        }
    }
}

/// The text std gives for each reason an integer does not parse.
pub fn int_error_text(kind: IntErrorKind) -> (t: &'static str)
    ensures
        t@ == int_error_text_spec(kind),
{
    match kind {
        IntErrorKind::Empty => "cannot parse integer from empty string",
        IntErrorKind::InvalidDigit => "invalid digit found in string",
        IntErrorKind::Overflow => "number too large to fit in target type",
    }
}

pub open spec fn int_error_text_spec(kind: IntErrorKind) -> Seq<char> {
    match kind {
        IntErrorKind::Empty => "cannot parse integer from empty string"@,
        IntErrorKind::InvalidDigit => "invalid digit found in string"@,
        IntErrorKind::Overflow => "number too large to fit in target type"@,
    }
}


/// Decimal digits of `n`, as `{}` writes an unsigned integer.
pub open spec fn decimal_spec(n: nat) -> Seq<char>
    decreases n,
{
    if n < 10 {
        seq![crate::json_scan::hex_digit(n as int)]
    } else {
        decimal_spec(n / 10).push(crate::json_scan::hex_digit((n % 10) as int))
    }
}

/// Append the decimal digits of `n` to `out`.
pub fn push_decimal(out: &mut Vec<char>, n: u64)
    ensures
        final(out)@ == old(out)@ + decimal_spec(n as nat),
    decreases n,
{
    if n >= 10 {
        push_decimal(out, n / 10);
    }
    let d: u64 = n % 10;
    let c = ((d + 48) as u8) as char;
    out.push(c);
}

/// `n` written in decimal.
pub fn decimal(n: u64) -> (out: String)
    ensures
        out@ == decimal_spec(n as nat),
{
    let mut cs: Vec<char> = Vec::new();
    push_decimal(&mut cs, n);
    crate::text::string_of(&cs)
}

} // verus!
