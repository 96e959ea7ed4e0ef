//! Small GTFS value types.
use vstd::prelude::*;

verus! {

/// Why a text could not become an integer.
#[derive(Debug, Clone, Copy, PartialEq, Eq, Structural)]
pub enum IntErrorKind {
    /// The text is empty.
    Empty,
    /// A character that is not a digit of the radix, or a sign alone.
    InvalidDigit,
    /// The number is larger than the integer type holds.
    PosOverflow,
}

/// A text that could not become an integer, and why.
#[derive(Debug, Clone, Copy, PartialEq, Eq, Structural)]
pub struct ParseIntError {
    pub kind: IntErrorKind,
}

impl ParseIntError {
    pub fn kind(&self) -> (r: &IntErrorKind)
        ensures
            *r == self.kind,
    {
        &self.kind
    }
}

pub open spec fn is_hex_digit(c: char) -> bool {
    ('0' <= c && c <= '9') || ('a' <= c && c <= 'f') || ('A' <= c && c <= 'F')
}

pub open spec fn hex_digit_value(c: char) -> nat {
    if '0' <= c && c <= '9' {
        ((c as u32) - ('0' as u32)) as nat
    } else if 'a' <= c && c <= 'f' {
        ((c as u32) - ('a' as u32) + 10) as nat
    } else {
        ((c as u32) - ('A' as u32) + 10) as nat
    }
}

/// Reads the hexadecimal digits `d` after the value `acc`, left to right; the first
/// character that is not a digit, or the first digit that takes the value past
/// `u32::MAX`, ends the scan with that error.
pub open spec fn hex_scan(d: Seq<char>, acc: nat) -> Result<nat, IntErrorKind>
    decreases d.len(),
{
    if d.len() == 0 {
        Ok(acc)
    } else if !is_hex_digit(d[0]) {
        Err(IntErrorKind::InvalidDigit)
    } else if acc * 16 + hex_digit_value(d[0]) > u32::MAX {
        Err(IntErrorKind::PosOverflow)
    } else {
        hex_scan(d.drop_first(), acc * 16 + hex_digit_value(d[0]))
    }
}

/// A `u32` written in hexadecimal, with an optional leading `+`.
pub open spec fn parse_hex_u32(s: Seq<char>) -> Result<nat, IntErrorKind> {
    if s.len() == 0 {
        Err(IntErrorKind::Empty)
    } else if s[0] == '+' && s.len() == 1 {
        Err(IntErrorKind::InvalidDigit)
    } else if s[0] == '+' {
        hex_scan(s.drop_first(), 0)
    } else {
        hex_scan(s, 0)
    }
}

pub open spec fn hex_char(d: nat) -> char {
    if d < 10 {
        (('0' as u32) + d) as char
    } else {
        (('A' as u32) + d - 10) as char
    }
}

/// The upper-case hexadecimal digits of `n`, without leading zeros.
pub open spec fn hex_upper(n: nat) -> Seq<char>
    decreases n,
{
    if n < 16 {
        seq![hex_char(n)]
    } else {
        hex_upper(n / 16).push(hex_char(n % 16))
    }
}

/// A route colour, as the 24-bit RGB value of its hexadecimal code.
#[derive(Debug, Clone, Copy, PartialEq, Eq, Structural)]
pub struct GtfsColourCode(pub u32);

fn hex_digit(c: char) -> (r: Option<u32>)
    ensures
        r is Some <==> is_hex_digit(c),
        r matches Some(v) ==> v == hex_digit_value(c) && v < 16,
{
    if '0' <= c && c <= '9' {
        Some((c as u32) - ('0' as u32))
    } else if 'a' <= c && c <= 'f' {
        Some((c as u32) - ('a' as u32) + 10)
    } else if 'A' <= c && c <= 'F' {
        Some((c as u32) - ('A' as u32) + 10)
    } else {
        None
    }
}

/// Appends the upper-case hexadecimal digits of `n` to `out`.
fn push_hex(out: &mut String, n: u32)
    ensures
        final(out)@ == old(out)@ + hex_upper(n as nat),
    decreases n,
{
    if n >= 16 {
        push_hex(out, n / 16);
    }
    let d = (n % 16) as usize;
    let digits = "0123456789ABCDEF";
    proof {
        reveal_strlit("0123456789ABCDEF");
    }
    let c = digits.substring_char(d, d + 1);
    proof {
        assert(c@ =~= seq![hex_char((n % 16) as nat)]);
        if n >= 16 {
            assert(hex_upper(n as nat) == hex_upper((n / 16) as nat).push(
                hex_char((n % 16) as nat),
            ));
        }
    }
    out.append(c);
    proof {
        assert(out@ =~= old(out)@ + hex_upper(n as nat));
    }
}

impl GtfsColourCode {
    /// Parses a hexadecimal colour code such as "FFFFFF".
    pub fn from_str(s: &str) -> (r: Result<GtfsColourCode, ParseIntError>)
        ensures
            match parse_hex_u32(s@) {
                Ok(v) => r == Ok::<GtfsColourCode, ParseIntError>(GtfsColourCode(v as u32)),
                Err(k) => r == Err::<GtfsColourCode, ParseIntError>(ParseIntError { kind: k }),
            },
    {
        let n = s.unicode_len();
        if n == 0 {
            return Err(ParseIntError { kind: IntErrorKind::Empty });
        }
        let mut i: usize = 0;
        if s.get_char(0) == '+' {
            if n == 1 {
                return Err(ParseIntError { kind: IntErrorKind::InvalidDigit });
            }
            i = 1;
        }
        let ghost d = s@.subrange(i as int, n as int);
        proof {
            if i == 1 {
                assert(d =~= s@.drop_first());
            } else {
                assert(d =~= s@);
            }
        }
        let mut acc: u32 = 0;
        while i < n
            invariant
                n == s@.len(),
                i <= n,
                parse_hex_u32(s@) == hex_scan(d, 0),
                hex_scan(d, 0) == hex_scan(s@.subrange(i as int, n as int), acc as nat),
            decreases n - i,
        {
            let c = s.get_char(i);
            let ghost rest = s@.subrange(i as int, n as int);
            proof {
                assert(rest[0] == c);
                assert(rest.drop_first() =~= s@.subrange(i + 1, n as int));
                assert(rest.len() > 0);
            }
            match hex_digit(c) {
                None => {
                    return Err(ParseIntError { kind: IntErrorKind::InvalidDigit });
                },
                Some(v) => {
                    if acc > 0x0fff_ffff || acc * 16 > u32::MAX - v {
                        return Err(ParseIntError { kind: IntErrorKind::PosOverflow });
                    }
                    acc = acc * 16 + v;
                },
            }
            i = i + 1;
        }
        proof {
            assert(s@.subrange(n as int, n as int) =~= Seq::<char>::empty());
        }
        Ok(GtfsColourCode(acc))
    }

    /// The code in upper-case hexadecimal, without leading zeros.
    pub fn to_string(&self) -> (r: String)
        ensures
            r@ == hex_upper(self.0 as nat),
    {
        let mut out = String::new();
        push_hex(&mut out, self.0);
        out
    }

    pub fn to_u32(&self) -> (r: u32)
        ensures
            r == self.0,
    {
        self.0
    }

    /// The colour with value `n`, when `n` fits a `u32`.
    pub fn from_i64(n: i64) -> (r: Option<GtfsColourCode>)
        ensures
            0 <= n <= u32::MAX <==> r is Some,
            r matches Some(c) ==> c.0 == n,
    {
        if 0 <= n && n <= 0xffff_ffff {
            Some(GtfsColourCode(n as u32))
        } else {
            None
        }
    }

    /// The colour with value `n`, when `n` fits a `u32`.
    pub fn from_u64(n: u64) -> (r: Option<GtfsColourCode>)
        ensures
            n <= u32::MAX <==> r is Some,
            r matches Some(c) ==> c.0 == n,
    {
        if n <= 0xffff_ffff {
            Some(GtfsColourCode(n as u32))
        } else {
            None
        }
    }

    pub fn to_i64(&self) -> (r: Option<i64>)
        ensures
            r == Some(self.0 as i64),
    {
        Some(self.0 as i64)
    }

    pub fn to_u64(&self) -> (r: Option<u64>)
        ensures
            r == Some(self.0 as u64),
    {
        Some(self.0 as u64)
    }
}

/// An ISO 4217 currency code.
#[derive(Debug, Clone)]
pub struct GtfsCurrencyCode(pub String);

/// An e-mail address.
#[derive(Debug, Clone)]
pub struct GtfsEmail(pub String);

/// An identifier of a GTFS record, unique within its table.
#[derive(Debug, Clone, PartialEq, Eq)]
pub struct GtfsID(pub String);

impl GtfsID {
    pub fn as_ref(&self) -> (r: &str)
        ensures
            r@ == self.0@,
    {
        self.0.as_str()
    }

    pub fn to_string(&self) -> (r: String)
        ensures
            r@ == self.0@,
    {
        self.0.clone()
    }
}

/// An IETF BCP 47 language code.
#[derive(Debug, Clone, PartialEq, Eq, PartialOrd, Ord)]
pub struct GtfsLanguageCode(pub String);

} // verus!
