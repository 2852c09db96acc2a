//! Parsing of user-entered text: resolution strings like `400x1800` and
//! hex color strings like `#5BCFFA`, plus the decimal-digit machinery the
//! configuration codec shares.
//!
//! Malformed input is rejected with an error and the caller keeps its prior
//! value; nothing here panics.

use vstd::prelude::*;

use crate::config::{Color, Resolution};
use crate::geometry::XY;

verus! {

/// ASCII decimal digit.
pub open spec fn is_digit(b: u8) -> bool {
    0x30 <= b <= 0x39
}

/// Every byte of the sequence is an ASCII decimal digit.
pub open spec fn spec_all_digits(s: Seq<u8>) -> bool {
    forall|i: int| 0 <= i < s.len() ==> is_digit(#[trigger] s[i])
}

/// The number an ASCII digit sequence denotes, most significant first.
pub open spec fn spec_digits_value(s: Seq<u8>) -> int
    decreases s.len(),
{
    if s.len() == 0 {
        0
    } else {
        spec_digits_value(s.drop_last()) * 10 + (s.last() - 0x30)
    }
}

/// A digit sequence denotes a nonnegative number.
proof fn lemma_digits_value_nonneg(s: Seq<u8>)
    requires
        spec_all_digits(s),
    ensures
        spec_digits_value(s) >= 0,
    decreases s.len(),
{
    if s.len() > 0 {
        assert(spec_all_digits(s.drop_last()));
        lemma_digits_value_nonneg(s.drop_last());
    }
}

/// Extending a digit sequence by one digit multiplies its value by ten and
/// adds the digit.
proof fn lemma_digits_value_step(s: Seq<u8>, i: int)
    requires
        0 <= i < s.len(),
    ensures
        spec_digits_value(s.subrange(0, i + 1)) == spec_digits_value(s.subrange(0, i)) * 10 + (
        s[i] - 0x30),
{
    let t = s.subrange(0, i + 1);
    assert(t.drop_last() =~= s.subrange(0, i));
    assert(t.last() == s[i]);
}

/// A prefix of a digit sequence never denotes more than the whole.
proof fn lemma_digits_prefix_le(s: Seq<u8>, j: int)
    requires
        spec_all_digits(s),
        0 <= j <= s.len(),
    ensures
        spec_digits_value(s.subrange(0, j)) <= spec_digits_value(s),
    decreases s.len() - j,
{
    if j == s.len() {
        assert(s.subrange(0, j) =~= s);
    } else {
        lemma_digits_value_step(s, j);
        let p = s.subrange(0, j);
        assert(spec_all_digits(p));
        lemma_digits_value_nonneg(p);
        vstd::arithmetic::mul::lemma_mul_inequality(1, 10, spec_digits_value(p));
        lemma_digits_prefix_le(s, j + 1);
    }
}

/// Errors from resolution parsing: a number that does not parse, a number
/// too large for a signed machine integer, or an input not of the form
/// `<width>x<height>`.
#[derive(Clone, Copy, Debug, PartialEq, Eq, Structural)]
pub enum ParseResolutionError {
    ParseIntError,
    TryFromIntError,
    InvalidFormat,
}

/// Parse an unsigned decimal number: accepted iff the input is one or more
/// ASCII digits denoting a value that fits.
pub fn parse_u32(s: &[u8]) -> (r: Result<u32, ParseResolutionError>)
    ensures
        r is Ok <==> (s@.len() > 0 && spec_all_digits(s@) && spec_digits_value(s@) <= u32::MAX),
        r is Ok ==> r->Ok_0 == spec_digits_value(s@),
        r is Err ==> r->Err_0 == ParseResolutionError::ParseIntError,
{
    if s.len() == 0 {
        return Err(ParseResolutionError::ParseIntError);
    }
    let mut acc: u32 = 0;
    let mut i: usize = 0;
    while i < s.len()
        invariant
            0 <= i <= s@.len(),
            forall|j: int| 0 <= j < i ==> is_digit(#[trigger] s@[j]),
            acc == spec_digits_value(s@.subrange(0, i as int)),
        decreases s@.len() - i,
    {
        let b = s[i];
        if b < 0x30 || b > 0x39 {
            assert(!is_digit(s@[i as int]));
            return Err(ParseResolutionError::ParseIntError);
        }
        let d: u32 = (b - 0x30) as u32;
        proof {
            lemma_digits_value_step(s@, i as int);
        }
        let scaled = match acc.checked_mul(10) {
            Some(m) => m,
            None => {
                proof {
                    if spec_all_digits(s@) {
                        lemma_digits_prefix_le(s@, i + 1);
                    }
                }
                return Err(ParseResolutionError::ParseIntError);
            },
        };
        acc = match scaled.checked_add(d) {
            Some(v) => v,
            None => {
                proof {
                    if spec_all_digits(s@) {
                        lemma_digits_prefix_le(s@, i + 1);
                    }
                }
                return Err(ParseResolutionError::ParseIntError);
            },
        };
        i = i + 1;
    }
    proof {
        assert(s@.subrange(0, s@.len() as int) =~= s@);
    }
    Ok(acc)
}

/// The position of the sole separator `x` in a resolution string: valid
/// iff exactly one byte is `x`.
pub open spec fn spec_valid_split(s: Seq<u8>, k: int) -> bool {
    &&& 0 <= k < s.len()
    &&& s[k] == 0x78u8
    &&& forall|j: int| 0 <= j < s.len() && j != k ==> s[j] != 0x78u8
}

/// How a `<width>x<height>` string parses: the errors mirror, in order,
/// a missing or repeated separator, an unparseable number, and a number
/// too large for a signed machine integer — width before height.
pub open spec fn spec_parse_xy(s: Seq<u8>) -> Result<XY, ParseResolutionError> {
    if !(exists|k: int| spec_valid_split(s, k)) {
        Err(ParseResolutionError::InvalidFormat)
    } else {
        let k = choose|k: int| spec_valid_split(s, k);
        let w = s.subrange(0, k);
        let h = s.subrange(k + 1, s.len() as int);
        if !(w.len() > 0 && spec_all_digits(w) && spec_digits_value(w) <= u32::MAX) {
            Err(ParseResolutionError::ParseIntError)
        } else if spec_digits_value(w) > i32::MAX {
            Err(ParseResolutionError::TryFromIntError)
        } else if !(h.len() > 0 && spec_all_digits(h) && spec_digits_value(h) <= u32::MAX) {
            Err(ParseResolutionError::ParseIntError)
        } else if spec_digits_value(h) > i32::MAX {
            Err(ParseResolutionError::TryFromIntError)
        } else {
            Ok(XY { x: spec_digits_value(w) as i32, y: spec_digits_value(h) as i32 })
        }
    }
}

/// Parse a `<width>x<height>` pair.
pub fn parse_xy(s: &[u8]) -> (r: Result<XY, ParseResolutionError>)
    ensures
        r == spec_parse_xy(s@),
{
    let mut split: Option<usize> = None;
    let mut i: usize = 0;
    while i < s.len()
        invariant
            0 <= i <= s@.len(),
            match split {
                Some(k) => {
                    &&& 0 <= k < i
                    &&& s@[k as int] == 0x78u8
                    &&& forall|j: int| 0 <= j < i && j != k ==> s@[j] != 0x78u8
                },
                None => forall|j: int| 0 <= j < i ==> s@[j] != 0x78u8,
            },
        decreases s@.len() - i,
    {
        if s[i] == 0x78 {
            if split.is_some() {
                assert(!(exists|k: int| spec_valid_split(s@, k)));
                return Err(ParseResolutionError::InvalidFormat);
            }
            split = Some(i);
        }
        i = i + 1;
    }
    let k = match split {
        Some(k) => k,
        None => {
            assert(!(exists|k: int| spec_valid_split(s@, k)));
            return Err(ParseResolutionError::InvalidFormat);
        },
    };
    proof {
        assert(spec_valid_split(s@, k as int));
        let kk = choose|kk: int| spec_valid_split(s@, kk);
        assert(kk == k as int);
    }

    let mut w: Vec<u8> = Vec::new();
    let mut j: usize = 0;
    while j < k
        invariant
            0 <= j <= k < s@.len(),
            w@ =~= s@.subrange(0, j as int),
        decreases k - j,
    {
        w.push(s[j]);
        assert(w@ =~= s@.subrange(0, j + 1));
        j = j + 1;
    }

    let mut h: Vec<u8> = Vec::new();
    let mut j2: usize = k + 1;
    while j2 < s.len()
        invariant
            k < j2 <= s@.len(),
            h@ =~= s@.subrange(k + 1, j2 as int),
        decreases s@.len() - j2,
    {
        h.push(s[j2]);
        assert(h@ =~= s@.subrange(k + 1, j2 + 1));
        j2 = j2 + 1;
    }

    let width = match parse_u32(w.as_slice()) {
        Ok(v) => v,
        Err(_) => {
            return Err(ParseResolutionError::ParseIntError);
        },
    };
    if width > 0x7FFF_FFFF {
        return Err(ParseResolutionError::TryFromIntError);
    }
    let height = match parse_u32(h.as_slice()) {
        Ok(v) => v,
        Err(_) => {
            return Err(ParseResolutionError::ParseIntError);
        },
    };
    if height > 0x7FFF_FFFF {
        return Err(ParseResolutionError::TryFromIntError);
    }
    Ok(XY { x: width as i32, y: height as i32 })
}

impl Resolution {
    /// Parse a `<width>x<height>` resolution string.
    pub fn parse(s: &[u8]) -> (r: Result<Resolution, ParseResolutionError>)
        ensures
            r is Ok <==> spec_parse_xy(s@) is Ok,
            r is Ok ==> {
                let xy = spec_parse_xy(s@)->Ok_0;
                r->Ok_0 == (Resolution { width: xy.x, height: xy.y })
            },
            r is Err ==> r->Err_0 == spec_parse_xy(s@)->Err_0,
    {
        match parse_xy(s) {
            Ok(xy) => Ok(Resolution { width: xy.x, height: xy.y }),
            Err(e) => Err(e),
        }
    }
}

/// ASCII hex digit (either case).
pub open spec fn is_hex_digit(b: u8) -> bool {
    (0x30 <= b <= 0x39) || (0x41 <= b <= 0x46) || (0x61 <= b <= 0x66)
}

/// Value of an ASCII hex digit.
pub open spec fn spec_hex_val(b: u8) -> int {
    if 0x30 <= b <= 0x39 {
        b - 0x30
    } else if 0x41 <= b <= 0x46 {
        b - 0x41 + 10
    } else {
        b - 0x61 + 10
    }
}

/// How a `#RRGGBB` color string parses: seven bytes, a leading `#`, six
/// hex digits.
pub open spec fn spec_parse_hex_color(s: Seq<u8>) -> Option<Color> {
    if s.len() == 7 && s[0] == 0x23u8 && (forall|i: int| 1 <= i < 7 ==> is_hex_digit(#[trigger] s[i])) {
        Some(
            Color(
                (spec_hex_val(s[1]) * 16 + spec_hex_val(s[2])) as u8,
                (spec_hex_val(s[3]) * 16 + spec_hex_val(s[4])) as u8,
                (spec_hex_val(s[5]) * 16 + spec_hex_val(s[6])) as u8,
            ),
        )
    } else {
        None
    }
}

/// Parse one hex digit.
fn hex_val(b: u8) -> (r: Option<u8>)
    ensures
        r is Some <==> is_hex_digit(b),
        r is Some ==> r->Some_0 == spec_hex_val(b) && r->Some_0 < 16,
{
    if 0x30 <= b && b <= 0x39 {
        Some(b - 0x30)
    } else if 0x41 <= b && b <= 0x46 {
        Some(b - 0x41 + 10)
    } else if 0x61 <= b && b <= 0x66 {
        Some(b - 0x61 + 10)
    } else {
        None
    }
}

impl Color {
    /// Parse a `#RRGGBB` accent color string.
    pub fn parse_hex(s: &[u8]) -> (r: Option<Color>)
        ensures
            r == spec_parse_hex_color(s@),
    {
        if s.len() != 7 {
            return None;
        }
        if s[0] != 0x23 {
            return None;
        }
        let d1 = hex_val(s[1]);
        let d2 = hex_val(s[2]);
        let d3 = hex_val(s[3]);
        let d4 = hex_val(s[4]);
        let d5 = hex_val(s[5]);
        let d6 = hex_val(s[6]);
        match (d1, d2, d3, d4, d5, d6) {
            (Some(a), Some(b), Some(c), Some(d), Some(e), Some(f)) => Some(
                Color(a * 16 + b, c * 16 + d, e * 16 + f),
            ),
            _ => {
                assert(!(forall|i: int| 1 <= i < 7 ==> is_hex_digit(#[trigger] s@[i])));
                None
            },
        }
    }
}

} // verus!
