//! Reading a signed 32-bit integer from text.

use vstd::prelude::*;

verus! {

#[derive(Debug, PartialEq, Eq, Structural)]
pub enum ParseError {
    InvalidFormat,
    EmptyString,
}

impl ParseError {
    /// A human-readable description of the error.
    pub fn message(&self) -> (r: String)
        ensures
            r@ == match self {
                ParseError::InvalidFormat => "Invalid number format"@,
                ParseError::EmptyString => "Empty input string"@,
            },
    {
        match self {
            ParseError::InvalidFormat => "Invalid number format".to_owned(),
            ParseError::EmptyString => "Empty input string".to_owned(),
        }
    }
}

pub open spec fn is_digit(c: char) -> bool {
    '0' <= c <= '9'
}

/// The value of a run of decimal digits, most significant first.
pub open spec fn digits_value(s: Seq<char>) -> int
    decreases s.len(),
{
    if s.len() == 0 {
        0
    } else {
        digits_value(s.drop_last()) * 10 + (s.last() as int - '0' as int)
    }
}

/// Whether `s` has an optional leading sign.
pub open spec fn has_sign(s: Seq<char>) -> bool {
    s.len() > 0 && (s[0] == '+' || s[0] == '-')
}

/// `s` without its leading sign, if it has one.
pub open spec fn unsigned_part(s: Seq<char>) -> Seq<char> {
    if has_sign(s) {
        s.drop_first()
    } else {
        s
    }
}

/// The number a decimal literal denotes: an optional `+` or `-`, then one
/// or more ASCII digits, with a value that fits in an `i32`. `None` for any
/// other text, whitespace included.
pub open spec fn decimal_i32(s: Seq<char>) -> Option<i32> {
    let body = unsigned_part(s);
    let v = if s.len() > 0 && s[0] == '-' {
        -digits_value(body)
    } else {
        digits_value(body)
    };
    if body.len() > 0 && (forall|i: int| 0 <= i < body.len() ==> is_digit(#[trigger] body[i]))
        && i32::MIN <= v <= i32::MAX {
        Some(v as i32)
    } else {
        None
    }
}

/// Relies on `str::parse::<i32>` (i32's `FromStr`): it accepts exactly an
/// optional `+` or `-` sign followed by one or more ASCII digits whose value
/// is in range, and rejects all other text.
#[verifier::external_body]
fn parse_i32(s: &str) -> (r: Option<i32>)
    ensures
        r == decimal_i32(s@),
{
    s.parse::<i32>().ok()
}

/// Parses `s` as a decimal `i32`.
pub fn parse_number(s: &str) -> (r: Result<i32, ParseError>)
    ensures
        s@.len() == 0 ==> r == Err::<i32, ParseError>(ParseError::EmptyString),
        s@.len() > 0 ==> r == match decimal_i32(s@) {
            Some(v) => Ok::<i32, ParseError>(v),
            None => Err(ParseError::InvalidFormat),
        },
{
    if s.is_empty() {
        return Err(ParseError::EmptyString);
    }
    match parse_i32(s) {
        Some(v) => Ok(v),
        None => Err(ParseError::InvalidFormat),
    }
}

} // verus!
