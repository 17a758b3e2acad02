//! The listening port, read from one optional configuration value.
use vstd::prelude::*;

verus! {

/// The port used when no value is configured.
pub const DEFAULT_PORT: u16 = 8080;

/// Why a configured port value was refused.
#[derive(Debug, Clone, Copy, PartialEq, Eq, Structural)]
pub enum PortError {
    /// Nothing but an optional `+` sign.
    Empty,
    /// A character other than an ASCII digit after the optional sign.
    InvalidDigit,
    /// A number above 65535.
    Overflow,
}

pub open spec fn is_digit(c: char) -> bool {
    '0' <= c && c <= '9'
}

pub open spec fn all_digits(s: Seq<char>) -> bool {
    forall|i: int| 0 <= i < s.len() ==> is_digit(#[trigger] s[i])
}

/// The number that a string of decimal digits denotes.
pub open spec fn decimal_value(s: Seq<char>) -> nat
    decreases s.len(),
{
    if s.len() == 0 {
        0
    } else {
        decimal_value(s.drop_last()) * 10 + (s.last() as nat - '0' as nat) as nat
    }
}

/// The digits of a port value: the text without one leading `+`.
pub open spec fn port_digits(s: Seq<char>) -> Seq<char> {
    if s.len() > 0 && s[0] == '+' {
        s.skip(1)
    } else {
        s
    }
}

/// What reading `s` as a port number gives.
pub open spec fn port_of(s: Seq<char>) -> Result<u16, PortError> {
    let d = port_digits(s);
    if d.len() == 0 {
        Err(PortError::Empty)
    } else if !all_digits(d) {
        Err(PortError::InvalidDigit)
    } else if decimal_value(d) > 65535 {
        Err(PortError::Overflow)
    } else {
        Ok(decimal_value(d) as u16)
    }
}

/// The port that a configuration value selects: the default when absent.
pub open spec fn port_setting_of(value: Option<Seq<char>>) -> Result<u16, PortError> {
    match value {
        None => Ok(DEFAULT_PORT),
        Some(s) => port_of(s),
    }
}

/// A configured value holding anything but digits after an optional `+` is
/// refused, never replaced by the default.
pub proof fn law_non_numeric_port_refused(s: Seq<char>, i: int)
    requires
        0 <= i < port_digits(s).len(),
        !is_digit(port_digits(s)[i]),
    ensures
        port_setting_of(Some(s)) == Err::<u16, PortError>(PortError::InvalidDigit),
{
}

proof fn lemma_decimal_value_monotone(s: Seq<char>, i: int)
    requires
        0 <= i <= s.len(),
        all_digits(s),
    ensures
        decimal_value(s.subrange(0, i)) <= decimal_value(s),
    decreases s.len() - i,
{
    if i < s.len() {
        let t = s.subrange(0, i + 1);
        assert(t.drop_last() == s.subrange(0, i));
        assert(is_digit(s[i]));
        lemma_decimal_value_monotone(s, i + 1);
    } else {
        assert(s.subrange(0, i) == s);
    }
}

/// Reads `text` as a decimal port number, with an optional leading `+`.
pub fn parse_port(text: &str) -> (r: Result<u16, PortError>)
    ensures
        r == port_of(text@),
{
    let n = text.unicode_len();
    let start: usize = if n > 0 && text.get_char(0) == '+' { 1 } else { 0 };
    let ghost d = port_digits(text@);
    assert(d == text@.skip(start as int));
    if start == n {
        return Err(PortError::Empty);
    }
    let mut i: usize = start;
    while i < n
        invariant
            start <= i <= n,
            n == text@.len(),
            d == text@.skip(start as int),
            d == port_digits(text@),
            all_digits(d.subrange(0, i - start)),
        decreases n - i,
    {
        let c = text.get_char(i);
        if !('0' <= c && c <= '9') {
            assert(d[i - start] == c);
            assert(!is_digit(d[i - start]));
            assert(d.len() > 0);
            return Err(PortError::InvalidDigit);
        }
        assert(d.subrange(0, i + 1 - start) == d.subrange(0, i - start).push(c));
        i = i + 1;
    }
    assert(d.subrange(0, d.len() as int) == d);
    let mut value: u32 = 0;
    let mut j: usize = start;
    while j < n
        invariant
            start <= j <= n,
            n == text@.len(),
            d == text@.skip(start as int),
            d == port_digits(text@),
            all_digits(d),
            value == decimal_value(d.subrange(0, j - start)),
            value <= 65535,
        decreases n - j,
    {
        let c = text.get_char(j);
        assert(d[j - start] == c);
        assert(d.subrange(0, j + 1 - start).drop_last() == d.subrange(0, j - start));
        assert(d.subrange(0, j + 1 - start).last() == c);
        assert(is_digit(d[j - start]));
        let next = value * 10 + (c as u32 - '0' as u32);
        if next > 65535 {
            proof {
                lemma_decimal_value_monotone(d, j + 1 - start);
            }
            assert(decimal_value(d.subrange(0, j + 1 - start)) == next);
            return Err(PortError::Overflow);
        }
        value = next;
        j = j + 1;
    }
    Ok(value as u16)
}

/// The port selected by an optional configuration value: `DEFAULT_PORT` when
/// none is given, else the value read by `parse_port`. A value that cannot be
/// read is an error, never a silent fallback.
pub fn port_setting(value: Option<&str>) -> (r: Result<u16, PortError>)
    ensures
        r == port_setting_of(match value {
            Some(s) => Some(s@),
            None => None,
        }),
{
    match value {
        None => Ok(DEFAULT_PORT),
        Some(s) => parse_port(s),
    }
}

} // verus!
