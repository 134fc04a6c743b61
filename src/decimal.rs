use vstd::prelude::*;
use crate::error::ConfigError;

verus! {

/// A non-negative decimal number, `mantissa / 10^scale`, as a document writes it.
#[derive(Copy, Clone, Debug, PartialEq, Eq, Structural)]
pub struct Decimal {
    pub mantissa: u64,
    pub scale: usize,
}

pub open spec fn is_digit(c: char) -> bool {
    '0' <= c && c <= '9'
}

pub open spec fn digit_value(c: char) -> nat {
    (c as nat - '0' as nat) as nat
}

/// Whether `s` is a decimal numeral: digits, with at most one point standing
/// between two digits.
pub open spec fn is_decimal_text(s: Seq<char>) -> bool {
    &&& s.len() > 0
    &&& is_digit(s[0])
    &&& is_digit(s.last())
    &&& forall|i: int| 0 <= i < s.len() ==> is_digit(#[trigger] s[i]) || s[i] == '.'
    &&& forall|i: int, j: int|
        0 <= i < s.len() && 0 <= j < s.len() && #[trigger] s[i] == '.' && #[trigger] s[j] == '.'
            ==> i == j
}

/// The number that the digits of `s` spell once the point is left out.
pub open spec fn mantissa_of(s: Seq<char>) -> nat
    decreases s.len(),
{
    if s.len() == 0 {
        0
    } else if s.last() == '.' {
        mantissa_of(s.drop_last())
    } else {
        mantissa_of(s.drop_last()) * 10 + digit_value(s.last())
    }
}

/// How many characters follow the point of `s`; none when it has no point.
pub open spec fn scale_of(s: Seq<char>) -> nat {
    if exists|p: int| 0 <= p < s.len() && s[p] == '.' {
        let p = choose|p: int| 0 <= p < s.len() && s[p] == '.';
        (s.len() - 1 - p) as nat
    } else {
        0
    }
}

impl Decimal {
    /// Reads a decimal numeral such as `1.5`. Text that is not a numeral is a
    /// malformed document; a numeral whose digits do not fit in 64 bits is out of range.
    pub fn parse(s: &str) -> (r: Result<Decimal, ConfigError>)
        ensures
            match r {
                Ok(d) => is_decimal_text(s@) && d.mantissa == mantissa_of(s@) && d.scale
                    == scale_of(s@),
                Err(e) => if !is_decimal_text(s@) {
                    e == ConfigError::MalformedDocument
                } else {
                    e == ConfigError::OutOfRangeNumeric && mantissa_of(s@) > u64::MAX
                },
            },
    {
        let n = s.unicode_len();
        let mut mantissa: u64 = 0;
        let mut overflow = false;
        let mut point: Option<usize> = None;
        let mut i: usize = 0;
        while i < n
            invariant
                n == s@.len(),
                i <= n,
                !overflow ==> mantissa == mantissa_of(s@.take(i as int)),
                overflow ==> mantissa_of(s@.take(i as int)) > u64::MAX,
                forall|j: int| 0 <= j < i ==> is_digit(#[trigger] s@[j]) || s@[j] == '.',
                i > 0 ==> is_digit(s@[0]),
                match point {
                    Some(p) => p < i && s@[p as int] == '.' && forall|j: int|
                        0 <= j < i && #[trigger] s@[j] == '.' ==> j == p,
                    None => forall|j: int| 0 <= j < i ==> #[trigger] s@[j] != '.',
                },
            decreases n - i,
        {
            let c = s.get_char(i);
            assert(s@.take(i + 1).drop_last() =~= s@.take(i as int));
            if c == '.' {
                if i == 0 || point.is_some() {
                    return Err(ConfigError::MalformedDocument);
                }
                point = Some(i);
            } else if '0' <= c && c <= '9' {
                let d = (c as u32 - '0' as u32) as u64;
                if overflow || mantissa > (u64::MAX - d) / 10 {
                    overflow = true;
                } else {
                    mantissa = mantissa * 10 + d;
                }
            } else {
                return Err(ConfigError::MalformedDocument);
            }
            i = i + 1;
        }
        assert(s@.take(n as int) =~= s@);
        if n == 0 || s.get_char(n - 1) == '.' {
            return Err(ConfigError::MalformedDocument);
        }
        if overflow {
            return Err(ConfigError::OutOfRangeNumeric);
        }
        let scale = match point {
            Some(p) => n - 1 - p,
            None => 0,
        };
        Ok(Decimal { mantissa, scale })
    }
}

} // verus!
