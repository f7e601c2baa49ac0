use vstd::prelude::*;

use crate::text::str_to_chars;
use crate::ConfigValueError;

verus! {

// =========================================================================
// Typed conversion of configuration values
//
// A configuration value is a string; callers ask for it as a scalar type.
// `FromConfigValue` is the conversion capability: the library implements
// it for the integer types and `bool`, and users may implement it for
// their own types. A malformed value is a `TypeError`.
// =========================================================================

/// A type that can be read from the text of a configuration value.
pub trait FromConfigValue: Sized {
    /// The value this text denotes, if it denotes one.
    spec fn spec_from(s: Seq<char>) -> Option<Self>;

    fn from_config_str(s: &str) -> (r: Result<Self, ConfigValueError>)
        ensures
            match r {
                Ok(v) => Self::spec_from(s@) == Some(v),
                Err(_) => Self::spec_from(s@) is None,
            },
    ;
}

// --- Decimal integers -----------------------------------------------------

pub open spec fn is_digit(c: char) -> bool {
    '0' <= c && c <= '9'
}

pub open spec fn digit_val(c: char) -> nat {
    ((c as u8) - 48) as nat
}

pub open spec fn all_digits(s: Seq<char>) -> bool {
    forall|i: int| 0 <= i < s.len() ==> is_digit(#[trigger] s[i])
}

/// The number that a digit string denotes, most significant digit first.
pub open spec fn digits_val(s: Seq<char>) -> nat
    decreases s.len(),
{
    if s.len() == 0 {
        0
    } else {
        digits_val(s.drop_last()) * 10 + digit_val(s.last())
    }
}

/// The integer that a decimal text denotes: an optional sign followed by
/// at least one digit.
pub open spec fn spec_parse_int(s: Seq<char>) -> Option<int> {
    if s.len() == 0 {
        None
    } else if s[0] == '+' || s[0] == '-' {
        let rest = s.skip(1);
        if rest.len() > 0 && all_digits(rest) {
            if s[0] == '-' {
                Some(-(digits_val(rest) as int))
            } else {
                Some(digits_val(rest) as int)
            }
        } else {
            None
        }
    } else if all_digits(s) {
        Some(digits_val(s) as int)
    } else {
        None
    }
}

proof fn lemma_digits_prefix(s: Seq<char>, j: int)
    requires
        0 <= j <= s.len(),
    ensures
        digits_val(s.take(j)) <= digits_val(s),
    decreases s.len() - j,
{
    if j < s.len() {
        lemma_digits_prefix(s, j + 1);
        assert(s.take(j + 1).drop_last() =~= s.take(j));
        assert(digits_val(s.take(j + 1)) == digits_val(s.take(j)) * 10 + digit_val(
            s.take(j + 1).last(),
        ));
    } else {
        assert(s.take(j) =~= s);
    }
}

/// The value of a non-empty all-digit string, or `None` when the string
/// is empty, holds a non-digit, or exceeds `u64::MAX`.
fn parse_u64_digits(v: &Vec<char>) -> (r: Option<u64>)
    ensures
        match r {
            Some(x) => v@.len() > 0 && all_digits(v@) && digits_val(v@) == x,
            None => v@.len() == 0 || !all_digits(v@) || digits_val(v@) > u64::MAX,
        },
{
    let n = v.len();
    if n == 0 {
        return None;
    }
    let mut acc: u64 = 0;
    let mut i: usize = 0;
    proof {
        assert(v@.take(0) =~= Seq::<char>::empty());
    }
    while i < n
        invariant
            i <= n,
            n == v@.len(),
            all_digits(v@.take(i as int)),
            acc == digits_val(v@.take(i as int)),
        decreases n - i,
    {
        let c = v[i];
        if !('0' <= c && c <= '9') {
            return None;
        }
        let d: u64 = ((c as u8) - 48) as u64;
        proof {
            assert(v@.take(i + 1).drop_last() =~= v@.take(i as int));
            assert(v@.take(i + 1).last() == v@[i as int]);
        }
        if acc > u64::MAX / 10 || (acc == u64::MAX / 10 && d > u64::MAX % 10) {
            proof {
                assert(digits_val(v@.take(i + 1)) > u64::MAX) by (nonlinear_arith)
                    requires
                        digits_val(v@.take(i + 1)) == digits_val(v@.take(i as int)) * 10
                            + digit_val(v@[i as int]),
                        acc == digits_val(v@.take(i as int)),
                        d == digit_val(v@[i as int]),
                        acc > u64::MAX / 10 || (acc == u64::MAX / 10 && d > u64::MAX % 10),
                ;
                lemma_digits_prefix(v@, i + 1);
            }
            return None;
        }
        proof {
            assert(acc * 10 + d <= u64::MAX) by (nonlinear_arith)
                requires
                    acc <= u64::MAX / 10,
                    acc == u64::MAX / 10 ==> d <= u64::MAX % 10,
                    d <= 9,
            ;
        }
        acc = acc * 10 + d;
        proof {
            assert(all_digits(v@.take(i + 1))) by {
                assert(forall|k: int|
                    0 <= k < i ==> v@.take(i + 1)[k] == #[trigger] v@.take(i as int)[k]);
            }
        }
        i = i + 1;
    }
    proof {
        assert(v@.take(n as int) =~= v@);
    }
    Some(acc)
}

/// The sign and digit characters of a decimal text: `true` for a leading
/// minus, and the digits with any leading sign removed.
fn split_sign(v: Vec<char>) -> (r: (bool, Vec<char>))
    ensures
        v@.len() > 0 && (v@[0] == '+' || v@[0] == '-') ==> r.1@ == v@.skip(1) && r.0 == (v@[0]
            == '-'),
        !(v@.len() > 0 && (v@[0] == '+' || v@[0] == '-')) ==> r.1@ == v@ && r.0 == false,
{
    if v.len() > 0 && (v[0] == '+' || v[0] == '-') {
        let negative = v[0] == '-';
        let rest = crate::text::subvec(&v, 1, v.len());
        proof {
            assert(rest@ =~= v@.skip(1));
        }
        (negative, rest)
    } else {
        (false, v)
    }
}

/// The integer a text denotes, if it lies within `lo ..= hi`.
fn parse_int_range(s: &str, lo: i64, hi: u64) -> (r: Result<i64, ConfigValueError>)
    requires
        lo <= 0,
        hi <= i64::MAX as u64,
    ensures
        match r {
            Ok(x) => spec_parse_int(s@) == Some(x as int) && lo as int <= x as int <= hi as int,
            Err(_) => spec_parse_int(s@) is None || (match spec_parse_int(s@) {
                Some(x) => !(lo as int <= x <= hi as int),
                None => true,
            }),
        },
{
    let chars = str_to_chars(s);
    let ghost whole = chars@;
    if chars.len() == 0 {
        return Err(ConfigValueError::TypeError);
    }
    let (negative, digits) = split_sign(chars);
    let ghost had_sign = whole[0] == '+' || whole[0] == '-';
    match parse_u64_digits(&digits) {
        None => {
            proof {
                if had_sign {
                    assert(digits@ == whole.skip(1));
                } else {
                    assert(digits@ == whole);
                }
                if digits@.len() > 0 && all_digits(digits@) {
                    assert(digits_val(digits@) > u64::MAX);
                    assert(hi as int <= u64::MAX);
                }
            }
            Err(ConfigValueError::TypeError)
        },
        Some(x) => {
            let lo_mag: u64 = if lo == i64::MIN {
                9223372036854775808u64
            } else {
                (-lo) as u64
            };
            if negative {
                // The magnitude must fit above `lo`, a non-positive bound.
                if x <= lo_mag {
                    if x > i64::MAX as u64 {
                        proof {
                            assert(x == 9223372036854775808u64);
                            assert(lo == i64::MIN);
                        }
                        Ok(i64::MIN)
                    } else {
                        Ok(-(x as i64))
                    }
                } else {
                    Err(ConfigValueError::TypeError)
                }
            } else {
                if x <= hi {
                    Ok(x as i64)
                } else {
                    Err(ConfigValueError::TypeError)
                }
            }
        },
    }
}

impl FromConfigValue for i32 {
    open spec fn spec_from(s: Seq<char>) -> Option<i32> {
        match spec_parse_int(s) {
            Some(x) => if i32::MIN <= x <= i32::MAX {
                Some(x as i32)
            } else {
                None
            },
            None => None,
        }
    }

    fn from_config_str(s: &str) -> (r: Result<Self, ConfigValueError>)
        ensures
            match r {
                Ok(v) => Self::spec_from(s@) == Some(v),
                Err(_) => Self::spec_from(s@) is None,
            },
    {
        match parse_int_range(s, i32::MIN as i64, i32::MAX as u64) {
            Ok(x) => Ok(x as i32),
            Err(e) => Err(e),
        }
    }
}

impl FromConfigValue for i64 {
    open spec fn spec_from(s: Seq<char>) -> Option<i64> {
        match spec_parse_int(s) {
            Some(x) => if i64::MIN <= x <= i64::MAX {
                Some(x as i64)
            } else {
                None
            },
            None => None,
        }
    }

    fn from_config_str(s: &str) -> (r: Result<Self, ConfigValueError>)
        ensures
            match r {
                Ok(v) => Self::spec_from(s@) == Some(v),
                Err(_) => Self::spec_from(s@) is None,
            },
    {
        match parse_int_range(s, i64::MIN, i64::MAX as u64) {
            Ok(x) => Ok(x),
            Err(e) => Err(e),
        }
    }
}

impl FromConfigValue for u32 {
    open spec fn spec_from(s: Seq<char>) -> Option<u32> {
        match spec_parse_int(s) {
            Some(x) => if 0 <= x <= u32::MAX {
                Some(x as u32)
            } else {
                None
            },
            None => None,
        }
    }

    fn from_config_str(s: &str) -> (r: Result<Self, ConfigValueError>)
        ensures
            match r {
                Ok(v) => Self::spec_from(s@) == Some(v),
                Err(_) => Self::spec_from(s@) is None,
            },
    {
        match parse_int_range(s, 0, u32::MAX as u64) {
            Ok(x) => Ok(x as u32),
            Err(e) => Err(e),
        }
    }
}

impl FromConfigValue for bool {
    /// Exactly `true` and `false`, as `FromStr` reads `bool`.
    open spec fn spec_from(s: Seq<char>) -> Option<bool> {
        if s == "true"@ {
            Some(true)
        } else if s == "false"@ {
            Some(false)
        } else {
            None
        }
    }

    fn from_config_str(s: &str) -> (r: Result<Self, ConfigValueError>)
        ensures
            match r {
                Ok(v) => Self::spec_from(s@) == Some(v),
                Err(_) => Self::spec_from(s@) is None,
            },
    {
        proof {
            reveal_strlit("true");
            reveal_strlit("false");
        }
        let chars = str_to_chars(s);
        let n = chars.len();
        if n == 4 && chars[0] == 't' && chars[1] == 'r' && chars[2] == 'u' && chars[3] == 'e' {
            proof {
                assert(chars@ =~= "true"@);
            }
            Ok(true)
        } else if n == 5 && chars[0] == 'f' && chars[1] == 'a' && chars[2] == 'l' && chars[3]
            == 's' && chars[4] == 'e' {
            proof {
                assert(chars@ =~= "false"@);
            }
            Ok(false)
        } else {
            proof {
                if chars@ == "true"@ {
                    assert(chars@.len() == 4);
                    assert(chars@[0] == 't' && chars@[1] == 'r' && chars@[2] == 'u' && chars@[3]
                        == 'e');
                }
                if chars@ == "false"@ {
                    assert(chars@.len() == 5);
                    assert(chars@[0] == 'f' && chars@[1] == 'a' && chars@[2] == 'l' && chars@[3]
                        == 's' && chars@[4] == 'e');
                }
            }
            Err(ConfigValueError::TypeError)
        }
    }
}

} // verus!
