//! The two field validators: the minor-unit count and the fund flag.

use vstd::prelude::*;
use crate::error::{DeError, ErrModel};

verus! {

/// `c` is a decimal digit.
pub open spec fn is_digit(c: char) -> bool {
    '0' <= c && c <= '9'
}

/// Numeric value of a digit.
pub open spec fn digit_val(c: char) -> int {
    c as int - '0' as int
}

/// Numeric value of a digit string, most significant digit first.
pub open spec fn digits_val(s: Seq<char>) -> int
    decreases s.len(),
{
    if s.len() == 0 {
        0
    } else {
        digits_val(s.drop_last()) * 10 + digit_val(s.last())
    }
}

/// Every character of `s` is a decimal digit.
pub open spec fn all_digits(s: Seq<char>) -> bool {
    forall|i: int| 0 <= i < s.len() ==> is_digit(s[i])
}

/// What parsing an `i32` out of decimal text accepts: an optional sign
/// followed by at least one digit, with the value within `i32`'s range.
pub open spec fn spec_parse_i32(s: Seq<char>) -> Option<i32> {
    let signed = s.len() > 0 && (s[0] == '-' || s[0] == '+');
    let neg = s.len() > 0 && s[0] == '-';
    let ds = if signed {
        s.drop_first()
    } else {
        s
    };
    if ds.len() == 0 || !all_digits(ds) {
        None
    } else {
        let v = if neg {
            -digits_val(ds)
        } else {
            digits_val(ds)
        };
        if i32::MIN <= v <= i32::MAX {
            Some(v as i32)
        } else {
            None
        }
    }
}

/// The minor-unit validator: the sentinel `"N.A."` means "no value"; any
/// other text must parse as a number, else it is a value error naming the
/// offending text.
pub open spec fn spec_minor_units(s: Seq<char>) -> Result<Option<i32>, ErrModel> {
    if s == "N.A."@ {
        Ok(None)
    } else {
        match spec_parse_i32(s) {
            Some(v) => Ok(Some(v)),
            None => Err(ErrModel::BadMinorUnit(s)),
        }
    }
}

/// The fund-flag validator: an absent attribute means "not a fund"; a
/// present attribute must be a boolean in one of XML's forms (`true`, `1`,
/// `false`, `0`) and must encode true — a present false is a value error,
/// and any other text is not a boolean at all.
pub open spec fn spec_is_fund(attr: Option<Seq<char>>) -> Result<bool, ErrModel> {
    match attr {
        None => Ok(false),
        Some(s) => if s == "true"@ || s == "1"@ {
            Ok(true)
        } else if s == "false"@ || s == "0"@ {
            Err(ErrModel::FundFlagFalse)
        } else {
            Err(ErrModel::BadFundFlag(s))
        },
    }
}

/// Compares two string slices character by character.
pub fn str_eq(a: &str, b: &str) -> (r: bool)
    ensures
        r == (a@ == b@),
{
    let an = a.unicode_len();
    let bn = b.unicode_len();
    if an != bn {
        return false;
    }
    let mut i: usize = 0;
    while i < an
        invariant
            an == a@.len(),
            bn == b@.len(),
            an == bn,
            i <= an,
            forall|j: int| 0 <= j < i ==> a@[j] == b@[j],
        decreases an - i,
    {
        if a.get_char(i) != b.get_char(i) {
            return false;
        }
        i += 1;
    }
    proof {
        assert(a@ =~= b@);
    }
    true
}

/// Parses an `i32` from decimal text: an optional sign followed by at least
/// one digit, rejecting values out of `i32`'s range.
pub fn parse_i32(s: &str) -> (r: Option<i32>)
    ensures
        r == spec_parse_i32(s@),
{
    let n = s.unicode_len();
    if n == 0 {
        return None;
    }
    let c0 = s.get_char(0);
    let start: usize = if c0 == '-' || c0 == '+' {
        1
    } else {
        0
    };
    let ghost ds: Seq<char> = if start == 1 {
        s@.drop_first()
    } else {
        s@
    };
    proof {
        assert(ds =~= s@.subrange(start as int, n as int));
    }
    if start == n {
        return None;
    }
    let mut i: usize = start;
    let mut v: u64 = 0;
    while i < n
        invariant
            n == s@.len(),
            start <= i <= n,
            start < n,
            start <= 1,
            (s@[0] == '-' || s@[0] == '+') <==> start == 1,
            ds == s@.subrange(start as int, n as int),
            forall|j: int| start <= j < i ==> is_digit(s@[j]),
            ({
                let p = digits_val(s@.subrange(start as int, i as int));
                (v as int == p && v <= 2147483648) || (v > 2147483648 && p > 2147483648)
            }),
        decreases n - i,
    {
        let c = s.get_char(i);
        if !('0' <= c && c <= '9') {
            proof {
                assert(ds[i - start] == s@[i as int]);
                assert(!all_digits(ds)) by {
                    assert(!is_digit(ds[i - start]));
                };
            }
            return None;
        }
        let d: u64 = (c as u32 as u64) - 48;
        let ghost pre = s@.subrange(start as int, i as int);
        let ghost post = s@.subrange(start as int, i + 1 as int);
        proof {
            assert(post.drop_last() =~= pre);
            assert(post.last() == s@[i as int]);
            assert(0 <= d < 10);
        }
        if v <= 2147483648 {
            v = v * 10 + d;
        } else {
            proof {
                assert(digits_val(post) == digits_val(pre) * 10 + digit_val(post.last()));
                assert(digits_val(pre) * 10 >= digits_val(pre)) by {
                    assert(digits_val(pre) > 2147483648);
                };
            }
        }
        i += 1;
    }
    proof {
        assert(all_digits(ds)) by {
            assert forall|k: int| 0 <= k < ds.len() implies is_digit(ds[k]) by {
                assert(ds[k] == s@[k + start]);
            };
        };
        assert(digits_val(ds) == digits_val(s@.subrange(start as int, n as int)));
    }
    if c0 == '-' {
        if v <= 2147483648 {
            proof {
                assert(-2147483648 <= -(v as i64) <= 2147483647);
            }
            let r = (-(v as i64)) as i32;
            Some(r)
        } else {
            None
        }
    } else {
        if v <= 2147483647 {
            Some(v as i32)
        } else {
            None
        }
    }
}

/// The minor-unit validator on raw element text.
pub fn validate_minor_units(s: &str) -> (r: Result<Option<i32>, DeError>)
    ensures
        match r {
            Ok(v) => spec_minor_units(s@) == Ok::<Option<i32>, ErrModel>(v),
            Err(e) => spec_minor_units(s@) == Err::<Option<i32>, ErrModel>(e@),
        },
{
    if str_eq(s, "N.A.") {
        Ok(None)
    } else {
        match parse_i32(s) {
            Some(v) => Ok(Some(v)),
            None => Err(DeError::BadMinorUnit(s.to_owned())),
        }
    }
}

/// The fund-flag validator on the raw attribute value, or its absence.
pub fn validate_is_fund(attr: Option<&str>) -> (r: Result<bool, DeError>)
    ensures
        match r {
            Ok(b) => spec_is_fund(attr.deep_view()) == Ok::<bool, ErrModel>(b),
            Err(e) => spec_is_fund(attr.deep_view()) == Err::<bool, ErrModel>(e@),
        },
{
    match attr {
        None => Ok(false),
        Some(s) => {
            if str_eq(s, "true") || str_eq(s, "1") {
                Ok(true)
            } else if str_eq(s, "false") || str_eq(s, "0") {
                Err(DeError::FundFlagFalse)
            } else {
                Err(DeError::BadFundFlag(s.to_owned()))
            }
        },
    }
}

} // verus!
