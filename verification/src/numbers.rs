//! Numeric field parsing: integers with the grammar of `from_str`, and the
//! decimal values used by the `BPM`, `GAP` and `VIDEOGAP` header fields.

use vstd::prelude::*;
use crate::text::{all_digits, digit_val, digits_val, find_from, is_digit, lemma_find_from_range};
use crate::text::{find_char, substring};

verus! {

/// A decimal number scaled to an integer mantissa: the value is
/// `mantissa / 10^scale`, negated when `neg` is set. `12.5` is held as
/// mantissa 125 with scale 1.
#[derive(Clone, Debug, PartialEq, Eq)]
pub struct Decimal {
    pub neg: bool,
    pub mantissa: u64,
    pub scale: usize,
}

/// A digit-string prefix never exceeds the value of the whole string.
proof fn lemma_digits_val_mono(t: Seq<char>, m: int)
    requires
        0 <= m <= t.len(),
    ensures
        digits_val(t.subrange(0, m)) <= digits_val(t),
    decreases t.len() - m,
{
    if m == t.len() {
        assert(t.subrange(0, m) =~= t);
    } else {
        assert(t.subrange(0, m + 1).drop_last() =~= t.subrange(0, m));
        assert(digits_val(t.subrange(0, m + 1)) == digits_val(t.subrange(0, m)) * 10 + digit_val(
            t[m],
        ));
        lemma_digits_val_mono(t, m + 1);
    }
}

/// The value of `s` read as a base-ten digit string, if every character is a
/// digit and the value fits in a `u64`.
pub open spec fn spec_digits_to_u64(s: Seq<char>) -> Option<u64> {
    if all_digits(s) && digits_val(s) <= u64::MAX {
        Some(digits_val(s) as u64)
    } else {
        None
    }
}

/// Reads a digit string in base ten; `None` on a non-digit or overflow.
pub fn digits_to_u64(s: &str) -> (r: Option<u64>)
    ensures
        r == spec_digits_to_u64(s@),
{
    let len = s.unicode_len();
    let mut acc: u64 = 0;
    let mut j: usize = 0;
    while j < len
        invariant
            j <= len,
            len == s@.len(),
            all_digits(s@.subrange(0, j as int)),
            acc == digits_val(s@.subrange(0, j as int)),
        decreases len - j,
    {
        let c = s.get_char(j);
        let cv = c as u32;
        if cv < 48 || cv > 57 {
            assert(!is_digit(s@[j as int]));
            return None;
        }
        let d: u64 = (cv - 48) as u64;
        proof {
            assert(s@.subrange(0, j + 1).drop_last() =~= s@.subrange(0, j as int));
            assert(digits_val(s@.subrange(0, j + 1)) == digits_val(s@.subrange(0, j as int)) * 10
                + digit_val(s@[j as int]));
        }
        let step = match acc.checked_mul(10) {
            Some(x) => x.checked_add(d),
            None => None,
        };
        match step {
            Some(x) => {
                acc = x;
            },
            None => {
                proof {
                    lemma_digits_val_mono(s@, j + 1);
                }
                return None;
            },
        }
        j += 1;
    }
    proof {
        assert(s@.subrange(0, len as int) =~= s@);
    }
    Some(acc)
}

/// The grammar of `u32::from_str`: an optional `+`, then at least one digit,
/// with a value of at most `u32::MAX`.
pub open spec fn spec_parse_u32(s: Seq<char>) -> Option<u32> {
    let ds = if s.len() > 0 && s[0] == '+' {
        s.drop_first()
    } else {
        s
    };
    if ds.len() == 0 || !all_digits(ds) || digits_val(ds) > u32::MAX {
        None
    } else {
        Some(digits_val(ds) as u32)
    }
}

/// Parses a non-negative integer exactly as `u32::from_str` does.
pub fn parse_u32(s: &str) -> (r: Option<u32>)
    ensures
        r == spec_parse_u32(s@),
{
    let len = s.unicode_len();
    let a: usize = if len > 0 && s.get_char(0) == '+' {
        1
    } else {
        0
    };
    if a == len {
        return None;
    }
    let ds = substring(s, a, len);
    proof {
        if a == 1 {
            assert(s@.drop_first() =~= s@.subrange(1, len as int));
        } else {
            assert(s@.subrange(0, len as int) =~= s@);
        }
    }
    match digits_to_u64(ds.as_str()) {
        None => None,
        Some(v) => {
            if v > 0xFFFF_FFFF {
                None
            } else {
                Some(v as u32)
            }
        },
    }
}

/// The grammar of `i32::from_str`: an optional sign, then at least one digit,
/// with a value in the range of `i32`.
pub open spec fn spec_parse_i32(s: Seq<char>) -> Option<i32> {
    let neg = s.len() > 0 && s[0] == '-';
    let ds = if s.len() > 0 && (s[0] == '-' || s[0] == '+') {
        s.drop_first()
    } else {
        s
    };
    if ds.len() == 0 || !all_digits(ds) {
        None
    } else if neg {
        if digits_val(ds) > 0x8000_0000 {
            None
        } else {
            Some((-(digits_val(ds) as int)) as i32)
        }
    } else {
        if digits_val(ds) > i32::MAX {
            None
        } else {
            Some(digits_val(ds) as i32)
        }
    }
}

/// Parses a signed integer exactly as `i32::from_str` does.
pub fn parse_i32(s: &str) -> (r: Option<i32>)
    ensures
        r == spec_parse_i32(s@),
{
    let len = s.unicode_len();
    let mut neg = false;
    let mut a: usize = 0;
    if len > 0 {
        let c0 = s.get_char(0);
        if c0 == '-' {
            neg = true;
            a = 1;
        } else if c0 == '+' {
            a = 1;
        }
    }
    if a == len {
        return None;
    }
    let ds = substring(s, a, len);
    proof {
        if a == 1 {
            assert(s@.drop_first() =~= s@.subrange(1, len as int));
        } else {
            assert(s@.subrange(0, len as int) =~= s@);
        }
    }
    match digits_to_u64(ds.as_str()) {
        None => None,
        Some(v) => {
            if neg {
                if v > 0x8000_0000 {
                    None
                } else if v == 0x8000_0000 {
                    Some(i32::MIN)
                } else {
                    Some(-(v as i32))
                }
            } else {
                if v > 0x7FFF_FFFF {
                    None
                } else {
                    Some(v as i32)
                }
            }
        },
    }
}

/// The decimal grammar of the header fields, applied after comma
/// normalization: an optional sign, digits with at most one point, and at
/// least one digit overall. The digits on both sides of the point form the
/// mantissa; the count of fractional digits is the scale. Exponent forms are
/// not part of the grammar, and a mantissa beyond `u64` is rejected.
pub open spec fn spec_parse_decimal(s: Seq<char>) -> Option<Decimal> {
    let neg = s.len() > 0 && s[0] == '-';
    let t = if s.len() > 0 && (s[0] == '-' || s[0] == '+') {
        s.drop_first()
    } else {
        s
    };
    match find_from(t, 0, '.') {
        None => {
            if t.len() == 0 || !all_digits(t) || digits_val(t) > u64::MAX {
                None
            } else {
                Some(Decimal { neg, mantissa: digits_val(t) as u64, scale: 0 })
            }
        },
        Some(d) => {
            let ip = t.subrange(0, d);
            let fp = t.subrange(d + 1, t.len() as int);
            let ds = ip + fp;
            if ds.len() == 0 || !all_digits(ds) || digits_val(ds) > u64::MAX || fp.len()
                > usize::MAX {
                None
            } else {
                Some(
                    Decimal {
                        neg,
                        mantissa: digits_val(ds) as u64,
                        scale: fp.len() as usize,
                    },
                )
            }
        },
    }
}

/// Comma decimal separators normalized to periods, as the header parser does
/// before reading a decimal field.
pub open spec fn normalize_commas(s: Seq<char>) -> Seq<char> {
    s.map_values(|c: char| if c == ',' { '.' } else { c })
}

/// Index of the first decimal separator, period or comma, at or after `from`.
pub open spec fn find_sep_from(s: Seq<char>, from: int) -> Option<int>
    decreases s.len() - from,
{
    if from < 0 || from >= s.len() {
        None
    } else if s[from] == '.' || s[from] == ',' {
        Some(from)
    } else {
        find_sep_from(s, from + 1)
    }
}

/// Finding a separator in `s` is finding a period in its normalization.
proof fn lemma_find_sep(s: Seq<char>, from: int)
    ensures
        find_sep_from(s, from) == find_from(normalize_commas(s), from, '.'),
    decreases s.len() - from,
{
    let n = normalize_commas(s);
    if from < 0 || from >= s.len() {
    } else {
        assert(n[from] == (if s[from] == ',' {
            '.'
        } else {
            s[from]
        }));
        if s[from] == '.' || s[from] == ',' {
        } else {
            lemma_find_sep(s, from + 1);
        }
    }
}

/// Normalization keeps digit-hood of every character, and leaves a pure digit
/// string unchanged.
proof fn lemma_normalize_digits(x: Seq<char>)
    ensures
        all_digits(normalize_commas(x)) == all_digits(x),
        all_digits(x) ==> normalize_commas(x) =~= x,
{
    let n = normalize_commas(x);
    assert forall|i: int| 0 <= i < x.len() implies is_digit(#[trigger] n[i]) == is_digit(x[i]) by {
        assert(n[i] == (if x[i] == ',' {
            '.'
        } else {
            x[i]
        }));
    }
    if all_digits(n) {
        assert forall|i: int| 0 <= i < x.len() implies is_digit(#[trigger] x[i]) by {
            assert(is_digit(n[i]) == is_digit(x[i]));
        }
    }
    if all_digits(x) {
        assert forall|i: int| 0 <= i < x.len() implies #[trigger] n[i] == x[i] by {
            assert(is_digit(x[i]));
        }
    }
}

/// First decimal separator, period or comma, in `s` at or after `from`.
fn find_sep(s: &str, from: usize) -> (r: Option<usize>)
    requires
        from <= s@.len(),
    ensures
        match r {
            Some(i) => find_sep_from(s@, from as int) == Some(i as int) && from <= i < s@.len(),
            None => find_sep_from(s@, from as int) is None,
        },
{
    let len = s.unicode_len();
    let mut j = from;
    while j < len
        invariant
            from <= j <= len,
            len == s@.len(),
            find_sep_from(s@, from as int) == find_sep_from(s@, j as int),
        decreases len - j,
    {
        let c = s.get_char(j);
        if c == '.' || c == ',' {
            return Some(j);
        }
        j += 1;
    }
    None
}

/// Parses a decimal field value, accepting a comma as the decimal separator;
/// `None` when the text does not fit the grammar.
pub fn parse_decimal(s: &str) -> (r: Option<Decimal>)
    ensures
        r == spec_parse_decimal(normalize_commas(s@)),
{
    let ghost ns = normalize_commas(s@);
    let len = s.unicode_len();
    let mut neg = false;
    let mut a: usize = 0;
    if len > 0 {
        let c0 = s.get_char(0);
        proof {
            assert(ns[0] == (if s@[0] == ',' {
                '.'
            } else {
                s@[0]
            }));
        }
        if c0 == '-' {
            neg = true;
            a = 1;
        } else if c0 == '+' {
            a = 1;
        }
    }
    let t = substring(s, a, len);
    let ghost tn = normalize_commas(t@);
    proof {
        if a == 1 {
            assert(ns.drop_first() =~= tn);
        } else {
            assert(ns =~= tn);
        }
    }
    let tlen = t.as_str().unicode_len();
    match find_sep(t.as_str(), 0) {
        None => {
            proof {
                lemma_find_sep(t@, 0);
            }
            if tlen == 0 {
                return None;
            }
            proof {
                lemma_normalize_digits(t@);
            }
            match digits_to_u64(t.as_str()) {
                None => None,
                Some(v) => Some(Decimal { neg, mantissa: v, scale: 0 }),
            }
        },
        Some(d) => {
            proof {
                lemma_find_sep(t@, 0);
            }
            let ip = substring(t.as_str(), 0, d);
            let fp = substring(t.as_str(), d + 1, tlen);
            let flen = fp.as_str().unicode_len();
            let ds = ip.concat(fp.as_str());
            let ghost dsn = tn.subrange(0, d as int) + tn.subrange(d + 1, tn.len() as int);
            proof {
                assert(dsn =~= normalize_commas(ds@));
                lemma_normalize_digits(ds@);
            }
            if ds.as_str().unicode_len() == 0 {
                return None;
            }
            match digits_to_u64(ds.as_str()) {
                None => None,
                Some(v) => Some(Decimal { neg, mantissa: v, scale: flen }),
            }
        },
    }
}

} // verus!
