//! Character-level utilities shared by the decoder and the parsers: line
//! splitting with the same semantics as `str::lines`, substring search, and
//! ASCII case folding.

use vstd::prelude::*;

verus! {

/// True for the ASCII decimal digits.
pub open spec fn is_digit(c: char) -> bool {
    48 <= c as u32 <= 57
}

/// Numeric value of an ASCII digit.
pub open spec fn digit_val(c: char) -> nat {
    (c as u32 - 48) as nat
}

/// Every character of `s` is an ASCII decimal digit.
pub open spec fn all_digits(s: Seq<char>) -> bool {
    forall|i: int| 0 <= i < s.len() ==> is_digit(#[trigger] s[i])
}

/// Value of a digit string read in base ten.
pub open spec fn digits_val(s: Seq<char>) -> nat
    decreases s.len(),
{
    if s.len() == 0 {
        0
    } else {
        digits_val(s.drop_last()) * 10 + digit_val(s.last())
    }
}

/// Index of the first occurrence of `c` in `s` at or after `from`.
pub open spec fn find_from(s: Seq<char>, from: int, c: char) -> Option<int>
    decreases s.len() - from,
{
    if from < 0 || from >= s.len() {
        None
    } else if s[from] == c {
        Some(from)
    } else {
        find_from(s, from + 1, c)
    }
}

/// A hit reported by `find_from` lies in range and holds `c`.
pub proof fn lemma_find_from_range(s: Seq<char>, from: int, c: char)
    ensures
        find_from(s, from, c) matches Some(i) ==> from <= i < s.len() && s[i] == c,
    decreases s.len() - from,
{
    if from < 0 || from >= s.len() {
    } else if s[from] == c {
    } else {
        lemma_find_from_range(s, from + 1, c);
    }
}

/// A terminated line with its carriage return removed, as `str::lines` strips
/// one trailing `'\r'` from a line that ended in `"\r\n"`.
pub open spec fn strip_cr(l: Seq<char>) -> Seq<char> {
    if l.len() > 0 && l.last() == '\r' {
        l.drop_last()
    } else {
        l
    }
}

/// The lines of `s` starting at `pos`: split at `'\n'`, one `'\r'` stripped
/// from the end of each terminated line, and a final unterminated segment
/// yielded verbatim. An empty tail yields nothing, as `str::lines` does.
pub open spec fn spec_lines_from(s: Seq<char>, pos: int) -> Seq<Seq<char>>
    decreases s.len() - pos,
    via spec_lines_from_decreases
{
    if pos < 0 || pos >= s.len() {
        Seq::empty()
    } else {
        match find_from(s, pos, '\n') {
            None => seq![s.subrange(pos, s.len() as int)],
            Some(i) => seq![strip_cr(s.subrange(pos, i))] + spec_lines_from(s, i + 1),
        }
    }
}

#[via_fn]
proof fn spec_lines_from_decreases(s: Seq<char>, pos: int) {
    lemma_find_from_range(s, pos, '\n');
}

/// The lines of `s`, with the same splitting rule as `str::lines`.
pub open spec fn spec_lines(s: Seq<char>) -> Seq<Seq<char>> {
    spec_lines_from(s, 0)
}

/// ASCII upper-case letters folded to lower case; all else unchanged.
pub open spec fn lower_char(c: char) -> char {
    if 65 <= c as u32 <= 90 {
        ((c as u8) + 32) as char
    } else {
        c
    }
}

/// Character-wise ASCII case folding.
pub open spec fn lower_seq(s: Seq<char>) -> Seq<char> {
    s.map_values(|c: char| lower_char(c))
}

/// First occurrence of `c` in `s` at or after `from`.
pub fn find_char(s: &str, from: usize, c: char) -> (r: Option<usize>)
    requires
        from <= s@.len(),
    ensures
        match r {
            Some(i) => find_from(s@, from as int, c) == Some(i as int) && from <= i < s@.len()
                && s@[i as int] == c,
            None => find_from(s@, from as int, c) is None,
        },
{
    let len = s.unicode_len();
    let mut j = from;
    while j < len
        invariant
            from <= j <= len,
            len == s@.len(),
            find_from(s@, from as int, c) == find_from(s@, j as int, c),
        decreases len - j,
    {
        if s.get_char(j) == c {
            return Some(j);
        }
        j += 1;
    }
    None
}

/// The substring of `s` over the character range `[a, b)` as an owned string.
pub fn substring(s: &str, a: usize, b: usize) -> (r: String)
    requires
        a <= b <= s@.len(),
    ensures
        r@ == s@.subrange(a as int, b as int),
{
    String::from_str(s.substring_char(a, b))
}

/// Character-for-character equality of two strings.
pub fn str_eq(a: &str, b: &str) -> (r: bool)
    ensures
        r == (a@ == b@),
{
    let alen = a.unicode_len();
    let blen = b.unicode_len();
    if alen != blen {
        assert(a@ != b@) by {
            assert(a@.len() != b@.len());
        }
        return false;
    }
    let mut i: usize = 0;
    while i < alen
        invariant
            i <= alen,
            alen == a@.len() == b@.len(),
            forall|k: int| 0 <= k < i ==> a@[k] == b@[k],
        decreases alen - i,
    {
        if a.get_char(i) != b.get_char(i) {
            return false;
        }
        i += 1;
    }
    proof {
        assert(a@ =~= b@);
    }
    true
}

/// Whether folding `a` to ASCII lower case yields exactly `b`.
pub fn eq_lower(a: &str, b: &str) -> (r: bool)
    ensures
        r == (lower_seq(a@) == b@),
{
    let alen = a.unicode_len();
    let blen = b.unicode_len();
    if alen != blen {
        assert(lower_seq(a@) != b@) by {
            assert(lower_seq(a@).len() != b@.len());
        }
        return false;
    }
    let mut i: usize = 0;
    while i < alen
        invariant
            i <= alen,
            alen == a@.len() == b@.len(),
            forall|k: int| 0 <= k < i ==> lower_char(a@[k]) == b@[k],
        decreases alen - i,
    {
        let c = a.get_char(i);
        let cv = c as u32;
        let folded: char = if 65 <= cv && cv <= 90 {
            ((c as u8) + 32) as char
        } else {
            c
        };
        assert(folded == lower_char(a@[i as int]));
        if folded != b.get_char(i) {
            assert(lower_seq(a@)[i as int] != b@[i as int]);
            return false;
        }
        i += 1;
    }
    proof {
        assert(lower_seq(a@) =~= b@);
    }
    true
}

/// The lines of `s`, split as `str::lines` splits them.
pub fn split_lines(s: &str) -> (r: Vec<String>)
    ensures
        r@.map_values(|l: String| l@) == spec_lines(s@),
{
    let len = s.unicode_len();
    let mut out: Vec<String> = Vec::new();
    let mut pos: usize = 0;
    while pos < len
        invariant
            pos <= len,
            len == s@.len(),
            out@.map_values(|l: String| l@) + spec_lines_from(s@, pos as int) == spec_lines(
                s@,
            ),
        decreases len - pos,
    {
        let ghost prev = out@.map_values(|l: String| l@);
        match find_char(s, pos, '\n') {
            Some(i) => {
                let line = if i > pos && s.get_char(i - 1) == '\r' {
                    substring(s, pos, i - 1)
                } else {
                    substring(s, pos, i)
                };
                proof {
                    assert(line@ == strip_cr(s@.subrange(pos as int, i as int))) by {
                        let raw = s@.subrange(pos as int, i as int);
                        if i > pos && s@[i - 1] == '\r' {
                            assert(raw.len() > 0 && raw.last() == '\r');
                            assert(raw.drop_last() =~= s@.subrange(pos as int, i - 1));
                        }
                    }
                }
                out.push(line);
                proof {
                    assert(out@.map_values(|l: String| l@) =~= prev + seq![line@]);
                    assert(prev + seq![line@] + spec_lines_from(s@, i + 1) =~= prev
                        + spec_lines_from(s@, pos as int));
                }
                pos = i + 1;
            },
            None => {
                let line = substring(s, pos, len);
                out.push(line);
                proof {
                    assert(out@.map_values(|l: String| l@) =~= prev + seq![line@]);
                    assert(spec_lines_from(s@, pos as int) =~= seq![line@]);
                    assert(prev + seq![line@] + spec_lines_from(s@, len as int) =~= prev
                        + spec_lines_from(s@, pos as int));
                }
                pos = len;
            },
        }
    }
    proof {
        assert(spec_lines_from(s@, pos as int) =~= Seq::<Seq<char>>::empty());
        assert(out@.map_values(|l: String| l@) =~= spec_lines(s@));
    }
    out
}

} // verus!
