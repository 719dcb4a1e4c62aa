//! Small verified helpers over strings and characters.

use vstd::prelude::*;

verus! {

/// Whether two strings hold the same characters.
pub fn str_eq(a: &str, b: &str) -> (r: bool)
    ensures
        r == (a@ == b@),
{
    let an = a.unicode_len();
    let bn = b.unicode_len();
    if an != bn {
        return false;
    }
    let mut i: usize = 0;
    while i < an
        invariant
            an == a@.len() && an == b@.len(),
            0 <= i <= an,
            forall|k: int| 0 <= k < i ==> a@[k] == b@[k],
        decreases an - i,
    {
        if a.get_char(i) != b.get_char(i) {
            return false;
        }
        i = i + 1;
    }
    assert(a@ =~= b@);
    true
}

/// Whether a character counts as folding whitespace in a record line.
pub open spec fn is_space(c: char) -> bool {
    c == ' ' || c == '\t'
}

/// The index of the first character from `i` on that fails `pred`; the
/// length if all do. Here `pred` selects via `is_space` when `spaces` is
/// true, its complement otherwise.
pub open spec fn skip_while_spaces(s: Seq<char>, i: int, spaces: bool) -> int
    decreases s.len() - i,
{
    if i < 0 || i >= s.len() {
        s.len() as int
    } else if is_space(s[i]) == spaces {
        skip_while_spaces(s, i + 1, spaces)
    } else {
        i
    }
}

/// The bounds of `skip_while_spaces`: the result lies between `i` and the
/// length, everything skipped matched, and the stop either is the end or
/// fails the predicate.
pub proof fn lemma_skip_while_spaces(s: Seq<char>, i: int, spaces: bool)
    requires
        0 <= i <= s.len(),
    ensures
        i <= skip_while_spaces(s, i, spaces) <= s.len(),
        forall|k: int| i <= k < skip_while_spaces(s, i, spaces) ==> is_space(s[k]) == spaces,
        skip_while_spaces(s, i, spaces) < s.len() ==> is_space(
            s[skip_while_spaces(s, i, spaces)],
        ) != spaces,
    decreases s.len() - i,
{
    if i < s.len() && is_space(s[i]) == spaces {
        lemma_skip_while_spaces(s, i + 1, spaces);
    }
}

/// Finds the first index at or after `i` whose space-ness equals `spaces`;
/// the length if there is none.
pub fn skip_chars(s: &str, i: usize, spaces: bool) -> (r: usize)
    requires
        i <= s@.len(),
    ensures
        r == skip_while_spaces(s@, i as int, spaces),
        i <= r <= s@.len(),
    decreases s@.len() - i,
{
    proof {
        lemma_skip_while_spaces(s@, i as int, spaces);
    }
    let n = s.unicode_len();
    if i >= n {
        return n;
    }
    let c = s.get_char(i);
    if (c == ' ' || c == '\t') == spaces {
        skip_chars(s, i + 1, spaces)
    } else {
        i
    }
}

/// The index one past the last character before `j` that fails `is_space`;
/// `i` if all of `s[i..j]` is space.
pub open spec fn rtrim_index(s: Seq<char>, i: int, j: int) -> int
    decreases j - i,
{
    if j <= i {
        i
    } else if is_space(s[j - 1]) {
        rtrim_index(s, i, j - 1)
    } else {
        j
    }
}

/// The bounds of `rtrim_index`: the result lies between `i` and `j`, all
/// trailing characters cut were spaces, and the character just before the
/// result, if any, is not a space.
pub proof fn lemma_rtrim_index(s: Seq<char>, i: int, j: int)
    requires
        0 <= i <= j <= s.len(),
    ensures
        i <= rtrim_index(s, i, j) <= j,
        forall|k: int| rtrim_index(s, i, j) <= k < j ==> is_space(s[k]),
        rtrim_index(s, i, j) > i ==> !is_space(s[rtrim_index(s, i, j) - 1]),
    decreases j - i,
{
    if j > i && is_space(s[j - 1]) {
        lemma_rtrim_index(s, i, j - 1);
    }
}

/// Finds `rtrim_index` of the range `i..j` of `s`.
pub fn rtrim_chars(s: &str, i: usize, j: usize) -> (r: usize)
    requires
        i <= j && j <= s@.len(),
    ensures
        r == rtrim_index(s@, i as int, j as int),
        i <= r <= j,
    decreases j - i,
{
    proof {
        lemma_rtrim_index(s@, i as int, j as int);
    }
    if j <= i {
        return i;
    }
    let c = s.get_char(j - 1);
    if c == ' ' || c == '\t' {
        rtrim_chars(s, i, j - 1)
    } else {
        j
    }
}

/// The characters of `s` between `i` and `j` with surrounding space cut:
/// the subrange from the first non-space to just past the last non-space.
pub open spec fn trimmed(s: Seq<char>, i: int, j: int) -> Seq<char> {
    let a = skip_while_spaces(s, i, true);
    if a >= j {
        Seq::empty()
    } else {
        s.subrange(a, rtrim_index(s, a, j))
    }
}

/// Copies the range `i..j` of `s` with surrounding space cut.
pub fn trim_substring(s: &str, i: usize, j: usize) -> (r: String)
    requires
        i <= j && j <= s@.len(),
    ensures
        r@ == trimmed(s@, i as int, j as int),
{
    let a = skip_chars(s, i, true);
    proof {
        lemma_skip_while_spaces(s@, i as int, true);
    }
    if a >= j {
        proof {
            assert(trimmed(s@, i as int, j as int) =~= Seq::<char>::empty());
        }
        return String::new();
    }
    let b = rtrim_chars(s, a, j);
    s.substring_char(a, b).to_owned()
}

/// The first index at or after `i` where character `c` stands; the length
/// if it does not occur there.
pub open spec fn find_char(s: Seq<char>, i: int, c: char) -> int
    decreases s.len() - i,
{
    if i < 0 || i >= s.len() {
        s.len() as int
    } else if s[i] == c {
        i
    } else {
        find_char(s, i + 1, c)
    }
}

/// The bounds of `find_char`: the result lies between `i` and the length,
/// no earlier position from `i` on holds `c`, and the result, if within
/// range, does.
pub proof fn lemma_find_char(s: Seq<char>, i: int, c: char)
    requires
        0 <= i <= s.len(),
    ensures
        i <= find_char(s, i, c) <= s.len(),
        forall|k: int| i <= k < find_char(s, i, c) ==> s[k] != c,
        find_char(s, i, c) < s.len() ==> s[find_char(s, i, c)] == c,
    decreases s.len() - i,
{
    if i < s.len() && s[i] != c {
        lemma_find_char(s, i + 1, c);
    }
}

/// The first index in `i..end` where character `c` stands; `end` if it
/// does not occur there.
pub open spec fn find_char_in(s: Seq<char>, i: int, end: int, c: char) -> int
    decreases end - i,
    when 0 <= i <= end <= s.len()
{
    if i >= end {
        end
    } else if s[i] == c {
        i
    } else {
        find_char_in(s, i + 1, end, c)
    }
}

/// The bounds of `find_char_in`: within `i..end`, nothing before the
/// result holds `c`, and the result does when it is short of `end`.
pub proof fn lemma_find_char_in(s: Seq<char>, i: int, end: int, c: char)
    requires
        0 <= i <= end <= s.len(),
    ensures
        i <= find_char_in(s, i, end, c) <= end,
        forall|k: int| i <= k < find_char_in(s, i, end, c) ==> s[k] != c,
        find_char_in(s, i, end, c) < end ==> s[find_char_in(s, i, end, c)] == c,
    decreases end - i,
{
    if i < end && s[i] != c {
        lemma_find_char_in(s, i + 1, end, c);
    }
}

/// Finds the first occurrence of `c` in `i..end`; `end` if none.
pub fn find_char_within(s: &str, i: usize, end: usize, c: char) -> (r: usize)
    requires
        i <= end && end <= s@.len(),
    ensures
        r == find_char_in(s@, i as int, end as int, c),
        i <= r <= end,
    decreases end - i,
{
    proof {
        lemma_find_char_in(s@, i as int, end as int, c);
    }
    if i >= end {
        return end;
    }
    if s.get_char(i) == c {
        i
    } else {
        find_char_within(s, i + 1, end, c)
    }
}

/// The first index in `i..end` whose space-ness differs from `spaces`;
/// `end` if there is none.
pub open spec fn skip_in(s: Seq<char>, i: int, end: int, spaces: bool) -> int
    decreases end - i,
    when 0 <= i <= end <= s.len()
{
    if i >= end {
        end
    } else if is_space(s[i]) == spaces {
        skip_in(s, i + 1, end, spaces)
    } else {
        i
    }
}

/// The bounds of `skip_in`: within `i..end`, everything skipped matched,
/// and the stop either is `end` or fails the predicate.
pub proof fn lemma_skip_in(s: Seq<char>, i: int, end: int, spaces: bool)
    requires
        0 <= i <= end <= s.len(),
    ensures
        i <= skip_in(s, i, end, spaces) <= end,
        forall|k: int| i <= k < skip_in(s, i, end, spaces) ==> is_space(s[k]) == spaces,
        skip_in(s, i, end, spaces) < end ==> is_space(s[skip_in(s, i, end, spaces)]) != spaces,
    decreases end - i,
{
    if i < end && is_space(s[i]) == spaces {
        lemma_skip_in(s, i + 1, end, spaces);
    }
}

/// Finds the first index in `i..end` whose space-ness equals `spaces`;
/// `end` if there is none.
pub fn skip_chars_in(s: &str, i: usize, end: usize, spaces: bool) -> (r: usize)
    requires
        i <= end && end <= s@.len(),
    ensures
        r == skip_in(s@, i as int, end as int, spaces),
        i <= r <= end,
    decreases end - i,
{
    proof {
        lemma_skip_in(s@, i as int, end as int, spaces);
    }
    if i >= end {
        return end;
    }
    let c = s.get_char(i);
    if (c == ' ' || c == '\t') == spaces {
        skip_chars_in(s, i + 1, end, spaces)
    } else {
        i
    }
}

/// Whether a character is a decimal digit.
pub open spec fn is_digit(c: char) -> bool {
    '0' <= c && c <= '9'
}

/// Whether the characters form a nonempty run of decimal digits.
pub open spec fn all_digits(s: Seq<char>) -> bool {
    s.len() > 0 && forall|k: int| 0 <= k < s.len() ==> is_digit(#[trigger] s[k])
}

/// The number the decimal digits denote.
pub open spec fn dec_val(s: Seq<char>) -> int
    decreases s.len(),
{
    if s.len() == 0 {
        0
    } else {
        dec_val(s.drop_last()) * 10 + (s.last() as int - 48)
    }
}

/// A digit run's value only grows as digits are appended.
pub proof fn lemma_dec_val_prefix(s: Seq<char>, k: int)
    requires
        0 <= k <= s.len(),
        forall|t: int| 0 <= t < s.len() ==> is_digit(#[trigger] s[t]),
    ensures
        0 <= dec_val(s.take(k)) <= dec_val(s),
    decreases s.len() - k,
{
    if k < s.len() {
        lemma_dec_val_prefix(s, k + 1);
        assert(s.take(k + 1).drop_last() =~= s.take(k));
        assert(s.take(k + 1).last() == s[k]);
    } else {
        assert(s.take(k) =~= s);
        lemma_dec_val_nonneg(s);
    }
}

/// A digit run denotes no negative number.
pub proof fn lemma_dec_val_nonneg(s: Seq<char>)
    requires
        forall|t: int| 0 <= t < s.len() ==> is_digit(#[trigger] s[t]),
    ensures
        dec_val(s) >= 0,
    decreases s.len(),
{
    if s.len() > 0 {
        assert(forall|t: int|
            0 <= t < s.drop_last().len() ==> is_digit(#[trigger] s.drop_last()[t]));
        lemma_dec_val_nonneg(s.drop_last());
    }
}

/// Parses a nonempty decimal number: anything else, and anything beyond
/// the integer's range, is an error carrying the text.
pub fn parse_u64(s: &str) -> (r: Result<u64, crate::ParseError>)
    ensures
        match r {
            Ok(v) => all_digits(s@) && v as int == dec_val(s@),
            Err(e) => (!all_digits(s@) || dec_val(s@) > u64::MAX) && (e
                matches crate::ParseError::BadNumber { text } && text@ == s@),
        },
{
    let n = s.unicode_len();
    if n == 0 {
        return Err(crate::ParseError::BadNumber { text: s.to_owned() });
    }
    let mut acc: u64 = 0;
    let mut i: usize = 0;
    while i < n
        invariant
            n == s@.len(),
            0 <= i <= n,
            forall|k: int| 0 <= k < i ==> is_digit(#[trigger] s@[k]),
            acc as int == dec_val(s@.take(i as int)),
        decreases n - i,
    {
        proof {
            assert(s@.take(i + 1).drop_last() =~= s@.take(i as int));
            assert(s@.take(i + 1).last() == s@[i as int]);
        }
        let c = s.get_char(i);
        if !(c >= '0' && c <= '9') {
            return Err(crate::ParseError::BadNumber { text: s.to_owned() });
        }
        let d: u64 = (c as u32 as u64) - 48;
        if acc > (u64::MAX - d) / 10 {
            proof {
                if all_digits(s@) {
                    lemma_dec_val_prefix(s@, i + 1);
                    assert(dec_val(s@.take(i + 1)) > u64::MAX);
                }
            }
            return Err(crate::ParseError::BadNumber { text: s.to_owned() });
        }
        acc = acc * 10 + d;
        i = i + 1;
    }
    proof {
        assert(s@.take(n as int) =~= s@);
    }
    Ok(acc)
}

/// Finds the first occurrence of `c` at or after `i`; the length if none.
pub fn find_char_from(s: &str, i: usize, c: char) -> (r: usize)
    requires
        i <= s@.len(),
    ensures
        r == find_char(s@, i as int, c),
        i <= r <= s@.len(),
    decreases s@.len() - i,
{
    proof {
        lemma_find_char(s@, i as int, c);
    }
    let n = s.unicode_len();
    if i >= n {
        return n;
    }
    if s.get_char(i) == c {
        i
    } else {
        find_char_from(s, i + 1, c)
    }
}

/// The whitespace-separated tokens between `j` and `close`, in order.
pub open spec fn tokens_in(s: Seq<char>, j: int, close: int) -> Seq<Seq<char>>
    decreases close - j,
    when 0 <= j <= close <= s.len()
    via tokens_in_dec
{
    let a = skip_in(s, j, close, true);
    if a >= close {
        Seq::empty()
    } else {
        let b = skip_in(s, a, close, false);
        seq![s.subrange(a, b)] + tokens_in(s, b, close)
    }
}

#[via_fn]
proof fn tokens_in_dec(s: Seq<char>, j: int, close: int) {
    if 0 <= j && j <= close && close <= s.len() {
        lemma_skip_in(s, j, close, true);
        let a = skip_in(s, j, close, true);
        if a < close {
            lemma_skip_in(s, a, close, false);
        }
    }
}

/// Reads the whitespace-separated tokens between `j` and `close`,
/// appending them to `out`.
pub fn tokens_into(s: &str, j: usize, close: usize, out: &mut Vec<String>)
    requires
        j <= close && close <= s@.len(),
    ensures
        final(out).deep_view() == old(out).deep_view() + tokens_in(s@, j as int, close as int),
    decreases close - j,
{
    proof {
        lemma_skip_in(s@, j as int, close as int, true);
    }
    let a = skip_chars_in(s, j, close, true);
    if a >= close {
        proof {
            assert(out.deep_view() =~= old(out).deep_view() + Seq::<Seq<char>>::empty());
        }
        return ;
    }
    proof {
        lemma_skip_in(s@, a as int, close as int, false);
    }
    let b = skip_chars_in(s, a, close, false);
    let tok = s.substring_char(a, b).to_owned();
    out.push(tok);
    tokens_into(s, b, close, out);
    proof {
        assert(out.deep_view() =~= old(out).deep_view() + tokens_in(s@, j as int, close as int));
    }
}

/// Splits a whole string into its whitespace-separated tokens.
pub fn split_tokens(s: &str) -> (r: Vec<String>)
    ensures
        r.deep_view() == tokens_in(s@, 0, s@.len() as int),
{
    let mut out: Vec<String> = Vec::new();
    let n = s.unicode_len();
    tokens_into(s, 0, n, &mut out);
    proof {
        assert(out.deep_view() =~= Seq::<Seq<char>>::empty() + tokens_in(s@, 0, s@.len() as int));
    }
    out
}

/// The last position before `end` where character `c` stands; negative
/// when it does not occur there.
pub open spec fn rfind_char(s: Seq<char>, end: int, c: char) -> int
    decreases end,
{
    if end <= 0 {
        -1
    } else if s[end - 1] == c {
        end - 1
    } else {
        rfind_char(s, end - 1, c)
    }
}

/// The bounds of `rfind_char`: below `end`, holding `c` when found,
/// nothing after it holding `c`, and nothing at all when not found.
pub proof fn lemma_rfind_char(s: Seq<char>, end: int, c: char)
    requires
        0 <= end <= s.len(),
    ensures
        -1 <= rfind_char(s, end, c) < end,
        rfind_char(s, end, c) >= 0 ==> s[rfind_char(s, end, c)] == c,
        forall|k: int| rfind_char(s, end, c) < k < end ==> s[k] != c,
    decreases end,
{
    if end > 0 && s[end - 1] != c {
        lemma_rfind_char(s, end - 1, c);
    }
}

/// Finds the last occurrence of `c` before `end`; nothing if none.
pub fn rfind_char_before(s: &str, end: usize, c: char) -> (r: Option<usize>)
    requires
        end <= s@.len(),
    ensures
        match r {
            Some(i) => rfind_char(s@, end as int, c) == i && i < end,
            None => rfind_char(s@, end as int, c) == -1,
        },
    decreases end,
{
    if end == 0 {
        return None;
    }
    if s.get_char(end - 1) == c {
        Some(end - 1)
    } else {
        rfind_char_before(s, end - 1, c)
    }
}

} // verus!
