//! Character-level scanning shared by the parsers of this crate.
//!
//! Text is handled as a slice of `char`s, so that every position is a
//! character position and the contracts can speak of `Seq<char>` directly.

use vstd::prelude::*;
use vstd::slice::slice_subrange;

verus! {

/// The characters that Unicode classes as `White_Space`.
pub open spec fn is_whitespace_spec(c: char) -> bool {
    let u = c as u32;
    ||| 0x09 <= u <= 0x0d
    ||| u == 0x20
    ||| u == 0x85
    ||| u == 0xa0
    ||| u == 0x1680
    ||| 0x2000 <= u <= 0x200a
    ||| u == 0x2028
    ||| u == 0x2029
    ||| u == 0x202f
    ||| u == 0x205f
    ||| u == 0x3000
}

/// Whether `c` separates the words of a line.
#[verifier::when_used_as_spec(is_whitespace_spec)]
pub fn is_whitespace(c: char) -> (b: bool)
    ensures
        b == is_whitespace_spec(c),
{
    let u: u32 = c as u32;
    (0x09 <= u && u <= 0x0d) || u == 0x20 || u == 0x85 || u == 0xa0 || u == 0x1680 || (0x2000 <= u
        && u <= 0x200a) || u == 0x2028 || u == 0x2029 || u == 0x202f || u == 0x205f || u == 0x3000
}

/// Whether `c` is one of `0` to `9`.
pub open spec fn is_ascii_digit_spec(c: char) -> bool {
    '0' <= c <= '9'
}

/// Whether `c` is one of `0` to `9`.
#[verifier::when_used_as_spec(is_ascii_digit_spec)]
pub fn is_ascii_digit(c: char) -> (b: bool)
    ensures
        b == is_ascii_digit_spec(c),
{
    '0' <= c && c <= '9'
}

/// Whether every character of `s` is an ASCII decimal digit. The empty
/// sequence qualifies.
pub open spec fn all_ascii_digits(s: Seq<char>) -> bool {
    forall|i: int| 0 <= i < s.len() ==> is_ascii_digit_spec(#[trigger] s[i])
}

/// Whether `s` consists of ASCII decimal digits only. The empty slice
/// counts as numeric.
pub fn is_numeric(s: &[char]) -> (b: bool)
    ensures
        b == all_ascii_digits(s@),
{
    let mut i: usize = 0;
    while i < s.len()
        invariant
            i <= s.len(),
            all_ascii_digits(s@.take(i as int)),
        decreases s.len() - i,
    {
        if !is_ascii_digit(s[i]) {
            return false;
        }
        i += 1;
    }
    assert(s@.take(i as int) =~= s@);
    true
}

/// Whether `s` consists of ASCII decimal digits only. The empty string
/// counts as numeric.
pub fn is_str_numeric(s: &str) -> (b: bool)
    ensures
        b == all_ascii_digits(s@),
{
    is_numeric(to_chars(s).as_slice())
}

/// The characters of `s`, in order.
pub fn to_chars(s: &str) -> (chars: Vec<char>)
    ensures
        chars@ == s@,
{
    let mut chars: Vec<char> = Vec::new();
    for c in it: s.chars()
        invariant
            chars@ == it.seq().take(it.index() as int),
            it.seq() == s@,
    {
        chars.push(c);
    }
    chars
}

/// `String::push`: the character is appended, and the rest of the string
/// is as before.
pub assume_specification[ String::push ](s: &mut String, c: char)
    ensures
        final(s)@ == old(s)@.push(c),
;

/// A string of the characters `chars`, in order.
pub fn string_from_chars(chars: &[char]) -> (s: String)
    ensures
        s@ == chars@,
{
    let mut s = String::new();
    let mut i: usize = 0;
    while i < chars.len()
        invariant
            i <= chars.len(),
            s@ == chars@.take(i as int),
        decreases chars.len() - i,
    {
        s.push(chars[i]);
        assert(chars@.take(i + 1) =~= chars@.take(i as int).push(chars@[i as int]));
        i += 1;
    }
    assert(chars@.take(i as int) =~= chars@);
    s
}

/// The number that the digit `c` stands for.
pub open spec fn digit_value(c: char) -> nat {
    (c as u32 - '0' as u32) as nat
}

/// The number that a sequence of decimal digits denotes, most significant
/// digit first. The empty sequence denotes zero.
pub open spec fn decimal_value(s: Seq<char>) -> nat
    decreases s.len(),
{
    if s.len() == 0 {
        0
    } else {
        decimal_value(s.drop_last()) * 10 + digit_value(s.last())
    }
}

/// `s` without one leading plus sign.
pub open spec fn unsigned_part(s: Seq<char>) -> Seq<char> {
    if s.len() > 0 && s[0] == '+' {
        s.drop_first()
    } else {
        s
    }
}

/// What `s` denotes as an unsigned 64-bit decimal number: an optional `+`,
/// then one digit or more, and a value that fits. Anything else denotes
/// nothing.
pub open spec fn parse_u64_spec(s: Seq<char>) -> Option<u64> {
    let digits = unsigned_part(s);
    if digits.len() > 0 && all_ascii_digits(digits) && decimal_value(digits) <= u64::MAX {
        Some(decimal_value(digits) as u64)
    } else {
        None
    }
}

/// A prefix of a digit sequence never denotes more than the whole.
pub proof fn lemma_decimal_value_prefix(s: Seq<char>, k: int)
    requires
        0 <= k <= s.len(),
    ensures
        decimal_value(s.take(k)) <= decimal_value(s),
    decreases s.len() - k,
{
    if k == s.len() {
        assert(s.take(k) =~= s);
    } else {
        lemma_decimal_value_prefix(s.drop_last(), k);
        assert(s.drop_last().take(k) =~= s.take(k));
    }
}

/// Reads `s` as an unsigned 64-bit decimal number.
pub fn parse_u64(s: &[char]) -> (r: Option<u64>)
    ensures
        r == parse_u64_spec(s@),
{
    let start: usize = if s.len() > 0 && s[0] == '+' {
        1
    } else {
        0
    };
    let ghost digits = unsigned_part(s@);
    assert(digits =~= s@.subrange(start as int, s.len() as int));
    if start == s.len() {
        return None;
    }
    let mut acc: u64 = 0;
    let mut i: usize = start;
    while i < s.len()
        invariant
            start <= i <= s.len(),
            digits == unsigned_part(s@),
            digits == s@.subrange(start as int, s.len() as int),
            all_ascii_digits(digits.take(i - start)),
            acc == decimal_value(digits.take(i - start)),
        decreases s.len() - i,
    {
        let c = s[i];
        assert(digits[i - start] == c);
        if !is_ascii_digit(c) {
            return None;
        }
        let d: u64 = (c as u32 - '0' as u32) as u64;
        assert(digits.take(i - start + 1).drop_last() =~= digits.take(i - start));
        assert(digits.take(i - start + 1).last() == c);
        if acc > (u64::MAX - d) / 10 {
            proof {
                assert(decimal_value(digits.take(i - start + 1)) == acc * 10 + d);
                lemma_decimal_value_prefix(digits, i - start + 1);
            }
            return None;
        }
        acc = acc * 10 + d;
        i += 1;
    }
    assert(digits.take(i - start) =~= digits);
    Some(acc)
}

/// The first position at or after `i` that holds no whitespace, or the end
/// of `s` (for an `i` beyond the end, `i` itself).
pub open spec fn skip_whitespace(s: Seq<char>, i: int) -> int
    decreases s.len() - i,
{
    if 0 <= i < s.len() && is_whitespace_spec(s[i]) {
        skip_whitespace(s, i + 1)
    } else {
        i
    }
}

/// The first position at or after `i` that holds whitespace, or the end of
/// `s` (for an `i` beyond the end, `i` itself).
pub open spec fn skip_word(s: Seq<char>, i: int) -> int
    decreases s.len() - i,
{
    if 0 <= i < s.len() && !is_whitespace_spec(s[i]) {
        skip_word(s, i + 1)
    } else {
        i
    }
}

/// `skip_whitespace` moves forward only, stays within `s`, and stops at a
/// character that is not whitespace.
pub proof fn lemma_skip_whitespace_bounds(s: Seq<char>, i: int)
    requires
        0 <= i <= s.len(),
    ensures
        i <= skip_whitespace(s, i) <= s.len(),
        skip_whitespace(s, i) < s.len() ==> !is_whitespace_spec(s[skip_whitespace(s, i)]),
    decreases s.len() - i,
{
    if i < s.len() && is_whitespace_spec(s[i]) {
        lemma_skip_whitespace_bounds(s, i + 1);
    }
}

/// `skip_word` moves forward only, and stays within `s`.
pub proof fn lemma_skip_word_bounds(s: Seq<char>, i: int)
    requires
        0 <= i <= s.len(),
    ensures
        i <= skip_word(s, i) <= s.len(),
    decreases s.len() - i,
{
    if i < s.len() && !is_whitespace_spec(s[i]) {
        lemma_skip_word_bounds(s, i + 1);
    }
}

/// The words of `s` that begin at or after `i`: the maximal runs of
/// characters that are not whitespace, in order.
pub open spec fn words_from(s: Seq<char>, i: int) -> Seq<Seq<char>>
    decreases s.len() - i,
{
    let begin = skip_whitespace(s, i);
    let end = skip_word(s, begin);
    if 0 <= i && begin < s.len() {
        proof {
            if i <= s.len() {
                lemma_skip_whitespace_bounds(s, i);
                lemma_skip_word_bounds(s, begin + 1);
            }
        }
        seq![s.subrange(begin, end)] + words_from(s, end)
    } else {
        Seq::empty()
    }
}

/// The words of `s`: what splitting at runs of whitespace leaves.
pub open spec fn split_whitespace_spec(s: Seq<char>) -> Seq<Seq<char>> {
    words_from(s, 0)
}

/// The views of a sequence of slices.
pub open spec fn slice_views(v: Seq<&[char]>) -> Seq<Seq<char>> {
    Seq::new(v.len(), |i: int| v[i]@)
}

/// Splits `s` at runs of whitespace and returns the words in order.
pub fn split_whitespace<'a>(s: &'a [char]) -> (words: Vec<&'a [char]>)
    ensures
        slice_views(words@) == split_whitespace_spec(s@),
{
    let mut words: Vec<&'a [char]> = Vec::new();
    let mut i: usize = 0;
    loop
        invariant
            i <= s.len(),
            words_from(s@, 0) == slice_views(words@) + words_from(s@, i as int),
        ensures
            slice_views(words@) == words_from(s@, 0),
        decreases s.len() - i,
    {
        let mut begin: usize = i;
        while begin < s.len() && is_whitespace(s[begin])
            invariant
                i <= begin <= s.len(),
                skip_whitespace(s@, i as int) == skip_whitespace(s@, begin as int),
            decreases s.len() - begin,
        {
            begin += 1;
        }
        if begin == s.len() {
            assert(words_from(s@, i as int) =~= Seq::empty());
            assert(slice_views(words@) + Seq::<Seq<char>>::empty() =~= slice_views(words@));
            break;
        }
        let mut end: usize = begin + 1;
        while end < s.len() && !is_whitespace(s[end])
            invariant
                begin < end <= s.len(),
                skip_word(s@, begin as int) == skip_word(s@, end as int),
            decreases s.len() - end,
        {
            end += 1;
        }
        let word = slice_subrange(s, begin, end);
        proof {
            let before = slice_views(words@);
            let after = slice_views(words@.push(word));
            assert(after =~= before + seq![word@]);
            assert(words_from(s@, i as int) == seq![s@.subrange(begin as int, end as int)]
                + words_from(s@, end as int));
            assert(before + (seq![word@] + words_from(s@, end as int)) =~= after + words_from(
                s@,
                end as int,
            ));
        }
        words.push(word);
        i = end;
    }
    words
}

/// The first position at or after `i` that holds `c`, or the end of `s`
/// (for an `i` beyond the end, `i` itself).
pub open spec fn find_char(s: Seq<char>, c: char, i: int) -> int
    decreases s.len() - i,
{
    if 0 <= i < s.len() && s[i] != c {
        find_char(s, c, i + 1)
    } else {
        i
    }
}

/// `find_char` moves forward only, stays within `s`, and passes over no
/// occurrence of `c`.
pub proof fn lemma_find_char(s: Seq<char>, c: char, i: int)
    requires
        0 <= i <= s.len(),
    ensures
        i <= find_char(s, c, i) <= s.len(),
        find_char(s, c, i) < s.len() ==> s[find_char(s, c, i)] == c,
        forall|j: int| i <= j < find_char(s, c, i) ==> s[j] != c,
    decreases s.len() - i,
{
    if i < s.len() && s[i] != c {
        lemma_find_char(s, c, i + 1);
    }
}

/// The first position at or after `from` that holds `c`, or the length of
/// `s`.
pub fn find_char_from(s: &[char], c: char, from: usize) -> (k: usize)
    requires
        from <= s.len(),
    ensures
        k == find_char(s@, c, from as int),
        from <= k <= s.len(),
{
    let mut k: usize = from;
    while k < s.len() && s[k] != c
        invariant
            from <= k <= s.len(),
            find_char(s@, c, from as int) == find_char(s@, c, k as int),
        decreases s.len() - k,
    {
        k += 1;
    }
    k
}

/// `s` split at its first `c`: what stands before it and what stands
/// after it. Nothing if `c` does not occur.
pub open spec fn split_once_spec(s: Seq<char>, c: char) -> Option<(Seq<char>, Seq<char>)> {
    let k = find_char(s, c, 0);
    if k < s.len() {
        Some((s.take(k), s.skip(k + 1)))
    } else {
        None
    }
}

/// Splits `s` at its first `c`.
pub fn split_once<'a>(s: &'a [char], c: char) -> (r: Option<(&'a [char], &'a [char])>)
    ensures
        match r {
            Some((head, tail)) => split_once_spec(s@, c) == Some((head@, tail@)),
            None => split_once_spec(s@, c) is None,
        },
{
    let k = find_char_from(s, c, 0);
    if k < s.len() {
        let head = slice_subrange(s, 0, k);
        let tail = slice_subrange(s, k + 1, s.len());
        Some((head, tail))
    } else {
        None
    }
}

/// The last position of `s` that holds `c`, or -1 if none does.
pub open spec fn rfind_char(s: Seq<char>, c: char) -> int
    decreases s.len(),
{
    if s.len() == 0 {
        -1
    } else if s.last() == c {
        s.len() - 1
    } else {
        rfind_char(s.drop_last(), c)
    }
}

/// `rfind_char` names an occurrence of `c` after which there is no other.
pub proof fn lemma_rfind_char(s: Seq<char>, c: char)
    ensures
        -1 <= rfind_char(s, c) < s.len(),
        rfind_char(s, c) >= 0 ==> s[rfind_char(s, c)] == c,
        forall|j: int| rfind_char(s, c) < j < s.len() ==> s[j] != c,
    decreases s.len(),
{
    if s.len() > 0 && s.last() != c {
        lemma_rfind_char(s.drop_last(), c);
        assert forall|j: int| rfind_char(s, c) < j < s.len() implies s[j] != c by {
            if j < s.len() - 1 {
                assert(s.drop_last()[j] == s[j]);
            }
        }
    }
}

/// `s` split at its last `c`: what stands before it and what stands after
/// it. Nothing if `c` does not occur.
pub open spec fn rsplit_once_spec(s: Seq<char>, c: char) -> Option<(Seq<char>, Seq<char>)> {
    let k = rfind_char(s, c);
    if k >= 0 {
        Some((s.take(k), s.skip(k + 1)))
    } else {
        None
    }
}

/// Splits `s` at its last `c`.
pub fn rsplit_once<'a>(s: &'a [char], c: char) -> (r: Option<(&'a [char], &'a [char])>)
    ensures
        match r {
            Some((head, tail)) => rsplit_once_spec(s@, c) == Some((head@, tail@)),
            None => rsplit_once_spec(s@, c) is None,
        },
{
    let mut k: usize = s.len();
    assert(s@.take(k as int) =~= s@);
    while k > 0 && s[k - 1] != c
        invariant
            k <= s.len(),
            rfind_char(s@, c) == rfind_char(s@.take(k as int), c),
        decreases k,
    {
        assert(s@.take(k as int).drop_last() =~= s@.take(k - 1));
        k -= 1;
    }
    if k > 0 {
        assert(s@.take(k as int).last() == c);
        let head = slice_subrange(s, 0, k - 1);
        let tail = slice_subrange(s, k, s.len());
        Some((head, tail))
    } else {
        None
    }
}

/// `s` without its leading whitespace.
pub open spec fn trim_start_spec(s: Seq<char>) -> Seq<char> {
    s.skip(skip_whitespace(s, 0))
}

/// Drops the leading whitespace of `s`.
pub fn trim_start<'a>(s: &'a [char]) -> (r: &'a [char])
    ensures
        r@ == trim_start_spec(s@),
{
    let mut begin: usize = 0;
    while begin < s.len() && is_whitespace(s[begin])
        invariant
            begin <= s.len(),
            skip_whitespace(s@, 0) == skip_whitespace(s@, begin as int),
        decreases s.len() - begin,
    {
        begin += 1;
    }
    slice_subrange(s, begin, s.len())
}

/// `s` without its trailing whitespace.
pub open spec fn trim_end_spec(s: Seq<char>) -> Seq<char>
    decreases s.len(),
{
    if s.len() > 0 && is_whitespace_spec(s.last()) {
        trim_end_spec(s.drop_last())
    } else {
        s
    }
}

/// Drops the trailing whitespace of `s`.
pub fn trim_end<'a>(s: &'a [char]) -> (r: &'a [char])
    ensures
        r@ == trim_end_spec(s@),
{
    let mut end: usize = s.len();
    assert(s@.take(end as int) =~= s@);
    while end > 0 && is_whitespace(s[end - 1])
        invariant
            end <= s.len(),
            trim_end_spec(s@) == trim_end_spec(s@.take(end as int)),
        decreases end,
    {
        assert(s@.take(end as int).drop_last() =~= s@.take(end - 1));
        end -= 1;
    }
    slice_subrange(s, 0, end)
}

/// `s` without its leading and its trailing whitespace.
pub open spec fn trim_spec(s: Seq<char>) -> Seq<char> {
    trim_start_spec(trim_end_spec(s))
}

/// Drops the leading and the trailing whitespace of `s`.
pub fn trim<'a>(s: &'a [char]) -> (r: &'a [char])
    ensures
        r@ == trim_spec(s@),
{
    trim_start(trim_end(s))
}

/// `line` without one trailing carriage return.
pub open spec fn strip_carriage_return(line: Seq<char>) -> Seq<char> {
    if line.len() > 0 && line.last() == '\r' {
        line.drop_last()
    } else {
        line
    }
}

/// The lines of `s` that begin at or after `i`. A line ends at a line
/// feed, which is no part of it, nor is a carriage return just before
/// the line feed. What follows the last line feed is a line if it is not
/// empty.
pub open spec fn lines_from(s: Seq<char>, i: int) -> Seq<Seq<char>>
    decreases s.len() - i,
{
    if 0 <= i < s.len() {
        let end = find_char(s, '\n', i);
        if end < s.len() {
            proof {
                lemma_find_char(s, '\n', i);
            }
            seq![strip_carriage_return(s.subrange(i, end))] + lines_from(s, end + 1)
        } else {
            seq![s.subrange(i, s.len() as int)]
        }
    } else {
        Seq::empty()
    }
}

/// The lines of `s`.
pub open spec fn lines_spec(s: Seq<char>) -> Seq<Seq<char>> {
    lines_from(s, 0)
}

/// Splits `s` into its lines.
pub fn lines<'a>(s: &'a [char]) -> (found: Vec<&'a [char]>)
    ensures
        slice_views(found@) == lines_spec(s@),
{
    let mut found: Vec<&'a [char]> = Vec::new();
    let mut i: usize = 0;
    while i < s.len()
        invariant
            i <= s.len(),
            lines_from(s@, 0) == slice_views(found@) + lines_from(s@, i as int),
        decreases s.len() - i,
    {
        let end = find_char_from(s, '\n', i);
        let ghost before = slice_views(found@);
        if end < s.len() {
            let line = if end > i && s[end - 1] == '\r' {
                slice_subrange(s, i, end - 1)
            } else {
                slice_subrange(s, i, end)
            };
            proof {
                assert(line@ =~= strip_carriage_return(s@.subrange(i as int, end as int)));
                assert(slice_views(found@.push(line)) =~= before + seq![line@]);
                assert(before + (seq![line@] + lines_from(s@, end + 1)) =~= (before + seq![
                    line@,
                ]) + lines_from(s@, end + 1));
            }
            found.push(line);
            i = end + 1;
        } else {
            let line = slice_subrange(s, i, s.len());
            proof {
                assert(slice_views(found@.push(line)) =~= before + seq![line@]);
                assert(lines_from(s@, s.len() as int) =~= Seq::<Seq<char>>::empty());
                assert((before + seq![line@]) + Seq::<Seq<char>>::empty() =~= before + seq![
                    line@,
                ]);
            }
            found.push(line);
            i = s.len();
        }
    }
    assert(slice_views(found@) + Seq::<Seq<char>>::empty() =~= slice_views(found@));
    found
}

/// Whether `pattern` stands in `s` at the position `k`.
pub open spec fn occurs_at(s: Seq<char>, pattern: Seq<char>, k: int) -> bool {
    0 <= k && k + pattern.len() <= s.len() && s.subrange(k, k + pattern.len()) == pattern
}

/// Whether `pattern` stands somewhere in `s`.
pub open spec fn contains_spec(s: Seq<char>, pattern: Seq<char>) -> bool {
    exists|k: int| occurs_at(s, pattern, k)
}

/// Whether `a` and `b` hold the same characters.
pub fn chars_eq(a: &[char], b: &[char]) -> (same: bool)
    ensures
        same == (a@ == b@),
{
    if a.len() != b.len() {
        return false;
    }
    let mut i: usize = 0;
    while i < a.len()
        invariant
            i <= a.len(),
            a.len() == b.len(),
            a@.take(i as int) == b@.take(i as int),
        decreases a.len() - i,
    {
        if a[i] != b[i] {
            return false;
        }
        assert(a@.take(i + 1) =~= a@.take(i as int).push(a@[i as int]));
        assert(b@.take(i + 1) =~= b@.take(i as int).push(b@[i as int]));
        i += 1;
    }
    assert(a@.take(i as int) =~= a@);
    assert(b@.take(i as int) =~= b@);
    true
}

/// Whether `pattern` stands somewhere in `s`.
pub fn contains(s: &[char], pattern: &[char]) -> (found: bool)
    ensures
        found == contains_spec(s@, pattern@),
{
    if pattern.len() > s.len() {
        assert forall|k: int| !occurs_at(s@, pattern@, k) by {}
        return false;
    }
    if pattern.len() == 0 {
        assert(s@.subrange(0, 0) =~= pattern@);
        assert(occurs_at(s@, pattern@, 0));
        return true;
    }
    let last: usize = s.len() - pattern.len();
    let mut k: usize = 0;
    while k <= last
        invariant
            k <= last + 1,
            pattern.len() > 0,
            last == s.len() - pattern.len(),
            forall|j: int| 0 <= j < k ==> !occurs_at(s@, pattern@, j),
        decreases last + 1 - k,
    {
        let candidate = slice_subrange(s, k, k + pattern.len());
        if chars_eq(candidate, pattern) {
            assert(occurs_at(s@, pattern@, k as int));
            return true;
        }
        k += 1;
    }
    assert forall|j: int| !occurs_at(s@, pattern@, j) by {}
    false
}

} // verus!
