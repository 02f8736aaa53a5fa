//! Fields of a line of text: the runs of characters between white space.

use vstd::prelude::*;
use vstd::string::*;

verus! {

/// Whether `c` is white space: a character with the Unicode property
/// `White_Space`.
pub open spec fn is_space(c: char) -> bool {
    let code = c as u32;
    ||| 0x09 <= code <= 0x0D
    ||| code == 0x20
    ||| code == 0x85
    ||| code == 0xA0
    ||| code == 0x1680
    ||| 0x2000 <= code <= 0x200A
    ||| code == 0x2028
    ||| code == 0x2029
    ||| code == 0x202F
    ||| code == 0x205F
    ||| code == 0x3000
}

/// The first place from `i` on that holds no white space, or the length of
/// `s` if only white space follows.
pub open spec fn word_start(s: Seq<char>, i: int) -> int
    decreases s.len() - i,
{
    if i >= s.len() {
        s.len() as int
    } else if !is_space(s[i]) {
        i
    } else {
        word_start(s, i + 1)
    }
}

/// The first place from `i` on that holds white space, or the length of `s`
/// if none follows.
pub open spec fn word_end(s: Seq<char>, i: int) -> int
    decreases s.len() - i,
{
    if i >= s.len() {
        s.len() as int
    } else if is_space(s[i]) {
        i
    } else {
        word_end(s, i + 1)
    }
}

/// Where the next field begins and ends when reading goes on from `i`: the
/// first run of characters other than white space. None if only white space
/// is left.
pub open spec fn field_bounds(s: Seq<char>, i: int) -> Option<(int, int)> {
    let start = word_start(s, i);
    if start >= s.len() {
        None
    } else {
        Some((start, word_end(s, start)))
    }
}

/// Where field number `n` of `s` begins and ends, counting from 0 and from
/// place `i` on.
pub open spec fn nth_field_bounds(s: Seq<char>, i: int, n: nat) -> Option<(int, int)>
    decreases n,
{
    match field_bounds(s, i) {
        None => None,
        Some((start, end)) => if n == 0 {
            Some((start, end))
        } else {
            nth_field_bounds(s, end, (n - 1) as nat)
        },
    }
}

/// Field number `n` of `s`, counting from 0, if `s` has that many fields.
pub open spec fn field(s: Seq<char>, n: nat) -> Option<Seq<char>> {
    match nth_field_bounds(s, 0, n) {
        None => None,
        Some((start, end)) => Some(s.subrange(start, end)),
    }
}

/// Where field number `n` of `s` ends, if `s` has that many fields.
pub open spec fn field_end(s: Seq<char>, n: nat) -> Option<int> {
    match nth_field_bounds(s, 0, n) {
        None => None,
        Some((_, end)) => Some(end),
    }
}

/// The bounds of a field lie in the text, in order, and the field is not
/// empty.
pub proof fn lemma_field_bounds_in_range(s: Seq<char>, i: int)
    requires
        0 <= i <= s.len(),
    ensures
        field_bounds(s, i) matches Some((start, end)) ==> i <= start < end <= s.len(),
{
    lemma_word_start_in_range(s, i);
    let start = word_start(s, i);
    if start < s.len() {
        lemma_word_end_in_range(s, start);
    }
}

/// `word_start` does not go back, nor beyond the end, and stops on a
/// character that is no white space.
pub proof fn lemma_word_start_in_range(s: Seq<char>, i: int)
    requires
        0 <= i <= s.len(),
    ensures
        i <= word_start(s, i) <= s.len(),
        word_start(s, i) < s.len() ==> !is_space(s[word_start(s, i)]),
    decreases s.len() - i,
{
    if i < s.len() && is_space(s[i]) {
        lemma_word_start_in_range(s, i + 1);
    }
}

/// `word_end` does not go back, nor beyond the end, and passes a first
/// character that is no white space.
pub proof fn lemma_word_end_in_range(s: Seq<char>, i: int)
    requires
        0 <= i <= s.len(),
    ensures
        i <= word_end(s, i) <= s.len(),
        i < s.len() && !is_space(s[i]) ==> i < word_end(s, i),
    decreases s.len() - i,
{
    if i < s.len() && !is_space(s[i]) {
        lemma_word_end_in_range(s, i + 1);
    }
}

/// Whether `c` is white space.
pub fn is_whitespace(c: char) -> (space: bool)
    ensures
        space == is_space(c),
{
    let code: u32 = c as u32;
    (0x09 <= code && code <= 0x0D) || code == 0x20 || code == 0x85 || code == 0xA0 || code
        == 0x1680 || (0x2000 <= code && code <= 0x200A) || code == 0x2028 || code == 0x2029 || code
        == 0x202F || code == 0x205F || code == 0x3000
}

/// Finds the next field of `text` from place `from` on: where it begins and
/// where it ends.
pub fn next_field(text: &str, from: usize) -> (bounds: Option<(usize, usize)>)
    requires
        from <= text@.len(),
    ensures
        match bounds {
            Some((start, end)) => field_bounds(text@, from as int) == Some(
                (start as int, end as int),
            ) && from <= start < end <= text@.len(),
            None => field_bounds(text@, from as int) is None,
        },
{
    let n: usize = text.unicode_len();
    let mut start: usize = from;
    while start < n && is_whitespace(text.get_char(start))
        invariant
            n == text@.len(),
            from <= start <= n,
            word_start(text@, from as int) == word_start(text@, start as int),
        decreases n - start,
    {
        start += 1;
    }
    if start >= n {
        return None;
    }
    let mut end: usize = start;
    while end < n && !is_whitespace(text.get_char(end))
        invariant
            n == text@.len(),
            start <= end <= n,
            start < n,
            !is_space(text@[start as int]),
            word_end(text@, start as int) == word_end(text@, end as int),
        decreases n - end,
    {
        end += 1;
    }
    Some((start, end))
}

} // verus!
