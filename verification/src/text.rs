//! Text helpers: character access, comparison and whitespace trimming.

use vstd::prelude::*;

verus! {

/// Whether `c` is whitespace: one of the twenty-five characters that carry
/// the Unicode property `White_Space`.
pub open spec fn white_space(c: char) -> bool {
    let code: u32 = c as u32;
    ||| 0x0009 <= code <= 0x000D
    ||| code == 0x0020
    ||| code == 0x0085
    ||| code == 0x00A0
    ||| code == 0x1680
    ||| 0x2000 <= code <= 0x200A
    ||| code == 0x2028
    ||| code == 0x2029
    ||| code == 0x202F
    ||| code == 0x205F
    ||| code == 0x3000
}

/// `char::is_whitespace` answers whether the character has the Unicode
/// property `White_Space`, which the characters listed in `white_space`
/// have and no others.
pub assume_specification[ char::is_whitespace ](c: char) -> (b: bool)
    ensures
        b == white_space(c),
;

/// `String::push` appends the given character to the end of the string.
pub assume_specification[ String::push ](s: &mut String, c: char)
    ensures
        final(s)@ == old(s)@.push(c),
;

/// `str == str` holds exactly when both slices spell the same characters.
pub assume_specification[ <str as PartialEq>::eq ](a: &str, b: &str) -> (r: bool)
    ensures
        r == (a@ == b@),
;

/// Index of the first character at or after `from` that is not whitespace,
/// or the length of `s` if only whitespace follows.
pub open spec fn skip_leading(s: Seq<char>, from: int) -> int
    decreases s.len() - from,
{
    if 0 <= from < s.len() && white_space(s[from]) {
        skip_leading(s, from + 1)
    } else {
        from
    }
}

/// End of the text once the whitespace that ends at `to` is dropped, never
/// going below `floor`.
pub open spec fn skip_trailing(s: Seq<char>, floor: int, to: int) -> int
    decreases to - floor,
{
    if floor < to <= s.len() && white_space(s[to - 1]) {
        skip_trailing(s, floor, to - 1)
    } else {
        to
    }
}

/// `s` without its leading and trailing whitespace.
pub open spec fn trimmed(s: Seq<char>) -> Seq<char> {
    let start = skip_leading(s, 0);
    s.subrange(start, skip_trailing(s, start, s.len() as int))
}

/// The text of an optional string.
pub open spec fn opt_text(o: Option<String>) -> Option<Seq<char>> {
    match o {
        Some(s) => Some(s@),
        None => None,
    }
}

/// The trimmed text of an optional text.
pub open spec fn opt_trimmed(o: Option<Seq<char>>) -> Option<Seq<char>> {
    match o {
        Some(s) => Some(trimmed(s)),
        None => None,
    }
}

/// The characters of `s`, in order.
pub fn chars_of(s: &str) -> (out: Vec<char>)
    ensures
        out@ == s@,
{
    let mut out: Vec<char> = Vec::new();
    for c in it: s.chars()
        invariant
            out@ == it.seq().take(it.index() as int),
    {
        out.push(c);
    }
    out
}

/// Whether both slices spell the same text.
pub fn same_text(a: &str, b: &str) -> (r: bool)
    ensures
        r == (a@ == b@),
{
    a.eq(b)
}

/// Removes leading and trailing whitespace.
pub fn trim(text: &str) -> (out: String)
    ensures
        out@ == trimmed(text@),
{
    let chars = chars_of(text);
    let mut start: usize = 0;
    while start < chars.len() && chars[start].is_whitespace()
        invariant
            start <= chars.len(),
            skip_leading(chars@, 0) == skip_leading(chars@, start as int),
        decreases chars.len() - start,
    {
        start += 1;
    }
    let mut end: usize = chars.len();
    while end > start && chars[end - 1].is_whitespace()
        invariant
            start <= end <= chars.len(),
            skip_trailing(chars@, start as int, chars.len() as int) == skip_trailing(
                chars@,
                start as int,
                end as int,
            ),
        decreases end - start,
    {
        end -= 1;
    }
    let mut out = String::new();
    let mut i: usize = start;
    while i < end
        invariant
            start <= i <= end <= chars.len(),
            out@ == chars@.subrange(start as int, i as int),
        decreases end - i,
    {
        out.push(chars[i]);
        i += 1;
    }
    out
}

/// Trimming cuts whitespace and nothing else: the result is a stretch of
/// the text that neither starts nor ends with whitespace, and all that
/// stands before and behind it is whitespace.
pub proof fn law_trimmed_is_tight(s: Seq<char>)
    ensures
        ({
            let start = skip_leading(s, 0);
            let end = skip_trailing(s, start, s.len() as int);
            &&& 0 <= start <= end <= s.len()
            &&& trimmed(s) == s.subrange(start, end)
            &&& forall|i: int| 0 <= i < start ==> white_space(#[trigger] s[i])
            &&& forall|i: int| end <= i < s.len() ==> white_space(#[trigger] s[i])
            &&& start < end ==> !white_space(s[start]) && !white_space(s[end - 1])
        }),
{
    let start = skip_leading(s, 0);
    lemma_skip_leading(s, 0);
    lemma_skip_trailing(s, start, s.len() as int);
}

proof fn lemma_skip_leading(s: Seq<char>, from: int)
    requires
        0 <= from <= s.len(),
    ensures
        from <= skip_leading(s, from) <= s.len(),
        forall|i: int| from <= i < skip_leading(s, from) ==> white_space(#[trigger] s[i]),
        skip_leading(s, from) < s.len() ==> !white_space(s[skip_leading(s, from)]),
    decreases s.len() - from,
{
    if from < s.len() && white_space(s[from]) {
        lemma_skip_leading(s, from + 1);
    }
}

proof fn lemma_skip_trailing(s: Seq<char>, floor: int, to: int)
    requires
        0 <= floor <= to <= s.len(),
    ensures
        floor <= skip_trailing(s, floor, to) <= to,
        forall|i: int| skip_trailing(s, floor, to) <= i < to ==> white_space(#[trigger] s[i]),
        floor < skip_trailing(s, floor, to) ==> !white_space(s[skip_trailing(s, floor, to) - 1]),
    decreases to - floor,
{
    if floor < to && white_space(s[to - 1]) {
        lemma_skip_trailing(s, floor, to - 1);
    }
}

} // verus!
