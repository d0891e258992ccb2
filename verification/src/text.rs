//! Text as sequences of characters: the conversions between strings and
//! character vectors, white space, the order of texts, decimal numerals and
//! placeholders, and the replacing of patterns.

use vstd::prelude::*;

verus! {

/// The characters of `s`, in order.
pub fn chars_of(s: &str) -> (chars: Vec<char>)
    ensures
        chars@ == s@,
{
    let mut chars: Vec<char> = Vec::new();
    for c in it: s.chars()
        invariant
            chars@ == it.seq().take(it.index() as int),
            it.seq() == s@,
    {
        chars.push(c);
    }
    chars
}

/// The string of these characters. This is `String::from_iter` of the
/// standard library, of which it is taken on trust that the string it makes
/// consists of exactly the characters handed in, in their order.
#[verifier::external_body]
pub(crate) fn string_of(chars: &Vec<char>) -> (s: String)
    ensures
        s@ == chars@,
{
    String::from_iter(chars.iter())
}

/// `a` comes before `b` in the lexicographic order of their characters.
pub open spec fn text_less(a: Seq<char>, b: Seq<char>) -> bool
    decreases a.len(),
{
    if b.len() == 0 {
        false
    } else if a.len() == 0 {
        true
    } else if a[0] != b[0] {
        (a[0] as u32) < (b[0] as u32)
    } else {
        text_less(a.drop_first(), b.drop_first())
    }
}

/// White space as Unicode's `White_Space` property has it.
pub open spec fn is_white_space(c: char) -> bool {
    let u = c as u32;
    ||| 0x09 <= u <= 0x0d
    ||| u == 0x20
    ||| u == 0x85
    ||| u == 0xa0
    ||| u == 0x1680
    ||| 0x2000 <= u <= 0x200a
    ||| u == 0x2028
    ||| u == 0x2029
    ||| u == 0x202f
    ||| u == 0x205f
    ||| u == 0x3000
}

/// Every character of the text is white space.
pub open spec fn is_blank(text: Seq<char>) -> bool {
    forall|i: int| 0 <= i < text.len() ==> is_white_space(#[trigger] text[i])
}

/// Whether `c` is white space.
pub fn is_whitespace(c: char) -> (white: bool)
    ensures
        white == is_white_space(c),
{
    let u = c as u32;
    (0x09 <= u && u <= 0x0d) || u == 0x20 || u == 0x85 || u == 0xa0 || u == 0x1680 || (0x2000 <= u
        && u <= 0x200a) || u == 0x2028 || u == 0x2029 || u == 0x202f || u == 0x205f || u == 0x3000
}

/// Whether `a` comes before `b` in the lexicographic order of their
/// characters.
pub fn text_before(a: &str, b: &str) -> (less: bool)
    ensures
        less == text_less(a@, b@),
{
    let left = chars_of(a);
    let right = chars_of(b);
    let mut i: usize = 0;
    assert(left@.skip(0) =~= left@);
    assert(right@.skip(0) =~= right@);
    while i < left.len() && i < right.len()
        invariant
            left@ == a@,
            right@ == b@,
            i <= left.len(),
            i <= right.len(),
            text_less(left@, right@) == text_less(left@.skip(i as int), right@.skip(i as int)),
        decreases left.len() - i,
    {
        assert(left@.skip(i as int).drop_first() =~= left@.skip(i + 1));
        assert(right@.skip(i as int).drop_first() =~= right@.skip(i + 1));
        if left[i] != right[i] {
            return (left[i] as u32) < (right[i] as u32);
        }
        i += 1;
    }
    i < right.len()
}

/// The decimal digit `d` as a character.
pub open spec fn digit_char(d: nat) -> char {
    if d == 0 {
        '0'
    } else if d == 1 {
        '1'
    } else if d == 2 {
        '2'
    } else if d == 3 {
        '3'
    } else if d == 4 {
        '4'
    } else if d == 5 {
        '5'
    } else if d == 6 {
        '6'
    } else if d == 7 {
        '7'
    } else if d == 8 {
        '8'
    } else {
        '9'
    }
}

/// The decimal numeral of `n`, without leading zeros.
pub open spec fn decimal(n: nat) -> Seq<char>
    decreases n,
{
    if n < 10 {
        seq![digit_char(n)]
    } else {
        decimal(n / 10).push(digit_char(n % 10))
    }
}

/// The placeholder of index `k`: its decimal numeral in braces.
pub open spec fn placeholder(k: nat) -> Seq<char> {
    seq!['{'] + decimal(k) + seq!['}']
}

/// `pattern` occurs in `text` at `at`.
pub open spec fn occurs_at(text: Seq<char>, pattern: Seq<char>, at: int) -> bool {
    0 <= at && at + pattern.len() <= text.len() && text.subrange(at, at + pattern.len()) == pattern
}

/// The first place from `from` on at which `pattern` occurs in `text`.
pub open spec fn first_occurrence(text: Seq<char>, pattern: Seq<char>, from: int) -> Option<int>
    decreases text.len() - from,
{
    if from < 0 || from + pattern.len() > text.len() {
        None
    } else if occurs_at(text, pattern, from) {
        Some(from)
    } else if from >= text.len() {
        None
    } else {
        first_occurrence(text, pattern, from + 1)
    }
}

/// `text` with the first occurrence of `pattern` replaced; `text` itself
/// where there is none.
pub open spec fn replace_first(text: Seq<char>, pattern: Seq<char>, replacement: Seq<char>) -> Seq<
    char,
> {
    match first_occurrence(text, pattern, 0) {
        Some(at) => text.take(at) + replacement + text.skip(at + pattern.len()),
        None => text,
    }
}

/// `text` with, for `k` from `count - 1` down to 0, the first occurrence of
/// the placeholder of `k` replaced by `values[k]`, each replacement made in
/// the result of the one before.
pub open spec fn fill_descending(text: Seq<char>, values: Seq<Seq<char>>, count: nat) -> Seq<char>
    decreases count,
{
    if count == 0 {
        text
    } else {
        fill_descending(
            replace_first(text, placeholder((count - 1) as nat), values[count - 1]),
            values,
            (count - 1) as nat,
        )
    }
}

/// `text` with, for `k` from `from` up, the first occurrence of the
/// placeholder of `k` replaced by `values[k]`, each replacement made in the
/// result of the one before.
pub open spec fn fill_ascending(text: Seq<char>, values: Seq<Seq<char>>, from: nat) -> Seq<char>
    decreases values.len() - from,
{
    if from >= values.len() {
        text
    } else {
        fill_ascending(replace_first(text, placeholder(from), values[from as int]), values, from + 1)
    }
}

/// The decimal digit `d` as a character.
pub fn digit(d: u8) -> (c: char)
    requires
        d < 10,
    ensures
        c == digit_char(d as nat),
{
    if d == 0 {
        '0'
    } else if d == 1 {
        '1'
    } else if d == 2 {
        '2'
    } else if d == 3 {
        '3'
    } else if d == 4 {
        '4'
    } else if d == 5 {
        '5'
    } else if d == 6 {
        '6'
    } else if d == 7 {
        '7'
    } else if d == 8 {
        '8'
    } else {
        '9'
    }
}

/// The decimal numeral of `n`.
pub fn decimal_of(n: usize) -> (digits: Vec<char>)
    ensures
        digits@ == decimal(n as nat),
    decreases n,
{
    if n < 10 {
        let mut digits: Vec<char> = Vec::new();
        digits.push(digit(n as u8));
        digits
    } else {
        let mut digits = decimal_of(n / 10);
        digits.push(digit((n % 10) as u8));
        digits
    }
}

/// The placeholder of index `k`.
pub fn placeholder_of(k: usize) -> (pattern: Vec<char>)
    ensures
        pattern@ == placeholder(k as nat),
{
    let mut pattern: Vec<char> = Vec::new();
    pattern.push('{');
    let mut digits = decimal_of(k);
    pattern.append(&mut digits);
    pattern.push('}');
    pattern
}

/// Whether `pattern` occurs in `text` at `at`.
pub fn matches_at(text: &Vec<char>, pattern: &Vec<char>, at: usize) -> (found: bool)
    requires
        at + pattern.len() <= text.len(),
    ensures
        found == occurs_at(text@, pattern@, at as int),
{
    let mut i: usize = 0;
    while i < pattern.len()
        invariant
            at + pattern.len() <= text.len(),
            i <= pattern.len(),
            forall|j: int| 0 <= j < i ==> text@[at + j] == pattern@[j],
        decreases pattern.len() - i,
    {
        if text[at + i] != pattern[i] {
            proof {
                let part = text@.subrange(at as int, at + pattern.len());
                assert(part[i as int] == text@[at + i]);
            }
            return false;
        }
        i += 1;
    }
    assert(text@.subrange(at as int, at + pattern.len()) =~= pattern@);
    true
}

/// The first place from `from` on at which `pattern` occurs in `text`.
pub fn find_from(text: &Vec<char>, pattern: &Vec<char>, from: usize) -> (place: Option<usize>)
    ensures
        match place {
            Some(at) => first_occurrence(text@, pattern@, from as int) == Some(at as int) && from
                <= at && at + pattern.len() <= text.len(),
            None => first_occurrence(text@, pattern@, from as int) is None,
        },
{
    if pattern.len() > text.len() || from > text.len() - pattern.len() {
        return None;
    }
    let last = text.len() - pattern.len();
    let mut at: usize = from;
    loop
        invariant
            last == text.len() - pattern.len(),
            from <= at <= last,
            first_occurrence(text@, pattern@, from as int) == first_occurrence(
                text@,
                pattern@,
                at as int,
            ),
        decreases last - at,
    {
        if matches_at(text, pattern, at) {
            return Some(at);
        }
        if at == last {
            assert(first_occurrence(text@, pattern@, at + 1) is None);
            return None;
        }
        at += 1;
    }
}

/// The first place at which `pattern` occurs in `text`.
pub fn find_first(text: &Vec<char>, pattern: &Vec<char>) -> (place: Option<usize>)
    ensures
        match place {
            Some(at) => first_occurrence(text@, pattern@, 0) == Some(at as int) && at
                + pattern.len() <= text.len(),
            None => first_occurrence(text@, pattern@, 0) is None,
        },
{
    find_from(text, pattern, 0)
}

/// Appends `text[from..to]` to `target`.
pub fn append_range(target: &mut Vec<char>, text: &Vec<char>, from: usize, to: usize)
    requires
        from <= to <= text.len(),
    ensures
        final(target)@ == old(target)@ + text@.subrange(from as int, to as int),
{
    let mut i: usize = from;
    while i < to
        invariant
            from <= i <= to <= text.len(),
            target@ == old(target)@ + text@.subrange(from as int, i as int),
        decreases to - i,
    {
        target.push(text[i]);
        assert(target@ =~= old(target)@ + text@.subrange(from as int, i + 1));
        i += 1;
    }
}

/// `text` with the first occurrence of `pattern` replaced by `replacement`.
pub fn replace_first_in(text: &Vec<char>, pattern: &Vec<char>, replacement: &Vec<char>) -> (result:
    Vec<char>)
    ensures
        result@ == replace_first(text@, pattern@, replacement@),
{
    let mut result: Vec<char> = Vec::new();
    match find_first(text, pattern) {
        None => {
            append_range(&mut result, text, 0, text.len());
            assert(result@ =~= text@);
        },
        Some(at) => {
            append_range(&mut result, text, 0, at);
            append_range(&mut result, replacement, 0, replacement.len());
            append_range(&mut result, text, at + pattern.len(), text.len());
            assert(result@ =~= text@.take(at as int) + replacement@ + text@.skip(
                at + pattern.len(),
            ));
        },
    }
    result
}

/// Where `pattern` first occurs from `from` on, it occurs there, and not
/// before `from`.
pub proof fn lemma_first_occurrence(text: Seq<char>, pattern: Seq<char>, from: int)
    ensures
        first_occurrence(text, pattern, from) matches Some(at) ==> from <= at && occurs_at(
            text,
            pattern,
            at,
        ),
    decreases text.len() - from,
{
    if !(from < 0 || from + pattern.len() > text.len()) && !occurs_at(text, pattern, from) && from
        < text.len() {
        lemma_first_occurrence(text, pattern, from + 1);
    }
}

/// `text` from `from` on, with every occurrence of `pattern` replaced by
/// `replacement`: the occurrences are taken from left to right and do not
/// overlap, and what was put in is not searched again.
pub open spec fn replace_all_from(
    text: Seq<char>,
    pattern: Seq<char>,
    replacement: Seq<char>,
    from: int,
) -> Seq<char>
    decreases text.len() - from,
{
    if pattern.len() == 0 || from < 0 || from > text.len() {
        text
    } else {
        match first_occurrence(text, pattern, from) {
            None => text.skip(from),
            Some(at) => {
                proof {
                    lemma_first_occurrence(text, pattern, from);
                }
                text.subrange(from, at) + replacement + replace_all_from(
                    text,
                    pattern,
                    replacement,
                    at + pattern.len(),
                )
            },
        }
    }
}

/// `text` with every occurrence of `pattern`, which is not empty, replaced
/// by `replacement`.
pub open spec fn replace_all(text: Seq<char>, pattern: Seq<char>, replacement: Seq<char>) -> Seq<
    char,
> {
    replace_all_from(text, pattern, replacement, 0)
}

/// `text` with every occurrence of `pattern` replaced by `replacement`.
pub fn replace_all_in(text: &Vec<char>, pattern: &Vec<char>, replacement: &Vec<char>) -> (result:
    Vec<char>)
    requires
        pattern.len() > 0,
    ensures
        result@ == replace_all(text@, pattern@, replacement@),
{
    let mut result: Vec<char> = Vec::new();
    let mut from: usize = 0;
    loop
        invariant
            pattern.len() > 0,
            from <= text.len(),
            replace_all(text@, pattern@, replacement@) == result@ + replace_all_from(
                text@,
                pattern@,
                replacement@,
                from as int,
            ),
        decreases text.len() - from,
    {
        match find_from(text, pattern, from) {
            None => {
                append_range(&mut result, text, from, text.len());
                assert(text@.subrange(from as int, text.len() as int) =~= text@.skip(from as int));
                return result;
            },
            Some(at) => {
                let ghost before = result@;
                append_range(&mut result, text, from, at);
                append_range(&mut result, replacement, 0, replacement.len());
                assert(replacement@.subrange(0, replacement.len() as int) =~= replacement@);
                assert(result@ + replace_all_from(
                    text@,
                    pattern@,
                    replacement@,
                    at + pattern.len(),
                ) =~= before + (text@.subrange(from as int, at as int) + replacement@
                    + replace_all_from(text@, pattern@, replacement@, at + pattern.len())));
                from = at + pattern.len();
            },
        }
    }
}

} // verus!
