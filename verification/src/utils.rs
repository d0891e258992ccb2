//! Format functions: the embeds `[select "value" key="text" ...]`,
//! `[plural ...]` and `[ordinal ...]` of a line, and their expansion.
//!
//! Which plural category a number falls in depends on the locale and is
//! decided by the caller; the expansion takes the categories as they are
//! handed in.

use vstd::prelude::*;
use vstd::hash_map::StringHashMap;
use crate::text::{
    append_range, chars_of, fill_ascending, is_white_space, is_whitespace, placeholder,
    placeholder_of, replace_all, replace_all_in, replace_first_in, string_of,
};

verus! {

/// What stands in a replacement text where the value of the format function
/// belongs.
pub open spec fn value_placeholder() -> Seq<char> {
    "<VALUE PLACEHOLDER>"@
}

/// The plural categories.
#[derive(Debug, Copy, Clone, PartialEq, Eq, Structural)]
pub enum PluralCategory {
    Zero,
    One,
    Two,
    Few,
    Many,
    Other,
}

impl PluralCategory {
    /// The key under which a format function holds the text for the
    /// category.
    pub open spec fn key(self) -> Seq<char> {
        match self {
            PluralCategory::Zero => "zero"@,
            PluralCategory::One => "one"@,
            PluralCategory::Two => "two"@,
            PluralCategory::Few => "few"@,
            PluralCategory::Many => "many"@,
            PluralCategory::Other => "other"@,
        }
    }
}

/// The key under which a format function holds the text for the category.
pub fn get_plural_case_str(plural_case: PluralCategory) -> (key: &'static str)
    ensures
        key@ == plural_case.key(),
{
    match plural_case {
        PluralCategory::Zero => "zero",
        PluralCategory::One => "one",
        PluralCategory::Two => "two",
        PluralCategory::Few => "few",
        PluralCategory::Many => "many",
        PluralCategory::Other => "other",
    }
}

/// The kinds of format function.
#[derive(Debug, Copy, Clone, PartialEq, Eq, Structural)]
pub enum FormatFunctionKind {
    Select,
    Plural,
    Ordinal,
}

/// The kinds of plural rules.
#[derive(Debug, Copy, Clone, PartialEq, Eq, Structural)]
pub enum PluralRuleKind {
    Cardinal,
    Ordinal,
}

impl FormatFunctionKind {
    /// The rules by which the value of a format function of this kind falls
    /// into a plural category: cardinal rules for `plural`, ordinal rules for
    /// `ordinal`, none for `select`.
    pub open spec fn rule_kind(self) -> Option<PluralRuleKind> {
        match self {
            FormatFunctionKind::Select => None,
            FormatFunctionKind::Plural => Some(PluralRuleKind::Cardinal),
            FormatFunctionKind::Ordinal => Some(PluralRuleKind::Ordinal),
        }
    }

    /// The rules by which the value of a format function of this kind falls
    /// into a plural category.
    pub fn rules(self) -> (rules: Option<PluralRuleKind>)
        ensures
            rules == self.rule_kind(),
    {
        match self {
            FormatFunctionKind::Select => None,
            FormatFunctionKind::Plural => Some(PluralRuleKind::Cardinal),
            FormatFunctionKind::Ordinal => Some(PluralRuleKind::Ordinal),
        }
    }
}

impl Default for FormatFunctionKind {
    fn default() -> (kind: FormatFunctionKind)
        ensures
            kind == FormatFunctionKind::Select,
    {
        FormatFunctionKind::Select
    }
}

/// What is wrong with a line, in contracts.
pub enum FormatFault {
    UnexpectedEnd,
    ExpectedIdentifier,
    ExpectedString,
    ExpectedCharacter(char),
    InvalidFunction(Seq<char>),
    DuplicateKey(Seq<char>),
    MissingCategory,
}

/// What is wrong with a line.
#[derive(Debug)]
pub enum FormatError {
    /// The line ends inside a format function.
    UnexpectedEnd,
    /// There is no identifier where one belongs.
    ExpectedIdentifier,
    /// There is no string where one belongs.
    ExpectedString,
    /// There is something else where this character belongs.
    ExpectedCharacter(char),
    /// The name of a format function is none of `select`, `plural`,
    /// `ordinal`.
    InvalidFunction(String),
    /// A format function has two texts under this key.
    DuplicateKey(String),
    /// There are fewer categories than format functions.
    MissingCategory,
}

impl View for FormatError {
    type V = FormatFault;

    open spec fn view(&self) -> FormatFault {
        match self {
            FormatError::UnexpectedEnd => FormatFault::UnexpectedEnd,
            FormatError::ExpectedIdentifier => FormatFault::ExpectedIdentifier,
            FormatError::ExpectedString => FormatFault::ExpectedString,
            FormatError::ExpectedCharacter(c) => FormatFault::ExpectedCharacter(*c),
            FormatError::InvalidFunction(name) => FormatFault::InvalidFunction(name@),
            FormatError::DuplicateKey(key) => FormatFault::DuplicateKey(key@),
            FormatError::MissingCategory => FormatFault::MissingCategory,
        }
    }
}

/// What a format function is in contracts.
pub struct FunctionView {
    pub kind: FormatFunctionKind,
    pub value: Seq<char>,
    pub data: Map<Seq<char>, Seq<char>>,
}

/// A format function as it was read: its kind, its value, and its texts by
/// key.
pub struct ParsedFormatFunction {
    pub kind: FormatFunctionKind,
    pub value: String,
    pub data: StringHashMap<String>,
}

/// The texts by key, in contracts.
pub open spec fn data_view(data: Map<Seq<char>, String>) -> Map<Seq<char>, Seq<char>> {
    Map::new(|key: Seq<char>| data.contains_key(key), |key: Seq<char>| data[key]@)
}

impl View for ParsedFormatFunction {
    type V = FunctionView;

    open spec fn view(&self) -> FunctionView {
        FunctionView { kind: self.kind, value: self.value@, data: data_view(self.data@) }
    }
}

/// The views of a sequence of format functions, one for one.
pub open spec fn functions_view(functions: Seq<ParsedFormatFunction>) -> Seq<FunctionView> {
    Seq::new(functions.len(), |i: int| functions[i]@)
}

/// `c` can begin an identifier: a letter of `A-Z` or `a-z`, or `_`.
pub open spec fn is_id_start(c: char) -> bool {
    ('a' <= c && c <= 'z') || ('A' <= c && c <= 'Z') || c == '_'
}

/// `c` can go on an identifier: what can begin one, or a digit.
pub open spec fn is_id_rest(c: char) -> bool {
    is_id_start(c) || ('0' <= c && c <= '9')
}

/// The first place from `pos` on that holds no white space, or the end.
pub open spec fn skip_white(text: Seq<char>, pos: int) -> int
    decreases text.len() - pos,
{
    if pos < 0 || pos >= text.len() || !is_white_space(text[pos]) {
        pos
    } else {
        skip_white(text, pos + 1)
    }
}

/// The first place from `pos` on that holds no white space. At the end of
/// the line there is none, unless the end is allowed.
pub open spec fn after_white(text: Seq<char>, pos: int, allow_end_of_line: bool) -> Result<
    int,
    FormatFault,
> {
    let place = skip_white(text, pos);
    if place >= text.len() && !allow_end_of_line {
        Err(FormatFault::UnexpectedEnd)
    } else {
        Ok(place)
    }
}

/// The first place from `pos` on that cannot go on an identifier, or the
/// end.
pub open spec fn id_end(text: Seq<char>, pos: int) -> int
    decreases text.len() - pos,
{
    if pos < 0 || pos >= text.len() || !is_id_rest(text[pos]) {
        pos
    } else {
        id_end(text, pos + 1)
    }
}

/// White space is passed over forwards, and not beyond the end.
pub proof fn lemma_skip_white(text: Seq<char>, pos: int)
    ensures
        pos <= skip_white(text, pos),
        pos <= text.len() ==> skip_white(text, pos) <= text.len(),
    decreases text.len() - pos,
{
    if !(pos < 0 || pos >= text.len() || !is_white_space(text[pos])) {
        lemma_skip_white(text, pos + 1);
    }
}

/// An identifier is read forwards, and not beyond the end.
pub proof fn lemma_id_end(text: Seq<char>, pos: int)
    ensures
        pos <= id_end(text, pos),
        pos <= text.len() ==> id_end(text, pos) <= text.len(),
    decreases text.len() - pos,
{
    if !(pos < 0 || pos >= text.len() || !is_id_rest(text[pos])) {
        lemma_id_end(text, pos + 1);
    }
}

/// The identifier that follows the white space at `pos`, and the place
/// after it.
pub open spec fn read_id(text: Seq<char>, pos: int) -> Result<(Seq<char>, int), FormatFault> {
    match after_white(text, pos, false) {
        Err(fault) => Err(fault),
        Ok(start) => if !is_id_start(text[start]) {
            Err(FormatFault::ExpectedIdentifier)
        } else {
            Ok((text.subrange(start, id_end(text, start + 1)), id_end(text, start + 1)))
        },
    }
}

/// The string that goes on at `pos`, behind what was read of it so far, and
/// the place after its closing quote. A backslash gives the character after
/// it if that is a backslash, a quote or a percent sign, and nothing
/// otherwise; a percent sign alone gives the value placeholder.
pub open spec fn read_string_body(text: Seq<char>, pos: int, read: Seq<char>) -> Result<
    (Seq<char>, int),
    FormatFault,
>
    decreases text.len() - pos,
{
    if pos < 0 || pos >= text.len() {
        Err(FormatFault::UnexpectedEnd)
    } else if text[pos] == '"' {
        Ok((read, pos + 1))
    } else if text[pos] == '\\' {
        if pos + 1 >= text.len() {
            Err(FormatFault::UnexpectedEnd)
        } else if text[pos + 1] == '\\' || text[pos + 1] == '"' || text[pos + 1] == '%' {
            read_string_body(text, pos + 2, read.push(text[pos + 1]))
        } else {
            read_string_body(text, pos + 2, read)
        }
    } else if text[pos] == '%' {
        read_string_body(text, pos + 1, read + value_placeholder())
    } else {
        read_string_body(text, pos + 1, read.push(text[pos]))
    }
}

/// A string ends behind the place at which it goes on.
pub proof fn lemma_read_string_body(text: Seq<char>, pos: int, read: Seq<char>)
    ensures
        read_string_body(text, pos, read) matches Ok((_, end)) ==> pos < end <= text.len(),
    decreases text.len() - pos,
{
    if !(pos < 0 || pos >= text.len()) && text[pos] != '"' {
        if text[pos] == '\\' {
            if pos + 1 < text.len() {
                if text[pos + 1] == '\\' || text[pos + 1] == '"' || text[pos + 1] == '%' {
                    lemma_read_string_body(text, pos + 2, read.push(text[pos + 1]));
                } else {
                    lemma_read_string_body(text, pos + 2, read);
                }
            }
        } else if text[pos] == '%' {
            lemma_read_string_body(text, pos + 1, read + value_placeholder());
        } else {
            lemma_read_string_body(text, pos + 1, read.push(text[pos]));
        }
    }
}

/// The string that follows the white space at `pos`, and the place after
/// it.
pub open spec fn read_string(text: Seq<char>, pos: int) -> Result<(Seq<char>, int), FormatFault> {
    match after_white(text, pos, false) {
        Err(fault) => Err(fault),
        Ok(start) => if text[start] != '"' {
            Err(FormatFault::ExpectedString)
        } else {
            read_string_body(text, start + 1, Seq::empty())
        },
    }
}

/// The place after the character `expected`, which follows the white space
/// at `pos`.
pub open spec fn read_character(text: Seq<char>, pos: int, expected: char) -> Result<
    int,
    FormatFault,
> {
    match after_white(text, pos, false) {
        Err(fault) => Err(fault),
        Ok(start) => if text[start] != expected {
            Err(FormatFault::ExpectedCharacter(expected))
        } else {
            Ok(start + 1)
        },
    }
}

/// What is read ends behind the place at which the reading began.
pub proof fn lemma_readers_advance(text: Seq<char>, pos: int)
    ensures
        read_id(text, pos) matches Ok((_, end)) ==> pos < end <= text.len(),
        read_string(text, pos) matches Ok((_, end)) ==> pos < end <= text.len(),
        forall|expected: char|
            #[trigger] read_character(text, pos, expected) matches Ok(end) ==> pos < end
                <= text.len(),
{
    lemma_skip_white(text, pos);
    let start = skip_white(text, pos);
    lemma_id_end(text, start + 1);
    lemma_read_string_body(text, start + 1, Seq::empty());
}

/// The kind of format function of this name.
pub open spec fn kind_of(name: Seq<char>) -> Option<FormatFunctionKind> {
    if name == "select"@ {
        Some(FormatFunctionKind::Select)
    } else if name == "plural"@ {
        Some(FormatFunctionKind::Plural)
    } else if name == "ordinal"@ {
        Some(FormatFunctionKind::Ordinal)
    } else {
        None
    }
}

/// The texts by key that go on at `pos`, with those read so far, and the
/// place of the closing bracket.
pub open spec fn read_data(text: Seq<char>, pos: int, data: Map<Seq<char>, Seq<char>>) -> Result<
    (Map<Seq<char>, Seq<char>>, int),
    FormatFault,
>
    decreases text.len() - pos,
{
    match after_white(text, pos, false) {
        Err(fault) => Err(fault),
        Ok(start) => if text[start] == ']' {
            Ok((data, start))
        } else {
            match read_id(text, start) {
                Err(fault) => Err(fault),
                Ok((key, after_key)) => match read_character(text, after_key, '=') {
                    Err(fault) => Err(fault),
                    Ok(after_sign) => match read_string(text, after_sign) {
                        Err(fault) => Err(fault),
                        Ok((value, after_value)) => if data.contains_key(key) {
                            Err(FormatFault::DuplicateKey(key))
                        } else {
                            proof {
                                lemma_skip_white(text, pos);
                                lemma_readers_advance(text, start);
                                lemma_readers_advance(text, after_key);
                                lemma_readers_advance(text, after_sign);
                            }
                            read_data(text, after_value, data.insert(key, value))
                        },
                    },
                },
            }
        },
    }
}

/// The format function whose name begins at `pos`, behind the opening
/// bracket, and the place after its closing bracket.
pub open spec fn read_function(text: Seq<char>, pos: int) -> Result<(FunctionView, int), FormatFault> {
    match read_id(text, pos) {
        Err(fault) => Err(fault),
        Ok((name, after_name)) => match kind_of(name) {
            None => Err(FormatFault::InvalidFunction(name)),
            Some(kind) => match read_string(text, after_name) {
                Err(fault) => Err(fault),
                Ok((value, after_value)) => match read_data(text, after_value, Map::empty()) {
                    Err(fault) => Err(fault),
                    Ok((data, bracket)) => match read_character(text, bracket, ']') {
                        Err(fault) => Err(fault),
                        Ok(end) => Ok((FunctionView { kind, value, data }, end)),
                    },
                },
            },
        },
    }
}

/// The texts of a format function end at a closing bracket, not before the
/// place at which their reading began.
pub proof fn lemma_read_data(text: Seq<char>, pos: int, data: Map<Seq<char>, Seq<char>>)
    ensures
        read_data(text, pos, data) matches Ok((_, end)) ==> pos <= end < text.len(),
    decreases text.len() - pos,
{
    lemma_skip_white(text, pos);
    match after_white(text, pos, false) {
        Err(_) => {},
        Ok(start) => {
            if text[start] != ']' {
                lemma_readers_advance(text, start);
                match read_id(text, start) {
                    Err(_) => {},
                    Ok((key, after_key)) => {
                        lemma_readers_advance(text, after_key);
                        match read_character(text, after_key, '=') {
                            Err(_) => {},
                            Ok(after_sign) => {
                                lemma_readers_advance(text, after_sign);
                                match read_string(text, after_sign) {
                                    Err(_) => {},
                                    Ok((value, after_value)) => {
                                        if !data.contains_key(key) {
                                            lemma_read_data(
                                                text,
                                                after_value,
                                                data.insert(key, value),
                                            );
                                        }
                                    },
                                }
                            },
                        }
                    },
                }
            }
        },
    }
}

/// A format function ends behind the place at which its reading began.
pub proof fn lemma_read_function(text: Seq<char>, pos: int)
    ensures
        read_function(text, pos) matches Ok((_, end)) ==> pos < end <= text.len(),
{
    lemma_readers_advance(text, pos);
    match read_id(text, pos) {
        Err(_) => {},
        Ok((name, after_name)) => {
            lemma_readers_advance(text, after_name);
            match read_string(text, after_name) {
                Err(_) => {},
                Ok((value, after_value)) => {
                    lemma_read_data(text, after_value, Map::empty());
                    match read_data(text, after_value, Map::empty()) {
                        Err(_) => {},
                        Ok((data, bracket)) => {
                            lemma_readers_advance(text, bracket);
                        },
                    }
                },
            }
        },
    }
}

/// The line from `pos` on: plain text goes to the line as it is, and each
/// format function leaves the placeholder of its index there.
pub open spec fn read_line(
    text: Seq<char>,
    pos: int,
    line: Seq<char>,
    functions: Seq<FunctionView>,
) -> Result<(Seq<char>, Seq<FunctionView>), FormatFault>
    decreases text.len() - pos,
{
    if pos < 0 || pos >= text.len() {
        Ok((line, functions))
    } else if text[pos] != '[' {
        read_line(text, pos + 1, line.push(text[pos]), functions)
    } else {
        match read_function(text, pos + 1) {
            Err(fault) => Err(fault),
            Ok((function, end)) => {
                proof {
                    lemma_read_function(text, pos + 1);
                }
                read_line(
                    text,
                    end,
                    line + placeholder(functions.len()),
                    functions.push(function),
                )
            },
        }
    }
}

/// A line as it is read: the line with a placeholder for each format
/// function, and the format functions in their order.
pub open spec fn parsed(input: Seq<char>) -> Result<(Seq<char>, Seq<FunctionView>), FormatFault> {
    read_line(input, 0, Seq::empty(), Seq::empty())
}

/// What is put where no text stands under the key.
pub open spec fn no_replacement(key: Seq<char>) -> Seq<char> {
    "<no replacement for "@ + key + ">"@
}

impl FunctionView {
    /// The key whose text the function gives: its value for `select`, the
    /// key of the category otherwise.
    pub open spec fn data_key(self, category: PluralCategory) -> Seq<char> {
        match self.kind {
            FormatFunctionKind::Select => self.value,
            _ => category.key(),
        }
    }

    /// What the function is replaced by: the text under its key, or a note
    /// that there is none, with the value in place of every value
    /// placeholder.
    pub open spec fn replacement(self, category: PluralCategory) -> Seq<char> {
        let key = self.data_key(category);
        replace_all(
            if self.data.contains_key(key) {
                self.data[key]
            } else {
                no_replacement(key)
            },
            value_placeholder(),
            self.value,
        )
    }
}

/// The replacements of the format functions, for these categories.
pub open spec fn replacements(functions: Seq<FunctionView>, categories: Seq<PluralCategory>) -> Seq<
    Seq<char>,
> {
    Seq::new(functions.len(), |i: int| functions[i].replacement(categories[i]))
}

/// The line with its format functions expanded, where `categories` holds
/// the plural category of each format function's value, in the order of the
/// format functions.
pub open spec fn expanded(input: Seq<char>, categories: Seq<PluralCategory>) -> Result<
    Seq<char>,
    FormatFault,
> {
    match parsed(input) {
        Err(fault) => Err(fault),
        Ok((line, functions)) => if categories.len() < functions.len() {
            Err(FormatFault::MissingCategory)
        } else {
            Ok(fill_ascending(line, replacements(functions, categories), 0))
        },
    }
}

/// Skips white space from `position` on. At the end of the line this fails,
/// unless the end is allowed.
pub fn consume_whitespace(chars: &Vec<char>, position: usize, allow_end_of_line: bool) -> (result:
    Result<usize, FormatError>)
    requires
        position <= chars.len(),
    ensures
        match result {
            Ok(place) => after_white(chars@, position as int, allow_end_of_line) == Ok::<
                int,
                FormatFault,
            >(place as int) && position <= place <= chars.len() && (!allow_end_of_line ==> place
                < chars.len()),
            Err(error) => after_white(chars@, position as int, allow_end_of_line) == Err::<
                int,
                FormatFault,
            >(error@),
        },
{
    let mut place: usize = position;
    while place < chars.len() && is_whitespace(chars[place])
        invariant
            position <= place <= chars.len(),
            skip_white(chars@, position as int) == skip_white(chars@, place as int),
        decreases chars.len() - place,
    {
        place += 1;
    }
    if place >= chars.len() && !allow_end_of_line {
        Err(FormatError::UnexpectedEnd)
    } else {
        Ok(place)
    }
}

/// Whether `c` can begin an identifier.
pub fn is_identifier_start(c: char) -> (start: bool)
    ensures
        start == is_id_start(c),
{
    ('a' <= c && c <= 'z') || ('A' <= c && c <= 'Z') || c == '_'
}

/// Whether `c` can go on an identifier.
pub fn is_identifier_rest(c: char) -> (rest: bool)
    ensures
        rest == is_id_rest(c),
{
    is_identifier_start(c) || ('0' <= c && c <= '9')
}

/// Reads an identifier behind white space: a letter or `_`, then letters,
/// digits and `_`.
pub fn expect_id(chars: &Vec<char>, position: usize) -> (result: Result<(String, usize), FormatError>)
    requires
        position <= chars.len(),
    ensures
        match result {
            Ok((id, end)) => read_id(chars@, position as int) == Ok::<
                (Seq<char>, int),
                FormatFault,
            >((id@, end as int)) && position < end <= chars.len(),
            Err(error) => read_id(chars@, position as int) == Err::<(Seq<char>, int), FormatFault>(
                error@,
            ),
        },
{
    let start = match consume_whitespace(chars, position, false) {
        Ok(start) => start,
        Err(error) => {
            return Err(error);
        },
    };
    if !is_identifier_start(chars[start]) {
        return Err(FormatError::ExpectedIdentifier);
    }
    let mut end: usize = start + 1;
    while end < chars.len() && is_identifier_rest(chars[end])
        invariant
            start < end <= chars.len(),
            id_end(chars@, start + 1) == id_end(chars@, end as int),
        decreases chars.len() - end,
    {
        end += 1;
    }
    let mut id: Vec<char> = Vec::new();
    append_range(&mut id, chars, start, end);
    assert(id@ =~= chars@.subrange(start as int, end as int));
    Ok((string_of(&id), end))
}

/// Reads a string in double quotes behind white space.
pub fn expect_string(chars: &Vec<char>, position: usize) -> (result: Result<
    (String, usize),
    FormatError,
>)
    requires
        position <= chars.len(),
    ensures
        match result {
            Ok((string, end)) => read_string(chars@, position as int) == Ok::<
                (Seq<char>, int),
                FormatFault,
            >((string@, end as int)) && position < end <= chars.len(),
            Err(error) => read_string(chars@, position as int) == Err::<
                (Seq<char>, int),
                FormatFault,
            >(error@),
        },
{
    let start = match consume_whitespace(chars, position, false) {
        Ok(start) => start,
        Err(error) => {
            return Err(error);
        },
    };
    if chars[start] != '"' {
        return Err(FormatError::ExpectedString);
    }
    let marker = chars_of("<VALUE PLACEHOLDER>");
    let mut string: Vec<char> = Vec::new();
    let mut place: usize = start + 1;
    loop
        invariant
            position <= start < place <= chars.len(),
            marker@ == value_placeholder(),
            read_string(chars@, position as int) == read_string_body(
                chars@,
                place as int,
                string@,
            ),
        decreases chars.len() - place,
    {
        if place >= chars.len() {
            return Err(FormatError::UnexpectedEnd);
        }
        let next_char = chars[place];
        if next_char == '"' {
            return Ok((string_of(&string), place + 1));
        } else if next_char == '\\' {
            if place + 1 >= chars.len() {
                return Err(FormatError::UnexpectedEnd);
            }
            let escaped_char = chars[place + 1];
            if escaped_char == '\\' || escaped_char == '"' || escaped_char == '%' {
                string.push(escaped_char);
            }
            place += 2;
        } else if next_char == '%' {
            append_range(&mut string, &marker, 0, marker.len());
            assert(marker@.subrange(0, marker.len() as int) =~= marker@);
            place += 1;
        } else {
            string.push(next_char);
            place += 1;
        }
    }
}

/// Reads the character `expected_char` behind white space.
pub fn expect_character(chars: &Vec<char>, position: usize, expected_char: char) -> (result: Result<
    usize,
    FormatError,
>)
    requires
        position <= chars.len(),
    ensures
        match result {
            Ok(end) => read_character(chars@, position as int, expected_char) == Ok::<
                int,
                FormatFault,
            >(end as int) && position < end <= chars.len(),
            Err(error) => read_character(chars@, position as int, expected_char) == Err::<
                int,
                FormatFault,
            >(error@),
        },
{
    let start = match consume_whitespace(chars, position, false) {
        Ok(start) => start,
        Err(error) => {
            return Err(error);
        },
    };
    if chars[start] != expected_char {
        return Err(FormatError::ExpectedCharacter(expected_char));
    }
    Ok(start + 1)
}

/// Reads the texts by key of a format function, up to its closing bracket.
fn expect_data(chars: &Vec<char>, position: usize) -> (result: Result<
    (StringHashMap<String>, usize),
    FormatError,
>)
    requires
        position <= chars.len(),
    ensures
        match result {
            Ok((data, end)) => read_data(chars@, position as int, Map::empty()) == Ok::<
                (Map<Seq<char>, Seq<char>>, int),
                FormatFault,
            >((data_view(data@), end as int)) && position <= end < chars.len(),
            Err(error) => read_data(chars@, position as int, Map::empty()) == Err::<
                (Map<Seq<char>, Seq<char>>, int),
                FormatFault,
            >(error@),
        },
{
    let mut data: StringHashMap<String> = StringHashMap::new();
    let mut place: usize = position;
    assert(data_view(data@) =~= Map::empty());
    loop
        invariant
            position <= place <= chars.len(),
            read_data(chars@, position as int, Map::empty()) == read_data(
                chars@,
                place as int,
                data_view(data@),
            ),
        decreases chars.len() - place,
    {
        let start = match consume_whitespace(chars, place, false) {
            Ok(start) => start,
            Err(error) => {
                return Err(error);
            },
        };
        if chars[start] == ']' {
            return Ok((data, start));
        }
        let (key, after_key) = match expect_id(chars, start) {
            Ok(read) => read,
            Err(error) => {
                return Err(error);
            },
        };
        let after_sign = match expect_character(chars, after_key, '=') {
            Ok(end) => end,
            Err(error) => {
                return Err(error);
            },
        };
        let (value, after_value) = match expect_string(chars, after_sign) {
            Ok(read) => read,
            Err(error) => {
                return Err(error);
            },
        };
        if data.contains_key(key.as_str()) {
            return Err(FormatError::DuplicateKey(key));
        }
        let ghost before = data_view(data@);
        let ghost added = (key@, value@);
        data.insert(key, value);
        assert(data_view(data@) =~= before.insert(added.0, added.1));
        place = after_value;
    }
}

/// Reads a format function behind its opening bracket.
fn expect_function(chars: &Vec<char>, position: usize) -> (result: Result<
    (ParsedFormatFunction, usize),
    FormatError,
>)
    requires
        position <= chars.len(),
    ensures
        match result {
            Ok((function, end)) => read_function(chars@, position as int) == Ok::<
                (FunctionView, int),
                FormatFault,
            >((function@, end as int)) && position < end <= chars.len(),
            Err(error) => read_function(chars@, position as int) == Err::<
                (FunctionView, int),
                FormatFault,
            >(error@),
        },
{
    let (name, after_name) = match expect_id(chars, position) {
        Ok(read) => read,
        Err(error) => {
            return Err(error);
        },
    };
    let kind = if name == "select".to_owned() {
        FormatFunctionKind::Select
    } else if name == "plural".to_owned() {
        FormatFunctionKind::Plural
    } else if name == "ordinal".to_owned() {
        FormatFunctionKind::Ordinal
    } else {
        return Err(FormatError::InvalidFunction(name));
    };
    let (value, after_value) = match expect_string(chars, after_name) {
        Ok(read) => read,
        Err(error) => {
            return Err(error);
        },
    };
    let (data, bracket) = match expect_data(chars, after_value) {
        Ok(read) => read,
        Err(error) => {
            return Err(error);
        },
    };
    let end = match expect_character(chars, bracket, ']') {
        Ok(end) => end,
        Err(error) => {
            return Err(error);
        },
    };
    Ok((ParsedFormatFunction { kind, value, data }, end))
}

/// Reads a line: the line with a placeholder `{i}` in place of its `i`-th
/// format function, and the format functions in their order.
///
/// A line with a format function of an unknown name, with a key given twice
/// or with anything else out of place is answered with the error that says
/// so, and with no line: nothing that is partly read reaches the caller.
pub fn parse_format_functions(input: &str) -> (result: Result<
    (String, Vec<ParsedFormatFunction>),
    FormatError,
>)
    ensures
        match result {
            Ok((line, functions)) => parsed(input@) == Ok::<
                (Seq<char>, Seq<FunctionView>),
                FormatFault,
            >((line@, functions_view(functions@))),
            Err(error) => parsed(input@) == Err::<(Seq<char>, Seq<FunctionView>), FormatFault>(
                error@,
            ),
        },
{
    let chars = chars_of(input);
    let mut line_with_replacements: Vec<char> = Vec::new();
    let mut parsed_functions: Vec<ParsedFormatFunction> = Vec::new();
    let mut place: usize = 0;
    assert(functions_view(parsed_functions@) =~= Seq::empty());
    while place < chars.len()
        invariant
            chars@ == input@,
            place <= chars.len(),
            parsed(input@) == read_line(
                chars@,
                place as int,
                line_with_replacements@,
                functions_view(parsed_functions@),
            ),
        decreases chars.len() - place,
    {
        let c = chars[place];
        if c != '[' {
            line_with_replacements.push(c);
            place += 1;
        } else {
            let (function, end) = match expect_function(&chars, place + 1) {
                Ok(read) => read,
                Err(error) => {
                    return Err(error);
                },
            };
            let mut mark = placeholder_of(parsed_functions.len());
            let ghost before = functions_view(parsed_functions@);
            let ghost added = function@;
            line_with_replacements.append(&mut mark);
            parsed_functions.push(function);
            assert(functions_view(parsed_functions@) =~= before.push(added));
            place = end;
        }
    }
    Ok((string_of(&line_with_replacements), parsed_functions))
}

impl ParsedFormatFunction {
    /// What the function is replaced by, where `category` is the plural
    /// category of its value.
    pub fn replacement(&self, category: PluralCategory) -> (text: String)
        ensures
            text@ == self@.replacement(category),
    {
        string_of(&self.replacement_chars(category))
    }

    fn replacement_chars(&self, category: PluralCategory) -> (text: Vec<char>)
        ensures
            text@ == self@.replacement(category),
    {
        let data_key = match self.kind {
            FormatFunctionKind::Select => self.value.clone(),
            _ => get_plural_case_str(category).to_owned(),
        };
        let text = match self.data.get(data_key.as_str()) {
            Some(text) => chars_of(text.as_str()),
            None => {
                let mut note = chars_of("<no replacement for ");
                let mut key = chars_of(data_key.as_str());
                let mut close = chars_of(">");
                note.append(&mut key);
                note.append(&mut close);
                note
            },
        };
        let marker = chars_of("<VALUE PLACEHOLDER>");
        proof {
            reveal_strlit("<VALUE PLACEHOLDER>");
        }
        let value = chars_of(self.value.as_str());
        replace_all_in(&text, &marker, &value)
    }
}

/// Expands the format functions of a line. `categories` holds, for each
/// format function in its order, the plural category of its value under the
/// rules that its kind asks for; for a `select` the entry is not looked at.
pub fn expand_format_functions(input: &str, categories: &Vec<PluralCategory>) -> (result: Result<
    String,
    FormatError,
>)
    ensures
        match result {
            Ok(line) => expanded(input@, categories@) == Ok::<Seq<char>, FormatFault>(line@),
            Err(error) => expanded(input@, categories@) == Err::<Seq<char>, FormatFault>(error@),
        },
{
    let (line, functions) = match parse_format_functions(input) {
        Ok(read) => read,
        Err(error) => {
            return Err(error);
        },
    };
    if categories.len() < functions.len() {
        return Err(FormatError::MissingCategory);
    }
    let ghost views = functions_view(functions@);
    let ghost texts = replacements(views, categories@);
    let mut text = chars_of(line.as_str());
    let mut i: usize = 0;
    while i < functions.len()
        invariant
            i <= functions.len() <= categories.len(),
            views == functions_view(functions@),
            texts == replacements(views, categories@),
            fill_ascending(line@, texts, 0) == fill_ascending(text@, texts, i as nat),
        decreases functions.len() - i,
    {
        let replacement = functions[i].replacement_chars(categories[i]);
        let pattern = placeholder_of(i);
        text = replace_first_in(&text, &pattern, &replacement);
        i += 1;
    }
    Ok(string_of(&text))
}

} // verus!
