//! The lexer of dialogue sources. The places that it reports count the bytes
//! of the source in UTF-8.

use vstd::prelude::*;
use vstd::utf8::{encode_scalar, encode_utf8};
use crate::parser::token::{Token, TokenView};
use crate::text::{append_range, chars_of, is_white_space, is_whitespace, string_of};

verus! {

/// `c` can begin an identifier: a letter of `A-Z` or `a-z`, or `_`.
pub open spec fn identifier_start(c: char) -> bool {
    c == '_' || ('a' <= c && c <= 'z') || ('A' <= c && c <= 'Z')
}

/// `c` can go on an identifier: what can begin one, or a digit.
pub open spec fn identifier_rest(c: char) -> bool {
    ('0' <= c && c <= '9') || identifier_start(c)
}

/// Whether `c` can begin an identifier.
pub fn is_identifier_start(c: char) -> (start: bool)
    ensures
        start == identifier_start(c),
{
    c == '_' || ('a' <= c && c <= 'z') || ('A' <= c && c <= 'Z')
}

/// Whether `c` can go on an identifier.
pub fn is_identifier_rest(c: char) -> (rest: bool)
    ensures
        rest == identifier_rest(c),
{
    ('0' <= c && c <= '9') || is_identifier_start(c)
}

/// The number of bytes that `c` takes in UTF-8.
pub open spec fn width(c: char) -> nat {
    encode_scalar(c as u32).len()
}

/// The place in bytes of the character at `index`: the number of bytes that
/// the characters before it take in UTF-8.
pub open spec fn offset_at(text: Seq<char>, index: int) -> nat {
    encode_utf8(text.take(index)).len()
}

/// `offset` is the place in bytes of a character of the text, or of its
/// end.
pub open spec fn is_place(text: Seq<char>, offset: int) -> bool {
    exists|index: int| 0 <= index <= text.len() && #[trigger] offset_at(text, index) == offset
}

/// The character whose place in bytes is `offset`.
pub open spec fn index_of(text: Seq<char>, offset: int) -> int {
    choose|index: int| 0 <= index <= text.len() && #[trigger] offset_at(text, index) == offset
}

/// A character more is its bytes more.
proof fn lemma_encode_push(text: Seq<char>, c: char)
    ensures
        encode_utf8(text.push(c)) == encode_utf8(text) + encode_scalar(c as u32),
    decreases text.len(),
{
    if text.len() == 0 {
        let one = text.push(c);
        assert(text =~= Seq::<char>::empty());
        assert(one.drop_first() =~= Seq::<char>::empty());
        assert(encode_utf8(Seq::<char>::empty()) =~= Seq::<u8>::empty());
        assert(encode_utf8(one) == encode_scalar(one[0] as u32) + encode_utf8(one.drop_first()));
        assert(encode_utf8(one) =~= encode_utf8(text) + encode_scalar(c as u32));
    } else {
        assert(text.push(c).drop_first() =~= text.drop_first().push(c));
        lemma_encode_push(text.drop_first(), c);
        assert(encode_utf8(text.push(c)) =~= encode_utf8(text) + encode_scalar(c as u32));
    }
}

/// The place of the next character is behind the place of this one by this
/// character's width, which is 1 to 4 bytes.
pub proof fn lemma_offset_step(text: Seq<char>, index: int)
    requires
        0 <= index < text.len(),
    ensures
        offset_at(text, index + 1) == offset_at(text, index) + width(text[index]),
        1 <= width(text[index]) <= 4,
        offset_at(text, 0) == 0,
{
    assert(text.take(index + 1) =~= text.take(index).push(text[index]));
    lemma_encode_push(text.take(index), text[index]);
    assert(text.take(0) =~= Seq::<char>::empty());
}

/// The first character stands at the place 0.
pub proof fn lemma_offset_step_zero(text: Seq<char>)
    ensures
        offset_at(text, 0) == 0,
        is_place(text, 0),
        index_of(text, 0) == 0,
{
    assert(text.take(0) =~= Seq::<char>::empty());
    lemma_index_of(text, 0);
}

/// Later characters have later places.
pub proof fn lemma_offset_grows(text: Seq<char>, from: int, to: int)
    requires
        0 <= from <= to <= text.len(),
    ensures
        offset_at(text, from) <= offset_at(text, to),
        from < to ==> offset_at(text, from) < offset_at(text, to),
    decreases to - from,
{
    if from < to {
        lemma_offset_grows(text, from, to - 1);
        lemma_offset_step(text, to - 1);
    }
}

/// No two characters have one place.
pub proof fn lemma_index_of(text: Seq<char>, index: int)
    requires
        0 <= index <= text.len(),
    ensures
        is_place(text, offset_at(text, index) as int),
        index_of(text, offset_at(text, index) as int) == index,
{
    let found = index_of(text, offset_at(text, index) as int);
    if found < index {
        lemma_offset_grows(text, found, index);
    } else if index < found {
        lemma_offset_grows(text, index, found);
    }
}

/// The number of bytes that `c` takes in UTF-8.
pub fn utf8_width(c: char) -> (bytes: usize)
    ensures
        bytes == width(c),
{
    let u = c as u32;
    if u < 0x80 {
        1
    } else if u < 0x800 {
        2
    } else if u < 0x10000 {
        3
    } else {
        4
    }
}

pub struct Location {}

pub struct Span {
    pub start: usize,
    pub end: usize,
}

/// A token with the places at which it begins and ends.
pub type SpannedToken = (usize, Token, usize);

#[derive(Debug)]
pub enum LookaheadKind {
    Char(char),
    EndOfFile,
}

#[derive(Debug)]
pub struct Lookahead {
    pub kind: LookaheadKind,
    pub loc: usize,
}

/// What the lexer cannot read.
#[derive(Debug, Copy, Clone, PartialEq, Eq, Structural)]
pub enum LexerError {
    /// This character stands where it cannot.
    UnexpectedCharacter(char),
    /// The source ends inside `---` or `===`.
    UnexpectedEnd,
}

/// What the lexer expects next.
#[derive(Debug, Copy, Clone, PartialEq, Eq, Structural)]
pub enum LexerMode {
    Header,
    HeaderValue,
    Body,
}

/// The first place from `pos` on that holds a line feed, or the end.
pub open spec fn line_end(text: Seq<char>, pos: int) -> int
    decreases text.len() - pos,
{
    if pos < 0 || pos >= text.len() || text[pos] == '\n' {
        pos
    } else {
        line_end(text, pos + 1)
    }
}

/// The first place from `pos` on that cannot go on an identifier, or the
/// end.
pub open spec fn identifier_end(text: Seq<char>, pos: int) -> int
    decreases text.len() - pos,
{
    if pos < 0 || pos >= text.len() || !identifier_rest(text[pos]) {
        pos
    } else {
        identifier_end(text, pos + 1)
    }
}

/// The end of the line is not before the place and not beyond the end.
pub proof fn lemma_line_end(text: Seq<char>, pos: int)
    ensures
        pos <= line_end(text, pos),
        pos <= text.len() ==> line_end(text, pos) <= text.len(),
    decreases text.len() - pos,
{
    if !(pos < 0 || pos >= text.len() || text[pos] == '\n') {
        lemma_line_end(text, pos + 1);
    }
}

/// The end of an identifier is not before the place and not beyond the end.
pub proof fn lemma_identifier_end(text: Seq<char>, pos: int)
    ensures
        pos <= identifier_end(text, pos),
        pos <= text.len() ==> identifier_end(text, pos) <= text.len(),
    decreases text.len() - pos,
{
    if !(pos < 0 || pos >= text.len() || !identifier_rest(text[pos])) {
        lemma_identifier_end(text, pos + 1);
    }
}

/// What a call of `next` gives: the token or the error, if the source has
/// not ended, and the lexer's place, mode and line state afterwards.
pub struct Lexed {
    pub item: Option<Result<(int, TokenView, int), LexerError>>,
    pub position: int,
    pub mode: LexerMode,
    pub is_empty_line: bool,
}

/// The two characters that must follow `c` at `pos` to make `ccc`: the
/// token `token` where they do, the error where they do not.
pub open spec fn lex_triple(
    text: Seq<char>,
    pos: int,
    c: char,
    token: TokenView,
    is_empty_line: bool,
) -> Lexed {
    if pos + 1 >= text.len() {
        Lexed {
            item: Some(Err(LexerError::UnexpectedEnd)),
            position: pos + 1,
            mode: LexerMode::Body,
            is_empty_line,
        }
    } else if text[pos + 1] != c {
        Lexed {
            item: Some(Err(LexerError::UnexpectedCharacter(text[pos + 1]))),
            position: pos + 2,
            mode: LexerMode::Body,
            is_empty_line,
        }
    } else if pos + 2 >= text.len() {
        Lexed {
            item: Some(Err(LexerError::UnexpectedEnd)),
            position: pos + 2,
            mode: LexerMode::Body,
            is_empty_line,
        }
    } else if text[pos + 2] != c {
        Lexed {
            item: Some(Err(LexerError::UnexpectedCharacter(text[pos + 2]))),
            position: pos + 3,
            mode: LexerMode::Body,
            is_empty_line,
        }
    } else {
        Lexed { item: Some(Ok((pos, token, pos + 3))), position: pos + 3, mode: LexerMode::Body, is_empty_line }
    }
}

/// The next token from `pos` on. Line feeds of lines that hold nothing,
/// comments from `//` to the end of the line, and white space between the
/// tokens of a header are passed over.
pub open spec fn lex(text: Seq<char>, pos: int, mode: LexerMode, is_empty_line: bool) -> Lexed
    decreases text.len() - pos,
{
    if pos < 0 || pos >= text.len() {
        Lexed { item: None, position: pos, mode, is_empty_line }
    } else {
        let c = text[pos];
        if c == '\n' {
            if is_empty_line {
                lex(text, pos + 1, mode, is_empty_line)
            } else {
                Lexed {
                    item: Some(Ok((pos, TokenView::NewLine, pos + 1))),
                    position: pos + 1,
                    mode,
                    is_empty_line: true,
                }
            }
        } else if c == '/' && pos + 1 < text.len() && text[pos + 1] == '/' {
            proof {
                lemma_line_end(text, pos + 1);
            }
            lex(text, line_end(text, pos + 1), mode, is_empty_line)
        } else {
            let empty = is_empty_line && is_white_space(c);
            match mode {
                LexerMode::Header => if is_white_space(c) {
                    lex(text, pos + 1, mode, empty)
                } else if c == '-' {
                    lex_triple(text, pos, '-', TokenView::BodyStart, empty)
                } else if identifier_start(c) {
                    Lexed {
                        item: Some(
                            Ok(
                                (
                                    pos,
                                    TokenView::Identifier(
                                        text.subrange(pos, identifier_end(text, pos + 1)),
                                    ),
                                    identifier_end(text, pos + 1),
                                ),
                            ),
                        ),
                        position: identifier_end(text, pos + 1),
                        mode,
                        is_empty_line: empty,
                    }
                } else if c == ':' {
                    Lexed {
                        item: Some(Ok((pos, TokenView::HeaderDelimiter, pos + 1))),
                        position: pos + 1,
                        mode: LexerMode::HeaderValue,
                        is_empty_line: empty,
                    }
                } else {
                    Lexed {
                        item: Some(Err(LexerError::UnexpectedCharacter(c))),
                        position: pos + 1,
                        mode,
                        is_empty_line: empty,
                    }
                },
                LexerMode::HeaderValue => Lexed {
                    item: Some(
                        Ok(
                            (
                                pos,
                                TokenView::HeaderValue(text.subrange(pos, line_end(text, pos + 1))),
                                line_end(text, pos + 1),
                            ),
                        ),
                    ),
                    position: line_end(text, pos + 1),
                    mode: LexerMode::Header,
                    is_empty_line: empty,
                },
                LexerMode::Body => if c != '=' {
                    Lexed {
                        item: Some(Err(LexerError::UnexpectedCharacter(c))),
                        position: pos + 1,
                        mode,
                        is_empty_line: empty,
                    }
                } else {
                    lex_triple(text, pos, '=', TokenView::BodyEnd, empty)
                },
            }
        }
    }
}

/// Where there is a token or an error, the lexer has moved on, and not
/// beyond the end.
pub proof fn lemma_lex_advances(text: Seq<char>, pos: int, mode: LexerMode, is_empty_line: bool)
    ensures
        lex(text, pos, mode, is_empty_line).item is Some ==> pos < lex(
            text,
            pos,
            mode,
            is_empty_line,
        ).position <= text.len(),
    decreases text.len() - pos,
{
    if !(pos < 0 || pos >= text.len()) {
        let c = text[pos];
        lemma_line_end(text, pos + 1);
        lemma_identifier_end(text, pos + 1);
        if c == '\n' {
            if is_empty_line {
                lemma_lex_advances(text, pos + 1, mode, is_empty_line);
            }
        } else if c == '/' && pos + 1 < text.len() && text[pos + 1] == '/' {
            lemma_lex_advances(text, line_end(text, pos + 1), mode, is_empty_line);
        } else if mode == LexerMode::Header && is_white_space(c) {
            lemma_lex_advances(text, pos + 1, mode, is_empty_line && is_white_space(c));
        }
    }
}

/// The lexer: the source, the next character and its place in bytes, and
/// what is expected there.
pub struct Lexer {
    pub input: Vec<char>,
    /// The index of the next character.
    pub position: usize,
    /// The place in bytes of the next character.
    pub offset: usize,
    /// The length of the source in bytes.
    pub length: usize,
    pub mode: LexerMode,
    /// Whether the current line is all whitespace or comments.
    pub is_empty_line: bool,
    pub eof_location: Option<usize>,
}

/// A token or an error with its places in bytes, for one with the indices of
/// its characters.
pub open spec fn in_bytes(
    text: Seq<char>,
    item: Option<Result<(int, TokenView, int), LexerError>>,
) -> Option<Result<(int, TokenView, int), LexerError>> {
    match item {
        None => None,
        Some(Err(error)) => Some(Err(error)),
        Some(Ok((start, token, end))) => Some(
            Ok((offset_at(text, start) as int, token, offset_at(text, end) as int)),
        ),
    }
}

/// What `next` returned, in contracts.
pub open spec fn item_view(item: Option<Result<SpannedToken, LexerError>>) -> Option<
    Result<(int, TokenView, int), LexerError>,
> {
    match item {
        None => None,
        Some(Err(error)) => Some(Err(error)),
        Some(Ok((start, token, end))) => Some(Ok((start as int, token@, end as int))),
    }
}

impl Lexer {
    /// The next character is in the source or at its end, and the places in
    /// bytes are those of the source.
    pub open spec fn wf(&self) -> bool {
        &&& self.position <= self.input@.len()
        &&& self.offset == offset_at(self.input@, self.position as int)
        &&& self.length == offset_at(self.input@, self.input@.len() as int)
    }

    /// The character that comes next and its place in bytes, if the source
    /// has not ended.
    pub open spec fn lookahead(&self) -> Option<(usize, char)> {
        if self.position < self.input@.len() {
            Some((self.offset, self.input@[self.position as int]))
        } else {
            None
        }
    }

    /// A lexer at the beginning of `input`, which expects a header.
    pub fn new(input: &str) -> (lexer: Lexer)
        ensures
            lexer.wf(),
            lexer.input@ == input@,
            lexer.position == 0,
            lexer.mode == LexerMode::Header,
            lexer.is_empty_line,
            lexer.eof_location is None,
    {
        let chars = chars_of(input);
        let length = input.as_bytes().len();
        proof {
            assert(chars@.take(chars@.len() as int) =~= chars@);
            assert(chars@.take(0) =~= Seq::<char>::empty());
        }
        Lexer {
            input: chars,
            position: 0,
            offset: 0,
            length,
            mode: LexerMode::Header,
            is_empty_line: true,
            eof_location: None,
        }
    }

    /// Takes the next character. With the last character of the source the
    /// place of the end becomes known.
    pub fn bump(&mut self) -> (taken: Option<(usize, char)>)
        requires
            old(self).wf(),
        ensures
            final(self).wf(),
            taken == old(self).lookahead(),
            final(self).input == old(self).input,
            final(self).mode == old(self).mode,
            final(self).is_empty_line == old(self).is_empty_line,
            final(self).position == if taken is Some {
                old(self).position + 1
            } else {
                old(self).position as int
            },
            final(self).eof_location == if taken is Some && old(self).position + 1
                == old(self).input@.len() {
                Some(old(self).length)
            } else {
                old(self).eof_location
            },
    {
        if self.position < self.input.len() {
            let loc = self.offset;
            let c = self.input[self.position];
            proof {
                lemma_offset_step(self.input@, self.position as int);
                lemma_offset_grows(
                    self.input@,
                    self.position + 1,
                    self.input@.len() as int,
                );
            }
            self.position = self.position + 1;
            self.offset = loc + utf8_width(c);
            if self.position >= self.input.len() {
                self.eof_location = Some(self.offset);
            }
            Some((loc, c))
        } else {
            None
        }
    }

    /// The index of the character whose place in bytes is `offset`, which is
    /// not before the character at `from`.
    fn index(&self, from: usize, offset: usize) -> (index: usize)
        requires
            from <= self.input@.len(),
            is_place(self.input@, offset as int),
            offset_at(self.input@, from as int) <= offset,
        ensures
            index == index_of(self.input@, offset as int),
            from <= index <= self.input@.len(),
    {
        let ghost target = index_of(self.input@, offset as int);
        let mut index = from;
        let mut place: usize = 0;
        let mut at: usize = 0;
        proof {
            lemma_offset_step_zero(self.input@);
        }
        while at < from
            invariant
                at <= from <= self.input@.len(),
                place == offset_at(self.input@, at as int),
                offset_at(self.input@, from as int) <= offset,
            decreases from - at,
        {
            proof {
                lemma_offset_step(self.input@, at as int);
                lemma_offset_grows(self.input@, at + 1, from as int);
            }
            place = place + utf8_width(self.input[at]);
            at += 1;
        }
        proof {
            assert(0 <= target <= self.input@.len() && offset_at(self.input@, target) == offset);
            assert(self.input@.len() == self.input.len());
            if target < from {
                lemma_offset_grows(self.input@, target, from as int);
            }
        }
        while place < offset
            invariant
                from <= index <= target <= self.input@.len() <= usize::MAX,
                target == index_of(self.input@, offset as int),
                offset_at(self.input@, target) == offset,
                place == offset_at(self.input@, index as int),
            decreases target - index,
        {
            proof {
                assert(index < target);
                lemma_offset_step(self.input@, index as int);
                lemma_offset_grows(self.input@, index + 1, target);
            }
            place = place + utf8_width(self.input[index]);
            index += 1;
        }
        proof {
            lemma_offset_grows(self.input@, index as int, target);
            lemma_index_of(self.input@, index as int);
        }
        index
    }

    /// The source from the place `start` up to the place `end`, both in
    /// bytes.
    pub fn slice(&self, start: usize, end: usize) -> (part: String)
        requires
            is_place(self.input@, start as int),
            is_place(self.input@, end as int),
            start <= end,
        ensures
            part@ == self.input@.subrange(
                index_of(self.input@, start as int),
                index_of(self.input@, end as int),
            ),
    {
        proof {
            lemma_offset_step_zero(self.input@);
        }
        let from = self.index(0, start);
        let to = self.index(from, end);
        let mut part: Vec<char> = Vec::new();
        append_range(&mut part, &self.input, from, to);
        assert(part@ =~= self.input@.subrange(from as int, to as int));
        string_of(&part)
    }

    /// Whether the next character passes `test`; false at the end of the
    /// source.
    pub fn test_lookahead<F: Fn(char) -> bool>(&self, test: F) -> (passed: bool)
        requires
            self.wf(),
            forall|c: char| call_requires(test, (c,)),
        ensures
            match self.lookahead() {
                Some((_, c)) => call_ensures(test, (c,), passed),
                None => !passed,
            },
    {
        if self.position < self.input.len() {
            test(self.input[self.position])
        } else {
            false
        }
    }

    /// Passes over the rest of the line, up to its line feed.
    pub fn line_comment(&mut self)
        requires
            old(self).wf(),
        ensures
            final(self).wf(),
            final(self).input == old(self).input,
            final(self).mode == old(self).mode,
            final(self).is_empty_line == old(self).is_empty_line,
            final(self).position == line_end(old(self).input@, old(self).position as int),
            old(self).position <= final(self).position,
    {
        while self.position < self.input.len() && self.input[self.position] != '\n'
            invariant
                self.wf(),
                self.input == old(self).input,
                self.mode == old(self).mode,
                self.is_empty_line == old(self).is_empty_line,
                old(self).position <= self.position,
                line_end(old(self).input@, old(self).position as int) == line_end(
                    self.input@,
                    self.position as int,
                ),
            decreases self.input@.len() - self.position,
        {
            self.bump();
        }
    }

    /// Takes the rest of the line, up to its line feed: the place in bytes
    /// where it ends, and the source from the place `start` up to there.
    pub fn rest_of_line(&mut self, start: usize, trim_whitespace: bool) -> (rest: (usize, String))
        requires
            old(self).wf(),
            is_place(old(self).input@, start as int),
            start <= old(self).offset,
        ensures
            final(self).wf(),
            final(self).input == old(self).input,
            final(self).mode == old(self).mode,
            final(self).is_empty_line == old(self).is_empty_line,
            final(self).position == line_end(old(self).input@, old(self).position as int),
            rest.0 == final(self).offset,
            rest.1@ == old(self).input@.subrange(
                index_of(old(self).input@, start as int),
                final(self).position as int,
            ),
    {
        self.line_comment();
        proof {
            lemma_offset_grows(old(self).input@, old(self).position as int, self.position as int);
            lemma_index_of(self.input@, self.position as int);
        }
        (self.offset, self.slice(start, self.offset))
    }

    /// Takes the rest of an identifier: the place in bytes where it ends,
    /// and the source from the place `start` up to there.
    pub fn identifier(&mut self, start: usize) -> (rest: (usize, String))
        requires
            old(self).wf(),
            is_place(old(self).input@, start as int),
            start <= old(self).offset,
        ensures
            final(self).wf(),
            final(self).input == old(self).input,
            final(self).mode == old(self).mode,
            final(self).is_empty_line == old(self).is_empty_line,
            final(self).position == identifier_end(old(self).input@, old(self).position as int),
            rest.0 == final(self).offset,
            rest.1@ == old(self).input@.subrange(
                index_of(old(self).input@, start as int),
                final(self).position as int,
            ),
    {
        while self.position < self.input.len() && is_identifier_rest(self.input[self.position])
            invariant
                self.wf(),
                self.input == old(self).input,
                self.mode == old(self).mode,
                self.is_empty_line == old(self).is_empty_line,
                old(self).position <= self.position,
                identifier_end(old(self).input@, old(self).position as int) == identifier_end(
                    self.input@,
                    self.position as int,
                ),
            decreases self.input@.len() - self.position,
        {
            self.bump();
        }
        proof {
            lemma_offset_grows(old(self).input@, old(self).position as int, self.position as int);
            lemma_index_of(self.input@, self.position as int);
        }
        (self.offset, self.slice(start, self.offset))
    }

    /// Takes the two characters that must follow `c`, which was taken at
    /// the index `first` and the place `start`, to make the token `token`.
    fn triple(&mut self, Ghost(first): Ghost<int>, start: usize, c: char, token: Token) -> (item:
        Result<SpannedToken, LexerError>)
        requires
            old(self).wf(),
            old(self).position == first + 1,
            start == offset_at(old(self).input@, first),
        ensures
            final(self).wf(),
            final(self).input == old(self).input,
            ({
                let lexed = lex_triple(old(self).input@, first, c, token@, old(self).is_empty_line);
                &&& item_view(Some(item)) == in_bytes(old(self).input@, lexed.item)
                &&& final(self).position == lexed.position
                &&& final(self).mode == lexed.mode
                &&& final(self).is_empty_line == lexed.is_empty_line
            }),
    {
        self.mode = LexerMode::Body;
        match self.bump() {
            None => {
                return Err(LexerError::UnexpectedEnd);
            },
            Some((_, next)) => {
                if next != c {
                    return Err(LexerError::UnexpectedCharacter(next));
                }
            },
        }
        match self.bump() {
            None => {
                return Err(LexerError::UnexpectedEnd);
            },
            Some((_, next)) => {
                if next != c {
                    return Err(LexerError::UnexpectedCharacter(next));
                }
            },
        }
        Ok((start, token, self.offset))
    }

    /// The next token with the places in bytes at which it begins and ends,
    /// or nothing at the end of the source.
    pub fn next(&mut self) -> (item: Option<Result<SpannedToken, LexerError>>)
        requires
            old(self).wf(),
        ensures
            final(self).wf(),
            final(self).input == old(self).input,
            ({
                let lexed = lex(
                    old(self).input@,
                    old(self).position as int,
                    old(self).mode,
                    old(self).is_empty_line,
                );
                &&& item_view(item) == in_bytes(old(self).input@, lexed.item)
                &&& final(self).position == lexed.position
                &&& final(self).mode == lexed.mode
                &&& final(self).is_empty_line == lexed.is_empty_line
            }),
    {
        loop
            invariant
                self.wf(),
                self.input == old(self).input,
                lex(
                    old(self).input@,
                    old(self).position as int,
                    old(self).mode,
                    old(self).is_empty_line,
                ) == lex(self.input@, self.position as int, self.mode, self.is_empty_line),
            decreases self.input@.len() - self.position,
        {
            let ghost first = self.position as int;
            let (start, c) = match self.bump() {
                Some(taken) => taken,
                None => {
                    return None;
                },
            };
            proof {
                lemma_index_of(self.input@, first);
                lemma_offset_grows(self.input@, first, first + 1);
            }
            if c == '\n' {
                if self.is_empty_line {
                    // If we have a line of just whitespace, then don't emit a newline token.
                    continue ;
                } else {
                    // We're going to the start of a new line, so reset the empty line flag.
                    self.is_empty_line = true;
                    return Some(Ok((start, Token::NewLine, self.offset)));
                }
            }
            // If we see a comment, ignore the rest of the line.

            let slash = |la: char| -> (same: bool)
                ensures
                    same == (la == '/'),
                { la == '/' };
            if c == '/' && self.test_lookahead(slash) {
                self.line_comment();
                continue ;
            }
            // The current character is not whitespace, a new line, or a comment, so clear the
            // empty line flag.

            if !is_whitespace(c) {
                self.is_empty_line = false;
            }
            match self.mode {
                LexerMode::Header => {
                    if is_whitespace(c) {
                        continue ;
                    }
                    if c == '-' {
                        return Some(self.triple(Ghost(first), start, '-', Token::BodyStart));
                    }
                    if is_identifier_start(c) {
                        let (end, identifier) = self.identifier(start);
                        return Some(Ok((start, Token::Identifier(identifier), end)));
                    }
                    if c == ':' {
                        self.mode = LexerMode::HeaderValue;
                        return Some(Ok((start, Token::HeaderDelimiter, self.offset)));
                    }
                    return Some(Err(LexerError::UnexpectedCharacter(c)));
                },
                LexerMode::HeaderValue => {
                    // Get a string until the end of the line.
                    let (end, value) = self.rest_of_line(start, true);
                    self.mode = LexerMode::Header;
                    return Some(Ok((start, Token::HeaderValue(value), end)));
                },
                LexerMode::Body => {
                    if c != '=' {
                        return Some(Err(LexerError::UnexpectedCharacter(c)));
                    }
                    return Some(self.triple(Ghost(first), start, '=', Token::BodyEnd));
                },
            }
        }
    }
}

} // verus!
