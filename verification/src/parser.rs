//! The parser of dialogue sources.
//!
//! A dialogue is a sequence of nodes. A node is a sequence of header lines,
//! each a key, a colon and a value, then `---`, then `===`. Line ends may
//! stand before and after `===`.

pub mod ast;
pub mod lexer;
pub mod token;

use vstd::prelude::*;
use crate::parser::ast::{Body, Dialogue, Header, Node};
use crate::parser::lexer::{lemma_lex_advances, lex, Lexer, LexerError, LexerMode};
use crate::parser::token::{Token, TokenView};

verus! {

/// Why a source is no dialogue.
#[derive(Debug, Copy, Clone, PartialEq, Eq, Structural)]
pub enum ParseError {
    /// The lexer could not read the source.
    Lexer(LexerError),
    /// The tokens are not in the order of the grammar.
    Syntax,
}

/// What a header is in contracts: its key and its value.
pub struct HeaderView {
    pub key: Seq<char>,
    pub value: Seq<char>,
}

impl View for Header {
    type V = HeaderView;

    open spec fn view(&self) -> HeaderView {
        HeaderView { key: self.key@, value: self.value@ }
    }
}

/// The headers of a node, in contracts.
pub open spec fn headers_view(headers: Seq<Header>) -> Seq<HeaderView> {
    Seq::new(headers.len(), |i: int| headers[i]@)
}

/// The nodes of a dialogue by their headers, in contracts.
pub open spec fn nodes_view(nodes: Seq<Node>) -> Seq<Seq<HeaderView>> {
    Seq::new(nodes.len(), |i: int| headers_view(nodes[i].headers@))
}

/// The views of a sequence of tokens, one for one.
pub open spec fn tokens_view(tokens: Seq<Token>) -> Seq<TokenView> {
    Seq::new(tokens.len(), |i: int| tokens[i]@)
}

/// The tokens of the source from `pos` on, behind those read so far.
pub open spec fn read_tokens(
    text: Seq<char>,
    pos: int,
    mode: LexerMode,
    is_empty_line: bool,
    tokens: Seq<TokenView>,
) -> Result<Seq<TokenView>, ParseError>
    decreases text.len() - pos,
{
    let lexed = lex(text, pos, mode, is_empty_line);
    match lexed.item {
        None => Ok(tokens),
        Some(Err(error)) => Err(ParseError::Lexer(error)),
        Some(Ok((_, token, _))) => {
            proof {
                lemma_lex_advances(text, pos, mode, is_empty_line);
            }
            read_tokens(text, lexed.position, lexed.mode, lexed.is_empty_line, tokens.push(token))
        },
    }
}

/// The first place from `pos` on that holds no line end, or the end.
pub open spec fn skip_line_ends(tokens: Seq<TokenView>, pos: int) -> int
    decreases tokens.len() - pos,
{
    if pos < 0 || pos >= tokens.len() || !(tokens[pos] is NewLine) {
        pos
    } else {
        skip_line_ends(tokens, pos + 1)
    }
}

/// The headers from `pos` on, behind those read so far, and the place after
/// the `---` that ends them.
pub open spec fn read_headers(tokens: Seq<TokenView>, pos: int, headers: Seq<HeaderView>) -> Result<
    (Seq<HeaderView>, int),
    ParseError,
>
    decreases tokens.len() - pos,
{
    if pos < 0 || pos >= tokens.len() {
        Err(ParseError::Syntax)
    } else {
        match tokens[pos] {
            TokenView::BodyStart => Ok((headers, pos + 1)),
            TokenView::Identifier(key) => if pos + 3 < tokens.len() && tokens[pos + 1]
                is HeaderDelimiter && tokens[pos + 3] is NewLine {
                match tokens[pos + 2] {
                    TokenView::HeaderValue(value) => read_headers(
                        tokens,
                        pos + 4,
                        headers.push(HeaderView { key, value }),
                    ),
                    _ => Err(ParseError::Syntax),
                }
            } else {
                Err(ParseError::Syntax)
            },
            _ => Err(ParseError::Syntax),
        }
    }
}

/// The node that begins at `pos`, and the place after it.
pub open spec fn read_node(tokens: Seq<TokenView>, pos: int) -> Result<(Seq<HeaderView>, int), ParseError> {
    match read_headers(tokens, pos, Seq::empty()) {
        Err(error) => Err(error),
        Ok((headers, body)) => {
            let end = skip_line_ends(tokens, body);
            if end < tokens.len() && tokens[end] is BodyEnd {
                Ok((headers, skip_line_ends(tokens, end + 1)))
            } else {
                Err(ParseError::Syntax)
            }
        },
    }
}

/// Line ends are passed over forwards, and not beyond the end.
pub proof fn lemma_skip_line_ends(tokens: Seq<TokenView>, pos: int)
    ensures
        pos <= skip_line_ends(tokens, pos),
        pos <= tokens.len() ==> skip_line_ends(tokens, pos) <= tokens.len(),
    decreases tokens.len() - pos,
{
    if !(pos < 0 || pos >= tokens.len() || !(tokens[pos] is NewLine)) {
        lemma_skip_line_ends(tokens, pos + 1);
    }
}

/// The headers of a node end behind the place at which they begin.
pub proof fn lemma_read_headers(tokens: Seq<TokenView>, pos: int, headers: Seq<HeaderView>)
    ensures
        read_headers(tokens, pos, headers) matches Ok((_, end)) ==> pos < end <= tokens.len(),
    decreases tokens.len() - pos,
{
    if !(pos < 0 || pos >= tokens.len()) {
        match tokens[pos] {
            TokenView::Identifier(key) => {
                if pos + 3 < tokens.len() && tokens[pos + 1] is HeaderDelimiter && tokens[pos + 3]
                    is NewLine {
                    match tokens[pos + 2] {
                        TokenView::HeaderValue(value) => {
                            lemma_read_headers(
                                tokens,
                                pos + 4,
                                headers.push(HeaderView { key, value }),
                            );
                        },
                        _ => {},
                    }
                }
            },
            _ => {},
        }
    }
}

/// A node ends behind the place at which it begins.
pub proof fn lemma_read_node(tokens: Seq<TokenView>, pos: int)
    ensures
        read_node(tokens, pos) matches Ok((_, end)) ==> pos < end <= tokens.len(),
{
    lemma_read_headers(tokens, pos, Seq::empty());
    match read_headers(tokens, pos, Seq::empty()) {
        Ok((headers, body)) => {
            lemma_skip_line_ends(tokens, body);
            lemma_skip_line_ends(tokens, skip_line_ends(tokens, body) + 1);
        },
        Err(_) => {},
    }
}

/// The nodes from `pos` on, behind those read so far.
pub open spec fn read_nodes(tokens: Seq<TokenView>, pos: int, nodes: Seq<Seq<HeaderView>>) -> Result<
    Seq<Seq<HeaderView>>,
    ParseError,
>
    decreases tokens.len() - pos,
{
    if pos < 0 || pos >= tokens.len() {
        Ok(nodes)
    } else {
        match read_node(tokens, pos) {
            Err(error) => Err(error),
            Ok((node, end)) => {
                proof {
                    lemma_read_node(tokens, pos);
                }
                read_nodes(tokens, end, nodes.push(node))
            },
        }
    }
}

/// The dialogue that a source holds: the headers of its nodes.
pub open spec fn dialogue_of(src: Seq<char>) -> Result<Seq<Seq<HeaderView>>, ParseError> {
    match read_tokens(src, 0, LexerMode::Header, true, Seq::empty()) {
        Err(error) => Err(error),
        Ok(tokens) => read_nodes(tokens, skip_line_ends(tokens, 0), Seq::empty()),
    }
}

/// The tokens of a source.
pub fn tokenize(src: &str) -> (result: Result<Vec<Token>, ParseError>)
    ensures
        match result {
            Ok(tokens) => read_tokens(src@, 0, LexerMode::Header, true, Seq::empty()) == Ok::<
                Seq<TokenView>,
                ParseError,
            >(tokens_view(tokens@)),
            Err(error) => read_tokens(src@, 0, LexerMode::Header, true, Seq::empty()) == Err::<
                Seq<TokenView>,
                ParseError,
            >(error),
        },
{
    let mut lex = Lexer::new(src);
    let mut tokens: Vec<Token> = Vec::new();
    assert(tokens_view(tokens@) =~= Seq::empty());
    loop
        invariant
            lex.wf(),
            lex.input@ == src@,
            read_tokens(src@, 0, LexerMode::Header, true, Seq::empty()) == read_tokens(
                src@,
                lex.position as int,
                lex.mode,
                lex.is_empty_line,
                tokens_view(tokens@),
            ),
        decreases src@.len() - lex.position,
    {
        let ghost before = lex.position;
        let ghost mode = lex.mode;
        let ghost empty = lex.is_empty_line;
        let ghost read = tokens_view(tokens@);
        match lex.next() {
            None => {
                return Ok(tokens);
            },
            Some(Err(error)) => {
                return Err(ParseError::Lexer(error));
            },
            Some(Ok((_, token, _))) => {
                proof {
                    lemma_lex_advances(src@, before as int, mode, empty);
                }
                let ghost view = token@;
                tokens.push(token);
                assert(tokens_view(tokens@) =~= read.push(view));
            },
        }
    }
}

/// Passes over line ends.
fn skip_new_lines(tokens: &Vec<Token>, position: usize) -> (place: usize)
    requires
        position <= tokens.len(),
    ensures
        place == skip_line_ends(tokens_view(tokens@), position as int),
        position <= place <= tokens.len(),
{
    let mut place = position;
    loop
        invariant
            position <= place <= tokens.len(),
            skip_line_ends(tokens_view(tokens@), position as int) == skip_line_ends(
                tokens_view(tokens@),
                place as int,
            ),
        decreases tokens.len() - place,
    {
        if place >= tokens.len() {
            return place;
        }
        match &tokens[place] {
            Token::NewLine => {
                place += 1;
            },
            _ => {
                return place;
            },
        }
    }
}

/// Reads the headers of a node and the `---` behind them.
fn parse_headers(tokens: &Vec<Token>, position: usize) -> (result: Result<
    (Vec<Header>, usize),
    ParseError,
>)
    requires
        position <= tokens.len(),
    ensures
        match result {
            Ok((headers, end)) => read_headers(
                tokens_view(tokens@),
                position as int,
                Seq::empty(),
            ) == Ok::<(Seq<HeaderView>, int), ParseError>((headers_view(headers@), end as int))
                && position < end <= tokens.len(),
            Err(error) => read_headers(tokens_view(tokens@), position as int, Seq::empty())
                == Err::<(Seq<HeaderView>, int), ParseError>(error),
        },
{
    let mut headers: Vec<Header> = Vec::new();
    let mut place = position;
    assert(headers_view(headers@) =~= Seq::empty());
    loop
        invariant
            position <= place <= tokens.len(),
            read_headers(tokens_view(tokens@), position as int, Seq::empty()) == read_headers(
                tokens_view(tokens@),
                place as int,
                headers_view(headers@),
            ),
        decreases tokens.len() - place,
    {
        if place >= tokens.len() {
            return Err(ParseError::Syntax);
        }
        match &tokens[place] {
            Token::BodyStart => {
                return Ok((headers, place + 1));
            },
            Token::Identifier(key) => {
                if tokens.len() - place <= 3 {
                    return Err(ParseError::Syntax);
                }
                match (&tokens[place + 1], &tokens[place + 2], &tokens[place + 3]) {
                    (Token::HeaderDelimiter, Token::HeaderValue(value), Token::NewLine) => {
                        let ghost read = headers_view(headers@);
                        let header = Header { key: key.clone(), value: value.clone() };
                        let ghost view = header@;
                        headers.push(header);
                        assert(headers_view(headers@) =~= read.push(view));
                        place += 4;
                    },
                    _ => {
                        return Err(ParseError::Syntax);
                    },
                }
            },
            _ => {
                return Err(ParseError::Syntax);
            },
        }
    }
}

/// Reads a node.
fn parse_node(tokens: &Vec<Token>, position: usize) -> (result: Result<(Node, usize), ParseError>)
    requires
        position <= tokens.len(),
    ensures
        match result {
            Ok((node, end)) => read_node(tokens_view(tokens@), position as int) == Ok::<
                (Seq<HeaderView>, int),
                ParseError,
            >((headers_view(node.headers@), end as int)) && position < end <= tokens.len()
                && node.body.statements@.len() == 0,
            Err(error) => read_node(tokens_view(tokens@), position as int) == Err::<
                (Seq<HeaderView>, int),
                ParseError,
            >(error),
        },
{
    let (headers, body) = match parse_headers(tokens, position) {
        Ok(read) => read,
        Err(error) => {
            return Err(error);
        },
    };
    let end = skip_new_lines(tokens, body);
    if end >= tokens.len() {
        return Err(ParseError::Syntax);
    }
    match &tokens[end] {
        Token::BodyEnd => {
            let after = skip_new_lines(tokens, end + 1);
            Ok((Node { headers, body: Body::new() }, after))
        },
        _ => Err(ParseError::Syntax),
    }
}

/// Reads a dialogue. The body of a node holds nothing that the lexer lets
/// through, so every body is without statements.
pub fn parse_string(src: &str) -> (result: Result<Dialogue, ParseError>)
    ensures
        match result {
            Ok(dialogue) => dialogue_of(src@) == Ok::<Seq<Seq<HeaderView>>, ParseError>(
                nodes_view(dialogue.nodes@),
            ) && forall|i: int|
                0 <= i < dialogue.nodes@.len() ==> (#[trigger] dialogue.nodes@[i]).body.statements@.len()
                    == 0,
            Err(error) => dialogue_of(src@) == Err::<Seq<Seq<HeaderView>>, ParseError>(error),
        },
{
    let tokens = match tokenize(src) {
        Ok(tokens) => tokens,
        Err(error) => {
            return Err(error);
        },
    };
    let mut nodes: Vec<Node> = Vec::new();
    let mut place = skip_new_lines(&tokens, 0);
    let ghost first = place;
    assert(nodes_view(nodes@) =~= Seq::empty());
    while place < tokens.len()
        invariant
            place <= tokens.len(),
            first == skip_line_ends(tokens_view(tokens@), 0),
            read_tokens(src@, 0, LexerMode::Header, true, Seq::empty()) == Ok::<
                Seq<TokenView>,
                ParseError,
            >(tokens_view(tokens@)),
            read_nodes(tokens_view(tokens@), first as int, Seq::empty()) == read_nodes(
                tokens_view(tokens@),
                place as int,
                nodes_view(nodes@),
            ),
            forall|i: int| 0 <= i < nodes@.len() ==> (#[trigger] nodes@[i]).body.statements@.len() == 0,
        decreases tokens.len() - place,
    {
        let (node, end) = match parse_node(&tokens, place) {
            Ok(read) => read,
            Err(error) => {
                return Err(error);
            },
        };
        let ghost read = nodes_view(nodes@);
        let ghost view = headers_view(node.headers@);
        nodes.push(node);
        assert(nodes_view(nodes@) =~= read.push(view));
        place = end;
    }
    Ok(Dialogue { nodes })
}

} // verus!
