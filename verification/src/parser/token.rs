//! The tokens of a dialogue source.

use vstd::prelude::*;

verus! {

/// What a [`Token`] is in contracts.
pub enum TokenView {
    NewLine,
    BodyStart,
    BodyEnd,
    Identifier(Seq<char>),
    HeaderDelimiter,
    HeaderValue(Seq<char>),
}

/// A token.
#[derive(Debug)]
pub enum Token {
    /// The end of a line that holds something.
    NewLine,
    /// `---`, which opens a body.
    BodyStart,
    /// `===`, which closes a body.
    BodyEnd,
    /// The key of a header.
    Identifier(String),
    /// The colon between the key and the value of a header.
    HeaderDelimiter,
    /// The value of a header: the rest of its line.
    HeaderValue(String),
}

impl View for Token {
    type V = TokenView;

    open spec fn view(&self) -> TokenView {
        match self {
            Token::NewLine => TokenView::NewLine,
            Token::BodyStart => TokenView::BodyStart,
            Token::BodyEnd => TokenView::BodyEnd,
            Token::Identifier(name) => TokenView::Identifier(name@),
            Token::HeaderDelimiter => TokenView::HeaderDelimiter,
            Token::HeaderValue(value) => TokenView::HeaderValue(value@),
        }
    }
}

} // verus!
