//! Lexical tokens of the DOT language, and their mathematical model.

use vstd::prelude::*;

verus! {

/// A lexical token.  Identifier tokens carry their semantic text: for a
/// quoted identifier the surrounding quotes are stripped (interior escape
/// sequences are kept verbatim), for bare and numeral identifiers the text
/// is the matched run itself.
#[derive(Debug, Clone, PartialEq, Eq)]
pub enum Token {
    ID(String),
    Strict,
    Subgraph,
    Graph,
    Digraph,
    Node,
    Edge,
    DirectedEdge,
    UndirectedEdge,
    OpenParen,
    CloseParen,
    OpenBracket,
    CloseBracket,
    Equals,
    Comma,
    SemiColon,
    NewLine,
    Colon,
    Quotation,
    Error,
}

/// The model of a token: the same classification with the identifier text
/// as a sequence of characters.
pub enum TokenView {
    ID(Seq<char>),
    Strict,
    Subgraph,
    Graph,
    Digraph,
    Node,
    Edge,
    DirectedEdge,
    UndirectedEdge,
    OpenParen,
    CloseParen,
    OpenBracket,
    CloseBracket,
    Equals,
    Comma,
    SemiColon,
    NewLine,
    Colon,
    Quotation,
    Error,
}

impl View for Token {
    type V = TokenView;

    open spec fn view(&self) -> TokenView {
        match self {
            Token::ID(s) => TokenView::ID(s@),
            Token::Strict => TokenView::Strict,
            Token::Subgraph => TokenView::Subgraph,
            Token::Graph => TokenView::Graph,
            Token::Digraph => TokenView::Digraph,
            Token::Node => TokenView::Node,
            Token::Edge => TokenView::Edge,
            Token::DirectedEdge => TokenView::DirectedEdge,
            Token::UndirectedEdge => TokenView::UndirectedEdge,
            Token::OpenParen => TokenView::OpenParen,
            Token::CloseParen => TokenView::CloseParen,
            Token::OpenBracket => TokenView::OpenBracket,
            Token::CloseBracket => TokenView::CloseBracket,
            Token::Equals => TokenView::Equals,
            Token::Comma => TokenView::Comma,
            Token::SemiColon => TokenView::SemiColon,
            Token::NewLine => TokenView::NewLine,
            Token::Colon => TokenView::Colon,
            Token::Quotation => TokenView::Quotation,
            Token::Error => TokenView::Error,
        }
    }
}

/// The token sequence a sequence of tokens stands for.
pub open spec fn token_views(ts: Seq<Token>) -> Seq<TokenView> {
    ts.map_values(|t: Token| t@)
}

} // verus!
