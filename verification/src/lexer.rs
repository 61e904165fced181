//! The executable tokenizer, verified against the scanning model, and a
//! peekable token cursor over its output.

use crate::scan::{
    bare_run, block_close_scan, block_comment_len, digit_run, id_len, id_value, is_bare_char,
    is_digit, is_space_char, lex_step, line_comment_len, match_lit, newline_scan, num_len,
    quote_scan, quoted_len, scan_from, scan_tokens, token_at, ScanItem,
};
use crate::token::{token_views, Token, TokenView};
use vstd::prelude::*;
use vstd::string::StrSliceExecFns;

verus! {

fn is_bare_char_x(c: char) -> (r: bool)
    ensures
        r == is_bare_char(c),
{
    ('a' <= c && c <= 'z') || ('A' <= c && c <= 'Z') || ('0' <= c && c <= '9') || c == '_'
}

fn is_digit_x(c: char) -> (r: bool)
    ensures
        r == is_digit(c),
{
    '0' <= c && c <= '9'
}

fn is_space_char_x(c: char) -> (r: bool)
    ensures
        r == is_space_char(c),
{
    c == ' ' || c == '\t' || c == '\x0c'
}

fn bare_run_x(s: &str, n: usize, i: usize) -> (r: usize)
    requires
        n == s@.len(),
        i <= n,
    ensures
        r as int == bare_run(s@, i as int),
        i + r <= n,
    decreases n - i,
{
    if i < n && is_bare_char_x(s.get_char(i)) {
        1 + bare_run_x(s, n, i + 1)
    } else {
        0
    }
}

fn digit_run_x(s: &str, n: usize, i: usize) -> (r: usize)
    requires
        n == s@.len(),
        i <= n,
    ensures
        r as int == digit_run(s@, i as int),
        i + r <= n,
    decreases n - i,
{
    if i < n && is_digit_x(s.get_char(i)) {
        1 + digit_run_x(s, n, i + 1)
    } else {
        0
    }
}

fn num_len_x(s: &str, n: usize, i: usize) -> (r: usize)
    requires
        n == s@.len(),
        i <= n,
    ensures
        r as int == num_len(s@, i as int),
        i + r <= n,
{
    let j: usize = if i < n && s.get_char(i) == '-' {
        i + 1
    } else {
        i
    };
    if j < n && s.get_char(j) == '.' {
        let d = digit_run_x(s, n, j + 1);
        if d > 0 {
            j + 1 + d - i
        } else {
            0
        }
    } else {
        let d = digit_run_x(s, n, j);
        if d > 0 {
            if j + d < n && s.get_char(j + d) == '.' {
                let d2 = digit_run_x(s, n, j + d + 1);
                j + d + 1 + d2 - i
            } else {
                j + d - i
            }
        } else {
            0
        }
    }
}

fn quote_scan_x(s: &str, n: usize, j: usize) -> (r: Option<usize>)
    requires
        n == s@.len(),
        1 <= j <= n,
    ensures
        match r {
            Some(e) => quote_scan(s@, j as int) == Some(e as int) && j < e <= n,
            None => quote_scan(s@, j as int) is None,
        },
    decreases n - j,
{
    if j >= n {
        None
    } else if s.get_char(j) == '"' {
        if s.get_char(j - 1) != '\\' {
            Some(j + 1)
        } else {
            match quote_scan_x(s, n, j + 1) {
                Some(e) => Some(e),
                None => Some(j + 1),
            }
        }
    } else {
        quote_scan_x(s, n, j + 1)
    }
}

fn quoted_len_x(s: &str, n: usize, i: usize) -> (r: usize)
    requires
        n == s@.len(),
        i <= n,
    ensures
        r as int == quoted_len(s@, i as int),
        i + r <= n,
        r == 0 || r >= 2,
{
    if i < n && s.get_char(i) == '"' {
        match quote_scan_x(s, n, i + 1) {
            Some(e) => e - i,
            None => 0,
        }
    } else {
        0
    }
}

fn newline_scan_x(s: &str, n: usize, j: usize) -> (r: Option<usize>)
    requires
        n == s@.len(),
        j <= n,
    ensures
        match r {
            Some(e) => newline_scan(s@, j as int) == Some(e as int) && j < e <= n,
            None => newline_scan(s@, j as int) is None,
        },
    decreases n - j,
{
    if j >= n {
        None
    } else if s.get_char(j) == '\n' {
        Some(j + 1)
    } else {
        newline_scan_x(s, n, j + 1)
    }
}

fn line_comment_len_x(s: &str, n: usize, i: usize) -> (r: usize)
    requires
        n == s@.len(),
        i <= n,
    ensures
        r as int == line_comment_len(s@, i as int),
        i + r <= n,
{
    if i < n && i + 1 < n && s.get_char(i) == '/' && s.get_char(i + 1) == '/' {
        match newline_scan_x(s, n, i + 2) {
            Some(e) => e - i,
            None => 0,
        }
    } else {
        0
    }
}

fn block_close_scan_x(s: &str, n: usize, j: usize) -> (r: Option<usize>)
    requires
        n == s@.len(),
        j <= n,
    ensures
        match r {
            Some(e) => block_close_scan(s@, j as int) == Some(e as int) && j < e <= n,
            None => block_close_scan(s@, j as int) is None,
        },
    decreases n - j,
{
    if j >= n || j + 1 >= n {
        None
    } else if s.get_char(j) == '*' && s.get_char(j + 1) == '/' {
        Some(j + 2)
    } else {
        block_close_scan_x(s, n, j + 1)
    }
}

fn block_comment_len_x(s: &str, n: usize, i: usize) -> (r: usize)
    requires
        n == s@.len(),
        i <= n,
    ensures
        r as int == block_comment_len(s@, i as int),
        i + r <= n,
{
    if i < n && i + 1 < n && s.get_char(i) == '/' && s.get_char(i + 1) == '*' {
        match block_close_scan_x(s, n, i + 2) {
            Some(e) => e - i,
            None => 0,
        }
    } else {
        0
    }
}

fn match_lit_x(s: &str, n: usize, i: usize, w: &str) -> (r: bool)
    requires
        n == s@.len(),
        i <= n,
    ensures
        r == match_lit(s@, i as int, w@),
{
    let wn = w.unicode_len();
    if n - i < wn {
        return false;
    }
    let mut k: usize = 0;
    while k < wn
        invariant
            n == s@.len(),
            wn == w@.len(),
            i + wn <= n,
            k <= wn,
            forall|m: int| 0 <= m < k ==> s@[i + m] == w@[m],
        decreases wn - k,
    {
        if s.get_char(i + k) != w.get_char(k) {
            return false;
        }
        k = k + 1;
    }
    true
}

fn token_at_x(s: &str, n: usize, i: usize) -> (r: Option<(Token, usize)>)
    requires
        n == s@.len(),
        i <= n,
    ensures
        match r {
            Some(tl) => token_at(s@, i as int) == Some((tl.0@, tl.1 as int)) && i + tl.1 <= n,
            None => token_at(s@, i as int) is None,
        },
{
    proof {
        reveal_strlit("subgraph");
        reveal_strlit("digraph");
        reveal_strlit("strict");
        reveal_strlit("graph");
        reveal_strlit("node");
        reveal_strlit("edge");
        reveal_strlit("->");
        reveal_strlit("--");
    }
    if match_lit_x(s, n, i, "subgraph") {
        Some((Token::Subgraph, 8))
    } else if match_lit_x(s, n, i, "digraph") {
        Some((Token::Digraph, 7))
    } else if match_lit_x(s, n, i, "strict") {
        Some((Token::Strict, 6))
    } else if match_lit_x(s, n, i, "graph") {
        Some((Token::Graph, 5))
    } else if match_lit_x(s, n, i, "node") {
        Some((Token::Node, 4))
    } else if match_lit_x(s, n, i, "edge") {
        Some((Token::Edge, 4))
    } else if match_lit_x(s, n, i, "->") {
        Some((Token::DirectedEdge, 2))
    } else if match_lit_x(s, n, i, "--") {
        Some((Token::UndirectedEdge, 2))
    } else if i >= n {
        None
    } else {
        let c = s.get_char(i);
        if c == '{' {
            Some((Token::OpenParen, 1))
        } else if c == '}' {
            Some((Token::CloseParen, 1))
        } else if c == '[' {
            Some((Token::OpenBracket, 1))
        } else if c == ']' {
            Some((Token::CloseBracket, 1))
        } else if c == '=' {
            Some((Token::Equals, 1))
        } else if c == ',' {
            Some((Token::Comma, 1))
        } else if c == ';' {
            Some((Token::SemiColon, 1))
        } else if c == ':' {
            Some((Token::Colon, 1))
        } else if c == '\n' {
            Some((Token::NewLine, 1))
        } else if c == '"' {
            Some((Token::Quotation, 1))
        } else {
            None
        }
    }
}

fn id_len_x(s: &str, n: usize, i: usize) -> (r: usize)
    requires
        n == s@.len(),
        i <= n,
    ensures
        r as int == id_len(s@, i as int),
        i + r <= n,
        r > 0 ==> i < n,
        i < n && s@[i as int] == '"' && r > 0 ==> r >= 2,
{
    let q = quoted_len_x(s, n, i);
    let b = bare_run_x(s, n, i);
    let m = num_len_x(s, n, i);
    if q >= b && q >= m {
        q
    } else if b >= m {
        b
    } else {
        m
    }
}

/// The scan items that a token vector and its parallel slice vector stand
/// for.
pub open spec fn exec_items(toks: Seq<Token>, slices: Seq<String>) -> Seq<ScanItem> {
    Seq::new(toks.len(), |k: int| ScanItem { tok: toks[k]@, slice: slices[k]@ })
}

/// Builds the identifier token and the matched slice for an identifier
/// match of length `l` at position `i`.
fn make_id(s: &str, n: usize, i: usize, l: usize) -> (r: (Token, String))
    requires
        n == s@.len(),
        i + l <= n,
        l >= 1,
        s@[i as int] == '"' ==> l >= 2,
    ensures
        r.0@ == TokenView::ID(id_value(s@, i as int, l as int)),
        r.1@ == s@.subrange(i as int, i + l),
{
    let slice = s.substring_char(i, i + l).to_owned();
    let value = if s.get_char(i) == '"' {
        s.substring_char(i + 1, i + l - 1).to_owned()
    } else {
        s.substring_char(i, i + l).to_owned()
    };
    (Token::ID(value), slice)
}

/// Scans a whole text into its token vector and the parallel vector of
/// matched slices, exactly as the scanning model describes.
fn scan_text(s: &str) -> (r: (Vec<Token>, Vec<String>))
    ensures
        r.0@.len() == r.1@.len(),
        exec_items(r.0@, r.1@) == scan_from(s@, 0),
{
    let n = s.unicode_len();
    let mut toks: Vec<Token> = Vec::new();
    let mut slices: Vec<String> = Vec::new();
    let mut i: usize = 0;
    while i < n
        invariant
            n == s@.len(),
            i <= n,
            toks@.len() == slices@.len(),
            scan_from(s@, 0) == exec_items(toks@, slices@) + scan_from(s@, i as int),
        decreases n - i,
    {
        let ghost prev_items = exec_items(toks@, slices@);
        let ghost rest = scan_from(s@, i as int);
        let tok_m = token_at_x(s, n, i);
        let lid = id_len_x(s, n, i);
        let step: (Option<(Token, String)>, usize) = match tok_m {
            Some((t, lt)) => {
                if lid > lt {
                    let (tok, slice) = make_id(s, n, i, lid);
                    (Some((tok, slice)), lid)
                } else {
                    let slice = s.substring_char(i, i + lt).to_owned();
                    (Some((t, slice)), lt)
                }
            },
            None => {
                let lc = line_comment_len_x(s, n, i);
                let lb = block_comment_len_x(s, n, i);
                if lid > 0 {
                    let (tok, slice) = make_id(s, n, i, lid);
                    (Some((tok, slice)), lid)
                } else if lc > 0 {
                    let slice = s.substring_char(i, i + lc).to_owned();
                    (Some((Token::NewLine, slice)), lc)
                } else if lb > 0 {
                    (None, lb)
                } else if is_space_char_x(s.get_char(i)) {
                    (None, 1)
                } else {
                    let slice = s.substring_char(i, i + 1).to_owned();
                    (Some((Token::Error, slice)), 1)
                }
            },
        };
        let l = step.1;
        proof {
            assert(1 <= l && i + l <= n);
            assert(rest == scan_from(s@, i as int));
        }
        match step.0 {
            Some((tok, slice)) => {
                proof {
                    assert(lex_step(s@, i as int) == (Some(tok@), l as int));
                    assert(rest =~= seq![
                        ScanItem { tok: tok@, slice: slice@ },
                    ] + scan_from(s@, i + l));
                }
                toks.push(tok);
                slices.push(slice);
                proof {
                    assert(exec_items(toks@, slices@) =~= prev_items + seq![
                        ScanItem { tok: toks@.last()@, slice: slices@.last()@ },
                    ]);
                    assert(scan_from(s@, 0) =~= exec_items(toks@, slices@) + scan_from(
                        s@,
                        i + l,
                    ));
                }
            },
            None => {
                proof {
                    assert(lex_step(s@, i as int) == (None::<TokenView>, l as int));
                    assert(rest == scan_from(s@, i + l));
                }
            },
        }
        i = i + l;
    }
    proof {
        assert(scan_from(s@, i as int) =~= Seq::<ScanItem>::empty());
        assert(exec_items(toks@, slices@) =~= exec_items(toks@, slices@) + scan_from(
            s@,
            i as int,
        ));
    }
    (toks, slices)
}

/// Rebuilds a token value equal (as a model) to the one referenced.
fn dup_token(t: &Token) -> (r: Token)
    ensures
        r@ == t@,
{
    match t {
        Token::ID(s) => Token::ID(s.clone()),
        Token::Strict => Token::Strict,
        Token::Subgraph => Token::Subgraph,
        Token::Graph => Token::Graph,
        Token::Digraph => Token::Digraph,
        Token::Node => Token::Node,
        Token::Edge => Token::Edge,
        Token::DirectedEdge => Token::DirectedEdge,
        Token::UndirectedEdge => Token::UndirectedEdge,
        Token::OpenParen => Token::OpenParen,
        Token::CloseParen => Token::CloseParen,
        Token::OpenBracket => Token::OpenBracket,
        Token::CloseBracket => Token::CloseBracket,
        Token::Equals => Token::Equals,
        Token::Comma => Token::Comma,
        Token::SemiColon => Token::SemiColon,
        Token::NewLine => Token::NewLine,
        Token::Colon => Token::Colon,
        Token::Quotation => Token::Quotation,
        Token::Error => Token::Error,
    }
}

/// Tokenizes a whole text.  The result is the surfaced token stream of the
/// scanning model.
pub fn tokenize(s: &str) -> (r: Vec<Token>)
    ensures
        token_views(r@) == scan_tokens(s@),
{
    let (toks, slices) = scan_text(s);
    proof {
        assert(token_views(toks@) =~= scan_tokens(s@));
    }
    toks
}

/// A cursor over the token stream of one input text, with one token of
/// lookahead.  `next` consumes a token, `peek` reads it without consuming,
/// and `slice` recalls the exact source text of the last consumed token.
pub struct PeekableLexer {
    pub toks: Vec<Token>,
    pub slices: Vec<String>,
    pub pos: usize,
}

impl PeekableLexer {
    /// The cursor's vectors stay aligned and the position inside them.
    pub open spec fn wf(self) -> bool {
        self.toks@.len() == self.slices@.len() && self.pos <= self.toks@.len()
    }

    /// The scan items this cursor ranges over.
    pub open spec fn items(self) -> Seq<ScanItem> {
        exec_items(self.toks@, self.slices@)
    }

    /// Creates a cursor at the start of the token stream of `text`.
    pub fn from(text: &str) -> (r: Self)
        ensures
            r.wf(),
            r.items() == scan_from(text@, 0),
            r.pos == 0,
    {
        let (toks, slices) = scan_text(text);
        PeekableLexer { toks, slices, pos: 0 }
    }

    /// Returns the next token and advances past it, or nothing at the end
    /// of the stream.
    pub fn next(&mut self) -> (r: Option<Token>)
        requires
            old(self).wf(),
        ensures
            final(self).wf(),
            final(self).toks == old(self).toks,
            final(self).slices == old(self).slices,
            match r {
                Some(t) => old(self).pos < old(self).items().len() && final(self).pos == old(
                    self,
                ).pos + 1 && t@ == old(self).items()[old(self).pos as int].tok,
                None => old(self).pos == old(self).items().len() && final(self).pos == old(
                    self,
                ).pos,
            },
    {
        if self.pos < self.toks.len() {
            let t = dup_token(&self.toks[self.pos]);
            self.pos = self.pos + 1;
            Some(t)
        } else {
            None
        }
    }

    /// Returns the next token without advancing, or nothing at the end of
    /// the stream.  Repeated peeks return the same token.
    pub fn peek(&self) -> (r: Option<Token>)
        requires
            self.wf(),
        ensures
            match r {
                Some(t) => self.pos < self.items().len() && t@ == self.items()[self.pos as int].tok,
                None => self.pos == self.items().len(),
            },
    {
        if self.pos < self.toks.len() {
            Some(dup_token(&self.toks[self.pos]))
        } else {
            None
        }
    }

    /// The exact source text matched by the most recently consumed token;
    /// the empty string before the first `next`.
    pub fn slice(&self) -> (r: String)
        requires
            self.wf(),
        ensures
            self.pos > 0 ==> r@ == self.items()[self.pos - 1].slice,
            self.pos == 0 ==> r@ == Seq::<char>::empty(),
    {
        if self.pos > 0 {
            self.slices[self.pos - 1].clone()
        } else {
            String::new()
        }
    }
}

} // verus!
