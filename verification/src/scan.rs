//! The mathematical model of tokenization.
//!
//! [`scan_from`] describes the whole token stream of an input text: at each
//! position the longest lexical match wins, a keyword beats an identifier of
//! the same length, skip categories (spaces, tabs, form feeds, block
//! comments) produce no token, a line comment stands for its terminating
//! newline, and an unrecognized character becomes an explicit error token.

use crate::token::TokenView;
use vstd::prelude::*;

verus! {

/// One scanned token together with the exact source text it matched.
pub struct ScanItem {
    pub tok: TokenView,
    pub slice: Seq<char>,
}

/// Characters of a bare identifier: ASCII letters, digits and underscore.
pub open spec fn is_bare_char(c: char) -> bool {
    ('a' <= c && c <= 'z') || ('A' <= c && c <= 'Z') || ('0' <= c && c <= '9') || c == '_'
}

pub open spec fn is_digit(c: char) -> bool {
    '0' <= c && c <= '9'
}

/// Characters that are skipped silently between tokens.
pub open spec fn is_space_char(c: char) -> bool {
    c == ' ' || c == '\t' || c == '\x0c'
}

/// Length of the run of bare-identifier characters starting at `i`.
pub open spec fn bare_run(s: Seq<char>, i: int) -> int
    decreases s.len() - i,
{
    if 0 <= i < s.len() && is_bare_char(s[i]) {
        1 + bare_run(s, i + 1)
    } else {
        0
    }
}

/// Length of the run of decimal digits starting at `i`.
pub open spec fn digit_run(s: Seq<char>, i: int) -> int
    decreases s.len() - i,
{
    if 0 <= i < s.len() && is_digit(s[i]) {
        1 + digit_run(s, i + 1)
    } else {
        0
    }
}

/// Length of the longest numeral match at `i`: an optional minus sign, then
/// either a point followed by digits, or digits with an optional point and
/// further digits.  Zero when no numeral starts here.
pub open spec fn num_len(s: Seq<char>, i: int) -> int {
    let j = if 0 <= i < s.len() && s[i] == '-' {
        i + 1
    } else {
        i
    };
    if 0 <= j < s.len() && s[j] == '.' {
        let d = digit_run(s, j + 1);
        if d > 0 {
            j + 1 + d - i
        } else {
            0
        }
    } else {
        let d = digit_run(s, j);
        if d > 0 {
            if j + d < s.len() && s[j + d] == '.' {
                j + d + 1 + digit_run(s, j + d + 1) - i
            } else {
                j + d - i
            }
        } else {
            0
        }
    }
}

/// Position just past the closing quote of a quoted identifier whose body
/// starts at `j`: the first quote not preceded by a backslash closes it; when
/// every further quote is escaped, the last escaped quote closes it (the
/// longest-match reading of the quoted-identifier rule).
pub open spec fn quote_scan(s: Seq<char>, j: int) -> Option<int>
    decreases s.len() - j,
{
    if !(0 <= j < s.len()) {
        None
    } else if s[j] == '"' {
        if s[j - 1] != '\\' {
            Some(j + 1)
        } else {
            match quote_scan(s, j + 1) {
                Some(e) => Some(e),
                None => Some(j + 1),
            }
        }
    } else {
        quote_scan(s, j + 1)
    }
}

/// Length of the longest quoted-identifier match at `i`, zero when none.
pub open spec fn quoted_len(s: Seq<char>, i: int) -> int {
    if 0 <= i < s.len() && s[i] == '"' {
        match quote_scan(s, i + 1) {
            Some(e) => e - i,
            None => 0,
        }
    } else {
        0
    }
}

/// Position just past the first newline at or after `j`.
pub open spec fn newline_scan(s: Seq<char>, j: int) -> Option<int>
    decreases s.len() - j,
{
    if !(0 <= j < s.len()) {
        None
    } else if s[j] == '\n' {
        Some(j + 1)
    } else {
        newline_scan(s, j + 1)
    }
}

/// Length of a line comment at `i` (`//` up to and including the newline),
/// zero when none.  A line comment stands for its newline in the stream.
pub open spec fn line_comment_len(s: Seq<char>, i: int) -> int {
    if 0 <= i && i + 1 < s.len() && s[i] == '/' && s[i + 1] == '/' {
        match newline_scan(s, i + 2) {
            Some(e) => e - i,
            None => 0,
        }
    } else {
        0
    }
}

/// Position just past the first `*/` at or after `j`.
pub open spec fn block_close_scan(s: Seq<char>, j: int) -> Option<int>
    decreases s.len() - j,
{
    if !(0 <= j && j + 1 < s.len()) {
        None
    } else if s[j] == '*' && s[j + 1] == '/' {
        Some(j + 2)
    } else {
        block_close_scan(s, j + 1)
    }
}

/// Length of a block comment at `i` (`/*` up to and including the first
/// `*/`), zero when none.  Block comments are skipped silently.
pub open spec fn block_comment_len(s: Seq<char>, i: int) -> int {
    if 0 <= i && i + 1 < s.len() && s[i] == '/' && s[i + 1] == '*' {
        match block_close_scan(s, i + 2) {
            Some(e) => e - i,
            None => 0,
        }
    } else {
        0
    }
}

/// The word `w` occurs in `s` at position `i`.
pub open spec fn match_lit(s: Seq<char>, i: int, w: Seq<char>) -> bool {
    &&& 0 <= i
    &&& i + w.len() <= s.len()
    &&& forall|k: int| 0 <= k < w.len() ==> s[i + k] == w[k]
}

/// The keyword, operator or punctuation token at `i`, with its length.
/// At most one such token can match at a given position, since no two of
/// them start with the same characters.
pub open spec fn token_at(s: Seq<char>, i: int) -> Option<(TokenView, int)> {
    if match_lit(s, i, "subgraph"@) {
        Some((TokenView::Subgraph, 8))
    } else if match_lit(s, i, "digraph"@) {
        Some((TokenView::Digraph, 7))
    } else if match_lit(s, i, "strict"@) {
        Some((TokenView::Strict, 6))
    } else if match_lit(s, i, "graph"@) {
        Some((TokenView::Graph, 5))
    } else if match_lit(s, i, "node"@) {
        Some((TokenView::Node, 4))
    } else if match_lit(s, i, "edge"@) {
        Some((TokenView::Edge, 4))
    } else if match_lit(s, i, "->"@) {
        Some((TokenView::DirectedEdge, 2))
    } else if match_lit(s, i, "--"@) {
        Some((TokenView::UndirectedEdge, 2))
    } else if !(0 <= i < s.len()) {
        None
    } else if s[i] == '{' {
        Some((TokenView::OpenParen, 1))
    } else if s[i] == '}' {
        Some((TokenView::CloseParen, 1))
    } else if s[i] == '[' {
        Some((TokenView::OpenBracket, 1))
    } else if s[i] == ']' {
        Some((TokenView::CloseBracket, 1))
    } else if s[i] == '=' {
        Some((TokenView::Equals, 1))
    } else if s[i] == ',' {
        Some((TokenView::Comma, 1))
    } else if s[i] == ';' {
        Some((TokenView::SemiColon, 1))
    } else if s[i] == ':' {
        Some((TokenView::Colon, 1))
    } else if s[i] == '\n' {
        Some((TokenView::NewLine, 1))
    } else if s[i] == '"' {
        Some((TokenView::Quotation, 1))
    } else {
        None
    }
}

/// Length of the longest identifier match at `i`: the best of the quoted,
/// bare and numeral forms.
pub open spec fn id_len(s: Seq<char>, i: int) -> int {
    let q = quoted_len(s, i);
    let b = bare_run(s, i);
    let n = num_len(s, i);
    if q >= b && q >= n {
        q
    } else if b >= n {
        b
    } else {
        n
    }
}

/// The semantic text of an identifier matched at `i` with length `l`:
/// a quoted form loses its surrounding quotes, the other forms keep their
/// matched text.
pub open spec fn id_value(s: Seq<char>, i: int, l: int) -> Seq<char> {
    if s[i] == '"' {
        s.subrange(i + 1, i + l - 1)
    } else {
        s.subrange(i, i + l)
    }
}

/// One scanning step at position `i`: the classification of the longest
/// match (`None` for a skip category) and the number of characters consumed.
pub open spec fn lex_step(s: Seq<char>, i: int) -> (Option<TokenView>, int) {
    let lid = id_len(s, i);
    let lc = line_comment_len(s, i);
    let lb = block_comment_len(s, i);
    match token_at(s, i) {
        Some((t, lt)) => {
            if lid > lt {
                (Some(TokenView::ID(id_value(s, i, lid))), lid)
            } else {
                (Some(t), lt)
            }
        },
        None => {
            if lid > 0 {
                (Some(TokenView::ID(id_value(s, i, lid))), lid)
            } else if lc > 0 {
                (Some(TokenView::NewLine), lc)
            } else if lb > 0 {
                (None, lb)
            } else if 0 <= i < s.len() && is_space_char(s[i]) {
                (None, 1)
            } else {
                (Some(TokenView::Error), 1)
            }
        },
    }
}

/// The token stream of `s` from position `i` on: each step consumes the
/// longest match and either surfaces a token with its matched slice or skips
/// silently.  (Every step consumes at least one character and stays within
/// the text; the guards only discharge termination.)
pub open spec fn scan_from(s: Seq<char>, i: int) -> Seq<ScanItem>
    decreases s.len() - i,
{
    if !(0 <= i < s.len()) {
        Seq::empty()
    } else {
        let (t, l) = lex_step(s, i);
        if l < 1 || i + l > s.len() {
            Seq::empty()
        } else {
            match t {
                Some(tok) => seq![ScanItem { tok, slice: s.subrange(i, i + l) }] + scan_from(
                    s,
                    i + l,
                ),
                None => scan_from(s, i + l),
            }
        }
    }
}

/// The surfaced token stream of a whole text.
pub open spec fn scan_tokens(s: Seq<char>) -> Seq<TokenView> {
    scan_from(s, 0).map_values(|it: ScanItem| it.tok)
}

// ------------------------------------------------------------------
// Bounds of the matchers.
// ------------------------------------------------------------------

/// A bare run never reaches past the end of the text.
pub proof fn lemma_bare_run_bound(s: Seq<char>, i: int)
    requires
        0 <= i <= s.len(),
    ensures
        0 <= bare_run(s, i) <= s.len() - i,
    decreases s.len() - i,
{
    if i < s.len() && is_bare_char(s[i]) {
        lemma_bare_run_bound(s, i + 1);
    }
}

/// A digit run never reaches past the end of the text.
pub proof fn lemma_digit_run_bound(s: Seq<char>, i: int)
    requires
        0 <= i <= s.len(),
    ensures
        0 <= digit_run(s, i) <= s.len() - i,
    decreases s.len() - i,
{
    if i < s.len() && is_digit(s[i]) {
        lemma_digit_run_bound(s, i + 1);
    }
}

/// A numeral match never reaches past the end of the text.
pub proof fn lemma_num_len_bound(s: Seq<char>, i: int)
    requires
        0 <= i <= s.len(),
    ensures
        0 <= num_len(s, i) <= s.len() - i,
{
    let j = if i < s.len() && s[i] == '-' {
        i + 1
    } else {
        i
    };
    if j < s.len() && s[j] == '.' {
        lemma_digit_run_bound(s, j + 1);
    } else {
        lemma_digit_run_bound(s, j);
        let d = digit_run(s, j);
        if d > 0 && j + d < s.len() && s[j + d] == '.' {
            lemma_digit_run_bound(s, j + d + 1);
        }
    }
}

/// A quote scan lands strictly ahead and inside the text.
pub proof fn lemma_quote_scan_bound(s: Seq<char>, j: int)
    ensures
        match quote_scan(s, j) {
            Some(e) => j < e <= s.len(),
            None => true,
        },
    decreases s.len() - j,
{
    if 0 <= j < s.len() {
        lemma_quote_scan_bound(s, j + 1);
    }
}

/// A quoted-identifier match stays inside the text, and is at least two
/// characters long when present.
pub proof fn lemma_quoted_len_bound(s: Seq<char>, i: int)
    requires
        0 <= i <= s.len(),
    ensures
        0 <= quoted_len(s, i) <= s.len() - i,
        quoted_len(s, i) == 0 || quoted_len(s, i) >= 2,
{
    if i < s.len() && s[i] == '"' {
        lemma_quote_scan_bound(s, i + 1);
    }
}

/// A newline scan lands strictly ahead and inside the text.
pub proof fn lemma_newline_scan_bound(s: Seq<char>, j: int)
    ensures
        match newline_scan(s, j) {
            Some(e) => j < e <= s.len(),
            None => true,
        },
    decreases s.len() - j,
{
    if 0 <= j < s.len() {
        lemma_newline_scan_bound(s, j + 1);
    }
}

/// A line-comment match stays inside the text.
pub proof fn lemma_line_comment_len_bound(s: Seq<char>, i: int)
    requires
        0 <= i <= s.len(),
    ensures
        0 <= line_comment_len(s, i) <= s.len() - i,
{
    if i + 1 < s.len() && s[i] == '/' && s[i + 1] == '/' {
        lemma_newline_scan_bound(s, i + 2);
    }
}

// ------------------------------------------------------------------
// The identifier forms and their round trip.
// ------------------------------------------------------------------

/// The six keywords of the language.
pub open spec fn is_keyword(s: Seq<char>) -> bool {
    s == "subgraph"@ || s == "digraph"@ || s == "strict"@ || s == "graph"@ || s == "node"@ || s
        == "edge"@
}

/// A bare identifier lexeme: a nonempty run of bare characters that is not
/// a keyword.
pub open spec fn is_bare_lexeme(s: Seq<char>) -> bool {
    s.len() > 0 && (forall|k: int| 0 <= k < s.len() ==> is_bare_char(#[trigger] s[k]))
        && !is_keyword(s)
}

/// A quoted identifier lexeme: a complete longest quoted match.
pub open spec fn is_quoted_lexeme(s: Seq<char>) -> bool {
    s.len() >= 2 && quoted_len(s, 0) == s.len()
}

/// A numeral lexeme: a complete numeral match.
pub open spec fn is_numeral_lexeme(s: Seq<char>) -> bool {
    s.len() > 0 && num_len(s, 0) == s.len()
}

/// A valid identifier lexeme in any of its three forms.
pub open spec fn is_identifier_lexeme(s: Seq<char>) -> bool {
    is_bare_lexeme(s) || is_quoted_lexeme(s) || is_numeral_lexeme(s)
}

/// The semantic text of an identifier lexeme: the quoted form loses its
/// surrounding quotes, the others are kept whole.
pub open spec fn unquote(s: Seq<char>) -> Seq<char> {
    if s.len() > 0 && s[0] == '"' {
        s.subrange(1, s.len() - 1)
    } else {
        s
    }
}

/// A full-length run of bare characters scans as a run of that length.
pub proof fn lemma_bare_run_all(s: Seq<char>, i: int)
    requires
        0 <= i <= s.len(),
        forall|k: int| i <= k < s.len() ==> is_bare_char(#[trigger] s[k]),
    ensures
        bare_run(s, i) == s.len() - i,
    decreases s.len() - i,
{
    if i < s.len() {
        lemma_bare_run_all(s, i + 1);
    }
}

/// Every character of a matched word stands in the text.
pub proof fn lemma_match_lit_char(s: Seq<char>, i: int, w: Seq<char>, k: int)
    requires
        match_lit(s, i, w),
        0 <= k < w.len(),
    ensures
        s[i + k] == w[k],
{
    assert(s[i + k] == w[k]);
}

/// A word matched over a text of its own length is that text.
pub proof fn lemma_match_lit_whole(s: Seq<char>, w: Seq<char>)
    requires
        match_lit(s, 0, w),
        s.len() == w.len(),
    ensures
        s == w,
{
    assert forall|k: int| 0 <= k < s.len() implies s[k] == w[k] by {
        lemma_match_lit_char(s, 0, w, k);
    }
    assert(s =~= w);
}

/// Law: tokenizing a valid identifier lexeme yields exactly one token, an
/// identifier carrying the lexeme's semantic text, whose matched slice is
/// the original lexeme itself (quotes are stripped only from the quoted
/// form, and only in the carried text).
pub proof fn lemma_identifier_round_trip(s: Seq<char>)
    requires
        is_identifier_lexeme(s),
    ensures
        scan_from(s, 0) == seq![ScanItem { tok: TokenView::ID(unquote(s)), slice: s }],
{
    reveal_strlit("subgraph");
    reveal_strlit("digraph");
    reveal_strlit("strict");
    reveal_strlit("graph");
    reveal_strlit("node");
    reveal_strlit("edge");
    reveal_strlit("->");
    reveal_strlit("--");
    let n = s.len() as int;
    lemma_bare_run_bound(s, 0);
    lemma_num_len_bound(s, 0);
    lemma_quoted_len_bound(s, 0);
    lemma_line_comment_len_bound(s, 0);
    if is_bare_lexeme(s) {
        lemma_bare_run_all(s, 0);
        assert(is_bare_char(s[0]));
        assert(quoted_len(s, 0) == 0);
        assert(id_len(s, 0) == n);
        match token_at(s, 0) {
            Some((t, lt)) => {
                assert(lt < n) by {
                    if lt == n {
                        if match_lit(s, 0, "subgraph"@) && n == 8 {
                            lemma_match_lit_whole(s, "subgraph"@);
                        }
                        if match_lit(s, 0, "digraph"@) && n == 7 {
                            lemma_match_lit_whole(s, "digraph"@);
                        }
                        if match_lit(s, 0, "strict"@) && n == 6 {
                            lemma_match_lit_whole(s, "strict"@);
                        }
                        if match_lit(s, 0, "graph"@) && n == 5 {
                            lemma_match_lit_whole(s, "graph"@);
                        }
                        if match_lit(s, 0, "node"@) && n == 4 {
                            lemma_match_lit_whole(s, "node"@);
                        }
                        if match_lit(s, 0, "edge"@) && n == 4 {
                            lemma_match_lit_whole(s, "edge"@);
                        }
                        if match_lit(s, 0, "->"@) {
                            lemma_match_lit_char(s, 0, "->"@, 0);
                        }
                        if match_lit(s, 0, "--"@) {
                            lemma_match_lit_char(s, 0, "--"@, 0);
                        }
                    }
                }
            },
            None => {},
        }
        assert(lex_step(s, 0) == (Some(TokenView::ID(id_value(s, 0, n))), n));
    } else if is_quoted_lexeme(s) {
        assert(s[0] == '"');
        assert(id_len(s, 0) == n);
        if match_lit(s, 0, "subgraph"@) {
            lemma_match_lit_char(s, 0, "subgraph"@, 0);
        }
        if match_lit(s, 0, "digraph"@) {
            lemma_match_lit_char(s, 0, "digraph"@, 0);
        }
        if match_lit(s, 0, "strict"@) {
            lemma_match_lit_char(s, 0, "strict"@, 0);
        }
        if match_lit(s, 0, "graph"@) {
            lemma_match_lit_char(s, 0, "graph"@, 0);
        }
        if match_lit(s, 0, "node"@) {
            lemma_match_lit_char(s, 0, "node"@, 0);
        }
        if match_lit(s, 0, "edge"@) {
            lemma_match_lit_char(s, 0, "edge"@, 0);
        }
        if match_lit(s, 0, "->"@) {
            lemma_match_lit_char(s, 0, "->"@, 0);
        }
        if match_lit(s, 0, "--"@) {
            lemma_match_lit_char(s, 0, "--"@, 0);
        }
        assert(token_at(s, 0) == Some((TokenView::Quotation, 1int)));
        assert(n >= 2);
        assert(lex_step(s, 0) == (Some(TokenView::ID(id_value(s, 0, n))), n));
    } else {
        assert(is_numeral_lexeme(s));
        assert(s[0] == '-' || s[0] == '.' || is_digit(s[0]));
        if s[0] == '-' {
            assert(n >= 2 && (s[1] == '.' || is_digit(s[1]))) by {
                if !(1 < s.len() && s[1] == '.') {
                    assert(digit_run(s, 1) > 0);
                }
            }
        }
        assert(quoted_len(s, 0) == 0);
        assert(id_len(s, 0) == n);
        if match_lit(s, 0, "subgraph"@) {
            lemma_match_lit_char(s, 0, "subgraph"@, 0);
        }
        if match_lit(s, 0, "digraph"@) {
            lemma_match_lit_char(s, 0, "digraph"@, 0);
        }
        if match_lit(s, 0, "strict"@) {
            lemma_match_lit_char(s, 0, "strict"@, 0);
        }
        if match_lit(s, 0, "graph"@) {
            lemma_match_lit_char(s, 0, "graph"@, 0);
        }
        if match_lit(s, 0, "node"@) {
            lemma_match_lit_char(s, 0, "node"@, 0);
        }
        if match_lit(s, 0, "edge"@) {
            lemma_match_lit_char(s, 0, "edge"@, 0);
        }
        if match_lit(s, 0, "->"@) {
            lemma_match_lit_char(s, 0, "->"@, 0);
            lemma_match_lit_char(s, 0, "->"@, 1);
        }
        if match_lit(s, 0, "--"@) {
            lemma_match_lit_char(s, 0, "--"@, 0);
            lemma_match_lit_char(s, 0, "--"@, 1);
        }
        assert(token_at(s, 0) is None);
        assert(lex_step(s, 0) == (Some(TokenView::ID(id_value(s, 0, n))), n));
    }
    assert(id_value(s, 0, n) =~= unquote(s));
    assert(s.subrange(0, n) =~= s);
    assert(scan_from(s, n) =~= Seq::<ScanItem>::empty());
    assert(scan_from(s, 0) =~= seq![ScanItem { tok: TokenView::ID(unquote(s)), slice: s }]);
}

} // verus!
