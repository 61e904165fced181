//! Laws of the scanner.
//!
//! They all rest on one fact, carried by the restriction lemmas: every
//! matcher reads only the characters up to the end of its own match.  From
//! it follow the laws at the end of the file: the exact slice of any
//! surfaced token re-tokenizes to that very token; spaces, tabs, form
//! feeds and block comments contribute nothing to the token stream, and a
//! line comment stands for its newline; inserting such invisible filler
//! between two tokens changes neither the token stream nor the parse; and
//! the parse depends on the token stream alone.

use crate::scan::{
    bare_run, block_comment_len, digit_run, id_len, id_value, is_bare_char, is_space_char,
    lemma_line_comment_len_bound, lemma_match_lit_char, lemma_num_len_bound,
    lemma_quote_scan_bound, lemma_quoted_len_bound, lex_step, line_comment_len, match_lit,
    newline_scan, num_len, quote_scan, quoted_len, scan_from, token_at, ScanItem,
};
use crate::token::TokenView;
use vstd::prelude::*;

verus! {

broadcast use vstd::seq::group_seq_axioms;

/// The bare-run matcher on a slice: the run, cut off at the slice's end.
proof fn lemma_bare_sub(s: Seq<char>, i: int, l: int, m: int)
    requires
        0 <= i,
        i + l <= s.len(),
        0 <= m <= l,
    ensures
        bare_run(s.subrange(i, i + l), m) == if bare_run(s, i + m) <= l - m {
            bare_run(s, i + m)
        } else {
            l - m
        },
    decreases l - m,
{
    let sub = s.subrange(i, i + l);
    crate::scan::lemma_bare_run_bound(s, i + m);
    if m < l {
        assert(sub[m] == s[i + m]);
        if is_bare_char(s[i + m]) {
            lemma_bare_sub(s, i, l, m + 1);
        }
    }
}

/// The digit-run matcher on a slice: the run, cut off at the slice's end.
proof fn lemma_digit_sub(s: Seq<char>, i: int, l: int, m: int)
    requires
        0 <= i,
        i + l <= s.len(),
        0 <= m <= l,
    ensures
        digit_run(s.subrange(i, i + l), m) == if digit_run(s, i + m) <= l - m {
            digit_run(s, i + m)
        } else {
            l - m
        },
    decreases l - m,
{
    let sub = s.subrange(i, i + l);
    crate::scan::lemma_digit_run_bound(s, i + m);
    if m < l {
        assert(sub[m] == s[i + m]);
        if crate::scan::is_digit(s[i + m]) {
            lemma_digit_sub(s, i, l, m + 1);
        }
    }
}

/// The numeral matcher agrees on a slice that holds its whole match.
#[verifier::rlimit(60)]
proof fn lemma_num_sub(s: Seq<char>, i: int, l: int)
    requires
        0 <= i,
        i + l <= s.len(),
        0 < l,
        num_len(s, i) <= l,
    ensures
        num_len(s.subrange(i, i + l), 0) == num_len(s, i),
{
    let sub = s.subrange(i, i + l);
    assert(sub.len() == l);
    assert(sub[0] == s[i]);
    lemma_num_len_bound(s, i);
    let j = if s[i] == '-' {
        i + 1
    } else {
        i
    };
    let jm = j - i;
    assert(j <= s.len());
    assert(jm <= l);
    if jm < l {
        assert(sub[jm] == s[j]);
    }
    if j < s.len() && s[j] == '.' {
        crate::scan::lemma_digit_run_bound(s, j + 1);
        let d = digit_run(s, j + 1);
        if d > 0 {
            assert(num_len(s, i) == jm + 1 + d);
            assert(jm + 1 + d <= l);
            lemma_digit_sub(s, i, l, jm + 1);
            assert(digit_run(sub, jm + 1) == d);
            assert(num_len(sub, 0) == jm + 1 + d);
        } else {
            assert(num_len(s, i) == 0);
            if jm < l {
                lemma_digit_sub(s, i, l, jm + 1);
                assert(digit_run(sub, jm + 1) == 0);
                assert(num_len(sub, 0) == 0);
            } else {
                lemma_digit_sub(s, i, l, jm);
                assert(num_len(sub, 0) == 0);
            }
        }
    } else {
        crate::scan::lemma_digit_run_bound(s, j);
        let d = digit_run(s, j);
        lemma_digit_sub(s, i, l, jm);
        if d > 0 {
            if j + d < s.len() && s[j + d] == '.' {
                crate::scan::lemma_digit_run_bound(s, j + d + 1);
                let d2 = digit_run(s, j + d + 1);
                assert(num_len(s, i) == jm + d + 1 + d2);
                assert(jm + d + 1 + d2 <= l);
                assert(digit_run(sub, jm) == d);
                assert(sub[jm + d] == s[j + d]);
                lemma_digit_sub(s, i, l, jm + d + 1);
                assert(digit_run(sub, jm + d + 1) == d2);
                assert(num_len(sub, 0) == jm + d + 1 + d2);
            } else {
                assert(num_len(s, i) == jm + d);
                assert(jm + d <= l);
                assert(digit_run(sub, jm) == d);
                if jm + d < l {
                    assert(sub[jm + d] == s[j + d]);
                }
                assert(num_len(sub, 0) == jm + d);
            }
        } else {
            assert(num_len(s, i) == 0);
            assert(digit_run(sub, jm) == 0);
            assert(num_len(sub, 0) == 0);
        }
    }
}

/// A quote scan that closes inside the slice closes there on the slice
/// too.
proof fn lemma_qscan_sub(s: Seq<char>, i: int, l: int, j: int, e: int)
    requires
        0 <= i,
        i + l <= s.len(),
        i + 1 <= j,
        quote_scan(s, j) == Some(e),
        e <= i + l,
    ensures
        quote_scan(s.subrange(i, i + l), j - i) == Some(e - i),
    decreases e - j,
{
    let sub = s.subrange(i, i + l);
    lemma_quote_scan_bound(s, j);
    assert(j < e);
    assert(j < s.len());
    assert(sub[j - i] == s[j]);
    assert(sub[j - i - 1] == s[j - 1]);
    if s[j] == '"' {
        if s[j - 1] != '\\' {
            assert(e == j + 1);
        } else {
            match quote_scan(s, j + 1) {
                Some(e2) => {
                    assert(e2 == e);
                    lemma_quote_scan_bound(s, j + 1);
                    lemma_qscan_sub(s, i, l, j + 1, e);
                },
                None => {
                    assert(e == j + 1);
                    assert(e - i - 1 == j - i);
                    assert(quote_scan(sub, j - i + 1) is None) by {
                        lemma_qscan_none(s, i, l, j + 1);
                    }
                },
            }
        }
    } else {
        lemma_quote_scan_bound(s, j + 1);
        lemma_qscan_sub(s, i, l, j + 1, e);
    }
}

/// Where a quote scan finds no close at all, it finds none on the slice
/// either.
proof fn lemma_qscan_none(s: Seq<char>, i: int, l: int, j: int)
    requires
        0 <= i,
        i + l <= s.len(),
        0 <= l,
        i + 1 <= j,
        quote_scan(s, j) is None,
    ensures
        quote_scan(s.subrange(i, i + l), j - i) is None,
    decreases s.len() - j + 1,
{
    let sub = s.subrange(i, i + l);
    if j - i < l {
        assert(sub[j - i] == s[j]);
        assert(j < s.len());
        assert(s[j] != '"');
        lemma_qscan_none(s, i, l, j + 1);
    }
}

/// The quoted matcher agrees on a slice that holds its whole match.
proof fn lemma_quoted_sub(s: Seq<char>, i: int, l: int)
    requires
        0 <= i,
        i + l <= s.len(),
        0 < l,
        quoted_len(s, i) <= l,
    ensures
        quoted_len(s.subrange(i, i + l), 0) == quoted_len(s, i),
{
    let sub = s.subrange(i, i + l);
    assert(sub[0] == s[i]);
    if s[i] == '"' {
        match quote_scan(s, i + 1) {
            Some(e) => {
                lemma_qscan_sub(s, i, l, i + 1, e);
            },
            None => {
                if 1 < l {
                    lemma_qscan_none(s, i, l, i + 1);
                }
            },
        }
    }
}

/// A newline scan that lands inside the slice lands there on the slice
/// too.
proof fn lemma_nlscan_sub(s: Seq<char>, i: int, l: int, j: int, e: int)
    requires
        0 <= i <= j,
        i + l <= s.len(),
        newline_scan(s, j) == Some(e),
        e <= i + l,
    ensures
        newline_scan(s.subrange(i, i + l), j - i) == Some(e - i),
    decreases e - j,
{
    let sub = s.subrange(i, i + l);
    crate::scan::lemma_newline_scan_bound(s, j);
    assert(sub[j - i] == s[j]);
    if s[j] != '\n' {
        crate::scan::lemma_newline_scan_bound(s, j + 1);
        lemma_nlscan_sub(s, i, l, j + 1, e);
    }
}

/// Where a newline scan finds nothing at all, it finds nothing on the
/// slice either.
proof fn lemma_nlscan_none(s: Seq<char>, i: int, l: int, j: int)
    requires
        0 <= i <= j,
        0 <= l,
        i + l <= s.len(),
        newline_scan(s, j) is None,
    ensures
        newline_scan(s.subrange(i, i + l), j - i) is None,
    decreases s.len() - j + 1,
{
    let sub = s.subrange(i, i + l);
    if j - i < l {
        assert(sub[j - i] == s[j]);
        assert(j < s.len());
        assert(s[j] != '\n');
        lemma_nlscan_none(s, i, l, j + 1);
    }
}

/// The line-comment matcher agrees on any slice that holds its whole
/// match, including an empty match.
proof fn lemma_line_comment_sub(s: Seq<char>, i: int, l: int)
    requires
        0 <= i,
        0 < l,
        i + l <= s.len(),
        line_comment_len(s, i) <= l,
    ensures
        line_comment_len(s.subrange(i, i + l), 0) == line_comment_len(s, i),
{
    let sub = s.subrange(i, i + l);
    assert(sub[0] == s[i]);
    if 1 < l {
        assert(sub[1] == s[i + 1]);
    }
    if i + 1 < s.len() && s[i] == '/' && s[i + 1] == '/' {
        crate::scan::lemma_newline_scan_bound(s, i + 2);
        match newline_scan(s, i + 2) {
            Some(e) => {
                // The match is bounded by the premise, so the close is
                // inside the slice.
                assert(e <= i + l);
                lemma_nlscan_sub(s, i, l, i + 2, e);
            },
            None => {
                if 1 < l {
                    lemma_nlscan_none(s, i, l, i + 2);
                }
            },
        }
    }
}

/// Where the close of a block comment is never found, it is not found on
/// the slice either.
proof fn lemma_bscan_none(s: Seq<char>, i: int, l: int, j: int)
    requires
        0 <= i <= j,
        0 <= l,
        i + l <= s.len(),
        crate::scan::block_close_scan(s, j) is None,
    ensures
        crate::scan::block_close_scan(s.subrange(i, i + l), j - i) is None,
    decreases s.len() - j + 1,
{
    let sub = s.subrange(i, i + l);
    if j - i + 1 < l {
        assert(sub[j - i] == s[j]);
        assert(sub[j - i + 1] == s[j + 1]);
        assert(j + 1 < s.len());
        lemma_bscan_none(s, i, l, j + 1);
    }
}

/// A block-comment close inside the slice is found there on the slice
/// too.
proof fn lemma_bscan_sub(s: Seq<char>, i: int, l: int, j: int, e: int)
    requires
        0 <= i <= j,
        i + l <= s.len(),
        crate::scan::block_close_scan(s, j) == Some(e),
        e <= i + l,
    ensures
        crate::scan::block_close_scan(s.subrange(i, i + l), j - i) == Some(e - i),
    decreases e - j,
{
    let sub = s.subrange(i, i + l);
    lemma_block_close_scan_bound(s, j);
    assert(j + 1 < s.len());
    if s[j] == '*' && s[j + 1] == '/' {
        assert(e == j + 2);
        assert(sub[j - i] == s[j]);
        assert(sub[j - i + 1] == s[j + 1]);
    } else {
        assert(crate::scan::block_close_scan(s, j + 1) == Some(e));
        lemma_block_close_scan_bound(s, j + 1);
        assert(e >= j + 2);
        assert(sub[j - i] == s[j]);
        assert(sub[j - i + 1] == s[j + 1]);
        lemma_bscan_sub(s, i, l, j + 1, e);
    }
}

/// The block-comment matcher agrees on any slice that holds its whole
/// match, including an empty match.
proof fn lemma_block_comment_sub(s: Seq<char>, i: int, l: int)
    requires
        0 <= i,
        0 < l,
        i + l <= s.len(),
        block_comment_len(s, i) <= l,
    ensures
        block_comment_len(s.subrange(i, i + l), 0) == block_comment_len(s, i),
{
    let sub = s.subrange(i, i + l);
    assert(sub[0] == s[i]);
    if 1 < l {
        assert(sub[1] == s[i + 1]);
    }
    if i + 1 < s.len() && s[i] == '/' && s[i + 1] == '*' {
        match crate::scan::block_close_scan(s, i + 2) {
            Some(e) => {
                lemma_block_close_scan_bound(s, i + 2);
                // The match is bounded by the premise, so the close is
                // inside the slice.
                assert(e <= i + l);
                lemma_bscan_sub(s, i, l, i + 2, e);
            },
            None => {
                if 1 < l {
                    lemma_bscan_none(s, i, l, i + 2);
                }
            },
        }
    }
}

/// A word matches on the slice exactly when it matches on the text and
/// fits inside the slice.
proof fn lemma_match_lit_sub(s: Seq<char>, i: int, l: int, w: Seq<char>)
    requires
        0 <= i,
        0 <= l,
        i + l <= s.len(),
    ensures
        match_lit(s.subrange(i, i + l), 0, w) == (w.len() <= l && match_lit(s, i, w)),
{
    let sub = s.subrange(i, i + l);
    if w.len() <= l && match_lit(s, i, w) {
        assert forall|k: int| 0 <= k < w.len() implies sub[0 + k] == w[k] by {
            lemma_match_lit_char(s, i, w, k);
            assert(sub[k] == s[i + k]);
        }
        assert(match_lit(sub, 0, w));
    }
    if match_lit(sub, 0, w) {
        assert forall|k: int| 0 <= k < w.len() implies s[i + k] == w[k] by {
            lemma_match_lit_char(sub, 0, w, k);
            assert(sub[k] == s[i + k]);
        }
        assert(match_lit(s, i, w));
    }
}

/// The token matcher agrees on a slice that holds its whole match, and
/// stays empty on any slice where it found nothing.
proof fn lemma_token_at_sub(s: Seq<char>, i: int, l: int)
    requires
        0 <= i < s.len(),
        0 < l,
        i + l <= s.len(),
        match token_at(s, i) {
            Some((t, lt)) => lt <= l,
            None => true,
        },
    ensures
        token_at(s.subrange(i, i + l), 0) == token_at(s, i),
{
    let sub = s.subrange(i, i + l);
    assert(sub[0] == s[i]);
    lemma_match_lit_sub(s, i, l, "subgraph"@);
    lemma_match_lit_sub(s, i, l, "digraph"@);
    lemma_match_lit_sub(s, i, l, "strict"@);
    lemma_match_lit_sub(s, i, l, "graph"@);
    lemma_match_lit_sub(s, i, l, "node"@);
    lemma_match_lit_sub(s, i, l, "edge"@);
    lemma_match_lit_sub(s, i, l, "->"@);
    lemma_match_lit_sub(s, i, l, "--"@);
    reveal_strlit("subgraph");
    reveal_strlit("digraph");
    reveal_strlit("strict");
    reveal_strlit("graph");
    reveal_strlit("node");
    reveal_strlit("edge");
    reveal_strlit("->");
    reveal_strlit("--");
}

/// The close of a block comment lands strictly ahead and inside the text.
proof fn lemma_block_close_scan_bound(s: Seq<char>, j: int)
    ensures
        match crate::scan::block_close_scan(s, j) {
            Some(e) => j < e <= s.len(),
            None => true,
        },
    decreases s.len() - j + 1,
{
    if 0 <= j && j + 1 < s.len() {
        lemma_block_close_scan_bound(s, j + 1);
    }
}

/// A block-comment match stays inside the text.
proof fn lemma_block_comment_len_bound(s: Seq<char>, i: int)
    requires
        0 <= i <= s.len(),
    ensures
        0 <= block_comment_len(s, i) <= s.len() - i,
{
    if i + 1 < s.len() && s[i] == '/' && s[i + 1] == '*' {
        lemma_block_close_scan_bound(s, i + 2);
    }
}

/// Every scanning step consumes at least one character and stays inside
/// the text.
proof fn lemma_lex_step_bounds(s: Seq<char>, i: int)
    requires
        0 <= i < s.len(),
    ensures
        1 <= lex_step(s, i).1,
        i + lex_step(s, i).1 <= s.len(),
{
    reveal_strlit("subgraph");
    reveal_strlit("digraph");
    reveal_strlit("strict");
    reveal_strlit("graph");
    reveal_strlit("node");
    reveal_strlit("edge");
    reveal_strlit("->");
    reveal_strlit("--");
    crate::scan::lemma_bare_run_bound(s, i);
    lemma_num_len_bound(s, i);
    lemma_quoted_len_bound(s, i);
    lemma_line_comment_len_bound(s, i);
    lemma_block_comment_len_bound(s, i);
}

/// One scanning step reads only the characters up to its match's end:
/// taken on any window of the text that starts at the step's position and
/// holds its whole match, it is the same step.
proof fn lemma_step_window(s: Seq<char>, i: int, w: int)
    requires
        0 <= i < s.len(),
        i + w <= s.len(),
        lex_step(s, i).1 <= w,
    ensures
        lex_step(s.subrange(i, i + w), 0) == lex_step(s, i),
{
    reveal_strlit("subgraph");
    reveal_strlit("digraph");
    reveal_strlit("strict");
    reveal_strlit("graph");
    reveal_strlit("node");
    reveal_strlit("edge");
    reveal_strlit("->");
    reveal_strlit("--");
    lemma_lex_step_bounds(s, i);
    crate::scan::lemma_bare_run_bound(s, i);
    lemma_num_len_bound(s, i);
    lemma_quoted_len_bound(s, i);
    lemma_line_comment_len_bound(s, i);
    lemma_block_comment_len_bound(s, i);
    let (t, l) = lex_step(s, i);
    let sub = s.subrange(i, i + w);
    assert(sub.len() == w);
    assert(sub[0] == s[i]);
    let lid = id_len(s, i);
    match token_at(s, i) {
        Some((tk, lt)) => {
            // The token's first character rules the comment matchers out.
            if match_lit(s, i, "subgraph"@) {
                lemma_match_lit_char(s, i, "subgraph"@, 0);
            }
            if match_lit(s, i, "digraph"@) {
                lemma_match_lit_char(s, i, "digraph"@, 0);
            }
            if match_lit(s, i, "strict"@) {
                lemma_match_lit_char(s, i, "strict"@, 0);
            }
            if match_lit(s, i, "graph"@) {
                lemma_match_lit_char(s, i, "graph"@, 0);
            }
            if match_lit(s, i, "node"@) {
                lemma_match_lit_char(s, i, "node"@, 0);
            }
            if match_lit(s, i, "edge"@) {
                lemma_match_lit_char(s, i, "edge"@, 0);
            }
            if match_lit(s, i, "->"@) {
                lemma_match_lit_char(s, i, "->"@, 0);
            }
            if match_lit(s, i, "--"@) {
                lemma_match_lit_char(s, i, "--"@, 0);
            }
            assert(s[i] != '/');
            lemma_token_at_sub(s, i, w);
            lemma_bare_sub(s, i, w, 0);
            lemma_num_sub(s, i, w);
            lemma_quoted_sub(s, i, w);
            assert(id_len(sub, 0) == lid);
            if lid > lt {
                assert(l == lid);
                assert(id_value(sub, 0, lid) =~= id_value(s, i, lid));
                assert(lex_step(sub, 0) == (t, l));
            } else {
                assert(l == lt);
                assert(line_comment_len(sub, 0) == 0);
                assert(lex_step(sub, 0) == (t, l));
            }
        },
        None => {
            lemma_token_at_sub(s, i, w);
            let lc = line_comment_len(s, i);
            let lb = block_comment_len(s, i);
            if lid > 0 {
                assert(l == lid);
                lemma_bare_sub(s, i, w, 0);
                lemma_num_sub(s, i, w);
                lemma_quoted_sub(s, i, w);
                assert(id_len(sub, 0) == lid);
                assert(id_value(sub, 0, lid) =~= id_value(s, i, lid));
                assert(lex_step(sub, 0) == (t, l));
            } else if lc > 0 {
                assert(l == lc);
                assert(s[i] == '/');
                lemma_line_comment_sub(s, i, w);
                lemma_bare_sub(s, i, w, 0);
                lemma_num_sub(s, i, w);
                assert(quoted_len(sub, 0) == 0);
                assert(id_len(sub, 0) == 0);
                assert(lex_step(sub, 0) == (t, l));
            } else if lb > 0 {
                assert(l == lb);
                assert(s[i] == '/' && s[i + 1] == '*');
                lemma_block_comment_sub(s, i, w);
                lemma_bare_sub(s, i, w, 0);
                lemma_num_sub(s, i, w);
                assert(quoted_len(sub, 0) == 0);
                assert(id_len(sub, 0) == 0);
                assert(line_comment_len(sub, 0) == 0);
                assert(lex_step(sub, 0) == (t, l));
            } else if is_space_char(s[i]) {
                assert(l == 1);
                lemma_bare_sub(s, i, w, 0);
                lemma_num_sub(s, i, w);
                assert(quoted_len(sub, 0) == 0);
                assert(id_len(sub, 0) == 0);
                assert(line_comment_len(sub, 0) == 0);
                assert(block_comment_len(sub, 0) == 0);
                assert(lex_step(sub, 0) == (t, l));
            } else {
                assert(l == 1);
                assert(s[i] != '"');
                lemma_bare_sub(s, i, w, 0);
                lemma_num_sub(s, i, w);
                lemma_line_comment_sub(s, i, w);
                lemma_block_comment_sub(s, i, w);
                assert(quoted_len(sub, 0) == 0);
                assert(id_len(sub, 0) == 0);
                assert(!is_space_char(sub[0]));
                assert(lex_step(sub, 0) == (t, l));
            }
        },
    }
}

/// One scanning step reads only the characters of its own match: taken on
/// the matched slice, it is the same step.
proof fn lemma_step_restriction(s: Seq<char>, i: int)
    requires
        0 <= i < s.len(),
        lex_step(s, i).0 is Some,
    ensures
        ({
            let (t, l) = lex_step(s, i);
            lex_step(s.subrange(i, i + l), 0) == (t, l)
        }),
{
    lemma_lex_step_bounds(s, i);
    lemma_step_window(s, i, lex_step(s, i).1);
}

/// A scanned item re-tokenizes to itself: scanning its matched slice
/// yields exactly that item, whose slice is the whole text scanned.
pub open spec fn retokenizes(it: ScanItem) -> bool {
    scan_from(it.slice, 0) == seq![it]
}

/// Every item of a scan re-tokenizes to itself.
proof fn lemma_scan_retokenizes(s: Seq<char>, i: int)
    requires
        0 <= i <= s.len(),
    ensures
        forall|k: int|
            0 <= k < scan_from(s, i).len() ==> retokenizes(#[trigger] scan_from(s, i)[k]),
    decreases s.len() - i,
{
    if i < s.len() {
        lemma_lex_step_bounds(s, i);
        let (t, l) = lex_step(s, i);
        lemma_scan_retokenizes(s, i + l);
        match t {
            Some(tok) => {
                lemma_step_restriction(s, i);
                let sub = s.subrange(i, i + l);
                let item = ScanItem { tok, slice: sub };
                assert(scan_from(sub, l) =~= Seq::<ScanItem>::empty());
                assert(sub.subrange(0, l) =~= sub);
                assert(scan_from(sub, 0) =~= seq![item]);
                assert(retokenizes(item));
                assert(scan_from(s, i) == seq![item] + scan_from(s, i + l));
                assert forall|k: int| 0 <= k < scan_from(s, i).len() implies retokenizes(
                    #[trigger] scan_from(s, i)[k],
                ) by {
                    if k > 0 {
                        assert(scan_from(s, i)[k] == scan_from(s, i + l)[k - 1]);
                    }
                }
            },
            None => {
                assert(scan_from(s, i) == scan_from(s, i + l));
            },
        }
    }
}

/// Law: re-tokenizing the exact slice of any surfaced token reproduces
/// that very token — same classification, same identifier text — and
/// nothing else.
pub proof fn lemma_slice_round_trip(s: Seq<char>, k: int)
    requires
        0 <= k < scan_from(s, 0).len(),
    ensures
        scan_from(scan_from(s, 0)[k].slice, 0) == seq![scan_from(s, 0)[k]],
{
    lemma_scan_retokenizes(s, 0);
}

/// Law: a space, tab or form feed contributes nothing to the token
/// stream: scanning continues just past it as if it were not there.
pub proof fn lemma_space_skips(s: Seq<char>, i: int)
    requires
        0 <= i < s.len(),
        is_space_char(s[i]),
    ensures
        scan_from(s, i) == scan_from(s, i + 1),
{
    reveal_strlit("subgraph");
    reveal_strlit("digraph");
    reveal_strlit("strict");
    reveal_strlit("graph");
    reveal_strlit("node");
    reveal_strlit("edge");
    reveal_strlit("->");
    reveal_strlit("--");
    if match_lit(s, i, "subgraph"@) {
        lemma_match_lit_char(s, i, "subgraph"@, 0);
    }
    if match_lit(s, i, "digraph"@) {
        lemma_match_lit_char(s, i, "digraph"@, 0);
    }
    if match_lit(s, i, "strict"@) {
        lemma_match_lit_char(s, i, "strict"@, 0);
    }
    if match_lit(s, i, "graph"@) {
        lemma_match_lit_char(s, i, "graph"@, 0);
    }
    if match_lit(s, i, "node"@) {
        lemma_match_lit_char(s, i, "node"@, 0);
    }
    if match_lit(s, i, "edge"@) {
        lemma_match_lit_char(s, i, "edge"@, 0);
    }
    if match_lit(s, i, "->"@) {
        lemma_match_lit_char(s, i, "->"@, 0);
    }
    if match_lit(s, i, "--"@) {
        lemma_match_lit_char(s, i, "--"@, 0);
    }
    assert(token_at(s, i) is None);
    assert(lex_step(s, i) == (None::<TokenView>, 1int));
}

/// Law: a block comment contributes nothing to the token stream: scanning
/// continues just past it as if it were not there.
pub proof fn lemma_block_comment_skips(s: Seq<char>, i: int)
    requires
        0 <= i <= s.len(),
        block_comment_len(s, i) > 0,
    ensures
        scan_from(s, i) == scan_from(s, i + block_comment_len(s, i)),
{
    reveal_strlit("subgraph");
    reveal_strlit("digraph");
    reveal_strlit("strict");
    reveal_strlit("graph");
    reveal_strlit("node");
    reveal_strlit("edge");
    reveal_strlit("->");
    reveal_strlit("--");
    let l = block_comment_len(s, i);
    lemma_block_comment_len_bound(s, i);
    assert(s[i] == '/' && s[i + 1] == '*');
    if match_lit(s, i, "subgraph"@) {
        lemma_match_lit_char(s, i, "subgraph"@, 0);
    }
    if match_lit(s, i, "digraph"@) {
        lemma_match_lit_char(s, i, "digraph"@, 0);
    }
    if match_lit(s, i, "strict"@) {
        lemma_match_lit_char(s, i, "strict"@, 0);
    }
    if match_lit(s, i, "graph"@) {
        lemma_match_lit_char(s, i, "graph"@, 0);
    }
    if match_lit(s, i, "node"@) {
        lemma_match_lit_char(s, i, "node"@, 0);
    }
    if match_lit(s, i, "edge"@) {
        lemma_match_lit_char(s, i, "edge"@, 0);
    }
    if match_lit(s, i, "->"@) {
        lemma_match_lit_char(s, i, "->"@, 0);
    }
    if match_lit(s, i, "--"@) {
        lemma_match_lit_char(s, i, "--"@, 0);
    }
    assert(token_at(s, i) is None);
    assert(lex_step(s, i) == (None::<TokenView>, l));
}

/// Law: a line comment stands for exactly its terminating newline in the
/// token stream.
pub proof fn lemma_line_comment_is_newline(s: Seq<char>, i: int)
    requires
        0 <= i <= s.len(),
        line_comment_len(s, i) > 0,
    ensures
        scan_from(s, i) == seq![
            ScanItem {
                tok: TokenView::NewLine,
                slice: s.subrange(i, i + line_comment_len(s, i)),
            },
        ] + scan_from(s, i + line_comment_len(s, i)),
{
    reveal_strlit("subgraph");
    reveal_strlit("digraph");
    reveal_strlit("strict");
    reveal_strlit("graph");
    reveal_strlit("node");
    reveal_strlit("edge");
    reveal_strlit("->");
    reveal_strlit("--");
    let l = line_comment_len(s, i);
    lemma_line_comment_len_bound(s, i);
    assert(s[i] == '/' && s[i + 1] == '/');
    if match_lit(s, i, "subgraph"@) {
        lemma_match_lit_char(s, i, "subgraph"@, 0);
    }
    if match_lit(s, i, "digraph"@) {
        lemma_match_lit_char(s, i, "digraph"@, 0);
    }
    if match_lit(s, i, "strict"@) {
        lemma_match_lit_char(s, i, "strict"@, 0);
    }
    if match_lit(s, i, "graph"@) {
        lemma_match_lit_char(s, i, "graph"@, 0);
    }
    if match_lit(s, i, "node"@) {
        lemma_match_lit_char(s, i, "node"@, 0);
    }
    if match_lit(s, i, "edge"@) {
        lemma_match_lit_char(s, i, "edge"@, 0);
    }
    if match_lit(s, i, "->"@) {
        lemma_match_lit_char(s, i, "->"@, 0);
    }
    if match_lit(s, i, "--"@) {
        lemma_match_lit_char(s, i, "--"@, 0);
    }
    assert(token_at(s, i) is None);
    assert(lex_step(s, i) == (Some(TokenView::NewLine), l));
}

/// Two texts with the same tail scan identically from where the tails
/// begin: no matcher looks back before its own position.
proof fn lemma_scan_suffix_agree(s1: Seq<char>, s2: Seq<char>, q1: int, q2: int)
    requires
        0 <= q1 <= s1.len(),
        0 <= q2 <= s2.len(),
        s1.subrange(q1, s1.len() as int) == s2.subrange(q2, s2.len() as int),
    ensures
        scan_from(s1, q1) == scan_from(s2, q2),
    decreases s1.len() - q1,
{
    let n1 = s1.len() as int;
    let n2 = s2.len() as int;
    assert(n1 - q1 == n2 - q2) by {
        assert(s1.subrange(q1, n1).len() == s2.subrange(q2, n2).len());
    }
    if q1 < n1 {
        lemma_lex_step_bounds(s1, q1);
        lemma_lex_step_bounds(s2, q2);
        lemma_step_window(s1, q1, n1 - q1);
        lemma_step_window(s2, q2, n2 - q2);
        assert(s1.subrange(q1, q1 + (n1 - q1)) == s2.subrange(q2, q2 + (n2 - q2)));
        let (t, l) = lex_step(s1, q1);
        assert(lex_step(s2, q2) == (t, l));
        assert(s1.subrange(q1 + l, n1) =~= s2.subrange(q2 + l, n2)) by {
            assert forall|k: int| 0 <= k < n1 - q1 - l implies #[trigger] s1.subrange(q1 + l, n1)[k]
                == s2.subrange(q2 + l, n2)[k] by {
                assert(s1[q1 + l + k] == s1.subrange(q1, n1)[l + k]);
                assert(s2[q2 + l + k] == s2.subrange(q2, n2)[l + k]);
            }
        }
        lemma_scan_suffix_agree(s1, s2, q1 + l, q2 + l);
        match t {
            Some(tok) => {
                assert(s1.subrange(q1, q1 + l) =~= s2.subrange(q2, q2 + l)) by {
                    assert forall|k: int| 0 <= k < l implies #[trigger] s1.subrange(q1, q1 + l)[k]
                        == s2.subrange(q2, q2 + l)[k] by {
                        assert(s1[q1 + k] == s1.subrange(q1, n1)[k]);
                        assert(s2[q2 + k] == s2.subrange(q2, n2)[k]);
                    }
                }
            },
            None => {},
        }
    }
}

/// The scan of `s` from `i` visits position `p`: token matches never
/// straddle it.
pub open spec fn reaches(s: Seq<char>, i: int, p: int) -> bool
    decreases s.len() - i,
{
    ||| i == p
    ||| {
        &&& 0 <= i < s.len()
        &&& i < p
        &&& ({
            let (t, l) = lex_step(s, i);
            1 <= l && i + l <= s.len() && reaches(s, i + l, p)
        })
    }
}

/// Two texts that agree before `p`, both scan to `p`, and scan the same
/// from `p` on, scan the same altogether.
proof fn lemma_scan_agree_upto(s1: Seq<char>, s2: Seq<char>, i: int, p: int)
    requires
        0 <= i <= p,
        p <= s1.len(),
        p <= s2.len(),
        s1.subrange(i, p) == s2.subrange(i, p),
        reaches(s1, i, p),
        reaches(s2, i, p),
        scan_from(s1, p) == scan_from(s2, p),
    ensures
        scan_from(s1, i) == scan_from(s2, i),
    decreases p - i,
{
    if i < p {
        lemma_lex_step_bounds(s1, i);
        lemma_lex_step_bounds(s2, i);
        let (t1, l1) = lex_step(s1, i);
        let (t2, l2) = lex_step(s2, i);
        assert(i + l1 <= p) by {
            if i + l1 > p {
                assert(!reaches(s1, i + l1, p));
            }
        }
        assert(i + l2 <= p) by {
            if i + l2 > p {
                assert(!reaches(s2, i + l2, p));
            }
        }
        lemma_step_window(s1, i, p - i);
        lemma_step_window(s2, i, p - i);
        assert(s1.subrange(i, i + (p - i)) == s2.subrange(i, i + (p - i)));
        assert((t2, l2) == (t1, l1));
        assert(s1.subrange(i + l1, p) =~= s2.subrange(i + l1, p)) by {
            assert forall|k: int| 0 <= k < p - i - l1 implies #[trigger] s1.subrange(i + l1, p)[k]
                == s2.subrange(i + l1, p)[k] by {
                assert(s1[i + l1 + k] == s1.subrange(i, p)[l1 + k]);
                assert(s2[i + l1 + k] == s2.subrange(i, p)[l1 + k]);
            }
        }
        lemma_scan_agree_upto(s1, s2, i + l1, p);
        match t1 {
            Some(tok) => {
                assert(s1.subrange(i, i + l1) =~= s2.subrange(i, i + l1)) by {
                    assert forall|k: int| 0 <= k < l1 implies #[trigger] s1.subrange(i, i + l1)[k]
                        == s2.subrange(i, i + l1)[k] by {
                        assert(s1[i + k] == s1.subrange(i, p)[k]);
                        assert(s2[i + k] == s2.subrange(i, p)[k]);
                    }
                }
            },
            None => {},
        }
    }
}

/// A run of spaces at a scan position is passed over without a token.
proof fn lemma_space_run_skips(s: Seq<char>, q: int, r: int)
    requires
        0 <= q <= r <= s.len(),
        forall|k: int| q <= k < r ==> is_space_char(#[trigger] s[k]),
    ensures
        scan_from(s, q) == scan_from(s, r),
    decreases r - q,
{
    if q < r {
        lemma_space_skips(s, q);
        lemma_space_run_skips(s, q + 1, r);
    }
}

/// A block-comment close found on a window is found at the same spot on
/// the whole text: the scan never reads outside its own span.
proof fn lemma_bscan_extend(s: Seq<char>, q: int, wl: int, m: int, e: int)
    requires
        0 <= q,
        q + wl <= s.len(),
        0 <= m,
        crate::scan::block_close_scan(s.subrange(q, q + wl), m) == Some(e),
        e <= wl,
    ensures
        crate::scan::block_close_scan(s, q + m) == Some(q + e),
    decreases e - m,
{
    let w = s.subrange(q, q + wl);
    lemma_block_close_scan_bound(w, m);
    assert(m + 1 < wl);
    assert(s[q + m] == w[m]);
    assert(s[q + m + 1] == w[m + 1]);
    if w[m] == '*' && w[m + 1] == '/' {
        assert(e == m + 2);
    } else {
        assert(crate::scan::block_close_scan(w, m + 1) == Some(e));
        lemma_bscan_extend(s, q, wl, m + 1, e);
    }
}

/// Invisible filler: a nonempty run of spaces, tabs and form feeds, or
/// one whole block comment.
pub open spec fn invisible_filler(mid: Seq<char>) -> bool {
    mid.len() > 0 && ((forall|k: int| 0 <= k < mid.len() ==> is_space_char(#[trigger] mid[k]))
        || block_comment_len(mid, 0) == mid.len())
}

/// Law: invisible filler inserted between two tokens changes nothing.
/// When both the plain text and the text with the filler inserted
/// tokenize their common head up to the insertion point (no token
/// straddles it), the two token streams — and with them the parse — are
/// identical.
pub proof fn lemma_filler_insertion(a: Seq<char>, mid: Seq<char>, b: Seq<char>)
    requires
        invisible_filler(mid),
        reaches(a + mid + b, 0, a.len() as int),
        reaches(a + b, 0, a.len() as int),
    ensures
        scan_from(a + mid + b, 0) == scan_from(a + b, 0),
        crate::grammar::p_dot_graph(crate::scan::scan_tokens(a + mid + b))
            == crate::grammar::p_dot_graph(crate::scan::scan_tokens(a + b)),
{
    let s1 = a + mid + b;
    let s2 = a + b;
    let la = a.len() as int;
    let lm = mid.len() as int;
    assert(s1.len() == la + lm + b.len());
    assert(s2.len() == la + b.len());
    assert(s1.subrange(la + lm, s1.len() as int) =~= s2.subrange(la, s2.len() as int)) by {
        assert forall|k: int| 0 <= k < b.len() implies #[trigger] s1.subrange(la + lm, s1.len() as int)[k]
            == s2.subrange(la, s2.len() as int)[k] by {
            assert(s1[la + lm + k] == b[k]);
            assert(s2[la + k] == b[k]);
        }
    }
    lemma_scan_suffix_agree(s1, s2, la + lm, la);
    assert(mid =~= s1.subrange(la, la + lm)) by {
        assert forall|k: int| 0 <= k < lm implies mid[k] == #[trigger] s1.subrange(la, la + lm)[k] by {
            assert(s1[la + k] == (a + mid)[la + k]);
        }
    }
    if forall|k: int| 0 <= k < mid.len() ==> is_space_char(#[trigger] mid[k]) {
        assert forall|k: int| la <= k < la + lm implies is_space_char(#[trigger] s1[k]) by {
            assert(s1[k] == s1.subrange(la, la + lm)[k - la]);
            assert(mid[k - la] == s1[k]);
        }
        lemma_space_run_skips(s1, la, la + lm);
    } else {
        assert(block_comment_len(mid, 0) == lm);
        assert(mid[0] == '/' && mid[1] == '*');
        match crate::scan::block_close_scan(mid, 2) {
            Some(e) => {
                assert(e == lm);
                lemma_bscan_extend(s1, la, lm, 2, lm);
                assert(s1[la] == mid[0]);
                assert(s1[la + 1] == mid[1]);
                assert(block_comment_len(s1, la) == lm);
                lemma_block_comment_skips(s1, la);
            },
            None => {
                assert(false);
            },
        }
    }
    assert(scan_from(s1, la) == scan_from(s2, la));
    assert(s1.subrange(0, la) =~= s2.subrange(0, la)) by {
        assert forall|k: int| 0 <= k < la implies #[trigger] s1.subrange(0, la)[k] == s2.subrange(0, la)[k]
            by {
            assert(s1[k] == (a + mid)[k]);
            assert((a + mid)[k] == a[k]);
            assert(s2[k] == a[k]);
        }
    }
    lemma_scan_agree_upto(s1, s2, 0, la);
    assert(crate::scan::scan_tokens(s1) == crate::scan::scan_tokens(s2));
}

/// Law: the parsed tree depends on the token stream alone.  Two inputs
/// whose surfaced tokens agree — however they differ in spacing, block
/// comments, or the spelling of line comments against bare newlines —
/// parse to the same result.
pub proof fn lemma_parse_depends_on_tokens(s1: Seq<char>, s2: Seq<char>)
    requires
        crate::scan::scan_tokens(s1) == crate::scan::scan_tokens(s2),
    ensures
        crate::grammar::p_dot_graph(crate::scan::scan_tokens(s1)) == crate::grammar::p_dot_graph(
            crate::scan::scan_tokens(s2),
        ),
{
}

} // verus!
