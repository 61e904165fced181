//! The executable recursive-descent parser, verified to return exactly
//! what the grammar model describes.
//!
//! Every production takes the token vector and a position and either
//! succeeds with a tree node and the position just past what it consumed,
//! or fails returning nothing; the caller's position is untouched either
//! way, so ordered choice needs no rollback.

use crate::ast::{
    attr_list_view, edge_view, group_view, stmts_view, Assignment, AssignmentGroup, AttributeList,
    AttributeStatement, DotGraph, Edge, EdgeLHS, EdgeOP, EdgeRHS, Graph, Node, ParseError, Port,
    Statement, Subgraph,
};
use crate::grammar::{
    hoist, id_at, is_separator, is_tok, make_edge, p_assignment, p_attr_list, p_attr_stmt,
    graph_wf, p_dot_graph, p_edge, p_edge_rhs, p_graph, p_group, p_node, p_port, p_stmt, p_stmt_list,
    p_subgraph, skip_filler, EdgeStatementLHS,
};
use crate::lexer::tokenize;
use crate::scan::scan_tokens;
use crate::token::{token_views, Token, TokenView};
use vstd::prelude::*;

verus! {

broadcast use vstd::seq::group_seq_axioms;

/// The tokens a parse works over, as their model sequence.
pub open spec fn tv(toks: Seq<Token>) -> Seq<TokenView> {
    token_views(toks)
}

/// The identifier at `pos`, when an identifier token stands there.
fn id_of(toks: &Vec<Token>, pos: usize) -> (r: Option<String>)
    ensures
        match r {
            Some(s) => id_at(tv(toks@), pos as int) == Some(s@) && pos < toks@.len()
                <= usize::MAX,
            None => id_at(tv(toks@), pos as int) is None,
        },
{
    if pos < toks.len() {
        match &toks[pos] {
            Token::ID(s) => Some(s.clone()),
            _ => None,
        }
    } else {
        None
    }
}

/// Whether the token at `pos` is `t` (`t` never an identifier here).
fn is_tok_at(toks: &Vec<Token>, pos: usize, t: &Token) -> (r: bool)
    requires
        !(t@ is ID),
    ensures
        r == is_tok(tv(toks@), pos as int, t@),
        r ==> pos < toks@.len() <= usize::MAX,
{
    if pos < toks.len() {
        match (&toks[pos], t) {
            (Token::Strict, Token::Strict) => true,
            (Token::Subgraph, Token::Subgraph) => true,
            (Token::Graph, Token::Graph) => true,
            (Token::Digraph, Token::Digraph) => true,
            (Token::Node, Token::Node) => true,
            (Token::Edge, Token::Edge) => true,
            (Token::DirectedEdge, Token::DirectedEdge) => true,
            (Token::UndirectedEdge, Token::UndirectedEdge) => true,
            (Token::OpenParen, Token::OpenParen) => true,
            (Token::CloseParen, Token::CloseParen) => true,
            (Token::OpenBracket, Token::OpenBracket) => true,
            (Token::CloseBracket, Token::CloseBracket) => true,
            (Token::Equals, Token::Equals) => true,
            (Token::Comma, Token::Comma) => true,
            (Token::SemiColon, Token::SemiColon) => true,
            (Token::NewLine, Token::NewLine) => true,
            (Token::Colon, Token::Colon) => true,
            (Token::Quotation, Token::Quotation) => true,
            (Token::Error, Token::Error) => true,
            _ => false,
        }
    } else {
        false
    }
}

/// Whether a statement separator (semicolon or comma) stands at `pos`.
fn is_separator_at(toks: &Vec<Token>, pos: usize) -> (r: bool)
    ensures
        r == is_separator(tv(toks@), pos as int),
        r ==> pos < toks@.len() <= usize::MAX,
{
    is_tok_at(toks, pos, &Token::SemiColon) || is_tok_at(toks, pos, &Token::Comma)
}

/// Skips the run of filler tokens (newlines, semicolons) starting at
/// `pos`.
fn skip_filler_at(toks: &Vec<Token>, pos: usize) -> (r: usize)
    requires
        pos <= toks@.len(),
    ensures
        r as int == skip_filler(tv(toks@), pos as int),
        pos <= r <= toks@.len(),
    decreases toks@.len() - pos,
{
    if is_tok_at(toks, pos, &Token::NewLine) || is_tok_at(toks, pos, &Token::SemiColon) {
        skip_filler_at(toks, pos + 1)
    } else {
        pos
    }
}

impl Assignment {
    /// Parses an assignment `ID = ID` at `pos`.
    pub fn from_tokens(toks: &Vec<Token>, pos: usize) -> (r: Option<(Assignment, usize)>)
        requires
            pos <= toks@.len(),
        ensures
            match r {
                Some((a, p)) => p_assignment(tv(toks@), pos as int) == Some((a@, p as int)) && pos
                    < p <= toks@.len(),
                None => p_assignment(tv(toks@), pos as int) is None,
            },
    {
        match id_of(toks, pos) {
            Some(lhs) => {
                if is_tok_at(toks, pos + 1, &Token::Equals) {
                    match id_of(toks, pos + 2) {
                        Some(rhs) => Some((Assignment { lhs, rhs }, pos + 3)),
                        None => None,
                    }
                } else {
                    None
                }
            },
            None => None,
        }
    }
}

/// Parses an assignment group at `pos`; an empty group is a valid result,
/// so this never fails.
pub fn assignment_group_from_tokens(toks: &Vec<Token>, pos: usize) -> (r: (AssignmentGroup, usize))
    requires
        pos <= toks@.len(),
    ensures
        ({
            let (g, p) = p_group(tv(toks@), pos as int);
            group_view(r.0@) == g && r.1 as int == p && pos <= r.1 <= toks@.len()
        }),
    decreases toks@.len() - pos, 2int,
{
    match Assignment::from_tokens(toks, pos) {
        Some((a, p1)) => {
            let p2: usize = if is_separator_at(toks, p1) {
                p1 + 1
            } else {
                p1
            };
            let p3 = skip_filler_at(toks, p2);
            let (mut rest, p4) = assignment_group_from_tokens(toks, p3);
            rest.insert(0, a);
            proof {
                let (g, p) = p_group(tv(toks@), pos as int);
                assert(group_view(rest@).attributes =~= g.attributes);
                assert(group_view(rest@) == g);
            }
            (rest, p4)
        },
        None => {
            let r: AssignmentGroup = Vec::new();
            proof {
                assert(group_view(r@).attributes =~= p_group(tv(toks@), pos as int).0.attributes);
            }
            (r, pos)
        },
    }
}

/// Parses an attribute list (one or more bracketed groups) at `pos`; fails
/// when no opening bracket stands there or a bracket is unclosed.
pub fn attribute_list_from_tokens(toks: &Vec<Token>, pos: usize) -> (r: Option<
    (AttributeList, usize),
>)
    requires
        pos <= toks@.len(),
    ensures
        match r {
            Some((l, p)) => p_attr_list(tv(toks@), pos as int) == Some(
                (attr_list_view(l@), p as int),
            ) && pos < p <= toks@.len(),
            None => p_attr_list(tv(toks@), pos as int) is None,
        },
    decreases toks@.len() - pos, 3int,
{
    if !is_tok_at(toks, pos, &Token::OpenBracket) {
        return None;
    }
    let p1 = skip_filler_at(toks, pos + 1);
    let (g, p2) = assignment_group_from_tokens(toks, p1);
    let p3 = skip_filler_at(toks, p2);
    if !is_tok_at(toks, p3, &Token::CloseBracket) {
        return None;
    }
    if is_tok_at(toks, p3 + 1, &Token::OpenBracket) {
        match attribute_list_from_tokens(toks, p3 + 1) {
            Some((mut rest, p4)) => {
                rest.insert(0, g);
                proof {
                    let spec_r = p_attr_list(tv(toks@), pos as int);
                    assert(attr_list_view(rest@) =~= spec_r->Some_0.0);
                }
                Some((rest, p4))
            },
            None => None,
        }
    } else {
        let mut l: AttributeList = Vec::new();
        l.push(g);
        proof {
            let spec_r = p_attr_list(tv(toks@), pos as int);
            assert(attr_list_view(l@) =~= spec_r->Some_0.0);
        }
        Some((l, p3 + 1))
    }
}

/// Parses an attribute-default statement (`graph`/`node`/`edge` then an
/// attribute list) at `pos`.
impl AttributeStatement {
    pub fn from_tokens(toks: &Vec<Token>, pos: usize) -> (r: Option<(AttributeStatement, usize)>)
        requires
            pos <= toks@.len(),
        ensures
            match r {
                Some((a, p)) => p_attr_stmt(tv(toks@), pos as int) == Some((a@, p as int)) && pos
                    < p <= toks@.len(),
                None => p_attr_stmt(tv(toks@), pos as int) is None,
            },
    {
        if is_tok_at(toks, pos, &Token::Graph) {
            match attribute_list_from_tokens(toks, pos + 1) {
                Some((l, p)) => Some((AttributeStatement::Graph(l), p)),
                None => None,
            }
        } else if is_tok_at(toks, pos, &Token::Node) {
            match attribute_list_from_tokens(toks, pos + 1) {
                Some((l, p)) => Some((AttributeStatement::Node(l), p)),
                None => None,
            }
        } else if is_tok_at(toks, pos, &Token::Edge) {
            match attribute_list_from_tokens(toks, pos + 1) {
                Some((l, p)) => Some((AttributeStatement::Edge(l), p)),
                None => None,
            }
        } else {
            None
        }
    }
}

impl Port {
    /// Parses a port (`:` ID, optionally `:` compass ID) at `pos`.
    pub fn from_tokens(toks: &Vec<Token>, pos: usize) -> (r: Option<(Port, usize)>)
        requires
            pos <= toks@.len(),
        ensures
            match r {
                Some((p0, p)) => p_port(tv(toks@), pos as int) == Some((p0@, p as int)) && pos < p
                    <= toks@.len(),
                None => p_port(tv(toks@), pos as int) is None,
            },
    {
        if !is_tok_at(toks, pos, &Token::Colon) {
            return None;
        }
        match id_of(toks, pos + 1) {
            Some(id) => {
                if is_tok_at(toks, pos + 2, &Token::Colon) {
                    match id_of(toks, pos + 3) {
                        Some(c) => Some((Port { id, compass_point: Some(c) }, pos + 4)),
                        None => None,
                    }
                } else {
                    Some((Port { id, compass_point: None }, pos + 2))
                }
            },
            None => None,
        }
    }
}

impl Node {
    /// Parses a node declaration or reference (ID, optional port, optional
    /// attribute list) at `pos`.
    pub fn from_tokens(toks: &Vec<Token>, pos: usize) -> (r: Option<(Node, usize)>)
        requires
            pos <= toks@.len(),
        ensures
            match r {
                Some((n, p)) => p_node(tv(toks@), pos as int) == Some((n@, p as int)) && pos < p
                    <= toks@.len(),
                None => p_node(tv(toks@), pos as int) is None,
            },
    {
        match id_of(toks, pos) {
            Some(id) => {
                let (port, p1): (Option<Port>, usize) = match Port::from_tokens(toks, pos + 1) {
                    Some((pt, pp)) => (Some(pt), pp),
                    None => (None, pos + 1),
                };
                match attribute_list_from_tokens(toks, p1) {
                    Some((l, p2)) => Some(
                        (Node { id, port, attribute_list: Some(l) }, p2),
                    ),
                    None => Some((Node { id, port, attribute_list: None }, p1)),
                }
            },
            None => None,
        }
    }
}

/// Copies an assignment; the copy stands for the same model value.
fn copy_assignment(a: &Assignment) -> (r: Assignment)
    ensures
        r == *a,
{
    Assignment { lhs: a.lhs.clone(), rhs: a.rhs.clone() }
}

/// Copies an assignment group.
fn copy_group(g: &AssignmentGroup) -> (r: AssignmentGroup)
    ensures
        r@ == g@,
{
    let mut r: AssignmentGroup = Vec::new();
    let mut i: usize = 0;
    while i < g.len()
        invariant
            i <= g@.len(),
            r@ == g@.subrange(0, i as int),
        decreases g@.len() - i,
    {
        r.push(copy_assignment(&g[i]));
        i = i + 1;
        proof {
            assert(r@ =~= g@.subrange(0, i as int));
        }
    }
    proof {
        assert(r@ =~= g@);
    }
    r
}

/// Copies an attribute list.  An edge whose right-hand side is a chained
/// edge shares that edge's attribute list; the copy realizes the sharing.
fn copy_attr_list(l: &AttributeList) -> (r: AttributeList)
    ensures
        attr_list_view(r@) == attr_list_view(l@),
{
    let mut r: AttributeList = Vec::new();
    let mut i: usize = 0;
    while i < l.len()
        invariant
            i <= l@.len(),
            r@.len() == i,
            forall|k: int| 0 <= k < i ==> group_view(r@[k]@) == group_view(l@[k]@),
        decreases l@.len() - i,
    {
        r.push(copy_group(&l[i]));
        i = i + 1;
    }
    proof {
        assert forall|k: int| 0 <= k < r@.len() implies attr_list_view(r@)[k] == attr_list_view(
            l@,
        )[k] by {}
        assert(attr_list_view(r@) =~= attr_list_view(l@));
    }
    r
}

impl Subgraph {
    /// Parses a subgraph (optional `subgraph` keyword, optional ID, braced
    /// statement sequence) at `pos`, with the enclosing direction.
    pub fn from_tokens(toks: &Vec<Token>, pos: usize, dir: EdgeOP) -> (r: Option<
        (Subgraph, usize),
    >)
        requires
            pos <= toks@.len(),
        ensures
            match r {
                Some((sg, p)) => p_subgraph(tv(toks@), pos as int, dir) == Some((sg@, p as int))
                    && pos < p <= toks@.len(),
                None => p_subgraph(tv(toks@), pos as int, dir) is None,
            },
        decreases toks@.len() - pos, 6int,
    {
        let p0 = skip_filler_at(toks, pos);
        let p1: usize = if is_tok_at(toks, p0, &Token::Subgraph) {
            p0 + 1
        } else {
            p0
        };
        let (id, p2): (Option<String>, usize) = match id_of(toks, p1) {
            Some(s) => (Some(s), p1 + 1),
            None => (None, p1),
        };
        if !is_tok_at(toks, p2, &Token::OpenParen) {
            return None;
        }
        let (ss, p3) = statements_from_tokens(toks, p2 + 1, dir);
        let p4 = skip_filler_at(toks, p3);
        if is_tok_at(toks, p4, &Token::CloseParen) {
            Some((Subgraph { id, direction: dir, statements: ss }, p4 + 1))
        } else {
            None
        }
    }
}

impl Edge {
    /// Parses an edge statement at `pos`: a left endpoint, the direction's
    /// operator, a right-hand side, and an optional trailing attribute
    /// list, hoisted as the grammar prescribes.
    #[verifier::rlimit(50)]
    pub fn from_tokens(toks: &Vec<Token>, pos: usize, dir: EdgeOP) -> (r: Option<(Edge, usize)>)
        requires
            pos <= toks@.len(),
        ensures
            match r {
                Some((e, p)) => p_edge(tv(toks@), pos as int, dir) == Some((e@, p as int)) && pos
                    < p <= toks@.len(),
                None => p_edge(tv(toks@), pos as int, dir) is None,
            },
        decreases toks@.len() - pos, 7int,
    {
        let ghost ts = tv(toks@);
        let lhs_res: Option<(EdgeLHS, usize)> = match Subgraph::from_tokens(toks, pos, dir) {
            Some((sg, p1)) => Some((EdgeLHS::Subgraph(sg), p1)),
            None => match Node::from_tokens(toks, pos) {
                Some((n, p1)) => Some((EdgeLHS::Node(n), p1)),
                None => None,
            },
        };
        match lhs_res {
            Some((lhs, p1)) => {
                let ghost lhs_v = match &lhs {
                    EdgeLHS::Node(n) => EdgeStatementLHS::Node(n@),
                    EdgeLHS::Subgraph(sg) => EdgeStatementLHS::Subgraph(sg@),
                };
                let op_tok = match dir {
                    EdgeOP::Directed => Token::DirectedEdge,
                    EdgeOP::Undirected => Token::UndirectedEdge,
                };
                if !is_tok_at(toks, p1, &op_tok) {
                    return None;
                }
                match EdgeRHS::from_tokens(toks, p1 + 1, dir) {
                    Some((rhs, p2)) => {
                        let ghost rhs_v = rhs@;
                        let (trailing, p3): (AttributeList, usize) =
                            match attribute_list_from_tokens(toks, p2) {
                            Some((l, q)) => (l, q),
                            None => (Vec::new(), p2),
                        };
                        let ghost trailing_v = attr_list_view(trailing@);
                        let (attrs, rhs2): (AttributeList, EdgeRHS) = match rhs {
                            EdgeRHS::Edge(e) => {
                                let a = copy_attr_list(&e.attr_list);
                                proof {
                                    assert(edge_view(e).attr_list() == attr_list_view(
                                        e.attr_list@,
                                    ));
                                }
                                (a, EdgeRHS::Edge(e))
                            },
                            EdgeRHS::Node(n) => {
                                let Node { id, port, attribute_list } = n;
                                let a: AttributeList = match attribute_list {
                                    Some(v) => v,
                                    None => Vec::new(),
                                };
                                proof {
                                    assert(attr_list_view(Seq::<AssignmentGroup>::empty())
                                        =~= Seq::<crate::nodes::AttributeListNode>::empty());
                                }
                                (a, EdgeRHS::Node(Node { id, port, attribute_list: None }))
                            },
                            EdgeRHS::Subgraph(sg) => (trailing, EdgeRHS::Subgraph(sg)),
                        };
                        proof {
                            assert(hoist(trailing_v, rhs_v) == (attr_list_view(attrs@), rhs2@));
                            assert(p_edge(ts, pos as int, dir) == Some(
                                (make_edge(lhs_v, dir, rhs2@, attr_list_view(attrs@)), p3 as int),
                            ));
                        }
                        let result = Edge { lhs, op: dir, rhs: Box::new(rhs2), attr_list: attrs };
                        proof {
                            assert(result@ == make_edge(lhs_v, dir, rhs2@, attr_list_view(
                                attrs@,
                            )));
                        }
                        Some((result, p3))
                    },
                    None => None,
                }
            },
            None => None,
        }
    }
}

impl EdgeRHS {
    /// Parses an edge's right-hand side at `pos`: a chained edge, else a
    /// node reference, else a subgraph.
    pub fn from_tokens(toks: &Vec<Token>, pos: usize, dir: EdgeOP) -> (r: Option<(EdgeRHS, usize)>)
        requires
            pos <= toks@.len(),
        ensures
            match r {
                Some((rhs, p)) => p_edge_rhs(tv(toks@), pos as int, dir) == Some(
                    (rhs@, p as int),
                ) && pos < p <= toks@.len(),
                None => p_edge_rhs(tv(toks@), pos as int, dir) is None,
            },
        decreases toks@.len() - pos, 8int,
    {
        match Edge::from_tokens(toks, pos, dir) {
            Some((e, p1)) => Some((EdgeRHS::Edge(e), p1)),
            None => match Node::from_tokens(toks, pos) {
                Some((n, p1)) => Some((EdgeRHS::Node(n), p1)),
                None => match Subgraph::from_tokens(toks, pos, dir) {
                    Some((sg, p1)) => Some((EdgeRHS::Subgraph(sg), p1)),
                    None => None,
                },
            },
        }
    }
}

impl Statement {
    /// Parses one statement at `pos`: after leading filler, the first of
    /// assignment, edge, node, attribute-default and subgraph that
    /// applies, in that order.
    pub fn from_tokens(toks: &Vec<Token>, pos: usize, dir: EdgeOP) -> (r: Option<
        (Statement, usize),
    >)
        requires
            pos <= toks@.len(),
        ensures
            match r {
                Some((st, p)) => p_stmt(tv(toks@), pos as int, dir) == Some((st@, p as int))
                    && pos < p <= toks@.len(),
                None => p_stmt(tv(toks@), pos as int, dir) is None,
            },
        decreases toks@.len() - pos, 9int,
    {
        let p0 = skip_filler_at(toks, pos);
        match Assignment::from_tokens(toks, p0) {
            Some((a, p1)) => Some((Statement::Assignment(Box::new(a)), p1)),
            None => match Edge::from_tokens(toks, p0, dir) {
                Some((e, p1)) => Some((Statement::Edge(Box::new(e)), p1)),
                None => match Node::from_tokens(toks, p0) {
                    Some((n, p1)) => Some((Statement::Node(Box::new(n)), p1)),
                    None => match AttributeStatement::from_tokens(toks, p0) {
                        Some((a, p1)) => Some((Statement::Attribute(Box::new(a)), p1)),
                        None => match Subgraph::from_tokens(toks, p0, dir) {
                            Some((sg, p1)) => Some((Statement::Subgraph(Box::new(sg)), p1)),
                            None => None,
                        },
                    },
                },
            },
        }
    }
}

/// Parses a statement sequence at `pos`: statements while they apply, each
/// optionally followed by one semicolon or comma.  Never fails; stops at
/// the first position where no statement applies.
pub fn statements_from_tokens(toks: &Vec<Token>, pos: usize, dir: EdgeOP) -> (r: (
    Vec<Statement>,
    usize,
))
    requires
        pos <= toks@.len(),
    ensures
        ({
            let (sl, sp) = p_stmt_list(tv(toks@), pos as int, dir);
            stmts_view(r.0@) == sl && r.1 as int == sp && pos <= r.1 <= toks@.len()
        }),
    decreases toks@.len() - pos, 10int,
{
    match Statement::from_tokens(toks, pos, dir) {
        Some((st, p1)) => {
            let p2: usize = if is_separator_at(toks, p1) {
                p1 + 1
            } else {
                p1
            };
            let (mut rest, p3) = statements_from_tokens(toks, p2, dir);
            rest.insert(0, st);
            proof {
                let (sl, sp) = p_stmt_list(tv(toks@), pos as int, dir);
                assert(stmts_view(rest@) =~= sl);
            }
            (rest, p3)
        },
        None => {
            let r: Vec<Statement> = Vec::new();
            proof {
                assert(stmts_view(r@) =~= p_stmt_list(tv(toks@), pos as int, dir).0);
            }
            (r, pos)
        },
    }
}

impl Graph {
    /// Parses a whole graph of the given direction at `pos`: optional
    /// `strict`, the direction's keyword, optional ID, braced statement
    /// sequence.
    pub fn from_tokens(toks: &Vec<Token>, pos: usize, dir: EdgeOP) -> (r: Option<(Graph, usize)>)
        requires
            pos <= toks@.len(),
        ensures
            match r {
                Some((g, p)) => p_graph(tv(toks@), pos as int, dir) == Some((g@, p as int)) && pos
                    < p <= toks@.len() && g.direction == dir,
                None => p_graph(tv(toks@), pos as int, dir) is None,
            },
        decreases toks@.len() - pos, 11int,
    {
        let (strict, p0): (bool, usize) = if is_tok_at(toks, pos, &Token::Strict) {
            (true, pos + 1)
        } else {
            (false, pos)
        };
        let kw = match dir {
            EdgeOP::Directed => Token::Digraph,
            EdgeOP::Undirected => Token::Graph,
        };
        if !is_tok_at(toks, p0, &kw) {
            return None;
        }
        let (id, p1): (String, usize) = match id_of(toks, p0 + 1) {
            Some(s) => (s, p0 + 2),
            None => (String::new(), p0 + 1),
        };
        if !is_tok_at(toks, p1, &Token::OpenParen) {
            return None;
        }
        let (ss, p2) = statements_from_tokens(toks, p1 + 1, dir);
        let p3 = skip_filler_at(toks, p2);
        if is_tok_at(toks, p3, &Token::CloseParen) {
            Some((Graph { id, is_strict: strict, direction: dir, statements: ss }, p3 + 1))
        } else {
            None
        }
    }
}

impl DotGraph {
    /// Parses a complete source text: its token stream read as a directed
    /// graph, else as an undirected one; any other input is a parse error.
    /// Tokens after the graph's closing brace are ignored.  Whatever comes
    /// back is well-formed: one direction tag rules the whole tree and
    /// every chained edge shares its chain's attribute list.
    pub fn from_str(s: &str) -> (r: Result<DotGraph, ParseError>)
        ensures
            match r {
                Ok(g) => p_dot_graph(scan_tokens(s@)) == Some(g@) && graph_wf(g@) && (g
                    is Directed ==> g@.direction == EdgeOP::Directed) && (g is Undirected
                    ==> g@.direction == EdgeOP::Undirected),
                Err(_) => p_dot_graph(scan_tokens(s@)) is None,
            },
    {
        proof {
            crate::grammar::lemma_dot_graph_wf(scan_tokens(s@));
        }
        let toks = tokenize(s);
        match Graph::from_tokens(&toks, 0, EdgeOP::Directed) {
            Some((g, _)) => Ok(DotGraph::Directed(g)),
            None => match Graph::from_tokens(&toks, 0, EdgeOP::Undirected) {
                Some((g, _)) => Ok(DotGraph::Undirected(g)),
                None => Err(ParseError),
            },
        }
    }
}

} // verus!
