//! The mathematical model of the grammar.
//!
//! Each production maps a token sequence and a starting position to its
//! parsed model node and the position just past what it consumed, or to
//! `None` when it does not apply; a failed production leaves no trace, so
//! ordered choice simply tries the next alternative at the same position.
//! The bounds tests on positions returned by sub-productions only discharge
//! termination: every production in fact stays inside the token sequence
//! and every successful one advances.

use crate::ast::EdgeOP;
use crate::nodes::{
    AssignmentStatementNode, AttributeListNode, AttributeNode, AttributeStatementNode,
    EdgeRHSNode, EdgeStatementNode, GraphNode, IDNode, NodeID, NodeStatementNode, PortNode,
    StatementNode, SubgraphNode,
};
use crate::token::TokenView;
use vstd::prelude::*;

verus! {

/// The token sequence holds token `t` at position `p`.
pub open spec fn is_tok(ts: Seq<TokenView>, p: int, t: TokenView) -> bool {
    0 <= p < ts.len() && ts[p] == t
}

/// The identifier text at position `p`, when an identifier token stands
/// there.
pub open spec fn id_at(ts: Seq<TokenView>, p: int) -> Option<Seq<char>> {
    if 0 <= p < ts.len() {
        match ts[p] {
            TokenView::ID(s) => Some(s),
            _ => None,
        }
    } else {
        None
    }
}

/// Newlines and semicolons are filler between statements.
pub open spec fn is_filler(ts: Seq<TokenView>, p: int) -> bool {
    is_tok(ts, p, TokenView::NewLine) || is_tok(ts, p, TokenView::SemiColon)
}

/// A statement separator after a statement: semicolon or comma.
pub open spec fn is_separator(ts: Seq<TokenView>, p: int) -> bool {
    is_tok(ts, p, TokenView::SemiColon) || is_tok(ts, p, TokenView::Comma)
}

/// The edge operator token a direction demands.
pub open spec fn op_token(dir: EdgeOP) -> TokenView {
    match dir {
        EdgeOP::Directed => TokenView::DirectedEdge,
        EdgeOP::Undirected => TokenView::UndirectedEdge,
    }
}

/// The keyword token that opens a graph of the given direction.
pub open spec fn graph_keyword(dir: EdgeOP) -> TokenView {
    match dir {
        EdgeOP::Directed => TokenView::Digraph,
        EdgeOP::Undirected => TokenView::Graph,
    }
}

/// The position after the run of filler tokens starting at `pos`.
pub open spec fn skip_filler(ts: Seq<TokenView>, pos: int) -> int
    decreases ts.len() - pos, 0int,
{
    if is_filler(ts, pos) {
        skip_filler(ts, pos + 1)
    } else {
        pos
    }
}

/// Assignment: `ID = ID`.
pub open spec fn p_assignment(ts: Seq<TokenView>, pos: int) -> Option<(AttributeNode, int)> {
    match (id_at(ts, pos), id_at(ts, pos + 2)) {
        (Some(lhs), Some(rhs)) => {
            if is_tok(ts, pos + 1, TokenView::Equals) {
                Some(
                    (
                        AttributeNode { lhs_id: IDNode { id: lhs }, rhs_id: IDNode { id: rhs } },
                        pos + 3,
                    ),
                )
            } else {
                None
            }
        },
        _ => None,
    }
}

/// Assignment group: assignments one after another, each optionally
/// followed by one comma or semicolon and then filler.  Never fails; an
/// empty group is a valid result.
pub open spec fn p_group(ts: Seq<TokenView>, pos: int) -> (AttributeListNode, int)
    decreases ts.len() - pos, 2int,
{
    match p_assignment(ts, pos) {
        Some((a, p1)) => {
            let p2 = if is_separator(ts, p1) {
                p1 + 1
            } else {
                p1
            };
            let p3 = skip_filler(ts, p2);
            if pos < p3 <= ts.len() {
                let (rest, p4) = p_group(ts, p3);
                (AttributeListNode { attributes: seq![a] + rest.attributes }, p4)
            } else {
                (AttributeListNode { attributes: seq![a] }, p1)
            }
        },
        None => (AttributeListNode { attributes: Seq::empty() }, pos),
    }
}

/// Attribute list: one or more bracketed assignment groups back-to-back.
/// Fails when the first token is not an opening bracket, or when any
/// bracket is left unclosed.
pub open spec fn p_attr_list(ts: Seq<TokenView>, pos: int) -> Option<
    (Seq<AttributeListNode>, int),
>
    decreases ts.len() - pos, 3int,
{
    if !is_tok(ts, pos, TokenView::OpenBracket) {
        None
    } else {
        let p1 = skip_filler(ts, pos + 1);
        if !(pos + 1 <= p1 <= ts.len()) {
            None
        } else {
            let (g, p2) = p_group(ts, p1);
            if !(p1 <= p2 <= ts.len()) {
                None
            } else {
                let p3 = skip_filler(ts, p2);
                if !(p2 <= p3 <= ts.len()) {
                    None
                } else if !is_tok(ts, p3, TokenView::CloseBracket) {
                    None
                } else if is_tok(ts, p3 + 1, TokenView::OpenBracket) {
                    match p_attr_list(ts, p3 + 1) {
                        Some((rest, p4)) => Some((seq![g] + rest, p4)),
                        None => None,
                    }
                } else {
                    Some((seq![g], p3 + 1))
                }
            }
        }
    }
}

/// Attribute-default statement: one of the keywords `graph`, `node`,
/// `edge`, then an attribute list.
pub open spec fn p_attr_stmt(ts: Seq<TokenView>, pos: int) -> Option<
    (AttributeStatementNode, int),
>
    decreases ts.len() - pos, 4int,
{
    if is_tok(ts, pos, TokenView::Graph) {
        match p_attr_list(ts, pos + 1) {
            Some((l, p1)) => Some((AttributeStatementNode::Graph(l), p1)),
            None => None,
        }
    } else if is_tok(ts, pos, TokenView::Node) {
        match p_attr_list(ts, pos + 1) {
            Some((l, p1)) => Some((AttributeStatementNode::Node(l), p1)),
            None => None,
        }
    } else if is_tok(ts, pos, TokenView::Edge) {
        match p_attr_list(ts, pos + 1) {
            Some((l, p1)) => Some((AttributeStatementNode::Edge(l), p1)),
            None => None,
        }
    } else {
        None
    }
}

/// Port: `:` ID, optionally followed by `:` and a compass-point ID.
pub open spec fn p_port(ts: Seq<TokenView>, pos: int) -> Option<(PortNode, int)> {
    if !is_tok(ts, pos, TokenView::Colon) {
        None
    } else {
        match id_at(ts, pos + 1) {
            Some(id) => {
                if is_tok(ts, pos + 2, TokenView::Colon) {
                    match id_at(ts, pos + 3) {
                        Some(c) => Some(
                            (PortNode { id, compass_point: Some(c) }, pos + 4),
                        ),
                        None => None,
                    }
                } else {
                    Some((PortNode { id, compass_point: None }, pos + 2))
                }
            },
            None => None,
        }
    }
}

/// Node declaration or reference: ID, optional port, optional attribute
/// list.
pub open spec fn p_node(ts: Seq<TokenView>, pos: int) -> Option<(NodeStatementNode, int)>
    decreases ts.len() - pos, 5int,
{
    match id_at(ts, pos) {
        Some(id) => {
            let (port, p1) = match p_port(ts, pos + 1) {
                Some((pt, pp)) => (Some(pt), pp),
                None => (None, pos + 1),
            };
            if !(pos + 1 <= p1 <= ts.len()) {
                None
            } else {
                let node_id = NodeID { id, port };
                match p_attr_list(ts, p1) {
                    Some((l, p2)) => Some(
                        (NodeStatementNode { id: node_id, attributes: Some(l) }, p2),
                    ),
                    None => Some((NodeStatementNode { id: node_id, attributes: None }, p1)),
                }
            }
        },
        None => None,
    }
}

/// Subgraph: leading filler, optional `subgraph` keyword, optional ID,
/// then a braced statement sequence with trailing filler before the
/// closing brace.
pub open spec fn p_subgraph(ts: Seq<TokenView>, pos: int, dir: EdgeOP) -> Option<
    (SubgraphNode, int),
>
    decreases ts.len() - pos, 6int,
{
    let p0 = skip_filler(ts, pos);
    if !(pos <= p0 <= ts.len()) {
        None
    } else {
        let p1 = if is_tok(ts, p0, TokenView::Subgraph) {
            p0 + 1
        } else {
            p0
        };
        let (id, p2) = match id_at(ts, p1) {
            Some(s) => (Some(IDNode { id: s }), p1 + 1),
            None => (None, p1),
        };
        if !is_tok(ts, p2, TokenView::OpenParen) {
            None
        } else {
            let (ss, p3) = p_stmt_list(ts, p2 + 1, dir);
            if !(p2 + 1 <= p3 <= ts.len()) {
                None
            } else {
                let p4 = skip_filler(ts, p3);
                if !(p3 <= p4 <= ts.len()) {
                    None
                } else if is_tok(ts, p4, TokenView::CloseParen) {
                    Some((SubgraphNode { id, direction: dir, statements: ss }, p4 + 1))
                } else {
                    None
                }
            }
        }
    }
}

/// Edge statement: a left endpoint (subgraph preferred, else node), the
/// direction's operator, a right-hand side, then an optional trailing
/// attribute list.  When the right-hand side is itself an edge, its
/// attribute list is hoisted to this edge; when it is a node, the node's
/// attribute list is moved up to this edge.
pub open spec fn p_edge(ts: Seq<TokenView>, pos: int, dir: EdgeOP) -> Option<
    (EdgeStatementNode, int),
>
    decreases ts.len() - pos, 7int,
{
    let lhs = match p_subgraph(ts, pos, dir) {
        Some((sg, p1)) => Some((EdgeStatementLHS::Subgraph(sg), p1)),
        None => match p_node(ts, pos) {
            Some((n, p1)) => Some((EdgeStatementLHS::Node(n), p1)),
            None => None,
        },
    };
    match lhs {
        Some((l, p1)) => {
            if !(pos <= p1 <= ts.len()) {
                None
            } else if !is_tok(ts, p1, op_token(dir)) {
                None
            } else {
                match p_edge_rhs(ts, p1 + 1, dir) {
                    Some((rhs, p2)) => {
                        if !(p1 + 1 <= p2 <= ts.len()) {
                            None
                        } else {
                            let (trailing, p3) = match p_attr_list(ts, p2) {
                                Some((l2, q)) => (l2, q),
                                None => (Seq::<AttributeListNode>::empty(), p2),
                            };
                            if !(p2 <= p3 <= ts.len()) {
                                None
                            } else {
                                let (attrs, rhs2) = hoist(trailing, rhs);
                                Some((make_edge(l, dir, rhs2, attrs), p3))
                            }
                        }
                    },
                    None => None,
                }
            }
        },
        None => None,
    }
}

/// The two shapes an edge's left endpoint can take.
pub enum EdgeStatementLHS {
    Node(NodeStatementNode),
    Subgraph(SubgraphNode),
}

/// Builds an edge from its parsed parts.
pub open spec fn make_edge(
    lhs: EdgeStatementLHS,
    dir: EdgeOP,
    rhs: EdgeRHSNode,
    attrs: Seq<AttributeListNode>,
) -> EdgeStatementNode {
    match lhs {
        EdgeStatementLHS::Node(n) => EdgeStatementNode::Node {
            lhs: n,
            op: dir,
            rhs: Box::new(rhs),
            attr_list: attrs,
        },
        EdgeStatementLHS::Subgraph(sg) => EdgeStatementNode::Subgraph {
            lhs: sg,
            op: dir,
            rhs: Box::new(rhs),
            attr_list: attrs,
        },
    }
}

/// The attribute list an edge ends up with, and its right-hand side after
/// hoisting: an edge right-hand side shares its list with the outer edge, a
/// node right-hand side gives its list up to the outer edge.
pub open spec fn hoist(trailing: Seq<AttributeListNode>, rhs: EdgeRHSNode) -> (
    Seq<AttributeListNode>,
    EdgeRHSNode,
) {
    match rhs {
        EdgeRHSNode::Edge(inner) => ((*inner).attr_list(), EdgeRHSNode::Edge(inner)),
        EdgeRHSNode::Node(n) => {
            let attrs = match n.attributes {
                Some(a) => a,
                None => Seq::empty(),
            };
            (attrs, EdgeRHSNode::Node(NodeStatementNode { id: n.id, attributes: None }))
        },
        EdgeRHSNode::Subgraph(sg) => (trailing, EdgeRHSNode::Subgraph(sg)),
    }
}

/// The right-hand side of an edge: a chained edge, else a node, else a
/// subgraph.
pub open spec fn p_edge_rhs(ts: Seq<TokenView>, pos: int, dir: EdgeOP) -> Option<
    (EdgeRHSNode, int),
>
    decreases ts.len() - pos, 8int,
{
    match p_edge(ts, pos, dir) {
        Some((e, p1)) => Some((EdgeRHSNode::Edge(Box::new(e)), p1)),
        None => match p_node(ts, pos) {
            Some((n, p1)) => Some((EdgeRHSNode::Node(n), p1)),
            None => match p_subgraph(ts, pos, dir) {
                Some((sg, p1)) => Some((EdgeRHSNode::Subgraph(sg), p1)),
                None => None,
            },
        },
    }
}

/// Statement: after leading filler, the first of assignment, edge, node,
/// attribute-default and subgraph that applies.  The order is part of the
/// grammar: the shapes demanding the most specific continuation come
/// first.
pub open spec fn p_stmt(ts: Seq<TokenView>, pos: int, dir: EdgeOP) -> Option<
    (StatementNode, int),
>
    decreases ts.len() - pos, 9int,
{
    let p0 = skip_filler(ts, pos);
    if !(pos <= p0 <= ts.len()) {
        None
    } else {
        match p_assignment(ts, p0) {
            Some((a, p1)) => Some(
                (
                    StatementNode::Assignment(
                        AssignmentStatementNode { lhs_id: a.lhs_id, rhs_id: a.rhs_id },
                    ),
                    p1,
                ),
            ),
            None => match p_edge(ts, p0, dir) {
                Some((e, p1)) => Some((StatementNode::Edge(e), p1)),
                None => match p_node(ts, p0) {
                    Some((n, p1)) => Some((StatementNode::Node(n), p1)),
                    None => match p_attr_stmt(ts, p0) {
                        Some((a, p1)) => Some((StatementNode::Attribute(a), p1)),
                        None => match p_subgraph(ts, p0, dir) {
                            Some((sg, p1)) => Some((StatementNode::Subgraph(sg), p1)),
                            None => None,
                        },
                    },
                },
            },
        }
    }
}

/// Statement sequence: statements while they apply, each optionally
/// followed by one semicolon or comma.  Stops without error at the first
/// position where no statement applies, handing that position back.
pub open spec fn p_stmt_list(ts: Seq<TokenView>, pos: int, dir: EdgeOP) -> (
    Seq<StatementNode>,
    int,
)
    decreases ts.len() - pos, 10int,
{
    match p_stmt(ts, pos, dir) {
        Some((st, p1)) => {
            if !(pos < p1 <= ts.len()) {
                (Seq::empty(), pos)
            } else {
                let p2 = if is_separator(ts, p1) {
                    p1 + 1
                } else {
                    p1
                };
                let (rest, p3) = p_stmt_list(ts, p2, dir);
                (seq![st] + rest, p3)
            }
        },
        None => (Seq::empty(), pos),
    }
}

/// Graph: optional `strict`, the direction's keyword, optional ID, then a
/// braced statement sequence with trailing filler before the closing
/// brace.
pub open spec fn p_graph(ts: Seq<TokenView>, pos: int, dir: EdgeOP) -> Option<(GraphNode, int)>
    decreases ts.len() - pos, 11int,
{
    let (strict, p0) = if is_tok(ts, pos, TokenView::Strict) {
        (true, pos + 1)
    } else {
        (false, pos)
    };
    if !is_tok(ts, p0, graph_keyword(dir)) {
        None
    } else {
        let (id, p1) = match id_at(ts, p0 + 1) {
            Some(s) => (s, p0 + 2),
            None => (Seq::<char>::empty(), p0 + 1),
        };
        if !is_tok(ts, p1, TokenView::OpenParen) {
            None
        } else {
            let (ss, p2) = p_stmt_list(ts, p1 + 1, dir);
            if !(p1 + 1 <= p2 <= ts.len()) {
                None
            } else {
                let p3 = skip_filler(ts, p2);
                if !(p2 <= p3 <= ts.len()) {
                    None
                } else if is_tok(ts, p3, TokenView::CloseParen) {
                    Some(
                        (
                            GraphNode { strict, id, direction: dir, statements: ss },
                            p3 + 1,
                        ),
                    )
                } else {
                    None
                }
            }
        }
    }
}

/// A statement is well-formed for direction `dir`: every edge in it uses
/// `dir` and has its attribute lists hoisted, and every subgraph in it
/// carries `dir`.
pub open spec fn stmt_wf(s: StatementNode, dir: EdgeOP) -> bool
    decreases s,
{
    match s {
        StatementNode::Edge(e) => edge_wf(e, dir),
        StatementNode::Subgraph(sg) => subgraph_wf(sg, dir),
        _ => true,
    }
}

/// All statements of a sequence are well-formed for `dir`.
pub open spec fn stmts_wf(ss: Seq<StatementNode>, dir: EdgeOP) -> bool
    decreases ss,
{
    if ss.len() == 0 {
        true
    } else {
        stmt_wf(ss[0], dir) && stmts_wf(ss.drop_first(), dir)
    }
}

/// In a well-formed statement sequence, every statement is well-formed.
pub proof fn lemma_stmts_wf_index(ss: Seq<StatementNode>, dir: EdgeOP, k: int)
    requires
        stmts_wf(ss, dir),
        0 <= k < ss.len(),
    ensures
        stmt_wf(ss[k], dir),
    decreases k,
{
    if k > 0 {
        lemma_stmts_wf_index(ss.drop_first(), dir, k - 1);
        assert(ss.drop_first()[k - 1] == ss[k]);
    }
}

/// A subgraph carries `dir` and all its statements are well-formed for it.
pub open spec fn subgraph_wf(sg: SubgraphNode, dir: EdgeOP) -> bool
    decreases sg,
{
    sg.direction == dir && stmts_wf(sg.statements, dir)
}

/// An edge is well-formed for `dir`: its operator is `dir`, its endpoints
/// are well-formed, and when its right-hand side is a chained edge, that
/// edge shares this edge's attribute list (the hoisting invariant) and is
/// itself well-formed.
pub open spec fn edge_wf(e: EdgeStatementNode, dir: EdgeOP) -> bool
    decreases e,
{
    match e {
        EdgeStatementNode::Node { lhs: _, op, rhs, attr_list } => op == dir && rhs_wf(
            *rhs,
            dir,
            attr_list,
        ),
        EdgeStatementNode::Subgraph { lhs, op, rhs, attr_list } => op == dir && subgraph_wf(
            lhs,
            dir,
        ) && rhs_wf(*rhs, dir, attr_list),
    }
}

/// An edge's right-hand side is well-formed for `dir` under the owning
/// edge's attribute list `attrs`: a chained edge shares `attrs` exactly.
pub open spec fn rhs_wf(r: EdgeRHSNode, dir: EdgeOP, attrs: Seq<AttributeListNode>) -> bool
    decreases r,
{
    match r {
        EdgeRHSNode::Edge(inner) => (*inner).attr_list() == attrs && edge_wf(*inner, dir),
        EdgeRHSNode::Node(_) => true,
        EdgeRHSNode::Subgraph(sg) => subgraph_wf(sg, dir),
    }
}

/// The parts of a right-hand side are well-formed for `dir`, apart from
/// the hoisting tie to the owning edge.
pub open spec fn rhs_parts_wf(r: EdgeRHSNode, dir: EdgeOP) -> bool
    decreases r,
{
    match r {
        EdgeRHSNode::Edge(inner) => edge_wf(*inner, dir),
        EdgeRHSNode::Node(_) => true,
        EdgeRHSNode::Subgraph(sg) => subgraph_wf(sg, dir),
    }
}

/// A whole graph is well-formed: every edge below it uses the graph's own
/// direction and has its attribute lists hoisted, and every subgraph below
/// it carries that direction.
pub open spec fn graph_wf(g: GraphNode) -> bool {
    stmts_wf(g.statements, g.direction)
}

/// A whole input: its token stream parsed as a directed graph, else as an
/// undirected one.  Tokens after the graph's closing brace are ignored.
pub open spec fn p_dot_graph(ts: Seq<TokenView>) -> Option<GraphNode> {
    match p_graph(ts, 0, EdgeOP::Directed) {
        Some((g, _)) => Some(g),
        None => match p_graph(ts, 0, EdgeOP::Undirected) {
            Some((g, _)) => Some(g),
            None => None,
        },
    }
}

/// Law: every statement the grammar yields is well-formed for the
/// direction it was parsed under.
pub proof fn lemma_stmt_wf(ts: Seq<TokenView>, pos: int, dir: EdgeOP)
    ensures
        match p_stmt(ts, pos, dir) {
            Some((st, _)) => stmt_wf(st, dir),
            None => true,
        },
    decreases ts.len() - pos, 9int,
{
    let p0 = skip_filler(ts, pos);
    if pos <= p0 <= ts.len() {
        if p_assignment(ts, p0) is None {
            match p_edge(ts, p0, dir) {
                Some(_) => lemma_edge_wf(ts, p0, dir),
                None => match p_node(ts, p0) {
                    Some(_) => {},
                    None => match p_attr_stmt(ts, p0) {
                        Some(_) => {},
                        None => lemma_subgraph_wf(ts, p0, dir),
                    },
                },
            }
        }
    }
}

/// Law: every statement sequence the grammar yields is well-formed for
/// the direction it was parsed under.
pub proof fn lemma_stmt_list_wf(ts: Seq<TokenView>, pos: int, dir: EdgeOP)
    ensures
        stmts_wf(p_stmt_list(ts, pos, dir).0, dir),
    decreases ts.len() - pos, 10int,
{
    match p_stmt(ts, pos, dir) {
        Some((st, p1)) => {
            lemma_stmt_wf(ts, pos, dir);
            if pos < p1 <= ts.len() {
                let p2 = if is_separator(ts, p1) {
                    p1 + 1
                } else {
                    p1
                };
                lemma_stmt_list_wf(ts, p2, dir);
                let (rest, _p3) = p_stmt_list(ts, p2, dir);
                assert(stmts_wf(rest, dir));
                assert((seq![st] + rest).drop_first() =~= rest);
                assert((seq![st] + rest)[0] == st);
            }
        },
        None => {},
    }
}

/// Law: every subgraph the grammar yields carries the direction it was
/// parsed under, and all its statements are well-formed for it.
pub proof fn lemma_subgraph_wf(ts: Seq<TokenView>, pos: int, dir: EdgeOP)
    ensures
        match p_subgraph(ts, pos, dir) {
            Some((sg, _)) => subgraph_wf(sg, dir),
            None => true,
        },
    decreases ts.len() - pos, 6int,
{
    let p0 = skip_filler(ts, pos);
    if pos <= p0 <= ts.len() {
        let p1 = if is_tok(ts, p0, TokenView::Subgraph) {
            p0 + 1
        } else {
            p0
        };
        let p2 = match id_at(ts, p1) {
            Some(_) => p1 + 1,
            None => p1,
        };
        if is_tok(ts, p2, TokenView::OpenParen) {
            lemma_stmt_list_wf(ts, p2 + 1, dir);
        }
    }
}

/// Law: the parts of an edge right-hand side the grammar yields are
/// well-formed for the direction it was parsed under.
pub proof fn lemma_edge_rhs_wf(ts: Seq<TokenView>, pos: int, dir: EdgeOP)
    ensures
        match p_edge_rhs(ts, pos, dir) {
            Some((r, _)) => rhs_parts_wf(r, dir),
            None => true,
        },
    decreases ts.len() - pos, 8int,
{
    match p_edge(ts, pos, dir) {
        Some(_) => lemma_edge_wf(ts, pos, dir),
        None => match p_node(ts, pos) {
            Some(_) => {},
            None => lemma_subgraph_wf(ts, pos, dir),
        },
    }
}

/// Law: every edge the grammar yields uses the operator of the direction
/// it was parsed under, and its attribute list is shared with every edge
/// level of its chain (the hoisting invariant).
pub proof fn lemma_edge_wf(ts: Seq<TokenView>, pos: int, dir: EdgeOP)
    ensures
        match p_edge(ts, pos, dir) {
            Some((e, _)) => edge_wf(e, dir),
            None => true,
        },
    decreases ts.len() - pos, 7int,
{
    lemma_subgraph_wf(ts, pos, dir);
    let lhs = match p_subgraph(ts, pos, dir) {
        Some((sg, p1)) => Some((EdgeStatementLHS::Subgraph(sg), p1)),
        None => match p_node(ts, pos) {
            Some((n, p1)) => Some((EdgeStatementLHS::Node(n), p1)),
            None => None,
        },
    };
    match lhs {
        Some((l, p1)) => {
            if pos <= p1 <= ts.len() && is_tok(ts, p1, op_token(dir)) {
                lemma_edge_rhs_wf(ts, p1 + 1, dir);
                match p_edge_rhs(ts, p1 + 1, dir) {
                    Some((rhs, p2)) => {
                        if p1 + 1 <= p2 <= ts.len() {
                            let (trailing, p3) = match p_attr_list(ts, p2) {
                                Some((l2, q)) => (l2, q),
                                None => (Seq::<AttributeListNode>::empty(), p2),
                            };
                            if p2 <= p3 <= ts.len() {
                                let (attrs, rhs2) = hoist(trailing, rhs);
                                assert(rhs_wf(rhs2, dir, attrs));
                                assert(edge_wf(make_edge(l, dir, rhs2, attrs), dir));
                            }
                        }
                    },
                    None => {},
                }
            }
        },
        None => {},
    }
}

/// Law: every graph the grammar yields is well-formed: all edges below it
/// use its own direction operator and carry hoisted attribute lists, and
/// all subgraphs below it carry its direction.
pub proof fn lemma_graph_wf(ts: Seq<TokenView>, pos: int, dir: EdgeOP)
    ensures
        match p_graph(ts, pos, dir) {
            Some((g, _)) => graph_wf(g) && g.direction == dir,
            None => true,
        },
    decreases ts.len() - pos, 11int,
{
    let p0 = if is_tok(ts, pos, TokenView::Strict) {
        pos + 1
    } else {
        pos
    };
    if is_tok(ts, p0, graph_keyword(dir)) {
        let p1 = match id_at(ts, p0 + 1) {
            Some(_) => p0 + 2,
            None => p0 + 1,
        };
        if is_tok(ts, p1, TokenView::OpenParen) {
            lemma_stmt_list_wf(ts, p1 + 1, dir);
        }
    }
}

/// Law: whatever a whole parse yields is a well-formed graph.
pub proof fn lemma_dot_graph_wf(ts: Seq<TokenView>)
    ensures
        match p_dot_graph(ts) {
            Some(g) => graph_wf(g),
            None => true,
        },
{
    lemma_graph_wf(ts, 0, EdgeOP::Directed);
    lemma_graph_wf(ts, 0, EdgeOP::Undirected);
}

} // verus!

