//! The abstract syntax tree a parse produces.
//!
//! The tree is immutable and owned top-down.  The direction of a graph is a
//! runtime tag ([`EdgeOP`]) carried on the graph, on every subgraph and on
//! every edge, fixed for the whole tree.  Every type's model lives in
//! [`crate::nodes`]; the `*_view` functions map a tree to its model.

use crate::nodes::{
    AssignmentStatementNode, AttributeListNode, AttributeNode, AttributeStatementNode,
    EdgeRHSNode, EdgeStatementNode, GraphNode, IDNode, NodeID, NodeStatementNode, PortNode,
    StatementNode, SubgraphNode,
};
use vstd::prelude::*;

verus! {

broadcast use vstd::seq::group_seq_axioms;

/// An identifier as the tree stores it.
pub type ID = String;

/// The direction tag: the edge operator a graph's edges must use.
#[derive(Debug, Clone, Copy, PartialEq, Eq, Structural)]
pub enum EdgeOP {
    Directed,
    Undirected,
}

/// A `key = value` pair, used both inside attribute lists and as a plain
/// assignment statement.
#[derive(Debug, PartialEq, Eq)]
pub struct Assignment {
    pub lhs: ID,
    pub rhs: ID,
}

impl Assignment {
    /// Creates an assignment from its two identifiers.
    pub fn new(lhs: &str, rhs: &str) -> (r: Self)
        ensures
            r.lhs@ == lhs@,
            r.rhs@ == rhs@,
    {
        Assignment { lhs: lhs.to_owned(), rhs: rhs.to_owned() }
    }
}

impl View for Assignment {
    type V = AttributeNode;

    open spec fn view(&self) -> AttributeNode {
        AttributeNode { lhs_id: IDNode { id: self.lhs@ }, rhs_id: IDNode { id: self.rhs@ } }
    }
}

/// One bracketed group of assignments.
pub type AssignmentGroup = Vec<Assignment>;

/// A sequence of bracketed assignment groups, each keeping its own group
/// boundary.
pub type AttributeList = Vec<AssignmentGroup>;

/// The model of one assignment group.
pub open spec fn group_view(g: Seq<Assignment>) -> AttributeListNode {
    AttributeListNode { attributes: g.map_values(|a: Assignment| a@) }
}

/// The model of an attribute list.
pub open spec fn attr_list_view(l: Seq<AssignmentGroup>) -> Seq<AttributeListNode> {
    l.map_values(|g: AssignmentGroup| group_view(g@))
}

/// An attribute-default statement, scoped to one of the three keywords.
#[derive(Debug, PartialEq, Eq)]
pub enum AttributeStatement {
    Graph(AttributeList),
    Node(AttributeList),
    Edge(AttributeList),
}

impl View for AttributeStatement {
    type V = AttributeStatementNode;

    open spec fn view(&self) -> AttributeStatementNode {
        match self {
            AttributeStatement::Graph(l) => AttributeStatementNode::Graph(attr_list_view(l@)),
            AttributeStatement::Node(l) => AttributeStatementNode::Node(attr_list_view(l@)),
            AttributeStatement::Edge(l) => AttributeStatementNode::Edge(attr_list_view(l@)),
        }
    }
}

/// A port attached to a node reference.
#[derive(Debug, PartialEq, Eq)]
pub struct Port {
    pub id: ID,
    pub compass_point: Option<ID>,
}

impl View for Port {
    type V = PortNode;

    open spec fn view(&self) -> PortNode {
        PortNode {
            id: self.id@,
            compass_point: match self.compass_point {
                Some(c) => Some(c@),
                None => None,
            },
        }
    }
}

/// A node declaration or reference: identifier, optional port, optional
/// attribute list.
#[derive(Debug, PartialEq, Eq)]
pub struct Node {
    pub id: ID,
    pub port: Option<Port>,
    pub attribute_list: Option<AttributeList>,
}

impl View for Node {
    type V = NodeStatementNode;

    open spec fn view(&self) -> NodeStatementNode {
        NodeStatementNode {
            id: NodeID {
                id: self.id@,
                port: match self.port {
                    Some(p) => Some(p@),
                    None => None,
                },
            },
            attributes: match self.attribute_list {
                Some(l) => Some(attr_list_view(l@)),
                None => None,
            },
        }
    }
}

/// The left endpoint of an edge.
#[derive(Debug, PartialEq, Eq)]
pub enum EdgeLHS {
    Node(Node),
    Subgraph(Subgraph),
}

/// The right-hand side of an edge: a chained edge, a node reference, or a
/// subgraph.
#[derive(Debug, PartialEq, Eq)]
pub enum EdgeRHS {
    Edge(Edge),
    Node(Node),
    Subgraph(Subgraph),
}

/// An edge statement.  Its attribute list is the one written after the last
/// element of its chain, hoisted onto every edge level of the chain.
#[derive(Debug, PartialEq, Eq)]
pub struct Edge {
    pub lhs: EdgeLHS,
    pub op: EdgeOP,
    pub rhs: Box<EdgeRHS>,
    pub attr_list: AttributeList,
}

/// One statement of a graph or subgraph body.
#[derive(Debug, PartialEq, Eq)]
pub enum Statement {
    Node(Box<Node>),
    Edge(Box<Edge>),
    Attribute(Box<AttributeStatement>),
    Assignment(Box<Assignment>),
    Subgraph(Box<Subgraph>),
}

/// A subgraph: optional identifier and statements, in the enclosing
/// graph's direction.
#[derive(Debug, PartialEq, Eq)]
pub struct Subgraph {
    pub id: Option<ID>,
    pub direction: EdgeOP,
    pub statements: Vec<Statement>,
}

/// A whole graph.  The identifier is empty when the source gave none.
#[derive(Debug, PartialEq, Eq)]
pub struct Graph {
    pub id: ID,
    pub is_strict: bool,
    pub direction: EdgeOP,
    pub statements: Vec<Statement>,
}

/// The model of a statement.
pub open spec fn stmt_view(s: Statement) -> StatementNode
    decreases s,
{
    match s {
        Statement::Node(n) => StatementNode::Node(n@),
        Statement::Edge(e) => StatementNode::Edge(edge_view(*e)),
        Statement::Attribute(a) => StatementNode::Attribute(a@),
        Statement::Assignment(a) => StatementNode::Assignment(
            AssignmentStatementNode { lhs_id: IDNode { id: a.lhs@ }, rhs_id: IDNode { id: a.rhs@ } },
        ),
        Statement::Subgraph(sg) => StatementNode::Subgraph(subgraph_view(*sg)),
    }
}

/// The model of a statement sequence.
pub open spec fn stmts_view(ss: Seq<Statement>) -> Seq<StatementNode>
    decreases ss,
{
    Seq::new(
        ss.len(),
        |k: int|
            if 0 <= k < ss.len() {
                stmt_view(ss[k])
            } else {
                arbitrary()
            },
    )
}

/// The model of a subgraph.
pub open spec fn subgraph_view(sg: Subgraph) -> SubgraphNode
    decreases sg,
{
    SubgraphNode {
        id: match sg.id {
            Some(i) => Some(IDNode { id: i@ }),
            None => None,
        },
        direction: sg.direction,
        statements: stmts_view(sg.statements@),
    }
}

/// The model of an edge.
pub open spec fn edge_view(e: Edge) -> EdgeStatementNode
    decreases e,
{
    match e.lhs {
        EdgeLHS::Node(n) => EdgeStatementNode::Node {
            lhs: n@,
            op: e.op,
            rhs: Box::new(edge_rhs_view(*e.rhs)),
            attr_list: attr_list_view(e.attr_list@),
        },
        EdgeLHS::Subgraph(sg) => EdgeStatementNode::Subgraph {
            lhs: subgraph_view(sg),
            op: e.op,
            rhs: Box::new(edge_rhs_view(*e.rhs)),
            attr_list: attr_list_view(e.attr_list@),
        },
    }
}

/// The model of an edge's right-hand side.
pub open spec fn edge_rhs_view(r: EdgeRHS) -> EdgeRHSNode
    decreases r,
{
    match r {
        EdgeRHS::Edge(e) => EdgeRHSNode::Edge(Box::new(edge_view(e))),
        EdgeRHS::Node(n) => EdgeRHSNode::Node(n@),
        EdgeRHS::Subgraph(sg) => EdgeRHSNode::Subgraph(subgraph_view(sg)),
    }
}

impl View for Statement {
    type V = StatementNode;

    open spec fn view(&self) -> StatementNode {
        stmt_view(*self)
    }
}

impl View for Edge {
    type V = EdgeStatementNode;

    open spec fn view(&self) -> EdgeStatementNode {
        edge_view(*self)
    }
}

impl View for EdgeRHS {
    type V = EdgeRHSNode;

    open spec fn view(&self) -> EdgeRHSNode {
        edge_rhs_view(*self)
    }
}

impl View for Subgraph {
    type V = SubgraphNode;

    open spec fn view(&self) -> SubgraphNode {
        subgraph_view(*self)
    }
}

impl View for Graph {
    type V = GraphNode;

    open spec fn view(&self) -> GraphNode {
        GraphNode {
            strict: self.is_strict,
            id: self.id@,
            direction: self.direction,
            statements: stmts_view(self.statements@),
        }
    }
}

/// The parsed form of a whole input: a directed or an undirected graph.
#[derive(Debug, PartialEq, Eq)]
pub enum DotGraph {
    Undirected(Graph),
    Directed(Graph),
}

impl View for DotGraph {
    type V = GraphNode;

    open spec fn view(&self) -> GraphNode {
        match self {
            DotGraph::Undirected(g) => g@,
            DotGraph::Directed(g) => g@,
        }
    }
}

/// The single failure value of a parse: productions report no detail beyond
/// failing.
#[derive(Debug, PartialEq, Eq)]
pub struct ParseError;

} // verus!
