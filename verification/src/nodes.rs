//! The mathematical model of the abstract syntax tree.
//!
//! Every executable tree type of [`crate::ast`] has a model ("node") type
//! here, with text as character sequences and lists as `Seq`.  The grammar
//! model in [`crate::grammar`] and every parser contract speak in these
//! types.

use crate::ast::EdgeOP;
use vstd::prelude::*;

verus! {

/// An identifier: its semantic text.
#[verifier::ext_equal]
pub struct IDNode {
    pub id: Seq<char>,
}

/// A port: its identifier and an optional compass-point identifier.
#[verifier::ext_equal]
pub struct PortNode {
    pub id: Seq<char>,
    pub compass_point: Option<Seq<char>>,
}

/// A node reference: an identifier with an optional port.
#[verifier::ext_equal]
pub struct NodeID {
    pub id: Seq<char>,
    pub port: Option<PortNode>,
}

/// One `key = value` pair inside an attribute list.
#[verifier::ext_equal]
pub struct AttributeNode {
    pub lhs_id: IDNode,
    pub rhs_id: IDNode,
}

/// One bracketed group of attribute assignments, in declaration order.
#[verifier::ext_equal]
pub struct AttributeListNode {
    pub attributes: Seq<AttributeNode>,
}

/// An attribute-default statement: an attribute list scoped to all graphs,
/// nodes or edges.
#[verifier::ext_equal]
pub enum AttributeStatementNode {
    Graph(Seq<AttributeListNode>),
    Node(Seq<AttributeListNode>),
    Edge(Seq<AttributeListNode>),
}

/// A plain assignment statement `key = value`.
#[verifier::ext_equal]
pub struct AssignmentStatementNode {
    pub lhs_id: IDNode,
    pub rhs_id: IDNode,
}

/// A node declaration: a node reference with its bracketed attribute
/// groups, or none at all for a bare reference.
#[verifier::ext_equal]
pub struct NodeStatementNode {
    pub id: NodeID,
    pub attributes: Option<Seq<AttributeListNode>>,
}

/// The right-hand side of an edge: a further edge (a chain), a node
/// reference, or a subgraph.
#[verifier::ext_equal]
pub enum EdgeRHSNode {
    Edge(Box<EdgeStatementNode>),
    Node(NodeStatementNode),
    Subgraph(SubgraphNode),
}

/// An edge statement: a left endpoint (node reference or subgraph), the
/// direction operator, a right-hand side, and the edge's attribute list.
#[verifier::ext_equal]
#[allow(inconsistent_fields)]
pub enum EdgeStatementNode {
    Node {
        lhs: NodeStatementNode,
        op: EdgeOP,
        rhs: Box<EdgeRHSNode>,
        attr_list: Seq<AttributeListNode>,
    },
    Subgraph {
        lhs: SubgraphNode,
        op: EdgeOP,
        rhs: Box<EdgeRHSNode>,
        attr_list: Seq<AttributeListNode>,
    },
}

impl EdgeStatementNode {
    /// The edge's direction operator.
    pub open spec fn op(self) -> EdgeOP {
        match self {
            EdgeStatementNode::Node { op, .. } => op,
            EdgeStatementNode::Subgraph { op, .. } => op,
        }
    }

    /// The edge's right-hand side.
    pub open spec fn rhs(self) -> EdgeRHSNode {
        match self {
            EdgeStatementNode::Node { rhs, .. } => *rhs,
            EdgeStatementNode::Subgraph { rhs, .. } => *rhs,
        }
    }

    /// The edge's attribute list.
    pub open spec fn attr_list(self) -> Seq<AttributeListNode> {
        match self {
            EdgeStatementNode::Node { attr_list, .. } => attr_list,
            EdgeStatementNode::Subgraph { attr_list, .. } => attr_list,
        }
    }
}

/// One statement of a graph or subgraph body.
#[verifier::ext_equal]
pub enum StatementNode {
    Node(NodeStatementNode),
    Edge(EdgeStatementNode),
    Attribute(AttributeStatementNode),
    Assignment(AssignmentStatementNode),
    Subgraph(SubgraphNode),
}

/// A subgraph: an optional identifier and its statements, in the direction
/// of the enclosing graph.
#[verifier::ext_equal]
pub struct SubgraphNode {
    pub id: Option<IDNode>,
    pub direction: EdgeOP,
    pub statements: Seq<StatementNode>,
}

/// A whole graph: the strict flag, its identifier (empty when absent), its
/// direction, and its statements.
#[verifier::ext_equal]
pub struct GraphNode {
    pub strict: bool,
    pub id: Seq<char>,
    pub direction: EdgeOP,
    pub statements: Seq<StatementNode>,
}

} // verus!
