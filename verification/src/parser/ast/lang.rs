//! The syntax tree that the parser hands to the emitter.

use vstd::prelude::*;
use crate::parser::ast::node::AstNode;

verus! {

/// A node of the syntax tree: its kind, the text of the source that it covers, and the
/// nodes below it. Trivia such as whitespace and comments are no nodes.
pub struct LanguloSyntaxNode {
    pub kind: AstNode,
    /// The text of the source that the node covers, without the tokens that the tree
    /// leaves out: of a literal or an identifier, the token itself.
    pub text: String,
    /// For a float literal, the bits of the IEEE-754 double that the text denotes.
    pub float_bits: u64,
    pub children: Vec<LanguloSyntaxNode>,
}

/// What tells a node apart: its kind and the range of bytes of the source that it
/// covers.
pub type NodeId = (AstNode, (u32, u32));

impl LanguloSyntaxNode {
    /// Whether the tree is shaped as the language says: every node has as many nodes
    /// below it as its kind takes.
    pub open spec fn shaped(self) -> bool
        decreases self,
    {
        &&& self.kind.takes(self.children@.len() as int)
        &&& forall|i: int| 0 <= i < self.children@.len() ==> (#[trigger] self.children@[i]).shaped()
    }

    /// A node without children.
    pub fn leaf(kind: AstNode, text: &str) -> (node: LanguloSyntaxNode)
        ensures
            node.kind == kind,
            node.text@ == text@,
            node.float_bits == 0,
            node.children@.len() == 0,
    {
        LanguloSyntaxNode { kind, text: text.to_owned(), float_bits: 0, children: Vec::new() }
    }

    /// A float literal.
    pub fn float(text: &str, float_bits: u64) -> (node: LanguloSyntaxNode)
        ensures
            node.kind == AstNode::Float,
            node.text@ == text@,
            node.float_bits == float_bits,
            node.children@.len() == 0,
    {
        LanguloSyntaxNode { kind: AstNode::Float, text: text.to_owned(), float_bits, children: Vec::new() }
    }

    /// A node above the given nodes.
    pub fn branch(kind: AstNode, text: &str, children: Vec<LanguloSyntaxNode>) -> (node:
        LanguloSyntaxNode)
        ensures
            node.kind == kind,
            node.text@ == text@,
            node.float_bits == 0,
            node.children == children,
    {
        LanguloSyntaxNode { kind, text: text.to_owned(), float_bits: 0, children }
    }
}

} // verus!
