//! Building the syntax tree. The tree is built by `rowan`: tokens are handed to its
//! builder one by one, nodes are opened and closed around them, and a node may be opened
//! after the fact around what has been built since a checkpoint.

use vstd::prelude::*;
use vstd::string::StringExecFns;
use rowan::{Checkpoint, GreenNode, GreenNodeBuilder};
use crate::errors::err::{LanguloErr, SemanticError};
use crate::parser::ast::lang::LanguloSyntaxNode;
use crate::parser::ast::node::AstNode;

verus! {

#[verifier::external_type_specification]
#[verifier::external_body]
pub struct ExGreenNodeBuilder<'cache>(GreenNodeBuilder<'cache>);

#[verifier::external_type_specification]
#[verifier::external_body]
pub struct ExGreenNode(GreenNode);

#[verifier::external_type_specification]
#[verifier::external_body]
pub struct ExCheckpoint(Checkpoint);

/// A piece of a tree: a token with its text, or a node with the pieces below it.
pub enum Element {
    Token { kind: u16, text: Seq<char> },
    Node { kind: u16, children: Seq<Element> },
}

/// The pieces that a builder holds: the finished ones, and those that wait for their
/// node to be finished.
pub uninterp spec fn built_children(builder: GreenNodeBuilder<'static>) -> Seq<Element>;

/// The nodes that a builder has open, outermost first: of each its kind and the index
/// of its first piece among the pieces that the builder holds.
pub uninterp spec fn built_parents(builder: GreenNodeBuilder<'static>) -> Seq<(u16, nat)>;

/// The number of pieces that the builder held when the checkpoint was taken.
pub uninterp spec fn marked(checkpoint: Checkpoint) -> nat;

/// What a finished node holds: its kind, and the pieces below it.
pub uninterp spec fn green_parts(node: GreenNode) -> (u16, Seq<Element>);

/// The tree of a finished node.
pub open spec fn green_tree(node: GreenNode) -> Element {
    Element::Node { kind: green_parts(node).0, children: green_parts(node).1 }
}

/// The number of bytes of the text of a piece.
pub open spec fn element_bytes(element: Element) -> nat
    decreases element, 0int,
{
    match element {
        Element::Token { text, .. } => vstd::utf8::encode_utf8(text).len(),
        Element::Node { children, .. } => total_bytes(children, children.len() as int),
    }
}

/// The number of bytes of the text of the first `upto` pieces.
pub open spec fn total_bytes(elements: Seq<Element>, upto: int) -> nat
    decreases elements, upto,
{
    if 0 < upto <= elements.len() {
        total_bytes(elements, upto - 1) + element_bytes(elements[upto - 1])
    } else {
        0
    }
}

/// The text of a piece: of a node, the texts of its pieces in a row.
pub open spec fn element_text(element: Element) -> Seq<char>
    decreases element, 0int,
{
    match element {
        Element::Token { text, .. } => text,
        Element::Node { children, .. } => texts(children, children.len() as int),
    }
}

/// The texts of the first `upto` pieces in a row.
pub open spec fn texts(elements: Seq<Element>, upto: int) -> Seq<char>
    decreases elements, upto,
{
    if 0 < upto <= elements.len() {
        texts(elements, upto - 1) + element_text(elements[upto - 1])
    } else {
        Seq::empty()
    }
}

/// Whether every piece of the tree is of a kind that the language has.
pub open spec fn known(element: Element) -> bool
    decreases element, 0int,
{
    match element {
        Element::Token { kind, .. } => kind < AstNode::COUNT,
        Element::Node { kind, children } => kind < AstNode::COUNT && known_all(
            children,
            children.len() as int,
        ),
    }
}

/// Whether the first `upto` pieces are of kinds that the language has.
pub open spec fn known_all(elements: Seq<Element>, upto: int) -> bool
    decreases elements, upto,
{
    if 0 < upto <= elements.len() {
        known_all(elements, upto - 1) && known(elements[upto - 1])
    } else {
        true
    }
}

/// The number of nodes among the pieces from `from` up to `upto`.
pub open spec fn node_count(elements: Seq<Element>, from: int, upto: int) -> nat
    decreases upto - from,
{
    if 0 <= from < upto <= elements.len() {
        node_count(elements, from, upto - 1) + if elements[upto - 1] is Node {
            1nat
        } else {
            0nat
        }
    } else {
        0
    }
}

/// Whether a tree is shaped as the language says: every node has below it as many nodes
/// as its kind takes.
pub open spec fn shaped(element: Element) -> bool
    decreases element, 0int,
{
    match element {
        Element::Token { .. } => true,
        Element::Node { kind, children } => {
            &&& AstNode::spec_from(kind) matches Some(k) && k.takes(
                node_count(children, 0, children.len() as int) as int,
            )
            &&& shaped_all(children, children.len() as int)
        },
    }
}

/// Whether the first `upto` pieces are shaped as the language says.
pub open spec fn shaped_all(elements: Seq<Element>, upto: int) -> bool
    decreases elements, upto,
{
    if 0 < upto <= elements.len() {
        shaped_all(elements, upto - 1) && shaped(elements[upto - 1])
    } else {
        true
    }
}

/// The count of nodes depends on the pieces alone.
pub proof fn lemma_count_same(a: Seq<Element>, b: Seq<Element>, from: int, upto: int)
    requires
        0 <= from <= upto <= a.len(),
        upto <= b.len(),
        forall|i: int| from <= i < upto ==> a[i] == b[i],
    ensures
        node_count(a, from, upto) == node_count(b, from, upto),
    decreases upto - from,
{
    if from < upto {
        lemma_count_same(a, b, from, upto - 1);
    }
}

/// The nodes of a run of pieces are the nodes of its two parts.
pub proof fn lemma_count_split(elements: Seq<Element>, from: int, middle: int, upto: int)
    requires
        0 <= from <= middle <= upto <= elements.len(),
    ensures
        node_count(elements, from, upto) == node_count(elements, from, middle) + node_count(
            elements,
            middle,
            upto,
        ),
    decreases upto - middle,
{
    if middle < upto {
        lemma_count_split(elements, from, middle, upto - 1);
    }
}

/// The nodes of the pieces from `first` on, counted among them alone.
pub proof fn lemma_count_skip(elements: Seq<Element>, first: int, upto: int)
    requires
        0 <= first <= upto <= elements.len(),
    ensures
        node_count(elements.skip(first), 0, upto - first) == node_count(elements, first, upto),
    decreases upto - first,
{
    if first < upto {
        lemma_count_skip(elements, first, upto - 1);
        assert(elements.skip(first)[upto - first - 1] == elements[upto - 1]);
    }
}

/// Shaped pieces stay shaped in a sequence that starts with them.
pub proof fn lemma_shaped_same(a: Seq<Element>, b: Seq<Element>, upto: int)
    requires
        0 <= upto <= a.len(),
        upto <= b.len(),
        forall|i: int| 0 <= i < upto ==> a[i] == b[i],
    ensures
        shaped_all(a, upto) == shaped_all(b, upto),
    decreases upto,
{
    if upto > 0 {
        lemma_shaped_same(a, b, upto - 1);
    }
}

/// The pieces from `first` on are shaped where all pieces are.
pub proof fn lemma_shaped_split(elements: Seq<Element>, first: int, upto: int)
    requires
        0 <= first <= upto <= elements.len(),
        shaped_all(elements, upto),
    ensures
        shaped_all(elements, first),
        shaped_all(elements.skip(first), upto - first),
    decreases upto - first,
{
    if first < upto {
        lemma_shaped_split(elements, first, upto - 1);
        assert(elements.skip(first)[upto - first - 1] == elements[upto - 1]);
    }
}

/// Closing a node over shaped pieces gives shaped pieces, where the node has as many
/// nodes below it as its kind takes; and the node counts as one.
pub proof fn lemma_closed_shaped(children: Seq<Element>, kind: AstNode, first: int, base: int)
    requires
        0 <= base <= first <= children.len(),
        shaped_all(children, children.len() as int),
        kind.takes(node_count(children, first, children.len() as int) as int),
    ensures
        shaped_all(closed(children, kind.code(), first), first + 1),
        node_count(closed(children, kind.code(), first), base, first + 1) == node_count(
            children,
            base,
            first,
        ) + 1,
{
    let after = closed(children, kind.code(), first);
    kind.lemma_code();
    lemma_shaped_split(children, first, children.len() as int);
    lemma_count_skip(children, first, children.len() as int);
    assert forall|i: int| 0 <= i < first implies after[i] == children[i] by {}
    lemma_shaped_same(after, children, first);
    lemma_count_same(after, children, base, first);
    assert(after.len() == first + 1);
    assert(after[first] == Element::Node { kind: kind.code(), children: children.skip(first) });
    assert(children.skip(first).len() == children.len() - first);
    assert(shaped(after[first]));
}

/// The pieces left after the node that starts at `first` was finished: the pieces from
/// `first` on have become one node.
pub open spec fn closed(children: Seq<Element>, kind: u16, first: int) -> Seq<Element> {
    children.take(first).push(Element::Node { kind, children: children.skip(first) })
}

/// `GreenNodeBuilder::new`: a builder that holds nothing.
#[verifier::external_body]
fn builder_new() -> (builder: GreenNodeBuilder<'static>)
    ensures
        built_children(builder) == Seq::<Element>::empty(),
        built_parents(builder) == Seq::<(u16, nat)>::empty(),
{
    GreenNodeBuilder::new()
}

/// `GreenNodeBuilder::token`: one more piece, a token.
#[verifier::external_body]
fn builder_token(builder: &mut GreenNodeBuilder<'static>, kind: u16, text: &str)
    ensures
        built_children(*final(builder)) == built_children(*old(builder)).push(
            Element::Token { kind, text: text@ },
        ),
        built_parents(*final(builder)) == built_parents(*old(builder)),
{
    builder.token(rowan::SyntaxKind(kind), text)
}

/// `GreenNodeBuilder::start_node`: opens a node; what is built from now on goes below
/// it.
#[verifier::external_body]
fn builder_start_node(builder: &mut GreenNodeBuilder<'static>, kind: u16)
    ensures
        built_children(*final(builder)) == built_children(*old(builder)),
        built_parents(*final(builder)) == built_parents(*old(builder)).push(
            (kind, built_children(*old(builder)).len()),
        ),
{
    builder.start_node(rowan::SyntaxKind(kind))
}

/// `GreenNodeBuilder::finish_node`: closes the innermost open node, which takes the
/// pieces from its first on. The call panics where no node is open, where the first
/// piece is behind the last, or where the node's text has more bytes than 32 bits count.
#[verifier::external_body]
fn builder_finish_node(builder: &mut GreenNodeBuilder<'static>)
    requires
        built_parents(*old(builder)).len() > 0,
        built_parents(*old(builder)).last().1 <= built_children(*old(builder)).len(),
        total_bytes(built_children(*old(builder)), built_children(*old(builder)).len() as int)
            <= u32::MAX,
    ensures
        built_children(*final(builder)) == closed(
            built_children(*old(builder)),
            built_parents(*old(builder)).last().0,
            built_parents(*old(builder)).last().1 as int,
        ),
        built_parents(*final(builder)) == built_parents(*old(builder)).drop_last(),
{
    builder.finish_node()
}

/// `GreenNodeBuilder::checkpoint`: remembers how many pieces the builder holds.
#[verifier::external_body]
fn builder_checkpoint(builder: &GreenNodeBuilder<'static>) -> (checkpoint: Checkpoint)
    ensures
        marked(checkpoint) == built_children(*builder).len(),
{
    builder.checkpoint()
}

/// `GreenNodeBuilder::start_node_at`: opens a node whose first piece is the one at the
/// checkpoint. The call panics where the checkpoint is behind the pieces, or before the
/// first piece of the innermost open node.
#[verifier::external_body]
fn builder_start_node_at(builder: &mut GreenNodeBuilder<'static>, checkpoint: Checkpoint, kind: u16)
    requires
        marked(checkpoint) <= built_children(*old(builder)).len(),
        built_parents(*old(builder)).len() > 0 ==> built_parents(*old(builder)).last().1
            <= marked(checkpoint),
    ensures
        built_children(*final(builder)) == built_children(*old(builder)),
        built_parents(*final(builder)) == built_parents(*old(builder)).push(
            (kind, marked(checkpoint)),
        ),
{
    builder.start_node_at(checkpoint, rowan::SyntaxKind(kind))
}

/// `GreenNodeBuilder::finish`: the one node that the builder holds. The call panics
/// where the builder holds anything but one node.
#[verifier::external_body]
fn builder_finish(builder: GreenNodeBuilder<'static>) -> (node: GreenNode)
    requires
        built_children(builder).len() == 1,
        built_children(builder)[0] is Node,
    ensures
        green_tree(node) == built_children(builder)[0],
{
    builder.finish()
}

/// A piece of a finished tree.
pub enum GreenChild {
    Token { kind: u16, text: String },
    Node(GreenNode),
}

impl View for GreenChild {
    type V = Element;

    open spec fn view(&self) -> Element {
        match *self {
            GreenChild::Token { kind, text } => Element::Token { kind, text: text@ },
            GreenChild::Node(node) => green_tree(node),
        }
    }
}

/// `GreenNodeData::kind`: the kind of a node.
#[verifier::external_body]
fn green_kind(node: &GreenNode) -> (kind: u16)
    ensures
        kind == green_parts(*node).0,
{
    node.kind().0
}

/// `GreenNodeData::children` and the length of what it hands out: the number of pieces
/// below a node.
#[verifier::external_body]
fn green_len(node: &GreenNode) -> (count: usize)
    ensures
        count == green_parts(*node).1.len(),
{
    node.children().len()
}

/// `GreenNodeData::children` and the `nth` of what it hands out: the piece at `index`
/// below a node.
#[verifier::external_body]
fn green_child(node: &GreenNode, index: usize) -> (child: GreenChild)
    requires
        index < green_parts(*node).1.len(),
    ensures
        child@ == green_parts(*node).1[index as int],
{
    match node.children().nth(index).unwrap() {
        rowan::NodeOrToken::Node(n) => GreenChild::Node(n.to_owned()),
        rowan::NodeOrToken::Token(t) => GreenChild::Token {
            kind: t.kind().0,
            text: t.text().to_owned(),
        },
    }
}

/// Whether a syntax node says what a node of the built tree holds: its kind, its text,
/// and of the pieces below it the nodes, each said by a syntax node, in their order.
/// Tokens have no syntax node of their own: they are in the text.
pub open spec fn mirrors(node: LanguloSyntaxNode, element: Element) -> bool
    decreases element, 0int,
{
    match element {
        Element::Token { .. } => false,
        Element::Node { kind, children } => {
            &&& node.kind.code() == kind
            &&& node.text@ == element_text(element)
            &&& node.float_bits == 0
            &&& mirrors_all(node.children@, children, children.len() as int)
        },
    }
}

/// Whether the syntax nodes say what the nodes among the first `upto` pieces hold.
pub open spec fn mirrors_all(nodes: Seq<LanguloSyntaxNode>, elements: Seq<Element>, upto: int) -> bool
    decreases elements, upto,
{
    if 0 < upto <= elements.len() {
        if elements[upto - 1] is Node {
            &&& nodes.len() > 0
            &&& mirrors(nodes.last(), elements[upto - 1])
            &&& mirrors_all(nodes.drop_last(), elements, upto - 1)
        } else {
            mirrors_all(nodes, elements, upto - 1)
        }
    } else {
        nodes.len() == 0
    }
}

/// A syntax node that says what a shaped node holds is shaped.
pub proof fn lemma_mirrors_shaped(node: LanguloSyntaxNode, element: Element)
    requires
        mirrors(node, element),
        shaped(element),
    ensures
        node.shaped(),
    decreases element, 0int,
{
    let children = element->Node_children;
    lemma_mirrors_all_shaped(node.children@, children, children.len() as int);
    node.kind.lemma_code();
}

/// Syntax nodes that say what the nodes among shaped pieces hold are as many as those
/// nodes, and shaped.
pub proof fn lemma_mirrors_all_shaped(
    nodes: Seq<LanguloSyntaxNode>,
    elements: Seq<Element>,
    upto: int,
)
    requires
        0 <= upto <= elements.len(),
        mirrors_all(nodes, elements, upto),
        shaped_all(elements, upto),
    ensures
        nodes.len() == node_count(elements, 0, upto),
        forall|i: int| 0 <= i < nodes.len() ==> (#[trigger] nodes[i]).shaped(),
    decreases elements, upto,
{
    if upto > 0 {
        if elements[upto - 1] is Node {
            lemma_mirrors_shaped(nodes.last(), elements[upto - 1]);
            lemma_mirrors_all_shaped(nodes.drop_last(), elements, upto - 1);
            assert forall|i: int| 0 <= i < nodes.len() implies (#[trigger] nodes[i]).shaped() by {
                if i < nodes.len() - 1 {
                    assert(nodes.drop_last()[i] == nodes[i]);
                }
            }
        } else {
            lemma_mirrors_all_shaped(nodes, elements, upto - 1);
        }
    }
}

/// The syntax tree of a finished node. A node of a kind that the language does not have
/// has none.
pub fn syntax_tree(green: &GreenNode) -> (result: Result<LanguloSyntaxNode, LanguloErr>)
    ensures
        result matches Ok(node) ==> mirrors(node, green_tree(*green)),
        result matches Err(e) ==> e == LanguloErr::Semantic(SemanticError::Malformed),
        result is Ok <==> known(green_tree(*green)),
    decreases green_tree(*green),
{
    let kind = match AstNode::from_u16(green_kind(green)) {
        Some(kind) => kind,
        None => {
            return Err(LanguloErr::Semantic(SemanticError::Malformed));
        },
    };
    let count = green_len(green);
    let ghost elements = green_tree(*green)->Node_children;
    let mut text = String::new();
    let mut children: Vec<LanguloSyntaxNode> = Vec::new();
    let mut i: usize = 0;
    while i < count
        invariant
            i <= count,
            green_tree(*green) is Node,
            elements == green_tree(*green)->Node_children,
            green_tree(*green)->Node_kind < AstNode::COUNT,
            count == elements.len(),
            text@ == texts(elements, i as int),
            mirrors_all(children@, elements, i as int),
            known_all(elements, i as int),
        decreases count - i,
    {
        let ghost before = children@;
        let piece = green_child(green, i);
        match &piece {
            GreenChild::Token { kind: token_kind, text: token_text } => {
                if *token_kind >= AstNode::COUNT {
                    proof {
                        lemma_unknown(elements, i as int, elements.len() as int);
                    }
                    return Err(LanguloErr::Semantic(SemanticError::Malformed));
                }
                text.append(token_text.as_str());
                proof {
                    assert(known(elements[i as int]));
                    assert(element_text(elements[i as int]) == token_text@);
                    assert(texts(elements, i + 1) == texts(elements, i as int) + element_text(
                        elements[i as int],
                    ));
                }
            },
            GreenChild::Node(below) => {
                let node = match syntax_tree(below) {
                    Ok(node) => node,
                    Err(e) => {
                        proof {
                            lemma_unknown(elements, i as int, elements.len() as int);
                        }
                        return Err(e);
                    },
                };
                proof {
                    assert(green_tree(*below) == elements[i as int]);
                    assert(known(elements[i as int]));
                    assert(mirrors(node, elements[i as int]));
                    assert(elements[i as int] is Node);
                    assert(node.text@ == element_text(elements[i as int]));
                    assert(texts(elements, i + 1) == texts(elements, i as int) + element_text(
                        elements[i as int],
                    ));
                }
                text.append(node.text.as_str());
                children.push(node);
                proof {
                    assert(children@.drop_last() =~= before);
                    assert(children@.last() == node);
                }
            },
        }
        i += 1;
    }
    Ok(LanguloSyntaxNode { kind, text, float_bits: 0, children })
}

/// Where one piece is of an unknown kind, the pieces are not all of known kinds.
proof fn lemma_unknown(elements: Seq<Element>, at: int, upto: int)
    requires
        0 <= at < upto <= elements.len(),
        !known(elements[at]),
    ensures
        !known_all(elements, upto),
    decreases upto,
{
    if at < upto - 1 {
        lemma_unknown(elements, at, upto - 1);
    }
}

/// The first pieces of known kinds stay of known kinds in a sequence that starts with
/// them.
proof fn lemma_known_same(a: Seq<Element>, b: Seq<Element>, upto: int)
    requires
        0 <= upto <= a.len(),
        upto <= b.len(),
        forall|i: int| 0 <= i < upto ==> a[i] == b[i],
    ensures
        known_all(a, upto) == known_all(b, upto),
    decreases upto,
{
    if upto > 0 {
        lemma_known_same(a, b, upto - 1);
    }
}

/// The pieces from `first` on are of known kinds where all pieces are.
proof fn lemma_known_split(elements: Seq<Element>, first: int, upto: int)
    requires
        0 <= first <= upto <= elements.len(),
        known_all(elements, upto),
    ensures
        known_all(elements, first),
        known_all(elements.skip(first), upto - first),
    decreases upto - first,
{
    if first < upto {
        lemma_known_split(elements, first, upto - 1);
        assert(elements.skip(first)[upto - first - 1] == elements[upto - 1]);
    }
}

/// A builder of syntax trees.
pub struct TreeBuilder {
    inner: GreenNodeBuilder<'static>,
    /// the bytes of the text of all tokens so far
    bytes: u32,
}

/// The bytes of a sequence depend on its pieces alone.
proof fn lemma_total_bytes_same(a: Seq<Element>, b: Seq<Element>, upto: int)
    requires
        0 <= upto <= a.len(),
        upto <= b.len(),
        forall|i: int| 0 <= i < upto ==> a[i] == b[i],
    ensures
        total_bytes(a, upto) == total_bytes(b, upto),
    decreases upto,
{
    if upto > 0 {
        lemma_total_bytes_same(a, b, upto - 1);
    }
}

/// The bytes of the pieces from `first` on, counted alone.
proof fn lemma_total_bytes_split(elements: Seq<Element>, first: int, upto: int)
    requires
        0 <= first <= upto <= elements.len(),
    ensures
        total_bytes(elements, upto) == total_bytes(elements, first) + total_bytes(
            elements.skip(first),
            upto - first,
        ),
    decreases upto - first,
{
    if first < upto {
        lemma_total_bytes_split(elements, first, upto - 1);
        assert(elements.skip(first)[upto - first - 1] == elements[upto - 1]);
    }
}

/// Closing a node leaves the bytes of the text as they are.
proof fn lemma_closed_bytes(children: Seq<Element>, kind: u16, first: int)
    requires
        0 <= first <= children.len(),
    ensures
        total_bytes(closed(children, kind, first), first + 1) == total_bytes(
            children,
            children.len() as int,
        ),
{
    let after = closed(children, kind, first);
    lemma_total_bytes_split(children, first, children.len() as int);
    assert forall|i: int| 0 <= i < first implies after[i] == children[i] by {}
    lemma_total_bytes_same(after, children, first);
    assert(after.len() == first + 1);
    assert(after[first] == Element::Node { kind, children: children.skip(first) });
    assert(children.skip(first).len() == children.len() - first);
    assert(element_bytes(after[first]) == total_bytes(
        children.skip(first),
        children.len() - first,
    ));
    assert(total_bytes(after, first + 1) == total_bytes(after, first) + element_bytes(
        after[first],
    ));
}

impl TreeBuilder {
    /// The pieces that the builder holds.
    pub closed spec fn children(&self) -> Seq<Element> {
        built_children(self.inner)
    }

    /// The nodes that the builder has open.
    pub closed spec fn parents(&self) -> Seq<(u16, nat)> {
        built_parents(self.inner)
    }

    /// The bytes of text that the builder holds.
    pub closed spec fn bytes(&self) -> nat {
        self.bytes as nat
    }

    /// What holds of every builder: each open node starts among the pieces and no
    /// earlier than the node around it, and the count of bytes is right.
    pub open spec fn wf(&self) -> bool {
        &&& forall|i: int|
            0 <= i < self.parents().len() ==> (#[trigger] self.parents()[i]).1
                <= self.children().len()
        &&& forall|i: int, j: int|
            0 <= i <= j < self.parents().len() ==> (#[trigger] self.parents()[i]).1 <= (
            #[trigger] self.parents()[j]).1
        &&& self.bytes() == total_bytes(self.children(), self.children().len() as int)
        &&& known_all(self.children(), self.children().len() as int)
        &&& forall|i: int|
            0 <= i < self.parents().len() ==> (#[trigger] self.parents()[i]).0 < AstNode::COUNT
    }

    pub fn new() -> (builder: TreeBuilder)
        ensures
            builder.wf(),
            builder.children() == Seq::<Element>::empty(),
            builder.parents() == Seq::<(u16, nat)>::empty(),
    {
        TreeBuilder { inner: builder_new(), bytes: 0 }
    }

    /// Adds a token. A token that takes the text beyond the bytes that a tree can address
    /// is refused, and the builder stays as it is.
    pub fn token(&mut self, kind: AstNode, text: &str) -> (result: Result<(), LanguloErr>)
        requires
            old(self).wf(),
        ensures
            final(self).wf(),
            final(self).parents() == old(self).parents(),
            result is Ok <==> old(self).bytes() + vstd::utf8::encode_utf8(text@).len() <= u32::MAX,
            result is Ok ==> final(self).children() == old(self).children().push(
                Element::Token { kind: kind.code(), text: text@ },
            ),
            result is Err ==> result == Err::<(), LanguloErr>(
                LanguloErr::Semantic(SemanticError::TooLong),
            ) && final(self).children() == old(self).children(),
    {
        let length = text.as_bytes().len();
        proof {
            lemma_encoded_length(text@);
        }
        if length > (u32::MAX - self.bytes) as usize {
            return Err(LanguloErr::Semantic(SemanticError::TooLong));
        }
        let ghost before = self.children();
        builder_token(&mut self.inner, kind.to_u16(), text);
        self.bytes = self.bytes + length as u32;
        proof {
            let after = self.children();
            assert forall|i: int| 0 <= i < before.len() implies after[i] == before[i] by {}
            lemma_total_bytes_same(after, before, before.len() as int);
            assert(after[before.len() as int] == Element::Token { kind: kind.code(), text: text@ });
            assert(element_bytes(after[before.len() as int]) == length);
            assert(total_bytes(after, after.len() as int) == total_bytes(
                after,
                before.len() as int,
            ) + element_bytes(after[before.len() as int]));
            assert forall|i: int| 0 <= i < self.parents().len() implies (
            #[trigger] self.parents()[i]).1 <= self.children().len() by {
                assert(old(self).parents()[i].1 <= before.len());
            }
            lemma_known_same(after, before, before.len() as int);
            assert(known(after[before.len() as int]));
        }
        Ok(())
    }

    /// Opens a node.
    pub fn start_node(&mut self, kind: AstNode)
        requires
            old(self).wf(),
        ensures
            final(self).wf(),
            final(self).children() == old(self).children(),
            final(self).parents() == old(self).parents().push(
                (kind.code(), old(self).children().len()),
            ),
    {
        builder_start_node(&mut self.inner, kind.to_u16());
        proof {
            let before = old(self).parents();
            let after = self.parents();
            assert forall|i: int| 0 <= i < after.len() implies (#[trigger] after[i]).1
                <= self.children().len() by {
                if i < before.len() {
                    assert(after[i] == before[i]);
                }
            }
            assert forall|i: int, j: int| 0 <= i <= j < after.len() implies (
            #[trigger] after[i]).1 <= (#[trigger] after[j]).1 by {
                if j < before.len() {
                    assert(after[i] == before[i] && after[j] == before[j]);
                } else if i < before.len() {
                    assert(after[i] == before[i]);
                }
            }
        }
    }

    /// Closes the innermost open node.
    pub fn finish_node(&mut self)
        requires
            old(self).wf(),
            old(self).parents().len() > 0,
        ensures
            final(self).wf(),
            final(self).parents() == old(self).parents().drop_last(),
            final(self).children() == closed(
                old(self).children(),
                old(self).parents().last().0,
                old(self).parents().last().1 as int,
            ),
    {
        proof {
            let parents = self.parents();
            let last = parents.len() - 1;
            assert(parents[last].1 <= self.children().len());
            lemma_closed_bytes(self.children(), parents[last].0, parents[last].1 as int);
            let children = self.children();
            let first = parents[last].1 as int;
            let after = closed(children, parents[last].0, first);
            lemma_known_split(children, first, children.len() as int);
            assert forall|i: int| 0 <= i < first implies after[i] == children[i] by {}
            lemma_known_same(after, children, first);
            assert(children.skip(first).len() == children.len() - first);
            assert(known(after[first]));
            assert(known_all(after, first + 1));
            assert forall|i: int| 0 <= i < parents.drop_last().len() implies (
            #[trigger] parents.drop_last()[i]).1 <= parents[last].1 + 1 by {
                assert(parents.drop_last()[i] == parents[i]);
                assert(parents[i].1 <= parents[last].1);
            }
        }
        builder_finish_node(&mut self.inner);
    }

    /// Remembers where the next piece will stand.
    pub fn checkpoint(&self) -> (checkpoint: Checkpoint)
        ensures
            marked(checkpoint) == self.children().len(),
    {
        builder_checkpoint(&self.inner)
    }

    /// Opens a node around what has been built since the checkpoint.
    pub fn start_node_at(&mut self, checkpoint: Checkpoint, kind: AstNode)
        requires
            old(self).wf(),
            marked(checkpoint) <= old(self).children().len(),
            old(self).parents().len() > 0 ==> old(self).parents().last().1 <= marked(checkpoint),
        ensures
            final(self).wf(),
            final(self).children() == old(self).children(),
            final(self).parents() == old(self).parents().push((kind.code(), marked(checkpoint))),
    {
        builder_start_node_at(&mut self.inner, checkpoint, kind.to_u16());
        proof {
            let before = old(self).parents();
            let after = self.parents();
            assert forall|i: int, j: int| 0 <= i <= j < after.len() implies (
            #[trigger] after[i]).1 <= (#[trigger] after[j]).1 by {
                if j < before.len() {
                    assert(after[i] == before[i] && after[j] == before[j]);
                } else if i < before.len() {
                    assert(after[i] == before[i]);
                    assert(before[i].1 <= before.last().1);
                }
            }
        }
    }

    /// The tree, once the builder holds one node and nothing else.
    pub fn finish(self) -> (node: GreenNode)
        requires
            self.wf(),
            self.children().len() == 1,
            self.children()[0] is Node,
        ensures
            green_tree(node) == self.children()[0],
            known(green_tree(node)),
    {
        proof {
            assert(known_all(self.children(), 1));
        }
        builder_finish(self.inner)
    }
}

/// A text has at least as many bytes as characters, and at most four for each.
proof fn lemma_encoded_length(text: Seq<char>)
    ensures
        text.len() <= vstd::utf8::encode_utf8(text).len() <= 4 * text.len(),
    decreases text.len(),
{
    if text.len() > 0 {
        lemma_encoded_length(text.drop_first());
    }
}

} // verus!
