//! The AST node model: a strict tree of variant node kinds, each node
//! exclusively owning its children. Rule handlers build nodes bottom-up, so
//! every non-leaf node's children are fully constructed before the parent is.

use vstd::prelude::*;

use crate::lexer::Token;

verus! {

/// One expression-tree node.
#[derive(Debug)]
pub enum Node {
    /// A raw token kept as a node, used for operators and for the parser's
    /// sentinel error leaf.
    Leaf { value: Token },
    /// A literal word.
    Text { value: String },
    /// A quoted string assembled from literal pieces and substitutions.
    TextParts { parts: Vec<Node> },
    /// A numeric literal, still in digit form, with its base.
    Number { value: String, base: u8 },
    /// One pipeline stage: a run of argument expressions.
    Command { arguments: Vec<Node> },
    /// A chain of commands connected stage to stage.
    Pipeline { commands: Vec<Node> },
    /// A deferred handle to a resolved value, written with the provider
    /// sigil before its target.
    Provider { target: Box<Node> },
    /// A prefix operator applied to one operand.
    Unary { operator: Box<Node>, target: Box<Node> },
    /// An infix operator applied to two operands.
    Binary { lefter: Box<Node>, operator: Box<Node>, righter: Box<Node> },
    /// A (possibly dotted) receiver bound to the value of an expression.
    Assignment { receiver: Box<Node>, value: Box<Node> },
    /// The declared parameter names of a closure.
    ClosureArguments { values: Vec<Node> },
    /// A closure literal: parameter list and body, not evaluated until called.
    Closure { arguments: Box<Node>, body: Box<Node> },
    /// A run of statements; its value is the last statement's value.
    Expressions { values: Vec<Node> },
}


/// The shape of a node at the specification level: the same variants, the
/// carried text as character sequences.
pub enum NodeView {
    Leaf { token: crate::lexer::TokenView },
    Text { text: Seq<char> },
    TextParts { parts: Seq<NodeView> },
    Number { text: Seq<char>, base: u8 },
    Command { arguments: Seq<NodeView> },
    Pipeline { commands: Seq<NodeView> },
    Provider { target: Box<NodeView> },
    Unary { operator: Box<NodeView>, target: Box<NodeView> },
    Binary { lefter: Box<NodeView>, operator: Box<NodeView>, righter: Box<NodeView> },
    Assignment { receiver: Box<NodeView>, value: Box<NodeView> },
    ClosureArguments { values: Seq<NodeView> },
    Closure { arguments: Box<NodeView>, body: Box<NodeView> },
    Expressions { values: Seq<NodeView> },
}

impl View for Node {
    type V = NodeView;

    open spec fn view(&self) -> NodeView {
        spec_node_view(*self)
    }
}

/// The view of one node, worked out recursively.
pub open spec fn spec_node_view(node: Node) -> NodeView
    decreases node,
{
    match node {
        Node::Leaf { value } => NodeView::Leaf { token: value@ },
        Node::Text { value } => NodeView::Text { text: value@ },
        Node::TextParts { parts } => NodeView::TextParts { parts: spec_node_views(parts@) },
        Node::Number { value, base } => NodeView::Number { text: value@, base: base },
        Node::Command { arguments } => NodeView::Command {
            arguments: spec_node_views(arguments@),
        },
        Node::Pipeline { commands } => NodeView::Pipeline {
            commands: spec_node_views(commands@),
        },
        Node::Provider { target } => NodeView::Provider {
            target: Box::new(spec_node_view(*target)),
        },
        Node::Unary { operator, target } => NodeView::Unary {
            operator: Box::new(spec_node_view(*operator)),
            target: Box::new(spec_node_view(*target)),
        },
        Node::Binary { lefter, operator, righter } => NodeView::Binary {
            lefter: Box::new(spec_node_view(*lefter)),
            operator: Box::new(spec_node_view(*operator)),
            righter: Box::new(spec_node_view(*righter)),
        },
        Node::Assignment { receiver, value } => NodeView::Assignment {
            receiver: Box::new(spec_node_view(*receiver)),
            value: Box::new(spec_node_view(*value)),
        },
        Node::ClosureArguments { values } => NodeView::ClosureArguments {
            values: spec_node_views(values@),
        },
        Node::Closure { arguments, body } => NodeView::Closure {
            arguments: Box::new(spec_node_view(*arguments)),
            body: Box::new(spec_node_view(*body)),
        },
        Node::Expressions { values } => NodeView::Expressions {
            values: spec_node_views(values@),
        },
    }
}

/// The views of a run of sibling nodes./// The views of a run of sibling nodes.
pub open spec fn spec_node_views(nodes: Seq<Node>) -> Seq<NodeView>
    decreases nodes,
{
    if nodes.len() == 0 {
        Seq::empty()
    } else {
        seq![spec_node_view(nodes[0])] + spec_node_views(nodes.skip(1))
    }
}

/// A sibling run's views are read off element by element.
pub proof fn lemma_node_views(nodes: Seq<Node>)
    ensures
        spec_node_views(nodes).len() == nodes.len(),
        forall|i: int|
            0 <= i < nodes.len() ==> #[trigger] spec_node_views(nodes)[i] == nodes[i]@,
    decreases nodes,
{
    if nodes.len() > 0 {
        lemma_node_views(nodes.skip(1));
        assert forall|i: int|
            0 <= i < nodes.len() implies #[trigger] spec_node_views(nodes)[i] == nodes[i]@ by {
            if i > 0 {
                assert(spec_node_views(nodes)[i] == spec_node_views(nodes.skip(1))[i - 1]);
                assert(nodes.skip(1)[i - 1] == nodes[i]);
            }
        }
    }
}

/// The views of a run with one node put before it.
pub proof fn lemma_node_views_cons(node: Node, tail: Seq<Node>)
    ensures
        spec_node_views(seq![node] + tail) == seq![spec_node_view(node)] + spec_node_views(tail),
{
    let joined = seq![node] + tail;
    assert(joined[0] == node);
    assert(joined.skip(1) =~= tail);
}

/// The views of a run grown by one node at its end.
pub proof fn lemma_node_views_push(nodes: Seq<Node>, node: Node)
    ensures
        spec_node_views(nodes.push(node)) == spec_node_views(nodes).push(spec_node_view(node)),
{
    lemma_node_views(nodes);
    lemma_node_views(nodes.push(node));
    assert(spec_node_views(nodes.push(node)) =~= spec_node_views(nodes).push(
        spec_node_view(node),
    ));
}

impl Node {
    /// The word carried by a `Text` node, or the digits of a `Number` node,
    /// also when it stands alone inside a pipeline, command or statement
    /// wrapper; assignment receivers and closure parameter names are read
    /// this way without being evaluated.
    pub fn extract_text(&self) -> (r: Option<String>)
        ensures
            match r {
                Some(s) => self.spec_extract_text() == Some(s@),
                None => self.spec_extract_text() is None,
            },
        decreases *self,
    {
        match self {
            Node::Text { value } => Some(value.clone()),
            Node::Number { value, .. } => Some(value.clone()),
            Node::Pipeline { commands } => {
                if commands.len() == 1 {
                    commands[0].extract_text()
                } else {
                    None
                }
            },
            Node::Command { arguments } => {
                if arguments.len() == 1 {
                    arguments[0].extract_text()
                } else {
                    None
                }
            },
            Node::Expressions { values } => {
                if values.len() == 1 {
                    values[0].extract_text()
                } else {
                    None
                }
            },
            _ => None,
        }
    }

    /// `extract_text` at the specification level.
    pub open spec fn spec_extract_text(self) -> Option<Seq<char>>
        decreases self,
    {
        match self {
            Node::Text { value } => Some(value@),
            Node::Number { value, .. } => Some(value@),
            Node::Pipeline { commands } => if commands@.len() == 1 {
                commands@[0].spec_extract_text()
            } else {
                None
            },
            Node::Command { arguments } => if arguments@.len() == 1 {
                arguments@[0].spec_extract_text()
            } else {
                None
            },
            Node::Expressions { values } => if values@.len() == 1 {
                values@[0].spec_extract_text()
            } else {
                None
            },
            _ => None,
        }
    }

    /// A copy of the whole tree, equal to it shape for shape and text for
    /// text.
    pub fn duplicate(&self) -> (r: Node)
        ensures
            spec_node_eq(*self, r),
        decreases *self,
    {
        match self {
            Node::Leaf { value } => Node::Leaf { value: value.duplicate() },
            Node::Text { value } => Node::Text { value: value.clone() },
            Node::TextParts { parts } => Node::TextParts { parts: duplicate_nodes(parts) },
            Node::Number { value, base } => Node::Number { value: value.clone(), base: *base },
            Node::Command { arguments } => Node::Command { arguments: duplicate_nodes(arguments) },
            Node::Pipeline { commands } => Node::Pipeline { commands: duplicate_nodes(commands) },
            Node::Provider { target } => Node::Provider { target: Box::new(target.duplicate()) },
            Node::Unary { operator, target } => Node::Unary {
                operator: Box::new(operator.duplicate()),
                target: Box::new(target.duplicate()),
            },
            Node::Binary { lefter, operator, righter } => Node::Binary {
                lefter: Box::new(lefter.duplicate()),
                operator: Box::new(operator.duplicate()),
                righter: Box::new(righter.duplicate()),
            },
            Node::Assignment { receiver, value } => Node::Assignment {
                receiver: Box::new(receiver.duplicate()),
                value: Box::new(value.duplicate()),
            },
            Node::ClosureArguments { values } => Node::ClosureArguments {
                values: duplicate_nodes(values),
            },
            Node::Closure { arguments, body } => Node::Closure {
                arguments: Box::new(arguments.duplicate()),
                body: Box::new(body.duplicate()),
            },
            Node::Expressions { values } => Node::Expressions { values: duplicate_nodes(values) },
        }
    }
}

/// A copy of a run of sibling nodes, element for element equal in shape and
/// text.
fn duplicate_nodes(nodes: &Vec<Node>) -> (r: Vec<Node>)
    ensures
        spec_nodes_eq(nodes@, r@),
    decreases nodes@,
{
    let mut result: Vec<Node> = Vec::new();
    let mut index: usize = 0;
    while index < nodes.len()
        invariant
            index <= nodes@.len(),
            result@.len() == index,
            forall|j: int| 0 <= j < index ==> spec_node_eq(#[trigger] nodes@[j], result@[j]),
        decreases nodes@.len() - index,
    {
        result.push(nodes[index].duplicate());
        index = index + 1;
    }
    result
}

/// Node equality, shape for shape: subtrees must agree on their kinds, their
/// carried text and their children. Owned strings are compared by their
/// contents.
pub open spec fn spec_node_eq(a: Node, b: Node) -> bool
    decreases a,
{
    match (a, b) {
        (Node::Leaf { value: ta }, Node::Leaf { value: tb }) => ta == tb,
        (Node::Text { value: va }, Node::Text { value: vb }) => va@ == vb@,
        (Node::TextParts { parts: pa }, Node::TextParts { parts: pb }) => spec_nodes_eq(pa@, pb@),
        (
            Node::Number { value: va, base: ba },
            Node::Number { value: vb, base: bb },
        ) => va@ == vb@ && ba == bb,
        (Node::Command { arguments: pa }, Node::Command { arguments: pb }) => spec_nodes_eq(
            pa@,
            pb@,
        ),
        (Node::Pipeline { commands: pa }, Node::Pipeline { commands: pb }) => spec_nodes_eq(
            pa@,
            pb@,
        ),
        (Node::Provider { target: ta }, Node::Provider { target: tb }) => spec_node_eq(*ta, *tb),
        (
            Node::Unary { operator: oa, target: ta },
            Node::Unary { operator: ob, target: tb },
        ) => spec_node_eq(*oa, *ob) && spec_node_eq(*ta, *tb),
        (
            Node::Binary { lefter: la, operator: oa, righter: ra },
            Node::Binary { lefter: lb, operator: ob, righter: rb },
        ) => spec_node_eq(*la, *lb) && spec_node_eq(*oa, *ob) && spec_node_eq(*ra, *rb),
        (
            Node::Assignment { receiver: ra, value: va },
            Node::Assignment { receiver: rb, value: vb },
        ) => spec_node_eq(*ra, *rb) && spec_node_eq(*va, *vb),
        (
            Node::ClosureArguments { values: pa },
            Node::ClosureArguments { values: pb },
        ) => spec_nodes_eq(pa@, pb@),
        (
            Node::Closure { arguments: aa, body: ca },
            Node::Closure { arguments: ab, body: cb },
        ) => spec_node_eq(*aa, *ab) && spec_node_eq(*ca, *cb),
        (Node::Expressions { values: pa }, Node::Expressions { values: pb }) => spec_nodes_eq(
            pa@,
            pb@,
        ),
        _ => false,
    }
}

/// Element-for-element node equality of two runs of siblings.
pub open spec fn spec_nodes_eq(a: Seq<Node>, b: Seq<Node>) -> bool
    decreases a,
{
    a.len() == b.len() && forall|i: int|
        0 <= i < a.len() ==> spec_node_eq(#[trigger] a[i], b[i])
}

} // verus!
