//! The rule table of the language and the handlers that fold matched
//! sub-nodes into AST nodes. Handlers build bottom-up: every child is
//! complete before its parent is constructed, and list-shaped nodes grow by
//! the controlled extract-and-append step of the recursive branches.

use vstd::prelude::*;
use vstd::string::StringExecFns;

use crate::ast::Node;
use crate::ast::NodeView;
use crate::ast::lemma_node_views;
use crate::ast::lemma_node_views_push;
use crate::ast::spec_node_views;
use crate::lexer::Token;
use crate::lexer::TokenView;
use crate::ruler::Branch;
use crate::ruler::Grammar;
use crate::ruler::PatternItem;
use crate::ruler::Rule;

verus! {

/// Which fold a branch performs on its matched sub-nodes.
#[derive(Clone, Copy, Debug)]
pub enum Handler {
    Pass,
    Unary,
    Binary,
    Assignment,
    ProviderCreate,
    TextPartSubstitution,
    TextPartsCreate,
    TextPartsAppend,
    StringPassMiddle,
    ClosureArgumentsCreate,
    ClosureArgumentsAppend,
    LeafSubstitution,
    LeafClosureIndependent,
    LeafClosureDependent,
    CommandCreate,
    CommandAppend,
    PipelineCreate,
    PipelineAppend,
    ExpressionsAppend,
}

/// The placeholder a handler yields when a branch handed it a pattern of
/// unexpected shape, at the specification level.
pub open spec fn spec_todo(location: Seq<char>) -> NodeView {
    NodeView::Text { text: "[todo:"@ + location + "]"@ }
}

/// What `handle_token` builds, at the specification level.
pub open spec fn spec_handle_token(token: TokenView) -> NodeView {
    match token {
        TokenView::Number { text, base } => NodeView::Number { text, base },
        TokenView::Text { text } => NodeView::Text { text },
        TokenView::Operator { text } => NodeView::Text { text },
        TokenView::Delimiter { text } => NodeView::Text { text },
        TokenView::Whitespace { text } => NodeView::Text { text },
        _ => NodeView::Text { text: Seq::empty() },
    }
}

/// What each fold builds from the matched sub-nodes, at the specification
/// level, arity checks included.
pub open spec fn spec_apply_handler(handler: Handler, values: Seq<NodeView>) -> NodeView {
    match handler {
        Handler::Pass => if values.len() == 1 {
            values[0]
        } else {
            spec_todo("pass"@)
        },
        Handler::Unary => if values.len() == 2 {
            NodeView::Unary { operator: Box::new(values[0]), target: Box::new(values[1]) }
        } else {
            spec_todo("unary"@)
        },
        Handler::Binary => if values.len() == 3 {
            NodeView::Binary {
                lefter: Box::new(values[0]),
                operator: Box::new(values[1]),
                righter: Box::new(values[2]),
            }
        } else {
            spec_todo("binary"@)
        },
        Handler::Assignment => if values.len() == 3 {
            NodeView::Assignment { receiver: Box::new(values[0]), value: Box::new(values[2]) }
        } else {
            spec_todo("assignment"@)
        },
        Handler::ProviderCreate => if values.len() == 2 {
            NodeView::Provider { target: Box::new(values[1]) }
        } else {
            spec_todo("provider"@)
        },
        Handler::TextPartSubstitution => if values.len() == 3 {
            values[1]
        } else {
            spec_todo("text_part_substitution"@)
        },
        Handler::TextPartsCreate => if values.len() == 1 {
            NodeView::TextParts { parts: seq![values[0]] }
        } else {
            spec_todo("text_parts_create"@)
        },
        Handler::TextPartsAppend => if values.len() == 2 {
            match values[0] {
                NodeView::TextParts { parts } => NodeView::TextParts {
                    parts: parts.push(values[1]),
                },
                other => NodeView::TextParts { parts: seq![other, values[1]] },
            }
        } else {
            spec_todo("text_parts_append"@)
        },
        Handler::StringPassMiddle => if values.len() == 3 {
            values[1]
        } else {
            spec_todo("string_pass_middle"@)
        },
        Handler::ClosureArgumentsCreate => if values.len() == 1 {
            NodeView::ClosureArguments { values: seq![values[0]] }
        } else {
            spec_todo("closure_arguments_create"@)
        },
        Handler::ClosureArgumentsAppend => if values.len() == 3 {
            match values[0] {
                NodeView::ClosureArguments { values: declared } => NodeView::ClosureArguments {
                    values: declared.push(values[2]),
                },
                other => NodeView::ClosureArguments { values: seq![other, values[2]] },
            }
        } else {
            spec_todo("closure_arguments_append"@)
        },
        Handler::LeafSubstitution => if values.len() == 3 {
            values[1]
        } else {
            spec_todo("leaf_substitution"@)
        },
        Handler::LeafClosureIndependent => if values.len() == 3 {
            NodeView::Closure {
                arguments: Box::new(NodeView::ClosureArguments { values: Seq::empty() }),
                body: Box::new(values[1]),
            }
        } else {
            spec_todo("leaf_closure_independent"@)
        },
        Handler::LeafClosureDependent => if values.len() == 6 {
            NodeView::Closure { arguments: Box::new(values[1]), body: Box::new(values[4]) }
        } else {
            spec_todo("leaf_closure_dependent"@)
        },
        Handler::CommandCreate => if values.len() == 1 {
            NodeView::Command { arguments: seq![values[0]] }
        } else {
            spec_todo("command_create"@)
        },
        Handler::CommandAppend => if values.len() == 2 {
            match values[0] {
                NodeView::Command { arguments } => NodeView::Command {
                    arguments: arguments.push(values[1]),
                },
                other => NodeView::Command { arguments: seq![other, values[1]] },
            }
        } else {
            spec_todo("command_append"@)
        },
        Handler::PipelineCreate => if values.len() == 1 {
            NodeView::Pipeline { commands: seq![values[0]] }
        } else {
            spec_todo("pipeline_create"@)
        },
        Handler::PipelineAppend => if values.len() == 3 {
            match values[0] {
                NodeView::Pipeline { commands } => NodeView::Pipeline {
                    commands: commands.push(values[2]),
                },
                other => NodeView::Pipeline { commands: seq![other, values[2]] },
            }
        } else {
            spec_todo("pipeline_append"@)
        },
        Handler::ExpressionsAppend => if values.len() == 3 {
            match values[0] {
                NodeView::Expressions { values: statements } => NodeView::Expressions {
                    values: statements.push(values[2]),
                },
                other => NodeView::Expressions { values: seq![other, values[2]] },
            }
        } else {
            spec_todo("expressions_append"@)
        },
    }
}

/// Left-associativity in one fold: a recursive branch hands its handler
/// the seed parsed so far as the first sub-node, and the binary fold makes
/// that seed the left operand — the right-nested form is never built.
pub proof fn lemma_binary_fold_keeps_seed_left(seed: NodeView, operator: NodeView, right: NodeView)
    ensures
        spec_apply_handler(Handler::Binary, seq![seed, operator, right]) == (NodeView::Binary {
            lefter: Box::new(seed),
            operator: Box::new(operator),
            righter: Box::new(right),
        }),
{
}

/// The placeholder node a handler yields when a branch handed it a pattern
/// of unexpected shape.
fn create_todo(location: &str) -> (r: Node)
    ensures
        r is Text,
        r@ == spec_todo(location@),
{
    let mut value: String = "[todo:".to_owned();
    value.append(location);
    value.append("]");
    Node::Text { value }
}

/// The node a single matched token becomes: numbers keep their digits and
/// base, words their text, and anything else its carried value.
pub fn handle_token(token: &Token) -> (r: Node)
    ensures
        token matches Token::Number { value, base } ==> (r matches Node::Number {
            value: v,
            base: b,
        } && v@ == value@ && b == base),
        token matches Token::Text { value } ==> (r matches Node::Text { value: v } && v@
            == value@),
        r@ == spec_handle_token(token@),
{
    match token {
        Token::Number { value, base } => Node::Number { value: value.clone(), base: *base },
        Token::Text { value } => Node::Text { value: value.clone() },
        _ => {
            let carried = Token::get_value(token);
            match carried {
                Some(text) => Node::Text { value: text.clone() },
                None => Node::Text { value: String::new() },
            }
        },
    }
}

fn handle_pass(mut pattern: Vec<Node>) -> (r: Node)
    ensures
        r@ == spec_apply_handler(Handler::Pass, spec_node_views(pattern@)),
        pattern@.len() == 1 ==> r == pattern@[0],
{
    proof {
        lemma_node_views(pattern@);
    }
    if pattern.len() == 1 {
        pattern.remove(0)
    } else {
        create_todo("pass")
    }
}

fn handle_unary(mut pattern: Vec<Node>) -> (r: Node)
    ensures
        r@ == spec_apply_handler(Handler::Unary, spec_node_views(pattern@)),
        pattern@.len() == 2 ==> (r matches Node::Unary { operator, target } && *operator
            == pattern@[0] && *target == pattern@[1]),
{
    proof {
        lemma_node_views(pattern@);
    }
    if pattern.len() == 2 {
        let operator = pattern.remove(0);
        let target = pattern.remove(0);
        Node::Unary { operator: Box::new(operator), target: Box::new(target) }
    } else {
        create_todo("unary")
    }
}

fn handle_binary(mut pattern: Vec<Node>) -> (r: Node)
    ensures
        r@ == spec_apply_handler(Handler::Binary, spec_node_views(pattern@)),
        pattern@.len() == 3 ==> (r matches Node::Binary { lefter, operator, righter }
            && *lefter == pattern@[0] && *operator == pattern@[1] && *righter == pattern@[2]),
{
    proof {
        lemma_node_views(pattern@);
    }
    if pattern.len() == 3 {
        let lefter = pattern.remove(0);
        let operator = pattern.remove(0);
        let righter = pattern.remove(0);
        Node::Binary {
            lefter: Box::new(lefter),
            operator: Box::new(operator),
            righter: Box::new(righter),
        }
    } else {
        create_todo("binary")
    }
}

fn handle_assignment(mut pattern: Vec<Node>) -> (r: Node)
    ensures
        r@ == spec_apply_handler(Handler::Assignment, spec_node_views(pattern@)),
        pattern@.len() == 3 ==> (r matches Node::Assignment { receiver, value } && *receiver
            == pattern@[0] && *value == pattern@[2]),
{
    proof {
        lemma_node_views(pattern@);
    }
    if pattern.len() == 3 {
        let receiver = pattern.remove(0);
        let operator = pattern.remove(0);
        let value = pattern.remove(0);
        Node::Assignment { receiver: Box::new(receiver), value: Box::new(value) }
    } else {
        create_todo("assignment")
    }
}

fn handle_provider(mut pattern: Vec<Node>) -> (r: Node)
    ensures
        r@ == spec_apply_handler(Handler::ProviderCreate, spec_node_views(pattern@)),
        pattern@.len() == 2 ==> (r matches Node::Provider { target } && *target == pattern@[1]),
{
    proof {
        lemma_node_views(pattern@);
    }
    if pattern.len() == 2 {
        let sigil = pattern.remove(0);
        let target = pattern.remove(0);
        Node::Provider { target: Box::new(target) }
    } else {
        create_todo("provider")
    }
}

/// The middle of a three-item pattern, used for parenthesized substitution
/// and for the quoted string's contents.
fn handle_middle(mut pattern: Vec<Node>, location: &str) -> (r: Node)
    ensures
        pattern@.len() == 3 ==> r == pattern@[1],
        pattern@.len() == 3 ==> r@ == spec_node_views(pattern@)[1],
        pattern@.len() != 3 ==> r@ == spec_todo(location@),
{
    proof {
        lemma_node_views(pattern@);
    }
    if pattern.len() == 3 {
        pattern.remove(1)
    } else {
        create_todo(location)
    }
}

fn handle_text_parts_create(mut pattern: Vec<Node>) -> (r: Node)
    ensures
        r@ == spec_apply_handler(Handler::TextPartsCreate, spec_node_views(pattern@)),
        pattern@.len() == 1 ==> (r matches Node::TextParts { parts } && parts@ == seq![
            pattern@[0],
        ]),
{
    proof {
        lemma_node_views(pattern@);
    }
    let ghost orig = pattern@;
    if pattern.len() == 1 {
        let first = pattern.remove(0);
        let mut parts: Vec<Node> = Vec::new();
        parts.push(first);
        proof {
            assert(parts@ =~= seq![orig[0]]);
            lemma_node_views(parts@);
            assert(spec_node_views(parts@) =~= seq![crate::ast::spec_node_view(first)]);
        }
        Node::TextParts { parts }
    } else {
        create_todo("text_parts_create")
    }
}

fn handle_text_parts_append(mut pattern: Vec<Node>) -> (r: Node)
    ensures
        r@ == spec_apply_handler(Handler::TextPartsAppend, spec_node_views(pattern@)),
        pattern@.len() == 2 ==> (pattern@[0] matches Node::TextParts { parts } ==> (
        r matches Node::TextParts { parts: grown } && grown@ == parts@.push(pattern@[1]))),
{
    proof {
        lemma_node_views(pattern@);
    }
    if pattern.len() == 2 {
        let seed = pattern.remove(0);
        let element = pattern.remove(0);
        let ghost seed_view = crate::ast::spec_node_view(seed);
        let ghost element_view = crate::ast::spec_node_view(element);
        match seed {
            Node::TextParts { mut parts } => {
                let ghost had = parts@;
                parts.push(element);
                proof {
                    lemma_node_views_push(had, element);
                }
                Node::TextParts { parts }
            },
            other => {
                let mut parts: Vec<Node> = Vec::new();
                parts.push(other);
                parts.push(element);
                proof {
                    lemma_node_views(parts@);
                    assert(spec_node_views(parts@) =~= seq![seed_view, element_view]);
                }
                Node::TextParts { parts }
            },
        }
    } else {
        create_todo("text_parts_append")
    }
}

fn handle_closure_arguments_create(mut pattern: Vec<Node>) -> (r: Node)
    ensures
        r@ == spec_apply_handler(Handler::ClosureArgumentsCreate, spec_node_views(pattern@)),
        pattern@.len() == 1 ==> (r matches Node::ClosureArguments { values } && values@
            == seq![pattern@[0]]),
{
    proof {
        lemma_node_views(pattern@);
    }
    let ghost orig = pattern@;
    if pattern.len() == 1 {
        let first = pattern.remove(0);
        let mut values: Vec<Node> = Vec::new();
        values.push(first);
        proof {
            assert(values@ =~= seq![orig[0]]);
            lemma_node_views(values@);
            assert(spec_node_views(values@) =~= seq![crate::ast::spec_node_view(first)]);
        }
        Node::ClosureArguments { values }
    } else {
        create_todo("closure_arguments_create")
    }
}

fn handle_closure_arguments_append(mut pattern: Vec<Node>) -> (r: Node)
    ensures
        r@ == spec_apply_handler(Handler::ClosureArgumentsAppend, spec_node_views(pattern@)),
        pattern@.len() == 3 ==> (pattern@[0] matches Node::ClosureArguments { values }
            ==> (r matches Node::ClosureArguments { values: grown } && grown@ == values@.push(
            pattern@[2],
        ))),
{
    proof {
        lemma_node_views(pattern@);
    }
    if pattern.len() == 3 {
        let seed = pattern.remove(0);
        let element = pattern.remove(1);
        let ghost seed_view = crate::ast::spec_node_view(seed);
        let ghost element_view = crate::ast::spec_node_view(element);
        match seed {
            Node::ClosureArguments { mut values } => {
                let ghost had = values@;
                values.push(element);
                proof {
                    lemma_node_views_push(had, element);
                }
                Node::ClosureArguments { values }
            },
            other => {
                let mut values: Vec<Node> = Vec::new();
                values.push(other);
                values.push(element);
                proof {
                    lemma_node_views(values@);
                    assert(spec_node_views(values@) =~= seq![seed_view, element_view]);
                }
                Node::ClosureArguments { values }
            },
        }
    } else {
        create_todo("closure_arguments_append")
    }
}

fn handle_leaf_closure_independent(mut pattern: Vec<Node>) -> (r: Node)
    ensures
        r@ == spec_apply_handler(Handler::LeafClosureIndependent, spec_node_views(pattern@)),
        pattern@.len() == 3 ==> (r matches Node::Closure { arguments, body } && *body == pattern@[1] && (*arguments matches Node::ClosureArguments { values } && values@.len() == 0)),
{
    proof {
        lemma_node_views(pattern@);
    }
    if pattern.len() == 3 {
        let body = pattern.remove(1);
        let empty_arguments = Node::ClosureArguments { values: Vec::new() };
        proof {
            assert(spec_node_views(Seq::<Node>::empty()) =~= Seq::<NodeView>::empty());
            assert(empty_arguments@ == (NodeView::ClosureArguments {
                values: Seq::<NodeView>::empty(),
            }));
        }
        Node::Closure { arguments: Box::new(empty_arguments), body: Box::new(body) }
    } else {
        create_todo("leaf_closure_independent")
    }
}

fn handle_leaf_closure_dependent(mut pattern: Vec<Node>) -> (r: Node)
    ensures
        r@ == spec_apply_handler(Handler::LeafClosureDependent, spec_node_views(pattern@)),
        pattern@.len() == 6 ==> (r matches Node::Closure { arguments, body } && *arguments
            == pattern@[1] && *body == pattern@[4]),
{
    proof {
        lemma_node_views(pattern@);
    }
    if pattern.len() == 6 {
        let arguments = pattern.remove(1);
        let body = pattern.remove(3);
        Node::Closure { arguments: Box::new(arguments), body: Box::new(body) }
    } else {
        create_todo("leaf_closure_dependent")
    }
}

fn handle_command_create(mut pattern: Vec<Node>) -> (r: Node)
    ensures
        r@ == spec_apply_handler(Handler::CommandCreate, spec_node_views(pattern@)),
        pattern@.len() == 1 ==> (r matches Node::Command { arguments } && arguments@ == seq![
            pattern@[0],
        ]),
{
    proof {
        lemma_node_views(pattern@);
    }
    let ghost orig = pattern@;
    if pattern.len() == 1 {
        let first = pattern.remove(0);
        let mut arguments: Vec<Node> = Vec::new();
        arguments.push(first);
        proof {
            assert(arguments@ =~= seq![orig[0]]);
            lemma_node_views(arguments@);
            assert(spec_node_views(arguments@) =~= seq![crate::ast::spec_node_view(first)]);
        }
        Node::Command { arguments }
    } else {
        create_todo("command_create")
    }
}

fn handle_command_append(mut pattern: Vec<Node>) -> (r: Node)
    ensures
        r@ == spec_apply_handler(Handler::CommandAppend, spec_node_views(pattern@)),
        pattern@.len() == 2 ==> (pattern@[0] matches Node::Command { arguments } ==> (
        r matches Node::Command { arguments: grown } && grown@ == arguments@.push(
            pattern@[1],
        ))),
{
    proof {
        lemma_node_views(pattern@);
    }
    if pattern.len() == 2 {
        let seed = pattern.remove(0);
        let element = pattern.remove(0);
        let ghost seed_view = crate::ast::spec_node_view(seed);
        let ghost element_view = crate::ast::spec_node_view(element);
        match seed {
            Node::Command { mut arguments } => {
                let ghost had = arguments@;
                arguments.push(element);
                proof {
                    lemma_node_views_push(had, element);
                }
                Node::Command { arguments }
            },
            other => {
                let mut arguments: Vec<Node> = Vec::new();
                arguments.push(other);
                arguments.push(element);
                proof {
                    lemma_node_views(arguments@);
                    assert(spec_node_views(arguments@) =~= seq![seed_view, element_view]);
                }
                Node::Command { arguments }
            },
        }
    } else {
        create_todo("command_append")
    }
}

fn handle_pipeline_create(mut pattern: Vec<Node>) -> (r: Node)
    ensures
        r@ == spec_apply_handler(Handler::PipelineCreate, spec_node_views(pattern@)),
        pattern@.len() == 1 ==> (r matches Node::Pipeline { commands } && commands@ == seq![
            pattern@[0],
        ]),
{
    proof {
        lemma_node_views(pattern@);
    }
    let ghost orig = pattern@;
    if pattern.len() == 1 {
        let first = pattern.remove(0);
        let mut commands: Vec<Node> = Vec::new();
        commands.push(first);
        proof {
            assert(commands@ =~= seq![orig[0]]);
            lemma_node_views(commands@);
            assert(spec_node_views(commands@) =~= seq![crate::ast::spec_node_view(first)]);
        }
        Node::Pipeline { commands }
    } else {
        create_todo("pipeline_create")
    }
}

fn handle_pipeline_append(mut pattern: Vec<Node>) -> (r: Node)
    ensures
        r@ == spec_apply_handler(Handler::PipelineAppend, spec_node_views(pattern@)),
        pattern@.len() == 3 ==> (pattern@[0] matches Node::Pipeline { commands } ==> (
        r matches Node::Pipeline { commands: grown } && grown@ == commands@.push(
            pattern@[2],
        ))),
{
    proof {
        lemma_node_views(pattern@);
    }
    if pattern.len() == 3 {
        let seed = pattern.remove(0);
        let element = pattern.remove(1);
        let ghost seed_view = crate::ast::spec_node_view(seed);
        let ghost element_view = crate::ast::spec_node_view(element);
        match seed {
            Node::Pipeline { mut commands } => {
                let ghost had = commands@;
                commands.push(element);
                proof {
                    lemma_node_views_push(had, element);
                }
                Node::Pipeline { commands }
            },
            other => {
                let mut commands: Vec<Node> = Vec::new();
                commands.push(other);
                commands.push(element);
                proof {
                    lemma_node_views(commands@);
                    assert(spec_node_views(commands@) =~= seq![seed_view, element_view]);
                }
                Node::Pipeline { commands }
            },
        }
    } else {
        create_todo("pipeline_append")
    }
}

fn handle_expressions_append(mut pattern: Vec<Node>) -> (r: Node)
    ensures
        r@ == spec_apply_handler(Handler::ExpressionsAppend, spec_node_views(pattern@)),
        pattern@.len() == 3 ==> (pattern@[0] matches Node::Expressions { values } ==> (
        r matches Node::Expressions { values: grown } && grown@ == values@.push(
            pattern@[2],
        ))),
{
    proof {
        lemma_node_views(pattern@);
    }
    if pattern.len() == 3 {
        let seed = pattern.remove(0);
        let element = pattern.remove(1);
        let ghost seed_view = crate::ast::spec_node_view(seed);
        let ghost element_view = crate::ast::spec_node_view(element);
        match seed {
            Node::Expressions { mut values } => {
                let ghost had = values@;
                values.push(element);
                proof {
                    lemma_node_views_push(had, element);
                }
                Node::Expressions { values }
            },
            other => {
                let mut values: Vec<Node> = Vec::new();
                values.push(other);
                values.push(element);
                proof {
                    lemma_node_views(values@);
                    assert(spec_node_views(values@) =~= seq![seed_view, element_view]);
                }
                Node::Expressions { values }
            },
        }
    } else {
        create_todo("expressions_append")
    }
}

/// Applies the named fold to the matched sub-nodes, exactly as
/// `spec_apply_handler` says.
pub fn apply_handler(handler: &Handler, values: Vec<Node>) -> (r: Node)
    ensures
        r@ == spec_apply_handler(*handler, spec_node_views(values@)),
{
    proof {
        lemma_node_views(values@);
    }
    match handler {
        Handler::Pass => handle_pass(values),
        Handler::Unary => handle_unary(values),
        Handler::Binary => handle_binary(values),
        Handler::Assignment => handle_assignment(values),
        Handler::ProviderCreate => handle_provider(values),
        Handler::TextPartSubstitution => handle_middle(values, "text_part_substitution"),
        Handler::TextPartsCreate => handle_text_parts_create(values),
        Handler::TextPartsAppend => handle_text_parts_append(values),
        Handler::StringPassMiddle => handle_middle(values, "string_pass_middle"),
        Handler::ClosureArgumentsCreate => handle_closure_arguments_create(values),
        Handler::ClosureArgumentsAppend => handle_closure_arguments_append(values),
        Handler::LeafSubstitution => handle_middle(values, "leaf_substitution"),
        Handler::LeafClosureIndependent => handle_leaf_closure_independent(values),
        Handler::LeafClosureDependent => handle_leaf_closure_dependent(values),
        Handler::CommandCreate => handle_command_create(values),
        Handler::CommandAppend => handle_command_append(values),
        Handler::PipelineCreate => handle_pipeline_create(values),
        Handler::PipelineAppend => handle_pipeline_append(values),
        Handler::ExpressionsAppend => handle_expressions_append(values),
    }
}

fn rule_ref(name: &str) -> (r: PatternItem) {
    PatternItem::RuleRef { name: name.to_owned() }
}

fn token_type(name: &str) -> (r: PatternItem) {
    PatternItem::TokenType { name: name.to_owned() }
}

fn literal(value: &str) -> (r: PatternItem) {
    PatternItem::Literal { value: value.to_owned() }
}

fn branch1(a: PatternItem, handler: Handler) -> (r: Branch) {
    let mut pattern: Vec<PatternItem> = Vec::new();
    pattern.push(a);
    Branch { pattern, handler }
}

fn branch2(a: PatternItem, b: PatternItem, handler: Handler) -> (r: Branch) {
    let mut pattern: Vec<PatternItem> = Vec::new();
    pattern.push(a);
    pattern.push(b);
    Branch { pattern, handler }
}

fn branch3(a: PatternItem, b: PatternItem, c: PatternItem, handler: Handler) -> (r: Branch) {
    let mut pattern: Vec<PatternItem> = Vec::new();
    pattern.push(a);
    pattern.push(b);
    pattern.push(c);
    Branch { pattern, handler }
}

fn branch6(
    a: PatternItem,
    b: PatternItem,
    c: PatternItem,
    d: PatternItem,
    e: PatternItem,
    f: PatternItem,
    handler: Handler,
) -> (r: Branch) {
    let mut pattern: Vec<PatternItem> = Vec::new();
    pattern.push(a);
    pattern.push(b);
    pattern.push(c);
    pattern.push(d);
    pattern.push(e);
    pattern.push(f);
    Branch { pattern, handler }
}

/// The rule table of the language: expressions fold statements over `;`,
/// assignments bind over `=`, pipelines chain commands over `|`, commands
/// collect arguments, sums and products fold their operators
/// left-associatively through the recursive branches, and leaves are
/// literals, parenthesized substitutions, closures and quoted strings.
pub fn get_grammar() -> (r: Grammar)
    ensures
        r@.rules.len() > 0,
        r@.rules[0].name == "expression"@,
        crate::ruler::spec_find_rule(r@.rules, "expression"@) == Some(r@.rules[0]),
{
    let mut rules: Vec<Rule> = Vec::new();

    let mut simple: Vec<Branch> = Vec::new();
    let mut recursive: Vec<Branch> = Vec::new();
    simple.push(branch1(rule_ref("assignment"), Handler::Pass));
    recursive.push(
        branch3(
            rule_ref("expression"),
            literal(";"),
            rule_ref("assignment"),
            Handler::ExpressionsAppend,
        ),
    );
    rules.push(
        Rule { name: "expression".to_owned(), simple_branches: simple, recursive_branches: recursive },
    );

    let mut simple: Vec<Branch> = Vec::new();
    let recursive: Vec<Branch> = Vec::new();
    simple.push(
        branch3(rule_ref("pipeline"), literal("="), rule_ref("assignment"), Handler::Assignment),
    );
    simple.push(branch1(rule_ref("pipeline"), Handler::Pass));
    rules.push(
        Rule { name: "assignment".to_owned(), simple_branches: simple, recursive_branches: recursive },
    );

    let mut simple: Vec<Branch> = Vec::new();
    let mut recursive: Vec<Branch> = Vec::new();
    simple.push(branch1(rule_ref("command"), Handler::PipelineCreate));
    recursive.push(
        branch3(rule_ref("pipeline"), literal("|"), rule_ref("command"), Handler::PipelineAppend),
    );
    rules.push(
        Rule { name: "pipeline".to_owned(), simple_branches: simple, recursive_branches: recursive },
    );

    let mut simple: Vec<Branch> = Vec::new();
    let mut recursive: Vec<Branch> = Vec::new();
    simple.push(branch1(rule_ref("sum"), Handler::CommandCreate));
    recursive.push(branch2(rule_ref("command"), rule_ref("sum"), Handler::CommandAppend));
    rules.push(
        Rule { name: "command".to_owned(), simple_branches: simple, recursive_branches: recursive },
    );

    let mut simple: Vec<Branch> = Vec::new();
    let mut recursive: Vec<Branch> = Vec::new();
    simple.push(branch1(rule_ref("product"), Handler::Pass));
    recursive.push(branch3(rule_ref("sum"), literal("+"), rule_ref("product"), Handler::Binary));
    recursive.push(branch3(rule_ref("sum"), literal("-"), rule_ref("product"), Handler::Binary));
    rules.push(
        Rule { name: "sum".to_owned(), simple_branches: simple, recursive_branches: recursive },
    );

    let mut simple: Vec<Branch> = Vec::new();
    let mut recursive: Vec<Branch> = Vec::new();
    simple.push(branch1(rule_ref("unary"), Handler::Pass));
    recursive.push(
        branch3(rule_ref("product"), literal("*"), rule_ref("unary"), Handler::Binary),
    );
    recursive.push(
        branch3(rule_ref("product"), literal("/"), rule_ref("unary"), Handler::Binary),
    );
    recursive.push(
        branch3(rule_ref("product"), literal("%"), rule_ref("unary"), Handler::Binary),
    );
    recursive.push(
        branch3(rule_ref("product"), literal("^"), rule_ref("unary"), Handler::Binary),
    );
    rules.push(
        Rule { name: "product".to_owned(), simple_branches: simple, recursive_branches: recursive },
    );

    let mut simple: Vec<Branch> = Vec::new();
    let recursive: Vec<Branch> = Vec::new();
    simple.push(branch2(literal("+"), rule_ref("unary"), Handler::Unary));
    simple.push(branch2(literal("-"), rule_ref("unary"), Handler::Unary));
    simple.push(branch2(literal("not"), rule_ref("unary"), Handler::Unary));
    simple.push(branch2(literal("$"), rule_ref("leaf"), Handler::ProviderCreate));
    simple.push(branch2(literal("@"), rule_ref("leaf"), Handler::Unary));
    simple.push(branch1(rule_ref("leaf"), Handler::Pass));
    rules.push(
        Rule { name: "unary".to_owned(), simple_branches: simple, recursive_branches: recursive },
    );

    let mut simple: Vec<Branch> = Vec::new();
    let recursive: Vec<Branch> = Vec::new();
    simple.push(
        branch3(literal("("), rule_ref("expression"), literal(")"), Handler::LeafSubstitution),
    );
    simple.push(
        branch6(
            literal("{"),
            rule_ref("closure_arguments"),
            literal("-"),
            literal(">"),
            rule_ref("expression"),
            literal("}"),
            Handler::LeafClosureDependent,
        ),
    );
    simple.push(
        branch3(
            literal("{"),
            rule_ref("expression"),
            literal("}"),
            Handler::LeafClosureIndependent,
        ),
    );
    simple.push(
        branch3(literal("\""), rule_ref("text_parts"), literal("\""), Handler::StringPassMiddle),
    );
    simple.push(branch1(token_type("number"), Handler::Pass));
    simple.push(branch1(token_type("text"), Handler::Pass));
    rules.push(
        Rule { name: "leaf".to_owned(), simple_branches: simple, recursive_branches: recursive },
    );

    let mut simple: Vec<Branch> = Vec::new();
    let mut recursive: Vec<Branch> = Vec::new();
    simple.push(branch1(token_type("text"), Handler::ClosureArgumentsCreate));
    recursive.push(
        branch3(
            rule_ref("closure_arguments"),
            literal(","),
            token_type("text"),
            Handler::ClosureArgumentsAppend,
        ),
    );
    rules.push(
        Rule {
            name: "closure_arguments".to_owned(),
            simple_branches: simple,
            recursive_branches: recursive,
        },
    );

    let mut simple: Vec<Branch> = Vec::new();
    let mut recursive: Vec<Branch> = Vec::new();
    simple.push(branch1(rule_ref("text_piece"), Handler::TextPartsCreate));
    recursive.push(
        branch2(rule_ref("text_parts"), rule_ref("text_piece"), Handler::TextPartsAppend),
    );
    rules.push(
        Rule { name: "text_parts".to_owned(), simple_branches: simple, recursive_branches: recursive },
    );

    let mut simple: Vec<Branch> = Vec::new();
    let recursive: Vec<Branch> = Vec::new();
    simple.push(
        branch3(
            literal("("),
            rule_ref("expression"),
            literal(")"),
            Handler::TextPartSubstitution,
        ),
    );
    simple.push(branch1(token_type("text"), Handler::Pass));
    simple.push(branch1(token_type("number"), Handler::Pass));
    simple.push(branch1(token_type("operator"), Handler::Pass));
    rules.push(
        Rule { name: "text_piece".to_owned(), simple_branches: simple, recursive_branches: recursive },
    );

    let grammar = Grammar { rules };
    proof {
        assert(grammar@.rules[0] == rules@[0]@);
        assert(grammar@.rules[0].name == "expression"@);
    }
    grammar
}

} // verus!
