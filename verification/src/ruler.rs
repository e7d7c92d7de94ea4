//! The grammar engine: a declarative table of rules, each a list of simple
//! branches and a list of left-recursive branches, applied to a token
//! sequence by a generic matcher. A failed branch never moves the token
//! index, which gives classic backtracking; a matched recursive branch
//! folds the seed parsed so far into a new seed as the first sub-node — the
//! left operand — which is how left-associative constructs are built
//! without unbounded recursion. The whole matcher is mirrored, step for
//! step, by the `spec_apply_…` functions its contracts speak of.

use vstd::prelude::*;

use crate::ast::Node;
use crate::ast::NodeView;
use crate::ast::lemma_node_views;
use crate::ast::spec_node_views;
use crate::grammar::Handler;
use crate::grammar::apply_handler;
use crate::grammar::handle_token;
use crate::grammar::spec_apply_handler;
use crate::grammar::spec_handle_token;
use crate::lexer::Token;
use crate::lexer::TokenView;
use crate::lexer::lemma_token_view_naming;
use crate::lexer::spec_view_type_name;
use crate::lexer::spec_view_value;
use crate::liner::spec_views;
use crate::text::str_eq;

verus! {

/// A token whose value can be turned into a string, and that has a
/// string-representable category.
pub trait RepresentableToken {
    /// The token's category name.
    fn get_type_name(&self) -> &'static str;

    /// The token's textual value, if it carries one.
    fn get_value(&self) -> Option<&String>;
}

impl RepresentableToken for Token {
    /// The token's category name.
    fn get_type_name(&self) -> (r: &'static str)
        ensures
            r@ == self.spec_type_name(),
    {
        Token::get_type_name(self)
    }

    /// The token's textual value, if it carries one.
    fn get_value(&self) -> (r: Option<&String>)
        ensures
            match r {
                Some(s) => self.spec_value() == Some(s@),
                None => self.spec_value() is None,
            },
    {
        Token::get_value(self)
    }
}

/// One item of a branch pattern: a reference to another rule, a guard on a
/// token category, or a literal token value.
#[derive(Debug)]
pub enum PatternItem {
    /// Recurse into the named rule.
    RuleRef { name: String },
    /// Consume one token of the named category.
    TokenType { name: String },
    /// Consume one token spelling exactly this value.
    Literal { value: String },
}

/// The shape of a pattern item at the specification level.
pub enum PatternItemView {
    RuleRef { name: Seq<char> },
    TokenType { name: Seq<char> },
    Literal { value: Seq<char> },
}

impl View for PatternItem {
    type V = PatternItemView;

    open spec fn view(&self) -> PatternItemView {
        match self {
            PatternItem::RuleRef { name } => PatternItemView::RuleRef { name: name@ },
            PatternItem::TokenType { name } => PatternItemView::TokenType { name: name@ },
            PatternItem::Literal { value } => PatternItemView::Literal { value: value@ },
        }
    }
}

/// A single branch of a rule: an ordered pattern and the handler that folds
/// the matched sub-nodes into one node.
#[derive(Debug)]
pub struct Branch {
    pub pattern: Vec<PatternItem>,
    pub handler: Handler,
}

/// The shape of a branch at the specification level.
pub struct BranchView {
    pub pattern: Seq<PatternItemView>,
    pub handler: Handler,
}

impl View for Branch {
    type V = BranchView;

    open spec fn view(&self) -> BranchView {
        BranchView {
            pattern: self.pattern@.map_values(|item: PatternItem| item@),
            handler: self.handler,
        }
    }
}

/// A rule for an entity. Its simple branches stand on their own; its
/// recursive branches implicitly begin with the rule's own partial result.
#[derive(Debug)]
pub struct Rule {
    pub name: String,
    pub simple_branches: Vec<Branch>,
    pub recursive_branches: Vec<Branch>,
}

/// The shape of a rule at the specification level.
pub struct RuleView {
    pub name: Seq<char>,
    pub simple_branches: Seq<BranchView>,
    pub recursive_branches: Seq<BranchView>,
}

impl View for Rule {
    type V = RuleView;

    open spec fn view(&self) -> RuleView {
        RuleView {
            name: self.name@,
            simple_branches: self.simple_branches@.map_values(|branch: Branch| branch@),
            recursive_branches: self.recursive_branches@.map_values(|branch: Branch| branch@),
        }
    }
}

/// A collection of rules for all entities.
#[derive(Debug)]
pub struct Grammar {
    pub rules: Vec<Rule>,
}

/// The shape of a grammar at the specification level.
pub struct GrammarView {
    pub rules: Seq<RuleView>,
}

impl View for Grammar {
    type V = GrammarView;

    open spec fn view(&self) -> GrammarView {
        GrammarView { rules: self.rules@.map_values(|rule: Rule| rule@) }
    }
}

/// The first rule of the given name, scanned in declared order.
pub open spec fn spec_find_rule(rules: Seq<RuleView>, name: Seq<char>) -> Option<RuleView>
    decreases rules.len(),
{
    if rules.len() == 0 {
        None
    } else if rules[0].name == name {
        Some(rules[0])
    } else {
        spec_find_rule(rules.skip(1), name)
    }
}

/// An index brought back into the window a matcher may stand in; the
/// matcher itself never leaves it, so this is the identity wherever the
/// executable code evaluates it.
pub open spec fn spec_clamp(low: int, value: int, high: int) -> int {
    if low <= value <= high {
        value
    } else {
        low
    }
}

/// One pattern item checked against the token stream, as the matcher does
/// it: a rule reference recurses (spending one unit of fuel), a category
/// guard or a literal consumes one matching token, and any failure leaves
/// the index untouched.
pub open spec fn spec_apply_item(
    item: PatternItemView,
    tokens: Seq<TokenView>,
    index: int,
    grammar: GrammarView,
    fuel: nat,
) -> (Option<NodeView>, int)
    decreases fuel, tokens.len() - index, 1int, 0int,
    when 0 <= index <= tokens.len()
{
    if index >= tokens.len() {
        (None, index)
    } else {
        match item {
            PatternItemView::RuleRef { name } => if fuel == 0 {
                (None, index)
            } else {
                spec_apply_rule(grammar, name, tokens, index, (fuel - 1) as nat)
            },
            PatternItemView::TokenType { name } => if spec_view_type_name(tokens[index])
                == name {
                (Some(spec_handle_token(tokens[index])), index + 1)
            } else {
                (None, index)
            },
            PatternItemView::Literal { value } => match spec_view_value(tokens[index]) {
                Some(text) => if text == value {
                    (Some(spec_handle_token(tokens[index])), index + 1)
                } else {
                    (None, index)
                },
                None => (None, index),
            },
        }
    }
}

/// The items of a branch from position `item_index` on, all or nothing:
/// the matched nodes in order with the index moved past them, or a failure
/// with the index untouched.
pub open spec fn spec_apply_items(
    pattern: Seq<PatternItemView>,
    item_index: int,
    tokens: Seq<TokenView>,
    index: int,
    grammar: GrammarView,
    fuel: nat,
) -> (Option<Seq<NodeView>>, int)
    decreases fuel, tokens.len() - index, 2int, pattern.len() - item_index,
    when 0 <= index <= tokens.len() && 0 <= item_index
{
    if item_index >= pattern.len() {
        (Some(Seq::empty()), index)
    } else {
        let attempt = spec_apply_item(pattern[item_index], tokens, index, grammar, fuel);
        match attempt.0 {
            Some(node) => {
                let moved = spec_clamp(index, attempt.1, tokens.len() as int);
                let rest = spec_apply_items(pattern, item_index + 1, tokens, moved, grammar, fuel);
                match rest.0 {
                    Some(nodes) => (Some(seq![node] + nodes), rest.1),
                    None => (None, index),
                }
            },
            None => (None, index),
        }
    }
}

/// The simple branches of a rule tried in declared order from position
/// `branch_index`: the first branch whose whole pattern matches wins and
/// its handler folds the seed.
pub open spec fn spec_apply_simple(
    branches: Seq<BranchView>,
    branch_index: int,
    tokens: Seq<TokenView>,
    index: int,
    grammar: GrammarView,
    fuel: nat,
) -> (Option<NodeView>, int)
    decreases fuel, tokens.len() - index, 3int, branches.len() - branch_index,
    when 0 <= index <= tokens.len() && 0 <= branch_index
{
    if branch_index >= branches.len() {
        (None, index)
    } else {
        let attempt = spec_apply_items(branches[branch_index].pattern, 0, tokens, index, grammar, fuel);
        match attempt.0 {
            Some(values) => (
                Some(spec_apply_handler(branches[branch_index].handler, values)),
                attempt.1,
            ),
            None => spec_apply_simple(branches, branch_index + 1, tokens, index, grammar, fuel),
        }
    }
}

/// One scan over the recursive branches from position `branch_index`: the
/// first branch whose items after the implicit seed match folds the seed
/// in as the first sub-node — the left operand — and yields the new seed.
pub open spec fn spec_scan_branches(
    branches: Seq<BranchView>,
    branch_index: int,
    seed: NodeView,
    tokens: Seq<TokenView>,
    index: int,
    grammar: GrammarView,
    fuel: nat,
) -> Option<(NodeView, int)>
    decreases fuel, tokens.len() - index, 4int, branches.len() - branch_index,
    when 0 <= index <= tokens.len() && 0 <= branch_index
{
    if branch_index >= branches.len() {
        None
    } else {
        let attempt = spec_apply_items(branches[branch_index].pattern, 1, tokens, index, grammar, fuel);
        match attempt.0 {
            Some(values) => Some(
                (
                    spec_apply_handler(branches[branch_index].handler, seq![seed] + values),
                    spec_clamp(index, attempt.1, tokens.len() as int),
                ),
            ),
            None => spec_scan_branches(
                branches,
                branch_index + 1,
                seed,
                tokens,
                index,
                grammar,
                fuel,
            ),
        }
    }
}

/// The iterative prepend-and-refold: scan the recursive branches from the
/// top, over and over, each success folding the seed as the new left
/// operand, until one full scan finds no match (or the lap budget runs
/// out).
pub open spec fn spec_refold(
    branches: Seq<BranchView>,
    seed: NodeView,
    tokens: Seq<TokenView>,
    index: int,
    grammar: GrammarView,
    fuel: nat,
    laps: nat,
) -> (NodeView, int)
    decreases fuel, tokens.len() - index, 5int, laps,
    when 0 <= index <= tokens.len()
{
    if laps == 0 {
        (seed, index)
    } else {
        match spec_scan_branches(branches, 0, seed, tokens, index, grammar, fuel) {
            Some(folded) => spec_refold(
                branches,
                folded.0,
                tokens,
                spec_clamp(index, folded.1, tokens.len() as int),
                grammar,
                fuel,
                (laps - 1) as nat,
            ),
            None => (seed, index),
        }
    }
}

/// The whole rule application: seed a node through the simple branches,
/// then refold it through the recursive ones. A rule that cannot seed
/// fails with the index untouched, so the caller can backtrack.
pub open spec fn spec_apply_rule(
    grammar: GrammarView,
    name: Seq<char>,
    tokens: Seq<TokenView>,
    index: int,
    fuel: nat,
) -> (Option<NodeView>, int)
    decreases fuel, tokens.len() - index, 6int, 0int,
    when 0 <= index <= tokens.len()
{
    match spec_find_rule(grammar.rules, name) {
        None => (None, index),
        Some(rule) => {
            let seeded = spec_apply_simple(rule.simple_branches, 0, tokens, index, grammar, fuel);
            match seeded.0 {
                None => (None, index),
                Some(seed) => {
                    let moved = spec_clamp(index, seeded.1, tokens.len() as int);
                    let folded = spec_refold(
                        rule.recursive_branches,
                        seed,
                        tokens,
                        moved,
                        grammar,
                        fuel,
                        fuel,
                    );
                    (Some(folded.0), folded.1)
                },
            }
        },
    }
}

/// A reference to the first rule of the given name, or `None` if there is
/// no such rule, exactly as `spec_find_rule` finds it.
fn get_rule_by_name<'a>(rules: &'a Vec<Rule>, name: &str) -> (r: Option<&'a Rule>)
    ensures
        match r {
            Some(rule) => spec_find_rule(rules@.map_values(|x: Rule| x@), name@) == Some(rule@),
            None => spec_find_rule(rules@.map_values(|x: Rule| x@), name@) is None,
        },
{
    let ghost views = rules@.map_values(|x: Rule| x@);
    let mut index: usize = 0;
    proof {
        assert(views.skip(0) =~= views);
    }
    while index < rules.len()
        invariant
            views == rules@.map_values(|x: Rule| x@),
            index <= rules@.len(),
            spec_find_rule(views, name@) == spec_find_rule(views.skip(index as int), name@),
        decreases rules@.len() - index,
    {
        proof {
            assert(views.skip(index as int)[0] == rules@[index as int]@);
            assert(views.skip(index as int).skip(1) =~= views.skip(index as int + 1));
        }
        if str_eq(&rules[index].name, name) {
            return Some(&rules[index]);
        }
        index = index + 1;
    }
    proof {
        assert(views.skip(rules@.len() as int) =~= Seq::<RuleView>::empty());
    }
    None
}

/// Checks one pattern item against the token stream, exactly as
/// `spec_apply_item` says. On success the matched node comes back with the
/// index moved past what it consumed; on failure the index comes back
/// untouched.
fn apply_item(
    item: &PatternItem,
    tokens: &Vec<Token>,
    token_index: usize,
    grammar: &Grammar,
    fuel: usize,
) -> (r: (Option<Node>, usize))
    requires
        token_index <= tokens@.len(),
    ensures
        r.1 <= tokens@.len(),
        r.0 is Some ==> token_index <= r.1,
        ({
            let outcome = spec_apply_item(
                item@,
                spec_views(tokens@),
                token_index as int,
                grammar@,
                fuel as nat,
            );
            &&& (r.0 matches Some(node) ==> (outcome.0 == Some(node@) && r.1 == outcome.1))
            &&& (r.0 is None ==> (outcome.0 is None && r.1 == token_index))
        }),
    decreases fuel, tokens@.len() - token_index, 1int, 0int,
{
    proof {
        assert(spec_views(tokens@).len() == tokens@.len());
    }
    if token_index >= tokens.len() {
        return (None, token_index);
    }
    proof {
        assert(spec_views(tokens@)[token_index as int] == tokens@[token_index as int]@);
        lemma_token_view_naming(tokens@[token_index as int]);
    }
    match item {
        PatternItem::RuleRef { name } => {
            if fuel == 0 {
                return (None, token_index);
            }
            apply_rule_bounded(name.as_str(), tokens, token_index, grammar, fuel - 1)
        },
        PatternItem::TokenType { name } => {
            let owned: String = RepresentableToken::get_type_name(&tokens[token_index]).to_owned();
            if !str_eq(&owned, name.as_str()) {
                return (None, token_index);
            }
            (Some(handle_token(&tokens[token_index])), token_index + 1)
        },
        PatternItem::Literal { value } => {
            let carried = RepresentableToken::get_value(&tokens[token_index]);
            match carried {
                Some(text) => {
                    if str_eq(text, value.as_str()) {
                        (Some(handle_token(&tokens[token_index])), token_index + 1)
                    } else {
                        (None, token_index)
                    }
                },
                None => (None, token_index),
            }
        },
    }
}

/// Checks the items of a branch, from `pattern_item_index` on, against the
/// token stream, exactly as `spec_apply_items` says. All or nothing: any
/// item failure aborts the branch with the index untouched.
fn apply_branch(
    branch: &Branch,
    pattern_item_index: usize,
    tokens: &Vec<Token>,
    token_index: usize,
    grammar: &Grammar,
    fuel: usize,
) -> (r: (Option<Vec<Node>>, usize))
    requires
        token_index <= tokens@.len(),
    ensures
        r.1 <= tokens@.len(),
        r.0 is Some ==> token_index <= r.1,
        ({
            let outcome = spec_apply_items(
                branch@.pattern,
                pattern_item_index as int,
                spec_views(tokens@),
                token_index as int,
                grammar@,
                fuel as nat,
            );
            &&& (r.0 matches Some(nodes) ==> (outcome.0 == Some(spec_node_views(nodes@)) && r.1
                == outcome.1))
            &&& (r.0 is None ==> (outcome.0 is None && r.1 == token_index))
        }),
    decreases fuel, tokens@.len() - token_index, 2int, branch.pattern@.len() - pattern_item_index,
{
    proof {
        assert(spec_views(tokens@).len() == tokens@.len());
        assert(branch@.pattern.len() == branch.pattern@.len());
    }
    if pattern_item_index >= branch.pattern.len() {
        let nodes: Vec<Node> = Vec::new();
        proof {
            assert(spec_node_views(nodes@) =~= Seq::<NodeView>::empty());
        }
        return (Some(nodes), token_index);
    }
    proof {
        assert(branch@.pattern[pattern_item_index as int]
            == branch.pattern@[pattern_item_index as int]@);
    }
    let (matched, moved_token_index) = apply_item(
        &branch.pattern[pattern_item_index],
        tokens,
        token_index,
        grammar,
        fuel,
    );
    let node = match matched {
        Some(node) => node,
        None => {
            return (None, token_index);
        },
    };
    let (rest, final_index) = apply_branch(
        branch,
        pattern_item_index + 1,
        tokens,
        moved_token_index,
        grammar,
        fuel,
    );
    match rest {
        Some(mut nodes) => {
            let ghost tail = nodes@;
            nodes.insert(0, node);
            proof {
                assert(nodes@ =~= seq![node] + tail);
                crate::ast::lemma_node_views_cons(node, tail);
            }
            (Some(nodes), final_index)
        },
        None => (None, token_index),
    }
}

/// Tries the simple branches of a rule in declared order from
/// `branch_index`, exactly as `spec_apply_simple` says: the first branch
/// whose whole pattern matches wins and its handler builds the seed node.
fn apply_simple_rule(
    rule: &Rule,
    branch_index: usize,
    tokens: &Vec<Token>,
    token_index: usize,
    grammar: &Grammar,
    fuel: usize,
) -> (r: (Option<Node>, usize))
    requires
        token_index <= tokens@.len(),
    ensures
        r.1 <= tokens@.len(),
        r.0 is Some ==> token_index <= r.1,
        ({
            let outcome = spec_apply_simple(
                rule@.simple_branches,
                branch_index as int,
                spec_views(tokens@),
                token_index as int,
                grammar@,
                fuel as nat,
            );
            &&& (r.0 matches Some(node) ==> (outcome.0 == Some(node@) && r.1 == outcome.1))
            &&& (r.0 is None ==> (outcome.0 is None && r.1 == token_index))
        }),
    decreases fuel, tokens@.len() - token_index, 3int, rule.simple_branches@.len() - branch_index,
{
    proof {
        assert(spec_views(tokens@).len() == tokens@.len());
        assert(rule@.simple_branches.len() == rule.simple_branches@.len());
    }
    if branch_index >= rule.simple_branches.len() {
        return (None, token_index);
    }
    proof {
        assert(rule@.simple_branches[branch_index as int]
            == rule.simple_branches@[branch_index as int]@);
    }
    let (values, new_token_index) = apply_branch(
        &rule.simple_branches[branch_index],
        0,
        tokens,
        token_index,
        grammar,
        fuel,
    );
    match values {
        Some(values) => (
            Some(apply_handler(&rule.simple_branches[branch_index].handler, values)),
            new_token_index,
        ),
        None => apply_simple_rule(rule, branch_index + 1, tokens, token_index, grammar, fuel),
    }
}

/// One scan over the recursive branches from `branch_index`, exactly as
/// `spec_scan_branches` says: the first branch whose items after the
/// implicit seed match folds the seed in as the first sub-node.
fn apply_scan(
    rule: &Rule,
    branch_index: usize,
    seed: Node,
    tokens: &Vec<Token>,
    token_index: usize,
    grammar: &Grammar,
    fuel: usize,
) -> (r: Result<(Node, usize), Node>)
    requires
        token_index <= tokens@.len(),
    ensures
        ({
            let outcome = spec_scan_branches(
                rule@.recursive_branches,
                branch_index as int,
                seed@,
                spec_views(tokens@),
                token_index as int,
                grammar@,
                fuel as nat,
            );
            &&& (r matches Ok(folded) ==> (outcome == Some((folded.0@, folded.1 as int))
                && token_index <= folded.1 <= tokens@.len()))
            &&& (r matches Err(returned) ==> (outcome is None && returned == seed))
        }),
    decreases
            fuel,
            tokens@.len() - token_index,
            4int,
            rule.recursive_branches@.len() - branch_index,
{
    proof {
        assert(spec_views(tokens@).len() == tokens@.len());
        assert(rule@.recursive_branches.len() == rule.recursive_branches@.len());
    }
    if branch_index >= rule.recursive_branches.len() {
        return Err(seed);
    }
    proof {
        assert(rule@.recursive_branches[branch_index as int]
            == rule.recursive_branches@[branch_index as int]@);
    }
    let (values, new_token_index) = apply_branch(
        &rule.recursive_branches[branch_index],
        1,
        tokens,
        token_index,
        grammar,
        fuel,
    );
    match values {
        Some(mut values) => {
            let ghost tail = values@;
            values.insert(0, seed);
            proof {
                assert(values@ =~= seq![seed] + tail);
                crate::ast::lemma_node_views_cons(seed, tail);
            }
            let folded = apply_handler(&rule.recursive_branches[branch_index].handler, values);
            Ok((folded, new_token_index))
        },
        None => apply_scan(rule, branch_index + 1, seed, tokens, token_index, grammar, fuel),
    }
}

/// The iterative prepend-and-refold, exactly as `spec_refold` says: scan
/// the recursive branches from the top, over and over, each success
/// folding the seed as the new left operand, until one full scan finds no
/// match or the lap budget runs out.
fn apply_refold(
    rule: &Rule,
    seed: Node,
    tokens: &Vec<Token>,
    token_index: usize,
    grammar: &Grammar,
    fuel: usize,
    laps: usize,
) -> (r: (Node, usize))
    requires
        token_index <= tokens@.len(),
    ensures
        token_index <= r.1 <= tokens@.len(),
        ({
            let outcome = spec_refold(
                rule@.recursive_branches,
                seed@,
                spec_views(tokens@),
                token_index as int,
                grammar@,
                fuel as nat,
                laps as nat,
            );
            outcome == (r.0@, r.1 as int)
        }),
    decreases fuel, tokens@.len() - token_index, 5int, laps,
{
    if laps == 0 {
        return (seed, token_index);
    }
    let scanned = apply_scan(rule, 0, seed, tokens, token_index, grammar, fuel);
    match scanned {
        Ok((folded, moved)) => apply_refold(rule, folded, tokens, moved, grammar, fuel, laps - 1),
        Err(seed) => (seed, token_index),
    }
}

/// Applies the named rule at the given position, exactly as
/// `spec_apply_rule` says: first the simple branches seed a node, then the
/// recursive branches are scanned from the top, over and over, each
/// success folding the seed as the new left operand, until one full scan
/// finds no match. A rule that cannot seed fails with the index untouched,
/// so the caller can backtrack.
fn apply_rule_bounded(
    rule_name: &str,
    tokens: &Vec<Token>,
    token_index: usize,
    grammar: &Grammar,
    fuel: usize,
) -> (r: (Option<Node>, usize))
    requires
        token_index <= tokens@.len(),
    ensures
        r.1 <= tokens@.len(),
        r.0 is Some ==> token_index <= r.1,
        ({
            let outcome = spec_apply_rule(
                grammar@,
                rule_name@,
                spec_views(tokens@),
                token_index as int,
                fuel as nat,
            );
            &&& (r.0 matches Some(node) ==> (outcome.0 == Some(node@) && r.1 == outcome.1))
            &&& (r.0 is None ==> (outcome.0 is None && r.1 == token_index))
        }),
    decreases fuel, tokens@.len() - token_index, 6int, 0int,
{
    proof {
        assert(spec_views(tokens@).len() == tokens@.len());
    }
    let rule = match get_rule_by_name(&grammar.rules, rule_name) {
        Some(rule) => rule,
        None => {
            return (None, token_index);
        },
    };
    let (seeded, seed_index) = apply_simple_rule(rule, 0, tokens, token_index, grammar, fuel);
    let seed = match seeded {
        Some(seed) => seed,
        None => {
            return (None, token_index);
        },
    };
    let folded = apply_refold(rule, seed, tokens, seed_index, grammar, fuel, fuel);
    (Some(folded.0), folded.1)
}

/// Applies the named rule at the given position with the default recursion
/// budget, exactly as `spec_apply_rule` says. On failure no token is
/// consumed: the returned index equals the one given.
pub fn apply_rule(rule_name: &str, tokens: &Vec<Token>, token_index: usize, grammar: &Grammar) -> (r:
    (Option<Node>, usize))
    requires
        token_index <= tokens@.len(),
    ensures
        r.1 <= tokens@.len(),
        r.0 is Some ==> token_index <= r.1,
        ({
            let outcome = spec_apply_rule(
                grammar@,
                rule_name@,
                spec_views(tokens@),
                token_index as int,
                4096nat,
            );
            &&& (r.0 matches Some(node) ==> (outcome.0 == Some(node@) && r.1 == outcome.1))
            &&& (r.0 is None ==> (outcome.0 is None && r.1 == token_index))
        }),
{
    apply_rule_bounded(rule_name, tokens, token_index, grammar, 4096)
}

} // verus!
