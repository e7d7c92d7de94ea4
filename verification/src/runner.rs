//! The evaluator: a tree walk over the AST that keeps a transient current
//! value, a transient command buffer and the active environment, swapping
//! each out for an empty default around every nested visit so that a nested
//! visit can never observe or corrupt a parent's half-built state.
//!
//! Pipeline stages evaluate strictly left to right; a stage whose first
//! value is the keyword `exit` sets the termination flag and stops the
//! whole pipeline at once. Stage runs that resolve to nothing in scope are
//! collected as external argument vectors; the caller hands them to the
//! process collaborator and the pipeline's own value stays `Nothing`.

use vstd::prelude::*;
use vstd::string::StringExecFns;

use crate::ast::Node;
use crate::text::str_eq;
use crate::value::Value;
use crate::value::boolean::BooleanValue;
use crate::value::closure::ClosureData;
use crate::value::closure::ClosureValue;
use crate::value::none::NoneValue;
use crate::value::number::NumberValue;
use crate::value::provider::ProviderValue;
use crate::value::scope::ScopeArena;
use crate::value::scope::ScopeData;
use crate::value::scope::ScopeValue;
use crate::value::scope::arena_wf;
use crate::value::scope::spec_has_local;
use crate::value::scope::spec_local_get;
use crate::value::string::StringValue;

verus! {

/// The value of one digit character, as the number parser reads it.
pub open spec fn spec_digit_value(c: char) -> i32 {
    if '0' <= c && c <= '9' {
        (c as int - 48) as i32
    } else if 'a' <= c && c <= 'z' {
        (c as int - 97 + 10) as i32
    } else if 'A' <= c && c <= 'Z' {
        (c as int - 65 + 10) as i32
    } else {
        0
    }
}

/// The numeric value of a digit run under a base, folded left to right,
/// every step wrapping at 32 bits.
pub open spec fn spec_digits_value(digits: Seq<char>, base: u8) -> i32
    decreases digits.len(),
{
    if digits.len() == 0 {
        0
    } else {
        vstd::wrapping::i32_specs::wrapping_add(
            vstd::wrapping::i32_specs::wrapping_mul(
                spec_digits_value(digits.drop_last(), base),
                base as i32,
            ),
            spec_digit_value(digits.last()),
        )
    }
}

/// What a pipeline stage's first word means.
#[derive(Clone, Copy, PartialEq, Eq, Structural, Debug)]
pub enum StageKeyword {
    /// The session must terminate: the whole pipeline stops at once.
    ExitWord,
    /// Identity passthrough: the stage returns its second value.
    PassWord,
    /// An ordinary word, resolved against the environment.
    Plain,
}

/// What a stage's first word means, at the specification level: exactly the
/// word `exit` terminates, exactly the word `pass` passes through, and any
/// other word is plain. Pipeline precedence rests on this: whatever the
/// remaining stage values are, a first word spelling `exit` classifies as
/// termination.
pub open spec fn spec_stage_keyword(first: Seq<char>) -> StageKeyword {
    if first == "exit"@ {
        StageKeyword::ExitWord
    } else if first == "pass"@ {
        StageKeyword::PassWord
    } else {
        StageKeyword::Plain
    }
}

/// The environment arena only ever grows, and the parent link of every
/// record that already existed is untouched: evaluation creates records and
/// rebinds names, but never re-roots a scope.
pub open spec fn spec_parents_kept(before: Seq<ScopeData>, after: Seq<ScopeData>) -> bool {
    &&& before.len() <= after.len()
    &&& forall|i: int| 0 <= i < before.len() ==> (#[trigger] after[i]).parent == before[i].parent
}

/// The string forms of a run of stage values.
pub open spec fn spec_value_strings(values: Seq<Value>) -> Seq<Seq<char>> {
    values.map_values(|v: Value| crate::value::spec_value_string(v))
}

/// A stage result with one provider level unwrapped.
pub open spec fn spec_unwrap_provider(v: Value) -> Value {
    match v {
        Value::Provider(provider) => *provider.delegate,
        other => other,
    }
}

/// The value the parameter at position `index` receives: the stage value
/// after the closure's own name, or `Nothing` past the end.
pub open spec fn spec_positional(command: Seq<Value>, index: int) -> Value {
    if index + 1 < command.len() {
        command[index + 1]
    } else {
        Value::Nothing(NoneValue {  })
    }
}

/// Where an assignment with the given dot-split prefix stores its value:
/// an empty prefix names the active record itself; a non-empty prefix must
/// resolve to an environment value whose record is in the arena, and names
/// that record; anything else makes the assignment a no-op.
pub open spec fn spec_assign_target(
    records: Seq<crate::value::scope::ScopeData>,
    handle: int,
    prefix: Seq<Seq<char>>,
) -> Option<int> {
    if prefix.len() == 0 {
        Some(handle)
    } else {
        match crate::value::scope::spec_resolve_parts(records, handle, prefix) {
            Some(Value::Scope(scope)) => if (scope.data as int) < records.len() {
                Some(scope.data as int)
            } else {
                None
            },
            _ => None,
        }
    }
}

/// True when one of the declared names spells the given one.
pub open spec fn spec_names_contain(names: Seq<String>, name: Seq<char>) -> bool {
    exists|i: int| 0 <= i < names.len() && (#[trigger] names[i])@ == name
}

/// What every evaluation step keeps of the session state: the arena only
/// grows and no existing record is re-rooted, the active scope handle is
/// restored on every path, closure records are never dropped or altered
/// once created, collected external pipelines are never dropped, and the
/// termination flag is never reset.
pub open spec fn spec_session_frame(before: Runner, after: Runner) -> bool {
    &&& spec_parents_kept(before.arena.records@, after.arena.records@)
    &&& after.scope == before.scope
    &&& before.closures@.len() <= after.closures@.len()
    &&& forall|i: int|
        0 <= i < before.closures@.len() ==> (#[trigger] after.closures@[i]) == before.closures@[i]
    &&& before.pending_pipelines@.len() <= after.pending_pipelines@.len()
    &&& forall|i: int|
        0 <= i < before.pending_pipelines@.len() ==> (#[trigger] after.pending_pipelines@[i])
            == before.pending_pipelines@[i]
    &&& (before.should_exit ==> after.should_exit)
}

/// Pipeline precedence: exactly the first word `exit` classifies a stage
/// as termination, never as passthrough or as a plain word — whatever the
/// remaining stage values hold. The evaluator consults this classification
/// before resolving anything, so an `exit` stage stops the whole pipeline
/// and, through the termination flag, the surrounding session loop.
pub proof fn lemma_pipeline_exit_precedence(first: Seq<char>)
    ensures
        (spec_stage_keyword(first) == StageKeyword::ExitWord) <==> (first == "exit"@),
        first == "exit"@ ==> spec_stage_keyword(first) != StageKeyword::PassWord
            && spec_stage_keyword(first) != StageKeyword::Plain,
{
}

/// Classifies a stage's first word.
pub fn stage_keyword(first: &String) -> (r: StageKeyword)
    ensures
        r == spec_stage_keyword(first@),
{
    if str_eq(first, "exit") {
        StageKeyword::ExitWord
    } else if str_eq(first, "pass") {
        StageKeyword::PassWord
    } else {
        StageKeyword::Plain
    }
}

/// The evaluator's state: the transient slots, the termination flag, the
/// active environment, and the arenas that own every environment record and
/// every closure record.
#[derive(Debug)]
pub struct Runner {
    /// The value of the subtree most recently evaluated.
    pub value: Value,
    /// The values accumulated while visiting a command.
    pub command: Vec<Value>,
    /// True once the `exit` keyword has been evaluated; the session loop
    /// checks it cooperatively.
    pub should_exit: bool,
    /// The active environment.
    pub scope: ScopeValue,
    /// The parameter names collected from a closure's argument list.
    pub closure_arguments: Vec<String>,
    /// The arena owning every environment record.
    pub arena: ScopeArena,
    /// Every closure record created so far, shared by handle.
    pub closures: Vec<ClosureData>,
    /// The argument vectors of pipelines that fell through to the external
    /// process collaborator; the caller launches and drains them.
    pub pending_pipelines: Vec<Vec<Vec<String>>>,
    /// The semantic warnings recorded so far; the caller drains and reports
    /// them.
    pub diagnostics: Vec<String>,
}

impl Runner {
    /// The evaluator's structural soundness: the environment arena is well
    /// formed, the active scope is in it, and every closure's captured
    /// environment is too.
    pub open spec fn wf(self) -> bool {
        &&& arena_wf(self.arena.records@)
        &&& (self.scope.data as int) < self.arena.records@.len()
        &&& forall|i: int|
            0 <= i < self.closures@.len() ==> ((#[trigger] self.closures@[i]).scope as int)
                < self.arena.records@.len()
    }

    /// A fresh evaluator with one empty global environment. The caller
    /// seeds it with the host environment variables through
    /// `seed_variable`.
    pub fn new() -> (r: Runner)
        ensures
            r.wf(),
            r.should_exit == false,
            r.value == Value::Nothing(NoneValue {  }),
            r.command@.len() == 0,
            r.closure_arguments@.len() == 0,
            r.closures@.len() == 0,
            r.pending_pipelines@.len() == 0,
            r.diagnostics@.len() == 0,
            r.arena.records@.len() == 1,
            r.scope.data == 0,
            r.arena.records@[0].parent is None,
            r.arena.records@[0].names@.len() == 0,
    {
        let mut arena = ScopeArena::new();
        let global = ScopeData::create(&mut arena, None);
        Runner {
            value: NoneValue::create(),
            command: Vec::new(),
            should_exit: false,
            scope: ScopeValue::new(global),
            closure_arguments: Vec::new(),
            arena,
            closures: Vec::new(),
            pending_pipelines: Vec::new(),
            diagnostics: Vec::new(),
        }
    }

    /// Binds one name in the global record: process-wide initial state,
    /// used once at start-up to mirror the host environment variables.
    pub fn seed_variable(&mut self, name: &str, value: &str)
        requires
            old(self).wf(),
        ensures
            final(self).wf(),
            final(self).should_exit == old(self).should_exit,
            final(self).scope == old(self).scope,
            crate::value::scope::spec_has_local(
                final(self).arena.records@[old(self).scope.data as int],
                name@,
            ),
            (crate::value::scope::spec_local_get(
                final(self).arena.records@[old(self).scope.data as int],
                name@,
            ) matches Value::Str(s) && s.value@ == value@),
    {
        let seeded = StringValue::create(value);
        self.scope.set_value(&mut self.arena, name, seeded);
    }

    /// Parses a digit run under a base into a number value, folding left to
    /// right with wrapping arithmetic.
    fn visit_number(&mut self, value: &String, base: u8)
        requires
            old(self).wf(),
        ensures
            final(self).wf(),
            *final(self) == (Runner {
                value: Value::Number(NumberValue { value: spec_digits_value(value@, base) }),
                ..*old(self)
            }),
    {
        let digits = value.as_str();
        let length = digits.unicode_len();
        let mut result: i32 = 0;
        let mut index: usize = 0;
        while index < length
            invariant
                length == digits@.len(),
                index <= length,
                result == spec_digits_value(digits@.take(index as int), base),
            decreases length - index,
        {
            let c = digits.get_char(index);
            let digit: i32 = if '0' <= c && c <= '9' {
                (c as u32 as i32) - 48
            } else if 'a' <= c && c <= 'z' {
                (c as u32 as i32) - 97 + 10
            } else if 'A' <= c && c <= 'Z' {
                (c as u32 as i32) - 65 + 10
            } else {
                0
            };
            result = result.wrapping_mul(base as i32).wrapping_add(digit);
            proof {
                assert(digits@.take(index as int + 1).drop_last() =~= digits@.take(
                    index as int,
                ));
                assert(digits@.take(index as int + 1).last() == digits@[index as int]);
            }
            index = index + 1;
        }
        proof {
            assert(digits@.take(length as int) =~= digits@);
        }
        self.value = NumberValue::create(result);
    }

    /// A bare word: the spellings of the absent and the boolean values are
    /// special-cased, anything else is a string.
    fn visit_text(&mut self, value: &String)
        requires
            old(self).wf(),
        ensures
            final(self).wf(),
            final(self).value == (if value@ == "None"@ {
                Value::Nothing(NoneValue {  })
            } else if value@ == "True"@ {
                Value::Boolean(BooleanValue { value: true })
            } else if value@ == "False"@ {
                Value::Boolean(BooleanValue { value: false })
            } else {
                final(self).value
            }),
            final(self).value matches Value::Str(s) ==> s.value@ == value@,
            (value@ != "None"@ && value@ != "True"@ && value@ != "False"@) ==> (final(self).value
                is Str),
            *final(self) == (Runner { value: final(self).value, ..*old(self) }),
    {
        if str_eq(value, "None") {
            self.value = NoneValue::create();
        } else if str_eq(value, "True") {
            self.value = BooleanValue::create(true);
        } else if str_eq(value, "False") {
            self.value = BooleanValue::create(false);
        } else {
            self.value = StringValue::create(value.as_str());
        }
    }

    /// A raw token kept as a node: operators and delimiters evaluate to
    /// their spelling, words as `visit_text`, numbers as `visit_number`,
    /// and anything else to `Nothing`.
    fn visit_leaf(&mut self, token: &crate::lexer::Token)
        requires
            old(self).wf(),
        ensures
            final(self).wf(),
            final(self).should_exit == old(self).should_exit,
            final(self).arena == old(self).arena,
            spec_session_frame(*old(self), *final(self)),
            token matches crate::lexer::Token::Operator { value } ==> (final(self).value
                matches Value::Str(s) && s.value@ == value@),
            token matches crate::lexer::Token::Delimiter { value } ==> (final(self).value
                matches Value::Str(s) && s.value@ == value@),
            token matches crate::lexer::Token::Number { value, base } ==> final(self).value
                == Value::Number(NumberValue { value: spec_digits_value(value@, *base) }),
            (token is Newline || token is End || token is NumberSegment) ==> final(self).value
                == Value::Nothing(NoneValue {  }),
    {
        match token {
            crate::lexer::Token::Operator { value } => {
                self.value = StringValue::create(value.as_str());
            },
            crate::lexer::Token::Delimiter { value } => {
                self.value = StringValue::create(value.as_str());
            },
            crate::lexer::Token::Text { value } => {
                let owned = value.clone();
                self.visit_text(&owned);
            },
            crate::lexer::Token::Number { value, base } => {
                let owned = value.clone();
                let copied = *base;
                self.visit_number(&owned, copied);
            },
            _ => {
                self.value = NoneValue::create();
            },
        }
        proof {
            assert(spec_session_frame(*old(self), *self));
        }
    }

    /// Evaluates one node. The recursion budget `fuel` bounds nested
    /// closure calls alone: the walk of one tree always terminates on its
    /// own, and each closure invocation spends one unit. A call with no
    /// budget left evaluates to `Nothing` with a diagnostic.
    pub fn visit_node(&mut self, node: &Node, fuel: u64)
        requires
            old(self).wf(),
        ensures
            final(self).wf(),
            spec_session_frame(*old(self), *final(self)),
            node matches Node::Number { value, base } ==> (*final(self) == (Runner {
                value: Value::Number(NumberValue { value: spec_digits_value(value@, *base) }),
                ..*old(self)
            })),
            node matches Node::Text { value } ==> ({
                &&& (value@ == "None"@ ==> final(self).value == Value::Nothing(NoneValue {  }))
                &&& (value@ == "True"@ ==> final(self).value == Value::Boolean(
                    BooleanValue { value: true },
                ))
                &&& (value@ == "False"@ ==> final(self).value == Value::Boolean(
                    BooleanValue { value: false },
                ))
                &&& ((value@ != "None"@ && value@ != "True"@ && value@ != "False"@)
                    ==> (final(self).value matches Value::Str(s) && s.value@ == value@))
                &&& *final(self) == (Runner { value: final(self).value, ..*old(self) })
            }),
            node matches Node::Leaf { value } ==> ({
                &&& final(self).should_exit == old(self).should_exit
                &&& final(self).arena == old(self).arena
                &&& (value matches crate::lexer::Token::Number { value: digits, base }
                    ==> final(self).value == Value::Number(
                    NumberValue { value: spec_digits_value(digits@, *base) },
                ))
                &&& (value matches crate::lexer::Token::Operator { value: text }
                    ==> (final(self).value matches Value::Str(s) && s.value@ == text@))
            }),
            node is Closure ==> ({
                &&& final(self).arena == old(self).arena
                &&& final(self).should_exit == old(self).should_exit
                &&& final(self).closures@.len() == old(self).closures@.len() + 1
                &&& final(self).closures@.last().scope == old(self).scope.data
                &&& final(self).value == Value::Closure(
                    ClosureValue { data: old(self).closures@.len() as usize },
                )
            }),
            (node matches Node::Expressions { values } && values@.len() == 0)
                ==> final(self).value == Value::Nothing(NoneValue {  }),
            node matches Node::Expressions { values } ==> ({
                values@.len() == 1 ==> ({
                    &&& (values@[0] matches Node::Number { value: digits, base } ==> *final(self)
                        == (Runner {
                        value: Value::Number(
                            NumberValue { value: spec_digits_value(digits@, base) },
                        ),
                        ..*old(self)
                    }))
                    &&& (values@[0] is Closure ==> final(self).value == Value::Closure(
                        ClosureValue { data: old(self).closures@.len() as usize },
                    ))
                    &&& (values@[0] matches Node::Text { value: text } ==> ((text@ != "None"@
                        && text@ != "True"@ && text@ != "False"@) ==> (final(self).value
                        matches Value::Str(s) && s.value@ == text@)))
                })
            }),
            (node matches Node::Pipeline { commands } && commands@.len() == 0)
                ==> (final(self).value == Value::Nothing(NoneValue {  })
                && final(self).arena == old(self).arena
                && final(self).should_exit == old(self).should_exit),
        decreases fuel, *node, 3int,
    {
        match node {
            Node::Leaf { value } => {
                self.visit_leaf(value);
            },
            Node::Text { value } => {
                self.visit_text(value);
                proof {
                    reveal_strlit("None");
                    reveal_strlit("True");
                    reveal_strlit("False");
                    assert("None"@[0] == 'N' && "True"@[0] == 'T' && "False"@[0] == 'F');
                    assert("None"@ != "True"@ && "None"@ != "False"@ && "True"@ != "False"@);
                }
            },
            Node::TextParts { .. } => {
                self.visit_text_parts(node, fuel);
            },
            Node::Number { value, base } => {
                self.visit_number(value, *base);
            },
            Node::Command { .. } => {
                self.visit_command(node, fuel);
            },
            Node::Pipeline { .. } => {
                self.visit_pipeline(node, fuel);
            },
            Node::Provider { .. } => {
                self.visit_provider(node, fuel);
            },
            Node::Unary { .. } => {
                self.visit_unary(node, fuel);
            },
            Node::Binary { .. } => {
                self.visit_binary(node, fuel);
            },
            Node::Assignment { .. } => {
                self.visit_assignment(node, fuel);
            },
            Node::ClosureArguments { .. } => {
                self.visit_closure_arguments(node);
            },
            Node::Closure { .. } => {
                self.visit_closure(node);
            },
            Node::Expressions { .. } => {
                self.visit_expressions(node, fuel);
            },
        }
    }

    /// Evaluates every part, stringifies each, and concatenates.
    #[verifier::loop_isolation(false)]
    fn visit_text_parts(&mut self, node: &Node, fuel: u64)
        requires
            old(self).wf(),
            node is TextParts,
        ensures
            final(self).wf(),
            spec_session_frame(*old(self), *final(self)),
        decreases fuel, *node, 2int,
    {
        match node {
            Node::TextParts { parts } => {
                let mut result = String::new();
                let mut index: usize = 0;
                while index < parts.len()
                    invariant
                        self.wf(),
                        index <= parts@.len(),
                        spec_session_frame(*old(self), *self),
                    decreases parts@.len() - index,
                {
                    let mut taken = NoneValue::create();
                    core::mem::swap(&mut taken, &mut self.value);
                    proof {
                        assert(decreases_to!(*node => (*node)->TextParts_parts));
                        assert(decreases_to!((*node)->TextParts_parts => (*node)->TextParts_parts@));
                        assert(decreases_to!((*node)->TextParts_parts@ => (*node)->TextParts_parts@[index as int]));
                        assert((*node)->TextParts_parts@[index as int] == parts@[index as int]);
                        assert(decreases_to!(*node => parts@[index as int]));
                    }
                    self.visit_node(&parts[index], fuel);
                    let mut part_value = taken;
                    core::mem::swap(&mut part_value, &mut self.value);
                    let rendered = part_value.to_string();
                    result.append(rendered.as_str());
                    index = index + 1;
                }
                self.value = StringValue::create(result.as_str());
            },
            _ => {},
        }
    }

    /// Evaluates each argument in order, appending each resulting value to
    /// the command buffer.
    #[verifier::loop_isolation(false)]
    fn visit_command(&mut self, node: &Node, fuel: u64)
        requires
            old(self).wf(),
            node is Command,
        ensures
            final(self).wf(),
            spec_session_frame(*old(self), *final(self)),
        decreases fuel, *node, 2int,
    {
        match node {
            Node::Command { arguments } => {
                let mut index: usize = 0;
                while index < arguments.len()
                    invariant
                        self.wf(),
                        index <= arguments@.len(),
                        spec_session_frame(*old(self), *self),
                    decreases arguments@.len() - index,
                {
                    let mut taken = NoneValue::create();
                    core::mem::swap(&mut taken, &mut self.value);
                    proof {
                        assert(decreases_to!(*node => (*node)->Command_arguments));
                        assert(decreases_to!((*node)->Command_arguments => (*node)->Command_arguments@));
                        assert(decreases_to!((*node)->Command_arguments@ => (*node)->Command_arguments@[index as int]));
                        assert((*node)->Command_arguments@[index as int] == arguments@[index as int]);
                        assert(decreases_to!(*node => arguments@[index as int]));
                    }
                    self.visit_node(&arguments[index], fuel);
                    let mut resolved = taken;
                    core::mem::swap(&mut resolved, &mut self.value);
                    self.command.push(resolved);
                    index = index + 1;
                }
            },
            _ => {},
        }
    }

    /// Evaluates a pipeline stage by stage, left to right: each stage's
    /// command fills the transient buffer, and `apply_stage` then finishes
    /// the stage exactly as the stage rules say. A finishing stage stops
    /// the walk at once and drops the launches collected so far; when every
    /// stage fell through, the collected argument vectors join
    /// `pending_pipelines` for the external collaborator and the pipeline's
    /// own value is `Nothing`. An empty pipeline yields `Nothing` and
    /// changes nothing else.
    #[verifier::loop_isolation(false)]
    fn visit_pipeline(&mut self, node: &Node, fuel: u64)
        requires
            old(self).wf(),
            node is Pipeline,
        ensures
            final(self).wf(),
            spec_session_frame(*old(self), *final(self)),
            (node matches Node::Pipeline { commands } && commands@.len() == 0) ==> (final(self).value == Value::Nothing(NoneValue {  }) && final(self).arena == old(self).arena
                && final(self).should_exit == old(self).should_exit && final(self).pending_pipelines == old(self).pending_pipelines),
        decreases fuel, *node, 2int,
    {
        match node {
            Node::Pipeline { commands } => {
                let mut launches: Vec<Vec<String>> = Vec::new();
                let mut index: usize = 0;
                while index < commands.len()
                    invariant
                        self.wf(),
                        index <= commands@.len(),
                        spec_session_frame(*old(self), *self),
                        index == 0 ==> self.arena == old(self).arena && self.should_exit == old(self).should_exit && self.pending_pipelines == old(self).pending_pipelines,
                        launches@.len() > 0 ==> index > 0,
                    decreases commands@.len() - index,
                {
                    let mut taken_buffer: Vec<Value> = Vec::new();
                    core::mem::swap(&mut taken_buffer, &mut self.command);
                    proof {
                        assert(decreases_to!(*node => (*node)->Pipeline_commands));
                        assert(decreases_to!((*node)->Pipeline_commands => (*node)->Pipeline_commands@));
                        assert(decreases_to!((*node)->Pipeline_commands@ => (*node)->Pipeline_commands@[index as int]));
                        assert((*node)->Pipeline_commands@[index as int] == commands@[index as int]);
                        assert(decreases_to!(*node => commands@[index as int]));
                    }
                    self.visit_node(&commands[index], fuel);
                    let mut command = taken_buffer;
                    core::mem::swap(&mut command, &mut self.command);
                    let done = self.apply_stage(command, &mut launches, node, fuel);
                    if done {
                        return ;
                    }
                    index = index + 1;
                }
                if launches.len() == 0 {
                    self.value = NoneValue::create();
                    return ;
                }
                self.pending_pipelines.push(launches);
                self.value = NoneValue::create();
            },
            _ => {},
        }
    }

    /// Finishes one evaluated pipeline stage, given the values its command
    /// produced, and says whether the pipeline is done. The disposition
    /// follows the first value, in this order: an empty stage is an error
    /// and stops the pipeline on `Nothing` with a diagnostic; the keyword
    /// `exit` sets the termination flag, yields `Nothing` and stops at
    /// once, whatever the remaining values hold; the keyword `pass` yields
    /// the stage's second value (or `Nothing` without one) and stops; a
    /// first value that is not a string is itself the result, one provider
    /// level unwrapped; a string resolving to a closure invokes it and
    /// stops with the body's value; a string resolving to any other value
    /// stops with that value; an unresolved string appends the stage's
    /// words to the outgoing launches and lets the pipeline go on,
    /// everything else untouched. The node is the enclosing pipeline,
    /// carried for the termination measure of the closure call.
    pub fn apply_stage(
        &mut self,
        command: Vec<Value>,
        launches: &mut Vec<Vec<String>>,
        node: &Node,
        fuel: u64,
    ) -> (done: bool)
        requires
            old(self).wf(),
        ensures
            final(self).wf(),
            spec_session_frame(*old(self), *final(self)),
            command@.len() == 0 ==> (done && final(self).value == Value::Nothing(NoneValue {  })
                && *final(launches) == *old(launches) && final(self).arena == old(self).arena
                && final(self).should_exit == old(self).should_exit && final(self).pending_pipelines == old(self).pending_pipelines),
            command@.len() > 0 ==> ({
                let first = crate::value::spec_value_string(command@[0]);
                let outcome = crate::value::scope::spec_resolve_qualified(
                    old(self).arena.records@,
                    old(self).scope.data as int,
                    first,
                );
                &&& (spec_stage_keyword(first) == StageKeyword::ExitWord ==> (done && final(self).should_exit && final(self).value == Value::Nothing(NoneValue {  }) && *final(launches) == *old(launches) && final(self).arena == old(self).arena && final(self).pending_pipelines == old(self).pending_pipelines))
                &&& (spec_stage_keyword(first) == StageKeyword::PassWord ==> (done && (
                command@.len() >= 2 ==> final(self).value == command@[1]) && (command@.len() == 1
                    ==> final(self).value == Value::Nothing(NoneValue {  })) && *final(launches)
                    == *old(launches) && final(self).arena == old(self).arena && final(self).should_exit == old(self).should_exit && final(self).pending_pipelines == old(self).pending_pipelines))
                &&& ((spec_stage_keyword(first) == StageKeyword::Plain && !(command@[0] is Str))
                    ==> (done && final(self).value == spec_unwrap_provider(command@[0]) && *final(launches) == *old(launches) && final(self).arena == old(self).arena && final(self).should_exit == old(self).should_exit && final(self).pending_pipelines == old(self).pending_pipelines))
                &&& ((spec_stage_keyword(first) == StageKeyword::Plain && command@[0] is Str)
                    ==> ({
                    &&& (outcome matches Some(resolved) ==> ({
                        &&& (!(resolved is Closure) ==> (done && final(self).value == resolved
                            && *final(launches) == *old(launches) && final(self).arena == old(self).arena && final(self).should_exit == old(self).should_exit && final(self).pending_pipelines == old(self).pending_pipelines))
                        &&& (resolved is Closure ==> (done && *final(launches) == *old(launches)))
                    }))
                    &&& (outcome is None ==> (!done && final(self).value == old(self).value
                        && final(self).arena == old(self).arena && final(self).should_exit == old(self).should_exit && final(self).pending_pipelines == old(self).pending_pipelines
                        && final(launches)@.len() == old(launches)@.len() + 1 && (forall|i: int|
                        0 <= i < old(launches)@.len() ==> final(launches)@[i] == old(launches)@[i]) && crate::value::scope::spec_string_views(
                        final(launches)@.last()@,
                    ) == spec_value_strings(command@)))
                }))
            }),
        decreases fuel, *node, 1int,
    {
        let mut command = command;
        let ghost stage = command@;
        let mut arguments: Vec<String> = Vec::new();
        let mut value_index: usize = 0;
        while value_index < command.len()
            invariant
                command@ == stage,
                value_index <= stage.len(),
                arguments@.len() == value_index,
                crate::value::scope::spec_string_views(arguments@) == spec_value_strings(
                    stage,
                ).take(value_index as int),
            decreases stage.len() - value_index,
        {
            arguments.push(command[value_index].to_string());
            proof {
                assert(crate::value::scope::spec_string_views(arguments@) =~= spec_value_strings(
                    stage,
                ).take(value_index as int + 1));
            }
            value_index = value_index + 1;
        }
        proof {
            assert(spec_value_strings(stage).take(stage.len() as int) =~= spec_value_strings(
                stage,
            ));
            if stage.len() > 0 {
                assert(crate::value::scope::spec_string_views(arguments@)[0] == arguments@[0]@);
                assert(spec_value_strings(stage)[0] == crate::value::spec_value_string(
                    stage[0],
                ));
                assert(arguments@[0]@ == crate::value::spec_value_string(stage[0]));
            }
        }
        if arguments.len() == 0 {
            self.value = NoneValue::create();
            self.diagnostics.push("empty command in pipeline".to_owned());
            return true;
        }
        let keyword = stage_keyword(&arguments[0]);
        if matches!(keyword, StageKeyword::ExitWord) {
            self.should_exit = true;
            self.value = NoneValue::create();
            return true;
        }
        if matches!(keyword, StageKeyword::PassWord) {
            if command.len() >= 2 {
                self.value = command.remove(1);
            } else {
                self.value = NoneValue::create();
            }
            return true;
        }
        let first_is_string = matches!(command[0], Value::Str(..));
        if !first_is_string {
            let first = command.remove(0);
            match first {
                Value::Provider(provider) => {
                    self.value = *provider.delegate;
                },
                other => {
                    self.value = other;
                },
            }
            return true;
        }
        let resolved = self.scope.resolve(&self.arena, arguments[0].as_str());
        match resolved {
            Some(value) => {
                match value {
                    Value::Closure(closure) => {
                        self.invoke_closure(node, closure, command, fuel);
                    },
                    other => {
                        self.value = other;
                    },
                }
                true
            },
            None => {
                launches.push(arguments);
                false
            },
        }
    }

    /// Invokes a closure: a fresh child of the record captured at
    /// definition time is created, the declared names are bound to the
    /// remaining stage values positionally through `bind_parameters`, the
    /// body is evaluated in the child, and the child is then discarded —
    /// the caller's scope handle is restored on every path. One unit of the
    /// recursion budget is spent; a stale handle or an exhausted budget
    /// yields `Nothing` with a diagnostic and touches nothing else.
    fn invoke_closure(&mut self, node: &Node, closure: ClosureValue, command: Vec<Value>, fuel: u64)
        requires
            old(self).wf(),
            command@.len() >= 1,
        ensures
            final(self).wf(),
            spec_session_frame(*old(self), *final(self)),
            (closure.data < old(self).closures@.len() && fuel > 0) ==> ({
                &&& old(self).arena.records@.len() < final(self).arena.records@.len()
                &&& final(self).arena.records@[old(self).arena.records@.len() as int].parent
                    == Some(old(self).closures@[closure.data as int].scope)
            }),
            !(closure.data < old(self).closures@.len() && fuel > 0) ==> (final(self).value
                == Value::Nothing(NoneValue {  }) && final(self).arena == old(self).arena),
        decreases fuel, *node, 0int,
    {
        if closure.data >= self.closures.len() {
            self.value = NoneValue::create();
            self.diagnostics.push("call of an unknown closure".to_owned());
            return ;
        }
        if fuel == 0 {
            self.value = NoneValue::create();
            self.diagnostics.push("call depth exhausted".to_owned());
            return ;
        }
        let parameters = self.closures[closure.data].arguments.duplicate();
        let body = self.closures[closure.data].body.duplicate();
        let captured = self.closures[closure.data].scope;
        let child = ScopeData::create(&mut self.arena, Some(captured));
        let ghost child_index = child as int;
        let mut taken_names: Vec<String> = Vec::new();
        core::mem::swap(&mut taken_names, &mut self.closure_arguments);
        self.visit_closure_arguments(&parameters);
        let mut names = taken_names;
        core::mem::swap(&mut names, &mut self.closure_arguments);
        let child_scope = ScopeValue::new(child);
        self.bind_parameters(child_scope, &names, command);
        let mut saved_scope = child_scope;
        core::mem::swap(&mut saved_scope, &mut self.scope);
        let mut taken = NoneValue::create();
        core::mem::swap(&mut taken, &mut self.value);
        self.visit_node(&body, fuel - 1);
        core::mem::swap(&mut saved_scope, &mut self.scope);
        proof {
            assert(self.arena.records@[child_index].parent == Some(captured));
        }
    }

    /// Binds the declared parameter names positionally in the call record:
    /// the name at position i receives the stage value i+1, names beyond
    /// the stage values receive `Nothing`, excess stage values are ignored.
    /// Only the call record changes, and in it only the declared names;
    /// everything else of the evaluator stands still.
    fn bind_parameters(&mut self, child: ScopeValue, names: &Vec<String>, command: Vec<Value>)
        requires
            old(self).wf(),
            (child.data as int) < old(self).arena.records@.len(),
            command@.len() >= 1,
        ensures
            final(self).wf(),
            spec_session_frame(*old(self), *final(self)),
            final(self).arena.records@.len() == old(self).arena.records@.len(),
            forall|i: int|
                0 <= i < old(self).arena.records@.len() && i != child.data as int ==> final(self).arena.records@[i] == old(self).arena.records@[i],
            final(self).value == old(self).value,
            final(self).should_exit == old(self).should_exit,
            final(self).pending_pipelines == old(self).pending_pipelines,
            forall|other: Seq<char>|
                !spec_names_contain(names@, other) ==> (#[trigger] spec_has_local(
                    final(self).arena.records@[child.data as int],
                    other,
                ) == spec_has_local(old(self).arena.records@[child.data as int], other) && (
                spec_has_local(old(self).arena.records@[child.data as int], other)
                    ==> spec_local_get(final(self).arena.records@[child.data as int], other)
                    == spec_local_get(old(self).arena.records@[child.data as int], other))),
            (forall|a: int, b: int| 0 <= a < b < names@.len() ==> names@[a]@ != names@[b]@)
                ==> (forall|k: int|
                0 <= k < names@.len() ==> spec_has_local(
                    #[trigger] final(self).arena.records@[child.data as int],
                    names@[k]@,
                ) && spec_local_get(final(self).arena.records@[child.data as int], names@[k]@)
                    == spec_positional(command@, k)),
    {
        let mut command = command;
        let ghost stage = command@;
        let mut index: usize = 0;
        while index < names.len()
            invariant
                self.wf(),
                spec_session_frame(*old(self), *self),
                (child.data as int) < self.arena.records@.len(),
                index <= names@.len(),
                self.arena.records@.len() == old(self).arena.records@.len(),
                forall|i: int|
                    0 <= i < old(self).arena.records@.len() && i != child.data as int
                        ==> self.arena.records@[i] == old(self).arena.records@[i],
                self.value == old(self).value,
                self.should_exit == old(self).should_exit,
                self.scope == old(self).scope,
                self.pending_pipelines == old(self).pending_pipelines,
                stage.len() >= 1,
                command@ =~= seq![stage[0]] + stage.skip(
                    if index + 1 <= stage.len() {
                        index as int + 1
                    } else {
                        stage.len() as int
                    },
                ),
                forall|other: Seq<char>|
                    !spec_names_contain(names@.take(index as int), other) ==> (
                    #[trigger] spec_has_local(self.arena.records@[child.data as int], other)
                        == spec_has_local(old(self).arena.records@[child.data as int], other)
                        && (spec_has_local(old(self).arena.records@[child.data as int], other)
                        ==> spec_local_get(self.arena.records@[child.data as int], other)
                        == spec_local_get(old(self).arena.records@[child.data as int], other))),
                (forall|a: int, b: int| 0 <= a < b < names@.len() ==> names@[a]@ != names@[b]@)
                    ==> (forall|k: int|
                    0 <= k < index ==> spec_has_local(
                        #[trigger] self.arena.records@[child.data as int],
                        names@[k]@,
                    ) && spec_local_get(self.arena.records@[child.data as int], names@[k]@)
                        == spec_positional(stage, k)),
            decreases names@.len() - index,
        {
            let ghost before_record = self.arena.records@[child.data as int];
            let ghost bound: Value;
            if command.len() >= 2 {
                let actual = command.remove(1);
                proof {
                    bound = actual;
                    assert(actual == stage[index as int + 1]);
                }
                child.set_value(&mut self.arena, names[index].as_str(), actual);
                proof {
                    assert(command@ =~= seq![stage[0]] + stage.skip(
                        if index + 2 <= stage.len() {
                            index as int + 2
                        } else {
                            stage.len() as int
                        },
                    ));
                    assert(bound == spec_positional(stage, index as int));
                }
            } else {
                child.set_value(&mut self.arena, names[index].as_str(), NoneValue::create());
                proof {
                    bound = Value::Nothing(NoneValue {  });
                    assert(bound == spec_positional(stage, index as int));
                }
            }
            proof {
                assert(names@.take(index as int + 1).drop_last() =~= names@.take(index as int));
                assert forall|other: Seq<char>|
                    !spec_names_contain(names@.take(index as int + 1), other) implies (
                !spec_names_contain(names@.take(index as int), other) && other != names@[
                    index as int
                ]@) by {
                    if spec_names_contain(names@.take(index as int), other) {
                        let i = choose|i: int|
                            0 <= i < names@.take(index as int).len() && (#[trigger] names@.take(
                                index as int,
                            )[i])@ == other;
                        assert((names@.take(index as int + 1)[i])@ == other);
                        assert(spec_names_contain(names@.take(index as int + 1), other));
                    }
                    assert((names@.take(index as int + 1)[index as int])@ == names@[
                        index as int
                    ]@);
                    if other == names@[index as int]@ {
                        assert(spec_names_contain(names@.take(index as int + 1), other));
                    }
                }
                assert forall|other: Seq<char>|
                    !spec_names_contain(names@.take(index as int + 1), other) implies (
                spec_has_local(self.arena.records@[child.data as int], other) == spec_has_local(
                    old(self).arena.records@[child.data as int],
                    other,
                ) && (spec_has_local(old(self).arena.records@[child.data as int], other)
                    ==> spec_local_get(self.arena.records@[child.data as int], other)
                    == spec_local_get(old(self).arena.records@[child.data as int], other))) by {
                    assert(!spec_names_contain(names@.take(index as int), other));
                    assert(other != names@[index as int]@);
                    assert(spec_has_local(self.arena.records@[child.data as int], other)
                        == spec_has_local(before_record, other));
                    assert(spec_has_local(before_record, other) == spec_has_local(
                        old(self).arena.records@[child.data as int],
                        other,
                    ));
                }
                if forall|a: int, b: int|
                    0 <= a < b < names@.len() ==> names@[a]@ != names@[b]@ {
                    assert forall|k: int| 0 <= k < index + 1 implies spec_has_local(
                        #[trigger] self.arena.records@[child.data as int],
                        names@[k]@,
                    ) && spec_local_get(self.arena.records@[child.data as int], names@[k]@)
                        == spec_positional(stage, k) by {
                        if k < index {
                            assert(names@[k]@ != names@[index as int]@);
                            assert(spec_has_local(before_record, names@[k]@));
                            assert(spec_local_get(before_record, names@[k]@)
                                == spec_positional(stage, k));
                        } else {
                            assert(spec_local_get(
                                self.arena.records@[child.data as int],
                                names@[index as int]@,
                            ) == bound);
                        }
                    }
                }
            }
            index = index + 1;
        }
        proof {
            assert(names@.take(names@.len() as int) =~= names@);
            assert forall|other: Seq<char>|
                !spec_names_contain(names@, other) implies (spec_has_local(
                self.arena.records@[child.data as int],
                other,
            ) == spec_has_local(old(self).arena.records@[child.data as int], other) && (
            spec_has_local(old(self).arena.records@[child.data as int], other)
                ==> spec_local_get(self.arena.records@[child.data as int], other)
                == spec_local_get(old(self).arena.records@[child.data as int], other))) by {
                assert(!spec_names_contain(names@.take(names@.len() as int), other));
                assert(spec_has_local(self.arena.records@[child.data as int], other)
                    == spec_has_local(old(self).arena.records@[child.data as int], other));
            }
        }
    }

    /// Evaluates the operand of a provider mark and resolves its string
    /// form: a closure comes back as itself, any other resolved value is
    /// wrapped as a deferred provider, and an unresolved name yields
    /// `Nothing` with a diagnostic.
    fn visit_provider(&mut self, node: &Node, fuel: u64)
        requires
            old(self).wf(),
            node is Provider,
        ensures
            final(self).wf(),
            spec_session_frame(*old(self), *final(self)),
        decreases fuel, *node, 2int,
    {
        match node {
            Node::Provider { target } => {
                let mut taken = NoneValue::create();
                core::mem::swap(&mut taken, &mut self.value);
                proof {
                    assert(decreases_to!(*node => *target));
                }
                self.visit_node(target, fuel);
                let mut receiver_value = taken;
                core::mem::swap(&mut receiver_value, &mut self.value);
                let receiver = receiver_value.to_string();
                if receiver.as_str().unicode_len() == 0 {
                    self.diagnostics.push("provider of an empty name".to_owned());
                    self.value = NoneValue::create();
                    return ;
                }
                let resolved = self.scope.resolve(&self.arena, receiver.as_str());
                match resolved {
                    Some(value) => {
                        if matches!(value, Value::Closure(..)) {
                            self.value = value;
                        } else {
                            self.value = ProviderValue::create(value);
                        }
                    },
                    None => {
                        self.diagnostics.push("provider of an unresolved name".to_owned());
                        self.value = NoneValue::create();
                    },
                }
            },
            _ => {},
        }
    }

    /// Evaluates operator and operand, then dispatches on the operator's
    /// string form; an unrecognized symbol yields `Nothing`.
    fn visit_unary(&mut self, node: &Node, fuel: u64)
        requires
            old(self).wf(),
            node is Unary,
        ensures
            final(self).wf(),
            spec_session_frame(*old(self), *final(self)),
        decreases fuel, *node, 2int,
    {
        match node {
            Node::Unary { operator, target } => {
                let mut taken = NoneValue::create();
                core::mem::swap(&mut taken, &mut self.value);
                proof {
                    assert(decreases_to!(*node => *operator));
                }
                self.visit_node(operator, fuel);
                let mut operator_value = taken;
                core::mem::swap(&mut operator_value, &mut self.value);

                let mut taken = NoneValue::create();
                core::mem::swap(&mut taken, &mut self.value);
                proof {
                    assert(decreases_to!(*node => *target));
                }
                self.visit_node(target, fuel);
                let mut target_value = taken;
                core::mem::swap(&mut target_value, &mut self.value);

                let symbol = operator_value.to_string();
                if str_eq(&symbol, "+") {
                    self.value = target_value.unary_plus();
                } else if str_eq(&symbol, "-") {
                    self.value = target_value.unary_minus();
                } else if str_eq(&symbol, "not") {
                    self.value = target_value.not();
                } else if str_eq(&symbol, "$") {
                    self.value = StringValue::create("[getter]");
                } else if str_eq(&symbol, "@") {
                    self.value = StringValue::create("[descriptor]");
                } else {
                    self.value = NoneValue::create();
                }
            },
            _ => {},
        }
    }

    /// Evaluates operator and both operands, then dispatches on the
    /// operator's string form; an unrecognized symbol yields `Nothing`.
    fn visit_binary(&mut self, node: &Node, fuel: u64)
        requires
            old(self).wf(),
            node is Binary,
        ensures
            final(self).wf(),
            spec_session_frame(*old(self), *final(self)),
        decreases fuel, *node, 2int,
    {
        match node {
            Node::Binary { lefter, operator, righter } => {
                let mut taken = NoneValue::create();
                core::mem::swap(&mut taken, &mut self.value);
                proof {
                    assert(decreases_to!(*node => *operator));
                }
                self.visit_node(operator, fuel);
                let mut operator_value = taken;
                core::mem::swap(&mut operator_value, &mut self.value);

                let mut taken = NoneValue::create();
                core::mem::swap(&mut taken, &mut self.value);
                proof {
                    assert(decreases_to!(*node => *lefter));
                }
                self.visit_node(lefter, fuel);
                let mut lefter_value = taken;
                core::mem::swap(&mut lefter_value, &mut self.value);

                let mut taken = NoneValue::create();
                core::mem::swap(&mut taken, &mut self.value);
                proof {
                    assert(decreases_to!(*node => *righter));
                }
                self.visit_node(righter, fuel);
                let mut righter_value = taken;
                core::mem::swap(&mut righter_value, &mut self.value);

                let symbol = operator_value.to_string();
                if str_eq(&symbol, "+") {
                    self.value = lefter_value.plus(&righter_value);
                } else if str_eq(&symbol, "-") {
                    self.value = lefter_value.minus(&righter_value);
                } else if str_eq(&symbol, "*") {
                    self.value = lefter_value.times(&righter_value);
                } else if str_eq(&symbol, "/") {
                    self.value = lefter_value.divide(&righter_value);
                } else if str_eq(&symbol, "^") {
                    self.value = lefter_value.power(&righter_value);
                } else {
                    self.value = NoneValue::create();
                }
            },
            _ => {},
        }
    }

    /// Extracts the dotted receiver name without evaluating it, resolves
    /// its prefix to an environment (warning and yielding `Nothing` when
    /// that fails), evaluates the value side, and stores a duplicate of the
    /// result under the final name.
    fn visit_assignment(&mut self, node: &Node, fuel: u64)
        requires
            old(self).wf(),
            node is Assignment,
        ensures
            final(self).wf(),
            spec_session_frame(*old(self), *final(self)),
            node matches Node::Assignment { receiver, value: _ } ==> ({
                let extracted = receiver.spec_extract_text();
                &&& (extracted is None ==> (final(self).value == Value::Nothing(NoneValue {  })
                    && final(self).arena == old(self).arena && final(self).should_exit == old(self).should_exit && final(self).pending_pipelines == old(self).pending_pipelines
                    && final(self).closures == old(self).closures))
                &&& (extracted matches Some(name) ==> ({
                    let parts = crate::value::scope::spec_split_dots(name);
                    let bound_name = parts.last();
                    let target = spec_assign_target(
                        old(self).arena.records@,
                        old(self).scope.data as int,
                        parts.drop_last(),
                    );
                    &&& (bound_name.len() == 0 ==> (final(self).value == Value::Nothing(
                        NoneValue {  },
                    ) && final(self).arena == old(self).arena))
                    &&& ((bound_name.len() > 0 && target is None) ==> (final(self).value
                        == Value::Nothing(NoneValue {  }) && final(self).arena == old(self).arena && final(self).should_exit == old(self).should_exit && final(self).pending_pipelines == old(self).pending_pipelines))
                    &&& (target matches Some(handle) ==> (bound_name.len() > 0
                        ==> (crate::value::scope::spec_has_local(
                        final(self).arena.records@[handle],
                        bound_name,
                    ) && crate::value::scope::spec_local_get(
                        final(self).arena.records@[handle],
                        bound_name,
                    ) == crate::value::scope::spec_dup(final(self).value))))
                }))
            }),
        decreases fuel, *node, 2int,
    {
        match node {
            Node::Assignment { receiver, value } => {
                let receiver_name = match receiver.extract_text() {
                    Some(name) => name,
                    None => {
                        self.diagnostics.push(
                            "assignment ignored: receiver is not a valid name".to_owned(),
                        );
                        self.value = NoneValue::create();
                        return ;
                    },
                };
                let mut parts = crate::value::scope::split_name(receiver_name.as_str());
                let ghost all_parts = parts@;
                let name = match parts.pop() {
                    Some(name) => name,
                    None => {
                        self.value = NoneValue::create();
                        return ;
                    },
                };
                proof {
                    let split = crate::value::scope::spec_split_dots(receiver_name@);
                    assert(crate::value::scope::spec_string_views(all_parts) == split);
                    assert(name@ == crate::value::scope::spec_string_views(all_parts)[
                        all_parts.len() - 1
                    ]);
                    assert(name@ == split.last());
                    assert(crate::value::scope::spec_string_views(parts@)
                        =~= crate::value::scope::spec_string_views(all_parts).drop_last());
                    assert(crate::value::scope::spec_string_views(parts@) == split.drop_last());
                }
                if name.as_str().unicode_len() == 0 {
                    self.diagnostics.push(
                        "assignment ignored: receiver name is empty".to_owned(),
                    );
                    self.value = NoneValue::create();
                    return ;
                }
                let mut receiver_scope = ScopeValue::new(self.scope.data);
                if parts.len() > 0 {
                    let resolved = self.scope.resolve_parts(&self.arena, &parts);
                    match resolved {
                        Some(value) => {
                            match value {
                                Value::Scope(scope) => {
                                    if scope.data < self.arena.records.len() {
                                        receiver_scope = ScopeValue::new(scope.data);
                                    } else {
                                        self.value = NoneValue::create();
                                        return ;
                                    }
                                },
                                _ => {
                                    self.diagnostics.push(
                                        "assignment ignored: receiver prefix is not a scope".to_owned(),
                                    );
                                    self.value = NoneValue::create();
                                    return ;
                                },
                            }
                        },
                        None => {
                            self.diagnostics.push(
                                "assignment ignored: receiver did not resolve".to_owned(),
                            );
                            self.value = NoneValue::create();
                            return ;
                        },
                    }
                }
                let mut taken = NoneValue::create();
                core::mem::swap(&mut taken, &mut self.value);
                proof {
                    assert(decreases_to!(*node => *value));
                }
                self.visit_node(value, fuel);
                let stored = self.value.duplicate_or_move();
                receiver_scope.set_value(&mut self.arena, name.as_str(), stored);
            },
            _ => {},
        }
    }

    /// Collects the declared parameter names, unevaluated.
    fn visit_closure_arguments(&mut self, node: &Node)
        requires
            old(self).wf(),
        ensures
            final(self).wf(),
            final(self).should_exit == old(self).should_exit,
            final(self).arena == old(self).arena,
            final(self).scope == old(self).scope,
            final(self).closures == old(self).closures,
            spec_session_frame(*old(self), *final(self)),
            final(self).pending_pipelines == old(self).pending_pipelines,
    {
        match node {
            Node::ClosureArguments { values } => {
                let mut index: usize = 0;
                while index < values.len()
                    invariant
                        index <= values@.len(),
                        self.wf(),
                        self.should_exit == old(self).should_exit,
                        self.arena == old(self).arena,
                        self.scope == old(self).scope,
                        self.closures == old(self).closures,
                        self.pending_pipelines == old(self).pending_pipelines,
                    decreases values@.len() - index,
                {
                    match values[index].extract_text() {
                        Some(name) => {
                            self.closure_arguments.push(name);
                        },
                        None => {
                            self.diagnostics.push(
                                "closure parameter is not a valid name".to_owned(),
                            );
                        },
                    }
                    index = index + 1;
                }
            },
            _ => {},
        }
    }

    /// Evaluates every statement in order; the result is the last
    /// statement's value, or `Nothing` for an empty run.
    #[verifier::loop_isolation(false)]
    fn visit_expressions(&mut self, node: &Node, fuel: u64)
        requires
            old(self).wf(),
            node is Expressions,
        ensures
            final(self).wf(),
            spec_session_frame(*old(self), *final(self)),
            (node matches Node::Expressions { values } && values@.len() == 0) ==> final(self).value == Value::Nothing(NoneValue {  }),
            node matches Node::Expressions { values } ==> ({
                values@.len() == 1 ==> ({
                    &&& (values@[0] matches Node::Number { value: digits, base } ==> *final(self)
                        == (Runner {
                        value: Value::Number(
                            NumberValue { value: spec_digits_value(digits@, base) },
                        ),
                        ..*old(self)
                    }))
                    &&& (values@[0] is Closure ==> final(self).value == Value::Closure(
                        ClosureValue { data: old(self).closures@.len() as usize },
                    ))
                    &&& (values@[0] matches Node::Text { value: text } ==> ((text@ != "None"@
                        && text@ != "True"@ && text@ != "False"@) ==> (final(self).value
                        matches Value::Str(s) && s.value@ == text@)))
                })
            }),
        decreases fuel, *node, 2int,
    {
        match node {
            Node::Expressions { values } => {
                let mut last = NoneValue::create();
                let mut index: usize = 0;
                while index < values.len()
                    invariant
                        self.wf(),
                        index <= values@.len(),
                        spec_session_frame(*old(self), *self),
                        index == 0 ==> last == Value::Nothing(NoneValue {  }),
                        index == 0 ==> *self == *old(self),
                        (values@.len() == 1 && index == 1) ==> ({
                            &&& (values@[0] matches Node::Number { value: digits, base }
                                ==> (last == Value::Number(
                                NumberValue { value: spec_digits_value(digits@, base) },
                            ) && *self == *old(self)))
                            &&& (values@[0] is Closure ==> last == Value::Closure(
                                ClosureValue { data: old(self).closures@.len() as usize },
                            ))
                            &&& (values@[0] matches Node::Text { value: text } ==> ((text@
                                != "None"@ && text@ != "True"@ && text@ != "False"@) ==> (last
                                matches Value::Str(s) && s.value@ == text@)))
                        }),
                    decreases values@.len() - index,
                {
                    let ghost entry = *self;
                    let mut taken = NoneValue::create();
                    core::mem::swap(&mut taken, &mut self.value);
                    proof {
                        assert(decreases_to!(*node => (*node)->Expressions_values));
                        assert(decreases_to!((*node)->Expressions_values => (*node)->Expressions_values@));
                        assert(decreases_to!((*node)->Expressions_values@ => (*node)->Expressions_values@[index as int]));
                        assert((*node)->Expressions_values@[index as int] == values@[index as int]);
                        assert(decreases_to!(*node => values@[index as int]));
                    }
                    self.visit_node(&values[index], fuel);
                    let mut evaluated = taken;
                    core::mem::swap(&mut evaluated, &mut self.value);
                    last = evaluated;
                    proof {
                        if values@.len() == 1 && index == 0 {
                            assert(values@[index as int] == values@[0]);
                            assert(entry == *old(self));
                            if values@[0] matches Node::Number { value: digits, base } {
                                assert(*self == *old(self));
                            }
                        }
                    }
                    index = index + 1;
                }
                self.value = last;
            },
            _ => {},
        }
    }

    /// Evaluating a closure literal never evaluates its body: the current
    /// environment is captured by handle and a shared closure record is
    /// created; every copy of the resulting value shares that record.
    fn visit_closure(&mut self, node: &Node)
        requires
            old(self).wf(),
            node is Closure,
        ensures
            final(self).wf(),
            final(self).should_exit == old(self).should_exit,
            final(self).arena == old(self).arena,
            spec_session_frame(*old(self), *final(self)),
            final(self).closures@.len() == old(self).closures@.len() + 1,
            final(self).closures@.last().scope == old(self).scope.data,
            final(self).value == Value::Closure(
                ClosureValue { data: old(self).closures@.len() as usize },
            ),
    {
        match node {
            Node::Closure { arguments, body } => {
                let record = ClosureData {
                    arguments: arguments.duplicate(),
                    body: body.duplicate(),
                    scope: self.scope.data,
                };
                let handle = self.closures.len();
                self.closures.push(record);
                self.value = ClosureValue::create(handle);
            },
            _ => {},
        }
    }

    /// Evaluates one parsed line with the default recursion budget. The
    /// termination flag is never reset: once `exit` has been evaluated it
    /// stays set, and the session loop stops.
    pub fn run(&mut self, node: &Node)
        requires
            old(self).wf(),
        ensures
            final(self).wf(),
            spec_session_frame(*old(self), *final(self)),
            node matches Node::Number { value, base } ==> (*final(self) == (Runner {
                value: Value::Number(NumberValue { value: spec_digits_value(value@, *base) }),
                ..*old(self)
            })),
            node matches Node::Text { value } ==> ({
                &&& (value@ == "None"@ ==> final(self).value == Value::Nothing(NoneValue {  }))
                &&& (value@ == "True"@ ==> final(self).value == Value::Boolean(
                    BooleanValue { value: true },
                ))
                &&& (value@ == "False"@ ==> final(self).value == Value::Boolean(
                    BooleanValue { value: false },
                ))
                &&& ((value@ != "None"@ && value@ != "True"@ && value@ != "False"@)
                    ==> (final(self).value matches Value::Str(s) && s.value@ == value@))
                &&& *final(self) == (Runner { value: final(self).value, ..*old(self) })
            }),
            node is Closure ==> ({
                &&& final(self).arena == old(self).arena
                &&& final(self).should_exit == old(self).should_exit
                &&& final(self).closures@.len() == old(self).closures@.len() + 1
                &&& final(self).value == Value::Closure(
                    ClosureValue { data: old(self).closures@.len() as usize },
                )
            }),
            (node matches Node::Expressions { values } && values@.len() == 0)
                ==> final(self).value == Value::Nothing(NoneValue {  }),
            node matches Node::Expressions { values } ==> ({
                values@.len() == 1 ==> ({
                    &&& (values@[0] matches Node::Number { value: digits, base } ==> *final(self)
                        == (Runner {
                        value: Value::Number(
                            NumberValue { value: spec_digits_value(digits@, base) },
                        ),
                        ..*old(self)
                    }))
                    &&& (values@[0] is Closure ==> final(self).value == Value::Closure(
                        ClosureValue { data: old(self).closures@.len() as usize },
                    ))
                    &&& (values@[0] matches Node::Text { value: text } ==> ((text@ != "None"@
                        && text@ != "True"@ && text@ != "False"@) ==> (final(self).value
                        matches Value::Str(s) && s.value@ == text@)))
                })
            }),
    {
        self.visit_node(node, 4096);
    }
}

} // verus!
