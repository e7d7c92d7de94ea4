use cash::ast::Node;
use cash::lexer::Lexer;
use cash::parser::Parser;
use cash::runner::Runner;
use cash::stream::Stream;
use cash::stream::accumulator_stream::SimpleAccumulatorStream;
use cash::stream::wrapper_stream::WrapperStream;
use cash::value::Value;

fn parser_over(input: &str) -> Parser {
    let stream = WrapperStream::from_text(input);
    let accumulator = SimpleAccumulatorStream::new(stream);
    let lexer = Lexer::new(accumulator);
    Parser::new(lexer)
}

/// Parses and evaluates every line, stopping at `exit` as the session loop
/// does, and hands the evaluator back for inspection.
fn session(input: &str) -> (Runner, Parser) {
    let mut parser = parser_over(input);
    let mut runner = Runner::new();
    while parser.has_next() {
        let node = parser.grab();
        runner.run(&node);
        if runner.should_exit {
            break;
        }
    }
    (runner, parser)
}

fn result_number(runner: &Runner) -> i32 {
    match &runner.value {
        Value::Number(n) => n.value,
        other => panic!("expected a number, got {}", other.get_type_name()),
    }
}

fn result_text(runner: &Runner) -> String {
    match &runner.value {
        Value::Str(s) => s.value.clone(),
        other => panic!("expected a string, got {}", other.get_type_name()),
    }
}

#[test]
fn left_associative_addition() {
    // `1+2+3` must parse as (1+2)+3, not as the right-nested form
    let mut parser = parser_over("1+2+3");
    let line = parser.grab();
    let statements = match line {
        Node::Expressions { values } => values,
        _ => panic!("expected a statement line"),
    };
    assert_eq!(statements.len(), 1);
    let pipeline = &statements[0];
    let commands = match pipeline {
        Node::Pipeline { commands } => commands,
        _ => panic!("expected a pipeline"),
    };
    assert_eq!(commands.len(), 1);
    let arguments = match &commands[0] {
        Node::Command { arguments } => arguments,
        _ => panic!("expected a command"),
    };
    assert_eq!(arguments.len(), 1);
    let (lefter, righter) = match &arguments[0] {
        Node::Binary { lefter, operator: _, righter } => (lefter, righter),
        _ => panic!("expected a binary node"),
    };
    // the right operand of the outer node is the literal 3
    match righter.as_ref() {
        Node::Number { value, .. } => assert_eq!(value, "3"),
        _ => panic!("expected the right operand to be 3"),
    }
    // the left operand is itself the binary 1+2
    match lefter.as_ref() {
        Node::Binary { lefter: inner_left, operator: _, righter: inner_right } => {
            match inner_left.as_ref() {
                Node::Number { value, .. } => assert_eq!(value, "1"),
                _ => panic!("expected 1"),
            }
            match inner_right.as_ref() {
                Node::Number { value, .. } => assert_eq!(value, "2"),
                _ => panic!("expected 2"),
            }
        },
        _ => panic!("expected the left operand to be the binary 1+2"),
    }
}

#[test]
fn arithmetic_evaluates() {
    let (runner, _) = session("1+2+3");
    assert_eq!(result_number(&runner), 6);
    let (runner, _) = session("2*3+4");
    assert_eq!(result_number(&runner), 10);
    let (runner, _) = session("10h+1");
    assert_eq!(result_number(&runner), 17);
    let (runner, _) = session("-5");
    assert_eq!(result_number(&runner), -5);
}

#[test]
fn assignment_and_lookup() {
    let (runner, _) = session("x = 41\nx");
    assert_eq!(result_number(&runner), 41);
}

#[test]
fn scope_shadowing_in_a_child_environment() {
    // assigning inside the closure's child environment must not alter the
    // global binding of the same name
    let (runner, _) = session("x = 1\nshadow = { x = 2 ; x }\nshadow\nx");
    assert_eq!(result_number(&runner), 1);
    // while inside the call the shadowed name was visible
    let (runner, _) = session("x = 1\nshadow = { x = 2 ; x }\nshadow");
    assert_eq!(result_number(&runner), 2);
}

#[test]
fn outer_scope_of_the_global_environment_is_nothing() {
    let (runner, _) = session("outerScope");
    assert!(matches!(runner.value, Value::Nothing(_)));
}

#[test]
fn closure_calls_do_not_share_argument_bindings() {
    // the first call binds `seen`; the second call must not see that
    // binding, because each call gets a child environment of its own
    let (runner, _) = session("probe = { seen -> seen }\nprobe 7\nprobe");
    assert!(matches!(runner.value, Value::Nothing(_)));
}

#[test]
fn closure_calls_observe_the_captured_environment() {
    // a mutation of the defining environment made through one call is
    // observed by a later call of another closure sharing that environment
    let (runner, _) = session(
        "x = 1\nsetter = { v -> outerScope.x = v }\ngetter = { x }\nsetter 7\ngetter",
    );
    assert_eq!(result_number(&runner), 7);
}

#[test]
fn pipeline_exit_stops_everything() {
    // `exit` in the first stage stops the pipeline and the session loop:
    // the later stages are never launched and the session ends
    let (runner, mut parser) = session("exit | echo hello\nafter = 1");
    assert!(runner.should_exit);
    assert!(runner.pending_pipelines.is_empty());
    assert!(matches!(runner.value, Value::Nothing(_)));
    // the session loop stopped before the following line
    assert!(parser.has_next());
    let _ = parser.grab();
}

#[test]
fn pipeline_exit_in_a_later_stage_also_stops() {
    let (runner, _) = session("echo hello | exit");
    assert!(runner.should_exit);
    // the accumulated external stage is dropped, not launched
    assert!(runner.pending_pipelines.is_empty());
}

#[test]
fn pipeline_pass_returns_its_second_value() {
    let (runner, _) = session("pass 42");
    assert_eq!(result_number(&runner), 42);
    let (runner, _) = session("pass");
    assert!(matches!(runner.value, Value::Nothing(_)));
}

#[test]
fn unresolved_stages_become_external_commands() {
    let (runner, _) = session("echo one | grep two");
    assert!(matches!(runner.value, Value::Nothing(_)));
    assert_eq!(runner.pending_pipelines.len(), 1);
    let stages = &runner.pending_pipelines[0];
    assert_eq!(stages.len(), 2);
    assert_eq!(stages[0], vec!["echo".to_owned(), "one".to_owned()]);
    assert_eq!(stages[1], vec!["grep".to_owned(), "two".to_owned()]);
}

#[test]
fn recoverable_syntax_error_keeps_the_session_going() {
    // one malformed line yields a diagnostic, and the following well-formed
    // line still evaluates
    let (runner, parser) = session("1 +\ngood = 5\ngood");
    assert!(!parser.diagnostics.is_empty());
    assert_eq!(result_number(&runner), 5);
    assert!(!runner.should_exit);
}

#[test]
fn keywords_evaluate_to_their_values() {
    let (runner, _) = session("pass None");
    assert!(matches!(runner.value, Value::Nothing(_)));
    let (runner, _) = session("pass True");
    assert!(matches!(runner.value, Value::Boolean(b) if b.value));
    let (runner, _) = session("pass False");
    assert!(matches!(runner.value, Value::Boolean(b) if !b.value));
}

#[test]
fn quoted_strings_concatenate_their_parts() {
    // `pass` hands the string back as the stage's value; a bare string
    // would fall through to the external command path instead
    let (runner, _) = session("pass \"ab(1+2)cd\"");
    assert_eq!(result_text(&runner), "ab3cd");
}

#[test]
fn string_arithmetic_in_expressions() {
    // the fused word is one text token, a single string value
    let (runner, _) = session("pass ab+cd");
    assert_eq!(result_text(&runner), "ab+cd");
    // spaced words concatenate; the resulting bare string heads its stage,
    // does not resolve, and falls through to the external command path
    let (runner, _) = session("ab + cd");
    assert!(matches!(runner.value, Value::Nothing(_)));
    assert_eq!(
        runner.pending_pipelines,
        vec![vec![vec!["abcd".to_owned()]]],
    );
}

#[test]
fn providers_defer_and_unwrap_at_a_stage_front() {
    // a provider of a bound name wraps the value; reaching the front of a
    // pipeline stage unwraps one level
    let (runner, _) = session("x = 5\n$x");
    assert!(matches!(runner.value, Value::Number(n) if n.value == 5));
}

#[test]
fn provider_of_an_unresolved_name_warns() {
    let (runner, _) = session("$missing");
    assert!(matches!(runner.value, Value::Nothing(_)));
    assert!(!runner.diagnostics.is_empty());
}

#[test]
fn seeded_variables_resolve_like_bindings() {
    let mut runner = Runner::new();
    runner.seed_variable("HOME", "/somewhere");
    let mut parser = parser_over("pass $HOME");
    let node = parser.grab();
    runner.run(&node);
    match &runner.value {
        Value::Provider(provider) => match provider.delegate.as_ref() {
            Value::Str(s) => assert_eq!(s.value, "/somewhere"),
            _ => panic!("expected the provider to wrap the seeded string"),
        },
        other => panic!("expected a provider, got {}", other.get_type_name()),
    }
}

#[test]
fn unary_operators_evaluate() {
    // bitwise complement on a number
    let (runner, _) = session("not 0");
    assert!(matches!(runner.value, Value::Number(n) if n.value == -1));
    // the boolean answers its neutral false
    let (runner, _) = session("not True");
    assert!(matches!(runner.value, Value::Boolean(b) if !b.value));
}

#[test]
fn empty_line_is_an_empty_statement_run() {
    let (runner, _) = session("\n");
    assert!(matches!(runner.value, Value::Nothing(_)));
}
