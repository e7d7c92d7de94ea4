use cash::lexer::Lexer;
use cash::liner::LinerPass;
use cash::liner::transform;
use cash::lexer::Token;
use cash::liner::Liner;
use cash::stream::Stream;
use cash::stream::accumulator_stream::SimpleAccumulatorStream;
use cash::stream::wrapper_stream::WrapperStream;

fn assert_tokens(input: &str, expected: &[Token]) {
    let input_stream = WrapperStream::new(input.as_bytes());
    let accumulator_stream = SimpleAccumulatorStream::new(input_stream);
    let tokenizer = Lexer::new(accumulator_stream);
    let mut liner = Liner::new(tokenizer);

    assert!(liner.has_next());

    let got = liner.grab();

    assert_eq!(expected[..], got[..]);
}

#[test]
fn test_lexer_trivial() {
    assert_tokens(
        "echo Hello, World!",
        &[
            Token::Text { value: "echo".to_owned() },
            Token::Whitespace { value: " ".to_owned() },
            Token::Text { value: "Hello".to_owned() },
            Token::Operator { value: ",".to_owned() },
            Token::Whitespace { value: " ".to_owned() },
            Token::Text { value: "World".to_owned() },
            Token::Operator { value: "!".to_owned() },
            Token::End,
        ],
    );
}

#[test]
fn test_lexer_concatenation() {
    assert_tokens(
        "a,b a, b ,a",
        &[
            Token::Text { value: "a,b".to_owned() },
            Token::Whitespace { value: " ".to_owned() },
            Token::Text { value: "a".to_owned() },
            Token::Operator { value: ",".to_owned() },
            Token::Whitespace { value: " ".to_owned() },
            Token::Text { value: "b".to_owned() },
            Token::Whitespace { value: " ".to_owned() },
            Token::Text { value: ",a".to_owned() },
            Token::End,
        ],
    );
}

#[test]
fn test_lexer_numeric() {
    assert_tokens(
        "10 10b 10o 10h 3 3b 9 9b 9o f fb fh",
        &[
            Token::Number { value: "10".to_owned(), base: 10 },
            Token::Whitespace { value: " ".to_owned() },
            Token::Number { value: "10".to_owned(), base: 2 },
            Token::Whitespace { value: " ".to_owned() },
            Token::Number { value: "10".to_owned(), base: 8 },
            Token::Whitespace { value: " ".to_owned() },
            Token::Number { value: "10".to_owned(), base: 16 },
            Token::Whitespace { value: " ".to_owned() },
            Token::Number { value: "3".to_owned(), base: 10 },
            Token::Whitespace { value: " ".to_owned() },
            Token::Text { value: "3b".to_owned() },
            Token::Whitespace { value: " ".to_owned() },
            Token::Number { value: "9".to_owned(), base: 10 },
            Token::Whitespace { value: " ".to_owned() },
            Token::Text { value: "9b".to_owned() },
            Token::Whitespace { value: " ".to_owned() },
            Token::Text { value: "9o".to_owned() },
            Token::Whitespace { value: " ".to_owned() },
            Token::Text { value: "f".to_owned() },
            Token::Whitespace { value: " ".to_owned() },
            Token::Text { value: "fb".to_owned() },
            Token::Whitespace { value: " ".to_owned() },
            Token::Number { value: "f".to_owned(), base: 16 },
            Token::End,
        ],
    );
}

#[test]
fn test_lexer_arithmetics() {
    assert_tokens(
        "a + b a+b a+ +b 1+2 2+ +1 +++ a(b) a-b- a+7 7+b",
        &[
            Token::Text { value: "a".to_owned() },
            Token::Whitespace { value: " ".to_owned() },
            Token::Operator { value: "+".to_owned() },
            Token::Whitespace { value: " ".to_owned() },
            Token::Text { value: "b".to_owned() },
            Token::Whitespace { value: " ".to_owned() },
            Token::Text { value: "a+b".to_owned() },
            Token::Whitespace { value: " ".to_owned() },
            Token::Text { value: "a".to_owned() },
            Token::Operator { value: "+".to_owned() },
            Token::Whitespace { value: " ".to_owned() },
            Token::Text { value: "+b".to_owned() },
            Token::Whitespace { value: " ".to_owned() },
            Token::Number { value: "1".to_owned(), base: 10 },
            Token::Operator { value: "+".to_owned() },
            Token::Number { value: "2".to_owned(), base: 10 },
            Token::Whitespace { value: " ".to_owned() },
            Token::Number { value: "2".to_owned(), base: 10 },
            Token::Operator { value: "+".to_owned() },
            Token::Whitespace { value: " ".to_owned() },
            Token::Operator { value: "+".to_owned() },
            Token::Number { value: "1".to_owned(), base: 10 },
            Token::Whitespace { value: " ".to_owned() },
            Token::Operator { value: "+".to_owned() },
            Token::Operator { value: "+".to_owned() },
            Token::Operator { value: "+".to_owned() },
            Token::Whitespace { value: " ".to_owned() },
            Token::Text { value: "a".to_owned() },
            Token::Delimiter { value: "(".to_owned() },
            Token::Text { value: "b".to_owned() },
            Token::Delimiter { value: ")".to_owned() },
            Token::Whitespace { value: " ".to_owned() },
            Token::Text { value: "a-b".to_owned() },
            Token::Operator { value: "-".to_owned() },
            Token::Whitespace { value: " ".to_owned() },
            Token::Text { value: "a".to_owned() },
            Token::Operator { value: "+".to_owned() },
            Token::Number { value: "7".to_owned(), base: 10 },
            Token::Whitespace { value: " ".to_owned() },
            Token::Text { value: "7+b".to_owned() },
            Token::End,
        ],
    );
}

#[test]
fn test_lexer_controls() {
    assert_tokens(
        "$variable @descriptor",
        &[
            Token::Delimiter { value: "$".to_owned() },
            Token::Text { value: "variable".to_owned() },
            Token::Whitespace { value: " ".to_owned() },
            Token::Delimiter { value: "@".to_owned() },
            Token::Text { value: "descriptor".to_owned() },
            Token::End,
        ],
    );
}

#[test]
fn test_lexer_tight() {
    assert_tokens(
        "echo test++++fest",
        &[
            Token::Text { value: "echo".to_owned() },
            Token::Whitespace { value: " ".to_owned() },
            Token::Text { value: "test++++fest".to_owned() },
            Token::End,
        ],
    );
}

#[test]
fn test_lexer_newline_inside_quotes() {
    assert_tokens(
        "\"a\nb\"",
        &[
            Token::Delimiter { value: "\"".to_owned() },
            Token::Text { value: "a".to_owned() },
            Token::Whitespace { value: "\n".to_owned() },
            Token::Text { value: "b".to_owned() },
            Token::Delimiter { value: "\"".to_owned() },
            Token::End,
        ],
    );
}

#[test]
fn test_lexer_line_continuation() {
    assert_tokens(
        "a \\\nb",
        &[
            Token::Text { value: "a".to_owned() },
            Token::Whitespace { value: " \\\n".to_owned() },
            Token::Text { value: "b".to_owned() },
            Token::End,
        ],
    );
}

#[test]
fn number_promotion_pass_on_plain_tokens() {
    // a suffix wide enough promotes the run to a finished number
    let line = vec![
        Token::NumberSegment { value: "10".to_owned(), base: 2 },
        Token::Text { value: "h".to_owned() },
        Token::Newline,
    ];
    let got = transform(&line, LinerPass::Numbers);
    assert_eq!(got, vec![Token::Number { value: "10".to_owned(), base: 16 }, Token::Newline]);
    // a run already committed to base 10 cannot narrow to binary
    let line = vec![
        Token::NumberSegment { value: "9".to_owned(), base: 10 },
        Token::Text { value: "b".to_owned() },
        Token::Newline,
    ];
    let got = transform(&line, LinerPass::Numbers);
    assert_eq!(got, vec![Token::Text { value: "9b".to_owned() }, Token::Newline]);
}

#[test]
fn tight_fusion_pass_on_plain_tokens() {
    let line = vec![
        Token::Text { value: "a".to_owned() },
        Token::Number { value: "7".to_owned(), base: 10 },
        Token::Newline,
    ];
    let got = transform(&line, LinerPass::TightTokens);
    assert_eq!(got, vec![Token::Text { value: "a7".to_owned() }, Token::Newline]);
    let line = vec![
        Token::Operator { value: "+".to_owned() },
        Token::Text { value: "b".to_owned() },
        Token::End,
    ];
    let got = transform(&line, LinerPass::TightTokens);
    assert_eq!(got, vec![Token::Text { value: "+b".to_owned() }, Token::End]);
}
