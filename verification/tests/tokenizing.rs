use cash::stream::analyzable_stream::SimpleAnalyzableStream;
use cash::stream::wrapper_stream::WrapperStream;
use cash::tokenization::Token;
use cash::tokenization::base_to_suffix;
use cash::tokenization::process_input;

fn process(input: &str) -> Vec<Token> {
    let stream = WrapperStream::from_text(input);
    let mut analyzable = SimpleAnalyzableStream::acquire(16, 5, stream);
    process_input(&mut analyzable)
}

// every structural symbol is an operator in the single-pass pipeline, so
// the comma and the exclamation mark glue onto their words
#[test]
fn lib_test_lexer_trivial() {
    let got = process("echo Hello, World!");
    assert_eq!(
        got,
        vec![
            Token::Text { value: "echo".to_owned() },
            Token::Text { value: "Hello,".to_owned() },
            Token::Text { value: "World!".to_owned() },
        ],
    );
}

// a base-10 run that no suffix promotes stays an undecided segment in the
// single-pass pipeline; the line ends with its newline so that a trailing
// run is finalized
#[test]
fn lib_test_lexer_numeric() {
    let got = process(&format!("{}\n", "10 10b 10o 10h 3 3b 9 9b 9o f fb fh"));
    assert_eq!(
        got,
        vec![
            Token::Number { value: "10".to_owned(), base: 10 },
            Token::Number { value: "10".to_owned(), base: 2 },
            Token::Number { value: "10".to_owned(), base: 8 },
            Token::Number { value: "10".to_owned(), base: 16 },
            Token::Number { value: "3".to_owned(), base: 10 },
            Token::Text { value: "3b".to_owned() },
            Token::NumberSegment { value: "9".to_owned(), base: 10 },
            Token::Text { value: "9b".to_owned() },
            Token::Text { value: "9o".to_owned() },
            Token::Text { value: "f".to_owned() },
            Token::Text { value: "fb".to_owned() },
            Token::Number { value: "f".to_owned(), base: 16 },
            Token::Newline,
        ],
    );
}

#[test]
fn lib_test_lexer_arithmetics() {
    let got = process(&format!("{}\n", "a + b a+b a+ +b 1+2 2+ +1 +++ a(b) a-b- a+7 7+b"));
    assert_eq!(
        got,
        vec![
            Token::Text { value: "a".to_owned() },
            Token::Operator { value: "+".to_owned() },
            Token::Text { value: "b".to_owned() },
            Token::Text { value: "a+b".to_owned() },
            Token::Text { value: "a+".to_owned() },
            Token::Text { value: "+b".to_owned() },
            Token::Number { value: "1".to_owned(), base: 10 },
            Token::Operator { value: "+".to_owned() },
            Token::Number { value: "2".to_owned(), base: 10 },
            Token::Number { value: "2".to_owned(), base: 10 },
            Token::Operator { value: "+".to_owned() },
            Token::Operator { value: "+".to_owned() },
            Token::Number { value: "1".to_owned(), base: 10 },
            Token::Operator { value: "+".to_owned() },
            Token::Operator { value: "+".to_owned() },
            Token::Operator { value: "+".to_owned() },
            Token::Text { value: "a(b)".to_owned() },
            Token::Text { value: "a-b-".to_owned() },
            Token::Text { value: "a+7".to_owned() },
            Token::Number { value: "7".to_owned(), base: 10 },
            Token::Text { value: "+b".to_owned() },
            Token::Newline,
        ],
    );
}

// the provider and descriptor sigils are plain operators here, so they
// glue onto the words `variable` and `descriptor`
#[test]
fn lib_test_lexer_controls() {
    let got = process("$variable @descriptor");
    assert_eq!(
        got,
        vec![
            Token::Text { value: "$variable".to_owned() },
            Token::Text { value: "@descriptor".to_owned() },
        ],
    );
}

#[test]
fn tokenization_disambiguates_numbers() {
    let got = process("10 10b 3b f\n");
    assert_eq!(
        got,
        vec![
            Token::Number { value: "10".to_owned(), base: 10 },
            Token::Number { value: "10".to_owned(), base: 2 },
            Token::Text { value: "3b".to_owned() },
            Token::Text { value: "f".to_owned() },
            Token::Newline,
        ],
    );
}

#[test]
fn tokenization_keeps_controls_apart() {
    let got = process("a + b\n");
    assert_eq!(
        got,
        vec![
            Token::Text { value: "a".to_owned() },
            Token::Operator { value: "+".to_owned() },
            Token::Text { value: "b".to_owned() },
            Token::Newline,
        ],
    );
}

#[test]
fn suffixes_name_their_bases() {
    assert_eq!(base_to_suffix(2), "b");
    assert_eq!(base_to_suffix(8), "o");
    assert_eq!(base_to_suffix(16), "h");
    assert_eq!(base_to_suffix(10), "");
}
