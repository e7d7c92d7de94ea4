//! The single-pass tokenization pipeline: one logical line is read straight
//! from an analyzable character stream, then rewritten left to right —
//! duplicate whitespace folded, numeric runs disambiguated, tight tokens
//! fused — and finally stripped of whitespace. It is a compact alternative
//! to the lexer/liner pair for callers that want one line of plain tokens
//! in a single call.

use vstd::prelude::*;

use crate::lexer::TokenView;
use crate::lexer::spec_leading;
use crate::stream::Stream;
use crate::stream::accumulator_stream::AccumulatorStream;
use crate::stream::analyzable_stream::SimpleAnalyzableStream;
use crate::text::str_eq;
use crate::text::concat_strings;

verus! {

/// One lexical unit of the single-pass pipeline. Every structural symbol
/// counts as an operator here; there are no delimiters and no end token,
/// since one call hands back exactly one line.
#[derive(Clone, PartialEq, Eq, Debug)]
pub enum Token {
    Operator { value: String },
    NumberSegment { value: String, base: u8 },
    Number { value: String, base: u8 },
    Text { value: String },
    Whitespace { value: String },
    Newline,
}

impl Token {
    /// A structurally equal copy of the token.
    pub fn duplicate(&self) -> (r: Token)
        ensures
            r == *self,
    {
        match self {
            Token::Operator { value } => Token::Operator { value: value.clone() },
            Token::NumberSegment { value, base } => Token::NumberSegment {
                value: value.clone(),
                base: *base,
            },
            Token::Number { value, base } => Token::Number { value: value.clone(), base: *base },
            Token::Text { value } => Token::Text { value: value.clone() },
            Token::Whitespace { value } => Token::Whitespace { value: value.clone() },
            Token::Newline => Token::Newline,
        }
    }
}

impl View for Token {
    type V = TokenView;

    open spec fn view(&self) -> TokenView {
        match self {
            Token::Operator { value } => TokenView::Operator { text: value@ },
            Token::NumberSegment { value, base } => TokenView::NumberSegment {
                text: value@,
                base: *base,
            },
            Token::Number { value, base } => TokenView::Number { text: value@, base: *base },
            Token::Text { value } => TokenView::Text { text: value@ },
            Token::Whitespace { value } => TokenView::Whitespace { text: value@ },
            Token::Newline => TokenView::Newline,
        }
    }
}

/// The views of a run of tokens.
pub open spec fn spec_token_views(tokens: Seq<Token>) -> Seq<TokenView> {
    tokens.map_values(|t: Token| t@)
}

/// The suffix letter that names a base: the reverse of the promotion
/// mapping.
pub open spec fn spec_base_to_suffix(base: u8) -> Seq<char> {
    if base == 2 {
        "b"@
    } else if base == 8 {
        "o"@
    } else if base == 16 {
        "h"@
    } else {
        ""@
    }
}

/// The suffix letter that names a base: `b`, `o` and `h` for bases 2, 8
/// and 16, and nothing for any other base.
pub fn base_to_suffix(base: u8) -> (r: String)
    ensures
        r@ == spec_base_to_suffix(base),
{
    if base == 2 {
        "b".to_owned()
    } else if base == 8 {
        "o".to_owned()
    } else if base == 16 {
        "h".to_owned()
    } else {
        "".to_owned()
    }
}

/// One step of the duplicate-whitespace pass, walking left to right with
/// the rewritten prefix in hand: two adjacent whitespace runs fold into
/// one.
pub open spec fn spec_dedup_step(done: Seq<TokenView>, next: TokenView) -> Seq<TokenView> {
    if done.len() == 0 {
        seq![next]
    } else {
        match (done.last(), next) {
            (TokenView::Whitespace { text: lv }, TokenView::Whitespace { text: rv }) => {
                done.drop_last().push(TokenView::Whitespace { text: lv + rv })
            },
            _ => done.push(next),
        }
    }
}

/// One step of the number-disambiguation pass, walking left to right: an
/// undecided segment merges with a following segment (widening the base),
/// is promoted or demoted by a suffix word, or — when anything else
/// follows — finalizes to base 10 or demotes to text, a base-10 segment
/// staying undecided until something later decides it.
pub open spec fn spec_cash_numbers_step(done: Seq<TokenView>, next: TokenView) -> Seq<TokenView> {
    if done.len() == 0 {
        seq![next]
    } else {
        match (done.last(), next) {
            (
                TokenView::NumberSegment { text: lv, base: lb },
                TokenView::NumberSegment { text: rv, base: rb },
            ) => {
                if rv == "b"@ && lb == 2 {
                    done.drop_last().push(TokenView::Number { text: lv, base: lb })
                } else {
                    done.drop_last().push(
                        TokenView::NumberSegment {
                            text: lv + rv,
                            base: if lb >= rb {
                                lb
                            } else {
                                rb
                            },
                        },
                    )
                }
            },
            (
                TokenView::NumberSegment { text: lv, base: lb },
                TokenView::Text { text: rv },
            ) => {
                if rv == "b"@ {
                    if lb == 2 {
                        done.drop_last().push(TokenView::Number { text: lv, base: 2 })
                    } else {
                        done.drop_last().push(TokenView::Text { text: lv + rv })
                    }
                } else if rv == "o"@ {
                    if lb <= 8 {
                        done.drop_last().push(TokenView::Number { text: lv, base: 8 })
                    } else {
                        done.drop_last().push(TokenView::Text { text: lv + rv })
                    }
                } else if rv == "h"@ {
                    if lb <= 16 {
                        done.drop_last().push(TokenView::Number { text: lv, base: 16 })
                    } else {
                        done.drop_last().push(TokenView::Text { text: lv + rv })
                    }
                } else {
                    done.drop_last().push(TokenView::Text { text: lv + rv })
                }
            },
            (
                TokenView::Text { text: lv },
                TokenView::NumberSegment { text: rv, .. },
            ) => done.drop_last().push(TokenView::Text { text: lv + rv }),
            (TokenView::NumberSegment { text: lv, base: lb }, _) => {
                if lb < 10 {
                    done.drop_last().push(TokenView::Number { text: lv, base: 10 }).push(next)
                } else if lb > 10 {
                    done.drop_last().push(TokenView::Text { text: lv }).push(next)
                } else {
                    done.push(next)
                }
            },
            _ => done.push(next),
        }
    }
}

/// One step of the tight-string fusion pass, walking left to right: words,
/// numbers and operators standing tightly together fuse into one word, in
/// both directions.
pub open spec fn spec_cash_tight_step(done: Seq<TokenView>, next: TokenView) -> Seq<TokenView> {
    if done.len() == 0 {
        seq![next]
    } else {
        match (done.last(), next) {
            (TokenView::Operator { text: lv }, TokenView::Text { text: rv }) => done.drop_last()
                .push(TokenView::Text { text: lv + rv }),
            (TokenView::Text { text: lv }, TokenView::Operator { text: rv }) => done.drop_last()
                .push(TokenView::Text { text: lv + rv }),
            (TokenView::Text { text: lv }, TokenView::Text { text: rv }) => done.drop_last().push(
                TokenView::Text { text: lv + rv },
            ),
            (TokenView::Number { text: lv, .. }, TokenView::Text { text: rv }) => done.drop_last()
                .push(TokenView::Text { text: lv + rv }),
            (TokenView::Text { text: lv }, TokenView::Number { text: rv, .. }) => done.drop_last()
                .push(TokenView::Text { text: lv + rv }),
            _ => done.push(next),
        }
    }
}

/// Which of the single-pass pipeline's rewrites to run.
#[derive(Clone, Copy, Debug)]
pub enum TokenPass {
    DuplicateWhitespaces,
    Numbers,
    TightStrings,
}

/// A whole pass folded over a line, left to right.
pub open spec fn spec_cash_pass_run(
    pass: TokenPass,
    done: Seq<TokenView>,
    rest: Seq<TokenView>,
) -> Seq<TokenView>
    decreases rest.len(),
{
    if rest.len() == 0 {
        done
    } else {
        spec_cash_pass_run(
            pass,
            match pass {
                TokenPass::DuplicateWhitespaces => spec_dedup_step(done, rest[0]),
                TokenPass::Numbers => spec_cash_numbers_step(done, rest[0]),
                TokenPass::TightStrings => spec_cash_tight_step(done, rest[0]),
            },
            rest.skip(1),
        )
    }
}

/// A whole pass over a line.
pub open spec fn spec_cash_pass(pass: TokenPass, tokens: Seq<TokenView>) -> Seq<TokenView> {
    spec_cash_pass_run(pass, Seq::empty(), tokens)
}

/// The line with its whitespace runs dropped.
pub open spec fn spec_drop_whitespace(tokens: Seq<TokenView>) -> Seq<TokenView>
    decreases tokens.len(),
{
    if tokens.len() == 0 {
        Seq::empty()
    } else if tokens[0] is Whitespace {
        spec_drop_whitespace(tokens.skip(1))
    } else {
        seq![tokens[0]] + spec_drop_whitespace(tokens.skip(1))
    }
}

fn apply_dedup_step(next: Token, target: &mut Vec<Token>)
    ensures
        spec_token_views(final(target)@) == spec_dedup_step(spec_token_views(old(target)@), next@),
{
    let ghost done = spec_token_views(old(target)@);
    if target.len() == 0 {
        target.push(next);
        proof {
            assert(spec_token_views(target@) =~= seq![next@]);
        }
        return ;
    }
    let last = target[target.len() - 1].duplicate();
    match (&last, &next) {
        (Token::Whitespace { value: lv }, Token::Whitespace { value: rv }) => {
            let fused = concat_strings(lv, rv);
            let popped = target.pop();
            target.push(Token::Whitespace { value: fused });
            proof {
                assert(spec_token_views(target@) =~= done.drop_last().push(
                    TokenView::Whitespace { text: lv@ + rv@ },
                ));
            }
        },
        _ => {
            target.push(next.duplicate());
            proof {
                assert(spec_token_views(target@) =~= done.push(next@));
            }
        },
    }
}

/// Performs the transcription of one token against the rewritten prefix of
/// the duplicate-whitespace pass. Adjacent whitespace runs fuse.
pub fn transform_duplicate_whitespaces(next: Token, target: &mut Vec<Token>)
    ensures
        spec_token_views(final(target)@) == spec_dedup_step(spec_token_views(old(target)@), next@),
{
    apply_dedup_step(next, target)
}

fn apply_numbers_step(next: Token, target: &mut Vec<Token>)
    ensures
        spec_token_views(final(target)@) == spec_cash_numbers_step(
            spec_token_views(old(target)@),
            next@,
        ),
{
    let ghost done = spec_token_views(old(target)@);
    if target.len() == 0 {
        target.push(next);
        proof {
            assert(spec_token_views(target@) =~= seq![next@]);
        }
        return ;
    }
    let last = target[target.len() - 1].duplicate();
    match (&last, &next) {
        (
            Token::NumberSegment { value: lv, base: lb },
            Token::NumberSegment { value: rv, base: rb },
        ) => {
            if str_eq(rv, "b") && *lb == 2 {
                let popped = target.pop();
                target.push(Token::Number { value: lv.clone(), base: *lb });
                proof {
                    assert(spec_token_views(target@) =~= spec_cash_numbers_step(done, next@));
                }
            } else {
                let fused = concat_strings(lv, rv);
                let wider = if *lb >= *rb {
                    *lb
                } else {
                    *rb
                };
                let popped = target.pop();
                target.push(Token::NumberSegment { value: fused, base: wider });
                proof {
                    assert(spec_token_views(target@) =~= spec_cash_numbers_step(done, next@));
                }
            }
        },
        (Token::NumberSegment { value: lv, base: lb }, Token::Text { value: rv }) => {
            if str_eq(rv, "b") {
                if *lb == 2 {
                    let popped = target.pop();
                    target.push(Token::Number { value: lv.clone(), base: 2 });
                    proof {
                        assert(spec_token_views(target@) =~= spec_cash_numbers_step(
                            done,
                            next@,
                        ));
                    }
                } else {
                    let fused = concat_strings(lv, rv);
                    let popped = target.pop();
                    target.push(Token::Text { value: fused });
                    proof {
                        assert(spec_token_views(target@) =~= spec_cash_numbers_step(
                            done,
                            next@,
                        ));
                    }
                }
            } else if str_eq(rv, "o") {
                if *lb <= 8 {
                    let popped = target.pop();
                    target.push(Token::Number { value: lv.clone(), base: 8 });
                    proof {
                        assert(spec_token_views(target@) =~= spec_cash_numbers_step(
                            done,
                            next@,
                        ));
                    }
                } else {
                    let fused = concat_strings(lv, rv);
                    let popped = target.pop();
                    target.push(Token::Text { value: fused });
                    proof {
                        assert(spec_token_views(target@) =~= spec_cash_numbers_step(
                            done,
                            next@,
                        ));
                    }
                }
            } else if str_eq(rv, "h") {
                if *lb <= 16 {
                    let popped = target.pop();
                    target.push(Token::Number { value: lv.clone(), base: 16 });
                    proof {
                        assert(spec_token_views(target@) =~= spec_cash_numbers_step(
                            done,
                            next@,
                        ));
                    }
                } else {
                    let fused = concat_strings(lv, rv);
                    let popped = target.pop();
                    target.push(Token::Text { value: fused });
                    proof {
                        assert(spec_token_views(target@) =~= spec_cash_numbers_step(
                            done,
                            next@,
                        ));
                    }
                }
            } else {
                let fused = concat_strings(lv, rv);
                let popped = target.pop();
                target.push(Token::Text { value: fused });
                proof {
                    assert(spec_token_views(target@) =~= spec_cash_numbers_step(done, next@));
                }
            }
        },
        (Token::Text { value: lv }, Token::NumberSegment { value: rv, base: _ }) => {
            let fused = concat_strings(lv, rv);
            let popped = target.pop();
            target.push(Token::Text { value: fused });
            proof {
                assert(spec_token_views(target@) =~= spec_cash_numbers_step(done, next@));
            }
        },
        (Token::NumberSegment { value: lv, base: lb }, _) => {
            if *lb < 10 {
                let popped = target.pop();
                target.push(Token::Number { value: lv.clone(), base: 10 });
                target.push(next.duplicate());
            } else if *lb > 10 {
                let popped = target.pop();
                target.push(Token::Text { value: lv.clone() });
                target.push(next.duplicate());
            } else {
                target.push(next.duplicate());
            }
            proof {
                assert(spec_token_views(target@) =~= spec_cash_numbers_step(done, next@));
            }
        },
        _ => {
            target.push(next.duplicate());
            proof {
                assert(spec_token_views(target@) =~= done.push(next@));
            }
        },
    }
}

fn apply_tight_step(next: Token, target: &mut Vec<Token>)
    ensures
        spec_token_views(final(target)@) == spec_cash_tight_step(
            spec_token_views(old(target)@),
            next@,
        ),
{
    let ghost done = spec_token_views(old(target)@);
    if target.len() == 0 {
        target.push(next);
        proof {
            assert(spec_token_views(target@) =~= seq![next@]);
        }
        return ;
    }
    let last = target[target.len() - 1].duplicate();
    let fuse = match (&last, &next) {
        (Token::Operator { .. }, Token::Text { .. }) => true,
        (Token::Text { .. }, Token::Operator { .. }) => true,
        (Token::Text { .. }, Token::Text { .. }) => true,
        (Token::Number { .. }, Token::Text { .. }) => true,
        (Token::Text { .. }, Token::Number { .. }) => true,
        _ => false,
    };
    if fuse {
        let left_text = match &last {
            Token::Operator { value } => value.clone(),
            Token::Number { value, .. } => value.clone(),
            Token::Text { value } => value.clone(),
            _ => String::new(),
        };
        let right_text = match &next {
            Token::Operator { value } => value.clone(),
            Token::Number { value, .. } => value.clone(),
            Token::Text { value } => value.clone(),
            _ => String::new(),
        };
        let fused = concat_strings(&left_text, &right_text);
        let popped = target.pop();
        target.push(Token::Text { value: fused });
        proof {
            assert(spec_token_views(target@) =~= spec_cash_tight_step(done, next@));
        }
    } else {
        target.push(next.duplicate());
        proof {
            assert(spec_token_views(target@) =~= done.push(next@));
        }
    }
}

/// Performs the transcription of one token against the rewritten prefix of
/// the tight-string fusion pass.
pub fn transform_tight_strings(next: Token, target: &mut Vec<Token>)
    ensures
        spec_token_views(final(target)@) == spec_cash_tight_step(
            spec_token_views(old(target)@),
            next@,
        ),
{
    apply_tight_step(next, target)
}

/// Runs one rewrite pass over a whole line, left to right, as the pass
/// functions describe.
pub fn transform(tokens: &Vec<Token>, apply: TokenPass) -> (r: Vec<Token>)
    ensures
        spec_token_views(r@) == spec_cash_pass(apply, spec_token_views(tokens@)),
{
    let mut done: Vec<Token> = Vec::new();
    let mut index: usize = 0;
    proof {
        assert(spec_token_views(done@) =~= Seq::<TokenView>::empty());
        assert(spec_token_views(tokens@).skip(0) =~= spec_token_views(tokens@));
    }
    while index < tokens.len()
        invariant
            index <= tokens@.len(),
            spec_cash_pass_run(
                apply,
                spec_token_views(done@),
                spec_token_views(tokens@).skip(index as int),
            ) == spec_cash_pass(apply, spec_token_views(tokens@)),
        decreases tokens@.len() - index,
    {
        let ghost before = spec_token_views(done@);
        let ghost rest = spec_token_views(tokens@).skip(index as int);
        match apply {
            TokenPass::DuplicateWhitespaces => apply_dedup_step(
                tokens[index].duplicate(),
                &mut done,
            ),
            TokenPass::Numbers => apply_numbers_step(tokens[index].duplicate(), &mut done),
            TokenPass::TightStrings => apply_tight_step(tokens[index].duplicate(), &mut done),
        }
        proof {
            assert(rest[0] == tokens@[index as int]@);
            assert(rest.skip(1) =~= spec_token_views(tokens@).skip(index as int + 1));
        }
        index = index + 1;
    }
    done
}

/// True of the symbols the single-pass pipeline reads as operators: every
/// structural symbol, delimiters included.
pub open spec fn spec_is_cash_operator(c: char) -> bool {
    ||| c == ':' ||| c == '=' ||| c == '+' ||| c == '-' ||| c == '*' ||| c == '%'
    ||| c == '$' ||| c == '#' ||| c == '@' ||| c == '!' ||| c == '&' ||| c == '^'
    ||| c == '|' ||| c == '/' ||| c == '.' ||| c == '~' ||| c == '(' ||| c == ')'
    ||| c == '[' ||| c == ']' ||| c == '{' ||| c == '}' ||| c == '<' ||| c == '>'
    ||| c == ';' ||| c == ','
}

/// True of the characters that may stand inside a bare word here.
pub open spec fn spec_is_cash_word(c: char) -> bool {
    !spec_is_cash_operator(c) && !crate::lexer::spec_is_whitespace(c) && c != '\n'
}

/// The tokens one scan step emits, the characters it consumes, and whether
/// the line ends there: the functional form of one step of `tokenize`. An
/// escaped newline is announced without being consumed — the newline itself
/// still ends the line on the next step — and an escape before anything
/// else consumes the backslash and emits nothing.
pub open spec fn spec_cash_scan(rem: Seq<char>) -> (Seq<TokenView>, int, bool) {
    if rem.len() == 0 {
        (Seq::empty(), 0, true)
    } else {
        let c = rem[0];
        if c == '\\' {
            if rem.len() >= 2 && rem[1] == '\n' {
                (seq![TokenView::Newline], 1, false)
            } else {
                (Seq::empty(), 1, false)
            }
        } else if c == '\n' {
            (seq![TokenView::Newline], 1, true)
        } else if crate::lexer::spec_is_whitespace(c) {
            let run = spec_leading(rem, spec_class_fn(CharClass::Blank));
            (seq![spec_class_token(CharClass::Blank, rem.take(run))], run, false)
        } else if spec_is_cash_operator(c) {
            (seq![TokenView::Operator { text: seq![c] }], 1, false)
        } else if crate::lexer::spec_is_binary(c) {
            let run = spec_leading(rem, spec_class_fn(CharClass::Binary));
            (seq![spec_class_token(CharClass::Binary, rem.take(run))], run, false)
        } else if crate::lexer::spec_is_octal(c) {
            let run = spec_leading(rem, spec_class_fn(CharClass::Octal));
            (seq![spec_class_token(CharClass::Octal, rem.take(run))], run, false)
        } else if crate::lexer::spec_is_decimal(c) {
            let run = spec_leading(rem, spec_class_fn(CharClass::Decimal));
            (seq![spec_class_token(CharClass::Decimal, rem.take(run))], run, false)
        } else if crate::lexer::spec_is_hexadecimal(c) {
            let run = spec_leading(rem, spec_class_fn(CharClass::Hexadecimal));
            (seq![spec_class_token(CharClass::Hexadecimal, rem.take(run))], run, false)
        } else {
            let run = spec_leading(rem, spec_class_fn(CharClass::Word));
            (seq![spec_class_token(CharClass::Word, rem.take(run))], run, false)
        }
    }
}

/// One scan step of a non-empty input consumes at least one character and
/// never more than there are.
pub proof fn lemma_cash_scan_bounds(rem: Seq<char>)
    ensures
        rem.len() > 0 ==> 1 <= spec_cash_scan(rem).1 <= rem.len(),
{
    if rem.len() > 0 {
        let c = rem[0];
        crate::lexer::lemma_leading_bounds(rem, spec_class_fn(CharClass::Blank));
        crate::lexer::lemma_leading_bounds(rem, spec_class_fn(CharClass::Binary));
        crate::lexer::lemma_leading_bounds(rem, spec_class_fn(CharClass::Octal));
        crate::lexer::lemma_leading_bounds(rem, spec_class_fn(CharClass::Decimal));
        crate::lexer::lemma_leading_bounds(rem, spec_class_fn(CharClass::Hexadecimal));
        crate::lexer::lemma_leading_bounds(rem, spec_class_fn(CharClass::Word));
        if crate::lexer::spec_is_whitespace(c) {
            assert(spec_class_fn(CharClass::Blank)(rem[0]));
            crate::lexer::lemma_first_sticks(rem, spec_class_fn(CharClass::Blank));
            crate::lexer::lemma_leading_bounds(rem.skip(1), spec_class_fn(CharClass::Blank));
        }
        if crate::lexer::spec_is_binary(c) {
            assert(spec_class_fn(CharClass::Binary)(rem[0]));
            crate::lexer::lemma_first_sticks(rem, spec_class_fn(CharClass::Binary));
            crate::lexer::lemma_leading_bounds(rem.skip(1), spec_class_fn(CharClass::Binary));
        }
        if crate::lexer::spec_is_octal(c) {
            assert(spec_class_fn(CharClass::Octal)(rem[0]));
            crate::lexer::lemma_first_sticks(rem, spec_class_fn(CharClass::Octal));
            crate::lexer::lemma_leading_bounds(rem.skip(1), spec_class_fn(CharClass::Octal));
        }
        if crate::lexer::spec_is_decimal(c) {
            assert(spec_class_fn(CharClass::Decimal)(rem[0]));
            crate::lexer::lemma_first_sticks(rem, spec_class_fn(CharClass::Decimal));
            crate::lexer::lemma_leading_bounds(rem.skip(1), spec_class_fn(CharClass::Decimal));
        }
        if crate::lexer::spec_is_hexadecimal(c) {
            assert(spec_class_fn(CharClass::Hexadecimal)(rem[0]));
            crate::lexer::lemma_first_sticks(rem, spec_class_fn(CharClass::Hexadecimal));
            crate::lexer::lemma_leading_bounds(rem.skip(1), spec_class_fn(CharClass::Hexadecimal));
        }
        if spec_is_cash_word(c) {
            assert(spec_class_fn(CharClass::Word)(rem[0]));
            crate::lexer::lemma_first_sticks(rem, spec_class_fn(CharClass::Word));
            crate::lexer::lemma_leading_bounds(rem.skip(1), spec_class_fn(CharClass::Word));
        }
    }
}

/// The raw tokens of one logical line: scan steps taken one after the
/// other up to and including the first unescaped newline (or the end of
/// the input), together with how many characters they consumed.
pub open spec fn spec_cash_lex(rem: Seq<char>) -> (Seq<TokenView>, int)
    decreases rem.len(),
{
    if rem.len() == 0 {
        (Seq::empty(), 0)
    } else {
        let (emitted, used, stop) = spec_cash_scan(rem);
        if stop {
            (emitted, used)
        } else {
            proof {
                lemma_cash_scan_bounds(rem);
            }
            let rest = spec_cash_lex(rem.skip(used));
            (emitted + rest.0, used + rest.1)
        }
    }
}

/// Reads the raw tokens of one logical line from the stream, exactly as
/// `spec_cash_lex` says: characters are classified as the single-pass
/// pipeline classifies them, and the read stops after a newline or at the
/// end of the input.
pub fn tokenize(stream: &mut SimpleAnalyzableStream) -> (r: Vec<Token>)
    requires
        old(stream).wf(),
    ensures
        final(stream).wf(),
        spec_token_views(r@) == spec_cash_lex(old(stream).remaining()).0,
        final(stream).remaining() == old(stream).remaining().skip(
            spec_cash_lex(old(stream).remaining()).1,
        ),
{
    let ghost orig = stream.remaining();
    let ghost full = spec_cash_lex(orig);
    let mut tokens: Vec<Token> = Vec::new();
    proof {
        assert(spec_token_views(tokens@) =~= Seq::<TokenView>::empty());
    }
    if !stream.has_next() {
        proof {
            assert(orig.skip(0) =~= orig);
        }
        return tokens;
    }
    let ghost mut consumed: int = 0;
    proof {
        assert(orig.skip(0) =~= orig);
        assert(spec_token_views(tokens@) + spec_cash_lex(orig).0 =~= spec_cash_lex(orig).0);
    }
    loop
        invariant_except_break
            full.0 == spec_token_views(tokens@) + spec_cash_lex(orig.skip(consumed)).0,
            full.1 == consumed + spec_cash_lex(orig.skip(consumed)).1,
        invariant
            stream.wf(),
            0 <= consumed <= orig.len(),
            stream.remaining() == orig.skip(consumed),
            full == spec_cash_lex(orig),
        ensures
            stream.wf(),
            spec_token_views(tokens@) == full.0,
            stream.remaining() == orig.skip(full.1),
        decreases stream.remaining().len(),
    {
        let ghost now = orig.skip(consumed);
        let ghost scanned = spec_cash_scan(now);
        let ghost before_iter = tokens@;
        proof {
            lemma_cash_scan_bounds(now);
        }
        let symbol = match stream.peek() {
            Some(symbol) => symbol,
            None => {
                proof {
                    assert(now.len() == 0);
                    assert(spec_cash_lex(now).0 =~= Seq::<TokenView>::empty());
                    assert(spec_cash_lex(now).1 == 0);
                    assert(spec_token_views(tokens@) + spec_cash_lex(now).0 =~= spec_token_views(
                        tokens@,
                    ));
                    assert(spec_token_views(tokens@) == full.0);
                    assert(stream.remaining() == orig.skip(full.1));
                }
                break ;
            },
        };
        stream.clear();
        if symbol == '\\' {
            stream.step();
            let escaped = stream.peek();
            let ghost before_push = tokens@;
            match escaped {
                Some(c) => {
                    if c == '\n' {
                        tokens.push(Token::Newline);
                    }
                },
                None => {},
            }
            proof {
                consumed = consumed + 1;
                assert(stream.remaining() =~= orig.skip(consumed));
                assert(now.skip(1) =~= orig.skip(consumed));
                if now.len() >= 2 && now[1] == '\n' {
                    assert(spec_token_views(tokens@) =~= spec_token_views(before_push).push(
                        TokenView::Newline,
                    ));
                    assert(spec_token_views(before_push) + (scanned.0 + spec_cash_lex(
                        now.skip(1),
                    ).0) =~= spec_token_views(tokens@) + spec_cash_lex(now.skip(1)).0);
                } else {
                    assert(spec_token_views(before_push) + (scanned.0 + spec_cash_lex(
                        now.skip(1),
                    ).0) =~= spec_token_views(tokens@) + spec_cash_lex(now.skip(1)).0);
                }
            }
        } else if symbol == '\n' {
            let ghost before_push = tokens@;
            tokens.push(Token::Newline);
            stream.step();
            proof {
                consumed = consumed + 1;
                assert(stream.remaining() =~= orig.skip(consumed));
                assert(spec_token_views(tokens@) =~= spec_token_views(before_push).push(
                    TokenView::Newline,
                ));
                assert(spec_token_views(tokens@) =~= spec_token_views(before_push) + scanned.0);
                assert(scanned.2);
                assert(spec_cash_lex(now).0 == scanned.0 && spec_cash_lex(now).1 == scanned.1);
                assert(spec_token_views(tokens@) =~= full.0);
                assert(stream.remaining() == orig.skip(full.1));
            }
            break ;
        } else if is_cash_whitespace(symbol) {
            stream.step();
            read_cash_run(stream, CharClass::Blank, &mut tokens, Ghost(now), Ghost(consumed));
            proof {
                consumed = consumed + spec_leading(now, spec_class_fn(CharClass::Blank));
                assert(spec_token_views(tokens@) =~= spec_token_views(before_iter) + scanned.0);
                assert(stream.remaining() =~= orig.skip(consumed));
            }
        } else if is_cash_operator(symbol) {
            let ghost before_push = tokens@;
            stream.step();
            tokens.push(Token::Operator { value: crate::text::char_string(symbol) });
            proof {
                consumed = consumed + 1;
                assert(stream.remaining() =~= orig.skip(consumed));
                assert(spec_token_views(tokens@) =~= spec_token_views(before_push) + scanned.0);
            }
        } else if is_cash_binary(symbol) {
            stream.step();
            read_cash_run(stream, CharClass::Binary, &mut tokens, Ghost(now), Ghost(consumed));
            proof {
                consumed = consumed + spec_leading(now, spec_class_fn(CharClass::Binary));
                assert(spec_token_views(tokens@) =~= spec_token_views(before_iter) + scanned.0);
                assert(stream.remaining() =~= orig.skip(consumed));
            }
        } else if is_cash_octal(symbol) {
            stream.step();
            read_cash_run(stream, CharClass::Octal, &mut tokens, Ghost(now), Ghost(consumed));
            proof {
                consumed = consumed + spec_leading(now, spec_class_fn(CharClass::Octal));
                assert(spec_token_views(tokens@) =~= spec_token_views(before_iter) + scanned.0);
                assert(stream.remaining() =~= orig.skip(consumed));
            }
        } else if is_cash_decimal(symbol) {
            stream.step();
            read_cash_run(stream, CharClass::Decimal, &mut tokens, Ghost(now), Ghost(consumed));
            proof {
                consumed = consumed + spec_leading(now, spec_class_fn(CharClass::Decimal));
                assert(spec_token_views(tokens@) =~= spec_token_views(before_iter) + scanned.0);
                assert(stream.remaining() =~= orig.skip(consumed));
            }
        } else if is_cash_hexadecimal(symbol) {
            stream.step();
            read_cash_run(stream, CharClass::Hexadecimal, &mut tokens, Ghost(now), Ghost(consumed));
            proof {
                consumed = consumed + spec_leading(now, spec_class_fn(CharClass::Hexadecimal));
                assert(spec_token_views(tokens@) =~= spec_token_views(before_iter) + scanned.0);
                assert(stream.remaining() =~= orig.skip(consumed));
            }
        } else {
            stream.step();
            read_cash_run(stream, CharClass::Word, &mut tokens, Ghost(now), Ghost(consumed));
            proof {
                consumed = consumed + spec_leading(now, spec_class_fn(CharClass::Word));
                assert(spec_token_views(tokens@) =~= spec_token_views(before_iter) + scanned.0);
                assert(stream.remaining() =~= orig.skip(consumed));
            }
        }
        proof {
            assert(spec_token_views(tokens@) =~= spec_token_views(before_iter) + scanned.0);
            assert(spec_cash_lex(now).0 =~= scanned.0 + spec_cash_lex(orig.skip(consumed)).0);
            assert(full.0 =~= spec_token_views(tokens@) + spec_cash_lex(orig.skip(consumed)).0);
        }
    }
    tokens
}

/// The character classes the single-pass pipeline reads runs of.
#[derive(Clone, Copy, Debug)]
pub enum CharClass {
    Blank,
    Binary,
    Octal,
    Decimal,
    Hexadecimal,
    Word,
}

/// The predicate one class's run extends over.
pub open spec fn spec_class_fn(class: CharClass) -> spec_fn(char) -> bool {
    match class {
        CharClass::Blank => |c: char| crate::lexer::spec_is_whitespace(c),
        CharClass::Binary => |c: char| crate::lexer::spec_is_binary(c),
        CharClass::Octal => |c: char| crate::lexer::spec_is_octal(c),
        CharClass::Decimal => |c: char| crate::lexer::spec_is_decimal(c),
        CharClass::Hexadecimal => |c: char| crate::lexer::spec_is_hexadecimal(c),
        CharClass::Word => |c: char| spec_is_cash_word(c),
    }
}

/// The token a finished run of one class becomes, at the specification
/// level.
pub open spec fn spec_class_token(class: CharClass, text: Seq<char>) -> TokenView {
    match class {
        CharClass::Blank => TokenView::Whitespace { text },
        CharClass::Binary => TokenView::NumberSegment { text, base: 2 },
        CharClass::Octal => TokenView::NumberSegment { text, base: 8 },
        CharClass::Decimal => TokenView::NumberSegment { text, base: 10 },
        CharClass::Hexadecimal => TokenView::NumberSegment { text, base: 16 },
        CharClass::Word => TokenView::Text { text },
    }
}

fn class_holds(class: CharClass, symbol: char) -> (r: bool)
    ensures
        r == spec_class_fn(class)(symbol),
{
    match class {
        CharClass::Blank => is_cash_whitespace(symbol),
        CharClass::Binary => is_cash_binary(symbol),
        CharClass::Octal => is_cash_octal(symbol),
        CharClass::Decimal => is_cash_decimal(symbol),
        CharClass::Hexadecimal => is_cash_hexadecimal(symbol),
        CharClass::Word => is_cash_word(symbol),
    }
}

/// Extends the run whose first character the caller already stepped over,
/// and pushes the finished token: the accumulated text so far followed by
/// the rest of the class's leading run. `line` and `eaten` carry the
/// caller's view of the line and of how much of it was consumed before
/// this run began.
fn read_cash_run(
    stream: &mut SimpleAnalyzableStream,
    class: CharClass,
    tokens: &mut Vec<Token>,
    Ghost(line): Ghost<Seq<char>>,
    Ghost(eaten): Ghost<int>,
)
    requires
        old(stream).wf(),
        line.len() > 0,
        spec_class_fn(class)(line[0]),
        old(stream).remaining() == line.skip(1),
        old(stream).acc() == seq![line[0]],
    ensures
        final(stream).wf(),
        ({
            let run = spec_leading(line, spec_class_fn(class));
            &&& final(stream).remaining() == line.skip(run)
            &&& final(tokens)@.len() == old(tokens)@.len() + 1
            &&& (forall|i: int|
                0 <= i < old(tokens)@.len() ==> final(tokens)@[i] == old(tokens)@[i])
            &&& final(tokens)@.last()@ == spec_class_token(class, line.take(run))
        }),
{
    let ghost f = spec_class_fn(class);
    proof {
        crate::lexer::lemma_first_sticks(line, f);
    }
    let ghost rest = line.skip(1);
    let ghost mut steps: int = 0;
    loop
        invariant
            stream.wf(),
            0 <= steps <= rest.len(),
            stream.remaining() == rest.skip(steps),
            stream.acc() == seq![line[0]] + rest.take(steps),
            forall|i: int| 0 <= i < steps ==> f(rest[i]),
            f == spec_class_fn(class),
            rest == line.skip(1),
            line.len() > 0,
            f(line[0]),
        ensures
            stream.wf(),
            stream.remaining() == rest.skip(spec_leading(rest, f)),
            stream.acc() == seq![line[0]] + rest.take(spec_leading(rest, f)),
        decreases rest.len() - steps,
    {
        let next = stream.peek();
        match next {
            Some(symbol) => {
                if class_holds(class, symbol) {
                    stream.step();
                    proof {
                        steps = steps + 1;
                        assert(stream.remaining() =~= rest.skip(steps));
                        assert(stream.acc() =~= seq![line[0]] + rest.take(steps));
                    }
                } else {
                    proof {
                        crate::lexer::lemma_leading_of(rest, f, steps);
                    }
                    break ;
                }
            },
            None => {
                proof {
                    crate::lexer::lemma_leading_of(rest, f, steps);
                }
                break ;
            },
        }
    }
    let value = stream.revise_all();
    let ghost before_push = tokens@;
    let token = match class {
        CharClass::Blank => Token::Whitespace { value },
        CharClass::Binary => Token::NumberSegment { value, base: 2 },
        CharClass::Octal => Token::NumberSegment { value, base: 8 },
        CharClass::Decimal => Token::NumberSegment { value, base: 10 },
        CharClass::Hexadecimal => Token::NumberSegment { value, base: 16 },
        CharClass::Word => Token::Text { value },
    };
    tokens.push(token);
    proof {
        let run = spec_leading(line, f);
        assert(seq![line[0]] + rest.take(spec_leading(rest, f)) =~= line.take(run));
        assert(rest.skip(spec_leading(rest, f)) =~= line.skip(run));
    }
}

fn is_cash_whitespace(symbol: char) -> (r: bool)
    ensures
        r == crate::lexer::spec_is_whitespace(symbol),
{
    symbol == ' ' || symbol == '\t'
}

fn is_cash_operator(symbol: char) -> (r: bool)
    ensures
        r == spec_is_cash_operator(symbol),
{
    symbol == ':' || symbol == '=' || symbol == '+' || symbol == '-' || symbol == '*'
        || symbol == '%' || symbol == '$' || symbol == '#' || symbol == '@' || symbol == '!'
        || symbol == '&' || symbol == '^' || symbol == '|' || symbol == '/' || symbol == '.'
        || symbol == '~' || symbol == '(' || symbol == ')' || symbol == '[' || symbol == ']'
        || symbol == '{' || symbol == '}' || symbol == '<' || symbol == '>' || symbol == ';'
        || symbol == ','
}

fn is_cash_binary(symbol: char) -> (r: bool)
    ensures
        r == crate::lexer::spec_is_binary(symbol),
{
    symbol == '0' || symbol == '1'
}

fn is_cash_octal(symbol: char) -> (r: bool)
    ensures
        r == crate::lexer::spec_is_octal(symbol),
{
    '0' <= symbol && symbol <= '7'
}

fn is_cash_decimal(symbol: char) -> (r: bool)
    ensures
        r == crate::lexer::spec_is_decimal(symbol),
{
    '0' <= symbol && symbol <= '9'
}

fn is_cash_hexadecimal(symbol: char) -> (r: bool)
    ensures
        r == crate::lexer::spec_is_hexadecimal(symbol),
{
    ('0' <= symbol && symbol <= '9') || ('a' <= symbol && symbol <= 'f') || ('A' <= symbol
        && symbol <= 'F')
}

fn is_cash_word(symbol: char) -> (r: bool)
    ensures
        r == spec_is_cash_word(symbol),
{
    !is_cash_operator(symbol) && !is_cash_whitespace(symbol) && symbol != '\n'
}

/// Strips the whitespace tokens out of a rewritten line.
fn drop_whitespace(tokens: Vec<Token>) -> (r: Vec<Token>)
    ensures
        spec_token_views(r@) == spec_drop_whitespace(spec_token_views(tokens@)),
{
    let mut kept: Vec<Token> = Vec::new();
    let mut index = tokens.len();
    proof {
        assert(spec_token_views(kept@) =~= Seq::<TokenView>::empty());
        assert(spec_token_views(tokens@).skip(tokens@.len() as int) =~= Seq::<
            TokenView,
        >::empty());
    }
    while index > 0
        invariant
            index <= tokens@.len(),
            spec_token_views(kept@) == spec_drop_whitespace(
                spec_token_views(tokens@).skip(index as int),
            ),
        decreases index,
    {
        index = index - 1;
        let keep = !matches!(tokens[index], Token::Whitespace { .. });
        if keep {
            kept.insert(0, tokens[index].duplicate());
        }
        proof {
            let rest = spec_token_views(tokens@).skip(index as int);
            assert(rest[0] == tokens@[index as int]@);
            assert(rest.skip(1) =~= spec_token_views(tokens@).skip(index as int + 1));
            if keep {
                assert(spec_token_views(kept@) =~= seq![rest[0]] + spec_drop_whitespace(
                    rest.skip(1),
                ));
            }
        }
    }
    proof {
        assert(spec_token_views(tokens@).skip(0) =~= spec_token_views(tokens@));
    }
    kept
}

/// Reads one logical line and rewrites it into plain tokens: duplicate
/// whitespace folded, numeric runs disambiguated, tight tokens fused, and
/// whitespace stripped, in that order.
pub fn process_input(stream: &mut SimpleAnalyzableStream) -> (r: Vec<Token>)
    requires
        old(stream).wf(),
    ensures
        final(stream).wf(),
        spec_token_views(r@) == spec_drop_whitespace(
            spec_cash_pass(
                TokenPass::TightStrings,
                spec_cash_pass(
                    TokenPass::Numbers,
                    spec_cash_pass(
                        TokenPass::DuplicateWhitespaces,
                        spec_cash_lex(old(stream).remaining()).0,
                    ),
                ),
            ),
        ),
        final(stream).remaining() == old(stream).remaining().skip(
            spec_cash_lex(old(stream).remaining()).1,
        ),
{
    let tokens = tokenize(stream);
    let ghost raw = spec_token_views(tokens@);
    let tokens = transform(&tokens, TokenPass::DuplicateWhitespaces);
    let tokens = transform(&tokens, TokenPass::Numbers);
    let tokens = transform(&tokens, TokenPass::TightStrings);
    let kept = drop_whitespace(tokens);
    kept
}

} // verus!
