//! The liner: reads lexer tokens up to the end of a logical line, then
//! rewrites the line in two linear passes. The first disambiguates numeric
//! runs (suffix promotion, base-10 finalization, demotion to text); the
//! second fuses tightly adjacent tokens into single words.

use vstd::prelude::*;

use crate::lexer::Lexer;
use crate::lexer::Token;
use crate::lexer::TokenView;
use crate::stream::Stream;
use crate::text::concat_strings;
use crate::text::str_eq;

verus! {

/// Which of the liner's two rewrite passes to run.
#[derive(Clone, Copy, Debug)]
pub enum LinerPass {
    Numbers,
    TightTokens,
}

/// The views of a run of tokens.
pub open spec fn spec_views(tokens: Seq<Token>) -> Seq<TokenView> {
    tokens.map_values(|t: Token| t@)
}

/// The base a numeric suffix letter promotes to.
pub open spec fn spec_suffix_to_base(s: Seq<char>) -> Option<u8> {
    if s == "b"@ {
        Some(2u8)
    } else if s == "o"@ {
        Some(8u8)
    } else if s == "h"@ {
        Some(16u8)
    } else {
        None
    }
}

/// The base a numeric suffix letter promotes to: `b`, `o` and `h` name
/// bases 2, 8 and 16.
pub fn suffix_to_base(suffix: &str) -> (r: Option<u8>)
    ensures
        r == spec_suffix_to_base(suffix@),
{
    let owned: String = suffix.to_owned();
    if str_eq(&owned, "b") {
        Some(2)
    } else if str_eq(&owned, "o") {
        Some(8)
    } else if str_eq(&owned, "h") {
        Some(16)
    } else {
        None
    }
}

/// One step of the number-disambiguation pass, processed right to left:
/// `done` is the already rewritten tail of the line and `lefter` the token
/// just to its left. An undecided numeric segment is promoted by a suffix
/// whose base can hold it, fused into text when it cannot, and a trailing
/// segment finalizes to base 10 or demotes to text by its inferred base.
pub open spec fn spec_numbers_step(lefter: TokenView, done: Seq<TokenView>) -> Seq<TokenView> {
    if done.len() == 0 {
        seq![lefter]
    } else {
        match (lefter, done[0]) {
            (
                TokenView::NumberSegment { text: lv, base: lb },
                TokenView::Number { text: rv, base: rb },
            ) => {
                if rv == "b"@ && lb == 2 {
                    seq![lefter] + done.skip(1)
                } else if lb > rb {
                    seq![TokenView::Text { text: lv + rv }] + done.skip(1)
                } else {
                    seq![TokenView::Number { text: lv + rv, base: rb }] + done.skip(1)
                }
            },
            (
                TokenView::NumberSegment { text: lv, base: lb },
                TokenView::Text { text: rv },
            ) => {
                match spec_suffix_to_base(rv) {
                    Some(desired) => if lb <= desired {
                        seq![TokenView::Number { text: lv, base: desired }] + done.skip(1)
                    } else {
                        seq![TokenView::Text { text: lv + rv }] + done.skip(1)
                    },
                    None => seq![TokenView::Text { text: lv + rv }] + done.skip(1),
                }
            },
            (
                TokenView::Text { text: lv },
                TokenView::NumberSegment { text: rv, .. },
            ) => seq![TokenView::Text { text: lv + rv }] + done.skip(1),
            (TokenView::NumberSegment { text: lv, base: lb }, _) => {
                if lb <= 10 {
                    seq![TokenView::Number { text: lv, base: 10 }] + done
                } else {
                    seq![TokenView::Text { text: lv }] + done
                }
            },
            _ => seq![lefter] + done,
        }
    }
}

/// One step of the tight-token fusion pass, processed right to left: a
/// Text/Number/Operator token standing immediately against a Text or
/// Number token fuses with it into one word, and adjacent whitespace runs
/// fuse into one.
pub open spec fn spec_tight_step(lefter: TokenView, done: Seq<TokenView>) -> Seq<TokenView> {
    if done.len() == 0 {
        seq![lefter]
    } else {
        match (lefter, done[0]) {
            (TokenView::Text { text: lv }, TokenView::Text { text: rv }) => seq![
                TokenView::Text { text: lv + rv },
            ] + done.skip(1),
            (
                TokenView::Whitespace { text: lv },
                TokenView::Whitespace { text: rv },
            ) => seq![TokenView::Whitespace { text: lv + rv }] + done.skip(1),
            (TokenView::Operator { text: lv }, TokenView::Text { text: rv }) => seq![
                TokenView::Text { text: lv + rv },
            ] + done.skip(1),
            (TokenView::Number { text: lv, .. }, TokenView::Text { text: rv }) => seq![
                TokenView::Text { text: lv + rv },
            ] + done.skip(1),
            (TokenView::Text { text: lv }, TokenView::Number { text: rv, .. }) => seq![
                TokenView::Text { text: lv + rv },
            ] + done.skip(1),
            _ => seq![lefter] + done,
        }
    }
}

/// The whole number pass: the line folded from its right end, one
/// `spec_numbers_step` at a time.
pub open spec fn spec_numbers_pass(tokens: Seq<TokenView>) -> Seq<TokenView>
    decreases tokens.len(),
{
    if tokens.len() == 0 {
        Seq::empty()
    } else {
        spec_numbers_step(tokens[0], spec_numbers_pass(tokens.skip(1)))
    }
}

/// The whole fusion pass, folded the same way.
pub open spec fn spec_tight_pass(tokens: Seq<TokenView>) -> Seq<TokenView>
    decreases tokens.len(),
{
    if tokens.len() == 0 {
        Seq::empty()
    } else {
        spec_tight_step(tokens[0], spec_tight_pass(tokens.skip(1)))
    }
}

fn transform_numbers(lefter: Token, target: &mut Vec<Token>)
    ensures
        spec_views(final(target)@) == spec_numbers_step(lefter@, spec_views(old(target)@)),
{
    let ghost done = spec_views(old(target)@);
    if target.len() == 0 {
        target.insert(0, lefter);
        proof {
            assert(spec_views(target@) =~= seq![lefter@]);
        }
        return ;
    }
    let righter = target[0].duplicate();
    match (&lefter, &righter) {
        (
            Token::NumberSegment { value: lefter_value, base: lefter_base },
            Token::Number { value: righter_value, base: righter_base },
        ) => {
            if str_eq(righter_value, "b") && *lefter_base == 2 {
                let removed = target.remove(0);
                target.insert(0, lefter.duplicate());
                proof {
                    assert(spec_views(target@) =~= seq![lefter@] + done.skip(1));
                }
            } else if *lefter_base > *righter_base {
                let fused = concat_strings(lefter_value, righter_value);
                let removed = target.remove(0);
                target.insert(0, Token::Text { value: fused });
                proof {
                    assert(spec_views(target@) =~= spec_numbers_step(lefter@, done));
                }
            } else {
                let fused = concat_strings(lefter_value, righter_value);
                let removed = target.remove(0);
                target.insert(0, Token::Number { value: fused, base: *righter_base });
                proof {
                    assert(spec_views(target@) =~= spec_numbers_step(lefter@, done));
                }
            }
        },
        (
            Token::NumberSegment { value: lefter_value, base },
            Token::Text { value: righter_value },
        ) => {
            let desired = suffix_to_base(righter_value.as_str());
            match desired {
                Some(desired_base) => {
                    if *base <= desired_base {
                        let removed = target.remove(0);
                        target.insert(
                            0,
                            Token::Number { value: lefter_value.clone(), base: desired_base },
                        );
                        proof {
                            assert(spec_views(target@) =~= spec_numbers_step(lefter@, done));
                        }
                    } else {
                        let fused = concat_strings(lefter_value, righter_value);
                        let removed = target.remove(0);
                        target.insert(0, Token::Text { value: fused });
                        proof {
                            assert(spec_views(target@) =~= spec_numbers_step(lefter@, done));
                        }
                    }
                },
                None => {
                    let fused = concat_strings(lefter_value, righter_value);
                    let removed = target.remove(0);
                    target.insert(0, Token::Text { value: fused });
                    proof {
                        assert(spec_views(target@) =~= spec_numbers_step(lefter@, done));
                    }
                },
            }
        },
        (
            Token::Text { value: lefter_value },
            Token::NumberSegment { value: righter_value, base: _ },
        ) => {
            let fused = concat_strings(lefter_value, righter_value);
            let removed = target.remove(0);
            target.insert(0, Token::Text { value: fused });
            proof {
                assert(spec_views(target@) =~= spec_numbers_step(lefter@, done));
            }
        },
        (Token::NumberSegment { value: lefter_value, base }, _) => {
            if *base <= 10 {
                target.insert(0, Token::Number { value: lefter_value.clone(), base: 10 });
            } else {
                target.insert(0, Token::Text { value: lefter_value.clone() });
            }
            proof {
                assert(spec_views(target@) =~= spec_numbers_step(lefter@, done));
            }
        },
        _ => {
            target.insert(0, lefter.duplicate());
            proof {
                assert(spec_views(target@) =~= seq![lefter@] + done);
            }
        },
    }
}

fn transform_tight_tokens(lefter: Token, target: &mut Vec<Token>)
    ensures
        spec_views(final(target)@) == spec_tight_step(lefter@, spec_views(old(target)@)),
{
    let ghost done = spec_views(old(target)@);
    if target.len() == 0 {
        target.insert(0, lefter);
        proof {
            assert(spec_views(target@) =~= seq![lefter@]);
        }
        return ;
    }
    let righter = target[0].duplicate();
    match (&lefter, &righter) {
        (Token::Text { value: lefter_value }, Token::Text { value: righter_value }) => {
            let fused = concat_strings(lefter_value, righter_value);
            let removed = target.remove(0);
            target.insert(0, Token::Text { value: fused });
            proof {
                assert(spec_views(target@) =~= spec_tight_step(lefter@, done));
            }
        },
        (
            Token::Whitespace { value: lefter_value },
            Token::Whitespace { value: righter_value },
        ) => {
            let fused = concat_strings(lefter_value, righter_value);
            let removed = target.remove(0);
            target.insert(0, Token::Whitespace { value: fused });
            proof {
                assert(spec_views(target@) =~= spec_tight_step(lefter@, done));
            }
        },
        (Token::Operator { value: lefter_value }, Token::Text { value: righter_value }) => {
            let fused = concat_strings(lefter_value, righter_value);
            let removed = target.remove(0);
            target.insert(0, Token::Text { value: fused });
            proof {
                assert(spec_views(target@) =~= spec_tight_step(lefter@, done));
            }
        },
        (
            Token::Number { value: lefter_value, base: _ },
            Token::Text { value: righter_value },
        ) => {
            let fused = concat_strings(lefter_value, righter_value);
            let removed = target.remove(0);
            target.insert(0, Token::Text { value: fused });
            proof {
                assert(spec_views(target@) =~= spec_tight_step(lefter@, done));
            }
        },
        (
            Token::Text { value: lefter_value },
            Token::Number { value: righter_value, base: _ },
        ) => {
            let fused = concat_strings(lefter_value, righter_value);
            let removed = target.remove(0);
            target.insert(0, Token::Text { value: fused });
            proof {
                assert(spec_views(target@) =~= spec_tight_step(lefter@, done));
            }
        },
        _ => {
            target.insert(0, lefter.duplicate());
            proof {
                assert(spec_views(target@) =~= seq![lefter@] + done);
            }
        },
    }
}

/// Runs one rewrite pass over a whole line, right to left, as the pass
/// functions describe.
pub fn transform(tokens: &Vec<Token>, apply: LinerPass) -> (r: Vec<Token>)
    ensures
        match apply {
            LinerPass::Numbers => spec_views(r@) == spec_numbers_pass(spec_views(tokens@)),
            LinerPass::TightTokens => spec_views(r@) == spec_tight_pass(spec_views(tokens@)),
        },
{
    let mut done: Vec<Token> = Vec::new();
    let mut index = tokens.len();
    proof {
        assert(spec_views(tokens@).skip(tokens@.len() as int) =~= Seq::<TokenView>::empty());
        assert(spec_views(done@) =~= Seq::<TokenView>::empty());
    }
    while index > 0
        invariant
            index <= tokens@.len(),
            match apply {
                LinerPass::Numbers => spec_views(done@) == spec_numbers_pass(
                    spec_views(tokens@).skip(index as int),
                ),
                LinerPass::TightTokens => spec_views(done@) == spec_tight_pass(
                    spec_views(tokens@).skip(index as int),
                ),
            },
        decreases index,
    {
        index = index - 1;
        let ghost before = spec_views(done@);
        match apply {
            LinerPass::Numbers => {
                transform_numbers(tokens[index].duplicate(), &mut done);
                proof {
                    assert(spec_views(tokens@).skip(index as int).skip(1) =~= spec_views(
                        tokens@,
                    ).skip(index as int + 1));
                    assert(spec_views(tokens@).skip(index as int)[0] == tokens@[index as int]@);
                }
            },
            LinerPass::TightTokens => {
                transform_tight_tokens(tokens[index].duplicate(), &mut done);
                proof {
                    assert(spec_views(tokens@).skip(index as int).skip(1) =~= spec_views(
                        tokens@,
                    ).skip(index as int + 1));
                    assert(spec_views(tokens@).skip(index as int)[0] == tokens@[index as int]@);
                }
            },
        }
    }
    proof {
        assert(spec_views(tokens@).skip(0) =~= spec_views(tokens@));
    }
    done
}

/// Reads logical lines from the lexer and hands each back in canonical
/// form: numbers disambiguated, tight tokens fused.
#[derive(Debug)]
pub struct Liner {
    /// The token source.
    pub backend: Lexer,
    /// True once the lexer's end token has been taken into a line.
    pub end_token_met: bool,
    /// The number of lines read so far.
    pub line_number: usize,
}

impl Liner {
    /// True while the inner read position is in range.
    pub open spec fn wf(self) -> bool {
        self.backend.wf()
    }

    /// A fresh liner over a lexer.
    pub fn new(backend: Lexer) -> (r: Liner)
        ensures
            r.backend == backend,
            r.end_token_met == false,
            r.line_number == 0,
    {
        Liner { backend, end_token_met: false, line_number: 0 }
    }

    fn read_line(&mut self) -> (r: Vec<Token>)
        requires
            old(self).wf(),
        ensures
            final(self).wf(),
            final(self).line_number == old(self).line_number,
            ({
                let lexed = crate::lexer::spec_lex_line(
                    old(self).backend.remaining(),
                    old(self).backend.nesting_stack@,
                );
                &&& spec_views(r@) == spec_tight_pass(spec_numbers_pass(lexed.0))
                &&& final(self).backend.remaining() == lexed.1
                &&& final(self).backend.nesting_stack@ == lexed.2
                &&& lexed.0.len() >= 1
                &&& (lexed.0.last() is Newline || lexed.0.last() is End)
                &&& final(self).end_token_met == (old(self).end_token_met || lexed.0.last()
                    is End)
            }),
    {
        let ghost full = crate::lexer::spec_lex_line(
            old(self).backend.remaining(),
            old(self).backend.nesting_stack@,
        );
        let mut line: Vec<Token> = Vec::new();
        proof {
            assert(spec_views(line@) =~= Seq::<TokenView>::empty());
            assert(spec_views(line@) + full.0 =~= full.0);
        }
        loop
            invariant_except_break
                self.end_token_met == old(self).end_token_met,
                full.0 == spec_views(line@) + crate::lexer::spec_lex_line(
                    self.backend.remaining(),
                    self.backend.nesting_stack@,
                ).0,
                full.1 == crate::lexer::spec_lex_line(
                    self.backend.remaining(),
                    self.backend.nesting_stack@,
                ).1,
                full.2 == crate::lexer::spec_lex_line(
                    self.backend.remaining(),
                    self.backend.nesting_stack@,
                ).2,
            invariant
                self.wf(),
                self.line_number == old(self).line_number,
            ensures
                self.wf(),
                self.line_number == old(self).line_number,
                line@.len() >= 1,
                line@.last()@ is Newline || line@.last()@ is End,
                self.end_token_met == (old(self).end_token_met || line@.last()@ is End),
                spec_views(line@) == full.0,
                self.backend.remaining() == full.1,
                self.backend.nesting_stack@ == full.2,
            decreases self.backend.remaining().len() + 1,
        {
            let ghost pre_rem = self.backend.remaining();
            let ghost pre_stack = self.backend.nesting_stack@;
            let ghost pre_line = line@;
            let next = self.backend.grab();
            let is_end = matches!(next, Token::End);
            let is_newline = matches!(next, Token::Newline);
            proof {
                crate::lexer::lemma_token_step_scan(
                    pre_rem,
                    pre_stack,
                    next,
                    self.backend.remaining(),
                    self.backend.nesting_stack@,
                );
                crate::lexer::lemma_scan_bounds(pre_rem, pre_stack);
            }
            line.push(next);
            proof {
                assert(spec_views(line@) =~= spec_views(pre_line).push(next@));
                let lexed_pre = crate::lexer::spec_lex_line(pre_rem, pre_stack);
                if pre_rem.len() == 0 {
                    assert(lexed_pre.0 =~= seq![TokenView::End]);
                    assert(next@ is End);
                    assert(spec_views(line@) =~= spec_views(pre_line) + lexed_pre.0);
                } else {
                    let scanned = crate::lexer::spec_scan_token(pre_rem, pre_stack);
                    assert(next@ == scanned.0);
                    if next@ is Newline {
                        assert(lexed_pre.0 =~= seq![scanned.0]);
                        assert(spec_views(line@) =~= spec_views(pre_line) + lexed_pre.0);
                    } else {
                        let rest = crate::lexer::spec_lex_line(
                            self.backend.remaining(),
                            self.backend.nesting_stack@,
                        );
                        assert(lexed_pre.0 =~= seq![scanned.0] + rest.0);
                        assert(spec_views(pre_line) + lexed_pre.0 =~= spec_views(line@)
                            + rest.0);
                    }
                }
            }
            if is_end {
                self.end_token_met = true;
                break ;
            }
            if is_newline {
                break ;
            }
        }
        proof {
            assert(full.0.last() == line@.last()@);
        }
        let ghost raw = spec_views(line@);
        let middle = transform(&line, LinerPass::Numbers);
        let finished = transform(&middle, LinerPass::TightTokens);
        proof {
            assert(spec_views(finished@) == spec_tight_pass(spec_numbers_pass(raw)));
        }
        finished
    }
}

impl Stream<Vec<Token>> for Liner {
    /// True until the line holding the end token has been handed out.
    fn has_next(&self) -> (r: bool)
        ensures
            r == !self.end_token_met,
    {
        !self.end_token_met
    }

    /// The next logical line, rewritten by the two passes: the token run
    /// the lexer yields on the remaining characters, up to and including
    /// the first newline outside every quoting context (or the end token),
    /// its numbers disambiguated and its tight tokens fused.
    fn grab(&mut self) -> (r: Vec<Token>)
        ensures
            old(self).wf() ==> ({
                let lexed = crate::lexer::spec_lex_line(
                    old(self).backend.remaining(),
                    old(self).backend.nesting_stack@,
                );
                &&& final(self).wf()
                &&& spec_views(r@) == spec_tight_pass(spec_numbers_pass(lexed.0))
                &&& final(self).backend.remaining() == lexed.1
                &&& final(self).backend.nesting_stack@ == lexed.2
                &&& (lexed.0.last() is Newline || lexed.0.last() is End)
                &&& final(self).end_token_met == (old(self).end_token_met || lexed.0.last()
                    is End)
            }),
    {
        if self.line_number < usize::MAX {
            self.line_number = self.line_number + 1;
        }
        if self.backend.backend.delegate.next <= self.backend.backend.delegate.buffer.len() {
            self.read_line()
        } else {
            let mut line: Vec<Token> = Vec::new();
            line.push(Token::End);
            self.end_token_met = true;
            proof {
                let raw = seq![TokenView::End];
                assert(raw.skip(1) =~= Seq::<TokenView>::empty());
                assert(spec_numbers_pass(raw.skip(1)) =~= Seq::<TokenView>::empty());
                assert(spec_tight_pass(raw.skip(1)) =~= Seq::<TokenView>::empty());
                assert(spec_numbers_pass(raw) =~= raw);
                assert(spec_tight_pass(raw) =~= raw);
                assert(spec_views(line@) =~= raw);
            }
            line
        }
    }

    /// The number of lines read so far.
    fn get_offset(&self) -> (r: usize)
        ensures
            r == self.line_number,
    {
        self.line_number
    }
}


/// The text a token view carries; empty for the structural tokens.
pub open spec fn spec_view_text(v: TokenView) -> Seq<char> {
    match v {
        TokenView::Operator { text } => text,
        TokenView::Delimiter { text } => text,
        TokenView::NumberSegment { text, .. } => text,
        TokenView::Number { text, .. } => text,
        TokenView::Text { text } => text,
        TokenView::Whitespace { text } => text,
        TokenView::Newline => Seq::empty(),
        TokenView::End => Seq::empty(),
    }
}

/// Number promotion, suffix as a word: a digit run of inferred base `base`
/// followed immediately by a suffix word naming a base at least as wide is
/// promoted to one finished number of the suffix base; a narrower suffix
/// fuses the pair into plain text.
pub proof fn lemma_number_promotion(
    digits: Seq<char>,
    base: u8,
    suffix: Seq<char>,
    promoted: u8,
    terminator: TokenView,
)
    requires
        spec_suffix_to_base(suffix) == Some(promoted),
        (terminator is Newline || terminator is End),
    ensures
        spec_numbers_pass(
            seq![
                TokenView::NumberSegment { text: digits, base },
                TokenView::Text { text: suffix },
                terminator,
            ],
        ) == if base <= promoted {
            seq![TokenView::Number { text: digits, base: promoted }, terminator]
        } else {
            seq![TokenView::Text { text: digits + suffix }, terminator]
        },
{
    let line = seq![
        TokenView::NumberSegment { text: digits, base },
        TokenView::Text { text: suffix },
        terminator,
    ];
    assert(line.skip(1) =~= seq![TokenView::Text { text: suffix }, terminator]);
    assert(line.skip(1).skip(1) =~= seq![terminator]);
    assert(line.skip(1).skip(1).skip(1) =~= Seq::<TokenView>::empty());
    assert(spec_numbers_pass(line.skip(1).skip(1).skip(1)) =~= Seq::<TokenView>::empty());
    assert(spec_numbers_pass(line.skip(1).skip(1)) =~= seq![terminator]);
    assert(spec_numbers_pass(line.skip(1)) =~= seq![
        TokenView::Text { text: suffix },
        terminator,
    ]);
    if base <= promoted {
        assert(spec_numbers_pass(line) =~= seq![
            TokenView::Number { text: digits, base: promoted },
            terminator,
        ]);
    } else {
        assert(spec_numbers_pass(line) =~= seq![
            TokenView::Text { text: digits + suffix },
            terminator,
        ]);
    }
}

/// Number promotion, suffix as a hexadecimal letter: the letter first
/// demotes to text (base 16 exceeds 10), then promotes or fuses the digit
/// run to its left exactly as the word form does. This is how `10b` becomes
/// a binary number while `9b`, whose run is already committed to base 10,
/// stays text.
pub proof fn lemma_letter_suffix_promotion(
    digits: Seq<char>,
    base: u8,
    letter: Seq<char>,
    promoted: u8,
    terminator: TokenView,
)
    requires
        spec_suffix_to_base(letter) == Some(promoted),
        (terminator is Newline || terminator is End),
    ensures
        spec_numbers_pass(
            seq![
                TokenView::NumberSegment { text: digits, base },
                TokenView::NumberSegment { text: letter, base: 16 },
                terminator,
            ],
        ) == if base <= promoted {
            seq![TokenView::Number { text: digits, base: promoted }, terminator]
        } else {
            seq![TokenView::Text { text: digits + letter }, terminator]
        },
{
    let line = seq![
        TokenView::NumberSegment { text: digits, base },
        TokenView::NumberSegment { text: letter, base: 16 },
        terminator,
    ];
    assert(line.skip(1) =~= seq![
        TokenView::NumberSegment { text: letter, base: 16 },
        terminator,
    ]);
    assert(line.skip(1).skip(1) =~= seq![terminator]);
    assert(line.skip(1).skip(1).skip(1) =~= Seq::<TokenView>::empty());
    assert(spec_numbers_pass(line.skip(1).skip(1).skip(1)) =~= Seq::<TokenView>::empty());
    assert(spec_numbers_pass(line.skip(1).skip(1)) =~= seq![terminator]);
    assert(spec_numbers_pass(line.skip(1)) =~= seq![
        TokenView::Text { text: letter },
        terminator,
    ]);
    if base <= promoted {
        assert(spec_numbers_pass(line) =~= seq![
            TokenView::Number { text: digits, base: promoted },
            terminator,
        ]);
    } else {
        assert(spec_numbers_pass(line) =~= seq![
            TokenView::Text { text: digits + letter },
            terminator,
        ]);
    }
}

/// A finished number standing before the line's terminator passes the
/// fusion pass untouched, so a promotion the number pass made is what the
/// liner hands out.
pub proof fn lemma_promotion_survives_fusion(digits: Seq<char>, base: u8, terminator: TokenView)
    requires
        (terminator is Newline || terminator is End),
    ensures
        spec_tight_pass(seq![TokenView::Number { text: digits, base }, terminator]) == seq![
            TokenView::Number { text: digits, base },
            terminator,
        ],
{
    let line = seq![TokenView::Number { text: digits, base }, terminator];
    assert(line.skip(1) =~= seq![terminator]);
    assert(line.skip(1).skip(1) =~= Seq::<TokenView>::empty());
    assert(spec_tight_pass(line.skip(1).skip(1)) =~= Seq::<TokenView>::empty());
    assert(spec_tight_pass(line.skip(1)) =~= seq![terminator]);
    assert(spec_tight_pass(line) =~= line);
}

/// Tight fusion: a Text or Number token standing immediately after a Text
/// token, a Text token immediately after an Operator or Number token, with
/// no whitespace between, fuses into one Text word whose spelling is the
/// two spellings joined. (An operator directly before a number does not
/// fuse: `+1` stays an operator and a number.)
pub proof fn lemma_tight_fusion(lefter: TokenView, righter: TokenView, terminator: TokenView)
    requires
        (terminator is Newline || terminator is End),
        ((lefter is Text && righter is Text) || (lefter is Operator && righter is Text) || (
        lefter is Number && righter is Text) || (lefter is Text && righter is Number)),
    ensures
        spec_tight_pass(seq![lefter, righter, terminator]) == seq![
            TokenView::Text { text: spec_view_text(lefter) + spec_view_text(righter) },
            terminator,
        ],
{
    let line = seq![lefter, righter, terminator];
    assert(line.skip(1) =~= seq![righter, terminator]);
    assert(line.skip(1).skip(1) =~= seq![terminator]);
    assert(line.skip(1).skip(1).skip(1) =~= Seq::<TokenView>::empty());
    assert(spec_tight_pass(line.skip(1).skip(1).skip(1)) =~= Seq::<TokenView>::empty());
    assert(spec_tight_pass(line.skip(1).skip(1)) =~= seq![terminator]);
    assert(spec_tight_pass(line.skip(1)) =~= seq![righter, terminator]);
    assert(spec_tight_pass(line) =~= seq![
        TokenView::Text { text: spec_view_text(lefter) + spec_view_text(righter) },
        terminator,
    ]);
}

} // verus!
