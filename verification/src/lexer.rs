//! The token model and the lexer: a character stream is split into tokens,
//! classified by the first character and the local quoting/grouping context.

use vstd::prelude::*;

use crate::stream::Stream;
use crate::stream::accumulator_stream::AccumulatorStream;
use crate::stream::accumulator_stream::SimpleAccumulatorStream;
use crate::text::char_string;

verus! {

/// One lexical unit. `base` of a numeric token is 2, 8, 10 or 16, inferred
/// optimistically: binary digits classify first, widening as later digits
/// force it. A `NumberSegment` is an undecided numeric run that the liner
/// still has to promote to a `Number` or demote to `Text`.
#[derive(Clone, PartialEq, Eq, Debug)]
pub enum Token {
    Operator { value: String },
    Delimiter { value: String },
    NumberSegment { value: String, base: u8 },
    Number { value: String, base: u8 },
    Text { value: String },
    Whitespace { value: String },
    Newline,
    End,
}


/// The shape of a token at the specification level: the same variants, the
/// carried text as a character sequence.
pub enum TokenView {
    Operator { text: Seq<char> },
    Delimiter { text: Seq<char> },
    NumberSegment { text: Seq<char>, base: u8 },
    Number { text: Seq<char>, base: u8 },
    Text { text: Seq<char> },
    Whitespace { text: Seq<char> },
    Newline,
    End,
}

impl View for Token {
    type V = TokenView;

    open spec fn view(&self) -> TokenView {
        match self {
            Token::Operator { value } => TokenView::Operator { text: value@ },
            Token::Delimiter { value } => TokenView::Delimiter { text: value@ },
            Token::NumberSegment { value, base } => TokenView::NumberSegment {
                text: value@,
                base: *base,
            },
            Token::Number { value, base } => TokenView::Number { text: value@, base: *base },
            Token::Text { value } => TokenView::Text { text: value@ },
            Token::Whitespace { value } => TokenView::Whitespace { text: value@ },
            Token::Newline => TokenView::Newline,
            Token::End => TokenView::End,
        }
    }
}

impl Token {
    /// The token category, named as the grammar's `#type` guards name it.
    pub fn get_type_name(&self) -> (r: &'static str)
        ensures
            r@ == self.spec_type_name(),
    {
        match self {
            Token::Operator { .. } => "operator",
            Token::Delimiter { .. } => "delimiter",
            Token::Number { .. } => "number",
            Token::Text { .. } => "text",
            Token::Whitespace { .. } => "whitespace",
            Token::Newline => "newline",
            Token::End => "end",
            _ => "",
        }
    }

    /// The token category at the specification level.
    pub open spec fn spec_type_name(self) -> Seq<char> {
        match self {
            Token::Operator { .. } => "operator"@,
            Token::Delimiter { .. } => "delimiter"@,
            Token::Number { .. } => "number"@,
            Token::Text { .. } => "text"@,
            Token::Whitespace { .. } => "whitespace"@,
            Token::Newline => "newline"@,
            Token::End => "end"@,
            _ => ""@,
        }
    }

    /// The textual value carried by the token, if it carries one.
    pub fn get_value(&self) -> (r: Option<&String>)
        ensures
            match r {
                Some(s) => self.spec_value() == Some(s@),
                None => self.spec_value() is None,
            },
    {
        match self {
            Token::Operator { value } => Some(value),
            Token::Delimiter { value } => Some(value),
            Token::Number { value, .. } => Some(value),
            Token::Text { value } => Some(value),
            Token::Whitespace { value } => Some(value),
            _ => None,
        }
    }

    /// A structurally equal copy of the token.
    pub fn duplicate(&self) -> (r: Token)
        ensures
            r == *self,
    {
        match self {
            Token::Operator { value } => Token::Operator { value: value.clone() },
            Token::Delimiter { value } => Token::Delimiter { value: value.clone() },
            Token::NumberSegment { value, base } => Token::NumberSegment {
                value: value.clone(),
                base: *base,
            },
            Token::Number { value, base } => Token::Number { value: value.clone(), base: *base },
            Token::Text { value } => Token::Text { value: value.clone() },
            Token::Whitespace { value } => Token::Whitespace { value: value.clone() },
            Token::Newline => Token::Newline,
            Token::End => Token::End,
        }
    }

    /// The carried textual value at the specification level.
    pub open spec fn spec_value(self) -> Option<Seq<char>> {
        match self {
            Token::Operator { value } => Some(value@),
            Token::Delimiter { value } => Some(value@),
            Token::Number { value, .. } => Some(value@),
            Token::Text { value } => Some(value@),
            Token::Whitespace { value } => Some(value@),
            _ => None,
        }
    }
}


/// The token category of a view, named as the grammar's `#type` guards
/// name it.
pub open spec fn spec_view_type_name(t: TokenView) -> Seq<char> {
    match t {
        TokenView::Operator { .. } => "operator"@,
        TokenView::Delimiter { .. } => "delimiter"@,
        TokenView::Number { .. } => "number"@,
        TokenView::Text { .. } => "text"@,
        TokenView::Whitespace { .. } => "whitespace"@,
        TokenView::Newline => "newline"@,
        TokenView::End => "end"@,
        _ => ""@,
    }
}

/// The text a token view carries for literal matching, if any.
pub open spec fn spec_view_value(t: TokenView) -> Option<Seq<char>> {
    match t {
        TokenView::Operator { text } => Some(text),
        TokenView::Delimiter { text } => Some(text),
        TokenView::Number { text, .. } => Some(text),
        TokenView::Text { text } => Some(text),
        TokenView::Whitespace { text } => Some(text),
        _ => None,
    }
}

/// A token and its view agree on category and carried text.
pub proof fn lemma_token_view_naming(t: Token)
    ensures
        t.spec_type_name() == spec_view_type_name(t@),
        t.spec_value() == spec_view_value(t@),
{
}

/// True of the blank characters that separate tokens within a line.
pub open spec fn spec_is_whitespace(c: char) -> bool {
    c == ' ' || c == '\t'
}

/// True of the symbols that glue to adjacent words when no whitespace
/// stands between them.
pub open spec fn spec_is_operator(c: char) -> bool {
    ||| c == ':' ||| c == '=' ||| c == '+' ||| c == '-' ||| c == '*' ||| c == '%'
    ||| c == '#' ||| c == '!' ||| c == '&' ||| c == '^' ||| c == '|' ||| c == '/'
    ||| c == '.' ||| c == '~' ||| c == '[' ||| c == ']' ||| c == '<' ||| c == '>'
    ||| c == ';' ||| c == ','
}

/// True of the symbols that never glue to adjacent words.
pub open spec fn spec_is_delimiter(c: char) -> bool {
    ||| c == '(' ||| c == ')' ||| c == '$' ||| c == '@' ||| c == '"' ||| c == '\''
    ||| c == '{' ||| c == '}'
}

/// True of operators and delimiters alike.
pub open spec fn spec_is_control(c: char) -> bool {
    spec_is_operator(c) || spec_is_delimiter(c)
}

pub open spec fn spec_is_binary(c: char) -> bool {
    c == '0' || c == '1'
}

pub open spec fn spec_is_octal(c: char) -> bool {
    '0' <= c && c <= '7'
}

pub open spec fn spec_is_decimal(c: char) -> bool {
    '0' <= c && c <= '9'
}

pub open spec fn spec_is_hexadecimal(c: char) -> bool {
    ||| ('0' <= c && c <= '9')
    ||| ('a' <= c && c <= 'f')
    ||| ('A' <= c && c <= 'F')
}

/// True of the characters that may stand inside a bare word.
pub open spec fn spec_is_text_content(c: char) -> bool {
    !spec_is_control(c) && !spec_is_whitespace(c) && c != '\n' && c != '\\'
}

fn is_whitespace(symbol: char) -> (r: bool)
    ensures
        r == spec_is_whitespace(symbol),
{
    symbol == ' ' || symbol == '\t'
}

fn is_operator(symbol: char) -> (r: bool)
    ensures
        r == spec_is_operator(symbol),
{
    symbol == ':' || symbol == '=' || symbol == '+' || symbol == '-' || symbol == '*'
        || symbol == '%' || symbol == '#' || symbol == '!' || symbol == '&' || symbol == '^'
        || symbol == '|' || symbol == '/' || symbol == '.' || symbol == '~' || symbol == '['
        || symbol == ']' || symbol == '<' || symbol == '>' || symbol == ';' || symbol == ','
}

fn is_delimiter(symbol: char) -> (r: bool)
    ensures
        r == spec_is_delimiter(symbol),
{
    symbol == '(' || symbol == ')' || symbol == '$' || symbol == '@' || symbol == '"'
        || symbol == '\'' || symbol == '{' || symbol == '}'
}

fn is_control(symbol: char) -> (r: bool)
    ensures
        r == spec_is_control(symbol),
{
    is_operator(symbol) || is_delimiter(symbol)
}

fn is_binary(symbol: char) -> (r: bool)
    ensures
        r == spec_is_binary(symbol),
{
    symbol == '0' || symbol == '1'
}

fn is_octal(symbol: char) -> (r: bool)
    ensures
        r == spec_is_octal(symbol),
{
    '0' <= symbol && symbol <= '7'
}

fn is_decimal(symbol: char) -> (r: bool)
    ensures
        r == spec_is_decimal(symbol),
{
    '0' <= symbol && symbol <= '9'
}

fn is_hexadecimal(symbol: char) -> (r: bool)
    ensures
        r == spec_is_hexadecimal(symbol),
{
    ('0' <= symbol && symbol <= '9') || ('a' <= symbol && symbol <= 'f') || ('A' <= symbol
        && symbol <= 'F')
}

fn is_text_content(symbol: char) -> (r: bool)
    ensures
        r == spec_is_text_content(symbol),
{
    !is_control(symbol) && !is_whitespace(symbol) && symbol != '\n' && symbol != '\\'
}

/// How many characters at the front of `s` satisfy `f`.
pub open spec fn spec_leading(s: Seq<char>, f: spec_fn(char) -> bool) -> int
    decreases s.len(),
{
    if s.len() == 0 || !f(s[0]) {
        0
    } else {
        1 + spec_leading(s.skip(1), f)
    }
}

/// The count of leading characters satisfying `f` is the position of the
/// first character that does not.
pub proof fn lemma_leading_of(s: Seq<char>, f: spec_fn(char) -> bool, j: int)
    requires
        0 <= j <= s.len(),
        forall|i: int| 0 <= i < j ==> f(s[i]),
        j == s.len() || !f(s[j]),
    ensures
        spec_leading(s, f) == j,
    decreases j,
{
    if j == 0 {
    } else {
        assert(f(s[0]));
        lemma_leading_of(s.skip(1), f, j - 1);
    }
}

/// The quoting/grouping context after seeing one structural symbol: quotes
/// swallow everything but their own closer (a double quote also opens
/// parentheses), while parentheses and braces nest freely.
pub open spec fn spec_update_nesting(stack: Seq<char>, symbol: char) -> Seq<char> {
    if stack.len() > 0 && stack.last() == '"' {
        if symbol == '"' {
            stack.drop_last()
        } else if symbol == '(' {
            stack.push('(')
        } else {
            stack
        }
    } else if stack.len() > 0 && stack.last() == '\'' {
        if symbol == '\'' {
            stack.drop_last()
        } else {
            stack
        }
    } else if stack.len() > 0 && stack.last() == '(' {
        if symbol == '"' || symbol == '\'' || symbol == '(' || symbol == '{' {
            stack.push(symbol)
        } else if symbol == ')' {
            stack.drop_last()
        } else {
            stack
        }
    } else if stack.len() > 0 && stack.last() == '{' {
        if symbol == '"' || symbol == '\'' || symbol == '(' || symbol == '{' {
            stack.push(symbol)
        } else if symbol == '}' {
            stack.drop_last()
        } else {
            stack
        }
    } else {
        if symbol == '"' || symbol == '\'' || symbol == '(' || symbol == '{' {
            stack.push(symbol)
        } else {
            stack
        }
    }
}

/// What one lexing step does: reading one token from the characters `rem`
/// under the quoting context `stack` yields `token` and leaves `new_rem`
/// and `new_stack`. Numeric runs classify optimistically by their first
/// digit; a run started by a hexadecimal letter extends over plain decimal
/// digits only.
pub open spec fn spec_token_step(
    rem: Seq<char>,
    stack: Seq<char>,
    token: Token,
    new_rem: Seq<char>,
    new_stack: Seq<char>,
) -> bool {
    if rem.len() == 0 {
        &&& token is End
        &&& new_rem == rem
        &&& new_stack == stack
    } else {
        let c = rem[0];
        if c == '\\' {
            &&& new_stack == stack
            &&& if rem.len() >= 2 {
                &&& new_rem == rem.skip(2)
                &&& if rem[1] == '\n' {
                    token matches Token::Whitespace { value } && value@ == rem.take(2)
                } else {
                    token matches Token::Text { value } && value@ == rem.take(2)
                }
            } else {
                &&& new_rem == rem.skip(1)
                &&& token matches Token::Text { value } && value@ == rem.take(1)
            }
        } else if c == '\n' {
            &&& new_stack == stack
            &&& new_rem == rem.skip(1)
            &&& if stack.len() == 0 {
                token is Newline
            } else {
                token matches Token::Whitespace { value } && value@ == rem.take(1)
            }
        } else if spec_is_whitespace(c) {
            let run = spec_leading(rem, |x: char| spec_is_whitespace(x));
            &&& new_stack == stack
            &&& new_rem == rem.skip(run)
            &&& token matches Token::Whitespace { value } && value@ == rem.take(run)
        } else if spec_is_operator(c) {
            &&& new_stack == spec_update_nesting(stack, c)
            &&& new_rem == rem.skip(1)
            &&& token matches Token::Operator { value } && value@ == seq![c]
        } else if spec_is_delimiter(c) {
            &&& new_stack == spec_update_nesting(stack, c)
            &&& new_rem == rem.skip(1)
            &&& token matches Token::Delimiter { value } && value@ == seq![c]
        } else if spec_is_binary(c) {
            let run = 1 + spec_leading(rem.skip(1), |x: char| spec_is_binary(x));
            &&& new_stack == stack
            &&& new_rem == rem.skip(run)
            &&& token matches Token::NumberSegment { value, base } && value@ == rem.take(run)
                && base == 2
        } else if spec_is_octal(c) {
            let run = 1 + spec_leading(rem.skip(1), |x: char| spec_is_octal(x));
            &&& new_stack == stack
            &&& new_rem == rem.skip(run)
            &&& token matches Token::NumberSegment { value, base } && value@ == rem.take(run)
                && base == 8
        } else if spec_is_decimal(c) {
            let run = 1 + spec_leading(rem.skip(1), |x: char| spec_is_decimal(x));
            &&& new_stack == stack
            &&& new_rem == rem.skip(run)
            &&& token matches Token::NumberSegment { value, base } && value@ == rem.take(run)
                && base == 10
        } else if spec_is_hexadecimal(c) {
            let run = 1 + spec_leading(rem.skip(1), |x: char| spec_is_decimal(x));
            &&& new_stack == stack
            &&& new_rem == rem.skip(run)
            &&& token matches Token::NumberSegment { value, base } && value@ == rem.take(run)
                && base == 16
        } else {
            let run = spec_leading(rem, |x: char| spec_is_text_content(x));
            &&& new_stack == stack
            &&& new_rem == rem.skip(run)
            &&& token matches Token::Text { value } && value@ == rem.take(run)
        }
    }
}

/// Splits the input into tokens.
#[derive(Debug)]
pub struct Lexer {
    /// Delegate for all character operations.
    pub backend: SimpleAccumulatorStream,
    /// Last parsed token.
    pub last_token: Token,
    /// Number of the character the last token starts with.
    pub last_token_offset: usize,
    /// Each value is the character that represents the current level of
    /// quoting/grouping nesting.
    pub nesting_stack: Vec<char>,
}

impl Lexer {
    /// The characters not yet read.
    pub open spec fn remaining(self) -> Seq<char> {
        self.backend.remaining()
    }

    /// True while the inner read position is in range.
    pub open spec fn wf(self) -> bool {
        self.backend.wf()
    }

    /// A fresh lexer over a character source, in an empty quoting context.
    pub fn new(backend: SimpleAccumulatorStream) -> (r: Lexer)
        ensures
            r.backend == backend,
            r.last_token is Newline,
            r.last_token_offset == 0,
            r.nesting_stack@ =~= Seq::<char>::empty(),
    {
        Lexer { backend, last_token: Token::Newline, last_token_offset: 0, nesting_stack: Vec::new() }
    }

    fn read_whitespace(&mut self) -> (r: Token)
        requires
            old(self).wf(),
        ensures
            final(self).wf(),
            final(self).nesting_stack == old(self).nesting_stack,
            final(self).last_token == old(self).last_token,
            final(self).last_token_offset == old(self).last_token_offset,
            ({
                let run = spec_leading(old(self).remaining(), |x: char| spec_is_whitespace(x));
                &&& final(self).remaining() == old(self).remaining().skip(run)
                &&& r matches Token::Whitespace { value } && value@ == old(self).backend.acc()
                    + old(self).remaining().take(run)
            }),
    {
        let ghost orig = self.remaining();
        let ghost orig_acc = self.backend.acc();
        let ghost mut steps: int = 0;
        loop
            invariant
                self.wf(),
                self.nesting_stack == old(self).nesting_stack,
                self.last_token == old(self).last_token,
                self.last_token_offset == old(self).last_token_offset,
                0 <= steps <= orig.len(),
                self.remaining() == orig.skip(steps),
                self.backend.acc() == orig_acc + orig.take(steps),
                forall|i: int| 0 <= i < steps ==> spec_is_whitespace(orig[i]),
            ensures
                self.wf(),
                self.nesting_stack == old(self).nesting_stack,
                self.last_token == old(self).last_token,
                self.last_token_offset == old(self).last_token_offset,
                self.remaining() == orig.skip(spec_leading(orig, |x: char| spec_is_whitespace(x))),
                self.backend.acc() == orig_acc + orig.take(
                    spec_leading(orig, |x: char| spec_is_whitespace(x)),
                ),
            decreases orig.len() - steps,
        {
            let next = self.backend.peek();
            match next {
                Some(symbol) => {
                    if is_whitespace(symbol) {
                        self.backend.step();
                        proof {
                            steps = steps + 1;
                            assert(self.remaining() =~= orig.skip(steps));
                            assert(self.backend.acc() =~= orig_acc + orig.take(steps));
                        }
                    } else {
                        proof {
                            lemma_leading_of(orig, |x: char| spec_is_whitespace(x), steps);
                        }
                        break ;
                    }
                },
                None => {
                    proof {
                        lemma_leading_of(orig, |x: char| spec_is_whitespace(x), steps);
                    }
                    break ;
                },
            }
        }
        Token::Whitespace { value: self.backend.revise_all() }
    }

    fn read_escape(&mut self) -> (r: Token)
        requires
            old(self).wf(),
            old(self).backend.acc().len() == 1,
        ensures
            final(self).wf(),
            final(self).nesting_stack == old(self).nesting_stack,
            final(self).last_token == old(self).last_token,
            final(self).last_token_offset == old(self).last_token_offset,
            old(self).remaining().len() > 0 ==> {
                &&& final(self).remaining() == old(self).remaining().skip(1)
                &&& if old(self).remaining()[0] == '\n' {
                    r matches Token::Whitespace { value } && value@ == old(self).backend.acc()
                        + old(self).remaining().take(1)
                } else {
                    r matches Token::Text { value } && value@ == old(self).backend.acc() + old(
                        self,
                    ).remaining().take(1)
                }
            },
            old(self).remaining().len() == 0 ==> final(self).remaining() == old(self).remaining()
                && (r matches Token::Text { value } && value@ == old(self).backend.acc()),
    {
        let next = self.backend.grab();
        proof {
            if old(self).remaining().len() > 0 {
                assert(old(self).remaining().take(1) =~= seq![old(self).remaining()[0]]);
            }
        }
        match next {
            Some(symbol) => {
                if symbol == '\n' {
                    return Token::Whitespace { value: self.backend.revise_all() };
                }
            },
            None => {},
        }
        Token::Text { value: self.backend.revise_all() }
    }

    fn read_binary(&mut self) -> (r: Token)
        requires
            old(self).wf(),
        ensures
            final(self).wf(),
            final(self).nesting_stack == old(self).nesting_stack,
            final(self).last_token == old(self).last_token,
            final(self).last_token_offset == old(self).last_token_offset,
            ({
                let run = spec_leading(old(self).remaining(), |x: char| spec_is_binary(x));
                &&& final(self).remaining() == old(self).remaining().skip(run)
                &&& r matches Token::NumberSegment { value, base } && value@ == old(
                    self,
                ).backend.acc() + old(self).remaining().take(run) && base == 2
            }),
    {
        let ghost orig = self.remaining();
        let ghost orig_acc = self.backend.acc();
        let ghost mut steps: int = 0;
        loop
            invariant
                self.wf(),
                self.nesting_stack == old(self).nesting_stack,
                self.last_token == old(self).last_token,
                self.last_token_offset == old(self).last_token_offset,
                0 <= steps <= orig.len(),
                self.remaining() == orig.skip(steps),
                self.backend.acc() == orig_acc + orig.take(steps),
                forall|i: int| 0 <= i < steps ==> spec_is_binary(orig[i]),
            ensures
                self.wf(),
                self.nesting_stack == old(self).nesting_stack,
                self.last_token == old(self).last_token,
                self.last_token_offset == old(self).last_token_offset,
                self.remaining() == orig.skip(spec_leading(orig, |x: char| spec_is_binary(x))),
                self.backend.acc() == orig_acc + orig.take(
                    spec_leading(orig, |x: char| spec_is_binary(x)),
                ),
            decreases orig.len() - steps,
        {
            let next = self.backend.peek();
            match next {
                Some(symbol) => {
                    if is_binary(symbol) {
                        self.backend.step();
                        proof {
                            steps = steps + 1;
                            assert(self.remaining() =~= orig.skip(steps));
                            assert(self.backend.acc() =~= orig_acc + orig.take(steps));
                        }
                    } else {
                        proof {
                            lemma_leading_of(orig, |x: char| spec_is_binary(x), steps);
                        }
                        break ;
                    }
                },
                None => {
                    proof {
                        lemma_leading_of(orig, |x: char| spec_is_binary(x), steps);
                    }
                    break ;
                },
            }
        }
        Token::NumberSegment { value: self.backend.revise_all(), base: 2 }
    }

    fn read_octal(&mut self) -> (r: Token)
        requires
            old(self).wf(),
        ensures
            final(self).wf(),
            final(self).nesting_stack == old(self).nesting_stack,
            final(self).last_token == old(self).last_token,
            final(self).last_token_offset == old(self).last_token_offset,
            ({
                let run = spec_leading(old(self).remaining(), |x: char| spec_is_octal(x));
                &&& final(self).remaining() == old(self).remaining().skip(run)
                &&& r matches Token::NumberSegment { value, base } && value@ == old(
                    self,
                ).backend.acc() + old(self).remaining().take(run) && base == 8
            }),
    {
        let ghost orig = self.remaining();
        let ghost orig_acc = self.backend.acc();
        let ghost mut steps: int = 0;
        loop
            invariant
                self.wf(),
                self.nesting_stack == old(self).nesting_stack,
                self.last_token == old(self).last_token,
                self.last_token_offset == old(self).last_token_offset,
                0 <= steps <= orig.len(),
                self.remaining() == orig.skip(steps),
                self.backend.acc() == orig_acc + orig.take(steps),
                forall|i: int| 0 <= i < steps ==> spec_is_octal(orig[i]),
            ensures
                self.wf(),
                self.nesting_stack == old(self).nesting_stack,
                self.last_token == old(self).last_token,
                self.last_token_offset == old(self).last_token_offset,
                self.remaining() == orig.skip(spec_leading(orig, |x: char| spec_is_octal(x))),
                self.backend.acc() == orig_acc + orig.take(
                    spec_leading(orig, |x: char| spec_is_octal(x)),
                ),
            decreases orig.len() - steps,
        {
            let next = self.backend.peek();
            match next {
                Some(symbol) => {
                    if is_octal(symbol) {
                        self.backend.step();
                        proof {
                            steps = steps + 1;
                            assert(self.remaining() =~= orig.skip(steps));
                            assert(self.backend.acc() =~= orig_acc + orig.take(steps));
                        }
                    } else {
                        proof {
                            lemma_leading_of(orig, |x: char| spec_is_octal(x), steps);
                        }
                        break ;
                    }
                },
                None => {
                    proof {
                        lemma_leading_of(orig, |x: char| spec_is_octal(x), steps);
                    }
                    break ;
                },
            }
        }
        Token::NumberSegment { value: self.backend.revise_all(), base: 8 }
    }

    fn read_decimal(&mut self) -> (r: Token)
        requires
            old(self).wf(),
        ensures
            final(self).wf(),
            final(self).nesting_stack == old(self).nesting_stack,
            final(self).last_token == old(self).last_token,
            final(self).last_token_offset == old(self).last_token_offset,
            ({
                let run = spec_leading(old(self).remaining(), |x: char| spec_is_decimal(x));
                &&& final(self).remaining() == old(self).remaining().skip(run)
                &&& r matches Token::NumberSegment { value, base } && value@ == old(
                    self,
                ).backend.acc() + old(self).remaining().take(run) && base == 10
            }),
    {
        let ghost orig = self.remaining();
        let ghost orig_acc = self.backend.acc();
        let ghost mut steps: int = 0;
        loop
            invariant
                self.wf(),
                self.nesting_stack == old(self).nesting_stack,
                self.last_token == old(self).last_token,
                self.last_token_offset == old(self).last_token_offset,
                0 <= steps <= orig.len(),
                self.remaining() == orig.skip(steps),
                self.backend.acc() == orig_acc + orig.take(steps),
                forall|i: int| 0 <= i < steps ==> spec_is_decimal(orig[i]),
            ensures
                self.wf(),
                self.nesting_stack == old(self).nesting_stack,
                self.last_token == old(self).last_token,
                self.last_token_offset == old(self).last_token_offset,
                self.remaining() == orig.skip(spec_leading(orig, |x: char| spec_is_decimal(x))),
                self.backend.acc() == orig_acc + orig.take(
                    spec_leading(orig, |x: char| spec_is_decimal(x)),
                ),
            decreases orig.len() - steps,
        {
            let next = self.backend.peek();
            match next {
                Some(symbol) => {
                    if is_decimal(symbol) {
                        self.backend.step();
                        proof {
                            steps = steps + 1;
                            assert(self.remaining() =~= orig.skip(steps));
                            assert(self.backend.acc() =~= orig_acc + orig.take(steps));
                        }
                    } else {
                        proof {
                            lemma_leading_of(orig, |x: char| spec_is_decimal(x), steps);
                        }
                        break ;
                    }
                },
                None => {
                    proof {
                        lemma_leading_of(orig, |x: char| spec_is_decimal(x), steps);
                    }
                    break ;
                },
            }
        }
        Token::NumberSegment { value: self.backend.revise_all(), base: 10 }
    }

    /// A numeric run started by a hexadecimal letter widens its base to 16,
    /// but keeps extending over plain decimal digits only.
    fn read_hexadecimal(&mut self) -> (r: Token)
        requires
            old(self).wf(),
        ensures
            final(self).wf(),
            final(self).nesting_stack == old(self).nesting_stack,
            final(self).last_token == old(self).last_token,
            final(self).last_token_offset == old(self).last_token_offset,
            ({
                let run = spec_leading(old(self).remaining(), |x: char| spec_is_decimal(x));
                &&& final(self).remaining() == old(self).remaining().skip(run)
                &&& r matches Token::NumberSegment { value, base } && value@ == old(
                    self,
                ).backend.acc() + old(self).remaining().take(run) && base == 16
            }),
    {
        let ghost orig = self.remaining();
        let ghost orig_acc = self.backend.acc();
        let ghost mut steps: int = 0;
        loop
            invariant
                self.wf(),
                self.nesting_stack == old(self).nesting_stack,
                self.last_token == old(self).last_token,
                self.last_token_offset == old(self).last_token_offset,
                0 <= steps <= orig.len(),
                self.remaining() == orig.skip(steps),
                self.backend.acc() == orig_acc + orig.take(steps),
                forall|i: int| 0 <= i < steps ==> spec_is_decimal(orig[i]),
            ensures
                self.wf(),
                self.nesting_stack == old(self).nesting_stack,
                self.last_token == old(self).last_token,
                self.last_token_offset == old(self).last_token_offset,
                self.remaining() == orig.skip(spec_leading(orig, |x: char| spec_is_decimal(x))),
                self.backend.acc() == orig_acc + orig.take(
                    spec_leading(orig, |x: char| spec_is_decimal(x)),
                ),
            decreases orig.len() - steps,
        {
            let next = self.backend.peek();
            match next {
                Some(symbol) => {
                    if is_decimal(symbol) {
                        self.backend.step();
                        proof {
                            steps = steps + 1;
                            assert(self.remaining() =~= orig.skip(steps));
                            assert(self.backend.acc() =~= orig_acc + orig.take(steps));
                        }
                    } else {
                        proof {
                            lemma_leading_of(orig, |x: char| spec_is_decimal(x), steps);
                        }
                        break ;
                    }
                },
                None => {
                    proof {
                        lemma_leading_of(orig, |x: char| spec_is_decimal(x), steps);
                    }
                    break ;
                },
            }
        }
        Token::NumberSegment { value: self.backend.revise_all(), base: 16 }
    }

    fn read_text(&mut self) -> (r: Token)
        requires
            old(self).wf(),
        ensures
            final(self).wf(),
            final(self).nesting_stack == old(self).nesting_stack,
            final(self).last_token == old(self).last_token,
            final(self).last_token_offset == old(self).last_token_offset,
            ({
                let run = spec_leading(old(self).remaining(), |x: char| spec_is_text_content(x));
                &&& final(self).remaining() == old(self).remaining().skip(run)
                &&& r matches Token::Text { value } && value@ == old(self).backend.acc() + old(
                    self,
                ).remaining().take(run)
            }),
    {
        let ghost orig = self.remaining();
        let ghost orig_acc = self.backend.acc();
        let ghost mut steps: int = 0;
        loop
            invariant
                self.wf(),
                self.nesting_stack == old(self).nesting_stack,
                self.last_token == old(self).last_token,
                self.last_token_offset == old(self).last_token_offset,
                0 <= steps <= orig.len(),
                self.remaining() == orig.skip(steps),
                self.backend.acc() == orig_acc + orig.take(steps),
                forall|i: int| 0 <= i < steps ==> spec_is_text_content(orig[i]),
            ensures
                self.wf(),
                self.nesting_stack == old(self).nesting_stack,
                self.last_token == old(self).last_token,
                self.last_token_offset == old(self).last_token_offset,
                self.remaining() == orig.skip(spec_leading(orig, |x: char| spec_is_text_content(x))),
                self.backend.acc() == orig_acc + orig.take(
                    spec_leading(orig, |x: char| spec_is_text_content(x)),
                ),
            decreases orig.len() - steps,
        {
            let next = self.backend.peek();
            match next {
                Some(symbol) => {
                    if is_text_content(symbol) {
                        self.backend.step();
                        proof {
                            steps = steps + 1;
                            assert(self.remaining() =~= orig.skip(steps));
                            assert(self.backend.acc() =~= orig_acc + orig.take(steps));
                        }
                    } else {
                        proof {
                            lemma_leading_of(orig, |x: char| spec_is_text_content(x), steps);
                        }
                        break ;
                    }
                },
                None => {
                    proof {
                        lemma_leading_of(orig, |x: char| spec_is_text_content(x), steps);
                    }
                    break ;
                },
            }
        }
        Token::Text { value: self.backend.revise_all() }
    }

    fn update_nesting_stack(&mut self, symbol: char)
        ensures
            final(self).backend == old(self).backend,
            final(self).last_token == old(self).last_token,
            final(self).last_token_offset == old(self).last_token_offset,
            final(self).nesting_stack@ == spec_update_nesting(old(self).nesting_stack@, symbol),
    {
        let depth = self.nesting_stack.len();
        let mut handled = false;
        if depth > 0 {
            let context = self.nesting_stack[depth - 1];
            if context == '"' {
                if symbol == '"' {
                    self.nesting_stack.pop();
                } else if symbol == '(' {
                    self.nesting_stack.push('(');
                }
                handled = true;
            } else if context == '\'' {
                if symbol == '\'' {
                    self.nesting_stack.pop();
                }
                handled = true;
            } else if context == '(' {
                if symbol == '"' || symbol == '\'' || symbol == '(' || symbol == '{' {
                    self.nesting_stack.push(symbol);
                } else if symbol == ')' {
                    self.nesting_stack.pop();
                }
                handled = true;
            } else if context == '{' {
                if symbol == '"' || symbol == '\'' || symbol == '(' || symbol == '{' {
                    self.nesting_stack.push(symbol);
                } else if symbol == '}' {
                    self.nesting_stack.pop();
                }
                handled = true;
            }
        }
        if !handled {
            if symbol == '"' || symbol == '\'' || symbol == '(' || symbol == '{' {
                self.nesting_stack.push(symbol);
            }
        }
        proof {
            assert(self.nesting_stack@ =~= spec_update_nesting(
                old(self).nesting_stack@,
                symbol,
            ));
        }
    }

    fn read_item(&mut self) -> (r: Token)
        requires
            old(self).wf(),
        ensures
            final(self).wf(),
            final(self).last_token == old(self).last_token,
            final(self).last_token_offset == old(self).last_token_offset,
            spec_token_step(
                old(self).remaining(),
                old(self).nesting_stack@,
                r,
                final(self).remaining(),
                final(self).nesting_stack@,
            ),
    {
        self.backend.clear();
        if !self.backend.has_next() {
            return Token::End;
        }
        if self.backend.accept('\\') {
            let r = self.read_escape();
            proof {
                let rem = old(self).remaining();
                if rem.len() >= 2 {
                    assert(rem.skip(1).take(1) =~= seq![rem[1]]);
                    assert(seq!['\\'] + rem.skip(1).take(1) =~= rem.take(2));
                    assert(rem.skip(1).skip(1) =~= rem.skip(2));
                } else {
                    assert(seq!['\\'] =~= rem.take(1));
                }
            }
            return r;
        }
        if self.backend.accept('\n') {
            if self.nesting_stack.len() == 0 {
                return Token::Newline;
            }
            proof {
                assert(Seq::<char>::empty().push('\n') =~= old(self).remaining().take(1));
            }
            return Token::Whitespace { value: self.backend.revise_all() };
        }
        let next = self.backend.peek();
        match next {
            Some(symbol) => {
                if is_whitespace(symbol) {
                    let r = self.read_whitespace();
                    return r;
                }
                if is_operator(symbol) {
                    self.update_nesting_stack(symbol);
                    self.backend.step();
                    return Token::Operator { value: char_string(symbol) };
                }
                if is_delimiter(symbol) {
                    self.update_nesting_stack(symbol);
                    self.backend.step();
                    return Token::Delimiter { value: char_string(symbol) };
                }
                if is_binary(symbol) {
                    self.backend.step();
                    let r = self.read_binary();
                    proof {
                        lemma_first_sticks(
                            old(self).remaining(),
                            |x: char| spec_is_binary(x),
                        );
                    }
                    return r;
                }
                if is_octal(symbol) {
                    self.backend.step();
                    let r = self.read_octal();
                    proof {
                        lemma_first_sticks(old(self).remaining(), |x: char| spec_is_octal(x));
                    }
                    return r;
                }
                if is_decimal(symbol) {
                    self.backend.step();
                    let r = self.read_decimal();
                    proof {
                        lemma_first_sticks(
                            old(self).remaining(),
                            |x: char| spec_is_decimal(x),
                        );
                    }
                    return r;
                }
                if is_hexadecimal(symbol) {
                    self.backend.step();
                    let r = self.read_hexadecimal();
                    proof {
                        lemma_run_after_first(
                            old(self).remaining(),
                            |x: char| spec_is_decimal(x),
                        );
                    }
                    return r;
                }
                self.backend.step();
                let r = self.read_text();
                proof {
                    lemma_first_sticks(
                        old(self).remaining(),
                        |x: char| spec_is_text_content(x),
                    );
                }
                return r;
            },
            None => Token::End,
        }
    }
}

/// When the first character satisfies `f`, the leading run is that
/// character followed by the leading run of the rest.
pub proof fn lemma_first_sticks(s: Seq<char>, f: spec_fn(char) -> bool)
    requires
        s.len() > 0,
        f(s[0]),
    ensures
        spec_leading(s, f) == 1 + spec_leading(s.skip(1), f),
        seq![s[0]] + s.skip(1).take(spec_leading(s.skip(1), f)) == s.take(spec_leading(s, f)),
        s.skip(1).skip(spec_leading(s.skip(1), f)) == s.skip(spec_leading(s, f)),
{
    lemma_run_after_first(s, f);
}

/// Shifting a take or a skip over the first character of a sequence.
pub proof fn lemma_run_after_first(s: Seq<char>, f: spec_fn(char) -> bool)
    requires
        s.len() > 0,
    ensures
        0 <= spec_leading(s.skip(1), f) <= s.len() - 1,
        seq![s[0]] + s.skip(1).take(spec_leading(s.skip(1), f)) == s.take(
            1 + spec_leading(s.skip(1), f),
        ),
        s.skip(1).skip(spec_leading(s.skip(1), f)) == s.skip(1 + spec_leading(s.skip(1), f)),
{
    lemma_leading_bounds(s.skip(1), f);
    let run = spec_leading(s.skip(1), f);
    assert(seq![s[0]] + s.skip(1).take(run) =~= s.take(1 + run));
    assert(s.skip(1).skip(run) =~= s.skip(1 + run));
}

/// The leading run never leaves the sequence.
pub proof fn lemma_leading_bounds(s: Seq<char>, f: spec_fn(char) -> bool)
    ensures
        0 <= spec_leading(s, f) <= s.len(),
    decreases s.len(),
{
    if s.len() > 0 && f(s[0]) {
        lemma_leading_bounds(s.skip(1), f);
    }
}

/// The next token's view, the number of characters it consumes, and the
/// quoting context it leaves: the functional form of one lexing step.
pub open spec fn spec_scan_token(rem: Seq<char>, stack: Seq<char>) -> (TokenView, int, Seq<char>) {
    if rem.len() == 0 {
        (TokenView::End, 0, stack)
    } else {
        let c = rem[0];
        if c == '\\' {
            if rem.len() >= 2 {
                if rem[1] == '\n' {
                    (TokenView::Whitespace { text: rem.take(2) }, 2, stack)
                } else {
                    (TokenView::Text { text: rem.take(2) }, 2, stack)
                }
            } else {
                (TokenView::Text { text: rem.take(1) }, 1, stack)
            }
        } else if c == '\n' {
            if stack.len() == 0 {
                (TokenView::Newline, 1, stack)
            } else {
                (TokenView::Whitespace { text: rem.take(1) }, 1, stack)
            }
        } else if spec_is_whitespace(c) {
            let run = spec_leading(rem, |x: char| spec_is_whitespace(x));
            (TokenView::Whitespace { text: rem.take(run) }, run, stack)
        } else if spec_is_operator(c) {
            (TokenView::Operator { text: seq![c] }, 1, spec_update_nesting(stack, c))
        } else if spec_is_delimiter(c) {
            (TokenView::Delimiter { text: seq![c] }, 1, spec_update_nesting(stack, c))
        } else if spec_is_binary(c) {
            let run = 1 + spec_leading(rem.skip(1), |x: char| spec_is_binary(x));
            (TokenView::NumberSegment { text: rem.take(run), base: 2 }, run, stack)
        } else if spec_is_octal(c) {
            let run = 1 + spec_leading(rem.skip(1), |x: char| spec_is_octal(x));
            (TokenView::NumberSegment { text: rem.take(run), base: 8 }, run, stack)
        } else if spec_is_decimal(c) {
            let run = 1 + spec_leading(rem.skip(1), |x: char| spec_is_decimal(x));
            (TokenView::NumberSegment { text: rem.take(run), base: 10 }, run, stack)
        } else if spec_is_hexadecimal(c) {
            let run = 1 + spec_leading(rem.skip(1), |x: char| spec_is_decimal(x));
            (TokenView::NumberSegment { text: rem.take(run), base: 16 }, run, stack)
        } else {
            let run = spec_leading(rem, |x: char| spec_is_text_content(x));
            (TokenView::Text { text: rem.take(run) }, run, stack)
        }
    }
}

/// One scan consumes at least one character of a non-empty input and never
/// more than there are.
pub proof fn lemma_scan_bounds(rem: Seq<char>, stack: Seq<char>)
    ensures
        rem.len() > 0 ==> 1 <= spec_scan_token(rem, stack).1 <= rem.len(),
        rem.len() == 0 ==> spec_scan_token(rem, stack).1 == 0,
{
    if rem.len() > 0 {
        let c = rem[0];
        if c == '\\' || c == '\n' || spec_is_operator(c) || spec_is_delimiter(c) {
        } else if spec_is_whitespace(c) {
            lemma_leading_bounds(rem.skip(1), |x: char| spec_is_whitespace(x));
            assert((|x: char| spec_is_whitespace(x))(rem[0]));
            assert(spec_leading(rem, |x: char| spec_is_whitespace(x)) == 1 + spec_leading(
                rem.skip(1),
                |x: char| spec_is_whitespace(x),
            ));
        } else if spec_is_binary(c) {
            lemma_leading_bounds(rem.skip(1), |x: char| spec_is_binary(x));
        } else if spec_is_octal(c) {
            lemma_leading_bounds(rem.skip(1), |x: char| spec_is_octal(x));
        } else if spec_is_decimal(c) {
            lemma_leading_bounds(rem.skip(1), |x: char| spec_is_decimal(x));
        } else if spec_is_hexadecimal(c) {
            lemma_leading_bounds(rem.skip(1), |x: char| spec_is_decimal(x));
        } else {
            lemma_leading_bounds(rem.skip(1), |x: char| spec_is_text_content(x));
            assert((|x: char| spec_is_text_content(x))(rem[0]));
            assert(spec_leading(rem, |x: char| spec_is_text_content(x)) == 1 + spec_leading(
                rem.skip(1),
                |x: char| spec_is_text_content(x),
            ));
        }
    }
}

/// The relational single-step description and the functional one agree:
/// whatever `spec_token_step` relates is exactly what `spec_scan_token`
/// computes.
pub proof fn lemma_token_step_scan(
    rem: Seq<char>,
    stack: Seq<char>,
    token: Token,
    new_rem: Seq<char>,
    new_stack: Seq<char>,
)
    requires
        spec_token_step(rem, stack, token, new_rem, new_stack),
    ensures
        token@ == spec_scan_token(rem, stack).0,
        new_rem == rem.skip(spec_scan_token(rem, stack).1),
        new_stack == spec_scan_token(rem, stack).2,
{
    lemma_scan_bounds(rem, stack);
    if rem.len() == 0 {
        assert(rem.skip(0) =~= rem);
    }
}

/// The tokens of one logical line: the views of the tokens scanned one
/// after the other up to and including the first newline outside every
/// quoting context (or the end token), together with the characters left
/// and the final quoting context.
pub open spec fn spec_lex_line(rem: Seq<char>, stack: Seq<char>) -> (
    Seq<TokenView>,
    Seq<char>,
    Seq<char>,
)
    decreases rem.len(),
{
    if rem.len() == 0 {
        (seq![TokenView::End], rem, stack)
    } else {
        let (view, used, next_stack) = spec_scan_token(rem, stack);
        if view is Newline {
            (seq![view], rem.skip(used), next_stack)
        } else {
            proof {
                lemma_scan_bounds(rem, stack);
            }
            let rest = spec_lex_line(rem.skip(used), next_stack);
            (seq![view] + rest.0, rest.1, rest.2)
        }
    }
}


impl Stream<Token> for Lexer {
    /// True until the end token has been produced.
    fn has_next(&self) -> (r: bool)
        ensures
            r == !(self.last_token is End),
    {
        !(matches!(self.last_token, Token::End))
    }

    /// The next token: one lexing step as `spec_token_step` describes it.
    fn grab(&mut self) -> (r: Token)
        ensures
            old(self).wf() ==> {
                &&& final(self).wf()
                &&& spec_token_step(
                    old(self).remaining(),
                    old(self).nesting_stack@,
                    r,
                    final(self).remaining(),
                    final(self).nesting_stack@,
                )
                &&& final(self).last_token == r
            },
    {
        self.last_token_offset = self.backend.get_offset();
        let item = if self.backend.delegate.next <= self.backend.delegate.buffer.len() {
            self.read_item()
        } else {
            Token::End
        };
        self.last_token = item.duplicate();
        item
    }

    /// The number of the character the last token started at.
    fn get_offset(&self) -> (r: usize)
        ensures
            r == self.last_token_offset,
    {
        self.last_token_offset
    }
}


/// Every token but the end token consumes at least one character.
pub proof fn lemma_token_progress(
    rem: Seq<char>,
    stack: Seq<char>,
    token: Token,
    new_rem: Seq<char>,
    new_stack: Seq<char>,
)
    requires
        spec_token_step(rem, stack, token, new_rem, new_stack),
    ensures
        !(token is End) ==> new_rem.len() < rem.len(),
        token is End ==> new_rem == rem,
{
    if rem.len() > 0 {
        let c = rem[0];
        if c == '\\' || c == '\n' || spec_is_operator(c) || spec_is_delimiter(c) {
        } else if spec_is_whitespace(c) {
            lemma_leading_bounds(rem.skip(1), |x: char| spec_is_whitespace(x));
            assert((|x: char| spec_is_whitespace(x))(rem[0]));
            assert(spec_leading(rem, |x: char| spec_is_whitespace(x)) == 1 + spec_leading(
                rem.skip(1),
                |x: char| spec_is_whitespace(x),
            ));
        } else if spec_is_binary(c) {
            lemma_leading_bounds(rem.skip(1), |x: char| spec_is_binary(x));
        } else if spec_is_octal(c) {
            lemma_leading_bounds(rem.skip(1), |x: char| spec_is_octal(x));
        } else if spec_is_decimal(c) {
            lemma_leading_bounds(rem.skip(1), |x: char| spec_is_decimal(x));
        } else if spec_is_hexadecimal(c) {
            lemma_leading_bounds(rem.skip(1), |x: char| spec_is_decimal(x));
        } else {
            lemma_leading_bounds(rem.skip(1), |x: char| spec_is_text_content(x));
            assert((|x: char| spec_is_text_content(x))(rem[0]));
            assert(spec_leading(rem, |x: char| spec_is_text_content(x)) == 1 + spec_leading(
                rem.skip(1),
                |x: char| spec_is_text_content(x),
            ));
        }
    }
}

} // verus!
