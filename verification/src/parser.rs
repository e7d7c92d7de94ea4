//! The parser: drives the liner and the grammar engine one logical line at
//! a time, producing one expression node per line. A line that the grammar
//! cannot cover is a recoverable syntax error: a diagnostic is recorded, a
//! sentinel error leaf is substituted where nothing matched at all, and the
//! session goes on with the next line.

use vstd::prelude::*;
use vstd::string::StringExecFns;

use crate::ast::Node;
use crate::ast::NodeView;
use crate::ast::spec_node_views;
use crate::lexer::Lexer;
use crate::lexer::Token;
use crate::lexer::TokenView;
use crate::liner::Liner;
use crate::liner::spec_numbers_pass;
use crate::liner::spec_tight_pass;
use crate::ruler::Grammar;
use crate::ruler::apply_rule;
use crate::stream::Stream;

verus! {

/// Reads logical lines and parses each into one expression node.
#[derive(Debug)]
pub struct Parser {
    /// The rule table the grammar engine matches against.
    pub grammar: Grammar,
    /// The line source.
    pub backend: Liner,
    /// True once the line holding the end token has been parsed.
    pub end_token_met: bool,
    /// The diagnostics recorded for recoverable syntax errors, oldest
    /// first; the caller drains and reports them.
    pub diagnostics: Vec<String>,
}

impl Parser {
    /// True while the inner read position is in range.
    pub open spec fn wf(self) -> bool {
        self.backend.wf()
    }

    /// A fresh parser: no end token met, no diagnostics, the liner over
    /// the given lexer, and the language's rule table as its grammar — in
    /// particular the `expression` rule that `parse` applies is present and
    /// stands first.
    pub fn new(backend: Lexer) -> (r: Parser)
        ensures
            r.backend.backend == backend,
            r.end_token_met == false,
            r.diagnostics@.len() == 0,
            r.grammar@.rules.len() > 0,
            r.grammar@.rules[0].name == "expression"@,
            crate::ruler::spec_find_rule(r.grammar@.rules, "expression"@) == Some(
                r.grammar@.rules[0],
            ),
    {
        Parser {
            grammar: crate::grammar::get_grammar(),
            backend: Liner::new(backend),
            end_token_met: false,
            diagnostics: Vec::new(),
        }
    }

    /// One line parsed: always an `Expressions` node. The line is what the
    /// liner yields on the remaining characters; its whitespace tokens are
    /// dropped, the grammar's `expression` rule is applied to the rest, and
    /// the result is wrapped as one statement. A line whose tokens begin
    /// with the end token finishes the session with an empty statement run;
    /// a line holding only its terminator is an empty statement run; a
    /// parse that matched nothing yields the sentinel error leaf, and a
    /// diagnostic is recorded exactly when the parse failed or stopped
    /// short of the line's effective end, so downstream consumers always
    /// receive a node and one malformed line never aborts the session.
    fn parse(&mut self) -> (r: Node)
        requires
            old(self).wf(),
        ensures
            final(self).wf(),
            r is Expressions,
            old(self).end_token_met ==> final(self).end_token_met,
            final(self).grammar == old(self).grammar,
            ({
                let lexed = crate::lexer::spec_lex_line(
                    old(self).backend.backend.remaining(),
                    old(self).backend.backend.nesting_stack@,
                );
                let rewritten = spec_tight_pass(spec_numbers_pass(lexed.0));
                let kept = crate::tokenization::spec_drop_whitespace(rewritten);
                let effective = if kept.len() > 0 && (kept.last() is Newline || kept.last()
                    is End) {
                    kept.len() - 1
                } else {
                    kept.len() as int
                };
                &&& (rewritten.len() == 0 ==> r@ == (NodeView::Expressions {
                    values: Seq::empty(),
                }))
                &&& ((rewritten.len() > 0 && rewritten[0] is End) ==> (final(self).end_token_met
                    && r@ == (NodeView::Expressions { values: Seq::empty() })))
                &&& ((rewritten.len() > 0 && !(rewritten[0] is End)) ==> ({
                    &&& (effective == 0 ==> (r@ == (NodeView::Expressions {
                        values: Seq::empty(),
                    }) && final(self).diagnostics@.len() == old(self).diagnostics@.len()))
                    &&& (effective > 0 ==> ({
                        let outcome = crate::ruler::spec_apply_rule(
                            old(self).grammar@,
                            "expression"@,
                            kept,
                            0,
                            4096nat,
                        );
                        &&& (outcome.0 matches Some(node) ==> r@ == (NodeView::Expressions {
                            values: seq![node],
                        }))
                        &&& (outcome.0 is None ==> r@ == (NodeView::Expressions {
                            values: seq![
                                NodeView::Leaf {
                                    token: crate::lexer::TokenView::Text { text: "[error]"@ },
                                },
                            ],
                        }))
                        &&& final(self).diagnostics@.len() == old(self).diagnostics@.len() + (
                        if outcome.1 == 0 || (0 < outcome.1 < effective) {
                            1int
                        } else {
                            0int
                        })
                    }))
                }))
            }),
    {
        let ghost lexed = crate::lexer::spec_lex_line(
            old(self).backend.backend.remaining(),
            old(self).backend.backend.nesting_stack@,
        );
        let tokens = self.backend.grab();
        let ghost rewritten = spec_tight_pass(spec_numbers_pass(lexed.0));
        proof {
            assert(crate::liner::spec_views(tokens@) == rewritten);
            assert(crate::liner::spec_views(tokens@).len() == tokens@.len());
        }
        if tokens.len() == 0 {
            proof {
                assert(crate::tokenization::spec_drop_whitespace(rewritten)
                    =~= Seq::<TokenView>::empty());
                assert(spec_node_views(Seq::<Node>::empty()) =~= Seq::<NodeView>::empty());
            }
            return Node::Expressions { values: Vec::new() };
        }
        proof {
            assert(crate::liner::spec_views(tokens@)[0] == tokens@[0]@);
        }
        if matches!(tokens[0], Token::End) {
            self.end_token_met = true;
            proof {
                assert(spec_node_views(Seq::<Node>::empty()) =~= Seq::<NodeView>::empty());
            }
            return Node::Expressions { values: Vec::new() };
        }
        let mut filtered: Vec<Token> = Vec::new();
        let mut index: usize = 0;
        proof {
            assert(rewritten.skip(0) =~= rewritten);
            assert(crate::liner::spec_views(filtered@) =~= Seq::<TokenView>::empty());
        }
        while index < tokens.len()
            invariant
                index <= tokens@.len(),
                self.backend.wf(),
                rewritten == crate::liner::spec_views(tokens@),
                self.grammar == old(self).grammar,
                self.diagnostics == old(self).diagnostics,
                old(self).end_token_met ==> self.end_token_met,
                crate::tokenization::spec_drop_whitespace(rewritten)
                    == crate::liner::spec_views(filtered@)
                    + crate::tokenization::spec_drop_whitespace(rewritten.skip(index as int)),
            decreases tokens@.len() - index,
        {
            proof {
                assert(rewritten.skip(index as int)[0] == tokens@[index as int]@);
                assert(rewritten.skip(index as int).skip(1) =~= rewritten.skip(
                    index as int + 1,
                ));
            }
            let ghost sofar = filtered@;
            let keep = !matches!(tokens[index], Token::Whitespace { .. });
            if keep {
                filtered.push(tokens[index].duplicate());
                proof {
                    assert(crate::liner::spec_views(filtered@) =~= crate::liner::spec_views(
                        sofar,
                    ).push(tokens@[index as int]@));
                    assert(crate::liner::spec_views(filtered@)
                        + crate::tokenization::spec_drop_whitespace(
                        rewritten.skip(index as int + 1),
                    ) =~= crate::liner::spec_views(sofar)
                        + crate::tokenization::spec_drop_whitespace(
                        rewritten.skip(index as int),
                    ));
                }
            }
            if matches!(tokens[index], Token::End) {
                self.end_token_met = true;
            }
            index = index + 1;
        }
        let ghost kept = crate::tokenization::spec_drop_whitespace(rewritten);
        proof {
            assert(rewritten.skip(tokens@.len() as int) =~= Seq::<TokenView>::empty());
            assert(crate::tokenization::spec_drop_whitespace(Seq::<TokenView>::empty())
                =~= Seq::<TokenView>::empty());
            assert(kept =~= crate::liner::spec_views(filtered@));
            assert(kept.len() == filtered@.len());
        }
        let mut effective = filtered.len();
        if effective > 0 {
            proof {
                assert(kept.last() == filtered@[filtered@.len() - 1]@);
            }
            if matches!(filtered[effective - 1], Token::Newline | Token::End) {
                effective = effective - 1;
            }
        }
        if effective == 0 {
            proof {
                assert(spec_node_views(Seq::<Node>::empty()) =~= Seq::<NodeView>::empty());
            }
            return Node::Expressions { values: Vec::new() };
        }
        let (ast, stop_index) = apply_rule("expression", &filtered, 0, &self.grammar);
        if stop_index > 0 {
            if stop_index < effective {
                self.record_syntax_error(&filtered, stop_index);
            }
        } else {
            self.record_syntax_error(&filtered, stop_index);
        }
        match ast {
            Some(thing) => {
                let ghost thing_view = crate::ast::spec_node_view(thing);
                let mut values: Vec<Node> = Vec::new();
                values.push(thing);
                proof {
                    crate::ast::lemma_node_views(values@);
                    assert(spec_node_views(values@) =~= seq![thing_view]);
                }
                Node::Expressions { values }
            },
            None => {
                let sentinel = Node::Leaf { value: Token::Text { value: "[error]".to_owned() } };
                let ghost sentinel_view = crate::ast::spec_node_view(sentinel);
                let mut values: Vec<Node> = Vec::new();
                values.push(sentinel);
                proof {
                    crate::ast::lemma_node_views(values@);
                    assert(spec_node_views(values@) =~= seq![sentinel_view]);
                }
                Node::Expressions { values }
            },
        }
    }

    /// Records one recoverable syntax error, naming the offending token.
    fn record_syntax_error(&mut self, tokens: &Vec<Token>, stop_index: usize)
        ensures
            final(self).backend == old(self).backend,
            final(self).grammar == old(self).grammar,
            final(self).end_token_met == old(self).end_token_met,
            final(self).diagnostics@.len() == old(self).diagnostics@.len() + 1,
    {
        let mut message: String = "syntax error near '".to_owned();
        if stop_index < tokens.len() {
            let carried = Token::get_value(&tokens[stop_index]);
            match carried {
                Some(text) => {
                    message.append(text.as_str());
                },
                None => {
                    message.append("end of line");
                },
            }
        } else {
            message.append("end of line");
        }
        message.append("'");
        self.diagnostics.push(message);
    }
}

impl Stream<Node> for Parser {
    /// True until the line holding the end token has been parsed.
    fn has_next(&self) -> (r: bool)
        ensures
            r == !self.end_token_met,
    {
        !self.end_token_met
    }

    /// The next line's expression node; always an `Expressions` node, also
    /// after a recoverable syntax error, carrying exactly what `parse`
    /// promises of the line the liner yields on the remaining characters.
    fn grab(&mut self) -> (r: Node)
        ensures
            r is Expressions,
            old(self).end_token_met ==> final(self).end_token_met,
            old(self).wf() ==> ({
                let lexed = crate::lexer::spec_lex_line(
                    old(self).backend.backend.remaining(),
                    old(self).backend.backend.nesting_stack@,
                );
                let rewritten = spec_tight_pass(spec_numbers_pass(lexed.0));
                let kept = crate::tokenization::spec_drop_whitespace(rewritten);
                let effective = if kept.len() > 0 && (kept.last() is Newline || kept.last()
                    is End) {
                    kept.len() - 1
                } else {
                    kept.len() as int
                };
                &&& final(self).wf()
                &&& final(self).grammar == old(self).grammar
                &&& ((rewritten.len() > 0 && rewritten[0] is End) ==> (final(self).end_token_met && r@ == (NodeView::Expressions { values: Seq::empty() })))
                &&& ((rewritten.len() > 0 && !(rewritten[0] is End) && effective > 0) ==> ({
                    let outcome = crate::ruler::spec_apply_rule(
                        old(self).grammar@,
                        "expression"@,
                        kept,
                        0,
                        4096nat,
                    );
                    &&& (outcome.0 matches Some(node) ==> r@ == (NodeView::Expressions {
                        values: seq![node],
                    }))
                    &&& (outcome.0 is None ==> r@ == (NodeView::Expressions {
                        values: seq![
                            NodeView::Leaf {
                                token: crate::lexer::TokenView::Text { text: "[error]"@ },
                            },
                        ],
                    }))
                    &&& final(self).diagnostics@.len() == old(self).diagnostics@.len() + (
                    if outcome.1 == 0 || (0 < outcome.1 < effective) {
                        1int
                    } else {
                        0int
                    })
                }))
            }),
    {
        let in_range = self.backend.backend.backend.delegate.next
            <= self.backend.backend.backend.delegate.buffer.len();
        if in_range {
            self.parse()
        } else {
            self.end_token_met = true;
            Node::Expressions { values: Vec::new() }
        }
    }

    /// The number of lines read so far.
    fn get_offset(&self) -> (r: usize)
        ensures
            r == self.backend.line_number,
    {
        self.backend.line_number
    }
}

} // verus!
