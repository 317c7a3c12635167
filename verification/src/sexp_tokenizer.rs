// The lexical format of s-expressions is explained here in brief:
// https://github.com/janestreet/sexplib#lexical-conventions-of-s-expression
//
// > Whitespace, which consists of the space, newline, horizontal tab, and form
// > feed characters, is ignored unless within an OCaml-string, where it is
// > treated according to OCaml-conventions. The left parenthesis opens a new
// > list, the right one closes it again. Lists can be empty.
//
// > The double quote denotes the beginning and end of a string following the
// > lexical conventions of OCaml (see the OCaml-manual for details). All
// > characters other than double quotes, left and right parentheses,
// > whitespace, carriage return, and comment-introducing characters or
// > sequences (see next paragraph) are considered part of a contiguous string.
//
// > Comments
//
// > There are three kinds of comments:
// > - line comments are introduced with ;, and end at the newline.
// > - sexp comments are introduced with #;, and end at the end of the
//     following s-expression.
// > - block comments are introduced with #| and end with |#. These can be
//     nested, and double-quotes within them must be balanced and be lexically
//     correct OCaml strings.
//
// We note empirically that the [sexp] parser does not require valid escape
// sequences in quoted string literals.
use vstd::prelude::*;

verus! {

/// The lexer state: what kind of token (if any) the bytes seen so far have
/// left unfinished.  All of the block-comment states carry a nesting depth,
/// stored out of band in the tokenizer.
#[derive(Copy, Clone, Debug, PartialEq, Eq, Structural)]
pub enum State {
    Start,
    InUnquotedAtom,
    InQuotedAtom,
    InQuotedAtomEscape,
    LineComment,
    Pound,
    BlockComment,
    BlockCommentQuotedString,
    BlockCommentQuotedStringEscape,
    BlockCommentBar,
    BlockCommentPound,
}

#[derive(Copy, Clone, Debug)]
pub enum Token<'a> {
    OpenParen,
    CloseParen,
    Atom(&'a [u8]),
    LineComment(&'a [u8]),
    SexpComment,
    BlockComment(&'a [u8]),
}

impl<'a> Token<'a> {
    /// Whether the token is reported in pieces and closed by `finish_token`.
    pub fn requires_finishing(self) -> (r: bool)
        ensures
            r == (self matches Token::Atom(_) || self matches Token::LineComment(_)
                || self matches Token::BlockComment(_)),
    {
        match self {
            Token::Atom(_) | Token::LineComment(_) | Token::BlockComment(_) => true,
            _ => false,
        }
    }
}

/// The consumer of the token stream; for the tokenizer's users to implement.
pub trait Parser<'a> {
    fn process_token(&mut self, token: Token<'a>);

    fn continue_token(&mut self, bytes: &'a [u8]);

    fn finish_token(&mut self);
}

#[derive(PartialEq, Eq, Structural, Debug)]
pub enum TokenizationError {
    UnterminatedQuotedAtom,
    UnterminatedBlockQuote,
}

/// The lexer's abstract state: the automaton state plus its counters.
pub struct TokenizerModel {
    pub state: State,
    pub block_comment_depth: int,
    pub line_num: int,
    pub column_byte_num: int,
}

/// Depth bookkeeping is consistent: a positive nesting depth inside block
/// comments, zero everywhere else.
pub open spec fn model_wf(m: TokenizerModel) -> bool {
    &&& match m.state {
        State::BlockComment | State::BlockCommentQuotedString
            | State::BlockCommentQuotedStringEscape | State::BlockCommentBar
            | State::BlockCommentPound => m.block_comment_depth >= 1,
        _ => m.block_comment_depth == 0,
    }
    &&& m.line_num >= 1
    &&& m.column_byte_num >= 1
}

/// One byte of input advances the automaton.
pub open spec fn tok_step(m: TokenizerModel, byte: u8) -> TokenizerModel {
    let line_num = if byte == 10 {
        m.line_num + 1
    } else {
        m.line_num
    };
    let column_byte_num = if byte == 10 {
        1int
    } else {
        m.column_byte_num + 1
    };
    let sd: (State, int) = match m.state {
        State::Start => if byte == 32 || byte == 10 || byte == 9 || byte == 13 || byte == 12 {
            (State::Start, m.block_comment_depth)
        } else if byte == 40 || byte == 41 {
            (State::Start, m.block_comment_depth)
        } else if byte == 35 {
            (State::Pound, m.block_comment_depth)
        } else if byte == 59 {
            (State::LineComment, m.block_comment_depth)
        } else if byte == 34 {
            (State::InQuotedAtom, m.block_comment_depth)
        } else {
            (State::InUnquotedAtom, m.block_comment_depth)
        },
        State::InUnquotedAtom => if byte == 32 || byte == 10 || byte == 9 || byte == 13 || byte
            == 12 || byte == 40 || byte == 41 {
            (State::Start, m.block_comment_depth)
        } else if byte == 34 {
            (State::InQuotedAtom, m.block_comment_depth)
        } else {
            (State::InUnquotedAtom, m.block_comment_depth)
        },
        State::InQuotedAtom => if byte == 34 {
            (State::Start, m.block_comment_depth)
        } else if byte == 92 {
            (State::InQuotedAtomEscape, m.block_comment_depth)
        } else {
            (State::InQuotedAtom, m.block_comment_depth)
        },
        State::InQuotedAtomEscape => (State::InQuotedAtom, m.block_comment_depth),
        State::LineComment => if byte == 10 {
            (State::Start, m.block_comment_depth)
        } else {
            (State::LineComment, m.block_comment_depth)
        },
        State::Pound => if byte == 59 {
            (State::Start, m.block_comment_depth)
        } else if byte == 124 {
            (State::BlockComment, 1int)
        } else if byte == 32 || byte == 10 || byte == 9 || byte == 13 || byte == 12 || byte == 40
            || byte == 41 {
            (State::Start, m.block_comment_depth)
        } else if byte == 34 {
            (State::InQuotedAtom, m.block_comment_depth)
        } else {
            (State::InUnquotedAtom, m.block_comment_depth)
        },
        State::BlockComment => if byte == 34 {
            (State::BlockCommentQuotedString, m.block_comment_depth)
        } else if byte == 124 {
            (State::BlockCommentBar, m.block_comment_depth)
        } else if byte == 35 {
            (State::BlockCommentPound, m.block_comment_depth)
        } else {
            (State::BlockComment, m.block_comment_depth)
        },
        State::BlockCommentQuotedString => if byte == 34 {
            (State::BlockComment, m.block_comment_depth)
        } else if byte == 92 {
            (State::BlockCommentQuotedStringEscape, m.block_comment_depth)
        } else {
            (State::BlockCommentQuotedString, m.block_comment_depth)
        },
        State::BlockCommentQuotedStringEscape => (
            State::BlockCommentQuotedString,
            m.block_comment_depth,
        ),
        State::BlockCommentBar => if byte == 35 {
            if m.block_comment_depth == 1 {
                (State::Start, 0int)
            } else {
                (State::BlockComment, m.block_comment_depth - 1)
            }
        } else if byte == 34 {
            (State::BlockCommentQuotedString, m.block_comment_depth)
        } else if byte == 124 {
            (State::BlockCommentBar, m.block_comment_depth)
        } else {
            (State::BlockComment, m.block_comment_depth)
        },
        State::BlockCommentPound => if byte == 124 {
            (State::BlockComment, m.block_comment_depth + 1)
        } else if byte == 34 {
            (State::BlockCommentQuotedString, m.block_comment_depth)
        } else {
            (State::BlockComment, m.block_comment_depth)
        },
    };
    TokenizerModel { state: sd.0, block_comment_depth: sd.1, line_num, column_byte_num }
}

/// Running the automaton over a whole batch of bytes.
pub open spec fn tok_run(m: TokenizerModel, bytes: Seq<u8>) -> TokenizerModel
    decreases bytes.len(),
{
    if bytes.len() == 0 {
        m
    } else {
        tok_run(tok_step(m, bytes[0]), bytes.drop_first())
    }
}

/// Folding one more byte.
pub proof fn lemma_tok_run_snoc(m: TokenizerModel, bytes: Seq<u8>, i: int)
    requires
        0 <= i < bytes.len(),
    ensures
        tok_run(m, bytes.take(i + 1)) == tok_step(tok_run(m, bytes.take(i)), bytes[i]),
    decreases i,
{
    let s0 = tok_step(m, bytes[0]);
    if i == 0 {
        let t1 = bytes.take(1);
        assert(t1.len() == 1);
        assert(t1[0] == bytes[0]);
        assert(t1.drop_first() =~= Seq::<u8>::empty());
        assert(tok_run(m, t1) == tok_run(s0, t1.drop_first()));
        assert(tok_run(s0, Seq::<u8>::empty()) == s0);
        assert(bytes.take(0) =~= Seq::<u8>::empty());
        assert(tok_run(m, bytes.take(0)) == m);
    } else {
        let t = bytes.take(i + 1);
        let t0 = bytes.take(i);
        let d = bytes.drop_first();
        assert(t[0] == bytes[0]);
        assert(t0[0] == bytes[0]);
        lemma_tok_run_snoc(s0, d, i - 1);
        assert(t.drop_first() =~= d.take(i));
        assert(t0.drop_first() =~= d.take(i - 1));
        assert(d[i - 1] == bytes[i]);
        assert(tok_run(m, t) == tok_run(s0, t.drop_first()));
        assert(tok_run(m, t0) == tok_run(s0, t0.drop_first()));
    }
}

/// A streaming lexer for the s-expression surface syntax.  Bytes arrive in
/// batches; tokens that span batches are reported in pieces through the
/// `Parser` callbacks.
pub struct Tokenizer {
    state: State,
    block_comment_depth: usize,
    line_num: usize,
    column_byte_num: usize,
}

impl Tokenizer {
    pub closed spec fn model(&self) -> TokenizerModel {
        TokenizerModel {
            state: self.state,
            block_comment_depth: self.block_comment_depth as int,
            line_num: self.line_num as int,
            column_byte_num: self.column_byte_num as int,
        }
    }

    pub open spec fn inv(&self) -> bool {
        model_wf(self.model())
    }

    pub fn new() -> (r: Tokenizer)
        ensures
            r.inv(),
            r.model() == (TokenizerModel {
                state: State::Start,
                block_comment_depth: 0int,
                line_num: 1int,
                column_byte_num: 1int,
            }),
    {
        Tokenizer { state: State::Start, block_comment_depth: 0, line_num: 1, column_byte_num: 1 }
    }

    pub fn tokenize<'p, 't, P: Parser<'t>>(&mut self, bytes: &'p [u8], parser: &'p mut P) where
        'p: 't,

        requires
            old(self).inv(),
            old(self).model().block_comment_depth + bytes@.len() <= usize::MAX,
            old(self).model().line_num + bytes@.len() <= usize::MAX,
            old(self).model().column_byte_num + bytes@.len() <= usize::MAX,
        ensures
            final(self).inv(),
            final(self).model() == tok_run(old(self).model(), bytes@),
    {
        let mut reported_start_of_current_token = match self.state {
            State::Start | State::Pound => false,
            State::InUnquotedAtom | State::InQuotedAtom | State::InQuotedAtomEscape
                | State::LineComment | State::BlockComment | State::BlockCommentQuotedString
                | State::BlockCommentQuotedStringEscape | State::BlockCommentBar
                | State::BlockCommentPound => true,
        };

        let mut curr_token_start: usize = 0;
        let len = bytes.len();
        let mut i: usize = 0;
        let ghost m0 = self.model();

        while i < len
            invariant
                len == bytes@.len(),
                i <= len,
                self.inv(),
                model_wf(m0),
                self.model() == tok_run(m0, bytes@.take(i as int)),
                m0.block_comment_depth + len <= usize::MAX,
                m0.line_num + len <= usize::MAX,
                m0.column_byte_num + len <= usize::MAX,
                curr_token_start <= len,
                !(self.model().state matches State::Start) ==> curr_token_start <= i,
            decreases len - i,
        {
            proof {
                lemma_tok_run_snoc(m0, bytes@, i as int);
                lemma_depth_run_bound(m0, bytes@, i as int);
            }
            let ghost pre_model = self.model();
            let byte = bytes[i];
            if byte == 10 {
                self.line_num = self.line_num + 1;
                self.column_byte_num = 1;
            } else {
                self.column_byte_num = self.column_byte_num + 1;
            }

            match self.state {
                State::Start => {
                    if byte == 32 || byte == 10 || byte == 9 || byte == 13 || byte
                        == 12 {  /* Do nothing */
                    } else if byte == 40 {
                        parser.process_token(Token::OpenParen);
                    } else if byte == 41 {
                        parser.process_token(Token::CloseParen);
                    } else if byte == 35 {
                        curr_token_start = i;
                        self.state = State::Pound;
                        reported_start_of_current_token = false;
                    } else if byte == 59 {
                        curr_token_start = i;
                        self.state = State::LineComment;
                        reported_start_of_current_token = false;
                    } else if byte == 34 {
                        curr_token_start = i;
                        self.state = State::InQuotedAtom;
                        reported_start_of_current_token = false;
                    } else {
                        curr_token_start = i;
                        self.state = State::InUnquotedAtom;
                        reported_start_of_current_token = false;
                    }
                },
                State::InUnquotedAtom => {
                    if byte == 32 || byte == 10 || byte == 9 || byte == 13 || byte == 12
                        || byte == 40 || byte == 41 {
                        let range = vstd::slice::slice_subrange(bytes, curr_token_start, i);
                        if reported_start_of_current_token {
                            parser.continue_token(range);
                        } else {
                            parser.process_token(Token::Atom(range));
                        }
                        parser.finish_token();
                        if byte == 40 {
                            parser.process_token(Token::OpenParen);
                        } else if byte == 41 {
                            parser.process_token(Token::CloseParen);
                        }
                        self.state = State::Start;
                        // [curr_token_start] is now invalid, but will be set
                        // on a transition out of [Start].
                    } else if byte == 34 {
                        // End current atom, and start a new quoted one
                        let range = vstd::slice::slice_subrange(bytes, curr_token_start, i);
                        if reported_start_of_current_token {
                            parser.continue_token(range);
                        } else {
                            parser.process_token(Token::Atom(range));
                        }
                        parser.finish_token();
                        curr_token_start = i;
                        self.state = State::InQuotedAtom;
                        reported_start_of_current_token = false;
                    } else {  /* Do nothing, continue processing atom. */
                    }
                },
                State::InQuotedAtom => {
                    if byte == 34 {
                        // End current atom; include the trailing '"'
                        let range = vstd::slice::slice_subrange(bytes, curr_token_start, i + 1);
                        if reported_start_of_current_token {
                            parser.continue_token(range);
                        } else {
                            parser.process_token(Token::Atom(range));
                        }
                        parser.finish_token();
                        curr_token_start = i;
                        self.state = State::Start;
                        reported_start_of_current_token = false;
                    } else if byte == 92 {
                        self.state = State::InQuotedAtomEscape;
                    } else {  /* Do nothing, continue processing atom. */
                    }
                },
                State::InQuotedAtomEscape => {
                    /* Don't even need to check the byte. */
                    self.state = State::InQuotedAtom;
                },
                State::LineComment => {
                    if byte == 10 {
                        // End line comment
                        let range = vstd::slice::slice_subrange(bytes, curr_token_start, i);
                        if reported_start_of_current_token {
                            parser.continue_token(range);
                        } else {
                            parser.process_token(Token::LineComment(range));
                        }
                        parser.finish_token();
                        curr_token_start = i;
                        self.state = State::Start;
                        reported_start_of_current_token = false;
                    } else {  /* Do nothing, continue processing comment. */
                    }
                },
                State::Pound => {
                    if byte == 59 {
                        // Emit sexp comment ("#;"), then go back to start state.
                        parser.process_token(Token::SexpComment);
                        self.state = State::Start;
                    } else if byte == 124 {
                        // Report the start '#' (which may have been in a previous batch).
                        if curr_token_start == 0 {
                            let pound: &'static [u8] = &[35u8];
                            parser.process_token(Token::BlockComment(pound));
                            curr_token_start = i;
                            reported_start_of_current_token = true;
                        } else {
                            curr_token_start = i - 1;
                            reported_start_of_current_token = false;
                        }
                        self.block_comment_depth = 1;
                        self.state = State::BlockComment;
                    } else if byte == 32 || byte == 10 || byte == 9 || byte == 13
                        || byte == 12 || byte == 40 || byte == 41 {
                        // Emit "#" atom, then go back to start state.
                        let pound: &'static [u8] = &[35u8];
                        parser.process_token(Token::Atom(pound));
                        parser.finish_token();
                        if byte == 40 {
                            parser.process_token(Token::OpenParen);
                        } else if byte == 41 {
                            parser.process_token(Token::CloseParen);
                        }
                        self.state = State::Start;
                    } else if byte == 34 {
                        // End "#" atom, move into quoted atom.
                        let pound: &'static [u8] = &[35u8];
                        parser.process_token(Token::Atom(pound));
                        parser.finish_token();
                        curr_token_start = i;
                        self.state = State::InQuotedAtom;
                        reported_start_of_current_token = false;
                    } else {
                        // Emit the start of an atom that starts with '#', then start
                        // processing that atom.
                        let pound: &'static [u8] = &[35u8];
                        parser.process_token(Token::Atom(pound));
                        curr_token_start = i;
                        self.state = State::InUnquotedAtom;
                        reported_start_of_current_token = true;
                    }
                },
                State::BlockComment => {
                    // Maybe update state, but we won't ever emit a token.
                    if byte == 34 {
                        self.state = State::BlockCommentQuotedString;
                    } else if byte == 124 {
                        self.state = State::BlockCommentBar;
                    } else if byte == 35 {
                        self.state = State::BlockCommentPound;
                    } else {  /* Otherwise do nothing. */
                    }
                },
                State::BlockCommentQuotedString => {
                    if byte == 34 {
                        self.state = State::BlockComment;
                    } else if byte == 92 {
                        self.state = State::BlockCommentQuotedStringEscape;
                    } else {  /* Otherwise do nothing. */
                    }
                },
                State::BlockCommentQuotedStringEscape => {
                    /* Don't even need to check the byte. */
                    self.state = State::BlockCommentQuotedString;
                },
                State::BlockCommentBar => {
                    if byte == 35 {
                        self.block_comment_depth = self.block_comment_depth - 1;
                        if self.block_comment_depth == 0 {
                            // Include trailing '#' char
                            let range = vstd::slice::slice_subrange(bytes, curr_token_start, i + 1);
                            if reported_start_of_current_token {
                                parser.continue_token(range);
                            } else {
                                parser.process_token(Token::BlockComment(range));
                            }
                            parser.finish_token();
                            self.state = State::Start;
                        } else {
                            // Still processing a block comment
                            self.state = State::BlockComment;
                        }
                    } else if byte == 34 {
                        self.state = State::BlockCommentQuotedString;
                    } else if byte == 124 {  /* Stay in this state. */
                    } else {
                        self.state = State::BlockComment;
                    }
                },
                State::BlockCommentPound => {
                    if byte == 124 {
                        self.block_comment_depth = self.block_comment_depth + 1;
                        self.state = State::BlockComment;
                    } else if byte == 34 {
                        self.state = State::BlockCommentQuotedString;
                    } else {
                        self.state = State::BlockComment;
                    }
                },
            }
            i = i + 1;
            proof {
                assert(self.model() == tok_step(pre_model, byte));
            }
        }

        proof {
            assert(bytes@.take(len as int) =~= bytes@);
        }

        // Emit the start/middle of whatever token we're currently processing.
        let range = vstd::slice::slice_subrange(bytes, curr_token_start, len);

        match self.state {
            State::Start | State::Pound => {},
            State::InUnquotedAtom | State::InQuotedAtom | State::InQuotedAtomEscape => {
                if reported_start_of_current_token {
                    parser.continue_token(range);
                } else {
                    parser.process_token(Token::Atom(range));
                }
            },
            State::LineComment => {
                if reported_start_of_current_token {
                    parser.continue_token(range);
                } else {
                    parser.process_token(Token::LineComment(range));
                }
            },
            State::BlockComment | State::BlockCommentQuotedString
                | State::BlockCommentQuotedStringEscape | State::BlockCommentBar
                | State::BlockCommentPound => {
                if reported_start_of_current_token {
                    parser.continue_token(range);
                } else {
                    parser.process_token(Token::BlockComment(range));
                }
            },
        }
    }

    /// Finish the stream: flush an unfinished atom or line comment, and
    /// report tokens that cannot legally end at end-of-input.
    pub fn eof<'p, 't, P: Parser<'t>>(&mut self, parser: &'p mut P) -> (r: Result<
        (),
        TokenizationError,
    >)
        requires
            old(self).inv(),
        ensures
            final(self).inv(),
            final(self).model() == old(self).model(),
            match r {
                Ok(_) => old(self).model().state matches State::Start
                    || old(self).model().state matches State::Pound || old(
                    self,
                ).model().state matches State::InUnquotedAtom || old(
                    self,
                ).model().state matches State::LineComment,
                Err(TokenizationError::UnterminatedQuotedAtom) => old(
                    self,
                ).model().state matches State::InQuotedAtom || old(
                    self,
                ).model().state matches State::InQuotedAtomEscape,
                Err(TokenizationError::UnterminatedBlockQuote) => old(
                    self,
                ).model().state matches State::BlockComment || old(
                    self,
                ).model().state matches State::BlockCommentQuotedString || old(
                    self,
                ).model().state matches State::BlockCommentQuotedStringEscape || old(
                    self,
                ).model().state matches State::BlockCommentBar || old(
                    self,
                ).model().state matches State::BlockCommentPound,
            },
    {
        match self.state {
            State::Start => Ok(()),
            State::Pound => {
                let pound: &'static [u8] = &[35u8];
                parser.process_token(Token::BlockComment(pound));
                parser.finish_token();
                Ok(())
            },
            State::InUnquotedAtom | State::LineComment => {
                parser.finish_token();
                Ok(())
            },
            State::InQuotedAtom | State::InQuotedAtomEscape => {
                Err(TokenizationError::UnterminatedQuotedAtom)
            },
            State::BlockComment | State::BlockCommentQuotedString
                | State::BlockCommentQuotedStringEscape | State::BlockCommentBar
                | State::BlockCommentPound => Err(TokenizationError::UnterminatedBlockQuote),
        }
    }
}

/// The nesting depth grows by at most one per byte consumed.
pub proof fn lemma_depth_run_bound(m: TokenizerModel, bytes: Seq<u8>, i: int)
    requires
        0 <= i <= bytes.len(),
        model_wf(m),
    ensures
        tok_run(m, bytes.take(i)).block_comment_depth <= m.block_comment_depth + i,
        tok_run(m, bytes.take(i)).line_num <= m.line_num + i,
        tok_run(m, bytes.take(i)).column_byte_num <= m.column_byte_num + i,
    decreases i,
{
    if i == 0 {
        assert(bytes.take(0) =~= Seq::<u8>::empty());
    } else {
        lemma_depth_run_bound(m, bytes, i - 1);
        lemma_tok_run_snoc(m, bytes, i - 1);
    }
}

} // verus!
