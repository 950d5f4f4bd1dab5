//! The parser: it reads tokens from a scanner, one statement after the
//! other, builds the tree and records what it finds wrong.

use vstd::prelude::*;

use crate::lexer::lexer::Lexer;
use crate::lexer::scan::{lemma_eof_is_final, lemma_scan_progress, token_at};
use crate::lexer::token::{Token, TokenView};
use crate::parser::ast::{
    Identifier, LetStatement, Program, ReturnStatement, Statement, StatementView,
};
use crate::parser::grammar::{
    advance, items, lemma_advance, lemma_advance_twice, lemma_statement, lemma_terminator,
    lemma_terminator_of_rest, let_statement, program, return_statement, statement, terminator,
    token_or_eof, well_terminated,
};
use crate::parser::parser_errors::{ParserError, ParserErrorView, ParserErrors};

verus! {

/// A parser over the tokens of a scanner. It holds the current token and
/// one token of lookahead, and the errors recorded so far.
pub struct Parser {
    lexer: Lexer,
    curr_tkn: Token,
    peek_tkn: Token,
    errors: ParserErrors,
}

impl Parser {
    /// The scanner is well formed, and the two tokens held came from it in
    /// order: after an `Eof` only `Eof` follows.
    pub closed spec fn wf(&self) -> bool {
        &&& self.lexer.wf()
        &&& self.curr_tkn@ is Eof ==> self.peek_tkn@ is Eof
        &&& self.peek_tkn@ is Eof ==> token_at(self.lexer.source(), self.lexer.position()) is Eof
    }

    /// The tokens that are still to be parsed, from the current token up to
    /// and including `Eof`.
    pub closed spec fn tokens(&self) -> Seq<TokenView> {
        if self.curr_tkn@ is Eof {
            seq![TokenView::Eof]
        } else if self.peek_tkn@ is Eof {
            seq![self.curr_tkn@, TokenView::Eof]
        } else {
            seq![self.curr_tkn@, self.peek_tkn@] + self.lexer.remaining()
        }
    }

    /// The errors recorded so far, in their order.
    pub closed spec fn recorded(&self) -> Seq<ParserErrorView> {
        self.errors@
    }

    /// The tokens still to be parsed end with the only `Eof` among them.
    pub proof fn lemma_tokens(&self)
        requires
            self.wf(),
        ensures
            well_terminated(self.tokens()),
    {
        self.lexer.lemma_remaining();
    }

    /// A parser at the start of the tokens of `lexer`, with no error
    /// recorded.
    pub fn new(lexer: Lexer) -> (parser: Parser)
        requires
            lexer.wf(),
        ensures
            parser.wf(),
            parser.tokens() == lexer.remaining(),
            parser.recorded() == Seq::<ParserErrorView>::empty(),
    {
        let mut lexer = lexer;
        let curr_tkn = lexer.next();
        let peek_tkn = lexer.next();
        Parser { lexer, curr_tkn, peek_tkn, errors: ParserErrors::default() }
    }

    /// The errors recorded so far.
    pub fn errors(&self) -> (errors: &ParserErrors)
        ensures
            errors@ == self.recorded(),
    {
        &self.errors
    }

    /// Moves one token forward: the lookahead becomes the current token, and
    /// a new lookahead is read. At `Eof` the parser stays.
    pub fn next(&mut self)
        requires
            old(self).wf(),
        ensures
            final(self).wf(),
            final(self).tokens() == advance(old(self).tokens(), 1),
            final(self).recorded() == old(self).recorded(),
    {
        self.curr_tkn = self.peek_tkn.clone();
        self.peek_tkn = self.lexer.next();
    }

    /// Parses to the end of the input. The program holds the statements
    /// that were recognized, in source order; what was found wrong with the
    /// others is added to the errors. The parser is left at `Eof`.
    pub fn parse_program(&mut self) -> (parsed: Program)
        requires
            old(self).wf(),
        ensures
            final(self).wf(),
            parsed@ == program(old(self).tokens()).statements,
            final(self).recorded() == old(self).recorded() + program(old(self).tokens()).errors,
            final(self).tokens() == seq![TokenView::Eof],
    {
        let mut parsed = Program::new(Vec::new());
        proof {
            self.lemma_tokens();
        }
        while self.curr_tkn != Token::Eof
            invariant
                self.wf(),
                well_terminated(self.tokens()),
                parsed@ + program(self.tokens()).statements == program(old(self).tokens()).statements,
                self.recorded() + program(self.tokens()).errors == old(self).recorded() + program(
                    old(self).tokens(),
                ).errors,
            decreases self.tokens().len(),
        {
            let ghost tokens = self.tokens();
            if let Some(found) = self.parse_statement() {
                parsed.statements.push(found);
            }
            self.next();
            proof {
                lemma_statement(tokens);
                lemma_advance_twice(tokens, statement(tokens).steps, 1);
                lemma_advance(tokens, statement(tokens).steps + 1);
            }
        }
        parsed
    }

    /// Parses the statement that starts with the current token, if one
    /// does: a declaration after `var` or `const`, a `return` after
    /// `return`.
    fn parse_statement(&mut self) -> (found: Option<Statement>)
        requires
            old(self).wf(),
        ensures
            final(self).wf(),
            found.deep_view() == statement(old(self).tokens()).statement,
            final(self).recorded() == old(self).recorded() + items(statement(old(self).tokens()).error),
            final(self).tokens() == advance(old(self).tokens(), statement(old(self).tokens()).steps),
    {
        proof {
            self.lemma_tokens();
        }
        match &self.curr_tkn {
            Token::Var | Token::Const => {
                let modifier = self.curr_tkn.clone();
                match self.parse_let_stmt(modifier) {
                    Some(found) => Some(Statement::Let(found)),
                    None => None,
                }
            },
            Token::Return => {
                match self.parse_return_stmt() {
                    Some(found) => Some(Statement::Return(found)),
                    None => None,
                }
            },
            _ => None,
        }
    }

    /// Parses a declaration whose `var` or `const` is the current token:
    /// an identifier, an `=`, then anything up to a semicolon. Where the
    /// name or the `=` is missing, the error is recorded and the parser
    /// stops at once; where the input ends before the semicolon, the error
    /// is recorded at `Eof`.
    fn parse_let_stmt(&mut self, modifier: Token) -> (found: Option<LetStatement>)
        requires
            old(self).wf(),
        ensures
            final(self).wf(),
            found.is_some() == let_statement(old(self).tokens(), modifier@).statement.is_some(),
            found matches Some(declared) ==> Some(StatementView::Let(declared@)) == let_statement(
                old(self).tokens(),
                modifier@,
            ).statement,
            final(self).recorded() == old(self).recorded() + items(
                let_statement(old(self).tokens(), modifier@).error,
            ),
            final(self).tokens() == advance(
                old(self).tokens(),
                let_statement(old(self).tokens(), modifier@).steps,
            ),
    {
        let ghost tokens = self.tokens();
        proof {
            self.lemma_tokens();
            lemma_advance(tokens, 1);
            lemma_advance(tokens, 2);
        }
        if !self.expect_peek(&Token::Ident(String::new())) {
            self.errors.push_err(ParserError::IdentifierExpected);
            return None;
        }
        assert(self.curr_tkn@ == token_or_eof(self.tokens(), 0));
        let name = match self.curr_tkn.clone() {
            Token::Ident(value) => Identifier::new(self.curr_tkn.clone(), value),
            _ => unreached(),
        };
        if !self.expect_peek(&Token::Assign) {
            self.errors.push_err(ParserError::PeekError(Token::Assign, self.peek_tkn.clone()));
            return None;
        }
        proof {
            lemma_advance_twice(tokens, 1, 1);
            assert(token_or_eof(self.tokens(), 0) == token_or_eof(tokens, 2));
            lemma_terminator_of_rest(tokens, 2, 0);
            lemma_terminator(tokens, 2);
            lemma_terminator(self.tokens(), 0);
            assert(token_or_eof(self.tokens(), terminator(self.tokens(), 0)) == token_or_eof(
                tokens,
                terminator(tokens, 2),
            ));
        }
        if self.skip_to_semicolon() {
            Some(LetStatement::new(modifier, name))
        } else {
            None
        }
    }

    /// Parses a `return` whose keyword is the current token: anything up to
    /// a semicolon. Where the input ends before the semicolon, the error is
    /// recorded at `Eof`.
    fn parse_return_stmt(&mut self) -> (found: Option<ReturnStatement>)
        requires
            old(self).wf(),
            !(old(self).tokens()[0] is Eof),
        ensures
            final(self).wf(),
            found.is_some() == return_statement(old(self).tokens()).statement.is_some(),
            found matches Some(returned) ==> Some(StatementView::Return(returned))
                == return_statement(old(self).tokens()).statement,
            final(self).recorded() == old(self).recorded() + items(
                return_statement(old(self).tokens()).error,
            ),
            final(self).tokens() == advance(old(self).tokens(), return_statement(old(self).tokens()).steps),
    {
        let ghost tokens = self.tokens();
        let stmt = ReturnStatement::new();
        self.next();
        proof {
            old(self).lemma_tokens();
            lemma_advance(tokens, 1);
            lemma_terminator_of_rest(tokens, 1, 0);
            lemma_terminator(tokens, 1);
            lemma_terminator(self.tokens(), 0);
            assert(token_or_eof(self.tokens(), terminator(self.tokens(), 0)) == token_or_eof(
                tokens,
                terminator(tokens, 1),
            ));
        }
        if self.skip_to_semicolon() {
            Some(stmt)
        } else {
            None
        }
    }

    /// Moves forward to the semicolon that ends the statement, and says
    /// whether there is one. Where the input ends first, the parser stops at
    /// `Eof` and records that a semicolon was expected.
    fn skip_to_semicolon(&mut self) -> (ended: bool)
        requires
            old(self).wf(),
        ensures
            final(self).wf(),
            ended == (old(self).tokens()[terminator(old(self).tokens(), 0)] is Semicolon),
            final(self).tokens() == advance(old(self).tokens(), terminator(old(self).tokens(), 0) as nat),
            final(self).recorded() == old(self).recorded() + if ended {
                Seq::<ParserErrorView>::empty()
            } else {
                seq![ParserErrorView::PeekError(TokenView::Semicolon, TokenView::Eof)]
            },
    {
        let ghost tokens = self.tokens();
        let ghost steps: nat = 0;
        proof {
            self.lemma_tokens();
            lemma_advance(tokens, 0);
            assert(advance(tokens, 0) =~= tokens);
            lemma_terminator(tokens, 0);
        }
        while !self.curr_tok_is(&Token::Semicolon)
            invariant
                self.wf(),
                well_terminated(tokens),
                tokens == old(self).tokens(),
                self.recorded() == old(self).recorded(),
                steps < tokens.len(),
                self.tokens() == advance(tokens, steps),
                terminator(tokens, steps as int) == terminator(tokens, 0),
            decreases tokens.len() - steps,
        {
            proof {
                lemma_advance(tokens, steps);
            }
            if self.curr_tok_is(&Token::Eof) {
                self.errors.push_err(ParserError::PeekError(Token::Semicolon, Token::Eof));
                return false;
            }
            self.next();
            proof {
                lemma_advance_twice(tokens, steps, 1);
                steps = steps + 1;
                lemma_advance(tokens, steps);
            }
        }
        proof {
            lemma_advance(tokens, steps);
            assert(self.recorded() + Seq::<ParserErrorView>::empty() =~= self.recorded());
        }
        true
    }

    /// Whether the current token matches `token`: by sort for identifiers
    /// and numeric literals, by equality otherwise.
    fn curr_tok_is(&self, token: &Token) -> (r: bool)
        requires
            self.wf(),
        ensures
            r == self.tokens()[0].same_kind(token@),
    {
        self.curr_tkn.same_kind(token)
    }

    /// Whether the lookahead matches `token`: by sort for identifiers and
    /// numeric literals, by equality otherwise.
    fn peek_tok_is(&self, token: &Token) -> (r: bool)
        requires
            self.wf(),
        ensures
            r == token_or_eof(self.tokens(), 1).same_kind(token@),
    {
        self.peek_tkn.same_kind(token)
    }

    /// Moves one token forward if the lookahead matches `token`, and says
    /// whether it did. Otherwise the parser stays.
    fn expect_peek(&mut self, token: &Token) -> (r: bool)
        requires
            old(self).wf(),
        ensures
            final(self).wf(),
            r == token_or_eof(old(self).tokens(), 1).same_kind(token@),
            final(self).tokens() == if r {
                advance(old(self).tokens(), 1)
            } else {
                old(self).tokens()
            },
            final(self).recorded() == old(self).recorded(),
    {
        if self.peek_tok_is(token) {
            self.next();
            true
        } else {
            false
        }
    }
}

} // verus!
