//! The grammar of statements, stated over a stream of tokens: what one
//! statement yields, how far it reads, and what a whole program yields.

use vstd::prelude::*;

use crate::lexer::token::TokenView;
use crate::parser::ast::{
    Expression, IdentifierView, LetStatementView, ReturnStatement, StatementView,
};
use crate::parser::parser_errors::ParserErrorView;

verus! {

/// A stream of tokens as a scan yields it: it ends with `Eof` and holds no
/// other `Eof`.
pub open spec fn well_terminated(tokens: Seq<TokenView>) -> bool {
    &&& tokens.len() >= 1
    &&& tokens.last() is Eof
    &&& forall|i: int| 0 <= i < tokens.len() - 1 ==> !(#[trigger] tokens[i] is Eof)
}

/// The token at index `i`, or `Eof` past the end of the stream.
pub open spec fn token_or_eof(tokens: Seq<TokenView>, i: int) -> TokenView {
    if 0 <= i < tokens.len() {
        tokens[i]
    } else {
        TokenView::Eof
    }
}

/// The tokens that are left after `steps` steps forward. The last token of
/// a stream, its `Eof`, is never passed.
pub open spec fn advance(tokens: Seq<TokenView>, steps: nat) -> Seq<TokenView> {
    if steps < tokens.len() {
        tokens.skip(steps as int)
    } else if tokens.len() > 0 {
        tokens.skip(tokens.len() - 1)
    } else {
        tokens
    }
}

/// The index of the token that ends a statement read from index `from` on:
/// the first semicolon or `Eof` there, and at most the last index.
pub open spec fn terminator(tokens: Seq<TokenView>, from: int) -> int
    decreases tokens.len() - from,
{
    if 0 <= from < tokens.len() - 1 && !(tokens[from] is Semicolon) && !(tokens[from] is Eof) {
        terminator(tokens, from + 1)
    } else {
        from
    }
}

/// What the parser makes of one statement: the statement, if one was
/// recognized; the error, if one was recorded; and the number of steps that
/// it moved forward from the token that the statement starts with.
pub struct Outcome {
    pub statement: Option<StatementView>,
    pub error: Option<ParserErrorView>,
    pub steps: nat,
}

/// What is left of a statement once its head is read: everything up to the
/// terminator is passed over, the statement stands if a semicolon ends it,
/// and an input that ends before is an error.
pub open spec fn finish(tokens: Seq<TokenView>, from: int, statement: StatementView) -> Outcome {
    let end = terminator(tokens, from);
    if token_or_eof(tokens, end) is Semicolon {
        Outcome { statement: Some(statement), error: None, steps: end as nat }
    } else {
        Outcome {
            statement: None,
            error: Some(ParserErrorView::PeekError(TokenView::Semicolon, token_or_eof(tokens, end))),
            steps: end as nat,
        }
    }
}

/// A declaration that starts at the head of `tokens`, under `modifier`:
/// an identifier, an `=`, then anything up to a semicolon.
pub open spec fn let_statement(tokens: Seq<TokenView>, modifier: TokenView) -> Outcome {
    let name = token_or_eof(tokens, 1);
    let assign = token_or_eof(tokens, 2);
    if !(name is Ident) {
        Outcome { statement: None, error: Some(ParserErrorView::IdentifierExpected), steps: 0 }
    } else if assign != TokenView::Assign {
        Outcome {
            statement: None,
            error: Some(ParserErrorView::PeekError(TokenView::Assign, assign)),
            steps: 1,
        }
    } else {
        finish(
            tokens,
            2,
            StatementView::Let(
                LetStatementView {
                    modifier,
                    name: IdentifierView { token: name, value: name->Ident_0 },
                    value: Expression::Blank,
                },
            ),
        )
    }
}

/// A `return` that starts at the head of `tokens`: anything up to a
/// semicolon.
pub open spec fn return_statement(tokens: Seq<TokenView>) -> Outcome {
    finish(tokens, 1, StatementView::Return(ReturnStatement { return_value: Expression::Blank }))
}

/// The statement that starts at the head of `tokens`: a declaration after
/// `var` or `const`, a `return` after `return`, and nothing after any other
/// token.
pub open spec fn statement(tokens: Seq<TokenView>) -> Outcome {
    let head = token_or_eof(tokens, 0);
    if head is Var || head is Const {
        let_statement(tokens, head)
    } else if head is Return {
        return_statement(tokens)
    } else {
        Outcome { statement: None, error: None, steps: 0 }
    }
}

/// What a parse yields: the statements that were recognized, in source
/// order, and the errors that were recorded, in their order.
pub struct Parsed {
    pub statements: Seq<StatementView>,
    pub errors: Seq<ParserErrorView>,
}

/// The sequence of what `item` holds: one item or none.
pub open spec fn items<T>(item: Option<T>) -> Seq<T> {
    match item {
        Some(value) => seq![value],
        None => Seq::empty(),
    }
}

/// What parsing `tokens` to the end yields. From each token that is not
/// `Eof` one statement is tried, and the parse goes on one token after the
/// place where that statement stopped.
pub open spec fn program(tokens: Seq<TokenView>) -> Parsed
    decreases tokens.len(),
{
    if tokens.len() <= 1 || tokens[0] is Eof {
        Parsed { statements: Seq::empty(), errors: Seq::empty() }
    } else {
        let first = statement(tokens);
        let rest = program(advance(tokens, first.steps + 1));
        Parsed {
            statements: items(first.statement) + rest.statements,
            errors: items(first.error) + rest.errors,
        }
    }
}

/// The terminator of a statement lies at or after the place from which it
/// is sought, no semicolon and no `Eof` stands before it, and in a stream
/// that a scan yields it is a semicolon or the `Eof`.
pub proof fn lemma_terminator(tokens: Seq<TokenView>, from: int)
    requires
        0 <= from < tokens.len(),
    ensures
        from <= terminator(tokens, from) < tokens.len(),
        forall|i: int|
            from <= i < terminator(tokens, from) ==> !(#[trigger] tokens[i] is Semicolon) && !(tokens[i]
                is Eof),
        well_terminated(tokens) ==> tokens[terminator(tokens, from)] is Semicolon || tokens[terminator(
            tokens,
            from,
        )] is Eof,
    decreases tokens.len() - from,
{
    if from < tokens.len() - 1 && !(tokens[from] is Semicolon) && !(tokens[from] is Eof) {
        lemma_terminator(tokens, from + 1);
    }
}

/// What is left of a stream that a scan yields is again such a stream, and
/// it is shorter by the steps made, as far as `Eof` is not reached.
pub proof fn lemma_advance(tokens: Seq<TokenView>, steps: nat)
    requires
        well_terminated(tokens),
    ensures
        well_terminated(advance(tokens, steps)),
        steps < tokens.len() ==> advance(tokens, steps).len() == tokens.len() - steps,
        steps >= tokens.len() - 1 ==> advance(tokens, steps) == seq![TokenView::Eof],
        forall|i: int| 0 <= i ==> token_or_eof(advance(tokens, steps), i) == token_or_eof(tokens, steps + i),
{
    let left = advance(tokens, steps);
    if steps >= tokens.len() - 1 {
        assert(left =~= seq![TokenView::Eof]);
    }
    assert forall|i: int| 0 <= i implies token_or_eof(left, i) == token_or_eof(tokens, steps + i) by {
        if steps + i >= tokens.len() {
            if i < left.len() {
                assert(left[i] is Eof);
            }
        }
    }
}

/// Steps forward add up.
pub proof fn lemma_advance_twice(tokens: Seq<TokenView>, first: nat, second: nat)
    requires
        well_terminated(tokens),
    ensures
        advance(advance(tokens, first), second) == advance(tokens, first + second),
{
    lemma_advance(tokens, first);
    assert(advance(advance(tokens, first), second) =~= advance(tokens, first + second));
}

/// The terminator of what is left of a stream is the terminator of the
/// stream, counted from where the rest begins.
pub proof fn lemma_terminator_of_rest(tokens: Seq<TokenView>, steps: nat, from: int)
    requires
        well_terminated(tokens),
        0 <= from,
        steps + from < tokens.len(),
    ensures
        terminator(advance(tokens, steps), from) + steps == terminator(tokens, steps + from),
    decreases tokens.len() - from - steps,
{
    let left = advance(tokens, steps);
    assert(left.len() == tokens.len() - steps);
    assert(left[from] == tokens[steps + from]);
    if from < left.len() - 1 && !(left[from] is Semicolon) && !(left[from] is Eof) {
        lemma_terminator_of_rest(tokens, steps, from + 1);
    }
}

/// One statement yields a statement or an error or neither, never both; and
/// in a stream that a scan yields it never reads past the `Eof`.
pub proof fn lemma_statement(tokens: Seq<TokenView>)
    requires
        well_terminated(tokens),
    ensures
        statement(tokens).statement is None || statement(tokens).error is None,
        statement(tokens).steps <= tokens.len() - 1,
        statement(tokens).statement matches Some(found) ==> found.wf(),
        statement(tokens).statement is Some ==> token_or_eof(tokens, statement(tokens).steps as int)
            is Semicolon,
{
    let head = token_or_eof(tokens, 0);
    if head is Var || head is Const {
        if token_or_eof(tokens, 1) is Ident && token_or_eof(tokens, 2) == TokenView::Assign {
            lemma_terminator(tokens, 2);
        }
    } else if head is Return {
        lemma_terminator(tokens, 1);
    }
}

/// Parsing a stream that a scan yields gives well-formed statements only,
/// and for each token before the `Eof` at most one statement or error.
pub proof fn lemma_program(tokens: Seq<TokenView>)
    requires
        well_terminated(tokens),
    ensures
        forall|i: int|
            0 <= i < program(tokens).statements.len() ==> (#[trigger] program(tokens).statements[i]).wf(),
        program(tokens).statements.len() + program(tokens).errors.len() <= tokens.len() - 1,
    decreases tokens.len(),
{
    if tokens.len() > 1 && !(tokens[0] is Eof) {
        let first = statement(tokens);
        lemma_statement(tokens);
        lemma_advance(tokens, first.steps + 1);
        lemma_program(advance(tokens, first.steps + 1));
    }
}

} // verus!
