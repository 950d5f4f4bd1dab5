//! The errors that the parser records, and the list in which it keeps them.

use vstd::prelude::*;
use vstd::string::StringExecFns;

use crate::lexer::token::{Token, TokenView};

verus! {

/// What the parser found wrong with a statement.
#[derive(Debug)]
pub enum ParserError {
    /// The name of a declaration was not an identifier.
    IdentifierExpected,
    /// A token that the grammar requires was not found: the token that was
    /// expected, then the token that stood in its place. An input that ends
    /// before the semicolon of a statement is reported as
    /// `PeekError(Semicolon, Eof)`.
    PeekError(Token, Token),
}

/// What a [`ParserError`] stands for in contracts.
pub enum ParserErrorView {
    IdentifierExpected,
    PeekError(TokenView, TokenView),
}

/// The errors of a parse, in the order in which they were recorded. Errors
/// are only ever added.
#[derive(Debug)]
pub struct ParserErrors {
    pub errors: Vec<ParserError>,
}

impl View for ParserError {
    type V = ParserErrorView;

    open spec fn view(&self) -> ParserErrorView {
        match self {
            ParserError::IdentifierExpected => ParserErrorView::IdentifierExpected,
            ParserError::PeekError(expected, actual) => ParserErrorView::PeekError(expected@, actual@),
        }
    }
}

impl DeepView for ParserError {
    type V = ParserErrorView;

    open spec fn deep_view(&self) -> ParserErrorView {
        self@
    }
}

impl View for ParserErrors {
    type V = Seq<ParserErrorView>;

    open spec fn view(&self) -> Seq<ParserErrorView> {
        self.errors.deep_view()
    }
}

impl ParserErrorView {
    /// The message of an error.
    pub open spec fn message(self) -> Seq<char> {
        match self {
            ParserErrorView::IdentifierExpected => "Identifier expected"@,
            ParserErrorView::PeekError(expected, actual) => "Expected: "@ + expected.label() + ", Got: "@
                + actual.label() + " instead"@,
        }
    }
}

impl ParserError {
    /// The message of this error.
    pub fn to_string(&self) -> (text: String)
        ensures
            text@ == self@.message(),
    {
        match self {
            ParserError::IdentifierExpected => String::from_str("Identifier expected"),
            ParserError::PeekError(expected, actual) => {
                let expected = expected.to_string();
                let actual = actual.to_string();
                String::from_str("Expected: ").concat(expected.as_str()).concat(", Got: ").concat(
                    actual.as_str(),
                ).concat(" instead")
            },
        }
    }
}

/// The lines of a report: each error's message after a tab, followed by a
/// line feed.
pub open spec fn report_lines(errors: Seq<ParserErrorView>) -> Seq<char>
    decreases errors.len(),
{
    if errors.len() == 0 {
        Seq::empty()
    } else {
        report_lines(errors.drop_last()) + "\t"@ + errors.last().message() + "\n"@
    }
}

/// The report of a list of errors: a heading, then one line for each error.
pub open spec fn report(errors: Seq<ParserErrorView>) -> Seq<char> {
    "Parser errors:\n"@ + report_lines(errors)
}

impl ParserErrors {
    /// An empty list.
    pub fn new() -> (list: ParserErrors)
        ensures
            list@ == Seq::<ParserErrorView>::empty(),
    {
        ParserErrors { errors: Vec::new() }
    }

    /// Adds `err` at the end of the list.
    pub fn push_err(&mut self, err: ParserError)
        ensures
            final(self)@ == old(self)@.push(err@),
    {
        self.errors.push(err);
    }

    /// Adds `errors` at the end of the list, in their order.
    pub fn append_errs(&mut self, errors: Vec<ParserError>)
        ensures
            final(self)@ == old(self)@ + errors.deep_view(),
    {
        let mut errors = errors;
        self.errors.append(&mut errors);
    }

    /// The number of errors in the list.
    pub fn len(&self) -> (n: usize)
        ensures
            n == self@.len(),
    {
        self.errors.len()
    }

    /// The report of this list: a heading, then one line for each error.
    pub fn to_string(&self) -> (text: String)
        ensures
            text@ == report(self@),
    {
        let mut text = String::from_str("Parser errors:\n");
        let mut i: usize = 0;
        while i < self.errors.len()
            invariant
                i <= self.errors.len(),
                text@ == report(self@.take(i as int)),
            decreases self.errors.len() - i,
        {
            let message = self.errors[i].to_string();
            text.append("\t");
            text.append(message.as_str());
            text.append("\n");
            proof {
                let done = self@.take(i + 1);
                assert(done.drop_last() =~= self@.take(i as int));
            }
            i += 1;
        }
        assert(self@.take(i as int) =~= self@);
        text
    }
}

impl Default for ParserErrors {
    fn default() -> (list: ParserErrors)
        ensures
            list@ == Seq::<ParserErrorView>::empty(),
    {
        ParserErrors::new()
    }
}

} // verus!
