//! The syntax tree: a program is a list of statements in source order.

use vstd::prelude::*;
use vstd::std_specs::cmp::PartialEqSpecImpl;
use vstd::string::StringExecFns;

use crate::lexer::token::{Token, TokenView};

verus! {

/// The root of the tree: the statements of a program, in source order.
#[derive(Debug)]
pub struct Program {
    pub statements: Vec<Statement>,
}

/// A statement.
#[derive(Debug)]
pub enum Statement {
    Let(LetStatement),
    Return(ReturnStatement),
    Expression(Expression),
}

/// A declaration: `var` or `const`, the name that is bound, and the value
/// that it is bound to.
#[derive(Debug)]
pub struct LetStatement {
    pub modifier: Token,
    pub name: Identifier,
    pub value: Expression,
}

/// A `return` with the value that is returned.
#[derive(Debug, PartialEq, Eq, Structural)]
pub struct ReturnStatement {
    pub return_value: Expression,
}

/// An expression. Expressions are not parsed yet, and `Blank` stands for
/// every one of them.
#[derive(Debug, PartialEq, Eq, Structural)]
pub enum Expression {
    Blank,
}

/// A name, with the token that it was read from.
#[derive(Debug)]
pub struct Identifier {
    pub token: Token,
    pub value: String,
}

/// What an [`Identifier`] stands for in contracts.
pub struct IdentifierView {
    pub token: TokenView,
    pub value: Seq<char>,
}

/// What a [`LetStatement`] stands for in contracts.
pub struct LetStatementView {
    pub modifier: TokenView,
    pub name: IdentifierView,
    pub value: Expression,
}

/// What a [`Statement`] stands for in contracts.
pub enum StatementView {
    Let(LetStatementView),
    Return(ReturnStatement),
    Expression(Expression),
}

impl View for Identifier {
    type V = IdentifierView;

    open spec fn view(&self) -> IdentifierView {
        IdentifierView { token: self.token@, value: self.value@ }
    }
}

impl View for LetStatement {
    type V = LetStatementView;

    open spec fn view(&self) -> LetStatementView {
        LetStatementView { modifier: self.modifier@, name: self.name@, value: self.value }
    }
}

impl View for Statement {
    type V = StatementView;

    open spec fn view(&self) -> StatementView {
        match self {
            Statement::Let(statement) => StatementView::Let(statement@),
            Statement::Return(statement) => StatementView::Return(*statement),
            Statement::Expression(expression) => StatementView::Expression(*expression),
        }
    }
}

impl DeepView for Statement {
    type V = StatementView;

    open spec fn deep_view(&self) -> StatementView {
        self@
    }
}

impl View for Program {
    type V = Seq<StatementView>;

    open spec fn view(&self) -> Seq<StatementView> {
        self.statements.deep_view()
    }
}

impl Expression {
    /// The text under which an expression is shown.
    pub open spec fn label(self) -> Seq<char> {
        "Expression"@
    }

    /// The text under which this expression is shown.
    pub fn to_string(&self) -> (text: String)
        ensures
            text@ == self.label(),
    {
        String::from_str("Expression")
    }
}

impl IdentifierView {
    /// An identifier is well formed when its token is the identifier token
    /// of its name.
    pub open spec fn wf(self) -> bool {
        self.token == TokenView::Ident(self.value)
    }

    /// Two identifiers are equal when their names are equal. The tokens
    /// that they were read from are not compared.
    pub open spec fn equals(self, other: IdentifierView) -> bool {
        self.value == other.value
    }

    /// The text under which an identifier is shown: its name.
    pub open spec fn label(self) -> Seq<char> {
        self.value
    }
}

impl Identifier {
    /// The identifier `value`, read from `token`.
    pub fn new(token: Token, value: String) -> (identifier: Identifier)
        ensures
            identifier.token == token,
            identifier.value == value,
    {
        Identifier { token, value }
    }

    /// The text under which this identifier is shown: its name.
    pub fn to_string(&self) -> (text: String)
        ensures
            text@ == self@.label(),
    {
        self.value.clone()
    }
}

impl PartialEq for Identifier {
    fn eq(&self, other: &Identifier) -> (r: bool) {
        self.value == other.value
    }
}

impl PartialEqSpecImpl for Identifier {
    open spec fn obeys_eq_spec() -> bool {
        true
    }

    open spec fn eq_spec(&self, other: &Identifier) -> bool {
        self@.equals(other@)
    }
}

impl LetStatementView {
    /// A declaration is well formed when its modifier is `var` or `const`
    /// and its name is well formed.
    pub open spec fn wf(self) -> bool {
        &&& self.modifier is Var || self.modifier is Const
        &&& self.name.wf()
    }

    /// Two declarations are equal when they bind equal names to equal
    /// values. The modifiers are not compared.
    pub open spec fn equals(self, other: LetStatementView) -> bool {
        self.name.equals(other.name) && self.value == other.value
    }

    /// The text under which a declaration is shown.
    pub open spec fn label(self) -> Seq<char> {
        self.modifier.label() + " "@ + self.name.label() + " = "@ + self.value.label() + ";"@
    }
}

impl LetStatement {
    /// The declaration of `name` under `modifier`. Its value is blank.
    pub fn new(modifier: Token, name: Identifier) -> (statement: LetStatement)
        ensures
            statement.modifier == modifier,
            statement.name == name,
            statement.value == Expression::Blank,
    {
        LetStatement { modifier, name, value: Expression::Blank }
    }

    /// The text under which this declaration is shown.
    pub fn to_string(&self) -> (text: String)
        ensures
            text@ == self@.label(),
    {
        let modifier = self.modifier.to_string();
        let name = self.name.to_string();
        let value = self.value.to_string();
        modifier.concat(" ").concat(name.as_str()).concat(" = ").concat(value.as_str()).concat(";")
    }
}

impl PartialEq for LetStatement {
    fn eq(&self, other: &LetStatement) -> (r: bool) {
        self.name == other.name && self.value == other.value
    }
}

impl PartialEqSpecImpl for LetStatement {
    open spec fn obeys_eq_spec() -> bool {
        true
    }

    open spec fn eq_spec(&self, other: &LetStatement) -> bool {
        self@.equals(other@)
    }
}

impl ReturnStatement {
    /// A `return` of a blank value.
    pub fn new() -> (statement: ReturnStatement)
        ensures
            statement.return_value == Expression::Blank,
    {
        ReturnStatement { return_value: Expression::Blank }
    }

    /// The text under which a `return` is shown.
    pub open spec fn label(self) -> Seq<char> {
        "return "@ + self.return_value.label() + ";"@
    }

    /// The text under which this `return` is shown.
    pub fn to_string(&self) -> (text: String)
        ensures
            text@ == self.label(),
    {
        let value = self.return_value.to_string();
        String::from_str("return ").concat(value.as_str()).concat(";")
    }
}

impl StatementView {
    /// A statement is well formed when it is no declaration or a well-formed
    /// one.
    pub open spec fn wf(self) -> bool {
        self matches StatementView::Let(statement) ==> statement.wf()
    }

    /// Two statements are equal when they are of the same sort and their
    /// contents are equal.
    pub open spec fn equals(self, other: StatementView) -> bool {
        match (self, other) {
            (StatementView::Let(a), StatementView::Let(b)) => a.equals(b),
            (StatementView::Return(a), StatementView::Return(b)) => a == b,
            (StatementView::Expression(a), StatementView::Expression(b)) => a == b,
            _ => false,
        }
    }

    /// The text under which a statement is shown.
    pub open spec fn label(self) -> Seq<char> {
        match self {
            StatementView::Let(statement) => statement.label(),
            StatementView::Return(statement) => statement.label(),
            StatementView::Expression(expression) => expression.label(),
        }
    }
}

impl Statement {
    /// The text under which this statement is shown.
    pub fn to_string(&self) -> (text: String)
        ensures
            text@ == self@.label(),
    {
        match self {
            Statement::Let(statement) => statement.to_string(),
            Statement::Return(statement) => statement.to_string(),
            Statement::Expression(expression) => expression.to_string(),
        }
    }
}

impl PartialEq for Statement {
    fn eq(&self, other: &Statement) -> (r: bool) {
        match (self, other) {
            (Statement::Let(a), Statement::Let(b)) => *a == *b,
            (Statement::Return(a), Statement::Return(b)) => *a == *b,
            (Statement::Expression(a), Statement::Expression(b)) => *a == *b,
            _ => false,
        }
    }
}

impl PartialEqSpecImpl for Statement {
    open spec fn obeys_eq_spec() -> bool {
        true
    }

    open spec fn eq_spec(&self, other: &Statement) -> bool {
        self@.equals(other@)
    }
}

/// The listing of a program: each statement as it is shown, followed by a
/// line feed.
pub open spec fn listing(statements: Seq<StatementView>) -> Seq<char>
    decreases statements.len(),
{
    if statements.len() == 0 {
        Seq::empty()
    } else {
        listing(statements.drop_last()) + statements.last().label() + "\n"@
    }
}

impl Program {
    /// The program made of `statements`.
    pub fn new(statements: Vec<Statement>) -> (program: Program)
        ensures
            program.statements == statements,
    {
        Program { statements }
    }

    /// The listing of this program, one statement to a line.
    pub fn to_string(&self) -> (text: String)
        ensures
            text@ == listing(self@),
    {
        let mut text = String::new();
        let mut i: usize = 0;
        while i < self.statements.len()
            invariant
                i <= self.statements.len(),
                text@ == listing(self@.take(i as int)),
            decreases self.statements.len() - i,
        {
            let line = self.statements[i].to_string();
            text.append(line.as_str());
            text.append("\n");
            proof {
                let done = self@.take(i + 1);
                assert(done.drop_last() =~= self@.take(i as int));
            }
            i += 1;
        }
        assert(self@.take(i as int) =~= self@);
        text
    }
}

} // verus!
