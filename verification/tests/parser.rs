use compiler::lexer::{Lexer, Token};
use compiler::parser::ast;
use compiler::parser::parser_errors::{ParserError, ParserErrors};
use compiler::parser::Parser;

fn parse(input: &str) -> (ast::Program, Parser) {
    let lexer = Lexer::new(input.to_string());
    let mut parser = Parser::new(lexer);
    let program = parser.parse_program();
    (program, parser)
}

fn name(text: &str) -> ast::Identifier {
    ast::Identifier::new(Token::Ident(String::from(text)), String::from(text))
}

fn modifier_and_name(statement: &ast::Statement) -> (Token, String) {
    match statement {
        ast::Statement::Let(declared) => (declared.modifier.clone(), declared.name.value.clone()),
        _ => panic!("not a declaration"),
    }
}

#[test]
fn parse_let_statements_test() {
    let input = "\n        const x = 7;\n        var y = 5.4;\n        ";
    let lexer = Lexer::new(input.to_string());
    let mut parser = Parser::new(lexer);

    let program = parser.parse_program();

    {
        let program = program.to_string();
        println!("{program}");
    }

    assert_eq!(parser.errors().len(), 0);

    if program.statements.len() != 2 {
        panic!("Incorrect number of statements");
    }

    let statements: Vec<ast::Statement> = vec![
        ast::Statement::Let(ast::LetStatement::new(Token::Const, ast::Identifier::new(Token::Ident(String::from("x")), String::from("x")))),
        ast::Statement::Let(ast::LetStatement::new(Token::Var, ast::Identifier::new(Token::Ident(String::from("y")), String::from("y")))),
    ];

    let mut i: usize = 0;
    for statement in statements {
        let got = program.statements.get(i);
        i += 1;

        assert_eq!(&statement, got.unwrap());
    }
}

#[test]
fn parse_return_statements_test() {
    let input = "\n        return 5;\n        return true;\n        ";
    let lexer = Lexer::new(input.to_string());
    let mut parser = Parser::new(lexer);

    let program = parser.parse_program();

    {
        let program = program.to_string();
        println!("{program}");
    }

    assert_eq!(parser.errors().len(), 0);

    if program.statements.len() != 2 {
        panic!("Incorrect number of statements");
    }

    let statements: Vec<ast::Statement> = vec![
        ast::Statement::Return(ast::ReturnStatement::new()),
        ast::Statement::Return(ast::ReturnStatement::new()),
    ];

    let mut i: usize = 0;
    for statement in statements {
        let got = program.statements.get(i);
        i += 1;

        assert_eq!(&statement, got.unwrap());
    }
}

#[test]
fn two_declarations_keep_modifier_and_name() {
    let (program, parser) = parse("const x = 5; var y = 5.4;");
    assert_eq!(parser.errors().len(), 0);
    assert_eq!(program.statements.len(), 2);
    assert_eq!(modifier_and_name(&program.statements[0]), (Token::Const, String::from("x")));
    assert_eq!(modifier_and_name(&program.statements[1]), (Token::Var, String::from("y")));
    match &program.statements[0] {
        ast::Statement::Let(declared) => {
            assert_eq!(declared.name.token, Token::Ident(String::from("x")));
            assert_eq!(declared.value, ast::Expression::Blank);
        },
        _ => panic!("not a declaration"),
    }
}

#[test]
fn missing_assign_is_recorded_once() {
    let (program, parser) = parse("const x 5;");
    assert_eq!(program.statements.len(), 0);
    assert_eq!(parser.errors().len(), 1);
    match &parser.errors().errors[0] {
        ParserError::PeekError(expected, actual) => {
            assert_eq!(*expected, Token::Assign);
            assert_eq!(*actual, Token::Int(String::from("5")));
        },
        _ => panic!("not a peek error"),
    }
}

#[test]
fn statements_after_an_error_still_parse() {
    let (program, parser) = parse("const x 5; var y = 1; return y; const = 2; var z = 3;");
    assert_eq!(parser.errors().len(), 2);
    assert!(matches!(parser.errors().errors[0], ParserError::PeekError(Token::Assign, Token::Int(_))));
    assert!(matches!(parser.errors().errors[1], ParserError::IdentifierExpected));
    assert_eq!(program.statements.len(), 3);
    assert_eq!(modifier_and_name(&program.statements[0]), (Token::Var, String::from("y")));
    assert_eq!(program.statements[1], ast::Statement::Return(ast::ReturnStatement::new()));
    assert_eq!(modifier_and_name(&program.statements[2]), (Token::Var, String::from("z")));
}

#[test]
fn name_that_is_no_identifier_is_recorded() {
    let (program, parser) = parse("var 5 = 1;");
    assert_eq!(program.statements.len(), 0);
    assert_eq!(parser.errors().len(), 1);
    assert!(matches!(parser.errors().errors[0], ParserError::IdentifierExpected));

    let (program, parser) = parse("const fn = 1;");
    assert_eq!(program.statements.len(), 0);
    assert_eq!(parser.errors().len(), 1);
    assert!(matches!(parser.errors().errors[0], ParserError::IdentifierExpected));
}

#[test]
fn input_that_ends_before_the_semicolon_is_an_error() {
    for input in ["const x = 5", "var y =", "return 5", "return", "return a + b"] {
        let (program, parser) = parse(input);
        assert_eq!(program.statements.len(), 0);
        assert_eq!(parser.errors().len(), 1);
        match &parser.errors().errors[0] {
            ParserError::PeekError(expected, actual) => {
                assert_eq!(*expected, Token::Semicolon);
                assert_eq!(*actual, Token::Eof);
            },
            _ => panic!("not a peek error"),
        }
    }
    let (program, parser) = parse("var a = 1; return 2; const b = 3");
    assert_eq!(program.statements.len(), 2);
    assert_eq!(parser.errors().len(), 1);
}

#[test]
fn declaration_that_ends_early() {
    let (program, parser) = parse("var");
    assert_eq!(program.statements.len(), 0);
    assert_eq!(parser.errors().len(), 1);
    assert!(matches!(parser.errors().errors[0], ParserError::IdentifierExpected));

    let (program, parser) = parse("var x");
    assert_eq!(program.statements.len(), 0);
    assert_eq!(parser.errors().len(), 1);
    assert!(matches!(parser.errors().errors[0], ParserError::PeekError(Token::Assign, Token::Eof)));
}

#[test]
fn other_tokens_are_skipped_without_an_error() {
    let (program, parser) = parse("x = y; @ # 5 + 3; if (a) { b }");
    assert_eq!(program.statements.len(), 0);
    assert_eq!(parser.errors().len(), 0);

    let (program, parser) = parse("");
    assert_eq!(program.statements.len(), 0);
    assert_eq!(parser.errors().len(), 0);
}

#[test]
fn everything_up_to_the_semicolon_belongs_to_the_statement() {
    let (program, parser) = parse("const x = var y = return 1; return const z = 2;");
    assert_eq!(parser.errors().len(), 0);
    assert_eq!(program.statements.len(), 2);
    assert_eq!(modifier_and_name(&program.statements[0]), (Token::Const, String::from("x")));
    assert_eq!(program.statements[1], ast::Statement::Return(ast::ReturnStatement::new()));
}

#[test]
fn type_annotation_is_not_part_of_the_grammar() {
    let (program, parser) = parse("const x: i32 = 5;");
    assert_eq!(program.statements.len(), 0);
    assert_eq!(parser.errors().len(), 1);
    assert!(matches!(parser.errors().errors[0], ParserError::PeekError(Token::Assign, Token::Colon)));
}

#[test]
fn parser_steps_one_token_at_a_time() {
    let mut parser = Parser::new(Lexer::new(String::from("return 1;")));
    parser.next();
    parser.next();
    parser.next();
    parser.next();
    parser.next();
    let program = parser.parse_program();
    assert_eq!(program.statements.len(), 0);
    assert_eq!(parser.errors().len(), 0);

    let mut parser = Parser::new(Lexer::new(String::from("x return 1;")));
    parser.next();
    let program = parser.parse_program();
    assert_eq!(program.statements.len(), 1);
}

#[test]
fn parsing_twice_adds_nothing() {
    let mut parser = Parser::new(Lexer::new(String::from("var x 1; return 2;")));
    let first = parser.parse_program();
    assert_eq!(first.statements.len(), 1);
    assert_eq!(parser.errors().len(), 1);
    let second = parser.parse_program();
    assert_eq!(second.statements.len(), 0);
    assert_eq!(parser.errors().len(), 1);
}

#[test]
fn listing_of_a_program() {
    let (program, _) = parse("const x = 7; return x; var y = 5.4;");
    assert_eq!(
        program.to_string(),
        "const x = Expression;\nreturn Expression;\nvar y = Expression;\n"
    );
    assert_eq!(ast::Program::new(Vec::new()).to_string(), "");
    assert_eq!(ast::Expression::Blank.to_string(), "Expression");
    assert_eq!(name("total").to_string(), "total");
    assert_eq!(ast::ReturnStatement::new().to_string(), "return Expression;");
    assert_eq!(
        ast::LetStatement::new(Token::Var, name("v")).to_string(),
        "var v = Expression;"
    );
    assert_eq!(
        ast::Statement::Expression(ast::Expression::Blank).to_string(),
        "Expression"
    );
}

#[test]
fn equality_of_tree_nodes() {
    assert_eq!(name("x"), name("x"));
    assert_ne!(name("x"), name("y"));
    assert_eq!(name("x"), ast::Identifier::new(Token::Var, String::from("x")));
    assert_eq!(
        ast::LetStatement::new(Token::Const, name("x")),
        ast::LetStatement::new(Token::Var, name("x"))
    );
    assert_ne!(
        ast::LetStatement::new(Token::Const, name("x")),
        ast::LetStatement::new(Token::Const, name("y"))
    );
    assert_eq!(ast::ReturnStatement::new(), ast::ReturnStatement::new());
    assert_ne!(
        ast::Statement::Return(ast::ReturnStatement::new()),
        ast::Statement::Expression(ast::Expression::Blank)
    );
    assert_ne!(
        ast::Statement::Let(ast::LetStatement::new(Token::Var, name("x"))),
        ast::Statement::Return(ast::ReturnStatement::new())
    );
    assert_eq!(
        ast::Statement::Expression(ast::Expression::Blank),
        ast::Statement::Expression(ast::Expression::Blank)
    );
}

#[test]
fn constructors_keep_their_arguments() {
    let identifier = ast::Identifier::new(Token::Ident(String::from("n")), String::from("n"));
    assert_eq!(identifier.token, Token::Ident(String::from("n")));
    assert_eq!(identifier.value, "n");
    let declared = ast::LetStatement::new(Token::Const, identifier);
    assert_eq!(declared.modifier, Token::Const);
    assert_eq!(declared.name.value, "n");
    assert_eq!(declared.value, ast::Expression::Blank);
    assert_eq!(ast::ReturnStatement::new().return_value, ast::Expression::Blank);
    let program = ast::Program::new(vec![ast::Statement::Return(ast::ReturnStatement::new())]);
    assert_eq!(program.statements.len(), 1);
}

#[test]
fn error_list_grows_in_order() {
    let mut list = ParserErrors::new();
    assert_eq!(list.len(), 0);
    assert_eq!(list.to_string(), "Parser errors:\n");
    list.push_err(ParserError::IdentifierExpected);
    assert_eq!(list.len(), 1);
    list.append_errs(vec![
        ParserError::PeekError(Token::Assign, Token::Int(String::from("5"))),
        ParserError::PeekError(Token::Semicolon, Token::Eof),
    ]);
    assert_eq!(list.len(), 3);
    list.append_errs(Vec::new());
    assert_eq!(list.len(), 3);
    assert!(matches!(list.errors[0], ParserError::IdentifierExpected));
    assert!(matches!(list.errors[1], ParserError::PeekError(Token::Assign, Token::Int(_))));
    assert!(matches!(list.errors[2], ParserError::PeekError(Token::Semicolon, Token::Eof)));
    assert_eq!(
        list.to_string(),
        "Parser errors:\n\tIdentifier expected\n\tExpected: Assign, Got: Int(5) instead\n\tExpected: Semicolon, Got: Eof instead\n"
    );
    assert_eq!(ParserErrors::default().len(), 0);
}

#[test]
fn messages_of_errors() {
    assert_eq!(ParserError::IdentifierExpected.to_string(), "Identifier expected");
    assert_eq!(
        ParserError::PeekError(Token::Assign, Token::Illegal(64)).to_string(),
        "Expected: Assign, Got: Illegal(64) instead"
    );
    assert_eq!(
        ParserError::PeekError(Token::Semicolon, Token::NotEq).to_string(),
        "Expected: Semicolon, Got: Not Eq instead"
    );
}
