use compiler::lexer::lexer::{is_valid_num_char, is_valid_var_char};
use compiler::lexer::text::{decimal_text, str_eq};
use compiler::lexer::{Lexer, Token};

fn scan(input: &str) -> Vec<Token> {
    Lexer::new(input.to_string()).tokenize()
}

fn ident(name: &str) -> Token {
    Token::Ident(String::from(name))
}

fn int_of(text: &str) -> Token {
    Token::Int(String::from(text))
}

fn float_of(text: &str) -> Token {
    Token::Float(String::from(text))
}

#[test]
fn text_next_token() -> Result<(), ()> {
    let input = r#"
        const x: i32 = 5;
        const y: f64 = 4.2;
        var z: ?u8 = null;
        ? ! != == :
        if (x != y) {
            x = y;
        }
        "#;
    let mut lex = Lexer::new(input.into());

    let tokens = vec![
        Token::Const,
        Token::Ident(String::from("x")),
        Token::Colon,
        Token::I32,
        Token::Assign,
        Token::Int(String::from("5")),
        Token::Semicolon,
        Token::Const,
        Token::Ident(String::from("y")),
        Token::Colon,
        Token::F64,
        Token::Assign,
        Token::Float(String::from("4.2")),
        Token::Semicolon,
        Token::Var,
        Token::Ident(String::from("z")),
        Token::Colon,
        Token::QMark,
        Token::U8,
        Token::Assign,
        Token::Null,
        Token::Semicolon,
        Token::QMark,
        Token::Bang,
        Token::NotEq,
        Token::Eq,
        Token::Colon,
        Token::If,
        Token::LParen,
        Token::Ident(String::from("x")),
        Token::NotEq,
        Token::Ident(String::from("y")),
        Token::RParen,
        Token::LSquirly,
        Token::Ident(String::from("x")),
        Token::Assign,
        Token::Ident(String::from("y")),
        Token::Semicolon,
        Token::RSquirly,
    ];

    for token in tokens {
        let next_token = lex.next();
        println!("expected: {}, received: {}", token.to_string(), next_token.to_string());
        assert_eq!(token, next_token);
    }

    Ok(())
}

#[test]
fn declaration_with_type_annotation_tokenizes() {
    assert_eq!(
        scan("const x: i32 = 5;"),
        vec![
            Token::Const,
            ident("x"),
            Token::Colon,
            Token::I32,
            Token::Assign,
            int_of("5"),
            Token::Semicolon,
            Token::Eof,
        ]
    );
}

#[test]
fn repeated_scans_agree() {
    let input = "var total = a1 + 2_000.5 -> @ != x;";
    let first = scan(input);
    let second = scan(input);
    assert_eq!(first, second);
    let mut step = Lexer::new(input.to_string());
    for token in first {
        assert_eq!(step.next(), token);
    }
}

#[test]
fn eof_repeats_forever() {
    let mut lex = Lexer::new(String::from("x "));
    assert_eq!(lex.next(), ident("x"));
    for _ in 0..10 {
        assert_eq!(lex.next(), Token::Eof);
    }
    assert!(!lex.has_tokens());
}

#[test]
fn empty_input_is_eof() {
    let mut lex = Lexer::new(String::new());
    assert!(!lex.has_tokens());
    assert_eq!(lex.next(), Token::Eof);
    assert_eq!(lex.next(), Token::Eof);
    assert_eq!(scan(""), vec![Token::Eof]);
    assert_eq!(scan(" \t\r\n\x0c"), vec![Token::Eof]);
}

#[test]
fn scan_takes_at_most_one_call_per_byte_and_one() {
    for input in ["", ";", ";;;;", "a b c", "!@#$%^&", "==!=->", "const x = 5;"] {
        let tokens = scan(input);
        assert!(tokens.len() <= input.len() + 1);
        assert_eq!(tokens.last(), Some(&Token::Eof));
        assert_eq!(tokens.iter().filter(|t| **t == Token::Eof).count(), 1);
    }
    assert_eq!(scan(";;;;").len(), 5);
}

#[test]
fn zero_byte_reads_as_end_of_input() {
    let mut lex = Lexer::new(String::from("a\0b"));
    assert_eq!(lex.next(), ident("a"));
    assert!(!lex.has_tokens());
    assert_eq!(lex.next(), Token::Eof);
    assert_eq!(lex.next(), Token::Eof);
    assert_eq!(lex.next(), Token::Eof);
    assert_eq!(scan("a\0b"), vec![ident("a"), Token::Eof]);
}

#[test]
fn reserved_words_and_identifiers() {
    assert_eq!(
        scan("fn var const return if else true false"),
        vec![
            Token::Function,
            Token::Var,
            Token::Const,
            Token::Return,
            Token::If,
            Token::Else,
            Token::True,
            Token::False,
            Token::Eof,
        ]
    );
    assert_eq!(
        scan("i8 i16 i32 i64 u8 f8 f16 f32 f64 bool String null"),
        vec![
            Token::I8,
            Token::I16,
            Token::I32,
            Token::I64,
            Token::U8,
            Token::F8,
            Token::F16,
            Token::F32,
            Token::F64,
            Token::Bool,
            Token::StringTok,
            Token::Null,
            Token::Eof,
        ]
    );
    assert_eq!(
        scan("Fn fnx _fn string u16 i128 If _ __x9 constant"),
        vec![
            ident("Fn"),
            ident("fnx"),
            ident("_fn"),
            ident("string"),
            ident("u16"),
            ident("i128"),
            ident("If"),
            ident("_"),
            ident("__x9"),
            ident("constant"),
            Token::Eof,
        ]
    );
}

#[test]
fn from_word_follows_the_table() {
    assert_eq!(Token::from_word(String::from("return")), Token::Return);
    assert_eq!(Token::from_word(String::from("String")), Token::StringTok);
    assert_eq!(Token::from_word(String::from("Return")), ident("Return"));
    assert_eq!(Token::from_word(String::from("")), ident(""));
    assert_eq!(Token::from_word(String::from("f64x")), ident("f64x"));
}

#[test]
fn numeric_literals_keep_their_text() {
    assert_eq!(scan("5"), vec![int_of("5"), Token::Eof]);
    assert_eq!(scan("1_000_000"), vec![int_of("1_000_000"), Token::Eof]);
    assert_eq!(scan("4.2"), vec![float_of("4.2"), Token::Eof]);
    assert_eq!(scan("1.2.3"), vec![float_of("1.2.3"), Token::Eof]);
    assert_eq!(scan("7."), vec![float_of("7."), Token::Eof]);
    assert_eq!(scan("0__.._"), vec![float_of("0__.._"), Token::Eof]);
    assert_eq!(scan("12ab"), vec![int_of("12"), ident("ab"), Token::Eof]);
    assert_eq!(scan(".5"), vec![Token::Illegal(b'.'), int_of("5"), Token::Eof]);
    assert_eq!(scan("x1.5"), vec![ident("x1"), Token::Illegal(b'.'), int_of("5"), Token::Eof]);
}

#[test]
fn operators_of_one_and_two_bytes() {
    assert_eq!(
        scan("= == ! != - -> === !== -->"),
        vec![
            Token::Assign,
            Token::Eq,
            Token::Bang,
            Token::NotEq,
            Token::Dash,
            Token::ReturnOp,
            Token::Eq,
            Token::Assign,
            Token::NotEq,
            Token::Assign,
            Token::Dash,
            Token::ReturnOp,
            Token::Eof,
        ]
    );
    assert_eq!(scan("="), vec![Token::Assign, Token::Eof]);
    assert_eq!(scan("-"), vec![Token::Dash, Token::Eof]);
    assert_eq!(scan("!"), vec![Token::Bang, Token::Eof]);
    assert_eq!(
        scan("+*/?,;:()[]{}"),
        vec![
            Token::Plus,
            Token::Asterisk,
            Token::Slash,
            Token::QMark,
            Token::Comma,
            Token::Semicolon,
            Token::Colon,
            Token::LParen,
            Token::RParen,
            Token::LBracket,
            Token::RBracket,
            Token::LSquirly,
            Token::RSquirly,
            Token::Eof,
        ]
    );
}

#[test]
fn illegal_bytes_are_passed_on() {
    assert_eq!(scan("@"), vec![Token::Illegal(64), Token::Eof]);
    assert_eq!(
        scan("a # b"),
        vec![ident("a"), Token::Illegal(b'#'), ident("b"), Token::Eof]
    );
    assert_eq!(scan("\u{e9}"), vec![Token::Illegal(0xc3), Token::Illegal(0xa9), Token::Eof]);
    assert_eq!(scan("\x0b"), vec![Token::Illegal(11), Token::Eof]);
    assert_eq!(scan("\"<>"), vec![
        Token::Illegal(b'"'),
        Token::Illegal(b'<'),
        Token::Illegal(b'>'),
        Token::Eof,
    ]);
}

#[test]
fn tokenize_continues_from_where_the_scanner_stands() {
    let mut lex = Lexer::new(String::from("a b c"));
    assert!(lex.has_tokens());
    assert_eq!(lex.next(), ident("a"));
    assert_eq!(lex.tokenize(), vec![ident("b"), ident("c"), Token::Eof]);
    assert_eq!(lex.tokenize(), vec![Token::Eof]);
}

#[test]
fn byte_classes() {
    for ch in 0..=255u8 {
        let letter = ch.is_ascii_alphabetic();
        let digit = ch.is_ascii_digit();
        assert_eq!(is_valid_var_char(ch), letter || digit || ch == b'_');
        assert_eq!(is_valid_num_char(ch), digit || ch == b'.' || ch == b'_');
    }
    assert!(!is_valid_var_char(0));
    assert!(!is_valid_num_char(0));
}

#[test]
fn labels_of_tokens() {
    assert_eq!(Token::Illegal(0).to_string(), "Illegal(0)");
    assert_eq!(Token::Illegal(7).to_string(), "Illegal(7)");
    assert_eq!(Token::Illegal(64).to_string(), "Illegal(64)");
    assert_eq!(Token::Illegal(100).to_string(), "Illegal(100)");
    assert_eq!(Token::Illegal(255).to_string(), "Illegal(255)");
    assert_eq!(Token::Eof.to_string(), "Eof");
    assert_eq!(ident("abc").to_string(), "Ident(abc)");
    assert_eq!(int_of("1_0").to_string(), "Int(1_0)");
    assert_eq!(float_of("4.2").to_string(), "Float(4.2)");
    let fixed = [
        (Token::Assign, "Assign"),
        (Token::Plus, "Plus"),
        (Token::Dash, "Dash"),
        (Token::Asterisk, "Asterisk"),
        (Token::Slash, "Slash"),
        (Token::Bang, "Bang"),
        (Token::QMark, "QMark"),
        (Token::Eq, "Eq"),
        (Token::NotEq, "Not Eq"),
        (Token::ReturnOp, "Return Op"),
        (Token::Comma, "Comma"),
        (Token::Semicolon, "Semicolon"),
        (Token::Colon, "Colon"),
        (Token::LParen, "LParen"),
        (Token::RParen, "RParen"),
        (Token::LBracket, "LBracket"),
        (Token::RBracket, "RBracket"),
        (Token::LSquirly, "LSquirly"),
        (Token::RSquirly, "RSquirly"),
        (Token::Function, "fn"),
        (Token::Var, "var"),
        (Token::Const, "const"),
        (Token::Return, "return"),
        (Token::If, "if"),
        (Token::Else, "else"),
        (Token::True, "true"),
        (Token::False, "false"),
        (Token::Null, "null"),
        (Token::Bool, "bool"),
        (Token::I8, "i8"),
        (Token::I16, "i16"),
        (Token::I32, "i32"),
        (Token::I64, "i64"),
        (Token::F8, "f8"),
        (Token::F16, "f16"),
        (Token::F32, "f32"),
        (Token::F64, "f64"),
        (Token::U8, "u8"),
        (Token::StringTok, "String"),
    ];
    for (token, label) in fixed {
        assert_eq!(token.to_string(), label);
    }
}

#[test]
fn decimal_text_of_every_byte() {
    for n in 0..=255u8 {
        assert_eq!(decimal_text(n), format!("{}", n));
    }
}

#[test]
fn tokens_compare_by_variant_and_payload() {
    assert_eq!(ident("a"), ident("a"));
    assert_ne!(ident("a"), ident("b"));
    assert_ne!(ident("1"), int_of("1"));
    assert_ne!(int_of("1"), float_of("1"));
    assert_eq!(Token::Illegal(3), Token::Illegal(3));
    assert_ne!(Token::Illegal(3), Token::Illegal(4));
    assert_ne!(Token::Eq, Token::Assign);
    assert_eq!(Token::Eof, Token::Eof);
    let copy = float_of("2.5").clone();
    assert_eq!(copy, float_of("2.5"));
    assert_eq!(Token::Illegal(9).clone(), Token::Illegal(9));
    assert_eq!(Token::StringTok.clone(), Token::StringTok);
}

#[test]
fn same_kind_ignores_the_text_of_literals_only() {
    assert!(ident("a").same_kind(&ident("")));
    assert!(int_of("1").same_kind(&int_of("22")));
    assert!(float_of("1.5").same_kind(&float_of("")));
    assert!(!ident("a").same_kind(&int_of("a")));
    assert!(!int_of("1").same_kind(&float_of("1")));
    assert!(!Token::Eof.same_kind(&ident("a")));
    assert!(!ident("a").same_kind(&Token::Eof));
    assert!(Token::Semicolon.same_kind(&Token::Semicolon));
    assert!(!Token::Semicolon.same_kind(&Token::Colon));
    assert!(Token::Illegal(1).same_kind(&Token::Illegal(1)));
    assert!(!Token::Illegal(1).same_kind(&Token::Illegal(2)));
}

#[test]
fn str_eq_compares_text() {
    assert!(str_eq("", ""));
    assert!(str_eq("abc", "abc"));
    assert!(!str_eq("abc", "abd"));
    assert!(!str_eq("abc", "ab"));
    assert!(!str_eq("", "a"));
    assert!(str_eq("\u{e9}t\u{e9}", "\u{e9}t\u{e9}"));
    assert!(!str_eq("\u{e9}", "\u{e8}"));
}
