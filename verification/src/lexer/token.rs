//! Tokens, what they stand for in contracts, and the table of reserved words.

use vstd::prelude::*;
use vstd::string::StringExecFns;

use crate::lexer::text::{decimal, decimal_text, str_eq};

verus! {

/// A lexical token. Identifiers and numeric literals carry their text as it
/// stood in the input; every other token but `Illegal` is a fixed lexeme.
#[derive(Debug)]
pub enum Token {
    /// A byte that starts no token.
    Illegal(u8),
    /// The end of the input.
    Eof,
    // identifiers and literals
    Ident(String),
    Int(String),
    Float(String),
    // operators
    Assign,
    Plus,
    Dash,
    Asterisk,
    Slash,
    Bang,
    QMark,
    Eq,
    NotEq,
    ReturnOp,
    // delimiters
    Comma,
    Semicolon,
    Colon,
    LParen,
    RParen,
    LBracket,
    RBracket,
    LSquirly,
    RSquirly,
    // keywords
    Function,
    Var,
    Const,
    Return,
    If,
    Else,
    True,
    False,
    // type names
    Null,
    Bool,
    I8,
    I16,
    I32,
    I64,
    F8,
    F16,
    F32,
    F64,
    U8,
    StringTok,
}

/// What a [`Token`] stands for in contracts: the same variants, with the
/// text of a payload as a sequence of characters.
pub enum TokenView {
    /// A byte that starts no token.
    Illegal(u8),
    /// The end of the input.
    Eof,
    // identifiers and literals
    Ident(Seq<char>),
    Int(Seq<char>),
    Float(Seq<char>),
    // operators
    Assign,
    Plus,
    Dash,
    Asterisk,
    Slash,
    Bang,
    QMark,
    Eq,
    NotEq,
    ReturnOp,
    // delimiters
    Comma,
    Semicolon,
    Colon,
    LParen,
    RParen,
    LBracket,
    RBracket,
    LSquirly,
    RSquirly,
    // keywords
    Function,
    Var,
    Const,
    Return,
    If,
    Else,
    True,
    False,
    // type names
    Null,
    Bool,
    I8,
    I16,
    I32,
    I64,
    F8,
    F16,
    F32,
    F64,
    U8,
    StringTok,
}

impl View for Token {
    type V = TokenView;

    open spec fn view(&self) -> TokenView {
        match self {
            Token::Illegal(byte) => TokenView::Illegal(*byte),
            Token::Eof => TokenView::Eof,
            Token::Ident(text) => TokenView::Ident(text@),
            Token::Int(text) => TokenView::Int(text@),
            Token::Float(text) => TokenView::Float(text@),
            Token::Assign => TokenView::Assign,
            Token::Plus => TokenView::Plus,
            Token::Dash => TokenView::Dash,
            Token::Asterisk => TokenView::Asterisk,
            Token::Slash => TokenView::Slash,
            Token::Bang => TokenView::Bang,
            Token::QMark => TokenView::QMark,
            Token::Eq => TokenView::Eq,
            Token::NotEq => TokenView::NotEq,
            Token::ReturnOp => TokenView::ReturnOp,
            Token::Comma => TokenView::Comma,
            Token::Semicolon => TokenView::Semicolon,
            Token::Colon => TokenView::Colon,
            Token::LParen => TokenView::LParen,
            Token::RParen => TokenView::RParen,
            Token::LBracket => TokenView::LBracket,
            Token::RBracket => TokenView::RBracket,
            Token::LSquirly => TokenView::LSquirly,
            Token::RSquirly => TokenView::RSquirly,
            Token::Function => TokenView::Function,
            Token::Var => TokenView::Var,
            Token::Const => TokenView::Const,
            Token::Return => TokenView::Return,
            Token::If => TokenView::If,
            Token::Else => TokenView::Else,
            Token::True => TokenView::True,
            Token::False => TokenView::False,
            Token::Null => TokenView::Null,
            Token::Bool => TokenView::Bool,
            Token::I8 => TokenView::I8,
            Token::I16 => TokenView::I16,
            Token::I32 => TokenView::I32,
            Token::I64 => TokenView::I64,
            Token::F8 => TokenView::F8,
            Token::F16 => TokenView::F16,
            Token::F32 => TokenView::F32,
            Token::F64 => TokenView::F64,
            Token::U8 => TokenView::U8,
            Token::StringTok => TokenView::StringTok,
        }
    }
}

impl DeepView for Token {
    type V = TokenView;

    open spec fn deep_view(&self) -> TokenView {
        self@
    }
}

impl TokenView {
    /// Whether two tokens match as the parser compares an expected token
    /// with an actual one: identifiers match identifiers and numeric
    /// literals match literals of the same sort, whatever their text; all
    /// other tokens match only themselves.
    pub open spec fn same_kind(self, other: TokenView) -> bool {
        match self {
            TokenView::Ident(_) => other is Ident,
            TokenView::Int(_) => other is Int,
            TokenView::Float(_) => other is Float,
            _ => self == other,
        }
    }

    /// The label under which a token is shown to a reader.
    pub open spec fn label(self) -> Seq<char> {
        match self {
            TokenView::Illegal(byte) => "Illegal("@ + decimal(byte as nat) + ")"@,
            TokenView::Eof => "Eof"@,
            TokenView::Ident(text) => "Ident("@ + text + ")"@,
            TokenView::Int(text) => "Int("@ + text + ")"@,
            TokenView::Float(text) => "Float("@ + text + ")"@,
            TokenView::Assign => "Assign"@,
            TokenView::Plus => "Plus"@,
            TokenView::Dash => "Dash"@,
            TokenView::Asterisk => "Asterisk"@,
            TokenView::Slash => "Slash"@,
            TokenView::Bang => "Bang"@,
            TokenView::QMark => "QMark"@,
            TokenView::Eq => "Eq"@,
            TokenView::NotEq => "Not Eq"@,
            TokenView::ReturnOp => "Return Op"@,
            TokenView::Comma => "Comma"@,
            TokenView::Semicolon => "Semicolon"@,
            TokenView::Colon => "Colon"@,
            TokenView::LParen => "LParen"@,
            TokenView::RParen => "RParen"@,
            TokenView::LBracket => "LBracket"@,
            TokenView::RBracket => "RBracket"@,
            TokenView::LSquirly => "LSquirly"@,
            TokenView::RSquirly => "RSquirly"@,
            TokenView::Function => "fn"@,
            TokenView::Var => "var"@,
            TokenView::Const => "const"@,
            TokenView::Return => "return"@,
            TokenView::If => "if"@,
            TokenView::Else => "else"@,
            TokenView::True => "true"@,
            TokenView::False => "false"@,
            TokenView::Null => "null"@,
            TokenView::Bool => "bool"@,
            TokenView::I8 => "i8"@,
            TokenView::I16 => "i16"@,
            TokenView::I32 => "i32"@,
            TokenView::I64 => "i64"@,
            TokenView::F8 => "f8"@,
            TokenView::F16 => "f16"@,
            TokenView::F32 => "f32"@,
            TokenView::F64 => "f64"@,
            TokenView::U8 => "u8"@,
            TokenView::StringTok => "String"@,
        }
    }
}

/// The table of reserved words: the token of a keyword or of the name of a
/// primitive type, and `None` for any other text. The match is exact and
/// case-sensitive.
pub open spec fn reserved_word(text: Seq<char>) -> Option<TokenView> {
    if text == "fn"@ {
        Some(TokenView::Function)
    } else if text == "var"@ {
        Some(TokenView::Var)
    } else if text == "const"@ {
        Some(TokenView::Const)
    } else if text == "return"@ {
        Some(TokenView::Return)
    } else if text == "if"@ {
        Some(TokenView::If)
    } else if text == "else"@ {
        Some(TokenView::Else)
    } else if text == "true"@ {
        Some(TokenView::True)
    } else if text == "false"@ {
        Some(TokenView::False)
    } else if text == "i8"@ {
        Some(TokenView::I8)
    } else if text == "i16"@ {
        Some(TokenView::I16)
    } else if text == "i32"@ {
        Some(TokenView::I32)
    } else if text == "i64"@ {
        Some(TokenView::I64)
    } else if text == "f8"@ {
        Some(TokenView::F8)
    } else if text == "f16"@ {
        Some(TokenView::F16)
    } else if text == "f32"@ {
        Some(TokenView::F32)
    } else if text == "f64"@ {
        Some(TokenView::F64)
    } else if text == "u8"@ {
        Some(TokenView::U8)
    } else if text == "bool"@ {
        Some(TokenView::Bool)
    } else if text == "null"@ {
        Some(TokenView::Null)
    } else if text == "String"@ {
        Some(TokenView::StringTok)
    } else {
        None
    }
}

/// Each reserved word has its own entry in the table.
pub proof fn lemma_reserved_words()
    ensures
        reserved_word("fn"@) == Some(TokenView::Function),
        reserved_word("var"@) == Some(TokenView::Var),
        reserved_word("const"@) == Some(TokenView::Const),
        reserved_word("return"@) == Some(TokenView::Return),
        reserved_word("if"@) == Some(TokenView::If),
        reserved_word("else"@) == Some(TokenView::Else),
        reserved_word("true"@) == Some(TokenView::True),
        reserved_word("false"@) == Some(TokenView::False),
        reserved_word("i8"@) == Some(TokenView::I8),
        reserved_word("i16"@) == Some(TokenView::I16),
        reserved_word("i32"@) == Some(TokenView::I32),
        reserved_word("i64"@) == Some(TokenView::I64),
        reserved_word("f8"@) == Some(TokenView::F8),
        reserved_word("f16"@) == Some(TokenView::F16),
        reserved_word("f32"@) == Some(TokenView::F32),
        reserved_word("f64"@) == Some(TokenView::F64),
        reserved_word("u8"@) == Some(TokenView::U8),
        reserved_word("bool"@) == Some(TokenView::Bool),
        reserved_word("null"@) == Some(TokenView::Null),
        reserved_word("String"@) == Some(TokenView::StringTok),
{
    reveal_strlit("fn");
    reveal_strlit("var");
    reveal_strlit("const");
    reveal_strlit("return");
    reveal_strlit("if");
    reveal_strlit("else");
    reveal_strlit("true");
    reveal_strlit("false");
    reveal_strlit("i8");
    reveal_strlit("i16");
    reveal_strlit("i32");
    reveal_strlit("i64");
    reveal_strlit("f8");
    reveal_strlit("f16");
    reveal_strlit("f32");
    reveal_strlit("f64");
    reveal_strlit("u8");
    reveal_strlit("bool");
    reveal_strlit("null");
    reveal_strlit("String");
    assert("fn"@ =~= seq!['f', 'n']);
    assert("var"@ =~= seq!['v', 'a', 'r']);
    assert("const"@ =~= seq!['c', 'o', 'n', 's', 't']);
    assert("return"@ =~= seq!['r', 'e', 't', 'u', 'r', 'n']);
    assert("if"@ =~= seq!['i', 'f']);
    assert("else"@ =~= seq!['e', 'l', 's', 'e']);
    assert("true"@ =~= seq!['t', 'r', 'u', 'e']);
    assert("false"@ =~= seq!['f', 'a', 'l', 's', 'e']);
    assert("i8"@ =~= seq!['i', '8']);
    assert("i16"@ =~= seq!['i', '1', '6']);
    assert("i32"@ =~= seq!['i', '3', '2']);
    assert("i64"@ =~= seq!['i', '6', '4']);
    assert("f8"@ =~= seq!['f', '8']);
    assert("f16"@ =~= seq!['f', '1', '6']);
    assert("f32"@ =~= seq!['f', '3', '2']);
    assert("f64"@ =~= seq!['f', '6', '4']);
    assert("u8"@ =~= seq!['u', '8']);
    assert("bool"@ =~= seq!['b', 'o', 'o', 'l']);
    assert("null"@ =~= seq!['n', 'u', 'l', 'l']);
    assert("String"@ =~= seq!['S', 't', 'r', 'i', 'n', 'g']);
}

/// The token of a word: its entry in the table of reserved words, or else
/// an identifier that carries the word.
pub open spec fn word_token(text: Seq<char>) -> TokenView {
    match reserved_word(text) {
        Some(token) => token,
        None => TokenView::Ident(text),
    }
}

/// A word is read as the token of its entry in the table of reserved words
/// exactly when it has one, and that token is a keyword or type name, which
/// carries no text; any other word is read as an identifier that carries the
/// word unchanged.
pub proof fn lemma_word_partition(text: Seq<char>)
    ensures
        reserved_word(text) is Some <==> !(word_token(text) is Ident),
        reserved_word(text) is Some ==> word_token(text) == reserved_word(text)->0,
        reserved_word(text) is None ==> word_token(text) == TokenView::Ident(text),
        !(word_token(text) is Eof) && !(word_token(text) is Illegal) && !(word_token(text) is Int) && !(
        word_token(text) is Float),
{
}

impl Clone for Token {
    fn clone(&self) -> (copy: Token)
        ensures
            copy@ == self@,
    {
        match self {
            Token::Illegal(byte) => Token::Illegal(*byte),
            Token::Eof => Token::Eof,
            Token::Ident(text) => Token::Ident(text.clone()),
            Token::Int(text) => Token::Int(text.clone()),
            Token::Float(text) => Token::Float(text.clone()),
            Token::Assign => Token::Assign,
            Token::Plus => Token::Plus,
            Token::Dash => Token::Dash,
            Token::Asterisk => Token::Asterisk,
            Token::Slash => Token::Slash,
            Token::Bang => Token::Bang,
            Token::QMark => Token::QMark,
            Token::Eq => Token::Eq,
            Token::NotEq => Token::NotEq,
            Token::ReturnOp => Token::ReturnOp,
            Token::Comma => Token::Comma,
            Token::Semicolon => Token::Semicolon,
            Token::Colon => Token::Colon,
            Token::LParen => Token::LParen,
            Token::RParen => Token::RParen,
            Token::LBracket => Token::LBracket,
            Token::RBracket => Token::RBracket,
            Token::LSquirly => Token::LSquirly,
            Token::RSquirly => Token::RSquirly,
            Token::Function => Token::Function,
            Token::Var => Token::Var,
            Token::Const => Token::Const,
            Token::Return => Token::Return,
            Token::If => Token::If,
            Token::Else => Token::Else,
            Token::True => Token::True,
            Token::False => Token::False,
            Token::Null => Token::Null,
            Token::Bool => Token::Bool,
            Token::I8 => Token::I8,
            Token::I16 => Token::I16,
            Token::I32 => Token::I32,
            Token::I64 => Token::I64,
            Token::F8 => Token::F8,
            Token::F16 => Token::F16,
            Token::F32 => Token::F32,
            Token::F64 => Token::F64,
            Token::U8 => Token::U8,
            Token::StringTok => Token::StringTok,
        }
    }
}

impl PartialEq for Token {
    fn eq(&self, other: &Token) -> (r: bool) {
        match (self, other) {
            (Token::Illegal(a), Token::Illegal(b)) => *a == *b,
            (Token::Eof, Token::Eof) => true,
            (Token::Ident(a), Token::Ident(b)) => *a == *b,
            (Token::Int(a), Token::Int(b)) => *a == *b,
            (Token::Float(a), Token::Float(b)) => *a == *b,
            (Token::Assign, Token::Assign) => true,
            (Token::Plus, Token::Plus) => true,
            (Token::Dash, Token::Dash) => true,
            (Token::Asterisk, Token::Asterisk) => true,
            (Token::Slash, Token::Slash) => true,
            (Token::Bang, Token::Bang) => true,
            (Token::QMark, Token::QMark) => true,
            (Token::Eq, Token::Eq) => true,
            (Token::NotEq, Token::NotEq) => true,
            (Token::ReturnOp, Token::ReturnOp) => true,
            (Token::Comma, Token::Comma) => true,
            (Token::Semicolon, Token::Semicolon) => true,
            (Token::Colon, Token::Colon) => true,
            (Token::LParen, Token::LParen) => true,
            (Token::RParen, Token::RParen) => true,
            (Token::LBracket, Token::LBracket) => true,
            (Token::RBracket, Token::RBracket) => true,
            (Token::LSquirly, Token::LSquirly) => true,
            (Token::RSquirly, Token::RSquirly) => true,
            (Token::Function, Token::Function) => true,
            (Token::Var, Token::Var) => true,
            (Token::Const, Token::Const) => true,
            (Token::Return, Token::Return) => true,
            (Token::If, Token::If) => true,
            (Token::Else, Token::Else) => true,
            (Token::True, Token::True) => true,
            (Token::False, Token::False) => true,
            (Token::Null, Token::Null) => true,
            (Token::Bool, Token::Bool) => true,
            (Token::I8, Token::I8) => true,
            (Token::I16, Token::I16) => true,
            (Token::I32, Token::I32) => true,
            (Token::I64, Token::I64) => true,
            (Token::F8, Token::F8) => true,
            (Token::F16, Token::F16) => true,
            (Token::F32, Token::F32) => true,
            (Token::F64, Token::F64) => true,
            (Token::U8, Token::U8) => true,
            (Token::StringTok, Token::StringTok) => true,
            _ => false,
        }
    }
}

impl vstd::std_specs::cmp::PartialEqSpecImpl for Token {
    open spec fn obeys_eq_spec() -> bool {
        true
    }

    /// Two tokens are equal when they are the same variant with the same
    /// payload.
    open spec fn eq_spec(&self, other: &Token) -> bool {
        self@ == other@
    }
}

impl Token {
    /// The token of a word: a keyword or type name where the word is
    /// reserved, or else an identifier that carries the word.
    pub fn from_word(word: String) -> (token: Token)
        ensures
            token@ == word_token(word@),
    {
        let text = word.as_str();
        if str_eq(text, "fn") {
            Token::Function
        } else if str_eq(text, "var") {
            Token::Var
        } else if str_eq(text, "const") {
            Token::Const
        } else if str_eq(text, "return") {
            Token::Return
        } else if str_eq(text, "if") {
            Token::If
        } else if str_eq(text, "else") {
            Token::Else
        } else if str_eq(text, "true") {
            Token::True
        } else if str_eq(text, "false") {
            Token::False
        } else if str_eq(text, "i8") {
            Token::I8
        } else if str_eq(text, "i16") {
            Token::I16
        } else if str_eq(text, "i32") {
            Token::I32
        } else if str_eq(text, "i64") {
            Token::I64
        } else if str_eq(text, "f8") {
            Token::F8
        } else if str_eq(text, "f16") {
            Token::F16
        } else if str_eq(text, "f32") {
            Token::F32
        } else if str_eq(text, "f64") {
            Token::F64
        } else if str_eq(text, "u8") {
            Token::U8
        } else if str_eq(text, "bool") {
            Token::Bool
        } else if str_eq(text, "null") {
            Token::Null
        } else if str_eq(text, "String") {
            Token::StringTok
        } else {
            Token::Ident(word)
        }
    }

    /// Whether this token matches `other` as the parser compares an expected
    /// token with an actual one: by sort alone for identifiers and numeric
    /// literals, and by equality for every other token.
    pub fn same_kind(&self, other: &Token) -> (r: bool)
        ensures
            r == self@.same_kind(other@),
    {
        match self {
            Token::Ident(_) => matches!(other, Token::Ident(_)),
            Token::Int(_) => matches!(other, Token::Int(_)),
            Token::Float(_) => matches!(other, Token::Float(_)),
            _ => *self == *other,
        }
    }

    /// The label under which this token is shown to a reader: the name of
    /// an operator or delimiter, the spelling of a keyword or type name,
    /// and the sort and text of a literal.
    pub fn to_string(&self) -> (label: String)
        ensures
            label@ == self@.label(),
    {
        match self {
            Token::Illegal(byte) => {
                let number = decimal_text(*byte);
                String::from_str("Illegal(").concat(number.as_str()).concat(")")
            },
            Token::Eof => String::from_str("Eof"),
            Token::Ident(text) => String::from_str("Ident(").concat(text.as_str()).concat(")"),
            Token::Int(text) => String::from_str("Int(").concat(text.as_str()).concat(")"),
            Token::Float(text) => String::from_str("Float(").concat(text.as_str()).concat(")"),
            Token::Assign => String::from_str("Assign"),
            Token::Plus => String::from_str("Plus"),
            Token::Dash => String::from_str("Dash"),
            Token::Asterisk => String::from_str("Asterisk"),
            Token::Slash => String::from_str("Slash"),
            Token::Bang => String::from_str("Bang"),
            Token::QMark => String::from_str("QMark"),
            Token::Eq => String::from_str("Eq"),
            Token::NotEq => String::from_str("Not Eq"),
            Token::ReturnOp => String::from_str("Return Op"),
            Token::Comma => String::from_str("Comma"),
            Token::Semicolon => String::from_str("Semicolon"),
            Token::Colon => String::from_str("Colon"),
            Token::LParen => String::from_str("LParen"),
            Token::RParen => String::from_str("RParen"),
            Token::LBracket => String::from_str("LBracket"),
            Token::RBracket => String::from_str("RBracket"),
            Token::LSquirly => String::from_str("LSquirly"),
            Token::RSquirly => String::from_str("RSquirly"),
            Token::Function => String::from_str("fn"),
            Token::Var => String::from_str("var"),
            Token::Const => String::from_str("const"),
            Token::Return => String::from_str("return"),
            Token::If => String::from_str("if"),
            Token::Else => String::from_str("else"),
            Token::True => String::from_str("true"),
            Token::False => String::from_str("false"),
            Token::Null => String::from_str("null"),
            Token::Bool => String::from_str("bool"),
            Token::I8 => String::from_str("i8"),
            Token::I16 => String::from_str("i16"),
            Token::I32 => String::from_str("i32"),
            Token::I64 => String::from_str("i64"),
            Token::F8 => String::from_str("f8"),
            Token::F16 => String::from_str("f16"),
            Token::F32 => String::from_str("f32"),
            Token::F64 => String::from_str("f64"),
            Token::U8 => String::from_str("u8"),
            Token::StringTok => String::from_str("String"),
        }
    }
}

} // verus!
