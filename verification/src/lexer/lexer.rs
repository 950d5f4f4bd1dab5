//! The scanner: it walks the bytes of the input and yields one token for
//! each call, as the lexical rules say.

use vstd::prelude::*;
use vstd::slice::slice_subrange;
use vstd::string::StrSliceExecFns;
use vstd::utf8::encode_utf8;

use crate::lexer::scan::{
    byte_at, is_digit, is_letter, is_num_char, is_var_char, is_whitespace, is_word_start,
    lemma_eof_is_final, lemma_run_end, lemma_run_end_from_inside, lemma_scan_progress,
    lemma_token_stream, run_end,
    token_at, token_end, token_stream, ByteClass,
};
use crate::lexer::text::{ascii_text, is_ascii_bytes, lemma_ascii_text, text_of_bytes};
use crate::lexer::token::{Token, TokenView};

verus! {

/// A scanner over an input buffer. It holds the position of the byte it
/// looks at and that byte itself, `0` standing for the end of the input.
pub struct Lexer {
    input: Vec<u8>,
    pos: usize,
    read_pos: usize,
    ch: u8,
}

impl Lexer {
    /// The scanner looks at a byte of the input or stands at its end,
    /// `read_pos` is the index of the byte after it, and `ch` is the byte it
    /// looks at.
    pub closed spec fn wf(&self) -> bool {
        &&& self.pos <= self.input.len()
        &&& self.read_pos == if self.pos < self.input.len() {
            self.pos + 1
        } else {
            self.input.len() as int
        }
        &&& self.ch == byte_at(self.input@, self.pos as int)
    }

    /// The bytes of the input.
    pub closed spec fn source(&self) -> Seq<u8> {
        self.input@
    }

    /// The index of the byte that the scanner looks at.
    pub closed spec fn position(&self) -> int {
        self.pos as int
    }

    /// The tokens that are still to come, up to and including `Eof`.
    pub open spec fn remaining(&self) -> Seq<TokenView> {
        token_stream(self.source(), self.position())
    }

    /// The tokens still to come are those of the lexical rules: the token
    /// of the next scan first, and `Eof` last and nowhere else.
    pub proof fn lemma_remaining(&self)
        requires
            self.wf(),
        ensures
            1 <= self.remaining().len() <= self.source().len() - self.position() + 1,
            self.remaining().last() is Eof,
            forall|i: int| 0 <= i < self.remaining().len() - 1 ==> !(#[trigger] self.remaining()[i] is Eof),
            self.remaining()[0] == token_at(self.source(), self.position()),
            0 <= self.position() <= self.source().len(),
    {
        lemma_token_stream(self.source(), self.position());
    }

    /// A scan is determined by the input and the place where it starts:
    /// two scanners that stand at the same place of the same input yield
    /// the same tokens from there on.
    pub proof fn lemma_scan_is_determined(&self, other: &Lexer)
        requires
            self.source() == other.source(),
            self.position() == other.position(),
        ensures
            self.remaining() == other.remaining(),
    {
    }

    /// A scanner at the start of `input`.
    pub fn new(input: String) -> (lexer: Lexer)
        ensures
            lexer.wf(),
            lexer.source() == encode_utf8(input@),
            lexer.position() == 0,
    {
        let mut lexer = Lexer { input: input.as_str().as_bytes_vec(), pos: 0, read_pos: 0, ch: 0 };
        if lexer.input.len() > 0 {
            lexer.ch = lexer.input[0];
            lexer.read_pos = 1;
        }
        lexer
    }

    /// Moves to the next byte; at the end of the input the scanner stays.
    fn read_char(&mut self)
        requires
            old(self).wf(),
        ensures
            final(self).wf(),
            final(self).source() == old(self).source(),
            final(self).position() == if old(self).position() < old(self).source().len() {
                old(self).position() + 1
            } else {
                old(self).position()
            },
    {
        if self.read_pos >= self.input.len() {
            self.ch = 0;
        } else {
            self.ch = self.input[self.read_pos];
        }
        self.pos = self.read_pos;
        if self.read_pos < self.input.len() {
            self.read_pos += 1;
        }
    }

    /// Yields the next token and moves past it. Whitespace before the token
    /// is skipped. The scan moves forward by at least one byte, unless it
    /// stands at the end of the input, or at a zero byte: there it yields
    /// `Eof` and stays. After an `Eof` only `Eof` is still to come.
    pub fn next(&mut self) -> (token: Token)
        requires
            old(self).wf(),
        ensures
            final(self).wf(),
            final(self).source() == old(self).source(),
            token@ == token_at(old(self).source(), old(self).position()),
            final(self).position() == token_end(old(self).source(), old(self).position()),
            old(self).position() <= final(self).position() <= final(self).source().len(),
            old(self).position() < final(self).position() || (token@ is Eof
                && byte_at(old(self).source(), old(self).position()) == 0),
            token@ is Eof ==> final(self).remaining() == seq![TokenView::Eof],
            !(token@ is Eof) ==> old(self).remaining() == seq![token@] + final(self).remaining(),
    {
        proof {
            lemma_scan_progress(self.source(), self.position());
        }
        self.eat_whitespace();
        let ch = self.ch;
        let token = if ch == 0 {
            return Token::Eof;
        } else if ch == '=' as u8 {
            if self.peek() == '=' as u8 {
                self.read_char();
                Token::Eq
            } else {
                Token::Assign
            }
        } else if ch == '+' as u8 {
            Token::Plus
        } else if ch == '-' as u8 {
            if self.peek() == '>' as u8 {
                self.read_char();
                Token::ReturnOp
            } else {
                Token::Dash
            }
        } else if ch == '*' as u8 {
            Token::Asterisk
        } else if ch == '/' as u8 {
            Token::Slash
        } else if ch == '!' as u8 {
            if self.peek() == '=' as u8 {
                self.read_char();
                Token::NotEq
            } else {
                Token::Bang
            }
        } else if ch == '?' as u8 {
            Token::QMark
        } else if ch == ',' as u8 {
            Token::Comma
        } else if ch == ';' as u8 {
            Token::Semicolon
        } else if ch == ':' as u8 {
            Token::Colon
        } else if ch == '(' as u8 {
            Token::LParen
        } else if ch == ')' as u8 {
            Token::RParen
        } else if ch == '[' as u8 {
            Token::LBracket
        } else if ch == ']' as u8 {
            Token::RBracket
        } else if ch == '{' as u8 {
            Token::LSquirly
        } else if ch == '}' as u8 {
            Token::RSquirly
        } else if starts_word(ch) {
            let ident = self.read_ident();
            return Token::from_word(ident);
        } else if is_ascii_digit(ch) {
            let start = self.pos;
            let num = self.read_num();
            proof {
                lemma_run_end(self.source(), start as int, ByteClass::Number);
            }
            if contains_byte(slice_subrange(self.input.as_slice(), start, self.pos), '.' as u8) {
                return Token::Float(num);
            } else {
                return Token::Int(num);
            }
        } else {
            Token::Illegal(ch)
        };
        self.read_char();
        token
    }

    /// Scans to the end of the input and returns the tokens that were still
    /// to come, `Eof` last. There is at most one token for each byte that
    /// was left, and the `Eof`.
    pub fn tokenize(&mut self) -> (tokens: Vec<Token>)
        requires
            old(self).wf(),
        ensures
            final(self).wf(),
            final(self).source() == old(self).source(),
            tokens.deep_view() == old(self).remaining(),
            final(self).remaining() == seq![TokenView::Eof],
            tokens.len() <= old(self).source().len() - old(self).position() + 1,
    {
        let mut tokens: Vec<Token> = Vec::new();
        let mut done = false;
        while !done
            invariant
                self.wf(),
                self.source() == old(self).source(),
                !done ==> tokens.deep_view() + self.remaining() == old(self).remaining(),
                done ==> tokens.deep_view() == old(self).remaining(),
                done ==> self.remaining() == seq![TokenView::Eof],
            decreases self.source().len() - self.position() + if done { 0int } else { 1int },
        {
            let token = self.next();
            done = matches!(token, Token::Eof);
            tokens.push(token);
        }
        proof {
            old(self).lemma_remaining();
        }
        tokens
    }

    /// Reads the maximal run of word bytes from the current byte on, and
    /// returns it as text.
    fn read_ident(&mut self) -> (ident: String)
        requires
            old(self).wf(),
        ensures
            final(self).wf(),
            final(self).source() == old(self).source(),
            final(self).position() == run_end(old(self).source(), old(self).position(), ByteClass::Word),
            ident@ == ascii_text(
                old(self).source().subrange(old(self).position(), final(self).position()),
            ),
    {
        let start = self.pos;
        while is_valid_var_char(self.ch)
            invariant
                self.wf(),
                self.input@ == old(self).input@,
                start <= self.pos,
                start == old(self).pos,
                forall|i: int| start <= i < self.pos ==> ByteClass::Word.has(#[trigger] self.input@[i]),
            decreases self.input.len() - self.pos,
        {
            self.read_char();
        }
        proof {
            lemma_run_end_from_inside(self.input@, start as int, self.pos as int, ByteClass::Word);
            let span = self.input@.subrange(start as int, self.pos as int);
            assert(is_ascii_bytes(span));
            lemma_ascii_text(span);
        }
        text_of_bytes(slice_subrange(self.input.as_slice(), start, self.pos))
    }

    /// Reads the maximal run of number bytes from the current byte on, and
    /// returns it as text.
    fn read_num(&mut self) -> (num: String)
        requires
            old(self).wf(),
        ensures
            final(self).wf(),
            final(self).source() == old(self).source(),
            final(self).position() == run_end(old(self).source(), old(self).position(), ByteClass::Number),
            num@ == ascii_text(
                old(self).source().subrange(old(self).position(), final(self).position()),
            ),
    {
        let start = self.pos;
        while is_valid_num_char(self.ch)
            invariant
                self.wf(),
                self.input@ == old(self).input@,
                start <= self.pos,
                start == old(self).pos,
                forall|i: int| start <= i < self.pos ==> ByteClass::Number.has(#[trigger] self.input@[i]),
            decreases self.input.len() - self.pos,
        {
            self.read_char();
        }
        proof {
            lemma_run_end_from_inside(self.input@, start as int, self.pos as int, ByteClass::Number);
            let span = self.input@.subrange(start as int, self.pos as int);
            assert(is_ascii_bytes(span));
            lemma_ascii_text(span);
        }
        text_of_bytes(slice_subrange(self.input.as_slice(), start, self.pos))
    }

    /// Skips the whitespace from the current byte on.
    fn eat_whitespace(&mut self)
        requires
            old(self).wf(),
        ensures
            final(self).wf(),
            final(self).source() == old(self).source(),
            final(self).position() == run_end(
                old(self).source(),
                old(self).position(),
                ByteClass::Whitespace,
            ),
    {
        let ghost start = self.pos;
        while is_ascii_whitespace(self.ch)
            invariant
                self.wf(),
                self.input@ == old(self).input@,
                start <= self.pos,
                start == old(self).pos,
                forall|i: int|
                    start <= i < self.pos ==> ByteClass::Whitespace.has(#[trigger] self.input@[i]),
            decreases self.input.len() - self.pos,
        {
            self.read_char();
        }
        proof {
            lemma_run_end_from_inside(self.input@, start as int, self.pos as int, ByteClass::Whitespace);
        }
    }

    /// The byte after the current one, or `0` where there is none.
    fn peek(&self) -> (next: u8)
        requires
            self.wf(),
        ensures
            next == byte_at(self.source(), self.position() + 1),
    {
        if self.read_pos >= self.input.len() {
            0
        } else {
            self.input[self.read_pos]
        }
    }

    /// Whether the scanner looks at a byte of the input, and not at its end
    /// or at a zero byte.
    pub fn has_tokens(&self) -> (r: bool)
        requires
            self.wf(),
        ensures
            r == (byte_at(self.source(), self.position()) != 0),
    {
        self.ch != 0
    }
}

/// Whether `ch` may stand in a word: a letter, a digit or an underscore.
pub fn is_valid_var_char(ch: u8) -> (r: bool)
    ensures
        r == is_var_char(ch),
{
    is_ascii_letter(ch) || is_ascii_digit(ch) || ch == '_' as u8
}

/// Whether `ch` may stand in a numeric literal: a digit, a dot or an
/// underscore.
pub fn is_valid_num_char(ch: u8) -> (r: bool)
    ensures
        r == is_num_char(ch),
{
    is_ascii_digit(ch) || ch == '.' as u8 || ch == '_' as u8
}

/// Whether `ch` is ASCII whitespace.
fn is_ascii_whitespace(ch: u8) -> (r: bool)
    ensures
        r == is_whitespace(ch),
{
    ch == 9 || ch == 10 || ch == 12 || ch == 13 || ch == 32
}

/// Whether `ch` is an ASCII letter.
fn is_ascii_letter(ch: u8) -> (r: bool)
    ensures
        r == is_letter(ch),
{
    ('a' as u8 <= ch && ch <= 'z' as u8) || ('A' as u8 <= ch && ch <= 'Z' as u8)
}

/// Whether `ch` is an ASCII digit.
fn is_ascii_digit(ch: u8) -> (r: bool)
    ensures
        r == is_digit(ch),
{
    '0' as u8 <= ch && ch <= '9' as u8
}

/// Whether `ch` may start a word: a letter or an underscore.
fn starts_word(ch: u8) -> (r: bool)
    ensures
        r == is_word_start(ch),
{
    is_ascii_letter(ch) || ch == '_' as u8
}

/// Whether `byte` occurs in `bytes`.
fn contains_byte(bytes: &[u8], byte: u8) -> (r: bool)
    ensures
        r == bytes@.contains(byte),
{
    let mut i: usize = 0;
    while i < bytes.len()
        invariant
            i <= bytes.len(),
            forall|k: int| 0 <= k < i ==> bytes@[k] != byte,
        decreases bytes.len() - i,
    {
        if bytes[i] == byte {
            return true;
        }
        i += 1;
    }
    false
}

} // verus!
