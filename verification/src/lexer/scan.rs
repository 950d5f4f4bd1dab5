//! The lexical rules, stated over the bytes of the input: the classes of
//! bytes, maximal runs, the token that starts at a position, and the stream
//! of tokens that a scan yields.

use vstd::prelude::*;
use vstd::utf8::encode_utf8;

use crate::lexer::text::{ascii_text, lemma_ascii_text};
use crate::lexer::token::{lemma_word_partition, word_token, TokenView};

verus! {

/// The byte at index `i` of `input`, or `0` where there is none. A zero byte
/// in the input therefore reads as the end of the input.
pub open spec fn byte_at(input: Seq<u8>, i: int) -> u8 {
    if 0 <= i < input.len() {
        input[i]
    } else {
        0
    }
}

/// ASCII whitespace: tab, line feed, form feed, carriage return and space.
pub open spec fn is_whitespace(b: u8) -> bool {
    b == 9 || b == 10 || b == 12 || b == 13 || b == 32
}

/// An ASCII letter.
pub open spec fn is_letter(b: u8) -> bool {
    ('a' as u8 <= b && b <= 'z' as u8) || ('A' as u8 <= b && b <= 'Z' as u8)
}

/// An ASCII digit.
pub open spec fn is_digit(b: u8) -> bool {
    '0' as u8 <= b && b <= '9' as u8
}

/// A byte that may start a word: a letter or an underscore.
pub open spec fn is_word_start(b: u8) -> bool {
    is_letter(b) || b == '_' as u8
}

/// A byte that may stand in a word: a letter, a digit or an underscore.
pub open spec fn is_var_char(b: u8) -> bool {
    is_letter(b) || is_digit(b) || b == '_' as u8
}

/// A byte that may stand in a numeric literal: a digit, a dot, or an
/// underscore that separates groups of digits.
pub open spec fn is_num_char(b: u8) -> bool {
    is_digit(b) || b == '.' as u8 || b == '_' as u8
}

/// The classes of bytes of which the scanner reads maximal runs.
pub enum ByteClass {
    Whitespace,
    Word,
    Number,
}

impl ByteClass {
    /// Whether `b` belongs to the class.
    pub open spec fn has(self, b: u8) -> bool {
        match self {
            ByteClass::Whitespace => is_whitespace(b),
            ByteClass::Word => is_var_char(b),
            ByteClass::Number => is_num_char(b),
        }
    }
}

/// The end of the maximal run of bytes of `class` that starts at `start`:
/// the first index from `start` on whose byte is not of the class, or the
/// length of the input.
pub open spec fn run_end(input: Seq<u8>, start: int, class: ByteClass) -> int
    decreases input.len() - start,
{
    if 0 <= start < input.len() && class.has(input[start]) {
        run_end(input, start + 1, class)
    } else {
        start
    }
}

/// A run is made of bytes of its class only, none of them zero, and it is
/// maximal: it ends at the end of the input or before a byte that is not of
/// the class.
pub proof fn lemma_run_end(input: Seq<u8>, start: int, class: ByteClass)
    requires
        0 <= start <= input.len(),
    ensures
        start <= run_end(input, start, class) <= input.len(),
        forall|i: int|
            start <= i < run_end(input, start, class) ==> class.has(#[trigger] input[i]) && input[i]
                != 0,
        !class.has(byte_at(input, run_end(input, start, class))),
    decreases input.len() - start,
{
    if start < input.len() && class.has(input[start]) {
        lemma_run_end(input, start + 1, class);
    }
}

/// A run that is entered in its middle ends where the whole run ends.
pub proof fn lemma_run_end_from_inside(input: Seq<u8>, start: int, mid: int, class: ByteClass)
    requires
        0 <= start <= mid <= input.len(),
        forall|i: int| start <= i < mid ==> class.has(#[trigger] input[i]),
    ensures
        run_end(input, start, class) == run_end(input, mid, class),
    decreases mid - start,
{
    if start < mid {
        assert(class.has(input[start]));
        lemma_run_end_from_inside(input, start + 1, mid, class);
    }
}

/// The operator or delimiter that begins with the byte `first` when the
/// byte `second` follows it, with its width in bytes; `None` where `first`
/// begins none. Of the two-byte operators `==`, `!=` and `->` the longer
/// reading wins.
pub open spec fn symbol(first: u8, second: u8) -> Option<(TokenView, int)> {
    if first == '=' as u8 {
        if second == '=' as u8 {
            Some((TokenView::Eq, 2))
        } else {
            Some((TokenView::Assign, 1))
        }
    } else if first == '-' as u8 {
        if second == '>' as u8 {
            Some((TokenView::ReturnOp, 2))
        } else {
            Some((TokenView::Dash, 1))
        }
    } else if first == '!' as u8 {
        if second == '=' as u8 {
            Some((TokenView::NotEq, 2))
        } else {
            Some((TokenView::Bang, 1))
        }
    } else if first == '+' as u8 {
        Some((TokenView::Plus, 1))
    } else if first == '*' as u8 {
        Some((TokenView::Asterisk, 1))
    } else if first == '/' as u8 {
        Some((TokenView::Slash, 1))
    } else if first == '?' as u8 {
        Some((TokenView::QMark, 1))
    } else if first == ',' as u8 {
        Some((TokenView::Comma, 1))
    } else if first == ';' as u8 {
        Some((TokenView::Semicolon, 1))
    } else if first == ':' as u8 {
        Some((TokenView::Colon, 1))
    } else if first == '(' as u8 {
        Some((TokenView::LParen, 1))
    } else if first == ')' as u8 {
        Some((TokenView::RParen, 1))
    } else if first == '[' as u8 {
        Some((TokenView::LBracket, 1))
    } else if first == ']' as u8 {
        Some((TokenView::RBracket, 1))
    } else if first == '{' as u8 {
        Some((TokenView::LSquirly, 1))
    } else if first == '}' as u8 {
        Some((TokenView::RSquirly, 1))
    } else {
        None
    }
}

/// The token of a numeric literal whose bytes are `span`: a float where a
/// dot stands in it, an integer otherwise. The token carries the bytes of
/// the span as text, unchanged.
pub open spec fn number_token(span: Seq<u8>) -> TokenView {
    if span.contains('.' as u8) {
        TokenView::Float(ascii_text(span))
    } else {
        TokenView::Int(ascii_text(span))
    }
}

/// The token that a scan from `pos` yields, with the position at which the
/// scan then stands. Whitespace before the token is skipped. At the end of
/// the input, or at a zero byte, the token is `Eof` and the scan stays where
/// it is.
pub open spec fn lexeme_at(input: Seq<u8>, pos: int) -> (TokenView, int) {
    let start = run_end(input, pos, ByteClass::Whitespace);
    let first = byte_at(input, start);
    if first == 0 {
        (TokenView::Eof, start)
    } else if symbol(first, byte_at(input, start + 1)) is Some {
        let (token, width) = symbol(first, byte_at(input, start + 1))->0;
        (token, start + width)
    } else if is_word_start(first) {
        let end = run_end(input, start, ByteClass::Word);
        (word_token(ascii_text(input.subrange(start, end))), end)
    } else if is_digit(first) {
        let end = run_end(input, start, ByteClass::Number);
        (number_token(input.subrange(start, end)), end)
    } else {
        (TokenView::Illegal(first), start + 1)
    }
}

/// The token that a scan from `pos` yields.
pub open spec fn token_at(input: Seq<u8>, pos: int) -> TokenView {
    lexeme_at(input, pos).0
}

/// The position at which a scan from `pos` stands once it has yielded its
/// token.
pub open spec fn token_end(input: Seq<u8>, pos: int) -> int {
    lexeme_at(input, pos).1
}

/// The tokens that repeated scans from `pos` yield, up to and including the
/// first `Eof`.
pub open spec fn token_stream(input: Seq<u8>, pos: int) -> Seq<TokenView>
    decreases input.len() - pos,
{
    if token_at(input, pos) is Eof {
        seq![TokenView::Eof]
    } else {
        proof {
            lemma_scan_progress(input, pos);
        }
        seq![token_at(input, pos)] + token_stream(input, token_end(input, pos))
    }
}

/// The position at which a scan stands after `calls` scans from `pos`.
pub open spec fn position_after(input: Seq<u8>, pos: int, calls: nat) -> int
    decreases calls,
{
    if calls == 0 {
        pos
    } else {
        position_after(input, token_end(input, pos), (calls - 1) as nat)
    }
}

/// Every scan moves forward or reports the end: a scan that yields a token
/// other than `Eof` ends at least one byte further on, within the input; a
/// scan that yields `Eof` skips at most whitespace, and stays where it is
/// when it started at the end of the input or at a zero byte.
pub proof fn lemma_scan_progress(input: Seq<u8>, pos: int)
    ensures
        !(token_at(input, pos) is Eof) ==> 0 <= pos < token_end(input, pos) <= input.len(),
        token_at(input, pos) is Eof ==> byte_at(input, token_end(input, pos)) == 0,
        0 <= pos <= input.len() ==> pos <= token_end(input, pos) <= input.len(),
        byte_at(input, pos) == 0 ==> token_at(input, pos) is Eof && token_end(input, pos) == pos,
{
    if 0 <= pos <= input.len() {
        lemma_run_end(input, pos, ByteClass::Whitespace);
        let start = run_end(input, pos, ByteClass::Whitespace);
        let first = byte_at(input, start);
        if first != 0 {
            assert(start < input.len());
            if symbol(first, byte_at(input, start + 1)) is Some {
                let (_, width) = symbol(first, byte_at(input, start + 1))->0;
                if width == 2 {
                    assert(byte_at(input, start + 1) != 0);
                }
            } else if is_word_start(first) {
                lemma_run_end(input, start, ByteClass::Word);
                lemma_word_partition(
                    ascii_text(input.subrange(start, run_end(input, start, ByteClass::Word))),
                );
            } else if is_digit(first) {
                lemma_run_end(input, start, ByteClass::Number);
            }
        }
    }
}

/// Where a scan has yielded `Eof`, the scan after it yields `Eof` again and
/// does not move.
pub proof fn lemma_eof_is_final(input: Seq<u8>, pos: int)
    requires
        token_at(input, pos) is Eof,
    ensures
        token_at(input, token_end(input, pos)) is Eof,
        token_end(input, token_end(input, pos)) == token_end(input, pos),
{
    lemma_scan_progress(input, pos);
    lemma_scan_progress(input, token_end(input, pos));
}

/// Once a scan has yielded `Eof`, all later scans yield `Eof`, however many
/// there are, and none of them moves.
pub proof fn lemma_eof_repeats(input: Seq<u8>, pos: int, calls: nat)
    requires
        token_at(input, pos) is Eof,
    ensures
        token_at(input, position_after(input, pos, calls)) is Eof,
        calls >= 1 ==> position_after(input, pos, calls) == token_end(input, pos),
    decreases calls,
{
    if calls >= 1 {
        lemma_eof_is_final(input, pos);
        lemma_eof_repeats(input, token_end(input, pos), (calls - 1) as nat);
    }
}

/// Scans add up: `first` scans and then `second` more are `first + second`
/// scans.
pub proof fn lemma_position_after_sum(input: Seq<u8>, pos: int, first: nat, second: nat)
    ensures
        position_after(input, position_after(input, pos, first), second) == position_after(
            input,
            pos,
            first + second,
        ),
    decreases first,
{
    if first > 0 {
        lemma_position_after_sum(input, token_end(input, pos), (first - 1) as nat, second);
    }
}

/// A scan of an input reaches `Eof` after at most one call for each byte
/// that is left: the call after those yields `Eof`.
pub proof fn lemma_eof_is_reached(input: Seq<u8>, pos: int)
    requires
        0 <= pos <= input.len(),
    ensures
        token_at(input, position_after(input, pos, (input.len() - pos) as nat)) is Eof,
    decreases input.len() - pos,
{
    lemma_scan_progress(input, pos);
    let calls = (input.len() - pos) as nat;
    if token_at(input, pos) is Eof {
        lemma_eof_repeats(input, pos, calls);
    } else {
        let end = token_end(input, pos);
        lemma_eof_is_reached(input, end);
        lemma_scan_progress(input, position_after(input, end, (input.len() - end) as nat));
        lemma_eof_repeats(
            input,
            position_after(input, end, (input.len() - end) as nat),
            (end - pos - 1) as nat,
        );
        lemma_position_after_sum(input, end, (input.len() - end) as nat, (end - pos - 1) as nat);
    }
}

/// A stream of tokens ends with its only `Eof`, and it holds at most one
/// token for each byte that is left, and the `Eof`.
pub proof fn lemma_token_stream(input: Seq<u8>, pos: int)
    requires
        0 <= pos <= input.len(),
    ensures
        1 <= token_stream(input, pos).len() <= input.len() - pos + 1,
        token_stream(input, pos).last() is Eof,
        forall|i: int|
            0 <= i < token_stream(input, pos).len() - 1 ==> !(#[trigger] token_stream(input, pos)[i] is Eof),
        token_stream(input, pos)[0] == token_at(input, pos),
        forall|i: int|
            0 <= i < token_stream(input, pos).len() ==> #[trigger] token_stream(input, pos)[i]
                == token_at(input, position_after(input, pos, i as nat)),
    decreases input.len() - pos,
{
    lemma_scan_progress(input, pos);
    if !(token_at(input, pos) is Eof) {
        let end = token_end(input, pos);
        lemma_token_stream(input, end);
        assert forall|i: int| 0 <= i < token_stream(input, pos).len() implies #[trigger] token_stream(
            input,
            pos,
        )[i] == token_at(input, position_after(input, pos, i as nat)) by {
            if i > 0 {
                assert(token_stream(input, pos)[i] == token_stream(input, end)[i - 1]);
            }
        }
    }
}

/// The token of a run of word bytes that starts with a letter or an
/// underscore: the run is maximal, and the token is that of its text.
pub proof fn lemma_word_lexeme(input: Seq<u8>, pos: int)
    requires
        0 <= pos < input.len(),
        is_word_start(input[pos]),
    ensures
        pos < token_end(input, pos) <= input.len(),
        token_end(input, pos) == run_end(input, pos, ByteClass::Word),
        token_at(input, pos) == word_token(ascii_text(input.subrange(pos, token_end(input, pos)))),
        encode_utf8(ascii_text(input.subrange(pos, token_end(input, pos)))) == input.subrange(
            pos,
            token_end(input, pos),
        ),
{
    lemma_run_end(input, pos, ByteClass::Word);
    let end = run_end(input, pos, ByteClass::Word);
    let span = input.subrange(pos, end);
    assert forall|i: int| 0 <= i < span.len() implies #[trigger] span[i] < 128 by {
        assert(ByteClass::Word.has(input[pos + i]));
    }
    lemma_ascii_text(span);
}

/// The token of a run of number bytes that starts with a digit: an integer
/// where no dot stands in the run, a float where one or more do, and in
/// both cases its text is the bytes of the run, unchanged.
pub proof fn lemma_number_lexeme(input: Seq<u8>, pos: int)
    requires
        0 <= pos < input.len(),
        is_digit(input[pos]),
    ensures
        pos < token_end(input, pos) <= input.len(),
        token_end(input, pos) == run_end(input, pos, ByteClass::Number),
        ({
            let span = input.subrange(pos, token_end(input, pos));
            &&& encode_utf8(ascii_text(span)) == span
            &&& !span.contains('.' as u8) ==> token_at(input, pos) == TokenView::Int(ascii_text(span))
            &&& span.contains('.' as u8) ==> token_at(input, pos) == TokenView::Float(ascii_text(span))
        }),
{
    lemma_run_end(input, pos, ByteClass::Number);
    let end = run_end(input, pos, ByteClass::Number);
    let span = input.subrange(pos, end);
    assert forall|i: int| 0 <= i < span.len() implies #[trigger] span[i] < 128 by {
        assert(ByteClass::Number.has(input[pos + i]));
    }
    lemma_ascii_text(span);
}

} // verus!
