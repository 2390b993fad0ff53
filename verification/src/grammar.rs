//! The lexical grammar: what the tokens and errors of a source text are.
//!
//! Everything here is specification. A source text is a sequence of bytes, a position is an
//! index into it, and a scan counts one line more for each newline byte that it reads.

use vstd::prelude::*;
use crate::bytes::{
    in_class, is_alpha, is_digit, ByteClass, BANG, CARRIAGE_RETURN, COMMA, DOT, EQUAL, GREATER,
    LBRACE, LESS, LPAREN, MINUS, NEWLINE, PLUS, QUOTE, RBRACE, RPAREN, SEMICOLON, SLASH, SPACE,
    STAR, TAB,
};
use crate::error::{unexpected_character, unterminated_string, ScanErrorView};
use crate::keyword::word_type;
use crate::token::{TokenTypeView, TokenView};

verus! {

/// The end of the longest run of bytes of `class` that begins at `pos`: the position of the
/// first byte from `pos` on that is not in the class, or the length of the source.
pub open spec fn run_end(src: Seq<u8>, pos: int, class: ByteClass) -> int
    decreases src.len() - pos,
{
    if 0 <= pos < src.len() && in_class(class, src[pos]) {
        run_end(src, pos + 1, class)
    } else {
        pos
    }
}

/// The number of newline bytes among `src[from..to]`.
pub open spec fn newlines(src: Seq<u8>, from: int, to: int) -> nat
    decreases to - from,
{
    if from >= to {
        0
    } else if src[to - 1] == NEWLINE {
        newlines(src, from, to - 1) + 1
    } else {
        newlines(src, from, to - 1)
    }
}

/// The byte at `pos` is `b`.
pub open spec fn followed_by(src: Seq<u8>, pos: int, b: u8) -> bool {
    0 <= pos < src.len() && src[pos] == b
}

/// The token that a punctuation byte stands for on its own.
pub open spec fn punctuation(b: u8) -> Option<TokenTypeView> {
    if b == LPAREN {
        Some(TokenTypeView::LParen)
    } else if b == RPAREN {
        Some(TokenTypeView::RParen)
    } else if b == LBRACE {
        Some(TokenTypeView::LBrace)
    } else if b == RBRACE {
        Some(TokenTypeView::RBrace)
    } else if b == COMMA {
        Some(TokenTypeView::Comma)
    } else if b == DOT {
        Some(TokenTypeView::Dot)
    } else if b == MINUS {
        Some(TokenTypeView::Minus)
    } else if b == PLUS {
        Some(TokenTypeView::Plus)
    } else if b == SEMICOLON {
        Some(TokenTypeView::Semicolon)
    } else if b == STAR {
        Some(TokenTypeView::Star)
    } else {
        None
    }
}

/// The token that an operator byte stands for, alone or with an equal sign behind it.
pub open spec fn operator(b: u8, with_equal: bool) -> Option<TokenTypeView> {
    if b == BANG {
        Some(if with_equal { TokenTypeView::BangEqual } else { TokenTypeView::Bang })
    } else if b == EQUAL {
        Some(if with_equal { TokenTypeView::EqualEqual } else { TokenTypeView::Equal })
    } else if b == LESS {
        Some(if with_equal { TokenTypeView::LessEqual } else { TokenTypeView::Less })
    } else if b == GREATER {
        Some(if with_equal { TokenTypeView::GreaterEqual } else { TokenTypeView::Greater })
    } else {
        None
    }
}

/// The byte separates lexemes and yields nothing.
pub open spec fn is_blank(b: u8) -> bool {
    b == SPACE || b == CARRIAGE_RETURN || b == TAB || b == NEWLINE
}

/// The end of the number literal whose digits begin at `pos`: the run of digits, and a
/// fraction if a dot and at least one more digit follow it.
pub open spec fn number_end(src: Seq<u8>, pos: int) -> int {
    let whole = run_end(src, pos, ByteClass::Digit);
    if followed_by(src, whole, DOT) && whole + 1 < src.len() && is_digit(src[whole + 1]) {
        run_end(src, whole + 1, ByteClass::Digit)
    } else {
        whole
    }
}

/// What one lexeme contributes to the result of a scan.
pub enum Yield {
    /// A token of this type.
    Token(TokenTypeView),
    /// Nothing: blank space or a comment.
    Nothing,
    /// An error with this message.
    Error(Seq<char>),
}

/// One lexeme: where it ends and what it yields.
pub struct Lexeme {
    pub end: int,
    pub yields: Yield,
}

/// The lexeme that begins at `pos`, a position inside the source.
pub open spec fn lexeme_at(src: Seq<u8>, pos: int) -> Lexeme
    recommends
        0 <= pos < src.len(),
{
    let b = src[pos];
    if punctuation(b) is Some {
        Lexeme { end: pos + 1, yields: Yield::Token(punctuation(b)->0) }
    } else if operator(b, false) is Some {
        let with_equal = followed_by(src, pos + 1, EQUAL);
        Lexeme {
            end: if with_equal { pos + 2 } else { pos + 1 },
            yields: Yield::Token(operator(b, with_equal)->0),
        }
    } else if b == SLASH {
        if followed_by(src, pos + 1, SLASH) {
            Lexeme { end: run_end(src, pos + 2, ByteClass::CommentBody), yields: Yield::Nothing }
        } else {
            Lexeme { end: pos + 1, yields: Yield::Token(TokenTypeView::Slash) }
        }
    } else if is_blank(b) {
        Lexeme { end: pos + 1, yields: Yield::Nothing }
    } else if b == QUOTE {
        let close = run_end(src, pos + 1, ByteClass::StringBody);
        if close < src.len() {
            Lexeme {
                end: close + 1,
                yields: Yield::Token(TokenTypeView::Str(src.subrange(pos + 1, close))),
            }
        } else {
            Lexeme { end: close, yields: Yield::Error(unterminated_string()) }
        }
    } else if is_digit(b) {
        Lexeme { end: number_end(src, pos), yields: Yield::Token(TokenTypeView::Number) }
    } else if is_alpha(b) {
        let end = run_end(src, pos, ByteClass::Word);
        Lexeme { end, yields: Yield::Token(word_type(src.subrange(pos, end))) }
    } else {
        Lexeme { end: pos + 1, yields: Yield::Error(unexpected_character()) }
    }
}

/// The line that a scan is on behind the lexeme at `pos`, when it was on `line` before it:
/// every newline byte of the lexeme ends a line.
pub open spec fn line_after(src: Seq<u8>, pos: int, line: nat) -> nat {
    line + newlines(src, pos, lexeme_at(src, pos).end)
}

/// The text is a numeral: digits, or digits, a dot and digits. It has no sign and no
/// exponent, and neither begins nor ends with the dot.
pub open spec fn is_numeral(text: Seq<u8>) -> bool {
    ||| text.len() > 0 && forall|i: int| 0 <= i < text.len() ==> is_digit(#[trigger] text[i])
    ||| exists|dot: int|
        {
            &&& 0 < dot < text.len() - 1
            &&& #[trigger] text[dot] == DOT
            &&& forall|i: int| 0 <= i < text.len() && i != dot ==> is_digit(#[trigger] text[i])
        }
}

/// A run ends between its beginning and the end of the source; every byte in it is of the
/// class, and the byte behind it, if there is one, is not.
pub proof fn lemma_run_end(src: Seq<u8>, pos: int, class: ByteClass)
    requires
        0 <= pos <= src.len(),
    ensures
        pos <= run_end(src, pos, class) <= src.len(),
        forall|i: int| pos <= i < run_end(src, pos, class) ==> in_class(class, #[trigger] src[i]),
        run_end(src, pos, class) < src.len() ==> !in_class(
            class,
            src[run_end(src, pos, class)],
        ),
    decreases src.len() - pos,
{
    if pos < src.len() && in_class(class, src[pos]) {
        lemma_run_end(src, pos + 1, class);
    }
}

/// Newlines are counted piece by piece.
pub proof fn lemma_newlines_split(src: Seq<u8>, from: int, mid: int, to: int)
    requires
        from <= mid <= to,
    ensures
        newlines(src, from, to) == newlines(src, from, mid) + newlines(src, mid, to),
    decreases to - mid,
{
    if mid < to {
        lemma_newlines_split(src, from, mid, to - 1);
    }
}

/// A piece without a newline byte counts none.
pub proof fn lemma_newlines_none(src: Seq<u8>, from: int, to: int)
    requires
        forall|i: int| from <= i < to ==> #[trigger] src[i] != NEWLINE,
    ensures
        newlines(src, from, to) == 0,
    decreases to - from,
{
    if from < to {
        lemma_newlines_none(src, from, to - 1);
    }
}

/// A lexeme is never empty and never runs past the end of the source.
pub proof fn lemma_lexeme_bounds(src: Seq<u8>, pos: int)
    requires
        0 <= pos < src.len(),
    ensures
        pos < lexeme_at(src, pos).end <= src.len(),
{
    lemma_run_end(src, pos, ByteClass::Digit);
    lemma_run_end(src, pos, ByteClass::Word);
    lemma_run_end(src, pos + 1, ByteClass::StringBody);
    if pos + 2 <= src.len() {
        lemma_run_end(src, pos + 2, ByteClass::CommentBody);
    }
    let whole = run_end(src, pos, ByteClass::Digit);
    if whole + 1 < src.len() {
        lemma_run_end(src, whole + 1, ByteClass::Digit);
    }
}

/// The tokens of the source from `pos` on, for a scan that is on `line` there: the tokens of
/// the lexemes in turn, each with its text and the line that the scan is on behind it, and
/// the end-of-input token after the last.
pub open spec fn tokens_from(src: Seq<u8>, pos: int, line: nat) -> Seq<TokenView>
    decreases src.len() - pos,
    via tokens_from_decreases
{
    if 0 <= pos < src.len() {
        let lexeme = lexeme_at(src, pos);
        let line = line_after(src, pos, line);
        let rest = tokens_from(src, lexeme.end, line);
        match lexeme.yields {
            Yield::Token(typ) => seq![
                TokenView { typ, lexeme: src.subrange(pos, lexeme.end), line },
            ] + rest,
            _ => rest,
        }
    } else {
        seq![TokenView { typ: TokenTypeView::Eof, lexeme: Seq::empty(), line }]
    }
}

#[via_fn]
proof fn tokens_from_decreases(src: Seq<u8>, pos: int, line: nat) {
    if 0 <= pos < src.len() {
        lemma_lexeme_bounds(src, pos);
    }
}

/// The errors of the source from `pos` on, for a scan that is on `line` there: the errors
/// of the lexemes in turn, each with the line that the scan is on behind its lexeme.
pub open spec fn errors_from(src: Seq<u8>, pos: int, line: nat) -> Seq<ScanErrorView>
    decreases src.len() - pos,
    via errors_from_decreases
{
    if 0 <= pos < src.len() {
        let lexeme = lexeme_at(src, pos);
        let line = line_after(src, pos, line);
        let rest = errors_from(src, lexeme.end, line);
        match lexeme.yields {
            Yield::Error(message) => seq![ScanErrorView { line, message }] + rest,
            _ => rest,
        }
    } else {
        Seq::empty()
    }
}

#[via_fn]
proof fn errors_from_decreases(src: Seq<u8>, pos: int, line: nat) {
    if 0 <= pos < src.len() {
        lemma_lexeme_bounds(src, pos);
    }
}

/// The tokens end with the end-of-input token, which has an empty lexeme, and hold no
/// other token of that type.
pub open spec fn closed_by_eof(tokens: Seq<TokenView>) -> bool {
    &&& tokens.len() > 0
    &&& tokens.last().typ == TokenTypeView::Eof
    &&& tokens.last().lexeme.len() == 0
    &&& forall|i: int|
        0 <= i < tokens.len() - 1 ==> (#[trigger] tokens[i]).typ != TokenTypeView::Eof
}

} // verus!
