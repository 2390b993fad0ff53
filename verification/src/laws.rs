//! What holds of every scan, proved from the grammar.

use vstd::prelude::*;
use crate::bytes::{ByteClass, DOT, QUOTE};
use crate::error::{unexpected_character, unterminated_string, ScanErrorView};
use crate::grammar::{
    closed_by_eof, errors_from, is_numeral, lemma_lexeme_bounds, lemma_newlines_split,
    lemma_run_end, lexeme_at, line_after, newlines, punctuation, run_end, tokens_from, Yield,
};
use crate::scanner::{scans, ScannerView};
use crate::token::{TokenTypeView, TokenView};

verus! {

/// Whatever the source holds, and wherever in it and on whatever line a scan begins, the
/// tokens of the scan end with exactly one end-of-input token, whose lexeme is empty.
pub proof fn lemma_tokens_closed_by_eof(src: Seq<u8>, pos: int, line: nat)
    ensures
        closed_by_eof(tokens_from(src, pos, line)),
    decreases src.len() - pos,
{
    if 0 <= pos < src.len() {
        lemma_lexeme_bounds(src, pos);
        lemma_tokens_closed_by_eof(src, lexeme_at(src, pos).end, line_after(src, pos, line));
    }
}

/// A source that is one punctuation byte and nothing else scans to the token of that byte,
/// with the byte as its lexeme, and the end-of-input token, on line 1 and without errors.
pub proof fn lemma_single_punctuation(b: u8)
    requires
        punctuation(b) is Some,
    ensures
        tokens_from(seq![b], 0, 1) == seq![
            TokenView { typ: punctuation(b)->0, lexeme: seq![b], line: 1 },
            TokenView { typ: TokenTypeView::Eof, lexeme: Seq::empty(), line: 1 },
        ],
        errors_from(seq![b], 0, 1) == Seq::<ScanErrorView>::empty(),
{
    let src = seq![b];
    reveal_with_fuel(tokens_from, 2);
    reveal_with_fuel(errors_from, 2);
    reveal_with_fuel(newlines, 2);
    assert(src.subrange(0, 1) =~= src);
}

/// A scan is a function of the state it begins in: two scanners that begin in the same
/// state, such as two fresh scanners of one source, return the same tokens and end in the
/// same state, with the same errors.
pub proof fn lemma_scan_repeatable(
    before: ScannerView,
    first: ScannerView,
    first_tokens: Seq<TokenView>,
    second: ScannerView,
    second_tokens: Seq<TokenView>,
)
    requires
        scans(before, first, first_tokens),
        scans(before, second, second_tokens),
    ensures
        first_tokens == second_tokens,
        first.errors == second.errors,
        first == second,
{
}

/// The line counter never goes back: the tokens of a scan are on lines in rising order,
/// none before the line that the scan begins on, and none further on than one line for
/// each newline of the source from there.
pub proof fn lemma_token_lines_rise(src: Seq<u8>, pos: int, line: nat, i: int, j: int)
    requires
        0 <= i <= j < tokens_from(src, pos, line).len(),
    ensures
        line <= tokens_from(src, pos, line)[i].line,
        tokens_from(src, pos, line)[i].line <= tokens_from(src, pos, line)[j].line,
        tokens_from(src, pos, line)[j].line <= line + newlines(src, pos, src.len() as int),
    decreases src.len() - pos,
{
    if 0 <= pos < src.len() {
        let lexeme = lexeme_at(src, pos);
        let next = line_after(src, pos, line);
        lemma_lexeme_bounds(src, pos);
        lemma_newlines_split(src, pos, lexeme.end, src.len() as int);
        match lexeme.yields {
            Yield::Token(_) => {
                if i > 0 {
                    lemma_token_lines_rise(src, lexeme.end, next, i - 1, j - 1);
                } else if j > 0 {
                    lemma_token_lines_rise(src, lexeme.end, next, j - 1, j - 1);
                }
            },
            _ => {
                lemma_token_lines_rise(src, lexeme.end, next, i, j);
            },
        }
    }
}

/// There are two kinds of lexical error and no other: every error of a scan is an
/// unexpected character or an unterminated string.
pub proof fn lemma_two_kinds_of_error(src: Seq<u8>, pos: int, line: nat, i: int)
    requires
        0 <= i < errors_from(src, pos, line).len(),
    ensures
        errors_from(src, pos, line)[i].message == unexpected_character() || errors_from(
            src,
            pos,
            line,
        )[i].message == unterminated_string(),
    decreases src.len() - pos,
{
    if 0 <= pos < src.len() {
        let lexeme = lexeme_at(src, pos);
        let next = line_after(src, pos, line);
        lemma_lexeme_bounds(src, pos);
        match lexeme.yields {
            Yield::Error(_) => {
                if i > 0 {
                    lemma_two_kinds_of_error(src, lexeme.end, next, i - 1);
                }
            },
            _ => {
                lemma_two_kinds_of_error(src, lexeme.end, next, i);
            },
        }
    }
}

/// Every token but the end-of-input token was read from a lexeme of the source: there is a
/// position at or behind the beginning of the scan where a lexeme yields the token's type,
/// the text of that lexeme, which is not empty, is the token's, and the token's line is
/// the line of the beginning of the scan, raised by one for each newline from there to
/// the end of the lexeme.
pub proof fn lemma_token_origin(src: Seq<u8>, pos: int, line: nat, i: int) -> (at: int)
    requires
        0 <= pos,
        0 <= i < tokens_from(src, pos, line).len() - 1,
    ensures
        pos <= at < lexeme_at(src, at).end <= src.len(),
        lexeme_at(src, at).yields == Yield::Token(tokens_from(src, pos, line)[i].typ),
        tokens_from(src, pos, line)[i].lexeme == src.subrange(at, lexeme_at(src, at).end),
        tokens_from(src, pos, line)[i].line == line + newlines(
            src,
            pos,
            lexeme_at(src, at).end,
        ),
    decreases src.len() - pos,
{
    let lexeme = lexeme_at(src, pos);
    let next = line_after(src, pos, line);
    lemma_lexeme_bounds(src, pos);
    let at = match lexeme.yields {
        Yield::Token(_) => {
            if i == 0 {
                pos
            } else {
                lemma_token_origin(src, lexeme.end, next, i - 1)
            }
        },
        _ => lemma_token_origin(src, lexeme.end, next, i),
    };
    lemma_newlines_split(src, pos, lexeme.end, lexeme_at(src, at).end);
    at
}

/// The lexeme of every number token is a numeral.
pub proof fn lemma_numbers_are_numerals(src: Seq<u8>, pos: int, line: nat, i: int)
    requires
        0 <= pos,
        0 <= i < tokens_from(src, pos, line).len(),
        tokens_from(src, pos, line)[i].typ == TokenTypeView::Number,
    ensures
        is_numeral(tokens_from(src, pos, line)[i].lexeme),
{
    lemma_tokens_closed_by_eof(src, pos, line);
    let at = lemma_token_origin(src, pos, line, i);
    let end = lexeme_at(src, at).end;
    let text = src.subrange(at, end);
    let whole = run_end(src, at, ByteClass::Digit);
    lemma_run_end(src, at, ByteClass::Digit);
    if end != whole {
        lemma_run_end(src, whole + 1, ByteClass::Digit);
        assert(text[whole - at] == DOT);
    }
}

/// The lexeme of every string token is its text between two double quotes, and the text
/// holds no double quote.
pub proof fn lemma_strings_are_quoted(src: Seq<u8>, pos: int, line: nat, i: int)
    requires
        0 <= pos,
        0 <= i < tokens_from(src, pos, line).len(),
        tokens_from(src, pos, line)[i].typ is Str,
    ensures
        ({
            let token = tokens_from(src, pos, line)[i];
            let text = token.typ->Str_0;
            &&& token.lexeme == seq![QUOTE] + text + seq![QUOTE]
            &&& forall|j: int| 0 <= j < text.len() ==> #[trigger] text[j] != QUOTE
        }),
{
    lemma_tokens_closed_by_eof(src, pos, line);
    let at = lemma_token_origin(src, pos, line, i);
    lemma_run_end(src, at + 1, ByteClass::StringBody);
}

} // verus!
