//! The scanner: a cursor over a source text that reads it into tokens.

use vstd::prelude::*;
use vstd::string::StringSliceAdditionalSpecFns;
use vstd::utf8::{encode_utf8_valid_utf8, is_char_boundary, valid_utf8};
use crate::bytes::{
    alpha, digit, is_alpha, is_ascii, is_digit, member, ByteClass, BANG, CARRIAGE_RETURN, COMMA,
    DOT, EQUAL, GREATER, LBRACE, LESS, LPAREN, MINUS, NEWLINE, PLUS, QUOTE, RBRACE, RPAREN,
    SEMICOLON, SLASH, SPACE, STAR, TAB,
};
use crate::error::{ScanError, ScanErrorView};
use crate::grammar::{
    closed_by_eof, errors_from, followed_by, lemma_lexeme_bounds, lemma_newlines_none,
    lemma_newlines_split, lemma_run_end, lexeme_at, line_after, newlines, run_end,
    tokens_from, Yield,
};
use crate::keyword::reserved_word;
use crate::laws::lemma_tokens_closed_by_eof;
use crate::text::{lemma_boundaries_of_ascii, lemma_boundary_at_end, slice};
use crate::token::{Token, TokenType, TokenView};

verus! {

/// A cursor over a source text.
///
/// The text is read as bytes. `start` is where the lexeme being read begins, `curr` is the
/// next byte to read, and `line` is the line that the scan is on, counted from 1.
pub struct Scanner<'src> {
    src: &'src str,
    start: usize,
    curr: usize,
    line: usize,
    errors: Vec<ScanError>,
}

/// What a [`Scanner`] is to a specification.
pub struct ScannerView {
    /// The bytes of the source text.
    pub source: Seq<u8>,
    /// The position of the first byte of the lexeme being read.
    pub start: nat,
    /// The position of the next byte to read.
    pub current: nat,
    /// The line that the scan is on, counted from 1.
    pub line: nat,
    /// The errors found so far, oldest first.
    pub errors: Seq<ScanErrorView>,
}

impl ScannerView {
    /// The state is one that a scanner can be in: the source is well-formed UTF-8, the
    /// lexeme being read lies inside it, and the line counter cannot overflow, even if
    /// every byte left to read is a newline.
    pub open spec fn wf(self) -> bool {
        &&& valid_utf8(self.source)
        &&& self.start <= self.current <= self.source.len()
        &&& 1 <= self.line
        &&& self.line + (self.source.len() - self.current) <= usize::MAX
    }

    /// The state of a scanner that has read nothing of `source` yet.
    pub open spec fn fresh(source: Seq<u8>) -> ScannerView {
        ScannerView { source, start: 0, current: 0, line: 1, errors: Seq::empty() }
    }

    /// This state with the lexeme being read beginning at the cursor.
    pub open spec fn at_lexeme(self) -> ScannerView {
        ScannerView { start: self.current, ..self }
    }
}

/// The byte at a position of the source, if the position is inside it.
pub open spec fn byte_at(src: Seq<u8>, pos: int) -> Option<u8> {
    if 0 <= pos < src.len() {
        Some(src[pos])
    } else {
        None
    }
}

/// The step from `before` to `after` reads the lexeme that begins at `before.start`, where
/// the scan is on the line `before.line`, and `token` is the token it yields: the cursor
/// stands at the end of the lexeme, the line is raised by one for each newline in the
/// lexeme, which gives the line of the token, and the lexeme's error, if it is one, is
/// recorded with that line.
pub open spec fn reads_lexeme(
    before: ScannerView,
    after: ScannerView,
    token: Option<TokenView>,
) -> bool {
    let src = before.source;
    let pos = before.start as int;
    let lexeme = lexeme_at(src, pos);
    let line = line_after(src, pos, before.line);
    &&& after == (ScannerView {
        current: lexeme.end as nat,
        line,
        errors: after.errors,
        ..before
    })
    &&& match lexeme.yields {
        Yield::Token(typ) => {
            &&& token == Some(TokenView { typ, lexeme: src.subrange(pos, lexeme.end), line })
            &&& after.errors == before.errors
        },
        Yield::Nothing => token is None && after.errors == before.errors,
        Yield::Error(message) => {
            &&& token is None
            &&& after.errors == before.errors.push(ScanErrorView { line, message })
        },
    }
}

/// A scan that begins in `before` ends in `after` and returns `tokens`: the tokens are
/// those of the source from the cursor on, the errors of that part of the source stand
/// behind the earlier ones, the line is raised by one for each newline read, and the cursor
/// and the lexeme's beginning stand at the end of the source.
pub open spec fn scans(before: ScannerView, after: ScannerView, tokens: Seq<TokenView>) -> bool {
    let src = before.source;
    let pos = before.current as int;
    &&& tokens == tokens_from(src, pos, before.line)
    &&& after == (ScannerView {
        source: src,
        start: src.len(),
        current: src.len(),
        line: before.line + newlines(src, pos, src.len() as int),
        errors: before.errors + errors_from(src, pos, before.line),
    })
}

/// What the reading of one lexeme leaves to be read: the tokens and errors from the lexeme
/// on are its own, then those from its end on, and the newlines are counted likewise.
proof fn lemma_scan_step(before: ScannerView, after: ScannerView, token: Option<TokenView>)
    requires
        before.start == before.current,
        before.current < before.source.len(),
        reads_lexeme(before, after, token),
    ensures
        before.current < after.current <= before.source.len(),
        tokens_from(before.source, before.current as int, before.line) == match token {
            Some(token) => seq![token],
            None => Seq::empty(),
        } + tokens_from(after.source, after.current as int, after.line),
        before.errors + errors_from(before.source, before.current as int, before.line)
            == after.errors + errors_from(after.source, after.current as int, after.line),
        before.line + newlines(
            before.source,
            before.current as int,
            before.source.len() as int,
        ) == after.line + newlines(after.source, after.current as int, after.source.len() as int),
{
    let src = before.source;
    lemma_lexeme_bounds(src, before.current as int);
    lemma_newlines_split(src, before.current as int, after.current as int, src.len() as int);
}

impl<'src> View for Scanner<'src> {
    type V = ScannerView;

    closed spec fn view(&self) -> ScannerView {
        ScannerView {
            source: self.src.spec_bytes(),
            start: self.start as nat,
            current: self.curr as nat,
            line: self.line as nat,
            errors: self.errors.deep_view(),
        }
    }
}

impl<'src> Scanner<'src> {
    /// A scanner at the beginning of `src`, on line 1, with no errors.
    ///
    /// The source must be shorter than `usize::MAX` bytes, as every text in memory is.
    pub fn new(src: &'src str) -> (scanner: Scanner<'src>)
        requires
            src.spec_bytes().len() < usize::MAX,
        ensures
            scanner@ == ScannerView::fresh(src.spec_bytes()),
            scanner@.wf(),
    {
        let scanner = Scanner { src, start: 0, curr: 0, line: 1, errors: Vec::new() };
        proof {
            encode_utf8_valid_utf8(src@);
            assert(scanner.errors.deep_view() =~= Seq::empty());
        }
        scanner
    }

    /// The next byte to read, if any is left.
    pub fn peek(&self) -> (b: Option<u8>)
        ensures
            b == byte_at(self@.source, self@.current as int),
    {
        let bytes = self.src.as_bytes();
        if self.curr < bytes.len() {
            Some(bytes[self.curr])
        } else {
            None
        }
    }

    /// The byte behind the next one, if the source reaches that far.
    pub fn peek_next(&self) -> (b: Option<u8>)
        ensures
            b == byte_at(self@.source, self@.current as int + 1),
    {
        let bytes = self.src.as_bytes();
        if self.curr < bytes.len() && self.curr + 1 < bytes.len() {
            Some(bytes[self.curr + 1])
        } else {
            None
        }
    }

    /// Reads the next byte: returns it and moves past it, or returns `None` at the end of
    /// the source and stays. Only the cursor moves: the line is counted by those who read
    /// lexemes.
    pub fn advance(&mut self) -> (b: Option<u8>)
        ensures
            b == byte_at(old(self)@.source, old(self)@.current as int),
            final(self)@ == (ScannerView {
                current: if b is Some {
                    old(self)@.current + 1
                } else {
                    old(self)@.current
                },
                ..old(self)@
            }),
    {
        let bytes = self.src.as_bytes();
        if self.curr < bytes.len() {
            let b = bytes[self.curr];
            self.curr += 1;
            Some(b)
        } else {
            None
        }
    }

    /// Moves past the next byte if it is `expected`, and tells whether it did. Only the
    /// cursor moves.
    pub fn advance_if_match(&mut self, expected: u8) -> (matched: bool)
        ensures
            matched == followed_by(old(self)@.source, old(self)@.current as int, expected),
            final(self)@ == (ScannerView {
                current: if matched {
                    old(self)@.current + 1
                } else {
                    old(self)@.current
                },
                ..old(self)@
            }),
    {
        let bytes = self.src.as_bytes();
        if self.curr < bytes.len() && bytes[self.curr] == expected {
            self.curr += 1;
            true
        } else {
            false
        }
    }

    /// Begins a lexeme at the cursor: what is read from here on belongs to it.
    pub fn begin_lexeme(&mut self)
        ensures
            final(self)@ == old(self)@.at_lexeme(),
    {
        self.start = self.curr;
    }

    /// Reads the longest run of bytes of `class` that begins at the cursor, and raises the
    /// line by one for each newline in it.
    pub fn skip_run(&mut self, class: ByteClass)
        requires
            old(self)@.wf(),
        ensures
            final(self)@.wf(),
            final(self)@ == ({
                let end = run_end(old(self)@.source, old(self)@.current as int, class);
                ScannerView {
                    current: end as nat,
                    line: old(self)@.line + newlines(
                        old(self)@.source,
                        old(self)@.current as int,
                        end,
                    ),
                    ..old(self)@
                }
            }),
    {
        let bytes = self.src.as_bytes();
        while self.curr < bytes.len() && member(class, bytes[self.curr])
            invariant
                self@.wf(),
                bytes@ == self@.source,
                self@ == (ScannerView { current: self@.current, line: self@.line, ..old(self)@ }),
                old(self)@.current <= self@.current,
                self@.line == old(self)@.line + newlines(
                    self@.source,
                    old(self)@.current as int,
                    self@.current as int,
                ),
                run_end(self@.source, self@.current as int, class) == run_end(
                    old(self)@.source,
                    old(self)@.current as int,
                    class,
                ),
            decreases self@.source.len() - self@.current,
        {
            if bytes[self.curr] == NEWLINE {
                self.line += 1;
            }
            self.curr += 1;
        }
    }

    /// The errors recorded so far, oldest first.
    pub fn errors(&self) -> (errors: &Vec<ScanError>)
        ensures
            errors.deep_view() == self@.errors,
    {
        &self.errors
    }

    /// Gives up the scanner for the errors it recorded, oldest first.
    pub fn into_errors(self) -> (errors: Vec<ScanError>)
        ensures
            errors.deep_view() == self@.errors,
    {
        self.errors
    }

    /// Records an error with this message on the current line.
    fn record(&mut self, message: &str)
        ensures
            final(self)@ == (ScannerView {
                errors: old(self)@.errors.push(
                    ScanErrorView { line: old(self)@.line, message: message@ },
                ),
                ..old(self)@
            }),
    {
        let error = ScanError { line: self.line, message: message.to_string() };
        self.errors.push(error);
        assert(self@.errors =~= old(self)@.errors.push(error@));
    }

    /// Reads the source from the cursor to its end.
    ///
    /// Returns the tokens of the lexemes in order, closed by the end-of-input token, and
    /// records the errors behind those found before. An error does not stop the scan.
    pub fn scan(&mut self) -> (tokens: Vec<Token<'src>>)
        requires
            old(self)@.wf(),
        ensures
            final(self)@.wf(),
            scans(old(self)@, final(self)@, tokens.deep_view()),
            closed_by_eof(tokens.deep_view()),
    {
        let ghost src = self@.source;
        let mut tokens: Vec<Token<'src>> = Vec::new();
        let end = self.src.as_bytes().len();
        while self.curr < end
            invariant
                self@.wf(),
                self@.source == src,
                src == old(self)@.source,
                end == src.len(),
                tokens.deep_view() + tokens_from(src, self@.current as int, self@.line)
                    == tokens_from(src, old(self)@.current as int, old(self)@.line),
                self@.errors + errors_from(src, self@.current as int, self@.line) == old(
                    self,
                )@.errors + errors_from(src, old(self)@.current as int, old(self)@.line),
                self@.line + newlines(src, self@.current as int, src.len() as int) == old(
                    self,
                )@.line + newlines(src, old(self)@.current as int, src.len() as int),
            decreases src.len() - self@.current,
        {
            let ghost before = self@.at_lexeme();
            let token = self.scan_token();
            proof {
                lemma_scan_step(before, self@, token.deep_view());
            }
            if let Some(token) = token {
                tokens.push(token);
            }
        }
        self.begin_lexeme();
        proof {
            lemma_boundary_at_end(src);
        }
        let eof = self.make_token(TokenType::Eof);
        let ghost scanned = tokens.deep_view();
        tokens.push(eof);
        proof {
            assert(eof@.lexeme =~= Seq::empty());
            assert(tokens.deep_view() =~= scanned + seq![eof@]);
            lemma_tokens_closed_by_eof(src, old(self)@.current as int, old(self)@.line);
        }
        tokens
    }

    /// Reads the lexeme that begins at the cursor and returns the token it yields. At the
    /// end of the source there is no lexeme, and nothing is read.
    ///
    /// The first byte decides what the lexeme is, and the lexeme is as long as it can be.
    /// Blanks and comments yield nothing. A byte that begins no lexeme, or a string literal
    /// left open, yields nothing either and is recorded as an error.
    pub fn scan_token(&mut self) -> (token: Option<Token<'src>>)
        requires
            old(self)@.wf(),
        ensures
            final(self)@.wf(),
            old(self)@.current < old(self)@.source.len() ==> reads_lexeme(
                old(self)@.at_lexeme(),
                final(self)@,
                token.deep_view(),
            ),
            old(self)@.current == old(self)@.source.len() ==> {
                &&& token is None
                &&& final(self)@ == old(self)@.at_lexeme()
            },
    {
        self.begin_lexeme();
        let ghost src = self@.source;
        let ghost pos = self@.current as int;
        let b = match self.advance() {
            Some(b) => b,
            None => {
                return None;
            },
        };
        proof {
            if is_ascii(b) {
                lemma_boundaries_of_ascii(src, pos);
            }
            assert(newlines(src, pos, pos) == 0);
        }
        match b {
            LPAREN => Some(self.make_token(TokenType::LParen)),
            RPAREN => Some(self.make_token(TokenType::RParen)),
            LBRACE => Some(self.make_token(TokenType::LBrace)),
            RBRACE => Some(self.make_token(TokenType::RBrace)),
            COMMA => Some(self.make_token(TokenType::Comma)),
            DOT => Some(self.make_token(TokenType::Dot)),
            MINUS => Some(self.make_token(TokenType::Minus)),
            PLUS => Some(self.make_token(TokenType::Plus)),
            SEMICOLON => Some(self.make_token(TokenType::Semicolon)),
            STAR => Some(self.make_token(TokenType::Star)),
            BANG => {
                let typ = if self.advance_if_match(EQUAL) {
                    TokenType::BangEqual
                } else {
                    TokenType::Bang
                };
                proof {
                    lemma_boundaries_of_ascii(src, self@.current - 1);
                    lemma_newlines_none(src, pos, self@.current as int);
                }
                Some(self.make_token(typ))
            },
            EQUAL => {
                let typ = if self.advance_if_match(EQUAL) {
                    TokenType::EqualEqual
                } else {
                    TokenType::Equal
                };
                proof {
                    lemma_boundaries_of_ascii(src, self@.current - 1);
                    lemma_newlines_none(src, pos, self@.current as int);
                }
                Some(self.make_token(typ))
            },
            LESS => {
                let typ = if self.advance_if_match(EQUAL) {
                    TokenType::LessEqual
                } else {
                    TokenType::Less
                };
                proof {
                    lemma_boundaries_of_ascii(src, self@.current - 1);
                    lemma_newlines_none(src, pos, self@.current as int);
                }
                Some(self.make_token(typ))
            },
            GREATER => {
                let typ = if self.advance_if_match(EQUAL) {
                    TokenType::GreaterEqual
                } else {
                    TokenType::Greater
                };
                proof {
                    lemma_boundaries_of_ascii(src, self@.current - 1);
                    lemma_newlines_none(src, pos, self@.current as int);
                }
                Some(self.make_token(typ))
            },
            SLASH => {
                if self.advance_if_match(SLASH) {
                    self.skip_run(ByteClass::CommentBody);
                    proof {
                        lemma_run_end(src, pos + 2, ByteClass::CommentBody);
                        lemma_newlines_none(src, pos, self@.current as int);
                        lemma_newlines_none(src, pos + 2, self@.current as int);
                    }
                    None
                } else {
                    Some(self.make_token(TokenType::Slash))
                }
            },
            SPACE | CARRIAGE_RETURN | TAB => None,
            NEWLINE => {
                self.line += 1;
                None
            },
            QUOTE => self.scan_str(),
            _ => {
                if digit(b) {
                    self.scan_num()
                } else if alpha(b) {
                    self.scan_ident()
                } else {
                    self.record("Unexpected character.");
                    None
                }
            },
        }
    }

    /// Reads the rest of a string literal whose opening quote was just read.
    ///
    /// The literal may span lines. It yields its token when the closing quote is found; at
    /// the end of the source it yields no token and an error is recorded instead.
    pub fn scan_str(&mut self) -> (token: Option<Token<'src>>)
        requires
            old(self)@.wf(),
            old(self)@.current == old(self)@.start + 1,
            old(self)@.source[old(self)@.start as int] == QUOTE,
        ensures
            final(self)@.wf(),
            reads_lexeme(old(self)@, final(self)@, token.deep_view()),
    {
        let ghost src = self@.source;
        let ghost begin = self@.start as int;
        self.skip_run(ByteClass::StringBody);
        proof {
            lemma_run_end(src, begin + 1, ByteClass::StringBody);
            lemma_newlines_none(src, begin, begin + 1);
            lemma_newlines_split(src, begin, begin + 1, self@.current as int);
        }
        if self.advance_if_match(QUOTE) {
            proof {
                lemma_boundaries_of_ascii(src, begin);
                lemma_boundaries_of_ascii(src, self@.current - 1);
            }
            let text = slice(self.src, self.start + 1, self.curr - 1);
            Some(self.make_token(TokenType::Str(text)))
        } else {
            self.record("Unterminated string.");
            None
        }
    }

    /// Reads the rest of a number literal whose first digit was just read: the digits that
    /// follow, and a fraction if a dot and at least one more digit come after them.
    pub fn scan_num(&mut self) -> (token: Option<Token<'src>>)
        requires
            old(self)@.wf(),
            old(self)@.current == old(self)@.start + 1,
            is_digit(old(self)@.source[old(self)@.start as int]),
        ensures
            final(self)@.wf(),
            reads_lexeme(old(self)@, final(self)@, token.deep_view()),
    {
        let ghost src = self@.source;
        let ghost begin = self@.start as int;
        self.skip_run(ByteClass::Digit);
        let ghost whole = self@.current as int;
        proof {
            lemma_run_end(src, begin + 1, ByteClass::Digit);
        }
        let fraction = match self.peek_next() {
            Some(b) => digit(b),
            None => false,
        };
        if self.peek() == Some(DOT) && fraction {
            self.advance();
            self.skip_run(ByteClass::Digit);
            proof {
                lemma_run_end(src, whole + 1, ByteClass::Digit);
                lemma_newlines_none(src, whole + 1, self@.current as int);
            }
        }
        proof {
            lemma_boundaries_of_ascii(src, begin);
            lemma_boundaries_of_ascii(src, self@.current - 1);
            lemma_newlines_none(src, begin + 1, whole);
            lemma_newlines_none(src, begin, self@.current as int);
        }
        Some(self.make_token(TokenType::Number))
    }

    /// Reads the rest of an identifier or keyword whose first byte was just read, and
    /// yields the keyword's token if the word is reserved, an identifier otherwise.
    pub fn scan_ident(&mut self) -> (token: Option<Token<'src>>)
        requires
            old(self)@.wf(),
            old(self)@.current == old(self)@.start + 1,
            is_alpha(old(self)@.source[old(self)@.start as int]),
        ensures
            final(self)@.wf(),
            reads_lexeme(old(self)@, final(self)@, token.deep_view()),
    {
        let ghost src = self@.source;
        let ghost begin = self@.start as int;
        self.skip_run(ByteClass::Word);
        proof {
            lemma_run_end(src, begin + 1, ByteClass::Word);
            lemma_boundaries_of_ascii(src, begin);
            lemma_boundaries_of_ascii(src, self@.current - 1);
            lemma_newlines_none(src, begin + 1, self@.current as int);
            lemma_newlines_none(src, begin, self@.current as int);
        }
        let word = slice(self.src, self.start, self.curr);
        let typ = match reserved_word(word) {
            Some(typ) => typ,
            None => TokenType::Ident,
        };
        Some(self.make_token(typ))
    }

    /// The token of type `typ` for the lexeme between `start` and the cursor, both of which
    /// must stand where a character begins or the source ends.
    pub fn make_token(&self, typ: TokenType<'src>) -> (token: Token<'src>)
        requires
            self@.wf(),
            is_char_boundary(self@.source, self@.start as int),
            is_char_boundary(self@.source, self@.current as int),
        ensures
            token@ == (TokenView {
                typ: typ@,
                lexeme: self@.source.subrange(self@.start as int, self@.current as int),
                line: self@.line,
            }),
    {
        Token { typ, lexeme: slice(self.src, self.start, self.curr), line: self.line }
    }
}

/// Scans a whole source text: returns its tokens, closed by the end-of-input token, and
/// its lexical errors, each in the order of the source.
///
/// The source must be shorter than `usize::MAX` bytes, as every text in memory is.
pub fn scan<'src>(src: &'src str) -> (result: (Vec<Token<'src>>, Vec<ScanError>))
    requires
        src.spec_bytes().len() < usize::MAX,
    ensures
        result.0.deep_view() == tokens_from(src.spec_bytes(), 0, 1),
        result.1.deep_view() == errors_from(src.spec_bytes(), 0, 1),
        closed_by_eof(result.0.deep_view()),
{
    let mut scanner = Scanner::new(src);
    let tokens = scanner.scan();
    let errors = scanner.into_errors();
    (tokens, errors)
}

} // verus!
