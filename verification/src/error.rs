//! Lexical errors and the diagnostics that report them.

use vstd::prelude::*;
use vstd::string::StringExecFns;

verus! {

/// A lexical error: the line it was found on, counted from 1, and what it is.
#[derive(Debug, Clone, PartialEq, Eq)]
pub struct ScanError {
    pub line: usize,
    pub message: String,
}

/// What a [`ScanError`] is to a specification.
pub struct ScanErrorView {
    pub line: nat,
    pub message: Seq<char>,
}

impl View for ScanError {
    type V = ScanErrorView;

    open spec fn view(&self) -> ScanErrorView {
        ScanErrorView { line: self.line as nat, message: self.message@ }
    }
}

impl DeepView for ScanError {
    type V = ScanErrorView;

    open spec fn deep_view(&self) -> ScanErrorView {
        self@
    }
}

/// The message of the error reported for a byte that begins no lexeme.
pub open spec fn unexpected_character() -> Seq<char> {
    "Unexpected character."@
}

/// The message of the error reported for a string literal that the input ends before closing.
pub open spec fn unterminated_string() -> Seq<char> {
    "Unterminated string."@
}

/// The character that writes a digit.
pub open spec fn digit_char(d: nat) -> char
    recommends
        d < 10,
{
    ('0' as u8 + d) as u8 as char
}

/// A number written in decimal, without sign or leading zeros.
pub open spec fn decimal(n: nat) -> Seq<char>
    decreases n,
{
    if n < 10 {
        seq![digit_char(n)]
    } else {
        decimal(n / 10).push(digit_char(n % 10))
    }
}

/// The diagnostic for an error with this message on this line.
pub open spec fn diagnostic(line: nat, message: Seq<char>) -> Seq<char> {
    "[line "@ + decimal(line) + "] Error: "@ + message
}

/// The digit `d`, written out.
fn digit_text(d: usize) -> (text: &'static str)
    requires
        d < 10,
    ensures
        text@ == seq![digit_char(d as nat)],
{
    proof {
        reveal_strlit("0");
        reveal_strlit("1");
        reveal_strlit("2");
        reveal_strlit("3");
        reveal_strlit("4");
        reveal_strlit("5");
        reveal_strlit("6");
        reveal_strlit("7");
        reveal_strlit("8");
        reveal_strlit("9");
    }
    let text = match d {
        0 => "0",
        1 => "1",
        2 => "2",
        3 => "3",
        4 => "4",
        5 => "5",
        6 => "6",
        7 => "7",
        8 => "8",
        _ => "9",
    };
    text
}

/// Writes `n` in decimal behind `text`.
fn append_decimal(text: &mut String, n: usize)
    ensures
        final(text)@ == old(text)@ + decimal(n as nat),
    decreases n,
{
    if n >= 10 {
        append_decimal(text, n / 10);
    }
    text.append(digit_text(n % 10));
}

impl ScanError {
    /// The diagnostic that tells a reader of this error: `[line N] Error: message`.
    pub fn report(&self) -> (text: String)
        ensures
            text@ == diagnostic(self@.line, self@.message),
    {
        let mut text = String::from_str("[line ");
        append_decimal(&mut text, self.line);
        text.append("] Error: ");
        text.append(self.message.as_str());
        text
    }
}

} // verus!
