//! The bytes that carry meaning to the scanner, and the classes it sorts them into.

use vstd::prelude::*;

verus! {

// The bytes that the scanner knows by name.
pub const LPAREN: u8 = '(' as u8;

pub const RPAREN: u8 = ')' as u8;

pub const LBRACE: u8 = '{' as u8;

pub const RBRACE: u8 = '}' as u8;

pub const COMMA: u8 = ',' as u8;

pub const DOT: u8 = '.' as u8;

pub const MINUS: u8 = '-' as u8;

pub const PLUS: u8 = '+' as u8;

pub const SEMICOLON: u8 = ';' as u8;

pub const STAR: u8 = '*' as u8;

pub const SLASH: u8 = '/' as u8;

pub const BANG: u8 = '!' as u8;

pub const EQUAL: u8 = '=' as u8;

pub const LESS: u8 = '<' as u8;

pub const GREATER: u8 = '>' as u8;

pub const QUOTE: u8 = '"' as u8;

pub const SPACE: u8 = ' ' as u8;

pub const TAB: u8 = '\t' as u8;

pub const CARRIAGE_RETURN: u8 = '\r' as u8;

pub const NEWLINE: u8 = '\n' as u8;

pub const UNDERSCORE: u8 = '_' as u8;

/// The byte is an ASCII decimal digit.
pub open spec fn is_digit(b: u8) -> bool {
    '0' as u8 <= b <= '9' as u8
}

/// The byte is an ASCII letter or an underscore: it may begin an identifier.
pub open spec fn is_alpha(b: u8) -> bool {
    ||| 'a' as u8 <= b <= 'z' as u8
    ||| 'A' as u8 <= b <= 'Z' as u8
    ||| b == UNDERSCORE
}

/// The byte may continue an identifier.
pub open spec fn is_alphanumeric(b: u8) -> bool {
    is_alpha(b) || is_digit(b)
}

/// The byte is a complete UTF-8 character on its own.
pub open spec fn is_ascii(b: u8) -> bool {
    b <= 0x7f
}

/// The sets of bytes of which the scanner consumes maximal runs.
#[derive(Debug, Clone, Copy)]
pub enum ByteClass {
    /// Decimal digits: the two halves of a number literal.
    Digit,
    /// Letters, digits and underscores: the tail of an identifier.
    Word,
    /// Everything but a double quote: the inside of a string literal.
    StringBody,
    /// Everything but a newline: the text of a line comment.
    CommentBody,
}

/// Membership of a byte in a class.
pub open spec fn in_class(class: ByteClass, b: u8) -> bool {
    match class {
        ByteClass::Digit => is_digit(b),
        ByteClass::Word => is_alphanumeric(b),
        ByteClass::StringBody => b != QUOTE,
        ByteClass::CommentBody => b != NEWLINE,
    }
}

/// Tells whether `b` is an ASCII decimal digit.
pub fn digit(b: u8) -> (r: bool)
    ensures
        r == is_digit(b),
{
    '0' as u8 <= b && b <= '9' as u8
}

/// Tells whether `b` is an ASCII letter or an underscore.
pub fn alpha(b: u8) -> (r: bool)
    ensures
        r == is_alpha(b),
{
    ('a' as u8 <= b && b <= 'z' as u8) || ('A' as u8 <= b && b <= 'Z' as u8) || b == UNDERSCORE
}

/// Tells whether `b` is an ASCII letter, a digit or an underscore.
pub fn alphanumeric(b: u8) -> (r: bool)
    ensures
        r == is_alphanumeric(b),
{
    alpha(b) || digit(b)
}

/// Tells whether `b` is in `class`.
pub fn member(class: ByteClass, b: u8) -> (r: bool)
    ensures
        r == in_class(class, b),
{
    match class {
        ByteClass::Digit => digit(b),
        ByteClass::Word => alphanumeric(b),
        ByteClass::StringBody => b != QUOTE,
        ByteClass::CommentBody => b != NEWLINE,
    }
}

} // verus!
