//! The reserved words.

use vstd::prelude::*;
use vstd::string::StringSliceAdditionalSpecFns;
use crate::text::same_bytes;
use crate::token::{TokenType, TokenTypeView};

verus! {

/// The reserved-word table: the keyword that `word` spells, if it spells one. A word is
/// looked up whole: one that only begins with a keyword spells none.
pub open spec fn keyword(word: Seq<u8>) -> Option<TokenTypeView> {
    if word == "and".spec_bytes() {
        Some(TokenTypeView::And)
    } else if word == "class".spec_bytes() {
        Some(TokenTypeView::Class)
    } else if word == "else".spec_bytes() {
        Some(TokenTypeView::Else)
    } else if word == "false".spec_bytes() {
        Some(TokenTypeView::False)
    } else if word == "fun".spec_bytes() {
        Some(TokenTypeView::Fun)
    } else if word == "for".spec_bytes() {
        Some(TokenTypeView::For)
    } else if word == "if".spec_bytes() {
        Some(TokenTypeView::If)
    } else if word == "nil".spec_bytes() {
        Some(TokenTypeView::Nil)
    } else if word == "or".spec_bytes() {
        Some(TokenTypeView::Or)
    } else if word == "print".spec_bytes() {
        Some(TokenTypeView::Print)
    } else if word == "return".spec_bytes() {
        Some(TokenTypeView::Return)
    } else if word == "super".spec_bytes() {
        Some(TokenTypeView::Super)
    } else if word == "this".spec_bytes() {
        Some(TokenTypeView::This)
    } else if word == "true".spec_bytes() {
        Some(TokenTypeView::True)
    } else if word == "var".spec_bytes() {
        Some(TokenTypeView::Var)
    } else if word == "while".spec_bytes() {
        Some(TokenTypeView::While)
    } else {
        None
    }
}

/// The category of a word: its keyword if it is reserved, an identifier otherwise.
pub open spec fn word_type(word: Seq<u8>) -> TokenTypeView {
    match keyword(word) {
        Some(typ) => typ,
        None => TokenTypeView::Ident,
    }
}

/// Looks `word` up in the reserved-word table.
pub fn reserved_word(word: &str) -> (typ: Option<TokenType<'static>>)
    ensures
        typ.deep_view() == keyword(word.spec_bytes()),
{
    if same_bytes(word, "and") {
        Some(TokenType::And)
    } else if same_bytes(word, "class") {
        Some(TokenType::Class)
    } else if same_bytes(word, "else") {
        Some(TokenType::Else)
    } else if same_bytes(word, "false") {
        Some(TokenType::False)
    } else if same_bytes(word, "fun") {
        Some(TokenType::Fun)
    } else if same_bytes(word, "for") {
        Some(TokenType::For)
    } else if same_bytes(word, "if") {
        Some(TokenType::If)
    } else if same_bytes(word, "nil") {
        Some(TokenType::Nil)
    } else if same_bytes(word, "or") {
        Some(TokenType::Or)
    } else if same_bytes(word, "print") {
        Some(TokenType::Print)
    } else if same_bytes(word, "return") {
        Some(TokenType::Return)
    } else if same_bytes(word, "super") {
        Some(TokenType::Super)
    } else if same_bytes(word, "this") {
        Some(TokenType::This)
    } else if same_bytes(word, "true") {
        Some(TokenType::True)
    } else if same_bytes(word, "var") {
        Some(TokenType::Var)
    } else if same_bytes(word, "while") {
        Some(TokenType::While)
    } else {
        None
    }
}

} // verus!
