//! The token model: one classified lexical unit per value, carrying its raw
//! text where the variant needs it.

use vstd::prelude::*;

use crate::text::str_eq_str;

verus! {

/// One lexical unit produced by scanning a line.
///
/// Keyword variants carry no payload; the remaining variants keep the raw
/// text they were built from (for a string literal, the text between the
/// quotes; for a comment, the text from `!` to the end of the line).
#[derive(Debug)]
pub enum Token {
    Program,
    If,
    Then,
    Else,
    Do,
    While,
    Return,
    End,
    Print,
    Assign(String),
    Operator(String),
    Type(String),
    Str(String),
    Comment(String),
    Identifier(String),
    Variable(String),
    Other(String),
}

/// The mathematical image of a [`Token`]: the same variants over character
/// sequences.
pub enum TokenView {
    Program,
    If,
    Then,
    Else,
    Do,
    While,
    Return,
    End,
    Print,
    Assign(Seq<char>),
    Operator(Seq<char>),
    Type(Seq<char>),
    Str(Seq<char>),
    Comment(Seq<char>),
    Identifier(Seq<char>),
    Variable(Seq<char>),
    Other(Seq<char>),
}

impl View for Token {
    type V = TokenView;

    open spec fn view(&self) -> TokenView {
        match self {
            Token::Program => TokenView::Program,
            Token::If => TokenView::If,
            Token::Then => TokenView::Then,
            Token::Else => TokenView::Else,
            Token::Do => TokenView::Do,
            Token::While => TokenView::While,
            Token::Return => TokenView::Return,
            Token::End => TokenView::End,
            Token::Print => TokenView::Print,
            Token::Assign(s) => TokenView::Assign(s@),
            Token::Operator(s) => TokenView::Operator(s@),
            Token::Type(s) => TokenView::Type(s@),
            Token::Str(s) => TokenView::Str(s@),
            Token::Comment(s) => TokenView::Comment(s@),
            Token::Identifier(s) => TokenView::Identifier(s@),
            Token::Variable(s) => TokenView::Variable(s@),
            Token::Other(s) => TokenView::Other(s@),
        }
    }
}

impl DeepView for Token {
    type V = TokenView;

    open spec fn deep_view(&self) -> TokenView {
        self.view()
    }
}

/// The canonical string value of a token: the fixed keyword label for a
/// keyword variant, the stored payload for a payload variant.
pub open spec fn value_of(t: TokenView) -> Seq<char> {
    match t {
        TokenView::Program => "PROGRAM"@,
        TokenView::If => "IF"@,
        TokenView::Then => "THEN"@,
        TokenView::Else => "ELSE"@,
        TokenView::Do => "DO"@,
        TokenView::While => "WHILE"@,
        TokenView::Return => "RETURN"@,
        TokenView::End => "END"@,
        TokenView::Print => "PRINT"@,
        TokenView::Assign(s) => s,
        TokenView::Operator(s) => s,
        TokenView::Type(s) => s,
        TokenView::Str(s) => s,
        TokenView::Comment(s) => s,
        TokenView::Identifier(s) => s,
        TokenView::Variable(s) => s,
        TokenView::Other(s) => s,
    }
}

impl Token {
    /// Returns the canonical string value of the token.
    pub fn get_value(&self) -> (r: String)
        ensures
            r@ == value_of(self@),
    {
        match self {
            Token::Program => String::from_str("PROGRAM"),
            Token::If => String::from_str("IF"),
            Token::Then => String::from_str("THEN"),
            Token::Else => String::from_str("ELSE"),
            Token::Do => String::from_str("DO"),
            Token::While => String::from_str("WHILE"),
            Token::Return => String::from_str("RETURN"),
            Token::End => String::from_str("END"),
            Token::Print => String::from_str("PRINT"),
            Token::Assign(s) => s.clone(),
            Token::Operator(s) => s.clone(),
            Token::Type(s) => s.clone(),
            Token::Str(s) => s.clone(),
            Token::Comment(s) => s.clone(),
            Token::Identifier(s) => s.clone(),
            Token::Variable(s) => s.clone(),
            Token::Other(s) => s.clone(),
        }
    }
}

impl PartialEq for Token {
    /// Structural equality: same variant and, where one is carried, the same
    /// payload text.
    fn eq(&self, other: &Token) -> (r: bool) {
        match (self, other) {
            (Token::Program, Token::Program) => true,
            (Token::If, Token::If) => true,
            (Token::Then, Token::Then) => true,
            (Token::Else, Token::Else) => true,
            (Token::Do, Token::Do) => true,
            (Token::While, Token::While) => true,
            (Token::Return, Token::Return) => true,
            (Token::End, Token::End) => true,
            (Token::Print, Token::Print) => true,
            (Token::Assign(a), Token::Assign(b)) => str_eq_str(a.as_str(), b.as_str()),
            (Token::Operator(a), Token::Operator(b)) => str_eq_str(a.as_str(), b.as_str()),
            (Token::Type(a), Token::Type(b)) => str_eq_str(a.as_str(), b.as_str()),
            (Token::Str(a), Token::Str(b)) => str_eq_str(a.as_str(), b.as_str()),
            (Token::Comment(a), Token::Comment(b)) => str_eq_str(a.as_str(), b.as_str()),
            (Token::Identifier(a), Token::Identifier(b)) => str_eq_str(a.as_str(), b.as_str()),
            (Token::Variable(a), Token::Variable(b)) => str_eq_str(a.as_str(), b.as_str()),
            (Token::Other(a), Token::Other(b)) => str_eq_str(a.as_str(), b.as_str()),
            _ => false,
        }
    }
}

impl vstd::std_specs::cmp::PartialEqSpecImpl for Token {
    open spec fn obeys_eq_spec() -> bool {
        true
    }

    open spec fn eq_spec(&self, other: &Token) -> bool {
        self@ == other@
    }
}

/// The round-trip law for payload-carrying tokens: the canonical string
/// value of such a token is exactly the stored payload, with no
/// transformation applied.
pub proof fn lemma_value_round_trip(t: TokenView)
    ensures
        t matches TokenView::Assign(s) ==> value_of(t) == s,
        t matches TokenView::Operator(s) ==> value_of(t) == s,
        t matches TokenView::Type(s) ==> value_of(t) == s,
        t matches TokenView::Str(s) ==> value_of(t) == s,
        t matches TokenView::Comment(s) ==> value_of(t) == s,
        t matches TokenView::Identifier(s) ==> value_of(t) == s,
        t matches TokenView::Variable(s) ==> value_of(t) == s,
        t matches TokenView::Other(s) ==> value_of(t) == s,
{
}

} // verus!
