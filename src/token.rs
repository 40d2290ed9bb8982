use vstd::prelude::*;

verus! {

/// The kinds of tokens of the language.
#[derive(Debug, PartialEq, Eq, Structural, Hash, Clone, Copy)]
pub enum TokenType {
    Illegal,
    Start,
    Assign,
    Plus,
    Minus,
    Multiply,
    Divide,
    Modulo,
    Equal,
    NotEqual,
    GreaterThan,
    GreaterThanOrEqual,
    LessThan,
    LessThanOrEqual,
    And,
    Or,
    Not,
    Comma,
    Semicolon,
    LParenthesis,
    RParenthesis,
    LBracket,
    RBracket,
    LBrace,
    RBrace,
    Identifier,
    True,
    False,
    If,
    Else,
    While,
    Function,
    Return,
    Integer,
    Float,
    String,
}

/// A token: its kind and the source text it stands for.
///
/// Number tokens hold their digits in ASCII (`3.9`), string tokens the text
/// between the delimiters; every other token holds its source glyphs as
/// they were written.
#[derive(Debug, Clone)]
pub struct Token {
    pub token_type: TokenType,
    pub literal: String,
}

impl View for Token {
    type V = (TokenType, Seq<char>);

    open spec fn view(&self) -> (TokenType, Seq<char>) {
        (self.token_type, self.literal@)
    }
}

impl PartialEq for Token {
    fn eq(&self, other: &Token) -> (r: bool) {
        self.token_type == other.token_type && self.literal == other.literal
    }
}

impl vstd::std_specs::cmp::PartialEqSpecImpl for Token {
    open spec fn obeys_eq_spec() -> bool {
        true
    }

    open spec fn eq_spec(&self, other: &Token) -> bool {
        self@ == other@
    }
}

/// The view of the sentinel token that opens every token sequence.
pub open spec fn start_view() -> (TokenType, Seq<char>) {
    (TokenType::Start, Seq::<char>::empty())
}

impl Token {
    pub fn from(token_type: TokenType, literal: String) -> (r: Token)
        ensures
            r.token_type == token_type,
            r.literal@ == literal@,
    {
        Token { token_type, literal }
    }

    pub fn from_str(token_type: TokenType, literal: &str) -> (r: Token)
        ensures
            r.token_type == token_type,
            r.literal@ == literal@,
    {
        Self::from(token_type, String::from_str(literal))
    }

    pub fn start() -> (r: Token)
        ensures
            r@ == start_view(),
    {
        Token::from(TokenType::Start, String::new())
    }

    /// A copy of the token.
    pub fn duplicate(&self) -> (r: Token)
        ensures
            r@ == self@,
    {
        Token { token_type: self.token_type, literal: self.literal.clone() }
    }
}

} // verus!
