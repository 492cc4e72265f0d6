//! The tokens of simpIL.

use crate::text::{ascii_chars, bracketed, decimal_digits, decimal_string, join_comma};
use vstd::prelude::*;
use vstd::std_specs::cmp::PartialEqSpecImpl;

verus! {

/// What a token is, together with the value it carries, if any.
#[derive(Debug)]
pub enum TokenType {
    /// A byte that begins no token.
    Invalid(u8),
    /// Blank text, which is recognized but carries no meaning.
    Ignore,
    /// Left parenthesis.
    LeftParen,
    /// Right parenthesis.
    RightParen,
    /// Comma.
    Comma,
    /// Plus, the addition operator.
    Plus,
    /// Minus, the subtraction operator.
    Minus,
    /// Star, the multiplication operator.
    Star,
    /// Slash, the division operator.
    Slash,
    /// Assignment, written `:=`.
    Assign,
    /// A 32-bit unsigned integer.
    Value(u32),
    /// A name.
    Identifier(String),
    /// The keyword that stores a value in a register.
    Store,
    /// The keyword that moves execution to a given statement.
    Goto,
    /// The keyword that asserts a condition.
    Assert,
    /// The first keyword of a conditional.
    If,
    /// The second keyword of a conditional.
    Then,
    /// The third keyword of a conditional.
    Else,
    /// The keyword that loads the value of a register.
    Load,
    /// The keyword that reads a value from the external input.
    GetInput,
}

/// The mathematical value of a [`TokenType`]: the same variants, with a name
/// held as a sequence of characters.
pub ghost enum TokenKind {
    Invalid(u8),
    Ignore,
    LeftParen,
    RightParen,
    Comma,
    Plus,
    Minus,
    Star,
    Slash,
    Assign,
    Value(u32),
    Identifier(Seq<char>),
    Store,
    Goto,
    Assert,
    If,
    Then,
    Else,
    Load,
    GetInput,
}

impl TokenKind {
    /// True for the four binary operators.
    pub open spec fn is_binary_operator(self) -> bool {
        self is Plus || self is Minus || self is Star || self is Slash
    }

    /// True for the kinds with which a statement begins.
    pub open spec fn starts_statement(self) -> bool {
        self is Identifier || self is Store || self is Goto || self is Assert || self is If
    }

    /// The text that shows this kind: the variant's name, followed in
    /// parentheses by what it carries.
    pub open spec fn render(self) -> Seq<char> {
        match self {
            TokenKind::Invalid(b) => "Invalid("@ + ascii_chars(decimal_digits(b as nat)) + ")"@,
            TokenKind::Ignore => "Ignore"@,
            TokenKind::LeftParen => "LeftParen"@,
            TokenKind::RightParen => "RightParen"@,
            TokenKind::Comma => "Comma"@,
            TokenKind::Plus => "Plus"@,
            TokenKind::Minus => "Minus"@,
            TokenKind::Star => "Star"@,
            TokenKind::Slash => "Slash"@,
            TokenKind::Assign => "Assign"@,
            TokenKind::Value(v) => "Value("@ + ascii_chars(decimal_digits(v as nat)) + ")"@,
            TokenKind::Identifier(name) => "Identifier(\""@ + name + "\")"@,
            TokenKind::Store => "Store"@,
            TokenKind::Goto => "Goto"@,
            TokenKind::Assert => "Assert"@,
            TokenKind::If => "If"@,
            TokenKind::Then => "Then"@,
            TokenKind::Else => "Else"@,
            TokenKind::Load => "Load"@,
            TokenKind::GetInput => "GetInput"@,
        }
    }
}

impl View for TokenType {
    type V = TokenKind;

    open spec fn view(&self) -> TokenKind {
        match self {
            TokenType::Invalid(b) => TokenKind::Invalid(*b),
            TokenType::Ignore => TokenKind::Ignore,
            TokenType::LeftParen => TokenKind::LeftParen,
            TokenType::RightParen => TokenKind::RightParen,
            TokenType::Comma => TokenKind::Comma,
            TokenType::Plus => TokenKind::Plus,
            TokenType::Minus => TokenKind::Minus,
            TokenType::Star => TokenKind::Star,
            TokenType::Slash => TokenKind::Slash,
            TokenType::Assign => TokenKind::Assign,
            TokenType::Value(v) => TokenKind::Value(*v),
            TokenType::Identifier(name) => TokenKind::Identifier(name@),
            TokenType::Store => TokenKind::Store,
            TokenType::Goto => TokenKind::Goto,
            TokenType::Assert => TokenKind::Assert,
            TokenType::If => TokenKind::If,
            TokenType::Then => TokenKind::Then,
            TokenType::Else => TokenKind::Else,
            TokenType::Load => TokenKind::Load,
            TokenType::GetInput => TokenKind::GetInput,
        }
    }
}

impl Clone for TokenType {
    fn clone(&self) -> (res: Self)
        ensures
            res@ == self@,
    {
        match self {
            TokenType::Invalid(b) => TokenType::Invalid(*b),
            TokenType::Ignore => TokenType::Ignore,
            TokenType::LeftParen => TokenType::LeftParen,
            TokenType::RightParen => TokenType::RightParen,
            TokenType::Comma => TokenType::Comma,
            TokenType::Plus => TokenType::Plus,
            TokenType::Minus => TokenType::Minus,
            TokenType::Star => TokenType::Star,
            TokenType::Slash => TokenType::Slash,
            TokenType::Assign => TokenType::Assign,
            TokenType::Value(v) => TokenType::Value(*v),
            TokenType::Identifier(name) => TokenType::Identifier(name.clone()),
            TokenType::Store => TokenType::Store,
            TokenType::Goto => TokenType::Goto,
            TokenType::Assert => TokenType::Assert,
            TokenType::If => TokenType::If,
            TokenType::Then => TokenType::Then,
            TokenType::Else => TokenType::Else,
            TokenType::Load => TokenType::Load,
            TokenType::GetInput => TokenType::GetInput,
        }
    }
}

impl PartialEq for TokenType {
    fn eq(&self, other: &Self) -> (res: bool) {
        match (self, other) {
            (TokenType::Invalid(a), TokenType::Invalid(b)) => *a == *b,
            (TokenType::Ignore, TokenType::Ignore) => true,
            (TokenType::LeftParen, TokenType::LeftParen) => true,
            (TokenType::RightParen, TokenType::RightParen) => true,
            (TokenType::Comma, TokenType::Comma) => true,
            (TokenType::Plus, TokenType::Plus) => true,
            (TokenType::Minus, TokenType::Minus) => true,
            (TokenType::Star, TokenType::Star) => true,
            (TokenType::Slash, TokenType::Slash) => true,
            (TokenType::Assign, TokenType::Assign) => true,
            (TokenType::Value(a), TokenType::Value(b)) => *a == *b,
            (TokenType::Identifier(a), TokenType::Identifier(b)) => *a == *b,
            (TokenType::Store, TokenType::Store) => true,
            (TokenType::Goto, TokenType::Goto) => true,
            (TokenType::Assert, TokenType::Assert) => true,
            (TokenType::If, TokenType::If) => true,
            (TokenType::Then, TokenType::Then) => true,
            (TokenType::Else, TokenType::Else) => true,
            (TokenType::Load, TokenType::Load) => true,
            (TokenType::GetInput, TokenType::GetInput) => true,
            _ => false,
        }
    }
}

impl PartialEqSpecImpl for TokenType {
    open spec fn obeys_eq_spec() -> bool {
        true
    }

    open spec fn eq_spec(&self, other: &Self) -> bool {
        self@ == other@
    }
}

impl TokenType {
    /// True for the four binary operators.
    pub fn is_binary_operator(&self) -> (res: bool)
        ensures
            res == self@.is_binary_operator(),
    {
        match self {
            TokenType::Plus | TokenType::Minus | TokenType::Star | TokenType::Slash => true,
            _ => false,
        }
    }

    /// True for the token types with which a statement begins.
    pub fn starts_statement(&self) -> (res: bool)
        ensures
            res == self@.starts_statement(),
    {
        match self {
            TokenType::Identifier(_)
            | TokenType::Store
            | TokenType::Goto
            | TokenType::Assert
            | TokenType::If => true,
            _ => false,
        }
    }

    /// Shows the token type as text.
    pub fn to_string(&self) -> (s: String)
        ensures
            s@ == self@.render(),
    {
        match self {
            TokenType::Invalid(b) => {
                let mut s = String::from_str("Invalid(");
                s.append(decimal_string(*b as u32).as_str());
                s.append(")");
                s
            },
            TokenType::Ignore => String::from_str("Ignore"),
            TokenType::LeftParen => String::from_str("LeftParen"),
            TokenType::RightParen => String::from_str("RightParen"),
            TokenType::Comma => String::from_str("Comma"),
            TokenType::Plus => String::from_str("Plus"),
            TokenType::Minus => String::from_str("Minus"),
            TokenType::Star => String::from_str("Star"),
            TokenType::Slash => String::from_str("Slash"),
            TokenType::Assign => String::from_str("Assign"),
            TokenType::Value(v) => {
                let mut s = String::from_str("Value(");
                s.append(decimal_string(*v).as_str());
                s.append(")");
                s
            },
            TokenType::Identifier(name) => {
                let mut s = String::from_str("Identifier(\"");
                s.append(name.as_str());
                s.append("\")");
                s
            },
            TokenType::Store => String::from_str("Store"),
            TokenType::Goto => String::from_str("Goto"),
            TokenType::Assert => String::from_str("Assert"),
            TokenType::If => String::from_str("If"),
            TokenType::Then => String::from_str("Then"),
            TokenType::Else => String::from_str("Else"),
            TokenType::Load => String::from_str("Load"),
            TokenType::GetInput => String::from_str("GetInput"),
        }
    }
}

/// A token: its type, the source text it was read from, and the line it is on.
#[derive(Debug)]
pub struct Token {
    pub token_type: TokenType,
    pub lexeme: String,
    pub line: usize,
}

/// The mathematical value of a [`Token`].
pub ghost struct TokenView {
    pub token_type: TokenKind,
    pub lexeme: Seq<char>,
    pub line: usize,
}

impl View for Token {
    type V = TokenView;

    open spec fn view(&self) -> TokenView {
        TokenView { token_type: self.token_type@, lexeme: self.lexeme@, line: self.line }
    }
}

impl Clone for Token {
    fn clone(&self) -> (res: Self)
        ensures
            res@ == self@,
    {
        Token {
            token_type: self.token_type.clone(),
            lexeme: self.lexeme.clone(),
            line: self.line,
        }
    }
}

impl PartialEq for Token {
    fn eq(&self, other: &Self) -> (res: bool) {
        self.token_type == other.token_type && self.lexeme == other.lexeme && self.line
            == other.line
    }
}

impl PartialEqSpecImpl for Token {
    open spec fn obeys_eq_spec() -> bool {
        true
    }

    open spec fn eq_spec(&self, other: &Self) -> bool {
        self@ == other@
    }
}

impl Token {
    /// Shows the token as text: the text of its type.
    pub fn to_string(&self) -> (s: String)
        ensures
            s@ == self@.token_type.render(),
    {
        self.token_type.to_string()
    }
}

/// The values of a sequence of tokens, in order.
pub open spec fn token_views(tokens: Seq<Token>) -> Seq<TokenView> {
    Seq::new(tokens.len(), |i: int| tokens[i]@)
}

/// The texts that show the tokens, in order.
pub open spec fn token_texts(tokens: Seq<TokenView>) -> Seq<Seq<char>> {
    Seq::new(tokens.len(), |i: int| tokens[i].token_type.render())
}

/// Shows the tokens as a list.
pub fn render_tokens(tokens: &Vec<Token>) -> (s: String)
    ensures
        s@ == bracketed(token_texts(token_views(tokens@))),
{
    let ghost texts = token_texts(token_views(tokens@));
    let mut s = String::from_str("[");
    let mut i: usize = 0;
    assert(texts.take(0) =~= Seq::<Seq<char>>::empty());
    while i < tokens.len()
        invariant
            i <= tokens.len(),
            texts == token_texts(token_views(tokens@)),
            s@ == "["@ + join_comma(texts.take(i as int)),
        decreases tokens.len() - i,
    {
        assert(texts.take(i + 1).drop_last() =~= texts.take(i as int));
        assert(texts.take(i + 1).last() == tokens@[i as int]@.token_type.render());
        if i > 0 {
            s.append(",");
            s.append(tokens[i].to_string().as_str());
            assert(s@ =~= "["@ + join_comma(texts.take(i + 1)));
        } else {
            s.append(tokens[i].to_string().as_str());
            assert(s@ =~= "["@ + join_comma(texts.take(i + 1)));
        }
        i = i + 1;
    }
    assert(texts.take(i as int) =~= texts);
    s.append("]");
    s
}

/// A copy of the tokens.
pub fn copy_tokens(tokens: &Vec<Token>) -> (res: Vec<Token>)
    ensures
        token_views(res@) == token_views(tokens@),
{
    let mut res: Vec<Token> = Vec::new();
    let mut i: usize = 0;
    while i < tokens.len()
        invariant
            i <= tokens.len(),
            res.len() == i,
            forall|j: int| 0 <= j < i ==> res@[j]@ == tokens@[j]@,
        decreases tokens.len() - i,
    {
        res.push(tokens[i].clone());
        i = i + 1;
    }
    assert(token_views(res@) =~= token_views(tokens@));
    res
}

} // verus!
