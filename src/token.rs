//! Tokens produced by the lexer.
use vstd::prelude::*;

verus! {

/// A storage class of registers.
#[derive(Debug, Clone, Copy, PartialEq, Eq)]
pub enum RegLoc {
    Const,
    Global,
    Local,
}

/// A half-open range of byte offsets into the source text.
#[derive(Debug, Clone, Copy, PartialEq, Eq)]
pub struct Span {
    pub start: usize,
    pub end: usize,
}

/// The kind of a token. `S` is the text type: `String` for tokens the lexer
/// hands out, `Seq<char>` for their model in specifications.
#[derive(Debug, Clone, PartialEq, Eq)]
pub enum TokenKind<S> {
    Section,
    Constants,
    Imports,
    Exports,
    Aliases,
    Code,
    RegLoc(RegLoc),
    Alias,
    Arrow,
    Minus,
    LParen,
    RParen,
    LBrac,
    RBrac,
    Period,
    Comma,
    Dollar,
    Deref,
    Int(S),
    Str(S),
    Bool(bool),
    Instruction(S),
    Identifier(S),
    /// Text that no token rule matches.
    Error(S),
}

/// A token together with the source bytes it was read from.
#[derive(Debug, Clone, PartialEq, Eq)]
pub struct Token<S> {
    pub kind: TokenKind<S>,
    pub span: Span,
}

impl View for TokenKind<String> {
    type V = TokenKind<Seq<char>>;

    open spec fn view(&self) -> TokenKind<Seq<char>> {
        match self {
            TokenKind::Section => TokenKind::Section,
            TokenKind::Constants => TokenKind::Constants,
            TokenKind::Imports => TokenKind::Imports,
            TokenKind::Exports => TokenKind::Exports,
            TokenKind::Aliases => TokenKind::Aliases,
            TokenKind::Code => TokenKind::Code,
            TokenKind::RegLoc(l) => TokenKind::RegLoc(*l),
            TokenKind::Alias => TokenKind::Alias,
            TokenKind::Arrow => TokenKind::Arrow,
            TokenKind::Minus => TokenKind::Minus,
            TokenKind::LParen => TokenKind::LParen,
            TokenKind::RParen => TokenKind::RParen,
            TokenKind::LBrac => TokenKind::LBrac,
            TokenKind::RBrac => TokenKind::RBrac,
            TokenKind::Period => TokenKind::Period,
            TokenKind::Comma => TokenKind::Comma,
            TokenKind::Dollar => TokenKind::Dollar,
            TokenKind::Deref => TokenKind::Deref,
            TokenKind::Int(s) => TokenKind::Int(s@),
            TokenKind::Str(s) => TokenKind::Str(s@),
            TokenKind::Bool(b) => TokenKind::Bool(*b),
            TokenKind::Instruction(s) => TokenKind::Instruction(s@),
            TokenKind::Identifier(s) => TokenKind::Identifier(s@),
            TokenKind::Error(s) => TokenKind::Error(s@),
        }
    }
}

impl View for Token<String> {
    type V = Token<Seq<char>>;

    open spec fn view(&self) -> Token<Seq<char>> {
        Token { kind: self.kind@, span: self.span }
    }
}

/// The models of a sequence of tokens.
pub open spec fn token_views(ts: Seq<Token<String>>) -> Seq<Token<Seq<char>>> {
    ts.map_values(|t: Token<String>| t@)
}

/// The kinds of a sequence of modelled tokens.
pub open spec fn kinds(ts: Seq<Token<Seq<char>>>) -> Seq<TokenKind<Seq<char>>> {
    ts.map_values(|t: Token<Seq<char>>| t.kind)
}

/// Words that may stand after `section` but name no section kind.
pub open spec fn is_word(k: TokenKind<Seq<char>>) -> bool {
    match k {
        TokenKind::Section | TokenKind::RegLoc(_) | TokenKind::Alias | TokenKind::Bool(_)
        | TokenKind::Instruction(_) | TokenKind::Identifier(_) => true,
        _ => false,
    }
}

} // verus!
