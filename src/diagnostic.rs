//! Text of diagnostics: how tokens, expectations and parse errors are
//! described to a reader.
use vstd::prelude::*;
use vstd::string::StringExecFns;
use crate::grammar::{ErrorKind, Expected};
use crate::parser::ParseError;
use crate::token::{RegLoc, TokenKind};

verus! {

/// How a token is named in messages.
pub open spec fn describe_kind(k: TokenKind<Seq<char>>) -> Seq<char> {
    match k {
        TokenKind::Section => "section"@,
        TokenKind::Constants => "constants"@,
        TokenKind::Imports => "imports"@,
        TokenKind::Exports => "exports"@,
        TokenKind::Aliases => "aliases"@,
        TokenKind::Code => "code"@,
        TokenKind::RegLoc(RegLoc::Const) => "const"@,
        TokenKind::RegLoc(RegLoc::Global) => "global"@,
        TokenKind::RegLoc(RegLoc::Local) => "local"@,
        TokenKind::Alias => "alias"@,
        TokenKind::Arrow => "=>"@,
        TokenKind::Minus => "-"@,
        TokenKind::LParen => "("@,
        TokenKind::RParen => ")"@,
        TokenKind::LBrac => "["@,
        TokenKind::RBrac => "]"@,
        TokenKind::Period => "."@,
        TokenKind::Comma => ","@,
        TokenKind::Dollar => "$"@,
        TokenKind::Deref => "*"@,
        TokenKind::Int(s) => "number "@ + s,
        TokenKind::Str(s) => "string "@ + s,
        TokenKind::Bool(b) => if b {
            "bool true"@
        } else {
            "bool false"@
        },
        TokenKind::Instruction(s) => "instruction "@ + s,
        TokenKind::Identifier(s) => "identifier "@ + s,
        TokenKind::Error(s) => "<error> "@ + s,
    }
}

/// How an expectation is named in messages.
pub open spec fn describe_expected(e: Expected) -> Seq<char> {
    match e {
        Expected::Section => "section or end of input"@,
        Expected::SectionName => "section name"@,
        Expected::LBrac => "["@,
        Expected::RBrac => "]"@,
        Expected::LiteralOrRBrac => "literal or ]"@,
        Expected::Comma => ","@,
        Expected::Arrow => "=>"@,
        Expected::Literal => "literal"@,
        Expected::Location => "register location"@,
        Expected::Uint => "unsigned integer"@,
        Expected::Identifier => "identifier"@,
    }
}

/// The message of a parse error.
pub open spec fn message_spec(
    kind: ErrorKind,
    expected: Expected,
    found: Option<TokenKind<Seq<char>>>,
) -> Seq<char> {
    let f = match found {
        Some(k) => describe_kind(k),
        None => "end of input"@,
    };
    if kind == ErrorKind::UnknownSectionName {
        "unknown section name "@ + f
    } else {
        "found "@ + f + ", expected "@ + describe_expected(expected)
    }
}

fn joined(a: &str, b: &str) -> (r: String)
    ensures
        r@ == a@ + b@,
{
    let mut r = a.to_owned();
    r.append(b);
    r
}

impl TokenKind<String> {
    /// The name of this token in messages.
    pub fn describe(&self) -> (r: String)
        ensures
            r@ == describe_kind(self@),
    {
        match self {
            TokenKind::Section => "section".to_owned(),
            TokenKind::Constants => "constants".to_owned(),
            TokenKind::Imports => "imports".to_owned(),
            TokenKind::Exports => "exports".to_owned(),
            TokenKind::Aliases => "aliases".to_owned(),
            TokenKind::Code => "code".to_owned(),
            TokenKind::RegLoc(RegLoc::Const) => "const".to_owned(),
            TokenKind::RegLoc(RegLoc::Global) => "global".to_owned(),
            TokenKind::RegLoc(RegLoc::Local) => "local".to_owned(),
            TokenKind::Alias => "alias".to_owned(),
            TokenKind::Arrow => "=>".to_owned(),
            TokenKind::Minus => "-".to_owned(),
            TokenKind::LParen => "(".to_owned(),
            TokenKind::RParen => ")".to_owned(),
            TokenKind::LBrac => "[".to_owned(),
            TokenKind::RBrac => "]".to_owned(),
            TokenKind::Period => ".".to_owned(),
            TokenKind::Comma => ",".to_owned(),
            TokenKind::Dollar => "$".to_owned(),
            TokenKind::Deref => "*".to_owned(),
            TokenKind::Int(s) => joined("number ", s.as_str()),
            TokenKind::Str(s) => joined("string ", s.as_str()),
            TokenKind::Bool(b) => if *b {
                "bool true".to_owned()
            } else {
                "bool false".to_owned()
            },
            TokenKind::Instruction(s) => joined("instruction ", s.as_str()),
            TokenKind::Identifier(s) => joined("identifier ", s.as_str()),
            TokenKind::Error(s) => joined("<error> ", s.as_str()),
        }
    }
}

impl Expected {
    /// The name of this expectation in messages.
    pub fn describe(&self) -> (r: String)
        ensures
            r@ == describe_expected(*self),
    {
        match self {
            Expected::Section => "section or end of input".to_owned(),
            Expected::SectionName => "section name".to_owned(),
            Expected::LBrac => "[".to_owned(),
            Expected::RBrac => "]".to_owned(),
            Expected::LiteralOrRBrac => "literal or ]".to_owned(),
            Expected::Comma => ",".to_owned(),
            Expected::Arrow => "=>".to_owned(),
            Expected::Literal => "literal".to_owned(),
            Expected::Location => "register location".to_owned(),
            Expected::Uint => "unsigned integer".to_owned(),
            Expected::Identifier => "identifier".to_owned(),
        }
    }
}

impl ParseError {
    /// A one-line description of this error.
    pub fn message(&self) -> (r: String)
        ensures
            r@ == message_spec(
                self.kind,
                self.expected,
                match self.found {
                    Some(k) => Some(k@),
                    None => None,
                },
            ),
    {
        let f = match &self.found {
            Some(k) => k.describe(),
            None => "end of input".to_owned(),
        };
        match self.kind {
            ErrorKind::UnknownSectionName => joined("unknown section name ", f.as_str()),
            _ => {
                let head = joined("found ", f.as_str());
                let e = self.expected.describe();
                let mid = joined(head.as_str(), ", expected ");
                joined(mid.as_str(), e.as_str())
            },
        }
    }
}

} // verus!
