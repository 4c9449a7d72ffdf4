use rasm::lexer::{lex, text_end};
use rasm::token::{RegLoc, Span, Token, TokenKind};

fn kinds(src: &str) -> Vec<TokenKind<String>> {
    lex(src).into_iter().map(|t| t.kind).collect()
}

fn s(x: &str) -> String {
    x.to_string()
}

#[test]
fn keywords_and_punctuation() {
    assert_eq!(
        kinds("section constants imports exports aliases code alias => - ( ) [ ] . , $ *"),
        vec![
            TokenKind::Section,
            TokenKind::Constants,
            TokenKind::Imports,
            TokenKind::Exports,
            TokenKind::Aliases,
            TokenKind::Code,
            TokenKind::Alias,
            TokenKind::Arrow,
            TokenKind::Minus,
            TokenKind::LParen,
            TokenKind::RParen,
            TokenKind::LBrac,
            TokenKind::RBrac,
            TokenKind::Period,
            TokenKind::Comma,
            TokenKind::Dollar,
            TokenKind::Deref,
        ]
    );
}

#[test]
fn locations_and_literals() {
    assert_eq!(
        kinds("const global local 1_000 \"hello\" true false"),
        vec![
            TokenKind::RegLoc(RegLoc::Const),
            TokenKind::RegLoc(RegLoc::Global),
            TokenKind::RegLoc(RegLoc::Local),
            TokenKind::Int(s("1_000")),
            TokenKind::Str(s("\"hello\"")),
            TokenKind::Bool(true),
            TokenKind::Bool(false),
        ]
    );
}

#[test]
fn mnemonics_match_in_any_case() {
    assert_eq!(
        kinds("mov MOV Mov"),
        vec![
            TokenKind::Instruction(s("mov")),
            TokenKind::Instruction(s("MOV")),
            TokenKind::Instruction(s("Mov")),
        ]
    );
    assert_eq!(kinds("GREATER_EQUAL"), vec![TokenKind::Instruction(s("GREATER_EQUAL"))]);
}

#[test]
fn longest_word_wins() {
    assert_eq!(
        kinds("movx constantsy code_ Section"),
        vec![
            TokenKind::Identifier(s("movx")),
            TokenKind::Identifier(s("constantsy")),
            TokenKind::Identifier(s("code_")),
            TokenKind::Identifier(s("Section")),
        ]
    );
}

#[test]
fn comments_and_whitespace_give_no_tokens() {
    assert_eq!(kinds(""), vec![]);
    assert_eq!(kinds("  \t\n# only a comment\n   # another"), vec![]);
    assert_eq!(
        kinds("section # the imports\n  imports\tfoo"),
        kinds("section imports foo")
    );
}

#[test]
fn unknown_characters_become_error_tokens() {
    assert_eq!(
        kinds("foo @ = bar"),
        vec![
            TokenKind::Identifier(s("foo")),
            TokenKind::Error(s("@")),
            TokenKind::Error(s("=")),
            TokenKind::Identifier(s("bar")),
        ]
    );
    assert_eq!(
        kinds("\"1\""),
        vec![TokenKind::Error(s("\"")), TokenKind::Int(s("1")), TokenKind::Error(s("\""))]
    );
}

#[test]
fn spans_are_byte_offsets() {
    let toks = lex("mov  é x");
    assert_eq!(
        toks,
        vec![
            Token { kind: TokenKind::Instruction(s("mov")), span: Span { start: 0, end: 3 } },
            Token { kind: TokenKind::Error(s("é")), span: Span { start: 5, end: 7 } },
            Token { kind: TokenKind::Identifier(s("x")), span: Span { start: 8, end: 9 } },
        ]
    );
    assert_eq!(text_end("mov  é x"), 9);
}

#[test]
fn describe_tokens() {
    assert_eq!(TokenKind::Int(s("12")).describe(), "number 12");
    assert_eq!(TokenKind::Identifier(s("foo")).describe(), "identifier foo");
    assert_eq!(TokenKind::<String>::Comma.describe(), ",");
    assert_eq!(TokenKind::<String>::RegLoc(RegLoc::Global).describe(), "global");
}
