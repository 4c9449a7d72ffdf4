use rasm::ast::{Assignment, CodeItem, Literal, Operand, Register, Section};
use rasm::grammar::{ErrorKind, Expected};
use rasm::lexer::lex;
use rasm::parser::{parse, parse_tokens, ParseError};
use rasm::token::{RegLoc, Span, TokenKind};

fn s(x: &str) -> String {
    x.to_string()
}

fn first_error(src: &str) -> ParseError {
    parse(src).unwrap_err().remove(0)
}

#[test]
fn constants_section() {
    assert_eq!(
        parse("section constants [1, 2, 3,]"),
        Ok(vec![Section::ConstSection(vec![Literal::Int(1), Literal::Int(2), Literal::Int(3)])])
    );
}

#[test]
fn constants_of_every_kind_and_empty() {
    assert_eq!(
        parse("section constants [1_000, \"hi\", true, false,] section constants []"),
        Ok(vec![
            Section::ConstSection(vec![
                Literal::Int(1000),
                Literal::Str(s("\"hi\"")),
                Literal::Bool(true),
                Literal::Bool(false),
            ]),
            Section::ConstSection(vec![]),
        ])
    );
}

#[test]
fn integers_wrap_without_check() {
    assert_eq!(
        parse("section constants [18446744073709551615, 9223372036854775807,]"),
        Ok(vec![Section::ConstSection(vec![Literal::Int(-1), Literal::Int(i64::MAX)])])
    );
    assert_eq!(
        parse("section aliases big => local[4294967296]"),
        Ok(vec![Section::AliasesSection(vec![Assignment {
            name: s("big"),
            target: Register { loc: RegLoc::Local, index: 0 },
        }])])
    );
}

#[test]
fn aliases_section() {
    assert_eq!(
        parse("section aliases foo => global[0]"),
        Ok(vec![Section::AliasesSection(vec![Assignment {
            name: s("foo"),
            target: Register { loc: RegLoc::Global, index: 0 },
        }])])
    );
}

#[test]
fn register_location_and_index_preserved() {
    assert_eq!(
        parse("section aliases a => const[7] b => local[4294967295]"),
        Ok(vec![Section::AliasesSection(vec![
            Assignment { name: s("a"), target: Register { loc: RegLoc::Const, index: 7 } },
            Assignment {
                name: s("b"),
                target: Register { loc: RegLoc::Local, index: 4294967295 },
            },
        ])])
    );
}

#[test]
fn imports_and_exports_sections() {
    assert_eq!(
        parse("section imports foo bar section exports baz"),
        Ok(vec![
            Section::ImportsSection(vec![s("foo"), s("bar")]),
            Section::ExportsSection(vec![s("baz")]),
        ])
    );
}

#[test]
fn code_section() {
    assert_eq!(
        parse("section code mov local[0] .start jump .start"),
        Ok(vec![Section::CodeSection(vec![
            CodeItem::Instruction(
                s("mov"),
                vec![Operand::Register(Register { loc: RegLoc::Local, index: 0 })]
            ),
            CodeItem::Label(s("start")),
            CodeItem::Instruction(s("jump"), vec![]),
            CodeItem::Label(s("start")),
        ])])
    );
}

#[test]
fn operands_of_every_kind() {
    assert_eq!(
        parse("section code ADD x 5 global[2] $\"str\" $7 $true Ret"),
        Ok(vec![Section::CodeSection(vec![
            CodeItem::Instruction(
                s("ADD"),
                vec![
                    Operand::Identifier(s("x")),
                    Operand::Uint32(5),
                    Operand::Register(Register { loc: RegLoc::Global, index: 2 }),
                    Operand::DirectConstant(Literal::Str(s("\"str\""))),
                    Operand::DirectConstant(Literal::Int(7)),
                    Operand::DirectConstant(Literal::Bool(true)),
                ]
            ),
            CodeItem::Instruction(s("Ret"), vec![]),
        ])])
    );
}

#[test]
fn empty_program_and_comments() {
    assert_eq!(parse(""), Ok(vec![]));
    assert_eq!(
        parse("# header\nsection   imports # names\n foo\n\tbar # end"),
        parse("section imports foo bar")
    );
}

#[test]
fn missing_comma_is_reported_at_the_next_literal() {
    let es = parse("section constants [1 2]").unwrap_err();
    assert_eq!(es.len(), 1);
    let e = &es[0];
    assert_eq!(e.kind, ErrorKind::UnexpectedToken);
    assert_eq!(e.expected, Expected::Comma);
    assert_eq!(e.at, 4);
    assert_eq!(e.span, Span { start: 21, end: 22 });
    assert_eq!(e.found, Some(TokenKind::Int(s("2"))));
    assert_eq!(e.message(), "found number 2, expected ,");
}

#[test]
fn trailing_comma_is_required() {
    let e = first_error("section constants [1, 2]");
    assert_eq!(e.kind, ErrorKind::UnexpectedToken);
    assert_eq!(e.expected, Expected::Comma);
    assert_eq!(e.found, Some(TokenKind::RBrac));
    assert_eq!(e.span, Span { start: 23, end: 24 });
}

#[test]
fn unknown_section_name() {
    let e = first_error("section bogus");
    assert_eq!(e.kind, ErrorKind::UnknownSectionName);
    assert_eq!(e.expected, Expected::SectionName);
    assert_eq!(e.span, Span { start: 8, end: 13 });
    assert_eq!(e.message(), "unknown section name identifier bogus");
}

#[test]
fn incomplete_section() {
    let e = first_error("section constants [1,");
    assert_eq!(e.kind, ErrorKind::IncompleteSection);
    assert_eq!(e.expected, Expected::LiteralOrRBrac);
    assert_eq!(e.at, 5);
    assert_eq!(e.span, Span { start: 21, end: 21 });
    assert_eq!(e.found, None);
    assert_eq!(e.message(), "found end of input, expected literal or ]");
    let e = first_error("section");
    assert_eq!(e.kind, ErrorKind::IncompleteSection);
    assert_eq!(e.expected, Expected::SectionName);
}

#[test]
fn unexpected_tokens() {
    let e = first_error("imports foo");
    assert_eq!(e.kind, ErrorKind::UnexpectedToken);
    assert_eq!(e.expected, Expected::Section);
    assert_eq!(e.at, 0);
    let e = first_error("section [");
    assert_eq!(e.kind, ErrorKind::UnexpectedToken);
    assert_eq!(e.expected, Expected::SectionName);
    let e = first_error("section aliases foo global[0]");
    assert_eq!(e.expected, Expected::Arrow);
    let e = first_error("section aliases foo => bar");
    assert_eq!(e.expected, Expected::Location);
    let e = first_error("section aliases foo => local(0]");
    assert_eq!(e.expected, Expected::LBrac);
    let e = first_error("section aliases foo => local[x]");
    assert_eq!(e.expected, Expected::Uint);
    let e = first_error("section aliases foo => local[0");
    assert_eq!(e.kind, ErrorKind::IncompleteSection);
    assert_eq!(e.expected, Expected::RBrac);
    let e = first_error("section code . mov");
    assert_eq!(e.expected, Expected::Identifier);
    let e = first_error("section code mov $ x");
    assert_eq!(e.expected, Expected::Literal);
    let e = first_error("section constants 1");
    assert_eq!(e.expected, Expected::LBrac);
    let e = first_error("section code mov @");
    assert_eq!(e.expected, Expected::Section);
    assert_eq!(e.found, Some(TokenKind::Error(s("@"))));
}

#[test]
fn parse_tokens_anchors_end_of_input_at_given_offset() {
    let toks = lex("section imports");
    assert_eq!(parse_tokens(&toks, 15), Ok(vec![Section::ImportsSection(vec![])]));
    let toks = lex("section");
    let e = parse_tokens(&toks, 42).unwrap_err().remove(0);
    assert_eq!(e.span, Span { start: 42, end: 42 });
}

#[test]
fn imports_section() {
    assert_eq!(
        parse("section imports foo bar"),
        Ok(vec![Section::ImportsSection(vec![s("foo"), s("bar")])])
    );
}

#[test]
fn replacing_whitespace_and_comments_keeps_the_tree() {
    let a = parse("section code mov local[0]\n.start jump .start");
    let b = parse("section code mov local[0] # move\n\t.start   jump # then\n#\n .start");
    assert_eq!(a, b);
    assert!(a.is_ok());
}

#[test]
fn describe_expectations() {
    assert_eq!(Expected::LiteralOrRBrac.describe(), "literal or ]");
    assert_eq!(Expected::Section.describe(), "section or end of input");
}

#[test]
fn errors_in_later_sections_are_reported_too() {
    let es = parse(
        "section bogus 1 2 section imports foo section constants [1 2] section exports x",
    )
    .unwrap_err();
    assert_eq!(es.len(), 2);
    assert_eq!(es[0].kind, ErrorKind::UnknownSectionName);
    assert_eq!(es[0].at, 1);
    assert_eq!(es[1].kind, ErrorKind::UnexpectedToken);
    assert_eq!(es[1].expected, Expected::Comma);
    assert_eq!(es[1].found, Some(TokenKind::Int(s("2"))));
}

#[test]
fn stray_tokens_between_sections_are_skipped_after_one_error() {
    let es = parse("foo bar section imports x 7").unwrap_err();
    assert_eq!(es.len(), 2);
    assert_eq!(es[0].at, 0);
    assert_eq!(es[0].expected, Expected::Section);
    assert_eq!(es[1].at, 5);
    assert_eq!(es[1].found, Some(TokenKind::Int(s("7"))));
}
