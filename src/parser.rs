//! The parser: tokens to sections, following the rules of `grammar`.
use vstd::prelude::*;
use crate::ast::{
    Assignment, CodeItem, Literal, Operand, Register, Section, SectionModel,
    seq_view,
};
use crate::grammar::{
    ErrorKind, Expected, Failure, Kinds, alias_items, code_items, const_items, fail_at, int_value,
    literal_of, name_items, operand_at, operands_from, prepend, register_at, section_at,
    sections_from, parse_spec, next_section, lemma_next_section,
};
use crate::lexer::{byte_offset, lex, lex_spec, text_end};
use crate::token::{Span, Token, TokenKind, is_word, kinds, token_views};

verus! {

/// A parse failure, anchored to a token.
#[derive(Debug, Clone, PartialEq, Eq)]
pub struct ParseError {
    pub kind: ErrorKind,
    pub expected: Expected,
    /// The index of the offending token; the number of tokens where the
    /// input ended.
    pub at: usize,
    /// The span of the offending token, or an empty span at the end of the
    /// input.
    pub span: Span,
    /// The offending token; `None` at the end of the input.
    pub found: Option<TokenKind<String>>,
}

/// The span of token `p`, or the empty span at `end` past the last token.
pub open spec fn span_at(ts: Seq<Token<Seq<char>>>, p: int, end: usize) -> Span {
    if 0 <= p < ts.len() {
        ts[p].span
    } else {
        Span { start: end, end: end }
    }
}

/// `e` reports the failure `f` of a parse of `ts`, whose source ends at
/// byte `end`.
pub open spec fn reports(e: ParseError, f: Failure, ts: Seq<Token<Seq<char>>>, end: usize) -> bool {
    &&& e.kind == f.kind
    &&& e.expected == f.expected
    &&& e.at == f.at
    &&& e.span == span_at(ts, f.at, end)
    &&& if 0 <= f.at < ts.len() {
        e.found matches Some(k) && k@ == ts[f.at].kind
    } else {
        e.found is None
    }
}

pub open spec fn kinds_of(toks: Seq<Token<String>>) -> Kinds {
    kinds(token_views(toks))
}

pub proof fn lemma_prepend_prepend<X>(
    xs: Seq<X>,
    k: nat,
    ys: Seq<X>,
    m: nat,
    r: Result<(Seq<X>, nat), Failure>,
)
    ensures
        prepend(xs, k, prepend(ys, m, r)) == prepend(xs + ys, k + m, r),
{
    if let Ok((zs, n)) = r {
        assert(xs + (ys + zs) =~= (xs + ys) + zs);
    }
}

fn copy_kind(k: &TokenKind<String>) -> (r: TokenKind<String>)
    ensures
        r@ == k@,
{
    match k {
        TokenKind::Section => TokenKind::Section,
        TokenKind::Constants => TokenKind::Constants,
        TokenKind::Imports => TokenKind::Imports,
        TokenKind::Exports => TokenKind::Exports,
        TokenKind::Aliases => TokenKind::Aliases,
        TokenKind::Code => TokenKind::Code,
        TokenKind::RegLoc(l) => TokenKind::RegLoc(*l),
        TokenKind::Alias => TokenKind::Alias,
        TokenKind::Arrow => TokenKind::Arrow,
        TokenKind::Minus => TokenKind::Minus,
        TokenKind::LParen => TokenKind::LParen,
        TokenKind::RParen => TokenKind::RParen,
        TokenKind::LBrac => TokenKind::LBrac,
        TokenKind::RBrac => TokenKind::RBrac,
        TokenKind::Period => TokenKind::Period,
        TokenKind::Comma => TokenKind::Comma,
        TokenKind::Dollar => TokenKind::Dollar,
        TokenKind::Deref => TokenKind::Deref,
        TokenKind::Int(s) => TokenKind::Int(s.clone()),
        TokenKind::Str(s) => TokenKind::Str(s.clone()),
        TokenKind::Bool(b) => TokenKind::Bool(*b),
        TokenKind::Instruction(s) => TokenKind::Instruction(s.clone()),
        TokenKind::Identifier(s) => TokenKind::Identifier(s.clone()),
        TokenKind::Error(s) => TokenKind::Error(s.clone()),
    }
}

/// The error for a failure of kind `kind` at token `p`.
fn error_at(toks: &Vec<Token<String>>, p: usize, kind: ErrorKind, expected: Expected, end: usize) -> (r: ParseError)
    ensures
        reports(r, Failure { kind, expected, at: p as int }, token_views(toks@), end),
{
    if p < toks.len() {
        ParseError { kind, expected, at: p, span: toks[p].span, found: Some(copy_kind(&toks[p].kind)) }
    } else {
        ParseError { kind, expected, at: p, span: Span { start: end, end: end }, found: None }
    }
}

/// The error that `fail_at` describes.
fn fail_exec(toks: &Vec<Token<String>>, p: usize, expected: Expected, end: usize) -> (r: ParseError)
    ensures
        reports(r, fail_at(kinds_of(toks@), p as int, expected), token_views(toks@), end),
{
    let kind = if p >= toks.len() {
        ErrorKind::IncompleteSection
    } else {
        ErrorKind::UnexpectedToken
    };
    error_at(toks, p, kind, expected, end)
}

/// The value of the integer text `s`.
fn int_value_exec(s: &String) -> (r: u64)
    ensures
        r == int_value(s@),
{
    let cs = crate::chars::chars_of(s.as_str());
    let mut v: u64 = 0;
    let mut i: usize = 0;
    while i < cs.len()
        invariant
            cs@ == s@,
            0 <= i <= cs@.len(),
            v == int_value(cs@.subrange(0, i as int)),
        decreases cs@.len() - i,
    {
        let c = cs[i];
        assert(cs@.subrange(0, i + 1).drop_last() =~= cs@.subrange(0, i as int));
        if '0' <= c && c <= '9' {
            v = v.wrapping_mul(10).wrapping_add((c as u32 - '0' as u32) as u64);
        }
        i += 1;
    }
    assert(cs@.subrange(0, i as int) =~= s@);
    v
}

fn literal_exec(k: &TokenKind<String>) -> (r: Option<Literal<String>>)
    ensures
        r is Some == literal_of(k@) is Some,
        r is Some ==> r->Some_0@ == literal_of(k@)->Some_0,
{
    match k {
        TokenKind::Int(s) => Some(Literal::Int(int_value_exec(s) as i64)),
        TokenKind::Str(s) => Some(Literal::Str(s.clone())),
        TokenKind::Bool(b) => Some(Literal::Bool(*b)),
        _ => None,
    }
}

fn register_exec(toks: &Vec<Token<String>>, p: usize, end: usize) -> (r: Result<Register, ParseError>)
    requires
        p <= toks@.len(),
    ensures
        r is Ok == register_at(kinds_of(toks@), p as int) is Ok,
        r is Ok ==> r->Ok_0 == register_at(kinds_of(toks@), p as int)->Ok_0,
        r is Err ==> reports(r->Err_0, register_at(kinds_of(toks@), p as int)->Err_0, token_views(toks@), end),
{
    let ghost t = kinds_of(toks@);
    let n = toks.len();
    let loc = if p < n {
        match &toks[p].kind {
            TokenKind::RegLoc(l) => *l,
            _ => {
                return Err(fail_exec(toks, p, Expected::Location, end));
            },
        }
    } else {
        return Err(fail_exec(toks, p, Expected::Location, end));
    };
    if !(p + 1 < n && matches!(toks[p + 1].kind, TokenKind::LBrac)) {
        return Err(fail_exec(toks, p + 1, Expected::LBrac, end));
    }
    let index = if p + 2 < n {
        match &toks[p + 2].kind {
            TokenKind::Int(s) => int_value_exec(s) as u32,
            _ => {
                return Err(fail_exec(toks, p + 2, Expected::Uint, end));
            },
        }
    } else {
        return Err(fail_exec(toks, p + 2, Expected::Uint, end));
    };
    if !(p + 3 < n && matches!(toks[p + 3].kind, TokenKind::RBrac)) {
        return Err(fail_exec(toks, p + 3, Expected::RBrac, end));
    }
    Ok(Register { loc, index })
}

fn operand_exec(toks: &Vec<Token<String>>, p: usize, end: usize) -> (r: Result<
    Option<(Operand<String>, usize)>,
    ParseError,
>)
    requires
        p <= toks@.len(),
    ensures
        match (r, operand_at(kinds_of(toks@), p as int)) {
            (Ok(None), Ok(None)) => true,
            (Ok(Some((o, n))), Ok(Some((m, k)))) => o@ == m && n == k,
            (Err(e), Err(f)) => reports(e, f, token_views(toks@), end),
            _ => false,
        },
        r matches Ok(Some((_, n))) ==> 0 < n && p + n <= toks@.len(),
{
    if p >= toks.len() {
        return Ok(None);
    }
    match &toks[p].kind {
        TokenKind::Identifier(s) => Ok(Some((Operand::Identifier(s.clone()), 1))),
        TokenKind::Int(s) => Ok(Some((Operand::Uint32(int_value_exec(s) as u32), 1))),
        TokenKind::RegLoc(_) => match register_exec(toks, p, end) {
            Ok(r) => Ok(Some((Operand::Register(r), 4))),
            Err(e) => Err(e),
        },
        TokenKind::Dollar => {
            if p + 1 < toks.len() {
                match literal_exec(&toks[p + 1].kind) {
                    Some(l) => {
                        return Ok(Some((Operand::DirectConstant(l), 2)));
                    },
                    None => {},
                }
            }
            Err(fail_exec(toks, p + 1, Expected::Literal, end))
        },
        _ => Ok(None),
    }
}

/// `Operand*` from `p`.
fn operands_exec(toks: &Vec<Token<String>>, p: usize, end: usize) -> (r: Result<
    (Vec<Operand<String>>, usize),
    ParseError,
>)
    requires
        p <= toks@.len(),
    ensures
        match (r, operands_from(kinds_of(toks@), p as int)) {
            (Ok((os, n)), Ok((ms, k))) => seq_view(os@) == ms && n == k && p + n <= toks@.len(),
            (Err(e), Err(f)) => reports(e, f, token_views(toks@), end),
            _ => false,
        },
{
    let ghost t = kinds_of(toks@);
    let mut out: Vec<Operand<String>> = Vec::new();
    let mut q = p;
    let len = toks.len();
    loop
        invariant
            p <= q <= toks@.len(),
            len == toks@.len(),
            t == kinds_of(toks@),
            operands_from(t, p as int) == prepend(seq_view(out@), (q - p) as nat, operands_from(t, q as int)),
        decreases toks@.len() - q,
    {
        let ghost before = seq_view(out@);
        match operand_exec(toks, q, end) {
            Err(e) => {
                return Err(e);
            },
            Ok(None) => {
                assert(before + seq![] =~= before);
                return Ok((out, q - p));
            },
            Ok(Some((o, n))) => {
                proof {
                    lemma_prepend_prepend(before, (q - p) as nat, seq![o@], n as nat, operands_from(t, q + n));
                }
                out.push(o);
                assert(seq_view(out@) =~= before + seq![o@]);
                q = q + n;
            },
        }
    }
}

/// `(Label | Instruction)*` from `p`.
fn code_exec(toks: &Vec<Token<String>>, p: usize, end: usize) -> (r: Result<
    (Vec<CodeItem>, usize),
    ParseError,
>)
    requires
        p <= toks@.len(),
    ensures
        match (r, code_items(kinds_of(toks@), p as int)) {
            (Ok((xs, n)), Ok((ms, k))) => seq_view(xs@) == ms && n == k && p + n <= toks@.len(),
            (Err(e), Err(f)) => reports(e, f, token_views(toks@), end),
            _ => false,
        },
{
    let ghost t = kinds_of(toks@);
    let mut out: Vec<CodeItem> = Vec::new();
    let mut q = p;
    loop
        invariant
            p <= q <= toks@.len(),
            t == kinds_of(toks@),
            code_items(t, p as int) == prepend(seq_view(out@), (q - p) as nat, code_items(t, q as int)),
        decreases toks@.len() - q,
    {
        let ghost before = seq_view(out@);
        if q >= toks.len() {
            assert(before + seq![] =~= before);
            return Ok((out, q - p));
        }
        match &toks[q].kind {
            TokenKind::Period => {
                let name = if q + 1 < toks.len() {
                    match &toks[q + 1].kind {
                        TokenKind::Identifier(s) => s.clone(),
                        _ => {
                            return Err(fail_exec(toks, q + 1, Expected::Identifier, end));
                        },
                    }
                } else {
                    return Err(fail_exec(toks, q + 1, Expected::Identifier, end));
                };
                let item = CodeItem::Label(name);
                proof {
                    lemma_prepend_prepend(before, (q - p) as nat, seq![item@], 2, code_items(t, q + 2));
                }
                out.push(item);
                assert(seq_view(out@) =~= before + seq![item@]);
                q = q + 2;
            },
            TokenKind::Instruction(m) => {
                let mnemonic = m.clone();
                match operands_exec(toks, q + 1, end) {
                    Err(e) => {
                        return Err(e);
                    },
                    Ok((ops, n)) => {
                        let item = CodeItem::Instruction(mnemonic, ops);
                        proof {
                            lemma_prepend_prepend(
                                before,
                                (q - p) as nat,
                                seq![item@],
                                (n + 1) as nat,
                                code_items(t, q + 1 + n),
                            );
                        }
                        out.push(item);
                        assert(seq_view(out@) =~= before + seq![item@]);
                        q = q + 1 + n;
                    },
                }
            },
            _ => {
                assert(before + seq![] =~= before);
                return Ok((out, q - p));
            },
        }
    }
}

/// `(Identifier '=>' Register)*` from `p`.
fn alias_exec(toks: &Vec<Token<String>>, p: usize, end: usize) -> (r: Result<
    (Vec<Assignment<String>>, usize),
    ParseError,
>)
    requires
        p <= toks@.len(),
    ensures
        match (r, alias_items(kinds_of(toks@), p as int)) {
            (Ok((xs, n)), Ok((ms, k))) => seq_view(xs@) == ms && n == k && p + n <= toks@.len(),
            (Err(e), Err(f)) => reports(e, f, token_views(toks@), end),
            _ => false,
        },
{
    let ghost t = kinds_of(toks@);
    let mut out: Vec<Assignment<String>> = Vec::new();
    let mut q = p;
    loop
        invariant
            p <= q <= toks@.len(),
            t == kinds_of(toks@),
            alias_items(t, p as int) == prepend(seq_view(out@), (q - p) as nat, alias_items(t, q as int)),
        decreases toks@.len() - q,
    {
        let ghost before = seq_view(out@);
        let name = if q < toks.len() {
            match &toks[q].kind {
                TokenKind::Identifier(s) => s.clone(),
                _ => {
                    assert(before + seq![] =~= before);
                    return Ok((out, q - p));
                },
            }
        } else {
            assert(before + seq![] =~= before);
            return Ok((out, q - p));
        };
        if !(q + 1 < toks.len() && matches!(toks[q + 1].kind, TokenKind::Arrow)) {
            return Err(fail_exec(toks, q + 1, Expected::Arrow, end));
        }
        match register_exec(toks, q + 2, end) {
            Err(e) => {
                return Err(e);
            },
            Ok(target) => {
                let item = Assignment { name, target };
                proof {
                    lemma_prepend_prepend(before, (q - p) as nat, seq![item@], 6, alias_items(t, q + 6));
                }
                out.push(item);
                assert(seq_view(out@) =~= before + seq![item@]);
                q = q + 6;
            },
        }
    }
}

/// `Identifier*` from `p`.
fn names_exec(toks: &Vec<Token<String>>, p: usize) -> (r: (Vec<String>, usize))
    requires
        p <= toks@.len(),
    ensures
        seq_view(r.0@) == name_items(kinds_of(toks@), p as int).0,
        r.1 == name_items(kinds_of(toks@), p as int).1,
        p + r.1 <= toks@.len(),
{
    let ghost t = kinds_of(toks@);
    let mut out: Vec<String> = Vec::new();
    let mut q = p;
    loop
        invariant
            p <= q <= toks@.len(),
            t == kinds_of(toks@),
            name_items(t, p as int).0 == seq_view(out@) + name_items(t, q as int).0,
            name_items(t, p as int).1 == (q - p) + name_items(t, q as int).1,
        decreases toks@.len() - q,
    {
        let ghost before = seq_view(out@);
        if q >= toks.len() {
            assert(before + seq![] =~= before);
            return (out, q - p);
        }
        match &toks[q].kind {
            TokenKind::Identifier(s) => {
                let x = s.clone();
                out.push(x);
                assert(seq_view(out@) =~= before + seq![x@]);
                assert(before + (seq![x@] + name_items(t, q + 1).0) =~= seq_view(out@) + name_items(t, q + 1).0);
                q = q + 1;
            },
            _ => {
                assert(before + seq![] =~= before);
                return (out, q - p);
            },
        }
    }
}

/// `(Literal ',')* ']'` from `p`.
fn consts_exec(toks: &Vec<Token<String>>, p: usize, end: usize) -> (r: Result<
    (Vec<Literal<String>>, usize),
    ParseError,
>)
    requires
        p <= toks@.len(),
    ensures
        match (r, const_items(kinds_of(toks@), p as int)) {
            (Ok((xs, n)), Ok((ms, k))) => seq_view(xs@) == ms && n == k && p + n <= toks@.len(),
            (Err(e), Err(f)) => reports(e, f, token_views(toks@), end),
            _ => false,
        },
{
    let ghost t = kinds_of(toks@);
    let mut out: Vec<Literal<String>> = Vec::new();
    let mut q = p;
    loop
        invariant
            p <= q <= toks@.len(),
            t == kinds_of(toks@),
            const_items(t, p as int) == prepend(seq_view(out@), (q - p) as nat, const_items(t, q as int)),
        decreases toks@.len() - q,
    {
        let ghost before = seq_view(out@);
        if q >= toks.len() {
            return Err(fail_exec(toks, q, Expected::LiteralOrRBrac, end));
        }
        if matches!(toks[q].kind, TokenKind::RBrac) {
            assert(before + seq![] =~= before);
            return Ok((out, q + 1 - p));
        }
        let lit = match literal_exec(&toks[q].kind) {
            Some(l) => l,
            None => {
                return Err(fail_exec(toks, q, Expected::LiteralOrRBrac, end));
            },
        };
        if !(q + 1 < toks.len() && matches!(toks[q + 1].kind, TokenKind::Comma)) {
            return Err(fail_exec(toks, q + 1, Expected::Comma, end));
        }
        proof {
            lemma_prepend_prepend(before, (q - p) as nat, seq![lit@], 2, const_items(t, q + 2));
        }
        out.push(lit);
        assert(seq_view(out@) =~= before + seq![lit@]);
        q = q + 2;
    }
}

fn is_word_exec(k: &TokenKind<String>) -> (r: bool)
    ensures
        r == is_word(k@),
{
    match k {
        TokenKind::Section | TokenKind::RegLoc(_) | TokenKind::Alias | TokenKind::Bool(_)
        | TokenKind::Instruction(_) | TokenKind::Identifier(_) => true,
        _ => false,
    }
}

/// The section whose `section` keyword is token `p`, and its length.
fn section_exec(toks: &Vec<Token<String>>, p: usize, end: usize) -> (r: Result<(Section, usize), ParseError>)
    requires
        p < toks@.len(),
    ensures
        match (r, section_at(kinds_of(toks@), p as int)) {
            (Ok((s, n)), Ok((m, k))) => s@ == m && n == k,
            (Err(e), Err(f)) => reports(e, f, token_views(toks@), end),
            _ => false,
        },
        r matches Ok((_, n)) ==> 0 < n && p + n <= toks@.len(),
{
    let len = toks.len();
    if p + 1 >= len {
        return Err(fail_exec(toks, p + 1, Expected::SectionName, end));
    }
    match &toks[p + 1].kind {
        TokenKind::Constants => {
            if p + 2 < len && matches!(toks[p + 2].kind, TokenKind::LBrac) {
                match consts_exec(toks, p + 3, end) {
                    Ok((ls, n)) => Ok((Section::ConstSection(ls), n + 3)),
                    Err(e) => Err(e),
                }
            } else {
                Err(fail_exec(toks, p + 2, Expected::LBrac, end))
            }
        },
        TokenKind::Aliases => match alias_exec(toks, p + 2, end) {
            Ok((xs, n)) => Ok((Section::AliasesSection(xs), n + 2)),
            Err(e) => Err(e),
        },
        TokenKind::Imports => {
            let (xs, n) = names_exec(toks, p + 2);
            Ok((Section::ImportsSection(xs), n + 2))
        },
        TokenKind::Exports => {
            let (xs, n) = names_exec(toks, p + 2);
            Ok((Section::ExportsSection(xs), n + 2))
        },
        TokenKind::Code => match code_exec(toks, p + 2, end) {
            Ok((xs, n)) => Ok((Section::CodeSection(xs), n + 2)),
            Err(e) => Err(e),
        },
        other => {
            if is_word_exec(other) {
                Err(error_at(toks, p + 1, ErrorKind::UnknownSectionName, Expected::SectionName, end))
            } else {
                Err(fail_exec(toks, p + 1, Expected::SectionName, end))
            }
        },
    }
}

/// Each error of `es` reports the failure at the same place in `fs`.
pub open spec fn reports_all(es: Seq<ParseError>, fs: Seq<Failure>, ts: Seq<Token<Seq<char>>>, end: usize) -> bool {
    &&& es.len() == fs.len()
    &&& forall|i: int| 0 <= i < es.len() ==> reports(#[trigger] es[i], fs[i], ts, end)
}

/// The first index from `p` on that holds `section`, or the number of tokens.
fn next_section_exec(toks: &Vec<Token<String>>, p: usize) -> (r: usize)
    ensures
        r == next_section(kinds_of(toks@), p as int),
{
    let len = toks.len();
    if p >= len {
        return len;
    }
    let mut q = p;
    while q < len && !matches!(toks[q].kind, TokenKind::Section)
        invariant
            p <= q <= len,
            len == toks@.len(),
            next_section(kinds_of(toks@), q as int) == next_section(kinds_of(toks@), p as int),
        decreases len - q,
    {
        q += 1;
    }
    q
}

/// Parses a token sequence into sections, or gives every error met. After
/// an error, reading resumes at the next `section` keyword. `end` is the
/// byte length of the source, where a failure at the end of the input is
/// anchored.
pub fn parse_tokens(toks: &Vec<Token<String>>, end: usize) -> (r: Result<Vec<Section>, Vec<ParseError>>)
    ensures
        match (r, parse_spec(kinds_of(toks@))) {
            (Ok(ss), Ok(ms)) => seq_view(ss@) == ms,
            (Err(es), Err(fs)) => reports_all(es@, fs, token_views(toks@), end),
            _ => false,
        },
{
    let ghost t = kinds_of(toks@);
    let ghost ts = token_views(toks@);
    let mut out: Vec<Section> = Vec::new();
    let mut errs: Vec<ParseError> = Vec::new();
    let ghost mut fails: Seq<Failure> = seq![];
    let mut q: usize = 0;
    let len = toks.len();
    while q < len
        invariant
            q <= toks@.len(),
            len == toks@.len(),
            t == kinds_of(toks@),
            ts == token_views(toks@),
            reports_all(errs@, fails, ts, end),
            sections_from(t, 0) == (seq_view(out@) + sections_from(t, q as int).0, fails
                + sections_from(t, q as int).1),
        decreases toks@.len() - q,
    {
        let ghost before = seq_view(out@);
        let ghost fails0 = fails;
        let ghost errs0 = errs@;
        if !matches!(toks[q].kind, TokenKind::Section) {
            let e = fail_exec(toks, q, Expected::Section, end);
            let ghost f = fail_at(t, q as int, Expected::Section);
            let next = next_section_exec(toks, q + 1);
            proof {
                lemma_next_section(t, q + 1);
                let rest = sections_from(t, next as int);
                assert(fails0 + (seq![f] + rest.1) =~= fails0.push(f) + rest.1);
                fails = fails0.push(f);
            }
            errs.push(e);
            assert(errs@ =~= errs0.push(e));
            q = next;
        } else {
            match section_exec(toks, q, end) {
                Ok((sec, n)) => {
                    let ghost sv = sec@;
                    out.push(sec);
                    assert(seq_view(out@) =~= before + seq![sv]);
                    proof {
                        let rest = sections_from(t, (q + n) as int);
                        assert(before + (seq![sv] + rest.0) =~= seq_view(out@) + rest.0);
                    }
                    q = q + n;
                },
                Err(e) => {
                    let ghost f = section_at(t, q as int)->Err_0;
                    let from = if e.at > q {
                        e.at
                    } else {
                        q + 1
                    };
                    let next = next_section_exec(toks, from);
                    proof {
                        if from <= len {
                            lemma_next_section(t, from as int);
                        }
                        let rest = sections_from(t, next as int);
                        assert(fails0 + (seq![f] + rest.1) =~= fails0.push(f) + rest.1);
                        fails = fails0.push(f);
                    }
                    errs.push(e);
                    assert(errs@ =~= errs0.push(e));
                    q = next;
                },
            }
        }
    }
    assert(seq_view(out@) + seq![] =~= seq_view(out@));
    assert(fails + seq![] =~= fails);
    if errs.len() == 0 {
        Ok(out)
    } else {
        Err(errs)
    }
}

/// Lexes and parses the source text `src`.
pub fn parse(src: &str) -> (r: Result<Vec<Section>, Vec<ParseError>>)
    ensures
        match (r, parse_spec(kinds(lex_spec(src@)))) {
            (Ok(ss), Ok(ms)) => seq_view(ss@) == ms,
            (Err(es), Err(fs)) => reports_all(es@, fs, lex_spec(src@), byte_offset(src@, src@.len() as int) as usize),
            _ => false,
        },
{
    let toks = lex(src);
    let end = text_end(src);
    parse_tokens(&toks, end)
}

} // verus!
