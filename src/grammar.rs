//! The grammar of RASM over token kinds, as specification functions.
//!
//! Each rule reads from a token index and gives the tree it builds together
//! with the number of tokens it consumed, or the failure it meets first.
use vstd::prelude::*;
use crate::ast::{Assignment, CodeItemModel, Literal, Operand, Register, SectionModel};
use crate::token::{TokenKind, is_word};

verus! {

/// The kinds of parse failure.
#[derive(Debug, Clone, Copy, PartialEq, Eq)]
pub enum ErrorKind {
    /// A token that the grammar does not allow where it stands.
    UnexpectedToken,
    /// The input ends inside a section.
    IncompleteSection,
    /// The word after `section` names no section kind.
    UnknownSectionName,
}

/// What the grammar expected where a parse failed.
#[derive(Debug, Clone, Copy, PartialEq, Eq)]
pub enum Expected {
    /// `section`, or the end of the input.
    Section,
    /// One of `constants`, `aliases`, `imports`, `exports`, `code`.
    SectionName,
    LBrac,
    RBrac,
    /// A literal, or `]` closing the constants.
    LiteralOrRBrac,
    Comma,
    Arrow,
    Literal,
    /// `const`, `global` or `local`.
    Location,
    Uint,
    Identifier,
}

/// Where and why a parse failed; `at` is a token index, the number of
/// tokens where the input ended.
pub struct Failure {
    pub kind: ErrorKind,
    pub expected: Expected,
    pub at: int,
}

pub type Kinds = Seq<TokenKind<Seq<char>>>;

/// The failure at index `p`: the input ended there, or the token there does
/// not fit.
pub open spec fn fail_at(t: Kinds, p: int, e: Expected) -> Failure {
    Failure {
        kind: if p >= t.len() {
            ErrorKind::IncompleteSection
        } else {
            ErrorKind::UnexpectedToken
        },
        expected: e,
        at: p,
    }
}

/// The decimal digits of `s` read from the left, skipping `_`, in wrapping
/// 64-bit arithmetic.
pub open spec fn int_value(s: Seq<char>) -> u64
    decreases s.len(),
{
    if s.len() == 0 {
        0
    } else {
        let v = int_value(s.drop_last());
        let c = s.last();
        if '0' <= c <= '9' {
            v.wrapping_mul(10).wrapping_add((c as u32 - '0' as u32) as u64)
        } else {
            v
        }
    }
}

/// The mathematical value of the decimal digits of `s`, skipping `_`.
pub open spec fn digits_value(s: Seq<char>) -> nat
    decreases s.len(),
{
    if s.len() == 0 {
        0
    } else {
        let c = s.last();
        if '0' <= c <= '9' {
            digits_value(s.drop_last()) * 10 + (c as u32 - '0' as u32) as nat
        } else {
            digits_value(s.drop_last())
        }
    }
}

/// The literal a token stands for, if it is a literal.
pub open spec fn literal_of(k: TokenKind<Seq<char>>) -> Option<Literal<Seq<char>>> {
    match k {
        TokenKind::Int(s) => Some(Literal::Int(int_value(s) as i64)),
        TokenKind::Str(s) => Some(Literal::Str(s)),
        TokenKind::Bool(b) => Some(Literal::Bool(b)),
        _ => None,
    }
}

/// `location '[' uint ']'` at `p`: four tokens.
pub open spec fn register_at(t: Kinds, p: int) -> Result<Register, Failure> {
    if !(0 <= p < t.len() && t[p] is RegLoc) {
        Err(fail_at(t, p, Expected::Location))
    } else if !(p + 1 < t.len() && t[p + 1] is LBrac) {
        Err(fail_at(t, p + 1, Expected::LBrac))
    } else if !(p + 2 < t.len() && t[p + 2] is Int) {
        Err(fail_at(t, p + 2, Expected::Uint))
    } else if !(p + 3 < t.len() && t[p + 3] is RBrac) {
        Err(fail_at(t, p + 3, Expected::RBrac))
    } else {
        Ok(Register { loc: t[p]->RegLoc_0, index: int_value(t[p + 2]->Int_0) as u32 })
    }
}

/// The operand at `p` and its length in tokens; `None` where no operand
/// starts at `p`.
pub open spec fn operand_at(t: Kinds, p: int) -> Result<Option<(Operand<Seq<char>>, nat)>, Failure> {
    if !(0 <= p < t.len()) {
        Ok(None)
    } else {
        match t[p] {
            TokenKind::Identifier(s) => Ok(Some((Operand::Identifier(s), 1))),
            TokenKind::Int(s) => Ok(Some((Operand::Uint32(int_value(s) as u32), 1))),
            TokenKind::RegLoc(_) => match register_at(t, p) {
                Ok(r) => Ok(Some((Operand::Register(r), 4))),
                Err(f) => Err(f),
            },
            TokenKind::Dollar => {
                if p + 1 < t.len() && literal_of(t[p + 1]) is Some {
                    Ok(Some((Operand::DirectConstant(literal_of(t[p + 1])->Some_0), 2)))
                } else {
                    Err(fail_at(t, p + 1, Expected::Literal))
                }
            },
            _ => Ok(None),
        }
    }
}

/// `xs` put in front of the items of `r`, which came after `k` tokens.
pub open spec fn prepend<X>(xs: Seq<X>, k: nat, r: Result<(Seq<X>, nat), Failure>) -> Result<
    (Seq<X>, nat),
    Failure,
> {
    match r {
        Ok((ys, n)) => Ok((xs + ys, k + n)),
        Err(f) => Err(f),
    }
}

/// `Operand*` from `p`.
pub open spec fn operands_from(t: Kinds, p: int) -> Result<(Seq<Operand<Seq<char>>>, nat), Failure>
    decreases t.len() - p,
{
    match operand_at(t, p) {
        Err(f) => Err(f),
        Ok(None) => Ok((seq![], 0)),
        Ok(Some((o, n))) => prepend(seq![o], n, operands_from(t, p + n)),
    }
}

pub proof fn lemma_operands_fit(t: Kinds, p: int)
    requires
        0 <= p <= t.len(),
    ensures
        operands_from(t, p) matches Ok((_, n)) ==> p + n <= t.len(),
    decreases t.len() - p,
{
    if let Ok(Some((_, n))) = operand_at(t, p) {
        lemma_operands_fit(t, p + n);
    }
}

#[via_fn]
proof fn code_items_decreases(t: Kinds, p: int) {
    if 0 <= p < t.len() {
        lemma_operands_fit(t, p + 1);
    }
}

/// `(Label | Instruction)*` from `p`.
pub open spec fn code_items(t: Kinds, p: int) -> Result<(Seq<CodeItemModel>, nat), Failure>
    decreases t.len() - p,
    via code_items_decreases
{
    if 0 <= p < t.len() && t[p] is Period {
        if p + 1 < t.len() && t[p + 1] is Identifier {
            prepend(seq![CodeItemModel::Label(t[p + 1]->Identifier_0)], 2, code_items(t, p + 2))
        } else {
            Err(fail_at(t, p + 1, Expected::Identifier))
        }
    } else if 0 <= p < t.len() && t[p] is Instruction {
        match operands_from(t, p + 1) {
            Err(f) => Err(f),
            Ok((ops, n)) => prepend(
                seq![CodeItemModel::Instruction(t[p]->Instruction_0, ops)],
                n + 1,
                code_items(t, p + 1 + n),
            ),
        }
    } else {
        Ok((seq![], 0))
    }
}

/// `(Identifier '=>' Register)*` from `p`.
pub open spec fn alias_items(t: Kinds, p: int) -> Result<(Seq<Assignment<Seq<char>>>, nat), Failure>
    decreases t.len() - p,
{
    if 0 <= p < t.len() && t[p] is Identifier {
        if !(p + 1 < t.len() && t[p + 1] is Arrow) {
            Err(fail_at(t, p + 1, Expected::Arrow))
        } else {
            match register_at(t, p + 2) {
                Err(f) => Err(f),
                Ok(r) => prepend(
                    seq![Assignment { name: t[p]->Identifier_0, target: r }],
                    6,
                    alias_items(t, p + 6),
                ),
            }
        }
    } else {
        Ok((seq![], 0))
    }
}

/// `Identifier*` from `p`.
pub open spec fn name_items(t: Kinds, p: int) -> (Seq<Seq<char>>, nat)
    decreases t.len() - p,
{
    if 0 <= p < t.len() && t[p] is Identifier {
        let r = name_items(t, p + 1);
        (seq![t[p]->Identifier_0] + r.0, r.1 + 1)
    } else {
        (seq![], 0)
    }
}

/// `(Literal ',')* ']'` from `p`.
pub open spec fn const_items(t: Kinds, p: int) -> Result<(Seq<Literal<Seq<char>>>, nat), Failure>
    decreases t.len() - p,
{
    if !(0 <= p < t.len()) {
        Err(fail_at(t, p, Expected::LiteralOrRBrac))
    } else if t[p] is RBrac {
        Ok((seq![], 1))
    } else if literal_of(t[p]) is None {
        Err(fail_at(t, p, Expected::LiteralOrRBrac))
    } else if !(p + 1 < t.len() && t[p + 1] is Comma) {
        Err(fail_at(t, p + 1, Expected::Comma))
    } else {
        prepend(seq![literal_of(t[p])->Some_0], 2, const_items(t, p + 2))
    }
}

/// The section body after `section` at `p`, and the number of tokens of the
/// whole section.
pub open spec fn section_at(t: Kinds, p: int) -> Result<(SectionModel, nat), Failure> {
    if !(p + 1 < t.len()) {
        Err(fail_at(t, p + 1, Expected::SectionName))
    } else {
        match t[p + 1] {
            TokenKind::Constants => {
                if p + 2 < t.len() && t[p + 2] is LBrac {
                    match const_items(t, p + 3) {
                        Ok((ls, n)) => Ok((SectionModel::ConstSection(ls), n + 3)),
                        Err(f) => Err(f),
                    }
                } else {
                    Err(fail_at(t, p + 2, Expected::LBrac))
                }
            },
            TokenKind::Aliases => match alias_items(t, p + 2) {
                Ok((xs, n)) => Ok((SectionModel::AliasesSection(xs), n + 2)),
                Err(f) => Err(f),
            },
            TokenKind::Imports => {
                let r = name_items(t, p + 2);
                Ok((SectionModel::ImportsSection(r.0), r.1 + 2))
            },
            TokenKind::Exports => {
                let r = name_items(t, p + 2);
                Ok((SectionModel::ExportsSection(r.0), r.1 + 2))
            },
            TokenKind::Code => match code_items(t, p + 2) {
                Ok((xs, n)) => Ok((SectionModel::CodeSection(xs), n + 2)),
                Err(f) => Err(f),
            },
            k => if is_word(k) {
                Err(
                    Failure {
                        kind: ErrorKind::UnknownSectionName,
                        expected: Expected::SectionName,
                        at: p + 1,
                    },
                )
            } else {
                Err(fail_at(t, p + 1, Expected::SectionName))
            },
        }
    }
}

pub proof fn lemma_code_fit(t: Kinds, p: int)
    requires
        0 <= p <= t.len(),
    ensures
        code_items(t, p) matches Ok((_, n)) ==> p + n <= t.len(),
    decreases t.len() - p,
{
    if p < t.len() && t[p] is Period {
        if p + 1 < t.len() && t[p + 1] is Identifier {
            lemma_code_fit(t, p + 2);
        }
    } else if p < t.len() && t[p] is Instruction {
        lemma_operands_fit(t, p + 1);
        if let Ok((_, n)) = operands_from(t, p + 1) {
            lemma_code_fit(t, p + 1 + n);
        }
    }
}

pub proof fn lemma_alias_fit(t: Kinds, p: int)
    requires
        0 <= p <= t.len(),
    ensures
        alias_items(t, p) matches Ok((_, n)) ==> p + n <= t.len(),
    decreases t.len() - p,
{
    if p < t.len() && t[p] is Identifier && p + 1 < t.len() && t[p + 1] is Arrow && register_at(
        t,
        p + 2,
    ) is Ok {
        lemma_alias_fit(t, p + 6);
    }
}

pub proof fn lemma_names_fit(t: Kinds, p: int)
    requires
        0 <= p <= t.len(),
    ensures
        p + name_items(t, p).1 <= t.len(),
    decreases t.len() - p,
{
    if p < t.len() && t[p] is Identifier {
        lemma_names_fit(t, p + 1);
    }
}

pub proof fn lemma_consts_fit(t: Kinds, p: int)
    requires
        0 <= p <= t.len(),
    ensures
        const_items(t, p) matches Ok((_, n)) ==> p + n <= t.len(),
    decreases t.len() - p,
{
    if p < t.len() && !(t[p] is RBrac) && literal_of(t[p]) is Some && p + 1 < t.len() && t[p
        + 1] is Comma {
        lemma_consts_fit(t, p + 2);
    }
}

pub proof fn lemma_section_fit(t: Kinds, p: int)
    requires
        0 <= p < t.len(),
    ensures
        section_at(t, p) matches Ok((_, n)) ==> 0 < n && p + n <= t.len(),
{
    if p + 1 < t.len() {
        lemma_code_fit(t, p + 2);
        lemma_alias_fit(t, p + 2);
        lemma_names_fit(t, p + 2);
        if p + 2 < t.len() {
            lemma_consts_fit(t, p + 3);
        }
    }
}

/// The first index from `p` on that holds `section`; the number of tokens
/// where there is none.
pub open spec fn next_section(t: Kinds, p: int) -> int
    decreases t.len() - p,
{
    if p < 0 || p >= t.len() {
        t.len() as int
    } else if t[p] is Section {
        p
    } else {
        next_section(t, p + 1)
    }
}

pub proof fn lemma_next_section(t: Kinds, p: int)
    requires
        0 <= p <= t.len(),
    ensures
        p <= next_section(t, p) <= t.len(),
    decreases t.len() - p,
{
    if p < t.len() && !(t[p] is Section) {
        lemma_next_section(t, p + 1);
    }
}

/// Where reading resumes after a failure `f` in the section at `p`: at the
/// next `section` keyword from the failure on, and past `p` in any case.
pub open spec fn resume_after(t: Kinds, p: int, f: Failure) -> int {
    next_section(t, if f.at > p { f.at } else { p + 1 })
}

#[via_fn]
proof fn sections_from_decreases(t: Kinds, p: int) {
    if 0 <= p < t.len() {
        lemma_section_fit(t, p);
        lemma_next_section(t, p + 1);
        if let Err(f) = section_at(t, p) {
            if p < f.at <= t.len() {
                lemma_next_section(t, f.at);
            }
        }
    }
}

/// The sections from `p` to the end of the input, and the failures met on
/// the way. After a failure, reading resumes at the next `section` keyword,
/// so one malformed section does not hide the failures of later ones.
pub open spec fn sections_from(t: Kinds, p: int) -> (Seq<SectionModel>, Seq<Failure>)
    decreases t.len() - p,
    via sections_from_decreases
{
    if !(0 <= p < t.len()) {
        (seq![], seq![])
    } else if !(t[p] is Section) {
        let r = sections_from(t, next_section(t, p + 1));
        (r.0, seq![fail_at(t, p, Expected::Section)] + r.1)
    } else {
        match section_at(t, p) {
            Ok((s, n)) => {
                let r = sections_from(t, p + n);
                (seq![s] + r.0, r.1)
            },
            Err(f) => {
                let r = sections_from(t, resume_after(t, p, f));
                (r.0, seq![f] + r.1)
            },
        }
    }
}

/// The program that the token kinds `t` spell, or every failure met.
pub open spec fn parse_spec(t: Kinds) -> Result<Seq<SectionModel>, Seq<Failure>> {
    let r = sections_from(t, 0);
    if r.1.len() == 0 {
        Ok(r.0)
    } else {
        Err(r.1)
    }
}

} // verus!
