//! The syntax tree that the parser produces.
use vstd::prelude::*;
use crate::token::RegLoc;

verus! {

/// A register: a storage class and an index in it.
#[derive(Debug, Clone, Copy, PartialEq, Eq)]
pub struct Register {
    pub loc: RegLoc,
    pub index: u32,
}

/// A literal value. `S` is the text type: `String`, or `Seq<char>` in models.
#[derive(Debug, Clone, PartialEq, Eq)]
pub enum Literal<S> {
    Int(i64),
    Str(S),
    Bool(bool),
}

/// An operand of an instruction.
#[derive(Debug, Clone, PartialEq, Eq)]
pub enum Operand<S> {
    Identifier(S),
    Uint32(u32),
    Register(Register),
    /// A literal written inline after `$`.
    DirectConstant(Literal<S>),
}

/// A name bound to a register in the aliases section.
#[derive(Debug, Clone, PartialEq, Eq)]
pub struct Assignment<S> {
    pub name: S,
    pub target: Register,
}

/// An entry of the code section.
#[derive(Debug, Clone, PartialEq, Eq)]
pub enum CodeItem {
    /// A mnemonic as written, and its operands.
    Instruction(String, Vec<Operand<String>>),
    /// A label declared with a leading `.`.
    Label(String),
}

/// A section of a program.
#[derive(Debug, Clone, PartialEq, Eq)]
pub enum Section {
    ConstSection(Vec<Literal<String>>),
    AliasesSection(Vec<Assignment<String>>),
    ImportsSection(Vec<String>),
    ExportsSection(Vec<String>),
    CodeSection(Vec<CodeItem>),
}

/// The model of a `CodeItem`.
pub enum CodeItemModel {
    Instruction(Seq<char>, Seq<Operand<Seq<char>>>),
    Label(Seq<char>),
}

/// The model of a `Section`.
pub enum SectionModel {
    ConstSection(Seq<Literal<Seq<char>>>),
    AliasesSection(Seq<Assignment<Seq<char>>>),
    ImportsSection(Seq<Seq<char>>),
    ExportsSection(Seq<Seq<char>>),
    CodeSection(Seq<CodeItemModel>),
}

/// The models of the elements of `s`, in order.
pub open spec fn seq_view<T: View>(s: Seq<T>) -> Seq<T::V> {
    s.map_values(|x: T| x@)
}

impl View for Literal<String> {
    type V = Literal<Seq<char>>;

    open spec fn view(&self) -> Literal<Seq<char>> {
        match self {
            Literal::Int(v) => Literal::Int(*v),
            Literal::Str(s) => Literal::Str(s@),
            Literal::Bool(b) => Literal::Bool(*b),
        }
    }
}

impl View for Operand<String> {
    type V = Operand<Seq<char>>;

    open spec fn view(&self) -> Operand<Seq<char>> {
        match self {
            Operand::Identifier(s) => Operand::Identifier(s@),
            Operand::Uint32(v) => Operand::Uint32(*v),
            Operand::Register(r) => Operand::Register(*r),
            Operand::DirectConstant(l) => Operand::DirectConstant(l@),
        }
    }
}

impl View for Assignment<String> {
    type V = Assignment<Seq<char>>;

    open spec fn view(&self) -> Assignment<Seq<char>> {
        Assignment { name: self.name@, target: self.target }
    }
}

impl View for CodeItem {
    type V = CodeItemModel;

    open spec fn view(&self) -> CodeItemModel {
        match self {
            CodeItem::Instruction(m, ops) => CodeItemModel::Instruction(m@, seq_view(ops@)),
            CodeItem::Label(s) => CodeItemModel::Label(s@),
        }
    }
}

impl View for Section {
    type V = SectionModel;

    open spec fn view(&self) -> SectionModel {
        match self {
            Section::ConstSection(v) => SectionModel::ConstSection(seq_view(v@)),
            Section::AliasesSection(v) => SectionModel::AliasesSection(seq_view(v@)),
            Section::ImportsSection(v) => SectionModel::ImportsSection(seq_view(v@)),
            Section::ExportsSection(v) => SectionModel::ExportsSection(seq_view(v@)),
            Section::CodeSection(v) => SectionModel::CodeSection(seq_view(v@)),
        }
    }
}

} // verus!
