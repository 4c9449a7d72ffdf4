//! General properties of the lexer and the grammar.
use vstd::prelude::*;
use crate::ast::{Assignment, Literal, Register, SectionModel};
use crate::grammar::{
    ErrorKind, Expected, Failure, Kinds, const_items, digits_value, fail_at, int_value, literal_of,
    parse_spec, prepend,
};
use crate::lexer::{is_mnemonic, same_letters, word_kind};
use crate::token::{RegLoc, TokenKind};

verus! {

/// The tokens `l1 , l2 , ... ln ,` of a constants list.
pub open spec fn comma_list(ls: Kinds) -> Kinds
    decreases ls.len(),
{
    if ls.len() == 0 {
        seq![]
    } else {
        seq![ls[0], TokenKind::Comma] + comma_list(ls.drop_first())
    }
}

/// The literals that literal tokens stand for.
pub open spec fn literals_of(ls: Kinds) -> Seq<Literal<Seq<char>>> {
    ls.map_values(|k: TokenKind<Seq<char>>| literal_of(k)->Some_0)
}

pub open spec fn all_literals(ls: Kinds) -> bool {
    forall|i: int| 0 <= i < ls.len() ==> literal_of(#[trigger] ls[i]) is Some
}

proof fn lemma_comma_list_index(ls: Kinds)
    ensures
        comma_list(ls).len() == 2 * ls.len(),
        forall|i: int|
            0 <= i < ls.len() ==> comma_list(ls)[2 * i] == #[trigger] ls[i] && comma_list(ls)[2 * i
                + 1] == TokenKind::<Seq<char>>::Comma,
    decreases ls.len(),
{
    if ls.len() > 0 {
        let rest = ls.drop_first();
        lemma_comma_list_index(rest);
        assert forall|i: int| 0 <= i < ls.len() implies comma_list(ls)[2 * i] == #[trigger] ls[i]
            && comma_list(ls)[2 * i + 1] == TokenKind::<Seq<char>>::Comma by {
            let head = seq![ls[0], TokenKind::<Seq<char>>::Comma];
            assert(comma_list(ls) == head + comma_list(rest));
            if i > 0 {
                assert(rest[i - 1] == ls[i]);
                assert(comma_list(ls)[2 * i] == comma_list(rest)[2 * (i - 1)]);
                assert(comma_list(ls)[2 * i + 1] == comma_list(rest)[2 * (i - 1) + 1]);
            }
        }
    }
}

/// Reading `n` pairs `literal ,` from `p` collects their literals in order.
proof fn lemma_const_pairs(t: Kinds, p: int, ls: Kinds)
    requires
        0 <= p,
        p + 2 * ls.len() <= t.len(),
        all_literals(ls),
        forall|i: int|
            0 <= i < ls.len() ==> t[p + 2 * i] == #[trigger] ls[i] && t[p + 2 * i + 1]
                == TokenKind::<Seq<char>>::Comma,
    ensures
        const_items(t, p) == prepend(literals_of(ls), 2 * ls.len(), const_items(t, p + 2 * ls.len())),
    decreases ls.len(),
{
    if ls.len() > 0 {
        let rest = ls.drop_first();
        assert(t[p] == ls[0]);
        assert(t[p + 1] == TokenKind::<Seq<char>>::Comma);
        assert(literal_of(ls[0]) is Some);
        assert forall|i: int| 0 <= i < rest.len() implies t[p + 2 + 2 * i] == #[trigger] rest[i]
            && t[p + 2 + 2 * i + 1] == TokenKind::<Seq<char>>::Comma by {
            assert(t[p + 2 * (i + 1)] == ls[i + 1]);
            assert(t[p + 2 * (i + 1) + 1] == TokenKind::<Seq<char>>::Comma);
        }
        lemma_const_pairs(t, p + 2, rest);
        let r = const_items(t, p + 2 + 2 * rest.len());
        if let Ok((zs, m)) = r {
            assert(literals_of(ls) =~= seq![literal_of(ls[0])->Some_0] + literals_of(rest));
            assert(seq![literal_of(ls[0])->Some_0] + (literals_of(rest) + zs) =~= literals_of(ls)
                + zs);
        }
    } else {
        if let Ok((zs, m)) = const_items(t, p) {
            assert(literals_of(ls) + zs =~= zs);
        }
    }
}

proof fn lemma_list_in_section(ls: Kinds, b: Kinds)
    ensures
        ({
            let t = seq![TokenKind::Section, TokenKind::Constants, TokenKind::LBrac] + comma_list(ls)
                + b;
            &&& t.len() == 3 + 2 * ls.len() + b.len()
            &&& t[0] == TokenKind::<Seq<char>>::Section
            &&& t[1] == TokenKind::<Seq<char>>::Constants
            &&& t[2] == TokenKind::<Seq<char>>::LBrac
            &&& forall|i: int|
                0 <= i < ls.len() ==> t[3 + 2 * i] == #[trigger] ls[i] && t[3 + 2 * i + 1]
                    == TokenKind::<Seq<char>>::Comma
            &&& forall|k: int| 0 <= k < b.len() ==> t[3 + 2 * ls.len() + k] == #[trigger] b[k]
        }),
{
    let a = seq![TokenKind::Section, TokenKind::Constants, TokenKind::LBrac];
    let cl = comma_list(ls);
    let t = a + cl + b;
    lemma_comma_list_index(ls);
    assert forall|k: int| 0 <= k < cl.len() implies t[3 + k] == #[trigger] cl[k] by {
        assert((a + cl)[3 + k] == cl[k]);
    }
    assert forall|i: int| 0 <= i < ls.len() implies t[3 + 2 * i] == #[trigger] ls[i] && t[3 + 2 * i
        + 1] == TokenKind::<Seq<char>>::Comma by {
        assert(t[3 + 2 * i] == cl[2 * i]);
        assert(t[3 + 2 * i + 1] == cl[2 * i + 1]);
    }
}

/// A constants section whose literals are each followed by a comma parses
/// to those literals, in order; the list may be empty.
pub proof fn constants_section_parses(ls: Kinds)
    requires
        all_literals(ls),
    ensures
        parse_spec(
            seq![TokenKind::Section, TokenKind::Constants, TokenKind::LBrac] + comma_list(ls)
                + seq![TokenKind::RBrac],
        ) == Ok::<Seq<SectionModel>, Seq<Failure>>(seq![SectionModel::ConstSection(literals_of(ls))]),
{
    let t = seq![TokenKind::Section, TokenKind::Constants, TokenKind::LBrac] + comma_list(ls)
        + seq![TokenKind::RBrac];
    lemma_comma_list_index(ls);
    let n = ls.len() as int;
    lemma_list_in_section(ls, t.subrange(3 + 2 * n, t.len() as int));
    assert(t == seq![TokenKind::Section, TokenKind::Constants, TokenKind::LBrac] + comma_list(ls)
        + t.subrange(3 + 2 * n, t.len() as int));
    lemma_const_pairs(t, 3, ls);
    assert(t[3 + 2 * n] == TokenKind::<Seq<char>>::RBrac);
    assert(literals_of(ls) + seq![] =~= literals_of(ls));
    assert(crate::grammar::sections_from(t, t.len() as int) == (
        Seq::<SectionModel>::empty(),
        Seq::<Failure>::empty(),
    ));
    assert(seq![SectionModel::ConstSection(literals_of(ls))] + seq![] =~= seq![
        SectionModel::ConstSection(literals_of(ls)),
    ]);
}

/// A constants list whose last literal lacks its comma fails at the closing
/// bracket, where a comma was expected.
pub proof fn constants_need_trailing_comma(ls: Kinds, last: TokenKind<Seq<char>>)
    requires
        all_literals(ls),
        literal_of(last) is Some,
    ensures
        ({
            let t = seq![TokenKind::Section, TokenKind::Constants, TokenKind::LBrac] + comma_list(ls)
                + seq![last, TokenKind::RBrac];
            parse_spec(t) == Err::<Seq<SectionModel>, Seq<Failure>>(
                seq![
                    Failure {
                        kind: ErrorKind::UnexpectedToken,
                        expected: Expected::Comma,
                        at: t.len() - 1,
                    },
                ],
            )
        }),
{
    let t = seq![TokenKind::Section, TokenKind::Constants, TokenKind::LBrac] + comma_list(ls)
        + seq![last, TokenKind::RBrac];
    lemma_comma_list_index(ls);
    let n = ls.len() as int;
    lemma_list_in_section(ls, t.subrange(3 + 2 * n, t.len() as int));
    assert(t == seq![TokenKind::Section, TokenKind::Constants, TokenKind::LBrac] + comma_list(ls)
        + t.subrange(3 + 2 * n, t.len() as int));
    lemma_const_pairs(t, 3, ls);
    assert(t[3 + 2 * n] == last);
    assert(t[3 + 2 * n + 1] == TokenKind::<Seq<char>>::RBrac);
    assert(const_items(t, 3 + 2 * n) == Err::<(Seq<Literal<Seq<char>>>, nat), Failure>(
        fail_at(t, 3 + 2 * n + 1, Expected::Comma),
    ));
    let f = fail_at(t, 3 + 2 * n + 1, Expected::Comma);
    assert(crate::grammar::section_at(t, 0) == Err::<(SectionModel, nat), Failure>(f));
    assert(t[t.len() - 1] == TokenKind::<Seq<char>>::RBrac);
    assert(crate::grammar::next_section(t, t.len() as int) == t.len());
    assert(crate::grammar::next_section(t, t.len() - 1) == t.len());
    assert(crate::grammar::sections_from(t, t.len() as int) == (
        Seq::<SectionModel>::empty(),
        Seq::<Failure>::empty(),
    ));
    assert(seq![f] + Seq::<Failure>::empty() =~= seq![f]);
}

/// Reading digits in wrapping arithmetic gives their value wherever that
/// value fits in 64 bits.
pub proof fn lemma_int_value_exact(s: Seq<char>)
    requires
        digits_value(s) <= u64::MAX,
    ensures
        int_value(s) == digits_value(s),
    decreases s.len(),
{
    if s.len() > 0 {
        let c = s.last();
        if '0' <= c <= '9' {
            let d = (c as u32 - '0' as u32) as nat;
            assert(digits_value(s.drop_last()) * 10 <= u64::MAX) by (nonlinear_arith)
                requires
                    digits_value(s.drop_last()) * 10 + d <= u64::MAX,
            ;
            lemma_int_value_exact(s.drop_last());
            let v = int_value(s.drop_last());
            assert(v.wrapping_mul(10) == v * 10) by {
                assert((v as nat * 10nat) % 0x1_0000_0000_0000_0000nat == v as nat * 10nat);
            }
        } else {
            lemma_int_value_exact(s.drop_last());
        }
    }
}

/// An alias binds its name to the register `location '[' index ']'`, with
/// the location and the index as written (for indices that fit in 32 bits).
pub proof fn alias_register_preserved(name: Seq<char>, loc: RegLoc, digits: Seq<char>)
    ensures
        parse_spec(
            seq![
                TokenKind::Section,
                TokenKind::Aliases,
                TokenKind::Identifier(name),
                TokenKind::Arrow,
                TokenKind::RegLoc(loc),
                TokenKind::LBrac,
                TokenKind::Int(digits),
                TokenKind::RBrac,
            ],
        ) == Ok::<Seq<SectionModel>, Seq<Failure>>(
            seq![
                SectionModel::AliasesSection(
                    seq![
                        Assignment {
                            name,
                            target: Register { loc, index: int_value(digits) as u32 },
                        },
                    ],
                ),
            ],
        ),
        digits_value(digits) <= u32::MAX ==> int_value(digits) as u32 == digits_value(digits),
{
    let t = seq![
        TokenKind::Section,
        TokenKind::Aliases,
        TokenKind::Identifier(name),
        TokenKind::Arrow,
        TokenKind::RegLoc(loc),
        TokenKind::LBrac,
        TokenKind::Int(digits),
        TokenKind::RBrac,
    ];
    let a = Assignment { name, target: Register { loc, index: int_value(digits) as u32 } };
    assert(crate::grammar::alias_items(t, 8) == Ok::<(Seq<Assignment<Seq<char>>>, nat), Failure>(
        (seq![], 0),
    ));
    assert(seq![a] + seq![] =~= seq![a]);
    assert(crate::grammar::sections_from(t, 8) == (
        Seq::<SectionModel>::empty(),
        Seq::<Failure>::empty(),
    ));
    assert(seq![SectionModel::AliasesSection(seq![a])] + seq![] =~= seq![
        SectionModel::AliasesSection(seq![a]),
    ]);
    if digits_value(digits) <= u32::MAX {
        lemma_int_value_exact(digits);
    }
}

/// Mnemonics are recognised whatever their ASCII case, and their token keeps
/// the text as written.
pub proof fn mnemonic_case_insensitive(a: Seq<char>, b: Seq<char>)
    requires
        same_letters(a, b),
        is_mnemonic(a),
    ensures
        is_mnemonic(b),
        word_kind(a) == TokenKind::Instruction(a),
        word_kind(b) == TokenKind::Instruction(b),
{
}

/// A word after `section` that names no section kind fails there as an
/// unknown section name, which is the first failure reported.
pub proof fn unknown_section_name(t: Kinds, w: Seq<char>)
    requires
        t.len() >= 2,
        t[0] == TokenKind::<Seq<char>>::Section,
        t[1] == TokenKind::Identifier(w),
    ensures
        parse_spec(t) is Err,
        parse_spec(t)->Err_0[0] == (Failure {
            kind: ErrorKind::UnknownSectionName,
            expected: Expected::SectionName,
            at: 1,
        }),
{
}

} // verus!
