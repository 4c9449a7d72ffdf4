//! The lexer: source text to a sequence of spanned tokens.
//!
//! Whitespace and `#` line comments produce no token. Words, numbers and
//! strings are read by longest match; a character that starts no token
//! becomes an `Error` token, so lexing always reaches the end of the input.
use vstd::prelude::*;
use crate::chars::{chars_of, text_of};
use crate::token::{RegLoc, Span, Token, TokenKind, kinds, token_views};
use vstd::utf8::{encode_scalar, encode_utf8};

verus! {

pub open spec fn is_space(c: char) -> bool {
    c == ' ' || c == '\t' || c == '\x0C' || c == '\n'
}

pub open spec fn is_digit(c: char) -> bool {
    '0' <= c <= '9'
}

pub open spec fn is_alpha(c: char) -> bool {
    ('a' <= c <= 'z') || ('A' <= c <= 'Z')
}

pub open spec fn is_word_start(c: char) -> bool {
    is_alpha(c) || c == '_'
}

pub open spec fn is_word_char(c: char) -> bool {
    is_word_start(c) || is_digit(c)
}

/// The classes of characters that the lexer reads in runs.
#[derive(Debug, Clone, Copy, PartialEq, Eq)]
pub enum Run {
    /// Letters, digits and `_`.
    Word,
    /// Digits and `_`.
    Digits,
    /// Anything but a newline.
    Line,
}

pub open spec fn in_run(k: Run, c: char) -> bool {
    match k {
        Run::Word => is_word_char(c),
        Run::Digits => is_digit(c) || c == '_',
        Run::Line => c != '\n',
    }
}

/// The end of the longest run of class `k` that starts at `i`.
pub open spec fn run_end(s: Seq<char>, i: int, k: Run) -> int
    decreases s.len() - i,
{
    if 0 <= i < s.len() && in_run(k, s[i]) {
        run_end(s, i + 1, k)
    } else {
        i
    }
}

/// A character's value with ASCII upper case folded to lower case.
pub open spec fn fold_case(c: char) -> u32 {
    if 'A' <= c <= 'Z' {
        (c as u32 + 32) as u32
    } else {
        c as u32
    }
}

/// `a` and `b` are the same word up to ASCII case.
pub open spec fn same_letters(a: Seq<char>, b: Seq<char>) -> bool {
    &&& a.len() == b.len()
    &&& forall|k: int| 0 <= k < a.len() ==> fold_case(a[k]) == fold_case(b[k])
}

/// The instruction names of the virtual machine, in any case.
pub open spec fn is_mnemonic(w: Seq<char>) -> bool {
    same_letters(w, "alloc"@)
        || same_letters(w, "free"@)
        || same_letters(w, "frame_alloc"@)
        || same_letters(w, "frame_free"@)
        || same_letters(w, "jump"@)
        || same_letters(w, "call"@)
        || same_letters(w, "ext_call"@)
        || same_letters(w, "ret"@)
        || same_letters(w, "mov"@)
        || same_letters(w, "cpy"@)
        || same_letters(w, "ref"@)
        || same_letters(w, "stack_push"@)
        || same_letters(w, "stack_mov"@)
        || same_letters(w, "stack_pop"@)
        || same_letters(w, "add"@)
        || same_letters(w, "sub"@)
        || same_letters(w, "mul"@)
        || same_letters(w, "div"@)
        || same_letters(w, "mod"@)
        || same_letters(w, "equal"@)
        || same_letters(w, "not_equal"@)
        || same_letters(w, "greater"@)
        || same_letters(w, "less"@)
        || same_letters(w, "greater_equal"@)
        || same_letters(w, "less_equal"@)
}

/// The token a whole word stands for.
pub open spec fn word_kind(w: Seq<char>) -> TokenKind<Seq<char>> {
    if is_mnemonic(w) {
        TokenKind::Instruction(w)
    } else if w == "section"@ {
        TokenKind::Section
    } else if w == "constants"@ {
        TokenKind::Constants
    } else if w == "imports"@ {
        TokenKind::Imports
    } else if w == "exports"@ {
        TokenKind::Exports
    } else if w == "aliases"@ {
        TokenKind::Aliases
    } else if w == "code"@ {
        TokenKind::Code
    } else if w == "const"@ {
        TokenKind::RegLoc(RegLoc::Const)
    } else if w == "global"@ {
        TokenKind::RegLoc(RegLoc::Global)
    } else if w == "local"@ {
        TokenKind::RegLoc(RegLoc::Local)
    } else if w == "alias"@ {
        TokenKind::Alias
    } else if w == "true"@ {
        TokenKind::Bool(true)
    } else if w == "false"@ {
        TokenKind::Bool(false)
    } else {
        TokenKind::Identifier(w)
    }
}

/// The token of a single punctuation character `c`; `Error` where `c`
/// starts no token.
pub open spec fn punct_kind(c: char) -> TokenKind<Seq<char>> {
    if c == '-' {
        TokenKind::Minus
    } else if c == '(' {
        TokenKind::LParen
    } else if c == ')' {
        TokenKind::RParen
    } else if c == '[' {
        TokenKind::LBrac
    } else if c == ']' {
        TokenKind::RBrac
    } else if c == '.' {
        TokenKind::Period
    } else if c == ',' {
        TokenKind::Comma
    } else if c == '$' {
        TokenKind::Dollar
    } else if c == '*' {
        TokenKind::Deref
    } else {
        TokenKind::Error(seq![c])
    }
}

/// A string literal starts at `i`: a quote, a letter or `.`, word
/// characters, and a closing quote.
pub open spec fn string_at(s: Seq<char>, i: int) -> bool {
    &&& 0 <= i
    &&& i + 1 < s.len()
    &&& s[i] == '"'
    &&& (is_alpha(s[i + 1]) || s[i + 1] == '.')
    &&& run_end(s, i + 2, Run::Word) < s.len()
    &&& s[run_end(s, i + 2, Run::Word)] == '"'
}

/// The token that starts at `i` (neither whitespace nor a comment), and the
/// index just past it.
pub open spec fn token_at(s: Seq<char>, i: int) -> (TokenKind<Seq<char>>, int) {
    let c = s[i];
    if is_word_start(c) {
        let e = run_end(s, i, Run::Word);
        (word_kind(s.subrange(i, e)), e)
    } else if is_digit(c) {
        let e = run_end(s, i, Run::Digits);
        (TokenKind::Int(s.subrange(i, e)), e)
    } else if string_at(s, i) {
        let e = run_end(s, i + 2, Run::Word) + 1;
        (TokenKind::Str(s.subrange(i, e)), e)
    } else if c == '=' && i + 1 < s.len() && s[i + 1] == '>' {
        (TokenKind::Arrow, i + 2)
    } else {
        (punct_kind(c), i + 1)
    }
}

/// The number of bytes of `c` in UTF-8.
pub open spec fn char_width(c: char) -> nat {
    encode_scalar(c as u32).len()
}

/// The byte offset of the character at index `i`.
pub open spec fn byte_offset(s: Seq<char>, i: int) -> nat
    decreases i,
{
    if i <= 0 {
        0
    } else {
        byte_offset(s, i - 1) + char_width(s[i - 1])
    }
}

/// The tokens of `s` from character index `i` on.
pub open spec fn lex_from(s: Seq<char>, i: int) -> Seq<Token<Seq<char>>>
    decreases s.len() - i,
    via lex_from_decreases
{
    if i < 0 || i >= s.len() {
        seq![]
    } else if is_space(s[i]) {
        lex_from(s, i + 1)
    } else if s[i] == '#' {
        lex_from(s, run_end(s, i, Run::Line))
    } else {
        let t = token_at(s, i);
        let span = Span { start: byte_offset(s, i) as usize, end: byte_offset(s, t.1) as usize };
        seq![Token { kind: t.0, span }] + lex_from(s, t.1)
    }
}

/// The tokens of the whole text `s`.
pub open spec fn lex_spec(s: Seq<char>) -> Seq<Token<Seq<char>>> {
    lex_from(s, 0)
}

pub proof fn lemma_run_end(s: Seq<char>, i: int, k: Run)
    requires
        0 <= i <= s.len(),
    ensures
        i <= run_end(s, i, k) <= s.len(),
        i < s.len() && in_run(k, s[i]) ==> i < run_end(s, i, k),
    decreases s.len() - i,
{
    if i < s.len() && in_run(k, s[i]) {
        lemma_run_end(s, i + 1, k);
    }
}

pub proof fn lemma_token_at_advances(s: Seq<char>, i: int)
    requires
        0 <= i < s.len(),
    ensures
        i < token_at(s, i).1 <= s.len(),
{
    lemma_run_end(s, i, Run::Word);
    lemma_run_end(s, i, Run::Digits);
    if 0 <= i && i + 1 < s.len() {
        lemma_run_end(s, i + 2, Run::Word);
    }
}

#[via_fn]
proof fn lex_from_decreases(s: Seq<char>, i: int) {
    if 0 <= i < s.len() {
        lemma_run_end(s, i, Run::Line);
        lemma_token_at_advances(s, i);
    }
}

proof fn lemma_byte_offset_mono(s: Seq<char>, i: int, j: int)
    requires
        0 <= i <= j,
    ensures
        byte_offset(s, i) <= byte_offset(s, j),
    decreases j - i,
{
    if i < j {
        lemma_byte_offset_mono(s, i, j - 1);
    }
}

fn char_is_space(c: char) -> (r: bool)
    ensures
        r == is_space(c),
{
    c == ' ' || c == '\t' || c == '\x0C' || c == '\n'
}

fn char_is_digit(c: char) -> (r: bool)
    ensures
        r == is_digit(c),
{
    '0' <= c && c <= '9'
}

fn char_is_alpha(c: char) -> (r: bool)
    ensures
        r == is_alpha(c),
{
    ('a' <= c && c <= 'z') || ('A' <= c && c <= 'Z')
}

fn char_is_word_start(c: char) -> (r: bool)
    ensures
        r == is_word_start(c),
{
    char_is_alpha(c) || c == '_'
}

fn char_in_run(k: Run, c: char) -> (r: bool)
    ensures
        r == in_run(k, c),
{
    match k {
        Run::Word => char_is_word_start(c) || char_is_digit(c),
        Run::Digits => char_is_digit(c) || c == '_',
        Run::Line => c != '\n',
    }
}

fn char_fold_case(c: char) -> (r: u32)
    ensures
        r == fold_case(c),
{
    if 'A' <= c && c <= 'Z' {
        c as u32 + 32
    } else {
        c as u32
    }
}

fn char_width_of(c: char) -> (r: usize)
    ensures
        r == char_width(c),
{
    let u = c as u32;
    if u <= 0x7F {
        1
    } else if u <= 0x7FF {
        2
    } else if u <= 0xFFFF && !(0xD800 <= u && u <= 0xDFFF) {
        3
    } else {
        4
    }
}

/// Byte offsets add up to the length of the UTF-8 encoding.
proof fn lemma_byte_offset_encoding(s: Seq<char>, i: int)
    requires
        0 <= i <= s.len(),
    ensures
        byte_offset(s, i) + encode_utf8(s.subrange(i, s.len() as int)).len() == encode_utf8(s).len(),
    decreases i,
{
    if i == 0 {
        assert(s.subrange(0, s.len() as int) =~= s);
    } else {
        lemma_byte_offset_encoding(s, i - 1);
        let t = s.subrange(i - 1, s.len() as int);
        assert(t.drop_first() =~= s.subrange(i, s.len() as int));
        assert(t[0] == s[i - 1]);
    }
}

/// The byte length of `src`, which fits in `usize`.
fn byte_length(src: &str) -> (r: usize)
    ensures
        r == byte_offset(src@, src@.len() as int),
{
    let b = src.as_bytes();
    proof {
        lemma_byte_offset_encoding(src@, src@.len() as int);
        assert(src@.subrange(src@.len() as int, src@.len() as int) =~= Seq::<char>::empty());
    }
    b.len()
}

/// The end of the run of class `k` in `cs` that starts at `i`.
fn scan_run(cs: &Vec<char>, i: usize, k: Run) -> (e: usize)
    requires
        i <= cs@.len(),
    ensures
        e == run_end(cs@, i as int, k),
        i <= e <= cs@.len(),
{
    let mut j = i;
    while j < cs.len() && char_in_run(k, cs[j])
        invariant
            i <= j <= cs@.len(),
            run_end(cs@, j as int, k) == run_end(cs@, i as int, k),
        decreases cs@.len() - j,
    {
        j += 1;
    }
    j
}

/// Whether `cs[from..to]` is `name`, up to ASCII case where `fold` holds.
fn word_matches(cs: &Vec<char>, from: usize, to: usize, name: &str, fold: bool) -> (r: bool)
    requires
        from <= to <= cs@.len(),
    ensures
        r == if fold {
            same_letters(cs@.subrange(from as int, to as int), name@)
        } else {
            cs@.subrange(from as int, to as int) == name@
        },
{
    let w = Ghost(cs@.subrange(from as int, to as int));
    let n = name.unicode_len();
    if to - from != n {
        return false;
    }
    let mut k: usize = 0;
    while k < n
        invariant
            0 <= k <= n,
            n == name@.len(),
            to - from == n,
            from <= to <= cs@.len(),
            w@ == cs@.subrange(from as int, to as int),
            forall|m: int|
                0 <= m < k ==> if fold {
                    fold_case(w@[m]) == fold_case(name@[m])
                } else {
                    w@[m] == name@[m]
                },
        decreases n - k,
    {
        let a = cs[from + k];
        let b = name.get_char(k);
        if fold {
            if char_fold_case(a) != char_fold_case(b) {
                return false;
            }
        } else if a != b {
            return false;
        }
        k += 1;
    }
    if !fold {
        assert(w@ =~= name@);
    }
    true
}

/// The token for the word `cs[from..to]`.
fn classify_word(cs: &Vec<char>, from: usize, to: usize) -> (r: TokenKind<String>)
    requires
        from <= to <= cs@.len(),
    ensures
        r@ == word_kind(cs@.subrange(from as int, to as int)),
{
    if word_matches(cs, from, to, "alloc", true)
        || word_matches(cs, from, to, "free", true)
        || word_matches(cs, from, to, "frame_alloc", true)
        || word_matches(cs, from, to, "frame_free", true)
        || word_matches(cs, from, to, "jump", true)
        || word_matches(cs, from, to, "call", true)
        || word_matches(cs, from, to, "ext_call", true)
        || word_matches(cs, from, to, "ret", true)
        || word_matches(cs, from, to, "mov", true)
        || word_matches(cs, from, to, "cpy", true)
        || word_matches(cs, from, to, "ref", true)
        || word_matches(cs, from, to, "stack_push", true)
        || word_matches(cs, from, to, "stack_mov", true)
        || word_matches(cs, from, to, "stack_pop", true)
        || word_matches(cs, from, to, "add", true)
        || word_matches(cs, from, to, "sub", true)
        || word_matches(cs, from, to, "mul", true)
        || word_matches(cs, from, to, "div", true)
        || word_matches(cs, from, to, "mod", true)
        || word_matches(cs, from, to, "equal", true)
        || word_matches(cs, from, to, "not_equal", true)
        || word_matches(cs, from, to, "greater", true)
        || word_matches(cs, from, to, "less", true)
        || word_matches(cs, from, to, "greater_equal", true)
        || word_matches(cs, from, to, "less_equal", true) {
        TokenKind::Instruction(text_of(cs, from, to))
    } else if word_matches(cs, from, to, "section", false) {
        TokenKind::Section
    } else if word_matches(cs, from, to, "constants", false) {
        TokenKind::Constants
    } else if word_matches(cs, from, to, "imports", false) {
        TokenKind::Imports
    } else if word_matches(cs, from, to, "exports", false) {
        TokenKind::Exports
    } else if word_matches(cs, from, to, "aliases", false) {
        TokenKind::Aliases
    } else if word_matches(cs, from, to, "code", false) {
        TokenKind::Code
    } else if word_matches(cs, from, to, "const", false) {
        TokenKind::RegLoc(RegLoc::Const)
    } else if word_matches(cs, from, to, "global", false) {
        TokenKind::RegLoc(RegLoc::Global)
    } else if word_matches(cs, from, to, "local", false) {
        TokenKind::RegLoc(RegLoc::Local)
    } else if word_matches(cs, from, to, "alias", false) {
        TokenKind::Alias
    } else if word_matches(cs, from, to, "true", false) {
        TokenKind::Bool(true)
    } else if word_matches(cs, from, to, "false", false) {
        TokenKind::Bool(false)
    } else {
        TokenKind::Identifier(text_of(cs, from, to))
    }
}

fn punct_of(c: char) -> (r: TokenKind<String>)
    ensures
        r@ == punct_kind(c),
{
    if c == '-' {
        TokenKind::Minus
    } else if c == '(' {
        TokenKind::LParen
    } else if c == ')' {
        TokenKind::RParen
    } else if c == '[' {
        TokenKind::LBrac
    } else if c == ']' {
        TokenKind::RBrac
    } else if c == '.' {
        TokenKind::Period
    } else if c == ',' {
        TokenKind::Comma
    } else if c == '$' {
        TokenKind::Dollar
    } else if c == '*' {
        TokenKind::Deref
    } else {
        let v: Vec<char> = vec![c];
        let t = text_of(&v, 0, 1);
        assert(v@.subrange(0, 1) =~= seq![c]);
        TokenKind::Error(t)
    }
}

/// The token that starts at `i`, and the index just past it.
fn scan_token(cs: &Vec<char>, i: usize) -> (r: (TokenKind<String>, usize))
    requires
        i < cs@.len(),
    ensures
        r.0@ == token_at(cs@, i as int).0,
        r.1 == token_at(cs@, i as int).1,
{
    let c = cs[i];
    let n = cs.len();
    if char_is_word_start(c) {
        let e = scan_run(cs, i, Run::Word);
        (classify_word(cs, i, e), e)
    } else if char_is_digit(c) {
        let e = scan_run(cs, i, Run::Digits);
        (TokenKind::Int(text_of(cs, i, e)), e)
    } else if c == '"' && i + 1 < n && (char_is_alpha(cs[i + 1]) || cs[i + 1] == '.') {
        let j = scan_run(cs, i + 2, Run::Word);
        if j < n && cs[j] == '"' {
            (TokenKind::Str(text_of(cs, i, j + 1)), j + 1)
        } else {
            (punct_of(c), i + 1)
        }
    } else if c == '=' && i + 1 < n && cs[i + 1] == '>' {
        (TokenKind::Arrow, i + 2)
    } else {
        (punct_of(c), i + 1)
    }
}

/// The byte offset of index `e`, given that of index `i`.
fn advance_bytes(cs: &Vec<char>, i: usize, e: usize, b: usize) -> (r: usize)
    requires
        i <= e <= cs@.len(),
        b == byte_offset(cs@, i as int),
        byte_offset(cs@, cs@.len() as int) <= usize::MAX,
    ensures
        r == byte_offset(cs@, e as int),
{
    let mut j = i;
    let mut r = b;
    while j < e
        invariant
            i <= j <= e <= cs@.len(),
            r == byte_offset(cs@, j as int),
            byte_offset(cs@, cs@.len() as int) <= usize::MAX,
        decreases e - j,
    {
        proof {
            lemma_byte_offset_mono(cs@, j as int + 1, cs@.len() as int);
        }
        r = r + char_width_of(cs[j]);
        j += 1;
    }
    r
}

/// The length of `src` in bytes.
pub fn text_end(src: &str) -> (r: usize)
    ensures
        r == byte_offset(src@, src@.len() as int),
{
    byte_length(src)
}

/// Splits `src` into tokens, skipping whitespace and comments. Spans are
/// byte offsets into `src`.
pub fn lex(src: &str) -> (r: Vec<Token<String>>)
    ensures
        token_views(r@) == lex_spec(src@),
{
    // Every byte offset computed below is at most this length.
    let _total = byte_length(src);
    let cs = chars_of(src);
    let n = cs.len();
    let ghost s = src@;
    let mut out: Vec<Token<String>> = Vec::new();
    let mut i: usize = 0;
    let mut b: usize = 0;
    while i < n
        invariant
            cs@ == s,
            n == s.len(),
            0 <= i <= n,
            b == byte_offset(s, i as int),
            byte_offset(s, n as int) <= usize::MAX,
            token_views(out@) + lex_from(s, i as int) == lex_from(s, 0),
        decreases n - i,
    {
        let c = cs[i];
        if char_is_space(c) {
            b = advance_bytes(&cs, i, i + 1, b);
            i += 1;
        } else if c == '#' {
            let e = scan_run(&cs, i, Run::Line);
            proof {
                lemma_run_end(s, i as int, Run::Line);
            }
            b = advance_bytes(&cs, i, e, b);
            i = e;
        } else {
            let (k, e) = scan_token(&cs, i);
            proof {
                lemma_token_at_advances(s, i as int);
            }
            let eb = advance_bytes(&cs, i, e, b);
            let tok = Token { kind: k, span: Span { start: b, end: eb } };
            let ghost before = token_views(out@);
            out.push(tok);
            assert(token_views(out@) =~= before.push(tok@));
            assert(lex_from(s, i as int) =~= seq![tok@] + lex_from(s, e as int));
            assert(token_views(out@) + lex_from(s, e as int) =~= before + lex_from(s, i as int));
            b = eb;
            i = e;
        }
    }
    assert(token_views(out@) =~= token_views(out@) + lex_from(s, i as int));
    out
}

proof fn lemma_word_run(w: Seq<char>, i: int)
    requires
        0 <= i <= w.len(),
        forall|k: int| 0 <= k < w.len() ==> is_word_char(#[trigger] w[k]),
    ensures
        run_end(w, i, Run::Word) == w.len(),
    decreases w.len() - i,
{
    if i < w.len() {
        lemma_word_run(w, i + 1);
    }
}

/// A word that names an instruction, in any case, lexes to a single
/// instruction token that keeps the word as written.
pub proof fn mnemonic_word_lexes_as_written(w: Seq<char>)
    requires
        w.len() > 0,
        is_word_start(w[0]),
        forall|k: int| 0 <= k < w.len() ==> is_word_char(#[trigger] w[k]),
        is_mnemonic(w),
    ensures
        kinds(lex_spec(w)) == seq![TokenKind::Instruction(w)],
{
    lemma_word_run(w, 0);
    assert(w.subrange(0, w.len() as int) =~= w);
    assert(lex_from(w, w.len() as int) == Seq::<Token<Seq<char>>>::empty());
    assert(kinds(lex_spec(w)) =~= seq![TokenKind::Instruction(w)]);
}

} // verus!
