//! Whitespace and comments: they separate tokens and contribute none.
use vstd::prelude::*;
use crate::grammar::parse_spec;
use crate::lexer::{
    Run, in_run, is_space, lemma_run_end, lemma_token_at_advances, lex_from, lex_spec, run_end,
    string_at, token_at,
};
use crate::token::{Token, kinds};

verus! {

/// `w` is whitespace and comments only, each comment closed by a newline.
pub open spec fn is_trivia(w: Seq<char>) -> bool
    decreases w.len(),
    via is_trivia_decreases
{
    if w.len() == 0 {
        true
    } else if is_space(w[0]) {
        is_trivia(w.drop_first())
    } else if w[0] == '#' {
        let e = run_end(w, 0, Run::Line);
        e < w.len() && is_trivia(w.subrange(e, w.len() as int))
    } else {
        false
    }
}

#[via_fn]
proof fn is_trivia_decreases(w: Seq<char>) {
    if w.len() > 0 {
        lemma_run_end(w, 0, Run::Line);
    }
}

/// Every comment of `a` ends with a newline inside `a`.
pub open spec fn comments_closed(a: Seq<char>) -> bool {
    forall|k: int| 0 <= k < a.len() && a[k] == '#' ==> #[trigger] run_end(a, k, Run::Line) < a.len()
}

proof fn lemma_kinds_concat(x: Seq<Token<Seq<char>>>, y: Seq<Token<Seq<char>>>)
    ensures
        kinds(x + y) == kinds(x) + kinds(y),
{
    assert(kinds(x + y) =~= kinds(x) + kinds(y));
}

/// Runs read in a suffix do not depend on what precedes it.
proof fn lemma_run_end_shift(p: Seq<char>, q: Seq<char>, j: int, k: Run)
    requires
        0 <= j <= q.len(),
    ensures
        run_end(p + q, p.len() + j, k) == p.len() + run_end(q, j, k),
    decreases q.len() - j,
{
    if j < q.len() {
        assert((p + q)[p.len() + j] == q[j]);
        lemma_run_end_shift(p, q, j + 1, k);
    }
}

/// A run that stops inside `a`, or at a character of `r` outside the class,
/// is the same in `a + r`.
proof fn lemma_run_end_prefix(a: Seq<char>, r: Seq<char>, i: int, k: Run)
    requires
        0 <= i <= a.len(),
        run_end(a, i, k) < a.len() || (r.len() > 0 && !in_run(k, r[0])),
    ensures
        run_end(a + r, i, k) == run_end(a, i, k),
    decreases a.len() - i,
{
    if i < a.len() {
        assert((a + r)[i] == a[i]);
        if in_run(k, a[i]) {
            lemma_run_end_prefix(a, r, i + 1, k);
        }
    } else {
        assert((a + r)[i] == r[0]);
    }
}

/// Lexing a suffix does not depend on what precedes it.
proof fn lemma_lex_shift(p: Seq<char>, q: Seq<char>, j: int)
    requires
        0 <= j <= q.len(),
    ensures
        kinds(lex_from(p + q, p.len() + j)) == kinds(lex_from(q, j)),
    decreases q.len() - j,
{
    let s = p + q;
    let i = p.len() + j;
    if j < q.len() {
        assert(s[i] == q[j]);
        if is_space(q[j]) {
            lemma_lex_shift(p, q, j + 1);
        } else if q[j] == '#' {
            lemma_run_end_shift(p, q, j, Run::Line);
            lemma_run_end(q, j, Run::Line);
            lemma_lex_shift(p, q, run_end(q, j, Run::Line));
        } else {
            lemma_run_end_shift(p, q, j, Run::Word);
            lemma_run_end_shift(p, q, j, Run::Digits);
            lemma_run_end(q, j, Run::Word);
            lemma_run_end(q, j, Run::Digits);
            if j + 1 < q.len() {
                assert(s[i + 1] == q[j + 1]);
                lemma_run_end_shift(p, q, j + 2, Run::Word);
                lemma_run_end(q, j + 2, Run::Word);
                let e = run_end(q, j + 2, Run::Word);
                if e < q.len() {
                    assert(s[p.len() + e] == q[e]);
                }
            }
            let tq = token_at(q, j);
            let ts = token_at(s, i);
            assert(string_at(s, i) == string_at(q, j));
            assert(ts.1 == p.len() + tq.1);
            assert(s.subrange(i, ts.1) =~= q.subrange(j, tq.1));
            assert(ts.0 == tq.0);
            lemma_token_at_advances(q, j);
            lemma_lex_shift(p, q, tq.1);
            let ls = lex_from(s, ts.1);
            let lq = lex_from(q, tq.1);
            let hs = seq![Token { kind: ts.0, span: lex_from(s, i)[0].span }];
            let hq = seq![Token { kind: tq.0, span: lex_from(q, j)[0].span }];
            assert(lex_from(s, i) == hs + ls);
            assert(lex_from(q, j) == hq + lq);
            lemma_kinds_concat(hs, ls);
            lemma_kinds_concat(hq, lq);
            assert(kinds(hs) =~= kinds(hq));
        }
    }
}

/// Skipping whitespace and comments reaches the text after them.
proof fn lemma_skip_trivia(x: Seq<char>, w: Seq<char>, y: Seq<char>)
    requires
        is_trivia(w),
    ensures
        lex_from(x + w + y, x.len() as int) == lex_from(x + w + y, (x.len() + w.len()) as int),
    decreases w.len(),
{
    let s = x + w + y;
    if w.len() > 0 {
        assert(s[x.len() as int] == w[0]);
        if is_space(w[0]) {
            let x2 = x.push(w[0]);
            let w2 = w.drop_first();
            assert(x2 + w2 + y =~= s);
            lemma_skip_trivia(x2, w2, y);
        } else {
            let e = run_end(w, 0, Run::Line);
            lemma_run_end(w, 0, Run::Line);
            lemma_run_end_prefix(w, y, 0, Run::Line);
            assert(x + (w + y) =~= s);
            lemma_run_end_shift(x, w + y, 0, Run::Line);
            let x2 = x + w.subrange(0, e);
            let w2 = w.subrange(e, w.len() as int);
            assert(x2 + w2 + y =~= s);
            lemma_skip_trivia(x2, w2, y);
        }
    }
}

/// Tokens of `a` are read the same when `a` is followed by a separator.
proof fn lemma_lex_prefix(a: Seq<char>, r: Seq<char>, i: int)
    requires
        comments_closed(a),
        r.len() > 0,
        is_space(r[0]) || r[0] == '#',
        0 <= i <= a.len(),
    ensures
        kinds(lex_from(a + r, i)) == kinds(lex_from(a, i)) + kinds(lex_from(a + r, a.len() as int)),
    decreases a.len() - i,
{
    let s = a + r;
    if i == a.len() {
        assert(kinds(lex_from(a, i)) + kinds(lex_from(s, i)) =~= kinds(lex_from(s, i)));
    } else {
        assert(s[i] == a[i]);
        assert(s[a.len() as int] == r[0]);
        if is_space(a[i]) {
            lemma_lex_prefix(a, r, i + 1);
        } else if a[i] == '#' {
            assert(run_end(a, i, Run::Line) < a.len());
            lemma_run_end_prefix(a, r, i, Run::Line);
            lemma_run_end(a, i, Run::Line);
            lemma_lex_prefix(a, r, run_end(a, i, Run::Line));
        } else {
            lemma_run_end(a, i, Run::Word);
            lemma_run_end(a, i, Run::Digits);
            lemma_run_end_prefix(a, r, i, Run::Word);
            lemma_run_end_prefix(a, r, i, Run::Digits);
            if i + 1 < a.len() {
                assert(s[i + 1] == a[i + 1]);
                lemma_run_end(a, i + 2, Run::Word);
                lemma_run_end_prefix(a, r, i + 2, Run::Word);
                let e = run_end(a, i + 2, Run::Word);
                if e < a.len() {
                    assert(s[e] == a[e]);
                }
            }
            assert(string_at(s, i) == string_at(a, i));
            let ta = token_at(a, i);
            let ts = token_at(s, i);
            lemma_token_at_advances(a, i);
            assert(ts.1 == ta.1);
            assert(s.subrange(i, ts.1) =~= a.subrange(i, ta.1));
            assert(ts.0 == ta.0);
            lemma_lex_prefix(a, r, ta.1);
            let ls = lex_from(s, ts.1);
            let la = lex_from(a, ta.1);
            let hs = seq![Token { kind: ts.0, span: lex_from(s, i)[0].span }];
            let ha = seq![Token { kind: ta.0, span: lex_from(a, i)[0].span }];
            assert(lex_from(s, i) == hs + ls);
            assert(lex_from(a, i) == ha + la);
            lemma_kinds_concat(hs, ls);
            lemma_kinds_concat(ha, la);
            assert(kinds(hs) =~= kinds(ha));
            let tail = kinds(lex_from(s, a.len() as int));
            assert(kinds(ha) + (kinds(la) + tail) =~= (kinds(ha) + kinds(la)) + tail);
        }
    }
}

/// Whitespace and comments between two texts add no tokens: the token kinds
/// of `a`, then such a run, then `b` are those of `a` followed by those of
/// `b`, where every comment of `a` ends inside `a`.
pub proof fn trivia_adds_no_tokens(a: Seq<char>, w: Seq<char>, b: Seq<char>)
    requires
        comments_closed(a),
        is_trivia(w),
        w.len() > 0,
    ensures
        kinds(lex_spec(a + w + b)) == kinds(lex_spec(a)) + kinds(lex_spec(b)),
{
    let s = a + w + b;
    assert(a + (w + b) =~= s);
    assert((w + b)[0] == w[0]);
    lemma_lex_prefix(a, w + b, 0);
    lemma_skip_trivia(a, w, b);
    assert((a + w) + b =~= s);
    lemma_lex_shift(a + w, b, 0);
}

/// Replacing one run of whitespace and comments by another never changes
/// what the text parses to.
pub proof fn trivia_never_changes_parse(a: Seq<char>, w1: Seq<char>, w2: Seq<char>, b: Seq<char>)
    requires
        comments_closed(a),
        is_trivia(w1),
        is_trivia(w2),
        w1.len() > 0,
        w2.len() > 0,
    ensures
        parse_spec(kinds(lex_spec(a + w1 + b))) == parse_spec(kinds(lex_spec(a + w2 + b))),
{
    trivia_adds_no_tokens(a, w1, b);
    trivia_adds_no_tokens(a, w2, b);
}

} // verus!
