use vstd::prelude::*;

use crate::expand::{
    binding_toks, bindings, bound_name, capture_at, closure_shape, expansion, is_keyword,
    is_punct, lemma_path_end_bounds, let_word, parse_list, path_comma, path_end, path_names,
    path_toks, source_toks, CaptureV, ExpandErrorV, ModeV,
};
use crate::token::{tk, Keyword, Tok, TokKind};

verus! {

/// A capture that can be written down: a path of at least one name, and
/// no mutable binding of a borrow.
pub open spec fn writable(c: CaptureV) -> bool {
    &&& c.path.len() > 0
    &&& !(c.mutable && (c.mode is Ref || c.mode is RefMut))
}

pub open spec fn keyword_tok(k: Keyword) -> Tok {
    tk(TokKind::Keyword(k), false)
}

pub open spec fn comma_tok() -> Tok {
    tk(TokKind::Punct(','), false)
}

/// The words in front of the path of a written capture.
pub open spec fn capture_head(c: CaptureV) -> Seq<Tok> {
    let first = match c.mode {
        ModeV::Move => keyword_tok(Keyword::Move),
        ModeV::Ref => keyword_tok(Keyword::Ref),
        ModeV::RefMut => keyword_tok(Keyword::Ref),
        ModeV::Transform(m) => tk(TokKind::Ident(m), false),
    };
    if c.mutable || c.mode is RefMut {
        seq![first, keyword_tok(Keyword::Mut)]
    } else {
        seq![first]
    }
}

/// A capture as it is written in a capture list, with its comma:
/// `move [mut] p,`, `ref [mut] p,` or `method [mut] p,`.
pub open spec fn capture_toks(c: CaptureV) -> Seq<Tok> {
    capture_head(c) + path_toks(c.path) + seq![comma_tok()]
}

/// A capture list written out, left to right.
pub open spec fn written(cs: Seq<CaptureV>) -> Seq<Tok>
    decreases cs.len(),
{
    if cs.len() == 0 {
        seq![]
    } else {
        capture_toks(cs[0]) + written(cs.drop_first())
    }
}

proof fn lemma_path_toks_shape(p: Seq<Seq<char>>)
    requires
        p.len() > 0,
    ensures
        path_toks(p).len() == 2 * p.len() - 1,
        forall|j: int|
            0 <= j < path_toks(p).len() ==> #[trigger] path_toks(p)[j] == if j % 2 == 0 {
                tk(TokKind::Ident(p[j / 2]), true)
            } else {
                tk(TokKind::Punct('.'), true)
            },
    decreases p.len(),
{
    if p.len() > 1 {
        let q = p.drop_last();
        lemma_path_toks_shape(q);
        assert forall|j: int| 0 <= j < path_toks(p).len() implies #[trigger] path_toks(p)[j] == if j
            % 2 == 0 {
            tk(TokKind::Ident(p[j / 2]), true)
        } else {
            tk(TokKind::Punct('.'), true)
        } by {
            if j < path_toks(q).len() {
                assert(path_toks(p)[j] == path_toks(q)[j]);
            }
        }
    }
}

proof fn lemma_path_end_from(t: Seq<Tok>, i: int, p: Seq<Seq<char>>, k: int)
    requires
        0 <= i,
        p.len() > 0,
        0 <= k < p.len(),
        i + 2 * p.len() - 1 < t.len(),
        forall|j: int| 0 <= j < 2 * p.len() - 1 ==> t[i + j] == #[trigger] path_toks(p)[j],
        !is_punct(t[i + 2 * p.len() - 1], '.'),
        path_toks(p).len() == 2 * p.len() - 1,
        forall|j: int|
            0 <= j < path_toks(p).len() ==> #[trigger] path_toks(p)[j] == if j % 2 == 0 {
                tk(TokKind::Ident(p[j / 2]), true)
            } else {
                tk(TokKind::Punct('.'), true)
            },
    ensures
        path_end(t, i + 2 * k) == i + 2 * p.len() - 1,
    decreases p.len() - k,
{
    if k + 1 < p.len() {
        assert(path_toks(p)[2 * k + 1] == tk(TokKind::Punct('.'), true));
        assert(path_toks(p)[2 * k + 2] == tk(TokKind::Ident(p[k + 1]), true));
        assert(t[i + 2 * k + 1] == path_toks(p)[2 * k + 1]);
        assert(t[i + 2 * k + 2] == path_toks(p)[2 * k + 2]);
        lemma_path_end_from(t, i, p, k + 1);
        assert(i + 2 * k + 2 == i + 2 * (k + 1));
    }
}

proof fn lemma_path_names_upto(t: Seq<Tok>, i: int, p: Seq<Seq<char>>, k: int)
    requires
        0 <= i,
        p.len() > 0,
        1 <= k <= p.len(),
        i + 2 * p.len() - 1 <= t.len(),
        forall|j: int| 0 <= j < 2 * p.len() - 1 ==> t[i + j] == #[trigger] path_toks(p)[j],
        path_toks(p).len() == 2 * p.len() - 1,
        forall|j: int|
            0 <= j < path_toks(p).len() ==> #[trigger] path_toks(p)[j] == if j % 2 == 0 {
                tk(TokKind::Ident(p[j / 2]), true)
            } else {
                tk(TokKind::Punct('.'), true)
            },
    ensures
        path_names(t, i, i + 2 * k - 1) == p.subrange(0, k),
    decreases k,
{
    assert(path_toks(p)[2 * (k - 1)] == tk(TokKind::Ident(p[k - 1]), true));
    assert(t[i + 2 * (k - 1)] == path_toks(p)[2 * (k - 1)]);
    if k == 1 {
        assert(path_names(t, i, i + 1) =~= p.subrange(0, 1));
    } else {
        lemma_path_names_upto(t, i, p, k - 1);
        assert(i + 2 * k - 1 - 2 == i + 2 * (k - 1) - 1);
        assert(p.subrange(0, k - 1).push(p[k - 1]) =~= p.subrange(0, k));
    }
}

/// A written path followed by a comma reads back as the same path.
proof fn lemma_path_comma_written(t: Seq<Tok>, i: int, p: Seq<Seq<char>>)
    requires
        0 <= i,
        p.len() > 0,
        i + path_toks(p).len() < t.len(),
        t.subrange(i, i + path_toks(p).len()) == path_toks(p),
        t[i + path_toks(p).len()] == comma_tok(),
    ensures
        path_comma(t, i) == Some((p, i + path_toks(p).len() + 1)),
{
    lemma_path_toks_shape(p);
    let n = p.len() as int;
    assert forall|j: int| 0 <= j < 2 * n - 1 implies t[i + j] == #[trigger] path_toks(p)[j] by {
        assert(t.subrange(i, i + path_toks(p).len())[j] == t[i + j]);
    }
    lemma_path_end_from(t, i, p, 0);
    lemma_path_names_upto(t, i, p, n);
    assert(p.subrange(0, n) =~= p);
    assert(path_toks(p)[0] == tk(TokKind::Ident(p[0]), true));
    assert(t[i] == path_toks(p)[0]);
}

/// A written capture, wherever it stands, reads back as itself.
proof fn lemma_capture_written(a: Seq<Tok>, c: CaptureV, s: Seq<Tok>)
    requires
        writable(c),
    ensures
        capture_at(a + capture_toks(c) + s, a.len() as int) == Some(
            (c, (a.len() + capture_toks(c).len()) as int),
        ),
{
    let t = a + capture_toks(c) + s;
    let h = capture_head(c);
    let pt = path_toks(c.path);
    let i = a.len() + h.len() as int;
    let m = pt.len() as int;
    lemma_path_toks_shape(c.path);
    assert(t.subrange(i, i + m) =~= pt);
    assert(t[i + m] == comma_tok());
    lemma_path_comma_written(t, i, c.path);
    assert(t[a.len() as int] == h[0]);
    assert(pt[0] == tk(TokKind::Ident(c.path[0]), true));
    if h.len() == 2 {
        assert(t[a.len() + 1int] == h[1]);
    } else {
        assert(t[a.len() + 1int] == pt[0]);
    }
}

/// What starts no capture at its own start starts none after a prefix.
proof fn lemma_path_end_shift(a: Seq<Tok>, r: Seq<Tok>, i: int)
    requires
        0 <= i,
    ensures
        path_end(a + r, a.len() + i) == a.len() + path_end(r, i),
    decreases r.len() - i,
{
    let t = a + r;
    if i + 2 < r.len() {
        assert(t[a.len() + i + 1] == r[i + 1]);
        assert(t[a.len() + i + 2] == r[i + 2]);
        lemma_path_end_shift(a, r, i + 2);
    }
}

proof fn lemma_path_comma_none_shift(a: Seq<Tok>, r: Seq<Tok>, i: int)
    requires
        0 <= i,
        path_comma(r, i) is None,
    ensures
        path_comma(a + r, a.len() + i) is None,
{
    let t = a + r;
    lemma_path_end_shift(a, r, i);
    if i < r.len() {
        assert(t[a.len() + i] == r[i]);
        let e = path_end(r, i);
        lemma_path_end_bounds(r, i);
        if e < r.len() {
            assert(t[a.len() + e] == r[e]);
        }
    }
}

proof fn lemma_capture_none_shift(a: Seq<Tok>, r: Seq<Tok>)
    requires
        capture_at(r, 0) is None,
    ensures
        capture_at(a + r, a.len() as int) is None,
{
    let t = a + r;
    if r.len() > 0 {
        assert(t[a.len() as int] == r[0]);
        if r.len() > 1 {
            assert(t[a.len() + 1int] == r[1]);
        }
        if path_comma(r, 0) is None {
            lemma_path_comma_none_shift(a, r, 0);
        }
        if path_comma(r, 1) is None {
            lemma_path_comma_none_shift(a, r, 1);
        }
        if path_comma(r, 2) is None {
            lemma_path_comma_none_shift(a, r, 2);
        }
    }
}

proof fn lemma_parse_written(a: Seq<Tok>, cs: Seq<CaptureV>, r: Seq<Tok>)
    requires
        forall|n: int| 0 <= n < cs.len() ==> writable(#[trigger] cs[n]),
        capture_at(r, 0) is None,
    ensures
        parse_list(a + written(cs) + r, a.len() as int) == (cs, (a.len() + written(cs).len()) as int),
    decreases cs.len(),
{
    let t = a + written(cs) + r;
    if cs.len() == 0 {
        assert(t =~= a + r);
        lemma_capture_none_shift(a, r);
        assert(cs =~= Seq::<CaptureV>::empty());
    } else {
        let c = cs[0];
        let tail = cs.drop_first();
        assert(writable(cs[0]));
        let a2 = a + capture_toks(c);
        assert(t =~= a + capture_toks(c) + (written(tail) + r));
        lemma_capture_written(a, c, written(tail) + r);
        assert(t =~= a2 + written(tail) + r);
        assert forall|n: int| 0 <= n < tail.len() implies writable(#[trigger] tail[n]) by {
            assert(tail[n] == cs[n + 1]);
        }
        lemma_parse_written(a2, tail, r);
        assert(seq![c] + tail =~= cs);
    }
}

/// A capture list written out and followed by tokens that start no
/// capture expands as follows: a closure after it gets one binding per
/// capture and is made `move`; a closure that carries `move` itself is
/// refused; anything else is refused as no closure, and the error holds
/// exactly those tokens.
pub proof fn lemma_expansion_of_written(cs: Seq<CaptureV>, r: Seq<Tok>)
    requires
        forall|n: int| 0 <= n < cs.len() ==> writable(#[trigger] cs[n]),
        capture_at(r, 0) is None,
    ensures
        expansion(written(cs) + r) == if r.len() > 0 && is_keyword(r[0], Keyword::Move) {
            Err::<Seq<Tok>, ExpandErrorV>(ExpandErrorV::MoveNotPermitted)
        } else if !closure_shape(r) {
            Err(ExpandErrorV::NotAClosure(r))
        } else {
            Ok(seq![tk(TokKind::Punct('{'), false)] + bindings(cs) + seq![
                tk(TokKind::Keyword(Keyword::Move), false),
            ] + r + seq![tk(TokKind::Punct('}'), false)])
        },
{
    let t = written(cs) + r;
    lemma_parse_written(seq![], cs, r);
    assert(seq![] + written(cs) + r =~= t);
    assert(t.subrange(written(cs).len() as int, t.len() as int) =~= r);
}

/// A closure that carries `move` itself is refused, after any capture
/// list and after none.
pub proof fn lemma_move_on_closure_refused(cs: Seq<CaptureV>, body: Seq<Tok>)
    requires
        forall|n: int| 0 <= n < cs.len() ==> writable(#[trigger] cs[n]),
        closure_shape(body),
    ensures
        expansion(written(cs) + (seq![keyword_tok(Keyword::Move)] + body))
            == Err::<Seq<Tok>, ExpandErrorV>(ExpandErrorV::MoveNotPermitted),
{
    let r = seq![keyword_tok(Keyword::Move)] + body;
    assert(r[0] == keyword_tok(Keyword::Move));
    assert(r[1] == body[0]);
    lemma_expansion_of_written(cs, r);
}

/// Tokens after the capture list that start no capture, do not carry
/// `move` and are no closure are refused, and the error names exactly them.
pub proof fn lemma_not_a_closure_refused(cs: Seq<CaptureV>, r: Seq<Tok>)
    requires
        forall|n: int| 0 <= n < cs.len() ==> writable(#[trigger] cs[n]),
        capture_at(r, 0) is None,
        !(r.len() > 0 && is_keyword(r[0], Keyword::Move)),
        !closure_shape(r),
    ensures
        expansion(written(cs) + r) == Err::<Seq<Tok>, ExpandErrorV>(ExpandErrorV::NotAClosure(r)),
{
    lemma_expansion_of_written(cs, r);
}

/// With no capture list, a closure expands to itself made `move`, with
/// no binding before it.
pub proof fn lemma_no_captures(body: Seq<Tok>)
    requires
        closure_shape(body),
    ensures
        expansion(body) == Ok::<Seq<Tok>, ExpandErrorV>(seq![
            tk(TokKind::Punct('{'), false),
            tk(TokKind::Keyword(Keyword::Move), false),
        ] + body + seq![tk(TokKind::Punct('}'), false)]),
{
    lemma_expansion_of_written(seq![], body);
    assert(written(seq![]) + body =~= body);
    assert(bindings(seq![]) =~= Seq::<Tok>::empty());
    assert(seq![tk(TokKind::Punct('{'), false)] + bindings(seq![]) + seq![
        tk(TokKind::Keyword(Keyword::Move), false),
    ] =~= seq![tk(TokKind::Punct('{'), false), tk(TokKind::Keyword(Keyword::Move), false)]);
}

proof fn lemma_one_capture(c: CaptureV, body: Seq<Tok>)
    requires
        writable(c),
        closure_shape(body),
    ensures
        expansion(capture_toks(c) + body) == Ok::<Seq<Tok>, ExpandErrorV>(seq![
            tk(TokKind::Punct('{'), false),
        ] + binding_toks(c) + seq![tk(TokKind::Keyword(Keyword::Move), false)] + body + seq![
            tk(TokKind::Punct('}'), false),
        ]),
{
    let cs = seq![c];
    assert(cs[0] == c);
    lemma_expansion_of_written(cs, body);
    assert(cs.drop_first() =~= Seq::<CaptureV>::empty());
    assert(written(cs.drop_first()) == Seq::<Tok>::empty());
    assert(written(cs) =~= capture_toks(c));
    assert(cs.drop_last() =~= Seq::<CaptureV>::empty());
    assert(bindings(cs.drop_last()) == Seq::<Tok>::empty());
    assert(bindings(cs) =~= binding_toks(c));
}

/// One variable `x` captured with any specifier: the closure is preceded
/// by exactly one binding of `x`, mutable where `mut` was written, to
/// `x` itself for `move`, to `&x` for `ref`, to `&mut x` for `ref mut`,
/// and to `x.method()` for a method name.
pub proof fn lemma_single_variable(c: CaptureV, x: Seq<char>, body: Seq<Tok>)
    requires
        writable(c),
        c.path == seq![x],
        closure_shape(body),
    ensures
        expansion(capture_toks(c) + body) == Ok::<Seq<Tok>, ExpandErrorV>(seq![
            tk(TokKind::Punct('{'), false),
        ] + binding_toks(c) + seq![tk(TokKind::Keyword(Keyword::Move), false)] + body + seq![
            tk(TokKind::Punct('}'), false),
        ]),
        binding_toks(c) == seq![tk(TokKind::Ident(let_word()), false)] + (if c.mutable {
            seq![tk(TokKind::Keyword(Keyword::Mut), false)]
        } else {
            seq![]
        }) + seq![tk(TokKind::Ident(x), false), tk(TokKind::Punct('='), false)] + match c.mode {
            ModeV::Move => seq![tk(TokKind::Ident(x), true)],
            ModeV::Ref => seq![tk(TokKind::Punct('&'), true), tk(TokKind::Ident(x), true)],
            ModeV::RefMut => seq![
                tk(TokKind::Punct('&'), true),
                tk(TokKind::Keyword(Keyword::Mut), false),
                tk(TokKind::Ident(x), true),
            ],
            ModeV::Transform(m) => seq![
                tk(TokKind::Ident(x), true),
                tk(TokKind::Punct('.'), true),
                tk(TokKind::Ident(m), true),
                tk(TokKind::Punct('('), true),
                tk(TokKind::Punct(')'), true),
            ],
        } + seq![tk(TokKind::Punct(';'), false)],
{
    lemma_one_capture(c, body);
    assert(path_toks(c.path) == seq![tk(TokKind::Ident(x), true)]);
    assert(bound_name(c) == x);
    assert(source_toks(c) =~= match c.mode {
        ModeV::Move => seq![tk(TokKind::Ident(x), true)],
        ModeV::Ref => seq![tk(TokKind::Punct('&'), true), tk(TokKind::Ident(x), true)],
        ModeV::RefMut => seq![
            tk(TokKind::Punct('&'), true),
            tk(TokKind::Keyword(Keyword::Mut), false),
            tk(TokKind::Ident(x), true),
        ],
        ModeV::Transform(m) => seq![
            tk(TokKind::Ident(x), true),
            tk(TokKind::Punct('.'), true),
            tk(TokKind::Ident(m), true),
            tk(TokKind::Punct('('), true),
            tk(TokKind::Punct(')'), true),
        ],
    });
}

/// A captured path `a.b.c` binds only its last name: the one name that
/// the binding introduces is `c`, whatever the specifier.
pub proof fn lemma_path_binds_last_name(c: CaptureV, body: Seq<Tok>)
    requires
        writable(c),
        closure_shape(body),
    ensures
        expansion(capture_toks(c) + body) == Ok::<Seq<Tok>, ExpandErrorV>(seq![
            tk(TokKind::Punct('{'), false),
        ] + binding_toks(c) + seq![tk(TokKind::Keyword(Keyword::Move), false)] + body + seq![
            tk(TokKind::Punct('}'), false),
        ]),
        binding_toks(c)[if c.mutable { 2int } else { 1int }] == tk(TokKind::Ident(c.path.last()), false),
        binding_toks(c)[if c.mutable { 3int } else { 2int }] == tk(TokKind::Punct('='), false),
{
    lemma_one_capture(c, body);
}

} // verus!
