use vstd::prelude::*;

use crate::token::{copy_token, tk, toks, Keyword, Tok, TokKind, Token, TokenKind};

verus! {

/// How a captured value is bound inside the closure.
#[derive(Clone, Debug, PartialEq, Eq)]
pub enum Mode {
    /// `name = path`
    Move,
    /// `name = &path`
    Ref,
    /// `name = &mut path`
    RefMut,
    /// `name = path.method()`
    Transform(String),
}

/// One entry of a capture list: how to bind, whether the binding is
/// mutable, and the dotted path of names that is captured.
#[derive(Clone, Debug, PartialEq, Eq)]
pub struct Capture {
    pub mode: Mode,
    pub mutable: bool,
    pub path: Vec<String>,
}

/// Why a capture list with its closure cannot be expanded.
#[derive(Clone, Debug, PartialEq, Eq)]
pub enum ExpandError {
    /// The closure after the capture list carries `move` itself.
    MoveNotPermitted,
    /// What follows the capture list is not a closure; these are its tokens.
    NotAClosure(Vec<Token>),
    /// A string or character literal in the source text is never closed.
    UnclosedLiteral,
    /// A block comment in the source text is never closed.
    UnclosedComment,
}

pub enum ModeV {
    Move,
    Ref,
    RefMut,
    Transform(Seq<char>),
}

pub struct CaptureV {
    pub mode: ModeV,
    pub mutable: bool,
    pub path: Seq<Seq<char>>,
}

pub enum ExpandErrorV {
    MoveNotPermitted,
    NotAClosure(Seq<Tok>),
    UnclosedLiteral,
    UnclosedComment,
}

pub open spec fn names(v: Seq<String>) -> Seq<Seq<char>> {
    v.map_values(|s: String| s@)
}

pub open spec fn mode_view(m: Mode) -> ModeV {
    match m {
        Mode::Move => ModeV::Move,
        Mode::Ref => ModeV::Ref,
        Mode::RefMut => ModeV::RefMut,
        Mode::Transform(m) => ModeV::Transform(m@),
    }
}

impl View for Capture {
    type V = CaptureV;

    open spec fn view(&self) -> CaptureV {
        CaptureV {
            mode: mode_view(self.mode),
            mutable: self.mutable,
            path: names(self.path@),
        }
    }
}

impl View for ExpandError {
    type V = ExpandErrorV;

    open spec fn view(&self) -> ExpandErrorV {
        match self {
            ExpandError::MoveNotPermitted => ExpandErrorV::MoveNotPermitted,
            ExpandError::NotAClosure(ts) => ExpandErrorV::NotAClosure(toks(ts@)),
            ExpandError::UnclosedLiteral => ExpandErrorV::UnclosedLiteral,
            ExpandError::UnclosedComment => ExpandErrorV::UnclosedComment,
        }
    }
}

pub open spec fn captures_view(v: Seq<Capture>) -> Seq<CaptureV> {
    v.map_values(|c: Capture| c@)
}

pub open spec fn path_opt_view(r: Option<(Vec<String>, usize)>) -> Option<(Seq<Seq<char>>, int)> {
    match r {
        Some((p, j)) => Some((names(p@), j as int)),
        None => None,
    }
}

pub open spec fn capture_opt_view(r: Option<(Capture, usize)>) -> Option<(CaptureV, int)> {
    match r {
        Some((c, j)) => Some((c@, j as int)),
        None => None,
    }
}

pub open spec fn expand_view(r: Result<Vec<Token>, ExpandError>) -> Result<Seq<Tok>, ExpandErrorV> {
    match r {
        Ok(out) => Ok(toks(out@)),
        Err(e) => Err(e@),
    }
}

// ---------------------------------------------------------------------
// The grammar of a capture list, over token views.
// ---------------------------------------------------------------------

pub open spec fn is_name(t: Tok) -> bool {
    t.kind is Ident
}

pub open spec fn name_of(t: Tok) -> Seq<char> {
    t.kind->Ident_0
}

pub open spec fn is_punct(t: Tok, c: char) -> bool {
    t.kind == TokKind::Punct(c)
}

pub open spec fn is_keyword(t: Tok, k: Keyword) -> bool {
    t.kind == TokKind::Keyword(k)
}

/// The index just past the dotted path whose first name stands at `i`.
pub open spec fn path_end(t: Seq<Tok>, i: int) -> int
    decreases t.len() - i,
{
    if 0 <= i && i + 2 < t.len() && is_punct(t[i + 1], '.') && is_name(t[i + 2]) {
        path_end(t, i + 2)
    } else {
        i + 1
    }
}

/// The names of the dotted path in `t[i..end]`: every second token.
pub open spec fn path_names(t: Seq<Tok>, i: int, end: int) -> Seq<Seq<char>>
    decreases end - i,
{
    if end - i <= 1 {
        seq![name_of(t[i])]
    } else {
        path_names(t, i, end - 2).push(name_of(t[end - 1]))
    }
}

/// A dotted path at `i` followed by a comma: its names, and the index
/// after the comma.
pub open spec fn path_comma(t: Seq<Tok>, i: int) -> Option<(Seq<Seq<char>>, int)> {
    let e = path_end(t, i);
    if 0 <= i < t.len() && is_name(t[i]) && e < t.len() && is_punct(t[e], ',') {
        Some((path_names(t, i, e), e + 1))
    } else {
        None
    }
}

pub open spec fn with_mode(p: Option<(Seq<Seq<char>>, int)>, mode: ModeV, mutable: bool) -> Option<(CaptureV, int)> {
    match p {
        Some((path, j)) => Some((CaptureV { mode, mutable, path }, j)),
        None => None,
    }
}

/// The capture that starts at `i`, with the index after its comma:
/// `move [mut] p,`, `ref [mut] p,`, `method [mut] p,` or a bare `p,`.
pub open spec fn capture_at(t: Seq<Tok>, i: int) -> Option<(CaptureV, int)> {
    let mut_next = i + 1 < t.len() && is_keyword(t[i + 1], Keyword::Mut);
    if !(0 <= i < t.len()) {
        None
    } else if is_keyword(t[i], Keyword::Move) {
        if mut_next {
            with_mode(path_comma(t, i + 2), ModeV::Move, true)
        } else {
            with_mode(path_comma(t, i + 1), ModeV::Move, false)
        }
    } else if is_keyword(t[i], Keyword::Ref) {
        if mut_next {
            with_mode(path_comma(t, i + 2), ModeV::RefMut, false)
        } else {
            with_mode(path_comma(t, i + 1), ModeV::Ref, false)
        }
    } else if is_name(t[i]) {
        if mut_next {
            with_mode(path_comma(t, i + 2), ModeV::Transform(name_of(t[i])), true)
        } else if i + 1 < t.len() && is_name(t[i + 1]) {
            with_mode(path_comma(t, i + 1), ModeV::Transform(name_of(t[i])), false)
        } else {
            with_mode(path_comma(t, i), ModeV::Move, false)
        }
    } else {
        None
    }
}

/// The captures read from `i` on, left to right, and the index where
/// the first token that starts no capture stands.
pub open spec fn parse_list(t: Seq<Tok>, i: int) -> (Seq<CaptureV>, int)
    decreases t.len() - i,
{
    match capture_at(t, i) {
        Some((c, j)) => {
            if i < j <= t.len() {
                let (cs, k) = parse_list(t, j);
                (seq![c] + cs, k)
            } else {
                (seq![], i)
            }
        },
        None => (seq![], i),
    }
}

/// A closure: a bar, then a closing bar of the parameter list, then at
/// least one token of body.
pub open spec fn closure_shape(r: Seq<Tok>) -> bool {
    &&& r.len() > 0
    &&& is_punct(r[0], '|')
    &&& exists|j: int| 1 <= j < r.len() - 1 && #[trigger] is_punct(r[j], '|')
}

// ---------------------------------------------------------------------
// What is emitted.
// ---------------------------------------------------------------------

pub open spec fn let_word() -> Seq<char> {
    seq!['l', 'e', 't']
}

/// A dotted path written without spaces: `a.b.c`.
pub open spec fn path_toks(p: Seq<Seq<char>>) -> Seq<Tok>
    decreases p.len(),
{
    if p.len() == 0 {
        seq![]
    } else if p.len() == 1 {
        seq![tk(TokKind::Ident(p[0]), true)]
    } else {
        path_toks(p.drop_last()) + seq![
            tk(TokKind::Punct('.'), true),
            tk(TokKind::Ident(p.last()), true),
        ]
    }
}

/// The right-hand side of a binding.
pub open spec fn source_toks(c: CaptureV) -> Seq<Tok> {
    match c.mode {
        ModeV::Move => path_toks(c.path),
        ModeV::Ref => seq![tk(TokKind::Punct('&'), true)] + path_toks(c.path),
        ModeV::RefMut => seq![
            tk(TokKind::Punct('&'), true),
            tk(TokKind::Keyword(Keyword::Mut), false),
        ] + path_toks(c.path),
        ModeV::Transform(m) => path_toks(c.path) + seq![
            tk(TokKind::Punct('.'), true),
            tk(TokKind::Ident(m), true),
            tk(TokKind::Punct('('), true),
            tk(TokKind::Punct(')'), true),
        ],
    }
}

/// The name that a capture binds: the last name of its path.
pub open spec fn bound_name(c: CaptureV) -> Seq<char> {
    c.path.last()
}

/// `let [mut] name = source;`
pub open spec fn binding_toks(c: CaptureV) -> Seq<Tok> {
    seq![tk(TokKind::Ident(let_word()), false)] + (if c.mutable {
        seq![tk(TokKind::Keyword(Keyword::Mut), false)]
    } else {
        seq![]
    }) + seq![tk(TokKind::Ident(bound_name(c)), false), tk(TokKind::Punct('='), false)]
        + source_toks(c) + seq![tk(TokKind::Punct(';'), false)]
}

/// The bindings of all captures, in order.
pub open spec fn bindings(cs: Seq<CaptureV>) -> Seq<Tok>
    decreases cs.len(),
{
    if cs.len() == 0 {
        seq![]
    } else {
        bindings(cs.drop_last()) + binding_toks(cs.last())
    }
}

/// The expansion of a capture list with its closure: a block with one
/// binding per capture, then the closure made `move`.
pub open spec fn expansion(t: Seq<Tok>) -> Result<Seq<Tok>, ExpandErrorV> {
    let (cs, k) = parse_list(t, 0);
    let rest = t.subrange(k, t.len() as int);
    if rest.len() > 0 && is_keyword(rest[0], Keyword::Move) {
        Err(ExpandErrorV::MoveNotPermitted)
    } else if !closure_shape(rest) {
        Err(ExpandErrorV::NotAClosure(rest))
    } else {
        Ok(seq![tk(TokKind::Punct('{'), false)] + bindings(cs) + seq![
            tk(TokKind::Keyword(Keyword::Move), false),
        ] + rest + seq![tk(TokKind::Punct('}'), false)])
    }
}

pub proof fn lemma_path_end_bounds(t: Seq<Tok>, i: int)
    requires
        0 <= i < t.len(),
    ensures
        i < path_end(t, i) <= t.len(),
    decreases t.len() - i,
{
    if i + 2 < t.len() && is_punct(t[i + 1], '.') && is_name(t[i + 2]) {
        lemma_path_end_bounds(t, i + 2);
    }
}

// ---------------------------------------------------------------------
// Executable parser.
// ---------------------------------------------------------------------

fn push_token(out: &mut Vec<Token>, t: Token)
    ensures
        toks(final(out)@) == toks(old(out)@).push(t@),
{
    out.push(t);
    proof {
        assert(toks(out@) =~= toks(old(out)@).push(t@));
    }
}

fn is_punct_at(ts: &Vec<Token>, i: usize, c: char) -> (r: bool)
    ensures
        r == (i < ts.len() && is_punct(toks(ts@)[i as int], c)),
{
    if i < ts.len() {
        match &ts[i].kind {
            TokenKind::Punct(d) => *d == c,
            _ => false,
        }
    } else {
        false
    }
}

fn is_keyword_at(ts: &Vec<Token>, i: usize, k: Keyword) -> (r: bool)
    ensures
        r == (i < ts.len() && is_keyword(toks(ts@)[i as int], k)),
{
    if i < ts.len() {
        match &ts[i].kind {
            TokenKind::Keyword(w) => *w == k,
            _ => false,
        }
    } else {
        false
    }
}

fn is_name_at(ts: &Vec<Token>, i: usize) -> (r: bool)
    ensures
        r == (i < ts.len() && is_name(toks(ts@)[i as int])),
{
    if i < ts.len() {
        match &ts[i].kind {
            TokenKind::Ident(_) => true,
            _ => false,
        }
    } else {
        false
    }
}

fn name_at(ts: &Vec<Token>, i: usize) -> (r: String)
    requires
        i < ts.len(),
        is_name(toks(ts@)[i as int]),
    ensures
        r@ == name_of(toks(ts@)[i as int]),
{
    match &ts[i].kind {
        TokenKind::Ident(s) => s.clone(),
        _ => String::new(),
    }
}

/// Reads the dotted path whose first name stands at `i`.
fn parse_path(ts: &Vec<Token>, i: usize) -> (r: (Vec<String>, usize))
    requires
        i < ts.len(),
        is_name(toks(ts@)[i as int]),
    ensures
        r.1 as int == path_end(toks(ts@), i as int),
        names(r.0@) == path_names(toks(ts@), i as int, r.1 as int),
        i < r.1 <= ts.len(),
{
    let ghost t = toks(ts@);
    let mut out: Vec<String> = Vec::new();
    out.push(name_at(ts, i));
    proof {
        assert(names(out@) =~= path_names(t, i as int, i + 1));
    }
    let mut j: usize = i + 1;
    while j < ts.len() - 1 && is_punct_at(ts, j, '.') && is_name_at(ts, j + 1)
        invariant
            t == toks(ts@),
            i < j <= ts.len(),
            path_end(t, i as int) == path_end(t, j - 1),
            names(out@) == path_names(t, i as int, j as int),
        decreases ts.len() - j,
    {
        let ghost before = out@;
        out.push(name_at(ts, j + 1));
        proof {
            assert(names(out@) =~= names(before).push(name_of(t[j + 1])));
        }
        j = j + 2;
    }
    (out, j)
}

/// Reads a dotted path at `i` and the comma after it.
fn parse_path_comma(ts: &Vec<Token>, i: usize) -> (r: Option<(Vec<String>, usize)>)
    ensures
        path_opt_view(r) == path_comma(toks(ts@), i as int),
        r matches Some((p, j)) ==> i < j <= ts.len(),
{
    if is_name_at(ts, i) {
        let (p, e) = parse_path(ts, i);
        if is_punct_at(ts, e, ',') {
            return Some((p, e + 1));
        }
    }
    None
}

fn capture_with(p: Option<(Vec<String>, usize)>, mode: Mode, mutable: bool) -> (r: Option<(Capture, usize)>)
    ensures
        capture_opt_view(r) == with_mode(path_opt_view(p), mode_view(mode), mutable),
        r matches Some((c, j)) ==> p matches Some((q, k)) && j == k,
{
    match p {
        Some((path, j)) => Some((Capture { mode, mutable, path }, j)),
        None => None,
    }
}

/// Reads the capture that starts at `i`, if one does.
pub fn parse_capture(ts: &Vec<Token>, i: usize) -> (r: Option<(Capture, usize)>)
    ensures
        capture_opt_view(r) == capture_at(toks(ts@), i as int),
        r matches Some((c, j)) ==> i < j <= ts.len(),
{
    if i >= ts.len() {
        return None;
    }
    let mut_next = is_keyword_at(ts, i + 1, Keyword::Mut);
    if is_keyword_at(ts, i, Keyword::Move) {
        if mut_next {
            capture_with(parse_path_comma(ts, i + 2), Mode::Move, true)
        } else {
            capture_with(parse_path_comma(ts, i + 1), Mode::Move, false)
        }
    } else if is_keyword_at(ts, i, Keyword::Ref) {
        if mut_next {
            capture_with(parse_path_comma(ts, i + 2), Mode::RefMut, false)
        } else {
            capture_with(parse_path_comma(ts, i + 1), Mode::Ref, false)
        }
    } else if is_name_at(ts, i) {
        let method = name_at(ts, i);
        if mut_next {
            capture_with(parse_path_comma(ts, i + 2), Mode::Transform(method), true)
        } else if is_name_at(ts, i + 1) {
            capture_with(parse_path_comma(ts, i + 1), Mode::Transform(method), false)
        } else {
            capture_with(parse_path_comma(ts, i), Mode::Move, false)
        }
    } else {
        None
    }
}

/// Reads the capture list at the start of `ts`: the captures, and the
/// index of the first token after it.
pub fn parse_captures(ts: &Vec<Token>) -> (r: (Vec<Capture>, usize))
    ensures
        captures_view(r.0@) == parse_list(toks(ts@), 0).0,
        r.1 as int == parse_list(toks(ts@), 0).1,
        r.1 <= ts.len(),
{
    let ghost t = toks(ts@);
    let mut cs: Vec<Capture> = Vec::new();
    let mut i: usize = 0;
    proof {
        assert(captures_view(cs@) + parse_list(t, 0).0 =~= parse_list(t, 0).0);
    }
    loop
        invariant
            t == toks(ts@),
            i <= ts.len(),
            parse_list(t, 0).0 == captures_view(cs@) + parse_list(t, i as int).0,
            parse_list(t, 0).1 == parse_list(t, i as int).1,
        decreases ts.len() - i,
    {
        match parse_capture(ts, i) {
            Some((c, j)) => {
                let ghost before = cs@;
                let ghost rest = parse_list(t, j as int).0;
                cs.push(c);
                proof {
                    assert(captures_view(cs@) =~= captures_view(before).push(c@));
                    assert(captures_view(before) + (seq![c@] + rest) =~= captures_view(cs@) + rest);
                }
                i = j;
            },
            None => {
                proof {
                    assert(captures_view(cs@) + parse_list(t, i as int).0 =~= captures_view(cs@));
                }
                return (cs, i);
            },
        }
    }
}

pub proof fn lemma_parse_list_paths(t: Seq<Tok>, i: int)
    requires
        0 <= i <= t.len(),
    ensures
        forall|n: int| 0 <= n < parse_list(t, i).0.len() ==> #[trigger] parse_list(t, i).0[n].path.len() > 0,
    decreases t.len() - i,
{
    if let Some((c, j)) = capture_at(t, i) {
        if i < j <= t.len() {
            lemma_parse_list_paths(t, j);
            let cs = parse_list(t, j).0;
            assert forall|n: int| 0 <= n < parse_list(t, i).0.len() implies #[trigger] parse_list(t, i).0[n].path.len() > 0 by {
                if n > 0 {
                    assert(parse_list(t, i).0[n] == cs[n - 1]);
                }
            }
        }
    }
}

// ---------------------------------------------------------------------
// Executable emitter.
// ---------------------------------------------------------------------

fn let_token() -> (r: Token)
    ensures
        r@ == tk(TokKind::Ident(let_word()), false),
{
    let s = String::from_str("let");
    proof {
        reveal_strlit("let");
        assert(s@ =~= let_word());
    }
    Token { kind: TokenKind::Ident(s), joint: false }
}

/// Appends a dotted path to `out`.
fn push_path(out: &mut Vec<Token>, path: &Vec<String>)
    ensures
        toks(final(out)@) == toks(old(out)@) + path_toks(names(path@)),
{
    let ghost p = names(path@);
    let ghost base = toks(out@);
    let mut i: usize = 0;
    proof {
        assert(path_toks(p.subrange(0, 0)) =~= Seq::<Tok>::empty());
        assert(base + path_toks(p.subrange(0, 0)) =~= base);
    }
    while i < path.len()
        invariant
            p == names(path@),
            i <= path.len(),
            toks(out@) == base + path_toks(p.subrange(0, i as int)),
        decreases path.len() - i,
    {
        let ghost q = p.subrange(0, i + 1);
        proof {
            assert(q.drop_last() =~= p.subrange(0, i as int));
            assert(q.last() == p[i as int]);
        }
        if i > 0 {
            push_token(out, Token { kind: TokenKind::Punct('.'), joint: true });
        }
        push_token(out, Token { kind: TokenKind::Ident(path[i].clone()), joint: true });
        proof {
            assert(toks(out@) =~= base + path_toks(q));
        }
        i = i + 1;
    }
    proof {
        assert(p.subrange(0, path.len() as int) =~= p);
    }
}

/// Appends the binding `let [mut] name = source;` of one capture.
pub fn binding_tokens(c: &Capture, out: &mut Vec<Token>)
    requires
        c.path.len() > 0,
    ensures
        toks(final(out)@) == toks(old(out)@) + binding_toks(c@),
{
    let ghost base = toks(out@);
    let ghost cv = c@;
    push_token(out, let_token());
    if c.mutable {
        push_token(out, Token { kind: TokenKind::Keyword(Keyword::Mut), joint: false });
    }
    let ghost head = toks(out@);
    let name = c.path[c.path.len() - 1].clone();
    push_token(out, Token { kind: TokenKind::Ident(name), joint: false });
    push_token(out, Token { kind: TokenKind::Punct('='), joint: false });
    let ghost mid = toks(out@);
    proof {
        assert(bound_name(cv) == names(c.path@)[c.path.len() - 1]);
        assert(mid =~= base + (seq![tk(TokKind::Ident(let_word()), false)] + (if cv.mutable {
            seq![tk(TokKind::Keyword(Keyword::Mut), false)]
        } else {
            seq![]
        }) + seq![tk(TokKind::Ident(bound_name(cv)), false), tk(TokKind::Punct('='), false)]));
    }
    match &c.mode {
        Mode::Move => {
            push_path(out, &c.path);
        },
        Mode::Ref => {
            push_token(out, Token { kind: TokenKind::Punct('&'), joint: true });
            push_path(out, &c.path);
        },
        Mode::RefMut => {
            push_token(out, Token { kind: TokenKind::Punct('&'), joint: true });
            push_token(out, Token { kind: TokenKind::Keyword(Keyword::Mut), joint: false });
            push_path(out, &c.path);
        },
        Mode::Transform(m) => {
            push_path(out, &c.path);
            push_token(out, Token { kind: TokenKind::Punct('.'), joint: true });
            push_token(out, Token { kind: TokenKind::Ident(m.clone()), joint: true });
            push_token(out, Token { kind: TokenKind::Punct('('), joint: true });
            push_token(out, Token { kind: TokenKind::Punct(')'), joint: true });
        },
    }
    proof {
        assert(toks(out@) =~= mid + source_toks(cv));
    }
    push_token(out, Token { kind: TokenKind::Punct(';'), joint: false });
    proof {
        assert(toks(out@) =~= base + binding_toks(cv));
    }
}

/// Appends the tokens of `ts` from index `k` on.
fn push_rest(out: &mut Vec<Token>, ts: &Vec<Token>, k: usize)
    requires
        k <= ts.len(),
    ensures
        toks(final(out)@) == toks(old(out)@) + toks(ts@).subrange(k as int, ts.len() as int),
{
    let ghost base = toks(out@);
    let mut i: usize = k;
    proof {
        assert(base + toks(ts@).subrange(k as int, k as int) =~= base);
    }
    while i < ts.len()
        invariant
            k <= i <= ts.len(),
            toks(out@) == base + toks(ts@).subrange(k as int, i as int),
        decreases ts.len() - i,
    {
        push_token(out, copy_token(&ts[i]));
        proof {
            assert(toks(out@) =~= base + toks(ts@).subrange(k as int, i + 1));
        }
        i = i + 1;
    }
}

/// Whether the tokens of `ts` from index `k` on have the shape of a closure.
fn has_closure_shape(ts: &Vec<Token>, k: usize) -> (r: bool)
    requires
        k <= ts.len(),
    ensures
        r == closure_shape(toks(ts@).subrange(k as int, ts.len() as int)),
{
    let ghost t = toks(ts@);
    let ghost rest = t.subrange(k as int, ts.len() as int);
    if !is_punct_at(ts, k, '|') {
        return false;
    }
    proof {
        assert(rest[0] == t[k as int]);
    }
    let mut j: usize = k + 1;
    while j < ts.len() - 1
        invariant
            t == toks(ts@),
            rest == t.subrange(k as int, ts.len() as int),
            k < j <= ts.len(),
            rest.len() > 0 && is_punct(rest[0], '|'),
            forall|n: int| 1 <= n < j - k ==> !is_punct(#[trigger] rest[n], '|'),
        decreases ts.len() - j,
    {
        if is_punct_at(ts, j, '|') {
            proof {
                assert(is_punct(rest[j - k], '|'));
            }
            return true;
        }
        j = j + 1;
    }
    proof {
        assert forall|n: int| 1 <= n < rest.len() - 1 implies !is_punct(#[trigger] rest[n], '|') by {}
    }
    false
}

/// Expands a capture list with its closure into a block that binds each
/// capture and ends in the closure made `move`.
pub fn expand(ts: &Vec<Token>) -> (r: Result<Vec<Token>, ExpandError>)
    ensures
        expand_view(r) == expansion(toks(ts@)),
{
    let ghost t = toks(ts@);
    let (cs, k) = parse_captures(ts);
    let ghost cv = captures_view(cs@);
    if is_keyword_at(ts, k, Keyword::Move) {
        return Err(ExpandError::MoveNotPermitted);
    }
    if !has_closure_shape(ts, k) {
        let mut rest: Vec<Token> = Vec::new();
        push_rest(&mut rest, ts, k);
        proof {
            assert(toks(rest@) =~= t.subrange(k as int, ts.len() as int));
        }
        return Err(ExpandError::NotAClosure(rest));
    }
    proof {
        lemma_parse_list_paths(t, 0);
    }
    let mut out: Vec<Token> = Vec::new();
    push_token(&mut out, Token { kind: TokenKind::Punct('{'), joint: false });
    let ghost open = toks(out@);
    let mut i: usize = 0;
    proof {
        assert(bindings(cv.subrange(0, 0)) =~= Seq::<Tok>::empty());
        assert(open + bindings(cv.subrange(0, 0)) =~= open);
    }
    while i < cs.len()
        invariant
            cv == captures_view(cs@),
            cv == parse_list(t, 0).0,
            forall|n: int| 0 <= n < cv.len() ==> #[trigger] cv[n].path.len() > 0,
            i <= cs.len(),
            toks(out@) == open + bindings(cv.subrange(0, i as int)),
        decreases cs.len() - i,
    {
        proof {
            assert(cv[i as int].path.len() > 0);
        }
        binding_tokens(&cs[i], &mut out);
        proof {
            let q = cv.subrange(0, i + 1);
            assert(q.drop_last() =~= cv.subrange(0, i as int));
            assert(toks(out@) =~= open + bindings(q));
        }
        i = i + 1;
    }
    proof {
        assert(cv.subrange(0, cs.len() as int) =~= cv);
    }
    push_token(&mut out, Token { kind: TokenKind::Keyword(Keyword::Move), joint: false });
    push_rest(&mut out, ts, k);
    push_token(&mut out, Token { kind: TokenKind::Punct('}'), joint: false });
    proof {
        assert(toks(out@) =~= seq![tk(TokKind::Punct('{'), false)] + bindings(cv) + seq![
            tk(TokKind::Keyword(Keyword::Move), false),
        ] + t.subrange(k as int, t.len() as int) + seq![tk(TokKind::Punct('}'), false)]);
    }
    Ok(out)
}

} // verus!
