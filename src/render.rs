use vstd::prelude::*;

use crate::expand::{expand, expansion, ExpandError, ExpandErrorV};
use crate::lexer::{keyword_text, lex, tokenize};
use crate::token::{toks, Keyword, Tok, TokKind, Token, TokenKind};

verus! {

/// The text of one token.
pub open spec fn tok_text(t: Tok) -> Seq<char> {
    match t.kind {
        TokKind::Ident(s) => s,
        TokKind::Keyword(k) => keyword_text(k),
        TokKind::Punct(c) => seq![c],
        TokKind::Literal(s) => s,
    }
}

/// Tokens written out: one space after each token that is not joint,
/// none after the last.
pub open spec fn render(ts: Seq<Tok>) -> Seq<char>
    decreases ts.len(),
{
    if ts.len() == 0 {
        seq![]
    } else if ts.len() == 1 {
        tok_text(ts[0])
    } else {
        render(ts.drop_last()) + (if ts[ts.len() - 2].joint {
            seq![]
        } else {
            seq![' ']
        }) + tok_text(ts.last())
    }
}

/// The message that an error is reported with.
pub open spec fn message(e: ExpandErrorV) -> Seq<char> {
    match e {
        ExpandErrorV::MoveNotPermitted => "keyword `move` not permitted here"@,
        ExpandErrorV::NotAClosure(ts) => "the supplied argument is not a closure: `"@ + render(ts)
            + "`"@,
        ExpandErrorV::UnclosedLiteral => "a string or character literal is never closed"@,
        ExpandErrorV::UnclosedComment => "a block comment is never closed"@,
    }
}

/// What the source text of a capture list with its closure expands to.
pub open spec fn closure_text(s: Seq<char>) -> Result<Seq<char>, ExpandErrorV> {
    match lex(s) {
        Err(e) => Err(e),
        Ok(t) => match expansion(t) {
            Ok(out) => Ok(render(out)),
            Err(e) => Err(e),
        },
    }
}

/// Relies on `String::push`: the character is appended at the end.
#[verifier::external_body]
pub(crate) fn push_char(s: &mut String, c: char)
    ensures
        final(s)@ == old(s)@.push(c),
{
    s.push(c);
}

fn keyword_str(k: Keyword) -> (r: &'static str)
    ensures
        r@ == keyword_text(k),
{
    match k {
        Keyword::Move => {
            let s = "move";
            proof {
                reveal_strlit("move");
                assert(s@ =~= keyword_text(k));
            }
            s
        },
        Keyword::Ref => {
            let s = "ref";
            proof {
                reveal_strlit("ref");
                assert(s@ =~= keyword_text(k));
            }
            s
        },
        Keyword::Mut => {
            let s = "mut";
            proof {
                reveal_strlit("mut");
                assert(s@ =~= keyword_text(k));
            }
            s
        },
    }
}

fn push_text(out: &mut String, t: &Token)
    ensures
        final(out)@ == old(out)@ + tok_text(t@),
{
    match &t.kind {
        TokenKind::Ident(s) => out.append(s.as_str()),
        TokenKind::Keyword(k) => out.append(keyword_str(*k)),
        TokenKind::Punct(c) => {
            push_char(out, *c);
            proof {
                assert(out@ =~= old(out)@ + seq![*c]);
            }
        },
        TokenKind::Literal(s) => out.append(s.as_str()),
    }
}

/// Writes tokens out as text.
pub fn render_tokens(ts: &Vec<Token>) -> (r: String)
    ensures
        r@ == render(toks(ts@)),
{
    let ghost t = toks(ts@);
    let mut out = String::new();
    let mut i: usize = 0;
    proof {
        assert(t.subrange(0, 0) =~= Seq::<Tok>::empty());
        assert(out@ =~= render(t.subrange(0, 0)));
    }
    while i < ts.len()
        invariant
            t == toks(ts@),
            i <= ts.len(),
            out@ == render(t.subrange(0, i as int)),
        decreases ts.len() - i,
    {
        let ghost before = out@;
        if i > 0 && !ts[i - 1].joint {
            push_char(&mut out, ' ');
        }
        let ghost spaced = out@;
        push_text(&mut out, &ts[i]);
        proof {
            let q = t.subrange(0, i + 1);
            assert(q.last() == t[i as int]);
            if i == 0 {
                assert(before =~= Seq::<char>::empty());
                assert(out@ =~= render(q));
            } else {
                assert(q.drop_last() =~= t.subrange(0, i as int));
                assert(q[q.len() - 2] == t[i - 1]);
                if t[i - 1].joint {
                    assert(spaced =~= before + seq![]);
                } else {
                    assert(spaced =~= before + seq![' ']);
                }
                assert(out@ =~= render(q));
            }
        }
        i = i + 1;
    }
    proof {
        assert(t.subrange(0, ts.len() as int) =~= t);
    }
    out
}

impl ExpandError {
    /// The message that this error is reported with.
    pub fn message(&self) -> (r: String)
        ensures
            r@ == message(self@),
    {
        match self {
            ExpandError::MoveNotPermitted => String::from_str("keyword `move` not permitted here"),
            ExpandError::NotAClosure(ts) => {
                let mut m = String::from_str("the supplied argument is not a closure: `");
                let text = render_tokens(ts);
                m.append(text.as_str());
                m.append("`");
                m
            },
            ExpandError::UnclosedLiteral => String::from_str(
                "a string or character literal is never closed",
            ),
            ExpandError::UnclosedComment => String::from_str("a block comment is never closed"),
        }
    }
}

/// Expands the source text of a capture list followed by a closure, as in
/// `move s, ref mut n, || { n += s.len(); }`, into the text of a block
/// that binds each capture and ends in the closure made `move`.
pub fn closure(source: &str) -> (r: Result<String, ExpandError>)
    ensures
        match r {
            Ok(s) => closure_text(source@) == Ok::<Seq<char>, ExpandErrorV>(s@),
            Err(e) => closure_text(source@) == Err::<Seq<char>, ExpandErrorV>(e@),
        },
{
    let ts = match tokenize(source) {
        Ok(ts) => ts,
        Err(e) => {
            return Err(e);
        },
    };
    match expand(&ts) {
        Ok(out) => Ok(render_tokens(&out)),
        Err(e) => Err(e),
    }
}

} // verus!
