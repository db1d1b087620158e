use vstd::prelude::*;

verus! {

/// The three words that have a meaning of their own in a capture list.
#[derive(Clone, Copy, Debug, PartialEq, Eq, Structural)]
pub enum Keyword {
    Move,
    Ref,
    Mut,
}

/// What a token is, without its spacing.
#[derive(Clone, Debug, PartialEq, Eq)]
pub enum TokenKind {
    Ident(String),
    Keyword(Keyword),
    Punct(char),
    Literal(String),
}

/// One token; `joint` is set when the next token follows it without
/// any whitespace in between.
#[derive(Clone, Debug, PartialEq, Eq)]
pub struct Token {
    pub kind: TokenKind,
    pub joint: bool,
}

/// The mathematical form of a token kind.
pub enum TokKind {
    Ident(Seq<char>),
    Keyword(Keyword),
    Punct(char),
    Literal(Seq<char>),
}

/// The mathematical form of a token.
pub struct Tok {
    pub kind: TokKind,
    pub joint: bool,
}

impl View for Token {
    type V = Tok;

    open spec fn view(&self) -> Tok {
        Tok {
            kind: match self.kind {
                TokenKind::Ident(s) => TokKind::Ident(s@),
                TokenKind::Keyword(k) => TokKind::Keyword(k),
                TokenKind::Punct(c) => TokKind::Punct(c),
                TokenKind::Literal(s) => TokKind::Literal(s@),
            },
            joint: self.joint,
        }
    }
}

pub open spec fn tk(kind: TokKind, joint: bool) -> Tok {
    Tok { kind, joint }
}

/// The views of a sequence of tokens.
pub open spec fn toks(v: Seq<Token>) -> Seq<Tok> {
    v.map_values(|t: Token| t@)
}

/// A copy of a token with the same view.
pub fn copy_token(t: &Token) -> (r: Token)
    ensures
        r@ == t@,
{
    let kind = match &t.kind {
        TokenKind::Ident(s) => TokenKind::Ident(s.clone()),
        TokenKind::Keyword(k) => TokenKind::Keyword(*k),
        TokenKind::Punct(c) => TokenKind::Punct(*c),
        TokenKind::Literal(s) => TokenKind::Literal(s.clone()),
    };
    Token { kind, joint: t.joint }
}

} // verus!
