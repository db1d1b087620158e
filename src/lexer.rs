use vstd::prelude::*;

use crate::expand::{ExpandError, ExpandErrorV};
use crate::token::{toks, Keyword, Tok, TokKind, Token, TokenKind};

verus! {

pub open spec fn is_space(c: char) -> bool {
    c == ' ' || c == '\t' || c == '\n' || c == '\r'
}

pub open spec fn is_digit(c: char) -> bool {
    '0' <= c <= '9'
}

/// A character of a word: an ASCII letter or digit, `_`, or any
/// character beyond ASCII (Rust names may hold those).
pub open spec fn is_word_char(c: char) -> bool {
    ('a' <= c <= 'z') || ('A' <= c <= 'Z') || is_digit(c) || c == '_' || c > '\u{7f}'
}

pub open spec fn keyword_text(k: Keyword) -> Seq<char> {
    match k {
        Keyword::Move => seq!['m', 'o', 'v', 'e'],
        Keyword::Ref => seq!['r', 'e', 'f'],
        Keyword::Mut => seq!['m', 'u', 't'],
    }
}

pub open spec fn keyword_of(w: Seq<char>) -> Option<Keyword> {
    if w == keyword_text(Keyword::Move) {
        Some(Keyword::Move)
    } else if w == keyword_text(Keyword::Ref) {
        Some(Keyword::Ref)
    } else if w == keyword_text(Keyword::Mut) {
        Some(Keyword::Mut)
    } else {
        None
    }
}

/// The index just past the run of word characters that starts at `i`.
pub open spec fn word_end(s: Seq<char>, i: int) -> int
    decreases s.len() - i,
{
    if 0 <= i < s.len() && is_word_char(s[i]) {
        word_end(s, i + 1)
    } else {
        i
    }
}

/// The index just past the closing quote of a string literal whose
/// contents start at `j`; a backslash escapes the character after it.
/// `None` where the literal is never closed.
pub open spec fn string_end(s: Seq<char>, j: int) -> Option<int>
    decreases s.len() - j,
{
    if !(0 <= j < s.len()) {
        None
    } else if s[j] == '"' {
        Some(j + 1)
    } else if s[j] == '\\' {
        if j + 1 < s.len() {
            string_end(s, j + 2)
        } else {
            None
        }
    } else {
        string_end(s, j + 1)
    }
}

/// The number of `#` that follow one another from `j` on.
pub open spec fn hash_run(s: Seq<char>, j: int) -> nat
    decreases s.len() - j,
{
    if 0 <= j < s.len() && s[j] == '#' {
        1 + hash_run(s, j + 1)
    } else {
        0
    }
}

/// Whether `k` characters `#` stand from `j` on.
pub open spec fn hashes_at(s: Seq<char>, j: int, k: nat) -> bool {
    &&& 0 <= j
    &&& j + k <= s.len()
    &&& forall|m: int| 0 <= m < k ==> #[trigger] s[j + m] == '#'
}

/// The start of a raw string `r#"..."#` or `br#"..."#` at `i`: the index
/// after its opening quote, and the number of its `#`.
pub open spec fn raw_start(s: Seq<char>, i: int) -> Option<(int, nat)> {
    let p = if s[i] == 'r' {
        i + 1
    } else if s[i] == 'b' && i + 1 < s.len() && s[i + 1] == 'r' {
        i + 2
    } else {
        -1
    };
    let k = hash_run(s, p);
    if p >= 0 && p + k < s.len() && s[p + k] == '"' {
        Some((p + k + 1, k))
    } else {
        None
    }
}

/// The index just past the end of a raw string whose contents start at
/// `j`: the first quote followed by `k` characters `#`.
pub open spec fn raw_end(s: Seq<char>, j: int, k: nat) -> Option<int>
    decreases s.len() - j,
{
    if !(0 <= j < s.len()) {
        None
    } else if s[j] == '"' && hashes_at(s, j + 1, k) {
        Some(j + 1 + k)
    } else {
        raw_end(s, j + 1, k)
    }
}

pub open spec fn starts_line_comment(s: Seq<char>, i: int) -> bool {
    0 <= i && i + 1 < s.len() && s[i] == '/' && s[i + 1] == '/'
}

pub open spec fn starts_block_comment(s: Seq<char>, i: int) -> bool {
    0 <= i && i + 1 < s.len() && s[i] == '/' && s[i + 1] == '*'
}

/// The index of the line break that ends the line holding `j`, or the
/// length of `s` where none follows.
pub open spec fn line_end(s: Seq<char>, j: int) -> int
    decreases s.len() - j,
{
    if 0 <= j < s.len() && s[j] != '\n' {
        line_end(s, j + 1)
    } else {
        j
    }
}

/// The index just past the `*/` that closes a block comment, when the
/// text from `j` on stands inside `depth` nested block comments. `None`
/// where it is never closed.
pub open spec fn block_end(s: Seq<char>, j: int, depth: nat) -> Option<int>
    decreases s.len() - j,
{
    if !(0 <= j < s.len()) {
        None
    } else if j + 1 < s.len() && s[j] == '*' && s[j + 1] == '/' {
        if depth <= 1 {
            Some(j + 2)
        } else {
            block_end(s, j + 2, (depth - 1) as nat)
        }
    } else if j + 1 < s.len() && s[j] == '/' && s[j + 1] == '*' {
        block_end(s, j + 2, depth + 1)
    } else {
        block_end(s, j + 1, depth)
    }
}

/// Whether the token that ends at `e` is followed by the next one
/// directly: not by whitespace, a comment or the end of the text.
pub open spec fn joint_at(s: Seq<char>, e: int) -> bool {
    e < s.len() && !is_space(s[e]) && !starts_line_comment(s, e) && !starts_block_comment(s, e)
}

/// The end of a character literal `'x'` or `'\x'` at `i`; `i + 1` where
/// the quote starts none (as in a lifetime).
pub open spec fn char_end(s: Seq<char>, i: int) -> int {
    if i + 2 < s.len() && s[i + 1] != '\\' && s[i + 1] != '\'' && s[i + 2] == '\'' {
        i + 3
    } else if i + 3 < s.len() && s[i + 1] == '\\' && s[i + 3] == '\'' {
        i + 4
    } else {
        i + 1
    }
}

/// The index just past the token that starts at `i`.
pub open spec fn token_end(s: Seq<char>, i: int) -> Option<int> {
    if let Some((j, k)) = raw_start(s, i) {
        raw_end(s, j, k)
    } else if is_word_char(s[i]) {
        Some(word_end(s, i))
    } else if s[i] == '"' {
        string_end(s, i + 1)
    } else if s[i] == '\'' {
        Some(char_end(s, i))
    } else {
        Some(i + 1)
    }
}

/// The token that stands in `s[i..e]`.
pub open spec fn token_at(s: Seq<char>, i: int, e: int) -> Tok {
    let w = s.subrange(i, e);
    let kind = if raw_start(s, i) is Some {
        TokKind::Literal(w)
    } else if is_word_char(s[i]) {
        if is_digit(s[i]) {
            TokKind::Literal(w)
        } else {
            match keyword_of(w) {
                Some(k) => TokKind::Keyword(k),
                None => TokKind::Ident(w),
            }
        }
    } else if s[i] == '"' || (s[i] == '\'' && e > i + 1) {
        TokKind::Literal(w)
    } else {
        TokKind::Punct(s[i])
    };
    Tok { kind, joint: joint_at(s, e) }
}

/// The tokens of `s` from `i` on. Whitespace and comments separate
/// tokens and are dropped.
pub open spec fn lex_from(s: Seq<char>, i: int) -> Result<Seq<Tok>, ExpandErrorV>
    decreases s.len() - i,
{
    if !(0 <= i < s.len()) {
        Ok(seq![])
    } else if is_space(s[i]) {
        lex_from(s, i + 1)
    } else if starts_line_comment(s, i) {
        let e = line_end(s, i + 2);
        if i < e <= s.len() {
            lex_from(s, e)
        } else {
            Ok(seq![])
        }
    } else if starts_block_comment(s, i) {
        match block_end(s, i + 2, 1) {
            Some(e) => if i < e <= s.len() {
                lex_from(s, e)
            } else {
                Err(ExpandErrorV::UnclosedComment)
            },
            None => Err(ExpandErrorV::UnclosedComment),
        }
    } else {
        match token_end(s, i) {
            Some(e) => if i < e <= s.len() {
                match lex_from(s, e) {
                    Ok(rest) => Ok(seq![token_at(s, i, e)] + rest),
                    Err(err) => Err(err),
                }
            } else {
                Err(ExpandErrorV::UnclosedLiteral)
            },
            None => Err(ExpandErrorV::UnclosedLiteral),
        }
    }
}

/// The tokens of a source text.
pub open spec fn lex(s: Seq<char>) -> Result<Seq<Tok>, ExpandErrorV> {
    lex_from(s, 0)
}

pub open spec fn prepend(a: Seq<Tok>, r: Result<Seq<Tok>, ExpandErrorV>) -> Result<Seq<Tok>, ExpandErrorV> {
    match r {
        Ok(x) => Ok(a + x),
        Err(e) => Err(e),
    }
}

fn is_space_char(c: char) -> (r: bool)
    ensures
        r == is_space(c),
{
    c == ' ' || c == '\t' || c == '\n' || c == '\r'
}

fn is_word_character(c: char) -> (r: bool)
    ensures
        r == is_word_char(c),
{
    ('a' <= c && c <= 'z') || ('A' <= c && c <= 'Z') || ('0' <= c && c <= '9') || c == '_' || c
        > '\u{7f}'
}

fn chars_of(s: &str) -> (r: Vec<char>)
    ensures
        r@ == s@,
{
    let n = s.unicode_len();
    let mut v: Vec<char> = Vec::new();
    let mut i: usize = 0;
    while i < n
        invariant
            n == s@.len(),
            i <= n,
            v@ == s@.subrange(0, i as int),
        decreases n - i,
    {
        v.push(s.get_char(i));
        proof {
            assert(v@ =~= s@.subrange(0, i + 1));
        }
        i = i + 1;
    }
    proof {
        assert(v@ =~= s@);
    }
    v
}

fn keyword_in(cs: &Vec<char>, i: usize, e: usize) -> (r: Option<Keyword>)
    requires
        i <= e <= cs.len(),
    ensures
        r == keyword_of(cs@.subrange(i as int, e as int)),
{
    let ghost w = cs@.subrange(i as int, e as int);
    if e - i == 4 && cs[i] == 'm' && cs[i + 1] == 'o' && cs[i + 2] == 'v' && cs[i + 3] == 'e' {
        proof {
            assert(w =~= keyword_text(Keyword::Move));
        }
        Some(Keyword::Move)
    } else if e - i == 3 && cs[i] == 'r' && cs[i + 1] == 'e' && cs[i + 2] == 'f' {
        proof {
            assert(w =~= keyword_text(Keyword::Ref));
            assert(w != keyword_text(Keyword::Move));
        }
        Some(Keyword::Ref)
    } else if e - i == 3 && cs[i] == 'm' && cs[i + 1] == 'u' && cs[i + 2] == 't' {
        proof {
            assert(w =~= keyword_text(Keyword::Mut));
            assert(w != keyword_text(Keyword::Move));
            assert(w[1] != keyword_text(Keyword::Ref)[1]);
        }
        Some(Keyword::Mut)
    } else {
        proof {
            if w == keyword_text(Keyword::Move) {
                assert(w.len() == 4);
                assert(w[0] == 'm' && w[1] == 'o' && w[2] == 'v' && w[3] == 'e');
                assert(w[0] == cs@[i as int] && w[1] == cs@[i + 1] && w[2] == cs@[i + 2] && w[3]
                    == cs@[i + 3]);
            }
            if w == keyword_text(Keyword::Ref) {
                assert(w.len() == 3);
                assert(w[0] == 'r' && w[1] == 'e' && w[2] == 'f');
                assert(w[0] == cs@[i as int] && w[1] == cs@[i + 1] && w[2] == cs@[i + 2]);
            }
            if w == keyword_text(Keyword::Mut) {
                assert(w.len() == 3);
                assert(w[0] == 'm' && w[1] == 'u' && w[2] == 't');
                assert(w[0] == cs@[i as int] && w[1] == cs@[i + 1] && w[2] == cs@[i + 2]);
            }
        }
        None
    }
}

fn find_word_end(cs: &Vec<char>, i: usize) -> (r: usize)
    requires
        i <= cs.len(),
    ensures
        r as int == word_end(cs@, i as int),
        i <= r <= cs.len(),
{
    let mut j: usize = i;
    while j < cs.len() && is_word_character(cs[j])
        invariant
            i <= j <= cs.len(),
            word_end(cs@, i as int) == word_end(cs@, j as int),
        decreases cs.len() - j,
    {
        j = j + 1;
    }
    j
}

fn find_string_end(cs: &Vec<char>, j0: usize) -> (r: Option<usize>)
    requires
        j0 <= cs.len(),
    ensures
        match r {
            Some(e) => string_end(cs@, j0 as int) == Some(e as int) && j0 < e <= cs.len(),
            None => string_end(cs@, j0 as int) is None,
        },
{
    let mut j: usize = j0;
    loop
        invariant
            j0 <= j <= cs.len(),
            string_end(cs@, j0 as int) == string_end(cs@, j as int),
        decreases cs.len() - j,
    {
        if j >= cs.len() {
            return None;
        }
        if cs[j] == '"' {
            return Some(j + 1);
        }
        if cs[j] == '\\' {
            if j + 1 < cs.len() {
                j = j + 2;
            } else {
                return None;
            }
        } else {
            j = j + 1;
        }
    }
}

fn find_char_end(cs: &Vec<char>, i: usize) -> (r: usize)
    requires
        i < cs.len(),
    ensures
        r as int == char_end(cs@, i as int),
        i < r <= cs.len(),
{
    let n = cs.len();
    if n - i > 2 && cs[i + 1] != '\\' && cs[i + 1] != '\'' && cs[i + 2] == '\'' {
        i + 3
    } else if n - i > 3 && cs[i + 1] == '\\' && cs[i + 3] == '\'' {
        i + 4
    } else {
        i + 1
    }
}

fn find_hash_run(cs: &Vec<char>, j0: usize) -> (r: usize)
    requires
        j0 <= cs.len(),
    ensures
        r as nat == hash_run(cs@, j0 as int),
        j0 + r <= cs.len(),
{
    let mut j: usize = j0;
    while j < cs.len() && cs[j] == '#'
        invariant
            j0 <= j <= cs.len(),
            hash_run(cs@, j0 as int) == (j - j0) + hash_run(cs@, j as int),
        decreases cs.len() - j,
    {
        j = j + 1;
    }
    j - j0
}

fn hashes_follow(cs: &Vec<char>, j: usize, k: usize) -> (r: bool)
    ensures
        r == hashes_at(cs@, j as int, k as nat),
{
    if j > cs.len() || k > cs.len() - j {
        return false;
    }
    let mut m: usize = 0;
    while m < k
        invariant
            j + k <= cs.len(),
            m <= k,
            forall|n: int| 0 <= n < m ==> #[trigger] cs@[j + n] == '#',
        decreases k - m,
    {
        if cs[j + m] != '#' {
            return false;
        }
        m = m + 1;
    }
    true
}

fn raw_begin(cs: &Vec<char>, i: usize) -> (r: Option<(usize, usize)>)
    requires
        i < cs.len(),
    ensures
        match r {
            Some((j, k)) => raw_start(cs@, i as int) == Some((j as int, k as nat)) && i < j <= cs.len(),
            None => raw_start(cs@, i as int) is None,
        },
{
    let p: usize = if cs[i] == 'r' {
        i + 1
    } else if cs[i] == 'b' && i + 1 < cs.len() && cs[i + 1] == 'r' {
        i + 2
    } else {
        return None;
    };
    let k = find_hash_run(cs, p);
    if p + k < cs.len() && cs[p + k] == '"' {
        Some((p + k + 1, k))
    } else {
        None
    }
}

fn find_raw_end(cs: &Vec<char>, j0: usize, k: usize) -> (r: Option<usize>)
    requires
        j0 <= cs.len(),
    ensures
        match r {
            Some(e) => raw_end(cs@, j0 as int, k as nat) == Some(e as int) && j0 < e <= cs.len(),
            None => raw_end(cs@, j0 as int, k as nat) is None,
        },
{
    let mut j: usize = j0;
    while j < cs.len()
        invariant
            j0 <= j <= cs.len(),
            raw_end(cs@, j0 as int, k as nat) == raw_end(cs@, j as int, k as nat),
        decreases cs.len() - j,
    {
        if cs[j] == '"' && hashes_follow(cs, j + 1, k) {
            return Some(j + 1 + k);
        }
        j = j + 1;
    }
    None
}

fn find_line_end(cs: &Vec<char>, j0: usize) -> (r: usize)
    requires
        j0 <= cs.len(),
    ensures
        r as int == line_end(cs@, j0 as int),
        j0 <= r <= cs.len(),
{
    let mut j: usize = j0;
    while j < cs.len() && cs[j] != '\n'
        invariant
            j0 <= j <= cs.len(),
            line_end(cs@, j0 as int) == line_end(cs@, j as int),
        decreases cs.len() - j,
    {
        j = j + 1;
    }
    j
}

fn find_block_end(cs: &Vec<char>, j0: usize) -> (r: Option<usize>)
    requires
        1 <= j0 <= cs.len(),
    ensures
        match r {
            Some(e) => block_end(cs@, j0 as int, 1) == Some(e as int) && j0 < e <= cs.len(),
            None => block_end(cs@, j0 as int, 1) is None,
        },
{
    let mut j: usize = j0;
    let mut depth: usize = 1;
    while j < cs.len()
        invariant
            j0 <= j <= cs.len(),
            1 <= depth <= j,
            block_end(cs@, j0 as int, 1) == block_end(cs@, j as int, depth as nat),
        decreases cs.len() - j,
    {
        if j < cs.len() - 1 && cs[j] == '*' && cs[j + 1] == '/' {
            if depth <= 1 {
                return Some(j + 2);
            }
            depth = depth - 1;
            j = j + 2;
        } else if j < cs.len() - 1 && cs[j] == '/' && cs[j + 1] == '*' {
            depth = depth + 1;
            j = j + 2;
        } else {
            j = j + 1;
        }
    }
    None
}

fn starts_comment(cs: &Vec<char>, i: usize, second: char) -> (r: bool)
    ensures
        r == (0 <= i && i + 1 < cs.len() && cs@[i as int] == '/' && cs@[i + 1] == second),
{
    i < cs.len() && i < cs.len() - 1 && cs[i] == '/' && cs[i + 1] == second
}

fn is_joint(cs: &Vec<char>, e: usize) -> (r: bool)
    ensures
        r == joint_at(cs@, e as int),
{
    e < cs.len() && !is_space_char(cs[e]) && !starts_comment(cs, e, '/') && !starts_comment(
        cs,
        e,
        '*',
    )
}

fn find_token_end(cs: &Vec<char>, i: usize) -> (r: Option<usize>)
    requires
        i < cs.len(),
    ensures
        match r {
            Some(e) => token_end(cs@, i as int) == Some(e as int) && i < e <= cs.len(),
            None => token_end(cs@, i as int) is None,
        },
{
    if let Some((j, k)) = raw_begin(cs, i) {
        return find_raw_end(cs, j, k);
    }
    if is_word_character(cs[i]) {
        proof {
            assert(word_end(cs@, i as int) == word_end(cs@, i + 1));
        }
        Some(find_word_end(cs, i + 1))
    } else if cs[i] == '"' {
        find_string_end(cs, i + 1)
    } else if cs[i] == '\'' {
        Some(find_char_end(cs, i))
    } else {
        Some(i + 1)
    }
}

fn make_token(source: &str, cs: &Vec<char>, i: usize, e: usize) -> (r: Token)
    requires
        cs@ == source@,
        i < e <= cs.len(),
    ensures
        r@ == token_at(cs@, i as int, e as int),
{
    let c = cs[i];
    let raw = raw_begin(cs, i).is_some();
    let kind = if raw {
        TokenKind::Literal(String::from_str(source.substring_char(i, e)))
    } else if is_word_character(c) {
        if '0' <= c && c <= '9' {
            TokenKind::Literal(String::from_str(source.substring_char(i, e)))
        } else {
            match keyword_in(cs, i, e) {
                Some(k) => TokenKind::Keyword(k),
                None => TokenKind::Ident(String::from_str(source.substring_char(i, e))),
            }
        }
    } else if c == '"' || (c == '\'' && e > i + 1) {
        TokenKind::Literal(String::from_str(source.substring_char(i, e)))
    } else {
        TokenKind::Punct(c)
    };
    let joint = is_joint(cs, e);
    Token { kind, joint }
}

/// Splits a source text into tokens. Whitespace and comments separate
/// tokens and are otherwise dropped; each token records whether the next
/// one follows it directly.
pub fn tokenize(source: &str) -> (r: Result<Vec<Token>, ExpandError>)
    ensures
        match r {
            Ok(ts) => lex(source@) == Ok::<Seq<Tok>, ExpandErrorV>(toks(ts@)),
            Err(e) => lex(source@) == Err::<Seq<Tok>, ExpandErrorV>(e@),
        },
{
    let cs = chars_of(source);
    let ghost s = source@;
    let mut out: Vec<Token> = Vec::new();
    let mut i: usize = 0;
    proof {
        assert(prepend(toks(out@), lex_from(s, 0)) == lex(s)) by {
            assert(toks(out@) =~= Seq::<Tok>::empty());
            if let Ok(x) = lex_from(s, 0) {
                assert(toks(out@) + x =~= x);
            }
        }
    }
    while i < cs.len()
        invariant
            cs@ == s,
            s == source@,
            i <= cs.len(),
            lex(s) == prepend(toks(out@), lex_from(s, i as int)),
        decreases cs.len() - i,
    {
        if is_space_char(cs[i]) {
            i = i + 1;
        } else if starts_comment(&cs, i, '/') {
            i = find_line_end(&cs, i + 2);
        } else if starts_comment(&cs, i, '*') {
            match find_block_end(&cs, i + 2) {
                None => {
                    return Err(ExpandError::UnclosedComment);
                },
                Some(e) => {
                    i = e;
                },
            }
        } else {
            match find_token_end(&cs, i) {
                None => {
                    return Err(ExpandError::UnclosedLiteral);
                },
                Some(e) => {
                    let t = make_token(source, &cs, i, e);
                    let ghost before = toks(out@);
                    out.push(t);
                    proof {
                        assert(toks(out@) =~= before.push(t@));
                        if let Ok(x) = lex_from(s, e as int) {
                            assert(before + (seq![t@] + x) =~= toks(out@) + x);
                        }
                    }
                    i = e;
                },
            }
        }
    }
    proof {
        if let Ok(x) = lex_from(s, i as int) {
            assert(toks(out@) + x =~= toks(out@));
        }
    }
    Ok(out)
}

} // verus!
