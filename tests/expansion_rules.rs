use std::cell::Cell;
use std::rc::Rc;

use closure::{
    closure, expand, parse_captures, render_tokens, tokenize, Capture, ExpandError, Keyword, Mode,
    Token, TokenKind,
};

fn ident(s: &str, joint: bool) -> Token {
    Token { kind: TokenKind::Ident(s.to_string()), joint }
}

fn punct(c: char, joint: bool) -> Token {
    Token { kind: TokenKind::Punct(c), joint }
}

fn keyword(k: Keyword, joint: bool) -> Token {
    Token { kind: TokenKind::Keyword(k), joint }
}

#[test]
fn move_and_ref_mut_scenario() {
    assert_eq!(
        closure("move s, ref mut n, || { n += s.len(); }").unwrap(),
        "{ let s = s; let n = &mut n; move || { n += s.len(); } }"
    );
    let s: String = "hi".to_string();
    let mut n: i32 = 1;
    {
        let s = s;
        let n = &mut n;
        let mut call = move || {
            *n += s.len() as i32;
        };
        call();
    }
    assert_eq!(n, 3);
}

#[test]
fn clone_counter_scenario() {
    assert_eq!(
        closure("clone counter, || counter.get()").unwrap(),
        "{ let counter = counter.clone(); move || counter.get() }"
    );
    let counter = Rc::new(Cell::new(7));
    assert_eq!(Rc::strong_count(&counter), 1);
    let call = {
        let counter = counter.clone();
        move || counter.get()
    };
    assert_eq!(Rc::strong_count(&counter), 2);
    assert_eq!(call(), 7);
    assert_eq!(Rc::strong_count(&counter), 2);
}

#[test]
fn square_without_captures() {
    assert_eq!(closure("|x: usize| x * x").unwrap(), "{ move |x: usize| x * x }");
    let call = { move |x: usize| x * x };
    assert_eq!(call(5), 25);
}

#[test]
fn each_specifier_on_one_variable() {
    let cases = [
        ("move x, || x", "{ let x = x; move || x }"),
        ("move mut x, || x", "{ let mut x = x; move || x }"),
        ("ref x, || x", "{ let x = &x; move || x }"),
        ("ref mut x, || x", "{ let x = &mut x; move || x }"),
        ("clone x, || x", "{ let x = x.clone(); move || x }"),
        ("clone mut x, || x", "{ let mut x = x.clone(); move || x }"),
        ("x, || x", "{ let x = x; move || x }"),
    ];
    for (source, expected) in cases {
        assert_eq!(closure(source).unwrap(), expected, "for {}", source);
    }
}

#[test]
fn nested_path_binds_last_name() {
    assert_eq!(
        closure("ref a.b.c, || c").unwrap(),
        "{ let c = &a.b.c; move || c }"
    );
    assert_eq!(
        closure("to_owned mut a.b.c, || c").unwrap(),
        "{ let mut c = a.b.c.to_owned(); move || c }"
    );
    assert_eq!(closure("a.b, || b").unwrap(), "{ let b = a.b; move || b }");
}

#[test]
fn move_on_closure_is_refused() {
    assert_eq!(closure("move || 5"), Err(ExpandError::MoveNotPermitted));
    assert_eq!(closure("ref a, move || a"), Err(ExpandError::MoveNotPermitted));
    assert_eq!(
        ExpandError::MoveNotPermitted.message(),
        "keyword `move` not permitted here"
    );
}

#[test]
fn non_closure_is_refused_with_its_tokens() {
    let err = closure("ref a, 5 * 5").unwrap_err();
    assert_eq!(
        err,
        ExpandError::NotAClosure(vec![
            Token { kind: TokenKind::Literal("5".to_string()), joint: false },
            punct('*', false),
            Token { kind: TokenKind::Literal("5".to_string()), joint: false },
        ])
    );
    assert_eq!(err.message(), "the supplied argument is not a closure: `5 * 5`");
}

#[test]
fn leading_separator_is_refused() {
    let err = closure(", || 1").unwrap_err();
    assert_eq!(err.message(), "the supplied argument is not a closure: `, || 1`");
}

#[test]
fn closure_without_body_is_refused() {
    let err = closure("ref a, ||").unwrap_err();
    assert_eq!(err.message(), "the supplied argument is not a closure: `||`");
    let err = closure("").unwrap_err();
    assert_eq!(err, ExpandError::NotAClosure(vec![]));
    assert_eq!(err.message(), "the supplied argument is not a closure: ``");
}

#[test]
fn missing_comma_is_refused() {
    let err = closure("ref a || a").unwrap_err();
    assert_eq!(err.message(), "the supplied argument is not a closure: `ref a || a`");
}

#[test]
fn unclosed_literal_is_refused() {
    assert_eq!(closure("|| \"abc"), Err(ExpandError::UnclosedLiteral));
    assert_eq!(
        ExpandError::UnclosedLiteral.message(),
        "a string or character literal is never closed"
    );
}

#[test]
fn tokenize_marks_joint_tokens() {
    let ts = tokenize("ref mut a.b, |x| 'q' + \"s t\"").unwrap();
    assert_eq!(
        ts,
        vec![
            keyword(Keyword::Ref, false),
            keyword(Keyword::Mut, false),
            ident("a", true),
            punct('.', true),
            ident("b", true),
            punct(',', false),
            punct('|', true),
            ident("x", true),
            punct('|', false),
            Token { kind: TokenKind::Literal("'q'".to_string()), joint: false },
            punct('+', false),
            Token { kind: TokenKind::Literal("\"s t\"".to_string()), joint: false },
        ]
    );
}

#[test]
fn tokenize_keeps_lifetimes_and_escapes() {
    let ts = tokenize("|s: &'a str| '\\'' ").unwrap();
    assert_eq!(render_tokens(&ts), "|s: &'a str| '\\''");
    assert_eq!(ts[4], punct('\'', true));
    assert_eq!(ts[5], ident("a", false));
}

#[test]
fn parse_captures_reads_each_entry() {
    let ts = tokenize("move mut a, ref b.c, clone d, || 0").unwrap();
    let (cs, k) = parse_captures(&ts);
    assert_eq!(k, 12);
    assert_eq!(
        cs,
        vec![
            Capture { mode: Mode::Move, mutable: true, path: vec!["a".to_string()] },
            Capture { mode: Mode::Ref, mutable: false, path: vec!["b".to_string(), "c".to_string()] },
            Capture {
                mode: Mode::Transform("clone".to_string()),
                mutable: false,
                path: vec!["d".to_string()],
            },
        ]
    );
}

#[test]
fn expand_on_tokens() {
    let ts = vec![
        keyword(Keyword::Ref, false),
        ident("v", true),
        punct(',', false),
        punct('|', true),
        punct('|', false),
        ident("v", false),
    ];
    let out = expand(&ts).unwrap();
    assert_eq!(out.len(), 12);
    assert_eq!(render_tokens(&out), "{ let v = &v; move || v }");
}

#[test]
fn line_comment_in_body_is_dropped() {
    assert_eq!(
        closure("|| {\n // note\n 1\n }").unwrap(),
        "{ move || { 1 } }"
    );
    assert_eq!(
        closure("move first, || {\n    // a \"quote\" in a comment\n    first\n}").unwrap(),
        "{ let first = first; move || { first } }"
    );
    assert_eq!(closure("|| 1 // trailing").unwrap(), "{ move || 1 }");
}

#[test]
fn block_comment_in_body_is_dropped() {
    assert_eq!(
        closure("ref a, || /* one /* nested */ still */ a").unwrap(),
        "{ let a = &a; move || a }"
    );
    assert_eq!(closure("|| a/*x*/b").unwrap(), "{ move || a b }");
    assert_eq!(closure("|| 1 /* open"), Err(ExpandError::UnclosedComment));
    assert_eq!(
        ExpandError::UnclosedComment.message(),
        "a block comment is never closed"
    );
}

#[test]
fn non_ascii_names_are_captured() {
    assert_eq!(
        closure("ref größe, || größe").unwrap(),
        "{ let größe = &größe; move || größe }"
    );
    assert_eq!(
        tokenize("größe").unwrap(),
        vec![ident("größe", false)]
    );
}

#[test]
fn raw_strings_are_single_literals() {
    let ts = tokenize("|| r#\"a\"b\"# + br\"c\"").unwrap();
    assert_eq!(
        ts[2],
        Token { kind: TokenKind::Literal("r#\"a\"b\"#".to_string()), joint: false }
    );
    assert_eq!(
        ts[4],
        Token { kind: TokenKind::Literal("br\"c\"".to_string()), joint: false }
    );
    assert_eq!(
        closure("|| r#\"a\"b\"#").unwrap(),
        "{ move || r#\"a\"b\"# }"
    );
    assert_eq!(closure("|| r#\"a\""), Err(ExpandError::UnclosedLiteral));
}
