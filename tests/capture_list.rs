use std::rc::Rc;

use closure::closure;

struct Foo {
    bar: Bar,
}

#[derive(PartialEq, Eq)]
struct Bar {
    baz: i32,
}

impl Foo {
    fn new(baz: i32) -> Self {
        Foo { bar: Bar { baz } }
    }

    // The bodies below are what `closure("move self.bar.baz, ...")` and
    // `closure("ref self.bar.baz, ...")` expand to.
    fn consume(self) -> Box<dyn Fn(i32) -> bool> {
        Box::new({
            let baz = self.bar.baz;
            move |expected| baz == expected
        })
    }

    fn borrow(&self) -> Box<dyn Fn(i32) -> bool + '_> {
        Box::new({
            let baz = &self.bar.baz;
            move |expected| *baz == expected
        })
    }
}

fn expanded(source: &str) -> String {
    closure(source).expect("the source expands")
}

#[test]
fn no_capture_one_line() {
    assert_eq!(expanded("|| 5 * 5"), "{ move || 5 * 5 }");
    let closure = { move || 5 * 5 };
    assert_eq!(closure(), 25);
}

#[test]
fn no_capture_with_arg() {
    assert_eq!(expanded("|x| x * x"), "{ move |x| x * x }");
    let closure = { move |x| x * x };
    assert_eq!(closure(5), 25);
}

#[test]
fn no_capture_with_arg_and_type_hint() {
    assert_eq!(expanded("|x: usize| x * x"), "{ move |x: usize| x * x }");
    let closure = { move |x: usize| x * x };
    assert_eq!(closure(5), 25);
}

#[test]
fn no_capture_with_arg_and_return_type() {
    assert_eq!(
        expanded("|x: usize| -> usize { x * x }"),
        "{ move |x: usize| -> usize { x * x } }"
    );
    let closure = { move |x: usize| -> usize { x * x } };
    assert_eq!(closure(5), 25);
}

#[test]
fn no_capture_with_return_type() {
    assert_eq!(
        expanded("|| -> &str { \"result\" }"),
        "{ move || -> &str { \"result\" } }"
    );
    let closure = { move || -> &str { "result" } };
    assert_eq!(closure(), "result");
}

#[test]
fn capture_by_move() {
    assert_eq!(
        expanded("move string, || string.len()"),
        "{ let string = string; move || string.len() }"
    );
    let string = "move".to_string();
    let closure = {
        let string = string;
        move || string.len()
    };
    assert_eq!(closure(), 4);
}

#[test]
fn capture_by_ref() {
    assert_eq!(
        expanded("ref var, || *var == -1"),
        "{ let var = &var; move || *var == -1 }"
    );
    let var = -1;
    let closure = {
        let var = &var;
        move || *var == -1
    };
    assert!(closure());
}

#[test]
fn capture_by_ref_mut() {
    assert_eq!(
        expanded("ref mut var, || *var *= -1"),
        "{ let var = &mut var; move || *var *= -1 }"
    );
    let mut var = -1;
    ({
        let var = &mut var;
        move || *var *= -1
    })();
    assert_eq!(var, 1);
}

#[test]
fn capture_nested_by_move() {
    assert_eq!(
        expanded("move foo.bar, || bar == Bar { baz: -1 }"),
        "{ let bar = foo.bar; move || bar == Bar { baz: -1 } }"
    );
    let foo = Foo::new(-1);
    let closure = {
        let bar = foo.bar;
        move || bar == Bar { baz: -1 }
    };
    assert!(closure());
}

#[test]
fn capture_nested_by_ref() {
    assert_eq!(
        expanded("ref foo.bar, || *bar == Bar { baz: -1 }"),
        "{ let bar = &foo.bar; move || *bar == Bar { baz: -1 } }"
    );
    let foo = Foo::new(-1);
    let closure = {
        let bar = &foo.bar;
        move || *bar == Bar { baz: -1 }
    };
    assert!(closure());
}

#[test]
fn capture_nested_by_ref_mut() {
    assert_eq!(
        expanded("ref mut foo.bar.baz, |add| *baz += add"),
        "{ let baz = &mut foo.bar.baz; move |add| *baz += add }"
    );
    let mut foo = Foo::new(-1);
    ({
        let baz = &mut foo.bar.baz;
        move |add| *baz += add
    })(2);
    assert_eq!(foo.bar.baz, 1);
}

#[test]
fn capture_nested_with_self_by_move() {
    assert_eq!(
        expanded("move self.bar.baz, |expected| baz == expected"),
        "{ let baz = self.bar.baz; move |expected| baz == expected }"
    );
    let foo = Foo::new(-1);
    let closure = foo.consume();
    assert!(closure(-1));
}

#[test]
fn capture_nested_with_self_by_ref() {
    assert_eq!(
        expanded("ref self.bar.baz, |expected| *baz == expected"),
        "{ let baz = &self.bar.baz; move |expected| *baz == expected }"
    );
    let foo = Foo::new(-1);
    let closure = foo.borrow();
    assert!(closure(-1));
}

#[test]
fn capture_multiple_mixed() {
    let source = "ref borrow, ref mut borrow_mut, move mut string, || {
            assert_eq!(*borrow, 1);
            *borrow_mut -= 1;
            string.push_str(\"d back\");
            string
        }";
    assert_eq!(
        expanded(source),
        "{ let borrow = &borrow; let borrow_mut = &mut borrow_mut; let mut string = string; \
         move || { assert_eq!(*borrow, 1); *borrow_mut -= 1; string.push_str(\"d back\"); string } }"
    );
    let borrow = 1;
    let mut borrow_mut = 1;
    let string = "move".to_string();

    let closure = {
        let borrow = &borrow;
        let borrow_mut = &mut borrow_mut;
        let mut string = string;
        move || {
            assert_eq!(*borrow, 1);
            *borrow_mut -= 1;
            string.push_str("d back");
            string
        }
    };

    assert_eq!(&closure(), "moved back");
}

#[test]
fn capture_by_clone() {
    assert_eq!(
        expanded("clone rc, |expected| -> bool { rc.bar.baz == expected && Rc::strong_count(&rc) == 2 }"),
        "{ let rc = rc.clone(); move |expected| -> bool { rc.bar.baz == expected && Rc::strong_count(&rc) == 2 } }"
    );
    let rc = Rc::new(Foo::new(0));
    let closure = {
        let rc = rc.clone();
        move |expected| -> bool { rc.bar.baz == expected && Rc::strong_count(&rc) == 2 }
    };
    assert!(closure(0));
}

#[test]
fn capture_by_fn_ident() {
    let source = "to_string string, || {
            let mut owned: String = string;
            owned.push_str(\", now owned\");
            owned
        }";
    assert_eq!(
        expanded(source),
        "{ let string = string.to_string(); \
         move || { let mut owned: String = string; owned.push_str(\", now owned\"); owned } }"
    );
    let string = "string";
    let closure = {
        let string = string.to_string();
        move || {
            let mut owned: String = string;
            owned.push_str(", now owned");
            owned
        }
    };

    assert_eq!(closure(), "string, now owned");
}
