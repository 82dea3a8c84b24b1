//! Values: construction, equality, text.
use scheme_engine::expr::{ClosureId, Keyword, NativeFunc, Signature};
use scheme_engine::opcode::ProcId;
use scheme_engine::repr::{repr, Piece};
use scheme_engine::utils::{cons, nil, number};
use scheme_engine::{Closure, Expr, Pair};

fn num(value: f64) -> Expr {
    number(value.to_bits())
}

fn text_of(expr: &Expr) -> String {
    let mut text = String::new();
    for piece in expr.repr().pieces() {
        match piece {
            Piece::Char(c) => text.push(c),
            Piece::Number(bits) => text.push_str(&format!("{}", f64::from_bits(bits))),
        }
    }
    text
}

#[test]
fn test_split_first() {
    let expr = cons(num(1.0), num(2.0));
    let pair = expr.as_pair().unwrap();

    let (first, rest) = pair.split_first();
    println!("{first:?}, {rest:?}");
    assert_eq!(*first, num(1.0));
    assert_eq!(*rest, num(2.0));
}

#[test]
fn test_make_list() {
    let list = cons(num(1.0), cons(num(2.0), nil()));
    println!("{list:?}");
    println!("{}", text_of(&list));

    let list = Pair::new_list(&vec![num(1.0), num(2.0)]).unwrap();
    println!("{list:?}");
    println!("{}", text_of(&list.to_expr()));

    let list = Pair::new(num(1.0), Pair::new(num(2.0), num(3.0)).to_expr());
    println!("{list:?}");
    println!("{}", text_of(&list.to_expr()));
}

#[test]
fn test_make_list_from_vec() {
    let a = Pair::new_list_vec(vec![num(1.0), num(2.0)]).unwrap();
    println!("{a:?}");
    assert_eq!(text_of(&a.to_expr()), "(1 2)");

    let b = Pair::new_list_vec(vec![num(1.0), num(2.0), num(3.0)]).unwrap();
    println!("{b:?}");
    assert_eq!(text_of(&b.to_expr()), "(1 2 3)");

    assert!(Pair::new_list_vec(vec![]).is_none());
}

#[test]
fn test_list_repr() {
    assert_eq!(
        text_of(&Pair::new_list(&vec![num(1.0), num(2.0)]).unwrap().to_expr()),
        "(1 2)"
    );

    assert_eq!(
        text_of(&Pair::new_list(&vec![num(1.0), num(2.0), num(3.0)]).unwrap().to_expr()),
        "(1 2 3)"
    );

    assert_eq!(text_of(&cons(num(1.0), cons(num(2.0), nil()))), "(1 2)");
    assert_eq!(text_of(&cons(num(1.0), cons(num(2.0), num(3.0)))), "(1 2 . 3)");
}

#[test]
fn text_of_every_kind_of_value() {
    assert_eq!(text_of(&Expr::Nil), "()");
    assert_eq!(text_of(&Expr::Void), "#!void");
    assert_eq!(text_of(&Expr::Bool(true)), "#t");
    assert_eq!(text_of(&Expr::Bool(false)), "#f");
    assert_eq!(text_of(&num(6.0)), "6");
    assert_eq!(text_of(&num(0.1)), "0.1");
    assert_eq!(text_of(&Expr::String("a b".to_string())), "a b");
    assert_eq!(text_of(&Expr::Ident("name".into())), "name");
    assert_eq!(text_of(&Expr::Keyword(Keyword::Dot)), ".");
    assert_eq!(text_of(&Expr::Quote(Box::new(Expr::Ident("x".into())))), "'x");
    assert_eq!(text_of(&Expr::List(vec![])), "()");
    assert_eq!(
        text_of(&Expr::List(vec![num(1.0), Expr::List(vec![Expr::Bool(true)]), Expr::Nil])),
        "(1 (#t) ())"
    );
    assert_eq!(text_of(&Expr::Vector(vec![num(1.0), num(2.0)])), "#(1 2)");
    assert_eq!(text_of(&Expr::Sequence(vec![Expr::Ident("a".into())])), "(a)");
    assert_eq!(text_of(&cons(num(1.0), num(2.0))), "(1 . 2)");
    assert_eq!(text_of(&cons(cons(num(1.0), nil()), nil())), "((1))");
    assert_eq!(text_of(&Expr::Procedure(ProcId::new(0))), "<procedure 0x0>");
    assert_eq!(text_of(&Expr::Procedure(ProcId::new(255))), "<procedure 0xff>");
    assert_eq!(text_of(&Expr::Closure(ClosureId(0x1a2b))), "<procedure 0x1a2b>");
    assert_eq!(text_of(&Expr::NativeFunc(NativeFunc(3))), "<native-function>");
}

#[test]
fn repr_gives_the_pieces_of_the_text() {
    assert_eq!(
        repr(&Expr::List(vec![num(2.5), Expr::Bool(false)])),
        vec![
            Piece::Char('('),
            Piece::Number(2.5f64.to_bits()),
            Piece::Char(' '),
            Piece::Char('#'),
            Piece::Char('f'),
            Piece::Char(')'),
        ]
    );
}

#[test]
fn scalars_are_equal_by_what_they_hold() {
    assert_eq!(Expr::Nil, Expr::Nil);
    assert_eq!(Expr::Bool(true), Expr::Bool(true));
    assert_ne!(Expr::Bool(true), Expr::Bool(false));
    assert_eq!(num(1.5), num(1.5));
    assert_ne!(num(1.5), num(2.5));
    assert_eq!(Expr::String("a".to_string()), Expr::String("a".to_string()));
    assert_ne!(Expr::String("a".to_string()), Expr::String("b".to_string()));
    assert_eq!(Expr::Ident("a".into()), Expr::Ident("a".into()));
    assert_ne!(Expr::Ident("a".into()), Expr::Ident("b".into()));
    assert_ne!(Expr::Ident("a".into()), Expr::String("a".to_string()));
    assert_eq!(Expr::Keyword(Keyword::Dot), Expr::Keyword(Keyword::Dot));
    assert_ne!(Expr::Nil, Expr::Bool(false));
    // As values, numbers are the same if their bit patterns are; whether two
    // are equal as numbers is for the host to say.
    assert_eq!(num(f64::NAN), num(f64::NAN));
    assert_ne!(num(0.0), num(-0.0));
}

#[test]
fn procedures_and_closures_are_equal_by_identity() {
    assert_eq!(Expr::Procedure(ProcId::new(1)), Expr::Procedure(ProcId::new(1)));
    assert_ne!(Expr::Procedure(ProcId::new(1)), Expr::Procedure(ProcId::new(2)));
    assert_eq!(Expr::Closure(ClosureId(1)), Expr::Closure(ClosureId(1)));
    assert_ne!(Expr::Closure(ClosureId(1)), Expr::Closure(ClosureId(2)));
}

#[test]
fn every_value_is_equal_to_itself() {
    let values = vec![
        Expr::Nil,
        Expr::Void,
        Expr::Bool(false),
        num(1.5),
        num(f64::NAN),
        Expr::String("a".to_string()),
        Expr::Ident("a".into()),
        Expr::Keyword(Keyword::Dot),
        Expr::Quote(Box::new(Expr::Ident("x".into()))),
        Expr::List(vec![]),
        Expr::List(vec![num(1.0), Expr::List(vec![Expr::Void])]),
        cons(num(1.0), cons(num(2.0), nil())),
        Expr::Vector(vec![num(1.0)]),
        Expr::Sequence(vec![Expr::Nil]),
        Expr::Procedure(ProcId::new(1)),
        Expr::Closure(ClosureId(1)),
        Expr::NativeFunc(NativeFunc(1)),
    ];
    for (i, value) in values.iter().enumerate() {
        assert_eq!(value, value);
        assert_eq!(*value, value.clone());
        // No two values of the row are equal.
        for (j, other) in values.iter().enumerate() {
            assert_eq!(value == other, i == j, "{value:?} and {other:?}");
        }
    }
}

#[test]
fn compound_values_are_equal_item_by_item() {
    assert_eq!(Expr::List(vec![num(1.0), num(2.0)]), Expr::List(vec![num(1.0), num(2.0)]));
    assert_ne!(Expr::List(vec![num(1.0), num(2.0)]), Expr::List(vec![num(2.0), num(1.0)]));
    assert_ne!(Expr::List(vec![num(1.0)]), Expr::List(vec![num(1.0), num(1.0)]));
    assert_ne!(Expr::List(vec![num(1.0)]), Expr::List(vec![]));
    // The kind of the row counts.
    assert_ne!(Expr::List(vec![num(1.0)]), Expr::Vector(vec![num(1.0)]));
    assert_ne!(Expr::List(vec![num(1.0)]), Expr::Sequence(vec![num(1.0)]));
    assert_ne!(Expr::List(vec![]), Expr::Nil);
    assert_eq!(
        Expr::Vector(vec![Expr::List(vec![Expr::Bool(true)])]),
        Expr::Vector(vec![Expr::List(vec![Expr::Bool(true)])])
    );
    assert_ne!(
        Expr::Vector(vec![Expr::List(vec![Expr::Bool(true)])]),
        Expr::Vector(vec![Expr::List(vec![Expr::Bool(false)])])
    );
    assert_eq!(cons(num(1.0), nil()), cons(num(1.0), nil()));
    assert_ne!(cons(num(1.0), nil()), cons(num(2.0), nil()));
    assert_ne!(cons(num(1.0), nil()), cons(num(1.0), num(1.0)));
    assert_eq!(
        Expr::Quote(Box::new(Expr::Ident("x".into()))),
        Expr::Quote(Box::new(Expr::Ident("x".into())))
    );
    assert_ne!(
        Expr::Quote(Box::new(Expr::Ident("x".into()))),
        Expr::Quote(Box::new(Expr::Ident("y".into())))
    );
    assert_eq!(Expr::NativeFunc(NativeFunc(1)), Expr::NativeFunc(NativeFunc(1)));
    assert_ne!(Expr::NativeFunc(NativeFunc(1)), Expr::NativeFunc(NativeFunc(2)));
    assert_eq!(Expr::Void, Expr::Void);
    assert_ne!(Expr::Void, Expr::Nil);
}

#[test]
fn clone_copies_a_value_in_depth() {
    let value = Expr::List(vec![
        Expr::Ident("a-long-identifier-that-does-not-fit-inline".into()),
        Expr::String("text".to_string()),
        cons(num(1.0), Expr::Quote(Box::new(Expr::Vector(vec![Expr::Void])))),
    ]);
    let copy = value.clone();
    assert_eq!(format!("{value:?}"), format!("{copy:?}"));
    assert_eq!(text_of(&value), text_of(&copy));
}

#[test]
fn accessors_tell_the_kinds_of_values() {
    assert!(Expr::Bool(true).is_boolean());
    assert!(!num(1.0).is_boolean());
    assert!(num(1.0).is_number());
    assert!(!Expr::Nil.is_number());
    assert_eq!(num(21.0).as_number(), Some(21.0f64.to_bits()));
    assert_eq!(Expr::Nil.as_number(), None);
    assert_eq!(Expr::Ident("x".into()).as_ident(), Some("x"));
    assert_eq!(Expr::String("x".to_string()).as_ident(), None);
    assert_eq!(Expr::List(vec![num(1.0)]).as_slice().map(|v| v.len()), Some(1));
    assert_eq!(Expr::Sequence(vec![]).as_slice().map(|v| v.len()), Some(0));
    assert!(Expr::Vector(vec![]).as_slice().is_none());
    assert_eq!(Expr::Sequence(vec![num(1.0)]).as_sequence().map(|v| v.len()), Some(1));
    assert_eq!(Expr::Closure(ClosureId(4)).as_closure(), Some(ClosureId(4)));
    assert_eq!(num(1.0).as_closure(), None);
    assert!(num(1.0).as_pair().is_none());
    assert!(matches!(Expr::default(), Expr::Nil));
}

#[test]
fn signatures_admit_calls_by_their_arity() {
    let fixed = Signature::new(2, false);
    assert!(!fixed.admits(1));
    assert!(fixed.admits(2));
    assert!(!fixed.admits(3));
    let variadic = Signature::new(2, true);
    assert!(!variadic.admits(1));
    assert!(variadic.admits(2));
    assert!(variadic.admits(9));
    assert_eq!(Signature::empty(), Signature::new(0, false));
}

#[test]
fn closures_hold_their_procedure() {
    let closure = Closure::new(ProcId::new(3));
    assert_eq!(closure.procedure(), ProcId::new(3));
    assert_eq!(closure.procedure_rc(), ProcId::new(3));
    assert_eq!(closure.up_value(0), None);
}
