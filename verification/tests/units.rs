//! Unit checks of the pieces: values, arithmetic, the tokenizer, the reader,
//! decimal text, the session helpers and the memory pool.

use jester::env::Env;
use jester::err::{AsResult, JtsErrType};
use jester::lexer::{is_escaper, is_non_tok, is_operater, to_obj, to_tok, to_toks};
use jester::nodes::NodeIter;
use jester::objects::{Node, Obj};
use jester::parser::Parser;
use jester::pool::{Elem, MemPool};
use jester::repl::{Repl, ReplStep};
use jester::strings::{fmt_i64, fmt_u64, parse_i32, parse_usize};
use jester::tokens::{Id, Tok, TokFlag, TokType};

#[test]
fn decimal_rendering() {
    assert_eq!(fmt_u64(0), "0".to_string());
    assert_eq!(fmt_u64(905), "905".to_string());
    assert_eq!(fmt_i64(-37), "-37".to_string());
    assert_eq!(fmt_i64(i64::MIN), "-9223372036854775808".to_string());
}

#[test]
fn decimal_parsing() {
    assert_eq!(parse_i32("42"), Some(42));
    assert_eq!(parse_i32("-42"), Some(-42));
    assert_eq!(parse_i32("+7"), Some(7));
    assert_eq!(parse_i32("2147483647"), Some(i32::MAX));
    assert_eq!(parse_i32("-2147483648"), Some(i32::MIN));
    assert_eq!(parse_i32("2147483648"), None);
    assert_eq!(parse_i32("4x"), None);
    assert_eq!(parse_i32(""), None);
    assert_eq!(parse_usize("18446744073709551615"), Some(usize::MAX));
    assert_eq!(parse_usize("-1"), None);
}

#[test]
fn literals_from_symbol_text() {
    assert!(matches!(to_obj(&"42".to_string()), Obj::I32(42)));
    assert!(matches!(to_obj(&"abc".to_string()), Obj::Nil()));
    // a floating literal is not a 32-bit integer and reads as nil
    assert!(matches!(to_obj(&"2.0".to_string()), Obj::Nil()));
}

#[test]
fn value_predicates_and_casts() {
    let v = Obj::I32(-1);
    assert_eq!(v.as_u32().unwrap(), u32::MAX);
    assert_eq!(v.as_i64().unwrap(), -1);
    assert_eq!(Obj::U64(5).as_i32().unwrap(), 5);
    assert!(matches!(Obj::Bool(true).as_u32(), Err(JtsErrType::ErrCastType)));
    assert!(matches!(
        Obj::Str("s".to_string()).is_bool(),
        Err(JtsErrType::MismatchedType)
    ));
    assert_eq!(Obj::I32(-1).is_int().unwrap(), u64::MAX);
}

#[test]
fn in_place_arithmetic() {
    let mut v = Obj::U32(7);
    v.add(Obj::I32(3)).unwrap();
    assert!(matches!(v, Obj::U32(10)));
    v.mul(Obj::U32(4)).unwrap();
    assert!(matches!(v, Obj::U32(40)));
    v.sub(Obj::U32(1)).unwrap();
    assert!(matches!(v, Obj::U32(39)));
    v.div(Obj::U32(5)).unwrap();
    assert!(matches!(v, Obj::U32(7)));
    v.modulos(Obj::U32(4)).unwrap();
    assert!(matches!(v, Obj::U32(3)));
    let mut w = Obj::U32(0);
    w.sub(Obj::U32(1)).unwrap();
    assert!(matches!(w, Obj::U32(u32::MAX)));
    let mut s = Obj::Nil();
    assert!(matches!(s.add(Obj::I32(1)), Err(JtsErrType::MismatchedType)));
}

#[test]
fn value_comparisons() {
    assert_eq!(Obj::U64(3).eq(&Obj::I32(3)).unwrap(), true);
    assert_eq!(Obj::I64(-1).le(&Obj::U32(0)).unwrap(), true);
    assert_eq!(Obj::I32(2).le_eq(&Obj::I32(2)).unwrap(), true);
    assert_eq!(
        Obj::Str("a".to_string()).eq(&Obj::Str("a".to_string())).unwrap(),
        true
    );
    assert!(matches!(
        Obj::Bool(true).le(&Obj::Bool(false)),
        Err(JtsErrType::UncomparableType)
    ));
}

#[test]
fn tokenizer_splits_source() {
    let toks = to_toks(&"(+ 1 2)".to_string()).unwrap();
    let kinds: Vec<TokType> = toks.iter().map(|t| t.tok_type).collect();
    assert_eq!(
        kinds,
        vec![
            TokType::Beg,
            TokType::Symbol,
            TokType::Symbol,
            TokType::Symbol,
            TokType::End
        ]
    );
    assert_eq!(toks[1].source, "+".to_string());
    let ops = to_toks(&"'(a ,b @c)".to_string()).unwrap();
    assert_eq!(ops[0].tok_type, TokType::Quote);
    assert!(to_toks(&"((".to_string()).is_err());
}

#[test]
fn tokenizer_character_classes() {
    assert!(is_escaper(' '));
    assert!(is_escaper('\n'));
    assert!(is_operater('('));
    assert!(is_operater(','));
    assert!(!is_non_tok('x'));
    assert!(is_non_tok('\''));
}

#[test]
fn single_tokens() {
    assert!(to_tok(&"".to_string(), 0).is_none());
    assert!(to_tok(&" ".to_string(), 0).is_none());
    assert_eq!(to_tok(&"(".to_string(), 0).unwrap().tok_type, TokType::Beg);
    assert_eq!(to_tok(&"&".to_string(), 1).unwrap().tok_type, TokType::Rest);
    assert_eq!(
        to_tok(&"abc".to_string(), 2).unwrap().tok_type,
        TokType::Symbol
    );
}

#[test]
fn token_identity() {
    let a = Id::new(3);
    let b = Id::new(3);
    let c = Id::new(4);
    let u = Id::new_uninit();
    assert!(a == b);
    assert!(a != c);
    assert!(!(u == u));
    let t = Tok::new(&"x".to_string(), TokType::Symbol, Id::new(9));
    assert!(t.id() == &Id::new(9));
}

#[test]
fn token_flags() {
    let mut f = TokFlag::empty();
    assert!(!f.has(TokType::Quote));
    f.add(TokType::Quote);
    f.add(TokType::Escape);
    assert!(f.has(TokType::Quote));
    assert!(f.has(TokType::Escape));
    assert!(!f.has(TokType::Apply));
    assert_eq!(TokType::Quote.to_string(), "quote".to_string());
}

#[test]
fn reader_reports_stray_closer() {
    let mut env = Env::new().unwrap();
    let r = env.add_src(&")(".to_string(), u64::MAX);
    assert!(matches!(r, Err(JtsErrType::UnbalancedParentheses)));
}

#[test]
fn parser_reads_nested_forms() {
    let mut env = Env::new().unwrap();
    let mut p = Parser::from_string(&"(+ (- 5 2) 4)".to_string()).unwrap();
    let body = p.parse_tokens(&mut env, &"prelude".to_string()).unwrap();
    assert_eq!(body.args.len(), 1);
    let r = env.run(&body, u64::MAX);
    assert!(matches!(r, Ok(Obj::I32(7))));
}

#[test]
fn result_helpers() {
    assert_eq!(true.as_result(1, JtsErrType::RuntimeAssert), Ok(1));
    assert_eq!(
        false.as_result(1, JtsErrType::RuntimeAssert),
        Err(JtsErrType::RuntimeAssert)
    );
    assert_eq!(true.as_result_rev(1, JtsErrType::RuntimeAssert), Err(JtsErrType::RuntimeAssert));
    assert_eq!(Some(5).into_result(JtsErrType::MissingSymbol), Ok(5));
    assert_eq!(
        None::<u8>.into_result(JtsErrType::MissingSymbol),
        Err(JtsErrType::MissingSymbol)
    );
    assert_eq!(Some(1).assert_holds(JtsErrType::MissingSymbol), Ok(()));
}

#[test]
fn session_steps() {
    let mut repl = Repl::new();
    assert_eq!(repl.line, 0);
    repl.next_line();
    assert_eq!(repl.line, 1);
    assert_eq!(Repl::step_for(&"--quit".to_string()), ReplStep::Quit);
    assert_eq!(Repl::step_for(&"--time".to_string()), ReplStep::Time);
    assert_eq!(Repl::step_for(&"--help".to_string()), ReplStep::Help);
    assert_eq!(Repl::step_for(&"(+ 1 2)".to_string()), ReplStep::Evaluate);
}

#[test]
fn pool_acquire_and_release() {
    let mut pool: MemPool<u32> = MemPool::new(2);
    assert!(!pool.is_empty());
    let a = pool.acquire(11);
    assert_eq!(a, 0);
    assert_eq!(*pool.buffer[a].unwrap_used(), 11);
    let b = pool.acquire(22);
    assert_eq!(b, 1);
    assert!(pool.is_empty());
    pool.release(a);
    assert!(!pool.is_empty());
    assert_eq!(pool.buffer[a].unwrap_free(), 2);
    let c = pool.acquire(33);
    assert_eq!(c, a);
}

#[test]
fn rendering_values() {
    let env = Env::new().unwrap();
    assert_eq!(Obj::Bool(true).to_string(&env, 9).unwrap(), "true".to_string());
    assert_eq!(Obj::Nil().to_string(&env, 9).unwrap(), "nil".to_string());
    assert_eq!(Obj::I64(-8).to_string(&env, 9).unwrap(), "-8".to_string());
    assert_eq!(
        Obj::Str("hey".to_string()).to_string(&env, 9).unwrap(),
        "hey".to_string()
    );
}

#[test]
fn node_access() {
    let n = Node { args: vec![4, 5] };
    assert_eq!(n.len(), 2);
    assert!(!n.is_empty());
    assert_eq!(n.get_id(1), Ok(5));
    assert!(matches!(n.get_id(2), Err(JtsErrType::OutOfBounds)));
}

#[test]
fn node_positional_access() {
    let mut env = Env::new().unwrap();
    // intern a flat list and walk it through the node interface
    let v = env.add_src(&"(4 5 6)".to_string(), u64::MAX).unwrap();
    let mut node = match v {
        Obj::List(n) => n,
        _ => panic!("expected a list"),
    };
    assert!(matches!(node.get(&env, 0), Ok(Obj::I32(4))));
    assert!(matches!(node.get(&env, 3), Err(JtsErrType::OutOfBounds)));
    let mut it: NodeIter = node.into_iter_from(1);
    assert_eq!(it.len(), 2);
    assert!(matches!(it.get(&env, 0), Ok(Obj::I32(5))));
    let first = it.shift().unwrap();
    assert!(matches!(env.cell_clone(first), Obj::I32(5)));
    assert_eq!(it.len(), 1);
    let rest = it.into_node_from(0);
    assert_eq!(rest.args.len(), 1);
    let removed = node.remove(&env, 1).unwrap();
    assert!(matches!(removed, Obj::I32(5)));
    assert_eq!(node.args.len(), 2);
}

#[test]
fn elem_unwrap() {
    let used: Elem<u8> = Elem::Used(9);
    assert_eq!(*used.unwrap_used(), 9);
    let free: Elem<u8> = Elem::Free(3);
    assert_eq!(free.unwrap_free(), 3);
}
