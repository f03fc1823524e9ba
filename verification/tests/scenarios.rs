//! Whole-language scenarios: source text fed to a fresh environment, results
//! and errors checked against the language's promises.

use jester::env::Env;
use jester::err::JtsErrType;
use jester::objects::{Obj, StaticFn};

const FUEL: u64 = u64::MAX;

fn fresh() -> Env {
    Env::new().unwrap()
}

fn run(env: &mut Env, src: &str) -> Result<Obj, JtsErrType> {
    env.add_src(&src.to_string(), FUEL)
}

#[test]
fn three_plus_two_args() {
    // (+ 1 2 3) evaluates to 6
    let mut env = fresh();
    let r = run(&mut env, "(+ 1 2 3)");
    assert!(matches!(r, Ok(Obj::I32(6))));
}

#[test]
fn define_and_call_restores_parameter() {
    // (inc x) is 6 and x stays 5: n is restored, x was never bound
    let mut env = fresh();
    let r = run(&mut env, "(set x 5) (defun inc (n) (+ n 1)) (inc x)");
    assert!(matches!(r, Ok(Obj::I32(6))));
    let x = env.symbol(&"x".to_string()).unwrap();
    assert!(matches!(env.cell_clone(x), Obj::I32(5)));
    let n = env.symbol(&"n".to_string()).unwrap();
    assert!(matches!(env.cell_clone(n), Obj::Nil()));
}

#[test]
fn loop_counts_to_three() {
    // (loop (< i 3) (set i (+ i 1))) with i at 0 ends with i at 3
    let mut env = fresh();
    let r = run(&mut env, "(set i 0) (loop (< i 3) (set i (+ i 1)))");
    assert!(r.is_ok());
    let i = env.symbol(&"i".to_string()).unwrap();
    assert!(matches!(env.cell_clone(i), Obj::I32(3)));
}

#[test]
fn nth_out_of_bounds() {
    // indexing past a list's end fails with OutOfBounds
    let mut env = fresh();
    let r = run(&mut env, "(nth 5 (list 1 2 3))");
    assert!(matches!(r, Err(JtsErrType::OutOfBounds)));
}

#[test]
fn nth_in_bounds() {
    let mut env = fresh();
    let r = run(&mut env, "(nth 1 (10 20 30))");
    assert!(matches!(r, Ok(Obj::I32(20))));
}

#[test]
fn macro_body_runs_twice() {
    // (twice (println 1)) expands to (do (println 1) (println 1)):
    // the inner form evaluates twice and the output log shows it
    let mut env = fresh();
    let r = run(
        &mut env,
        "(macro twice (x) '(do ,x ,x)) (twice (println 1))",
    );
    assert!(matches!(r, Ok(Obj::I32(1))));
    assert_eq!(env.output, vec!["1\n".to_string(), "1\n".to_string()]);
}

#[test]
fn quote_then_eval_is_direct_evaluation() {
    // (eval (quote X)) equals evaluating X directly
    let mut env = fresh();
    let r = run(&mut env, "(eval (quote (+ 1 2)))");
    assert!(matches!(r, Ok(Obj::I32(3))));
    let r2 = run(&mut env, "(set y 7) (eval (quote y))");
    assert!(matches!(r2, Ok(Obj::I32(7))));
}

#[test]
fn import_resolves_and_shadows() {
    // importing b into a makes b's symbols resolvable from a; declaring the
    // same name in a takes precedence over the import
    let mut env = fresh();
    env.add_module(&"b".to_string(), true).unwrap();
    let b = env.module(&"b".to_string()).unwrap();
    let shared_in_b = env
        .add_symbol_to(&"b".to_string(), &"shared".to_string(), Obj::I32(1))
        .unwrap();
    env.add_module(&"a".to_string(), true).unwrap();
    let a = env.module(&"a".to_string()).unwrap();
    env.modules[a].add_import(b).unwrap();
    assert_eq!(env.lookup_in(a, &"shared".to_string()), Some(shared_in_b));
    let shared_in_a = env
        .add_symbol_to(&"a".to_string(), &"shared".to_string(), Obj::I32(2))
        .unwrap();
    assert_eq!(env.lookup_in(a, &"shared".to_string()), Some(shared_in_a));
    assert!(shared_in_a != shared_in_b);
}

#[test]
fn arithmetic_coercion_mismatch() {
    // a non-numeric receiver cannot be added to
    let mut env = fresh();
    let r = run(&mut env, "(+ nonsuch 1)");
    assert!(matches!(r, Err(JtsErrType::MismatchedType)));
    let r2 = run(&mut env, "(+ \"a\" 1)");
    assert!(matches!(r2, Err(JtsErrType::MismatchedType)));
}

#[test]
fn literal_list_round_trips() {
    // reading then re-serializing a literal list keeps order and count
    let mut env = fresh();
    let r = run(&mut env, "(1 2 3)").unwrap();
    let text = r.to_string(&env, FUEL).unwrap();
    assert_eq!(text, "(1 2 3)".to_string());
    match r {
        Obj::List(node) => assert_eq!(node.args.len(), 3),
        _ => panic!("expected a list"),
    }
}

#[test]
fn let_binds_and_restores() {
    let mut env = fresh();
    let r = run(
        &mut env,
        "(set a 1) (set b 2) (set c (let ((a 10) (b 20)) (+ a b)))",
    );
    assert!(matches!(r, Ok(Obj::I32(30))));
    let a = env.symbol(&"a".to_string()).unwrap();
    let b = env.symbol(&"b".to_string()).unwrap();
    assert!(matches!(env.cell_clone(a), Obj::I32(1)));
    assert!(matches!(env.cell_clone(b), Obj::I32(2)));
}

#[test]
fn do_returns_last_value() {
    let mut env = fresh();
    let r = run(&mut env, "(do (set a 10) (set b 20) (+ a b))");
    assert!(matches!(r, Ok(Obj::I32(30))));
}

#[test]
fn if_branches() {
    let mut env = fresh();
    assert!(matches!(run(&mut env, "(if (< 1 2) 10 20)"), Ok(Obj::I32(10))));
    assert!(matches!(run(&mut env, "(if (< 2 1) 10 20)"), Ok(Obj::I32(20))));
    assert!(matches!(run(&mut env, "(if (< 2 1) 10)"), Ok(Obj::Nil())));
    assert!(matches!(
        run(&mut env, "(if 1 10 20)"),
        Err(JtsErrType::MismatchedType)
    ));
}

#[test]
fn comparisons() {
    let mut env = fresh();
    assert!(matches!(run(&mut env, "(= 2 2)"), Ok(Obj::Bool(true))));
    assert!(matches!(run(&mut env, "(<= 2 2)"), Ok(Obj::Bool(true))));
    assert!(matches!(run(&mut env, "(> 2 2)"), Ok(Obj::Bool(false))));
    assert!(matches!(run(&mut env, "(>= 3 2)"), Ok(Obj::Bool(true))));
    assert!(matches!(
        run(&mut env, "(= T 1)"),
        Err(JtsErrType::UncomparableType)
    ));
}

#[test]
fn arithmetic_exact_values() {
    let mut env = fresh();
    assert!(matches!(run(&mut env, "(- 10 3 2)"), Ok(Obj::I32(5))));
    assert!(matches!(run(&mut env, "(* 2 3 4)"), Ok(Obj::I32(24))));
    assert!(matches!(run(&mut env, "(/ 17 5)"), Ok(Obj::I32(3))));
    assert!(matches!(run(&mut env, "(% 17 5)"), Ok(Obj::I32(2))));
    assert!(matches!(run(&mut env, "(/ -17 5)"), Ok(Obj::I32(-3))));
    assert!(matches!(run(&mut env, "(% -17 5)"), Ok(Obj::I32(-2))));
    assert!(matches!(
        run(&mut env, "(/ 1 0)"),
        Err(JtsErrType::MismatchedType)
    ));
}

#[test]
fn list_operations() {
    let mut env = fresh();
    assert!(matches!(run(&mut env, "(len (1 2 3))"), Ok(Obj::U64(3))));
    let r = run(&mut env, "(set l (0)) (append 3 l) (prepend 9 l) (len l)");
    assert!(matches!(r, Ok(Obj::U64(3))));
    let text_r = run(&mut env, "l").unwrap();
    assert_eq!(text_r.to_string(&env, FUEL).unwrap(), "(9 0 3)".to_string());
    assert!(matches!(
        run(&mut env, "(insert 1 5 l) (nth 1 l)"),
        Ok(Obj::I32(5))
    ));
    assert!(matches!(run(&mut env, "(remove 0 l)"), Ok(Obj::I32(9))));
    assert!(matches!(
        run(&mut env, "(replace 0 8 l) (nth 0 l)"),
        Ok(Obj::I32(8))
    ));
    assert!(matches!(
        run(&mut env, "(insert 9 9 l)"),
        Err(JtsErrType::OutOfBounds)
    ));
}

#[test]
fn assertion_forms() {
    let mut env = fresh();
    assert!(matches!(run(&mut env, "(assert-eq (+ 1 2) 3)"), Ok(Obj::Bool(true))));
    assert!(matches!(
        run(&mut env, "(assert-eq 1 2)"),
        Err(JtsErrType::RuntimeAssert)
    ));
    assert!(matches!(run(&mut env, "(assert T T)"), Ok(Obj::Bool(true))));
}

#[test]
fn gensym_hides_a_value() {
    let mut env = fresh();
    let r = run(&mut env, "(eval (gensym 5))");
    assert!(matches!(r, Ok(Obj::I32(5))));
    let r2 = run(&mut env, "(set GEN#9 1)");
    assert!(matches!(r2, Err(JtsErrType::DisallowedSymbol)));
}

#[test]
fn unbalanced_sources_fail() {
    let mut env = fresh();
    assert!(matches!(
        run(&mut env, "((+ 1 2)"),
        Err(JtsErrType::UnbalancedParentheses)
    ));
    assert!(matches!(
        run(&mut env, "(+ 1 2))"),
        Err(JtsErrType::UnbalancedParentheses)
    ));
}

#[test]
fn wrong_argument_count() {
    let mut env = fresh();
    let r = run(&mut env, "(defun f (a b) (+ a b)) (f 1)");
    assert!(matches!(r, Err(JtsErrType::UnmatchedParamLists)));
}

#[test]
fn step_budget_runs_out() {
    let mut env = fresh();
    let r = env.add_src(&"(+ 1 (+ 1 (+ 1 1)))".to_string(), 3);
    assert!(matches!(r, Err(JtsErrType::StepLimit)));
}

#[test]
fn run_main_without_entry() {
    let mut env = fresh();
    assert!(matches!(env.run_main(FUEL), Err(JtsErrType::NoEntry)));
}

#[test]
fn module_body_runs_as_main() {
    let mut env = fresh();
    env.add_module_src(&"main".to_string(), &"(+ 20 22)".to_string())
        .unwrap();
    let r = env.run_main(FUEL);
    assert!(matches!(r, Ok(Obj::I32(42))));
}

#[test]
fn duplicate_module_refused() {
    let mut env = fresh();
    env.add_module(&"m".to_string(), true).unwrap();
    assert!(matches!(
        env.add_module(&"m".to_string(), true),
        Err(JtsErrType::DuplicateModule)
    ));
}

#[test]
fn duplicate_symbol_refused() {
    let mut env = fresh();
    let r = env.add_symbol("+", Obj::I32(1));
    assert!(matches!(r, Err(JtsErrType::DuplicateSymbol)));
}

#[test]
fn missing_symbol_reported() {
    let env = fresh();
    assert!(matches!(
        env.symbol(&"nowhere".to_string()),
        Err(JtsErrType::MissingSymbol)
    ));
}

#[test]
fn static_function_called_from_source() {
    let mut env = fresh();
    env.add_symbol("add-rs", Obj::new_static(StaticFn::AddI32))
        .unwrap();
    let r = run(&mut env, "(add-rs 2 3)");
    assert!(matches!(r, Ok(Obj::I32(5))));
    let r2 = run(&mut env, "(add-rs T 3)");
    assert!(matches!(r2, Err(JtsErrType::ErrCastType)));
}

#[test]
fn increment_macro_mutates_in_place() {
    // the escape operator splices unevaluated argument cells: += rebinds
    // the caller's own cell
    let mut env = fresh();
    let r = run(
        &mut env,
        "(macro += (a b) '(set ,a (+ ,a ,b))) (set x 5) (+= x 1) x",
    );
    assert!(matches!(r, Ok(Obj::I32(6))));
}

#[test]
fn printing_logs_output() {
    let mut env = fresh();
    let r = run(&mut env, "(dsp 1 2)");
    assert!(matches!(r, Ok(Obj::I32(2))));
    assert_eq!(env.output, vec!["1".to_string(), "2\n".to_string()]);
    run(&mut env, "(print 7)").unwrap();
    assert_eq!(env.output.last().unwrap(), &"7".to_string());
}
