//! The meaning of evaluation: a step-bounded, mutually recursive definition
//! of `eval`, call dispatch, every primitive, and the binding protocol, over
//! the ghost environment. The executable evaluator is proved to return
//! exactly what these functions say, state change included.
//!
//! Every function threads the environment and takes a step budget `f`; a
//! budget of zero answers `StepLimit`. The extra integer components of each
//! `decreases` clause only order the functions among themselves.

use vstd::prelude::*;
use crate::env::{s_env_sym_name, s_generate_symbol, s_mod_find};
use crate::err::JtsErrType;
use crate::model::{vobj_is_callable, VEnv, VLambda, VObj};
use crate::objects::{s_is_int, Bridge, StaticFn, s_as_i32};
use crate::operations::{s_add, s_div, s_eq, s_le, s_le_eq, s_modulos, s_mul, s_sub};
use crate::strings::{spec_digits, spec_int_digits};

verus! {

/// Applies one arithmetic primitive to an accumulator and an operand.
pub open spec fn s_apply_arith(op: Bridge, a: VObj, b: VObj) -> Result<VObj, JtsErrType> {
    match op {
        Bridge::Add => s_add(a, b),
        Bridge::Sub => s_sub(a, b),
        Bridge::Mul => s_mul(a, b),
        Bridge::Div => s_div(a, b),
        _ => s_modulos(a, b),
    }
}

/// Evaluation of one value: a non-empty list dispatches when its head cell
/// holds a callable and otherwise evaluates element-wise into a fresh list;
/// everything else is its own value.
pub open spec fn s_eval(e: VEnv, o: VObj, f: nat) -> (VEnv, Result<VObj, JtsErrType>)
    decreases f, 10int, 0int,
{
    if f == 0 {
        (e, Err(JtsErrType::StepLimit))
    } else {
        match o {
            VObj::List(ids) => {
                if ids.len() == 0 {
                    (e, Ok(o))
                } else if ids[0] >= e.cells.len() {
                    (e, Err(JtsErrType::OutOfBounds))
                } else if vobj_is_callable(e.cells[ids[0] as int]) {
                    s_exec_call(e, ids, f)
                } else {
                    let (e2, r) = s_eval_elems(e, ids, 0, f);
                    match r {
                        Ok(ids2) => (e2, Ok(VObj::List(ids2))),
                        Err(er) => (e2, Err(er)),
                    }
                }
            },
            _ => (e, Ok(o)),
        }
    }
}

/// Element-wise evaluation: each element cell's value evaluates in order and
/// each result is placed in a fresh cell.
pub open spec fn s_eval_elems(e: VEnv, ids: Seq<usize>, i: int, f: nat) -> (
    VEnv,
    Result<Seq<usize>, JtsErrType>,
)
    decreases f, 6int, ids.len() - i,
{
    if i < 0 || i >= ids.len() {
        (e, Ok(Seq::empty()))
    } else if ids[i] >= e.cells.len() || f == 0 {
        (e, Err(if f == 0 { JtsErrType::StepLimit } else { JtsErrType::OutOfBounds }))
    } else {
        let (e2, r) = s_eval(e, e.cells[ids[i] as int], (f - 1) as nat);
        match r {
            Ok(v) => {
                let id = e2.cells.len() as usize;
                let e3 = VEnv { cells: e2.cells.push(v), ..e2 };
                let (e4, rest) = s_eval_elems(e3, ids, i + 1, f);
                match rest {
                    Ok(ids2) => (e4, Ok(seq![id] + ids2)),
                    Err(er) => (e4, Err(er)),
                }
            },
            Err(er) => (e2, Err(er)),
        }
    }
}

/// Dispatch of a call form whose head cell holds a callable: a macro's
/// result is evaluated once more as a quoted form.
pub open spec fn s_exec_call(e: VEnv, ids: Seq<usize>, f: nat) -> (
    VEnv,
    Result<VObj, JtsErrType>,
)
    decreases f, 9int, 0int,
{
    if f == 0 || ids.len() == 0 || ids[0] >= e.cells.len() {
        (e, Err(if f == 0 { JtsErrType::StepLimit } else { JtsErrType::OutOfBounds }))
    } else {
        match e.cells[ids[0] as int] {
            VObj::FnBridge(b) => s_bridge(e, b, ids, f),
            VObj::FnNative(l) => s_invoke_native(e, l, ids, f),
            VObj::FnMacro(l) => {
                let (e2, r) = s_invoke_macro(e, l, ids, f);
                match r {
                    Ok(v) => s_eval_quoted(e2, v, (f - 1) as nat),
                    Err(er) => (e2, Err(er)),
                }
            },
            VObj::FnStatic(s) => s_invoke_static(e, s, ids),
            _ => (e, Err(JtsErrType::NonCallable)),
        }
    }
}

/// Dispatch over the host primitives.
pub open spec fn s_bridge(e: VEnv, b: Bridge, ids: Seq<usize>, f: nat) -> (
    VEnv,
    Result<VObj, JtsErrType>,
)
    decreases f, 8int, 0int,
{
    if f == 0 {
        (e, Err(JtsErrType::StepLimit))
    } else {
        match b {
            Bridge::Add => s_arith(e, Bridge::Add, ids, f),
            Bridge::Sub => s_arith(e, Bridge::Sub, ids, f),
            Bridge::Mul => s_arith(e, Bridge::Mul, ids, f),
            Bridge::Div => s_arith(e, Bridge::Div, ids, f),
            Bridge::Modulos => s_arith(e, Bridge::Modulos, ids, f),
            Bridge::CmpEq => s_cmp(e, Bridge::CmpEq, ids, f),
            Bridge::CmpLe => s_cmp(e, Bridge::CmpLe, ids, f),
            Bridge::CmpLeEq => s_cmp(e, Bridge::CmpLeEq, ids, f),
            Bridge::CmpGt => s_cmp(e, Bridge::CmpGt, ids, f),
            Bridge::CmpGtEq => s_cmp(e, Bridge::CmpGtEq, ids, f),
            Bridge::Assign => s_assign(e, ids, f),
            Bridge::Defun => s_define(e, ids, false),
            Bridge::DefMacro => s_define(e, ids, true),
            Bridge::LetScope => s_let(e, ids, f),
            Bridge::Do => s_progn(e, ids, 1, f),
            Bridge::If => s_if(e, ids, f),
            Bridge::Loop => s_loop_iter(e, ids, VObj::Nil, f),
            Bridge::Quote => s_quote(e, ids),
            Bridge::Eval => s_eval_bridge(e, ids, f),
            Bridge::Gensym => s_gensym(e, ids, f),
            Bridge::RtAssert => s_rt_assert(e, ids, f),
            Bridge::RtAssertEq => s_rt_assert(e, ids, f),
            Bridge::Nth => s_nth(e, ids, f),
            Bridge::Append => s_list_add(e, ids, f, 0),
            Bridge::Prepend => s_list_add(e, ids, f, 1),
            Bridge::Insert => s_insert(e, ids, f),
            Bridge::Remove => s_remove(e, ids, f),
            Bridge::Replace => s_replace(e, ids, f),
            Bridge::Len => s_list_len(e, ids),
            Bridge::Print => s_print(e, ids, f, false),
            Bridge::Println => s_print(e, ids, f, true),
            Bridge::Dsp => s_dsp(e, ids, 1, f),
        }
    }
}

/// An arithmetic form: the first argument evaluates to the accumulator and
/// each further argument is folded in, coerced to the accumulator's kind.
pub open spec fn s_arith(e: VEnv, op: Bridge, ids: Seq<usize>, f: nat) -> (
    VEnv,
    Result<VObj, JtsErrType>,
)
    decreases f, 7int, 0int,
{
    if f == 0 || ids.len() < 2 || ids[1] >= e.cells.len() {
        (
            e,
            Err(
                if f == 0 {
                    JtsErrType::StepLimit
                } else {
                    JtsErrType::OutOfBounds
                },
            ),
        )
    } else {
        let (e2, r) = s_eval(e, e.cells[ids[1] as int], (f - 1) as nat);
        match r {
            Ok(fst) => s_arith_fold(e2, op, fst, ids, 2, f),
            Err(er) => (e2, Err(er)),
        }
    }
}

/// Folds the remaining arguments of an arithmetic form into the accumulator.
pub open spec fn s_arith_fold(e: VEnv, op: Bridge, acc: VObj, ids: Seq<usize>, i: int, f: nat) -> (
    VEnv,
    Result<VObj, JtsErrType>,
)
    decreases f, 6int, ids.len() - i,
{
    if i < 0 || i >= ids.len() {
        (e, Ok(acc))
    } else if ids[i] >= e.cells.len() || f == 0 {
        (e, Err(if f == 0 { JtsErrType::StepLimit } else { JtsErrType::OutOfBounds }))
    } else {
        let (e2, r) = s_eval(e, e.cells[ids[i] as int], (f - 1) as nat);
        match r {
            Ok(v) => match s_apply_arith(op, acc, v) {
                Ok(acc2) => s_arith_fold(e2, op, acc2, ids, i + 1, f),
                Err(er) => (e2, Err(er)),
            },
            Err(er) => (e2, Err(er)),
        }
    }
}

/// Applies one comparison primitive to two evaluated operands.
pub open spec fn s_apply_cmp(op: Bridge, a: VObj, b: VObj) -> Result<bool, JtsErrType> {
    match op {
        Bridge::CmpEq => s_eq(a, b),
        Bridge::CmpLe => s_le(a, b),
        Bridge::CmpLeEq => s_le_eq(a, b),
        Bridge::CmpGt => match s_le_eq(a, b) {
            Ok(v) => Ok(!v),
            Err(er) => Err(er),
        },
        _ => match s_le(a, b) {
            Ok(v) => Ok(!v),
            Err(er) => Err(er),
        },
    }
}

/// A comparison form: both arguments evaluate in order, then compare.
pub open spec fn s_cmp(e: VEnv, op: Bridge, ids: Seq<usize>, f: nat) -> (
    VEnv,
    Result<VObj, JtsErrType>,
)
    decreases f, 6int, 0int,
{
    if f == 0 || ids.len() < 2 || ids[1] >= e.cells.len() {
        (
            e,
            Err(
                if f == 0 {
                    JtsErrType::StepLimit
                } else {
                    JtsErrType::OutOfBounds
                },
            ),
        )
    } else {
        let (e2, r1) = s_eval(e, e.cells[ids[1] as int], (f - 1) as nat);
        match r1 {
            Ok(a) => {
                if ids.len() < 3 || ids[2] >= e2.cells.len() {
                    (e2, Err(JtsErrType::OutOfBounds))
                } else {
                    let (e3, r2) = s_eval(e2, e2.cells[ids[2] as int], (f - 1) as nat);
                    match r2 {
                        Ok(b) => match s_apply_cmp(op, a, b) {
                            Ok(v) => (e3, Ok(VObj::Bool(v))),
                            Err(er) => (e3, Err(er)),
                        },
                        Err(er) => (e3, Err(er)),
                    }
                }
            },
            Err(er) => (e2, Err(er)),
        }
    }
}

/// The `set` form: the second argument evaluates and overwrites the first
/// argument's cell in place; every alias of that cell sees the new value.
pub open spec fn s_assign(e: VEnv, ids: Seq<usize>, f: nat) -> (VEnv, Result<VObj, JtsErrType>)
    decreases f, 7int, 0int,
{
    if f == 0 || ids.len() < 3 || ids[2] >= e.cells.len() {
        (
            e,
            Err(
                if f == 0 {
                    JtsErrType::StepLimit
                } else {
                    JtsErrType::OutOfBounds
                },
            ),
        )
    } else {
        let (e2, r) = s_eval(e, e.cells[ids[2] as int], (f - 1) as nat);
        match r {
            Ok(v) => {
                if ids[1] >= e2.cells.len() {
                    (e2, Err(JtsErrType::OutOfBounds))
                } else {
                    (VEnv { cells: e2.cells.update(ids[1] as int, v), ..e2 }, Ok(v))
                }
            },
            Err(er) => (e2, Err(er)),
        }
    }
}

/// The `defun` and `macro` forms: the second argument's cell must hold the
/// parameter list, the rest of the form is the body, and the new callable
/// overwrites the first argument's cell and is returned.
pub open spec fn s_define(e: VEnv, ids: Seq<usize>, is_macro: bool) -> (
    VEnv,
    Result<VObj, JtsErrType>,
) {
    if ids.len() < 3 || ids[2] >= e.cells.len() || ids[1] >= e.cells.len() {
        (e, Err(JtsErrType::OutOfBounds))
    } else {
        match e.cells[ids[2] as int] {
            VObj::List(params) => {
                let l = VLambda { params: params, body: ids.skip(3) };
                let v = if is_macro {
                    VObj::FnMacro(l)
                } else {
                    VObj::FnNative(l)
                };
                (VEnv { cells: e.cells.update(ids[1] as int, v), ..e }, Ok(v))
            },
            _ => (e, Err(JtsErrType::MismatchedType)),
        }
    }
}

/// The snapshot a `let` form takes before binding: for a `(name value)`
/// pair the named cell's value, for anything else the binding cell's own
/// value.
pub open spec fn s_anon_snapshot(e: VEnv, binds: Seq<usize>, i: int) -> Result<
    Seq<VObj>,
    JtsErrType,
>
    decreases binds.len() - i,
{
    if i < 0 || i >= binds.len() {
        Ok(Seq::empty())
    } else if binds[i] >= e.cells.len() {
        Err(JtsErrType::OutOfBounds)
    } else {
        let snap = match e.cells[binds[i] as int] {
            VObj::List(pair) => {
                if pair.len() == 0 {
                    Err(JtsErrType::OutOfBounds)
                } else if pair[0] >= e.cells.len() {
                    Err(JtsErrType::OutOfBounds)
                } else {
                    Ok(e.cells[pair[0] as int])
                }
            },
            other => Ok(other),
        };
        match snap {
            Ok(v) => match s_anon_snapshot(e, binds, i + 1) {
                Ok(rest) => Ok(seq![v] + rest),
                Err(er) => Err(er),
            },
            Err(er) => Err(er),
        }
    }
}

/// The binding pass of a `let` form: each `(name value)` pair evaluates its
/// value into the named cell; a bare binding cell is set to `Nil`.
pub open spec fn s_anon_bind(e: VEnv, binds: Seq<usize>, i: int, f: nat) -> (
    VEnv,
    Result<(), JtsErrType>,
)
    decreases f, 6int, binds.len() - i,
{
    if i < 0 || i >= binds.len() {
        (e, Ok(()))
    } else if binds[i] >= e.cells.len() || f == 0 {
        (e, Err(if f == 0 { JtsErrType::StepLimit } else { JtsErrType::OutOfBounds }))
    } else {
        match e.cells[binds[i] as int] {
            VObj::List(pair) => {
                if pair.len() < 2 || pair[1] >= e.cells.len() {
                    (e, Err(JtsErrType::OutOfBounds))
                } else {
                    let (e2, r) = s_eval(e, e.cells[pair[1] as int], (f - 1) as nat);
                    match r {
                        Ok(v) => {
                            if pair[0] >= e2.cells.len() {
                                (e2, Err(JtsErrType::OutOfBounds))
                            } else {
                                let e3 = VEnv {
                                    cells: e2.cells.update(pair[0] as int, v),
                                    ..e2
                                };
                                s_anon_bind(e3, binds, i + 1, f)
                            }
                        },
                        Err(er) => (e2, Err(er)),
                    }
                }
            },
            _ => {
                let e2 = VEnv { cells: e.cells.update(binds[i] as int, VObj::Nil), ..e };
                s_anon_bind(e2, binds, i + 1, f)
            },
        }
    }
}

/// The restore pass of a `let` form: each binding goes back to its snapshot,
/// through the named cell for a pair and the binding cell itself otherwise.
pub open spec fn s_anon_restore(e: VEnv, binds: Seq<usize>, snap: Seq<VObj>, i: int) -> VEnv
    decreases binds.len() - i,
{
    if i < 0 || i >= binds.len() || i >= snap.len() || binds[i] >= e.cells.len() {
        e
    } else {
        let e2 = match e.cells[binds[i] as int] {
            VObj::List(pair) => {
                if pair.len() > 0 && pair[0] < e.cells.len() {
                    VEnv { cells: e.cells.update(pair[0] as int, snap[i]), ..e }
                } else {
                    e
                }
            },
            _ => VEnv { cells: e.cells.update(binds[i] as int, snap[i]), ..e },
        };
        s_anon_restore(e2, binds, snap, i + 1)
    }
}

/// The `let` form: the first argument's cell holds the binding pairs; the
/// snapshot-bind-restore discipline wraps evaluation of the remaining forms,
/// and restoration runs on every exit.
pub open spec fn s_let(e: VEnv, ids: Seq<usize>, f: nat) -> (VEnv, Result<VObj, JtsErrType>)
    decreases f, 7int, 0int,
{
    if f == 0 || ids.len() < 2 || ids[1] >= e.cells.len() {
        (
            e,
            Err(
                if f == 0 {
                    JtsErrType::StepLimit
                } else {
                    JtsErrType::OutOfBounds
                },
            ),
        )
    } else {
        match e.cells[ids[1] as int] {
            VObj::List(binds) => match s_anon_snapshot(e, binds, 0) {
                Ok(snap) => {
                    let (e2, br) = s_anon_bind(e, binds, 0, f);
                    match br {
                        Ok(_) => {
                            let (e3, r) = s_progn(e2, ids, 2, f);
                            (s_anon_restore(e3, binds, snap, 0), r)
                        },
                        Err(er) => (s_anon_restore(e2, binds, snap, 0), Err(er)),
                    }
                },
                Err(er) => (e, Err(er)),
            },
            _ => (e, Err(JtsErrType::MismatchedType)),
        }
    }
}

/// Sequential evaluation of the cells from position `off` on: every form
/// evaluates in order and the last result is returned; an empty run is out
/// of bounds.
pub open spec fn s_progn(e: VEnv, ids: Seq<usize>, off: int, f: nat) -> (
    VEnv,
    Result<VObj, JtsErrType>,
)
    decreases f, 6int, ids.len() - off,
{
    if off < 0 || off >= ids.len() {
        (e, Err(JtsErrType::OutOfBounds))
    } else if ids[off] >= e.cells.len() || f == 0 {
        (e, Err(if f == 0 { JtsErrType::StepLimit } else { JtsErrType::OutOfBounds }))
    } else if off == ids.len() - 1 {
        s_eval(e, e.cells[ids[off] as int], (f - 1) as nat)
    } else {
        let (e2, r) = s_eval(e, e.cells[ids[off] as int], (f - 1) as nat);
        match r {
            Ok(_) => s_progn(e2, ids, off + 1, f),
            Err(er) => (e2, Err(er)),
        }
    }
}

/// The `if` form: the condition must evaluate to a boolean; a missing
/// else-branch yields `Nil`.
pub open spec fn s_if(e: VEnv, ids: Seq<usize>, f: nat) -> (VEnv, Result<VObj, JtsErrType>)
    decreases f, 7int, 0int,
{
    if f == 0 || ids.len() < 2 || ids[1] >= e.cells.len() {
        (
            e,
            Err(
                if f == 0 {
                    JtsErrType::StepLimit
                } else {
                    JtsErrType::OutOfBounds
                },
            ),
        )
    } else {
        let (e2, r) = s_eval(e, e.cells[ids[1] as int], (f - 1) as nat);
        match r {
            Ok(VObj::Bool(c)) => {
                if c {
                    if ids.len() < 3 || ids[2] >= e2.cells.len() {
                        (e2, Err(JtsErrType::OutOfBounds))
                    } else {
                        s_eval(e2, e2.cells[ids[2] as int], (f - 1) as nat)
                    }
                } else {
                    if ids.len() < 4 {
                        (e2, Ok(VObj::Nil))
                    } else if ids[3] >= e2.cells.len() {
                        (e2, Err(JtsErrType::OutOfBounds))
                    } else {
                        s_eval(e2, e2.cells[ids[3] as int], (f - 1) as nat)
                    }
                }
            },
            Ok(_) => (e2, Err(JtsErrType::MismatchedType)),
            Err(er) => (e2, Err(er)),
        }
    }
}

/// The `loop` form: while the condition cell evaluates to true, every
/// argument cell evaluates in order; the last body result is returned.
pub open spec fn s_loop_iter(e: VEnv, ids: Seq<usize>, res: VObj, f: nat) -> (
    VEnv,
    Result<VObj, JtsErrType>,
)
    decreases f, 7int, 0int,
{
    if f == 0 || ids.len() < 2 || ids[1] >= e.cells.len() {
        (
            e,
            Err(
                if f == 0 {
                    JtsErrType::StepLimit
                } else {
                    JtsErrType::OutOfBounds
                },
            ),
        )
    } else {
        let (e2, r) = s_eval(e, e.cells[ids[1] as int], (f - 1) as nat);
        match r {
            Ok(VObj::Bool(c)) => {
                if !c {
                    (e2, Ok(res))
                } else {
                    let (e3, br) = s_progn(e2, ids, 1, f);
                    match br {
                        Ok(v) => s_loop_iter(e3, ids, v, (f - 1) as nat),
                        Err(er) => (e3, Err(er)),
                    }
                }
            },
            Ok(_) => (e2, Err(JtsErrType::MismatchedType)),
            Err(er) => (e2, Err(er)),
        }
    }
}

/// The `quote` form: a suspended reference to the argument's cell.
pub open spec fn s_quote(e: VEnv, ids: Seq<usize>) -> (VEnv, Result<VObj, JtsErrType>) {
    if ids.len() < 2 {
        (e, Err(JtsErrType::OutOfBounds))
    } else {
        (e, Ok(VObj::Quote(ids[1])))
    }
}

/// Normalization of a data-fied list: a quoted element resolves back to its
/// referenced cell, a nested list normalizes into a fresh cell, and plain
/// elements keep their cells.
pub open spec fn s_normalize_elems(e: VEnv, ids: Seq<usize>, i: int, f: nat) -> (
    VEnv,
    Result<Seq<usize>, JtsErrType>,
)
    decreases f, 12int, ids.len() - i,
{
    if i < 0 || i >= ids.len() {
        (e, Ok(Seq::empty()))
    } else if ids[i] >= e.cells.len() {
        (e, Err(JtsErrType::OutOfBounds))
    } else {
        let step: (VEnv, Result<usize, JtsErrType>) = match e.cells[ids[i] as int] {
            VObj::Quote(q) => (e, Ok(q)),
            VObj::List(inner) => {
                if f == 0 {
                    (e, Err(JtsErrType::StepLimit))
                } else {
                    let (e2, r) = s_normalize_elems(e, inner, 0, (f - 1) as nat);
                    match r {
                        Ok(inner2) => (
                            VEnv { cells: e2.cells.push(VObj::List(inner2)), ..e2 },
                            Ok(e2.cells.len() as usize),
                        ),
                        Err(er) => (e2, Err(er)),
                    }
                }
            },
            _ => (e, Ok(ids[i])),
        };
        match step.1 {
            Ok(id) => {
                let (e4, rest) = s_normalize_elems(step.0, ids, i + 1, f);
                match rest {
                    Ok(ids2) => (e4, Ok(seq![id] + ids2)),
                    Err(er) => (e4, Err(er)),
                }
            },
            Err(er) => (step.0, Err(er)),
        }
    }
}

/// Evaluation of a quoted result: a quoted cell evaluates its referenced
/// form, a list is normalized once and then evaluated, anything else stands.
pub open spec fn s_eval_quoted(e: VEnv, v: VObj, f: nat) -> (VEnv, Result<VObj, JtsErrType>)
    decreases f, 13int, 0int,
{
    match v {
        VObj::Quote(c) => {
            if c >= e.cells.len() {
                (e, Err(JtsErrType::OutOfBounds))
            } else {
                s_eval(e, e.cells[c as int], f)
            }
        },
        VObj::List(ids) => {
            let (e2, r) = s_normalize_elems(e, ids, 0, f);
            match r {
                Ok(ids2) => s_eval(e2, VObj::List(ids2), f),
                Err(er) => (e2, Err(er)),
            }
        },
        _ => (e, Ok(v)),
    }
}

/// The `eval` form: the argument evaluates, and its result is evaluated once
/// more as a quoted form.
pub open spec fn s_eval_bridge(e: VEnv, ids: Seq<usize>, f: nat) -> (
    VEnv,
    Result<VObj, JtsErrType>,
)
    decreases f, 7int, 0int,
{
    if f == 0 || ids.len() < 2 || ids[1] >= e.cells.len() {
        (
            e,
            Err(
                if f == 0 {
                    JtsErrType::StepLimit
                } else {
                    JtsErrType::OutOfBounds
                },
            ),
        )
    } else {
        let (e2, r) = s_eval(e, e.cells[ids[1] as int], (f - 1) as nat);
        match r {
            Ok(v) => s_eval_quoted(e2, v, (f - 1) as nat),
            Err(er) => (e2, Err(er)),
        }
    }
}

/// The `gensym` form: the argument evaluates, a hidden unique symbol is
/// interned with that value in the prelude, and a reference to its cell is
/// returned.
pub open spec fn s_gensym(e: VEnv, ids: Seq<usize>, f: nat) -> (VEnv, Result<VObj, JtsErrType>)
    decreases f, 7int, 0int,
{
    if f == 0 || ids.len() < 2 || ids[1] >= e.cells.len() {
        (
            e,
            Err(
                if f == 0 {
                    JtsErrType::StepLimit
                } else {
                    JtsErrType::OutOfBounds
                },
            ),
        )
    } else {
        let (e2, r) = s_eval(e, e.cells[ids[1] as int], (f - 1) as nat);
        match r {
            Ok(v) => {
                let (e3, g) = s_generate_symbol(e2, v);
                match g {
                    Ok(id) => (e3, Ok(VObj::Quote(id))),
                    Err(er) => (e3, Err(er)),
                }
            },
            Err(er) => (e2, Err(er)),
        }
    }
}

/// The assertion forms: both arguments evaluate and compare as `=` does;
/// equality yields true and inequality is a runtime assertion failure.
pub open spec fn s_rt_assert(e: VEnv, ids: Seq<usize>, f: nat) -> (VEnv, Result<VObj, JtsErrType>)
    decreases f, 7int, 0int,
{
    let (e2, r) = s_cmp(e, Bridge::CmpEq, ids, f);
    match r {
        Ok(VObj::Bool(true)) => (e2, Ok(VObj::Bool(true))),
        Ok(_) => (e2, Err(JtsErrType::RuntimeAssert)),
        Err(er) => (e2, Err(er)),
    }
}

/// The `nth` form: the index is read unevaluated from the first argument's
/// cell, the second argument's cell must hold a list, and the chosen
/// element's cell evaluates.
pub open spec fn s_nth(e: VEnv, ids: Seq<usize>, f: nat) -> (VEnv, Result<VObj, JtsErrType>)
    decreases f, 7int, 0int,
{
    if f == 0 || ids.len() < 2 || ids[1] >= e.cells.len() {
        (
            e,
            Err(
                if f == 0 {
                    JtsErrType::StepLimit
                } else {
                    JtsErrType::OutOfBounds
                },
            ),
        )
    } else {
        match s_is_int(e.cells[ids[1] as int]) {
            Err(er) => (e, Err(er)),
            Ok(idx) => {
                if ids.len() < 3 || ids[2] >= e.cells.len() {
                    (e, Err(JtsErrType::OutOfBounds))
                } else {
                    match e.cells[ids[2] as int] {
                        VObj::List(lst) => {
                            if idx >= lst.len() {
                                (e, Err(JtsErrType::OutOfBounds))
                            } else if lst[idx as int] >= e.cells.len() {
                                (e, Err(JtsErrType::OutOfBounds))
                            } else {
                                s_eval(e, e.cells[lst[idx as int] as int], (f - 1) as nat)
                            }
                        },
                        _ => (e, Err(JtsErrType::MismatchedType)),
                    }
                }
            },
        }
    }
}

/// The `append` and `prepend` forms: the element evaluates into a fresh
/// cell, which is attached to the end or front of the list held by the
/// second argument's cell.
pub open spec fn s_list_add(e: VEnv, ids: Seq<usize>, f: nat, front: int) -> (
    VEnv,
    Result<VObj, JtsErrType>,
)
    decreases f, 7int, 0int,
{
    if f == 0 || ids.len() < 2 || ids[1] >= e.cells.len() {
        (
            e,
            Err(
                if f == 0 {
                    JtsErrType::StepLimit
                } else {
                    JtsErrType::OutOfBounds
                },
            ),
        )
    } else {
        let (e2, r) = s_eval(e, e.cells[ids[1] as int], (f - 1) as nat);
        match r {
            Ok(elem) => {
                if ids.len() < 3 || ids[2] >= e2.cells.len() {
                    (e2, Err(JtsErrType::OutOfBounds))
                } else {
                    match e2.cells[ids[2] as int] {
                        VObj::List(lst) => {
                            let id = e2.cells.len() as usize;
                            let lst2 = if front == 1 {
                                seq![id] + lst
                            } else {
                                lst.push(id)
                            };
                            let e3 = VEnv { cells: e2.cells.push(elem), ..e2 };
                            let e4 = VEnv {
                                cells: e3.cells.update(ids[2] as int, VObj::List(lst2)),
                                ..e3
                            };
                            (e4, Ok(elem))
                        },
                        _ => (e2, Err(JtsErrType::MismatchedType)),
                    }
                }
            },
            Err(er) => (e2, Err(er)),
        }
    }
}

/// The `insert` form: the index and the element evaluate in order, and the
/// element's fresh cell is placed at that index of the list held by the
/// third argument's cell; an index past the length is out of bounds.
pub open spec fn s_insert(e: VEnv, ids: Seq<usize>, f: nat) -> (VEnv, Result<VObj, JtsErrType>)
    decreases f, 7int, 0int,
{
    if f == 0 || ids.len() < 2 || ids[1] >= e.cells.len() {
        (
            e,
            Err(
                if f == 0 {
                    JtsErrType::StepLimit
                } else {
                    JtsErrType::OutOfBounds
                },
            ),
        )
    } else {
        let (e2, r1) = s_eval(e, e.cells[ids[1] as int], (f - 1) as nat);
        match r1 {
            Ok(iv) => match s_is_int(iv) {
                Err(er) => (e2, Err(er)),
                Ok(idx) => {
                    if ids.len() < 3 || ids[2] >= e2.cells.len() {
                        (e2, Err(JtsErrType::OutOfBounds))
                    } else {
                        let (e3, r2) = s_eval(e2, e2.cells[ids[2] as int], (f - 1) as nat);
                        match r2 {
                            Ok(elem) => {
                                if ids.len() < 4 || ids[3] >= e3.cells.len() {
                                    (e3, Err(JtsErrType::OutOfBounds))
                                } else {
                                    match e3.cells[ids[3] as int] {
                                        VObj::List(lst) => {
                                            if idx > lst.len() {
                                                (e3, Err(JtsErrType::OutOfBounds))
                                            } else {
                                                let id = e3.cells.len() as usize;
                                                let lst2 = lst.insert(idx as int, id);
                                                let e4 = VEnv {
                                                    cells: e3.cells.push(elem),
                                                    ..e3
                                                };
                                                let e5 = VEnv {
                                                    cells: e4.cells.update(
                                                        ids[3] as int,
                                                        VObj::List(lst2),
                                                    ),
                                                    ..e4
                                                };
                                                (e5, Ok(elem))
                                            }
                                        },
                                        _ => (e3, Err(JtsErrType::MismatchedType)),
                                    }
                                }
                            },
                            Err(er) => (e3, Err(er)),
                        }
                    }
                }
            },
            Err(er) => (e2, Err(er)),
        }
    }
}

/// The `remove` form: the index evaluates, the chosen element leaves the
/// list held by the second argument's cell, and its value is returned.
pub open spec fn s_remove(e: VEnv, ids: Seq<usize>, f: nat) -> (VEnv, Result<VObj, JtsErrType>)
    decreases f, 7int, 0int,
{
    if f == 0 || ids.len() < 2 || ids[1] >= e.cells.len() {
        (
            e,
            Err(
                if f == 0 {
                    JtsErrType::StepLimit
                } else {
                    JtsErrType::OutOfBounds
                },
            ),
        )
    } else {
        let (e2, r1) = s_eval(e, e.cells[ids[1] as int], (f - 1) as nat);
        match r1 {
            Ok(iv) => match s_is_int(iv) {
                Err(er) => (e2, Err(er)),
                Ok(idx) => {
                    if ids.len() < 3 || ids[2] >= e2.cells.len() {
                        (e2, Err(JtsErrType::OutOfBounds))
                    } else {
                        match e2.cells[ids[2] as int] {
                            VObj::List(lst) => {
                                if idx >= lst.len() || lst[idx as int] >= e2.cells.len() {
                                    (e2, Err(JtsErrType::OutOfBounds))
                                } else {
                                    let removed = e2.cells[lst[idx as int] as int];
                                    let lst2 = lst.remove(idx as int);
                                    let e3 = VEnv {
                                        cells: e2.cells.update(ids[2] as int, VObj::List(lst2)),
                                        ..e2
                                    };
                                    (e3, Ok(removed))
                                }
                            },
                            _ => (e2, Err(JtsErrType::MismatchedType)),
                        }
                    }
                }
            },
            Err(er) => (e2, Err(er)),
        }
    }
}

/// The `replace` form: the index and the element evaluate, and the element's
/// fresh cell takes the place of the chosen slot of the list held by the
/// third argument's cell.
pub open spec fn s_replace(e: VEnv, ids: Seq<usize>, f: nat) -> (VEnv, Result<VObj, JtsErrType>)
    decreases f, 7int, 0int,
{
    if f == 0 || ids.len() < 2 || ids[1] >= e.cells.len() {
        (
            e,
            Err(
                if f == 0 {
                    JtsErrType::StepLimit
                } else {
                    JtsErrType::OutOfBounds
                },
            ),
        )
    } else {
        let (e2, r1) = s_eval(e, e.cells[ids[1] as int], (f - 1) as nat);
        match r1 {
            Ok(iv) => match s_is_int(iv) {
                Err(er) => (e2, Err(er)),
                Ok(idx) => {
                    if ids.len() < 3 || ids[2] >= e2.cells.len() {
                        (e2, Err(JtsErrType::OutOfBounds))
                    } else {
                        let (e3, r2) = s_eval(e2, e2.cells[ids[2] as int], (f - 1) as nat);
                        match r2 {
                            Ok(elem) => {
                                if ids.len() < 4 || ids[3] >= e3.cells.len() {
                                    (e3, Err(JtsErrType::OutOfBounds))
                                } else {
                                    match e3.cells[ids[3] as int] {
                                        VObj::List(lst) => {
                                            if idx >= lst.len() {
                                                (e3, Err(JtsErrType::OutOfBounds))
                                            } else {
                                                let id = e3.cells.len() as usize;
                                                let lst2 = lst.update(idx as int, id);
                                                let e4 = VEnv {
                                                    cells: e3.cells.push(elem),
                                                    ..e3
                                                };
                                                let e5 = VEnv {
                                                    cells: e4.cells.update(
                                                        ids[3] as int,
                                                        VObj::List(lst2),
                                                    ),
                                                    ..e4
                                                };
                                                (e5, Ok(elem))
                                            }
                                        },
                                        _ => (e3, Err(JtsErrType::MismatchedType)),
                                    }
                                }
                            },
                            Err(er) => (e3, Err(er)),
                        }
                    }
                }
            },
            Err(er) => (e2, Err(er)),
        }
    }
}

/// The `len` form: the first argument's cell is read unevaluated and must
/// hold a list; its length is returned.
pub open spec fn s_list_len(e: VEnv, ids: Seq<usize>) -> (VEnv, Result<VObj, JtsErrType>) {
    if ids.len() < 2 || ids[1] >= e.cells.len() {
        (e, Err(JtsErrType::OutOfBounds))
    } else {
        match e.cells[ids[1] as int] {
            VObj::List(lst) => (e, Ok(VObj::U64(lst.len() as u64))),
            _ => (e, Err(JtsErrType::MismatchedType)),
        }
    }
}

/// The rendering of a value as display text.
pub open spec fn s_to_string(e: VEnv, v: VObj, f: nat) -> Result<Seq<char>, JtsErrType>
    decreases f, 4int, 0int,
{
    match v {
        VObj::U32(x) => Ok(spec_digits(x as nat)),
        VObj::U64(x) => Ok(spec_digits(x as nat)),
        VObj::I32(x) => Ok(spec_int_digits(x as int)),
        VObj::I64(x) => Ok(spec_int_digits(x as int)),
        VObj::Bool(x) => Ok(
            if x {
                "true"@
            } else {
                "false"@
            },
        ),
        VObj::Str(s) => Ok(s),
        VObj::FnStatic(_) => Ok("<static-fn>"@),
        VObj::FnNative(_) => Ok("<native-fn>"@),
        VObj::FnBridge(_) => Ok("<bridge-fn>"@),
        VObj::FnMacro(_) => Ok("<macro>"@),
        VObj::Nil => Ok("nil"@),
        VObj::Quote(c) => {
            if c >= e.cells.len() {
                Err(JtsErrType::OutOfBounds)
            } else if e.cells[c as int] is List {
                if f == 0 {
                    Err(JtsErrType::StepLimit)
                } else {
                    s_to_string(e, e.cells[c as int], (f - 1) as nat)
                }
            } else {
                match s_env_sym_name(e, 0, c) {
                    Some(n) => Ok(n),
                    None => Ok("<UNKNOWN-SYM>"@),
                }
            }
        },
        VObj::List(ids) => match s_to_string_elems(e, ids, 0, f) {
            Ok(s) => Ok("("@ + s + ")"@),
            Err(er) => Err(er),
        },
    }
}

/// The space-separated rendering of a list's elements.
pub open spec fn s_to_string_elems(e: VEnv, ids: Seq<usize>, i: int, f: nat) -> Result<
    Seq<char>,
    JtsErrType,
>
    decreases f, 3int, ids.len() - i,
{
    if i < 0 || i >= ids.len() {
        Ok(Seq::empty())
    } else if ids[i] >= e.cells.len() || f == 0 {
        Err(if f == 0 { JtsErrType::StepLimit } else { JtsErrType::OutOfBounds })
    } else {
        match s_to_string(e, e.cells[ids[i] as int], (f - 1) as nat) {
            Ok(s) => {
                if i == ids.len() - 1 {
                    Ok(s)
                } else {
                    match s_to_string_elems(e, ids, i + 1, f) {
                        Ok(rest) => Ok(s + " "@ + rest),
                        Err(er) => Err(er),
                    }
                }
            },
            Err(er) => Err(er),
        }
    }
}

/// The printing forms: the argument evaluates, its rendering goes to the
/// output log — with a line break for `println` — and the value is returned.
pub open spec fn s_print(e: VEnv, ids: Seq<usize>, f: nat, line: bool) -> (
    VEnv,
    Result<VObj, JtsErrType>,
)
    decreases f, 7int, 0int,
{
    if f == 0 || ids.len() < 2 || ids[1] >= e.cells.len() {
        (
            e,
            Err(
                if f == 0 {
                    JtsErrType::StepLimit
                } else {
                    JtsErrType::OutOfBounds
                },
            ),
        )
    } else {
        let (e2, r) = s_eval(e, e.cells[ids[1] as int], (f - 1) as nat);
        match r {
            Ok(v) => match s_to_string(e2, v, (f - 1) as nat) {
                Ok(s) => {
                    let chunk = if line {
                        s + "\n"@
                    } else {
                        s
                    };
                    (VEnv { output: e2.output.push(chunk), ..e2 }, Ok(v))
                },
                Err(er) => (e2, Err(er)),
            },
            Err(er) => (e2, Err(er)),
        }
    }
}

/// The `dsp` form: every argument evaluates and prints in order, the last
/// with a line break, and the last value is returned.
pub open spec fn s_dsp(e: VEnv, ids: Seq<usize>, off: int, f: nat) -> (
    VEnv,
    Result<VObj, JtsErrType>,
)
    decreases f, 7int, ids.len() - off,
{
    if off < 0 || off >= ids.len() {
        (e, Err(JtsErrType::OutOfBounds))
    } else if ids[off] >= e.cells.len() || f == 0 {
        (e, Err(if f == 0 { JtsErrType::StepLimit } else { JtsErrType::OutOfBounds }))
    } else {
        let (e2, r) = s_eval(e, e.cells[ids[off] as int], (f - 1) as nat);
        match r {
            Ok(v) => match s_to_string(e2, v, (f - 1) as nat) {
                Ok(s) => {
                    if off == ids.len() - 1 {
                        (VEnv { output: e2.output.push(s + "\n"@), ..e2 }, Ok(v))
                    } else {
                        let e3 = VEnv { output: e2.output.push(s), ..e2 };
                        s_dsp(e3, ids, off + 1, f)
                    }
                },
                Err(er) => (e2, Err(er)),
            },
            Err(er) => (e2, Err(er)),
        }
    }
}

/// A static host call: the argument cells are read unevaluated and coerced
/// into the host function's typed tuple; the wrapped result comes back as a
/// value. The only registered static is wrapping 32-bit addition.
pub open spec fn s_invoke_static(e: VEnv, s: StaticFn, ids: Seq<usize>) -> (
    VEnv,
    Result<VObj, JtsErrType>,
) {
    if ids.len() < 3 || ids[1] >= e.cells.len() || ids[2] >= e.cells.len() {
        (e, Err(JtsErrType::OutOfBounds))
    } else {
        match s_as_i32(e.cells[ids[1] as int]) {
            Err(er) => (e, Err(er)),
            Ok(a) => match s_as_i32(e.cells[ids[2] as int]) {
                Err(er) => (e, Err(er)),
                Ok(b) => (e, Ok(VObj::I32((a + b) as i32))),
            },
        }
    }
}

/// The snapshot a native invocation takes: each parameter cell's value,
/// evaluated.
pub open spec fn s_snapshot(e: VEnv, params: Seq<usize>, i: int, f: nat) -> (
    VEnv,
    Result<Seq<VObj>, JtsErrType>,
)
    decreases f, 6int, params.len() - i,
{
    if i < 0 || i >= params.len() {
        (e, Ok(Seq::empty()))
    } else if params[i] >= e.cells.len() || f == 0 {
        (e, Err(if f == 0 { JtsErrType::StepLimit } else { JtsErrType::OutOfBounds }))
    } else {
        let (e2, r) = s_eval(e, e.cells[params[i] as int], (f - 1) as nat);
        match r {
            Ok(v) => {
                let (e3, rest) = s_snapshot(e2, params, i + 1, f);
                match rest {
                    Ok(vs) => (e3, Ok(seq![v] + vs)),
                    Err(er) => (e3, Err(er)),
                }
            },
            Err(er) => (e2, Err(er)),
        }
    }
}

/// The snapshot a macro invocation takes: each parameter cell's value, read
/// without evaluation.
pub open spec fn s_read_snapshot(e: VEnv, params: Seq<usize>, i: int) -> Result<
    Seq<VObj>,
    JtsErrType,
>
    decreases params.len() - i,
{
    if i < 0 || i >= params.len() {
        Ok(Seq::empty())
    } else if params[i] >= e.cells.len() {
        Err(JtsErrType::OutOfBounds)
    } else {
        match s_read_snapshot(e, params, i + 1) {
            Ok(vs) => Ok(seq![e.cells[params[i] as int]] + vs),
            Err(er) => Err(er),
        }
    }
}

/// The binding pass of a native invocation: each argument cell evaluates and
/// overwrites the matching parameter cell.
pub open spec fn s_bind_args(e: VEnv, params: Seq<usize>, ids: Seq<usize>, i: int, f: nat) -> (
    VEnv,
    Result<(), JtsErrType>,
)
    decreases f, 6int, params.len() - i,
{
    if i < 0 || i >= params.len() {
        (e, Ok(()))
    } else if i + 1 >= ids.len() || ids[i + 1] >= e.cells.len() || f == 0 {
        (e, Err(if f == 0 { JtsErrType::StepLimit } else { JtsErrType::OutOfBounds }))
    } else {
        let (e2, r) = s_eval(e, e.cells[ids[i + 1] as int], (f - 1) as nat);
        match r {
            Ok(v) => {
                if params[i] >= e2.cells.len() {
                    (e2, Err(JtsErrType::OutOfBounds))
                } else {
                    let e3 = VEnv { cells: e2.cells.update(params[i] as int, v), ..e2 };
                    s_bind_args(e3, params, ids, i + 1, f)
                }
            },
            Err(er) => (e2, Err(er)),
        }
    }
}

/// The binding pass of a macro invocation: each parameter cell receives a
/// suspended reference to the matching unevaluated argument cell.
pub open spec fn s_bind_quoted(e: VEnv, params: Seq<usize>, ids: Seq<usize>, i: int) -> VEnv
    decreases params.len() - i,
{
    if i < 0 || i >= params.len() || i + 1 >= ids.len() || params[i] >= e.cells.len() {
        e
    } else {
        let e2 = VEnv {
            cells: e.cells.update(params[i] as int, VObj::Quote(ids[i + 1])),
            ..e
        };
        s_bind_quoted(e2, params, ids, i + 1)
    }
}

/// The restore pass: each parameter cell goes back to its snapshot value,
/// unconditionally.
pub open spec fn s_restore(e: VEnv, params: Seq<usize>, snap: Seq<VObj>, i: int) -> VEnv
    decreases params.len() - i,
{
    if i < 0 || i >= params.len() || i >= snap.len() || params[i] >= e.cells.len() {
        e
    } else {
        let e2 = VEnv { cells: e.cells.update(params[i] as int, snap[i]), ..e };
        s_restore(e2, params, snap, i + 1)
    }
}

/// A native invocation: parameter and argument counts must match; the
/// snapshot, bind, body, restore discipline runs, and the parameter cells
/// are restored on every exit after binding began.
pub open spec fn s_invoke_native(e: VEnv, l: VLambda, ids: Seq<usize>, f: nat) -> (
    VEnv,
    Result<VObj, JtsErrType>,
)
    decreases f, 8int, 0int,
{
    if f == 0 {
        (e, Err(JtsErrType::StepLimit))
    } else if l.params.len() != ids.len() - 1 {
        (e, Err(JtsErrType::UnmatchedParamLists))
    } else {
        let (e1, sr) = s_snapshot(e, l.params, 0, f);
        match sr {
            Err(er) => (e1, Err(er)),
            Ok(snap) => {
                let (e2, br) = s_bind_args(e1, l.params, ids, 0, f);
                match br {
                    Err(er) => (s_restore(e2, l.params, snap, 0), Err(er)),
                    Ok(_) => {
                        let (e3, r) = s_progn(e2, l.body, 0, f);
                        (s_restore(e3, l.params, snap, 0), r)
                    },
                }
            },
        }
    }
}

/// A macro invocation: like a native one, but the snapshot reads without
/// evaluating and the parameters bind to the unevaluated argument cells; the
/// expansion comes back unevaluated.
pub open spec fn s_invoke_macro(e: VEnv, l: VLambda, ids: Seq<usize>, f: nat) -> (
    VEnv,
    Result<VObj, JtsErrType>,
)
    decreases f, 8int, 0int,
{
    if f == 0 {
        (e, Err(JtsErrType::StepLimit))
    } else if l.params.len() != ids.len() - 1 {
        (e, Err(JtsErrType::UnmatchedParamLists))
    } else {
        match s_read_snapshot(e, l.params, 0) {
            Err(er) => (e, Err(er)),
            Ok(snap) => {
                let e2 = s_bind_quoted(e, l.params, ids, 0);
                let (e3, r) = s_progn(e2, l.body, 0, f);
                (s_restore(e3, l.params, snap, 0), r)
            },
        }
    }
}

/// Evaluation followed by one quoted-form pass: what the public
/// `eval_shared` entry returns.
pub open spec fn s_eval_shared(e: VEnv, o: VObj, f: nat) -> (VEnv, Result<VObj, JtsErrType>)
    decreases f, 14int, 0int,
{
    if f == 0 {
        (e, Err(JtsErrType::StepLimit))
    } else {
        let (e2, r) = s_eval(e, o, (f - 1) as nat);
        match r {
            Ok(v) => s_eval_quoted(e2, v, (f - 1) as nat),
            Err(er) => (e2, Err(er)),
        }
    }
}

/// A whole program body: its forms evaluate in sequence and the last value
/// is returned; an empty body is `NoEntry`.
pub open spec fn s_run(e: VEnv, body: Seq<usize>, f: nat) -> (VEnv, Result<VObj, JtsErrType>) {
    s_progn(e, body, 0, f)
}

/// Running the entry module: the module named `main` must exist and hold a
/// non-empty body, else `NoEntry`.
pub open spec fn s_run_main(e: VEnv, f: nat) -> (VEnv, Result<VObj, JtsErrType>) {
    match s_mod_find(e.modules, "main"@) {
        None => (e, Err(JtsErrType::NoEntry)),
        Some(m) => {
            if e.modules[m as int].body.len() == 0 {
                (e, Err(JtsErrType::NoEntry))
            } else {
                s_progn(e, e.modules[m as int].body, 0, f)
            }
        },
    }
}

/// A self-evaluating value evaluates to itself and leaves the environment
/// untouched, whenever a step remains.
pub proof fn lemma_eval_self(e: VEnv, o: VObj, f: nat)
    requires
        crate::model::self_evaluating(o),
    ensures
        f >= 1 ==> s_eval(e, o, f) == (e, Ok::<VObj, JtsErrType>(o)),
        f == 0 ==> s_eval(e, o, f) == (e, Err::<VObj, JtsErrType>(JtsErrType::StepLimit)),
{
}

/// When every parameter cell holds a self-evaluating value, the evaluating
/// snapshot changes nothing and records exactly the cells' current values.
pub proof fn lemma_snapshot_self_eval(e: VEnv, params: Seq<usize>, i: int, f: nat)
    requires
        0 <= i <= params.len(),
        crate::model::ids_ok(params, e.cells.len()),
        forall|k: int|
            0 <= k < params.len() ==> crate::model::self_evaluating(
                e.cells[(#[trigger] params[k]) as int],
            ),
    ensures
        s_snapshot(e, params, i, f).0 == e,
        s_snapshot(e, params, i, f).1 matches Ok(snap) ==> snap.len() == params.len() - i
            && forall|k: int|
            0 <= k < snap.len() ==> #[trigger] snap[k] == e.cells[params[i + k] as int],
    decreases f, 7int, params.len() - i,
{
    if 0 <= i < params.len() && f != 0 {
        lemma_eval_self(e, e.cells[params[i] as int], (f - 1) as nat);
        lemma_snapshot_self_eval(e, params, i + 1, f);
    }
}

/// The unevaluated snapshot records exactly the cells' current values.
pub proof fn lemma_read_snapshot(e: VEnv, params: Seq<usize>, i: int)
    requires
        0 <= i <= params.len(),
        crate::model::ids_ok(params, e.cells.len()),
    ensures
        s_read_snapshot(e, params, i) matches Ok(snap) ==> snap.len() == params.len() - i
            && forall|k: int|
            0 <= k < snap.len() ==> #[trigger] snap[k] == e.cells[params[i + k] as int],
    decreases params.len() - i,
{
    if 0 <= i < params.len() {
        lemma_read_snapshot(e, params, i + 1);
    }
}

/// Restoration writes every parameter cell back to its snapshot value: with
/// a snapshot that is consistent across duplicate parameters, every
/// parameter cell ends at its snapshot value and every other cell stands.
pub proof fn lemma_restore_sets(e: VEnv, params: Seq<usize>, snap: Seq<VObj>, i: int)
    requires
        0 <= i,
        snap.len() == params.len(),
        forall|j: int| 0 <= j < params.len() ==> (#[trigger] params[j]) < e.cells.len(),
        forall|j: int, k: int|
            0 <= j < params.len() && 0 <= k < params.len() && params[j] == params[k] ==> snap[j]
                == snap[k],
    ensures
        s_restore(e, params, snap, i).cells.len() == e.cells.len(),
        s_restore(e, params, snap, i).modules == e.modules,
        s_restore(e, params, snap, i).gen_sym == e.gen_sym,
        s_restore(e, params, snap, i).output == e.output,
        forall|j: int|
            i <= j < params.len() ==> s_restore(e, params, snap, i).cells[(
            #[trigger] params[j]) as int] == snap[j],
        forall|c: int|
            0 <= c < e.cells.len() && (forall|j: int|
                i <= j < params.len() ==> (#[trigger] params[j]) as int != c) ==> (
            #[trigger] s_restore(e, params, snap, i).cells[c]) == e.cells[c],
    decreases params.len() - i,
{
    if 0 <= i < params.len() {
        let e2 = VEnv { cells: e.cells.update(params[i] as int, snap[i]), ..e };
        lemma_restore_sets(e2, params, snap, i + 1);
        let post = s_restore(e, params, snap, i);
        assert(post == s_restore(e2, params, snap, i + 1));
        assert forall|j: int| i <= j < params.len() implies post.cells[(
        #[trigger] params[j]) as int] == snap[j] by {
            assert(post.cells[params[j] as int] == snap[j] || j == i);
            if j == i {
                if exists|k: int| i + 1 <= k < params.len() && #[trigger] params[k] == params[i] {
                    let k = choose|k: int|
                        i + 1 <= k < params.len() && #[trigger] params[k] == params[i];
                    assert(post.cells[params[k] as int] == snap[k]);
                    assert(snap[k] == snap[i]);
                } else {
                    assert(forall|k: int|
                        i + 1 <= k < params.len() ==> (#[trigger] params[k]) as int != params[
                            i
                        ] as int);
                    assert((params[i] as int) < e2.cells.len());
                    assert(post.cells[params[i] as int] == e2.cells[params[i] as int]);
                    assert(e2.cells[params[i] as int] == snap[i]);
                }
            }
        }
    }
}

} // verus!
