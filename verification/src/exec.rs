//! The executable evaluator. Every function here returns exactly what the
//! corresponding definition in `semantics` says, final environment included;
//! the step budget `fuel` bounds recursion and a spent budget is the
//! `StepLimit` error.

use vstd::prelude::*;
use crate::env::Env;
use crate::err::{JtsErr, JtsErrType};
use crate::model::{ids_ok, vobj_wf, VEnv, VObj};
use crate::objects::{Bridge, FnMacro, FnNative, FnStatic, Node, Obj, StaticFn};
use crate::semantics::{
    s_arith, s_arith_fold, s_assign, s_bridge, s_cmp, s_define, s_eval, s_eval_bridge,
    s_eval_elems, s_eval_quoted, s_exec_call, s_gensym, s_if, s_invoke_macro, s_invoke_native,
    s_invoke_static, s_list_add, s_list_len, s_loop_iter, s_progn, s_quote, s_rt_assert,
};

verus! {

/// The model of an evaluation result.
pub open spec fn res_view(r: JtsErr<Obj>) -> Result<VObj, JtsErrType> {
    match r {
        Ok(o) => Ok(o@),
        Err(e) => Err(e),
    }
}

/// The shared shape of every evaluator contract: the final state and result
/// are the specified ones, the cell table only grows, and a returned value
/// is well-formed in the final state.
pub open spec fn mirrors(
    pre: VEnv,
    post: VEnv,
    r: JtsErr<Obj>,
    s: (VEnv, Result<VObj, JtsErrType>),
) -> bool {
    &&& post == s.0
    &&& res_view(r) == s.1
    &&& pre.cells.len() <= post.cells.len()
    &&& (r matches Ok(v) ==> vobj_wf(v@, post.cells.len()))
}

impl Env {
    /// Evaluates one value: a non-empty list whose head cell holds a
    /// callable dispatches as a call, any other non-empty list evaluates
    /// element-wise into a fresh list, and everything else is its own value.
    pub fn eval(&mut self, obj: &Obj, fuel: u64) -> (r: JtsErr<Obj>)
        requires
            old(self).inv(),
            vobj_wf(obj@, old(self)@.cells.len()),
        ensures
            final(self).inv(),
            mirrors(old(self)@, final(self)@, r, s_eval(old(self)@, obj@, fuel as nat)),
        decreases fuel, 10int, 0int,
    {
        if fuel == 0 {
            return Err(JtsErrType::StepLimit);
        }
        match obj {
            Obj::List(node) => {
                if node.args.len() == 0 {
                    return Ok(obj.clone());
                }
                let head_id = node.args[0];
                assert(node@[0] < self@.cells.len());
                if self.cell_ref(head_id).is_callable() {
                    self.exec_call(node, fuel)
                } else {
                    match self.eval_elems(node, 0, fuel) {
                        Ok(n2) => Ok(Obj::List(n2)),
                        Err(e) => Err(e),
                    }
                }
            },
            _ => Ok(obj.clone()),
        }
    }

    /// Evaluates each element cell's value from position `i` on, placing
    /// each result in a fresh cell of a new list.
    fn eval_elems(&mut self, node: &Node, i: usize, fuel: u64) -> (r: JtsErr<Node>)
        requires
            old(self).inv(),
            ids_ok(node@, old(self)@.cells.len()),
        ensures
            final(self).inv(),
            ({
                let (e2, rr) = s_eval_elems(old(self)@, node@, i as int, fuel as nat);
                &&& final(self)@ == e2
                &&& old(self)@.cells.len() <= final(self)@.cells.len()
                &&& match (r, rr) {
                    (Ok(n2), Ok(ids2)) => n2@ == ids2 && ids_ok(ids2, final(self)@.cells.len()),
                    (Err(a), Err(b)) => a == b,
                    _ => false,
                }
            }),
        decreases fuel, 6int, node@.len() - i,
    {
        if i >= node.args.len() {
            let empty = Node::default();
            proof {
                assert(empty@ =~= Seq::<usize>::empty());
            }
            return Ok(empty);
        }
        if fuel == 0 {
            return Err(JtsErrType::StepLimit);
        }
        let v = self.cell_clone(node.args[i]);
        let ev = match self.eval(&v, fuel - 1) {
            Ok(ev) => ev,
            Err(e) => {
                return Err(e);
            },
        };
        let id = self.push_cell(ev);
        match self.eval_elems(node, i + 1, fuel) {
            Ok(mut n2) => {
                n2.args.insert(0, id);
                proof {
                    assert(n2@ =~= seq![id] + n2@.skip(1));
                }
                Ok(n2)
            },
            Err(e) => Err(e),
        }
    }

    /// Dispatches a call form whose head cell holds a callable; a macro's
    /// expansion is evaluated once more as a quoted form.
    fn exec_call(&mut self, node: &Node, fuel: u64) -> (r: JtsErr<Obj>)
        requires
            old(self).inv(),
            ids_ok(node@, old(self)@.cells.len()),
            node@.len() > 0,
        ensures
            final(self).inv(),
            mirrors(old(self)@, final(self)@, r, s_exec_call(old(self)@, node@, fuel as nat)),
        decreases fuel, 9int, 0int,
    {
        if fuel == 0 {
            return Err(JtsErrType::StepLimit);
        }
        assert(node@[0] < self@.cells.len());
        let head = self.cell_clone(node.args[0]);
        match head {
            Obj::FnBridge(b) => self.bridge_call(b.func, node, fuel),
            Obj::FnNative(l) => l.invoke(self, node, fuel),
            Obj::FnMacro(l) => {
                let expansion = match l.invoke(self, node, fuel) {
                    Ok(v) => v,
                    Err(e) => {
                        return Err(e);
                    },
                };
                self.eval_quoted(&expansion, fuel - 1)
            },
            Obj::FnStatic(s) => self.invoke_static(s.func, node),
            _ => Err(JtsErrType::NonCallable),
        }
    }

    /// Dispatches one host primitive.
    fn bridge_call(&mut self, b: Bridge, node: &Node, fuel: u64) -> (r: JtsErr<Obj>)
        requires
            old(self).inv(),
            ids_ok(node@, old(self)@.cells.len()),
        ensures
            final(self).inv(),
            mirrors(old(self)@, final(self)@, r, s_bridge(old(self)@, b, node@, fuel as nat)),
        decreases fuel, 8int, 0int,
    {
        if fuel == 0 {
            return Err(JtsErrType::StepLimit);
        }
        match b {
            Bridge::Add => self.bridge_arith(Bridge::Add, node, fuel),
            Bridge::Sub => self.bridge_arith(Bridge::Sub, node, fuel),
            Bridge::Mul => self.bridge_arith(Bridge::Mul, node, fuel),
            Bridge::Div => self.bridge_arith(Bridge::Div, node, fuel),
            Bridge::Modulos => self.bridge_arith(Bridge::Modulos, node, fuel),
            Bridge::CmpEq => self.bridge_cmp(Bridge::CmpEq, node, fuel),
            Bridge::CmpLe => self.bridge_cmp(Bridge::CmpLe, node, fuel),
            Bridge::CmpLeEq => self.bridge_cmp(Bridge::CmpLeEq, node, fuel),
            Bridge::CmpGt => self.bridge_cmp(Bridge::CmpGt, node, fuel),
            Bridge::CmpGtEq => self.bridge_cmp(Bridge::CmpGtEq, node, fuel),
            Bridge::Assign => self.bridge_assign(node, fuel),
            Bridge::Defun => self.bridge_define(node, false),
            Bridge::DefMacro => self.bridge_define(node, true),
            Bridge::LetScope => self.bridge_let(node, fuel),
            Bridge::Do => self.progn(node, 1, fuel),
            Bridge::If => self.bridge_if(node, fuel),
            Bridge::Loop => self.loop_iter(node, Obj::Nil(), fuel),
            Bridge::Quote => self.bridge_quote(node),
            Bridge::Eval => self.bridge_eval(node, fuel),
            Bridge::Gensym => self.bridge_gensym(node, fuel),
            Bridge::RtAssert => self.bridge_assert(node, fuel),
            Bridge::RtAssertEq => self.bridge_assert(node, fuel),
            Bridge::Nth => self.bridge_nth(node, fuel),
            Bridge::Append => self.bridge_list_add(node, fuel, false),
            Bridge::Prepend => self.bridge_list_add(node, fuel, true),
            Bridge::Insert => self.bridge_insert(node, fuel),
            Bridge::Remove => self.bridge_remove(node, fuel),
            Bridge::Replace => self.bridge_replace(node, fuel),
            Bridge::Len => self.bridge_len(node),
            Bridge::Print => self.bridge_print(node, fuel, false),
            Bridge::Println => self.bridge_print(node, fuel, true),
            Bridge::Dsp => self.bridge_dsp(node, 1, fuel),
        }
    }

    /// An arithmetic form: the first argument evaluates to the accumulator
    /// and each further argument folds in, coerced to its kind.
    fn bridge_arith(&mut self, op: Bridge, node: &Node, fuel: u64) -> (r: JtsErr<Obj>)
        requires
            old(self).inv(),
            ids_ok(node@, old(self)@.cells.len()),
        ensures
            final(self).inv(),
            mirrors(old(self)@, final(self)@, r, s_arith(old(self)@, op, node@, fuel as nat)),
        decreases fuel, 7int, 0int,
    {
        if fuel == 0 {
            return Err(JtsErrType::StepLimit);
        }
        if node.args.len() < 2 {
            return Err(JtsErrType::OutOfBounds);
        }
        assert(node@[1] < self@.cells.len());
        let v = self.cell_clone(node.args[1]);
        let fst = match self.eval(&v, fuel - 1) {
            Ok(x) => x,
            Err(e) => {
                return Err(e);
            },
        };
        self.arith_fold(op, fst, node, 2, fuel)
    }

    /// Folds the remaining arguments of an arithmetic form into `acc`.
    fn arith_fold(&mut self, op: Bridge, acc: Obj, node: &Node, i: usize, fuel: u64) -> (r: JtsErr<
        Obj,
    >)
        requires
            old(self).inv(),
            ids_ok(node@, old(self)@.cells.len()),
            vobj_wf(acc@, old(self)@.cells.len()),
        ensures
            final(self).inv(),
            mirrors(
                old(self)@,
                final(self)@,
                r,
                s_arith_fold(old(self)@, op, acc@, node@, i as int, fuel as nat),
            ),
        decreases fuel, 6int, node@.len() - i,
    {
        if i >= node.args.len() {
            return Ok(acc);
        }
        if fuel == 0 {
            return Err(JtsErrType::StepLimit);
        }
        assert(node@[i as int] < self@.cells.len());
        let v = self.cell_clone(node.args[i]);
        let operand = match self.eval(&v, fuel - 1) {
            Ok(x) => x,
            Err(e) => {
                return Err(e);
            },
        };
        let mut acc2 = acc;
        let step = match op {
            Bridge::Add => acc2.add(operand),
            Bridge::Sub => acc2.sub(operand),
            Bridge::Mul => acc2.mul(operand),
            Bridge::Div => acc2.div(operand),
            _ => acc2.modulos(operand),
        };
        match step {
            Ok(_) => {
                proof {
                    crate::model::lemma_ids_ok_grow(
                        node@,
                        old(self)@.cells.len(),
                        self@.cells.len(),
                    );
                }
                self.arith_fold(op, acc2, node, i + 1, fuel)
            },
            Err(e) => Err(e),
        }
    }

    /// A comparison form: both arguments evaluate in order, then compare.
    fn bridge_cmp(&mut self, op: Bridge, node: &Node, fuel: u64) -> (r: JtsErr<Obj>)
        requires
            old(self).inv(),
            ids_ok(node@, old(self)@.cells.len()),
        ensures
            final(self).inv(),
            mirrors(old(self)@, final(self)@, r, s_cmp(old(self)@, op, node@, fuel as nat)),
        decreases fuel, 6int, 0int,
    {
        if fuel == 0 {
            return Err(JtsErrType::StepLimit);
        }
        if node.args.len() < 2 {
            return Err(JtsErrType::OutOfBounds);
        }
        assert(node@[1] < self@.cells.len());
        let v1 = self.cell_clone(node.args[1]);
        let a = match self.eval(&v1, fuel - 1) {
            Ok(x) => x,
            Err(e) => {
                return Err(e);
            },
        };
        if node.args.len() < 3 {
            return Err(JtsErrType::OutOfBounds);
        }
        assert(node@[2] < self@.cells.len());
        let v2 = self.cell_clone(node.args[2]);
        let bv = match self.eval(&v2, fuel - 1) {
            Ok(x) => x,
            Err(e) => {
                return Err(e);
            },
        };
        let cmp = match op {
            Bridge::CmpEq => a.eq(&bv),
            Bridge::CmpLe => a.le(&bv),
            Bridge::CmpLeEq => a.le_eq(&bv),
            Bridge::CmpGt => match a.le_eq(&bv) {
                Ok(x) => Ok(!x),
                Err(e) => Err(e),
            },
            _ => match a.le(&bv) {
                Ok(x) => Ok(!x),
                Err(e) => Err(e),
            },
        };
        match cmp {
            Ok(x) => Ok(Obj::Bool(x)),
            Err(e) => Err(e),
        }
    }

    /// The `set` form: the second argument evaluates and overwrites the
    /// first argument's cell, visible through every alias of that cell.
    fn bridge_assign(&mut self, node: &Node, fuel: u64) -> (r: JtsErr<Obj>)
        requires
            old(self).inv(),
            ids_ok(node@, old(self)@.cells.len()),
        ensures
            final(self).inv(),
            mirrors(old(self)@, final(self)@, r, s_assign(old(self)@, node@, fuel as nat)),
        decreases fuel, 7int, 0int,
    {
        if fuel == 0 {
            return Err(JtsErrType::StepLimit);
        }
        if node.args.len() < 3 {
            return Err(JtsErrType::OutOfBounds);
        }
        assert(node@[2] < self@.cells.len());
        let v = self.cell_clone(node.args[2]);
        let setter = match self.eval(&v, fuel - 1) {
            Ok(x) => x,
            Err(e) => {
                return Err(e);
            },
        };
        assert(node@[1] < self@.cells.len());
        let out = setter.clone();
        self.set_cell(node.args[1], setter);
        Ok(out)
    }

    /// The `defun` and `macro` forms: the second argument's cell holds the
    /// parameter list, the rest of the form is the body, and the new
    /// callable overwrites the first argument's cell.
    fn bridge_define(&mut self, node: &Node, is_macro: bool) -> (r: JtsErr<Obj>)
        requires
            old(self).inv(),
            ids_ok(node@, old(self)@.cells.len()),
        ensures
            final(self).inv(),
            mirrors(old(self)@, final(self)@, r, s_define(old(self)@, node@, is_macro)),
    {
        if node.args.len() < 3 {
            return Err(JtsErrType::OutOfBounds);
        }
        assert(node@[2] < self@.cells.len() && node@[1] < self@.cells.len());
        let params = match self.cell_ref(node.args[2]).is_node() {
            Ok(n) => n.clone(),
            Err(e) => {
                return Err(e);
            },
        };
        let mut body: Vec<usize> = Vec::new();
        let mut k: usize = 3;
        proof {
            assert(body@ =~= node@.skip(3).take(0));
        }
        while k < node.args.len()
            invariant
                3 <= k <= node@.len() || (node@.len() < 3 && k == 3),
                node@.len() >= 3,
                body@ == node@.skip(3).take(k - 3),
            decreases node@.len() - k,
        {
            body.push(node.args[k]);
            proof {
                assert(body@ =~= node@.skip(3).take(k + 1 - 3));
            }
            k = k + 1;
        }
        proof {
            assert(body@ =~= node@.skip(3));
        }
        let body_node = Node { args: body };
        let value = if is_macro {
            Obj::FnMacro(FnMacro { params: params, body: body_node })
        } else {
            Obj::FnNative(FnNative { params: params, body: body_node })
        };
        let out = value.clone();
        self.set_cell(node.args[1], value);
        Ok(out)
    }

    /// Sequential evaluation from position `off` on: every form evaluates in
    /// order and the last result is returned; an empty run is out of bounds.
    pub fn progn(&mut self, node: &Node, off: usize, fuel: u64) -> (r: JtsErr<Obj>)
        requires
            old(self).inv(),
            ids_ok(node@, old(self)@.cells.len()),
        ensures
            final(self).inv(),
            mirrors(old(self)@, final(self)@, r, s_progn(old(self)@, node@, off as int, fuel as nat)),
        decreases fuel, 6int, node@.len() - off,
    {
        if off >= node.args.len() {
            return Err(JtsErrType::OutOfBounds);
        }
        if fuel == 0 {
            return Err(JtsErrType::StepLimit);
        }
        assert(node@[off as int] < self@.cells.len());
        let v = self.cell_clone(node.args[off]);
        if off == node.args.len() - 1 {
            self.eval(&v, fuel - 1)
        } else {
            match self.eval(&v, fuel - 1) {
                Ok(_) => self.progn(node, off + 1, fuel),
                Err(e) => Err(e),
            }
        }
    }

    /// The `if` form: the condition must evaluate to a boolean; a missing
    /// else-branch yields `Nil`.
    fn bridge_if(&mut self, node: &Node, fuel: u64) -> (r: JtsErr<Obj>)
        requires
            old(self).inv(),
            ids_ok(node@, old(self)@.cells.len()),
        ensures
            final(self).inv(),
            mirrors(old(self)@, final(self)@, r, s_if(old(self)@, node@, fuel as nat)),
        decreases fuel, 7int, 0int,
    {
        if fuel == 0 {
            return Err(JtsErrType::StepLimit);
        }
        if node.args.len() < 2 {
            return Err(JtsErrType::OutOfBounds);
        }
        assert(node@[1] < self@.cells.len());
        let v = self.cell_clone(node.args[1]);
        let cond = match self.eval(&v, fuel - 1) {
            Ok(Obj::Bool(c)) => c,
            Ok(_) => {
                return Err(JtsErrType::MismatchedType);
            },
            Err(e) => {
                return Err(e);
            },
        };
        if cond {
            if node.args.len() < 3 {
                return Err(JtsErrType::OutOfBounds);
            }
            assert(node@[2] < self@.cells.len());
            let t = self.cell_clone(node.args[2]);
            self.eval(&t, fuel - 1)
        } else {
            if node.args.len() < 4 {
                return Ok(Obj::Nil());
            }
            assert(node@[3] < self@.cells.len());
            let t = self.cell_clone(node.args[3]);
            self.eval(&t, fuel - 1)
        }
    }

    /// The `loop` form: while the condition cell evaluates to true, every
    /// argument cell evaluates in order; the last body value is returned.
    fn loop_iter(&mut self, node: &Node, res: Obj, fuel: u64) -> (r: JtsErr<Obj>)
        requires
            old(self).inv(),
            ids_ok(node@, old(self)@.cells.len()),
            vobj_wf(res@, old(self)@.cells.len()),
        ensures
            final(self).inv(),
            mirrors(
                old(self)@,
                final(self)@,
                r,
                s_loop_iter(old(self)@, node@, res@, fuel as nat),
            ),
        decreases fuel, 7int, 0int,
    {
        if fuel == 0 {
            return Err(JtsErrType::StepLimit);
        }
        if node.args.len() < 2 {
            return Err(JtsErrType::OutOfBounds);
        }
        assert(node@[1] < self@.cells.len());
        let v = self.cell_clone(node.args[1]);
        let cond = match self.eval(&v, fuel - 1) {
            Ok(Obj::Bool(c)) => c,
            Ok(_) => {
                return Err(JtsErrType::MismatchedType);
            },
            Err(e) => {
                return Err(e);
            },
        };
        if !cond {
            return Ok(res);
        }
        match self.progn(node, 1, fuel) {
            Ok(v2) => {
                proof {
                    crate::model::lemma_ids_ok_grow(
                        node@,
                        old(self)@.cells.len(),
                        self@.cells.len(),
                    );
                }
                self.loop_iter(node, v2, fuel - 1)
            },
            Err(e) => Err(e),
        }
    }

    /// The `quote` form: a suspended reference to the argument's cell.
    fn bridge_quote(&mut self, node: &Node) -> (r: JtsErr<Obj>)
        requires
            old(self).inv(),
        ensures
            final(self).inv(),
            final(self)@ == old(self)@,
            res_view(r) == s_quote(old(self)@, node@).1,
            old(self)@ == s_quote(old(self)@, node@).0,
            r matches Ok(v) ==> vobj_wf(v@, final(self)@.cells.len()) || !ids_ok(
                node@,
                old(self)@.cells.len(),
            ),
    {
        if node.args.len() < 2 {
            return Err(JtsErrType::OutOfBounds);
        }
        Ok(Obj::Quote(node.args[1]))
    }

    /// The `eval` form: the argument evaluates, and the result is evaluated
    /// once more as a quoted form.
    fn bridge_eval(&mut self, node: &Node, fuel: u64) -> (r: JtsErr<Obj>)
        requires
            old(self).inv(),
            ids_ok(node@, old(self)@.cells.len()),
        ensures
            final(self).inv(),
            mirrors(old(self)@, final(self)@, r, s_eval_bridge(old(self)@, node@, fuel as nat)),
        decreases fuel, 7int, 0int,
    {
        if fuel == 0 {
            return Err(JtsErrType::StepLimit);
        }
        if node.args.len() < 2 {
            return Err(JtsErrType::OutOfBounds);
        }
        assert(node@[1] < self@.cells.len());
        let v = self.cell_clone(node.args[1]);
        let ev = match self.eval(&v, fuel - 1) {
            Ok(x) => x,
            Err(e) => {
                return Err(e);
            },
        };
        self.eval_quoted(&ev, fuel - 1)
    }

    /// Evaluation of a quoted result: a quoted cell evaluates its referenced
    /// form, a list is normalized once and then evaluated, others stand.
    fn eval_quoted(&mut self, v: &Obj, fuel: u64) -> (r: JtsErr<Obj>)
        requires
            old(self).inv(),
            vobj_wf(v@, old(self)@.cells.len()),
        ensures
            final(self).inv(),
            mirrors(old(self)@, final(self)@, r, s_eval_quoted(old(self)@, v@, fuel as nat)),
        decreases fuel, 13int, 0int,
    {
        match v {
            Obj::Quote(c) => {
                assert(v@->Quote_0 < self@.cells.len());
                let inner = self.cell_clone(*c);
                self.eval(&inner, fuel)
            },
            Obj::List(node) => {
                let n2 = match self.normalize_elems(node, 0, fuel) {
                    Ok(x) => x,
                    Err(e) => {
                        return Err(e);
                    },
                };
                let lst = Obj::List(n2);
                self.eval(&lst, fuel)
            },
            _ => Ok(v.clone()),
        }
    }

    /// Normalization of a data-fied list: quoted elements resolve back to
    /// their referenced cells and nested lists normalize into fresh cells.
    fn normalize_elems(&mut self, node: &Node, i: usize, fuel: u64) -> (r: JtsErr<Node>)
        requires
            old(self).inv(),
            ids_ok(node@, old(self)@.cells.len()),
        ensures
            final(self).inv(),
            ({
                let (e2, rr) = crate::semantics::s_normalize_elems(
                    old(self)@,
                    node@,
                    i as int,
                    fuel as nat,
                );
                &&& final(self)@ == e2
                &&& old(self)@.cells.len() <= final(self)@.cells.len()
                &&& match (r, rr) {
                    (Ok(n2), Ok(ids2)) => n2@ == ids2 && ids_ok(ids2, final(self)@.cells.len()),
                    (Err(a), Err(b)) => a == b,
                    _ => false,
                }
            }),
        decreases fuel, 12int, node@.len() - i,
    {
        if i >= node.args.len() {
            let empty = Node::default();
            proof {
                assert(empty@ =~= Seq::<usize>::empty());
            }
            return Ok(empty);
        }
        assert(node@[i as int] < self@.cells.len());
        let id: usize = match self.cell_ref(node.args[i]) {
            Obj::Quote(q) => *q,
            Obj::List(_) => {
                if fuel == 0 {
                    return Err(JtsErrType::StepLimit);
                }
                let inner = match self.cell_clone(node.args[i]) {
                    Obj::List(inner) => inner,
                    _ => {
                        return Err(JtsErrType::StepLimit);
                    },
                };
                let inner2 = match self.normalize_elems(&inner, 0, fuel - 1) {
                    Ok(x) => x,
                    Err(e) => {
                        return Err(e);
                    },
                };
                self.push_cell(Obj::List(inner2))
            },
            _ => node.args[i],
        };
        match self.normalize_elems(node, i + 1, fuel) {
            Ok(mut n2) => {
                n2.args.insert(0, id);
                proof {
                    assert(n2@ =~= seq![id] + n2@.skip(1));
                }
                Ok(n2)
            },
            Err(e) => Err(e),
        }
    }

    /// The `gensym` form: the argument evaluates, a hidden unique symbol is
    /// interned with that value, and a reference to its cell is returned.
    fn bridge_gensym(&mut self, node: &Node, fuel: u64) -> (r: JtsErr<Obj>)
        requires
            old(self).inv(),
            ids_ok(node@, old(self)@.cells.len()),
        ensures
            final(self).inv(),
            mirrors(old(self)@, final(self)@, r, s_gensym(old(self)@, node@, fuel as nat)),
        decreases fuel, 7int, 0int,
    {
        if fuel == 0 {
            return Err(JtsErrType::StepLimit);
        }
        if node.args.len() < 2 {
            return Err(JtsErrType::OutOfBounds);
        }
        assert(node@[1] < self@.cells.len());
        let v = self.cell_clone(node.args[1]);
        let ev = match self.eval(&v, fuel - 1) {
            Ok(x) => x,
            Err(e) => {
                return Err(e);
            },
        };
        proof {
            crate::model::lemma_vobj_wf_grow(ev@, self@.cells.len(), self@.cells.len() + 1);
        }
        match self.generate_symbol(ev) {
            Ok(id) => Ok(Obj::Quote(id)),
            Err(e) => Err(e),
        }
    }

    /// The assertion forms: both arguments evaluate and compare as `=` does;
    /// inequality is a runtime assertion failure.
    fn bridge_assert(&mut self, node: &Node, fuel: u64) -> (r: JtsErr<Obj>)
        requires
            old(self).inv(),
            ids_ok(node@, old(self)@.cells.len()),
        ensures
            final(self).inv(),
            mirrors(old(self)@, final(self)@, r, s_rt_assert(old(self)@, node@, fuel as nat)),
        decreases fuel, 7int, 0int,
    {
        match self.bridge_cmp(Bridge::CmpEq, node, fuel) {
            Ok(Obj::Bool(true)) => Ok(Obj::Bool(true)),
            Ok(_) => Err(JtsErrType::RuntimeAssert),
            Err(e) => Err(e),
        }
    }

    /// A static host call: the argument cells are read unevaluated and
    /// coerced into the typed tuple; only wrapping 32-bit addition is
    /// registered.
    fn invoke_static(&mut self, s: StaticFn, node: &Node) -> (r: JtsErr<Obj>)
        requires
            old(self).inv(),
            ids_ok(node@, old(self)@.cells.len()),
        ensures
            final(self).inv(),
            mirrors(old(self)@, final(self)@, r, s_invoke_static(old(self)@, s, node@)),
    {
        if node.args.len() < 3 {
            return Err(JtsErrType::OutOfBounds);
        }
        assert(node@[1] < self@.cells.len() && node@[2] < self@.cells.len());
        let a = match self.cell_ref(node.args[1]).as_i32() {
            Ok(x) => x,
            Err(e) => {
                return Err(e);
            },
        };
        let b = match self.cell_ref(node.args[2]).as_i32() {
            Ok(x) => x,
            Err(e) => {
                return Err(e);
            },
        };
        match s {
            StaticFn::AddI32 => Ok(
                Obj::I32(#[verifier::truncate] ((a as i64 + b as i64) as i32)),
            ),
        }
    }
}

impl FnNative {
    /// The model of this callable.
    pub open spec fn lam(&self) -> crate::model::VLambda {
        crate::model::VLambda { params: self.params@, body: self.body@ }
    }

    /// Invocation: with matching parameter and argument counts, the
    /// snapshot-bind-execute-restore discipline runs over the parameter
    /// cells, and restoration runs on every exit after binding began. When
    /// the parameter cells hold self-evaluating values before the call, they
    /// hold their pre-call values after it, whether it succeeded or failed.
    pub fn invoke(&self, env: &mut Env, node: &Node, fuel: u64) -> (r: JtsErr<Obj>)
        requires
            old(env).inv(),
            ids_ok(self.params@, old(env)@.cells.len()),
            ids_ok(self.body@, old(env)@.cells.len()),
            ids_ok(node@, old(env)@.cells.len()),
        ensures
            final(env).inv(),
            mirrors(old(env)@, final(env)@, r, s_invoke_native(old(env)@, self.lam(), node@, fuel as nat)),
            (forall|i: int|
                0 <= i < self.params@.len() ==> crate::model::self_evaluating(
                    old(env)@.cells[(#[trigger] self.params@[i]) as int],
                )) ==> forall|i: int|
                0 <= i < self.params@.len() ==> final(env)@.cells[(
                #[trigger] self.params@[i]) as int] == old(env)@.cells[self.params@[i] as int],
        decreases fuel, 8int, 0int,
    {
        let ghost restorative = forall|i: int|
            0 <= i < self.params@.len() ==> crate::model::self_evaluating(
                old(env)@.cells[(#[trigger] self.params@[i]) as int],
            );
        if fuel == 0 {
            return Err(JtsErrType::StepLimit);
        }
        if node.args.len() == 0 || self.params.args.len() != node.args.len() - 1 {
            assert(self.lam().params.len() != node@.len() - 1);
            return Err(JtsErrType::UnmatchedParamLists);
        }
        let snap = match snapshot(env, &self.params, 0, fuel) {
            Ok(s) => s,
            Err(e) => {
                proof {
                    if restorative {
                        crate::semantics::lemma_snapshot_self_eval(
                            old(env)@,
                            self.params@,
                            0,
                            fuel as nat,
                        );
                    }
                }
                return Err(e);
            },
        };
        proof {
            if restorative {
                crate::semantics::lemma_snapshot_self_eval(
                    old(env)@,
                    self.params@,
                    0,
                    fuel as nat,
                );
            }
        }
        let ghost snapseq = snap@.map_values(|o: Obj| o@);
        match bind_args(env, &self.params, node, 0, fuel) {
            Ok(_) => {},
            Err(e) => {
                proof {
                    if restorative {
                        crate::semantics::lemma_restore_sets(env@, self.params@, snapseq, 0);
                    }
                }
                restore(env, &self.params, &snap, 0);
                return Err(e);
            },
        }
        let body_res = env.progn(&self.body, 0, fuel);
        proof {
            if restorative {
                crate::semantics::lemma_restore_sets(env@, self.params@, snapseq, 0);
            }
        }
        restore(env, &self.params, &snap, 0);
        body_res
    }
}

impl FnMacro {
    /// The model of this callable.
    pub open spec fn lam(&self) -> crate::model::VLambda {
        crate::model::VLambda { params: self.params@, body: self.body@ }
    }

    /// Invocation: the snapshot reads the parameter cells without
    /// evaluation, the parameters bind to suspended references to the
    /// unevaluated argument cells, the body evaluates, and the parameter
    /// cells are restored; the expansion comes back unevaluated. The
    /// parameter cells hold their pre-call values after the call, whether it
    /// succeeded or failed.
    pub fn invoke(&self, env: &mut Env, node: &Node, fuel: u64) -> (r: JtsErr<Obj>)
        requires
            old(env).inv(),
            ids_ok(self.params@, old(env)@.cells.len()),
            ids_ok(self.body@, old(env)@.cells.len()),
            ids_ok(node@, old(env)@.cells.len()),
        ensures
            final(env).inv(),
            mirrors(old(env)@, final(env)@, r, s_invoke_macro(old(env)@, self.lam(), node@, fuel as nat)),
            forall|i: int|
                0 <= i < self.params@.len() ==> final(env)@.cells[(
                #[trigger] self.params@[i]) as int] == old(env)@.cells[self.params@[i] as int],
        decreases fuel, 8int, 0int,
    {
        if fuel == 0 {
            return Err(JtsErrType::StepLimit);
        }
        if node.args.len() == 0 || self.params.args.len() != node.args.len() - 1 {
            assert(self.lam().params.len() != node@.len() - 1);
            return Err(JtsErrType::UnmatchedParamLists);
        }
        let snap = match read_snapshot(env, &self.params, 0) {
            Ok(s) => s,
            Err(e) => {
                proof {
                    crate::semantics::lemma_read_snapshot(old(env)@, self.params@, 0);
                }
                return Err(e);
            },
        };
        proof {
            crate::semantics::lemma_read_snapshot(old(env)@, self.params@, 0);
        }
        let ghost snapseq = snap@.map_values(|o: Obj| o@);
        bind_quoted(env, &self.params, node, 0);
        let body_res = env.progn(&self.body, 0, fuel);
        proof {
            crate::semantics::lemma_restore_sets(env@, self.params@, snapseq, 0);
        }
        restore(env, &self.params, &snap, 0);
        body_res
    }
}

/// Evaluates each parameter cell's value into the native snapshot.
fn snapshot(env: &mut Env, params: &Node, i: usize, fuel: u64) -> (r: JtsErr<Vec<Obj>>)
    requires
        old(env).inv(),
        ids_ok(params@, old(env)@.cells.len()),
    ensures
        final(env).inv(),
        ({
            let (e2, rr) = crate::semantics::s_snapshot(old(env)@, params@, i as int, fuel as nat);
            &&& final(env)@ == e2
            &&& old(env)@.cells.len() <= final(env)@.cells.len()
            &&& match (r, rr) {
                (Ok(vs), Ok(svs)) => vs@.map_values(|o: Obj| o@) == svs && forall|k: int|
                    0 <= k < vs@.len() ==> vobj_wf(#[trigger] vs@[k]@, final(env)@.cells.len()),
                (Err(a), Err(b)) => a == b,
                _ => false,
            }
        }),
    decreases fuel, 6int, params@.len() - i,
{
    if i >= params.args.len() {
        let empty: Vec<Obj> = Vec::new();
        proof {
            assert(empty@.map_values(|o: Obj| o@) =~= Seq::<VObj>::empty());
        }
        return Ok(empty);
    }
    if fuel == 0 {
        return Err(JtsErrType::StepLimit);
    }
    assert(params@[i as int] < env@.cells.len());
    let v = env.cell_clone(params.args[i]);
    let ev = match env.eval(&v, fuel - 1) {
        Ok(x) => x,
        Err(e) => {
            return Err(e);
        },
    };
    let ghost len1 = env@.cells.len();
    proof {
        crate::model::lemma_ids_ok_grow(params@, old(env)@.cells.len(), len1);
    }
    match snapshot(env, params, i + 1, fuel) {
        Ok(mut vs) => {
            let ghost pre = vs@;
            vs.insert(0, ev);
            proof {
                assert(vs@.map_values(|o: Obj| o@) =~= seq![ev@] + pre.map_values(|o: Obj| o@));
                crate::model::lemma_vobj_wf_grow(ev@, len1, env@.cells.len());
            }
            Ok(vs)
        },
        Err(e) => Err(e),
    }
}

/// Reads each parameter cell's value, unevaluated, into the macro snapshot.
fn read_snapshot(env: &Env, params: &Node, i: usize) -> (r: JtsErr<Vec<Obj>>)
    requires
        env.inv(),
        ids_ok(params@, env@.cells.len()),
    ensures
        ({
            let rr = crate::semantics::s_read_snapshot(env@, params@, i as int);
            match (r, rr) {
                (Ok(vs), Ok(svs)) => vs@.map_values(|o: Obj| o@) == svs && forall|k: int|
                    0 <= k < vs@.len() ==> vobj_wf(#[trigger] vs@[k]@, env@.cells.len()),
                (Err(a), Err(b)) => a == b,
                _ => false,
            }
        }),
    decreases params@.len() - i,
{
    if i >= params.args.len() {
        let empty: Vec<Obj> = Vec::new();
        proof {
            assert(empty@.map_values(|o: Obj| o@) =~= Seq::<VObj>::empty());
        }
        return Ok(empty);
    }
    assert(params@[i as int] < env@.cells.len());
    let v = env.cell_clone(params.args[i]);
    match read_snapshot(env, params, i + 1) {
        Ok(mut vs) => {
            let ghost pre = vs@;
            vs.insert(0, v);
            proof {
                assert(vs@.map_values(|o: Obj| o@) =~= seq![v@] + pre.map_values(|o: Obj| o@));
            }
            Ok(vs)
        },
        Err(e) => Err(e),
    }
}

/// Evaluates each argument cell and overwrites the matching parameter cell.
fn bind_args(env: &mut Env, params: &Node, node: &Node, i: usize, fuel: u64) -> (r: JtsErr<()>)
    requires
        old(env).inv(),
        ids_ok(params@, old(env)@.cells.len()),
        ids_ok(node@, old(env)@.cells.len()),
    ensures
        final(env).inv(),
        ({
            let (e2, rr) = crate::semantics::s_bind_args(
                old(env)@,
                params@,
                node@,
                i as int,
                fuel as nat,
            );
            &&& final(env)@ == e2
            &&& old(env)@.cells.len() <= final(env)@.cells.len()
            &&& r == rr
        }),
    decreases fuel, 6int, params@.len() - i,
{
    if i >= params.args.len() {
        return Ok(());
    }
    if fuel == 0 {
        return Err(JtsErrType::StepLimit);
    }
    if i + 1 >= node.args.len() {
        return Err(JtsErrType::OutOfBounds);
    }
    assert(node@[i + 1] < env@.cells.len());
    let v = env.cell_clone(node.args[i + 1]);
    let ev = match env.eval(&v, fuel - 1) {
        Ok(x) => x,
        Err(e) => {
            return Err(e);
        },
    };
    assert(params@[i as int] < env@.cells.len());
    env.set_cell(params.args[i], ev);
    bind_args(env, params, node, i + 1, fuel)
}

/// Binds each parameter cell to a suspended reference to the matching
/// unevaluated argument cell.
fn bind_quoted(env: &mut Env, params: &Node, node: &Node, i: usize)
    requires
        old(env).inv(),
        ids_ok(params@, old(env)@.cells.len()),
        ids_ok(node@, old(env)@.cells.len()),
    ensures
        final(env).inv(),
        final(env)@ == crate::semantics::s_bind_quoted(old(env)@, params@, node@, i as int),
        final(env)@.cells.len() == old(env)@.cells.len(),
    decreases params@.len() - i,
{
    if i >= params.args.len() {
        return;
    }
    if i + 1 >= node.args.len() {
        return;
    }
    assert(params@[i as int] < env@.cells.len() && node@[i + 1] < env@.cells.len());
    env.set_cell(params.args[i], Obj::Quote(node.args[i + 1]));
    bind_quoted(env, params, node, i + 1);
}

/// Restores each parameter cell to its snapshot value, unconditionally.
fn restore(env: &mut Env, params: &Node, snap: &Vec<Obj>, i: usize)
    requires
        old(env).inv(),
        forall|k: int| 0 <= k < snap@.len() ==> vobj_wf(#[trigger] snap@[k]@, old(env)@.cells.len()),
    ensures
        final(env).inv(),
        final(env)@ == crate::semantics::s_restore(
            old(env)@,
            params@,
            snap@.map_values(|o: Obj| o@),
            i as int,
        ),
        final(env)@.cells.len() == old(env)@.cells.len(),
    decreases params@.len() - i,
{
    if i >= params.args.len() {
        return;
    }
    if i >= snap.len() {
        return;
    }
    if params.args[i] >= self_len(env) {
        return;
    }
    let v = snap[i].clone();
    env.set_cell(params.args[i], v);
    restore(env, params, snap, i + 1);
}

/// The number of cells, as a plain helper for bounds tests.
fn self_len(env: &Env) -> (r: usize)
    ensures
        r == env@.cells.len(),
{
    env.symbols.len()
}

impl Env {
    /// The `let` form: the first argument's cell holds the binding pairs;
    /// snapshot, bind, evaluate the remaining forms, restore on every exit.
    fn bridge_let(&mut self, node: &Node, fuel: u64) -> (r: JtsErr<Obj>)
        requires
            old(self).inv(),
            ids_ok(node@, old(self)@.cells.len()),
        ensures
            final(self).inv(),
            mirrors(old(self)@, final(self)@, r, crate::semantics::s_let(old(self)@, node@, fuel as nat)),
        decreases fuel, 7int, 0int,
    {
        if fuel == 0 {
            return Err(JtsErrType::StepLimit);
        }
        if node.args.len() < 2 {
            return Err(JtsErrType::OutOfBounds);
        }
        assert(node@[1] < self@.cells.len());
        let binds = match self.cell_ref(node.args[1]).is_node() {
            Ok(n) => n.clone(),
            Err(e) => {
                return Err(e);
            },
        };
        proof {
            assert(vobj_wf(self@.cells[node@[1] as int], self@.cells.len()));
        }
        let snap = match anon_snapshot(self, &binds, 0) {
            Ok(s) => s,
            Err(e) => {
                return Err(e);
            },
        };
        match anon_bind(self, &binds, 0, fuel) {
            Ok(_) => {},
            Err(e) => {
                anon_restore(self, &binds, &snap, 0);
                return Err(e);
            },
        }
        let body_res = self.progn(node, 2, fuel);
        anon_restore(self, &binds, &snap, 0);
        body_res
    }

    /// The `nth` form: the index is read unevaluated, the second argument's
    /// cell must hold a list, and the chosen element's cell evaluates.
    fn bridge_nth(&mut self, node: &Node, fuel: u64) -> (r: JtsErr<Obj>)
        requires
            old(self).inv(),
            ids_ok(node@, old(self)@.cells.len()),
        ensures
            final(self).inv(),
            mirrors(old(self)@, final(self)@, r, crate::semantics::s_nth(old(self)@, node@, fuel as nat)),
        decreases fuel, 7int, 0int,
    {
        if fuel == 0 {
            return Err(JtsErrType::StepLimit);
        }
        if node.args.len() < 2 {
            return Err(JtsErrType::OutOfBounds);
        }
        assert(node@[1] < self@.cells.len());
        let idx = match self.cell_ref(node.args[1]).is_int() {
            Ok(x) => x,
            Err(e) => {
                return Err(e);
            },
        };
        if node.args.len() < 3 {
            return Err(JtsErrType::OutOfBounds);
        }
        assert(node@[2] < self@.cells.len());
        proof {
            assert(vobj_wf(self@.cells[node@[2] as int], self@.cells.len()));
        }
        let lst = match self.cell_ref(node.args[2]).is_node() {
            Ok(n) => n.clone(),
            Err(e) => {
                return Err(e);
            },
        };
        if idx >= lst.args.len() as u64 {
            return Err(JtsErrType::OutOfBounds);
        }
        let elem_cell = lst.args[idx as usize];
        assert(lst@[idx as int] < self@.cells.len());
        let v = self.cell_clone(elem_cell);
        self.eval(&v, fuel - 1)
    }

    /// The `append` and `prepend` forms: the element evaluates into a fresh
    /// cell attached to the end or the front of the listed cell's list.
    fn bridge_list_add(&mut self, node: &Node, fuel: u64, front: bool) -> (r: JtsErr<Obj>)
        requires
            old(self).inv(),
            ids_ok(node@, old(self)@.cells.len()),
        ensures
            final(self).inv(),
            mirrors(
                old(self)@,
                final(self)@,
                r,
                s_list_add(old(self)@, node@, fuel as nat, if front { 1int } else { 0int }),
            ),
        decreases fuel, 7int, 0int,
    {
        if fuel == 0 {
            return Err(JtsErrType::StepLimit);
        }
        if node.args.len() < 2 {
            return Err(JtsErrType::OutOfBounds);
        }
        assert(node@[1] < self@.cells.len());
        let v = self.cell_clone(node.args[1]);
        let elem = match self.eval(&v, fuel - 1) {
            Ok(x) => x,
            Err(e) => {
                return Err(e);
            },
        };
        if node.args.len() < 3 {
            return Err(JtsErrType::OutOfBounds);
        }
        assert(node@[2] < self@.cells.len());
        proof {
            assert(vobj_wf(self@.cells[node@[2] as int], self@.cells.len()));
        }
        let mut lst = match self.cell_ref(node.args[2]).is_node() {
            Ok(n) => n.clone(),
            Err(e) => {
                return Err(e);
            },
        };
        let ghost e2len = self@.cells.len();
        let ghost pre_lst = lst@;
        assert(ids_ok(pre_lst, e2len));
        let out = elem.clone();
        let id = self.push_cell(elem);
        if front {
            lst.args.insert(0, id);
            proof {
                assert(lst@ =~= seq![id] + pre_lst);
            }
        } else {
            lst.args.push(id);
        }
        proof {
            crate::model::lemma_ids_ok_grow(pre_lst, e2len, self@.cells.len());
            assert forall|k: int| 0 <= k < lst@.len() implies (#[trigger] lst@[k])
                < self@.cells.len() by {
                if front {
                    if k > 0 {
                        assert(lst@[k] == pre_lst[k - 1]);
                    }
                } else {
                    if k < pre_lst.len() {
                        assert(lst@[k] == pre_lst[k]);
                    }
                }
            }
        }
        self.set_cell(node.args[2], Obj::List(lst));
        Ok(out)
    }

    /// The `insert` form: the index and element evaluate in order, and the
    /// element's fresh cell is placed at that index of the listed cell's
    /// list; an index past the length is out of bounds.
    fn bridge_insert(&mut self, node: &Node, fuel: u64) -> (r: JtsErr<Obj>)
        requires
            old(self).inv(),
            ids_ok(node@, old(self)@.cells.len()),
        ensures
            final(self).inv(),
            mirrors(old(self)@, final(self)@, r, crate::semantics::s_insert(old(self)@, node@, fuel as nat)),
        decreases fuel, 7int, 0int,
    {
        if fuel == 0 {
            return Err(JtsErrType::StepLimit);
        }
        if node.args.len() < 2 {
            return Err(JtsErrType::OutOfBounds);
        }
        assert(node@[1] < self@.cells.len());
        let v1 = self.cell_clone(node.args[1]);
        let iv = match self.eval(&v1, fuel - 1) {
            Ok(x) => x,
            Err(e) => {
                return Err(e);
            },
        };
        let idx = match iv.is_int() {
            Ok(x) => x,
            Err(e) => {
                return Err(e);
            },
        };
        if node.args.len() < 3 {
            return Err(JtsErrType::OutOfBounds);
        }
        assert(node@[2] < self@.cells.len());
        let v2 = self.cell_clone(node.args[2]);
        let elem = match self.eval(&v2, fuel - 1) {
            Ok(x) => x,
            Err(e) => {
                return Err(e);
            },
        };
        if node.args.len() < 4 {
            return Err(JtsErrType::OutOfBounds);
        }
        assert(node@[3] < self@.cells.len());
        proof {
            assert(vobj_wf(self@.cells[node@[3] as int], self@.cells.len()));
        }
        let mut lst = match self.cell_ref(node.args[3]).is_node() {
            Ok(n) => n.clone(),
            Err(e) => {
                return Err(e);
            },
        };
        if idx > lst.args.len() as u64 {
            return Err(JtsErrType::OutOfBounds);
        }
        let ghost e3len = self@.cells.len();
        let ghost pre_lst = lst@;
        assert(ids_ok(pre_lst, e3len));
        let out = elem.clone();
        let id = self.push_cell(elem);
        lst.args.insert(idx as usize, id);
        proof {
            crate::model::lemma_ids_ok_grow(pre_lst, e3len, self@.cells.len());
            pre_lst.insert_ensures(idx as int, id);
            assert forall|k: int| 0 <= k < lst@.len() implies (#[trigger] lst@[k])
                < self@.cells.len() by {
                if k < idx {
                    assert(lst@[k] == pre_lst[k]);
                } else if k > idx {
                    assert(lst@[k] == pre_lst[k - 1]);
                }
            }
        }
        self.set_cell(node.args[3], Obj::List(lst));
        Ok(out)
    }

    /// The `remove` form: the index evaluates, the chosen element leaves the
    /// listed cell's list, and its value is returned.
    fn bridge_remove(&mut self, node: &Node, fuel: u64) -> (r: JtsErr<Obj>)
        requires
            old(self).inv(),
            ids_ok(node@, old(self)@.cells.len()),
        ensures
            final(self).inv(),
            mirrors(old(self)@, final(self)@, r, crate::semantics::s_remove(old(self)@, node@, fuel as nat)),
        decreases fuel, 7int, 0int,
    {
        if fuel == 0 {
            return Err(JtsErrType::StepLimit);
        }
        if node.args.len() < 2 {
            return Err(JtsErrType::OutOfBounds);
        }
        assert(node@[1] < self@.cells.len());
        let v1 = self.cell_clone(node.args[1]);
        let iv = match self.eval(&v1, fuel - 1) {
            Ok(x) => x,
            Err(e) => {
                return Err(e);
            },
        };
        let idx = match iv.is_int() {
            Ok(x) => x,
            Err(e) => {
                return Err(e);
            },
        };
        if node.args.len() < 3 {
            return Err(JtsErrType::OutOfBounds);
        }
        assert(node@[2] < self@.cells.len());
        proof {
            assert(vobj_wf(self@.cells[node@[2] as int], self@.cells.len()));
        }
        let mut lst = match self.cell_ref(node.args[2]).is_node() {
            Ok(n) => n.clone(),
            Err(e) => {
                return Err(e);
            },
        };
        if idx >= lst.args.len() as u64 {
            return Err(JtsErrType::OutOfBounds);
        }
        let ghost pre_lst = lst@;
        assert(ids_ok(pre_lst, self@.cells.len()));
        let removed_cell = lst.args.remove(idx as usize);
        assert(removed_cell == pre_lst[idx as int] && removed_cell < self@.cells.len());
        let removed = self.cell_clone(removed_cell);
        proof {
            assert forall|k: int| 0 <= k < lst@.len() implies (#[trigger] lst@[k])
                < self@.cells.len() by {
                if k < idx {
                    assert(lst@[k] == pre_lst[k]);
                } else {
                    assert(lst@[k] == pre_lst[k + 1]);
                }
            }
        }
        self.set_cell(node.args[2], Obj::List(lst));
        Ok(removed)
    }

    /// The `replace` form: the index and element evaluate, and the element's
    /// fresh cell takes the chosen slot of the listed cell's list.
    fn bridge_replace(&mut self, node: &Node, fuel: u64) -> (r: JtsErr<Obj>)
        requires
            old(self).inv(),
            ids_ok(node@, old(self)@.cells.len()),
        ensures
            final(self).inv(),
            mirrors(old(self)@, final(self)@, r, crate::semantics::s_replace(old(self)@, node@, fuel as nat)),
        decreases fuel, 7int, 0int,
    {
        if fuel == 0 {
            return Err(JtsErrType::StepLimit);
        }
        if node.args.len() < 2 {
            return Err(JtsErrType::OutOfBounds);
        }
        assert(node@[1] < self@.cells.len());
        let v1 = self.cell_clone(node.args[1]);
        let iv = match self.eval(&v1, fuel - 1) {
            Ok(x) => x,
            Err(e) => {
                return Err(e);
            },
        };
        let idx = match iv.is_int() {
            Ok(x) => x,
            Err(e) => {
                return Err(e);
            },
        };
        if node.args.len() < 3 {
            return Err(JtsErrType::OutOfBounds);
        }
        assert(node@[2] < self@.cells.len());
        let v2 = self.cell_clone(node.args[2]);
        let elem = match self.eval(&v2, fuel - 1) {
            Ok(x) => x,
            Err(e) => {
                return Err(e);
            },
        };
        if node.args.len() < 4 {
            return Err(JtsErrType::OutOfBounds);
        }
        assert(node@[3] < self@.cells.len());
        proof {
            assert(vobj_wf(self@.cells[node@[3] as int], self@.cells.len()));
        }
        let mut lst = match self.cell_ref(node.args[3]).is_node() {
            Ok(n) => n.clone(),
            Err(e) => {
                return Err(e);
            },
        };
        if idx >= lst.args.len() as u64 {
            return Err(JtsErrType::OutOfBounds);
        }
        let ghost e3len = self@.cells.len();
        let ghost pre_lst = lst@;
        assert(ids_ok(pre_lst, e3len));
        let out = elem.clone();
        let id = self.push_cell(elem);
        lst.args[idx as usize] = id;
        proof {
            crate::model::lemma_ids_ok_grow(pre_lst, e3len, self@.cells.len());
            assert(lst@ =~= pre_lst.update(idx as int, id));
            assert forall|k: int| 0 <= k < lst@.len() implies (#[trigger] lst@[k])
                < self@.cells.len() by {
                if k != idx {
                    assert(lst@[k] == pre_lst[k]);
                }
            }
        }
        self.set_cell(node.args[3], Obj::List(lst));
        Ok(out)
    }

    /// The `len` form: the first argument's cell is read unevaluated and
    /// must hold a list; its length is returned.
    fn bridge_len(&mut self, node: &Node) -> (r: JtsErr<Obj>)
        requires
            old(self).inv(),
            ids_ok(node@, old(self)@.cells.len()),
        ensures
            final(self).inv(),
            mirrors(old(self)@, final(self)@, r, s_list_len(old(self)@, node@)),
    {
        if node.args.len() < 2 {
            return Err(JtsErrType::OutOfBounds);
        }
        assert(node@[1] < self@.cells.len());
        match self.cell_ref(node.args[1]).is_node() {
            Ok(n) => Ok(Obj::U64(n.args.len() as u64)),
            Err(e) => Err(e),
        }
    }

    /// The printing forms: the argument evaluates, its rendering goes to the
    /// output log — with a line break for `println` — and the value returns.
    fn bridge_print(&mut self, node: &Node, fuel: u64, line: bool) -> (r: JtsErr<Obj>)
        requires
            old(self).inv(),
            ids_ok(node@, old(self)@.cells.len()),
        ensures
            final(self).inv(),
            mirrors(old(self)@, final(self)@, r, crate::semantics::s_print(old(self)@, node@, fuel as nat, line)),
        decreases fuel, 7int, 0int,
    {
        if fuel == 0 {
            return Err(JtsErrType::StepLimit);
        }
        if node.args.len() < 2 {
            return Err(JtsErrType::OutOfBounds);
        }
        assert(node@[1] < self@.cells.len());
        let v = self.cell_clone(node.args[1]);
        let ev = match self.eval(&v, fuel - 1) {
            Ok(x) => x,
            Err(e) => {
                return Err(e);
            },
        };
        let text = match ev.to_string(self, fuel - 1) {
            Ok(s) => s,
            Err(e) => {
                return Err(e);
            },
        };
        let chunk = if line {
            proof {
                reveal_strlit("\n");
            }
            text.concat("\n")
        } else {
            text
        };
        self.push_output(chunk);
        Ok(ev)
    }

    /// The `dsp` form: every argument evaluates and prints in order, the
    /// last with a line break, and the last value is returned.
    fn bridge_dsp(&mut self, node: &Node, off: usize, fuel: u64) -> (r: JtsErr<Obj>)
        requires
            old(self).inv(),
            ids_ok(node@, old(self)@.cells.len()),
        ensures
            final(self).inv(),
            mirrors(old(self)@, final(self)@, r, crate::semantics::s_dsp(old(self)@, node@, off as int, fuel as nat)),
        decreases fuel, 7int, node@.len() - off,
    {
        if off >= node.args.len() {
            return Err(JtsErrType::OutOfBounds);
        }
        if fuel == 0 {
            return Err(JtsErrType::StepLimit);
        }
        assert(node@[off as int] < self@.cells.len());
        let v = self.cell_clone(node.args[off]);
        let ev = match self.eval(&v, fuel - 1) {
            Ok(x) => x,
            Err(e) => {
                return Err(e);
            },
        };
        let text = match ev.to_string(self, fuel - 1) {
            Ok(s) => s,
            Err(e) => {
                return Err(e);
            },
        };
        if off == node.args.len() - 1 {
            proof {
                reveal_strlit("\n");
            }
            self.push_output(text.concat("\n"));
            Ok(ev)
        } else {
            self.push_output(text);
            self.bridge_dsp(node, off + 1, fuel)
        }
    }

    /// Evaluates a value and then evaluates its result once more as a quoted
    /// form: the public evaluation entry used by the `eval` primitive.
    pub fn eval_shared(&mut self, obj: &Obj, fuel: u64) -> (r: JtsErr<Obj>)
        requires
            old(self).inv(),
            vobj_wf(obj@, old(self)@.cells.len()),
        ensures
            final(self).inv(),
            mirrors(old(self)@, final(self)@, r, crate::semantics::s_eval_shared(old(self)@, obj@, fuel as nat)),
    {
        if fuel == 0 {
            return Err(JtsErrType::StepLimit);
        }
        let ev = match self.eval(obj, fuel - 1) {
            Ok(x) => x,
            Err(e) => {
                return Err(e);
            },
        };
        self.eval_quoted(&ev, fuel - 1)
    }

    /// Evaluates a body node's forms in sequence and returns the last value.
    pub fn run(&mut self, node: &Node, fuel: u64) -> (r: JtsErr<Obj>)
        requires
            old(self).inv(),
            ids_ok(node@, old(self)@.cells.len()),
        ensures
            final(self).inv(),
            mirrors(old(self)@, final(self)@, r, crate::semantics::s_run(old(self)@, node@, fuel as nat)),
    {
        self.progn(node, 0, fuel)
    }

    /// Runs the entry module: the module named `main` must exist and hold a
    /// non-empty body, else `NoEntry`.
    pub fn run_main(&mut self, fuel: u64) -> (r: JtsErr<Obj>)
        requires
            old(self).inv(),
        ensures
            final(self).inv(),
            mirrors(old(self)@, final(self)@, r, crate::semantics::s_run_main(old(self)@, fuel as nat)),
    {
        let name = String::from_str("main");
        let m = match self.module(&name) {
            Ok(m) => m,
            Err(_) => {
                return Err(JtsErrType::NoEntry);
            },
        };
        proof {
            assert(self@.modules[m as int] == self.modules@[m as int]@);
        }
        let body = self.modules[m].body();
        if body.args.len() == 0 {
            return Err(JtsErrType::NoEntry);
        }
        proof {
            assert(crate::model::vmod_wf(
                self@.modules[m as int],
                self@.cells.len(),
                self@.modules.len(),
            ));
        }
        self.progn(&body, 0, fuel)
    }
}

impl Obj {
    /// Renders this value as display text: numbers in decimal, a quoted
    /// symbol by its interned name, a list in parentheses.
    pub fn to_string(&self, env: &Env, fuel: u64) -> (r: JtsErr<String>)
        requires
            crate::model::venv_wf(env@),
            vobj_wf(self@, env@.cells.len()),
        ensures
            match r {
                Ok(s) => crate::semantics::s_to_string(env@, self@, fuel as nat) == Ok::<
                    Seq<char>,
                    JtsErrType,
                >(s@),
                Err(e) => crate::semantics::s_to_string(env@, self@, fuel as nat) == Err::<
                    Seq<char>,
                    JtsErrType,
                >(e),
            },
        decreases fuel, 4int, 0int,
    {
        match self {
            Obj::U32(x) => Ok(crate::strings::fmt_u64(*x as u64)),
            Obj::U64(x) => Ok(crate::strings::fmt_u64(*x)),
            Obj::I32(x) => Ok(crate::strings::fmt_i64(*x as i64)),
            Obj::I64(x) => Ok(crate::strings::fmt_i64(*x)),
            Obj::Bool(x) => {
                proof {
                    reveal_strlit("true");
                    reveal_strlit("false");
                }
                if *x {
                    Ok(String::from_str("true"))
                } else {
                    Ok(String::from_str("false"))
                }
            },
            Obj::Str(st) => Ok(st.clone()),
            Obj::FnStatic(_) => {
                proof {
                    reveal_strlit("<static-fn>");
                }
                Ok(String::from_str("<static-fn>"))
            },
            Obj::FnNative(_) => {
                proof {
                    reveal_strlit("<native-fn>");
                }
                Ok(String::from_str("<native-fn>"))
            },
            Obj::FnBridge(_) => {
                proof {
                    reveal_strlit("<bridge-fn>");
                }
                Ok(String::from_str("<bridge-fn>"))
            },
            Obj::FnMacro(_) => {
                proof {
                    reveal_strlit("<macro>");
                }
                Ok(String::from_str("<macro>"))
            },
            Obj::Nil() => {
                proof {
                    reveal_strlit("nil");
                }
                Ok(String::from_str("nil"))
            },
            Obj::Quote(c) => {
                assert(self@->Quote_0 < env@.cells.len());
                let held_is_list = match env.cell_ref(*c) {
                    Obj::List(_) => true,
                    _ => false,
                };
                if held_is_list {
                    if fuel == 0 {
                        return Err(JtsErrType::StepLimit);
                    }
                    let inner = env.cell_clone(*c);
                    proof {
                        assert(vobj_wf(env@.cells[*c as int], env@.cells.len()));
                    }
                    inner.to_string(env, fuel - 1)
                } else {
                    match env.symbol_id(*c) {
                        Some(n) => Ok(n),
                        None => {
                            proof {
                                reveal_strlit("<UNKNOWN-SYM>");
                            }
                            Ok(String::from_str("<UNKNOWN-SYM>"))
                        },
                    }
                }
            },
            Obj::List(node) => {
                match to_string_elems(env, node, 0, fuel) {
                    Ok(s) => {
                        proof {
                            reveal_strlit("(");
                            reveal_strlit(")");
                        }
                        let mut out = String::from_str("(");
                        out.append(s.as_str());
                        out.append(")");
                        proof {
                            assert(out@ =~= "("@ + s@ + ")"@);
                        }
                        Ok(out)
                    },
                    Err(e) => Err(e),
                }
            },
        }
    }
}

/// Renders a list's elements space-separated.
fn to_string_elems(env: &Env, node: &Node, i: usize, fuel: u64) -> (r: JtsErr<String>)
    requires
        crate::model::venv_wf(env@),
        ids_ok(node@, env@.cells.len()),
    ensures
        match r {
            Ok(s) => crate::semantics::s_to_string_elems(env@, node@, i as int, fuel as nat)
                == Ok::<Seq<char>, JtsErrType>(s@),
            Err(e) => crate::semantics::s_to_string_elems(env@, node@, i as int, fuel as nat)
                == Err::<Seq<char>, JtsErrType>(e),
        },
    decreases fuel, 3int, node@.len() - i,
{
    if i >= node.args.len() {
        proof {
            reveal_strlit("");
            assert(""@ =~= Seq::<char>::empty());
        }
        return Ok(String::from_str(""));
    }
    if fuel == 0 {
        return Err(JtsErrType::StepLimit);
    }
    assert(node@[i as int] < env@.cells.len());
    let v = env.cell_clone(node.args[i]);
    proof {
        assert(vobj_wf(env@.cells[node@[i as int] as int], env@.cells.len()));
    }
    let s = match v.to_string(env, fuel - 1) {
        Ok(s) => s,
        Err(e) => {
            return Err(e);
        },
    };
    if i == node.args.len() - 1 {
        Ok(s)
    } else {
        match to_string_elems(env, node, i + 1, fuel) {
            Ok(rest) => {
                proof {
                    reveal_strlit(" ");
                }
                let ghost s0 = s@;
                let mut out = s;
                out.append(" ");
                out.append(rest.as_str());
                proof {
                    assert(out@ =~= s0 + " "@ + rest@);
                }
                Ok(out)
            },
            Err(e) => Err(e),
        }
    }
}

/// The snapshot a `let` form takes before binding: the named cell's value
/// for a pair, the binding cell's own value otherwise.
fn anon_snapshot(env: &Env, binds: &Node, i: usize) -> (r: JtsErr<Vec<Obj>>)
    requires
        env.inv(),
        ids_ok(binds@, env@.cells.len()),
    ensures
        ({
            let rr = crate::semantics::s_anon_snapshot(env@, binds@, i as int);
            match (r, rr) {
                (Ok(vs), Ok(svs)) => vs@.map_values(|o: Obj| o@) == svs && forall|k: int|
                    0 <= k < vs@.len() ==> vobj_wf(#[trigger] vs@[k]@, env@.cells.len()),
                (Err(a), Err(b)) => a == b,
                _ => false,
            }
        }),
    decreases binds@.len() - i,
{
    if i >= binds.args.len() {
        let empty: Vec<Obj> = Vec::new();
        proof {
            assert(empty@.map_values(|o: Obj| o@) =~= Seq::<VObj>::empty());
        }
        return Ok(empty);
    }
    assert(binds@[i as int] < env@.cells.len());
    proof {
        assert(vobj_wf(env@.cells[binds@[i as int] as int], env@.cells.len()));
    }
    let snap = match env.cell_ref(binds.args[i]) {
        Obj::List(pair) => {
            if pair.args.len() == 0 {
                return Err(JtsErrType::OutOfBounds);
            }
            let c = pair.args[0];
            assert(env@.cells[binds@[i as int] as int]->List_0[0] < env@.cells.len());
            env.cell_clone(c)
        },
        other => other.clone(),
    };
    match anon_snapshot(env, binds, i + 1) {
        Ok(mut vs) => {
            let ghost pre = vs@;
            vs.insert(0, snap);
            proof {
                assert(vs@.map_values(|o: Obj| o@) =~= seq![snap@] + pre.map_values(|o: Obj| o@));
            }
            Ok(vs)
        },
        Err(e) => Err(e),
    }
}

/// The binding pass of a `let` form: each pair evaluates its value into the
/// named cell; a bare binding cell is set to `Nil`.
fn anon_bind(env: &mut Env, binds: &Node, i: usize, fuel: u64) -> (r: JtsErr<()>)
    requires
        old(env).inv(),
        ids_ok(binds@, old(env)@.cells.len()),
    ensures
        final(env).inv(),
        ({
            let (e2, rr) = crate::semantics::s_anon_bind(old(env)@, binds@, i as int, fuel as nat);
            &&& final(env)@ == e2
            &&& old(env)@.cells.len() <= final(env)@.cells.len()
            &&& r == rr
        }),
    decreases fuel, 6int, binds@.len() - i,
{
    if i >= binds.args.len() {
        return Ok(());
    }
    if fuel == 0 {
        return Err(JtsErrType::StepLimit);
    }
    assert(binds@[i as int] < env@.cells.len());
    proof {
        assert(vobj_wf(env@.cells[binds@[i as int] as int], env@.cells.len()));
    }
    let pair_opt: Option<(usize, usize)> = match env.cell_ref(binds.args[i]) {
        Obj::List(pair) => {
            if pair.args.len() < 2 {
                return Err(JtsErrType::OutOfBounds);
            }
            Some((pair.args[0], pair.args[1]))
        },
        _ => None,
    };
    match pair_opt {
        Some((name_cell, value_cell)) => {
            assert(old(env)@.cells[binds@[i as int] as int]->List_0[1] < env@.cells.len());
            assert(old(env)@.cells[binds@[i as int] as int]->List_0[0] < env@.cells.len());
            let v = env.cell_clone(value_cell);
            let ev = match env.eval(&v, fuel - 1) {
                Ok(x) => x,
                Err(e) => {
                    return Err(e);
                },
            };
            env.set_cell(name_cell, ev);
            anon_bind(env, binds, i + 1, fuel)
        },
        None => {
            env.set_cell(binds.args[i], Obj::Nil());
            anon_bind(env, binds, i + 1, fuel)
        },
    }
}

/// The restore pass of a `let` form: each binding goes back to its snapshot
/// through the named cell for a pair, the binding cell itself otherwise.
fn anon_restore(env: &mut Env, binds: &Node, snap: &Vec<Obj>, i: usize)
    requires
        old(env).inv(),
        forall|k: int| 0 <= k < snap@.len() ==> vobj_wf(#[trigger] snap@[k]@, old(env)@.cells.len()),
    ensures
        final(env).inv(),
        final(env)@ == crate::semantics::s_anon_restore(
            old(env)@,
            binds@,
            snap@.map_values(|o: Obj| o@),
            i as int,
        ),
        final(env)@.cells.len() == old(env)@.cells.len(),
    decreases binds@.len() - i,
{
    if i >= binds.args.len() {
        return;
    }
    if i >= snap.len() {
        return;
    }
    if binds.args[i] >= self_len(env) {
        return;
    }
    let target: Option<usize> = match env.cell_ref(binds.args[i]) {
        Obj::List(pair) => {
            if pair.args.len() > 0 && pair.args[0] < self_len(env) {
                Some(pair.args[0])
            } else {
                None
            }
        },
        _ => Some(binds.args[i]),
    };
    match target {
        Some(t) => {
            let v = snap[i].clone();
            env.set_cell(t, v);
        },
        None => {},
    }
    anon_restore(env, binds, snap, i + 1);
}

} // verus!
