//! Laws the interpreter obeys, stated over the evaluation semantics and
//! proved once and for all: quoting then evaluating equals direct
//! evaluation, import resolution prefers a module's own bindings, and
//! reading a flat literal list keeps its element count.

use vstd::prelude::*;
use crate::env::{s_import_lookup, s_lookup_in, s_add_symbol_to, unique_sym_text};
use crate::err::JtsErrType;
use crate::model::{venv_wf, VEnv, VObj};
use crate::modules::s_sym_lookup;
use crate::objects::Bridge;
use crate::parser::s_parse_tokens;
use crate::semantics::{s_eval, s_eval_bridge, s_eval_quoted, s_quote};
use crate::tokens::{TokType, VTok};

verus! {

/// Quoting a form and evaluating the quote is evaluating the form directly:
/// in any well-formed environment, a call `(eval (quote X))` — the `eval`
/// primitive applied to a `(quote X)` call over the cell holding `X` —
/// yields exactly the state and value of evaluating `X`'s cell itself, one
/// evaluation step later.
pub proof fn lemma_eval_quote_identity(e: VEnv, form: Seq<usize>, arg: Seq<usize>, f: nat)
    requires
        venv_wf(e),
        form.len() == 2,
        arg.len() == 2,
        form[0] < e.cells.len(),
        form[1] < e.cells.len(),
        arg[0] < e.cells.len(),
        arg[1] < e.cells.len(),
        e.cells[form[0] as int] == VObj::FnBridge(Bridge::Eval),
        e.cells[form[1] as int] == VObj::List(arg),
        e.cells[arg[0] as int] == VObj::FnBridge(Bridge::Quote),
        f >= 2,
    ensures
        s_eval(e, VObj::List(form), f) == s_eval(e, e.cells[arg[1] as int], (f - 1) as nat),
{
    assert(crate::model::vobj_is_callable(e.cells[form[0] as int]));
    assert(s_eval(e, VObj::List(form), f) == crate::semantics::s_exec_call(e, form, f));
    assert(crate::semantics::s_exec_call(e, form, f) == crate::semantics::s_bridge(
        e,
        Bridge::Eval,
        form,
        f,
    ));
    assert(crate::semantics::s_bridge(e, Bridge::Eval, form, f) == s_eval_bridge(e, form, f));
    assert(s_eval(e, e.cells[form[1] as int], (f - 1) as nat) == crate::semantics::s_exec_call(
        e,
        arg,
        (f - 1) as nat,
    ));
    assert(crate::semantics::s_exec_call(e, arg, (f - 1) as nat) == crate::semantics::s_bridge(
        e,
        Bridge::Quote,
        arg,
        (f - 1) as nat,
    ));
    assert(s_eval(e, e.cells[form[1] as int], (f - 1) as nat) == s_quote(e, arg));
    assert(s_quote(e, arg) == (e, Ok::<VObj, JtsErrType>(VObj::Quote(arg[1]))));
    assert(s_eval_bridge(e, form, f) == s_eval_quoted(e, VObj::Quote(arg[1]), (f - 1) as nat));
    assert(s_eval_quoted(e, VObj::Quote(arg[1]), (f - 1) as nat) == s_eval(
        e,
        e.cells[arg[1] as int],
        (f - 1) as nat,
    ));
}

/// The first import that binds a name resolves it, when none before it does.
pub proof fn lemma_first_import_wins(
    e: VEnv,
    imps: Seq<usize>,
    i: int,
    k: int,
    name: Seq<char>,
)
    requires
        venv_wf(e),
        0 <= i <= k < imps.len(),
        forall|j: int| 0 <= j < imps.len() ==> (#[trigger] imps[j]) < e.modules.len(),
        forall|j: int|
            i <= j < k ==> s_sym_lookup(e.modules[(#[trigger] imps[j]) as int].symbols, name)
                is None,
        s_sym_lookup(e.modules[imps[k] as int].symbols, name) is Some,
    ensures
        s_import_lookup(e, imps, i, name) == s_sym_lookup(
            e.modules[imps[k] as int].symbols,
            name,
        ),
    decreases k - i,
{
    if i < k {
        lemma_first_import_wins(e, imps, i + 1, k, name);
    }
}

/// Importing a module makes its bindings resolvable, and a binding declared
/// in the importing module itself takes precedence over any imported one:
/// when module `a`'s own table binds `name`, scoped lookup answers that
/// binding whatever the imports hold; when it does not and import `k` is the
/// first whose table binds `name`, scoped lookup answers that import's
/// binding with no re-declaration in `a`.
pub proof fn lemma_import_resolution(e: VEnv, a: int, k: int, name: Seq<char>)
    requires
        venv_wf(e),
        0 <= a < e.modules.len(),
    ensures
        s_sym_lookup(e.modules[a].symbols, name) matches Some(c) ==> s_lookup_in(e, a, name)
            == Some(c),
        (s_sym_lookup(e.modules[a].symbols, name) is None && 0 <= k
            < e.modules[a].imports.len() && (forall|j: int|
            0 <= j < k ==> s_sym_lookup(
                e.modules[(#[trigger] e.modules[a].imports[j]) as int].symbols,
                name,
            ) is None) && s_sym_lookup(
            e.modules[e.modules[a].imports[k] as int].symbols,
            name,
        ) is Some) ==> s_lookup_in(e, a, name) == s_sym_lookup(
            e.modules[e.modules[a].imports[k] as int].symbols,
            name,
        ),
{
    assert(crate::model::vmod_wf(e.modules[a], e.cells.len(), e.modules.len()));
    if s_sym_lookup(e.modules[a].symbols, name) is None && 0 <= k < e.modules[a].imports.len() {
        let imps = e.modules[a].imports;
        assert(forall|j: int| 0 <= j < imps.len() ==> (#[trigger] imps[j]) < e.modules.len());
        if (forall|j: int|
            0 <= j < k ==> s_sym_lookup(
                e.modules[(#[trigger] imps[j]) as int].symbols,
                name,
            ) is None) && s_sym_lookup(e.modules[imps[k] as int].symbols, name) is Some {
            lemma_first_import_wins(e, imps, 0, k, name);
        }
    }
}

/// Whether a token run is a flat literal list: one opening marker, symbol
/// tokens only, one closing marker.
pub open spec fn flat_list_tokens(ts: Seq<VTok>) -> bool {
    &&& ts.len() >= 2
    &&& ts[0].tok_type == TokType::Beg
    &&& ts[ts.len() - 1].tok_type == TokType::End
    &&& forall|j: int| 0 < j < ts.len() - 1 ==> (#[trigger] ts[j]).tok_type == TokType::Symbol
}

/// The middle of a flat-list interning run, which is where reading keeps
/// order: the cells already read stay untouched as a prefix, each symbol
/// token appends exactly one cell after them, and the closing marker interns
/// the node so built.
pub proof fn lemma_parse_symbol_run(
    e: VEnv,
    ts: Seq<VTok>,
    i: int,
    prev: Seq<usize>,
    cur: Seq<usize>,
    mod_name: Seq<char>,
)
    requires
        0 < i < ts.len(),
        e.cells.len() + (ts.len() - i) <= usize::MAX,
        ts[ts.len() - 1].tok_type == TokType::End,
        forall|j: int| 0 < j < ts.len() - 1 ==> (#[trigger] ts[j]).tok_type == TokType::Symbol,
    ensures
        ({
            let (e2, r) = s_parse_tokens(e, ts, i, seq![prev], cur, 1, mod_name);
            r matches Ok(top) ==> top.len() == prev.len() + 1 && top[top.len() - 1]
                < e2.cells.len() && (e2.cells[top[top.len() - 1] as int] matches VObj::List(ids)
                && ids.len() == cur.len() + (ts.len() - 1 - i) && ids.take(cur.len() as int)
                == cur)
        }),
    decreases ts.len() - i,
{
    let (e2, r) = s_parse_tokens(e, ts, i, seq![prev], cur, 1, mod_name);
    if i == ts.len() - 1 {
        // the closing marker: the open node interns as a fresh list cell
        let sym = unique_sym_text(e.gen_sym);
        let (ea, ra) = s_add_symbol_to(e, mod_name, sym, VObj::List(cur));
        let e1 = VEnv { cells: e.cells.push(VObj::List(cur)), ..e };
        let ee = VEnv { gen_sym: crate::env::s_gen_next(e1.gen_sym), ..e1 };
        assert((ea, ra) == crate::env::s_bind_in_module(
            ee,
            mod_name,
            sym,
            e.cells.len() as usize,
        ));
        match ra {
            Ok(id) => {
                assert(id == e.cells.len() as usize);
                assert(ea.cells == ee.cells);
                assert(ea.cells[id as int] == VObj::List(cur));
                let top = seq![prev].last().push(id);
                assert(seq![prev].drop_last() =~= Seq::<Seq<usize>>::empty());
                assert(s_parse_tokens(
                    ea,
                    ts,
                    i + 1,
                    seq![prev].drop_last(),
                    top,
                    0,
                    mod_name,
                ) == (ea, Ok::<Seq<usize>, JtsErrType>(top)));
                assert((e2, r) == (ea, Ok::<Seq<usize>, JtsErrType>(top)));
                assert(top[top.len() - 1] == id);
            },
            Err(_) => {},
        }
    } else {
        // one symbol token: whatever interning and lookup do, the open node
        // grows by exactly one cell
        assert(ts[i].tok_type == TokType::Symbol);
        match crate::env::s_mod_find(e.modules, mod_name) {
            None => {},
            Some(m) => {
                match s_lookup_in(e, m as int, ts[i].source) {
                    Some(_) => {
                        match crate::env::s_env_lookup(e, 0, ts[i].source) {
                            Some(c) => {
                                lemma_parse_symbol_run(e, ts, i + 1, prev, cur.push(c), mod_name);
                            },
                            None => {},
                        }
                    },
                    None => {
                        let (eb, rb) = s_add_symbol_to(
                            e,
                            mod_name,
                            ts[i].source,
                            crate::objects::Obj::spec_from_string(ts[i].source),
                        );
                        match rb {
                            Ok(_) => {
                                match crate::env::s_env_lookup(eb, 0, ts[i].source) {
                                    Some(c) => {
                                        lemma_parse_symbol_run(
                                            eb,
                                            ts,
                                            i + 1,
                                            prev,
                                            cur.push(c),
                                            mod_name,
                                        );
                                    },
                                    None => {},
                                }
                            },
                            Err(_) => {},
                        }
                    },
                }
            },
        }
    }
}

/// Reading a flat literal list preserves its element count and order: when
/// interning a token run `( s1 .. sn )` succeeds, exactly one form is read
/// and its cell holds a list of exactly `n` cells, appended one per element
/// token in reading order, as the run lemma above states step by step.
pub proof fn lemma_flat_list_count(e: VEnv, ts: Seq<VTok>, mod_name: Seq<char>)
    requires
        flat_list_tokens(ts),
        e.cells.len() + ts.len() <= usize::MAX,
    ensures
        ({
            let (e2, r) = s_parse_tokens(e, ts, 0, Seq::empty(), Seq::empty(), 0, mod_name);
            r matches Ok(top) ==> top.len() == 1 && top[0] < e2.cells.len() && (e2.cells[top[0] as int]
                matches VObj::List(ids) && ids.len() == ts.len() - 2)
        }),
{
    assert(Seq::<Seq<usize>>::empty().push(Seq::<usize>::empty()) =~= seq![Seq::<usize>::empty()]);
    lemma_parse_symbol_run(e, ts, 1, Seq::empty(), Seq::empty(), mod_name);
}

} // verus!
