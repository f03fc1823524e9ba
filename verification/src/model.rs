//! The mathematical model of the interpreter's state: ghost mirrors of the
//! runtime value, module and environment types, and their well-formedness.
//!
//! A cell is an index into the environment's cell table; every structure that
//! holds values holds cell indices, so the model is a flat table plus index
//! sequences, and well-formedness is "every held index is in range".

use vstd::prelude::*;
use crate::objects::{Bridge, StaticFn};

verus! {

/// Model of a user-authored callable: a parameter list and a body, both
/// sequences of cells.
pub ghost struct VLambda {
    pub params: Seq<usize>,
    pub body: Seq<usize>,
}

/// Model of a runtime value.
pub ghost enum VObj {
    U32(u32),
    U64(u64),
    I32(i32),
    I64(i64),
    Bool(bool),
    Str(Seq<char>),
    /// an ordered sequence of cells: both a call form and list data
    List(Seq<usize>),
    /// a reference to a cell whose evaluation is suspended
    Quote(usize),
    FnStatic(StaticFn),
    FnNative(VLambda),
    FnBridge(Bridge),
    FnMacro(VLambda),
    Nil,
}

/// Model of a module: a named symbol table, imports in declared order, and
/// an optional body (empty when absent).
pub ghost struct VMod {
    pub name: Seq<char>,
    pub symbols: Seq<(Seq<char>, usize)>,
    pub imports: Seq<usize>,
    pub body: Seq<usize>,
}

/// Model of the environment: the cell table owning every value, the modules,
/// the unique-symbol counter, and the output log written by printing forms.
pub ghost struct VEnv {
    pub cells: Seq<VObj>,
    pub modules: Seq<VMod>,
    pub gen_sym: nat,
    pub output: Seq<Seq<char>>,
}

/// Every index in `ids` addresses one of `n` cells.
pub open spec fn ids_ok(ids: Seq<usize>, n: nat) -> bool {
    forall|i: int| 0 <= i < ids.len() ==> (#[trigger] ids[i]) < n
}

/// Every cell index held inside `o` addresses one of `n` cells.
pub open spec fn vobj_wf(o: VObj, n: nat) -> bool {
    match o {
        VObj::List(ids) => ids_ok(ids, n),
        VObj::Quote(c) => c < n,
        VObj::FnNative(l) => ids_ok(l.params, n) && ids_ok(l.body, n),
        VObj::FnMacro(l) => ids_ok(l.params, n) && ids_ok(l.body, n),
        _ => true,
    }
}

/// Every index held by the module is in range: symbol cells and body cells
/// among `n` cells, imports among `m` modules.
pub open spec fn vmod_wf(md: VMod, n: nat, m: nat) -> bool {
    &&& forall|i: int| 0 <= i < md.symbols.len() ==> (#[trigger] md.symbols[i]).1 < n
    &&& forall|i: int| 0 <= i < md.imports.len() ==> (#[trigger] md.imports[i]) < m
    &&& ids_ok(md.body, n)
}

/// The name of the module every environment starts from.
pub open spec fn prelude_name() -> Seq<char> {
    "prelude"@
}

/// Well-formed environment: every stored value and module is well-formed and
/// the prelude module sits at index zero.
pub open spec fn venv_wf(e: VEnv) -> bool {
    &&& forall|i: int| 0 <= i < e.cells.len() ==> vobj_wf(#[trigger] e.cells[i], e.cells.len())
    &&& forall|i: int|
        0 <= i < e.modules.len() ==> vmod_wf(
            #[trigger] e.modules[i],
            e.cells.len(),
            e.modules.len(),
        )
    &&& e.modules.len() >= 1
    &&& e.modules[0].name == prelude_name()
}

/// Whether a value dispatches as a call when it heads a non-empty list.
pub open spec fn vobj_is_callable(o: VObj) -> bool {
    o is FnStatic || o is FnNative || o is FnBridge || o is FnMacro
}

/// A value whose evaluation is itself: anything but a non-empty list.
pub open spec fn self_evaluating(o: VObj) -> bool {
    match o {
        VObj::List(ids) => ids.len() == 0,
        _ => true,
    }
}

/// Index-range facts survive growing the cell table.
pub proof fn lemma_ids_ok_grow(ids: Seq<usize>, n: nat, m: nat)
    requires
        ids_ok(ids, n),
        n <= m,
    ensures
        ids_ok(ids, m),
{
}

/// Value well-formedness survives growing the cell table.
pub proof fn lemma_vobj_wf_grow(o: VObj, n: nat, m: nat)
    requires
        vobj_wf(o, n),
        n <= m,
    ensures
        vobj_wf(o, m),
{
    match o {
        VObj::List(ids) => lemma_ids_ok_grow(ids, n, m),
        VObj::FnNative(l) => {
            lemma_ids_ok_grow(l.params, n, m);
            lemma_ids_ok_grow(l.body, n, m);
        },
        VObj::FnMacro(l) => {
            lemma_ids_ok_grow(l.params, n, m);
            lemma_ids_ok_grow(l.body, n, m);
        },
        _ => {},
    }
}

} // verus!
