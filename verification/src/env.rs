//! The environment: the cell table that owns every value, the named modules,
//! the unique-symbol counter and the output log, with symbol interning and
//! lookup across import chains.

use vstd::prelude::*;
use crate::err::{JtsErr, JtsErrType};
use crate::model::{venv_wf, vobj_wf, VEnv, VMod, VObj, lemma_vobj_wf_grow, prelude_name};
use crate::modules::{s_sym_lookup, s_sym_name, Mod};
use crate::objects::Obj;
use crate::strings::{fmt_u64, parse_usize, spec_digits, spec_parse_usize};

verus! {

/// The reserved unique-symbol prefix: every generated name starts with it.
pub open spec fn gen_prefix() -> Seq<char> {
    seq!['G', 'E', 'N', '#']
}

/// The reserved unique-symbol name issued when the counter stands at `g`.
pub open spec fn unique_sym_text(g: nat) -> Seq<char> {
    gen_prefix() + spec_digits((g - 1) as nat)
}

/// How the unique-symbol counter advances: by one, until the machine word
/// is exhausted.
pub open spec fn s_gen_next(g: nat) -> nat {
    if g < usize::MAX as nat {
        g + 1
    } else {
        g
    }
}

/// Whether `s` collides with the reserved unique-symbol naming scheme: the
/// reserved letters appear somewhere and everything after the prefix reads
/// as a counter value.
pub open spec fn s_is_unique_form(s: Seq<char>) -> bool {
    &&& exists|k: int|
        0 <= k && k + 3 <= s.len() && #[trigger] s[k] == 'G' && s[k + 1] == 'E' && s[k + 2] == 'N'
    &&& s.len() >= 4
    &&& spec_parse_usize(s.skip(4)) is Some
}

/// The index of the first module from position `i` on named `name`.
pub open spec fn s_mod_find_from(mods: Seq<VMod>, i: int, name: Seq<char>) -> Option<usize>
    decreases mods.len() - i,
{
    if i < 0 || i >= mods.len() {
        None
    } else if mods[i].name == name {
        Some(i as usize)
    } else {
        s_mod_find_from(mods, i + 1, name)
    }
}

/// The index of the first module named `name`.
pub open spec fn s_mod_find(mods: Seq<VMod>, name: Seq<char>) -> Option<usize> {
    s_mod_find_from(mods, 0, name)
}

/// The first import of `imps` from position `i` on whose own table binds
/// `name`, searched in declared order.
pub open spec fn s_import_lookup(e: VEnv, imps: Seq<usize>, i: int, name: Seq<char>) -> Option<
    usize,
>
    decreases imps.len() - i,
{
    if i < 0 || i >= imps.len() {
        None
    } else if imps[i] >= e.modules.len() {
        None
    } else {
        match s_sym_lookup(e.modules[imps[i] as int].symbols, name) {
            Some(c) => Some(c),
            None => s_import_lookup(e, imps, i + 1, name),
        }
    }
}

/// Lookup scoped to module `m`: its own table first, then each import in
/// declared order, first match winning.
pub open spec fn s_lookup_in(e: VEnv, m: int, name: Seq<char>) -> Option<usize> {
    if 0 <= m < e.modules.len() {
        match s_sym_lookup(e.modules[m].symbols, name) {
            Some(c) => Some(c),
            None => s_import_lookup(e, e.modules[m].imports, 0, name),
        }
    } else {
        None
    }
}

/// Global lookup: the first module from `m` on that resolves `name`, each
/// through its own table and imports.
pub open spec fn s_env_lookup(e: VEnv, m: int, name: Seq<char>) -> Option<usize>
    decreases e.modules.len() - m,
{
    if m < 0 || m >= e.modules.len() {
        None
    } else {
        match s_lookup_in(e, m, name) {
            Some(c) => Some(c),
            None => s_env_lookup(e, m + 1, name),
        }
    }
}

/// The first name any module binds to `cell`, modules in order.
pub open spec fn s_env_sym_name(e: VEnv, m: int, cell: usize) -> Option<Seq<char>>
    decreases e.modules.len() - m,
{
    if m < 0 || m >= e.modules.len() {
        None
    } else {
        match s_sym_name(e.modules[m].symbols, cell) {
            Some(n) => Some(n),
            None => s_env_sym_name(e, m + 1, cell),
        }
    }
}

/// What interning does: a fresh cell is always pushed; a symbol equal to the
/// currently reserved unique name advances the counter, any other name in
/// the reserved form is `DisallowedSymbol`; then the binding goes into the
/// named module unless the module is missing or the name already bound.
pub open spec fn s_add_symbol_to(e: VEnv, mod_name: Seq<char>, sym: Seq<char>, v: VObj) -> (
    VEnv,
    Result<usize, JtsErrType>,
) {
    let id = e.cells.len() as usize;
    let e1 = VEnv { cells: e.cells.push(v), ..e };
    if sym == unique_sym_text(e.gen_sym) {
        let e2 = VEnv { gen_sym: s_gen_next(e1.gen_sym), ..e1 };
        s_bind_in_module(e2, mod_name, sym, id)
    } else if s_is_unique_form(sym) {
        (e1, Err(JtsErrType::DisallowedSymbol))
    } else {
        s_bind_in_module(e1, mod_name, sym, id)
    }
}

/// The final step of interning: the binding goes into the named module's own
/// table, first failing on a missing module or an already-bound name.
pub open spec fn s_bind_in_module(e: VEnv, mod_name: Seq<char>, sym: Seq<char>, id: usize) -> (
    VEnv,
    Result<usize, JtsErrType>,
) {
    match s_mod_find(e.modules, mod_name) {
        None => (e, Err(JtsErrType::MissingModule)),
        Some(m) => {
            if s_sym_lookup(e.modules[m as int].symbols, sym) is Some {
                (e, Err(JtsErrType::DuplicateSymbol))
            } else {
                let md = e.modules[m as int];
                let md2 = VMod { symbols: md.symbols.push((sym, id)), ..md };
                (VEnv { modules: e.modules.update(m as int, md2), ..e }, Ok(id))
            }
        },
    }
}

/// What generating a hidden symbol does: the currently reserved unique name
/// is taken, the counter advances, a fresh cell holds the value, and the
/// binding goes into the prelude module.
pub open spec fn s_generate_symbol(e: VEnv, v: VObj) -> (VEnv, Result<usize, JtsErrType>) {
    let sym = unique_sym_text(e.gen_sym);
    let id = e.cells.len() as usize;
    let e1 = VEnv { cells: e.cells.push(v), gen_sym: s_gen_next(e.gen_sym), ..e };
    s_bind_in_module(e1, prelude_name(), sym, id)
}

/// What creating a module does: a taken name is `DuplicateModule`; otherwise
/// an empty module is appended, importing the prelude when asked to.
pub open spec fn s_add_module(e: VEnv, name: Seq<char>, prelude: bool) -> (
    VEnv,
    Result<(), JtsErrType>,
) {
    if s_mod_find(e.modules, name) is Some {
        (e, Err(JtsErrType::DuplicateModule))
    } else {
        let imports: Seq<usize> = if prelude {
            seq![0usize]
        } else {
            Seq::empty()
        };
        let md = VMod {
            name: name,
            symbols: Seq::empty(),
            imports: imports,
            body: Seq::empty(),
        };
        (VEnv { modules: e.modules.push(md), ..e }, Ok(()))
    }
}

/// A successful table lookup lands among the cells.
pub proof fn lemma_sym_lookup_range(syms: Seq<(Seq<char>, usize)>, name: Seq<char>, n: nat)
    requires
        forall|j: int| 0 <= j < syms.len() ==> (#[trigger] syms[j]).1 < n,
    ensures
        s_sym_lookup(syms, name) matches Some(c) ==> c < n,
    decreases syms.len(),
{
    if syms.len() > 0 && syms[0].0 != name {
        assert(forall|j: int|
            0 <= j < syms.skip(1).len() ==> (#[trigger] syms.skip(1)[j]).1 < n);
        lemma_sym_lookup_range(syms.skip(1), name, n);
    }
}

/// A successful import-chain lookup lands among the cells.
pub proof fn lemma_import_lookup_range(e: VEnv, imps: Seq<usize>, i: int, name: Seq<char>)
    requires
        venv_wf(e),
    ensures
        s_import_lookup(e, imps, i, name) matches Some(c) ==> c < e.cells.len(),
    decreases imps.len() - i,
{
    if 0 <= i < imps.len() && imps[i] < e.modules.len() {
        assert(crate::model::vmod_wf(e.modules[imps[i] as int], e.cells.len(), e.modules.len()));
        lemma_sym_lookup_range(e.modules[imps[i] as int].symbols, name, e.cells.len());
        lemma_import_lookup_range(e, imps, i + 1, name);
    }
}

/// A successful scoped lookup lands among the cells.
pub proof fn lemma_lookup_in_range(e: VEnv, m: int, name: Seq<char>)
    requires
        venv_wf(e),
    ensures
        s_lookup_in(e, m, name) matches Some(c) ==> c < e.cells.len(),
{
    if 0 <= m < e.modules.len() {
        assert(crate::model::vmod_wf(e.modules[m], e.cells.len(), e.modules.len()));
        lemma_sym_lookup_range(e.modules[m].symbols, name, e.cells.len());
        lemma_import_lookup_range(e, e.modules[m].imports, 0, name);
    }
}

/// A successful global lookup lands among the cells.
pub proof fn lemma_env_lookup_range(e: VEnv, m: int, name: Seq<char>)
    requires
        venv_wf(e),
    ensures
        s_env_lookup(e, m, name) matches Some(c) ==> c < e.cells.len(),
    decreases e.modules.len() - m,
{
    if 0 <= m < e.modules.len() {
        lemma_lookup_in_range(e, m, name);
        lemma_env_lookup_range(e, m + 1, name);
    }
}

/// The environment owning all modules and cells. The `symbols` vector is the
/// cell table: a cell is an index into it, and every alias of a cell is that
/// index held elsewhere.
pub struct Env {
    pub symbols: Vec<Obj>,
    pub modules: Vec<Mod>,
    pub gen_sym: usize,
    pub curr_unique_sym: String,
    pub output: Vec<String>,
}

impl View for Env {
    type V = VEnv;

    open spec fn view(&self) -> VEnv {
        VEnv {
            cells: self.symbols@.map_values(|o: Obj| o@),
            modules: self.modules@.map_values(|m: Mod| m@),
            gen_sym: self.gen_sym as nat,
            output: self.output@.map_values(|s: String| s@),
        }
    }
}

impl Env {
    /// The ties between the runtime state and its model: the model is
    /// well-formed and the cached unique-symbol text matches the counter.
    pub open spec fn inv(&self) -> bool {
        &&& venv_wf(self@)
        &&& self.gen_sym >= 1
        &&& self.curr_unique_sym@ == unique_sym_text(self@.gen_sym)
    }

    /// A reference to the value in cell `id`.
    pub fn cell_ref(&self, id: usize) -> (r: &Obj)
        requires
            id < self@.cells.len(),
        ensures
            r@ == self@.cells[id as int],
    {
        &self.symbols[id]
    }

    /// A copy of the value in cell `id`.
    pub fn cell_clone(&self, id: usize) -> (r: Obj)
        requires
            id < self@.cells.len(),
        ensures
            r@ == self@.cells[id as int],
    {
        self.symbols[id].clone()
    }

    /// Overwrites cell `id` in place; every alias of the cell sees the new
    /// value.
    pub fn set_cell(&mut self, id: usize, v: Obj)
        requires
            old(self).inv(),
            id < old(self)@.cells.len(),
            vobj_wf(v@, old(self)@.cells.len()),
        ensures
            final(self).inv(),
            final(self)@ == (VEnv { cells: old(self)@.cells.update(id as int, v@), ..old(self)@ }),
    {
        self.symbols[id] = v;
        proof {
            assert(self@.cells =~= old(self)@.cells.update(id as int, v@));
            assert(self@ == (VEnv {
                cells: old(self)@.cells.update(id as int, v@),
                ..old(self)@
            }));
        }
    }

    /// Appends a fresh cell holding `v` and returns its index.
    pub fn push_cell(&mut self, v: Obj) -> (id: usize)
        requires
            old(self).inv(),
            vobj_wf(v@, old(self)@.cells.len() + 1),
        ensures
            final(self).inv(),
            id == old(self)@.cells.len(),
            final(self)@ == (VEnv { cells: old(self)@.cells.push(v@), ..old(self)@ }),
    {
        let id = self.symbols.len();
        self.symbols.push(v);
        proof {
            assert(self@.cells =~= old(self)@.cells.push(v@));
            assert(self@ == (VEnv { cells: old(self)@.cells.push(v@), ..old(self)@ }));
            let e = self@;
            assert forall|i: int| 0 <= i < e.cells.len() implies vobj_wf(
                #[trigger] e.cells[i],
                e.cells.len(),
            ) by {
                if i < old(self)@.cells.len() {
                    lemma_vobj_wf_grow(e.cells[i], old(self)@.cells.len(), e.cells.len());
                }
            }
            assert forall|i: int| 0 <= i < e.modules.len() implies crate::model::vmod_wf(
                #[trigger] e.modules[i],
                e.cells.len(),
                e.modules.len(),
            ) by {
                assert(crate::model::vmod_wf(e.modules[i], old(self)@.cells.len(), e.modules.len()));
            }
        }
        id
    }

    /// Appends one chunk to the output log.
    pub fn push_output(&mut self, s: String)
        requires
            old(self).inv(),
        ensures
            final(self).inv(),
            final(self)@ == (VEnv { output: old(self)@.output.push(s@), ..old(self)@ }),
    {
        self.output.push(s);
        proof {
            assert(self@.output =~= old(self)@.output.push(s@));
            assert(self@ == (VEnv { output: old(self)@.output.push(s@), ..old(self)@ }));
        }
    }

    /// The index of the first module named `mod_id`, or `MissingModule`.
    pub fn module(&self, mod_id: &String) -> (r: JtsErr<usize>)
        ensures
            match r {
                Ok(m) => s_mod_find(self@.modules, mod_id@) == Some(m) && m < self@.modules.len(),
                Err(e) => s_mod_find(self@.modules, mod_id@) is None && e
                    == JtsErrType::MissingModule,
            },
    {
        let ghost mods = self@.modules;
        let mut i: usize = 0;
        while i < self.modules.len()
            invariant
                i <= self.modules.len(),
                self.modules@.len() == mods.len(),
                mods == self@.modules,
                s_mod_find(mods, mod_id@) == s_mod_find_from(mods, i as int, mod_id@),
            decreases self.modules.len() - i,
        {
            proof {
                assert(mods[i as int] == self.modules@[i as int]@);
            }
            if self.modules[i].name.eq(mod_id) {
                return Ok(i);
            }
            i = i + 1;
        }
        Err(JtsErrType::MissingModule)
    }

    /// Lookup scoped to module `m`: own table first, then each import in
    /// declared order.
    pub fn lookup_in(&self, m: usize, symbol: &String) -> (r: Option<usize>)
        requires
            venv_wf(self@),
            m < self@.modules.len(),
        ensures
            r == s_lookup_in(self@, m as int, symbol@),
    {
        let ghost e = self@;
        proof {
            assert(e.modules[m as int] == self.modules@[m as int]@);
        }
        match self.modules[m].symbol(symbol) {
            Some(c) => Some(c),
            None => {
                let imports = &self.modules[m].imports;
                let ghost imps = e.modules[m as int].imports;
                let mut i: usize = 0;
                while i < imports.len()
                    invariant
                        venv_wf(e),
                        s_sym_lookup(e.modules[m as int].symbols, symbol@) is None,
                        i <= imports.len(),
                        imports@ == imps,
                        e == self@,
                        m < e.modules.len(),
                        imps == e.modules[m as int].imports,
                        imports == &self.modules@[m as int].imports,
                        s_import_lookup(e, imps, 0, symbol@) == s_import_lookup(
                            e,
                            imps,
                            i as int,
                            symbol@,
                        ),
                    decreases imports.len() - i,
                {
                    let im = imports[i];
                    proof {
                        assert(crate::model::vmod_wf(
                            e.modules[m as int],
                            e.cells.len(),
                            e.modules.len(),
                        ));
                        assert(imps[i as int] < e.modules.len());
                        assert(e.modules[im as int] == self.modules@[im as int]@);
                    }
                    match self.modules[im].symbol(symbol) {
                        Some(c) => {
                            return Some(c);
                        },
                        None => {},
                    }
                    i = i + 1;
                }
                None
            },
        }
    }

    /// Global lookup across every module in order, or `MissingSymbol`.
    pub fn symbol(&self, symbol: &String) -> (r: JtsErr<usize>)
        requires
            venv_wf(self@),
        ensures
            match r {
                Ok(c) => s_env_lookup(self@, 0, symbol@) == Some(c),
                Err(e) => s_env_lookup(self@, 0, symbol@) is None && e
                    == JtsErrType::MissingSymbol,
            },
    {
        let mut m: usize = 0;
        while m < self.modules.len()
            invariant
                venv_wf(self@),
                m <= self.modules@.len(),
                self.modules@.len() == self@.modules.len(),
                s_env_lookup(self@, 0, symbol@) == s_env_lookup(self@, m as int, symbol@),
            decreases self.modules.len() - m,
        {
            match self.lookup_in(m, symbol) {
                Some(c) => {
                    return Ok(c);
                },
                None => {},
            }
            m = m + 1;
        }
        Err(JtsErrType::MissingSymbol)
    }

    /// The first name any module binds to `cell`, searching modules in
    /// order.
    pub fn symbol_id(&self, cell: usize) -> (r: Option<String>)
        ensures
            match r {
                Some(n) => s_env_sym_name(self@, 0, cell) == Some(n@),
                None => s_env_sym_name(self@, 0, cell) is None,
            },
    {
        let mut m: usize = 0;
        while m < self.modules.len()
            invariant
                m <= self.modules@.len(),
                self.modules@.len() == self@.modules.len(),
                s_env_sym_name(self@, 0, cell) == s_env_sym_name(self@, m as int, cell),
            decreases self.modules.len() - m,
        {
            proof {
                assert(self@.modules[m as int] == self.modules@[m as int]@);
            }
            match self.modules[m].symbol_id(cell) {
                Some(n) => {
                    return Some(n);
                },
                None => {},
            }
            m = m + 1;
        }
        None
    }

    /// Whether `symbol` collides with the reserved unique-symbol naming
    /// scheme.
    pub fn is_unique_symbol_form(symbol: &String) -> (r: bool)
        ensures
            r == s_is_unique_form(symbol@),
    {
        let s = symbol.as_str();
        let n = s.unicode_len();
        if n < 4 {
            return false;
        }
        let mut found = false;
        let mut k: usize = 0;
        while k <= n - 3 && !found
            invariant
                n >= 4,
                k <= n,
                n == s@.len(),
                found ==> exists|j: int|
                    0 <= j && j + 3 <= s@.len() && #[trigger] s@[j] == 'G' && s@[j + 1] == 'E'
                        && s@[j + 2] == 'N',
                !found ==> forall|j: int|
                    0 <= j < k && j + 3 <= s@.len() ==> !(#[trigger] s@[j] == 'G' && s@[j + 1]
                        == 'E' && s@[j + 2] == 'N'),
            decreases n - k + (if found { 0int } else { 1int }),
        {
            if s.get_char(k) == 'G' && s.get_char(k + 1) == 'E' && s.get_char(k + 2) == 'N' {
                found = true;
            } else {
                k = k + 1;
            }
        }
        if !found || n < 4 {
            return false;
        }
        let rest = s.substring_char(4, n);
        parse_usize(rest).is_some()
    }

    /// The currently reserved unique-symbol name.
    pub fn unique_symbol(&self) -> (r: String)
        requires
            self.inv(),
        ensures
            r@ == unique_sym_text(self@.gen_sym),
    {
        self.curr_unique_sym.clone()
    }

    /// Advances the counter and caches the newly reserved name.
    fn gen_unique_symbol(&mut self)
        requires
            old(self).inv(),
        ensures
            final(self).inv(),
            final(self)@ == (VEnv { gen_sym: s_gen_next(old(self)@.gen_sym), ..old(self)@ }),
    {
        if self.gen_sym < usize::MAX {
            self.gen_sym = self.gen_sym + 1;
        }
        proof {
            reveal_strlit("GEN#");
            assert("GEN#"@ =~= gen_prefix());
        }
        let text = String::from_str("GEN#");
        self.curr_unique_sym = text.concat(fmt_u64((self.gen_sym - 1) as u64).as_str());
        proof {
            assert(self.curr_unique_sym@ == unique_sym_text(self@.gen_sym));
            assert(self@ == (VEnv { gen_sym: s_gen_next(old(self)@.gen_sym), ..old(self)@ }));
        }
    }

    /// Interns `symbol` in the prelude module with the given value.
    pub fn add_symbol(&mut self, symbol: &str, value: Obj) -> (r: JtsErr<usize>)
        requires
            old(self).inv(),
            vobj_wf(value@, old(self)@.cells.len() + 1),
        ensures
            final(self).inv(),
            ({
                let (e2, rr) = s_add_symbol_to(old(self)@, prelude_name(), symbol@, value@);
                final(self)@ == e2 && r == rr
            }),
    {
        let mod_id = String::from_str("prelude");
        let sym = String::from_str(symbol);
        proof {
            reveal_strlit("prelude");
            assert(mod_id@ =~= prelude_name());
        }
        self.add_symbol_to(&mod_id, &sym, value)
    }

    /// Interns `symbol` in the named module with the given value: a fresh
    /// cell always appears; the currently reserved unique name advances the
    /// counter; any other name in the reserved form is `DisallowedSymbol`;
    /// a missing module or an already-bound name fails after the cell push.
    pub fn add_symbol_to(&mut self, mod_id: &String, symbol: &String, value: Obj) -> (r: JtsErr<
        usize,
    >)
        requires
            old(self).inv(),
            vobj_wf(value@, old(self)@.cells.len() + 1),
        ensures
            final(self).inv(),
            ({
                let (e2, rr) = s_add_symbol_to(old(self)@, mod_id@, symbol@, value@);
                final(self)@ == e2 && r == rr
            }),
    {
        let id = self.push_cell(value);
        if symbol.eq(&self.curr_unique_sym) {
            self.gen_unique_symbol();
        } else if Env::is_unique_symbol_form(symbol) {
            return Err(JtsErrType::DisallowedSymbol);
        }
        self.bind_in_module(mod_id, symbol, id)
    }

    /// Binds an existing cell under `symbol` in the named module's table.
    fn bind_in_module(&mut self, mod_id: &String, symbol: &String, id: usize) -> (r: JtsErr<usize>)
        requires
            old(self).inv(),
            id < old(self)@.cells.len(),
        ensures
            final(self).inv(),
            ({
                let (e2, rr) = s_bind_in_module(old(self)@, mod_id@, symbol@, id);
                final(self)@ == e2 && r == rr
            }),
    {
        let m = match self.module(mod_id) {
            Ok(m) => m,
            Err(e) => {
                return Err(e);
            },
        };
        proof {
            assert(self@.modules[m as int] == self.modules@[m as int]@);
        }
        let res = self.modules[m].add_symbol(symbol, id);
        match res {
            Ok(_) => {
                proof {
                    let md = old(self)@.modules[m as int];
                    let md2 = VMod { symbols: md.symbols.push((symbol@, id)), ..md };
                    assert(self@.modules =~= old(self)@.modules.update(m as int, md2));
                    assert(self@ == (VEnv {
                        modules: old(self)@.modules.update(m as int, md2),
                        ..old(self)@
                    }));
                    let e = self@;
                    assert forall|i: int| 0 <= i < e.modules.len() implies crate::model::vmod_wf(
                        #[trigger] e.modules[i],
                        e.cells.len(),
                        e.modules.len(),
                    ) by {
                        assert(crate::model::vmod_wf(
                            old(self)@.modules[i],
                            e.cells.len(),
                            e.modules.len(),
                        ));
                        if i == m {
                            assert(forall|j: int|
                                0 <= j < e.modules[i].symbols.len() ==> (
                                #[trigger] e.modules[i].symbols[j]).1 < e.cells.len());
                        }
                    }
                }
                Ok(id)
            },
            Err(e) => {
                proof {
                    assert(self@.modules =~= old(self)@.modules);
                    assert(self@ == old(self)@);
                }
                Err(e)
            },
        }
    }

    /// Generates a guaranteed-fresh hidden symbol holding `value` in the
    /// prelude module and returns its cell.
    pub fn generate_symbol(&mut self, value: Obj) -> (r: JtsErr<usize>)
        requires
            old(self).inv(),
            vobj_wf(value@, old(self)@.cells.len() + 1),
        ensures
            final(self).inv(),
            ({
                let (e2, rr) = s_generate_symbol(old(self)@, value@);
                final(self)@ == e2 && r == rr
            }),
    {
        let symbol = self.unique_symbol();
        let id = self.push_cell(value);
        self.gen_unique_symbol();
        let mod_id = String::from_str("prelude");
        proof {
            reveal_strlit("prelude");
            assert(mod_id@ =~= prelude_name());
        }
        self.bind_in_module(&mod_id, &symbol, id)
    }

    /// Creates an empty module under a globally unique name, importing the
    /// prelude when `prelude` is set; a taken name is `DuplicateModule`.
    pub fn add_module(&mut self, mod_id: &String, prelude: bool) -> (r: JtsErr)
        requires
            old(self).inv(),
        ensures
            final(self).inv(),
            ({
                let (e2, rr) = s_add_module(old(self)@, mod_id@, prelude);
                final(self)@ == e2 && r == rr
            }),
    {
        match self.module(mod_id) {
            Ok(_) => Err(JtsErrType::DuplicateModule),
            Err(_) => {
                let mut md = Mod::new(mod_id.clone());
                if prelude {
                    let res = md.add_import(0);
                    proof {
                        assert(md@.imports =~= seq![0usize]);
                    }
                }
                self.modules.push(md);
                proof {
                    let mdv = md@;
                    assert(self@.modules =~= old(self)@.modules.push(mdv));
                    assert(self@ == (VEnv {
                        modules: old(self)@.modules.push(mdv),
                        ..old(self)@
                    }));
                    let e = self@;
                    assert forall|i: int| 0 <= i < e.modules.len() implies crate::model::vmod_wf(
                        #[trigger] e.modules[i],
                        e.cells.len(),
                        e.modules.len(),
                    ) by {
                        if i < old(self)@.modules.len() {
                            assert(crate::model::vmod_wf(
                                old(self)@.modules[i],
                                e.cells.len(),
                                old(self)@.modules.len(),
                            ));
                        }
                    }
                }
                Ok(())
            },
        }
    }
}

} // verus!
