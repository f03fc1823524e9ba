//! The prelude: the module every program starts from, populated with the
//! arithmetic, I/O, list and standard primitives. A fresh environment is
//! pinned down exactly by `initial_env_spec`.

use vstd::prelude::*;
use crate::env::{unique_sym_text, Env};
use crate::err::{JtsErr, JtsErrType};
use crate::model::{prelude_name, vmod_wf, VEnv, VMod, VObj};
use crate::modules::Mod;
use crate::objects::{Bridge, Obj};

verus! {

/// The values of the arithmetic primitives, in registration order.
pub open spec fn arith_cells() -> Seq<VObj> {
    seq![
        VObj::FnBridge(Bridge::Add),
        VObj::FnBridge(Bridge::Sub),
        VObj::FnBridge(Bridge::Mul),
        VObj::FnBridge(Bridge::Div),
        VObj::FnBridge(Bridge::Modulos),
    ]
}

/// The names of the arithmetic primitives, bound from cell `base` on.
pub open spec fn arith_syms(base: usize) -> Seq<(Seq<char>, usize)> {
    seq![
        ("+"@, base),
        ("-"@, (base + 1) as usize),
        ("*"@, (base + 2) as usize),
        ("/"@, (base + 3) as usize),
        ("%"@, (base + 4) as usize),
    ]
}

/// The values of the I/O primitives, in registration order.
pub open spec fn io_cells() -> Seq<VObj> {
    seq![
        VObj::FnBridge(Bridge::Dsp),
        VObj::FnBridge(Bridge::Print),
        VObj::FnBridge(Bridge::Println),
    ]
}

/// The names of the I/O primitives, bound from cell `base` on.
pub open spec fn io_syms(base: usize) -> Seq<(Seq<char>, usize)> {
    seq![("dsp"@, base), ("print"@, (base + 1) as usize), ("println"@, (base + 2) as usize)]
}

/// The values of the list primitives, in registration order.
pub open spec fn list_cells() -> Seq<VObj> {
    seq![
        VObj::FnBridge(Bridge::Nth),
        VObj::FnBridge(Bridge::Append),
        VObj::FnBridge(Bridge::Prepend),
        VObj::FnBridge(Bridge::Insert),
        VObj::FnBridge(Bridge::Remove),
        VObj::FnBridge(Bridge::Replace),
        VObj::FnBridge(Bridge::Len),
    ]
}

/// The names of the list primitives, bound from cell `base` on.
pub open spec fn list_syms(base: usize) -> Seq<(Seq<char>, usize)> {
    seq![
        ("nth"@, base),
        ("append"@, (base + 1) as usize),
        ("prepend"@, (base + 2) as usize),
        ("insert"@, (base + 3) as usize),
        ("remove"@, (base + 4) as usize),
        ("replace"@, (base + 5) as usize),
        ("len"@, (base + 6) as usize),
    ]
}

/// The values of the standard primitives, in registration order.
pub open spec fn std_cells() -> Seq<VObj> {
    seq![
        VObj::Bool(true),
        VObj::Bool(false),
        VObj::FnBridge(Bridge::Assign),
        VObj::FnBridge(Bridge::Defun),
        VObj::FnBridge(Bridge::DefMacro),
        VObj::FnBridge(Bridge::LetScope),
        VObj::FnBridge(Bridge::Do),
        VObj::FnBridge(Bridge::CmpEq),
        VObj::FnBridge(Bridge::CmpLe),
        VObj::FnBridge(Bridge::CmpLeEq),
        VObj::FnBridge(Bridge::CmpGt),
        VObj::FnBridge(Bridge::CmpGtEq),
        VObj::FnBridge(Bridge::RtAssert),
        VObj::FnBridge(Bridge::RtAssertEq),
        VObj::FnBridge(Bridge::Loop),
        VObj::FnBridge(Bridge::Gensym),
        VObj::FnBridge(Bridge::Quote),
        VObj::FnBridge(Bridge::Eval),
        VObj::FnBridge(Bridge::If),
    ]
}

/// The names of the standard primitives, bound from cell `base` on.
pub open spec fn std_syms(base: usize) -> Seq<(Seq<char>, usize)> {
    seq![
        ("T"@, base),
        ("F"@, (base + 1) as usize),
        ("set"@, (base + 2) as usize),
        ("defun"@, (base + 3) as usize),
        ("macro"@, (base + 4) as usize),
        ("let"@, (base + 5) as usize),
        ("do"@, (base + 6) as usize),
        ("="@, (base + 7) as usize),
        ("<"@, (base + 8) as usize),
        ("<="@, (base + 9) as usize),
        (">"@, (base + 10) as usize),
        (">="@, (base + 11) as usize),
        ("assert"@, (base + 12) as usize),
        ("assert-eq"@, (base + 13) as usize),
        ("loop"@, (base + 14) as usize),
        ("gensym"@, (base + 15) as usize),
        ("quote"@, (base + 16) as usize),
        ("eval"@, (base + 17) as usize),
        ("if"@, (base + 18) as usize),
    ]
}

/// The state a fresh environment is in: one prelude module whose table binds
/// every primitive name to its cell, in registration order.
pub open spec fn initial_env_spec() -> VEnv {
    let cells = arith_cells() + io_cells() + list_cells() + std_cells();
    let syms = arith_syms(0) + io_syms(5) + list_syms(8) + std_syms(15);
    VEnv {
        cells: cells,
        modules: seq![
            VMod {
                name: prelude_name(),
                symbols: syms,
                imports: Seq::empty(),
                body: Seq::empty(),
            },
        ],
        gen_sym: 1,
        output: Seq::empty(),
    }
}

impl Env {
    /// Appends one primitive: a fresh cell holding `v`, bound under `name`
    /// in the prelude's table.
    fn seed(&mut self, name: &str, v: Obj)
        requires
            old(self).inv(),
            crate::model::vobj_wf(v@, old(self)@.cells.len() + 1),
        ensures
            final(self).inv(),
            final(self)@ == (VEnv {
                cells: old(self)@.cells.push(v@),
                modules: old(self)@.modules.update(
                    0,
                    VMod {
                        symbols: old(self)@.modules[0].symbols.push(
                            (name@, old(self)@.cells.len() as usize),
                        ),
                        ..old(self)@.modules[0]
                    },
                ),
                ..old(self)@
            }),
    {
        let id = self.push_cell(v);
        proof {
            assert(self@.modules[0] == self.modules@[0]@);
        }
        let owned = String::from_str(name);
        self.modules[0].symbols.push((owned, id));
        proof {
            let md2 = VMod {
                symbols: old(self)@.modules[0].symbols.push((name@, id)),
                ..old(self)@.modules[0]
            };
            assert(self.modules@[0]@.symbols =~= md2.symbols);
            assert(self.modules@[0]@ == md2);
            assert(self@.modules =~= old(self)@.modules.update(0, md2));
            let e = self@;
            assert forall|i: int| 0 <= i < e.modules.len() implies vmod_wf(
                #[trigger] e.modules[i],
                e.cells.len(),
                e.modules.len(),
            ) by {
                assert(vmod_wf(old(self)@.modules[i], e.cells.len(), e.modules.len()) || i == 0);
                if i == 0 {
                    assert(vmod_wf(old(self)@.modules[0], e.cells.len(), e.modules.len()));
                    assert(forall|j: int|
                        0 <= j < e.modules[0].symbols.len() ==> (
                        #[trigger] e.modules[0].symbols[j]).1 < e.cells.len());
                }
            }
        }
    }

    /// Registers the arithmetic primitives in the prelude.
    pub fn arith_lib(&mut self) -> (r: JtsErr)
        requires
            old(self).inv(),
        ensures
            final(self).inv(),
            r == Ok::<(), JtsErrType>(()),
            final(self)@ == (VEnv {
                cells: old(self)@.cells + arith_cells(),
                modules: old(self)@.modules.update(
                    0,
                    VMod {
                        symbols: old(self)@.modules[0].symbols + arith_syms(
                            old(self)@.cells.len() as usize,
                        ),
                        ..old(self)@.modules[0]
                    },
                ),
                ..old(self)@
            }),
    {
        self.seed("+", Obj::new_bridge(Bridge::Add));
        self.seed("-", Obj::new_bridge(Bridge::Sub));
        self.seed("*", Obj::new_bridge(Bridge::Mul));
        self.seed("/", Obj::new_bridge(Bridge::Div));
        self.seed("%", Obj::new_bridge(Bridge::Modulos));
        proof {
            vstd::std_specs::vec::axiom_spec_len(&self.symbols);
            assert(old(self)@.cells.len() + 5 <= usize::MAX);
            let base = old(self)@.cells.len() as usize;
            assert(self@.cells =~= old(self)@.cells + arith_cells());
            assert(self@.modules[0].symbols =~= old(self)@.modules[0].symbols + arith_syms(base));
            assert(self@.modules =~= old(self)@.modules.update(
                0,
                VMod {
                    symbols: old(self)@.modules[0].symbols + arith_syms(base),
                    ..old(self)@.modules[0]
                },
            ));
        }
        Ok(())
    }

    /// Registers the printing primitives in the prelude.
    pub fn io_lib(&mut self) -> (r: JtsErr)
        requires
            old(self).inv(),
        ensures
            final(self).inv(),
            r == Ok::<(), JtsErrType>(()),
            final(self)@ == (VEnv {
                cells: old(self)@.cells + io_cells(),
                modules: old(self)@.modules.update(
                    0,
                    VMod {
                        symbols: old(self)@.modules[0].symbols + io_syms(
                            old(self)@.cells.len() as usize,
                        ),
                        ..old(self)@.modules[0]
                    },
                ),
                ..old(self)@
            }),
    {
        self.seed("dsp", Obj::new_bridge(Bridge::Dsp));
        self.seed("print", Obj::new_bridge(Bridge::Print));
        self.seed("println", Obj::new_bridge(Bridge::Println));
        proof {
            vstd::std_specs::vec::axiom_spec_len(&self.symbols);
            assert(old(self)@.cells.len() + 3 <= usize::MAX);
            let base = old(self)@.cells.len() as usize;
            assert(self@.cells =~= old(self)@.cells + io_cells());
            assert(self@.modules[0].symbols =~= old(self)@.modules[0].symbols + io_syms(base));
            assert(self@.modules =~= old(self)@.modules.update(
                0,
                VMod {
                    symbols: old(self)@.modules[0].symbols + io_syms(base),
                    ..old(self)@.modules[0]
                },
            ));
        }
        Ok(())
    }

    /// Registers the list primitives in the prelude.
    pub fn list_lib(&mut self) -> (r: JtsErr)
        requires
            old(self).inv(),
        ensures
            final(self).inv(),
            r == Ok::<(), JtsErrType>(()),
            final(self)@ == (VEnv {
                cells: old(self)@.cells + list_cells(),
                modules: old(self)@.modules.update(
                    0,
                    VMod {
                        symbols: old(self)@.modules[0].symbols + list_syms(
                            old(self)@.cells.len() as usize,
                        ),
                        ..old(self)@.modules[0]
                    },
                ),
                ..old(self)@
            }),
    {
        self.seed("nth", Obj::new_bridge(Bridge::Nth));
        self.seed("append", Obj::new_bridge(Bridge::Append));
        self.seed("prepend", Obj::new_bridge(Bridge::Prepend));
        self.seed("insert", Obj::new_bridge(Bridge::Insert));
        self.seed("remove", Obj::new_bridge(Bridge::Remove));
        self.seed("replace", Obj::new_bridge(Bridge::Replace));
        self.seed("len", Obj::new_bridge(Bridge::Len));
        proof {
            vstd::std_specs::vec::axiom_spec_len(&self.symbols);
            assert(old(self)@.cells.len() + 7 <= usize::MAX);
            let base = old(self)@.cells.len() as usize;
            assert(self@.cells =~= old(self)@.cells + list_cells());
            assert(self@.modules[0].symbols =~= old(self)@.modules[0].symbols + list_syms(base));
            assert(self@.modules =~= old(self)@.modules.update(
                0,
                VMod {
                    symbols: old(self)@.modules[0].symbols + list_syms(base),
                    ..old(self)@.modules[0]
                },
            ));
        }
        Ok(())
    }

    /// Registers the standard primitives and constants in the prelude.
    pub fn std_lib(&mut self) -> (r: JtsErr)
        requires
            old(self).inv(),
        ensures
            final(self).inv(),
            r == Ok::<(), JtsErrType>(()),
            final(self)@ == (VEnv {
                cells: old(self)@.cells + std_cells(),
                modules: old(self)@.modules.update(
                    0,
                    VMod {
                        symbols: old(self)@.modules[0].symbols + std_syms(
                            old(self)@.cells.len() as usize,
                        ),
                        ..old(self)@.modules[0]
                    },
                ),
                ..old(self)@
            }),
    {
        self.seed("T", Obj::Bool(true));
        self.seed("F", Obj::Bool(false));
        self.seed("set", Obj::new_bridge(Bridge::Assign));
        self.seed("defun", Obj::new_bridge(Bridge::Defun));
        self.seed("macro", Obj::new_bridge(Bridge::DefMacro));
        self.seed("let", Obj::new_bridge(Bridge::LetScope));
        self.seed("do", Obj::new_bridge(Bridge::Do));
        self.seed("=", Obj::new_bridge(Bridge::CmpEq));
        self.seed("<", Obj::new_bridge(Bridge::CmpLe));
        self.seed("<=", Obj::new_bridge(Bridge::CmpLeEq));
        self.seed(">", Obj::new_bridge(Bridge::CmpGt));
        self.seed(">=", Obj::new_bridge(Bridge::CmpGtEq));
        self.seed("assert", Obj::new_bridge(Bridge::RtAssert));
        self.seed("assert-eq", Obj::new_bridge(Bridge::RtAssertEq));
        self.seed("loop", Obj::new_bridge(Bridge::Loop));
        self.seed("gensym", Obj::new_bridge(Bridge::Gensym));
        self.seed("quote", Obj::new_bridge(Bridge::Quote));
        self.seed("eval", Obj::new_bridge(Bridge::Eval));
        self.seed("if", Obj::new_bridge(Bridge::If));
        proof {
            vstd::std_specs::vec::axiom_spec_len(&self.symbols);
            assert(old(self)@.cells.len() + 19 <= usize::MAX);
            let base = old(self)@.cells.len() as usize;
            assert(self@.cells =~= old(self)@.cells + std_cells());
            assert(self@.modules[0].symbols =~= old(self)@.modules[0].symbols + std_syms(base));
            assert(self@.modules =~= old(self)@.modules.update(
                0,
                VMod {
                    symbols: old(self)@.modules[0].symbols + std_syms(base),
                    ..old(self)@.modules[0]
                },
            ));
        }
        Ok(())
    }

    /// A fresh environment: the unique-symbol counter is primed and the
    /// prelude module is created and populated with every primitive.
    pub fn new() -> (r: JtsErr<Env>)
        ensures
            match r {
                Ok(env) => env.inv() && env@ == initial_env_spec(),
                Err(_) => false,
            },
    {
        proof {
            reveal_strlit("GEN#0");
            reveal_strlit("prelude");
        }
        let mut env = Env {
            symbols: Vec::new(),
            modules: Vec::new(),
            gen_sym: 1,
            curr_unique_sym: String::from_str("GEN#0"),
            output: Vec::new(),
        };
        env.modules.push(Mod::new(String::from_str("prelude")));
        proof {
            assert(env@.cells =~= Seq::<VObj>::empty());
            assert(env@.output =~= Seq::<Seq<char>>::empty());
            assert(env@.modules =~= seq![
                VMod {
                    name: "prelude"@,
                    symbols: Seq::<(Seq<char>, usize)>::empty(),
                    imports: Seq::<usize>::empty(),
                    body: Seq::<usize>::empty(),
                },
            ]);
            assert("prelude"@ =~= prelude_name());
            assert("GEN#0"@ =~= unique_sym_text(1)) by {
                crate::strings::lemma_digits_zero();
            }
        }
        let _ = env.arith_lib();
        let _ = env.io_lib();
        let _ = env.list_lib();
        let _ = env.std_lib();
        proof {
            assert(env@.cells =~= initial_env_spec().cells);
            assert(env@.modules[0].symbols =~= initial_env_spec().modules[0].symbols);
            assert(env@.modules[0] == initial_env_spec().modules[0]);
            assert(env@.modules =~= initial_env_spec().modules);
            assert(env@ == initial_env_spec());
        }
        Ok(env)
    }
}

} // verus!
