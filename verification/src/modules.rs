//! A module: a named symbol table mapping names to cells, an ordered import
//! list, and an optional program body.

use vstd::prelude::*;
use crate::err::{JtsErr, JtsErrType};
use crate::model::VMod;
use crate::objects::Node;

verus! {

/// A named symbol table plus imports and an optional body node.
pub struct Mod {
    pub name: String,
    pub symbols: Vec<(String, usize)>,
    pub imports: Vec<usize>,
    pub body: Node,
}

impl View for Mod {
    type V = VMod;

    open spec fn view(&self) -> VMod {
        VMod {
            name: self.name@,
            symbols: self.symbols@.map_values(|p: (String, usize)| (p.0@, p.1)),
            imports: self.imports@,
            body: self.body@,
        }
    }
}

/// The cell bound to `name` in a symbol table, first match winning.
pub open spec fn s_sym_lookup(syms: Seq<(Seq<char>, usize)>, name: Seq<char>) -> Option<usize>
    decreases syms.len(),
{
    if syms.len() == 0 {
        None
    } else if syms[0].0 == name {
        Some(syms[0].1)
    } else {
        s_sym_lookup(syms.skip(1), name)
    }
}

/// The first name bound to `cell` in a symbol table.
pub open spec fn s_sym_name(syms: Seq<(Seq<char>, usize)>, cell: usize) -> Option<Seq<char>>
    decreases syms.len(),
{
    if syms.len() == 0 {
        None
    } else if syms[0].1 == cell {
        Some(syms[0].0)
    } else {
        s_sym_name(syms.skip(1), cell)
    }
}

impl Mod {
    /// A fresh module with the given name and nothing in it.
    pub fn new(name: String) -> (r: Self)
        ensures
            r@ == (VMod {
                name: name@,
                symbols: Seq::<(Seq<char>, usize)>::empty(),
                imports: Seq::<usize>::empty(),
                body: Seq::<usize>::empty(),
            }),
    {
        let r = Mod { name, symbols: Vec::new(), imports: Vec::new(), body: Node::default() };
        proof {
            assert(r.symbols@.map_values(|p: (String, usize)| (p.0@, p.1)) =~= Seq::<(
                Seq<char>,
                usize,
            )>::empty());
        }
        r
    }

    /// Appends `module` to the import list; importing the same module twice
    /// is `DuplicateModule`.
    pub fn add_import(&mut self, module: usize) -> (r: JtsErr)
        ensures
            old(self)@.imports.contains(module) ==> r == Err::<(), JtsErrType>(
                JtsErrType::DuplicateModule,
            ) && final(self)@ == old(self)@,
            !old(self)@.imports.contains(module) ==> r == Ok::<(), JtsErrType>(()) && final(self)@
                == (VMod { imports: old(self)@.imports.push(module), ..old(self)@ }),
    {
        let mut i: usize = 0;
        while i < self.imports.len()
            invariant
                i <= self.imports.len(),
                forall|k: int| 0 <= k < i ==> self.imports@[k] != module,
                self == old(self),
            decreases self.imports.len() - i,
        {
            if self.imports[i] == module {
                return Err(JtsErrType::DuplicateModule);
            }
            i = i + 1;
        }
        self.imports.push(module);
        Ok(())
    }

    /// The cell bound to `symbol` in this module's own table.
    pub fn symbol(&self, symbol: &String) -> (r: Option<usize>)
        ensures
            r == s_sym_lookup(self@.symbols, symbol@),
    {
        let ghost syms = self@.symbols;
        proof {
            assert(syms.skip(0) =~= syms);
        }
        let mut i: usize = 0;
        while i < self.symbols.len()
            invariant
                i <= self.symbols.len(),
                self.symbols@.len() == syms.len(),
                syms == self@.symbols,
                s_sym_lookup(syms, symbol@) == s_sym_lookup(syms.skip(i as int), symbol@),
            decreases self.symbols.len() - i,
        {
            proof {
                assert(syms[i as int] == (self.symbols@[i as int].0@, self.symbols@[i as int].1));
            }
            if self.symbols[i].0.eq(symbol) {
                assert(syms.skip(i as int)[0] == syms[i as int]);
                return Some(self.symbols[i].1);
            }
            proof {
                assert(syms.skip(i as int)[0] == syms[i as int]);
                assert(syms.skip(i as int).skip(1) =~= syms.skip(i + 1));
            }
            i = i + 1;
        }
        None
    }

    /// Binds `symbol` to `value` in this module's own table; an existing
    /// binding of the name is `DuplicateSymbol`.
    pub fn add_symbol(&mut self, symbol: &String, value: usize) -> (r: JtsErr)
        ensures
            s_sym_lookup(old(self)@.symbols, symbol@) is Some ==> r == Err::<(), JtsErrType>(
                JtsErrType::DuplicateSymbol,
            ) && final(self)@ == old(self)@,
            s_sym_lookup(old(self)@.symbols, symbol@) is None ==> r == Ok::<(), JtsErrType>(())
                && final(self)@ == (VMod {
                symbols: old(self)@.symbols.push((symbol@, value)),
                ..old(self)@
            }),
    {
        if self.symbol(symbol).is_some() {
            return Err(JtsErrType::DuplicateSymbol);
        }
        self.symbols.push((symbol.clone(), value));
        proof {
            assert(self@.symbols =~= old(self)@.symbols.push((symbol@, value)));
        }
        Ok(())
    }

    /// Installs `body` as this module's program body.
    pub fn add_body(&mut self, body: Node)
        ensures
            final(self)@ == (VMod { body: body@, ..old(self)@ }),
    {
        self.body = body;
    }

    /// The first name this module binds to `cell`, if any.
    pub fn symbol_id(&self, cell: usize) -> (r: Option<String>)
        ensures
            match r {
                Some(name) => s_sym_name(self@.symbols, cell) == Some(name@),
                None => s_sym_name(self@.symbols, cell) is None,
            },
    {
        let ghost syms = self@.symbols;
        proof {
            assert(syms.skip(0) =~= syms);
        }
        let mut i: usize = 0;
        while i < self.symbols.len()
            invariant
                i <= self.symbols.len(),
                self.symbols@.len() == syms.len(),
                syms == self@.symbols,
                s_sym_name(syms, cell) == s_sym_name(syms.skip(i as int), cell),
            decreases self.symbols.len() - i,
        {
            proof {
                assert(syms[i as int] == (self.symbols@[i as int].0@, self.symbols@[i as int].1));
            }
            if self.symbols[i].1 == cell {
                assert(syms.skip(i as int)[0] == syms[i as int]);
                return Some(self.symbols[i].0.clone());
            }
            proof {
                assert(syms.skip(i as int)[0] == syms[i as int]);
                assert(syms.skip(i as int).skip(1) =~= syms.skip(i + 1));
            }
            i = i + 1;
        }
        None
    }

    /// A clone of this module's body node.
    pub fn body(&self) -> (r: Node)
        ensures
            r@ == self@.body,
    {
        self.body.clone()
    }
}

} // verus!
