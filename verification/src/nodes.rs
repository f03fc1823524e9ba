//! Positional access to nodes: reading, removing and iterating over the
//! cells a node holds, against the environment's cell table.

use vstd::prelude::*;
use crate::env::Env;
use crate::err::{JtsErr, JtsErrType};
use crate::model::VObj;
use crate::objects::{Node, Obj};

verus! {

/// What reading a node's element yields: the value in the cell at position
/// `i`, out of bounds past the end or for a dangling cell.
pub open spec fn s_node_get(n: Seq<usize>, cells: Seq<VObj>, i: int) -> Result<VObj, JtsErrType> {
    if 0 <= i < n.len() && n[i] < cells.len() {
        Ok(cells[n[i] as int])
    } else {
        Err(JtsErrType::OutOfBounds)
    }
}

impl Node {
    /// The value of the element cell at position `i`.
    pub fn get<'a>(&self, env: &'a Env, i: usize) -> (r: JtsErr<&'a Obj>)
        ensures
            match r {
                Ok(v) => s_node_get(self@, env@.cells, i as int) == Ok::<VObj, JtsErrType>(v@),
                Err(e) => s_node_get(self@, env@.cells, i as int) == Err::<VObj, JtsErrType>(e),
            },
    {
        if i >= self.args.len() {
            return Err(JtsErrType::OutOfBounds);
        }
        let id = self.args[i];
        if id >= env.symbols.len() {
            return Err(JtsErrType::OutOfBounds);
        }
        Ok(env.cell_ref(id))
    }

    /// Takes the element at position `i` out of the node and returns the
    /// value its cell held; the cell itself stays alive for its aliases.
    pub fn remove(&mut self, env: &Env, i: usize) -> (r: JtsErr<Obj>)
        ensures
            match r {
                Ok(v) => s_node_get(old(self)@, env@.cells, i as int) == Ok::<VObj, JtsErrType>(
                    v@,
                ) && final(self)@ == old(self)@.remove(i as int),
                Err(e) => s_node_get(old(self)@, env@.cells, i as int) == Err::<VObj, JtsErrType>(
                    e,
                ) && final(self)@ == old(self)@,
            },
    {
        if i >= self.args.len() {
            return Err(JtsErrType::OutOfBounds);
        }
        if self.args[i] >= env.symbols.len() {
            return Err(JtsErrType::OutOfBounds);
        }
        let id = self.args.remove(i);
        Ok(env.cell_clone(id))
    }

    /// An iterator positioned at `from`, sharing this node's cells.
    pub fn into_iter_from(&self, from: usize) -> (r: NodeIter)
        ensures
            r.node@ == self@,
            r.offset == from,
    {
        NodeIter { node: self.clone(), offset: from }
    }
}

/// A position over a node's cells: the caller of a form receives one of
/// these over the unevaluated argument cells.
pub struct NodeIter {
    pub node: Node,
    pub offset: usize,
}

impl NodeIter {
    /// How many cells remain from the position on.
    pub fn len(&self) -> (r: usize)
        ensures
            r == if self.offset <= self.node@.len() {
                self.node@.len() - self.offset
            } else {
                0int
            },
    {
        if self.offset <= self.node.args.len() {
            self.node.args.len() - self.offset
        } else {
            0
        }
    }

    /// Moves the position forward by one and hands back the cell it passed;
    /// stepping past the end is out of bounds but still advances.
    pub fn shift(&mut self) -> (r: JtsErr<usize>)
        ensures
            old(self).offset < old(self).node@.len() ==> r == Ok::<usize, JtsErrType>(
                old(self).node@[old(self).offset as int],
            ),
            old(self).offset >= old(self).node@.len() ==> r == Err::<usize, JtsErrType>(
                JtsErrType::OutOfBounds,
            ),
            final(self).node@ == old(self).node@,
            final(self).offset == if old(self).offset < usize::MAX {
                old(self).offset + 1
            } else {
                old(self).offset as int
            },
    {
        let r = if self.offset < self.node.args.len() {
            Ok(self.node.args[self.offset])
        } else {
            Err(JtsErrType::OutOfBounds)
        };
        if self.offset < usize::MAX {
            self.offset = self.offset + 1;
        }
        r
    }

    /// The cell at position `i` past the offset, shared with every other
    /// holder of it.
    pub fn get_shared(&self, i: usize) -> (r: JtsErr<usize>)
        ensures
            self.offset + i < self.node@.len() ==> r == Ok::<usize, JtsErrType>(
                self.node@[self.offset + i],
            ),
            self.offset + i >= self.node@.len() ==> r == Err::<usize, JtsErrType>(
                JtsErrType::OutOfBounds,
            ),
    {
        if i < self.len() {
            proof {
                vstd::std_specs::vec::axiom_spec_len(&self.node.args);
                assert(self.offset + i < self.node@.len());
            }
            Ok(self.node.args[self.offset + i])
        } else {
            Err(JtsErrType::OutOfBounds)
        }
    }

    /// The value of the cell at position `i` past the offset.
    pub fn get<'a>(&self, env: &'a Env, i: usize) -> (r: JtsErr<&'a Obj>)
        ensures
            match r {
                Ok(v) => self.offset + i < self.node@.len() && s_node_get(
                    self.node@,
                    env@.cells,
                    self.offset + i,
                ) == Ok::<VObj, JtsErrType>(v@),
                Err(e) => s_node_get(self.node@, env@.cells, self.offset + i) == Err::<
                    VObj,
                    JtsErrType,
                >(e),
            },
    {
        if i < self.len() {
            proof {
                vstd::std_specs::vec::axiom_spec_len(&self.node.args);
                assert(self.offset + i < self.node@.len());
            }
            self.node.get(env, self.offset + i)
        } else {
            Err(JtsErrType::OutOfBounds)
        }
    }

    /// A new node owning the cells from position `from` past the offset to
    /// the end; an empty one when that is past the end.
    pub fn into_node_from(&self, from: usize) -> (r: Node)
        ensures
            r@ == if self.offset + from <= self.node@.len() {
                self.node@.skip(self.offset + from)
            } else {
                Seq::<usize>::empty()
            },
    {
        let mut args: Vec<usize> = Vec::new();
        if from >= self.len() {
            proof {
                assert(args@ =~= Seq::<usize>::empty());
                if self.offset + from <= self.node@.len() {
                    assert(self.node@.skip(self.offset + from) =~= Seq::<usize>::empty());
                }
            }
            return Node { args };
        }
        proof {
            vstd::std_specs::vec::axiom_spec_len(&self.node.args);
            assert(self.offset + from < self.node@.len());
        }
        let mut k: usize = self.offset + from;
        while k < self.node.args.len()
            invariant
                self.offset + from <= k <= self.node@.len(),
                self.node@.len() == self.node.args@.len(),
                args@ == self.node@.subrange(self.offset + from, k as int),
            decreases self.node@.len() - k,
        {
            args.push(self.node.args[k]);
            proof {
                assert(args@ =~= self.node@.subrange(self.offset + from, k + 1));
            }
            k = k + 1;
        }
        proof {
            assert(args@ =~= self.node@.skip(self.offset + from));
        }
        Node { args }
    }
}

} // verus!
