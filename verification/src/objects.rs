//! The runtime value: a closed tagged union that serves as literal, list
//! data, call form and callable, plus the ordered cell sequence `Node` that
//! doubles as AST node and list value.

use vstd::prelude::*;
use crate::err::{JtsErr, JtsErrType};
use crate::model::{VLambda, VObj};
use crate::strings::{parse_i32, spec_parse_i32};

verus! {

/// The host-implemented primitives and special forms, dispatched by name
/// from the prelude's symbol table.
#[derive(Clone, Copy, PartialEq, Eq, Structural, Debug)]
pub enum Bridge {
    Add,
    Sub,
    Mul,
    Div,
    Modulos,
    CmpEq,
    CmpLe,
    CmpLeEq,
    CmpGt,
    CmpGtEq,
    Assign,
    Defun,
    DefMacro,
    LetScope,
    Do,
    If,
    Loop,
    Quote,
    Eval,
    Gensym,
    RtAssert,
    RtAssertEq,
    Nth,
    Append,
    Prepend,
    Insert,
    Remove,
    Replace,
    Len,
    Print,
    Println,
    Dsp,
}

/// The host functions with a fixed, statically typed parameter tuple.
#[derive(Clone, Copy, PartialEq, Eq, Structural, Debug)]
pub enum StaticFn {
    /// `(i32, i32) -> i32` addition, wrapping on overflow
    AddI32,
}

/// An ordered sequence of cells: a parsed call, a literal list, a parameter
/// list or a function body.
pub struct Node {
    pub args: Vec<usize>,
}

impl View for Node {
    type V = Seq<usize>;

    open spec fn view(&self) -> Seq<usize> {
        self.args@
    }
}

impl Clone for Node {
    fn clone(&self) -> (r: Self)
        ensures
            r@ == self@,
    {
        let mut args: Vec<usize> = Vec::new();
        let mut i: usize = 0;
        while i < self.args.len()
            invariant
                i <= self.args.len(),
                args@ == self.args@.take(i as int),
            decreases self.args.len() - i,
        {
            args.push(self.args[i]);
            proof {
                assert(args@ =~= self.args@.take(i + 1));
            }
            i = i + 1;
        }
        proof {
            assert(self.args@.take(self.args@.len() as int) =~= self.args@);
        }
        Node { args }
    }
}

impl Default for Node {
    fn default() -> (r: Self)
        ensures
            r@ == Seq::<usize>::empty(),
    {
        Node { args: Vec::new() }
    }
}

impl Node {
    /// How many cells the node holds.
    pub fn len(&self) -> (r: usize)
        ensures
            r == self@.len(),
    {
        self.args.len()
    }

    /// Whether the node holds no cells.
    pub fn is_empty(&self) -> (r: bool)
        ensures
            r == (self@.len() == 0),
    {
        self.args.is_empty()
    }

    /// The cell at index `i`, or `OutOfBounds` past the end.
    pub fn get_id(&self, i: usize) -> (r: JtsErr<usize>)
        ensures
            i < self@.len() ==> r == Ok::<usize, JtsErrType>(self@[i as int]),
            i >= self@.len() ==> r == Err::<usize, JtsErrType>(JtsErrType::OutOfBounds),
    {
        if i < self.args.len() {
            Ok(self.args[i])
        } else {
            Err(JtsErrType::OutOfBounds)
        }
    }
}

/// A user-authored function: a parameter node and a body node, both written
/// in the language itself; invocation binds, evaluates the body in order and
/// restores.
pub struct FnNative {
    pub body: Node,
    pub params: Node,
}

/// Shaped like a native function but bound to unevaluated argument cells;
/// its result is evaluated once more by the caller.
pub struct FnMacro {
    pub body: Node,
    pub params: Node,
}

/// A host-implemented primitive or special form.
pub struct FnBridge {
    pub func: Bridge,
}

/// A host function with a fixed typed argument tuple.
pub struct FnStatic {
    pub func: StaticFn,
}

impl Clone for FnNative {
    fn clone(&self) -> (r: Self)
        ensures
            r.body@ == self.body@,
            r.params@ == self.params@,
    {
        FnNative { body: self.body.clone(), params: self.params.clone() }
    }
}

impl Clone for FnMacro {
    fn clone(&self) -> (r: Self)
        ensures
            r.body@ == self.body@,
            r.params@ == self.params@,
    {
        FnMacro { body: self.body.clone(), params: self.params.clone() }
    }
}

/// A runtime value. The default value is the distinguished `Nil`.
pub enum Obj {
    U32(u32),
    U64(u64),
    I32(i32),
    I64(i64),
    Bool(bool),
    Str(String),
    List(Node),
    Quote(usize),
    FnStatic(FnStatic),
    FnNative(FnNative),
    FnBridge(FnBridge),
    FnMacro(FnMacro),
    Nil(),
}

impl View for Obj {
    type V = VObj;

    open spec fn view(&self) -> VObj {
        match self {
            Obj::U32(x) => VObj::U32(*x),
            Obj::U64(x) => VObj::U64(*x),
            Obj::I32(x) => VObj::I32(*x),
            Obj::I64(x) => VObj::I64(*x),
            Obj::Bool(x) => VObj::Bool(*x),
            Obj::Str(s) => VObj::Str(s@),
            Obj::List(n) => VObj::List(n@),
            Obj::Quote(c) => VObj::Quote(*c),
            Obj::FnStatic(f) => VObj::FnStatic(f.func),
            Obj::FnNative(f) => VObj::FnNative(VLambda { params: f.params@, body: f.body@ }),
            Obj::FnBridge(f) => VObj::FnBridge(f.func),
            Obj::FnMacro(f) => VObj::FnMacro(VLambda { params: f.params@, body: f.body@ }),
            Obj::Nil() => VObj::Nil,
        }
    }
}

impl Clone for Obj {
    fn clone(&self) -> (r: Self)
        ensures
            r@ == self@,
    {
        match self {
            Obj::U32(x) => Obj::U32(*x),
            Obj::U64(x) => Obj::U64(*x),
            Obj::I32(x) => Obj::I32(*x),
            Obj::I64(x) => Obj::I64(*x),
            Obj::Bool(x) => Obj::Bool(*x),
            Obj::Str(s) => Obj::Str(s.clone()),
            Obj::List(n) => Obj::List(n.clone()),
            Obj::Quote(c) => Obj::Quote(*c),
            Obj::FnStatic(f) => Obj::FnStatic(FnStatic { func: f.func }),
            Obj::FnNative(f) => Obj::FnNative(f.clone()),
            Obj::FnBridge(f) => Obj::FnBridge(FnBridge { func: f.func }),
            Obj::FnMacro(f) => Obj::FnMacro(f.clone()),
            Obj::Nil() => Obj::Nil(),
        }
    }
}

impl Default for Obj {
    fn default() -> (r: Self)
        ensures
            r@ == VObj::Nil,
    {
        Obj::Nil()
    }
}

/// Conversion from a plain host value into a runtime value.
pub trait TypeId: Sized {
    /// The model of the value this converts into.
    spec fn obj_of(self) -> VObj;

    /// Wraps the value as a runtime value.
    fn into_obj(self) -> (r: Obj)
        ensures
            r@ == self.obj_of(),
    ;
}

impl TypeId for u32 {
    open spec fn obj_of(self) -> VObj {
        VObj::U32(self)
    }

    fn into_obj(self) -> (r: Obj) {
        Obj::U32(self)
    }
}

impl TypeId for u64 {
    open spec fn obj_of(self) -> VObj {
        VObj::U64(self)
    }

    fn into_obj(self) -> (r: Obj) {
        Obj::U64(self)
    }
}

impl TypeId for i32 {
    open spec fn obj_of(self) -> VObj {
        VObj::I32(self)
    }

    fn into_obj(self) -> (r: Obj) {
        Obj::I32(self)
    }
}

impl TypeId for i64 {
    open spec fn obj_of(self) -> VObj {
        VObj::I64(self)
    }

    fn into_obj(self) -> (r: Obj) {
        Obj::I64(self)
    }
}

impl TypeId for bool {
    open spec fn obj_of(self) -> VObj {
        VObj::Bool(self)
    }

    fn into_obj(self) -> (r: Obj) {
        Obj::Bool(self)
    }
}

impl TypeId for String {
    open spec fn obj_of(self) -> VObj {
        VObj::Str(self@)
    }

    fn into_obj(self) -> (r: Obj) {
        Obj::Str(self)
    }
}

impl TypeId for Node {
    open spec fn obj_of(self) -> VObj {
        VObj::List(self@)
    }

    fn into_obj(self) -> (r: Obj) {
        Obj::List(self)
    }
}

impl TypeId for FnNative {
    open spec fn obj_of(self) -> VObj {
        VObj::FnNative(VLambda { params: self.params@, body: self.body@ })
    }

    fn into_obj(self) -> (r: Obj) {
        Obj::FnNative(self)
    }
}

impl TypeId for FnMacro {
    open spec fn obj_of(self) -> VObj {
        VObj::FnMacro(VLambda { params: self.params@, body: self.body@ })
    }

    fn into_obj(self) -> (r: Obj) {
        Obj::FnMacro(self)
    }
}

impl TypeId for () {
    open spec fn obj_of(self) -> VObj {
        VObj::Nil
    }

    fn into_obj(self) -> (r: Obj) {
        Obj::Nil()
    }
}

/// The numeric value a runtime value carries, when it carries one.
pub open spec fn s_num(o: VObj) -> Option<int> {
    match o {
        VObj::U32(x) => Some(x as int),
        VObj::U64(x) => Some(x as int),
        VObj::I32(x) => Some(x as int),
        VObj::I64(x) => Some(x as int),
        _ => None,
    }
}

/// Coercion of a value into `u32`: numeric values truncate to the low 32
/// bits; anything else is a cast error.
pub open spec fn s_as_u32(o: VObj) -> Result<u32, JtsErrType> {
    match s_num(o) {
        Some(v) => Ok(v as u32),
        None => Err(JtsErrType::ErrCastType),
    }
}

/// Coercion of a value into `u64`, truncating.
pub open spec fn s_as_u64(o: VObj) -> Result<u64, JtsErrType> {
    match s_num(o) {
        Some(v) => Ok(v as u64),
        None => Err(JtsErrType::ErrCastType),
    }
}

/// Coercion of a value into `i32`, truncating.
pub open spec fn s_as_i32(o: VObj) -> Result<i32, JtsErrType> {
    match s_num(o) {
        Some(v) => Ok(v as i32),
        None => Err(JtsErrType::ErrCastType),
    }
}

/// Coercion of a value into `i64`, truncating.
pub open spec fn s_as_i64(o: VObj) -> Result<i64, JtsErrType> {
    match s_num(o) {
        Some(v) => Ok(v as i64),
        None => Err(JtsErrType::ErrCastType),
    }
}

/// The unsigned value an integer-tagged value carries, negative values
/// reinterpreted in two's complement; mismatched for non-integer tags.
pub open spec fn s_is_int(o: VObj) -> Result<u64, JtsErrType> {
    match o {
        VObj::U32(x) => Ok(x as u64),
        VObj::U64(x) => Ok(x),
        VObj::I32(x) => Ok(x as u64),
        VObj::I64(x) => Ok(x as u64),
        _ => Err(JtsErrType::MismatchedType),
    }
}

impl Obj {
    /// Wraps any plain host value.
    pub fn new_const<T: TypeId>(val: T) -> (r: Obj)
        ensures
            r@ == val.obj_of(),
    {
        val.into_obj()
    }

    /// Wraps a host primitive or special form.
    pub fn new_bridge(bridge: Bridge) -> (r: Obj)
        ensures
            r@ == VObj::FnBridge(bridge),
    {
        Obj::FnBridge(FnBridge { func: bridge })
    }

    /// Wraps a host function with a fixed typed argument tuple.
    pub fn new_static(static_fn: StaticFn) -> (r: Obj)
        ensures
            r@ == VObj::FnStatic(static_fn),
    {
        Obj::FnStatic(FnStatic { func: static_fn })
    }

    /// Overwrites this value in place with a copy of `other`.
    pub fn set(&mut self, other: &Obj)
        ensures
            final(self)@ == other@,
    {
        *self = other.clone();
    }

    /// Overwrites this value in place with a converted plain value.
    pub fn set_to<T: TypeId>(&mut self, other: T)
        ensures
            final(self)@ == other.obj_of(),
    {
        *self = other.into_obj();
    }

    /// What a bare symbol token denotes before it is bound: a 32-bit integer
    /// when the text reads as one, otherwise `Nil`.
    pub open spec fn spec_from_string(s: Seq<char>) -> VObj {
        match spec_parse_i32(s) {
            Some(v) => VObj::I32(v),
            None => VObj::Nil,
        }
    }

    /// Reads a literal from symbol text: a 32-bit integer when the text
    /// parses as one, otherwise `Nil`.
    pub fn from_string(src: &String) -> (r: Obj)
        ensures
            r@ == Obj::spec_from_string(src@),
    {
        match parse_i32(src.as_str()) {
            Some(v) => Obj::I32(v),
            None => Obj::Nil(),
        }
    }

    /// Whether this value heads a call when it is first in a list.
    pub fn is_callable(&self) -> (r: bool)
        ensures
            r == crate::model::vobj_is_callable(self@),
    {
        match self {
            Obj::FnStatic(_) | Obj::FnNative(_) | Obj::FnBridge(_) | Obj::FnMacro(_) => true,
            _ => false,
        }
    }

    /// The boolean this value carries, or `MismatchedType`.
    pub fn is_bool(&self) -> (r: JtsErr<&bool>)
        ensures
            match r {
                Ok(v) => self@ == VObj::Bool(*v),
                Err(e) => !(self@ is Bool) && e == JtsErrType::MismatchedType,
            },
    {
        match self {
            Obj::Bool(x) => Ok(x),
            _ => Err(JtsErrType::MismatchedType),
        }
    }

    /// The string this value carries, or `MismatchedType`.
    pub fn is_str(&self) -> (r: JtsErr<&String>)
        ensures
            match r {
                Ok(v) => self@ == VObj::Str(v@),
                Err(e) => !(self@ is Str) && e == JtsErrType::MismatchedType,
            },
    {
        match self {
            Obj::Str(x) => Ok(x),
            _ => Err(JtsErrType::MismatchedType),
        }
    }

    /// The node this value carries, or `MismatchedType`.
    pub fn is_node(&self) -> (r: JtsErr<&Node>)
        ensures
            match r {
                Ok(v) => self@ == VObj::List(v@),
                Err(e) => !(self@ is List) && e == JtsErrType::MismatchedType,
            },
    {
        match self {
            Obj::List(x) => Ok(x),
            _ => Err(JtsErrType::MismatchedType),
        }
    }

    /// The quoted cell this value carries, or `MismatchedType`.
    pub fn is_quote(&self) -> (r: JtsErr<usize>)
        ensures
            match r {
                Ok(v) => self@ == VObj::Quote(v),
                Err(e) => !(self@ is Quote) && e == JtsErrType::MismatchedType,
            },
    {
        match self {
            Obj::Quote(x) => Ok(*x),
            _ => Err(JtsErrType::MismatchedType),
        }
    }

    /// The `u32` this value carries exactly, or `MismatchedType`.
    pub fn is_u32(&self) -> (r: JtsErr<&u32>)
        ensures
            match r {
                Ok(v) => self@ == VObj::U32(*v),
                Err(e) => !(self@ is U32) && e == JtsErrType::MismatchedType,
            },
    {
        match self {
            Obj::U32(x) => Ok(x),
            _ => Err(JtsErrType::MismatchedType),
        }
    }

    /// The `u64` this value carries exactly, or `MismatchedType`.
    pub fn is_u64(&self) -> (r: JtsErr<&u64>)
        ensures
            match r {
                Ok(v) => self@ == VObj::U64(*v),
                Err(e) => !(self@ is U64) && e == JtsErrType::MismatchedType,
            },
    {
        match self {
            Obj::U64(x) => Ok(x),
            _ => Err(JtsErrType::MismatchedType),
        }
    }

    /// The `i32` this value carries exactly, or `MismatchedType`.
    pub fn is_i32(&self) -> (r: JtsErr<&i32>)
        ensures
            match r {
                Ok(v) => self@ == VObj::I32(*v),
                Err(e) => !(self@ is I32) && e == JtsErrType::MismatchedType,
            },
    {
        match self {
            Obj::I32(x) => Ok(x),
            _ => Err(JtsErrType::MismatchedType),
        }
    }

    /// The `i64` this value carries exactly, or `MismatchedType`.
    pub fn is_i64(&self) -> (r: JtsErr<&i64>)
        ensures
            match r {
                Ok(v) => self@ == VObj::I64(*v),
                Err(e) => !(self@ is I64) && e == JtsErrType::MismatchedType,
            },
    {
        match self {
            Obj::I64(x) => Ok(x),
            _ => Err(JtsErrType::MismatchedType),
        }
    }

    /// The unsigned reinterpretation of any integer-tagged value, or
    /// `MismatchedType`.
    pub fn is_int(&self) -> (r: JtsErr<u64>)
        ensures
            r == s_is_int(self@),
    {
        match self {
            Obj::U32(x) => Ok(*x as u64),
            Obj::U64(x) => Ok(*x),
            Obj::I32(x) => Ok(#[verifier::truncate] (*x as u64)),
            Obj::I64(x) => Ok(#[verifier::truncate] (*x as u64)),
            _ => Err(JtsErrType::MismatchedType),
        }
    }

    /// Coerces any numeric value into `u32`, truncating; `ErrCastType`
    /// otherwise.
    pub fn as_u32(&self) -> (r: JtsErr<u32>)
        ensures
            r == s_as_u32(self@),
    {
        match self {
            Obj::U32(x) => Ok(*x),
            Obj::U64(x) => Ok(#[verifier::truncate] (*x as u32)),
            Obj::I32(x) => Ok(#[verifier::truncate] (*x as u32)),
            Obj::I64(x) => Ok(#[verifier::truncate] (*x as u32)),
            _ => Err(JtsErrType::ErrCastType),
        }
    }

    /// Coerces any numeric value into `u64`, truncating; `ErrCastType`
    /// otherwise.
    pub fn as_u64(&self) -> (r: JtsErr<u64>)
        ensures
            r == s_as_u64(self@),
    {
        match self {
            Obj::U32(x) => Ok(*x as u64),
            Obj::U64(x) => Ok(*x),
            Obj::I32(x) => Ok(#[verifier::truncate] (*x as u64)),
            Obj::I64(x) => Ok(#[verifier::truncate] (*x as u64)),
            _ => Err(JtsErrType::ErrCastType),
        }
    }

    /// Coerces any numeric value into `i32`, truncating; `ErrCastType`
    /// otherwise.
    pub fn as_i32(&self) -> (r: JtsErr<i32>)
        ensures
            r == s_as_i32(self@),
    {
        match self {
            Obj::U32(x) => Ok(#[verifier::truncate] (*x as i32)),
            Obj::U64(x) => Ok(#[verifier::truncate] (*x as i32)),
            Obj::I32(x) => Ok(*x),
            Obj::I64(x) => Ok(#[verifier::truncate] (*x as i32)),
            _ => Err(JtsErrType::ErrCastType),
        }
    }

    /// Coerces any numeric value into `i64`, truncating; `ErrCastType`
    /// otherwise.
    pub fn as_i64(&self) -> (r: JtsErr<i64>)
        ensures
            r == s_as_i64(self@),
    {
        match self {
            Obj::U32(x) => Ok(*x as i64),
            Obj::U64(x) => Ok(#[verifier::truncate] (*x as i64)),
            Obj::I32(x) => Ok(*x as i64),
            Obj::I64(x) => Ok(*x),
            _ => Err(JtsErrType::ErrCastType),
        }
    }
}

} // verus!
