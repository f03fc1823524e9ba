//! The error taxonomy shared by every fallible operation of the interpreter,
//! and small helpers that turn `bool` and `Option` states into results.

use vstd::prelude::*;

verus! {

/// Every failure the interpreter can report. Each fallible step returns its
/// error to the caller; nothing is caught inside the core.
#[derive(Debug, Clone, PartialEq, Eq)]
pub enum JtsErrType {
    /// an underlying file or stream failure, wrapped and not interpreted
    IoErr(String),
    /// symbol not found in the current context
    MissingSymbol,
    /// the symbol is already defined
    DuplicateSymbol,
    /// user code tried to declare a name in the reserved unique-symbol form
    DisallowedSymbol,
    /// module not found in the current context
    MissingModule,
    /// the module name or import is already registered
    DuplicateModule,
    /// counts of '(' and ')' do not balance during reading
    UnbalancedParentheses,
    /// the operand's tag does not support the requested operation
    MismatchedType,
    /// the two operands cannot be compared
    UncomparableType,
    /// the value cannot be cast into the requested type
    ErrCastType,
    /// assignment to a constant value
    ConstAssign,
    /// an index beyond the collection's length
    OutOfBounds,
    /// parameter and argument counts do not match in a bind
    UnmatchedParamLists,
    /// placement of a reader operator is erroneous
    ErrSpecialOp,
    /// access to an uninitialized environment
    UninitEnv,
    /// a runtime assertion failed
    RuntimeAssert,
    /// a list head is not one of the callable kinds
    NonCallable,
    /// no entry module or body was found to run
    NoEntry,
    /// the evaluation step budget ran out
    StepLimit,
}

pub type JtsErr<T = ()> = Result<T, JtsErrType>;

/// Converts the state of a `bool` or the presence of an `Option` into a
/// result carrying a chosen error.
pub trait AsResult<U>: Sized {
    /// Whether `ok` should be returned rather than `err`.
    spec fn holds(&self) -> bool;

    /// The value carried when the state holds.
    spec fn carried(self) -> U;

    /// `Ok(ok)` when the state holds, `Err(err)` otherwise.
    fn as_result<O>(&self, ok: O, err: JtsErrType) -> (r: Result<O, JtsErrType>)
        ensures
            self.holds() ==> r == Ok::<O, JtsErrType>(ok),
            !self.holds() ==> r == Err::<O, JtsErrType>(err),
    ;

    /// `Ok(ok)` when the state does not hold, `Err(err)` otherwise.
    fn as_result_rev<O>(&self, ok: O, err: JtsErrType) -> (r: Result<O, JtsErrType>)
        ensures
            !self.holds() ==> r == Ok::<O, JtsErrType>(ok),
            self.holds() ==> r == Err::<O, JtsErrType>(err),
    ;

    /// The carried value when the state holds, `Err(err)` otherwise.
    fn into_result(self, err: JtsErrType) -> (r: Result<U, JtsErrType>)
        ensures
            self.holds() ==> r == Ok::<U, JtsErrType>(self.carried()),
            !self.holds() ==> r == Err::<U, JtsErrType>(err),
    ;

    /// `Ok(())` when the state holds, `Err(err)` otherwise.
    fn assert_holds(&self, err: JtsErrType) -> (r: Result<(), JtsErrType>)
        ensures
            self.holds() ==> r == Ok::<(), JtsErrType>(()),
            !self.holds() ==> r == Err::<(), JtsErrType>(err),
    ;
}

impl AsResult<bool> for bool {
    open spec fn holds(&self) -> bool {
        *self
    }

    open spec fn carried(self) -> bool {
        self
    }

    fn as_result<O>(&self, ok: O, err: JtsErrType) -> (r: Result<O, JtsErrType>) {
        if *self {
            Ok(ok)
        } else {
            Err(err)
        }
    }

    fn as_result_rev<O>(&self, ok: O, err: JtsErrType) -> (r: Result<O, JtsErrType>) {
        if !*self {
            Ok(ok)
        } else {
            Err(err)
        }
    }

    fn into_result(self, err: JtsErrType) -> (r: Result<bool, JtsErrType>) {
        if self {
            Ok(self)
        } else {
            Err(err)
        }
    }

    fn assert_holds(&self, err: JtsErrType) -> (r: Result<(), JtsErrType>) {
        if *self {
            Ok(())
        } else {
            Err(err)
        }
    }
}

impl<T> AsResult<T> for Option<T> {
    open spec fn holds(&self) -> bool {
        self is Some
    }

    open spec fn carried(self) -> T {
        self->Some_0
    }

    fn as_result<O>(&self, ok: O, err: JtsErrType) -> (r: Result<O, JtsErrType>) {
        match self {
            Some(_) => Ok(ok),
            None => Err(err),
        }
    }

    fn as_result_rev<O>(&self, ok: O, err: JtsErrType) -> (r: Result<O, JtsErrType>) {
        match self {
            Some(_) => Err(err),
            None => Ok(ok),
        }
    }

    fn into_result(self, err: JtsErrType) -> (r: Result<T, JtsErrType>) {
        match self {
            Some(v) => Ok(v),
            None => Err(err),
        }
    }

    fn assert_holds(&self, err: JtsErrType) -> (r: Result<(), JtsErrType>) {
        match self {
            Some(_) => Ok(()),
            None => Err(err),
        }
    }
}

} // verus!
