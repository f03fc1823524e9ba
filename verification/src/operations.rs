//! In-place arithmetic on runtime values — the operand is coerced to the
//! receiver's numeric kind, the result wraps — and the value comparisons.

use vstd::prelude::*;
use crate::err::{JtsErr, JtsErrType};
use crate::model::VObj;
use crate::objects::{s_as_i32, s_as_i64, s_as_u32, s_as_u64, s_num, Obj};

verus! {

/// The magnitude of an integer.
pub open spec fn abs_int(a: int) -> nat {
    if a < 0 {
        (-a) as nat
    } else {
        a as nat
    }
}

/// Division truncated toward zero, as machine signed division behaves.
pub open spec fn tdiv(a: int, b: int) -> int {
    let q = (abs_int(a) / abs_int(b)) as int;
    if (a < 0) != (b < 0) {
        -q
    } else {
        q
    }
}

/// Remainder with the dividend's sign, as machine signed remainder behaves.
pub open spec fn tmod(a: int, b: int) -> int {
    let r = (abs_int(a) % abs_int(b)) as int;
    if a < 0 {
        -r
    } else {
        r
    }
}

/// What adding `b` into receiver `a` yields: the operand coerced to the
/// receiver's numeric kind, the sum truncated to that kind; a non-numeric
/// receiver is `MismatchedType`, a non-numeric operand `ErrCastType`.
pub open spec fn s_add(a: VObj, b: VObj) -> Result<VObj, JtsErrType> {
    match a {
        VObj::U32(x) => match s_as_u32(b) {
            Ok(y) => Ok(VObj::U32((x + y) as u32)),
            Err(e) => Err(e),
        },
        VObj::U64(x) => match s_as_u64(b) {
            Ok(y) => Ok(VObj::U64((x + y) as u64)),
            Err(e) => Err(e),
        },
        VObj::I32(x) => match s_as_i32(b) {
            Ok(y) => Ok(VObj::I32((x + y) as i32)),
            Err(e) => Err(e),
        },
        VObj::I64(x) => match s_as_i64(b) {
            Ok(y) => Ok(VObj::I64((x + y) as i64)),
            Err(e) => Err(e),
        },
        _ => Err(JtsErrType::MismatchedType),
    }
}

/// What subtracting `b` from receiver `a` yields; see `s_add`.
pub open spec fn s_sub(a: VObj, b: VObj) -> Result<VObj, JtsErrType> {
    match a {
        VObj::U32(x) => match s_as_u32(b) {
            Ok(y) => Ok(VObj::U32((x - y) as u32)),
            Err(e) => Err(e),
        },
        VObj::U64(x) => match s_as_u64(b) {
            Ok(y) => Ok(VObj::U64((x - y) as u64)),
            Err(e) => Err(e),
        },
        VObj::I32(x) => match s_as_i32(b) {
            Ok(y) => Ok(VObj::I32((x - y) as i32)),
            Err(e) => Err(e),
        },
        VObj::I64(x) => match s_as_i64(b) {
            Ok(y) => Ok(VObj::I64((x - y) as i64)),
            Err(e) => Err(e),
        },
        _ => Err(JtsErrType::MismatchedType),
    }
}

/// What multiplying receiver `a` by `b` yields; see `s_add`.
pub open spec fn s_mul(a: VObj, b: VObj) -> Result<VObj, JtsErrType> {
    match a {
        VObj::U32(x) => match s_as_u32(b) {
            Ok(y) => Ok(VObj::U32((x * y) as u32)),
            Err(e) => Err(e),
        },
        VObj::U64(x) => match s_as_u64(b) {
            Ok(y) => Ok(VObj::U64((x * y) as u64)),
            Err(e) => Err(e),
        },
        VObj::I32(x) => match s_as_i32(b) {
            Ok(y) => Ok(VObj::I32((x * y) as i32)),
            Err(e) => Err(e),
        },
        VObj::I64(x) => match s_as_i64(b) {
            Ok(y) => Ok(VObj::I64((x * y) as i64)),
            Err(e) => Err(e),
        },
        _ => Err(JtsErrType::MismatchedType),
    }
}

/// What dividing receiver `a` by `b` yields: truncated division, and a
/// coerced divisor of zero is `MismatchedType`; see `s_add`.
pub open spec fn s_div(a: VObj, b: VObj) -> Result<VObj, JtsErrType> {
    match a {
        VObj::U32(x) => match s_as_u32(b) {
            Ok(y) => if y == 0 {
                Err(JtsErrType::MismatchedType)
            } else {
                Ok(VObj::U32((x / y) as u32))
            },
            Err(e) => Err(e),
        },
        VObj::U64(x) => match s_as_u64(b) {
            Ok(y) => if y == 0 {
                Err(JtsErrType::MismatchedType)
            } else {
                Ok(VObj::U64((x / y) as u64))
            },
            Err(e) => Err(e),
        },
        VObj::I32(x) => match s_as_i32(b) {
            Ok(y) => if y == 0 {
                Err(JtsErrType::MismatchedType)
            } else {
                Ok(VObj::I32(tdiv(x as int, y as int) as i32))
            },
            Err(e) => Err(e),
        },
        VObj::I64(x) => match s_as_i64(b) {
            Ok(y) => if y == 0 {
                Err(JtsErrType::MismatchedType)
            } else {
                Ok(VObj::I64(tdiv(x as int, y as int) as i64))
            },
            Err(e) => Err(e),
        },
        _ => Err(JtsErrType::MismatchedType),
    }
}

/// What the remainder of receiver `a` by `b` yields: the dividend's sign,
/// and a coerced divisor of zero is `MismatchedType`; see `s_add`.
pub open spec fn s_modulos(a: VObj, b: VObj) -> Result<VObj, JtsErrType> {
    match a {
        VObj::U32(x) => match s_as_u32(b) {
            Ok(y) => if y == 0 {
                Err(JtsErrType::MismatchedType)
            } else {
                Ok(VObj::U32((x % y) as u32))
            },
            Err(e) => Err(e),
        },
        VObj::U64(x) => match s_as_u64(b) {
            Ok(y) => if y == 0 {
                Err(JtsErrType::MismatchedType)
            } else {
                Ok(VObj::U64((x % y) as u64))
            },
            Err(e) => Err(e),
        },
        VObj::I32(x) => match s_as_i32(b) {
            Ok(y) => if y == 0 {
                Err(JtsErrType::MismatchedType)
            } else {
                Ok(VObj::I32(tmod(x as int, y as int) as i32))
            },
            Err(e) => Err(e),
        },
        VObj::I64(x) => match s_as_i64(b) {
            Ok(y) => if y == 0 {
                Err(JtsErrType::MismatchedType)
            } else {
                Ok(VObj::I64(tmod(x as int, y as int) as i64))
            },
            Err(e) => Err(e),
        },
        _ => Err(JtsErrType::MismatchedType),
    }
}

/// What comparing `a` and `b` for equality yields: matching booleans or
/// strings compare directly, two numeric values compare by value across
/// kinds, and anything else is `UncomparableType`.
pub open spec fn s_eq(a: VObj, b: VObj) -> Result<bool, JtsErrType> {
    match (a, b) {
        (VObj::Bool(x), VObj::Bool(y)) => Ok(x == y),
        (VObj::Str(x), VObj::Str(y)) => Ok(x == y),
        _ => match (s_num(a), s_num(b)) {
            (Some(x), Some(y)) => Ok(x == y),
            _ => Err(JtsErrType::UncomparableType),
        },
    }
}

/// What `a < b` yields: defined for numeric pairs only.
pub open spec fn s_le(a: VObj, b: VObj) -> Result<bool, JtsErrType> {
    match (s_num(a), s_num(b)) {
        (Some(x), Some(y)) => Ok(x < y),
        _ => Err(JtsErrType::UncomparableType),
    }
}

/// What `a <= b` yields: defined for numeric pairs only.
pub open spec fn s_le_eq(a: VObj, b: VObj) -> Result<bool, JtsErrType> {
    match (s_num(a), s_num(b)) {
        (Some(x), Some(y)) => Ok(x <= y),
        _ => Err(JtsErrType::UncomparableType),
    }
}

/// The magnitude of `x` as an unsigned value, avoiding overflow on the
/// smallest value.
fn mag_i32(x: i32) -> (r: u64)
    ensures
        r == abs_int(x as int),
{
    if x >= 0 {
        x as u64
    } else {
        ((-(x + 1)) as u64) + 1
    }
}

/// The magnitude of `x` as an unsigned value, avoiding overflow on the
/// smallest value.
fn mag_i64(x: i64) -> (r: u64)
    ensures
        r == abs_int(x as int),
{
    if x >= 0 {
        x as u64
    } else {
        ((-(x + 1)) as u64) + 1
    }
}

/// Truncated signed division via magnitudes.
fn div_i32(x: i32, y: i32) -> (r: i32)
    requires
        y != 0,
    ensures
        r == tdiv(x as int, y as int) as i32,
{
    let q = mag_i32(x) / mag_i32(y);
    let v: i64 = if (x < 0) != (y < 0) {
        -(q as i64)
    } else {
        q as i64
    };
    #[verifier::truncate] (v as i32)
}

/// Truncated signed division via magnitudes.
fn div_i64(x: i64, y: i64) -> (r: i64)
    requires
        y != 0,
    ensures
        r == tdiv(x as int, y as int) as i64,
{
    let q = mag_i64(x) / mag_i64(y);
    let v: i128 = if (x < 0) != (y < 0) {
        -(q as i128)
    } else {
        q as i128
    };
    #[verifier::truncate] (v as i64)
}

/// Signed remainder with the dividend's sign, via magnitudes.
fn mod_i32(x: i32, y: i32) -> (r: i32)
    requires
        y != 0,
    ensures
        r == tmod(x as int, y as int) as i32,
{
    let m = mag_i32(x) % mag_i32(y);
    let v: i64 = if x < 0 {
        -(m as i64)
    } else {
        m as i64
    };
    #[verifier::truncate] (v as i32)
}

/// Signed remainder with the dividend's sign, via magnitudes.
fn mod_i64(x: i64, y: i64) -> (r: i64)
    requires
        y != 0,
    ensures
        r == tmod(x as int, y as int) as i64,
{
    let m = mag_i64(x) % mag_i64(y);
    let v: i128 = if x < 0 {
        -(m as i128)
    } else {
        m as i128
    };
    #[verifier::truncate] (v as i64)
}

impl Obj {
    /// Adds `other`, coerced to this value's numeric kind, in place.
    pub fn add(&mut self, other: Obj) -> (r: JtsErr)
        ensures
            match s_add(old(self)@, other@) {
                Ok(v) => r == Ok::<(), JtsErrType>(()) && final(self)@ == v,
                Err(e) => r == Err::<(), JtsErrType>(e) && final(self)@ == old(self)@,
            },
    {
        match self {
            Obj::U32(x) => {
                let y = other.as_u32()?;
                *x = #[verifier::truncate] ((*x as u64 + y as u64) as u32);
                Ok(())
            },
            Obj::U64(x) => {
                let y = other.as_u64()?;
                *x = #[verifier::truncate] ((*x as u128 + y as u128) as u64);
                Ok(())
            },
            Obj::I32(x) => {
                let y = other.as_i32()?;
                *x = #[verifier::truncate] ((*x as i64 + y as i64) as i32);
                Ok(())
            },
            Obj::I64(x) => {
                let y = other.as_i64()?;
                *x = #[verifier::truncate] ((*x as i128 + y as i128) as i64);
                Ok(())
            },
            _ => Err(JtsErrType::MismatchedType),
        }
    }

    /// Subtracts `other`, coerced to this value's numeric kind, in place.
    pub fn sub(&mut self, other: Obj) -> (r: JtsErr)
        ensures
            match s_sub(old(self)@, other@) {
                Ok(v) => r == Ok::<(), JtsErrType>(()) && final(self)@ == v,
                Err(e) => r == Err::<(), JtsErrType>(e) && final(self)@ == old(self)@,
            },
    {
        match self {
            Obj::U32(x) => {
                let y = other.as_u32()?;
                *x = #[verifier::truncate] ((*x as i64 - y as i64) as u32);
                Ok(())
            },
            Obj::U64(x) => {
                let y = other.as_u64()?;
                *x = #[verifier::truncate] ((*x as i128 - y as i128) as u64);
                Ok(())
            },
            Obj::I32(x) => {
                let y = other.as_i32()?;
                *x = #[verifier::truncate] ((*x as i64 - y as i64) as i32);
                Ok(())
            },
            Obj::I64(x) => {
                let y = other.as_i64()?;
                *x = #[verifier::truncate] ((*x as i128 - y as i128) as i64);
                Ok(())
            },
            _ => Err(JtsErrType::MismatchedType),
        }
    }

    /// Multiplies by `other`, coerced to this value's numeric kind, in place.
    pub fn mul(&mut self, other: Obj) -> (r: JtsErr)
        ensures
            match s_mul(old(self)@, other@) {
                Ok(v) => r == Ok::<(), JtsErrType>(()) && final(self)@ == v,
                Err(e) => r == Err::<(), JtsErrType>(e) && final(self)@ == old(self)@,
            },
    {
        match self {
            Obj::U32(x) => {
                let y = other.as_u32()?;
                let a = *x as u64;
                let b = y as u64;
                proof {
                    assert(a * b <= u64::MAX) by (nonlinear_arith)
                        requires
                            a <= u32::MAX,
                            b <= u32::MAX,
                    ;
                }
                *x = #[verifier::truncate] ((a * b) as u32);
                Ok(())
            },
            Obj::U64(x) => {
                let y = other.as_u64()?;
                let a = *x as u128;
                let b = y as u128;
                proof {
                    assert(a * b <= u128::MAX) by (nonlinear_arith)
                        requires
                            a <= u64::MAX,
                            b <= u64::MAX,
                    ;
                }
                *x = #[verifier::truncate] ((a * b) as u64);
                Ok(())
            },
            Obj::I32(x) => {
                let y = other.as_i32()?;
                let a = *x as i64;
                let b = y as i64;
                proof {
                    assert(i64::MIN <= a * b <= i64::MAX) by (nonlinear_arith)
                        requires
                            i32::MIN <= a <= i32::MAX,
                            i32::MIN <= b <= i32::MAX,
                    ;
                }
                *x = #[verifier::truncate] ((a * b) as i32);
                Ok(())
            },
            Obj::I64(x) => {
                let y = other.as_i64()?;
                let a = *x as i128;
                let b = y as i128;
                proof {
                    assert(i128::MIN <= a * b <= i128::MAX) by (nonlinear_arith)
                        requires
                            i64::MIN <= a <= i64::MAX,
                            i64::MIN <= b <= i64::MAX,
                    ;
                }
                *x = #[verifier::truncate] ((a * b) as i64);
                Ok(())
            },
            _ => Err(JtsErrType::MismatchedType),
        }
    }

    /// Divides by `other`, coerced to this value's numeric kind, in place;
    /// a coerced divisor of zero is an error rather than a fault.
    pub fn div(&mut self, other: Obj) -> (r: JtsErr)
        ensures
            match s_div(old(self)@, other@) {
                Ok(v) => r == Ok::<(), JtsErrType>(()) && final(self)@ == v,
                Err(e) => r == Err::<(), JtsErrType>(e) && final(self)@ == old(self)@,
            },
    {
        match self {
            Obj::U32(x) => {
                let y = other.as_u32()?;
                if y == 0 {
                    return Err(JtsErrType::MismatchedType);
                }
                *x = *x / y;
                Ok(())
            },
            Obj::U64(x) => {
                let y = other.as_u64()?;
                if y == 0 {
                    return Err(JtsErrType::MismatchedType);
                }
                *x = *x / y;
                Ok(())
            },
            Obj::I32(x) => {
                let y = other.as_i32()?;
                if y == 0 {
                    return Err(JtsErrType::MismatchedType);
                }
                *x = div_i32(*x, y);
                Ok(())
            },
            Obj::I64(x) => {
                let y = other.as_i64()?;
                if y == 0 {
                    return Err(JtsErrType::MismatchedType);
                }
                *x = div_i64(*x, y);
                Ok(())
            },
            _ => Err(JtsErrType::MismatchedType),
        }
    }

    /// Takes the remainder by `other`, coerced to this value's numeric kind,
    /// in place; a coerced divisor of zero is an error rather than a fault.
    pub fn modulos(&mut self, other: Obj) -> (r: JtsErr)
        ensures
            match s_modulos(old(self)@, other@) {
                Ok(v) => r == Ok::<(), JtsErrType>(()) && final(self)@ == v,
                Err(e) => r == Err::<(), JtsErrType>(e) && final(self)@ == old(self)@,
            },
    {
        match self {
            Obj::U32(x) => {
                let y = other.as_u32()?;
                if y == 0 {
                    return Err(JtsErrType::MismatchedType);
                }
                *x = *x % y;
                Ok(())
            },
            Obj::U64(x) => {
                let y = other.as_u64()?;
                if y == 0 {
                    return Err(JtsErrType::MismatchedType);
                }
                *x = *x % y;
                Ok(())
            },
            Obj::I32(x) => {
                let y = other.as_i32()?;
                if y == 0 {
                    return Err(JtsErrType::MismatchedType);
                }
                *x = mod_i32(*x, y);
                Ok(())
            },
            Obj::I64(x) => {
                let y = other.as_i64()?;
                if y == 0 {
                    return Err(JtsErrType::MismatchedType);
                }
                *x = mod_i64(*x, y);
                Ok(())
            },
            _ => Err(JtsErrType::MismatchedType),
        }
    }

    /// The numeric value as a wide signed integer, for cross-kind compares.
    fn num_i128(&self) -> (r: Option<i128>)
        ensures
            match r {
                Some(v) => s_num(self@) == Some(v as int),
                None => s_num(self@) is None,
            },
    {
        match self {
            Obj::U32(x) => Some(*x as i128),
            Obj::U64(x) => Some(*x as i128),
            Obj::I32(x) => Some(*x as i128),
            Obj::I64(x) => Some(*x as i128),
            _ => None,
        }
    }

    /// Compares for equality: matching booleans or strings, or any two
    /// numeric values by value; others cannot be compared.
    pub fn eq(&self, other: &Obj) -> (r: JtsErr<bool>)
        ensures
            r == s_eq(self@, other@),
    {
        match (self, other) {
            (Obj::Bool(x), Obj::Bool(y)) => Ok(*x == *y),
            (Obj::Str(x), Obj::Str(y)) => Ok(x.eq(y)),
            _ => match (self.num_i128(), other.num_i128()) {
                (Some(x), Some(y)) => Ok(x == y),
                _ => Err(JtsErrType::UncomparableType),
            },
        }
    }

    /// Strictly-less comparison, defined for numeric pairs only.
    pub fn le(&self, other: &Obj) -> (r: JtsErr<bool>)
        ensures
            r == s_le(self@, other@),
    {
        match (self.num_i128(), other.num_i128()) {
            (Some(x), Some(y)) => Ok(x < y),
            _ => Err(JtsErrType::UncomparableType),
        }
    }

    /// Less-or-equal comparison, defined for numeric pairs only.
    pub fn le_eq(&self, other: &Obj) -> (r: JtsErr<bool>)
        ensures
            r == s_le_eq(self@, other@),
    {
        match (self.num_i128(), other.num_i128()) {
            (Some(x), Some(y)) => Ok(x <= y),
            _ => Err(JtsErrType::UncomparableType),
        }
    }
}

} // verus!
