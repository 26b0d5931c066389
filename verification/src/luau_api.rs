//! What the functions of the first configuration runtime decide on the
//! values a script hands them: the bounds of number and length types, and
//! the components of vectors.
use vstd::prelude::*;
use crate::nums::NumberKind;
use crate::num::{Num, num_lt};
use crate::range::Range;
use crate::shared::whole;
use crate::types::{NumberType, Type, VectorType};

verus! {

/// The bound `n` is refused for `kind`: it is neither above the least value
/// of the kind nor below the greatest (as `f64`s compare, which only NaN
/// fails).
pub open spec fn out_of_bounds(kind: NumberKind, n: Num) -> bool {
    !(num_lt(kind.spec_min(), n) || num_lt(n, kind.spec_max()))
}

/// The bounds are given in the wrong order.
pub open spec fn crossed(min: Option<Num>, max: Option<Num>) -> bool {
    match (min, max) {
        (Some(a), Some(b)) => num_lt(b, a),
        _ => false,
    }
}

/// The number type of `kind` with the bounds `min` and `max`, or the
/// message that refuses them, the lower bound looked at first.
pub open spec fn number_s(kind: NumberKind, min: Option<Num>, max: Option<Num>) -> Result<NumberType, Seq<char>> {
    if min is Some && out_of_bounds(kind, min->0) {
        Err("range minimum out of bounds"@)
    } else if max is Some && out_of_bounds(kind, max->0) {
        Err("range maximum out of bounds"@)
    } else if crossed(min, max) {
        Err("range minimum cannot be greater than maximum"@)
    } else {
        Ok(NumberType { kind, range: Range { min, max } })
    }
}

/// The bounds of a length, or the message that refuses them.
pub open spec fn len_range_s(min: Option<Num>, max: Option<Num>) -> Result<Range, Seq<char>> {
    if min is Some && num_lt(min->0, whole(false, 0)) {
        Err("length minimum cannot be negative"@)
    } else if max is Some && num_lt(max->0, whole(false, 0)) {
        Err("length maximum cannot be negative"@)
    } else if crossed(min, max) {
        Err("length minimum cannot be greater than maximum"@)
    } else {
        Ok(Range { min, max })
    }
}

/// The kinds that a vector component cannot be.
pub open spec fn is_wide(k: NumberKind) -> bool {
    k is F64 || k is NaNF64
}

/// The vector of the components handed over, or the message that refuses
/// them.
pub open spec fn vector_s(x: Type, y: Type, z: Option<Type>) -> Result<VectorType, Seq<char>> {
    match (x, y, z) {
        (Type::Number(a), Type::Number(b), Some(Type::Number(c))) => if is_wide(a.kind) || is_wide(
            b.kind,
        ) || is_wide(c.kind) {
            Err("vector components cannot be f64 or NaNF64"@)
        } else {
            Ok(VectorType { x: a, y: b, z: Some(c) })
        },
        (Type::Number(a), Type::Number(b), None) => if is_wide(a.kind) || is_wide(b.kind) {
            Err("vector components cannot be f64 or NaNF64"@)
        } else {
            Ok(VectorType { x: a, y: b, z: None })
        },
        _ => Err("all vector components must be number types"@),
    }
}

fn refused(kind: NumberKind, n: &Num) -> (r: bool)
    ensures
        r == out_of_bounds(kind, *n),
{
    !(kind.min().lt(n) || n.lt(&kind.max()))
}

fn bounds_crossed(min: Option<Num>, max: Option<Num>) -> (r: bool)
    ensures
        r == crossed(min, max),
{
    match (min, max) {
        (Some(a), Some(b)) => b.lt(&a),
        _ => false,
    }
}

/// The number type that `zap.u8`, `zap.f64` and the like make: of `kind`,
/// with the bounds they are handed.
pub fn number(kind: NumberKind, min: Option<Num>, max: Option<Num>) -> (r: Result<Type, String>)
    ensures
        match number_s(kind, min, max) {
            Ok(n) => r == Ok::<Type, String>(Type::Number(n)),
            Err(m) => r matches Err(e) && e@ == m,
        },
{
    if let Some(a) = min {
        if refused(kind, &a) {
            return Err(String::from_str("range minimum out of bounds"));
        }
    }
    if let Some(b) = max {
        if refused(kind, &b) {
            return Err(String::from_str("range maximum out of bounds"));
        }
    }
    if bounds_crossed(min, max) {
        return Err(String::from_str("range minimum cannot be greater than maximum"));
    }
    Ok(Type::Number(NumberType { kind, range: Range { min, max } }))
}

/// The bounds of the length of a string, array, set or map.
pub fn len_range(min: Option<Num>, max: Option<Num>) -> (r: Result<Range, String>)
    ensures
        match len_range_s(min, max) {
            Ok(l) => r == Ok::<Range, String>(l),
            Err(m) => r matches Err(e) && e@ == m,
        },
{
    let zero = Num::from_u64(0);
    if let Some(a) = min {
        if a.lt(&zero) {
            return Err(String::from_str("length minimum cannot be negative"));
        }
    }
    if let Some(b) = max {
        if b.lt(&zero) {
            return Err(String::from_str("length maximum cannot be negative"));
        }
    }
    if bounds_crossed(min, max) {
        return Err(String::from_str("length minimum cannot be greater than maximum"));
    }
    Ok(Range { min, max })
}

fn wide(k: NumberKind) -> (r: bool)
    ensures
        r == is_wide(k),
{
    match k {
        NumberKind::F64 | NumberKind::NaNF64 => true,
        _ => false,
    }
}

/// The vector type of components `x`, `y` and, when there is one, `z`.
pub fn vector(x: &Type, y: &Type, z: Option<&Type>) -> (r: Result<Type, String>)
    ensures
        match vector_s(*x, *y, match z {
            Some(t) => Some(*t),
            None => None,
        }) {
            Ok(v) => r == Ok::<Type, String>(Type::Vector(v)),
            Err(m) => r matches Err(e) && e@ == m,
        },
{
    match (x, y, z) {
        (Type::Number(a), Type::Number(b), Some(Type::Number(c))) => {
            if wide(a.kind) || wide(b.kind) || wide(c.kind) {
                Err(String::from_str("vector components cannot be f64 or NaNF64"))
            } else {
                Ok(Type::Vector(VectorType { x: *a, y: *b, z: Some(*c) }))
            }
        },
        (Type::Number(a), Type::Number(b), None) => {
            if wide(a.kind) || wide(b.kind) {
                Err(String::from_str("vector components cannot be f64 or NaNF64"))
            } else {
                Ok(Type::Vector(VectorType { x: *a, y: *b, z: None }))
            }
        },
        _ => Err(String::from_str("all vector components must be number types")),
    }
}

} // verus!
