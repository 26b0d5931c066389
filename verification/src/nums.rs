//! The kinds of number of the first code generator (`ir`, `builder`,
//! `serdes`): the integer and float kinds that a buffer holds.
use vstd::prelude::*;
use crate::num::Num;
use crate::shared::whole;

verus! {

/// The kind of number that a value is written as.
#[derive(Clone, Copy, PartialEq, Eq, Structural, Debug)]
pub enum NumberKind {
    U8,
    U16,
    U32,
    I8,
    I16,
    I32,
    F32,
    F64,
    NaNF32,
    NaNF64,
}

impl NumberKind {
    /// The number of bytes that a value of this kind takes.
    pub open spec fn spec_size(self) -> u32 {
        match self {
            NumberKind::U8 | NumberKind::I8 => 1,
            NumberKind::U16 | NumberKind::I16 => 2,
            NumberKind::U32 | NumberKind::I32 => 4,
            NumberKind::F32 | NumberKind::NaNF32 => 4,
            NumberKind::F64 | NumberKind::NaNF64 => 8,
        }
    }

    /// The least value of the kind, as the `f64` that stands for it.
    pub open spec fn spec_min(self) -> Num {
        match self {
            NumberKind::U8 | NumberKind::U16 | NumberKind::U32 => whole(false, 0),
            NumberKind::I8 => whole(true, 128),
            NumberKind::I16 => whole(true, 32768),
            NumberKind::I32 => whole(true, 2147483648),
            NumberKind::F32 | NumberKind::NaNF32 => Num::Finite { neg: true, digits: 34028234663852886, exp: 22 },
            NumberKind::F64 | NumberKind::NaNF64 => Num::Finite { neg: true, digits: 17976931348623157, exp: 292 },
        }
    }

    /// The greatest value of the kind, as the `f64` that stands for it.
    pub open spec fn spec_max(self) -> Num {
        match self {
            NumberKind::U8 => whole(false, 255),
            NumberKind::U16 => whole(false, 65535),
            NumberKind::U32 => whole(false, 4294967295),
            NumberKind::I8 => whole(false, 127),
            NumberKind::I16 => whole(false, 32767),
            NumberKind::I32 => whole(false, 2147483647),
            NumberKind::F32 | NumberKind::NaNF32 => Num::Finite { neg: false, digits: 34028234663852886, exp: 22 },
            NumberKind::F64 | NumberKind::NaNF64 => Num::Finite { neg: false, digits: 17976931348623157, exp: 292 },
        }
    }

    /// The number of bytes that a value of this kind takes.
    pub fn size(&self) -> (r: u32)
        ensures
            r == self.spec_size(),
    {
        match self {
            NumberKind::U8 | NumberKind::I8 => 1,
            NumberKind::U16 | NumberKind::I16 => 2,
            NumberKind::U32 | NumberKind::I32 => 4,
            NumberKind::F32 | NumberKind::NaNF32 => 4,
            NumberKind::F64 | NumberKind::NaNF64 => 8,
        }
    }

    /// The least value of the kind.
    pub fn min(&self) -> (r: Num)
        ensures
            r == self.spec_min(),
    {
        match self {
            NumberKind::U8 | NumberKind::U16 | NumberKind::U32 => Num::from_u64(0),
            NumberKind::I8 => Num::from_i64(-128),
            NumberKind::I16 => Num::from_i64(-32768),
            NumberKind::I32 => Num::from_i64(-2147483648),
            NumberKind::F32 | NumberKind::NaNF32 => Num::Finite { neg: true, digits: 34028234663852886, exp: 22 },
            NumberKind::F64 | NumberKind::NaNF64 => Num::Finite { neg: true, digits: 17976931348623157, exp: 292 },
        }
    }

    /// The greatest value of the kind.
    pub fn max(&self) -> (r: Num)
        ensures
            r == self.spec_max(),
    {
        match self {
            NumberKind::U8 => Num::from_u64(255),
            NumberKind::U16 => Num::from_u64(65535),
            NumberKind::U32 => Num::from_u64(4294967295),
            NumberKind::I8 => Num::from_u64(127),
            NumberKind::I16 => Num::from_u64(32767),
            NumberKind::I32 => Num::from_u64(2147483647),
            NumberKind::F32 | NumberKind::NaNF32 => Num::Finite { neg: false, digits: 34028234663852886, exp: 22 },
            NumberKind::F64 | NumberKind::NaNF64 => Num::Finite { neg: false, digits: 17976931348623157, exp: 292 },
        }
    }
}

} // verus!
