//! The bounds of a value or of a length, for the first code generator.
use vstd::prelude::*;
use crate::nums::NumberKind;
use crate::num::{Num, num_le};
use crate::shared::whole;

verus! {

/// Optional bounds, as `f64`s.
#[derive(Clone, Copy, PartialEq, Eq, Structural, Debug)]
pub struct Range {
    pub min: Option<Num>,
    pub max: Option<Num>,
}

impl Range {
    /// The one value the range allows, when both bounds are given and
    /// equal as `f64`s: the lower bound.
    pub open spec fn spec_exact(self) -> Option<Num> {
        match (self.min, self.max) {
            (Some(a), Some(b)) => if num_le(a, b) && num_le(b, a) {
                Some(a)
            } else {
                None
            },
            _ => None,
        }
    }

    /// The smallest unsigned kind that holds the upper bound (the greatest
    /// `f64` when there is none): `u8`, `u16`, else `u32`.
    pub open spec fn spec_len_kind(self) -> NumberKind {
        let max = match self.max {
            Some(m) => m,
            None => NumberKind::F64.spec_max(),
        };
        if num_le(max, whole(false, 255)) {
            NumberKind::U8
        } else if num_le(max, whole(false, 65535)) {
            NumberKind::U16
        } else {
            NumberKind::U32
        }
    }

    /// A value up to the upper bound fits the kind chosen for the range: when
    /// the bound is at most the greatest `u32`, it is at most the greatest
    /// value of `len_kind()`.
    pub proof fn lemma_len_kind_holds_bound(self, m: Num)
        requires
            self.max == Some(m),
            num_le(m, whole(false, 4294967295)),
        ensures
            num_le(m, self.spec_len_kind().spec_max()),
    {
    }

    /// The one value the range allows, if it allows just one.
    pub fn exact(&self) -> (r: Option<Num>)
        ensures
            r == self.spec_exact(),
    {
        match (self.min, self.max) {
            (Some(a), Some(b)) => if a.le(&b) && b.le(&a) {
                Some(a)
            } else {
                None
            },
            _ => None,
        }
    }

    /// The kind that a length up to the upper bound is written as.
    pub fn len_kind(&self) -> (r: NumberKind)
        ensures
            r == self.spec_len_kind(),
    {
        let max = match self.max {
            Some(m) => m,
            None => NumberKind::F64.max(),
        };
        if max.le(&Num::from_u64(255)) {
            NumberKind::U8
        } else if max.le(&Num::from_u64(65535)) {
            NumberKind::U16
        } else {
            NumberKind::U32
        }
    }
}

} // verus!
