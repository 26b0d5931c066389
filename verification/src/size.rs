//! Sizes of serialized values: the least and the most bytes a value of a
//! type takes, when there is a most.
use vstd::prelude::*;
use core::cmp::Ordering;
use crate::hir::{Length, Type};

verus! {

/// The least and the most bytes; `max` is `None` when there is no bound.
#[derive(Clone, Copy, PartialEq, Eq, Structural, Debug)]
pub struct Size {
    pub min: u32,
    pub max: Option<u32>,
}

/// A size as mathematical integers.
pub struct SizeV {
    pub min: int,
    pub max: Option<int>,
}

pub open spec fn sz(s: Size) -> SizeV {
    SizeV {
        min: s.min as int,
        max: match s.max {
            Some(m) => Some(m as int),
            None => None,
        },
    }
}

pub open spec fn sv_exact(n: int) -> SizeV {
    SizeV { min: n, max: Some(n) }
}

/// Both values, one after the other.
pub open spec fn sv_add(a: SizeV, b: SizeV) -> SizeV {
    SizeV {
        min: a.min + b.min,
        max: match (a.max, b.max) {
            (Some(x), Some(y)) => Some(x + y),
            _ => None,
        },
    }
}

/// A value followed by `n` more bytes.
pub open spec fn sv_add_n(a: SizeV, n: int) -> SizeV {
    SizeV {
        min: a.min + n,
        max: match a.max {
            Some(x) => Some(x + n),
            None => None,
        },
    }
}

/// `n` values.
pub open spec fn sv_mul_n(a: SizeV, n: int) -> SizeV {
    SizeV {
        min: a.min * n,
        max: match a.max {
            Some(x) => Some(x * n),
            None => None,
        },
    }
}

/// As many values as a length allows.
pub open spec fn sv_mul_len(a: SizeV, len: Length) -> SizeV {
    SizeV {
        min: a.min * len.min,
        max: match (a.max, len.max) {
            (Some(x), Some(y)) => Some(x * y),
            _ => None,
        },
    }
}

/// Both bounds fit in a `u32`.
pub open spec fn sv_fits(a: SizeV) -> bool {
    &&& 0 <= a.min <= u32::MAX
    &&& a.max matches Some(m) ==> 0 <= m <= u32::MAX
}

/// The bytes for the count of a length.
pub open spec fn len_prefix(len: Length) -> int {
    len.spec_kind().spec_size() as int
}

/// The size of a value of type `t`.
pub open spec fn type_size(t: Type) -> SizeV
    decreases t,
{
    match t {
        Type::Boolean(_) => sv_exact(1),
        Type::Number(n) => sv_exact(n.kind.spec_size() as int),
        Type::Vector(v) => sv_add(
            sv_add(sv_exact(v.x.kind.spec_size() as int), sv_exact(v.y.kind.spec_size() as int)),
            match v.z {
                Some(z) => sv_exact(z.kind.spec_size() as int),
                None => sv_exact(0),
            },
        ),
        Type::BinaryString(b) => sv_add_n(sv_mul_len(sv_exact(1), b.len), len_prefix(b.len)),
        Type::Utf8String(u) => sv_add_n(sv_mul_len(sv_exact(1), u.len), len_prefix(u.len)),
        Type::Array(a) => sv_add_n(sv_mul_len(type_size(*a.item), a.len), len_prefix(a.len)),
        Type::SetOf(s) => sv_add_n(sv_mul_len(type_size(*s.item), s.len), len_prefix(s.len)),
        Type::MapOf(m) => sv_add_n(
            sv_add(type_size(*m.index), sv_mul_len(type_size(*m.value), m.len)),
            len_prefix(m.len),
        ),
        Type::Enum(e) => sv_exact(e.number.kind.spec_size() as int),
        Type::Struct(s) => fields_size(s.fields@),
    }
}

/// The sizes of the fields, one after the other.
pub open spec fn fields_size(fs: Seq<(String, Type)>) -> SizeV
    decreases fs,
{
    if fs.len() == 0 {
        sv_exact(0)
    } else {
        sv_add(fields_size(fs.subrange(0, fs.len() - 1)), type_size(fs[fs.len() - 1].1))
    }
}

/// The sizes of the types, one after the other.
pub open spec fn types_size(ts: Seq<Type>) -> SizeV
    decreases ts.len(),
{
    if ts.len() == 0 {
        sv_exact(0)
    } else {
        sv_add(types_size(ts.drop_last()), type_size(ts.last()))
    }
}

/// Every sum and product on the way to the size of `t` fits in a `u32`.
pub open spec fn type_size_ok(t: Type) -> bool
    decreases t,
{
    match t {
        Type::Boolean(_) | Type::Number(_) | Type::Vector(_) | Type::Enum(_) => true,
        Type::BinaryString(b) => sv_fits(sv_mul_len(sv_exact(1), b.len)) && sv_fits(type_size(t)),
        Type::Utf8String(u) => sv_fits(sv_mul_len(sv_exact(1), u.len)) && sv_fits(type_size(t)),
        Type::Array(a) => type_size_ok(*a.item) && sv_fits(sv_mul_len(type_size(*a.item), a.len))
            && sv_fits(type_size(t)),
        Type::SetOf(s) => type_size_ok(*s.item) && sv_fits(sv_mul_len(type_size(*s.item), s.len))
            && sv_fits(type_size(t)),
        Type::MapOf(m) => type_size_ok(*m.index) && type_size_ok(*m.value) && sv_fits(
            sv_mul_len(type_size(*m.value), m.len),
        ) && sv_fits(sv_add(type_size(*m.index), sv_mul_len(type_size(*m.value), m.len)))
            && sv_fits(type_size(t)),
        Type::Struct(s) => fields_size_ok(s.fields@),
    }
}

pub open spec fn fields_size_ok(fs: Seq<(String, Type)>) -> bool
    decreases fs,
{
    if fs.len() == 0 {
        true
    } else {
        fields_size_ok(fs.subrange(0, fs.len() - 1)) && type_size_ok(fs[fs.len() - 1].1)
            && sv_fits(fields_size(fs))
    }
}

pub open spec fn types_size_ok(ts: Seq<Type>) -> bool
    decreases ts.len(),
{
    if ts.len() == 0 {
        true
    } else {
        types_size_ok(ts.drop_last()) && type_size_ok(ts.last()) && sv_fits(types_size(ts))
    }
}

/// The order of sizes: bounded before unbounded; bounded ones by their
/// minimum, then by their maximum. Two unbounded sizes are equal in this
/// order whatever their minimums, as the generator has it.
pub open spec fn size_order(a: Size, b: Size) -> Option<Ordering> {
    match (a.max, b.max) {
        (Some(x), Some(y)) => Some(
            if a.min < b.min {
                Ordering::Less
            } else if a.min > b.min {
                Ordering::Greater
            } else if x < y {
                Ordering::Less
            } else if x > y {
                Ordering::Greater
            } else {
                Ordering::Equal
            },
        ),
        (Some(_), None) => Some(Ordering::Less),
        (None, Some(_)) => Some(Ordering::Greater),
        (None, None) => Some(Ordering::Equal),
    }
}

impl Default for Size {
    fn default() -> (r: Size)
        ensures
            r == (Size { min: 0, max: Some(0) }),
    {
        Size { min: 0, max: Some(0) }
    }
}

impl Size {
    /// Exactly `value` bytes.
    pub fn from_u32(value: u32) -> (r: Size)
        ensures
            r == (Size { min: value, max: Some(value) }),
    {
        Size { min: value, max: Some(value) }
    }

    /// The size when it is fixed.
    pub fn is_exact(&self) -> (r: Option<u32>)
        ensures
            r == (if self.max == Some(self.min) {
                Some(self.min)
            } else {
                None
            }),
    {
        match self.max {
            Some(m) => if m == self.min {
                Some(m)
            } else {
                None
            },
            None => None,
        }
    }

    /// `n` more bytes.
    pub fn add_u32(self, n: u32) -> (r: Size)
        requires
            sv_fits(sv_add_n(sz(self), n as int)),
        ensures
            sz(r) == sv_add_n(sz(self), n as int),
    {
        Size {
            min: self.min + n,
            max: match self.max {
                Some(m) => Some(m + n),
                None => None,
            },
        }
    }

    /// Another value after this one.
    pub fn add(self, rhs: Size) -> (r: Size)
        requires
            sv_fits(sv_add(sz(self), sz(rhs))),
        ensures
            sz(r) == sv_add(sz(self), sz(rhs)),
    {
        Size {
            min: self.min + rhs.min,
            max: match (self.max, rhs.max) {
                (Some(a), Some(b)) => Some(a + b),
                _ => None,
            },
        }
    }

    /// `n` values of this size.
    pub fn mul_u32(self, n: u32) -> (r: Size)
        requires
            sv_fits(sv_mul_n(sz(self), n as int)),
        ensures
            sz(r) == sv_mul_n(sz(self), n as int),
    {
        Size {
            min: self.min * n,
            max: match self.max {
                Some(m) => Some(m * n),
                None => None,
            },
        }
    }

    /// As many values of this size as `len` allows.
    pub fn mul_length(self, len: Length) -> (r: Size)
        requires
            sv_fits(sv_mul_len(sz(self), len)),
        ensures
            sz(r) == sv_mul_len(sz(self), len),
    {
        Size {
            min: self.min * len.min,
            max: match (self.max, len.max) {
                (Some(a), Some(b)) => Some(a * b),
                _ => None,
            },
        }
    }

    /// Compares two sizes.
    pub fn partial_cmp(&self, other: &Size) -> (r: Option<Ordering>)
        ensures
            r == size_order(*self, *other),
    {
        match (self.max, other.max) {
            (Some(a), Some(b)) => Some(
                if self.min < other.min {
                    Ordering::Less
                } else if self.min > other.min {
                    Ordering::Greater
                } else if a < b {
                    Ordering::Less
                } else if a > b {
                    Ordering::Greater
                } else {
                    Ordering::Equal
                },
            ),
            (Some(_), None) => Some(Ordering::Less),
            (None, Some(_)) => Some(Ordering::Greater),
            (None, None) => Some(Ordering::Equal),
        }
    }

    /// Whether this size orders after `other`.
    pub fn gt(&self, other: &Size) -> (r: bool)
        ensures
            r == (size_order(*self, *other) == Some(Ordering::Greater)),
    {
        match self.partial_cmp(other) {
            Some(Ordering::Greater) => true,
            _ => false,
        }
    }
}

fn checked_add(a: Size, b: Size) -> (r: Option<Size>)
    ensures
        r is Some <==> sv_fits(sv_add(sz(a), sz(b))),
        r matches Some(x) ==> sz(x) == sv_add(sz(a), sz(b)),
{
    let min = match a.min.checked_add(b.min) {
        Some(m) => m,
        None => return None,
    };
    let max = match (a.max, b.max) {
        (Some(x), Some(y)) => match x.checked_add(y) {
            Some(m) => Some(m),
            None => return None,
        },
        _ => None,
    };
    Some(Size { min, max })
}

fn checked_add_u32(a: Size, n: u32) -> (r: Option<Size>)
    ensures
        r is Some <==> sv_fits(sv_add_n(sz(a), n as int)),
        r matches Some(x) ==> sz(x) == sv_add_n(sz(a), n as int),
{
    checked_add(a, Size { min: n, max: Some(n) })
}

fn checked_mul_length(a: Size, len: Length) -> (r: Option<Size>)
    ensures
        r is Some <==> sv_fits(sv_mul_len(sz(a), len)),
        r matches Some(x) ==> sz(x) == sv_mul_len(sz(a), len),
{
    let min = match a.min.checked_mul(len.min) {
        Some(m) => m,
        None => {
            assert(a.min * len.min >= 0) by (nonlinear_arith);
            return None;
        },
    };
    assert(a.min * len.min >= 0) by (nonlinear_arith);
    let max = match (a.max, len.max) {
        (Some(x), Some(y)) => match x.checked_mul(y) {
            Some(m) => Some(m),
            None => {
                assert(x * y >= 0) by (nonlinear_arith);
                return None;
            },
        },
        _ => None,
    };
    proof {
        if let (Some(x), Some(y)) = (a.max, len.max) {
            assert(x * y >= 0) by (nonlinear_arith);
        }
    }
    Some(Size { min, max })
}

/// The size of a value of type `t`, or `None` when a sum or product on the
/// way does not fit in a `u32`.
pub fn try_size_of(t: &Type) -> (r: Option<Size>)
    ensures
        r is Some <==> type_size_ok(*t),
        r matches Some(s) ==> sz(s) == type_size(*t),
    decreases t,
{
    match t {
        Type::Boolean(_) => Some(Size::from_u32(1)),
        Type::Number(n) => Some(Size::from_u32(n.kind.size())),
        Type::Vector(v) => {
            let xy = Size::from_u32(v.x.kind.size()).add(Size::from_u32(v.y.kind.size()));
            let z = match v.z {
                Some(z) => Size::from_u32(z.kind.size()),
                None => Size::default(),
            };
            Some(xy.add(z))
        },
        Type::BinaryString(b) => match checked_mul_length(Size::from_u32(1), b.len) {
            Some(m) => checked_add_u32(m, b.len.kind().size()),
            None => None,
        },
        Type::Utf8String(u) => match checked_mul_length(Size::from_u32(1), u.len) {
            Some(m) => checked_add_u32(m, u.len.kind().size()),
            None => None,
        },
        Type::Array(a) => match try_size_of(&a.item) {
            Some(item) => match checked_mul_length(item, a.len) {
                Some(m) => checked_add_u32(m, a.len.kind().size()),
                None => None,
            },
            None => None,
        },
        Type::SetOf(s) => match try_size_of(&s.item) {
            Some(item) => match checked_mul_length(item, s.len) {
                Some(m) => checked_add_u32(m, s.len.kind().size()),
                None => None,
            },
            None => None,
        },
        Type::MapOf(m) => {
            let index = match try_size_of(&m.index) {
                Some(x) => x,
                None => return None,
            };
            let value = match try_size_of(&m.value) {
                Some(x) => x,
                None => return None,
            };
            match checked_mul_length(value, m.len) {
                Some(vs) => match checked_add(index, vs) {
                    Some(sum) => checked_add_u32(sum, m.len.kind().size()),
                    None => None,
                },
                None => None,
            }
        },
        Type::Enum(e) => Some(Size::from_u32(e.number.kind.size())),
        Type::Struct(s) => try_fields_size(&s.fields),
    }
}

fn try_fields_size(fs: &Vec<(String, Type)>) -> (r: Option<Size>)
    ensures
        r is Some <==> fields_size_ok(fs@),
        r matches Some(s) ==> sz(s) == fields_size(fs@),
    decreases fs,
{
    let mut acc = Size::default();
    let mut i: usize = 0;
    while i < fs.len()
        invariant
            i <= fs@.len(),
            fields_size_ok(fs@.subrange(0, i as int)),
            sz(acc) == fields_size(fs@.subrange(0, i as int)),
        decreases fs.len() - i,
    {
        assert(fs@.subrange(0, i + 1).subrange(0, i as int) =~= fs@.subrange(0, i as int));
        let item = match try_size_of(&fs[i].1) {
            Some(x) => x,
            None => {
                proof {
                    if fields_size_ok(fs@) {
                        lemma_fields_ok_prefix(fs@, i as int + 1);
                    }
                }
                return None;
            },
        };
        acc = match checked_add(acc, item) {
            Some(x) => x,
            None => {
                proof {
                    if fields_size_ok(fs@) {
                        lemma_fields_ok_prefix(fs@, i as int + 1);
                    }
                }
                return None;
            },
        };
        i += 1;
    }
    assert(fs@.subrange(0, fs@.len() as int) =~= fs@);
    Some(acc)
}

proof fn lemma_fields_ok_prefix(fs: Seq<(String, Type)>, k: int)
    requires
        0 <= k <= fs.len(),
        fields_size_ok(fs),
    ensures
        fields_size_ok(fs.subrange(0, k)),
    decreases fs.len(),
{
    if k < fs.len() {
        assert(fs.subrange(0, fs.len() - 1).subrange(0, k) =~= fs.subrange(0, k));
        lemma_fields_ok_prefix(fs.subrange(0, fs.len() - 1), k);
    } else {
        assert(fs.subrange(0, k) =~= fs);
    }
}

proof fn lemma_types_ok_prefix(ts: Seq<Type>, k: int)
    requires
        0 <= k <= ts.len(),
        types_size_ok(ts),
    ensures
        types_size_ok(ts.subrange(0, k)),
    decreases ts.len(),
{
    if k < ts.len() {
        assert(ts.drop_last().subrange(0, k) =~= ts.subrange(0, k));
        lemma_types_ok_prefix(ts.drop_last(), k);
    } else {
        assert(ts.subrange(0, k) =~= ts);
    }
}

/// The sizes of the types one after the other, or `None` when a sum or
/// product on the way does not fit in a `u32`.
pub fn try_types_size(ts: &Vec<Type>) -> (r: Option<Size>)
    ensures
        r is Some <==> types_size_ok(ts@),
        r matches Some(s) ==> sz(s) == types_size(ts@),
{
    let mut acc = Size::default();
    let mut i: usize = 0;
    while i < ts.len()
        invariant
            i <= ts@.len(),
            types_size_ok(ts@.subrange(0, i as int)),
            sz(acc) == types_size(ts@.subrange(0, i as int)),
        decreases ts.len() - i,
    {
        assert(ts@.subrange(0, i + 1).drop_last() =~= ts@.subrange(0, i as int));
        let item = match try_size_of(&ts[i]) {
            Some(x) => x,
            None => {
                proof {
                    if types_size_ok(ts@) {
                        lemma_types_ok_prefix(ts@, i as int + 1);
                    }
                }
                return None;
            },
        };
        acc = match checked_add(acc, item) {
            Some(x) => x,
            None => {
                proof {
                    if types_size_ok(ts@) {
                        lemma_types_ok_prefix(ts@, i as int + 1);
                    }
                }
                return None;
            },
        };
        i += 1;
    }
    assert(ts@.subrange(0, ts@.len() as int) =~= ts@);
    Some(acc)
}

/// `a` orders after `b`: a bounded size before an unbounded one, bounded
/// ones by their least, then by their most.
pub open spec fn sv_gt(a: SizeV, b: SizeV) -> bool {
    match (a.max, b.max) {
        (Some(x), Some(y)) => a.min > b.min || (a.min == b.min && x > y),
        (None, Some(_)) => true,
        _ => false,
    }
}

impl Size {
    /// `self` when it orders after `other`, else `other`.
    pub fn larger(self, other: Size) -> (r: Size)
        ensures
            r == (if sv_gt(sz(self), sz(other)) {
                self
            } else {
                other
            }),
    {
        if self.gt(&other) {
            self
        } else {
            other
        }
    }
}

/// Values whose serialized size is known in advance.
pub trait SizeOf {
    spec fn spec_size(&self) -> SizeV;

    spec fn size_ok(&self) -> bool;

    /// The least and the most bytes that the value's data takes.
    fn size_of(&self) -> (r: Size)
        requires
            self.size_ok(),
        ensures
            sz(r) == self.spec_size(),
    ;
}

impl SizeOf for Type {
    open spec fn spec_size(&self) -> SizeV {
        type_size(*self)
    }

    open spec fn size_ok(&self) -> bool {
        type_size_ok(*self)
    }

    fn size_of(&self) -> (r: Size) {
        match try_size_of(self) {
            Some(s) => s,
            None => Size::default(),
        }
    }
}

impl SizeOf for Vec<Type> {
    open spec fn spec_size(&self) -> SizeV {
        types_size(self@)
    }

    open spec fn size_ok(&self) -> bool {
        types_size_ok(self@)
    }

    fn size_of(&self) -> (r: Size) {
        match try_types_size(self) {
            Some(s) => s,
            None => Size::default(),
        }
    }
}

} // verus!
