//! The code that `mir_serdes` writes and reads values with, as a sequence of
//! pieces: plain code, checks, buffer accesses, lengths and loops. What the
//! writing code of a type puts in a packet is what the reading code of the
//! same type takes out: the same accesses, of the same widths, in the same
//! order, each moving the position past what it wrote or read, with strings
//! and loops as long as the length just before them.
use vstd::prelude::*;
use crate::hir::{ArrayType, EnumType, Length, MapType, NumberType, SetType, StructType, Type, VectorType};
use crate::mir::{BinOp, FuncK, string_literal_text};
use crate::mir_builder::{
    CtxV, RegState, assert_text, bin_t, call1_t, check_t, for_range_t, for_table_t, index_t, read_d_t, read_k_t, reg_alloc,
    reg_release, release_all, reserve_t, vt, write_d_t, write_k_t, write_reserved_t,
};
use crate::mir_serdes::{
    Des, Ser, assign_index_t, basic_checks, count_step_t, des_array_s, des_enum_s, des_fields_s,
    des_length_s, des_map_s, des_number_s, des_s, des_set_s, des_string_s, des_struct_s,
    des_vector_s, empty_table_t, fields_enums, full_checks, init_t, is_24_kind, is_nan_kind,
    len_t, length_range, mask24_t, name_vars_t, opt_t, out, range_check_t, ser_array_s, ser_enum_s,
    ser_fields_s, ser_length_s, ser_map_s, ser_number_t, ser_s, ser_set_s, ser_string_s,
    ser_struct_s, ser_vector_t, type_check_t, utf8_check_t, variants_range, vec_t, enums_in,
};
use crate::shared::NumberKind;
use crate::size::{fields_size, sv_exact, type_size};
use crate::text::nat_text;

verus! {

/// A piece of generated code.
pub enum Piece {
    /// Plain code.
    Code(Seq<char>),
    /// A check that only some settings make (`true`: the type checks of the
    /// full level; `false`: the other checks).
    Check(bool, Seq<char>),
    /// Room made for a number of kind `k`, and `src` written as one.
    Write(NumberKind, Seq<char>),
    /// Room made for a number of kind `k`, and the place `p` kept for it.
    Reserve(u16, NumberKind),
    /// The length `n` of what follows, known in advance, in variable `v`.
    LenFixed(u16, u32),
    /// Room made for the string `src` of the length in variable `l`, and
    /// `src` written.
    WriteStr(u16, Seq<char>),
    /// A number of kind `k` read into the new variable `v`.
    Read(u16, NumberKind),
    /// A string of the length in variable `l` read into the new variable `v`.
    ReadStr(u16, u16),
    /// A loop of `i` from 1 to the value of variable `n`, and the start of
    /// its body.
    OpenRange(u16, u16, Seq<char>),
    /// A loop over the keys `k` and values `v` of the table `t`, and the
    /// start of its body.
    OpenPairs(u16, u16, Seq<char>, Seq<char>),
    /// The end of a loop.
    Close,
}

/// What a packet sees of the code: a number of a given width; a length known
/// in advance (no bytes); a string of the length just before; a loop over
/// the length just before; the end of a loop.
pub enum Access {
    Number(FuncK),
    LenFixed(u32),
    Str,
    Repeat,
    End,
}

/// `for i = 1, n do `
pub open spec fn range_head(i: u16, n: u16) -> Seq<char> {
    "for "@ + vt(i) + " = "@ + nat_text(1) + ", "@ + vt(n) + " do "@
}

/// `for k, v in t do `
pub open spec fn pairs_head(k: u16, v: u16, t: Seq<char>) -> Seq<char> {
    "for "@ + vt(k) + ", "@ + vt(v) + " in "@ + t + " do "@
}

pub open spec fn size_t(k: NumberKind) -> Seq<char> {
    nat_text(k.spec_size() as nat)
}

/// The code of a piece for the buffer `c`, where type checks are made when
/// `full` holds and the other checks when `some` holds.
pub open spec fn piece_text(c: CtxV, full: bool, some: bool, p: Piece) -> Seq<char> {
    match p {
        Piece::Code(t) => t,
        Piece::Check(f, t) => opt_t(if f { full } else { some }, t),
        Piece::Write(k, src) => check_t(c, size_t(k)) + write_k_t(c, FuncK::spec_from_kind(k), src),
        Piece::Reserve(p, k) => check_t(c, size_t(k)) + reserve_t(c, p, size_t(k)),
        Piece::LenFixed(v, n) => init_t(v, nat_text(n as nat)),
        Piece::WriteStr(l, src) => check_t(c, vt(l)) + write_d_t(c, src, vt(l)),
        Piece::Read(v, k) => read_k_t(c, FuncK::spec_from_kind(k), v),
        Piece::ReadStr(v, l) => read_d_t(c, vt(l), v),
        Piece::OpenRange(i, n, extra) => range_head(i, n) + extra,
        Piece::OpenPairs(k, v, t, extra) => pairs_head(k, v, t) + extra,
        Piece::Close => " end;"@,
    }
}

/// What a packet sees of a piece.
pub open spec fn access(p: Piece) -> Option<Access> {
    match p {
        Piece::Write(k, _) => Some(Access::Number(FuncK::spec_from_kind(k))),
        Piece::Reserve(_, k) => Some(Access::Number(FuncK::spec_from_kind(k))),
        Piece::Read(_, k) => Some(Access::Number(FuncK::spec_from_kind(k))),
        Piece::LenFixed(_, n) => Some(Access::LenFixed(n)),
        Piece::WriteStr(_, _) => Some(Access::Str),
        Piece::ReadStr(_, _) => Some(Access::Str),
        Piece::OpenRange(_, _, _) => Some(Access::Repeat),
        Piece::OpenPairs(_, _, _, _) => Some(Access::Repeat),
        Piece::Close => Some(Access::End),
        _ => None,
    }
}

/// The code of the pieces, one after the other.
pub open spec fn rend(c: CtxV, full: bool, some: bool, ps: Seq<Piece>) -> Seq<char>
    decreases ps.len(),
{
    if ps.len() == 0 {
        seq![]
    } else {
        rend(c, full, some, ps.drop_last()) + piece_text(c, full, some, ps.last())
    }
}

/// What a packet sees of the pieces, in order.
pub open spec fn accesses(ps: Seq<Piece>) -> Seq<Access>
    decreases ps.len(),
{
    if ps.len() == 0 {
        seq![]
    } else {
        accesses(ps.drop_last()) + match access(ps.last()) {
            Some(x) => seq![x],
            None => seq![],
        }
    }
}

pub open spec fn code(t: Seq<char>) -> Seq<Piece> {
    seq![Piece::Code(t)]
}

pub open spec fn check(full: bool, t: Seq<char>) -> Seq<Piece> {
    seq![Piece::Check(full, t)]
}

pub open spec fn check_if(b: bool, full: bool, t: Seq<char>) -> Seq<Piece> {
    if b {
        check(full, t)
    } else {
        seq![]
    }
}

pub open spec fn one(p: Piece) -> Seq<Piece> {
    seq![p]
}

pub open spec fn num_access(k: NumberKind) -> Seq<Access> {
    seq![Access::Number(FuncK::spec_from_kind(k))]
}

/// The length before a string or the items of an array.
pub open spec fn length_layout(len: Length) -> Seq<Access> {
    match len.spec_exact() {
        Some(n) => seq![Access::LenFixed(n)],
        None => num_access(len.spec_kind()),
    }
}

/// The accesses of a value of type `t` in a packet.
pub open spec fn layout(t: Type) -> Seq<Access>
    decreases t,
{
    match t {
        Type::Boolean(_) => num_access(NumberKind::U8),
        Type::Number(n) => num_access(n.kind),
        Type::Vector(v) => num_access(v.x.kind) + num_access(v.y.kind) + match v.z {
            Some(z) => num_access(z.kind),
            None => seq![],
        },
        Type::BinaryString(bs) => length_layout(bs.len) + seq![Access::Str],
        Type::Utf8String(us) => length_layout(us.len) + seq![Access::Str],
        Type::Array(a) => length_layout(a.len) + seq![Access::Repeat] + layout(*a.item) + seq![Access::End],
        Type::SetOf(st) => num_access(st.len.spec_kind()) + seq![Access::Repeat] + layout(*st.item)
            + seq![Access::End],
        Type::MapOf(mt) => num_access(mt.len.spec_kind()) + seq![Access::Repeat] + layout(*mt.index)
            + layout(*mt.value) + seq![Access::End],
        Type::Enum(e) => num_access(e.number.kind),
        Type::Struct(st) => fields_layout(st.fields@),
    }
}

pub open spec fn fields_layout(fs: Seq<(String, Type)>) -> Seq<Access>
    decreases fs,
{
    if fs.len() == 0 {
        seq![]
    } else {
        fields_layout(fs.subrange(0, fs.len() - 1)) + layout(fs[fs.len() - 1].1)
    }
}

// ---------------------------------------------------------------- writing

pub open spec fn length_p(len: Length, x: Seq<char>, r: RegState) -> (RegState, Seq<Piece>, u16) {
    let (r1, v) = reg_alloc(r);
    match len.spec_exact() {
        Some(n) => (r1, one(Piece::LenFixed(v, n)), v),
        None => (
            r1,
            code(init_t(v, x)) + check(false, range_check_t(vt(v), length_range(len))) + one(
                Piece::Write(len.spec_kind(), vt(v)),
            ),
            v,
        ),
    }
}

pub open spec fn number_p(n: NumberType, x: Seq<char>) -> Seq<Piece> {
    check(true, type_check_t(x, "number"@)) + check(false, range_check_t(x, n.range)) + one(
        Piece::Write(n.kind, x),
    )
}

pub open spec fn vector_p(v: VectorType, x: Seq<char>) -> Seq<Piece> {
    check(true, type_check_t(x, "vector"@)) + number_p(v.x, index_t(x, string_literal_text("x"@)))
        + number_p(v.y, index_t(x, string_literal_text("y"@))) + match v.z {
        Some(z) => number_p(z, index_t(x, string_literal_text("z"@))),
        None => seq![],
    }
}

pub open spec fn string_p(utf8: bool, len: Length, x: Seq<char>, r: RegState) -> (RegState, Seq<Piece>) {
    let (rl, pl, v) = length_p(len, len_t(x), r);
    (
        reg_release(rl, v),
        check(true, type_check_t(x, "string"@)) + check_if(utf8, false, utf8_check_t(x)) + pl + one(
            Piece::WriteStr(v, x),
        ),
    )
}

/// The pieces of the code that writes the value `x` of type `t`, from
/// registry state `r`, with `m` the table variables of the enums of `t`;
/// and the registry state after it.
pub open spec fn ser_p(c: CtxV, t: Type, x: Seq<char>, r: RegState, m: Seq<u16>) -> (RegState, Seq<Piece>)
    decreases t,
{
    match t {
        Type::Boolean(_) => (
            r,
            check(true, type_check_t(x, "boolean"@)) + one(Piece::Write(NumberKind::U8, index_t("bool"@, x))),
        ),
        Type::Number(n) => (r, number_p(n, x)),
        Type::Vector(v) => (r, vector_p(v, x)),
        Type::BinaryString(bs) => string_p(false, bs.len, x, r),
        Type::Utf8String(us) => string_p(true, us.len, x, r),
        Type::Array(a) => array_p(c, a, x, r, m),
        Type::SetOf(st) => set_p(c, st, x, r, m),
        Type::MapOf(mt) => map_p(c, mt, x, r, m),
        Type::Enum(e) => {
            let (r1, w) = reg_alloc(r);
            (
                reg_release(reg_release(r1, w), m[0]),
                check(true, type_check_t(x, "string"@)) + code(init_t(w, index_t(vt(m[0]), x))) + check(
                    true,
                    assert_text(vt(w), "enum value is not a valid variant"@),
                ) + one(Piece::Write(e.number.kind, vt(w))),
            )
        },
        Type::Struct(st) => {
            let f = fields_p(c, st.fields@, x, r, m);
            (f.0, check(true, type_check_t(x, "table"@)) + f.1)
        },
    }
}

pub open spec fn array_p(c: CtxV, a: ArrayType, x: Seq<char>, r: RegState, m: Seq<u16>) -> (RegState, Seq<Piece>)
    decreases a,
{
    let (rl, pl, n) = length_p(a.len, len_t(x), r);
    let (r1, i) = reg_alloc(rl);
    let (r2, w) = reg_alloc(r1);
    let body = ser_p(c, *a.item, vt(w), r2, m);
    (
        reg_release(reg_release(reg_release(body.0, w), i), n),
        check(true, type_check_t(x, "table"@)) + pl + one(
            Piece::OpenRange(i, n, init_t(w, index_t(x, vt(i)))),
        ) + body.1 + one(Piece::Close),
    )
}

pub open spec fn set_p(c: CtxV, st: SetType, x: Seq<char>, r: RegState, m: Seq<u16>) -> (RegState, Seq<Piece>)
    decreases st,
{
    let (r1, p) = reg_alloc(r);
    let (r2, l) = reg_alloc(r1);
    let (r3, idx) = reg_alloc(r2);
    let (r4, val) = reg_alloc(r3);
    let body = ser_p(c, *st.item, vt(idx), r4, m);
    let k = st.len.spec_kind();
    (
        reg_release(reg_release(reg_release(reg_release(body.0, val), idx), l), p),
        check(true, type_check_t(x, "table"@)) + one(Piece::Reserve(p, k)) + code(init_t(l, nat_text(0)))
            + one(Piece::OpenPairs(idx, val, x, count_step_t(l))) + body.1 + one(Piece::Close) + check(
            false,
            range_check_t(vt(l), length_range(st.len)),
        ) + code(write_reserved_t(c, FuncK::spec_from_kind(k), vt(p), vt(l))),
    )
}

pub open spec fn map_p(c: CtxV, mt: MapType, x: Seq<char>, r: RegState, m: Seq<u16>) -> (RegState, Seq<Piece>)
    decreases mt,
{
    let (r1, p) = reg_alloc(r);
    let (r2, l) = reg_alloc(r1);
    let (r3, idx) = reg_alloc(r2);
    let (r4, val) = reg_alloc(r3);
    let bi = ser_p(c, *mt.index, vt(idx), r4, m);
    let bv = ser_p(c, *mt.value, vt(val), bi.0, m.skip(enums_in(*mt.index) as int));
    let k = mt.len.spec_kind();
    (
        reg_release(reg_release(reg_release(reg_release(bv.0, val), idx), l), p),
        check(true, type_check_t(x, "table"@)) + one(Piece::Reserve(p, k)) + code(init_t(l, nat_text(0)))
            + one(Piece::OpenPairs(idx, val, x, count_step_t(l))) + bi.1 + bv.1 + one(Piece::Close)
            + check(false, range_check_t(vt(l), length_range(mt.len))) + code(
            write_reserved_t(c, FuncK::spec_from_kind(k), vt(p), vt(l)),
        ),
    )
}

pub open spec fn fields_p(c: CtxV, fs: Seq<(String, Type)>, x: Seq<char>, r: RegState, m: Seq<u16>) -> (
    RegState,
    Seq<Piece>,
)
    decreases fs,
{
    if fs.len() == 0 {
        (r, seq![])
    } else {
        let p = fs.subrange(0, fs.len() - 1);
        let a = fields_p(c, p, x, r, m);
        let (r1, w) = reg_alloc(a.0);
        let f = ser_p(c, fs[fs.len() - 1].1, vt(w), r1, m.skip(fields_enums(p) as int));
        (
            reg_release(f.0, w),
            a.1 + code(init_t(w, index_t(x, string_literal_text(fs[fs.len() - 1].0@)))) + f.1,
        )
    }
}

// ---------------------------------------------------------------- reading

pub open spec fn des_length_p(len: Length, r: RegState) -> (RegState, Seq<Piece>, u16) {
    let (r1, v) = reg_alloc(r);
    match len.spec_exact() {
        Some(n) => (r1, one(Piece::LenFixed(v, n)), v),
        None => (
            r1,
            one(Piece::Read(v, len.spec_kind())) + check(false, range_check_t(vt(v), length_range(len))),
            v,
        ),
    }
}

pub open spec fn des_number_p(native: bool, n: NumberType, r: RegState) -> (RegState, Seq<Piece>, u16) {
    let (r1, v) = reg_alloc(r);
    let head = one(Piece::Read(v, n.kind)) + check(false, range_check_t(vt(v), n.range)) + check_if(
        !is_nan_kind(n.kind),
        false,
        assert_text(bin_t(vt(v), BinOp::Eq, vt(v)), "value is nan"@),
    );
    if is_24_kind(n.kind) {
        let (r2, w) = reg_alloc(r1);
        (reg_release(r2, v), head + code(init_t(w, mask24_t(native, vt(v)))), w)
    } else {
        (r1, head, v)
    }
}

pub open spec fn des_vector_p(native: bool, v: VectorType, r: RegState) -> (RegState, Seq<Piece>, u16) {
    let (ra, pa, x) = des_number_p(native, v.x, r);
    let (rb, pb, y) = des_number_p(native, v.y, ra);
    match v.z {
        Some(zt) => {
            let (re, pe, z) = des_number_p(native, zt, rb);
            let (r3, w) = reg_alloc(re);
            (
                reg_release(reg_release(reg_release(r3, z), y), x),
                pa + pb + pe + code(init_t(w, vec_t(vt(x), vt(y), vt(z)))),
                w,
            )
        },
        None => {
            let (r3, w) = reg_alloc(rb);
            (
                reg_release(reg_release(r3, y), x),
                pa + pb + code(init_t(w, vec_t(vt(x), vt(y), nat_text(0)))),
                w,
            )
        },
    }
}

pub open spec fn des_string_p(utf8: bool, len: Length, r: RegState) -> (RegState, Seq<Piece>, u16) {
    let (rl, pl, n) = des_length_p(len, r);
    let (r2, s) = reg_alloc(rl);
    (reg_release(r2, n), pl + one(Piece::ReadStr(s, n)) + check_if(utf8, false, utf8_check_t(vt(s))), s)
}

/// The pieces of the code that reads a value of type `t` into a new
/// variable, from registry state `r`, with `m` the table variables of the
/// enums of `t`; the registry state after it; and that variable.
pub open spec fn des_p(native: bool, t: Type, r: RegState, m: Seq<u16>) -> (RegState, Seq<Piece>, u16)
    decreases t,
{
    match t {
        Type::Boolean(_) => {
            let (r1, v) = reg_alloc(r);
            let (r2, w) = reg_alloc(r1);
            (reg_release(r2, v), one(Piece::Read(v, NumberKind::U8)) + code(init_t(w, index_t("bool"@, vt(v)))), w)
        },
        Type::Number(n) => des_number_p(native, n, r),
        Type::Vector(v) => des_vector_p(native, v, r),
        Type::BinaryString(bs) => des_string_p(false, bs.len, r),
        Type::Utf8String(us) => des_string_p(true, us.len, r),
        Type::Array(a) => des_array_p(native, a, r, m),
        Type::SetOf(st) => des_set_p(native, st, r, m),
        Type::MapOf(mt) => des_map_p(native, mt, r, m),
        Type::Enum(e) => {
            let (r1, v) = reg_alloc(r);
            let (r2, w) = reg_alloc(r1);
            (
                reg_release(reg_release(r2, v), m[0]),
                one(Piece::Read(v, e.number.kind)) + check(false, range_check_t(vt(v), variants_range(e)))
                    + code(init_t(w, index_t(vt(m[0]), vt(v)))),
                w,
            )
        },
        Type::Struct(st) => {
            let (rf, pf, vs) = des_fields_p(native, st.fields@, r, m);
            let (r1, w) = reg_alloc(rf);
            (release_all(r1, vs), pf + code(init_t(w, "{ "@ + name_vars_t(st.fields@, vs) + " }"@)), w)
        },
    }
}

pub open spec fn des_array_p(native: bool, a: ArrayType, r: RegState, m: Seq<u16>) -> (RegState, Seq<Piece>, u16)
    decreases a,
{
    let (rl, pl, n) = des_length_p(a.len, r);
    let (r2, arr) = reg_alloc(rl);
    let (r3, i) = reg_alloc(r2);
    let (rb, pb, v) = des_p(native, *a.item, r3, m);
    (
        reg_release(reg_release(reg_release(rb, v), i), n),
        pl + code(init_t(arr, call1_t("table.create"@, vt(n)))) + one(Piece::OpenRange(i, n, seq![])) + pb
            + code(assign_index_t(arr, vt(i), vt(v))) + one(Piece::Close),
        arr,
    )
}

pub open spec fn des_set_p(native: bool, st: SetType, r: RegState, m: Seq<u16>) -> (RegState, Seq<Piece>, u16)
    decreases st,
{
    let (r1, n) = reg_alloc(r);
    let (r2, set) = reg_alloc(r1);
    let (r3, i) = reg_alloc(r2);
    let (rb, pb, v) = des_p(native, *st.item, r3, m);
    (
        reg_release(reg_release(reg_release(rb, v), i), n),
        one(Piece::Read(n, st.len.spec_kind())) + check(false, range_check_t(vt(n), length_range(st.len)))
            + code(init_t(set, empty_table_t())) + one(Piece::OpenRange(i, n, seq![])) + pb + code(
            assign_index_t(set, vt(v), "true"@),
        ) + one(Piece::Close),
        set,
    )
}

pub open spec fn des_map_p(native: bool, mt: MapType, r: RegState, m: Seq<u16>) -> (RegState, Seq<Piece>, u16)
    decreases mt,
{
    let (r1, n) = reg_alloc(r);
    let (r2, map) = reg_alloc(r1);
    let (r3, i) = reg_alloc(r2);
    let (rk, pk, k) = des_p(native, *mt.index, r3, m);
    let (rv, pv, v) = des_p(native, *mt.value, rk, m.skip(enums_in(*mt.index) as int));
    (
        reg_release(reg_release(reg_release(reg_release(rv, v), k), i), n),
        one(Piece::Read(n, mt.len.spec_kind())) + check(false, range_check_t(vt(n), length_range(mt.len)))
            + code(init_t(map, empty_table_t())) + one(Piece::OpenRange(i, n, seq![])) + pk + pv + code(
            assign_index_t(map, vt(k), vt(v)),
        ) + one(Piece::Close),
        map,
    )
}

pub open spec fn des_fields_p(native: bool, fs: Seq<(String, Type)>, r: RegState, m: Seq<u16>) -> (
    RegState,
    Seq<Piece>,
    Seq<u16>,
)
    decreases fs,
{
    if fs.len() == 0 {
        (r, seq![], seq![])
    } else {
        let p = fs.subrange(0, fs.len() - 1);
        let (ra, pa, vs) = des_fields_p(native, p, r, m);
        let (rf, pf, v) = des_p(native, fs[fs.len() - 1].1, ra, m.skip(fields_enums(p) as int));
        (rf, pa + pf, vs.push(v))
    }
}

// ---------------------------------------------------------------- proofs

proof fn lemma_rend_add(c: CtxV, f: bool, s: bool, p: Seq<Piece>, q: Seq<Piece>)
    ensures
        rend(c, f, s, p + q) == rend(c, f, s, p) + rend(c, f, s, q),
    decreases q.len(),
{
    if q.len() == 0 {
        assert(p + q =~= p);
        assert(rend(c, f, s, p) + seq![] =~= rend(c, f, s, p));
    } else {
        lemma_rend_add(c, f, s, p, q.drop_last());
        assert((p + q).drop_last() =~= p + q.drop_last());
        assert((p + q).last() == q.last());
    }
}

proof fn lemma_rend_one(c: CtxV, f: bool, s: bool, p: Piece)
    ensures
        rend(c, f, s, seq![p]) == piece_text(c, f, s, p),
{
    assert(seq![p].drop_last() =~= Seq::<Piece>::empty());
    assert(rend(c, f, s, seq![p].drop_last()) == Seq::<char>::empty());
    assert(seq![p].last() == p);
    assert(Seq::<char>::empty() + piece_text(c, f, s, p) =~= piece_text(c, f, s, p));
}

proof fn lemma_rend_empty(c: CtxV, f: bool, s: bool)
    ensures
        rend(c, f, s, Seq::<Piece>::empty()) == Seq::<char>::empty(),
{
}

proof fn lemma_acc_add(p: Seq<Piece>, q: Seq<Piece>)
    ensures
        accesses(p + q) == accesses(p) + accesses(q),
    decreases q.len(),
{
    if q.len() == 0 {
        assert(p + q =~= p);
        assert(accesses(p) + seq![] =~= accesses(p));
    } else {
        lemma_acc_add(p, q.drop_last());
        assert((p + q).drop_last() =~= p + q.drop_last());
        assert((p + q).last() == q.last());
        let tail = match access(q.last()) {
            Some(x) => seq![x],
            None => Seq::<Access>::empty(),
        };
        assert(accesses(p) + accesses(q.drop_last()) + tail =~= accesses(p) + (accesses(q.drop_last()) + tail));
    }
}

proof fn lemma_acc_one(p: Piece)
    ensures
        accesses(seq![p]) == match access(p) {
            Some(x) => seq![x],
            None => Seq::<Access>::empty(),
        },
{
    assert(seq![p].drop_last() =~= Seq::<Piece>::empty());
    assert(accesses(seq![p].drop_last()) == Seq::<Access>::empty());
    assert(seq![p].last() == p);
    let tail = match access(p) {
        Some(x) => seq![x],
        None => Seq::<Access>::empty(),
    };
    assert(Seq::<Access>::empty() + tail =~= tail);
}

proof fn lemma_acc_quiet(full: bool, t: Seq<char>, b: bool)
    ensures
        accesses(check(full, t)) == Seq::<Access>::empty(),
        accesses(code(t)) == Seq::<Access>::empty(),
        accesses(check_if(b, full, t)) == Seq::<Access>::empty(),
        accesses(Seq::<Piece>::empty()) == Seq::<Access>::empty(),
{
    lemma_acc_one(Piece::Check(full, t));
    lemma_acc_one(Piece::Code(t));
}

proof fn lemma_for_range_t(i: u16, n: u16, b: Seq<char>)
    ensures
        for_range_t(i, nat_text(1), vt(n), b) == range_head(i, n) + b + " end;"@,
{
    assert(for_range_t(i, nat_text(1), vt(n), b) =~= range_head(i, n) + b + " end;"@);
}

proof fn lemma_for_table_t(k: u16, v: u16, x: Seq<char>, b: Seq<char>)
    ensures
        for_table_t(k, v, x, b) == pairs_head(k, v, x) + b + " end;"@,
{
    assert(for_table_t(k, v, x, b) =~= pairs_head(k, v, x) + b + " end;"@);
}

proof fn lemma_assoc4(a: Seq<char>, b: Seq<char>, c: Seq<char>, d: Seq<char>)
    ensures
        a + b + (c + d) == a + b + c + d,
        a + (b + c) + d == a + b + c + d,
{
    assert(a + b + (c + d) =~= a + b + c + d);
    assert(a + (b + c) + d =~= a + b + c + d);
}

proof fn lemma_assoc_ser_loop(o: Seq<char>, l: Seq<char>, rh: Seq<char>, i: Seq<char>, b: Seq<char>, e: Seq<char>)
    ensures
        o + l + (rh + i) + b + e == o + l + (rh + (i + b) + e),
{
    assert(o + l + (rh + i) + b + e =~= o + l + (rh + (i + b) + e));
}

proof fn lemma_assoc_des_loop(l: Seq<char>, a: Seq<char>, rh: Seq<char>, b: Seq<char>, s: Seq<char>, e: Seq<char>)
    ensures
        l + a + (rh + seq![]) + b + s + e == l + a + (rh + (b + s) + e),
{
    assert(l + a + (rh + seq![]) + b + s + e =~= l + a + (rh + (b + s) + e));
}

proof fn lemma_assoc_des_loop2(l: Seq<char>, a: Seq<char>, rh: Seq<char>, b1: Seq<char>, b2: Seq<char>, s: Seq<char>, e: Seq<char>)
    ensures
        l + a + (rh + seq![]) + b1 + b2 + s + e == l + a + (rh + (b1 + b2 + s) + e),
{
    assert(l + a + (rh + seq![]) + b1 + b2 + s + e =~= l + a + (rh + (b1 + b2 + s) + e));
}

proof fn lemma_assoc_set(
    o: Seq<char>,
    ck: Seq<char>,
    rs: Seq<char>,
    i0: Seq<char>,
    ph: Seq<char>,
    cs: Seq<char>,
    b: Seq<char>,
    e: Seq<char>,
    r4: Seq<char>,
    t5: Seq<char>,
)
    ensures
        o + (ck + rs) + i0 + (ph + cs) + b + e + r4 + t5 == o + (ck + rs + i0) + (ph + (cs + b) + e) + (r4 + t5),
{
    assert(o + (ck + rs) + i0 + (ph + cs) + b + e + r4 + t5 =~= o + (ck + rs + i0) + (ph + (cs + b) + e) + (r4
        + t5));
}

proof fn lemma_assoc_map(
    o: Seq<char>,
    ck: Seq<char>,
    rs: Seq<char>,
    i0: Seq<char>,
    ph: Seq<char>,
    cs: Seq<char>,
    bi: Seq<char>,
    bv: Seq<char>,
    e: Seq<char>,
    r4: Seq<char>,
    t5: Seq<char>,
)
    ensures
        o + (ck + rs) + i0 + (ph + cs) + bi + bv + e + r4 + t5 == o + (ck + rs + i0) + (ph + (cs + bi + bv) + e)
            + (r4 + t5),
{
    assert(o + (ck + rs) + i0 + (ph + cs) + bi + bv + e + r4 + t5 =~= o + (ck + rs + i0) + (ph + (cs + bi
        + bv) + e) + (r4 + t5));
}

// writing: the text of the pieces is the text of `mir_serdes`

#[verifier::spinoff_prover]
proof fn lemma_length(s: Ser, c: CtxV, len: Length, x: Seq<char>, r: RegState)
    ensures
        ser_length_s(s, c, r, len, x) == (
            out(length_p(len, x, r).0, rend(c, full_checks(s.opts), basic_checks(s.opts), length_p(len, x, r).1)),
            length_p(len, x, r).2,
        ),
{
    let (f, o) = (full_checks(s.opts), basic_checks(s.opts));
    let (r1, v) = reg_alloc(r);
    match len.spec_exact() {
        Some(n) => {
            lemma_rend_one(c, f, o, Piece::LenFixed(v, n));
        },
        None => {
            let k = len.spec_kind();
            let p1 = code(init_t(v, x));
            let p2 = check(false, range_check_t(vt(v), length_range(len)));
            let p3 = one(Piece::Write(k, vt(v)));
            lemma_rend_add(c, f, o, p1, p2);
            lemma_rend_add(c, f, o, p1 + p2, p3);
            lemma_rend_one(c, f, o, Piece::Code(init_t(v, x)));
            lemma_rend_one(c, f, o, Piece::Check(false, range_check_t(vt(v), length_range(len))));
            lemma_rend_one(c, f, o, Piece::Write(k, vt(v)));
            lemma_assoc4(
                init_t(v, x),
                opt_t(o, range_check_t(vt(v), length_range(len))),
                check_t(c, size_t(k)),
                write_k_t(c, FuncK::spec_from_kind(k), vt(v)),
            );
        },
    }
}

#[verifier::spinoff_prover]
proof fn lemma_number(s: Ser, c: CtxV, n: NumberType, x: Seq<char>)
    ensures
        rend(c, full_checks(s.opts), basic_checks(s.opts), number_p(n, x)) == ser_number_t(s, c, n, x),
{
    let (f, o) = (full_checks(s.opts), basic_checks(s.opts));
    let p1 = check(true, type_check_t(x, "number"@));
    let p2 = check(false, range_check_t(x, n.range));
    let p3 = one(Piece::Write(n.kind, x));
    lemma_rend_add(c, f, o, p1, p2);
    lemma_rend_add(c, f, o, p1 + p2, p3);
    lemma_rend_one(c, f, o, Piece::Check(true, type_check_t(x, "number"@)));
    lemma_rend_one(c, f, o, Piece::Check(false, range_check_t(x, n.range)));
    lemma_rend_one(c, f, o, Piece::Write(n.kind, x));
    lemma_assoc4(
        opt_t(f, type_check_t(x, "number"@)),
        opt_t(o, range_check_t(x, n.range)),
        check_t(c, size_t(n.kind)),
        write_k_t(c, FuncK::spec_from_kind(n.kind), x),
    );
}

#[verifier::spinoff_prover]
proof fn lemma_vector(s: Ser, c: CtxV, v: VectorType, x: Seq<char>)
    ensures
        rend(c, full_checks(s.opts), basic_checks(s.opts), vector_p(v, x)) == ser_vector_t(s, c, v, x),
{
    let (f, o) = (full_checks(s.opts), basic_checks(s.opts));
    let p1 = check(true, type_check_t(x, "vector"@));
    let px = number_p(v.x, index_t(x, string_literal_text("x"@)));
    let py = number_p(v.y, index_t(x, string_literal_text("y"@)));
    let pz = match v.z {
        Some(z) => number_p(z, index_t(x, string_literal_text("z"@))),
        None => seq![],
    };
    lemma_rend_add(c, f, o, p1, px);
    lemma_rend_add(c, f, o, p1 + px, py);
    lemma_rend_add(c, f, o, p1 + px + py, pz);
    lemma_rend_one(c, f, o, Piece::Check(true, type_check_t(x, "vector"@)));
    lemma_number(s, c, v.x, index_t(x, string_literal_text("x"@)));
    lemma_number(s, c, v.y, index_t(x, string_literal_text("y"@)));
    lemma_rend_empty(c, f, o);
    match v.z {
        Some(z) => {
            lemma_number(s, c, z, index_t(x, string_literal_text("z"@)));
        },
        None => {},
    }
    assert(rend(c, f, o, vector_p(v, x)) =~= ser_vector_t(s, c, v, x));
}

#[verifier::spinoff_prover]
proof fn lemma_string(s: Ser, c: CtxV, utf8: bool, len: Length, x: Seq<char>, r: RegState)
    ensures
        out(string_p(utf8, len, x, r).0, rend(c, full_checks(s.opts), basic_checks(s.opts), string_p(utf8, len, x, r).1))
            == ser_string_s(s, c, utf8, len, x, r),
{
    let (f, o) = (full_checks(s.opts), basic_checks(s.opts));
    lemma_length(s, c, len, len_t(x), r);
    let (rl, pl, v) = length_p(len, len_t(x), r);
    let h1 = check(true, type_check_t(x, "string"@));
    let h2 = check_if(utf8, false, utf8_check_t(x));
    lemma_rend_add(c, f, o, h1, h2);
    lemma_rend_add(c, f, o, h1 + h2, pl);
    lemma_rend_add(c, f, o, h1 + h2 + pl, one(Piece::WriteStr(v, x)));
    lemma_rend_one(c, f, o, Piece::Check(true, type_check_t(x, "string"@)));
    lemma_rend_one(c, f, o, Piece::Check(false, utf8_check_t(x)));
    lemma_rend_one(c, f, o, Piece::WriteStr(v, x));
    lemma_rend_empty(c, f, o);
    let hr = opt_t(f, type_check_t(x, "string"@)) + opt_t(utf8 && o, utf8_check_t(x));
    if !utf8 {
        assert(rend(c, f, o, h1 + h2) =~= hr);
    }
    assert(rend(c, f, o, h1 + h2) == hr);
    lemma_assoc4(hr, rend(c, f, o, pl), check_t(c, vt(v)), write_d_t(c, x, vt(v)));
}

/// What the writing code is: the pieces of `ser_p`, with the checks the
/// options ask for.
pub proof fn lemma_ser_pieces(s: Ser, c: CtxV, t: Type, x: Seq<char>, r: RegState, m: Seq<u16>)
    ensures
        ser_s(s, c, t, x, r, m) == out(
            ser_p(c, t, x, r, m).0,
            rend(c, full_checks(s.opts), basic_checks(s.opts), ser_p(c, t, x, r, m).1),
        ),
    decreases t, 2int,
{
    let (f, o) = (full_checks(s.opts), basic_checks(s.opts));
    match t {
        Type::Boolean(_) => {
            let p1 = check(true, type_check_t(x, "boolean"@));
            lemma_rend_add(c, f, o, p1, one(Piece::Write(NumberKind::U8, index_t("bool"@, x))));
            lemma_rend_one(c, f, o, Piece::Check(true, type_check_t(x, "boolean"@)));
            lemma_rend_one(c, f, o, Piece::Write(NumberKind::U8, index_t("bool"@, x)));
            assert(size_t(NumberKind::U8) == nat_text(1));
            lemma_assoc4(
                opt_t(f, type_check_t(x, "boolean"@)),
                check_t(c, nat_text(1)),
                write_k_t(c, FuncK::U8, index_t("bool"@, x)),
                seq![],
            );
            assert(ser_s(s, c, t, x, r, m).text =~= opt_t(f, type_check_t(x, "boolean"@)) + (check_t(c, nat_text(1))
                + write_k_t(c, FuncK::U8, index_t("bool"@, x))));
        },
        Type::Number(n) => {
            lemma_number(s, c, n, x);
        },
        Type::Vector(v) => {
            lemma_vector(s, c, v, x);
        },
        Type::BinaryString(bs) => {
            lemma_string(s, c, false, bs.len, x, r);
        },
        Type::Utf8String(us) => {
            lemma_string(s, c, true, us.len, x, r);
        },
        Type::Array(a) => {
            lemma_array(s, c, a, x, r, m);
        },
        Type::SetOf(st) => {
            lemma_set(s, c, st, x, r, m);
        },
        Type::MapOf(mt) => {
            lemma_map(s, c, mt, x, r, m);
        },
        Type::Enum(e) => {
            lemma_enum(s, c, e, x, r, m);
        },
        Type::Struct(st) => {
            lemma_fields(s, c, st.fields@, x, r, m);
            let fp = fields_p(c, st.fields@, x, r, m);
            lemma_rend_add(c, f, o, check(true, type_check_t(x, "table"@)), fp.1);
            lemma_rend_one(c, f, o, Piece::Check(true, type_check_t(x, "table"@)));
        },
    }
}

#[verifier::spinoff_prover]
proof fn lemma_enum(s: Ser, c: CtxV, e: EnumType, x: Seq<char>, r: RegState, m: Seq<u16>)
    ensures
        ser_enum_s(s, c, e, x, r, m) == out(
            ser_p(c, Type::Enum(e), x, r, m).0,
            rend(c, full_checks(s.opts), basic_checks(s.opts), ser_p(c, Type::Enum(e), x, r, m).1),
        ),
{
    let (f, o) = (full_checks(s.opts), basic_checks(s.opts));
    let (r1, w) = reg_alloc(r);
    let k = e.number.kind;
    let p1 = check(true, type_check_t(x, "string"@));
    let p2 = code(init_t(w, index_t(vt(m[0]), x)));
    let p3 = check(true, assert_text(vt(w), "enum value is not a valid variant"@));
    let p4 = one(Piece::Write(k, vt(w)));
    lemma_rend_add(c, f, o, p1, p2);
    lemma_rend_add(c, f, o, p1 + p2, p3);
    lemma_rend_add(c, f, o, p1 + p2 + p3, p4);
    lemma_rend_one(c, f, o, Piece::Check(true, type_check_t(x, "string"@)));
    lemma_rend_one(c, f, o, Piece::Code(init_t(w, index_t(vt(m[0]), x))));
    lemma_rend_one(c, f, o, Piece::Check(true, assert_text(vt(w), "enum value is not a valid variant"@)));
    lemma_rend_one(c, f, o, Piece::Write(k, vt(w)));
    lemma_assoc4(
        opt_t(f, type_check_t(x, "string"@)) + init_t(w, index_t(vt(m[0]), x)),
        opt_t(f, assert_text(vt(w), "enum value is not a valid variant"@)),
        check_t(c, size_t(k)),
        write_k_t(c, FuncK::spec_from_kind(k), vt(w)),
    );
}

#[verifier::spinoff_prover]
#[verifier::rlimit(60)]
proof fn lemma_array(s: Ser, c: CtxV, a: ArrayType, x: Seq<char>, r: RegState, m: Seq<u16>)
    ensures
        ser_array_s(s, c, a, x, r, m) == out(
            array_p(c, a, x, r, m).0,
            rend(c, full_checks(s.opts), basic_checks(s.opts), array_p(c, a, x, r, m).1),
        ),
    decreases a, 1int,
{
    let (f, o) = (full_checks(s.opts), basic_checks(s.opts));
    lemma_length(s, c, a.len, len_t(x), r);
    let (rl, pl, n) = length_p(a.len, len_t(x), r);
    let (r1, i) = reg_alloc(rl);
    let (r2, w) = reg_alloc(r1);
    lemma_ser_pieces(s, c, *a.item, vt(w), r2, m);
    let body = ser_p(c, *a.item, vt(w), r2, m);
    let p0 = check(true, type_check_t(x, "table"@));
    let iw = init_t(w, index_t(x, vt(i)));
    let po = one(Piece::OpenRange(i, n, iw));
    let pc = one(Piece::Close);
    lemma_rend_add(c, f, o, p0, pl);
    lemma_rend_add(c, f, o, p0 + pl, po);
    lemma_rend_add(c, f, o, p0 + pl + po, body.1);
    lemma_rend_add(c, f, o, p0 + pl + po + body.1, pc);
    lemma_rend_one(c, f, o, Piece::Check(true, type_check_t(x, "table"@)));
    lemma_rend_one(c, f, o, Piece::OpenRange(i, n, iw));
    lemma_rend_one(c, f, o, Piece::Close);
    let bt = rend(c, f, o, body.1);
    lemma_for_range_t(i, n, iw + bt);
    lemma_assoc_ser_loop(opt_t(f, type_check_t(x, "table"@)), rend(c, f, o, pl), range_head(i, n), iw, bt, " end;"@);
}

#[verifier::spinoff_prover]
#[verifier::rlimit(60)]
proof fn lemma_set(s: Ser, c: CtxV, st: SetType, x: Seq<char>, r: RegState, m: Seq<u16>)
    ensures
        ser_set_s(s, c, st, x, r, m) == out(
            set_p(c, st, x, r, m).0,
            rend(c, full_checks(s.opts), basic_checks(s.opts), set_p(c, st, x, r, m).1),
        ),
    decreases st, 1int,
{
    let (f, o) = (full_checks(s.opts), basic_checks(s.opts));
    let (r1, p) = reg_alloc(r);
    let (r2, l) = reg_alloc(r1);
    let (r3, idx) = reg_alloc(r2);
    let (r4, val) = reg_alloc(r3);
    lemma_ser_pieces(s, c, *st.item, vt(idx), r4, m);
    let body = ser_p(c, *st.item, vt(idx), r4, m);
    let k = st.len.spec_kind();
    let tc = type_check_t(x, "table"@);
    let cs = count_step_t(l);
    let t4 = range_check_t(vt(l), length_range(st.len));
    let t5 = write_reserved_t(c, FuncK::spec_from_kind(k), vt(p), vt(l));
    let c0 = check(true, tc);
    let c1 = one(Piece::Reserve(p, k));
    let c2 = code(init_t(l, nat_text(0)));
    let c3 = one(Piece::OpenPairs(idx, val, x, cs));
    let c5 = one(Piece::Close);
    let c6 = check(false, t4);
    let c7 = code(t5);
    lemma_rend_add(c, f, o, c0, c1);
    lemma_rend_add(c, f, o, c0 + c1, c2);
    lemma_rend_add(c, f, o, c0 + c1 + c2, c3);
    lemma_rend_add(c, f, o, c0 + c1 + c2 + c3, body.1);
    lemma_rend_add(c, f, o, c0 + c1 + c2 + c3 + body.1, c5);
    lemma_rend_add(c, f, o, c0 + c1 + c2 + c3 + body.1 + c5, c6);
    lemma_rend_add(c, f, o, c0 + c1 + c2 + c3 + body.1 + c5 + c6, c7);
    lemma_rend_one(c, f, o, Piece::Check(true, tc));
    lemma_rend_one(c, f, o, Piece::Reserve(p, k));
    lemma_rend_one(c, f, o, Piece::Code(init_t(l, nat_text(0))));
    lemma_rend_one(c, f, o, Piece::OpenPairs(idx, val, x, cs));
    lemma_rend_one(c, f, o, Piece::Close);
    lemma_rend_one(c, f, o, Piece::Check(false, t4));
    lemma_rend_one(c, f, o, Piece::Code(t5));
    let bt = rend(c, f, o, body.1);
    lemma_for_table_t(idx, val, x, cs + bt);
    lemma_assoc_set(
        opt_t(f, tc),
        check_t(c, size_t(k)),
        reserve_t(c, p, size_t(k)),
        init_t(l, nat_text(0)),
        pairs_head(idx, val, x),
        cs,
        bt,
        " end;"@,
        opt_t(o, t4),
        t5,
    );
}

#[verifier::spinoff_prover]
#[verifier::rlimit(60)]
proof fn lemma_map(s: Ser, c: CtxV, mt: MapType, x: Seq<char>, r: RegState, m: Seq<u16>)
    ensures
        ser_map_s(s, c, mt, x, r, m) == out(
            map_p(c, mt, x, r, m).0,
            rend(c, full_checks(s.opts), basic_checks(s.opts), map_p(c, mt, x, r, m).1),
        ),
    decreases mt, 1int,
{
    let (f, o) = (full_checks(s.opts), basic_checks(s.opts));
    let (r1, p) = reg_alloc(r);
    let (r2, l) = reg_alloc(r1);
    let (r3, idx) = reg_alloc(r2);
    let (r4, val) = reg_alloc(r3);
    lemma_ser_pieces(s, c, *mt.index, vt(idx), r4, m);
    let bi = ser_p(c, *mt.index, vt(idx), r4, m);
    let m2 = m.skip(enums_in(*mt.index) as int);
    lemma_ser_pieces(s, c, *mt.value, vt(val), bi.0, m2);
    let bv = ser_p(c, *mt.value, vt(val), bi.0, m2);
    let k = mt.len.spec_kind();
    let tc = type_check_t(x, "table"@);
    let cs = count_step_t(l);
    let t4 = range_check_t(vt(l), length_range(mt.len));
    let t5 = write_reserved_t(c, FuncK::spec_from_kind(k), vt(p), vt(l));
    let c0 = check(true, tc);
    let c1 = one(Piece::Reserve(p, k));
    let c2 = code(init_t(l, nat_text(0)));
    let c3 = one(Piece::OpenPairs(idx, val, x, cs));
    let c5 = one(Piece::Close);
    let c6 = check(false, t4);
    let c7 = code(t5);
    lemma_rend_add(c, f, o, c0, c1);
    lemma_rend_add(c, f, o, c0 + c1, c2);
    lemma_rend_add(c, f, o, c0 + c1 + c2, c3);
    lemma_rend_add(c, f, o, c0 + c1 + c2 + c3, bi.1);
    lemma_rend_add(c, f, o, c0 + c1 + c2 + c3 + bi.1, bv.1);
    lemma_rend_add(c, f, o, c0 + c1 + c2 + c3 + bi.1 + bv.1, c5);
    lemma_rend_add(c, f, o, c0 + c1 + c2 + c3 + bi.1 + bv.1 + c5, c6);
    lemma_rend_add(c, f, o, c0 + c1 + c2 + c3 + bi.1 + bv.1 + c5 + c6, c7);
    lemma_rend_one(c, f, o, Piece::Check(true, tc));
    lemma_rend_one(c, f, o, Piece::Reserve(p, k));
    lemma_rend_one(c, f, o, Piece::Code(init_t(l, nat_text(0))));
    lemma_rend_one(c, f, o, Piece::OpenPairs(idx, val, x, cs));
    lemma_rend_one(c, f, o, Piece::Close);
    lemma_rend_one(c, f, o, Piece::Check(false, t4));
    lemma_rend_one(c, f, o, Piece::Code(t5));
    let bit = rend(c, f, o, bi.1);
    let bvt = rend(c, f, o, bv.1);
    lemma_for_table_t(idx, val, x, cs + bit + bvt);
    lemma_assoc_map(
        opt_t(f, tc),
        check_t(c, size_t(k)),
        reserve_t(c, p, size_t(k)),
        init_t(l, nat_text(0)),
        pairs_head(idx, val, x),
        cs,
        bit,
        bvt,
        " end;"@,
        opt_t(o, t4),
        t5,
    );
}

#[verifier::spinoff_prover]
proof fn lemma_fields(s: Ser, c: CtxV, fs: Seq<(String, Type)>, x: Seq<char>, r: RegState, m: Seq<u16>)
    ensures
        ser_fields_s(s, c, fs, x, r, m) == out(
            fields_p(c, fs, x, r, m).0,
            rend(c, full_checks(s.opts), basic_checks(s.opts), fields_p(c, fs, x, r, m).1),
        ),
    decreases fs, 1int,
{
    let (f, o) = (full_checks(s.opts), basic_checks(s.opts));
    if fs.len() == 0 {
        lemma_rend_empty(c, f, o);
    } else {
        let pre = fs.subrange(0, fs.len() - 1);
        lemma_fields(s, c, pre, x, r, m);
        let ap = fields_p(c, pre, x, r, m);
        let (r1, w) = reg_alloc(ap.0);
        let m2 = m.skip(fields_enums(pre) as int);
        lemma_ser_pieces(s, c, fs[fs.len() - 1].1, vt(w), r1, m2);
        let fp = ser_p(c, fs[fs.len() - 1].1, vt(w), r1, m2);
        let it = init_t(w, index_t(x, string_literal_text(fs[fs.len() - 1].0@)));
        lemma_rend_add(c, f, o, ap.1, code(it));
        lemma_rend_add(c, f, o, ap.1 + code(it), fp.1);
        lemma_rend_one(c, f, o, Piece::Code(it));
    }
}

// reading: the text of the pieces is the text of `mir_serdes`

#[verifier::spinoff_prover]
proof fn lemma_des_length(d: Des, c: CtxV, len: Length, r: RegState)
    ensures
        des_length_s(d, c, r, len) == (
            out(des_length_p(len, r).0, rend(c, d.check, d.check, des_length_p(len, r).1)),
            des_length_p(len, r).2,
        ),
{
    let k = d.check;
    let (r1, v) = reg_alloc(r);
    match len.spec_exact() {
        Some(n) => {
            lemma_rend_one(c, k, k, Piece::LenFixed(v, n));
        },
        None => {
            let p1 = one(Piece::Read(v, len.spec_kind()));
            let p2 = check(false, range_check_t(vt(v), length_range(len)));
            lemma_rend_add(c, k, k, p1, p2);
            lemma_rend_one(c, k, k, Piece::Read(v, len.spec_kind()));
            lemma_rend_one(c, k, k, Piece::Check(false, range_check_t(vt(v), length_range(len))));
        },
    }
}

#[verifier::spinoff_prover]
proof fn lemma_des_number(d: Des, c: CtxV, n: NumberType, r: RegState)
    ensures
        des_number_s(d, c, n, r) == (
            out(des_number_p(d.native, n, r).0, rend(c, d.check, d.check, des_number_p(d.native, n, r).1)),
            des_number_p(d.native, n, r).2,
        ),
{
    let k = d.check;
    let (r1, v) = reg_alloc(r);
    let nan = assert_text(bin_t(vt(v), BinOp::Eq, vt(v)), "value is nan"@);
    let p1 = one(Piece::Read(v, n.kind));
    let p2 = check(false, range_check_t(vt(v), n.range));
    let p3 = check_if(!is_nan_kind(n.kind), false, nan);
    lemma_rend_add(c, k, k, p1, p2);
    lemma_rend_add(c, k, k, p1 + p2, p3);
    lemma_rend_one(c, k, k, Piece::Read(v, n.kind));
    lemma_rend_one(c, k, k, Piece::Check(false, range_check_t(vt(v), n.range)));
    lemma_rend_one(c, k, k, Piece::Check(false, nan));
    lemma_rend_empty(c, k, k);
    let head = read_k_t(c, FuncK::spec_from_kind(n.kind), v) + opt_t(k, range_check_t(vt(v), n.range)) + opt_t(
        k && !is_nan_kind(n.kind),
        nan,
    );
    if is_nan_kind(n.kind) {
        assert(rend(c, k, k, p1 + p2 + p3) =~= head);
    }
    assert(rend(c, k, k, p1 + p2 + p3) == head);
    if is_24_kind(n.kind) {
        let (r2, w) = reg_alloc(r1);
        lemma_rend_add(c, k, k, p1 + p2 + p3, code(init_t(w, mask24_t(d.native, vt(v)))));
        lemma_rend_one(c, k, k, Piece::Code(init_t(w, mask24_t(d.native, vt(v)))));
    }
}

#[verifier::spinoff_prover]
proof fn lemma_des_vector(d: Des, c: CtxV, v: VectorType, r: RegState)
    ensures
        des_vector_s(d, c, v, r) == (
            out(des_vector_p(d.native, v, r).0, rend(c, d.check, d.check, des_vector_p(d.native, v, r).1)),
            des_vector_p(d.native, v, r).2,
        ),
{
    let k = d.check;
    lemma_des_number(d, c, v.x, r);
    let (ra, pa, x) = des_number_p(d.native, v.x, r);
    lemma_des_number(d, c, v.y, ra);
    let (rb, pb, y) = des_number_p(d.native, v.y, ra);
    lemma_rend_add(c, k, k, pa, pb);
    match v.z {
        Some(zt) => {
            lemma_des_number(d, c, zt, rb);
            let (re, pe, z) = des_number_p(d.native, zt, rb);
            let (r3, w) = reg_alloc(re);
            let it = init_t(w, vec_t(vt(x), vt(y), vt(z)));
            lemma_rend_add(c, k, k, pa + pb, pe);
            lemma_rend_add(c, k, k, pa + pb + pe, code(it));
            lemma_rend_one(c, k, k, Piece::Code(it));
        },
        None => {
            let (r3, w) = reg_alloc(rb);
            let it = init_t(w, vec_t(vt(x), vt(y), nat_text(0)));
            lemma_rend_add(c, k, k, pa + pb, code(it));
            lemma_rend_one(c, k, k, Piece::Code(it));
        },
    }
}

#[verifier::spinoff_prover]
proof fn lemma_des_string(d: Des, c: CtxV, utf8: bool, len: Length, r: RegState)
    ensures
        des_string_s(d, c, utf8, len, r) == (
            out(des_string_p(utf8, len, r).0, rend(c, d.check, d.check, des_string_p(utf8, len, r).1)),
            des_string_p(utf8, len, r).2,
        ),
{
    let k = d.check;
    lemma_des_length(d, c, len, r);
    let (rl, pl, n) = des_length_p(len, r);
    let (r2, s) = reg_alloc(rl);
    let pu = check_if(utf8, false, utf8_check_t(vt(s)));
    lemma_rend_add(c, k, k, pl, one(Piece::ReadStr(s, n)));
    lemma_rend_add(c, k, k, pl + one(Piece::ReadStr(s, n)), pu);
    lemma_rend_one(c, k, k, Piece::ReadStr(s, n));
    lemma_rend_one(c, k, k, Piece::Check(false, utf8_check_t(vt(s))));
    lemma_rend_empty(c, k, k);
    if !utf8 {
        assert(rend(c, k, k, pu) =~= opt_t(utf8 && k, utf8_check_t(vt(s))));
    }
}

/// What the reading code is: the pieces of `des_p`, with the checks when
/// reading checks; it ends in the same registry state and the same variable.
pub proof fn lemma_des_pieces(d: Des, c: CtxV, t: Type, r: RegState, m: Seq<u16>)
    ensures
        des_s(d, c, t, r, m) == (
            out(des_p(d.native, t, r, m).0, rend(c, d.check, d.check, des_p(d.native, t, r, m).1)),
            des_p(d.native, t, r, m).2,
        ),
    decreases t, 2int,
{
    let k = d.check;
    match t {
        Type::Boolean(_) => {
            let (r1, v) = reg_alloc(r);
            let (r2, w) = reg_alloc(r1);
            let it = init_t(w, index_t("bool"@, vt(v)));
            lemma_rend_add(c, k, k, one(Piece::Read(v, NumberKind::U8)), code(it));
            lemma_rend_one(c, k, k, Piece::Read(v, NumberKind::U8));
            lemma_rend_one(c, k, k, Piece::Code(it));
        },
        Type::Number(n) => {
            lemma_des_number(d, c, n, r);
        },
        Type::Vector(v) => {
            lemma_des_vector(d, c, v, r);
        },
        Type::BinaryString(bs) => {
            lemma_des_string(d, c, false, bs.len, r);
        },
        Type::Utf8String(us) => {
            lemma_des_string(d, c, true, us.len, r);
        },
        Type::Array(a) => {
            lemma_des_array(d, c, a, r, m);
        },
        Type::SetOf(st) => {
            lemma_des_set(d, c, st, r, m);
        },
        Type::MapOf(mt) => {
            lemma_des_map(d, c, mt, r, m);
        },
        Type::Enum(e) => {
            let (r1, v) = reg_alloc(r);
            let (r2, w) = reg_alloc(r1);
            let p1 = one(Piece::Read(v, e.number.kind));
            let p2 = check(false, range_check_t(vt(v), variants_range(e)));
            let it = init_t(w, index_t(vt(m[0]), vt(v)));
            lemma_rend_add(c, k, k, p1, p2);
            lemma_rend_add(c, k, k, p1 + p2, code(it));
            lemma_rend_one(c, k, k, Piece::Read(v, e.number.kind));
            lemma_rend_one(c, k, k, Piece::Check(false, range_check_t(vt(v), variants_range(e))));
            lemma_rend_one(c, k, k, Piece::Code(it));
        },
        Type::Struct(st) => {
            lemma_des_fields(d, c, st.fields@, r, m);
            let (rf, pf, vs) = des_fields_p(d.native, st.fields@, r, m);
            let (r1, w) = reg_alloc(rf);
            let it = init_t(w, "{ "@ + name_vars_t(st.fields@, vs) + " }"@);
            lemma_rend_add(c, k, k, pf, code(it));
            lemma_rend_one(c, k, k, Piece::Code(it));
        },
    }
}

#[verifier::spinoff_prover]
#[verifier::rlimit(60)]
proof fn lemma_des_array(d: Des, c: CtxV, a: ArrayType, r: RegState, m: Seq<u16>)
    ensures
        des_array_s(d, c, a, r, m) == (
            out(des_array_p(d.native, a, r, m).0, rend(c, d.check, d.check, des_array_p(d.native, a, r, m).1)),
            des_array_p(d.native, a, r, m).2,
        ),
    decreases a, 1int,
{
    let k = d.check;
    lemma_des_length(d, c, a.len, r);
    let (rl, pl, n) = des_length_p(a.len, r);
    let (r2, arr) = reg_alloc(rl);
    let (r3, i) = reg_alloc(r2);
    lemma_des_pieces(d, c, *a.item, r3, m);
    let (rb, pb, v) = des_p(d.native, *a.item, r3, m);
    let ta = init_t(arr, call1_t("table.create"@, vt(n)));
    let ts = assign_index_t(arr, vt(i), vt(v));
    let p1 = code(ta);
    let p2 = one(Piece::OpenRange(i, n, seq![]));
    let p4 = code(ts);
    let p5 = one(Piece::Close);
    lemma_rend_add(c, k, k, pl, p1);
    lemma_rend_add(c, k, k, pl + p1, p2);
    lemma_rend_add(c, k, k, pl + p1 + p2, pb);
    lemma_rend_add(c, k, k, pl + p1 + p2 + pb, p4);
    lemma_rend_add(c, k, k, pl + p1 + p2 + pb + p4, p5);
    lemma_rend_one(c, k, k, Piece::Code(ta));
    lemma_rend_one(c, k, k, Piece::OpenRange(i, n, seq![]));
    lemma_rend_one(c, k, k, Piece::Code(ts));
    lemma_rend_one(c, k, k, Piece::Close);
    let bt = rend(c, k, k, pb);
    lemma_for_range_t(i, n, bt + ts);
    lemma_assoc_des_loop(rend(c, k, k, pl), ta, range_head(i, n), bt, ts, " end;"@);
}

#[verifier::spinoff_prover]
#[verifier::rlimit(60)]
proof fn lemma_des_set(d: Des, c: CtxV, st: SetType, r: RegState, m: Seq<u16>)
    ensures
        des_set_s(d, c, st, r, m) == (
            out(des_set_p(d.native, st, r, m).0, rend(c, d.check, d.check, des_set_p(d.native, st, r, m).1)),
            des_set_p(d.native, st, r, m).2,
        ),
    decreases st, 1int,
{
    let k = d.check;
    let (r1, n) = reg_alloc(r);
    let (r2, set) = reg_alloc(r1);
    let (r3, i) = reg_alloc(r2);
    lemma_des_pieces(d, c, *st.item, r3, m);
    let (rb, pb, v) = des_p(d.native, *st.item, r3, m);
    let kk = st.len.spec_kind();
    let rc = range_check_t(vt(n), length_range(st.len));
    let ta = init_t(set, empty_table_t());
    let ts = assign_index_t(set, vt(v), "true"@);
    let p0 = one(Piece::Read(n, kk));
    let pc = check(false, rc);
    let p1 = code(ta);
    let p2 = one(Piece::OpenRange(i, n, seq![]));
    let p4 = code(ts);
    let p5 = one(Piece::Close);
    lemma_rend_add(c, k, k, p0, pc);
    lemma_rend_add(c, k, k, p0 + pc, p1);
    lemma_rend_add(c, k, k, p0 + pc + p1, p2);
    lemma_rend_add(c, k, k, p0 + pc + p1 + p2, pb);
    lemma_rend_add(c, k, k, p0 + pc + p1 + p2 + pb, p4);
    lemma_rend_add(c, k, k, p0 + pc + p1 + p2 + pb + p4, p5);
    lemma_rend_one(c, k, k, Piece::Read(n, kk));
    lemma_rend_one(c, k, k, Piece::Check(false, rc));
    lemma_rend_one(c, k, k, Piece::Code(ta));
    lemma_rend_one(c, k, k, Piece::OpenRange(i, n, seq![]));
    lemma_rend_one(c, k, k, Piece::Code(ts));
    lemma_rend_one(c, k, k, Piece::Close);
    let bt = rend(c, k, k, pb);
    lemma_for_range_t(i, n, bt + ts);
    lemma_assoc_des_loop(
        read_k_t(c, FuncK::spec_from_kind(kk), n) + opt_t(k, rc),
        ta,
        range_head(i, n),
        bt,
        ts,
        " end;"@,
    );
}

#[verifier::spinoff_prover]
#[verifier::rlimit(60)]
proof fn lemma_des_map(d: Des, c: CtxV, mt: MapType, r: RegState, m: Seq<u16>)
    ensures
        des_map_s(d, c, mt, r, m) == (
            out(des_map_p(d.native, mt, r, m).0, rend(c, d.check, d.check, des_map_p(d.native, mt, r, m).1)),
            des_map_p(d.native, mt, r, m).2,
        ),
    decreases mt, 1int,
{
    let k = d.check;
    let (r1, n) = reg_alloc(r);
    let (r2, map) = reg_alloc(r1);
    let (r3, i) = reg_alloc(r2);
    lemma_des_pieces(d, c, *mt.index, r3, m);
    let (rk, pk, kv) = des_p(d.native, *mt.index, r3, m);
    let m2 = m.skip(enums_in(*mt.index) as int);
    lemma_des_pieces(d, c, *mt.value, rk, m2);
    let (rv, pv, v) = des_p(d.native, *mt.value, rk, m2);
    let kk = mt.len.spec_kind();
    let rc = range_check_t(vt(n), length_range(mt.len));
    let ta = init_t(map, empty_table_t());
    let ts = assign_index_t(map, vt(kv), vt(v));
    let p0 = one(Piece::Read(n, kk));
    let pc = check(false, rc);
    let p1 = code(ta);
    let p2 = one(Piece::OpenRange(i, n, seq![]));
    let p4 = code(ts);
    let p5 = one(Piece::Close);
    lemma_rend_add(c, k, k, p0, pc);
    lemma_rend_add(c, k, k, p0 + pc, p1);
    lemma_rend_add(c, k, k, p0 + pc + p1, p2);
    lemma_rend_add(c, k, k, p0 + pc + p1 + p2, pk);
    lemma_rend_add(c, k, k, p0 + pc + p1 + p2 + pk, pv);
    lemma_rend_add(c, k, k, p0 + pc + p1 + p2 + pk + pv, p4);
    lemma_rend_add(c, k, k, p0 + pc + p1 + p2 + pk + pv + p4, p5);
    lemma_rend_one(c, k, k, Piece::Read(n, kk));
    lemma_rend_one(c, k, k, Piece::Check(false, rc));
    lemma_rend_one(c, k, k, Piece::Code(ta));
    lemma_rend_one(c, k, k, Piece::OpenRange(i, n, seq![]));
    lemma_rend_one(c, k, k, Piece::Code(ts));
    lemma_rend_one(c, k, k, Piece::Close);
    let kt = rend(c, k, k, pk);
    let vtt = rend(c, k, k, pv);
    lemma_for_range_t(i, n, kt + vtt + ts);
    lemma_assoc_des_loop2(
        read_k_t(c, FuncK::spec_from_kind(kk), n) + opt_t(k, rc),
        ta,
        range_head(i, n),
        kt,
        vtt,
        ts,
        " end;"@,
    );
}

#[verifier::spinoff_prover]
proof fn lemma_des_fields(d: Des, c: CtxV, fs: Seq<(String, Type)>, r: RegState, m: Seq<u16>)
    ensures
        des_fields_s(d, c, fs, r, m) == (
            out(des_fields_p(d.native, fs, r, m).0, rend(c, d.check, d.check, des_fields_p(d.native, fs, r, m).1)),
            des_fields_p(d.native, fs, r, m).2,
        ),
    decreases fs, 1int,
{
    let k = d.check;
    if fs.len() == 0 {
        lemma_rend_empty(c, k, k);
    } else {
        let pre = fs.subrange(0, fs.len() - 1);
        lemma_des_fields(d, c, pre, r, m);
        let (ra, pa, vs) = des_fields_p(d.native, pre, r, m);
        let m2 = m.skip(fields_enums(pre) as int);
        lemma_des_pieces(d, c, fs[fs.len() - 1].1, ra, m2);
        let (rf, pf, v) = des_p(d.native, fs[fs.len() - 1].1, ra, m2);
        lemma_rend_add(c, k, k, pa, pf);
    }
}

// what a packet sees of the pieces

#[verifier::spinoff_prover]
proof fn lemma_acc_length(len: Length, x: Seq<char>, r: RegState)
    ensures
        accesses(length_p(len, x, r).1) == length_layout(len),
        accesses(des_length_p(len, r).1) == length_layout(len),
{
    let (r1, v) = reg_alloc(r);
    match len.spec_exact() {
        Some(n) => {
            lemma_acc_one(Piece::LenFixed(v, n));
        },
        None => {
            let k = len.spec_kind();
            let rc = range_check_t(vt(v), length_range(len));
            lemma_acc_add(code(init_t(v, x)), check(false, rc));
            lemma_acc_add(code(init_t(v, x)) + check(false, rc), one(Piece::Write(k, vt(v))));
            lemma_acc_quiet(false, init_t(v, x), false);
            lemma_acc_quiet(false, rc, false);
            lemma_acc_one(Piece::Write(k, vt(v)));
            lemma_acc_add(one(Piece::Read(v, k)), check(false, rc));
            lemma_acc_one(Piece::Read(v, k));
            assert(accesses(length_p(len, x, r).1) =~= length_layout(len));
            assert(accesses(des_length_p(len, r).1) =~= length_layout(len));
        },
    }
}

#[verifier::spinoff_prover]
proof fn lemma_acc_number(n: NumberType, x: Seq<char>)
    ensures
        accesses(number_p(n, x)) == num_access(n.kind),
{
    let p1 = check(true, type_check_t(x, "number"@));
    let p2 = check(false, range_check_t(x, n.range));
    lemma_acc_add(p1, p2);
    lemma_acc_add(p1 + p2, one(Piece::Write(n.kind, x)));
    lemma_acc_quiet(true, type_check_t(x, "number"@), false);
    lemma_acc_quiet(false, range_check_t(x, n.range), false);
    lemma_acc_one(Piece::Write(n.kind, x));
    assert(accesses(number_p(n, x)) =~= num_access(n.kind));
}

#[verifier::spinoff_prover]
proof fn lemma_acc_des_number(native: bool, n: NumberType, r: RegState)
    ensures
        accesses(des_number_p(native, n, r).1) == num_access(n.kind),
{
    let (r1, v) = reg_alloc(r);
    let nan = assert_text(bin_t(vt(v), BinOp::Eq, vt(v)), "value is nan"@);
    let p1 = one(Piece::Read(v, n.kind));
    let p2 = check(false, range_check_t(vt(v), n.range));
    let p3 = check_if(!is_nan_kind(n.kind), false, nan);
    lemma_acc_add(p1, p2);
    lemma_acc_add(p1 + p2, p3);
    lemma_acc_one(Piece::Read(v, n.kind));
    lemma_acc_quiet(false, range_check_t(vt(v), n.range), false);
    lemma_acc_quiet(false, nan, !is_nan_kind(n.kind));
    if is_24_kind(n.kind) {
        let (r2, w) = reg_alloc(r1);
        lemma_acc_add(p1 + p2 + p3, code(init_t(w, mask24_t(native, vt(v)))));
        lemma_acc_quiet(false, init_t(w, mask24_t(native, vt(v))), false);
    }
    assert(accesses(des_number_p(native, n, r).1) =~= num_access(n.kind));
}

#[verifier::spinoff_prover]
proof fn lemma_acc_vector(native: bool, v: VectorType, x: Seq<char>, r: RegState)
    ensures
        accesses(vector_p(v, x)) == layout(Type::Vector(v)),
        accesses(des_vector_p(native, v, r).1) == layout(Type::Vector(v)),
{
    let p1 = check(true, type_check_t(x, "vector"@));
    let px = number_p(v.x, index_t(x, string_literal_text("x"@)));
    let py = number_p(v.y, index_t(x, string_literal_text("y"@)));
    let pz = match v.z {
        Some(z) => number_p(z, index_t(x, string_literal_text("z"@))),
        None => seq![],
    };
    lemma_acc_add(p1, px);
    lemma_acc_add(p1 + px, py);
    lemma_acc_add(p1 + px + py, pz);
    lemma_acc_quiet(true, type_check_t(x, "vector"@), false);
    lemma_acc_number(v.x, index_t(x, string_literal_text("x"@)));
    lemma_acc_number(v.y, index_t(x, string_literal_text("y"@)));
    lemma_acc_des_number(native, v.x, r);
    let (ra, pa, xv) = des_number_p(native, v.x, r);
    lemma_acc_des_number(native, v.y, ra);
    let (rb, pb, yv) = des_number_p(native, v.y, ra);
    lemma_acc_add(pa, pb);
    match v.z {
        Some(z) => {
            lemma_acc_number(z, index_t(x, string_literal_text("z"@)));
            lemma_acc_des_number(native, z, rb);
            let (re, pe, zv) = des_number_p(native, z, rb);
            let (r3, w) = reg_alloc(re);
            let it = init_t(w, vec_t(vt(xv), vt(yv), vt(zv)));
            lemma_acc_add(pa + pb, pe);
            lemma_acc_add(pa + pb + pe, code(it));
            lemma_acc_quiet(false, it, false);
        },
        None => {
            let (r3, w) = reg_alloc(rb);
            let it = init_t(w, vec_t(vt(xv), vt(yv), nat_text(0)));
            lemma_acc_add(pa + pb, code(it));
            lemma_acc_quiet(false, it, false);
        },
    }
    assert(accesses(vector_p(v, x)) =~= layout(Type::Vector(v)));
    assert(accesses(des_vector_p(native, v, r).1) =~= layout(Type::Vector(v)));
}

#[verifier::spinoff_prover]
proof fn lemma_acc_string(utf8: bool, len: Length, x: Seq<char>, r: RegState)
    ensures
        accesses(string_p(utf8, len, x, r).1) == length_layout(len) + seq![Access::Str],
        accesses(des_string_p(utf8, len, r).1) == length_layout(len) + seq![Access::Str],
{
    lemma_acc_length(len, len_t(x), r);
    let (rl, pl, v) = length_p(len, len_t(x), r);
    let h1 = check(true, type_check_t(x, "string"@));
    let h2 = check_if(utf8, false, utf8_check_t(x));
    lemma_acc_add(h1, h2);
    lemma_acc_add(h1 + h2, pl);
    lemma_acc_add(h1 + h2 + pl, one(Piece::WriteStr(v, x)));
    lemma_acc_quiet(true, type_check_t(x, "string"@), false);
    lemma_acc_quiet(false, utf8_check_t(x), utf8);
    lemma_acc_one(Piece::WriteStr(v, x));
    let (dl, dpl, n) = des_length_p(len, r);
    let (r2, s) = reg_alloc(dl);
    let pu = check_if(utf8, false, utf8_check_t(vt(s)));
    lemma_acc_add(dpl, one(Piece::ReadStr(s, n)));
    lemma_acc_add(dpl + one(Piece::ReadStr(s, n)), pu);
    lemma_acc_one(Piece::ReadStr(s, n));
    lemma_acc_quiet(false, utf8_check_t(vt(s)), utf8);
    assert(accesses(string_p(utf8, len, x, r).1) =~= length_layout(len) + seq![Access::Str]);
    assert(accesses(des_string_p(utf8, len, r).1) =~= length_layout(len) + seq![Access::Str]);
}

/// What the writing code puts in a packet is the layout of the type.
pub proof fn lemma_ser_layout(c: CtxV, t: Type, x: Seq<char>, r: RegState, m: Seq<u16>)
    ensures
        accesses(ser_p(c, t, x, r, m).1) == layout(t),
    decreases t, 2int,
{
    match t {
        Type::Boolean(_) => {
            let p1 = check(true, type_check_t(x, "boolean"@));
            lemma_acc_add(p1, one(Piece::Write(NumberKind::U8, index_t("bool"@, x))));
            lemma_acc_quiet(true, type_check_t(x, "boolean"@), false);
            lemma_acc_one(Piece::Write(NumberKind::U8, index_t("bool"@, x)));
            assert(accesses(ser_p(c, t, x, r, m).1) =~= layout(t));
        },
        Type::Number(n) => {
            lemma_acc_number(n, x);
        },
        Type::Vector(v) => {
            lemma_acc_vector(false, v, x, r);
        },
        Type::BinaryString(bs) => {
            lemma_acc_string(false, bs.len, x, r);
        },
        Type::Utf8String(us) => {
            lemma_acc_string(true, us.len, x, r);
        },
        Type::Array(a) => {
            lemma_acc_array(c, a, x, r, m);
        },
        Type::SetOf(st) => {
            lemma_acc_set(c, st, x, r, m);
        },
        Type::MapOf(mt) => {
            lemma_acc_map(c, mt, x, r, m);
        },
        Type::Enum(e) => {
            let (r1, w) = reg_alloc(r);
            let p1 = check(true, type_check_t(x, "string"@));
            let p2 = code(init_t(w, index_t(vt(m[0]), x)));
            let p3 = check(true, assert_text(vt(w), "enum value is not a valid variant"@));
            lemma_acc_add(p1, p2);
            lemma_acc_add(p1 + p2, p3);
            lemma_acc_add(p1 + p2 + p3, one(Piece::Write(e.number.kind, vt(w))));
            lemma_acc_quiet(true, type_check_t(x, "string"@), false);
            lemma_acc_quiet(false, init_t(w, index_t(vt(m[0]), x)), false);
            lemma_acc_quiet(true, assert_text(vt(w), "enum value is not a valid variant"@), false);
            lemma_acc_one(Piece::Write(e.number.kind, vt(w)));
            assert(accesses(ser_p(c, t, x, r, m).1) =~= layout(t));
        },
        Type::Struct(st) => {
            lemma_acc_fields(c, st.fields@, x, r, m);
            let fp = fields_p(c, st.fields@, x, r, m);
            lemma_acc_add(check(true, type_check_t(x, "table"@)), fp.1);
            lemma_acc_quiet(true, type_check_t(x, "table"@), false);
            assert(accesses(ser_p(c, t, x, r, m).1) =~= layout(t));
        },
    }
}

#[verifier::spinoff_prover]
#[verifier::rlimit(60)]
proof fn lemma_acc_array(c: CtxV, a: ArrayType, x: Seq<char>, r: RegState, m: Seq<u16>)
    ensures
        accesses(array_p(c, a, x, r, m).1) == layout(Type::Array(a)),
    decreases a, 1int,
{
    lemma_acc_length(a.len, len_t(x), r);
    let (rl, pl, n) = length_p(a.len, len_t(x), r);
    let (r1, i) = reg_alloc(rl);
    let (r2, w) = reg_alloc(r1);
    lemma_ser_layout(c, *a.item, vt(w), r2, m);
    let body = ser_p(c, *a.item, vt(w), r2, m);
    let p0 = check(true, type_check_t(x, "table"@));
    let po = one(Piece::OpenRange(i, n, init_t(w, index_t(x, vt(i)))));
    lemma_acc_add(p0, pl);
    lemma_acc_add(p0 + pl, po);
    lemma_acc_add(p0 + pl + po, body.1);
    lemma_acc_add(p0 + pl + po + body.1, one(Piece::Close));
    lemma_acc_quiet(true, type_check_t(x, "table"@), false);
    lemma_acc_one(Piece::OpenRange(i, n, init_t(w, index_t(x, vt(i)))));
    lemma_acc_one(Piece::Close);
    assert(accesses(array_p(c, a, x, r, m).1) =~= layout(Type::Array(a)));
}

#[verifier::spinoff_prover]
#[verifier::rlimit(60)]
proof fn lemma_acc_set(c: CtxV, st: SetType, x: Seq<char>, r: RegState, m: Seq<u16>)
    ensures
        accesses(set_p(c, st, x, r, m).1) == layout(Type::SetOf(st)),
    decreases st, 1int,
{
    let (r1, p) = reg_alloc(r);
    let (r2, l) = reg_alloc(r1);
    let (r3, idx) = reg_alloc(r2);
    let (r4, val) = reg_alloc(r3);
    lemma_ser_layout(c, *st.item, vt(idx), r4, m);
    let body = ser_p(c, *st.item, vt(idx), r4, m);
    let k = st.len.spec_kind();
    let tc = type_check_t(x, "table"@);
    let t4 = range_check_t(vt(l), length_range(st.len));
    let t5 = write_reserved_t(c, FuncK::spec_from_kind(k), vt(p), vt(l));
    let c0 = check(true, tc);
    let c1 = one(Piece::Reserve(p, k));
    let c2 = code(init_t(l, nat_text(0)));
    let c3 = one(Piece::OpenPairs(idx, val, x, count_step_t(l)));
    let c5 = one(Piece::Close);
    let c6 = check(false, t4);
    let c7 = code(t5);
    lemma_acc_add(c0, c1);
    lemma_acc_add(c0 + c1, c2);
    lemma_acc_add(c0 + c1 + c2, c3);
    lemma_acc_add(c0 + c1 + c2 + c3, body.1);
    lemma_acc_add(c0 + c1 + c2 + c3 + body.1, c5);
    lemma_acc_add(c0 + c1 + c2 + c3 + body.1 + c5, c6);
    lemma_acc_add(c0 + c1 + c2 + c3 + body.1 + c5 + c6, c7);
    lemma_acc_quiet(true, tc, false);
    lemma_acc_quiet(false, init_t(l, nat_text(0)), false);
    lemma_acc_quiet(false, t4, false);
    lemma_acc_quiet(false, t5, false);
    lemma_acc_one(Piece::Reserve(p, k));
    lemma_acc_one(Piece::OpenPairs(idx, val, x, count_step_t(l)));
    lemma_acc_one(Piece::Close);
    assert(accesses(set_p(c, st, x, r, m).1) =~= layout(Type::SetOf(st)));
}

#[verifier::spinoff_prover]
#[verifier::rlimit(60)]
proof fn lemma_acc_map(c: CtxV, mt: MapType, x: Seq<char>, r: RegState, m: Seq<u16>)
    ensures
        accesses(map_p(c, mt, x, r, m).1) == layout(Type::MapOf(mt)),
    decreases mt, 1int,
{
    let (r1, p) = reg_alloc(r);
    let (r2, l) = reg_alloc(r1);
    let (r3, idx) = reg_alloc(r2);
    let (r4, val) = reg_alloc(r3);
    lemma_ser_layout(c, *mt.index, vt(idx), r4, m);
    let bi = ser_p(c, *mt.index, vt(idx), r4, m);
    let m2 = m.skip(enums_in(*mt.index) as int);
    lemma_ser_layout(c, *mt.value, vt(val), bi.0, m2);
    let bv = ser_p(c, *mt.value, vt(val), bi.0, m2);
    let k = mt.len.spec_kind();
    let tc = type_check_t(x, "table"@);
    let t4 = range_check_t(vt(l), length_range(mt.len));
    let t5 = write_reserved_t(c, FuncK::spec_from_kind(k), vt(p), vt(l));
    let c0 = check(true, tc);
    let c1 = one(Piece::Reserve(p, k));
    let c2 = code(init_t(l, nat_text(0)));
    let c3 = one(Piece::OpenPairs(idx, val, x, count_step_t(l)));
    let c5 = one(Piece::Close);
    let c6 = check(false, t4);
    let c7 = code(t5);
    lemma_acc_add(c0, c1);
    lemma_acc_add(c0 + c1, c2);
    lemma_acc_add(c0 + c1 + c2, c3);
    lemma_acc_add(c0 + c1 + c2 + c3, bi.1);
    lemma_acc_add(c0 + c1 + c2 + c3 + bi.1, bv.1);
    lemma_acc_add(c0 + c1 + c2 + c3 + bi.1 + bv.1, c5);
    lemma_acc_add(c0 + c1 + c2 + c3 + bi.1 + bv.1 + c5, c6);
    lemma_acc_add(c0 + c1 + c2 + c3 + bi.1 + bv.1 + c5 + c6, c7);
    lemma_acc_quiet(true, tc, false);
    lemma_acc_quiet(false, init_t(l, nat_text(0)), false);
    lemma_acc_quiet(false, t4, false);
    lemma_acc_quiet(false, t5, false);
    lemma_acc_one(Piece::Reserve(p, k));
    lemma_acc_one(Piece::OpenPairs(idx, val, x, count_step_t(l)));
    lemma_acc_one(Piece::Close);
    assert(accesses(map_p(c, mt, x, r, m).1) =~= layout(Type::MapOf(mt)));
}

#[verifier::spinoff_prover]
proof fn lemma_acc_fields(c: CtxV, fs: Seq<(String, Type)>, x: Seq<char>, r: RegState, m: Seq<u16>)
    ensures
        accesses(fields_p(c, fs, x, r, m).1) == fields_layout(fs),
    decreases fs, 1int,
{
    if fs.len() == 0 {
        lemma_acc_quiet(false, seq![], false);
    } else {
        let pre = fs.subrange(0, fs.len() - 1);
        lemma_acc_fields(c, pre, x, r, m);
        let ap = fields_p(c, pre, x, r, m);
        let (r1, w) = reg_alloc(ap.0);
        let m2 = m.skip(fields_enums(pre) as int);
        lemma_ser_layout(c, fs[fs.len() - 1].1, vt(w), r1, m2);
        let fp = ser_p(c, fs[fs.len() - 1].1, vt(w), r1, m2);
        let it = init_t(w, index_t(x, string_literal_text(fs[fs.len() - 1].0@)));
        lemma_acc_add(ap.1, code(it));
        lemma_acc_add(ap.1 + code(it), fp.1);
        lemma_acc_quiet(false, it, false);
        assert(accesses(ap.1) + Seq::<Access>::empty() =~= accesses(ap.1));
    }
}

/// What the reading code takes out of a packet is the layout of the type.
pub proof fn lemma_des_layout(native: bool, t: Type, r: RegState, m: Seq<u16>)
    ensures
        accesses(des_p(native, t, r, m).1) == layout(t),
    decreases t, 2int,
{
    match t {
        Type::Boolean(_) => {
            let (r1, v) = reg_alloc(r);
            let (r2, w) = reg_alloc(r1);
            let it = init_t(w, index_t("bool"@, vt(v)));
            lemma_acc_add(one(Piece::Read(v, NumberKind::U8)), code(it));
            lemma_acc_one(Piece::Read(v, NumberKind::U8));
            lemma_acc_quiet(false, it, false);
            assert(accesses(des_p(native, t, r, m).1) =~= layout(t));
        },
        Type::Number(n) => {
            lemma_acc_des_number(native, n, r);
        },
        Type::Vector(v) => {
            lemma_acc_vector(native, v, seq![], r);
        },
        Type::BinaryString(bs) => {
            lemma_acc_string(false, bs.len, seq![], r);
        },
        Type::Utf8String(us) => {
            lemma_acc_string(true, us.len, seq![], r);
        },
        Type::Array(a) => {
            lemma_acc_des_array(native, a, r, m);
        },
        Type::SetOf(st) => {
            lemma_acc_des_set(native, st, r, m);
        },
        Type::MapOf(mt) => {
            lemma_acc_des_map(native, mt, r, m);
        },
        Type::Enum(e) => {
            let (r1, v) = reg_alloc(r);
            let (r2, w) = reg_alloc(r1);
            let p1 = one(Piece::Read(v, e.number.kind));
            let rc = range_check_t(vt(v), variants_range(e));
            let it = init_t(w, index_t(vt(m[0]), vt(v)));
            lemma_acc_add(p1, check(false, rc));
            lemma_acc_add(p1 + check(false, rc), code(it));
            lemma_acc_one(Piece::Read(v, e.number.kind));
            lemma_acc_quiet(false, rc, false);
            lemma_acc_quiet(false, it, false);
            assert(accesses(des_p(native, t, r, m).1) =~= layout(t));
        },
        Type::Struct(st) => {
            lemma_acc_des_fields(native, st.fields@, r, m);
            let (rf, pf, vs) = des_fields_p(native, st.fields@, r, m);
            let (r1, w) = reg_alloc(rf);
            let it = init_t(w, "{ "@ + name_vars_t(st.fields@, vs) + " }"@);
            lemma_acc_add(pf, code(it));
            lemma_acc_quiet(false, it, false);
            assert(accesses(pf) + Seq::<Access>::empty() =~= accesses(pf));
        },
    }
}

#[verifier::spinoff_prover]
#[verifier::rlimit(60)]
proof fn lemma_acc_des_array(native: bool, a: ArrayType, r: RegState, m: Seq<u16>)
    ensures
        accesses(des_array_p(native, a, r, m).1) == layout(Type::Array(a)),
    decreases a, 1int,
{
    lemma_acc_length(a.len, seq![], r);
    let (rl, pl, n) = des_length_p(a.len, r);
    let (r2, arr) = reg_alloc(rl);
    let (r3, i) = reg_alloc(r2);
    lemma_des_layout(native, *a.item, r3, m);
    let (rb, pb, v) = des_p(native, *a.item, r3, m);
    let ta = init_t(arr, call1_t("table.create"@, vt(n)));
    let ts = assign_index_t(arr, vt(i), vt(v));
    lemma_acc_add(pl, code(ta));
    lemma_acc_add(pl + code(ta), one(Piece::OpenRange(i, n, seq![])));
    lemma_acc_add(pl + code(ta) + one(Piece::OpenRange(i, n, seq![])), pb);
    lemma_acc_add(pl + code(ta) + one(Piece::OpenRange(i, n, seq![])) + pb, code(ts));
    lemma_acc_add(pl + code(ta) + one(Piece::OpenRange(i, n, seq![])) + pb + code(ts), one(Piece::Close));
    lemma_acc_quiet(false, ta, false);
    lemma_acc_quiet(false, ts, false);
    lemma_acc_one(Piece::OpenRange(i, n, seq![]));
    lemma_acc_one(Piece::Close);
    assert(accesses(des_array_p(native, a, r, m).1) =~= layout(Type::Array(a)));
}

#[verifier::spinoff_prover]
#[verifier::rlimit(60)]
proof fn lemma_acc_des_set(native: bool, st: SetType, r: RegState, m: Seq<u16>)
    ensures
        accesses(des_set_p(native, st, r, m).1) == layout(Type::SetOf(st)),
    decreases st, 1int,
{
    let (r1, n) = reg_alloc(r);
    let (r2, set) = reg_alloc(r1);
    let (r3, i) = reg_alloc(r2);
    lemma_des_layout(native, *st.item, r3, m);
    let (rb, pb, v) = des_p(native, *st.item, r3, m);
    let kk = st.len.spec_kind();
    let rc = range_check_t(vt(n), length_range(st.len));
    let ta = init_t(set, empty_table_t());
    let ts = assign_index_t(set, vt(v), "true"@);
    let p0 = one(Piece::Read(n, kk));
    let pc = check(false, rc);
    let p1 = code(ta);
    let p2 = one(Piece::OpenRange(i, n, seq![]));
    let p4 = code(ts);
    let p5 = one(Piece::Close);
    lemma_acc_add(p0, pc);
    lemma_acc_add(p0 + pc, p1);
    lemma_acc_add(p0 + pc + p1, p2);
    lemma_acc_add(p0 + pc + p1 + p2, pb);
    lemma_acc_add(p0 + pc + p1 + p2 + pb, p4);
    lemma_acc_add(p0 + pc + p1 + p2 + pb + p4, p5);
    lemma_acc_one(Piece::Read(n, kk));
    lemma_acc_quiet(false, rc, false);
    lemma_acc_quiet(false, ta, false);
    lemma_acc_quiet(false, ts, false);
    lemma_acc_one(Piece::OpenRange(i, n, seq![]));
    lemma_acc_one(Piece::Close);
    assert(accesses(des_set_p(native, st, r, m).1) =~= layout(Type::SetOf(st)));
}

#[verifier::spinoff_prover]
#[verifier::rlimit(60)]
proof fn lemma_acc_des_map(native: bool, mt: MapType, r: RegState, m: Seq<u16>)
    ensures
        accesses(des_map_p(native, mt, r, m).1) == layout(Type::MapOf(mt)),
    decreases mt, 1int,
{
    let (r1, n) = reg_alloc(r);
    let (r2, map) = reg_alloc(r1);
    let (r3, i) = reg_alloc(r2);
    lemma_des_layout(native, *mt.index, r3, m);
    let (rk, pk, kv) = des_p(native, *mt.index, r3, m);
    let m2 = m.skip(enums_in(*mt.index) as int);
    lemma_des_layout(native, *mt.value, rk, m2);
    let (rv, pv, v) = des_p(native, *mt.value, rk, m2);
    let kk = mt.len.spec_kind();
    let rc = range_check_t(vt(n), length_range(mt.len));
    let ta = init_t(map, empty_table_t());
    let ts = assign_index_t(map, vt(kv), vt(v));
    let p0 = one(Piece::Read(n, kk));
    let pc = check(false, rc);
    let p1 = code(ta);
    let p2 = one(Piece::OpenRange(i, n, seq![]));
    let p4 = code(ts);
    let p5 = one(Piece::Close);
    lemma_acc_add(p0, pc);
    lemma_acc_add(p0 + pc, p1);
    lemma_acc_add(p0 + pc + p1, p2);
    lemma_acc_add(p0 + pc + p1 + p2, pk);
    lemma_acc_add(p0 + pc + p1 + p2 + pk, pv);
    lemma_acc_add(p0 + pc + p1 + p2 + pk + pv, p4);
    lemma_acc_add(p0 + pc + p1 + p2 + pk + pv + p4, p5);
    lemma_acc_one(Piece::Read(n, kk));
    lemma_acc_quiet(false, rc, false);
    lemma_acc_quiet(false, ta, false);
    lemma_acc_quiet(false, ts, false);
    lemma_acc_one(Piece::OpenRange(i, n, seq![]));
    lemma_acc_one(Piece::Close);
    assert(accesses(des_map_p(native, mt, r, m).1) =~= layout(Type::MapOf(mt)));
}

#[verifier::spinoff_prover]
proof fn lemma_acc_des_fields(native: bool, fs: Seq<(String, Type)>, r: RegState, m: Seq<u16>)
    ensures
        accesses(des_fields_p(native, fs, r, m).1) == fields_layout(fs),
    decreases fs, 1int,
{
    if fs.len() == 0 {
        lemma_acc_quiet(false, seq![], false);
    } else {
        let pre = fs.subrange(0, fs.len() - 1);
        lemma_acc_des_fields(native, pre, r, m);
        let (ra, pa, vs) = des_fields_p(native, pre, r, m);
        let m2 = m.skip(fields_enums(pre) as int);
        lemma_des_layout(native, fs[fs.len() - 1].1, ra, m2);
        let (rf, pf, v) = des_p(native, fs[fs.len() - 1].1, ra, m2);
        lemma_acc_add(pa, pf);
    }
}

/// What is written is what is read back. For every type, whatever the
/// options, the buffers and the registry states of the two sides, the code
/// that writes a value and the code that reads one are the pieces of
/// `ser_p` and `des_p`; the buffer accesses of the two, in order, are one
/// and the same: numbers of the same widths, lengths known in advance,
/// strings of the length just before, and loops over the length just before
/// around the same accesses. Every number and string written or read moves
/// the position past it (`write_k_t`, `write_d_t`, `read_k_t`, `read_d_t`).
pub proof fn lemma_layouts_agree(
    s: Ser,
    d: Des,
    cs: CtxV,
    cd: CtxV,
    t: Type,
    x: Seq<char>,
    rs: RegState,
    rd: RegState,
    ms: Seq<u16>,
    md: Seq<u16>,
)
    ensures
        ser_s(s, cs, t, x, rs, ms) == out(
            ser_p(cs, t, x, rs, ms).0,
            rend(cs, full_checks(s.opts), basic_checks(s.opts), ser_p(cs, t, x, rs, ms).1),
        ),
        des_s(d, cd, t, rd, md) == (
            out(des_p(d.native, t, rd, md).0, rend(cd, d.check, d.check, des_p(d.native, t, rd, md).1)),
            des_p(d.native, t, rd, md).2,
        ),
        accesses(ser_p(cs, t, x, rs, ms).1) == layout(t),
        accesses(des_p(d.native, t, rd, md).1) == layout(t),
        accesses(ser_p(cs, t, x, rs, ms).1) == accesses(des_p(d.native, t, rd, md).1),
{
    lemma_ser_pieces(s, cs, t, x, rs, ms);
    lemma_des_pieces(d, cd, t, rd, md);
    lemma_ser_layout(cs, t, x, rs, ms);
    lemma_des_layout(d.native, t, rd, md);
}

/// `pos += size;`: the position moved past `size` bytes.
pub open spec fn advance(c: CtxV, size: Seq<char>) -> Seq<char> {
    vt(c.pos) + " += "@ + size + ";"@
}

/// Every number and string written or read moves the position past it, by
/// the same amount on both sides: the width of the kind, or the length in
/// the variable `l`.
pub proof fn lemma_accesses_move_position(c: CtxV, f: bool, s: bool, k: NumberKind, l: u16, v: u16, src: Seq<char>)
    ensures
        exists|h: Seq<char>| piece_text(c, f, s, Piece::Write(k, src)) == h + advance(c, nat_text(FuncK::spec_from_kind(k).spec_size() as nat)),
        exists|h: Seq<char>| piece_text(c, f, s, Piece::Read(v, k)) == h + advance(c, nat_text(FuncK::spec_from_kind(k).spec_size() as nat)),
        exists|h: Seq<char>| piece_text(c, f, s, Piece::WriteStr(l, src)) == h + advance(c, vt(l)),
        exists|h: Seq<char>| piece_text(c, f, s, Piece::ReadStr(v, l)) == h + advance(c, vt(l)),
{
    let fk = FuncK::spec_from_kind(k);
    let sz = nat_text(fk.spec_size() as nat);
    let h1 = check_t(c, size_t(k)) + ("buffer.write"@ + crate::mir::funck_text(fk) + "("@ + vt(c.buf) + ", "@
        + vt(c.pos) + ", "@ + src + ");"@);
    assert(piece_text(c, f, s, Piece::Write(k, src)) =~= h1 + advance(c, sz));
    let h2 = "local "@ + vt(v) + " = buffer.read"@ + crate::mir::funck_text(fk) + "("@ + vt(c.buf) + ", "@
        + vt(c.pos) + ");"@;
    assert(piece_text(c, f, s, Piece::Read(v, k)) =~= h2 + advance(c, sz));
    let h3 = check_t(c, vt(l)) + ("buffer.writestring("@ + vt(c.buf) + ", "@ + vt(c.pos) + ", "@ + src + ", "@
        + vt(l) + ");"@);
    assert(piece_text(c, f, s, Piece::WriteStr(l, src)) =~= h3 + advance(c, vt(l)));
    let h4 = "local "@ + vt(v) + " = buffer.readstring("@ + vt(c.buf) + ", "@ + vt(c.pos) + ", "@ + vt(l)
        + ");"@;
    assert(piece_text(c, f, s, Piece::ReadStr(v, l)) =~= h4 + advance(c, vt(l)));
}

// the size of a value is what its writer puts in the packet

/// The bytes of accesses that are numbers only; `None` when a length, a
/// string or a loop is among them.
pub open spec fn number_bytes(acc: Seq<Access>) -> Option<int>
    decreases acc.len(),
{
    if acc.len() == 0 {
        Some(0)
    } else {
        match (number_bytes(acc.drop_last()), acc.last()) {
            (Some(n), Access::Number(f)) => Some(n + f.spec_size()),
            _ => None,
        }
    }
}

/// A type whose values all take the same bytes: booleans, numbers,
/// vectors, enums, and structs of them.
pub open spec fn fixed_type(t: Type) -> bool
    decreases t,
{
    match t {
        Type::Boolean(_) | Type::Number(_) | Type::Vector(_) | Type::Enum(_) => true,
        Type::Struct(st) => fixed_fields(st.fields@),
        _ => false,
    }
}

pub open spec fn fixed_fields(fs: Seq<(String, Type)>) -> bool
    decreases fs,
{
    if fs.len() == 0 {
        true
    } else {
        fixed_fields(fs.subrange(0, fs.len() - 1)) && fixed_type(fs[fs.len() - 1].1)
    }
}

proof fn lemma_number_bytes_add(a: Seq<Access>, b: Seq<Access>)
    requires
        number_bytes(a) is Some,
        number_bytes(b) is Some,
    ensures
        number_bytes(a + b) == Some(number_bytes(a)->0 + number_bytes(b)->0),
    decreases b.len(),
{
    if b.len() == 0 {
        assert(a + b =~= a);
    } else {
        lemma_number_bytes_add(a, b.drop_last());
        assert((a + b).drop_last() =~= a + b.drop_last());
        assert((a + b).last() == b.last());
    }
}

proof fn lemma_kind_width(k: NumberKind)
    ensures
        FuncK::spec_from_kind(k).spec_size() == k.spec_size(),
        number_bytes(num_access(k)) == Some(k.spec_size() as int),
{
    let a = num_access(k);
    assert(a.drop_last() =~= Seq::<Access>::empty());
    assert(number_bytes(a.drop_last()) == Some(0int));
    assert(a.last() == Access::Number(FuncK::spec_from_kind(k)));
    match k {
        NumberKind::U8 => {},
        NumberKind::U16 => {},
        NumberKind::U24 => {},
        NumberKind::U32 => {},
        NumberKind::I8 => {},
        NumberKind::I16 => {},
        NumberKind::I24 => {},
        NumberKind::I32 => {},
        NumberKind::F32 => {},
        NumberKind::NaNF32 => {},
        NumberKind::F64 => {},
        NumberKind::NaNF64 => {},
    }
}

/// The size of a value of a type whose values all take the same bytes is
/// exactly the bytes that its writer puts in the packet: the widths of the
/// numbers of its layout, every component of a vector and every field of a
/// struct counted.
pub proof fn lemma_size_is_written_bytes(t: Type)
    requires
        fixed_type(t),
    ensures
        number_bytes(layout(t)) is Some,
        type_size(t) == sv_exact(number_bytes(layout(t))->0),
    decreases t,
{
    match t {
        Type::Boolean(_) => {
            lemma_kind_width(NumberKind::U8);
        },
        Type::Number(n) => {
            lemma_kind_width(n.kind);
        },
        Type::Vector(v) => {
            lemma_kind_width(v.x.kind);
            lemma_kind_width(v.y.kind);
            lemma_number_bytes_add(num_access(v.x.kind), num_access(v.y.kind));
            match v.z {
                Some(z) => {
                    lemma_kind_width(z.kind);
                    lemma_number_bytes_add(num_access(v.x.kind) + num_access(v.y.kind), num_access(z.kind));
                },
                None => {
                    assert(num_access(v.x.kind) + num_access(v.y.kind) + Seq::<Access>::empty() =~= num_access(
                        v.x.kind,
                    ) + num_access(v.y.kind));
                },
            }
        },
        Type::Enum(e) => {
            lemma_kind_width(e.number.kind);
        },
        Type::Struct(st) => {
            lemma_fields_size_is_written_bytes(st.fields@);
        },
        _ => {},
    }
}

proof fn lemma_fields_size_is_written_bytes(fs: Seq<(String, Type)>)
    requires
        fixed_fields(fs),
    ensures
        number_bytes(fields_layout(fs)) is Some,
        fields_size(fs) == sv_exact(number_bytes(fields_layout(fs))->0),
    decreases fs,
{
    if fs.len() > 0 {
        let pre = fs.subrange(0, fs.len() - 1);
        lemma_fields_size_is_written_bytes(pre);
        lemma_size_is_written_bytes(fs[fs.len() - 1].1);
        lemma_number_bytes_add(fields_layout(pre), layout(fs[fs.len() - 1].1));
    }
}

} // verus!
