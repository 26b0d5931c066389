//! The code that the first code generator writes and reads values with, as
//! a sequence of pieces: plain code, checks, buffer accesses and loops. Two
//! laws follow. A level of API checks keeps the checks it asks for and drops
//! the others, and nothing else differs, not even the variables used. And
//! what the writing code puts in the buffer is what the reading code takes
//! out: the same accesses, of the same widths, in the same order, in loops
//! of the same counts.
use vstd::prelude::*;
use crate::builder::{
    alloc_t, local_t, map_t, range_t, read_d_t, read_k_t, reserve_t, set_index_t, vt, write_d_t,
    write_k_t, write_reserved_t,
};
use crate::ir::FuncK;
use crate::mir_builder::{RegState, reg_alloc, reg_release, release_all};
use crate::mir_serdes::{opt_t, out};
use crate::num::{Num, num_text, num_to_u32};
use crate::nums::NumberKind;
use crate::range::Range;
use crate::serdes::{
    Des, Ser, array_t, at_t, des_array_s, des_fields_s, des_map_s, des_number_s, des_s,
    des_set_s, des_string_s, des_vector_s, struct_t, count_head_t, count_step_t, field_t, full_checks, is_nan_kind, items_s, len_t,
    nan_check_t, range_check_t, ser_array_s, ser_fields_s, ser_map_s, ser_number_t, ser_s,
    ser_set_s, ser_string_s, ser_vector_t, some_checks, string_counted_s, string_fixed_t,
    type_check_t, utf8_check_t,
};
use crate::shared::ApiCheck;
use crate::text::nat_text;
use crate::types::{ArrayType, MapType, NumberType, SetType, Type, VectorType};

verus! {

/// A piece of the generated code.
pub enum Piece {
    /// Plain code.
    Code(Seq<char>),
    /// A check that only some settings make (`true`: only the full level of
    /// API checks, the type checks; `false`: every level but `Off`, and
    /// reading with checks).
    Check(bool, Seq<char>),
    /// Room made for a number of kind `k`, and `src` written as one.
    Write(NumberKind, Seq<char>),
    /// `v`: a place kept for a number of kind `k`, written later.
    Reserve(u16, NumberKind),
    /// Room made for the `e` bytes of the string `src`, and `src` written.
    WriteStrFixed(Num, Seq<char>),
    /// Room made for the `l` bytes (the value of variable `l`) of the string
    /// `src`, and `src` written.
    WriteStrVar(u16, Seq<char>),
    /// A number of kind `k` read into the new variable `v`.
    Read(u16, NumberKind),
    /// A string of `e` bytes read into the new variable `v`.
    ReadStrFixed(u16, Num),
    /// A string of `l` bytes (the value of variable `l`) read into `v`.
    ReadStrVar(u16, u16),
    /// A loop of `i` from 1 to `e`, and the start of its body.
    OpenFixed(u16, Num, Seq<char>),
    /// A loop of `i` from 1 to the value of variable `l`, and the start of its
    /// body.
    OpenVar(u16, u16, Seq<char>),
    /// A loop over the keys `k` and values `v` of the table `map`, and the
    /// start of its body.
    OpenPairs(u16, u16, Seq<char>, Seq<char>),
    /// The end of a loop.
    Close,
}

/// What the buffer sees of the code: a number of a given width, a string of
/// a fixed length or of the length counted just before, and loops of a
/// fixed count or of the count just before.
pub enum Access {
    Number(FuncK),
    StrFixed(Num),
    StrCounted,
    Repeat(Num),
    RepeatCounted,
    End,
}

/// `for k, v in map do `
pub open spec fn for_in_head(k: u16, v: u16, map: Seq<char>) -> Seq<char> {
    "for "@ + vt(k) + ", "@ + vt(v) + " in "@ + map + " do "@
}

/// `for i = 1, n do `
pub open spec fn for_head(i: u16, n: Seq<char>) -> Seq<char> {
    "for "@ + vt(i) + " = "@ + nat_text(1) + ", "@ + n + " do "@
}

/// The code of a piece, where checks of the full kind are made when `full`
/// holds and the others when `some` holds.
pub open spec fn piece_text(full: bool, some: bool, p: Piece) -> Seq<char> {
    match p {
        Piece::Code(c) => c,
        Piece::Check(f, c) => opt_t(if f { full } else { some }, c),
        Piece::Write(k, src) => alloc_t(nat_text(k.spec_size() as nat)) + write_k_t(FuncK::spec_from_kind(k), src),
        Piece::Reserve(v, k) => reserve_t(v, k.spec_size()),
        Piece::WriteStrFixed(e, src) => alloc_t(nat_text(num_to_u32(e) as nat)) + write_d_t(src, num_text(e)),
        Piece::WriteStrVar(l, src) => alloc_t(vt(l)) + write_d_t(src, vt(l)),
        Piece::Read(v, k) => read_k_t(v, FuncK::spec_from_kind(k)),
        Piece::ReadStrFixed(v, e) => read_d_t(v, num_text(e)),
        Piece::ReadStrVar(v, l) => read_d_t(v, vt(l)),
        Piece::OpenFixed(i, e, extra) => for_head(i, num_text(e)) + extra,
        Piece::OpenVar(i, l, extra) => for_head(i, vt(l)) + extra,
        Piece::OpenPairs(k, v, map, extra) => for_in_head(k, v, map) + extra,
        Piece::Close => " end;"@,
    }
}

/// What the buffer sees of a piece.
pub open spec fn access(p: Piece) -> Option<Access> {
    match p {
        Piece::Write(k, _) => Some(Access::Number(FuncK::spec_from_kind(k))),
        Piece::Reserve(_, k) => Some(Access::Number(FuncK::spec_from_kind(k))),
        Piece::Read(_, k) => Some(Access::Number(FuncK::spec_from_kind(k))),
        Piece::WriteStrFixed(e, _) => Some(Access::StrFixed(e)),
        Piece::ReadStrFixed(_, e) => Some(Access::StrFixed(e)),
        Piece::WriteStrVar(_, _) => Some(Access::StrCounted),
        Piece::ReadStrVar(_, _) => Some(Access::StrCounted),
        Piece::OpenFixed(_, e, _) => Some(Access::Repeat(e)),
        Piece::OpenVar(_, _, _) => Some(Access::RepeatCounted),
        Piece::OpenPairs(_, _, _, _) => Some(Access::RepeatCounted),
        Piece::Close => Some(Access::End),
        _ => None,
    }
}

/// The code of the pieces, one after the other.
pub open spec fn rend(full: bool, some: bool, ps: Seq<Piece>) -> Seq<char>
    decreases ps.len(),
{
    if ps.len() == 0 {
        seq![]
    } else {
        rend(full, some, ps.drop_last()) + piece_text(full, some, ps.last())
    }
}

/// The code that level `a` makes of the pieces: every piece but the checks
/// it does not ask for.
pub open spec fn render(a: ApiCheck, ps: Seq<Piece>) -> Seq<char> {
    rend(full_checks(a), some_checks(a), ps)
}

/// What the buffer sees of the pieces, in order.
pub open spec fn accesses(ps: Seq<Piece>) -> Seq<Access>
    decreases ps.len(),
{
    if ps.len() == 0 {
        seq![]
    } else {
        accesses(ps.drop_last()) + match access(ps.last()) {
            Some(x) => seq![x],
            None => seq![],
        }
    }
}

/// Every piece with every check.
pub open spec fn all_text(ps: Seq<Piece>) -> Seq<char> {
    rend(true, true, ps)
}

/// The pieces without their checks.
pub open spec fn without_checks(ps: Seq<Piece>) -> Seq<Piece> {
    ps.filter(|p: Piece| !(p is Check))
}

pub open spec fn code(c: Seq<char>) -> Seq<Piece> {
    seq![Piece::Code(c)]
}

pub open spec fn check(full: bool, c: Seq<char>) -> Seq<Piece> {
    seq![Piece::Check(full, c)]
}

pub open spec fn check_if(b: bool, full: bool, c: Seq<char>) -> Seq<Piece> {
    if b {
        check(full, c)
    } else {
        seq![]
    }
}

pub open spec fn one(p: Piece) -> Seq<Piece> {
    seq![p]
}

/// The accesses of a value of type `t` in the buffer.
pub open spec fn layout(t: Type) -> Seq<Access>
    decreases t,
{
    match t {
        Type::Number(n) => seq![Access::Number(FuncK::spec_from_kind(n.kind))],
        Type::Vector(v) => seq![
            Access::Number(FuncK::spec_from_kind(v.x.kind)),
            Access::Number(FuncK::spec_from_kind(v.y.kind)),
        ] + match v.z {
            Some(z) => seq![Access::Number(FuncK::spec_from_kind(z.kind))],
            None => seq![],
        },
        Type::BinaryString(bs) => string_layout(bs.len),
        Type::Utf8String(us) => string_layout(us.len),
        Type::Array(a) => match a.len.spec_exact() {
            Some(e) => seq![Access::Repeat(e)] + layout(*a.item) + seq![Access::End],
            None => seq![Access::Number(FuncK::spec_from_kind(a.len.spec_len_kind())), Access::RepeatCounted]
                + layout(*a.item) + seq![Access::End],
        },
        Type::SetOf(st) => seq![Access::Number(FuncK::spec_from_kind(st.len.spec_len_kind())), Access::RepeatCounted]
            + layout(*st.item) + seq![Access::End],
        Type::MapOf(mt) => seq![Access::Number(FuncK::spec_from_kind(mt.len.spec_len_kind())), Access::RepeatCounted]
            + layout(*mt.index) + layout(*mt.value) + seq![Access::End],
        Type::Struct(st) => fields_layout(st.fields@),
    }
}

pub open spec fn string_layout(len: Range) -> Seq<Access> {
    match len.spec_exact() {
        Some(e) => seq![Access::StrFixed(e)],
        None => seq![Access::Number(FuncK::spec_from_kind(len.spec_len_kind())), Access::StrCounted],
    }
}

pub open spec fn fields_layout(fs: Seq<(String, Type)>) -> Seq<Access>
    decreases fs,
{
    if fs.len() == 0 {
        seq![]
    } else {
        fields_layout(fs.subrange(0, fs.len() - 1)) + layout(fs[fs.len() - 1].1)
    }
}

// ---------------------------------------------------------------- writing

pub open spec fn number_p(n: NumberType, x: Seq<char>) -> Seq<Piece> {
    check(true, type_check_t(x, "number"@)) + check(false, range_check_t(x, n.range)) + check_if(
        !is_nan_kind(n.kind),
        false,
        nan_check_t(x),
    ) + one(Piece::Write(n.kind, x))
}

pub open spec fn vector_p(v: VectorType, x: Seq<char>) -> Seq<Piece> {
    check(true, type_check_t(x, "vector"@)) + number_p(v.x, field_t(x, "x"@)) + number_p(
        v.y,
        field_t(x, "y"@),
    ) + match v.z {
        Some(z) => number_p(z, field_t(x, "z"@)),
        None => seq![],
    }
}

pub open spec fn string_p(utf8: bool, len: Range, x: Seq<char>, r: RegState) -> (RegState, Seq<Piece>) {
    let head = check(true, type_check_t(x, "string"@)) + check_if(utf8, false, utf8_check_t(x));
    match len.spec_exact() {
        Some(e) => (r, head + check(false, range_check_t(len_t(x), len)) + one(Piece::WriteStrFixed(e, x))),
        None => {
            let (r1, l) = reg_alloc(r);
            let k = len.spec_len_kind();
            (
                reg_release(r1, l),
                head + code(local_t(l, len_t(x))) + check(false, range_check_t(vt(l), len)) + one(
                    Piece::Write(k, vt(l)),
                ) + one(Piece::WriteStrVar(l, x)),
            )
        },
    }
}

/// The pieces of the code that writes the value `x` of type `t`, from
/// registry state `r`, and the registry state after it.
pub open spec fn ser_p(t: Type, x: Seq<char>, r: RegState) -> (RegState, Seq<Piece>)
    decreases t, 2int,
{
    match t {
        Type::Number(n) => (r, number_p(n, x)),
        Type::Vector(v) => (r, vector_p(v, x)),
        Type::BinaryString(bs) => string_p(false, bs.len, x, r),
        Type::Utf8String(us) => string_p(true, us.len, x, r),
        Type::Array(a) => array_p(a, x, r),
        Type::SetOf(st) => set_p(st, x, r),
        Type::MapOf(mt) => map_p(mt, x, r),
        Type::Struct(st) => {
            let f = fields_p(st.fields@, x, r);
            (f.0, check(true, type_check_t(x, "table"@)) + f.1)
        },
    }
}

pub open spec fn array_p(a: ArrayType, x: Seq<char>, r: RegState) -> (RegState, Seq<Piece>)
    decreases a, 1int,
{
    let head = check(true, type_check_t(x, "table"@));
    match a.len.spec_exact() {
        Some(e) => {
            let it = items_p(*a.item, x, Some(e), 0, r);
            (it.0, head + check(false, range_check_t(len_t(x), a.len)) + it.1)
        },
        None => {
            let (r1, l) = reg_alloc(r);
            let k = a.len.spec_len_kind();
            let it = items_p(*a.item, x, None, l, r1);
            (
                reg_release(it.0, l),
                head + code(local_t(l, len_t(x))) + check(false, range_check_t(vt(l), a.len)) + one(
                    Piece::Write(k, vt(l)),
                ) + it.1,
            )
        },
    }
}

pub open spec fn open_range(i: u16, e: Option<Num>, l: u16, extra: Seq<char>) -> Piece {
    match e {
        Some(e) => Piece::OpenFixed(i, e, extra),
        None => Piece::OpenVar(i, l, extra),
    }
}

pub open spec fn count_text(e: Option<Num>, l: u16) -> Seq<char> {
    match e {
        Some(e) => num_text(e),
        None => vt(l),
    }
}

pub open spec fn items_p(item: Type, x: Seq<char>, e: Option<Num>, l: u16, r: RegState) -> (RegState, Seq<Piece>)
    decreases item, 3int,
{
    let (r1, i) = reg_alloc(r);
    let (r2, w) = reg_alloc(r1);
    let body = ser_p(item, vt(w), r2);
    (
        reg_release(reg_release(body.0, w), i),
        one(open_range(i, e, l, local_t(w, at_t(x, i)))) + body.1 + one(Piece::Close),
    )
}

pub open spec fn set_p(st: SetType, x: Seq<char>, r: RegState) -> (RegState, Seq<Piece>)
    decreases st, 1int,
{
    let (r1, p) = reg_alloc(r);
    let (r2, l) = reg_alloc(r1);
    let (r3, ki) = reg_alloc(r2);
    let (r4, vi) = reg_alloc(r3);
    let body = ser_p(*st.item, vt(ki), r4);
    let k = st.len.spec_len_kind();
    (
        reg_release(reg_release(reg_release(reg_release(body.0, vi), ki), l), p),
        check(true, type_check_t(x, "table"@)) + one(Piece::Reserve(p, k)) + code(local_t(l, nat_text(0)))
            + one(Piece::OpenPairs(ki, vi, x, count_step_t(l))) + body.1 + one(Piece::Close) + check(
            false,
            range_check_t(vt(l), st.len),
        ) + code(write_reserved_t(FuncK::spec_from_kind(k), vt(p), vt(l))),
    )
}

pub open spec fn map_p(mt: MapType, x: Seq<char>, r: RegState) -> (RegState, Seq<Piece>)
    decreases mt, 1int,
{
    let (r1, p) = reg_alloc(r);
    let (r2, l) = reg_alloc(r1);
    let (r3, ki) = reg_alloc(r2);
    let (r4, vi) = reg_alloc(r3);
    let bi = ser_p(*mt.index, vt(ki), r4);
    let bv = ser_p(*mt.value, vt(vi), bi.0);
    let k = mt.len.spec_len_kind();
    (
        reg_release(reg_release(reg_release(reg_release(bv.0, vi), ki), l), p),
        check(true, type_check_t(x, "table"@)) + one(Piece::Reserve(p, k)) + code(local_t(l, nat_text(0)))
            + one(Piece::OpenPairs(ki, vi, x, count_step_t(l))) + bi.1 + bv.1 + one(Piece::Close) + check(
            false,
            range_check_t(vt(l), mt.len),
        ) + code(write_reserved_t(FuncK::spec_from_kind(k), vt(p), vt(l))),
    )
}

pub open spec fn fields_p(fs: Seq<(String, Type)>, x: Seq<char>, r: RegState) -> (RegState, Seq<Piece>)
    decreases fs, 1int,
{
    if fs.len() == 0 {
        (r, seq![])
    } else {
        let a = fields_p(fs.subrange(0, fs.len() - 1), x, r);
        let (r1, w) = reg_alloc(a.0);
        let f = ser_p(fs[fs.len() - 1].1, vt(w), r1);
        (reg_release(f.0, w), a.1 + code(local_t(w, field_t(x, fs[fs.len() - 1].0@))) + f.1)
    }
}

// ---------------------------------------------------------------- reading

pub open spec fn des_number_p(n: NumberType, r: RegState) -> (RegState, Seq<Piece>, u16) {
    let (r1, v) = reg_alloc(r);
    (
        r1,
        one(Piece::Read(v, n.kind)) + check(false, range_check_t(vt(v), n.range)) + check_if(
            !is_nan_kind(n.kind),
            false,
            nan_check_t(vt(v)),
        ),
        v,
    )
}

pub open spec fn des_vector_p(vt_: VectorType, r: RegState) -> (RegState, Seq<Piece>, u16) {
    let (rx, px, x) = des_number_p(vt_.x, r);
    let (ry, py, y) = des_number_p(vt_.y, rx);
    match vt_.z {
        Some(zt) => {
            let (rz, pz, z) = des_number_p(zt, ry);
            let (r2, w) = reg_alloc(reg_release(rz, z));
            (
                reg_release(reg_release(r2, y), x),
                px + py + pz + code(local_t(w, "vector.create("@ + vt(x) + ", "@ + vt(y) + ", "@ + vt(z) + ")"@)),
                w,
            )
        },
        None => {
            let (r2, w) = reg_alloc(ry);
            (
                reg_release(reg_release(r2, y), x),
                px + py + code(local_t(w, "vector.create("@ + vt(x) + ", "@ + vt(y) + ", "@ + nat_text(0) + ")"@)),
                w,
            )
        },
    }
}

pub open spec fn des_string_p(utf8: bool, len: Range, r: RegState) -> (RegState, Seq<Piece>, u16) {
    match len.spec_exact() {
        Some(e) => {
            let (r1, v) = reg_alloc(r);
            (r1, one(Piece::ReadStrFixed(v, e)) + check_if(utf8, false, utf8_check_t(vt(v))), v)
        },
        None => {
            let (r1, l) = reg_alloc(r);
            let (r2, v) = reg_alloc(r1);
            (
                reg_release(r2, l),
                one(Piece::Read(l, len.spec_len_kind())) + check(false, range_check_t(vt(l), len)) + one(
                    Piece::ReadStrVar(v, l),
                ) + check_if(utf8, false, utf8_check_t(vt(v))),
                v,
            )
        },
    }
}

/// The pieces of the code that reads a value of type `t` into a new
/// variable, from registry state `r`; the registry state after it; and that
/// variable.
pub open spec fn des_p(t: Type, r: RegState) -> (RegState, Seq<Piece>, u16)
    decreases t,
{
    match t {
        Type::Number(n) => des_number_p(n, r),
        Type::Vector(v) => des_vector_p(v, r),
        Type::BinaryString(bs) => des_string_p(false, bs.len, r),
        Type::Utf8String(us) => des_string_p(true, us.len, r),
        Type::Array(a) => des_array_p(a, r),
        Type::SetOf(st) => des_set_p(st, r),
        Type::MapOf(mt) => des_map_p(mt, r),
        Type::Struct(st) => {
            let (rf, pf, vs) = des_fields_p(st.fields@, r);
            let (r1, w) = reg_alloc(rf);
            (release_all(r1, vs), pf + code(local_t(w, "{ "@ + struct_t(st.fields@, vs) + "}"@)), w)
        },
    }
}

pub open spec fn des_array_p(a: ArrayType, r: RegState) -> (RegState, Seq<Piece>, u16)
    decreases a,
{
    match a.len.spec_exact() {
        Some(e) => {
            let (r1, arr) = reg_alloc(r);
            let (r2, i) = reg_alloc(r1);
            let (rf, pf, v) = des_p(*a.item, r2);
            (
                reg_release(reg_release(rf, v), i),
                code(local_t(arr, array_t(e))) + one(Piece::OpenFixed(i, e, seq![])) + pf + code(
                    set_index_t(arr, vt(i), vt(v)),
                ) + one(Piece::Close),
                arr,
            )
        },
        None => {
            let (r1, l) = reg_alloc(r);
            let (r2, arr) = reg_alloc(r1);
            let (r3, i) = reg_alloc(r2);
            let (rf, pf, v) = des_p(*a.item, r3);
            (
                reg_release(reg_release(reg_release(rf, v), i), l),
                one(Piece::Read(l, a.len.spec_len_kind())) + check(false, range_check_t(vt(l), a.len)) + code(
                    local_t(arr, "table.create("@ + vt(l) + ")"@),
                ) + one(Piece::OpenVar(i, l, seq![])) + pf + code(set_index_t(arr, vt(i), vt(v))) + one(
                    Piece::Close,
                ),
                arr,
            )
        },
    }
}

pub open spec fn des_set_p(st: SetType, r: RegState) -> (RegState, Seq<Piece>, u16)
    decreases st,
{
    let (r1, l) = reg_alloc(r);
    let (r2, t) = reg_alloc(r1);
    let (r3, i) = reg_alloc(r2);
    let (rf, pf, v) = des_p(*st.item, r3);
    (
        reg_release(reg_release(reg_release(rf, v), i), l),
        one(Piece::Read(l, st.len.spec_len_kind())) + check(false, range_check_t(vt(l), st.len)) + code(
            local_t(t, "{}"@),
        ) + one(Piece::OpenVar(i, l, seq![])) + pf + code(set_index_t(t, vt(v), "true"@)) + one(
            Piece::Close,
        ),
        t,
    )
}

pub open spec fn des_map_p(mt: MapType, r: RegState) -> (RegState, Seq<Piece>, u16)
    decreases mt,
{
    let (r1, l) = reg_alloc(r);
    let (r2, t) = reg_alloc(r1);
    let (r3, i) = reg_alloc(r2);
    let (rk, pk, k) = des_p(*mt.index, r3);
    let (rv, pv, v) = des_p(*mt.value, rk);
    (
        reg_release(reg_release(reg_release(reg_release(rv, v), k), i), l),
        one(Piece::Read(l, mt.len.spec_len_kind())) + check(false, range_check_t(vt(l), mt.len)) + code(
            local_t(t, "{}"@),
        ) + one(Piece::OpenVar(i, l, seq![])) + pk + pv + code(set_index_t(t, vt(k), vt(v))) + one(
            Piece::Close,
        ),
        t,
    )
}

pub open spec fn des_fields_p(fs: Seq<(String, Type)>, r: RegState) -> (RegState, Seq<Piece>, Seq<u16>)
    decreases fs,
{
    if fs.len() == 0 {
        (r, seq![], seq![])
    } else {
        let (ra, pa, vs) = des_fields_p(fs.subrange(0, fs.len() - 1), r);
        let (rf, pf, v) = des_p(fs[fs.len() - 1].1, ra);
        (rf, pa + pf, vs.push(v))
    }
}

// ---------------------------------------------------------------- proofs

#[verifier::spinoff_prover]
#[verifier::rlimit(60)]
proof fn lemma_rend_add(f: bool, s: bool, p: Seq<Piece>, q: Seq<Piece>)
    ensures
        rend(f, s, p + q) == rend(f, s, p) + rend(f, s, q),
    decreases q.len(),
{
    if q.len() == 0 {
        assert(p + q =~= p);
        assert(rend(f, s, p) + seq![] =~= rend(f, s, p));
    } else {
        lemma_rend_add(f, s, p, q.drop_last());
        assert((p + q).drop_last() =~= p + q.drop_last());
        assert((p + q).last() == q.last());
    }
}

#[verifier::spinoff_prover]
#[verifier::rlimit(60)]
proof fn lemma_rend_one(f: bool, s: bool, p: Piece)
    ensures
        rend(f, s, seq![p]) == piece_text(f, s, p),
{
    assert(seq![p].drop_last() =~= Seq::<Piece>::empty());
    assert(rend(f, s, seq![p].drop_last()) == Seq::<char>::empty());
    assert(seq![p].last() == p);
    assert(Seq::<char>::empty() + piece_text(f, s, p) =~= piece_text(f, s, p));
}

#[verifier::spinoff_prover]
#[verifier::rlimit(60)]
proof fn lemma_rend_empty(f: bool, s: bool)
    ensures
        rend(f, s, Seq::<Piece>::empty()) == Seq::<char>::empty(),
{
}

#[verifier::spinoff_prover]
#[verifier::rlimit(60)]
proof fn lemma_acc_add(p: Seq<Piece>, q: Seq<Piece>)
    ensures
        accesses(p + q) == accesses(p) + accesses(q),
    decreases q.len(),
{
    if q.len() == 0 {
        assert(p + q =~= p);
        assert(accesses(p) + seq![] =~= accesses(p));
    } else {
        lemma_acc_add(p, q.drop_last());
        assert((p + q).drop_last() =~= p + q.drop_last());
        assert((p + q).last() == q.last());
        assert(accesses(p) + accesses(q.drop_last()) + match access(q.last()) {
            Some(x) => seq![x],
            None => seq![],
        } =~= accesses(p) + (accesses(q.drop_last()) + match access(q.last()) {
            Some(x) => seq![x],
            None => seq![],
        }));
    }
}

#[verifier::spinoff_prover]
#[verifier::rlimit(60)]
proof fn lemma_acc_one(p: Piece)
    ensures
        accesses(seq![p]) == match access(p) {
            Some(x) => seq![x],
            None => Seq::<Access>::empty(),
        },
{
    assert(seq![p].drop_last() =~= Seq::<Piece>::empty());
    assert(accesses(seq![p].drop_last()) == Seq::<Access>::empty());
    assert(seq![p].last() == p);
    assert(Seq::<Access>::empty() + match access(p) {
        Some(x) => seq![x],
        None => Seq::<Access>::empty(),
    } =~= match access(p) {
        Some(x) => seq![x],
        None => Seq::<Access>::empty(),
    });
}

#[verifier::spinoff_prover]
#[verifier::rlimit(60)]
proof fn lemma_assoc5(a: Seq<char>, b: Seq<char>, c: Seq<char>, d: Seq<char>, e: Seq<char>)
    ensures
        a + b + c + (d + e) == a + b + c + d + e,
        a + b + (c + d) == a + (b + c + d),
        a + b + c + d == a + (b + c + d),
        a + (b + c) + d == a + b + c + d,
{
    assert(a + b + c + (d + e) =~= a + b + c + d + e);
    assert(a + b + (c + d) =~= a + (b + c + d));
    assert(a + b + c + d =~= a + (b + c + d));
    assert(a + (b + c) + d =~= a + b + c + d);
}

#[verifier::spinoff_prover]
#[verifier::rlimit(60)]
proof fn lemma_range_t(i: u16, n: Seq<char>, b: Seq<char>)
    ensures
        range_t(i, nat_text(1), n, b) == for_head(i, n) + b + " end;"@,
{
    assert(range_t(i, nat_text(1), n, b) =~= for_head(i, n) + b + " end;"@);
}

#[verifier::spinoff_prover]
#[verifier::rlimit(60)]
proof fn lemma_map_t(k: u16, v: u16, m: Seq<char>, b: Seq<char>)
    ensures
        map_t(k, v, m, b) == for_in_head(k, v, m) + b + " end;"@,
{
    assert(map_t(k, v, m, b) =~= for_in_head(k, v, m) + b + " end;"@);
}

#[verifier::spinoff_prover]
#[verifier::rlimit(60)]
proof fn lemma_assoc_set(
    r0: Seq<char>,
    rs: Seq<char>,
    l0: Seq<char>,
    fh: Seq<char>,
    cs: Seq<char>,
    b: Seq<char>,
    e: Seq<char>,
    r4: Seq<char>,
    t5: Seq<char>,
)
    ensures
        r0 + rs + l0 + (fh + cs) + b + e + r4 + t5 == r0 + (rs + l0) + (fh + (cs + b) + e) + (r4 + t5),
{
    assert(r0 + rs + l0 + (fh + cs) + b + e + r4 + t5 =~= r0 + (rs + l0) + (fh + (cs + b) + e) + (r4
        + t5));
}

#[verifier::spinoff_prover]
#[verifier::rlimit(60)]
proof fn lemma_assoc_map(
    r0: Seq<char>,
    rs: Seq<char>,
    l0: Seq<char>,
    fh: Seq<char>,
    cs: Seq<char>,
    bi: Seq<char>,
    bv: Seq<char>,
    e: Seq<char>,
    r4: Seq<char>,
    t5: Seq<char>,
)
    ensures
        r0 + rs + l0 + (fh + cs) + bi + bv + e + r4 + t5 == r0 + (rs + l0) + (fh + (cs + bi + bv) + e)
            + (r4 + t5),
{
    assert(r0 + rs + l0 + (fh + cs) + bi + bv + e + r4 + t5 =~= r0 + (rs + l0) + (fh + (cs + bi + bv)
        + e) + (r4 + t5));
}

#[verifier::spinoff_prover]
#[verifier::rlimit(60)]
proof fn lemma_assoc_loop(a: Seq<char>, fh: Seq<char>, b: Seq<char>, si: Seq<char>, e: Seq<char>)
    ensures
        a + (fh + seq![]) + b + si + e == a + (fh + (b + si) + e),
{
    assert(a + (fh + seq![]) + b + si + e =~= a + (fh + (b + si) + e));
}

#[verifier::spinoff_prover]
#[verifier::rlimit(60)]
proof fn lemma_assoc_loop2(a: Seq<char>, fh: Seq<char>, b1: Seq<char>, b2: Seq<char>, si: Seq<char>, e: Seq<char>)
    ensures
        a + (fh + seq![]) + b1 + b2 + si + e == a + (fh + (b1 + b2 + si) + e),
{
    assert(a + (fh + seq![]) + b1 + b2 + si + e =~= a + (fh + (b1 + b2 + si) + e));
}

#[verifier::spinoff_prover]
#[verifier::rlimit(60)]
proof fn lemma_number(s: Ser, n: NumberType, x: Seq<char>)
    ensures
        render(s.apicheck, number_p(n, x)) == ser_number_t(s, n, x),
{
    let (f, o) = (full_checks(s.apicheck), some_checks(s.apicheck));
    let p1 = check(true, type_check_t(x, "number"@));
    let p2 = check(false, range_check_t(x, n.range));
    let p3 = check_if(!is_nan_kind(n.kind), false, nan_check_t(x));
    let p4 = one(Piece::Write(n.kind, x));
    lemma_rend_add(f, o, p1, p2);
    lemma_rend_add(f, o, p1 + p2, p3);
    lemma_rend_add(f, o, p1 + p2 + p3, p4);
    lemma_rend_one(f, o, Piece::Check(true, type_check_t(x, "number"@)));
    lemma_rend_one(f, o, Piece::Check(false, range_check_t(x, n.range)));
    lemma_rend_one(f, o, Piece::Check(false, nan_check_t(x)));
    lemma_rend_one(f, o, Piece::Write(n.kind, x));
    lemma_rend_empty(f, o);
    if is_nan_kind(n.kind) {
        assert(opt_t(o && !is_nan_kind(n.kind), nan_check_t(x)) == Seq::<char>::empty());
    }
    assert(render(s.apicheck, number_p(n, x)) =~= ser_number_t(s, n, x));
}

#[verifier::spinoff_prover]
#[verifier::rlimit(60)]
proof fn lemma_vector(s: Ser, v: VectorType, x: Seq<char>)
    ensures
        render(s.apicheck, vector_p(v, x)) == ser_vector_t(s, v, x),
{
    let (f, o) = (full_checks(s.apicheck), some_checks(s.apicheck));
    let p1 = check(true, type_check_t(x, "vector"@));
    let px = number_p(v.x, field_t(x, "x"@));
    let py = number_p(v.y, field_t(x, "y"@));
    let pz = match v.z {
        Some(z) => number_p(z, field_t(x, "z"@)),
        None => seq![],
    };
    lemma_rend_add(f, o, p1, px);
    lemma_rend_add(f, o, p1 + px, py);
    lemma_rend_add(f, o, p1 + px + py, pz);
    lemma_rend_one(f, o, Piece::Check(true, type_check_t(x, "vector"@)));
    lemma_number(s, v.x, field_t(x, "x"@));
    lemma_number(s, v.y, field_t(x, "y"@));
    lemma_rend_empty(f, o);
    match v.z {
        Some(z) => {
            lemma_number(s, z, field_t(x, "z"@));
        },
        None => {},
    }
    assert(render(s.apicheck, vector_p(v, x)) =~= ser_vector_t(s, v, x));
}

#[verifier::spinoff_prover]
#[verifier::rlimit(60)]
proof fn lemma_string_head(f: bool, o: bool, utf8: bool, x: Seq<char>)
    ensures
        rend(f, o, check(true, type_check_t(x, "string"@)) + check_if(utf8, false, utf8_check_t(x)))
            == opt_t(f, type_check_t(x, "string"@)) + opt_t(utf8 && o, utf8_check_t(x)),
{
    let h1 = check(true, type_check_t(x, "string"@));
    let h2 = check_if(utf8, false, utf8_check_t(x));
    lemma_rend_add(f, o, h1, h2);
    lemma_rend_one(f, o, Piece::Check(true, type_check_t(x, "string"@)));
    lemma_rend_one(f, o, Piece::Check(false, utf8_check_t(x)));
    lemma_rend_empty(f, o);
    if !utf8 {
        assert(rend(f, o, h1 + h2) =~= opt_t(f, type_check_t(x, "string"@)) + opt_t(utf8 && o, utf8_check_t(x)));
    }
}

#[verifier::spinoff_prover]
#[verifier::rlimit(60)]
proof fn lemma_assoc_str(hr: Seq<char>, tl: Seq<char>, o2: Seq<char>, a1: Seq<char>, k1: Seq<char>, a2: Seq<char>, d2: Seq<char>)
    ensures
        hr + tl + o2 + (a1 + k1) + (a2 + d2) == hr + (tl + o2 + a1 + k1 + a2 + d2),
{
    assert(hr + tl + o2 + (a1 + k1) + (a2 + d2) =~= hr + (tl + o2 + a1 + k1 + a2 + d2));
}

#[verifier::spinoff_prover]
#[verifier::rlimit(60)]
proof fn lemma_string(s: Ser, utf8: bool, len: Range, x: Seq<char>, r: RegState)
    ensures
        out(string_p(utf8, len, x, r).0, render(s.apicheck, string_p(utf8, len, x, r).1))
            == ser_string_s(s, utf8, len, x, r),
{
    let (f, o) = (full_checks(s.apicheck), some_checks(s.apicheck));
    let h = check(true, type_check_t(x, "string"@)) + check_if(utf8, false, utf8_check_t(x));
    lemma_string_head(f, o, utf8, x);
    let hr = opt_t(f, type_check_t(x, "string"@)) + opt_t(utf8 && o, utf8_check_t(x));
    match len.spec_exact() {
        Some(e) => {
            let t1 = range_check_t(len_t(x), len);
            let c1 = check(false, t1);
            let c2 = one(Piece::WriteStrFixed(e, x));
            lemma_rend_add(f, o, h, c1);
            lemma_rend_add(f, o, h + c1, c2);
            lemma_rend_one(f, o, Piece::Check(false, t1));
            lemma_rend_one(f, o, Piece::WriteStrFixed(e, x));
            let ta = alloc_t(nat_text(num_to_u32(e) as nat));
            let tw = write_d_t(x, num_text(e));
            lemma_assoc5(hr, opt_t(o, t1), ta, tw, seq![]);
        },
        None => {
            let (r1, l) = reg_alloc(r);
            let k = len.spec_len_kind();
            let tl = local_t(l, len_t(x));
            let t2 = range_check_t(vt(l), len);
            let c1 = code(tl);
            let c2 = check(false, t2);
            let c3 = one(Piece::Write(k, vt(l)));
            let c4 = one(Piece::WriteStrVar(l, x));
            lemma_rend_add(f, o, h, c1);
            lemma_rend_add(f, o, h + c1, c2);
            lemma_rend_add(f, o, h + c1 + c2, c3);
            lemma_rend_add(f, o, h + c1 + c2 + c3, c4);
            lemma_rend_one(f, o, Piece::Code(tl));
            lemma_rend_one(f, o, Piece::Check(false, t2));
            lemma_rend_one(f, o, Piece::Write(k, vt(l)));
            lemma_rend_one(f, o, Piece::WriteStrVar(l, x));
            lemma_assoc_str(
                hr,
                tl,
                opt_t(o, t2),
                alloc_t(nat_text(k.spec_size() as nat)),
                write_k_t(FuncK::spec_from_kind(k), vt(l)),
                alloc_t(vt(l)),
                write_d_t(x, vt(l)),
            );
        },
    }
}

/// What the writing code of any level is: the pieces of `ser_p` with the
/// checks that level asks for; the registry ends the same at every level.
#[verifier::spinoff_prover]
#[verifier::rlimit(60)]
pub proof fn lemma_ser_pieces(s: Ser, t: Type, x: Seq<char>, r: RegState)
    ensures
        ser_s(s, t, x, r) == out(ser_p(t, x, r).0, render(s.apicheck, ser_p(t, x, r).1)),
    decreases t, 2int,
{
    let (f, o) = (full_checks(s.apicheck), some_checks(s.apicheck));
    match t {
        Type::Number(n) => {
            lemma_number(s, n, x);
        },
        Type::Vector(v) => {
            lemma_vector(s, v, x);
        },
        Type::BinaryString(bs) => {
            lemma_string(s, false, bs.len, x, r);
        },
        Type::Utf8String(us) => {
            lemma_string(s, true, us.len, x, r);
        },
        Type::Array(ar) => {
            lemma_array(s, ar, x, r);
        },
        Type::SetOf(st) => {
            lemma_set(s, st, x, r);
        },
        Type::MapOf(mt) => {
            lemma_map(s, mt, x, r);
        },
        Type::Struct(st) => {
            lemma_fields(s, st.fields@, x, r);
            let fp = fields_p(st.fields@, x, r);
            lemma_rend_add(f, o, check(true, type_check_t(x, "table"@)), fp.1);
            lemma_rend_one(f, o, Piece::Check(true, type_check_t(x, "table"@)));
        },
    }
}

#[verifier::spinoff_prover]
#[verifier::rlimit(60)]
proof fn lemma_items(s: Ser, item: Type, x: Seq<char>, e: Option<Num>, l: u16, r: RegState)
    ensures
        items_s(s, item, x, count_text(e, l), r) == out(
            items_p(item, x, e, l, r).0,
            render(s.apicheck, items_p(item, x, e, l, r).1),
        ),
    decreases item, 3int,
{
    let (f, o) = (full_checks(s.apicheck), some_checks(s.apicheck));
    let (r1, i) = reg_alloc(r);
    let (r2, w) = reg_alloc(r1);
    lemma_ser_pieces(s, item, vt(w), r2);
    let body = ser_p(item, vt(w), r2);
    let op = open_range(i, e, l, local_t(w, at_t(x, i)));
    lemma_rend_add(f, o, one(op), body.1);
    lemma_rend_add(f, o, one(op) + body.1, one(Piece::Close));
    lemma_rend_one(f, o, op);
    lemma_rend_one(f, o, Piece::Close);
    let bt = render(s.apicheck, body.1);
    lemma_range_t(i, count_text(e, l), local_t(w, at_t(x, i)) + bt);
    let fh = for_head(i, count_text(e, l));
    assert(piece_text(f, o, op) == fh + local_t(w, at_t(x, i)));
    lemma_assoc5(fh, local_t(w, at_t(x, i)), bt, " end;"@, seq![]);
}

#[verifier::spinoff_prover]
#[verifier::rlimit(60)]
proof fn lemma_array(s: Ser, ar: ArrayType, x: Seq<char>, r: RegState)
    ensures
        ser_array_s(s, ar, x, r) == out(array_p(ar, x, r).0, render(s.apicheck, array_p(ar, x, r).1)),
    decreases ar, 1int,
{
    let (f, o) = (full_checks(s.apicheck), some_checks(s.apicheck));
    let head = check(true, type_check_t(x, "table"@));
    lemma_rend_one(f, o, Piece::Check(true, type_check_t(x, "table"@)));
    match ar.len.spec_exact() {
        Some(e) => {
            lemma_items(s, *ar.item, x, Some(e), 0, r);
            let it = items_p(*ar.item, x, Some(e), 0, r);
            let c1 = check(false, range_check_t(len_t(x), ar.len));
            lemma_rend_add(f, o, head, c1);
            lemma_rend_add(f, o, head + c1, it.1);
            lemma_rend_one(f, o, Piece::Check(false, range_check_t(len_t(x), ar.len)));
        },
        None => {
            let (r1, l) = reg_alloc(r);
            let k = ar.len.spec_len_kind();
            lemma_items(s, *ar.item, x, None, l, r1);
            let it = items_p(*ar.item, x, None, l, r1);
            let c1 = code(local_t(l, len_t(x)));
            let c2 = check(false, range_check_t(vt(l), ar.len));
            let c3 = one(Piece::Write(k, vt(l)));
            lemma_rend_add(f, o, head, c1);
            lemma_rend_add(f, o, head + c1, c2);
            lemma_rend_add(f, o, head + c1 + c2, c3);
            lemma_rend_add(f, o, head + c1 + c2 + c3, it.1);
            lemma_rend_one(f, o, Piece::Code(local_t(l, len_t(x))));
            lemma_rend_one(f, o, Piece::Check(false, range_check_t(vt(l), ar.len)));
            lemma_rend_one(f, o, Piece::Write(k, vt(l)));
            let w1 = alloc_t(nat_text(k.spec_size() as nat));
            let w2 = write_k_t(FuncK::spec_from_kind(k), vt(l));
            let a0 = opt_t(f, type_check_t(x, "table"@)) + local_t(l, len_t(x)) + opt_t(o, range_check_t(vt(l), ar.len));
            lemma_assoc5(a0, w1, w2, render(s.apicheck, it.1), seq![]);
            assert(a0 + (w1 + w2) + render(s.apicheck, it.1) =~= a0 + w1 + w2 + render(s.apicheck, it.1));
        },
    }
}

#[verifier::spinoff_prover]
#[verifier::rlimit(60)]
proof fn lemma_set(s: Ser, st: SetType, x: Seq<char>, r: RegState)
    ensures
        ser_set_s(s, st, x, r) == out(set_p(st, x, r).0, render(s.apicheck, set_p(st, x, r).1)),
    decreases st, 1int,
{
    let (f, o) = (full_checks(s.apicheck), some_checks(s.apicheck));
    let (r1, p) = reg_alloc(r);
    let (r2, l) = reg_alloc(r1);
    let (r3, ki) = reg_alloc(r2);
    let (r4, vi) = reg_alloc(r3);
    lemma_ser_pieces(s, *st.item, vt(ki), r4);
    let body = ser_p(*st.item, vt(ki), r4);
    let k = st.len.spec_len_kind();
    let tc = type_check_t(x, "table"@);
    let cs = count_step_t(l);
    let t4 = range_check_t(vt(l), st.len);
    let t5 = write_reserved_t(FuncK::spec_from_kind(k), vt(p), vt(l));
    let c0 = check(true, tc);
    let c1 = one(Piece::Reserve(p, k));
    let c2 = code(local_t(l, nat_text(0)));
    let c3 = one(Piece::OpenPairs(ki, vi, x, cs));
    let c5 = one(Piece::Close);
    let c6 = check(false, t4);
    let c7 = code(t5);
    lemma_rend_add(f, o, c0, c1);
    lemma_rend_add(f, o, c0 + c1, c2);
    lemma_rend_add(f, o, c0 + c1 + c2, c3);
    lemma_rend_add(f, o, c0 + c1 + c2 + c3, body.1);
    lemma_rend_add(f, o, c0 + c1 + c2 + c3 + body.1, c5);
    lemma_rend_add(f, o, c0 + c1 + c2 + c3 + body.1 + c5, c6);
    lemma_rend_add(f, o, c0 + c1 + c2 + c3 + body.1 + c5 + c6, c7);
    lemma_rend_one(f, o, Piece::Check(true, tc));
    lemma_rend_one(f, o, Piece::Reserve(p, k));
    lemma_rend_one(f, o, Piece::Code(local_t(l, nat_text(0))));
    lemma_rend_one(f, o, Piece::OpenPairs(ki, vi, x, cs));
    lemma_rend_one(f, o, Piece::Close);
    lemma_rend_one(f, o, Piece::Check(false, t4));
    lemma_rend_one(f, o, Piece::Code(t5));
    let bt = render(s.apicheck, body.1);
    lemma_map_t(ki, vi, x, cs + bt);
    lemma_assoc_set(
        opt_t(f, tc),
        reserve_t(p, k.spec_size()),
        local_t(l, nat_text(0)),
        for_in_head(ki, vi, x),
        cs,
        bt,
        " end;"@,
        opt_t(o, t4),
        t5,
    );
}

#[verifier::spinoff_prover]
#[verifier::rlimit(60)]
proof fn lemma_map(s: Ser, mt: MapType, x: Seq<char>, r: RegState)
    ensures
        ser_map_s(s, mt, x, r) == out(map_p(mt, x, r).0, render(s.apicheck, map_p(mt, x, r).1)),
    decreases mt, 1int,
{
    let (f, o) = (full_checks(s.apicheck), some_checks(s.apicheck));
    let (r1, p) = reg_alloc(r);
    let (r2, l) = reg_alloc(r1);
    let (r3, ki) = reg_alloc(r2);
    let (r4, vi) = reg_alloc(r3);
    lemma_ser_pieces(s, *mt.index, vt(ki), r4);
    let bi = ser_p(*mt.index, vt(ki), r4);
    lemma_ser_pieces(s, *mt.value, vt(vi), bi.0);
    let bv = ser_p(*mt.value, vt(vi), bi.0);
    let k = mt.len.spec_len_kind();
    let tc = type_check_t(x, "table"@);
    let cs = count_step_t(l);
    let t4 = range_check_t(vt(l), mt.len);
    let t5 = write_reserved_t(FuncK::spec_from_kind(k), vt(p), vt(l));
    let c0 = check(true, tc);
    let c1 = one(Piece::Reserve(p, k));
    let c2 = code(local_t(l, nat_text(0)));
    let c3 = one(Piece::OpenPairs(ki, vi, x, cs));
    let c5 = one(Piece::Close);
    let c6 = check(false, t4);
    let c7 = code(t5);
    lemma_rend_add(f, o, c0, c1);
    lemma_rend_add(f, o, c0 + c1, c2);
    lemma_rend_add(f, o, c0 + c1 + c2, c3);
    lemma_rend_add(f, o, c0 + c1 + c2 + c3, bi.1);
    lemma_rend_add(f, o, c0 + c1 + c2 + c3 + bi.1, bv.1);
    lemma_rend_add(f, o, c0 + c1 + c2 + c3 + bi.1 + bv.1, c5);
    lemma_rend_add(f, o, c0 + c1 + c2 + c3 + bi.1 + bv.1 + c5, c6);
    lemma_rend_add(f, o, c0 + c1 + c2 + c3 + bi.1 + bv.1 + c5 + c6, c7);
    lemma_rend_one(f, o, Piece::Check(true, tc));
    lemma_rend_one(f, o, Piece::Reserve(p, k));
    lemma_rend_one(f, o, Piece::Code(local_t(l, nat_text(0))));
    lemma_rend_one(f, o, Piece::OpenPairs(ki, vi, x, cs));
    lemma_rend_one(f, o, Piece::Close);
    lemma_rend_one(f, o, Piece::Check(false, t4));
    lemma_rend_one(f, o, Piece::Code(t5));
    let bit = render(s.apicheck, bi.1);
    let bvt = render(s.apicheck, bv.1);
    lemma_map_t(ki, vi, x, cs + bit + bvt);
    lemma_assoc_map(
        opt_t(f, tc),
        reserve_t(p, k.spec_size()),
        local_t(l, nat_text(0)),
        for_in_head(ki, vi, x),
        cs,
        bit,
        bvt,
        " end;"@,
        opt_t(o, t4),
        t5,
    );
}

#[verifier::spinoff_prover]
#[verifier::rlimit(60)]
proof fn lemma_fields(s: Ser, fs: Seq<(String, Type)>, x: Seq<char>, r: RegState)
    ensures
        ser_fields_s(s, fs, x, r) == out(fields_p(fs, x, r).0, render(s.apicheck, fields_p(fs, x, r).1)),
    decreases fs, 1int,
{
    let (f, o) = (full_checks(s.apicheck), some_checks(s.apicheck));
    if fs.len() == 0 {
        lemma_rend_empty(f, o);
    } else {
        let pre = fs.subrange(0, fs.len() - 1);
        lemma_fields(s, pre, x, r);
        let ap = fields_p(pre, x, r);
        let (r1, w) = reg_alloc(ap.0);
        lemma_ser_pieces(s, fs[fs.len() - 1].1, vt(w), r1);
        let fp = ser_p(fs[fs.len() - 1].1, vt(w), r1);
        let c = code(local_t(w, field_t(x, fs[fs.len() - 1].0@)));
        lemma_rend_add(f, o, ap.1, c);
        lemma_rend_add(f, o, ap.1 + c, fp.1);
        lemma_rend_one(f, o, Piece::Code(local_t(w, field_t(x, fs[fs.len() - 1].0@))));
    }
}

#[verifier::spinoff_prover]
#[verifier::rlimit(60)]
proof fn lemma_des_number(d: Des, n: NumberType, r: RegState)
    ensures
        des_number_s(d, n, r) == (
            out(des_number_p(n, r).0, rend(d.check, d.check, des_number_p(n, r).1)),
            des_number_p(n, r).2,
        ),
{
    let c = d.check;
    let (r1, v) = reg_alloc(r);
    let p1 = one(Piece::Read(v, n.kind));
    let p2 = check(false, range_check_t(vt(v), n.range));
    let p3 = check_if(!is_nan_kind(n.kind), false, nan_check_t(vt(v)));
    lemma_rend_add(c, c, p1, p2);
    lemma_rend_add(c, c, p1 + p2, p3);
    lemma_rend_one(c, c, Piece::Read(v, n.kind));
    lemma_rend_one(c, c, Piece::Check(false, range_check_t(vt(v), n.range)));
    lemma_rend_one(c, c, Piece::Check(false, nan_check_t(vt(v))));
    lemma_rend_empty(c, c);
    if is_nan_kind(n.kind) {
        assert(opt_t(c && !is_nan_kind(n.kind), nan_check_t(vt(v))) == Seq::<char>::empty());
        assert(rend(c, c, p1 + p2 + p3) =~= des_number_s(d, n, r).0.text);
    }
}

#[verifier::spinoff_prover]
#[verifier::rlimit(60)]
proof fn lemma_des_vector(d: Des, v: VectorType, r: RegState)
    ensures
        des_vector_s(d, v, r) == (
            out(des_vector_p(v, r).0, rend(d.check, d.check, des_vector_p(v, r).1)),
            des_vector_p(v, r).2,
        ),
{
    let c = d.check;
    lemma_des_number(d, v.x, r);
    let (rx, px, x) = des_number_p(v.x, r);
    lemma_des_number(d, v.y, rx);
    let (ry, py, y) = des_number_p(v.y, rx);
    lemma_rend_add(c, c, px, py);
    match v.z {
        Some(zt) => {
            lemma_des_number(d, zt, ry);
            let (rz, pz, z) = des_number_p(zt, ry);
            let (r2, w) = reg_alloc(reg_release(rz, z));
            let lc = local_t(w, "vector.create("@ + vt(x) + ", "@ + vt(y) + ", "@ + vt(z) + ")"@);
            lemma_rend_add(c, c, px + py, pz);
            lemma_rend_add(c, c, px + py + pz, code(lc));
            lemma_rend_one(c, c, Piece::Code(lc));
        },
        None => {
            let (r2, w) = reg_alloc(ry);
            let lc = local_t(w, "vector.create("@ + vt(x) + ", "@ + vt(y) + ", "@ + nat_text(0) + ")"@);
            lemma_rend_add(c, c, px + py, code(lc));
            lemma_rend_one(c, c, Piece::Code(lc));
        },
    }
}

#[verifier::spinoff_prover]
#[verifier::rlimit(60)]
proof fn lemma_des_string(d: Des, utf8: bool, len: Range, r: RegState)
    ensures
        des_string_s(d, utf8, len, r) == (
            out(des_string_p(utf8, len, r).0, rend(d.check, d.check, des_string_p(utf8, len, r).1)),
            des_string_p(utf8, len, r).2,
        ),
{
    let c = d.check;
    lemma_rend_empty(c, c);
    match len.spec_exact() {
        Some(e) => {
            let (r1, v) = reg_alloc(r);
            let u = check_if(utf8, false, utf8_check_t(vt(v)));
            lemma_rend_add(c, c, one(Piece::ReadStrFixed(v, e)), u);
            lemma_rend_one(c, c, Piece::ReadStrFixed(v, e));
            lemma_rend_one(c, c, Piece::Check(false, utf8_check_t(vt(v))));
            if !utf8 {
                assert(rend(c, c, one(Piece::ReadStrFixed(v, e)) + u) =~= read_d_t(v, num_text(e))
                    + opt_t(utf8 && c, utf8_check_t(vt(v))));
            }
        },
        None => {
            let (r1, l) = reg_alloc(r);
            let (r2, v) = reg_alloc(r1);
            let k = len.spec_len_kind();
            let p1 = one(Piece::Read(l, k));
            let p2 = check(false, range_check_t(vt(l), len));
            let p3 = one(Piece::ReadStrVar(v, l));
            let p4 = check_if(utf8, false, utf8_check_t(vt(v)));
            lemma_rend_add(c, c, p1, p2);
            lemma_rend_add(c, c, p1 + p2, p3);
            lemma_rend_add(c, c, p1 + p2 + p3, p4);
            lemma_rend_one(c, c, Piece::Read(l, k));
            lemma_rend_one(c, c, Piece::Check(false, range_check_t(vt(l), len)));
            lemma_rend_one(c, c, Piece::ReadStrVar(v, l));
            lemma_rend_one(c, c, Piece::Check(false, utf8_check_t(vt(v))));
            if !utf8 {
                assert(rend(c, c, p1 + p2 + p3 + p4) =~= des_string_s(d, utf8, len, r).0.text);
            }
        },
    }
}

/// What the reading code is: the pieces of `des_p`, with the checks when
/// reading checks; it ends in the same registry state and the same variable.
#[verifier::spinoff_prover]
#[verifier::rlimit(60)]
pub proof fn lemma_des_pieces(d: Des, t: Type, r: RegState)
    ensures
        des_s(d, t, r) == (out(des_p(t, r).0, rend(d.check, d.check, des_p(t, r).1)), des_p(t, r).2),
    decreases t, 2int,
{
    let c = d.check;
    match t {
        Type::Number(n) => {
            lemma_des_number(d, n, r);
        },
        Type::Vector(v) => {
            lemma_des_vector(d, v, r);
        },
        Type::BinaryString(bs) => {
            lemma_des_string(d, false, bs.len, r);
        },
        Type::Utf8String(us) => {
            lemma_des_string(d, true, us.len, r);
        },
        Type::Array(a) => {
            lemma_des_array(d, a, r);
        },
        Type::SetOf(st) => {
            lemma_des_set(d, st, r);
        },
        Type::MapOf(mt) => {
            lemma_des_map(d, mt, r);
        },
        Type::Struct(st) => {
            lemma_des_fields(d, st.fields@, r);
            let (rf, pf, vs) = des_fields_p(st.fields@, r);
            let (r1, w) = reg_alloc(rf);
            let lc = local_t(w, "{ "@ + struct_t(st.fields@, vs) + "}"@);
            lemma_rend_add(c, c, pf, code(lc));
            lemma_rend_one(c, c, Piece::Code(lc));
        },
    }
}

#[verifier::spinoff_prover]
#[verifier::rlimit(60)]
proof fn lemma_des_array(d: Des, a: ArrayType, r: RegState)
    ensures
        des_array_s(d, a, r) == (out(des_array_p(a, r).0, rend(d.check, d.check, des_array_p(a, r).1)), des_array_p(a, r).2),
    decreases a, 1int,
{
    let c = d.check;
    lemma_rend_one(c, c, Piece::Close);
    match a.len.spec_exact() {
        Some(e) => {
            let (r1, arr) = reg_alloc(r);
            let (r2, i) = reg_alloc(r1);
            lemma_des_pieces(d, *a.item, r2);
            let (rf, pf, v) = des_p(*a.item, r2);
            let c0 = code(local_t(arr, array_t(e)));
            let c1 = one(Piece::OpenFixed(i, e, seq![]));
            let c3 = code(set_index_t(arr, vt(i), vt(v)));
            let c4 = one(Piece::Close);
            lemma_rend_add(c, c, c0, c1);
            lemma_rend_add(c, c, c0 + c1, pf);
            lemma_rend_add(c, c, c0 + c1 + pf, c3);
            lemma_rend_add(c, c, c0 + c1 + pf + c3, c4);
            lemma_rend_one(c, c, Piece::Code(local_t(arr, array_t(e))));
            lemma_rend_one(c, c, Piece::OpenFixed(i, e, seq![]));
            lemma_rend_one(c, c, Piece::Code(set_index_t(arr, vt(i), vt(v))));
            let ft = rend(c, c, pf);
            lemma_range_t(i, num_text(e), ft + set_index_t(arr, vt(i), vt(v)));
            lemma_assoc_loop(local_t(arr, array_t(e)), for_head(i, num_text(e)), ft, set_index_t(arr, vt(i), vt(v)), " end;"@);
        },
        None => {
            let (r1, l) = reg_alloc(r);
            let (r2, arr) = reg_alloc(r1);
            let (r3, i) = reg_alloc(r2);
            lemma_des_pieces(d, *a.item, r3);
            let (rf, pf, v) = des_p(*a.item, r3);
            let k = a.len.spec_len_kind();
            let c0 = one(Piece::Read(l, k));
            let cc = check(false, range_check_t(vt(l), a.len));
            let cl = code(local_t(arr, "table.create("@ + vt(l) + ")"@));
            let c1 = one(Piece::OpenVar(i, l, seq![]));
            let c3 = code(set_index_t(arr, vt(i), vt(v)));
            let c4 = one(Piece::Close);
            lemma_rend_add(c, c, c0, cc);
            lemma_rend_add(c, c, c0 + cc, cl);
            lemma_rend_add(c, c, c0 + cc + cl, c1);
            lemma_rend_add(c, c, c0 + cc + cl + c1, pf);
            lemma_rend_add(c, c, c0 + cc + cl + c1 + pf, c3);
            lemma_rend_add(c, c, c0 + cc + cl + c1 + pf + c3, c4);
            lemma_rend_one(c, c, Piece::Read(l, k));
            lemma_rend_one(c, c, Piece::Check(false, range_check_t(vt(l), a.len)));
            lemma_rend_one(c, c, Piece::Code(local_t(arr, "table.create("@ + vt(l) + ")"@)));
            lemma_rend_one(c, c, Piece::OpenVar(i, l, seq![]));
            lemma_rend_one(c, c, Piece::Code(set_index_t(arr, vt(i), vt(v))));
            let ft = rend(c, c, pf);
            lemma_range_t(i, vt(l), ft + set_index_t(arr, vt(i), vt(v)));
            lemma_assoc_loop(
                read_k_t(l, FuncK::spec_from_kind(k)) + opt_t(c, range_check_t(vt(l), a.len)) + local_t(arr, "table.create("@ + vt(l) + ")"@),
                for_head(i, vt(l)),
                ft,
                set_index_t(arr, vt(i), vt(v)),
                " end;"@,
            );
        },
    }
}

#[verifier::spinoff_prover]
#[verifier::rlimit(60)]
proof fn lemma_des_set(d: Des, st: SetType, r: RegState)
    ensures
        des_set_s(d, st, r) == (out(des_set_p(st, r).0, rend(d.check, d.check, des_set_p(st, r).1)), des_set_p(st, r).2),
    decreases st, 1int,
{
    let c = d.check;
    let (r1, l) = reg_alloc(r);
    let (r2, t) = reg_alloc(r1);
    let (r3, i) = reg_alloc(r2);
    lemma_des_pieces(d, *st.item, r3);
    let (rf, pf, v) = des_p(*st.item, r3);
    let k = st.len.spec_len_kind();
    let c0 = one(Piece::Read(l, k));
    let cc = check(false, range_check_t(vt(l), st.len));
    let cl = code(local_t(t, "{}"@));
    let c1 = one(Piece::OpenVar(i, l, seq![]));
    let c3 = code(set_index_t(t, vt(v), "true"@));
    let c4 = one(Piece::Close);
    lemma_rend_add(c, c, c0, cc);
    lemma_rend_add(c, c, c0 + cc, cl);
    lemma_rend_add(c, c, c0 + cc + cl, c1);
    lemma_rend_add(c, c, c0 + cc + cl + c1, pf);
    lemma_rend_add(c, c, c0 + cc + cl + c1 + pf, c3);
    lemma_rend_add(c, c, c0 + cc + cl + c1 + pf + c3, c4);
    lemma_rend_one(c, c, Piece::Read(l, k));
    lemma_rend_one(c, c, Piece::Check(false, range_check_t(vt(l), st.len)));
    lemma_rend_one(c, c, Piece::Code(local_t(t, "{}"@)));
    lemma_rend_one(c, c, Piece::OpenVar(i, l, seq![]));
    lemma_rend_one(c, c, Piece::Code(set_index_t(t, vt(v), "true"@)));
    lemma_rend_one(c, c, Piece::Close);
    let ft = rend(c, c, pf);
    lemma_range_t(i, vt(l), ft + set_index_t(t, vt(v), "true"@));
    lemma_assoc_loop(
        read_k_t(l, FuncK::spec_from_kind(k)) + opt_t(c, range_check_t(vt(l), st.len)) + local_t(t, "{}"@),
        for_head(i, vt(l)),
        ft,
        set_index_t(t, vt(v), "true"@),
        " end;"@,
    );
}

#[verifier::spinoff_prover]
#[verifier::rlimit(60)]
proof fn lemma_des_map(d: Des, mt: MapType, r: RegState)
    ensures
        des_map_s(d, mt, r) == (out(des_map_p(mt, r).0, rend(d.check, d.check, des_map_p(mt, r).1)), des_map_p(mt, r).2),
    decreases mt, 1int,
{
    let c = d.check;
    let (r1, l) = reg_alloc(r);
    let (r2, t) = reg_alloc(r1);
    let (r3, i) = reg_alloc(r2);
    lemma_des_pieces(d, *mt.index, r3);
    let (rk, pk, kv) = des_p(*mt.index, r3);
    lemma_des_pieces(d, *mt.value, rk);
    let (rv, pv, v) = des_p(*mt.value, rk);
    let k = mt.len.spec_len_kind();
    let c0 = one(Piece::Read(l, k));
    let cc = check(false, range_check_t(vt(l), mt.len));
    let cl = code(local_t(t, "{}"@));
    let c1 = one(Piece::OpenVar(i, l, seq![]));
    let c3 = code(set_index_t(t, vt(kv), vt(v)));
    let c4 = one(Piece::Close);
    lemma_rend_add(c, c, c0, cc);
    lemma_rend_add(c, c, c0 + cc, cl);
    lemma_rend_add(c, c, c0 + cc + cl, c1);
    lemma_rend_add(c, c, c0 + cc + cl + c1, pk);
    lemma_rend_add(c, c, c0 + cc + cl + c1 + pk, pv);
    lemma_rend_add(c, c, c0 + cc + cl + c1 + pk + pv, c3);
    lemma_rend_add(c, c, c0 + cc + cl + c1 + pk + pv + c3, c4);
    lemma_rend_one(c, c, Piece::Read(l, k));
    lemma_rend_one(c, c, Piece::Check(false, range_check_t(vt(l), mt.len)));
    lemma_rend_one(c, c, Piece::Code(local_t(t, "{}"@)));
    lemma_rend_one(c, c, Piece::OpenVar(i, l, seq![]));
    lemma_rend_one(c, c, Piece::Code(set_index_t(t, vt(kv), vt(v))));
    lemma_rend_one(c, c, Piece::Close);
    let kt = rend(c, c, pk);
    let vtt = rend(c, c, pv);
    lemma_range_t(i, vt(l), kt + vtt + set_index_t(t, vt(kv), vt(v)));
    lemma_assoc_loop2(
        read_k_t(l, FuncK::spec_from_kind(k)) + opt_t(c, range_check_t(vt(l), mt.len)) + local_t(t, "{}"@),
        for_head(i, vt(l)),
        kt,
        vtt,
        set_index_t(t, vt(kv), vt(v)),
        " end;"@,
    );
}

#[verifier::spinoff_prover]
#[verifier::rlimit(60)]
proof fn lemma_des_fields(d: Des, fs: Seq<(String, Type)>, r: RegState)
    ensures
        des_fields_s(d, fs, r) == (
            out(des_fields_p(fs, r).0, rend(d.check, d.check, des_fields_p(fs, r).1)),
            des_fields_p(fs, r).2,
        ),
    decreases fs, 1int,
{
    let c = d.check;
    if fs.len() == 0 {
        lemma_rend_empty(c, c);
    } else {
        let pre = fs.subrange(0, fs.len() - 1);
        lemma_des_fields(d, pre, r);
        let (ra, pa, vs) = des_fields_p(pre, r);
        lemma_des_pieces(d, fs[fs.len() - 1].1, ra);
        let (rf, pf, v) = des_p(fs[fs.len() - 1].1, ra);
        lemma_rend_add(c, c, pa, pf);
    }
}

#[verifier::spinoff_prover]
#[verifier::rlimit(60)]
proof fn lemma_acc_quiet(full: bool, c: Seq<char>, b: bool)
    ensures
        accesses(check(full, c)) == Seq::<Access>::empty(),
        accesses(code(c)) == Seq::<Access>::empty(),
        accesses(check_if(b, full, c)) == Seq::<Access>::empty(),
        accesses(Seq::<Piece>::empty()) == Seq::<Access>::empty(),
{
    lemma_acc_one(Piece::Check(full, c));
    lemma_acc_one(Piece::Code(c));
}

#[verifier::spinoff_prover]
#[verifier::rlimit(60)]
proof fn lemma_acc_number(n: NumberType, x: Seq<char>)
    ensures
        accesses(number_p(n, x)) == seq![Access::Number(FuncK::spec_from_kind(n.kind))],
{
    let p1 = check(true, type_check_t(x, "number"@));
    let p2 = check(false, range_check_t(x, n.range));
    let p3 = check_if(!is_nan_kind(n.kind), false, nan_check_t(x));
    lemma_acc_add(p1, p2);
    lemma_acc_add(p1 + p2, p3);
    lemma_acc_add(p1 + p2 + p3, one(Piece::Write(n.kind, x)));
    lemma_acc_quiet(true, type_check_t(x, "number"@), false);
    lemma_acc_quiet(false, range_check_t(x, n.range), false);
    lemma_acc_quiet(false, nan_check_t(x), !is_nan_kind(n.kind));
    lemma_acc_one(Piece::Write(n.kind, x));
    assert(accesses(number_p(n, x)) =~= seq![Access::Number(FuncK::spec_from_kind(n.kind))]);
}

#[verifier::spinoff_prover]
#[verifier::rlimit(60)]
proof fn lemma_acc_des_number(n: NumberType, r: RegState)
    ensures
        accesses(des_number_p(n, r).1) == seq![Access::Number(FuncK::spec_from_kind(n.kind))],
{
    let (r1, v) = reg_alloc(r);
    let p1 = one(Piece::Read(v, n.kind));
    let p2 = check(false, range_check_t(vt(v), n.range));
    let p3 = check_if(!is_nan_kind(n.kind), false, nan_check_t(vt(v)));
    lemma_acc_add(p1, p2);
    lemma_acc_add(p1 + p2, p3);
    lemma_acc_one(Piece::Read(v, n.kind));
    lemma_acc_quiet(false, range_check_t(vt(v), n.range), false);
    lemma_acc_quiet(false, nan_check_t(vt(v)), !is_nan_kind(n.kind));
    assert(accesses(des_number_p(n, r).1) =~= seq![Access::Number(FuncK::spec_from_kind(n.kind))]);
}

/// What the writing code puts in the buffer is the layout of the type.
#[verifier::spinoff_prover]
#[verifier::rlimit(60)]
pub proof fn lemma_ser_layout(t: Type, x: Seq<char>, r: RegState)
    ensures
        accesses(ser_p(t, x, r).1) == layout(t),
    decreases t, 2int,
{
    match t {
        Type::Number(n) => {
            lemma_acc_number(n, x);
        },
        Type::Vector(v) => {
            lemma_acc_vector(v, x);
        },
        Type::BinaryString(bs) => {
            lemma_acc_string(false, bs.len, x, r);
        },
        Type::Utf8String(us) => {
            lemma_acc_string(true, us.len, x, r);
        },
        Type::Array(a) => {
            lemma_acc_array(a, x, r);
        },
        Type::SetOf(st) => {
            lemma_acc_set(st, x, r);
        },
        Type::MapOf(mt) => {
            lemma_acc_map(mt, x, r);
        },
        Type::Struct(st) => {
            lemma_acc_fields(st.fields@, x, r);
            let fp = fields_p(st.fields@, x, r);
            lemma_acc_add(check(true, type_check_t(x, "table"@)), fp.1);
            lemma_acc_quiet(true, type_check_t(x, "table"@), false);
            assert(accesses(ser_p(t, x, r).1) =~= layout(t));
        },
    }
}

#[verifier::spinoff_prover]
#[verifier::rlimit(60)]
proof fn lemma_acc_vector(v: VectorType, x: Seq<char>)
    ensures
        accesses(vector_p(v, x)) == layout(Type::Vector(v)),
{
    let p1 = check(true, type_check_t(x, "vector"@));
    let px = number_p(v.x, field_t(x, "x"@));
    let py = number_p(v.y, field_t(x, "y"@));
    let pz = match v.z {
        Some(z) => number_p(z, field_t(x, "z"@)),
        None => seq![],
    };
    lemma_acc_add(p1, px);
    lemma_acc_add(p1 + px, py);
    lemma_acc_add(p1 + px + py, pz);
    lemma_acc_quiet(true, type_check_t(x, "vector"@), false);
    lemma_acc_number(v.x, field_t(x, "x"@));
    lemma_acc_number(v.y, field_t(x, "y"@));
    match v.z {
        Some(z) => {
            lemma_acc_number(z, field_t(x, "z"@));
        },
        None => {},
    }
    assert(accesses(vector_p(v, x)) =~= layout(Type::Vector(v)));
}

#[verifier::spinoff_prover]
#[verifier::rlimit(60)]
proof fn lemma_acc_set(st: SetType, x: Seq<char>, r: RegState)
    ensures
        accesses(set_p(st, x, r).1) == layout(Type::SetOf(st)),
    decreases st, 1int,
{
    let (r1, p) = reg_alloc(r);
    let (r2, l) = reg_alloc(r1);
    let (r3, ki) = reg_alloc(r2);
    let (r4, vi) = reg_alloc(r3);
    lemma_ser_layout(*st.item, vt(ki), r4);
    let body = ser_p(*st.item, vt(ki), r4);
    let k = st.len.spec_len_kind();
    let c0 = check(true, type_check_t(x, "table"@));
    let c1 = one(Piece::Reserve(p, k));
    let c2 = code(local_t(l, nat_text(0)));
    let c3 = one(Piece::OpenPairs(ki, vi, x, count_step_t(l)));
    let c5 = one(Piece::Close);
    let c6 = check(false, range_check_t(vt(l), st.len));
    let c7 = code(write_reserved_t(FuncK::spec_from_kind(k), vt(p), vt(l)));
    lemma_acc_add(c0, c1);
    lemma_acc_add(c0 + c1, c2);
    lemma_acc_add(c0 + c1 + c2, c3);
    lemma_acc_add(c0 + c1 + c2 + c3, body.1);
    lemma_acc_add(c0 + c1 + c2 + c3 + body.1, c5);
    lemma_acc_add(c0 + c1 + c2 + c3 + body.1 + c5, c6);
    lemma_acc_add(c0 + c1 + c2 + c3 + body.1 + c5 + c6, c7);
    lemma_acc_quiet(true, type_check_t(x, "table"@), false);
    lemma_acc_quiet(false, local_t(l, nat_text(0)), false);
    lemma_acc_quiet(false, range_check_t(vt(l), st.len), false);
    lemma_acc_quiet(false, write_reserved_t(FuncK::spec_from_kind(k), vt(p), vt(l)), false);
    lemma_acc_one(Piece::Reserve(p, k));
    lemma_acc_one(Piece::OpenPairs(ki, vi, x, count_step_t(l)));
    lemma_acc_one(Piece::Close);
    assert(accesses(set_p(st, x, r).1) =~= layout(Type::SetOf(st)));
}

#[verifier::spinoff_prover]
#[verifier::rlimit(60)]
proof fn lemma_acc_map(mt: MapType, x: Seq<char>, r: RegState)
    ensures
        accesses(map_p(mt, x, r).1) == layout(Type::MapOf(mt)),
    decreases mt, 1int,
{
    let (r1, p) = reg_alloc(r);
    let (r2, l) = reg_alloc(r1);
    let (r3, ki) = reg_alloc(r2);
    let (r4, vi) = reg_alloc(r3);
    lemma_ser_layout(*mt.index, vt(ki), r4);
    let bi = ser_p(*mt.index, vt(ki), r4);
    lemma_ser_layout(*mt.value, vt(vi), bi.0);
    let bv = ser_p(*mt.value, vt(vi), bi.0);
    let k = mt.len.spec_len_kind();
    let c0 = check(true, type_check_t(x, "table"@));
    let c1 = one(Piece::Reserve(p, k));
    let c2 = code(local_t(l, nat_text(0)));
    let c3 = one(Piece::OpenPairs(ki, vi, x, count_step_t(l)));
    let c5 = one(Piece::Close);
    let c6 = check(false, range_check_t(vt(l), mt.len));
    let c7 = code(write_reserved_t(FuncK::spec_from_kind(k), vt(p), vt(l)));
    lemma_acc_add(c0, c1);
    lemma_acc_add(c0 + c1, c2);
    lemma_acc_add(c0 + c1 + c2, c3);
    lemma_acc_add(c0 + c1 + c2 + c3, bi.1);
    lemma_acc_add(c0 + c1 + c2 + c3 + bi.1, bv.1);
    lemma_acc_add(c0 + c1 + c2 + c3 + bi.1 + bv.1, c5);
    lemma_acc_add(c0 + c1 + c2 + c3 + bi.1 + bv.1 + c5, c6);
    lemma_acc_add(c0 + c1 + c2 + c3 + bi.1 + bv.1 + c5 + c6, c7);
    lemma_acc_quiet(true, type_check_t(x, "table"@), false);
    lemma_acc_quiet(false, local_t(l, nat_text(0)), false);
    lemma_acc_quiet(false, range_check_t(vt(l), mt.len), false);
    lemma_acc_quiet(false, write_reserved_t(FuncK::spec_from_kind(k), vt(p), vt(l)), false);
    lemma_acc_one(Piece::Reserve(p, k));
    lemma_acc_one(Piece::OpenPairs(ki, vi, x, count_step_t(l)));
    lemma_acc_one(Piece::Close);
    assert(accesses(map_p(mt, x, r).1) =~= layout(Type::MapOf(mt)));
}

#[verifier::spinoff_prover]
#[verifier::rlimit(60)]
proof fn lemma_acc_string(utf8: bool, len: Range, x: Seq<char>, r: RegState)
    ensures
        accesses(string_p(utf8, len, x, r).1) == string_layout(len),
{
    let h1 = check(true, type_check_t(x, "string"@));
    let h2 = check_if(utf8, false, utf8_check_t(x));
    lemma_acc_add(h1, h2);
    lemma_acc_quiet(true, type_check_t(x, "string"@), false);
    lemma_acc_quiet(false, utf8_check_t(x), utf8);
    let h = h1 + h2;
    match len.spec_exact() {
        Some(e) => {
            let c1 = check(false, range_check_t(len_t(x), len));
            lemma_acc_add(h, c1);
            lemma_acc_add(h + c1, one(Piece::WriteStrFixed(e, x)));
            lemma_acc_quiet(false, range_check_t(len_t(x), len), false);
            lemma_acc_one(Piece::WriteStrFixed(e, x));
            assert(accesses(string_p(utf8, len, x, r).1) =~= string_layout(len));
        },
        None => {
            let (r1, l) = reg_alloc(r);
            let k = len.spec_len_kind();
            let c1 = code(local_t(l, len_t(x)));
            let c2 = check(false, range_check_t(vt(l), len));
            let c3 = one(Piece::Write(k, vt(l)));
            let c4 = one(Piece::WriteStrVar(l, x));
            lemma_acc_add(h, c1);
            lemma_acc_add(h + c1, c2);
            lemma_acc_add(h + c1 + c2, c3);
            lemma_acc_add(h + c1 + c2 + c3, c4);
            lemma_acc_quiet(false, local_t(l, len_t(x)), false);
            lemma_acc_quiet(false, range_check_t(vt(l), len), false);
            lemma_acc_one(Piece::Write(k, vt(l)));
            lemma_acc_one(Piece::WriteStrVar(l, x));
            assert(accesses(string_p(utf8, len, x, r).1) =~= string_layout(len));
        },
    }
}

#[verifier::spinoff_prover]
#[verifier::rlimit(60)]
proof fn lemma_acc_items(item: Type, x: Seq<char>, e: Option<Num>, l: u16, r: RegState)
    ensures
        accesses(items_p(item, x, e, l, r).1) == seq![access(open_range(0, e, l, seq![])).unwrap()]
            + layout(item) + seq![Access::End],
    decreases item, 3int,
{
    let (r1, i) = reg_alloc(r);
    let (r2, w) = reg_alloc(r1);
    lemma_ser_layout(item, vt(w), r2);
    let body = ser_p(item, vt(w), r2);
    let op = open_range(i, e, l, local_t(w, at_t(x, i)));
    lemma_acc_add(one(op), body.1);
    lemma_acc_add(one(op) + body.1, one(Piece::Close));
    lemma_acc_one(op);
    lemma_acc_one(Piece::Close);
    assert(access(op) == access(open_range(0, e, l, seq![])));
}

#[verifier::spinoff_prover]
#[verifier::rlimit(60)]
proof fn lemma_acc_array(a: ArrayType, x: Seq<char>, r: RegState)
    ensures
        accesses(array_p(a, x, r).1) == layout(Type::Array(a)),
    decreases a, 1int,
{
    let head = check(true, type_check_t(x, "table"@));
    lemma_acc_quiet(true, type_check_t(x, "table"@), false);
    match a.len.spec_exact() {
        Some(e) => {
            lemma_acc_items(*a.item, x, Some(e), 0, r);
            let it = items_p(*a.item, x, Some(e), 0, r);
            let c1 = check(false, range_check_t(len_t(x), a.len));
            lemma_acc_add(head, c1);
            lemma_acc_add(head + c1, it.1);
            lemma_acc_quiet(false, range_check_t(len_t(x), a.len), false);
            assert(accesses(array_p(a, x, r).1) =~= layout(Type::Array(a)));
        },
        None => {
            let (r1, l) = reg_alloc(r);
            let k = a.len.spec_len_kind();
            lemma_acc_items(*a.item, x, None, l, r1);
            let it = items_p(*a.item, x, None, l, r1);
            let c1 = code(local_t(l, len_t(x)));
            let c2 = check(false, range_check_t(vt(l), a.len));
            let c3 = one(Piece::Write(k, vt(l)));
            lemma_acc_add(head, c1);
            lemma_acc_add(head + c1, c2);
            lemma_acc_add(head + c1 + c2, c3);
            lemma_acc_add(head + c1 + c2 + c3, it.1);
            lemma_acc_quiet(false, local_t(l, len_t(x)), false);
            lemma_acc_quiet(false, range_check_t(vt(l), a.len), false);
            lemma_acc_one(Piece::Write(k, vt(l)));
            assert(accesses(array_p(a, x, r).1) =~= layout(Type::Array(a)));
        },
    }
}

#[verifier::spinoff_prover]
#[verifier::rlimit(60)]
proof fn lemma_acc_fields(fs: Seq<(String, Type)>, x: Seq<char>, r: RegState)
    ensures
        accesses(fields_p(fs, x, r).1) == fields_layout(fs),
    decreases fs, 1int,
{
    if fs.len() == 0 {
        lemma_acc_quiet(false, seq![], false);
    } else {
        let pre = fs.subrange(0, fs.len() - 1);
        lemma_acc_fields(pre, x, r);
        let ap = fields_p(pre, x, r);
        let (r1, w) = reg_alloc(ap.0);
        lemma_ser_layout(fs[fs.len() - 1].1, vt(w), r1);
        let fp = ser_p(fs[fs.len() - 1].1, vt(w), r1);
        let c = code(local_t(w, field_t(x, fs[fs.len() - 1].0@)));
        lemma_acc_add(ap.1, c);
        lemma_acc_add(ap.1 + c, fp.1);
        lemma_acc_quiet(false, local_t(w, field_t(x, fs[fs.len() - 1].0@)), false);
        assert(accesses(ap.1) + Seq::<Access>::empty() =~= accesses(ap.1));
    }
}

#[verifier::spinoff_prover]
#[verifier::rlimit(60)]
proof fn lemma_acc_des_vector(v: VectorType, r: RegState)
    ensures
        accesses(des_vector_p(v, r).1) == layout(Type::Vector(v)),
{
    lemma_acc_des_number(v.x, r);
    let (rx, px, x) = des_number_p(v.x, r);
    lemma_acc_des_number(v.y, rx);
    let (ry, py, y) = des_number_p(v.y, rx);
    lemma_acc_add(px, py);
    match v.z {
        Some(zt) => {
            lemma_acc_des_number(zt, ry);
            let (rz, pz, z) = des_number_p(zt, ry);
            let (r2, w) = reg_alloc(reg_release(rz, z));
            let lc = local_t(w, "vector.create("@ + vt(x) + ", "@ + vt(y) + ", "@ + vt(z) + ")"@);
            lemma_acc_add(px + py, pz);
            lemma_acc_add(px + py + pz, code(lc));
            lemma_acc_quiet(false, lc, false);
        },
        None => {
            let (r2, w) = reg_alloc(ry);
            let lc = local_t(w, "vector.create("@ + vt(x) + ", "@ + vt(y) + ", "@ + nat_text(0) + ")"@);
            lemma_acc_add(px + py, code(lc));
            lemma_acc_quiet(false, lc, false);
        },
    }
    assert(accesses(des_vector_p(v, r).1) =~= layout(Type::Vector(v)));
}

#[verifier::spinoff_prover]
#[verifier::rlimit(60)]
proof fn lemma_acc_des_string(utf8: bool, len: Range, r: RegState)
    ensures
        accesses(des_string_p(utf8, len, r).1) == string_layout(len),
{
    match len.spec_exact() {
        Some(e) => {
            let (r1, v) = reg_alloc(r);
            let u = check_if(utf8, false, utf8_check_t(vt(v)));
            lemma_acc_add(one(Piece::ReadStrFixed(v, e)), u);
            lemma_acc_one(Piece::ReadStrFixed(v, e));
            lemma_acc_quiet(false, utf8_check_t(vt(v)), utf8);
            assert(accesses(des_string_p(utf8, len, r).1) =~= string_layout(len));
        },
        None => {
            let (r1, l) = reg_alloc(r);
            let (r2, v) = reg_alloc(r1);
            let k = len.spec_len_kind();
            let p1 = one(Piece::Read(l, k));
            let p2 = check(false, range_check_t(vt(l), len));
            let p3 = one(Piece::ReadStrVar(v, l));
            let p4 = check_if(utf8, false, utf8_check_t(vt(v)));
            lemma_acc_add(p1, p2);
            lemma_acc_add(p1 + p2, p3);
            lemma_acc_add(p1 + p2 + p3, p4);
            lemma_acc_one(Piece::Read(l, k));
            lemma_acc_one(Piece::ReadStrVar(v, l));
            lemma_acc_quiet(false, range_check_t(vt(l), len), false);
            lemma_acc_quiet(false, utf8_check_t(vt(v)), utf8);
            assert(accesses(des_string_p(utf8, len, r).1) =~= string_layout(len));
        },
    }
}

/// What the reading code takes out of the buffer is the layout of the type.
#[verifier::spinoff_prover]
#[verifier::rlimit(60)]
pub proof fn lemma_des_layout(t: Type, r: RegState)
    ensures
        accesses(des_p(t, r).1) == layout(t),
    decreases t, 2int,
{
    match t {
        Type::Number(n) => {
            lemma_acc_des_number(n, r);
        },
        Type::Vector(v) => {
            lemma_acc_des_vector(v, r);
        },
        Type::BinaryString(bs) => {
            lemma_acc_des_string(false, bs.len, r);
        },
        Type::Utf8String(us) => {
            lemma_acc_des_string(true, us.len, r);
        },
        Type::Array(a) => {
            lemma_acc_des_array(a, r);
        },
        Type::SetOf(st) => {
            lemma_acc_des_set(st, r);
        },
        Type::MapOf(mt) => {
            lemma_acc_des_map(mt, r);
        },
        Type::Struct(st) => {
            lemma_acc_des_fields(st.fields@, r);
            let (rf, pf, vs) = des_fields_p(st.fields@, r);
            let (r1, w) = reg_alloc(rf);
            let lc = local_t(w, "{ "@ + struct_t(st.fields@, vs) + "}"@);
            lemma_acc_add(pf, code(lc));
            lemma_acc_quiet(false, lc, false);
            assert(accesses(pf) + Seq::<Access>::empty() =~= accesses(pf));
        },
    }
}

#[verifier::spinoff_prover]
#[verifier::rlimit(60)]
proof fn lemma_acc_des_array(a: ArrayType, r: RegState)
    ensures
        accesses(des_array_p(a, r).1) == layout(Type::Array(a)),
    decreases a, 1int,
{
    lemma_acc_one(Piece::Close);
    match a.len.spec_exact() {
        Some(e) => {
            let (r1, arr) = reg_alloc(r);
            let (r2, i) = reg_alloc(r1);
            lemma_des_layout(*a.item, r2);
            let (rf, pf, v) = des_p(*a.item, r2);
            let c0 = code(local_t(arr, array_t(e)));
            let c1 = one(Piece::OpenFixed(i, e, seq![]));
            let c3 = code(set_index_t(arr, vt(i), vt(v)));
            let c4 = one(Piece::Close);
            lemma_acc_add(c0, c1);
            lemma_acc_add(c0 + c1, pf);
            lemma_acc_add(c0 + c1 + pf, c3);
            lemma_acc_add(c0 + c1 + pf + c3, c4);
            lemma_acc_quiet(false, local_t(arr, array_t(e)), false);
            lemma_acc_quiet(false, set_index_t(arr, vt(i), vt(v)), false);
            lemma_acc_one(Piece::OpenFixed(i, e, seq![]));
            assert(accesses(des_array_p(a, r).1) =~= layout(Type::Array(a)));
        },
        None => {
            let (r1, l) = reg_alloc(r);
            let (r2, arr) = reg_alloc(r1);
            let (r3, i) = reg_alloc(r2);
            lemma_des_layout(*a.item, r3);
            let (rf, pf, v) = des_p(*a.item, r3);
            let k = a.len.spec_len_kind();
            let c0 = one(Piece::Read(l, k));
            let cc = check(false, range_check_t(vt(l), a.len));
            let cl = code(local_t(arr, "table.create("@ + vt(l) + ")"@));
            let c1 = one(Piece::OpenVar(i, l, seq![]));
            let c3 = code(set_index_t(arr, vt(i), vt(v)));
            let c4 = one(Piece::Close);
            lemma_acc_add(c0, cc);
            lemma_acc_add(c0 + cc, cl);
            lemma_acc_add(c0 + cc + cl, c1);
            lemma_acc_add(c0 + cc + cl + c1, pf);
            lemma_acc_add(c0 + cc + cl + c1 + pf, c3);
            lemma_acc_add(c0 + cc + cl + c1 + pf + c3, c4);
            lemma_acc_one(Piece::Read(l, k));
            lemma_acc_quiet(false, range_check_t(vt(l), a.len), false);
            lemma_acc_quiet(false, local_t(arr, "table.create("@ + vt(l) + ")"@), false);
            lemma_acc_one(Piece::OpenVar(i, l, seq![]));
            lemma_acc_quiet(false, set_index_t(arr, vt(i), vt(v)), false);
            assert(accesses(des_array_p(a, r).1) =~= layout(Type::Array(a)));
        },
    }
}

#[verifier::spinoff_prover]
#[verifier::rlimit(60)]
proof fn lemma_acc_des_set(st: SetType, r: RegState)
    ensures
        accesses(des_set_p(st, r).1) == layout(Type::SetOf(st)),
    decreases st, 1int,
{
    let (r1, l) = reg_alloc(r);
    let (r2, t) = reg_alloc(r1);
    let (r3, i) = reg_alloc(r2);
    lemma_des_layout(*st.item, r3);
    let (rf, pf, v) = des_p(*st.item, r3);
    let k = st.len.spec_len_kind();
    let c0 = one(Piece::Read(l, k));
    let cc = check(false, range_check_t(vt(l), st.len));
    let cl = code(local_t(t, "{}"@));
    let c1 = one(Piece::OpenVar(i, l, seq![]));
    let c3 = code(set_index_t(t, vt(v), "true"@));
    let c4 = one(Piece::Close);
    lemma_acc_add(c0, cc);
    lemma_acc_add(c0 + cc, cl);
    lemma_acc_add(c0 + cc + cl, c1);
    lemma_acc_add(c0 + cc + cl + c1, pf);
    lemma_acc_add(c0 + cc + cl + c1 + pf, c3);
    lemma_acc_add(c0 + cc + cl + c1 + pf + c3, c4);
    lemma_acc_one(Piece::Read(l, k));
    lemma_acc_quiet(false, range_check_t(vt(l), st.len), false);
    lemma_acc_quiet(false, local_t(t, "{}"@), false);
    lemma_acc_one(Piece::OpenVar(i, l, seq![]));
    lemma_acc_quiet(false, set_index_t(t, vt(v), "true"@), false);
    lemma_acc_one(Piece::Close);
    assert(accesses(des_set_p(st, r).1) =~= layout(Type::SetOf(st)));
}

#[verifier::spinoff_prover]
#[verifier::rlimit(60)]
proof fn lemma_acc_des_map(mt: MapType, r: RegState)
    ensures
        accesses(des_map_p(mt, r).1) == layout(Type::MapOf(mt)),
    decreases mt, 1int,
{
    let (r1, l) = reg_alloc(r);
    let (r2, t) = reg_alloc(r1);
    let (r3, i) = reg_alloc(r2);
    lemma_des_layout(*mt.index, r3);
    let (rk, pk, kv) = des_p(*mt.index, r3);
    lemma_des_layout(*mt.value, rk);
    let (rv, pv, v) = des_p(*mt.value, rk);
    let k = mt.len.spec_len_kind();
    let c0 = one(Piece::Read(l, k));
    let cc = check(false, range_check_t(vt(l), mt.len));
    let cl = code(local_t(t, "{}"@));
    let c1 = one(Piece::OpenVar(i, l, seq![]));
    let c3 = code(set_index_t(t, vt(kv), vt(v)));
    let c4 = one(Piece::Close);
    lemma_acc_add(c0, cc);
    lemma_acc_add(c0 + cc, cl);
    lemma_acc_add(c0 + cc + cl, c1);
    lemma_acc_add(c0 + cc + cl + c1, pk);
    lemma_acc_add(c0 + cc + cl + c1 + pk, pv);
    lemma_acc_add(c0 + cc + cl + c1 + pk + pv, c3);
    lemma_acc_add(c0 + cc + cl + c1 + pk + pv + c3, c4);
    lemma_acc_one(Piece::Read(l, k));
    lemma_acc_quiet(false, range_check_t(vt(l), mt.len), false);
    lemma_acc_quiet(false, local_t(t, "{}"@), false);
    lemma_acc_one(Piece::OpenVar(i, l, seq![]));
    lemma_acc_quiet(false, set_index_t(t, vt(kv), vt(v)), false);
    lemma_acc_one(Piece::Close);
    assert(accesses(des_map_p(mt, r).1) =~= layout(Type::MapOf(mt)));
}

#[verifier::spinoff_prover]
#[verifier::rlimit(60)]
proof fn lemma_acc_des_fields(fs: Seq<(String, Type)>, r: RegState)
    ensures
        accesses(des_fields_p(fs, r).1) == fields_layout(fs),
    decreases fs, 1int,
{
    if fs.len() == 0 {
        lemma_acc_quiet(false, seq![], false);
    } else {
        let pre = fs.subrange(0, fs.len() - 1);
        lemma_acc_des_fields(pre, r);
        let (ra, pa, vs) = des_fields_p(pre, r);
        lemma_des_layout(fs[fs.len() - 1].1, ra);
        let (rf, pf, v) = des_p(fs[fs.len() - 1].1, ra);
        lemma_acc_add(pa, pf);
    }
}

/// Without their checks, pieces give the same code whatever the settings;
/// with every check, they give `all_text`.
#[verifier::spinoff_prover]
#[verifier::rlimit(60)]
proof fn lemma_without_checks(f: bool, o: bool, ps: Seq<Piece>)
    ensures
        rend(false, false, ps) == rend(f, o, without_checks(ps)),
        rend(false, false, ps) == rend(true, true, without_checks(ps)),
    decreases ps.len(),
{
    let keep = |p: Piece| !(p is Check);
    if ps.len() == 0 {
        assert(without_checks(ps) =~= Seq::<Piece>::empty());
    } else {
        let q = ps.drop_last();
        lemma_without_checks(f, o, q);
        assert(ps =~= q.push(ps.last()));
        q.lemma_filter_push(ps.last(), keep);
        if ps.last() is Check {
            assert(without_checks(ps) =~= without_checks(q));
        } else {
            assert(without_checks(ps) =~= without_checks(q).push(ps.last()));
            assert(without_checks(ps).drop_last() =~= without_checks(q));
        }
    }
}

/// The level of API checks only adds checks. Writing a value gives, at the
/// full level, every piece of `ser_p`, and at the `Off` level the same pieces
/// with every check taken out, in the same order and with the same
/// variables; the registry ends the same at every level.
#[verifier::spinoff_prover]
#[verifier::rlimit(60)]
pub proof fn lemma_off_is_full_without_checks(t: Type, x: Seq<char>, r: RegState)
    ensures
        ({
            let ps = ser_p(t, x, r).1;
            &&& ser_s(Ser { apicheck: ApiCheck::Full }, t, x, r).text == all_text(ps)
            &&& ser_s(Ser { apicheck: ApiCheck::Off }, t, x, r).text == all_text(without_checks(ps))
        }),
        ser_s(Ser { apicheck: ApiCheck::Off }, t, x, r).reg == ser_s(Ser { apicheck: ApiCheck::Full }, t, x, r).reg,
        ser_s(Ser { apicheck: ApiCheck::Basic }, t, x, r).reg == ser_s(Ser { apicheck: ApiCheck::Full }, t, x, r).reg,
{
    lemma_ser_pieces(Ser { apicheck: ApiCheck::Full }, t, x, r);
    lemma_ser_pieces(Ser { apicheck: ApiCheck::Off }, t, x, r);
    lemma_ser_pieces(Ser { apicheck: ApiCheck::Basic }, t, x, r);
    lemma_without_checks(true, true, ser_p(t, x, r).1);
}

/// What is written is what is read back. For every type, at every level of
/// checks and whether reading checks or not, the code that writes a value and
/// the code that reads one are the pieces of `ser_p` and `des_p`; and the
/// buffer accesses of the two, in order, are one and the same: numbers of
/// the same widths, strings of the same lengths, and loops over the same
/// counts around the same accesses.
#[verifier::spinoff_prover]
#[verifier::rlimit(60)]
pub proof fn lemma_layouts_agree(s: Ser, d: Des, t: Type, x: Seq<char>, rs: RegState, rd: RegState)
    ensures
        ser_s(s, t, x, rs) == out(ser_p(t, x, rs).0, render(s.apicheck, ser_p(t, x, rs).1)),
        des_s(d, t, rd) == (out(des_p(t, rd).0, rend(d.check, d.check, des_p(t, rd).1)), des_p(t, rd).2),
        accesses(ser_p(t, x, rs).1) == layout(t),
        accesses(des_p(t, rd).1) == layout(t),
        accesses(ser_p(t, x, rs).1) == accesses(des_p(t, rd).1),
{
    lemma_ser_pieces(s, t, x, rs);
    lemma_des_pieces(d, t, rd);
    lemma_ser_layout(t, x, rs);
    lemma_des_layout(t, rd);
}

} // verus!
