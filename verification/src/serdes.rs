//! Writing and reading values of the first code generator: for each type,
//! the instructions that write a value to the buffer, and those that read
//! one back, with the checks that the settings ask for.
use vstd::prelude::*;
use crate::builder::{
    Builder, InitVar, alloc_t, assert_t, local_t, map_t, range_t, read_d_t, read_k_t, reserve_t,
    set_index_t, set_t, vt, write_d_t, write_k_t, write_reserved_t,
};
use crate::ir::{BinaryOp, Expr, FuncD, FuncK, binop_text, expr_text, is_zero, str_escape};
use crate::mir_builder::{Em, RegState, lemma_alloc_fresh, lemma_release_all_live, lemma_release_all_ovf, lemma_release_live, reg_alloc, reg_live, reg_release, reg_wf, release_all};
use crate::mir_serdes::{grew, lemma_cat, opt_t, out};
use crate::num::{Num, num_le, num_text, num_to_u32, push_num};
use crate::nums::NumberKind;
use crate::range::Range;
use crate::shared::ApiCheck;
use crate::text::nat_text;
use crate::types::{
    ArrayType, BinaryStringType, MapType, NumberType, SetType, StructType, Type, Utf8StringType,
    VectorType,
};

verus! {

/// How values are written: the checks made on them.
#[derive(Clone, Copy, PartialEq, Eq, Structural, Debug)]
pub struct Ser {
    pub apicheck: ApiCheck,
}

/// How values are read: whether what is read is checked.
#[derive(Clone, Copy, PartialEq, Eq, Structural, Debug)]
pub struct Des {
    pub check: bool,
}

/// Ranges, lengths and encodings are checked.
pub open spec fn some_checks(a: ApiCheck) -> bool {
    a is Basic || a is Full
}

/// Types are checked too.
pub open spec fn full_checks(a: ApiCheck) -> bool {
    a is Full
}

/// A string literal of the generated code.
pub open spec fn lit_t(s: Seq<char>) -> Seq<char> {
    seq!['"'] + str_escape(s) + seq!['"']
}

/// `(l op r)`
pub open spec fn bin_t(l: Seq<char>, op: BinaryOp, r: Seq<char>) -> Seq<char> {
    "("@ + l + " "@ + binop_text(op) + " "@ + r + ")"@
}

/// The value `x` is of type `ty`.
pub open spec fn type_check_t(x: Seq<char>, ty: Seq<char>) -> Seq<char> {
    assert_t(bin_t("type("@ + x + ")"@, BinaryOp::Eq, lit_t(ty)), "expected "@ + ty)
}

/// The value `x` is within the range `r`.
pub open spec fn range_check_t(x: Seq<char>, r: Range) -> Seq<char> {
    match r.spec_exact() {
        Some(e) => assert_t(bin_t(x, BinaryOp::Eq, num_text(e)), "not equal to "@ + num_text(e)),
        None => match (r.min, r.max) {
            (Some(a), Some(b)) => assert_t(
                bin_t(bin_t(x, BinaryOp::Ge, num_text(a)), BinaryOp::And, bin_t(x, BinaryOp::Le, num_text(b))),
                "value out of range ["@ + num_text(a) + ", "@ + num_text(b) + "]"@,
            ),
            (Some(a), None) => assert_t(bin_t(x, BinaryOp::Ge, num_text(a)), "value less than "@ + num_text(a)),
            (None, Some(b)) => assert_t(bin_t(x, BinaryOp::Le, num_text(b)), "value greater than "@ + num_text(b)),
            (None, None) => seq![],
        },
    }
}

/// The string `x` is valid UTF-8.
pub open spec fn utf8_check_t(x: Seq<char>) -> Seq<char> {
    assert_t("utf8.len("@ + x + ")"@, "not a valid utf8 string"@)
}

/// The number `x` is not NaN.
pub open spec fn nan_check_t(x: Seq<char>) -> Seq<char> {
    assert_t(bin_t(x, BinaryOp::Eq, x), "value is nan"@)
}

pub open spec fn is_nan_kind(k: NumberKind) -> bool {
    k is NaNF32 || k is NaNF64
}

/// `(#x)`
pub open spec fn len_t(x: Seq<char>) -> Seq<char> {
    "("@ + "#"@ + x + ")"@
}

/// `x["name"]`
pub open spec fn field_t(x: Seq<char>, name: Seq<char>) -> Seq<char> {
    x + "["@ + lit_t(name) + "]"@
}

/// `x[i]`
pub open spec fn at_t(x: Seq<char>, i: u16) -> Seq<char> {
    x + "["@ + vt(i) + "]"@
}

/// Writing the number `x`.
pub open spec fn ser_number_t(s: Ser, n: NumberType, x: Seq<char>) -> Seq<char> {
    opt_t(full_checks(s.apicheck), type_check_t(x, "number"@)) + opt_t(
        some_checks(s.apicheck),
        range_check_t(x, n.range),
    ) + opt_t(some_checks(s.apicheck) && !is_nan_kind(n.kind), nan_check_t(x)) + alloc_t(
        nat_text(n.kind.spec_size() as nat),
    ) + write_k_t(FuncK::spec_from_kind(n.kind), x)
}

/// Writing the vector `x`: each component.
pub open spec fn ser_vector_t(s: Ser, v: VectorType, x: Seq<char>) -> Seq<char> {
    opt_t(full_checks(s.apicheck), type_check_t(x, "vector"@)) + ser_number_t(s, v.x, field_t(x, "x"@))
        + ser_number_t(s, v.y, field_t(x, "y"@)) + match v.z {
        Some(z) => ser_number_t(s, z, field_t(x, "z"@)),
        None => seq![],
    }
}

/// Writing the string `x`: its length first unless the length is fixed.
pub open spec fn ser_string_s(s: Ser, utf8: bool, len: Range, x: Seq<char>, r: RegState) -> Em {
    let head = opt_t(full_checks(s.apicheck), type_check_t(x, "string"@)) + opt_t(
        utf8 && some_checks(s.apicheck),
        utf8_check_t(x),
    );
    match len.spec_exact() {
        Some(e) => out(r, head + string_fixed_t(s, len, e, x)),
        None => {
            let c = string_counted_s(s, len, x, r);
            out(c.reg, head + c.text)
        },
    }
}

/// The code that writes the value `x` of type `t`, from registry state `r`.
pub open spec fn ser_s(s: Ser, t: Type, x: Seq<char>, r: RegState) -> Em
    decreases t, 2int,
{
    match t {
        Type::Number(n) => out(r, ser_number_t(s, n, x)),
        Type::Vector(v) => out(r, ser_vector_t(s, v, x)),
        Type::BinaryString(bs) => ser_string_s(s, false, bs.len, x, r),
        Type::Utf8String(us) => ser_string_s(s, true, us.len, x, r),
        Type::Array(a) => ser_array_s(s, a, x, r),
        Type::SetOf(st) => ser_set_s(s, st, x, r),
        Type::MapOf(mt) => ser_map_s(s, mt, x, r),
        Type::Struct(st) => {
            let f = ser_fields_s(s, st.fields@, x, r);
            out(f.reg, opt_t(full_checks(s.apicheck), type_check_t(x, "table"@)) + f.text)
        },
    }
}

/// An array: unless its length is fixed, the length; then each item.
pub open spec fn ser_array_s(s: Ser, a: ArrayType, x: Seq<char>, r: RegState) -> Em
    decreases a, 1int,
{
    let head = opt_t(full_checks(s.apicheck), type_check_t(x, "table"@));
    match a.len.spec_exact() {
        Some(e) => {
            let it = items_s(s, *a.item, x, num_text(e), r);
            out(it.reg, head + opt_t(some_checks(s.apicheck), range_check_t(len_t(x), a.len)) + it.text)
        },
        None => {
            let (r1, l) = reg_alloc(r);
            let k = a.len.spec_len_kind();
            let it = items_s(s, *a.item, x, vt(l), r1);
            out(
                reg_release(it.reg, l),
                head + local_t(l, len_t(x)) + opt_t(some_checks(s.apicheck), range_check_t(vt(l), a.len))
                    + alloc_t(nat_text(k.spec_size() as nat)) + write_k_t(FuncK::spec_from_kind(k), vt(l))
                    + it.text,
            )
        },
    }
}

/// The part of a set or map before its entries: the place kept for the
/// count, and the count.
pub open spec fn count_head_t(p: u16, l: u16, k: NumberKind) -> Seq<char> {
    reserve_t(p, k.spec_size()) + local_t(l, nat_text(0))
}

/// `l = (l + 1);`
pub open spec fn count_step_t(l: u16) -> Seq<char> {
    set_t(l, bin_t(vt(l), BinaryOp::Add, nat_text(1)))
}

/// The part of a set or map after its entries: the count checked and
/// written at the kept place.
pub open spec fn count_tail_t(s: Ser, len: Range, p: u16, l: u16) -> Seq<char> {
    opt_t(some_checks(s.apicheck), range_check_t(vt(l), len)) + write_reserved_t(
        FuncK::spec_from_kind(len.spec_len_kind()),
        vt(p),
        vt(l),
    )
}

/// A set: its keys, counted, with the count written before them.
pub open spec fn ser_set_s(s: Ser, st: SetType, x: Seq<char>, r: RegState) -> Em
    decreases st, 1int,
{
    let (r1, p) = reg_alloc(r);
    let (r2, l) = reg_alloc(r1);
    let (r3, ki) = reg_alloc(r2);
    let (r4, vi) = reg_alloc(r3);
    let body = ser_s(s, *st.item, vt(ki), r4);
    out(
        reg_release(reg_release(reg_release(reg_release(body.reg, vi), ki), l), p),
        opt_t(full_checks(s.apicheck), type_check_t(x, "table"@)) + count_head_t(p, l, st.len.spec_len_kind())
            + map_t(ki, vi, x, count_step_t(l) + body.text) + count_tail_t(s, st.len, p, l),
    )
}

/// A map: as a set, with each key followed by its value.
pub open spec fn ser_map_s(s: Ser, mt: MapType, x: Seq<char>, r: RegState) -> Em
    decreases mt, 1int,
{
    let (r1, p) = reg_alloc(r);
    let (r2, l) = reg_alloc(r1);
    let (r3, ki) = reg_alloc(r2);
    let (r4, vi) = reg_alloc(r3);
    let bi = ser_s(s, *mt.index, vt(ki), r4);
    let bv = ser_s(s, *mt.value, vt(vi), bi.reg);
    out(
        reg_release(reg_release(reg_release(reg_release(bv.reg, vi), ki), l), p),
        opt_t(full_checks(s.apicheck), type_check_t(x, "table"@)) + count_head_t(p, l, mt.len.spec_len_kind())
            + map_t(ki, vi, x, count_step_t(l) + bi.text + bv.text) + count_tail_t(s, mt.len, p, l),
    )
}

/// The fields of a struct `x`, each taken into a variable first.
pub open spec fn ser_fields_s(s: Ser, fs: Seq<(String, Type)>, x: Seq<char>, r: RegState) -> Em
    decreases fs, 1int,
{
    if fs.len() == 0 {
        out(r, seq![])
    } else {
        let a = ser_fields_s(s, fs.subrange(0, fs.len() - 1), x, r);
        let (r1, w) = reg_alloc(a.reg);
        let f = ser_s(s, fs[fs.len() - 1].1, vt(w), r1);
        out(reg_release(f.reg, w), a.text + local_t(w, field_t(x, fs[fs.len() - 1].0@)) + f.text)
    }
}

} // verus!

verus! {

/// Reading a number into a new variable.
pub open spec fn des_number_s(d: Des, n: NumberType, r: RegState) -> (Em, u16) {
    let (r1, v) = reg_alloc(r);
    (
        out(
            r1,
            read_k_t(v, FuncK::spec_from_kind(n.kind)) + opt_t(d.check, range_check_t(vt(v), n.range))
                + opt_t(d.check && !is_nan_kind(n.kind), nan_check_t(vt(v))),
        ),
        v,
    )
}

/// Reading a vector: its components, then the vector built from them.
pub open spec fn des_vector_s(d: Des, vt_: VectorType, r: RegState) -> (Em, u16) {
    let (ex, x) = des_number_s(d, vt_.x, r);
    let (ey, y) = des_number_s(d, vt_.y, ex.reg);
    match vt_.z {
        Some(zt) => {
            let (ez, z) = des_number_s(d, zt, ey.reg);
            let (r2, w) = reg_alloc(reg_release(ez.reg, z));
            (
                out(
                    reg_release(reg_release(r2, y), x),
                    ex.text + ey.text + ez.text + local_t(
                        w,
                        "vector.create("@ + vt(x) + ", "@ + vt(y) + ", "@ + vt(z) + ")"@,
                    ),
                ),
                w,
            )
        },
        None => {
            let (r2, w) = reg_alloc(ey.reg);
            (
                out(
                    reg_release(reg_release(r2, y), x),
                    ex.text + ey.text + local_t(
                        w,
                        "vector.create("@ + vt(x) + ", "@ + vt(y) + ", "@ + nat_text(0) + ")"@,
                    ),
                ),
                w,
            )
        },
    }
}

/// Reading a string: its length first unless the length is fixed.
pub open spec fn des_string_s(d: Des, utf8: bool, len: Range, r: RegState) -> (Em, u16) {
    match len.spec_exact() {
        Some(e) => {
            let (r1, v) = reg_alloc(r);
            (out(r1, read_d_t(v, num_text(e)) + opt_t(utf8 && d.check, utf8_check_t(vt(v)))), v)
        },
        None => {
            let (r1, l) = reg_alloc(r);
            let (r2, v) = reg_alloc(r1);
            (
                out(
                    reg_release(r2, l),
                    read_k_t(l, FuncK::spec_from_kind(len.spec_len_kind())) + opt_t(
                        d.check,
                        range_check_t(vt(l), len),
                    ) + read_d_t(v, vt(l)) + opt_t(utf8 && d.check, utf8_check_t(vt(v))),
                ),
                v,
            )
        },
    }
}

/// The text of a new array with room for `n` items.
pub open spec fn array_t(n: Num) -> Seq<char> {
    if is_zero(n) {
        "{}"@
    } else {
        "table.create("@ + num_text(n) + ")"@
    }
}

/// The code that reads a value of type `t` into a new variable, from
/// registry state `r`, and that variable.
pub open spec fn des_s(d: Des, t: Type, r: RegState) -> (Em, u16)
    decreases t,
{
    match t {
        Type::Number(n) => des_number_s(d, n, r),
        Type::Vector(v) => des_vector_s(d, v, r),
        Type::BinaryString(bs) => des_string_s(d, false, bs.len, r),
        Type::Utf8String(us) => des_string_s(d, true, us.len, r),
        Type::Array(a) => des_array_s(d, a, r),
        Type::SetOf(st) => des_set_s(d, st, r),
        Type::MapOf(mt) => des_map_s(d, mt, r),
        Type::Struct(st) => {
            let (f, vs) = des_fields_s(d, st.fields@, r);
            let (r1, w) = reg_alloc(f.reg);
            (out(release_all(r1, vs), f.text + local_t(w, "{ "@ + struct_t(st.fields@, vs) + "}"@)), w)
        },
    }
}

/// An array: unless its length is fixed, the length; then each item, put
/// in place.
pub open spec fn des_array_s(d: Des, a: ArrayType, r: RegState) -> (Em, u16)
    decreases a,
{
    match a.len.spec_exact() {
        Some(e) => {
            let (r1, arr) = reg_alloc(r);
            let (r2, i) = reg_alloc(r1);
            let (f, v) = des_s(d, *a.item, r2);
            (
                out(
                    reg_release(reg_release(f.reg, v), i),
                    local_t(arr, array_t(e)) + range_t(
                        i,
                        nat_text(1),
                        num_text(e),
                        f.text + set_index_t(arr, vt(i), vt(v)),
                    ),
                ),
                arr,
            )
        },
        None => {
            let (r1, l) = reg_alloc(r);
            let (r2, arr) = reg_alloc(r1);
            let (r3, i) = reg_alloc(r2);
            let (f, v) = des_s(d, *a.item, r3);
            (
                out(
                    reg_release(reg_release(reg_release(f.reg, v), i), l),
                    read_k_t(l, FuncK::spec_from_kind(a.len.spec_len_kind())) + opt_t(
                        d.check,
                        range_check_t(vt(l), a.len),
                    ) + local_t(arr, "table.create("@ + vt(l) + ")"@) + range_t(
                        i,
                        nat_text(1),
                        vt(l),
                        f.text + set_index_t(arr, vt(i), vt(v)),
                    ),
                ),
                arr,
            )
        },
    }
}

/// A set: the count, then each key, put in the table.
pub open spec fn des_set_s(d: Des, st: SetType, r: RegState) -> (Em, u16)
    decreases st,
{
    let (r1, l) = reg_alloc(r);
    let (r2, t) = reg_alloc(r1);
    let (r3, i) = reg_alloc(r2);
    let (f, v) = des_s(d, *st.item, r3);
    (
        out(
            reg_release(reg_release(reg_release(f.reg, v), i), l),
            read_k_t(l, FuncK::spec_from_kind(st.len.spec_len_kind())) + opt_t(
                d.check,
                range_check_t(vt(l), st.len),
            ) + local_t(t, "{}"@) + range_t(
                i,
                nat_text(1),
                vt(l),
                f.text + set_index_t(t, vt(v), "true"@),
            ),
        ),
        t,
    )
}

/// A map: the count, then each key and value, put in the table.
pub open spec fn des_map_s(d: Des, mt: MapType, r: RegState) -> (Em, u16)
    decreases mt,
{
    let (r1, l) = reg_alloc(r);
    let (r2, t) = reg_alloc(r1);
    let (r3, i) = reg_alloc(r2);
    let (fk, k) = des_s(d, *mt.index, r3);
    let (fv, v) = des_s(d, *mt.value, fk.reg);
    (
        out(
            reg_release(reg_release(reg_release(reg_release(fv.reg, v), k), i), l),
            read_k_t(l, FuncK::spec_from_kind(mt.len.spec_len_kind())) + opt_t(
                d.check,
                range_check_t(vt(l), mt.len),
            ) + local_t(t, "{}"@) + range_t(
                i,
                nat_text(1),
                vt(l),
                fk.text + fv.text + set_index_t(t, vt(k), vt(v)),
            ),
        ),
        t,
    )
}

/// Reading the fields of a struct, each into a variable, in order.
pub open spec fn des_fields_s(d: Des, fs: Seq<(String, Type)>, r: RegState) -> (Em, Seq<u16>)
    decreases fs,
{
    if fs.len() == 0 {
        (out(r, seq![]), seq![])
    } else {
        let (a, vs) = des_fields_s(d, fs.subrange(0, fs.len() - 1), r);
        let (f, v) = des_s(d, fs[fs.len() - 1].1, a.reg);
        (out(f.reg, a.text + f.text), vs.push(v))
    }
}

/// The fields `name = v, ` of a struct built from the variables `vs`.
pub open spec fn struct_t(fs: Seq<(String, Type)>, vs: Seq<u16>) -> Seq<char>
    decreases fs.len(),
{
    if fs.len() == 0 {
        seq![]
    } else {
        struct_t(fs.drop_last(), vs) + fs.last().0@ + " = "@ + vt(vs[fs.len() - 1]) + ", "@
    }
}

} // verus!

verus! {

fn type_check(full: bool, b: &mut Builder, x: &Expr, ty: &'static str)
    ensures
        final(b).reg() == old(b).reg(),
        final(b).text() == old(b).text() + opt_t(full, type_check_t(expr_text(*x), ty@)),
{
    let ghost t0 = b.text();
    if full {
        let te = x.dup().ty();
        assert(expr_text(te) == "type("@ + expr_text(*x) + ")"@);
        let lit = Expr::from_str(ty);
        let cond = te.eq(lit);
        assert(expr_text(cond) == bin_t("type("@ + expr_text(*x) + ")"@, BinaryOp::Eq, lit_t(ty@)));
        let mut msg = String::from_str("expected ");
        msg.append(ty);
        b.assert_cond(cond, msg.as_str());
    } else {
        assert(t0 + seq![] =~= t0);
    }
}

fn range_check(b: &mut Builder, x: &Expr, r: &Range)
    ensures
        final(b).reg() == old(b).reg(),
        final(b).text() == old(b).text() + range_check_t(expr_text(*x), *r),
{
    let ghost t0 = b.text();
    let ghost xt = expr_text(*x);
    match r.exact() {
        Some(e) => {
            let xd = x.dup();
            let ne = Expr::Number(e);
            assert(expr_text(ne) == num_text(e));
            let cond = xd.eq(ne);
            assert(expr_text(cond) == bin_t(xt, BinaryOp::Eq, num_text(e)));
            let mut msg = String::from_str("not equal to ");
            push_num(&mut msg, &e);
            b.assert_cond(cond, msg.as_str());
        },
        None => match (r.min, r.max) {
            (Some(a), Some(c)) => {
                let na = Expr::Number(a);
                let nc = Expr::Number(c);
                assert(expr_text(na) == num_text(a));
                assert(expr_text(nc) == num_text(c));
                let xa = x.dup();
                let xc = x.dup();
                let lo = xa.ge(na);
                let hi = xc.le(nc);
                assert(expr_text(lo) == bin_t(xt, BinaryOp::Ge, num_text(a)));
                assert(expr_text(hi) == bin_t(xt, BinaryOp::Le, num_text(c)));
                let cond = lo.and(hi);
                let mut msg = String::from_str("value out of range [");
                push_num(&mut msg, &a);
                msg.append(", ");
                push_num(&mut msg, &c);
                msg.append("]");
                b.assert_cond(cond, msg.as_str());
            },
            (Some(a), None) => {
                let na = Expr::Number(a);
                assert(expr_text(na) == num_text(a));
                let xa = x.dup();
                let cond = xa.ge(na);
                assert(expr_text(cond) == bin_t(xt, BinaryOp::Ge, num_text(a)));
                let mut msg = String::from_str("value less than ");
                push_num(&mut msg, &a);
                b.assert_cond(cond, msg.as_str());
            },
            (None, Some(c)) => {
                let nc = Expr::Number(c);
                assert(expr_text(nc) == num_text(c));
                let xc = x.dup();
                let cond = xc.le(nc);
                assert(expr_text(cond) == bin_t(xt, BinaryOp::Le, num_text(c)));
                let mut msg = String::from_str("value greater than ");
                push_num(&mut msg, &c);
                b.assert_cond(cond, msg.as_str());
            },
            (None, None) => {
                assert(t0 + seq![] =~= t0);
            },
        },
    }
}

fn utf8_check(b: &mut Builder, x: &Expr)
    ensures
        final(b).reg() == old(b).reg(),
        final(b).text() == old(b).text() + utf8_check_t(expr_text(*x)),
{
    let cond = x.dup().utf8();
    b.assert_cond(cond, "not a valid utf8 string");
}

fn nan_check(b: &mut Builder, x: &Expr)
    ensures
        final(b).reg() == old(b).reg(),
        final(b).text() == old(b).text() + nan_check_t(expr_text(*x)),
{
    let cond = x.dup().eq(x.dup());
    b.assert_cond(cond, "value is nan");
}

fn some(s: Ser) -> (r: bool)
    ensures
        r == some_checks(s.apicheck),
{
    match s.apicheck {
        ApiCheck::Off => false,
        _ => true,
    }
}

fn full(s: Ser) -> (r: bool)
    ensures
        r == full_checks(s.apicheck),
{
    match s.apicheck {
        ApiCheck::Full => true,
        _ => false,
    }
}

fn nan_kind(k: NumberKind) -> (r: bool)
    ensures
        r == is_nan_kind(k),
{
    match k {
        NumberKind::NaNF32 | NumberKind::NaNF64 => true,
        _ => false,
    }
}

#[verifier::spinoff_prover]
#[verifier::rlimit(100)]
fn ser_number(s: Ser, b: &mut Builder, n: &NumberType, x: &Expr)
    ensures
        final(b).reg() == old(b).reg(),
        final(b).text() == old(b).text() + ser_number_t(s, *n, expr_text(*x)),
{
    let ghost t0 = b.text();
    let ghost xt = expr_text(*x);
    type_check(full(s), b, x, "number");
    let ghost p1 = opt_t(full_checks(s.apicheck), type_check_t(xt, "number"@));
    if some(s) {
        range_check(b, x, &n.range);
    }
    let ghost p2 = opt_t(some_checks(s.apicheck), range_check_t(xt, n.range));
    assert(b.text() =~= t0 + p1 + p2);
    if some(s) && !nan_kind(n.kind) {
        nan_check(b, x);
    }
    let ghost p3 = opt_t(some_checks(s.apicheck) && !is_nan_kind(n.kind), nan_check_t(xt));
    assert(b.text() =~= t0 + p1 + p2 + p3);
    b.alloc_k(n.kind.size());
    b.write_k(FuncK::from_kind(n.kind), x.dup());
    assert(b.text() =~= t0 + ser_number_t(s, *n, xt));
}

#[verifier::spinoff_prover]
#[verifier::rlimit(100)]
fn ser_vector(s: Ser, b: &mut Builder, v: &VectorType, x: &Expr)
    ensures
        final(b).reg() == old(b).reg(),
        final(b).text() == old(b).text() + ser_vector_t(s, *v, expr_text(*x)),
{
    let ghost t0 = b.text();
    let ghost xt = expr_text(*x);
    type_check(full(s), b, x, "vector");
    let fx = x.dup().index(Expr::from_str("x"));
    assert(expr_text(fx) == field_t(xt, "x"@));
    ser_number(s, b, &v.x, &fx);
    let fy = x.dup().index(Expr::from_str("y"));
    assert(expr_text(fy) == field_t(xt, "y"@));
    ser_number(s, b, &v.y, &fy);
    let ghost t3 = b.text();
    match v.z {
        Some(z) => {
            let fz = x.dup().index(Expr::from_str("z"));
            assert(expr_text(fz) == field_t(xt, "z"@));
            ser_number(s, b, &z, &fz);
        },
        None => {
            assert(t3 + seq![] =~= t3);
        },
    }
    assert(b.text() =~= t0 + ser_vector_t(s, *v, xt));
}

fn ser_string(s: Ser, b: &mut Builder, utf8: bool, len: Range, x: &Expr)
    ensures
        grew(old(b).em(), final(b).em(), ser_string_s(s, utf8, len, expr_text(*x), old(b).reg())),
{
    let ghost t0 = b.text();
    let ghost xt = expr_text(*x);
    type_check(full(s), b, x, "string");
    let ghost p1 = opt_t(full_checks(s.apicheck), type_check_t(xt, "string"@));
    if utf8 && some(s) {
        utf8_check(b, x);
    }
    let ghost head = p1 + opt_t(utf8 && some_checks(s.apicheck), utf8_check_t(xt));
    assert(b.text() =~= t0 + head);
    let ghost t1 = b.text();
    match len.exact() {
        Some(e) => {
            ser_fixed_string(s, b, len, e, x);
            proof {
                lemma_cat(t0, head, string_fixed_t(s, len, e, xt));
            }
        },
        None => {
            ser_counted_string(s, b, len, x);
            proof {
                lemma_cat(t0, head, string_counted_s(s, len, xt, old(b).reg()).text);
            }
        },
    }
}

/// The part of a string of fixed length after its checks of type and
/// encoding.
pub open spec fn string_fixed_t(s: Ser, len: Range, e: Num, x: Seq<char>) -> Seq<char> {
    opt_t(some_checks(s.apicheck), range_check_t(len_t(x), len)) + alloc_t(nat_text(num_to_u32(e) as nat))
        + write_d_t(x, num_text(e))
}

/// The part of a string of counted length after its checks of type and
/// encoding.
pub open spec fn string_counted_s(s: Ser, len: Range, x: Seq<char>, r: RegState) -> Em {
    let (r1, l) = reg_alloc(r);
    let k = len.spec_len_kind();
    out(
        reg_release(r1, l),
        local_t(l, len_t(x)) + opt_t(some_checks(s.apicheck), range_check_t(vt(l), len)) + alloc_t(
            nat_text(k.spec_size() as nat),
        ) + write_k_t(FuncK::spec_from_kind(k), vt(l)) + alloc_t(vt(l)) + write_d_t(x, vt(l)),
    )
}

fn ser_fixed_string(s: Ser, b: &mut Builder, len: Range, e: Num, x: &Expr)
    ensures
        final(b).reg() == old(b).reg(),
        final(b).text() == old(b).text() + string_fixed_t(s, len, e, expr_text(*x)),
{
    let ghost t0 = b.text();
    let ghost xt = expr_text(*x);
    let lx = x.dup().len();
    assert(expr_text(lx) == len_t(xt));
    if some(s) {
        range_check(b, &lx, &len);
    }
    let ghost p2 = opt_t(some_checks(s.apicheck), range_check_t(len_t(xt), len));
    assert(b.text() =~= t0 + p2);
    b.alloc_k(e.to_u32());
    let ne = Expr::Number(e);
    assert(expr_text(ne) == num_text(e));
    b.write_d(FuncD::String, x.dup(), ne);
    assert(b.text() =~= t0 + string_fixed_t(s, len, e, xt));
}

#[verifier::spinoff_prover]
#[verifier::rlimit(100)]
fn ser_counted_string(s: Ser, b: &mut Builder, len: Range, x: &Expr)
    ensures
        grew(old(b).em(), final(b).em(), string_counted_s(s, len, expr_text(*x), old(b).reg())),
{
    let ghost t0 = b.text();
    let ghost xt = expr_text(*x);
    let lx = x.dup().len();
    assert(expr_text(lx) == len_t(xt));
    let l = b.expr(lx);
    let ghost p2 = local_t(l.id(), len_t(xt));
    if some(s) {
        range_check(b, &l.expr(), &len);
    }
    let ghost p3 = opt_t(some_checks(s.apicheck), range_check_t(vt(l.id()), len));
    assert(b.text() =~= t0 + (p2 + p3));
    let ghost t3 = b.text();
    let k = len.len_kind();
    b.alloc_k(k.size());
    b.write_k(FuncK::from_kind(k), l.expr());
    b.alloc_d(l.expr());
    b.write_d(FuncD::String, x.dup(), l.expr());
    let ghost p4 = alloc_t(nat_text(k.spec_size() as nat)) + write_k_t(FuncK::spec_from_kind(k), vt(l.id()))
        + alloc_t(vt(l.id())) + write_d_t(xt, vt(l.id()));
    assert(b.text() =~= t3 + p4);
    assert(b.text() =~= t0 + string_counted_s(s, len, xt, old(b).reg()).text);
    b.free(l);
}

/// Emits the code that writes `from`, a value of type `ty`, with the
/// checks that `s` asks for.
pub fn ser(s: Ser, b: &mut Builder, ty: &Type, from: Expr)
    ensures
        grew(old(b).em(), final(b).em(), ser_s(s, *ty, expr_text(from), old(b).reg())),
    decreases ty, 2int,
{
    let ghost t0 = b.text();
    match ty {
        Type::Number(n) => ser_number(s, b, n, &from),
        Type::Vector(v) => ser_vector(s, b, v, &from),
        Type::BinaryString(t) => ser_string(s, b, false, t.len, &from),
        Type::Utf8String(t) => ser_string(s, b, true, t.len, &from),
        Type::Array(a) => ser_array(s, b, a, &from),
        Type::SetOf(st) => ser_set(s, b, st, &from),
        Type::MapOf(mt) => ser_map(s, b, mt, &from),
        Type::Struct(st) => {
            type_check(full(s), b, &from, "table");
            let ghost t1 = b.text();
            ser_fields(s, b, &st.fields, &from);
            proof {
                lemma_cat(
                    t0,
                    opt_t(full_checks(s.apicheck), type_check_t(expr_text(from), "table"@)),
                    ser_fields_s(s, st.fields@, expr_text(from), old(b).reg()).text,
                );
            }
        },
    }
}

fn ser_array(s: Ser, b: &mut Builder, a: &ArrayType, x: &Expr)
    ensures
        grew(old(b).em(), final(b).em(), ser_array_s(s, *a, expr_text(*x), old(b).reg())),
    decreases a, 1int,
{
    let ghost t0 = b.text();
    let ghost r0 = b.reg();
    let ghost xt = expr_text(*x);
    type_check(full(s), b, x, "table");
    let ghost head = opt_t(full_checks(s.apicheck), type_check_t(xt, "table"@));
    match a.len.exact() {
        Some(e) => {
            let lx = x.dup().len();
            assert(expr_text(lx) == len_t(xt));
            if some(s) {
                range_check(b, &lx, &a.len);
            }
            let ghost p2 = opt_t(some_checks(s.apicheck), range_check_t(len_t(xt), a.len));
            assert(b.text() =~= t0 + (head + p2));
            let ne = Expr::Number(e);
            assert(expr_text(ne) == num_text(e));
            let ghost r1 = b.reg();
            let ghost t1 = b.text();
            ser_items(s, b, a, x, ne);
            let ghost it = items_s(s, *a.item, xt, num_text(e), r1);
            proof {
                lemma_cat(t0, head + p2, it.text);
            }
        },
        None => {
            let lx = x.dup().len();
            assert(expr_text(lx) == len_t(xt));
            let l = b.expr(lx);
            if some(s) {
                range_check(b, &l.expr(), &a.len);
            }
            let k = a.len.len_kind();
            b.alloc_k(k.size());
            b.write_k(FuncK::from_kind(k), l.expr());
            let ghost pre = head + local_t(l.id(), len_t(xt)) + opt_t(
                some_checks(s.apicheck),
                range_check_t(vt(l.id()), a.len),
            ) + alloc_t(nat_text(k.spec_size() as nat)) + write_k_t(
                FuncK::spec_from_kind(k),
                vt(l.id()),
            );
            assert(b.text() =~= t0 + pre);
            let ghost r2 = b.reg();
            ser_items(s, b, a, x, l.expr());
            let ghost it = items_s(s, *a.item, xt, vt(l.id()), r2);
            proof {
                lemma_cat(t0, pre, it.text);
            }
            b.free(l);
        },
    }
}

/// The loop over the items of an array `x` of `n` items.
pub open spec fn items_s(s: Ser, item: Type, x: Seq<char>, n: Seq<char>, r: RegState) -> Em
    decreases item, 3int,
{
    let (r1, i) = reg_alloc(r);
    let (r2, w) = reg_alloc(r1);
    let body = ser_s(s, item, vt(w), r2);
    out(
        reg_release(reg_release(body.reg, w), i),
        range_t(i, nat_text(1), n, local_t(w, at_t(x, i)) + body.text),
    )
}

fn ser_items(s: Ser, b: &mut Builder, a: &ArrayType, x: &Expr, n: Expr)
    ensures
        grew(old(b).em(), final(b).em(), items_s(s, *a.item, expr_text(*x), expr_text(n), old(b).reg())),
    decreases a, 0int,
{
    let ghost xt = expr_text(*x);
    let one = Expr::Number(Num::from_u64(1));
    assert(expr_text(one) == nat_text(1));
    let (i, mut inner) = b.open_range();
    let src = x.dup().index(i.expr());
    assert(expr_text(src) == at_t(xt, i.id()));
    let w = inner.expr(src);
    let ghost r2 = inner.reg();
    ser(s, &mut inner, &a.item, w.expr());
    let ghost body = ser_s(s, *a.item, vt(w.id()), r2);
    inner.free(w);
    assert(inner.text() =~= local_t(w.id(), at_t(xt, i.id())) + body.text);
    b.close_range(i, one, n, inner);
}

#[verifier::spinoff_prover]
#[verifier::rlimit(80)]
fn ser_set(s: Ser, b: &mut Builder, st: &SetType, x: &Expr)
    ensures
        grew(old(b).em(), final(b).em(), ser_set_s(s, *st, expr_text(*x), old(b).reg())),
    decreases st, 1int,
{
    let ghost t0 = b.text();
    let ghost r0 = b.reg();
    let ghost xt = expr_text(*x);
    type_check(full(s), b, x, "table");
    let k = st.len.len_kind();
    let p = b.reserve_k(k.size());
    let zero = Expr::Number(Num::from_u64(0));
    assert(expr_text(zero) == nat_text(0));
    let l = b.expr(zero);
    let (ki, vi, mut inner) = b.open_map();
    let one = Expr::Number(Num::from_u64(1));
    assert(expr_text(one) == nat_text(1));
    let step = l.expr().add(one);
    assert(expr_text(step) == bin_t(vt(l.id()), BinaryOp::Add, nat_text(1)));
    inner.assign(&l, step);
    let ghost r4 = inner.reg();
    ser(s, &mut inner, &st.item, ki.expr());
    let ghost body = ser_s(s, *st.item, vt(ki.id()), r4);
    assert(inner.text() =~= count_step_t(l.id()) + body.text);
    let ghost t4 = b.text();
    b.close_map(ki, vi, x.dup(), inner);
    let ghost t5 = b.text();
    if some(s) {
        range_check(b, &l.expr(), &st.len);
    }
    b.write_reserved_k(FuncK::from_kind(k), p.expr(), l.expr());
    assert(b.text() =~= t5 + count_tail_t(s, st.len, p.id(), l.id()));
    let ghost hd = opt_t(full_checks(s.apicheck), type_check_t(xt, "table"@)) + count_head_t(p.id(), l.id(), k);
    assert(t4 =~= t0 + hd);
    let ghost mp = map_t(ki.id(), vi.id(), xt, count_step_t(l.id()) + body.text);
    proof {
        lemma_cat(t0, hd, mp);
        lemma_cat(t0, hd + mp, count_tail_t(s, st.len, p.id(), l.id()));
    }
    b.free(l);
    b.free(p);
}

#[verifier::spinoff_prover]
#[verifier::rlimit(80)]
fn ser_map(s: Ser, b: &mut Builder, mt: &MapType, x: &Expr)
    ensures
        grew(old(b).em(), final(b).em(), ser_map_s(s, *mt, expr_text(*x), old(b).reg())),
    decreases mt, 1int,
{
    let ghost t0 = b.text();
    let ghost r0 = b.reg();
    let ghost xt = expr_text(*x);
    type_check(full(s), b, x, "table");
    let k = mt.len.len_kind();
    let p = b.reserve_k(k.size());
    let zero = Expr::Number(Num::from_u64(0));
    assert(expr_text(zero) == nat_text(0));
    let l = b.expr(zero);
    let (ki, vi, mut inner) = b.open_map();
    let one = Expr::Number(Num::from_u64(1));
    assert(expr_text(one) == nat_text(1));
    let step = l.expr().add(one);
    assert(expr_text(step) == bin_t(vt(l.id()), BinaryOp::Add, nat_text(1)));
    inner.assign(&l, step);
    let ghost r4 = inner.reg();
    ser(s, &mut inner, &mt.index, ki.expr());
    let ghost bi = ser_s(s, *mt.index, vt(ki.id()), r4);
    ser(s, &mut inner, &mt.value, vi.expr());
    let ghost bv = ser_s(s, *mt.value, vt(vi.id()), bi.reg);
    assert(inner.text() =~= count_step_t(l.id()) + bi.text + bv.text);
    let ghost t4 = b.text();
    b.close_map(ki, vi, x.dup(), inner);
    let ghost t5 = b.text();
    if some(s) {
        range_check(b, &l.expr(), &mt.len);
    }
    b.write_reserved_k(FuncK::from_kind(k), p.expr(), l.expr());
    assert(b.text() =~= t5 + count_tail_t(s, mt.len, p.id(), l.id()));
    let ghost hd = opt_t(full_checks(s.apicheck), type_check_t(xt, "table"@)) + count_head_t(p.id(), l.id(), k);
    assert(t4 =~= t0 + hd);
    let ghost mp = map_t(ki.id(), vi.id(), xt, count_step_t(l.id()) + bi.text + bv.text);
    proof {
        lemma_cat(t0, hd, mp);
        lemma_cat(t0, hd + mp, count_tail_t(s, mt.len, p.id(), l.id()));
    }
    b.free(l);
    b.free(p);
}

fn ser_fields(s: Ser, b: &mut Builder, fs: &Vec<(String, Type)>, x: &Expr)
    ensures
        grew(old(b).em(), final(b).em(), ser_fields_s(s, fs@, expr_text(*x), old(b).reg())),
    decreases fs, 1int,
{
    let ghost t0 = b.text();
    let ghost r0 = b.reg();
    let ghost xt = expr_text(*x);
    let mut i: usize = 0;
    proof {
        assert(fs@.subrange(0, 0) =~= Seq::<(String, Type)>::empty());
        assert(t0 + seq![] =~= t0);
    }
    while i < fs.len()
        invariant
            i <= fs@.len(),
            b.reg() == ser_fields_s(s, fs@.subrange(0, i as int), xt, r0).reg,
            b.text() == t0 + ser_fields_s(s, fs@.subrange(0, i as int), xt, r0).text,
            xt == expr_text(*x),
        decreases fs.len() - i,
    {
        let ghost pre = fs@.subrange(0, i as int);
        let ghost a = ser_fields_s(s, pre, xt, r0);
        proof {
            assert(fs@.subrange(0, i + 1).subrange(0, i as int) =~= pre);
            assert(fs@.subrange(0, i + 1)[i as int] == fs@[i as int]);
        }
        let src = x.dup().index(Expr::from_str(fs[i].0.as_str()));
        assert(expr_text(src) == field_t(xt, fs@[i as int].0@));
        let w = b.expr(src);
        let ghost r1 = b.reg();
        ser(s, b, &fs[i].1, w.expr());
        let ghost f = ser_s(s, fs@[i as int].1, vt(w.id()), r1);
        proof {
            lemma_cat(t0 + a.text, local_t(w.id(), field_t(xt, fs@[i as int].0@)), f.text);
            lemma_cat(t0, a.text, local_t(w.id(), field_t(xt, fs@[i as int].0@)) + f.text);
        }
        b.free(w);
        i += 1;
    }
    assert(fs@.subrange(0, fs@.len() as int) =~= fs@);
}

} // verus!

verus! {

fn des_number(d: Des, b: &mut Builder, n: &NumberType) -> (v: InitVar)
    ensures
        grew(old(b).em(), final(b).em(), des_number_s(d, *n, old(b).reg()).0),
        v.id() == des_number_s(d, *n, old(b).reg()).1,
{
    let ghost t0 = b.text();
    let v = b.read_k(FuncK::from_kind(n.kind));
    let ghost p1 = read_k_t(v.id(), FuncK::spec_from_kind(n.kind));
    if d.check {
        range_check(b, &v.expr(), &n.range);
    }
    let ghost p2 = opt_t(d.check, range_check_t(vt(v.id()), n.range));
    assert(b.text() =~= t0 + (p1 + p2));
    let ghost t2 = b.text();
    if d.check && !nan_kind(n.kind) {
        nan_check(b, &v.expr());
    } else {
        assert(t2 + seq![] =~= t2);
    }
    assert(b.text() =~= t0 + des_number_s(d, *n, old(b).reg()).0.text);
    v
}

#[verifier::spinoff_prover]
#[verifier::rlimit(100)]
fn des_vector(d: Des, b: &mut Builder, v: &VectorType) -> (w: InitVar)
    ensures
        grew(old(b).em(), final(b).em(), des_vector_s(d, *v, old(b).reg()).0),
        w.id() == des_vector_s(d, *v, old(b).reg()).1,
{
    let ghost t0 = b.text();
    let x = des_number(d, b, &v.x);
    let y = des_number(d, b, &v.y);
    let ghost t2 = b.text();
    let xe = x.expr();
    let ye = y.expr();
    match v.z {
        Some(zt) => {
            let z = des_number(d, b, &zt);
            let ghost t3 = b.text();
            let ze = z.expr();
            b.free(z);
            let e = Expr::Vector(Box::new(xe), Box::new(ye), Box::new(ze));
            assert(expr_text(e) == "vector.create("@ + vt(x.id()) + ", "@ + vt(y.id()) + ", "@ + vt(z.id()) + ")"@);
            let w = b.expr(e);
            assert(b.text() =~= t0 + des_vector_s(d, *v, old(b).reg()).0.text);
            b.free(y);
            b.free(x);
            w
        },
        None => {
            let zero = Expr::Number(Num::from_u64(0));
            assert(expr_text(zero) == nat_text(0));
            let e = Expr::Vector(Box::new(xe), Box::new(ye), Box::new(zero));
            assert(expr_text(e) == "vector.create("@ + vt(x.id()) + ", "@ + vt(y.id()) + ", "@ + nat_text(0) + ")"@);
            let w = b.expr(e);
            assert(b.text() =~= t0 + des_vector_s(d, *v, old(b).reg()).0.text);
            b.free(y);
            b.free(x);
            w
        },
    }
}

#[verifier::spinoff_prover]
#[verifier::rlimit(100)]
fn des_string(d: Des, b: &mut Builder, utf8: bool, len: Range) -> (v: InitVar)
    ensures
        grew(old(b).em(), final(b).em(), des_string_s(d, utf8, len, old(b).reg()).0),
        v.id() == des_string_s(d, utf8, len, old(b).reg()).1,
{
    let ghost t0 = b.text();
    match len.exact() {
        Some(e) => {
            let ne = Expr::Number(e);
            assert(expr_text(ne) == num_text(e));
            let v = b.read_d(FuncD::String, ne);
            let ghost t1 = b.text();
            if utf8 && d.check {
                utf8_check(b, &v.expr());
            } else {
                assert(t1 + seq![] =~= t1);
            }
            assert(b.text() =~= t0 + des_string_s(d, utf8, len, old(b).reg()).0.text);
            v
        },
        None => {
            let l = b.read_k(FuncK::from_kind(len.len_kind()));
            let ghost t1 = b.text();
            if d.check {
                range_check(b, &l.expr(), &len);
            } else {
                assert(t1 + seq![] =~= t1);
            }
            let v = b.read_d(FuncD::String, l.expr());
            let ghost t3 = b.text();
            if utf8 && d.check {
                utf8_check(b, &v.expr());
            } else {
                assert(t3 + seq![] =~= t3);
            }
            assert(b.text() =~= t0 + des_string_s(d, utf8, len, old(b).reg()).0.text);
            b.free(l);
            v
        },
    }
}

/// Emits the code that reads a value of type `ty`, with the checks that `d`
/// asks for, and returns the variable that holds it.
pub fn des(d: Des, b: &mut Builder, ty: &Type) -> (v: InitVar)
    ensures
        grew(old(b).em(), final(b).em(), des_s(d, *ty, old(b).reg()).0),
        v.id() == des_s(d, *ty, old(b).reg()).1,
    decreases ty, 2int,
{
    match ty {
        Type::Number(n) => des_number(d, b, n),
        Type::Vector(v) => des_vector(d, b, v),
        Type::BinaryString(t) => des_string(d, b, false, t.len),
        Type::Utf8String(t) => des_string(d, b, true, t.len),
        Type::Array(a) => des_array(d, b, a),
        Type::SetOf(st) => des_set(d, b, st),
        Type::MapOf(mt) => des_map(d, b, mt),
        Type::Struct(st) => des_struct(d, b, st),
    }
}

#[verifier::spinoff_prover]
#[verifier::rlimit(100)]
fn des_array(d: Des, b: &mut Builder, a: &ArrayType) -> (arr: InitVar)
    ensures
        grew(old(b).em(), final(b).em(), des_array_s(d, *a, old(b).reg()).0),
        arr.id() == des_array_s(d, *a, old(b).reg()).1,
    decreases a, 1int,
{
    let ghost t0 = b.text();
    let one = Expr::Number(Num::from_u64(1));
    assert(expr_text(one) == nat_text(1));
    match a.len.exact() {
        Some(e) => {
            let ne = Expr::Number(e);
            assert(expr_text(ne) == num_text(e));
            let ae = Expr::Array(Box::new(ne));
            assert(expr_text(ae) == array_t(e)) by {
                if is_zero(e) {
                    assert(expr_text(ae) == "{}"@);
                } else {
                    assert(expr_text(ae) == "table.create("@ + expr_text(ne) + ")"@);
                }
            }
            let arr = b.expr(ae);
            let ghost t1 = b.text();
            let (i, mut inner) = b.open_range();
            let ghost r2 = inner.reg();
            let v = des(d, &mut inner, &a.item);
            let ghost f = des_s(d, *a.item, r2).0;
            inner.assign_index(&arr, i.expr(), v.expr());
            inner.free(v);
            assert(inner.text() =~= f.text + set_index_t(arr.id(), vt(i.id()), vt(v.id())));
            let ne2 = Expr::Number(e);
            assert(expr_text(ne2) == num_text(e));
            b.close_range(i, one, ne2, inner);
            assert(b.text() =~= t0 + des_array_s(d, *a, old(b).reg()).0.text);
            arr
        },
        None => {
            let l = b.read_k(FuncK::from_kind(a.len.len_kind()));
            let ghost t1 = b.text();
            if d.check {
                range_check(b, &l.expr(), &a.len);
            } else {
                assert(t1 + seq![] =~= t1);
            }
            let ae = Expr::Array(Box::new(l.expr()));
            assert(expr_text(ae) == "table.create("@ + vt(l.id()) + ")"@);
            let arr = b.expr(ae);
            let ghost t2 = b.text();
            let (i, mut inner) = b.open_range();
            let ghost r3 = inner.reg();
            let v = des(d, &mut inner, &a.item);
            let ghost f = des_s(d, *a.item, r3).0;
            inner.assign_index(&arr, i.expr(), v.expr());
            inner.free(v);
            assert(inner.text() =~= f.text + set_index_t(arr.id(), vt(i.id()), vt(v.id())));
            b.close_range(i, one, l.expr(), inner);
            assert(b.text() =~= t0 + des_array_s(d, *a, old(b).reg()).0.text);
            b.free(l);
            arr
        },
    }
}

#[verifier::spinoff_prover]
#[verifier::rlimit(100)]
fn des_set(d: Des, b: &mut Builder, st: &SetType) -> (t: InitVar)
    ensures
        grew(old(b).em(), final(b).em(), des_set_s(d, *st, old(b).reg()).0),
        t.id() == des_set_s(d, *st, old(b).reg()).1,
    decreases st, 1int,
{
    let ghost t0 = b.text();
    let one = Expr::Number(Num::from_u64(1));
    assert(expr_text(one) == nat_text(1));
    let l = b.read_k(FuncK::from_kind(st.len.len_kind()));
    let ghost t1 = b.text();
    if d.check {
        range_check(b, &l.expr(), &st.len);
    } else {
        assert(t1 + seq![] =~= t1);
    }
    let tbl = Expr::Table;
    assert(expr_text(tbl) == "{}"@);
    let t = b.expr(tbl);
    let (i, mut inner) = b.open_range();
    let ghost r3 = inner.reg();
    let v = des(d, &mut inner, &st.item);
    let ghost f = des_s(d, *st.item, r3).0;
    let tr = Expr::Boolean(true);
    assert(expr_text(tr) == "true"@);
    inner.assign_index(&t, v.expr(), tr);
    inner.free(v);
    assert(inner.text() =~= f.text + set_index_t(t.id(), vt(v.id()), "true"@));
    b.close_range(i, one, l.expr(), inner);
    assert(b.text() =~= t0 + des_set_s(d, *st, old(b).reg()).0.text);
    b.free(l);
    t
}

#[verifier::spinoff_prover]
#[verifier::rlimit(100)]
fn des_map(d: Des, b: &mut Builder, mt: &MapType) -> (t: InitVar)
    ensures
        grew(old(b).em(), final(b).em(), des_map_s(d, *mt, old(b).reg()).0),
        t.id() == des_map_s(d, *mt, old(b).reg()).1,
    decreases mt, 1int,
{
    let ghost t0 = b.text();
    let one = Expr::Number(Num::from_u64(1));
    assert(expr_text(one) == nat_text(1));
    let l = b.read_k(FuncK::from_kind(mt.len.len_kind()));
    let ghost t1 = b.text();
    if d.check {
        range_check(b, &l.expr(), &mt.len);
    } else {
        assert(t1 + seq![] =~= t1);
    }
    let tbl = Expr::Table;
    assert(expr_text(tbl) == "{}"@);
    let t = b.expr(tbl);
    let (i, mut inner) = b.open_range();
    let ghost r3 = inner.reg();
    let k = des(d, &mut inner, &mt.index);
    let ghost fk = des_s(d, *mt.index, r3).0;
    let v = des(d, &mut inner, &mt.value);
    let ghost fv = des_s(d, *mt.value, fk.reg).0;
    inner.assign_index(&t, k.expr(), v.expr());
    inner.free(v);
    inner.free(k);
    assert(inner.text() =~= fk.text + fv.text + set_index_t(t.id(), vt(k.id()), vt(v.id())));
    b.close_range(i, one, l.expr(), inner);
    assert(b.text() =~= t0 + des_map_s(d, *mt, old(b).reg()).0.text);
    b.free(l);
    t
}

/// The ids of a list of variables.
pub open spec fn var_ids(s: Seq<InitVar>) -> Seq<u16> {
    s.map_values(|v: InitVar| v.id())
}

fn des_struct(d: Des, b: &mut Builder, st: &StructType) -> (w: InitVar)
    ensures
        grew(old(b).em(), final(b).em(), des_s(d, Type::Struct(*st), old(b).reg()).0),
        w.id() == des_s(d, Type::Struct(*st), old(b).reg()).1,
    decreases st, 1int,
{
    let ghost t0 = b.text();
    let ghost r0 = b.reg();
    let fs = &st.fields;
    let mut vars: Vec<InitVar> = Vec::new();
    let mut i: usize = 0;
    proof {
        assert(fs@.subrange(0, 0) =~= Seq::<(String, Type)>::empty());
        assert(t0 + seq![] =~= t0);
        assert(var_ids(vars@) =~= Seq::<u16>::empty());
    }
    while i < fs.len()
        invariant
            i <= fs@.len(),
            fs == &st.fields,
            b.reg() == des_fields_s(d, fs@.subrange(0, i as int), r0).0.reg,
            b.text() == t0 + des_fields_s(d, fs@.subrange(0, i as int), r0).0.text,
            var_ids(vars@) == des_fields_s(d, fs@.subrange(0, i as int), r0).1,
            vars@.len() == i,
        decreases fs.len() - i,
    {
        let ghost pre = fs@.subrange(0, i as int);
        let ghost a = des_fields_s(d, pre, r0).0;
        proof {
            assert(fs@.subrange(0, i + 1).subrange(0, i as int) =~= pre);
            assert(fs@.subrange(0, i + 1)[i as int] == fs@[i as int]);
        }
        let v = des(d, b, &fs[i].1);
        proof {
            lemma_cat(t0, a.text, des_s(d, fs@[i as int].1, a.reg).0.text);
        }
        let ghost before = vars@;
        vars.push(v);
        proof {
            assert(var_ids(vars@) =~= var_ids(before).push(v.id()));
        }
        i += 1;
    }
    assert(fs@.subrange(0, fs@.len() as int) =~= fs@);
    let ghost vs = var_ids(vars@);
    let mut fields: Vec<(String, Expr)> = Vec::new();
    let mut j: usize = 0;
    proof {
        assert(fs@.subrange(0, 0) =~= Seq::<(String, Type)>::empty());
    }
    while j < fs.len()
        invariant
            j <= fs@.len(),
            fs == &st.fields,
            vars@.len() == fs@.len(),
            var_ids(vars@) == vs,
            vs.len() == fs@.len(),
            crate::ir::fields_text(fields@) == struct_t(fs@.subrange(0, j as int), vs),
            fields@.len() == j,
        decreases fs.len() - j,
    {
        let name = fs[j].0.clone();
        let e = vars[j].expr();
        let ghost f0 = fields@;
        fields.push((name, e));
        proof {
            assert(fields@.subrange(0, fields@.len() - 1) =~= f0);
            assert(fs@.subrange(0, j + 1).drop_last() =~= fs@.subrange(0, j as int));
            assert(vs[j as int] == vars@[j as int].id());
        }
        j += 1;
    }
    assert(fs@.subrange(0, fs@.len() as int) =~= fs@);
    let ghost fl = fields@;
    let se = Expr::Struct(fields);
    assert(expr_text(se) == "{ "@ + crate::ir::fields_text(fl) + "}"@);
    assert(expr_text(se) == "{ "@ + struct_t(fs@, vs) + "}"@);
    let ghost t1 = b.text();
    let ghost fe = des_fields_s(d, fs@, r0).0;
    assert(t1 == t0 + fe.text);
    let w = b.expr(se);
    let ghost r1 = b.reg();
    let mut rest = vars;
    let mut k: usize = 0;
    let n = fs.len();
    proof {
        assert(vs.take(0) =~= Seq::<u16>::empty());
        assert(rest@.skip(0) =~= rest@);
    }
    while k < n
        invariant
            k <= n,
            n == vs.len(),
            var_ids(rest@) == vs.skip(k as int),
            rest@.len() == n - k,
            b.reg() == release_all(r1, vs.take(k as int)),
            b.text() == t1 + local_t(w.id(), "{ "@ + struct_t(fs@, vs) + "}"@),
        decreases n - k,
    {
        proof {
            assert(vs.take(k + 1).drop_last() =~= vs.take(k as int));
            assert(vs.take(k + 1).last() == vs[k as int]);
            assert(var_ids(rest@)[0] == rest@[0].id());
            assert(vs.skip(k as int)[0] == vs[k as int]);
        }
        let ghost before = rest@;
        let v = rest.remove(0);
        proof {
            assert(var_ids(rest@) =~= var_ids(before).skip(1));
            assert(vs.skip(k as int).skip(1) =~= vs.skip(k + 1));
        }
        b.free(v);
        k += 1;
    }
    proof {
        assert(vs.take(n as int) =~= vs);
        lemma_cat(t0, fe.text, local_t(w.id(), "{ "@ + struct_t(fs@, vs) + "}"@));
    }
    w
}

} // verus!

verus! {

/// Once ids ran out, they stay out: the flag is never cleared.
proof fn lemma_ser_ovf(s: Ser, t: Type, x: Seq<char>, r: RegState)
    ensures
        r.overflow ==> ser_s(s, t, x, r).reg.overflow,
    decreases t, 2int,
{
    match t {
        Type::Array(a) => {
            lemma_array_ovf(s, a, x, r);
        },
        Type::SetOf(st) => {
            let r4 = reg_alloc(reg_alloc(reg_alloc(reg_alloc(r).0).0).0).0;
            let ki = reg_alloc(reg_alloc(reg_alloc(r).0).0).1;
            lemma_ser_ovf(s, *st.item, vt(ki), r4);
        },
        Type::MapOf(mt) => {
            let r4 = reg_alloc(reg_alloc(reg_alloc(reg_alloc(r).0).0).0).0;
            let ki = reg_alloc(reg_alloc(reg_alloc(r).0).0).1;
            let vi = reg_alloc(reg_alloc(reg_alloc(reg_alloc(r).0).0).0).1;
            lemma_ser_ovf(s, *mt.index, vt(ki), r4);
            lemma_ser_ovf(s, *mt.value, vt(vi), ser_s(s, *mt.index, vt(ki), r4).reg);
        },
        Type::Struct(st) => lemma_fields_ovf(s, st.fields@, x, r),
        Type::BinaryString(bs) => {
            assert(r.overflow ==> ser_string_s(s, false, bs.len, x, r).reg.overflow);
        },
        Type::Utf8String(us) => {
            assert(r.overflow ==> ser_string_s(s, true, us.len, x, r).reg.overflow);
        },
        Type::Number(_) => {},
        Type::Vector(_) => {},
    }
}

proof fn lemma_items_ovf(s: Ser, item: Type, x: Seq<char>, n: Seq<char>, r: RegState)
    ensures
        r.overflow ==> items_s(s, item, x, n, r).reg.overflow,
    decreases item, 3int,
{
    let (r1, i) = reg_alloc(r);
    let (r2, w) = reg_alloc(r1);
    lemma_ser_ovf(s, item, vt(w), r2);
}

proof fn lemma_array_ovf(s: Ser, a: ArrayType, x: Seq<char>, r: RegState)
    ensures
        r.overflow ==> ser_array_s(s, a, x, r).reg.overflow,
    decreases a, 1int,
{
    match a.len.spec_exact() {
        Some(e) => lemma_items_ovf(s, *a.item, x, num_text(e), r),
        None => {
            let (r1, l) = reg_alloc(r);
            lemma_items_ovf(s, *a.item, x, vt(l), r1);
        },
    }
}

proof fn lemma_fields_ovf(s: Ser, fs: Seq<(String, Type)>, x: Seq<char>, r: RegState)
    ensures
        r.overflow ==> ser_fields_s(s, fs, x, r).reg.overflow,
    decreases fs, 1int,
{
    if fs.len() > 0 {
        let a = ser_fields_s(s, fs.subrange(0, fs.len() - 1), x, r);
        lemma_fields_ovf(s, fs.subrange(0, fs.len() - 1), x, r);
        let (r1, w) = reg_alloc(a.reg);
        lemma_ser_ovf(s, fs[fs.len() - 1].1, vt(w), r1);
    }
}


/// Handing out a variable when no ids ran out: the variable was not in use,
/// and now is.
proof fn lemma_alloc(r: RegState)
    requires
        reg_wf(r),
        !reg_alloc(r).0.overflow,
    ensures
        !r.overflow,
        reg_wf(reg_alloc(r).0),
        !reg_live(r).contains(reg_alloc(r).1),
        reg_live(reg_alloc(r).0) == reg_live(r).insert(reg_alloc(r).1),
{
    lemma_alloc_fresh(r);
}

/// The variables that writing a string of counted length takes are all
/// handed back.
proof fn lemma_counted_live(s: Ser, len: Range, x: Seq<char>, r: RegState)
    requires
        reg_wf(r),
        !string_counted_s(s, len, x, r).reg.overflow,
    ensures
        !r.overflow,
        reg_wf(string_counted_s(s, len, x, r).reg),
        reg_live(string_counted_s(s, len, x, r).reg) == reg_live(r),
{
    let (r1, l) = reg_alloc(r);
    lemma_alloc(r);
    lemma_release_live(r1, l);
    assert(reg_live(r1).remove(l) =~= reg_live(r));
}

/// The loop over the items of an array hands back what it takes.
proof fn lemma_items_live(s: Ser, item: Type, x: Seq<char>, n: Seq<char>, r: RegState)
    requires
        reg_wf(r),
        !items_s(s, item, x, n, r).reg.overflow,
    ensures
        !r.overflow,
        reg_wf(items_s(s, item, x, n, r).reg),
        reg_live(items_s(s, item, x, n, r).reg) == reg_live(r),
    decreases item, 3int,
{
    let (r1, i) = reg_alloc(r);
    let (r2, w) = reg_alloc(r1);
    let body = ser_s(s, item, vt(w), r2);
    lemma_ser_ovf(s, item, vt(w), r2);
    lemma_alloc(r);
    lemma_alloc(r1);
    lemma_ser_live(s, item, vt(w), r2);
    lemma_release_live(body.reg, w);
    lemma_release_live(reg_release(body.reg, w), i);
    assert(reg_live(reg_release(reg_release(body.reg, w), i)) =~= reg_live(r));
}

/// Writing a value hands back every variable it takes: the variables in
/// use afterwards are those in use before.
pub proof fn lemma_ser_live(s: Ser, t: Type, x: Seq<char>, r: RegState)
    requires
        reg_wf(r),
        !ser_s(s, t, x, r).reg.overflow,
    ensures
        !r.overflow,
        reg_wf(ser_s(s, t, x, r).reg),
        reg_live(ser_s(s, t, x, r).reg) == reg_live(r),
    decreases t, 2int,
{
    match t {
        Type::Number(_) => {},
        Type::Vector(_) => {},
        Type::BinaryString(bs) => {
            if bs.len.spec_exact() is None {
                lemma_counted_live(s, bs.len, x, r);
            }
        },
        Type::Utf8String(us) => {
            if us.len.spec_exact() is None {
                lemma_counted_live(s, us.len, x, r);
            }
        },
        Type::Array(a) => lemma_array_live(s, a, x, r),
        Type::SetOf(st) => lemma_set_live(s, st, x, r),
        Type::MapOf(mt) => lemma_map_live(s, mt, x, r),
        Type::Struct(st) => lemma_fields_live(s, st.fields@, x, r),
    }
}

proof fn lemma_array_live(s: Ser, a: ArrayType, x: Seq<char>, r: RegState)
    requires
        reg_wf(r),
        !ser_array_s(s, a, x, r).reg.overflow,
    ensures
        !r.overflow,
        reg_wf(ser_array_s(s, a, x, r).reg),
        reg_live(ser_array_s(s, a, x, r).reg) == reg_live(r),
    decreases a, 1int,
{
    match a.len.spec_exact() {
        Some(e) => {
            lemma_items_live(s, *a.item, x, num_text(e), r);
        },
        None => {
            let (r1, l) = reg_alloc(r);
            let it = items_s(s, *a.item, x, vt(l), r1);
            lemma_items_ovf(s, *a.item, x, vt(l), r1);
            lemma_alloc(r);
            lemma_items_live(s, *a.item, x, vt(l), r1);
            lemma_release_live(it.reg, l);
            assert(reg_live(reg_release(it.reg, l)) =~= reg_live(r));
        },
    }
}

proof fn lemma_set_live(s: Ser, st: SetType, x: Seq<char>, r: RegState)
    requires
        reg_wf(r),
        !ser_set_s(s, st, x, r).reg.overflow,
    ensures
        !r.overflow,
        reg_wf(ser_set_s(s, st, x, r).reg),
        reg_live(ser_set_s(s, st, x, r).reg) == reg_live(r),
    decreases st, 1int,
{
    let (r1, p) = reg_alloc(r);
    let (r2, l) = reg_alloc(r1);
    let (r3, ki) = reg_alloc(r2);
    let (r4, vi) = reg_alloc(r3);
    let body = ser_s(s, *st.item, vt(ki), r4);
    lemma_ser_ovf(s, *st.item, vt(ki), r4);
    lemma_alloc(r);
    lemma_alloc(r1);
    lemma_alloc(r2);
    lemma_alloc(r3);
    lemma_ser_live(s, *st.item, vt(ki), r4);
    let q1 = reg_release(body.reg, vi);
    let q2 = reg_release(q1, ki);
    let q3 = reg_release(q2, l);
    lemma_release_live(body.reg, vi);
    lemma_release_live(q1, ki);
    lemma_release_live(q2, l);
    lemma_release_live(q3, p);
    assert(reg_live(reg_release(q3, p)) =~= reg_live(r));
}

proof fn lemma_map_live(s: Ser, mt: MapType, x: Seq<char>, r: RegState)
    requires
        reg_wf(r),
        !ser_map_s(s, mt, x, r).reg.overflow,
    ensures
        !r.overflow,
        reg_wf(ser_map_s(s, mt, x, r).reg),
        reg_live(ser_map_s(s, mt, x, r).reg) == reg_live(r),
    decreases mt, 1int,
{
    let (r1, p) = reg_alloc(r);
    let (r2, l) = reg_alloc(r1);
    let (r3, ki) = reg_alloc(r2);
    let (r4, vi) = reg_alloc(r3);
    let bi = ser_s(s, *mt.index, vt(ki), r4);
    let bv = ser_s(s, *mt.value, vt(vi), bi.reg);
    lemma_ser_ovf(s, *mt.value, vt(vi), bi.reg);
    lemma_ser_ovf(s, *mt.index, vt(ki), r4);
    lemma_alloc(r);
    lemma_alloc(r1);
    lemma_alloc(r2);
    lemma_alloc(r3);
    lemma_ser_live(s, *mt.index, vt(ki), r4);
    lemma_ser_live(s, *mt.value, vt(vi), bi.reg);
    let q1 = reg_release(bv.reg, vi);
    let q2 = reg_release(q1, ki);
    let q3 = reg_release(q2, l);
    lemma_release_live(bv.reg, vi);
    lemma_release_live(q1, ki);
    lemma_release_live(q2, l);
    lemma_release_live(q3, p);
    assert(reg_live(reg_release(q3, p)) =~= reg_live(r));
}

proof fn lemma_fields_live(s: Ser, fs: Seq<(String, Type)>, x: Seq<char>, r: RegState)
    requires
        reg_wf(r),
        !ser_fields_s(s, fs, x, r).reg.overflow,
    ensures
        !r.overflow,
        reg_wf(ser_fields_s(s, fs, x, r).reg),
        reg_live(ser_fields_s(s, fs, x, r).reg) == reg_live(r),
    decreases fs, 1int,
{
    if fs.len() > 0 {
        let a = ser_fields_s(s, fs.subrange(0, fs.len() - 1), x, r);
        let (r1, w) = reg_alloc(a.reg);
        let f = ser_s(s, fs[fs.len() - 1].1, vt(w), r1);
        lemma_ser_ovf(s, fs[fs.len() - 1].1, vt(w), r1);
        lemma_fields_live(s, fs.subrange(0, fs.len() - 1), x, r);
        lemma_alloc(a.reg);
        lemma_ser_live(s, fs[fs.len() - 1].1, vt(w), r1);
        lemma_release_live(f.reg, w);
        assert(reg_live(reg_release(f.reg, w)) =~= reg_live(r));
    }
}

} // verus!

verus! {

proof fn lemma_des_ovf(d: Des, t: Type, r: RegState)
    ensures
        r.overflow ==> des_s(d, t, r).0.reg.overflow,
    decreases t, 2int,
{
    match t {
        Type::Array(a) => lemma_des_array_ovf(d, a, r),
        Type::SetOf(st) => {
            let r3 = reg_alloc(reg_alloc(reg_alloc(r).0).0).0;
            lemma_des_ovf(d, *st.item, r3);
        },
        Type::MapOf(mt) => {
            let r3 = reg_alloc(reg_alloc(reg_alloc(r).0).0).0;
            lemma_des_ovf(d, *mt.index, r3);
            lemma_des_ovf(d, *mt.value, des_s(d, *mt.index, r3).0.reg);
        },
        Type::Struct(st) => {
            lemma_des_fields_ovf(d, st.fields@, r);
            let (f, vs) = des_fields_s(d, st.fields@, r);
            lemma_release_all_ovf(reg_alloc(f.reg).0, vs);
        },
        _ => {},
    }
}

proof fn lemma_des_array_ovf(d: Des, a: ArrayType, r: RegState)
    ensures
        r.overflow ==> des_array_s(d, a, r).0.reg.overflow,
    decreases a, 1int,
{
    match a.len.spec_exact() {
        Some(e) => {
            let r2 = reg_alloc(reg_alloc(r).0).0;
            lemma_des_ovf(d, *a.item, r2);
        },
        None => {
            let r3 = reg_alloc(reg_alloc(reg_alloc(r).0).0).0;
            lemma_des_ovf(d, *a.item, r3);
        },
    }
}

proof fn lemma_des_fields_ovf(d: Des, fs: Seq<(String, Type)>, r: RegState)
    ensures
        r.overflow ==> des_fields_s(d, fs, r).0.reg.overflow,
    decreases fs, 1int,
{
    if fs.len() > 0 {
        lemma_des_fields_ovf(d, fs.subrange(0, fs.len() - 1), r);
        let (a, vs) = des_fields_s(d, fs.subrange(0, fs.len() - 1), r);
        lemma_des_ovf(d, fs[fs.len() - 1].1, a.reg);
    }
}

/// Reading a value leaves in use what was in use before, and the variable
/// that holds the value, which was not in use before.
pub proof fn lemma_des_live(d: Des, t: Type, r: RegState)
    requires
        reg_wf(r),
        !des_s(d, t, r).0.reg.overflow,
    ensures
        !r.overflow,
        reg_wf(des_s(d, t, r).0.reg),
        !reg_live(r).contains(des_s(d, t, r).1),
        reg_live(des_s(d, t, r).0.reg) == reg_live(r).insert(des_s(d, t, r).1),
    decreases t, 2int,
{
    match t {
        Type::Number(_) => {
            lemma_alloc(r);
        },
        Type::Vector(v) => lemma_vector_live(d, v, r),
        Type::BinaryString(bs) => lemma_string_live(d, false, bs.len, r),
        Type::Utf8String(us) => lemma_string_live(d, true, us.len, r),
        Type::Array(a) => lemma_des_array_live(d, a, r),
        Type::SetOf(st) => {
            let (r1, l) = reg_alloc(r);
            let (r2, tb) = reg_alloc(r1);
            let (r3, i) = reg_alloc(r2);
            let (f, v) = des_s(d, *st.item, r3);
            lemma_des_ovf(d, *st.item, r3);
            lemma_alloc(r);
            lemma_alloc(r1);
            lemma_alloc(r2);
            lemma_des_live(d, *st.item, r3);
            let q1 = reg_release(f.reg, v);
            let q2 = reg_release(q1, i);
            lemma_release_live(f.reg, v);
            lemma_release_live(q1, i);
            lemma_release_live(q2, l);
            assert(reg_live(reg_release(q2, l)) =~= reg_live(r).insert(tb));
        },
        Type::MapOf(mt) => {
            let (r1, l) = reg_alloc(r);
            let (r2, tb) = reg_alloc(r1);
            let (r3, i) = reg_alloc(r2);
            let (fk, k) = des_s(d, *mt.index, r3);
            let (fv, v) = des_s(d, *mt.value, fk.reg);
            lemma_des_ovf(d, *mt.value, fk.reg);
            lemma_des_ovf(d, *mt.index, r3);
            lemma_alloc(r);
            lemma_alloc(r1);
            lemma_alloc(r2);
            lemma_des_live(d, *mt.index, r3);
            lemma_des_live(d, *mt.value, fk.reg);
            let q1 = reg_release(fv.reg, v);
            let q2 = reg_release(q1, k);
            let q3 = reg_release(q2, i);
            lemma_release_live(fv.reg, v);
            lemma_release_live(q1, k);
            lemma_release_live(q2, i);
            lemma_release_live(q3, l);
            assert(reg_live(reg_release(q3, l)) =~= reg_live(r).insert(tb));
        },
        Type::Struct(st) => {
            let (f, vs) = des_fields_s(d, st.fields@, r);
            let (r1, w) = reg_alloc(f.reg);
            lemma_release_all_ovf(r1, vs);
            lemma_des_fields_live(d, st.fields@, r);
            lemma_alloc(f.reg);
            assert forall|i: int| 0 <= i < vs.len() implies reg_live(r1).contains(#[trigger] vs[i]) by {
                assert(vs.to_set().contains(vs[i]));
            }
            lemma_release_all_live(r1, vs);
            assert(!vs.to_set().contains(w));
            assert(reg_live(release_all(r1, vs)) =~= reg_live(r).insert(w));
        },
    }
}

proof fn lemma_vector_live(d: Des, v: VectorType, r: RegState)
    requires
        reg_wf(r),
        !des_vector_s(d, v, r).0.reg.overflow,
    ensures
        !r.overflow,
        reg_wf(des_vector_s(d, v, r).0.reg),
        !reg_live(r).contains(des_vector_s(d, v, r).1),
        reg_live(des_vector_s(d, v, r).0.reg) == reg_live(r).insert(des_vector_s(d, v, r).1),
{
    let (ex, x) = des_number_s(d, v.x, r);
    let (ey, y) = des_number_s(d, v.y, ex.reg);
    lemma_alloc(r);
    lemma_alloc(ex.reg);
    match v.z {
        Some(zt) => {
            let (ez, z) = des_number_s(d, zt, ey.reg);
            lemma_alloc(ey.reg);
            let q = reg_release(ez.reg, z);
            lemma_release_live(ez.reg, z);
            let (r2, w) = reg_alloc(q);
            lemma_alloc(q);
            lemma_release_live(r2, y);
            lemma_release_live(reg_release(r2, y), x);
            assert(reg_live(reg_release(reg_release(r2, y), x)) =~= reg_live(r).insert(w));
        },
        None => {
            let (r2, w) = reg_alloc(ey.reg);
            lemma_alloc(ey.reg);
            lemma_release_live(r2, y);
            lemma_release_live(reg_release(r2, y), x);
            assert(reg_live(reg_release(reg_release(r2, y), x)) =~= reg_live(r).insert(w));
        },
    }
}

proof fn lemma_string_live(d: Des, utf8: bool, len: Range, r: RegState)
    requires
        reg_wf(r),
        !des_string_s(d, utf8, len, r).0.reg.overflow,
    ensures
        !r.overflow,
        reg_wf(des_string_s(d, utf8, len, r).0.reg),
        !reg_live(r).contains(des_string_s(d, utf8, len, r).1),
        reg_live(des_string_s(d, utf8, len, r).0.reg) == reg_live(r).insert(des_string_s(d, utf8, len, r).1),
{
    match len.spec_exact() {
        Some(_) => {
            lemma_alloc(r);
        },
        None => {
            let (r1, l) = reg_alloc(r);
            let (r2, v) = reg_alloc(r1);
            lemma_alloc(r);
            lemma_alloc(r1);
            lemma_release_live(r2, l);
            assert(reg_live(reg_release(r2, l)) =~= reg_live(r).insert(v));
        },
    }
}

proof fn lemma_des_array_live(d: Des, a: ArrayType, r: RegState)
    requires
        reg_wf(r),
        !des_array_s(d, a, r).0.reg.overflow,
    ensures
        !r.overflow,
        reg_wf(des_array_s(d, a, r).0.reg),
        !reg_live(r).contains(des_array_s(d, a, r).1),
        reg_live(des_array_s(d, a, r).0.reg) == reg_live(r).insert(des_array_s(d, a, r).1),
    decreases a, 1int,
{
    match a.len.spec_exact() {
        Some(e) => {
            let (r1, arr) = reg_alloc(r);
            let (r2, i) = reg_alloc(r1);
            let (f, v) = des_s(d, *a.item, r2);
            lemma_des_ovf(d, *a.item, r2);
            lemma_alloc(r);
            lemma_alloc(r1);
            lemma_des_live(d, *a.item, r2);
            lemma_release_live(f.reg, v);
            lemma_release_live(reg_release(f.reg, v), i);
            assert(reg_live(reg_release(reg_release(f.reg, v), i)) =~= reg_live(r).insert(arr));
        },
        None => {
            let (r1, l) = reg_alloc(r);
            let (r2, arr) = reg_alloc(r1);
            let (r3, i) = reg_alloc(r2);
            let (f, v) = des_s(d, *a.item, r3);
            lemma_des_ovf(d, *a.item, r3);
            lemma_alloc(r);
            lemma_alloc(r1);
            lemma_alloc(r2);
            lemma_des_live(d, *a.item, r3);
            let q1 = reg_release(f.reg, v);
            let q2 = reg_release(q1, i);
            lemma_release_live(f.reg, v);
            lemma_release_live(q1, i);
            lemma_release_live(q2, l);
            assert(reg_live(reg_release(q2, l)) =~= reg_live(r).insert(arr));
        },
    }
}

proof fn lemma_des_fields_live(d: Des, fs: Seq<(String, Type)>, r: RegState)
    requires
        reg_wf(r),
        !des_fields_s(d, fs, r).0.reg.overflow,
    ensures
        !r.overflow,
        reg_wf(des_fields_s(d, fs, r).0.reg),
        des_fields_s(d, fs, r).1.no_duplicates(),
        forall|i: int| 0 <= i < des_fields_s(d, fs, r).1.len() ==> !reg_live(r).contains(
            #[trigger] des_fields_s(d, fs, r).1[i],
        ),
        reg_live(des_fields_s(d, fs, r).0.reg) == reg_live(r).union(des_fields_s(d, fs, r).1.to_set()),
    decreases fs, 1int,
{
    if fs.len() == 0 {
        assert(reg_live(r).union(Seq::<u16>::empty().to_set()) =~= reg_live(r));
    } else {
        let p = fs.subrange(0, fs.len() - 1);
        let (a, vs) = des_fields_s(d, p, r);
        let (f, v) = des_s(d, fs[fs.len() - 1].1, a.reg);
        lemma_des_ovf(d, fs[fs.len() - 1].1, a.reg);
        lemma_des_fields_live(d, p, r);
        lemma_des_live(d, fs[fs.len() - 1].1, a.reg);
        let ws = vs.push(v);
        assert(!vs.contains(v)) by {
            if vs.contains(v) {
                let k = choose|k: int| 0 <= k < vs.len() && vs[k] == v;
                assert(vs.to_set().contains(vs[k]));
            }
        }
        assert forall|i: int, j: int| 0 <= i < j < ws.len() implies ws[i] != ws[j] by {
            if j == ws.len() - 1 {
                assert(ws[i] == vs[i]);
                assert(vs.contains(vs[i]));
            } else {
                assert(ws[i] == vs[i] && ws[j] == vs[j]);
            }
        }
        assert forall|i: int| 0 <= i < ws.len() implies !reg_live(r).contains(#[trigger] ws[i]) by {
            if i < vs.len() {
                assert(ws[i] == vs[i]);
            }
        }
        vs.lemma_push_to_set_commute(v);
        assert(reg_live(f.reg) =~= reg_live(r).union(ws.to_set()));
    }
}

} // verus!

verus! {

/// A comparison of the generated code: `x == n`, `x >= n` or `x <= n`.
pub enum Bound {
    Equal(Num),
    AtLeast(Num),
    AtMost(Num),
}

pub open spec fn bound_text(x: Seq<char>, b: Bound) -> Seq<char> {
    match b {
        Bound::Equal(n) => bin_t(x, BinaryOp::Eq, num_text(n)),
        Bound::AtLeast(n) => bin_t(x, BinaryOp::Ge, num_text(n)),
        Bound::AtMost(n) => bin_t(x, BinaryOp::Le, num_text(n)),
    }
}

/// The value `v` meets the bound.
pub open spec fn bound_holds(b: Bound, v: Num) -> bool {
    match b {
        Bound::Equal(n) => num_le(n, v) && num_le(v, n),
        Bound::AtLeast(n) => num_le(n, v),
        Bound::AtMost(n) => num_le(v, n),
    }
}

/// The bounds joined by `and`.
pub open spec fn bounds_text(x: Seq<char>, bs: Seq<Bound>) -> Seq<char>
    decreases bs.len(),
{
    if bs.len() <= 1 {
        bound_text(x, bs[0])
    } else {
        bin_t(bounds_text(x, bs.drop_last()), BinaryOp::And, bound_text(x, bs.last()))
    }
}

/// The values a range stands for: the one value of a range whose bounds
/// are equal; else at least its lower bound when it has one, at most its
/// upper bound when it has one.
pub open spec fn in_range(rg: Range, v: Num) -> bool {
    match rg.spec_exact() {
        Some(e) => num_le(e, v) && num_le(v, e),
        None => {
            &&& rg.min matches Some(mn) ==> num_le(mn, v)
            &&& rg.max matches Some(mx) ==> num_le(v, mx)
        },
    }
}

/// The range check lets through exactly the values of the range: with no
/// bound it is no code at all; else it raises an error unless the value
/// meets a list of bounds, and a value meets them all exactly when it is in
/// the range.
pub proof fn lemma_range_check_meaning(x: Seq<char>, rg: Range)
    ensures
        rg.min is None && rg.max is None ==> range_check_t(x, rg) == Seq::<char>::empty(),
        !(rg.min is None && rg.max is None) ==> exists|bs: Seq<Bound>, msg: Seq<char>|
            {
                &&& bs.len() > 0
                &&& range_check_t(x, rg) == assert_t(bounds_text(x, bs), msg)
                &&& forall|v: Num|
                    (forall|i: int| 0 <= i < bs.len() ==> #[trigger] bound_holds(bs[i], v)) <==> in_range(
                        rg,
                        v,
                    )
            },
{
    match rg.spec_exact() {
        Some(e) => {
            let bs = seq![Bound::Equal(e)];
            let msg = "not equal to "@ + num_text(e);
            assert(range_check_t(x, rg) == assert_t(bounds_text(x, bs), msg));
            assert forall|v: Num| (forall|i: int| 0 <= i < bs.len() ==> #[trigger] bound_holds(bs[i], v))
                <==> in_range(rg, v) by {
                if !in_range(rg, v) {
                    assert(!bound_holds(bs[0], v));
                }
            }
        },
        None => match (rg.min, rg.max) {
            (Some(mn), Some(mx)) => {
                let bs = seq![Bound::AtLeast(mn), Bound::AtMost(mx)];
                assert(bs.drop_last() =~= seq![Bound::AtLeast(mn)]);
                assert(bounds_text(x, bs.drop_last()) == bound_text(x, Bound::AtLeast(mn)));
                assert(bs.last() == Bound::AtMost(mx));
                let msg = "value out of range ["@ + num_text(mn) + ", "@ + num_text(mx) + "]"@;
                assert(range_check_t(x, rg) == assert_t(bounds_text(x, bs), msg));
                assert forall|v: Num| (forall|i: int| 0 <= i < bs.len() ==> #[trigger] bound_holds(bs[i], v))
                    <==> in_range(rg, v) by {
                    if in_range(rg, v) {
                        assert forall|i: int| 0 <= i < bs.len() implies #[trigger] bound_holds(bs[i], v) by {}
                    } else {
                        if !num_le(mn, v) {
                            assert(!bound_holds(bs[0], v));
                        } else {
                            assert(!bound_holds(bs[1], v));
                        }
                    }
                }
            },
            (Some(mn), None) => {
                let bs = seq![Bound::AtLeast(mn)];
                let msg = "value less than "@ + num_text(mn);
                assert(range_check_t(x, rg) == assert_t(bounds_text(x, bs), msg));
                assert forall|v: Num| (forall|i: int| 0 <= i < bs.len() ==> #[trigger] bound_holds(bs[i], v))
                    <==> in_range(rg, v) by {
                    if !in_range(rg, v) {
                        assert(!bound_holds(bs[0], v));
                    }
                }
            },
            (None, Some(mx)) => {
                let bs = seq![Bound::AtMost(mx)];
                let msg = "value greater than "@ + num_text(mx);
                assert(range_check_t(x, rg) == assert_t(bounds_text(x, bs), msg));
                assert forall|v: Num| (forall|i: int| 0 <= i < bs.len() ==> #[trigger] bound_holds(bs[i], v))
                    <==> in_range(rg, v) by {
                    if !in_range(rg, v) {
                        assert(!bound_holds(bs[0], v));
                    }
                }
            },
            (None, None) => {},
        },
    }
}

/// A set is read into a table that starts empty and has as keys exactly
/// the items read, each set to `true`.
pub proof fn lemma_set_reader_keys(d: Des, st: SetType, r: RegState)
    ensures
        ({
            let (e, set) = des_set_s(d, st, r);
            exists|h0: Seq<char>, h1: Seq<char>, ri: RegState|
                e.text == h0 + local_t(set, "{}"@) + h1 + des_s(d, *st.item, ri).0.text + (vt(set) + "["@ + vt(
                    des_s(d, *st.item, ri).1,
                ) + "] = "@ + "true"@ + ";"@) + " end;"@
        }),
{
    let (r1, l) = reg_alloc(r);
    let (r2, t) = reg_alloc(r1);
    let (r3, i) = reg_alloc(r2);
    let (f, v) = des_s(d, *st.item, r3);
    let h0 = read_k_t(l, FuncK::spec_from_kind(st.len.spec_len_kind())) + opt_t(d.check, range_check_t(vt(l), st.len));
    let h1 = "for "@ + vt(i) + " = "@ + nat_text(1) + ", "@ + vt(l) + " do "@;
    let kv = vt(t) + "["@ + vt(v) + "] = "@ + "true"@ + ";"@;
    assert(set_index_t(t, vt(v), "true"@) =~= kv);
    assert(range_t(i, nat_text(1), vt(l), f.text + kv) =~= h1 + f.text + kv + " end;"@);
    assert(des_set_s(d, st, r).0.text =~= h0 + local_t(t, "{}"@) + h1 + f.text + kv + " end;"@);
    assert(des_set_s(d, st, r).1 == t);
    assert(des_s(d, *st.item, r3).0.text == f.text && des_s(d, *st.item, r3).1 == v);
}

} // verus!

