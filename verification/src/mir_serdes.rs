//! The code that writes a value of a type into a packet, and the code that
//! reads it back.
//!
//! Building the code for a type goes in two steps, as it does for the
//! generated functions that send and receive: first the tables that the
//! enums of the type need are set up (`prep`, once per function), then the
//! code for one value is emitted (`emit`). The variables that `prep` hands
//! out are kept in a list, in the order of the enums in the type, and
//! `emit` takes them from its front and hands each back when its enum is
//! done.
use vstd::prelude::*;
use crate::hir::{
    ArrayType, BinaryStringType, EnumType, Length, MapType, NumberType, SetType, StructType, Type,
    Utf8StringType, VectorType,
};
use crate::mir::{
    BinOp, Expr, FuncD, FuncK, Instr, UnOp, binop_text, expr_text, fields_text, string_literal_text,
    unop_text,
};
use crate::mir_builder::{
    Builder, Ctx, CtxV, Em, RegState, TVar, assert_text, ids, lemma_ids_len, lemma_ids_push,
    lemma_take_push, release_all, bin_t, call1_t, check_t, ctx_v,
    for_range_t, for_table_t, index_t, read_d_t, read_k_t, reg_alloc, reg_release, reserve_t, vt,
    write_d_t, write_k_t, write_reserved_t, reg_live, reg_wf,
};
use crate::num::{Num, num_le, num_text, push_num};
use crate::options::Options;
use crate::shared::{ApiCheck, NumberKind, Range};
use crate::text::nat_text;

verus! {

/// How values are written: the options of the event, and whether the
/// native `bit32` library may be used.
#[derive(Clone, Copy, PartialEq, Eq, Structural, Debug)]
pub struct Ser {
    pub opts: Options,
    pub native: bool,
}

/// How values are read: the options of the event, whether the native `bit32`
/// library may be used, and whether what is read is checked.
#[derive(Clone, Copy, PartialEq, Eq, Structural, Debug)]
pub struct Des {
    pub opts: Options,
    pub native: bool,
    pub check: bool,
}

/// Text produced from a registry state, and the state after it.
pub open spec fn out(reg: RegState, text: Seq<char>) -> Em {
    Em { reg, text }
}

/// `new` is `old` after producing `by`.
pub open spec fn grew(old: Em, new: Em, by: Em) -> bool {
    new.reg == by.reg && new.text == old.text + by.text
}

/// `t` when `b` holds, else nothing.
pub open spec fn opt_t(b: bool, t: Seq<char>) -> Seq<char> {
    if b {
        t
    } else {
        seq![]
    }
}

/// `local v = src;`
pub open spec fn init_t(v: u16, src: Seq<char>) -> Seq<char> {
    "local "@ + vt(v) + " = "@ + src + ";"@
}

/// `v = src;`
pub open spec fn assign_t(v: u16, src: Seq<char>) -> Seq<char> {
    vt(v) + " = "@ + src + ";"@
}

/// `v[idx] = src;`
pub open spec fn assign_index_t(v: u16, idx: Seq<char>, src: Seq<char>) -> Seq<char> {
    vt(v) + "["@ + idx + "] = "@ + src + ";"@
}

/// `(#x)`
pub open spec fn len_t(x: Seq<char>) -> Seq<char> {
    "("@ + unop_text(UnOp::Len) + x + ")"@
}

/// Type checks are made (`apicheck` is full).
pub open spec fn full_checks(o: Options) -> bool {
    o.apicheck == ApiCheck::Full
}

/// Range and UTF-8 checks are made (`apicheck` is not off).
pub open spec fn basic_checks(o: Options) -> bool {
    o.apicheck != ApiCheck::Off
}

/// The check that `x` is of the Luau type `ty`.
pub open spec fn type_check_t(x: Seq<char>, ty: Seq<char>) -> Seq<char> {
    assert_text(
        bin_t(call1_t("type"@, x), BinOp::Eq, string_literal_text(ty)),
        "value is not of type "@ + ty,
    )
}

/// The check that `x` lies in `rg`; nothing when `rg` has no bound.
pub open spec fn range_check_t(x: Seq<char>, rg: Range) -> Seq<char> {
    match (rg.min, rg.max) {
        (Some(mn), Some(mx)) => assert_text(
            bin_t(bin_t(x, BinOp::Ge, num_text(mn)), BinOp::And, bin_t(x, BinOp::Le, num_text(mx))),
            "value out of bounds ["@ + num_text(mn) + ", "@ + num_text(mx) + "]"@,
        ),
        (Some(mn), None) => assert_text(
            bin_t(x, BinOp::Ge, num_text(mn)),
            "value out of bounds ["@ + num_text(mn) + ", inf]"@,
        ),
        (None, Some(mx)) => assert_text(
            bin_t(x, BinOp::Le, num_text(mx)),
            "value out of bounds [-inf, "@ + num_text(mx) + "]"@,
        ),
        (None, None) => seq![],
    }
}

/// The check that `x` is valid UTF-8.
pub open spec fn utf8_check_t(x: Seq<char>) -> Seq<char> {
    assert_text(call1_t("utf8.len"@, x), "string is not valid utf8"@)
}

/// The bounds of a length as a range of numbers.
pub open spec fn length_range(len: Length) -> Range {
    Range {
        min: Some(Num::Finite { neg: false, digits: len.min as u64, exp: 0 }),
        max: match len.max {
            Some(m) => Some(Num::Finite { neg: false, digits: m as u64, exp: 0 }),
            None => None,
        },
    }
}

/// The number of enums in a type, in the order they are met.
pub open spec fn enums_in(t: Type) -> nat
    decreases t,
{
    match t {
        Type::Array(a) => enums_in(*a.item),
        Type::SetOf(s) => enums_in(*s.item),
        Type::MapOf(m) => enums_in(*m.index) + enums_in(*m.value),
        Type::Enum(_) => 1,
        Type::Struct(s) => fields_enums(s.fields@),
        _ => 0,
    }
}

pub open spec fn fields_enums(fs: Seq<(String, Type)>) -> nat
    decreases fs,
{
    if fs.len() == 0 {
        0
    } else {
        fields_enums(fs.subrange(0, fs.len() - 1)) + enums_in(fs[fs.len() - 1].1)
    }
}

/// The total number of enums in a list of types.
pub open spec fn types_enums(ts: Seq<Type>) -> nat
    decreases ts.len(),
{
    if ts.len() == 0 {
        0
    } else {
        types_enums(ts.drop_last()) + enums_in(ts.last())
    }
}

} // verus!

verus! {

/// Appends the check that `x` is of type `ty`, when `full`.
fn type_check(full: bool, b: &mut Builder, x: &Expr, ty: &'static str)
    ensures
        final(b).reg() == old(b).reg(),
        final(b).text() == old(b).text() + opt_t(full, type_check_t(expr_text(*x), ty@)),
{
    if full {
        let ghost xt = expr_text(*x);
        let arg = x.dup();
        let args = vec![arg];
        let ghost a = args@;
        let g = Expr::Global("type");
        assert(expr_text(g) == "type"@);
        let call = g.call(args);
        let lit = Expr::from_str(ty);
        let cond = call.eq(lit);
        proof {
            assert(crate::mir::exprs_text(a) == xt);
            assert(expr_text(call) == call1_t("type"@, xt));
            assert(expr_text(cond) == bin_t(call1_t("type"@, xt), BinOp::Eq, string_literal_text(ty@)));
        }
        let mut msg = String::new();
        msg.append("value is not of type ");
        msg.append(ty);
        assert(msg@ =~= "value is not of type "@ + ty@);
        b.assert_cond(cond, msg.as_str());
    }
}

/// Appends the check that `x` lies in `rg`, when `active`.
fn range_check(active: bool, b: &mut Builder, x: &Expr, rg: Range)
    ensures
        final(b).reg() == old(b).reg(),
        final(b).text() == old(b).text() + opt_t(active, range_check_t(expr_text(*x), rg)),
{
    if active {
        let ghost xt = expr_text(*x);
        match (rg.min, rg.max) {
            (Some(mn), Some(mx)) => {
                let n1 = Expr::Number(mn);
                let n2 = Expr::Number(mx);
                assert(expr_text(n1) == num_text(mn));
                assert(expr_text(n2) == num_text(mx));
                let lo = x.dup().ge(n1);
                let hi = x.dup().le(n2);
                assert(expr_text(lo) == bin_t(xt, BinOp::Ge, num_text(mn)));
                assert(expr_text(hi) == bin_t(xt, BinOp::Le, num_text(mx)));
                let cond = lo.and(hi);
                let mut msg = String::new();
                msg.append("value out of bounds [");
                push_num(&mut msg, &mn);
                msg.append(", ");
                push_num(&mut msg, &mx);
                msg.append("]");
                assert(msg@ =~= "value out of bounds ["@ + num_text(mn) + ", "@ + num_text(mx)
                    + "]"@);
                b.assert_cond(cond, msg.as_str());
            },
            (Some(mn), None) => {
                let n1 = Expr::Number(mn);
                assert(expr_text(n1) == num_text(mn));
                let cond = x.dup().ge(n1);
                let mut msg = String::new();
                msg.append("value out of bounds [");
                push_num(&mut msg, &mn);
                msg.append(", inf]");
                assert(msg@ =~= "value out of bounds ["@ + num_text(mn) + ", inf]"@);
                b.assert_cond(cond, msg.as_str());
            },
            (None, Some(mx)) => {
                let n2 = Expr::Number(mx);
                assert(expr_text(n2) == num_text(mx));
                let cond = x.dup().le(n2);
                let mut msg = String::new();
                msg.append("value out of bounds [-inf, ");
                push_num(&mut msg, &mx);
                msg.append("]");
                assert(msg@ =~= "value out of bounds [-inf, "@ + num_text(mx) + "]"@);
                b.assert_cond(cond, msg.as_str());
            },
            (None, None) => {
                assert(b.text() =~= old(b).text() + opt_t(active, range_check_t(xt, rg)));
            },
        }
    }
}

/// Appends the check that `x` is valid UTF-8, when `active`.
fn utf8_check(active: bool, b: &mut Builder, x: &Expr)
    ensures
        final(b).reg() == old(b).reg(),
        final(b).text() == old(b).text() + opt_t(active, utf8_check_t(expr_text(*x))),
{
    if active {
        let ghost xt = expr_text(*x);
        let args = vec![x.dup()];
        let ghost a = args@;
        let g = Expr::Global("utf8.len");
        assert(expr_text(g) == "utf8.len"@);
        let cond = g.call(args);
        assert(crate::mir::exprs_text(a) == xt);
        assert(expr_text(cond) == call1_t("utf8.len"@, xt));
        b.assert_cond(cond, "string is not valid utf8");
    }
}

} // verus!

verus! {

/// `local v = <exact>;`, or `local v = x;` followed by its range check and
/// its write, when the length is not fixed: the length of a value being
/// written.
pub open spec fn ser_length_s(s: Ser, c: CtxV, r: RegState, len: Length, x: Seq<char>) -> (Em, u16) {
    let (r1, v) = reg_alloc(r);
    match len.spec_exact() {
        Some(n) => (out(r1, init_t(v, nat_text(n as nat))), v),
        None => (
            out(
                r1,
                init_t(v, x) + opt_t(basic_checks(s.opts), range_check_t(vt(v), length_range(len)))
                    + check_t(c, nat_text(len.spec_kind().spec_size() as nat)) + write_k_t(
                    c,
                    FuncK::spec_from_kind(len.spec_kind()),
                    vt(v),
                ),
            ),
            v,
        ),
    }
}

/// Writing a number `x`.
pub open spec fn ser_number_t(s: Ser, c: CtxV, n: NumberType, x: Seq<char>) -> Seq<char> {
    opt_t(full_checks(s.opts), type_check_t(x, "number"@)) + opt_t(
        basic_checks(s.opts),
        range_check_t(x, n.range),
    ) + check_t(c, nat_text(n.kind.spec_size() as nat)) + write_k_t(
        c,
        FuncK::spec_from_kind(n.kind),
        x,
    )
}

/// Writing a vector `x`: its components one after the other.
pub open spec fn ser_vector_t(s: Ser, c: CtxV, v: VectorType, x: Seq<char>) -> Seq<char> {
    opt_t(full_checks(s.opts), type_check_t(x, "vector"@)) + ser_number_t(
        s,
        c,
        v.x,
        index_t(x, string_literal_text("x"@)),
    ) + ser_number_t(s, c, v.y, index_t(x, string_literal_text("y"@))) + match v.z {
        Some(z) => ser_number_t(s, c, z, index_t(x, string_literal_text("z"@))),
        None => seq![],
    }
}

/// Writing a string `x`: its length, then its bytes.
pub open spec fn ser_string_s(s: Ser, c: CtxV, utf8: bool, len: Length, x: Seq<char>, r: RegState) -> Em {
    let (l, v) = ser_length_s(s, c, r, len, len_t(x));
    out(
        reg_release(l.reg, v),
        opt_t(full_checks(s.opts), type_check_t(x, "string"@)) + opt_t(
            utf8 && basic_checks(s.opts),
            utf8_check_t(x),
        ) + l.text + check_t(c, vt(v)) + write_d_t(c, x, vt(v)),
    )
}

/// The code that writes the value `x` of type `t`, from registry state `r`,
/// with `m` the table variables of the enums of `t` in order.
pub open spec fn ser_s(s: Ser, c: CtxV, t: Type, x: Seq<char>, r: RegState, m: Seq<u16>) -> Em
    decreases t,
{
    match t {
        Type::Boolean(_) => out(
            r,
            opt_t(full_checks(s.opts), type_check_t(x, "boolean"@)) + check_t(c, nat_text(1))
                + write_k_t(c, FuncK::U8, index_t("bool"@, x)),
        ),
        Type::Number(n) => out(r, ser_number_t(s, c, n, x)),
        Type::Vector(v) => out(r, ser_vector_t(s, c, v, x)),
        Type::BinaryString(bs) => ser_string_s(s, c, false, bs.len, x, r),
        Type::Utf8String(us) => ser_string_s(s, c, true, us.len, x, r),
        Type::Array(a) => ser_array_s(s, c, a, x, r, m),
        Type::SetOf(st) => ser_set_s(s, c, st, x, r, m),
        Type::MapOf(mt) => ser_map_s(s, c, mt, x, r, m),
        Type::Enum(e) => ser_enum_s(s, c, e, x, r, m),
        Type::Struct(st) => ser_struct_s(s, c, st, x, r, m),
    }
}

/// An array: its length, then each item in a numeric `for` loop.
pub open spec fn ser_array_s(s: Ser, c: CtxV, a: ArrayType, x: Seq<char>, r: RegState, m: Seq<u16>) -> Em
    decreases a,
{
    let (l, n) = ser_length_s(s, c, r, a.len, len_t(x));
    let (r1, i) = reg_alloc(l.reg);
    let (r2, w) = reg_alloc(r1);
    let body = ser_s(s, c, *a.item, vt(w), r2, m);
    out(
        reg_release(reg_release(reg_release(body.reg, w), i), n),
        opt_t(full_checks(s.opts), type_check_t(x, "table"@)) + l.text + for_range_t(
            i,
            nat_text(1),
            vt(n),
            init_t(w, index_t(x, vt(i))) + body.text,
        ),
    )
}

/// The text before the loop over a set or a map: room for the count, and
/// the counter.
pub open spec fn count_head_t(c: CtxV, len: Length, p: u16, l: u16) -> Seq<char> {
    let size = nat_text(len.spec_kind().spec_size() as nat);
    check_t(c, size) + reserve_t(c, p, size) + init_t(l, nat_text(0))
}

/// The text after the loop over a set or a map: the count, checked and
/// written where room was kept for it.
pub open spec fn count_tail_t(s: Ser, c: CtxV, len: Length, p: u16, l: u16) -> Seq<char> {
    opt_t(basic_checks(s.opts), range_check_t(vt(l), length_range(len))) + write_reserved_t(
        c,
        FuncK::spec_from_kind(len.spec_kind()),
        vt(p),
        vt(l),
    )
}

/// `l = (l + 1);`
pub open spec fn count_step_t(l: u16) -> Seq<char> {
    assign_t(l, bin_t(vt(l), BinOp::Add, nat_text(1)))
}

/// A set: room for the count, each item in a generic `for` loop that
/// counts, then the count.
pub open spec fn ser_set_s(s: Ser, c: CtxV, st: SetType, x: Seq<char>, r: RegState, m: Seq<u16>) -> Em
    decreases st,
{
    let (r1, p) = reg_alloc(r);
    let (r2, l) = reg_alloc(r1);
    let (r3, idx) = reg_alloc(r2);
    let (r4, val) = reg_alloc(r3);
    let body = ser_s(s, c, *st.item, vt(idx), r4, m);
    out(
        reg_release(reg_release(reg_release(reg_release(body.reg, val), idx), l), p),
        opt_t(full_checks(s.opts), type_check_t(x, "table"@)) + count_head_t(c, st.len, p, l)
            + for_table_t(idx, val, x, count_step_t(l) + body.text) + count_tail_t(
            s,
            c,
            st.len,
            p,
            l,
        ),
    )
}

/// A map: as a set, with each key followed by its value.
pub open spec fn ser_map_s(s: Ser, c: CtxV, mt: MapType, x: Seq<char>, r: RegState, m: Seq<u16>) -> Em
    decreases mt,
{
    let (r1, p) = reg_alloc(r);
    let (r2, l) = reg_alloc(r1);
    let (r3, idx) = reg_alloc(r2);
    let (r4, val) = reg_alloc(r3);
    let bi = ser_s(s, c, *mt.index, vt(idx), r4, m);
    let bv = ser_s(s, c, *mt.value, vt(val), bi.reg, m.skip(enums_in(*mt.index) as int));
    out(
        reg_release(reg_release(reg_release(reg_release(bv.reg, val), idx), l), p),
        opt_t(full_checks(s.opts), type_check_t(x, "table"@)) + count_head_t(c, mt.len, p, l)
            + for_table_t(idx, val, x, count_step_t(l) + bi.text + bv.text) + count_tail_t(
            s,
            c,
            mt.len,
            p,
            l,
        ),
    )
}

/// An enum: the number of its variant, looked up in the table `m[0]`.
pub open spec fn ser_enum_s(s: Ser, c: CtxV, e: EnumType, x: Seq<char>, r: RegState, m: Seq<u16>) -> Em {
    let (r1, w) = reg_alloc(r);
    let k = e.number.kind;
    out(
        reg_release(reg_release(r1, w), m[0]),
        opt_t(full_checks(s.opts), type_check_t(x, "string"@)) + init_t(w, index_t(vt(m[0]), x))
            + opt_t(full_checks(s.opts), assert_text(vt(w), "enum value is not a valid variant"@))
            + check_t(c, nat_text(k.spec_size() as nat)) + write_k_t(
            c,
            FuncK::spec_from_kind(k),
            vt(w),
        ),
    )
}

/// A struct: its fields in order.
pub open spec fn ser_struct_s(s: Ser, c: CtxV, st: StructType, x: Seq<char>, r: RegState, m: Seq<u16>) -> Em
    decreases st,
{
    let f = ser_fields_s(s, c, st.fields@, x, r, m);
    out(f.reg, opt_t(full_checks(s.opts), type_check_t(x, "table"@)) + f.text)
}

/// The fields of a struct `x`, each taken into a variable first.
pub open spec fn ser_fields_s(
    s: Ser,
    c: CtxV,
    fs: Seq<(String, Type)>,
    x: Seq<char>,
    r: RegState,
    m: Seq<u16>,
) -> Em
    decreases fs,
{
    if fs.len() == 0 {
        out(r, seq![])
    } else {
        let p = fs.subrange(0, fs.len() - 1);
        let a = ser_fields_s(s, c, p, x, r, m);
        let (r1, w) = reg_alloc(a.reg);
        let f = ser_s(s, c, fs[fs.len() - 1].1, vt(w), r1, m.skip(fields_enums(p) as int));
        out(
            reg_release(f.reg, w),
            a.text + init_t(w, index_t(x, string_literal_text(fs[fs.len() - 1].0@))) + f.text,
        )
    }
}

} // verus!

verus! {

/// Appending `a` then `b` appends `a + b`.
#[verifier::spinoff_prover]
pub proof fn lemma_cat(t: Seq<char>, a: Seq<char>, b: Seq<char>)
    ensures
        (t + a) + b == t + (a + b),
{
    assert((t + a) + b =~= t + (a + b));
}

#[verifier::spinoff_prover]
pub proof fn lemma_skip_skip(s: Seq<u16>, a: int, b: int)
    requires
        0 <= a,
        0 <= b,
        a + b <= s.len(),
    ensures
        s.skip(a).skip(b) == s.skip(a + b),
{
    assert(s.skip(a).skip(b) =~= s.skip(a + b));
}

#[verifier::spinoff_prover]
proof fn lemma_ids_remove_front(s: Seq<TVar>)
    requires
        s.len() > 0,
    ensures
        ids(s.remove(0)) == ids(s).skip(1),
        ids(s)[0] == s[0].id(),
{
    assert(ids(s.remove(0)) =~= ids(s).skip(1));
}

#[verifier::spinoff_prover]
proof fn lemma_fields_enums_prefix(fs: Seq<(String, Type)>, k: int)
    requires
        0 <= k <= fs.len(),
    ensures
        fields_enums(fs.subrange(0, k)) <= fields_enums(fs),
        k < fs.len() ==> fields_enums(fs.subrange(0, k + 1)) == fields_enums(fs.subrange(0, k))
            + enums_in(fs[k].1),
    decreases fs.len(),
{
    if k < fs.len() {
        assert(fs.subrange(0, k + 1).subrange(0, k) =~= fs.subrange(0, k));
        lemma_fields_enums_prefix(fs.subrange(0, fs.len() - 1), k);
        assert(fs.subrange(0, fs.len() - 1).subrange(0, k) =~= fs.subrange(0, k));
        if k + 1 < fs.len() {
            lemma_fields_enums_prefix(fs.subrange(0, fs.len() - 1), k + 1);
            assert(fs.subrange(0, fs.len() - 1).subrange(0, k + 1) =~= fs.subrange(0, k + 1));
        } else {
            assert(fs.subrange(0, k + 1) =~= fs);
        }
    } else {
        assert(fs.subrange(0, k) =~= fs);
    }
}

#[verifier::spinoff_prover]
proof fn lemma_skip_zero(s: Seq<u16>)
    ensures
        s.skip(0) == s,
{
    assert(s.skip(0) =~= s);
}

impl Ser {
    fn full(&self) -> (r: bool)
        ensures
            r == full_checks(self.opts),
    {
        match self.opts.apicheck {
            ApiCheck::Full => true,
            _ => false,
        }
    }

    fn basic(&self) -> (r: bool)
        ensures
            r == basic_checks(self.opts),
    {
        match self.opts.apicheck {
            ApiCheck::Off => false,
            _ => true,
        }
    }

    /// Takes the length of a value being written into a new variable, and
    /// writes it unless it is fixed.
    fn length(&self, b: &mut Builder, ctx: &Ctx, len: Length, x: Expr) -> (v: TVar)
        ensures
            grew(old(b).em(), final(b).em(), ser_length_s(*self, ctx_v(ctx), old(b).reg(), len, expr_text(x)).0),
            v.id() == ser_length_s(*self, ctx_v(ctx), old(b).reg(), len, expr_text(x)).1,
    {
        match len.exact() {
            Some(n) => {
                let e = Expr::from_u64(n as u64);
                b.init(e)
            },
            None => {
                let ghost t0 = b.text();
                let v = b.init(x);
                let ghost t1 = b.text();
                let ve = v.expr();
                range_check(self.basic(), b, &ve, len.range());
                let k = len.kind();
                b.check(ctx, Expr::from_u64(k.size() as u64));
                b.write_k(ctx, FuncK::from_kind(k), v.expr());
                assert(b.text() =~= t0 + ser_length_s(*self, ctx_v(ctx), old(b).reg(), len, expr_text(x)).0.text);
                v
            },
        }
    }

    fn emit_number(&self, b: &mut Builder, ctx: &Ctx, n: &NumberType, from: Expr)
        ensures
            grew(old(b).em(), final(b).em(), out(old(b).reg(), ser_number_t(*self, ctx_v(ctx), *n, expr_text(from)))),
    {
        let ghost xt = expr_text(from);
        type_check(self.full(), b, &from, "number");
        range_check(self.basic(), b, &from, n.range);
        b.check(ctx, Expr::from_u64(n.kind.size() as u64));
        b.write_k(ctx, FuncK::from_kind(n.kind), from);
        assert(b.text() =~= old(b).text() + ser_number_t(*self, ctx_v(ctx), *n, xt));
    }

    fn emit_boolean(&self, b: &mut Builder, ctx: &Ctx, from: Expr)
        ensures
            grew(
                old(b).em(),
                final(b).em(),
                out(
                    old(b).reg(),
                    opt_t(full_checks(self.opts), type_check_t(expr_text(from), "boolean"@)) + check_t(
                        ctx_v(ctx),
                        nat_text(1),
                    ) + write_k_t(ctx_v(ctx), FuncK::U8, index_t("bool"@, expr_text(from))),
                ),
            ),
    {
        let ghost xt = expr_text(from);
        type_check(self.full(), b, &from, "boolean");
        let g = Expr::Global("bool");
        assert(expr_text(g) == "bool"@);
        let value = g.index(from);
        assert(expr_text(value) == index_t("bool"@, xt));
        b.check(ctx, Expr::from_u64(1));
        b.write_k(ctx, FuncK::U8, value);
        assert(b.text() =~= old(b).text() + (opt_t(full_checks(self.opts), type_check_t(xt, "boolean"@))
            + check_t(ctx_v(ctx), nat_text(1)) + write_k_t(ctx_v(ctx), FuncK::U8, index_t("bool"@, xt))));
    }

    fn emit_component(&self, b: &mut Builder, ctx: &Ctx, n: &NumberType, from: &Expr, name: &'static str)
        ensures
            grew(
                old(b).em(),
                final(b).em(),
                out(
                    old(b).reg(),
                    ser_number_t(*self, ctx_v(ctx), *n, index_t(expr_text(*from), string_literal_text(name@))),
                ),
            ),
    {
        let k = Expr::from_str(name);
        let e = from.dup().index(k);
        self.emit_number(b, ctx, n, e);
    }

    fn emit_vector(&self, b: &mut Builder, ctx: &Ctx, v: &VectorType, from: Expr)
        ensures
            grew(old(b).em(), final(b).em(), out(old(b).reg(), ser_vector_t(*self, ctx_v(ctx), *v, expr_text(from)))),
    {
        let ghost xt = expr_text(from);
        let ghost t0 = b.text();
        let ghost c = ctx_v(ctx);
        type_check(self.full(), b, &from, "vector");
        let ghost a = opt_t(full_checks(self.opts), type_check_t(xt, "vector"@));
        self.emit_component(b, ctx, &v.x, &from, "x");
        let ghost px = ser_number_t(*self, c, v.x, index_t(xt, string_literal_text("x"@)));
        proof { lemma_cat(t0, a, px); }
        self.emit_component(b, ctx, &v.y, &from, "y");
        let ghost py = ser_number_t(*self, c, v.y, index_t(xt, string_literal_text("y"@)));
        proof { lemma_cat(t0, a + px, py); }
        let ghost t3 = b.text();
        match &v.z {
            Some(z) => {
                self.emit_component(b, ctx, z, &from, "z");
                proof { lemma_cat(t0, a + px + py, ser_number_t(*self, c, *z, index_t(xt, string_literal_text("z"@)))); }
            },
            None => {
                assert(t3 + seq![] =~= t3);
                assert(a + px + py + seq![] =~= a + px + py);
            },
        }
    }

    fn emit_string(&self, b: &mut Builder, ctx: &Ctx, utf8: bool, len: Length, from: Expr)
        ensures
            grew(old(b).em(), final(b).em(), ser_string_s(*self, ctx_v(ctx), utf8, len, expr_text(from), old(b).reg())),
    {
        let ghost xt = expr_text(from);
        let ghost t0 = b.text();
        let ghost c = ctx_v(ctx);
        type_check(self.full(), b, &from, "string");
        let ghost a = opt_t(full_checks(self.opts), type_check_t(xt, "string"@));
        utf8_check(utf8 && self.basic(), b, &from);
        let ghost u = opt_t(utf8 && basic_checks(self.opts), utf8_check_t(xt));
        proof { lemma_cat(t0, a, u); }
        let n = from.dup().len();
        assert(expr_text(n) == len_t(xt));
        let v = self.length(b, ctx, len, n);
        let ghost l = ser_length_s(*self, c, old(b).reg(), len, len_t(xt)).0.text;
        proof { lemma_cat(t0, a + u, l); }
        b.check(ctx, v.expr());
        proof { lemma_cat(t0, a + u + l, check_t(c, vt(v.id()))); }
        b.write_d(ctx, FuncD::String, from, v.expr());
        proof { lemma_cat(t0, a + u + l + check_t(c, vt(v.id())), write_d_t(c, xt, vt(v.id()))); }
        b.free(v);
    }

    /// Emits the code that writes the value `from` of type `t`, taking the
    /// table variables of its enums from the front of `maps`.
    pub fn emit(&self, b: &mut Builder, ctx: &Ctx, t: &Type, from: Expr, maps: &mut Vec<TVar>)
        requires
            old(maps)@.len() >= enums_in(*t),
        ensures
            grew(
                old(b).em(),
                final(b).em(),
                ser_s(*self, ctx_v(ctx), *t, expr_text(from), old(b).reg(), ids(old(maps)@)),
            ),
            ids(final(maps)@) == ids(old(maps)@).skip(enums_in(*t) as int),
        decreases t, 2int,
    {
        proof {
            lemma_skip_zero(ids(maps@));
        }
        match t {
            Type::Boolean(_) => self.emit_boolean(b, ctx, from),
            Type::Number(n) => self.emit_number(b, ctx, n, from),
            Type::Vector(v) => self.emit_vector(b, ctx, v, from),
            Type::BinaryString(bs) => self.emit_string(b, ctx, false, bs.len, from),
            Type::Utf8String(us) => self.emit_string(b, ctx, true, us.len, from),
            Type::Array(a) => self.emit_array(b, ctx, a, from, maps),
            Type::SetOf(st) => self.emit_set(b, ctx, st, from, maps),
            Type::MapOf(mt) => self.emit_map(b, ctx, mt, from, maps),
            Type::Enum(e) => self.emit_enum(b, ctx, e, from, maps),
            Type::Struct(st) => self.emit_struct(b, ctx, st, from, maps),
        }
    }

    fn emit_array(&self, b: &mut Builder, ctx: &Ctx, a: &ArrayType, from: Expr, maps: &mut Vec<TVar>)
        requires
            old(maps)@.len() >= enums_in(*a.item),
        ensures
            grew(
                old(b).em(),
                final(b).em(),
                ser_array_s(*self, ctx_v(ctx), *a, expr_text(from), old(b).reg(), ids(old(maps)@)),
            ),
            ids(final(maps)@) == ids(old(maps)@).skip(enums_in(*a.item) as int),
        decreases a, 1int,
    {
        let ghost xt = expr_text(from);
        let ghost t0 = b.text();
        let ghost c = ctx_v(ctx);
        let ghost m = ids(maps@);
        type_check(self.full(), b, &from, "table");
        let ghost ta = opt_t(full_checks(self.opts), type_check_t(xt, "table"@));
        let ln = from.dup().len();
        assert(expr_text(ln) == len_t(xt));
        let ghost r1 = b.reg();
        let n = self.length(b, ctx, a.len, ln);
        let ghost tl = ser_length_s(*self, c, r1, a.len, len_t(xt)).0.text;
        proof {
            lemma_cat(t0, ta, tl);
        }
        let i = b.var();
        let mut inner = b.nest();
        let ie = i.expr();
        assert(expr_text(ie) == vt(i.id()));
        let src = from.dup().index(ie);
        assert(expr_text(src) == index_t(xt, vt(i.id())));
        let w = inner.init(src);
        let ghost tw = inner.text();
        let ghost r2 = inner.reg();
        self.emit(&mut inner, ctx, &a.item, w.expr(), maps);
        let ghost body = ser_s(*self, c, *a.item, vt(w.id()), r2, m);
        inner.free(w);
        let blk = b.unnest(inner);
        proof {
            assert(tw =~= init_t(w.id(), index_t(xt, vt(i.id()))));
        }
        let one = Expr::from_u64(1);
        let end = n.expr();
        let ghost lt = instrs_text_of(&blk);
        let ghost (te1, te2) = (expr_text(one), expr_text(end));
        let fr = Instr::ForRange { dst: i.var(), start: one, end, block: blk };
        assert(crate::mir::instr_text(fr) == for_range_t(i.id(), te1, te2, lt));
        b.instr(fr);
        proof {
            lemma_cat(t0, ta + tl, for_range_t(i.id(), nat_text(1), vt(n.id()), init_t(w.id(), index_t(xt, vt(i.id()))) + body.text));
        }
        b.free(i);
        b.free(n);
    }

    fn emit_set(&self, b: &mut Builder, ctx: &Ctx, st: &SetType, from: Expr, maps: &mut Vec<TVar>)
        requires
            old(maps)@.len() >= enums_in(*st.item),
        ensures
            grew(
                old(b).em(),
                final(b).em(),
                ser_set_s(*self, ctx_v(ctx), *st, expr_text(from), old(b).reg(), ids(old(maps)@)),
            ),
            ids(final(maps)@) == ids(old(maps)@).skip(enums_in(*st.item) as int),
        decreases st, 1int,
    {
        let ghost xt = expr_text(from);
        let ghost t0 = b.text();
        let ghost c = ctx_v(ctx);
        let ghost m = ids(maps@);
        type_check(self.full(), b, &from, "table");
        let ghost ta = opt_t(full_checks(self.opts), type_check_t(xt, "table"@));
        let (p, l) = self.count_head(b, ctx, st.len);
        proof {
            lemma_cat(t0, ta, count_head_t(c, st.len, p.id(), l.id()));
        }
        let idx = b.var();
        let val = b.var();
        let mut inner = b.nest();
        self.count_step(&mut inner, &l);
        let ghost r4 = inner.reg();
        self.emit(&mut inner, ctx, &st.item, idx.expr(), maps);
        let ghost body = ser_s(*self, c, *st.item, vt(idx.id()), r4, m);
        let blk = b.unnest(inner);
        proof {
            lemma_cat(seq![], count_step_t(l.id()), body.text);
            assert(seq![] + count_step_t(l.id()) =~= count_step_t(l.id()));
            assert(seq![] + (count_step_t(l.id()) + body.text) =~= count_step_t(l.id()) + body.text);
        }
        self.close_for_table(b, &idx, &val, from, blk);
        proof {
            lemma_cat(t0, ta + count_head_t(c, st.len, p.id(), l.id()), for_table_t(idx.id(), val.id(), xt, count_step_t(l.id()) + body.text));
        }
        b.free(val);
        b.free(idx);
        let ghost t5 = b.text();
        self.count_tail(b, ctx, st.len, &p, &l);
        proof {
            lemma_cat(t0, ta + count_head_t(c, st.len, p.id(), l.id()) + for_table_t(idx.id(), val.id(), xt, count_step_t(l.id()) + body.text), count_tail_t(*self, c, st.len, p.id(), l.id()));
        }
        b.free(l);
        b.free(p);
    }

    #[verifier::rlimit(40)]
    fn emit_map(&self, b: &mut Builder, ctx: &Ctx, mt: &MapType, from: Expr, maps: &mut Vec<TVar>)
        requires
            old(maps)@.len() >= enums_in(*mt.index) + enums_in(*mt.value),
        ensures
            grew(
                old(b).em(),
                final(b).em(),
                ser_map_s(*self, ctx_v(ctx), *mt, expr_text(from), old(b).reg(), ids(old(maps)@)),
            ),
            ids(final(maps)@) == ids(old(maps)@).skip((enums_in(*mt.index) + enums_in(*mt.value)) as int),
        decreases mt, 1int,
    {
        let ghost xt = expr_text(from);
        let ghost t0 = b.text();
        let ghost c = ctx_v(ctx);
        let ghost m = ids(maps@);
        type_check(self.full(), b, &from, "table");
        let ghost ta = opt_t(full_checks(self.opts), type_check_t(xt, "table"@));
        let (p, l) = self.count_head(b, ctx, mt.len);
        proof {
            lemma_cat(t0, ta, count_head_t(c, mt.len, p.id(), l.id()));
        }
        let idx = b.var();
        let val = b.var();
        let mut inner = b.nest();
        let ghost r4 = inner.reg();
        self.emit_pair(&mut inner, ctx, mt, &idx, &val, &l, maps);
        let ghost bi = ser_s(*self, c, *mt.index, vt(idx.id()), r4, m);
        let ghost bv = ser_s(*self, c, *mt.value, vt(val.id()), bi.reg, m.skip(enums_in(*mt.index) as int));
        let blk = b.unnest(inner);
        self.close_for_table(b, &idx, &val, from, blk);
        proof {
            lemma_cat(t0, ta + count_head_t(c, mt.len, p.id(), l.id()), for_table_t(idx.id(), val.id(), xt, count_step_t(l.id()) + bi.text + bv.text));
        }
        b.free(val);
        b.free(idx);
        self.count_tail(b, ctx, mt.len, &p, &l);
        proof {
            lemma_cat(t0, ta + count_head_t(c, mt.len, p.id(), l.id()) + for_table_t(idx.id(), val.id(), xt, count_step_t(l.id()) + bi.text + bv.text), count_tail_t(*self, c, mt.len, p.id(), l.id()));
        }
        b.free(l);
        b.free(p);
    }

    /// The body of the loop over a map: the count, the key, the value.
    fn emit_pair(
        &self,
        b: &mut Builder,
        ctx: &Ctx,
        mt: &MapType,
        idx: &TVar,
        val: &TVar,
        l: &TVar,
        maps: &mut Vec<TVar>,
    )
        requires
            old(b).text() == Seq::<char>::empty(),
            old(maps)@.len() >= enums_in(*mt.index) + enums_in(*mt.value),
        ensures
            ({
                let bi = ser_s(*self, ctx_v(ctx), *mt.index, vt(idx.id()), old(b).reg(), ids(old(maps)@));
                let bv = ser_s(
                    *self,
                    ctx_v(ctx),
                    *mt.value,
                    vt(val.id()),
                    bi.reg,
                    ids(old(maps)@).skip(enums_in(*mt.index) as int),
                );
                &&& final(b).reg() == bv.reg
                &&& final(b).text() == count_step_t(l.id()) + bi.text + bv.text
            }),
            ids(final(maps)@) == ids(old(maps)@).skip((enums_in(*mt.index) + enums_in(*mt.value)) as int),
        decreases mt, 0int,
    {
        let ghost c = ctx_v(ctx);
        let ghost m = ids(maps@);
        self.count_step(b, l);
        let ghost r4 = b.reg();
        assert(b.text() =~= count_step_t(l.id()));
        let ghost before = maps@;
        self.emit(b, ctx, &mt.index, idx.expr(), maps);
        proof {
            lemma_ids_len(before);
            lemma_ids_len(maps@);
        }
        let ghost bi = ser_s(*self, c, *mt.index, vt(idx.id()), r4, m);
        self.emit(b, ctx, &mt.value, val.expr(), maps);
        proof {
            lemma_skip_skip(m, enums_in(*mt.index) as int, enums_in(*mt.value) as int);
        }
    }

    /// Room for the count of a set or map, and the counter.
    fn count_head(&self, b: &mut Builder, ctx: &Ctx, len: Length) -> (r: (TVar, TVar))
        ensures
            (final(b).reg(), r.1.id()) == reg_alloc(reg_alloc(old(b).reg()).0),
            r.0.id() == reg_alloc(old(b).reg()).1,
            final(b).text() == old(b).text() + count_head_t(ctx_v(ctx), len, r.0.id(), r.1.id()),
    {
        let ghost t0 = b.text();
        let ghost c = ctx_v(ctx);
        let k = len.kind();
        let size = k.size() as u64;
        b.check(ctx, Expr::from_u64(size));
        let ghost st = nat_text(size as nat);
        let p = b.reserve(ctx, Expr::from_u64(size));
        proof {
            lemma_cat(t0, check_t(c, st), reserve_t(c, p.id(), st));
        }
        let l = b.init(Expr::from_u64(0));
        proof {
            lemma_cat(t0, check_t(c, st) + reserve_t(c, p.id(), st), init_t(l.id(), nat_text(0)));
        }
        (p, l)
    }

    /// `l = (l + 1);`
    fn count_step(&self, b: &mut Builder, l: &TVar)
        ensures
            final(b).reg() == old(b).reg(),
            final(b).text() == old(b).text() + count_step_t(l.id()),
    {
        let one = Expr::from_u64(1);
        let le = l.expr();
        assert(expr_text(le) == vt(l.id()));
        let e = le.add(one);
        assert(expr_text(e) == bin_t(vt(l.id()), BinOp::Add, nat_text(1)));
        b.assign(l, e);
    }

    /// The count, checked and written where room was kept for it.
    fn count_tail(&self, b: &mut Builder, ctx: &Ctx, len: Length, p: &TVar, l: &TVar)
        ensures
            final(b).reg() == old(b).reg(),
            final(b).text() == old(b).text() + count_tail_t(*self, ctx_v(ctx), len, p.id(), l.id()),
    {
        let ghost t0 = b.text();
        let le = l.expr();
        range_check(self.basic(), b, &le, len.range());
        b.write_reserved_k(ctx, FuncK::from_kind(len.kind()), p.expr(), l.expr());
        proof {
            lemma_cat(t0, opt_t(basic_checks(self.opts), range_check_t(vt(l.id()), length_range(len))), write_reserved_t(ctx_v(ctx), FuncK::spec_from_kind(len.spec_kind()), vt(p.id()), vt(l.id())));
        }
    }

    /// `for idx, val in table do <blk> end;`
    fn close_for_table(&self, b: &mut Builder, idx: &TVar, val: &TVar, table: Expr, blk: crate::mir::Block)
        ensures
            final(b).reg() == old(b).reg(),
            final(b).text() == old(b).text() + for_table_t(idx.id(), val.id(), expr_text(table), crate::mir::instrs_text(blk.instrs@)),
    {
        let ghost tt = expr_text(table);
        let ghost bt = crate::mir::instrs_text(blk.instrs@);
        let ft = Instr::ForTable { idx: idx.var(), val: val.var(), table, block: blk };
        assert(crate::mir::instr_text(ft) == for_table_t(idx.id(), val.id(), tt, bt));
        b.instr(ft);
    }

    fn emit_enum(&self, b: &mut Builder, ctx: &Ctx, e: &EnumType, from: Expr, maps: &mut Vec<TVar>)
        requires
            old(maps)@.len() >= 1,
        ensures
            grew(
                old(b).em(),
                final(b).em(),
                ser_enum_s(*self, ctx_v(ctx), *e, expr_text(from), old(b).reg(), ids(old(maps)@)),
            ),
            ids(final(maps)@) == ids(old(maps)@).skip(1),
    {
        let ghost xt = expr_text(from);
        let ghost t0 = b.text();
        let ghost c = ctx_v(ctx);
        proof {
            lemma_ids_remove_front(maps@);
        }
        type_check(self.full(), b, &from, "string");
        let ghost ta = opt_t(full_checks(self.opts), type_check_t(xt, "string"@));
        let map = maps.remove(0);
        let me = map.expr();
        assert(expr_text(me) == vt(map.id()));
        let src = me.index(from);
        assert(expr_text(src) == index_t(vt(map.id()), xt));
        let w = b.init(src);
        proof {
            lemma_cat(t0, ta, init_t(w.id(), index_t(vt(map.id()), xt)));
        }
        let ghost t2 = b.text();
        if self.full() {
            b.assert_cond(w.expr(), "enum value is not a valid variant");
        }
        let ghost ok = opt_t(full_checks(self.opts), assert_text(vt(w.id()), "enum value is not a valid variant"@));
        assert(b.text() == t2 + ok);
        proof {
            lemma_cat(t0, ta + init_t(w.id(), index_t(vt(map.id()), xt)), ok);
        }
        let k = e.number.kind;
        b.check(ctx, Expr::from_u64(k.size() as u64));
        proof {
            lemma_cat(t0, ta + init_t(w.id(), index_t(vt(map.id()), xt)) + ok, check_t(c, nat_text(k.spec_size() as nat)));
        }
        b.write_k(ctx, FuncK::from_kind(k), w.expr());
        proof {
            lemma_cat(t0, ta + init_t(w.id(), index_t(vt(map.id()), xt)) + ok + check_t(c, nat_text(k.spec_size() as nat)), write_k_t(c, FuncK::spec_from_kind(k), vt(w.id())));
        }
        b.free(w);
        b.free(map);
    }

    fn emit_struct(&self, b: &mut Builder, ctx: &Ctx, st: &StructType, from: Expr, maps: &mut Vec<TVar>)
        requires
            old(maps)@.len() >= fields_enums(st.fields@),
        ensures
            grew(
                old(b).em(),
                final(b).em(),
                ser_struct_s(*self, ctx_v(ctx), *st, expr_text(from), old(b).reg(), ids(old(maps)@)),
            ),
            ids(final(maps)@) == ids(old(maps)@).skip(fields_enums(st.fields@) as int),
        decreases st, 1int,
    {
        let ghost t0 = b.text();
        type_check(self.full(), b, &from, "table");
        let ghost ta = opt_t(full_checks(self.opts), type_check_t(expr_text(from), "table"@));
        let ghost r1 = b.reg();
        let ghost m = ids(maps@);
        self.emit_fields(b, ctx, &st.fields, &from, maps);
        proof {
            lemma_cat(t0, ta, ser_fields_s(*self, ctx_v(ctx), st.fields@, expr_text(from), r1, m).text);
        }
    }

    fn emit_fields(&self, b: &mut Builder, ctx: &Ctx, fs: &Vec<(String, Type)>, from: &Expr, maps: &mut Vec<TVar>)
        requires
            old(maps)@.len() >= fields_enums(fs@),
        ensures
            grew(
                old(b).em(),
                final(b).em(),
                ser_fields_s(*self, ctx_v(ctx), fs@, expr_text(*from), old(b).reg(), ids(old(maps)@)),
            ),
            ids(final(maps)@) == ids(old(maps)@).skip(fields_enums(fs@) as int),
        decreases fs, 1int,
    {
        let ghost xt = expr_text(*from);
        let ghost t0 = b.text();
        let ghost r0 = b.reg();
        let ghost c = ctx_v(ctx);
        let ghost m0 = ids(maps@);
        let ghost n0 = maps@.len();
        let mut i: usize = 0;
        proof {
            assert(fs@.subrange(0, 0) =~= Seq::<(String, Type)>::empty());
            lemma_skip_zero(m0);
            assert(t0 + seq![] =~= t0);
        }
        while i < fs.len()
            invariant
                i <= fs@.len(),
                b.reg() == ser_fields_s(*self, c, fs@.subrange(0, i as int), xt, r0, m0).reg,
                b.text() == t0 + ser_fields_s(*self, c, fs@.subrange(0, i as int), xt, r0, m0).text,
                ids(maps@) == m0.skip(fields_enums(fs@.subrange(0, i as int)) as int),
                fields_enums(fs@.subrange(0, i as int)) <= fields_enums(fs@),
                m0.len() == n0,
                n0 >= fields_enums(fs@),
                maps@.len() == n0 - fields_enums(fs@.subrange(0, i as int)),
                c == ctx_v(ctx),
                xt == expr_text(*from),
            decreases fs.len() - i,
        {
            proof {
                lemma_fields_enums_prefix(fs@, i as int);
                lemma_fields_enums_prefix(fs@, i as int + 1);
                assert(fs@.subrange(0, i + 1).subrange(0, i as int) =~= fs@.subrange(0, i as int));
            }
            let ghost pre = fs@.subrange(0, i as int);
            let ghost a = ser_fields_s(*self, c, pre, xt, r0, m0);
            let name = Expr::from_str(fs[i].0.as_str());
            let src = from.dup().index(name);
            assert(expr_text(src) == index_t(xt, string_literal_text(fs@[i as int].0@)));
            let w = b.init(src);
            let ghost r1 = b.reg();
            proof {
                lemma_cat(t0, a.text, init_t(w.id(), index_t(xt, string_literal_text(fs@[i as int].0@))));
            }
            let ghost before = maps@;
            self.emit(b, ctx, &fs[i].1, w.expr(), maps);
            proof {
                lemma_ids_len(before);
                lemma_ids_len(maps@);
            }
            let ghost f = ser_s(*self, c, fs@[i as int].1, vt(w.id()), r1, m0.skip(fields_enums(pre) as int));
            proof {
                lemma_cat(t0, a.text + init_t(w.id(), index_t(xt, string_literal_text(fs@[i as int].0@))), f.text);
                lemma_skip_skip(m0, fields_enums(pre) as int, enums_in(fs@[i as int].1) as int);
            }
            b.free(w);
            i += 1;
        }
        assert(fs@.subrange(0, fs@.len() as int) =~= fs@);
    }
}

/// The text of the instructions of a block.
pub open spec fn instrs_text_of(blk: &crate::mir::Block) -> Seq<char> {
    crate::mir::instrs_text(blk.instrs@)
}

} // verus!

verus! {

/// `{ }` as the generated code writes an empty table.
pub open spec fn empty_table_t() -> Seq<char> {
    "{ "@ + fields_text(Seq::<(Expr, Expr)>::empty()) + " }"@
}

/// `vector.create(x, y, z)`
pub open spec fn vec_t(x: Seq<char>, y: Seq<char>, z: Seq<char>) -> Seq<char> {
    "vector.create"@ + "("@ + x + ", "@ + y + ", "@ + z + ")"@
}

/// The kinds read as 32-bit values and masked to 24 bits.
pub open spec fn is_24_kind(k: NumberKind) -> bool {
    k == NumberKind::U24 || k == NumberKind::I24
}

/// The kinds that let NaN through.
pub open spec fn is_nan_kind(k: NumberKind) -> bool {
    k == NumberKind::NaNF32 || k == NumberKind::NaNF64
}

/// The low 24 bits of `x`: with `bit32.band` when it may be used, else
/// with `%`.
pub open spec fn mask24_t(native: bool, x: Seq<char>) -> Seq<char> {
    if native {
        "bit32.band"@ + "("@ + (x + ", "@ + nat_text(16777215)) + ")"@
    } else {
        bin_t(x, BinOp::Mod, nat_text(16777216))
    }
}

/// The length of a value being read: fixed, or read and checked.
pub open spec fn des_length_s(d: Des, c: CtxV, r: RegState, len: Length) -> (Em, u16) {
    let (r1, v) = reg_alloc(r);
    match len.spec_exact() {
        Some(n) => (out(r1, init_t(v, nat_text(n as nat))), v),
        None => (
            out(
                r1,
                read_k_t(c, FuncK::spec_from_kind(len.spec_kind()), v) + opt_t(
                    d.check,
                    range_check_t(vt(v), length_range(len)),
                ),
            ),
            v,
        ),
    }
}

/// Reading a number: the value, checked, masked to 24 bits for the 24-bit
/// kinds.
pub open spec fn des_number_s(d: Des, c: CtxV, n: NumberType, r: RegState) -> (Em, u16) {
    let (r1, v) = reg_alloc(r);
    let head = read_k_t(c, FuncK::spec_from_kind(n.kind), v) + opt_t(
        d.check,
        range_check_t(vt(v), n.range),
    ) + opt_t(
        d.check && !is_nan_kind(n.kind),
        assert_text(bin_t(vt(v), BinOp::Eq, vt(v)), "value is nan"@),
    );
    if is_24_kind(n.kind) {
        let (r2, w) = reg_alloc(r1);
        (out(reg_release(r2, v), head + init_t(w, mask24_t(d.native, vt(v)))), w)
    } else {
        (out(r1, head), v)
    }
}

/// Reading a vector: its components, then the vector.
pub open spec fn des_vector_s(d: Des, c: CtxV, v: VectorType, r: RegState) -> (Em, u16) {
    let (a, x) = des_number_s(d, c, v.x, r);
    let (b, y) = des_number_s(d, c, v.y, a.reg);
    match v.z {
        Some(zt) => {
            let (e, z) = des_number_s(d, c, zt, b.reg);
            let (r3, w) = reg_alloc(e.reg);
            (
                out(
                    reg_release(reg_release(reg_release(r3, z), y), x),
                    a.text + b.text + e.text + init_t(w, vec_t(vt(x), vt(y), vt(z))),
                ),
                w,
            )
        },
        None => {
            let (r3, w) = reg_alloc(b.reg);
            (
                out(
                    reg_release(reg_release(r3, y), x),
                    a.text + b.text + init_t(w, vec_t(vt(x), vt(y), nat_text(0))),
                ),
                w,
            )
        },
    }
}

/// Reading a string: its length, then its bytes.
pub open spec fn des_string_s(d: Des, c: CtxV, utf8: bool, len: Length, r: RegState) -> (Em, u16) {
    let (l, n) = des_length_s(d, c, r, len);
    let (r2, s) = reg_alloc(l.reg);
    (
        out(
            reg_release(r2, n),
            l.text + read_d_t(c, vt(n), s) + opt_t(utf8 && d.check, utf8_check_t(vt(s))),
        ),
        s,
    )
}

/// The code that reads a value of type `t` into a new variable, from
/// registry state `r`, with `m` the table variables of the enums of `t` in
/// order; and that variable.
pub open spec fn des_s(d: Des, c: CtxV, t: Type, r: RegState, m: Seq<u16>) -> (Em, u16)
    decreases t,
{
    match t {
        Type::Boolean(_) => {
            let (r1, v) = reg_alloc(r);
            let (r2, w) = reg_alloc(r1);
            (
                out(
                    reg_release(r2, v),
                    read_k_t(c, FuncK::U8, v) + init_t(w, index_t("bool"@, vt(v))),
                ),
                w,
            )
        },
        Type::Number(n) => des_number_s(d, c, n, r),
        Type::Vector(v) => des_vector_s(d, c, v, r),
        Type::BinaryString(bs) => des_string_s(d, c, false, bs.len, r),
        Type::Utf8String(us) => des_string_s(d, c, true, us.len, r),
        Type::Array(a) => des_array_s(d, c, a, r, m),
        Type::SetOf(st) => des_set_s(d, c, st, r, m),
        Type::MapOf(mt) => des_map_s(d, c, mt, r, m),
        Type::Enum(e) => des_enum_s(d, c, e, r, m),
        Type::Struct(st) => des_struct_s(d, c, st, r, m),
    }
}

/// An array: its length, a table of that size, each item in a numeric
/// `for` loop.
pub open spec fn des_array_s(d: Des, c: CtxV, a: ArrayType, r: RegState, m: Seq<u16>) -> (Em, u16)
    decreases a,
{
    let (l, n) = des_length_s(d, c, r, a.len);
    let (r2, arr) = reg_alloc(l.reg);
    let (r3, i) = reg_alloc(r2);
    let (body, v) = des_s(d, c, *a.item, r3, m);
    (
        out(
            reg_release(reg_release(reg_release(body.reg, v), i), n),
            l.text + init_t(arr, call1_t("table.create"@, vt(n))) + for_range_t(
                i,
                nat_text(1),
                vt(n),
                body.text + assign_index_t(arr, vt(i), vt(v)),
            ),
        ),
        arr,
    )
}

/// The count of a set or map, read and checked.
pub open spec fn count_read_t(d: Des, c: CtxV, len: Length, n: u16) -> Seq<char> {
    read_k_t(c, FuncK::spec_from_kind(len.spec_kind()), n) + opt_t(
        d.check,
        range_check_t(vt(n), length_range(len)),
    )
}

/// A set: its count, an empty table, each item set to `true`.
pub open spec fn des_set_s(d: Des, c: CtxV, st: SetType, r: RegState, m: Seq<u16>) -> (Em, u16)
    decreases st,
{
    let (r1, n) = reg_alloc(r);
    let (r2, set) = reg_alloc(r1);
    let (r3, i) = reg_alloc(r2);
    let (body, v) = des_s(d, c, *st.item, r3, m);
    (
        out(
            reg_release(reg_release(reg_release(body.reg, v), i), n),
            count_read_t(d, c, st.len, n) + init_t(set, empty_table_t()) + for_range_t(
                i,
                nat_text(1),
                vt(n),
                body.text + assign_index_t(set, vt(v), "true"@),
            ),
        ),
        set,
    )
}

/// A map: its count, an empty table, each key then its value.
pub open spec fn des_map_s(d: Des, c: CtxV, mt: MapType, r: RegState, m: Seq<u16>) -> (Em, u16)
    decreases mt,
{
    let (r1, n) = reg_alloc(r);
    let (r2, map) = reg_alloc(r1);
    let (r3, i) = reg_alloc(r2);
    let (bi, k) = des_s(d, c, *mt.index, r3, m);
    let (bv, v) = des_s(d, c, *mt.value, bi.reg, m.skip(enums_in(*mt.index) as int));
    (
        out(
            reg_release(reg_release(reg_release(reg_release(bv.reg, v), k), i), n),
            count_read_t(d, c, mt.len, n) + init_t(map, empty_table_t()) + for_range_t(
                i,
                nat_text(1),
                vt(n),
                bi.text + bv.text + assign_index_t(map, vt(k), vt(v)),
            ),
        ),
        map,
    )
}

/// The range of the numbers of the variants of an enum.
pub open spec fn variants_range(e: EnumType) -> Range {
    Range {
        min: Some(Num::Finite { neg: false, digits: 1, exp: 0 }),
        max: Some(Num::Finite { neg: false, digits: e.variants@.len() as u64, exp: 0 }),
    }
}

/// An enum: its number, checked, looked up in the table `m[0]`.
pub open spec fn des_enum_s(d: Des, c: CtxV, e: EnumType, r: RegState, m: Seq<u16>) -> (Em, u16) {
    let (r1, v) = reg_alloc(r);
    let (r2, w) = reg_alloc(r1);
    (
        out(
            reg_release(reg_release(r2, v), m[0]),
            read_k_t(c, FuncK::spec_from_kind(e.number.kind), v) + opt_t(
                d.check,
                range_check_t(vt(v), variants_range(e)),
            ) + init_t(w, index_t(vt(m[0]), vt(v))),
        ),
        w,
    )
}

/// `["name"] = v, ...` for the fields of a struct and the variables read.
pub open spec fn name_vars_t(fs: Seq<(String, Type)>, vs: Seq<u16>) -> Seq<char>
    decreases fs.len(),
{
    if fs.len() == 0 {
        seq![]
    } else if fs.len() == 1 {
        "["@ + string_literal_text(fs[0].0@) + "] = "@ + vt(vs[0])
    } else {
        name_vars_t(fs.drop_last(), vs.take(fs.len() - 1)) + ", "@ + "["@ + string_literal_text(
            fs.last().0@,
        ) + "] = "@ + vt(vs[fs.len() - 1])
    }
}

/// A struct: its fields read in order, then the table of them; the
/// variables of the fields are handed back first to last.
pub open spec fn des_struct_s(d: Des, c: CtxV, st: StructType, r: RegState, m: Seq<u16>) -> (Em, u16)
    decreases st,
{
    let (f, vs) = des_fields_s(d, c, st.fields@, r, m);
    let (r1, w) = reg_alloc(f.reg);
    (
        out(
            release_all(r1, vs),
            f.text + init_t(w, "{ "@ + name_vars_t(st.fields@, vs) + " }"@),
        ),
        w,
    )
}

/// The fields of a struct read in order, and their variables.
pub open spec fn des_fields_s(d: Des, c: CtxV, fs: Seq<(String, Type)>, r: RegState, m: Seq<u16>) -> (
    Em,
    Seq<u16>,
)
    decreases fs,
{
    if fs.len() == 0 {
        (out(r, seq![]), seq![])
    } else {
        let p = fs.subrange(0, fs.len() - 1);
        let (a, vs) = des_fields_s(d, c, p, r, m);
        let (f, v) = des_s(d, c, fs[fs.len() - 1].1, a.reg, m.skip(fields_enums(p) as int));
        (out(f.reg, a.text + f.text), vs.push(v))
    }
}

/// `["a"] = 1, ["b"] = 2, ...`: the table from variant names to numbers.
pub open spec fn variant_keys_t(vs: Seq<String>) -> Seq<char>
    decreases vs.len(),
{
    if vs.len() == 0 {
        seq![]
    } else if vs.len() == 1 {
        "["@ + string_literal_text(vs[0]@) + "] = "@ + nat_text(1)
    } else {
        variant_keys_t(vs.drop_last()) + ", "@ + "["@ + string_literal_text(vs.last()@) + "] = "@
            + nat_text(vs.len())
    }
}

/// `[1] = "a", [2] = "b", ...`: the table from numbers to variant names.
pub open spec fn variant_vals_t(vs: Seq<String>) -> Seq<char>
    decreases vs.len(),
{
    if vs.len() == 0 {
        seq![]
    } else if vs.len() == 1 {
        "["@ + nat_text(1) + "] = "@ + string_literal_text(vs[0]@)
    } else {
        variant_vals_t(vs.drop_last()) + ", "@ + "["@ + nat_text(vs.len()) + "] = "@
            + string_literal_text(vs.last()@)
    }
}

/// Setting up the tables of the enums of `t`, in order, for writing
/// (`ser`) or reading; and their variables.
pub open spec fn prep_s(t: Type, r: RegState, ser: bool) -> (Em, Seq<u16>)
    decreases t,
{
    match t {
        Type::Array(a) => prep_s(*a.item, r, ser),
        Type::SetOf(st) => prep_s(*st.item, r, ser),
        Type::MapOf(mt) => {
            let (a, ia) = prep_s(*mt.index, r, ser);
            let (b, ib) = prep_s(*mt.value, a.reg, ser);
            (out(b.reg, a.text + b.text), ia + ib)
        },
        Type::Enum(e) => {
            let (r1, v) = reg_alloc(r);
            (
                out(
                    r1,
                    init_t(
                        v,
                        "{ "@ + (if ser {
                            variant_keys_t(e.variants@)
                        } else {
                            variant_vals_t(e.variants@)
                        }) + " }"@,
                    ),
                ),
                seq![v],
            )
        },
        Type::Struct(st) => fields_prep_s(st.fields@, r, ser),
        _ => (out(r, seq![]), seq![]),
    }
}

pub open spec fn fields_prep_s(fs: Seq<(String, Type)>, r: RegState, ser: bool) -> (Em, Seq<u16>)
    decreases fs,
{
    if fs.len() == 0 {
        (out(r, seq![]), seq![])
    } else {
        let (a, ia) = fields_prep_s(fs.subrange(0, fs.len() - 1), r, ser);
        let (b, ib) = prep_s(fs[fs.len() - 1].1, a.reg, ser);
        (out(b.reg, a.text + b.text), ia + ib)
    }
}

/// The tables set up for a list of types, one type after the other.
pub open spec fn types_prep_s(ts: Seq<Type>, r: RegState, ser: bool) -> (Em, Seq<u16>)
    decreases ts.len(),
{
    if ts.len() == 0 {
        (out(r, seq![]), seq![])
    } else {
        let (a, ia) = types_prep_s(ts.drop_last(), r, ser);
        let (b, ib) = prep_s(ts.last(), a.reg, ser);
        (out(b.reg, a.text + b.text), ia + ib)
    }
}

} // verus!

verus! {

/// There is one table for each enum of the type.
#[verifier::spinoff_prover]
pub proof fn lemma_prep_count(t: Type, r: RegState, ser: bool)
    ensures
        prep_s(t, r, ser).1.len() == enums_in(t),
    decreases t,
{
    match t {
        Type::Array(a) => lemma_prep_count(*a.item, r, ser),
        Type::SetOf(st) => lemma_prep_count(*st.item, r, ser),
        Type::MapOf(mt) => {
            lemma_prep_count(*mt.index, r, ser);
            lemma_prep_count(*mt.value, prep_s(*mt.index, r, ser).0.reg, ser);
        },
        Type::Struct(st) => lemma_fields_prep_count(st.fields@, r, ser),
        _ => {},
    }
}

#[verifier::spinoff_prover]
proof fn lemma_fields_prep_count(fs: Seq<(String, Type)>, r: RegState, ser: bool)
    ensures
        fields_prep_s(fs, r, ser).1.len() == fields_enums(fs),
    decreases fs,
{
    if fs.len() > 0 {
        let p = fs.subrange(0, fs.len() - 1);
        lemma_fields_prep_count(p, r, ser);
        lemma_prep_count(fs[fs.len() - 1].1, fields_prep_s(p, r, ser).0.reg, ser);
    }
}

/// The table from variant names to their numbers (`ser`), or back.
fn variant_table(vs: &Vec<String>, ser: bool) -> (e: Expr)
    ensures
        expr_text(e) == "{ "@ + (if ser {
            variant_keys_t(vs@)
        } else {
            variant_vals_t(vs@)
        }) + " }"@,
{
    let mut fields: Vec<(Expr, Expr)> = Vec::new();
    let mut i: usize = 0;
    proof {
        assert(vs@.take(0) =~= Seq::<String>::empty());
    }
    while i < vs.len()
        invariant
            i <= vs@.len(),
            fields@.len() == i,
            fields_text(fields@) == (if ser {
                variant_keys_t(vs@.take(i as int))
            } else {
                variant_vals_t(vs@.take(i as int))
            }),
        decreases vs.len() - i,
    {
        let name = Expr::from_str(vs[i].as_str());
        let num = Expr::from_u64(i as u64 + 1);
        let ghost old_f = fields@;
        if ser {
            fields.push((name, num));
        } else {
            fields.push((num, name));
        }
        proof {
            assert(fields@.subrange(0, fields@.len() - 1) =~= old_f);
            assert(vs@.take(i + 1).drop_last() =~= vs@.take(i as int));
            assert(vs@.take(i + 1).last() == vs@[i as int]);
            if i == 0 {
                assert(vs@.take(1)[0] == vs@[0]);
            }
        }
        i += 1;
    }
    assert(vs@.take(vs@.len() as int) =~= vs@);
    Expr::Table(fields)
}

/// Sets up the tables of the enums of `t`, in order, and adds their
/// variables to `maps`.
fn prep(b: &mut Builder, t: &Type, ser: bool, maps: &mut Vec<TVar>)
    ensures
        grew(old(b).em(), final(b).em(), prep_s(*t, old(b).reg(), ser).0),
        ids(final(maps)@) == ids(old(maps)@) + prep_s(*t, old(b).reg(), ser).1,
    decreases t, 1int,
{
    let ghost t0 = b.text();
    let ghost m0 = ids(maps@);
    match t {
        Type::Array(a) => prep(b, &a.item, ser, maps),
        Type::SetOf(st) => prep(b, &st.item, ser, maps),
        Type::MapOf(mt) => {
            let ghost r0 = b.reg();
            prep(b, &mt.index, ser, maps);
            let ghost (a, ia) = prep_s(*mt.index, r0, ser);
            prep(b, &mt.value, ser, maps);
            let ghost (bb, ib) = prep_s(*mt.value, a.reg, ser);
            proof {
                lemma_cat(t0, a.text, bb.text);
                assert(m0 + ia + ib =~= m0 + (ia + ib));
            }
        },
        Type::Enum(e) => {
            let v = b.init(variant_table(&e.variants, ser));
            let ghost before = maps@;
            maps.push(v);
            proof {
                lemma_ids_push(before, v);
            }
        },
        Type::Struct(st) => prep_fields(b, &st.fields, ser, maps),
        _ => {
            assert(t0 + seq![] =~= t0);
            assert(m0 + seq![] =~= m0);
        },
    }
}

fn prep_fields(b: &mut Builder, fs: &Vec<(String, Type)>, ser: bool, maps: &mut Vec<TVar>)
    ensures
        grew(old(b).em(), final(b).em(), fields_prep_s(fs@, old(b).reg(), ser).0),
        ids(final(maps)@) == ids(old(maps)@) + fields_prep_s(fs@, old(b).reg(), ser).1,
    decreases fs, 0int,
{
    let ghost t0 = b.text();
    let ghost r0 = b.reg();
    let ghost m0 = ids(maps@);
    let mut i: usize = 0;
    proof {
        assert(fs@.subrange(0, 0) =~= Seq::<(String, Type)>::empty());
        assert(t0 + seq![] =~= t0);
        assert(m0 + seq![] =~= m0);
    }
    while i < fs.len()
        invariant
            i <= fs@.len(),
            b.reg() == fields_prep_s(fs@.subrange(0, i as int), r0, ser).0.reg,
            b.text() == t0 + fields_prep_s(fs@.subrange(0, i as int), r0, ser).0.text,
            ids(maps@) == m0 + fields_prep_s(fs@.subrange(0, i as int), r0, ser).1,
        decreases fs.len() - i,
    {
        let ghost (a, ia) = fields_prep_s(fs@.subrange(0, i as int), r0, ser);
        prep(b, &fs[i].1, ser, maps);
        let ghost (bb, ib) = prep_s(fs@[i as int].1, a.reg, ser);
        proof {
            assert(fs@.subrange(0, i + 1).subrange(0, i as int) =~= fs@.subrange(0, i as int));
            lemma_cat(t0, a.text, bb.text);
            assert(m0 + ia + ib =~= m0 + (ia + ib));
        }
        i += 1;
    }
    assert(fs@.subrange(0, fs@.len() as int) =~= fs@);
}

impl Ser {
    /// Sets up the tables that writing values of type `t` needs: one per
    /// enum, mapping variant names to numbers. Their variables are added to
    /// `maps`, in order.
    pub fn prep(&self, b: &mut Builder, t: &Type, maps: &mut Vec<TVar>)
        ensures
            grew(old(b).em(), final(b).em(), prep_s(*t, old(b).reg(), true).0),
            ids(final(maps)@) == ids(old(maps)@) + prep_s(*t, old(b).reg(), true).1,
            prep_s(*t, old(b).reg(), true).1.len() == enums_in(*t),
    {
        proof {
            lemma_prep_count(*t, b.reg(), true);
        }
        prep(b, t, true, maps);
    }
}

impl Des {
    /// Sets up the tables that reading values of type `t` needs: one per
    /// enum, mapping numbers to variant names. Their variables are added to
    /// `maps`, in order.
    pub fn prep(&self, b: &mut Builder, t: &Type, maps: &mut Vec<TVar>)
        ensures
            grew(old(b).em(), final(b).em(), prep_s(*t, old(b).reg(), false).0),
            ids(final(maps)@) == ids(old(maps)@) + prep_s(*t, old(b).reg(), false).1,
            prep_s(*t, old(b).reg(), false).1.len() == enums_in(*t),
    {
        proof {
            lemma_prep_count(*t, b.reg(), false);
        }
        prep(b, t, false, maps);
    }
}

} // verus!

verus! {

impl Des {
    /// Reads the length of a value into a new variable, unless it is fixed.
    fn length(&self, b: &mut Builder, ctx: &Ctx, len: Length) -> (v: TVar)
        ensures
            grew(old(b).em(), final(b).em(), des_length_s(*self, ctx_v(ctx), old(b).reg(), len).0),
            v.id() == des_length_s(*self, ctx_v(ctx), old(b).reg(), len).1,
    {
        match len.exact() {
            Some(n) => b.init(Expr::from_u64(n as u64)),
            None => {
                let ghost t0 = b.text();
                let v = b.read_k(ctx, FuncK::from_kind(len.kind()));
                let ve = v.expr();
                range_check(self.check, b, &ve, len.range());
                proof {
                    lemma_cat(
                        t0,
                        read_k_t(ctx_v(ctx), FuncK::spec_from_kind(len.spec_kind()), v.id()),
                        opt_t(self.check, range_check_t(vt(v.id()), length_range(len))),
                    );
                }
                v
            },
        }
    }

    fn number(&self, b: &mut Builder, ctx: &Ctx, n: &NumberType) -> (v: TVar)
        ensures
            grew(old(b).em(), final(b).em(), des_number_s(*self, ctx_v(ctx), *n, old(b).reg()).0),
            v.id() == des_number_s(*self, ctx_v(ctx), *n, old(b).reg()).1,
    {
        let ghost t0 = b.text();
        let ghost c = ctx_v(ctx);
        let v = b.read_k(ctx, FuncK::from_kind(n.kind));
        let ghost p1 = read_k_t(c, FuncK::spec_from_kind(n.kind), v.id());
        let ve = v.expr();
        range_check(self.check, b, &ve, n.range);
        let ghost p2 = opt_t(self.check, range_check_t(vt(v.id()), n.range));
        proof {
            lemma_cat(t0, p1, p2);
        }
        let nan = match n.kind {
            NumberKind::NaNF32 | NumberKind::NaNF64 => true,
            _ => false,
        };
        let ghost t2 = b.text();
        if self.check && !nan {
            let l = v.expr();
            let r = v.expr();
            assert(expr_text(l) == vt(v.id()));
            let cond = l.eq(r);
            b.assert_cond(cond, "value is nan");
        }
        let ghost p3 = opt_t(
            self.check && !is_nan_kind(n.kind),
            assert_text(bin_t(vt(v.id()), BinOp::Eq, vt(v.id())), "value is nan"@),
        );
        assert(b.text() == t2 + p3);
        proof {
            lemma_cat(t0, p1 + p2, p3);
        }
        match n.kind {
            NumberKind::U24 | NumberKind::I24 => {
                let ghost vt_ = vt(v.id());
                let src = if self.native {
                    let x = v.expr();
                    let m = Expr::from_u64(16777215);
                    assert(expr_text(x) == vt_);
                    let ghost gx = x;
                    let ghost gm = m;
                    assert(expr_text(gm) == nat_text(16777215));
                    let args = vec![x, m];
                    let ghost a = args@;
                    assert(a == seq![gx, gm]);
                    let g = Expr::Global("bit32.band");
                    assert(expr_text(g) == "bit32.band"@);
                    let e = g.call(args);
                    proof {
                        assert(a.subrange(0, 1) =~= seq![gx]);
                        assert(crate::mir::exprs_text(seq![gx]) == vt_);
                        assert(crate::mir::exprs_text(a) == vt_ + ", "@ + nat_text(16777215));
                    }
                    e
                } else {
                    let x = v.expr();
                    assert(expr_text(x) == vt_);
                    x.mud(Expr::from_u64(16777216))
                };
                assert(expr_text(src) == mask24_t(self.native, vt_));
                let w = b.init(src);
                proof {
                    lemma_cat(t0, p1 + p2 + p3, init_t(w.id(), mask24_t(self.native, vt_)));
                }
                b.free(v);
                w
            },
            _ => v,
        }
    }

    fn vector(&self, b: &mut Builder, ctx: &Ctx, v: &VectorType) -> (r: TVar)
        ensures
            grew(old(b).em(), final(b).em(), des_vector_s(*self, ctx_v(ctx), *v, old(b).reg()).0),
            r.id() == des_vector_s(*self, ctx_v(ctx), *v, old(b).reg()).1,
    {
        let ghost t0 = b.text();
        let ghost c = ctx_v(ctx);
        let ghost r0 = b.reg();
        let x = self.number(b, ctx, &v.x);
        let ghost a = des_number_s(*self, c, v.x, r0).0;
        let y = self.number(b, ctx, &v.y);
        let ghost bb = des_number_s(*self, c, v.y, a.reg).0;
        proof {
            lemma_cat(t0, a.text, bb.text);
        }
        match &v.z {
            Some(zt) => {
                let z = self.number(b, ctx, zt);
                let ghost e = des_number_s(*self, c, *zt, bb.reg).0;
                proof {
                    lemma_cat(t0, a.text + bb.text, e.text);
                }
                let xe = x.expr();
                let ye = y.expr();
                let ze = z.expr();
                assert(expr_text(xe) == vt(x.id()));
                assert(expr_text(ye) == vt(y.id()));
                assert(expr_text(ze) == vt(z.id()));
                let w = b.init(Expr::vector(xe, ye, ze));
                proof {
                    lemma_cat(t0, a.text + bb.text + e.text, init_t(w.id(), vec_t(vt(x.id()), vt(y.id()), vt(z.id()))));
                }
                b.free(z);
                b.free(y);
                b.free(x);
                w
            },
            None => {
                let xe = x.expr();
                let ye = y.expr();
                assert(expr_text(xe) == vt(x.id()));
                assert(expr_text(ye) == vt(y.id()));
                let w = b.init(Expr::vector(xe, ye, Expr::from_u64(0)));
                proof {
                    lemma_cat(t0, a.text + bb.text, init_t(w.id(), vec_t(vt(x.id()), vt(y.id()), nat_text(0))));
                }
                b.free(y);
                b.free(x);
                w
            },
        }
    }

    fn string(&self, b: &mut Builder, ctx: &Ctx, utf8: bool, len: Length) -> (s: TVar)
        ensures
            grew(old(b).em(), final(b).em(), des_string_s(*self, ctx_v(ctx), utf8, len, old(b).reg()).0),
            s.id() == des_string_s(*self, ctx_v(ctx), utf8, len, old(b).reg()).1,
    {
        let ghost t0 = b.text();
        let ghost c = ctx_v(ctx);
        let ghost r0 = b.reg();
        let n = self.length(b, ctx, len);
        let ghost l = des_length_s(*self, c, r0, len).0;
        let ne = n.expr();
        assert(expr_text(ne) == vt(n.id()));
        let s = b.read_d(ctx, FuncD::String, ne);
        proof {
            lemma_cat(t0, l.text, read_d_t(c, vt(n.id()), s.id()));
        }
        let se = s.expr();
        utf8_check(utf8 && self.check, b, &se);
        proof {
            lemma_cat(t0, l.text + read_d_t(c, vt(n.id()), s.id()), opt_t(utf8 && self.check, utf8_check_t(vt(s.id()))));
        }
        b.free(n);
        s
    }

    /// Emits the code that reads a value of type `t` into a new variable,
    /// taking the table variables of its enums from the front of `maps`;
    /// returns the variable.
    pub fn emit(&self, b: &mut Builder, ctx: &Ctx, t: &Type, maps: &mut Vec<TVar>) -> (v: TVar)
        requires
            old(maps)@.len() >= enums_in(*t),
        ensures
            grew(old(b).em(), final(b).em(), des_s(*self, ctx_v(ctx), *t, old(b).reg(), ids(old(maps)@)).0),
            v.id() == des_s(*self, ctx_v(ctx), *t, old(b).reg(), ids(old(maps)@)).1,
            ids(final(maps)@) == ids(old(maps)@).skip(enums_in(*t) as int),
        decreases t, 2int,
    {
        proof {
            lemma_skip_zero(ids(maps@));
        }
        match t {
            Type::Boolean(_) => {
                let ghost t0 = b.text();
                let v = b.read_k(ctx, FuncK::U8);
                let g = Expr::Global("bool");
                assert(expr_text(g) == "bool"@);
                let ve = v.expr();
                assert(expr_text(ve) == vt(v.id()));
                let src = g.index(ve);
                let w = b.init(src);
                proof {
                    lemma_cat(t0, read_k_t(ctx_v(ctx), FuncK::U8, v.id()), init_t(w.id(), index_t("bool"@, vt(v.id()))));
                }
                b.free(v);
                w
            },
            Type::Number(n) => self.number(b, ctx, n),
            Type::Vector(v) => self.vector(b, ctx, v),
            Type::BinaryString(bs) => self.string(b, ctx, false, bs.len),
            Type::Utf8String(us) => self.string(b, ctx, true, us.len),
            Type::Array(a) => self.array(b, ctx, a, maps),
            Type::SetOf(st) => self.set(b, ctx, st, maps),
            Type::MapOf(mt) => self.map(b, ctx, mt, maps),
            Type::Enum(e) => self.enumeration(b, ctx, e, maps),
            Type::Struct(st) => self.structure(b, ctx, st, maps),
        }
    }

    /// `for i = 1, n do <blk> end;`
    fn close_for_range(&self, b: &mut Builder, i: &TVar, n: &TVar, blk: crate::mir::Block)
        ensures
            final(b).reg() == old(b).reg(),
            final(b).text() == old(b).text() + for_range_t(i.id(), nat_text(1), vt(n.id()), crate::mir::instrs_text(blk.instrs@)),
    {
        let ghost bt = crate::mir::instrs_text(blk.instrs@);
        let one = Expr::from_u64(1);
        let end = n.expr();
        assert(expr_text(end) == vt(n.id()));
        let fr = Instr::ForRange { dst: i.var(), start: one, end, block: blk };
        assert(crate::mir::instr_text(fr) == for_range_t(i.id(), nat_text(1), vt(n.id()), bt));
        b.instr(fr);
    }

    fn array(&self, b: &mut Builder, ctx: &Ctx, a: &ArrayType, maps: &mut Vec<TVar>) -> (r: TVar)
        requires
            old(maps)@.len() >= enums_in(*a.item),
        ensures
            grew(old(b).em(), final(b).em(), des_array_s(*self, ctx_v(ctx), *a, old(b).reg(), ids(old(maps)@)).0),
            r.id() == des_array_s(*self, ctx_v(ctx), *a, old(b).reg(), ids(old(maps)@)).1,
            ids(final(maps)@) == ids(old(maps)@).skip(enums_in(*a.item) as int),
        decreases a, 1int,
    {
        let ghost t0 = b.text();
        let ghost c = ctx_v(ctx);
        let ghost r0 = b.reg();
        let ghost m = ids(maps@);
        let n = self.length(b, ctx, a.len);
        let ghost l = des_length_s(*self, c, r0, a.len).0;
        let ne = n.expr();
        assert(expr_text(ne) == vt(n.id()));
        let arr = b.init(Expr::array(ne));
        proof {
            lemma_cat(t0, l.text, init_t(arr.id(), call1_t("table.create"@, vt(n.id()))));
        }
        let i = b.var();
        let mut inner = b.nest();
        let ghost r3 = inner.reg();
        let v = self.emit(&mut inner, ctx, &a.item, maps);
        let ghost body = des_s(*self, c, *a.item, r3, m).0;
        let ie = i.expr();
        let ve = v.expr();
        assert(expr_text(ie) == vt(i.id()));
        assert(expr_text(ve) == vt(v.id()));
        inner.assign_index(&arr, ie, ve);
        proof {
            lemma_cat(seq![], body.text, assign_index_t(arr.id(), vt(i.id()), vt(v.id())));
            assert(seq![] + body.text =~= body.text);
            assert(seq![] + (body.text + assign_index_t(arr.id(), vt(i.id()), vt(v.id()))) =~= body.text + assign_index_t(arr.id(), vt(i.id()), vt(v.id())));
        }
        inner.free(v);
        let blk = b.unnest(inner);
        self.close_for_range(b, &i, &n, blk);
        proof {
            lemma_cat(t0, l.text + init_t(arr.id(), call1_t("table.create"@, vt(n.id()))), for_range_t(i.id(), nat_text(1), vt(n.id()), body.text + assign_index_t(arr.id(), vt(i.id()), vt(v.id()))));
        }
        b.free(i);
        b.free(n);
        arr
    }

    /// The count of a set or map, read and checked; then an empty table.
    fn count_read(&self, b: &mut Builder, ctx: &Ctx, len: Length) -> (r: (TVar, TVar))
        ensures
            r.0.id() == reg_alloc(old(b).reg()).1,
            (final(b).reg(), r.1.id()) == reg_alloc(reg_alloc(old(b).reg()).0),
            final(b).text() == old(b).text() + count_read_t(*self, ctx_v(ctx), len, r.0.id()) + init_t(r.1.id(), empty_table_t()),
    {
        let ghost t0 = b.text();
        let ghost c = ctx_v(ctx);
        let n = b.read_k(ctx, FuncK::from_kind(len.kind()));
        let ne = n.expr();
        range_check(self.check, b, &ne, len.range());
        proof {
            lemma_cat(t0, read_k_t(c, FuncK::spec_from_kind(len.spec_kind()), n.id()), opt_t(self.check, range_check_t(vt(n.id()), length_range(len))));
        }
        let tbl = Expr::Table(Vec::new());
        assert(expr_text(tbl) == empty_table_t());
        let t = b.init(tbl);
        (n, t)
    }

    fn set(&self, b: &mut Builder, ctx: &Ctx, st: &SetType, maps: &mut Vec<TVar>) -> (r: TVar)
        requires
            old(maps)@.len() >= enums_in(*st.item),
        ensures
            grew(old(b).em(), final(b).em(), des_set_s(*self, ctx_v(ctx), *st, old(b).reg(), ids(old(maps)@)).0),
            r.id() == des_set_s(*self, ctx_v(ctx), *st, old(b).reg(), ids(old(maps)@)).1,
            ids(final(maps)@) == ids(old(maps)@).skip(enums_in(*st.item) as int),
        decreases st, 1int,
    {
        let ghost t0 = b.text();
        let ghost c = ctx_v(ctx);
        let ghost m = ids(maps@);
        let (n, set) = self.count_read(b, ctx, st.len);
        let ghost head = count_read_t(*self, c, st.len, n.id()) + init_t(set.id(), empty_table_t());
        proof {
            lemma_cat(t0, count_read_t(*self, c, st.len, n.id()), init_t(set.id(), empty_table_t()));
        }
        let i = b.var();
        let mut inner = b.nest();
        let ghost r3 = inner.reg();
        let v = self.emit(&mut inner, ctx, &st.item, maps);
        let ghost body = des_s(*self, c, *st.item, r3, m).0;
        let ve = v.expr();
        assert(expr_text(ve) == vt(v.id()));
        let tr = Expr::Boolean(true);
        assert(expr_text(tr) == "true"@);
        inner.assign_index(&set, ve, tr);
        proof {
            assert(seq![] + body.text =~= body.text);
            assert(seq![] + (body.text + assign_index_t(set.id(), vt(v.id()), "true"@)) =~= body.text + assign_index_t(set.id(), vt(v.id()), "true"@));
            lemma_cat(seq![], body.text, assign_index_t(set.id(), vt(v.id()), "true"@));
        }
        inner.free(v);
        let blk = b.unnest(inner);
        self.close_for_range(b, &i, &n, blk);
        proof {
            lemma_cat(t0, head, for_range_t(i.id(), nat_text(1), vt(n.id()), body.text + assign_index_t(set.id(), vt(v.id()), "true"@)));
        }
        b.free(i);
        b.free(n);
        set
    }

    /// The body of the loop over a map: key, value, and the assignment.
    fn pair(&self, b: &mut Builder, ctx: &Ctx, mt: &MapType, map: &TVar, maps: &mut Vec<TVar>)
        requires
            old(b).text() == Seq::<char>::empty(),
            old(maps)@.len() >= enums_in(*mt.index) + enums_in(*mt.value),
        ensures
            ({
                let (bi, k) = des_s(*self, ctx_v(ctx), *mt.index, old(b).reg(), ids(old(maps)@));
                let (bv, v) = des_s(
                    *self,
                    ctx_v(ctx),
                    *mt.value,
                    bi.reg,
                    ids(old(maps)@).skip(enums_in(*mt.index) as int),
                );
                &&& final(b).reg() == reg_release(reg_release(bv.reg, v), k)
                &&& final(b).text() == bi.text + bv.text + assign_index_t(map.id(), vt(k), vt(v))
            }),
            ids(final(maps)@) == ids(old(maps)@).skip((enums_in(*mt.index) + enums_in(*mt.value)) as int),
        decreases mt, 0int,
    {
        let ghost c = ctx_v(ctx);
        let ghost m = ids(maps@);
        let ghost r0 = b.reg();
        let ghost before = maps@;
        let k = self.emit(b, ctx, &mt.index, maps);
        proof {
            lemma_ids_len(before);
            lemma_ids_len(maps@);
        }
        let ghost bi = des_s(*self, c, *mt.index, r0, m).0;
        let v = self.emit(b, ctx, &mt.value, maps);
        let ghost bv = des_s(*self, c, *mt.value, bi.reg, m.skip(enums_in(*mt.index) as int)).0;
        proof {
            lemma_skip_skip(m, enums_in(*mt.index) as int, enums_in(*mt.value) as int);
            assert(seq![] + bi.text =~= bi.text);
            lemma_cat(seq![], bi.text, bv.text);
        }
        let ke = k.expr();
        let ve = v.expr();
        assert(expr_text(ke) == vt(k.id()));
        assert(expr_text(ve) == vt(v.id()));
        b.assign_index(map, ke, ve);
        proof {
            lemma_cat(seq![], bi.text + bv.text, assign_index_t(map.id(), vt(k.id()), vt(v.id())));
            assert(seq![] + (bi.text + bv.text + assign_index_t(map.id(), vt(k.id()), vt(v.id()))) =~= bi.text + bv.text + assign_index_t(map.id(), vt(k.id()), vt(v.id())));
        }
        b.free(v);
        b.free(k);
    }

    #[verifier::rlimit(40)]
    fn map(&self, b: &mut Builder, ctx: &Ctx, mt: &MapType, maps: &mut Vec<TVar>) -> (r: TVar)
        requires
            old(maps)@.len() >= enums_in(*mt.index) + enums_in(*mt.value),
        ensures
            grew(old(b).em(), final(b).em(), des_map_s(*self, ctx_v(ctx), *mt, old(b).reg(), ids(old(maps)@)).0),
            r.id() == des_map_s(*self, ctx_v(ctx), *mt, old(b).reg(), ids(old(maps)@)).1,
            ids(final(maps)@) == ids(old(maps)@).skip((enums_in(*mt.index) + enums_in(*mt.value)) as int),
        decreases mt, 1int,
    {
        let ghost t0 = b.text();
        let ghost c = ctx_v(ctx);
        let ghost m = ids(maps@);
        let (n, map) = self.count_read(b, ctx, mt.len);
        let ghost head = count_read_t(*self, c, mt.len, n.id()) + init_t(map.id(), empty_table_t());
        proof {
            lemma_cat(t0, count_read_t(*self, c, mt.len, n.id()), init_t(map.id(), empty_table_t()));
        }
        let i = b.var();
        let mut inner = b.nest();
        let ghost r3 = inner.reg();
        self.pair(&mut inner, ctx, mt, &map, maps);
        let ghost (bi, k) = des_s(*self, c, *mt.index, r3, m);
        let ghost (bv, v) = des_s(*self, c, *mt.value, bi.reg, m.skip(enums_in(*mt.index) as int));
        let blk = b.unnest(inner);
        self.close_for_range(b, &i, &n, blk);
        proof {
            lemma_cat(t0, head, for_range_t(i.id(), nat_text(1), vt(n.id()), bi.text + bv.text + assign_index_t(map.id(), vt(k), vt(v))));
        }
        b.free(i);
        b.free(n);
        map
    }

    fn enumeration(&self, b: &mut Builder, ctx: &Ctx, e: &EnumType, maps: &mut Vec<TVar>) -> (r: TVar)
        requires
            old(maps)@.len() >= 1,
        ensures
            grew(old(b).em(), final(b).em(), des_enum_s(*self, ctx_v(ctx), *e, old(b).reg(), ids(old(maps)@)).0),
            r.id() == des_enum_s(*self, ctx_v(ctx), *e, old(b).reg(), ids(old(maps)@)).1,
            ids(final(maps)@) == ids(old(maps)@).skip(1),
    {
        let ghost t0 = b.text();
        let ghost c = ctx_v(ctx);
        proof {
            lemma_ids_remove_front(maps@);
        }
        let map = maps.remove(0);
        let v = b.read_k(ctx, FuncK::from_kind(e.number.kind));
        let ghost p1 = read_k_t(c, FuncK::spec_from_kind(e.number.kind), v.id());
        let count = e.variants.len();
        let rg = Range { min: Some(Num::from_u64(1)), max: Some(Num::from_u64(count as u64)) };
        assert(rg == variants_range(*e));
        let ve = v.expr();
        range_check(self.check, b, &ve, rg);
        let ghost p2 = opt_t(self.check, range_check_t(vt(v.id()), variants_range(*e)));
        proof {
            lemma_cat(t0, p1, p2);
        }
        let me = map.expr();
        let ve2 = v.expr();
        assert(expr_text(me) == vt(map.id()));
        assert(expr_text(ve2) == vt(v.id()));
        let w = b.init(me.index(ve2));
        proof {
            lemma_cat(t0, p1 + p2, init_t(w.id(), index_t(vt(map.id()), vt(v.id()))));
        }
        b.free(v);
        b.free(map);
        w
    }

    fn structure(&self, b: &mut Builder, ctx: &Ctx, st: &StructType, maps: &mut Vec<TVar>) -> (r: TVar)
        requires
            old(maps)@.len() >= fields_enums(st.fields@),
        ensures
            grew(old(b).em(), final(b).em(), des_struct_s(*self, ctx_v(ctx), *st, old(b).reg(), ids(old(maps)@)).0),
            r.id() == des_struct_s(*self, ctx_v(ctx), *st, old(b).reg(), ids(old(maps)@)).1,
            ids(final(maps)@) == ids(old(maps)@).skip(fields_enums(st.fields@) as int),
        decreases st, 1int,
    {
        let ghost t0 = b.text();
        let ghost c = ctx_v(ctx);
        let ghost r0 = b.reg();
        let ghost m = ids(maps@);
        let mut vars = self.fields(b, ctx, &st.fields, maps);
        let ghost (f, vs) = des_fields_s(*self, c, st.fields@, r0, m);
        proof {
            lemma_des_fields_len(*self, c, st.fields@, r0, m);
            lemma_ids_len(vars@);
        }
        let tbl = name_var_table(&st.fields, &vars);
        let w = b.init(tbl);
        proof {
            lemma_cat(t0, f.text, init_t(w.id(), "{ "@ + name_vars_t(st.fields@, vs) + " }"@));
        }
        let ghost r1 = b.reg();
        let mut k: usize = 0;
        let ghost all = vars@;
        let count = vars.len();
        proof {
            assert(vs.take(0) =~= Seq::<u16>::empty());
            assert(all.skip(0) =~= all);
            lemma_ids_len(all);
        }
        while k < count
            invariant
                k <= vs.len(),
                count == all.len(),
                vs.len() == all.len(),
                ids(all) == vs,
                vars@ == all.skip(k as int),
                b.reg() == release_all(r1, vs.take(k as int)),
                b.text() == t0 + (f.text + init_t(w.id(), "{ "@ + name_vars_t(st.fields@, vs) + " }"@)),
            decreases count - k,
        {
            proof {
                lemma_take_push(vs, k as int);
                assert(all.skip(k as int)[0] == all[k as int]);
                assert(ids(all)[k as int] == all[k as int].id());
                assert(all.skip(k as int).remove(0) =~= all.skip(k + 1));
            }
            let v = vars.remove(0);
            b.free(v);
            k += 1;
        }
        proof {
            lemma_ids_len(all);
            assert(vs.take(vs.len() as int) =~= vs);
        }
        w
    }

    /// Reads the fields of a struct in order; returns their variables.
    fn fields(&self, b: &mut Builder, ctx: &Ctx, fs: &Vec<(String, Type)>, maps: &mut Vec<TVar>) -> (vars: Vec<TVar>)
        requires
            old(maps)@.len() >= fields_enums(fs@),
        ensures
            grew(old(b).em(), final(b).em(), des_fields_s(*self, ctx_v(ctx), fs@, old(b).reg(), ids(old(maps)@)).0),
            ids(vars@) == des_fields_s(*self, ctx_v(ctx), fs@, old(b).reg(), ids(old(maps)@)).1,
            ids(final(maps)@) == ids(old(maps)@).skip(fields_enums(fs@) as int),
        decreases fs, 1int,
    {
        let ghost t0 = b.text();
        let ghost r0 = b.reg();
        let ghost c = ctx_v(ctx);
        let ghost m0 = ids(maps@);
        let ghost n0 = maps@.len();
        let mut vars: Vec<TVar> = Vec::new();
        let mut i: usize = 0;
        proof {
            assert(fs@.subrange(0, 0) =~= Seq::<(String, Type)>::empty());
            lemma_skip_zero(m0);
            assert(t0 + seq![] =~= t0);
            assert(ids(vars@) =~= Seq::<u16>::empty());
            lemma_ids_len(maps@);
        }
        while i < fs.len()
            invariant
                i <= fs@.len(),
                b.reg() == des_fields_s(*self, c, fs@.subrange(0, i as int), r0, m0).0.reg,
                b.text() == t0 + des_fields_s(*self, c, fs@.subrange(0, i as int), r0, m0).0.text,
                ids(vars@) == des_fields_s(*self, c, fs@.subrange(0, i as int), r0, m0).1,
                ids(maps@) == m0.skip(fields_enums(fs@.subrange(0, i as int)) as int),
                fields_enums(fs@.subrange(0, i as int)) <= fields_enums(fs@),
                m0.len() == n0,
                n0 >= fields_enums(fs@),
                maps@.len() == n0 - fields_enums(fs@.subrange(0, i as int)),
                c == ctx_v(ctx),
            decreases fs.len() - i,
        {
            proof {
                lemma_fields_enums_prefix(fs@, i as int);
                lemma_fields_enums_prefix(fs@, i as int + 1);
                assert(fs@.subrange(0, i + 1).subrange(0, i as int) =~= fs@.subrange(0, i as int));
            }
            let ghost pre = fs@.subrange(0, i as int);
            let ghost (a, avs) = des_fields_s(*self, c, pre, r0, m0);
            let ghost before = maps@;
            let ghost vbefore = vars@;
            let v = self.emit(b, ctx, &fs[i].1, maps);
            proof {
                lemma_ids_len(before);
                lemma_ids_len(maps@);
                lemma_cat(t0, a.text, des_s(*self, c, fs@[i as int].1, a.reg, m0.skip(fields_enums(pre) as int)).0.text);
                lemma_skip_skip(m0, fields_enums(pre) as int, enums_in(fs@[i as int].1) as int);
            }
            vars.push(v);
            proof {
                lemma_ids_push(vbefore, v);
            }
            i += 1;
        }
        assert(fs@.subrange(0, fs@.len() as int) =~= fs@);
        vars
    }
}

#[verifier::spinoff_prover]
proof fn lemma_des_fields_len(d: Des, c: CtxV, fs: Seq<(String, Type)>, r: RegState, m: Seq<u16>)
    ensures
        des_fields_s(d, c, fs, r, m).1.len() == fs.len(),
    decreases fs.len(),
{
    if fs.len() > 0 {
        lemma_des_fields_len(d, c, fs.subrange(0, fs.len() - 1), r, m);
    }
}

/// The table `{ ["name"] = v, ... }` of the fields of a struct and the
/// variables they were read into.
fn name_var_table(fs: &Vec<(String, Type)>, vars: &Vec<TVar>) -> (e: Expr)
    requires
        vars@.len() == fs@.len(),
    ensures
        expr_text(e) == "{ "@ + name_vars_t(fs@, ids(vars@)) + " }"@,
{
    let ghost vs = ids(vars@);
    let mut fields: Vec<(Expr, Expr)> = Vec::new();
    let mut i: usize = 0;
    proof {
        lemma_ids_len(vars@);
    }
    while i < fs.len()
        invariant
            i <= fs@.len(),
            fs@.len() == vars@.len(),
            vs == ids(vars@),
            vs.len() == vars@.len(),
            fields@.len() == i,
            fields_text(fields@) == name_vars_t(fs@.take(i as int), vs.take(i as int)),
        decreases fs.len() - i,
    {
        let name = Expr::from_str(fs[i].0.as_str());
        let var = vars[i].expr();
        assert(expr_text(var) == vt(vs[i as int]));
        let ghost before = fields@;
        fields.push((name, var));
        proof {
            assert(fields@.subrange(0, fields@.len() - 1) =~= before);
            assert(fs@.take(i + 1).drop_last() =~= fs@.take(i as int));
            assert(vs.take(i + 1).take(i as int) =~= vs.take(i as int));
            assert(fs@.take(i + 1).last() == fs@[i as int]);
            assert(vs.take(i + 1)[i as int] == vs[i as int]);
            if i == 0 {
                assert(fs@.take(1)[0] == fs@[0]);
            }
        }
        i += 1;
    }
    assert(fs@.take(fs@.len() as int) =~= fs@);
    assert(vs.take(vs.len() as int) =~= vs);
    Expr::Table(fields)
}

} // verus!

verus! {

#[verifier::spinoff_prover]
proof fn lemma_types_prep_count(ts: Seq<Type>, r: RegState, ser: bool)
    ensures
        types_prep_s(ts, r, ser).1.len() == types_enums(ts),
    decreases ts.len(),
{
    if ts.len() > 0 {
        lemma_types_prep_count(ts.drop_last(), r, ser);
        lemma_prep_count(ts.last(), types_prep_s(ts.drop_last(), r, ser).0.reg, ser);
    }
}

/// The number of enums of a prefix of a list of types, and of the next
/// type.
#[verifier::spinoff_prover]
pub proof fn lemma_types_enums_prefix(ts: Seq<Type>, k: int)
    requires
        0 <= k <= ts.len(),
    ensures
        types_enums(ts.take(k)) <= types_enums(ts),
        k < ts.len() ==> types_enums(ts.take(k + 1)) == types_enums(ts.take(k)) + enums_in(ts[k]),
    decreases ts.len(),
{
    if k < ts.len() {
        assert(ts.take(k + 1).drop_last() =~= ts.take(k));
        lemma_types_enums_prefix(ts.drop_last(), k);
        assert(ts.drop_last().take(k) =~= ts.take(k));
        if k + 1 < ts.len() {
            lemma_types_enums_prefix(ts.drop_last(), k + 1);
            assert(ts.drop_last().take(k + 1) =~= ts.take(k + 1));
        } else {
            assert(ts.take(k + 1) =~= ts);
        }
    } else {
        assert(ts.take(k) =~= ts);
    }
}

/// Sets up the tables of the enums of each type of `ts`, in order, for
/// writing (`ser`) or reading, and adds their variables to `maps`.
pub fn prep_types(b: &mut Builder, ts: &Vec<Type>, ser: bool, maps: &mut Vec<TVar>)
    ensures
        grew(old(b).em(), final(b).em(), types_prep_s(ts@, old(b).reg(), ser).0),
        ids(final(maps)@) == ids(old(maps)@) + types_prep_s(ts@, old(b).reg(), ser).1,
        types_prep_s(ts@, old(b).reg(), ser).1.len() == types_enums(ts@),
{
    let ghost t0 = b.text();
    let ghost r0 = b.reg();
    let ghost m0 = ids(maps@);
    proof {
        lemma_types_prep_count(ts@, r0, ser);
        assert(ts@.take(0) =~= Seq::<Type>::empty());
        assert(t0 + seq![] =~= t0);
        assert(m0 + seq![] =~= m0);
    }
    let mut i: usize = 0;
    while i < ts.len()
        invariant
            i <= ts@.len(),
            b.reg() == types_prep_s(ts@.take(i as int), r0, ser).0.reg,
            b.text() == t0 + types_prep_s(ts@.take(i as int), r0, ser).0.text,
            ids(maps@) == m0 + types_prep_s(ts@.take(i as int), r0, ser).1,
        decreases ts.len() - i,
    {
        let ghost (a, ia) = types_prep_s(ts@.take(i as int), r0, ser);
        prep(b, &ts[i], ser, maps);
        let ghost (bb, ib) = prep_s(ts@[i as int], a.reg, ser);
        proof {
            assert(ts@.take(i + 1).drop_last() =~= ts@.take(i as int));
            assert(ts@.take(i + 1).last() == ts@[i as int]);
            lemma_cat(t0, a.text, bb.text);
            assert(m0 + ia + ib =~= m0 + (ia + ib));
        }
        i += 1;
    }
    assert(ts@.take(ts@.len() as int) =~= ts@);
}

} // verus!

verus! {

/// The enum tables `m[..k]` are distinct variables, all in use in `r`.
pub open spec fn tables_ok(r: RegState, m: Seq<u16>, k: nat) -> bool {
    &&& k <= m.len()
    &&& forall|i: int, j: int| 0 <= i < j < k ==> m[i] != m[j]
    &&& forall|i: int| 0 <= i < k ==> reg_live(r).contains(#[trigger] m[i])
}

#[verifier::spinoff_prover]
proof fn lemma_fresh(r: RegState)
    requires
        reg_wf(r),
        !reg_alloc(r).0.overflow,
    ensures
        !r.overflow,
        reg_wf(reg_alloc(r).0),
        !reg_live(r).contains(reg_alloc(r).1),
        reg_live(reg_alloc(r).0) == reg_live(r).insert(reg_alloc(r).1),
{
    crate::mir_builder::lemma_alloc_fresh(r);
}

/// The first `a + b` entries are the first `a`, and the `b` after them.
#[verifier::spinoff_prover]
proof fn lemma_take_union(m: Seq<u16>, a: int, b: int)
    requires
        0 <= a,
        0 <= b,
        a + b <= m.len(),
    ensures
        m.take(a + b).to_set() == m.take(a).to_set().union(m.skip(a).take(b).to_set()),
{
    let l = m.take(a + b).to_set();
    let rr = m.take(a).to_set().union(m.skip(a).take(b).to_set());
    assert forall|u: u16| l.contains(u) <==> rr.contains(u) by {
        if m.take(a + b).contains(u) {
            let k = choose|k: int| 0 <= k < a + b && #[trigger] m.take(a + b)[k] == u;
            if k < a {
                assert(m.take(a)[k] == u);
                assert(m.take(a).contains(u));
            } else {
                assert(m.skip(a).take(b)[k - a] == u);
                assert(m.skip(a).take(b).contains(u));
            }
        }
        if m.take(a).contains(u) {
            let k = choose|k: int| 0 <= k < a && #[trigger] m.take(a)[k] == u;
            assert(m.take(a + b)[k] == u);
        }
        if m.skip(a).take(b).contains(u) {
            let k = choose|k: int| 0 <= k < b && #[trigger] m.skip(a).take(b)[k] == u;
            assert(m.take(a + b)[a + k] == u);
        }
    }
    assert(l =~= rr);
}

/// A table among the first `k` is one of them.
#[verifier::spinoff_prover]
proof fn lemma_in_take(m: Seq<u16>, k: int, u: u16)
    requires
        0 <= k <= m.len(),
        m.take(k).to_set().contains(u),
    ensures
        exists|i: int| 0 <= i < k && m[i] == u,
{
    let i = choose|i: int| 0 <= i < k && #[trigger] m.take(k)[i] == u;
    assert(m[i] == u);
}

/// Once ids ran out, they stay out.
#[verifier::rlimit(60)]
#[verifier::spinoff_prover]
proof fn lemma_ser_ovf(s: Ser, c: CtxV, t: Type, x: Seq<char>, r: RegState, m: Seq<u16>)
    ensures
        r.overflow ==> ser_s(s, c, t, x, r, m).reg.overflow,
    decreases t, 2int,
{
    match t {
        Type::Array(a) => lemma_array_ovf(s, c, a, x, r, m),
        Type::SetOf(st) => lemma_set_ovf(s, c, st, x, r, m),
        Type::MapOf(mt) => lemma_map_ovf(s, c, mt, x, r, m),
        Type::Struct(st) => lemma_fields_ovf(s, c, st.fields@, x, r, m),
        _ => {},
    }
}

#[verifier::spinoff_prover]
proof fn lemma_array_ovf(s: Ser, c: CtxV, a: ArrayType, x: Seq<char>, r: RegState, m: Seq<u16>)
    ensures
        r.overflow ==> ser_array_s(s, c, a, x, r, m).reg.overflow,
    decreases a, 1int,
{
    let (l, n) = ser_length_s(s, c, r, a.len, len_t(x));
    let (r1, i) = reg_alloc(l.reg);
    let (r2, w) = reg_alloc(r1);
    lemma_ser_ovf(s, c, *a.item, vt(w), r2, m);
}

#[verifier::spinoff_prover]
proof fn lemma_set_ovf(s: Ser, c: CtxV, st: SetType, x: Seq<char>, r: RegState, m: Seq<u16>)
    ensures
        r.overflow ==> ser_set_s(s, c, st, x, r, m).reg.overflow,
    decreases st, 1int,
{
    let (r1, p) = reg_alloc(r);
    let (r2, l) = reg_alloc(r1);
    let (r3, idx) = reg_alloc(r2);
    let (r4, val) = reg_alloc(r3);
    lemma_ser_ovf(s, c, *st.item, vt(idx), r4, m);
}

#[verifier::spinoff_prover]
proof fn lemma_map_ovf(s: Ser, c: CtxV, mt: MapType, x: Seq<char>, r: RegState, m: Seq<u16>)
    ensures
        r.overflow ==> ser_map_s(s, c, mt, x, r, m).reg.overflow,
    decreases mt, 1int,
{
    let (r1, p) = reg_alloc(r);
    let (r2, l) = reg_alloc(r1);
    let (r3, idx) = reg_alloc(r2);
    let (r4, val) = reg_alloc(r3);
    lemma_ser_ovf(s, c, *mt.index, vt(idx), r4, m);
    let bi = ser_s(s, c, *mt.index, vt(idx), r4, m);
    lemma_ser_ovf(s, c, *mt.value, vt(val), bi.reg, m.skip(enums_in(*mt.index) as int));
}

#[verifier::spinoff_prover]
proof fn lemma_fields_ovf(s: Ser, c: CtxV, fs: Seq<(String, Type)>, x: Seq<char>, r: RegState, m: Seq<u16>)
    ensures
        r.overflow ==> ser_fields_s(s, c, fs, x, r, m).reg.overflow,
    decreases fs, 1int,
{
    if fs.len() > 0 {
        let p = fs.subrange(0, fs.len() - 1);
        lemma_fields_ovf(s, c, p, x, r, m);
        let a = ser_fields_s(s, c, p, x, r, m);
        let (r1, w) = reg_alloc(a.reg);
        lemma_ser_ovf(s, c, fs[fs.len() - 1].1, vt(w), r1, m.skip(fields_enums(p) as int));
    }
}

/// Writing a value hands back every variable it takes, and the tables of
/// its enums: the variables in use afterwards are those in use before, less
/// the first `enums_in(t)` of `m`.
#[verifier::rlimit(60)]
#[verifier::spinoff_prover]
pub proof fn lemma_ser_live(s: Ser, c: CtxV, t: Type, x: Seq<char>, r: RegState, m: Seq<u16>)
    requires
        reg_wf(r),
        !ser_s(s, c, t, x, r, m).reg.overflow,
        tables_ok(r, m, enums_in(t)),
    ensures
        !r.overflow,
        reg_wf(ser_s(s, c, t, x, r, m).reg),
        reg_live(ser_s(s, c, t, x, r, m).reg) == reg_live(r).difference(m.take(enums_in(t) as int).to_set()),
    decreases t, 2int,
{
    match t {
        Type::BinaryString(bs) => {
            lemma_string_live(s, c, false, bs.len, x, r);
            assert(m.take(0).to_set() =~= Set::<u16>::empty());
            assert(reg_live(r).difference(Set::<u16>::empty()) =~= reg_live(r));
        },
        Type::Utf8String(us) => {
            lemma_string_live(s, c, true, us.len, x, r);
            assert(m.take(0).to_set() =~= Set::<u16>::empty());
            assert(reg_live(r).difference(Set::<u16>::empty()) =~= reg_live(r));
        },
        Type::Array(a) => lemma_array_live(s, c, a, x, r, m),
        Type::SetOf(st) => lemma_set_live(s, c, st, x, r, m),
        Type::MapOf(mt) => lemma_map_live(s, c, mt, x, r, m),
        Type::Enum(e) => lemma_enum_live(s, c, e, x, r, m),
        Type::Struct(st) => lemma_fields_live(s, c, st.fields@, x, r, m),
        _ => {
            assert(m.take(0).to_set() =~= Set::<u16>::empty());
            assert(reg_live(r).difference(Set::<u16>::empty()) =~= reg_live(r));
        },
    }
}

#[verifier::spinoff_prover]
proof fn lemma_enum_live(s: Ser, c: CtxV, e: EnumType, x: Seq<char>, r: RegState, m: Seq<u16>)
    requires
        reg_wf(r),
        !ser_enum_s(s, c, e, x, r, m).reg.overflow,
        tables_ok(r, m, 1),
    ensures
        !r.overflow,
        reg_wf(ser_enum_s(s, c, e, x, r, m).reg),
        reg_live(ser_enum_s(s, c, e, x, r, m).reg) == reg_live(r).difference(m.take(1).to_set()),
{
    let (r1, w) = reg_alloc(r);
    lemma_fresh(r);
    crate::mir_builder::lemma_release_live(r1, w);
    crate::mir_builder::lemma_release_live(reg_release(r1, w), m[0]);
    assert forall|u: u16| m.take(1).to_set().contains(u) <==> u == m[0] by {
        if m.take(1).contains(u) {
            let k = choose|k: int| 0 <= k < 1 && #[trigger] m.take(1)[k] == u;
            assert(k == 0);
        }
        if u == m[0] {
            assert(m.take(1)[0] == u);
        }
    }
    assert(m.take(1).to_set() =~= set![m[0]]);
    assert(reg_live(reg_release(reg_release(r1, w), m[0])) =~= reg_live(r).difference(
        m.take(1).to_set(),
    ));
}

#[verifier::spinoff_prover]
proof fn lemma_string_live(s: Ser, c: CtxV, utf8: bool, len: Length, x: Seq<char>, r: RegState)
    requires
        reg_wf(r),
        !ser_string_s(s, c, utf8, len, x, r).reg.overflow,
    ensures
        !r.overflow,
        reg_wf(ser_string_s(s, c, utf8, len, x, r).reg),
        reg_live(ser_string_s(s, c, utf8, len, x, r).reg) == reg_live(r),
{
    let (r1, v) = reg_alloc(r);
    lemma_fresh(r);
    crate::mir_builder::lemma_release_live(r1, v);
    assert(reg_live(reg_release(r1, v)) =~= reg_live(r));
}

#[verifier::spinoff_prover]
proof fn lemma_array_live(s: Ser, c: CtxV, a: ArrayType, x: Seq<char>, r: RegState, m: Seq<u16>)
    requires
        reg_wf(r),
        !ser_array_s(s, c, a, x, r, m).reg.overflow,
        tables_ok(r, m, enums_in(*a.item)),
    ensures
        !r.overflow,
        reg_wf(ser_array_s(s, c, a, x, r, m).reg),
        reg_live(ser_array_s(s, c, a, x, r, m).reg) == reg_live(r).difference(
            m.take(enums_in(*a.item) as int).to_set(),
        ),
    decreases a, 1int,
{
    let k = enums_in(*a.item);
    let (l, n) = ser_length_s(s, c, r, a.len, len_t(x));
    let (r1, i) = reg_alloc(l.reg);
    let (r2, w) = reg_alloc(r1);
    let body = ser_s(s, c, *a.item, vt(w), r2, m);
    lemma_ser_ovf(s, c, *a.item, vt(w), r2, m);
    lemma_fresh(r);
    lemma_fresh(l.reg);
    lemma_fresh(r1);
    lemma_ser_live(s, c, *a.item, vt(w), r2, m);
    let t = m.take(k as int).to_set();
    assert(!t.contains(w) && !t.contains(i) && !t.contains(n)) by {
        if t.contains(w) {
            lemma_in_take(m, k as int, w);
        }
        if t.contains(i) {
            lemma_in_take(m, k as int, i);
        }
        if t.contains(n) {
            lemma_in_take(m, k as int, n);
        }
    }
    crate::mir_builder::lemma_release_live(body.reg, w);
    crate::mir_builder::lemma_release_live(reg_release(body.reg, w), i);
    crate::mir_builder::lemma_release_live(reg_release(reg_release(body.reg, w), i), n);
    assert(reg_live(reg_release(reg_release(reg_release(body.reg, w), i), n)) =~= reg_live(r).difference(t));
}

#[verifier::spinoff_prover]
proof fn lemma_set_live(s: Ser, c: CtxV, st: SetType, x: Seq<char>, r: RegState, m: Seq<u16>)
    requires
        reg_wf(r),
        !ser_set_s(s, c, st, x, r, m).reg.overflow,
        tables_ok(r, m, enums_in(*st.item)),
    ensures
        !r.overflow,
        reg_wf(ser_set_s(s, c, st, x, r, m).reg),
        reg_live(ser_set_s(s, c, st, x, r, m).reg) == reg_live(r).difference(
            m.take(enums_in(*st.item) as int).to_set(),
        ),
    decreases st, 1int,
{
    let k = enums_in(*st.item);
    let (r1, p) = reg_alloc(r);
    let (r2, l) = reg_alloc(r1);
    let (r3, idx) = reg_alloc(r2);
    let (r4, val) = reg_alloc(r3);
    let body = ser_s(s, c, *st.item, vt(idx), r4, m);
    lemma_ser_ovf(s, c, *st.item, vt(idx), r4, m);
    lemma_fresh(r);
    lemma_fresh(r1);
    lemma_fresh(r2);
    lemma_fresh(r3);
    lemma_ser_live(s, c, *st.item, vt(idx), r4, m);
    let t = m.take(k as int).to_set();
    assert(!t.contains(p) && !t.contains(l) && !t.contains(idx) && !t.contains(val)) by {
        if t.contains(p) {
            lemma_in_take(m, k as int, p);
        }
        if t.contains(l) {
            lemma_in_take(m, k as int, l);
        }
        if t.contains(idx) {
            lemma_in_take(m, k as int, idx);
        }
        if t.contains(val) {
            lemma_in_take(m, k as int, val);
        }
    }
    let q1 = reg_release(body.reg, val);
    let q2 = reg_release(q1, idx);
    let q3 = reg_release(q2, l);
    crate::mir_builder::lemma_release_live(body.reg, val);
    crate::mir_builder::lemma_release_live(q1, idx);
    crate::mir_builder::lemma_release_live(q2, l);
    crate::mir_builder::lemma_release_live(q3, p);
    assert(reg_live(reg_release(q3, p)) =~= reg_live(r).difference(t));
}

#[verifier::spinoff_prover]
proof fn lemma_map_live(s: Ser, c: CtxV, mt: MapType, x: Seq<char>, r: RegState, m: Seq<u16>)
    requires
        reg_wf(r),
        !ser_map_s(s, c, mt, x, r, m).reg.overflow,
        tables_ok(r, m, enums_in(*mt.index) + enums_in(*mt.value)),
    ensures
        !r.overflow,
        reg_wf(ser_map_s(s, c, mt, x, r, m).reg),
        reg_live(ser_map_s(s, c, mt, x, r, m).reg) == reg_live(r).difference(
            m.take((enums_in(*mt.index) + enums_in(*mt.value)) as int).to_set(),
        ),
    decreases mt, 1int,
{
    let ki = enums_in(*mt.index);
    let kv = enums_in(*mt.value);
    let ms = m.skip(ki as int);
    let (r1, p) = reg_alloc(r);
    let (r2, l) = reg_alloc(r1);
    let (r3, idx) = reg_alloc(r2);
    let (r4, val) = reg_alloc(r3);
    let bi = ser_s(s, c, *mt.index, vt(idx), r4, m);
    let bv = ser_s(s, c, *mt.value, vt(val), bi.reg, ms);
    lemma_ser_ovf(s, c, *mt.value, vt(val), bi.reg, ms);
    lemma_ser_ovf(s, c, *mt.index, vt(idx), r4, m);
    lemma_fresh(r);
    lemma_fresh(r1);
    lemma_fresh(r2);
    lemma_fresh(r3);
    let t1 = m.take(ki as int).to_set();
    let t2 = ms.take(kv as int).to_set();
    lemma_ser_live(s, c, *mt.index, vt(idx), r4, m);
    assert forall|j: int| 0 <= j < kv implies reg_live(bi.reg).contains(#[trigger] ms[j]) by {
        assert(ms[j] == m[ki + j]);
        assert(reg_live(r).contains(m[ki + j]));
        if t1.contains(ms[j]) {
            lemma_in_take(m, ki as int, ms[j]);
            let q = choose|q: int| 0 <= q < ki && #[trigger] m[q] == ms[j];
            assert(m[q] != m[ki + j]);
        }
    }
    assert forall|a: int, b: int| 0 <= a < b < kv implies ms[a] != ms[b] by {
        assert(ms[a] == m[ki + a] && ms[b] == m[ki + b]);
    }
    lemma_ser_live(s, c, *mt.value, vt(val), bi.reg, ms);
    lemma_take_union(m, ki as int, kv as int);
    let t = m.take((ki + kv) as int).to_set();
    assert(!t.contains(p) && !t.contains(l) && !t.contains(idx) && !t.contains(val)) by {
        if t.contains(p) {
            lemma_in_take(m, (ki + kv) as int, p);
        }
        if t.contains(l) {
            lemma_in_take(m, (ki + kv) as int, l);
        }
        if t.contains(idx) {
            lemma_in_take(m, (ki + kv) as int, idx);
        }
        if t.contains(val) {
            lemma_in_take(m, (ki + kv) as int, val);
        }
    }
    let q1 = reg_release(bv.reg, val);
    let q2 = reg_release(q1, idx);
    let q3 = reg_release(q2, l);
    crate::mir_builder::lemma_release_live(bv.reg, val);
    crate::mir_builder::lemma_release_live(q1, idx);
    crate::mir_builder::lemma_release_live(q2, l);
    crate::mir_builder::lemma_release_live(q3, p);
    assert(reg_live(reg_release(q3, p)) =~= reg_live(r).difference(t));
}

#[verifier::rlimit(60)]
#[verifier::spinoff_prover]
proof fn lemma_fields_live(s: Ser, c: CtxV, fs: Seq<(String, Type)>, x: Seq<char>, r: RegState, m: Seq<u16>)
    requires
        reg_wf(r),
        !ser_fields_s(s, c, fs, x, r, m).reg.overflow,
        tables_ok(r, m, fields_enums(fs)),
    ensures
        !r.overflow,
        reg_wf(ser_fields_s(s, c, fs, x, r, m).reg),
        reg_live(ser_fields_s(s, c, fs, x, r, m).reg) == reg_live(r).difference(
            m.take(fields_enums(fs) as int).to_set(),
        ),
    decreases fs, 1int,
{
    if fs.len() == 0 {
        assert(m.take(0).to_set() =~= Set::<u16>::empty());
        assert(reg_live(r).difference(Set::<u16>::empty()) =~= reg_live(r));
    } else {
        let p = fs.subrange(0, fs.len() - 1);
        let kp = fields_enums(p);
        let kl = enums_in(fs[fs.len() - 1].1);
        let ms = m.skip(kp as int);
        let a = ser_fields_s(s, c, p, x, r, m);
        let (r1, w) = reg_alloc(a.reg);
        let f = ser_s(s, c, fs[fs.len() - 1].1, vt(w), r1, ms);
        lemma_ser_ovf(s, c, fs[fs.len() - 1].1, vt(w), r1, ms);
        lemma_fields_live(s, c, p, x, r, m);
        lemma_fresh(a.reg);
        let t1 = m.take(kp as int).to_set();
        assert forall|j: int| 0 <= j < kl implies reg_live(a.reg).contains(#[trigger] ms[j]) by {
            assert(ms[j] == m[kp + j]);
            assert(reg_live(r).contains(m[kp + j]));
            if t1.contains(ms[j]) {
                lemma_in_take(m, kp as int, ms[j]);
                let q = choose|q: int| 0 <= q < kp && #[trigger] m[q] == ms[j];
                assert(m[q] != m[kp + j]);
            }
        }
        assert forall|j: int| 0 <= j < kl implies reg_live(r1).contains(#[trigger] ms[j]) by {
            assert(reg_live(a.reg).contains(ms[j]));
        }
        assert forall|i: int, j: int| 0 <= i < j < kl implies ms[i] != ms[j] by {
            assert(ms[i] == m[kp + i] && ms[j] == m[kp + j]);
        }
        lemma_ser_live(s, c, fs[fs.len() - 1].1, vt(w), r1, ms);
        lemma_take_union(m, kp as int, kl as int);
        let t = m.take((kp + kl) as int).to_set();
        let t2 = ms.take(kl as int).to_set();
        assert(!t2.contains(w)) by {
            if t2.contains(w) {
                lemma_in_take(ms, kl as int, w);
                let j = choose|j: int| 0 <= j < kl && #[trigger] ms[j] == w;
                assert(reg_live(a.reg).contains(ms[j]));
            }
        }
        crate::mir_builder::lemma_release_live(f.reg, w);
        assert(reg_live(reg_release(f.reg, w)) =~= reg_live(r).difference(t));
    }
}

} // verus!

verus! {

#[verifier::spinoff_prover]
#[verifier::rlimit(60)]
proof fn lemma_des_ovf(d: Des, c: CtxV, t: Type, r: RegState, m: Seq<u16>)
    ensures
        r.overflow ==> des_s(d, c, t, r, m).0.reg.overflow,
    decreases t, 2int,
{
    match t {
        Type::Vector(v) => lemma_vector_ovf(d, c, v, r),
        Type::Array(a) => lemma_des_array_ovf(d, c, a, r, m),
        Type::SetOf(st) => lemma_des_set_ovf(d, c, st, r, m),
        Type::MapOf(mt) => lemma_des_map_ovf(d, c, mt, r, m),
        Type::Struct(st) => {
            lemma_des_fields_ovf(d, c, st.fields@, r, m);
            let (f, vs) = des_fields_s(d, c, st.fields@, r, m);
            crate::mir_builder::lemma_release_all_ovf(reg_alloc(f.reg).0, vs);
        },
        _ => {},
    }
}

#[verifier::spinoff_prover]
proof fn lemma_vector_ovf(d: Des, c: CtxV, v: VectorType, r: RegState)
    ensures
        r.overflow ==> des_vector_s(d, c, v, r).0.reg.overflow,
{
}

#[verifier::spinoff_prover]
proof fn lemma_des_array_ovf(d: Des, c: CtxV, a: ArrayType, r: RegState, m: Seq<u16>)
    ensures
        r.overflow ==> des_array_s(d, c, a, r, m).0.reg.overflow,
    decreases a, 1int,
{
    let (l, n) = des_length_s(d, c, r, a.len);
    let (r2, arr) = reg_alloc(l.reg);
    let (r3, i) = reg_alloc(r2);
    lemma_des_ovf(d, c, *a.item, r3, m);
}

#[verifier::spinoff_prover]
proof fn lemma_des_set_ovf(d: Des, c: CtxV, st: SetType, r: RegState, m: Seq<u16>)
    ensures
        r.overflow ==> des_set_s(d, c, st, r, m).0.reg.overflow,
    decreases st, 1int,
{
    let (r1, n) = reg_alloc(r);
    let (r2, set) = reg_alloc(r1);
    let (r3, i) = reg_alloc(r2);
    lemma_des_ovf(d, c, *st.item, r3, m);
}

#[verifier::spinoff_prover]
proof fn lemma_des_map_ovf(d: Des, c: CtxV, mt: MapType, r: RegState, m: Seq<u16>)
    ensures
        r.overflow ==> des_map_s(d, c, mt, r, m).0.reg.overflow,
    decreases mt, 1int,
{
    let (r1, n) = reg_alloc(r);
    let (r2, map) = reg_alloc(r1);
    let (r3, i) = reg_alloc(r2);
    lemma_des_ovf(d, c, *mt.index, r3, m);
    let (bi, k) = des_s(d, c, *mt.index, r3, m);
    lemma_des_ovf(d, c, *mt.value, bi.reg, m.skip(enums_in(*mt.index) as int));
}

#[verifier::spinoff_prover]
proof fn lemma_des_fields_ovf(d: Des, c: CtxV, fs: Seq<(String, Type)>, r: RegState, m: Seq<u16>)
    ensures
        r.overflow ==> des_fields_s(d, c, fs, r, m).0.reg.overflow,
    decreases fs, 1int,
{
    if fs.len() > 0 {
        let p = fs.subrange(0, fs.len() - 1);
        lemma_des_fields_ovf(d, c, p, r, m);
        let (a, vs) = des_fields_s(d, c, p, r, m);
        lemma_des_ovf(d, c, fs[fs.len() - 1].1, a.reg, m.skip(fields_enums(p) as int));
    }
}

/// Reading a number adds one variable in use, the one that holds it.
#[verifier::spinoff_prover]
proof fn lemma_number_live(d: Des, c: CtxV, n: NumberType, r: RegState)
    requires
        reg_wf(r),
        !des_number_s(d, c, n, r).0.reg.overflow,
    ensures
        !r.overflow,
        reg_wf(des_number_s(d, c, n, r).0.reg),
        !reg_live(r).contains(des_number_s(d, c, n, r).1),
        reg_live(des_number_s(d, c, n, r).0.reg) == reg_live(r).insert(des_number_s(d, c, n, r).1),
{
    let (r1, v) = reg_alloc(r);
    if is_24_kind(n.kind) {
        let (r2, w) = reg_alloc(r1);
        lemma_fresh(r);
        lemma_fresh(r1);
        crate::mir_builder::lemma_release_live(r2, v);
        assert(reg_live(reg_release(r2, v)) =~= reg_live(r).insert(w));
    } else {
        lemma_fresh(r);
    }
}

#[verifier::spinoff_prover]
proof fn lemma_number_ovf(d: Des, c: CtxV, n: NumberType, r: RegState)
    ensures
        r.overflow ==> des_number_s(d, c, n, r).0.reg.overflow,
{
}

#[verifier::rlimit(60)]
#[verifier::spinoff_prover]
proof fn lemma_vector_live(d: Des, c: CtxV, v: VectorType, r: RegState)
    requires
        reg_wf(r),
        !des_vector_s(d, c, v, r).0.reg.overflow,
    ensures
        !r.overflow,
        reg_wf(des_vector_s(d, c, v, r).0.reg),
        !reg_live(r).contains(des_vector_s(d, c, v, r).1),
        reg_live(des_vector_s(d, c, v, r).0.reg) == reg_live(r).insert(des_vector_s(d, c, v, r).1),
{
    let (a, x) = des_number_s(d, c, v.x, r);
    let (b, y) = des_number_s(d, c, v.y, a.reg);
    match v.z {
        Some(zt) => {
            let (e, z) = des_number_s(d, c, zt, b.reg);
            let (r3, w) = reg_alloc(e.reg);
            assert(!r3.overflow);
            assert(!e.reg.overflow);
            lemma_number_ovf(d, c, zt, b.reg);
            lemma_number_ovf(d, c, v.y, a.reg);
            lemma_number_live(d, c, v.x, r);
            lemma_number_live(d, c, v.y, a.reg);
            lemma_number_live(d, c, zt, b.reg);
            lemma_fresh(e.reg);
            crate::mir_builder::lemma_release_live(r3, z);
            crate::mir_builder::lemma_release_live(reg_release(r3, z), y);
            crate::mir_builder::lemma_release_live(reg_release(reg_release(r3, z), y), x);
            assert(reg_live(reg_release(reg_release(reg_release(r3, z), y), x)) =~= reg_live(r).insert(w));
        },
        None => {
            let (r3, w) = reg_alloc(b.reg);
            assert(!r3.overflow);
            assert(!b.reg.overflow);
            lemma_number_ovf(d, c, v.y, a.reg);
            lemma_number_live(d, c, v.x, r);
            lemma_number_live(d, c, v.y, a.reg);
            lemma_fresh(b.reg);
            crate::mir_builder::lemma_release_live(r3, y);
            crate::mir_builder::lemma_release_live(reg_release(r3, y), x);
            assert(reg_live(reg_release(reg_release(r3, y), x)) =~= reg_live(r).insert(w));
        },
    }
}

#[verifier::spinoff_prover]
proof fn lemma_des_string_live(d: Des, c: CtxV, utf8: bool, len: Length, r: RegState)
    requires
        reg_wf(r),
        !des_string_s(d, c, utf8, len, r).0.reg.overflow,
    ensures
        !r.overflow,
        reg_wf(des_string_s(d, c, utf8, len, r).0.reg),
        !reg_live(r).contains(des_string_s(d, c, utf8, len, r).1),
        reg_live(des_string_s(d, c, utf8, len, r).0.reg) == reg_live(r).insert(des_string_s(d, c, utf8, len, r).1),
{
    let (r1, n) = reg_alloc(r);
    let (r2, s) = reg_alloc(r1);
    lemma_fresh(r);
    lemma_fresh(r1);
    crate::mir_builder::lemma_release_live(r2, n);
    assert(reg_live(reg_release(r2, n)) =~= reg_live(r).insert(s));
}

/// Reading a value hands back every variable it takes but the one that
/// holds the value, and the tables of its enums: the variables in use
/// afterwards are those in use before, less the first `enums_in(t)` of
/// `m`, and the new one.
#[verifier::rlimit(60)]
#[verifier::spinoff_prover]
pub proof fn lemma_des_live(d: Des, c: CtxV, t: Type, r: RegState, m: Seq<u16>)
    requires
        reg_wf(r),
        !des_s(d, c, t, r, m).0.reg.overflow,
        tables_ok(r, m, enums_in(t)),
    ensures
        !r.overflow,
        reg_wf(des_s(d, c, t, r, m).0.reg),
        !reg_live(r).difference(m.take(enums_in(t) as int).to_set()).contains(des_s(d, c, t, r, m).1),
        reg_live(des_s(d, c, t, r, m).0.reg) == reg_live(r).difference(
            m.take(enums_in(t) as int).to_set(),
        ).insert(des_s(d, c, t, r, m).1),
    decreases t, 2int,
{
    assert(m.take(0).to_set() =~= Set::<u16>::empty());
    assert(reg_live(r).difference(Set::<u16>::empty()) =~= reg_live(r));
    match t {
        Type::Boolean(_) => {
            let (r1, v) = reg_alloc(r);
            let (r2, w) = reg_alloc(r1);
            lemma_fresh(r);
            lemma_fresh(r1);
            crate::mir_builder::lemma_release_live(r2, v);
            assert(reg_live(reg_release(r2, v)) =~= reg_live(r).insert(w));
        },
        Type::Number(n) => lemma_number_live(d, c, n, r),
        Type::Vector(v) => lemma_vector_live(d, c, v, r),
        Type::BinaryString(bs) => lemma_des_string_live(d, c, false, bs.len, r),
        Type::Utf8String(us) => lemma_des_string_live(d, c, true, us.len, r),
        Type::Array(a) => lemma_des_array_live(d, c, a, r, m),
        Type::SetOf(st) => lemma_des_set_live(d, c, st, r, m),
        Type::MapOf(mt) => lemma_des_map_live(d, c, mt, r, m),
        Type::Enum(e) => lemma_des_enum_live(d, c, e, r, m),
        Type::Struct(st) => lemma_des_struct_live(d, c, st, r, m),
    }
}

#[verifier::spinoff_prover]
proof fn lemma_des_enum_live(d: Des, c: CtxV, e: EnumType, r: RegState, m: Seq<u16>)
    requires
        reg_wf(r),
        !des_enum_s(d, c, e, r, m).0.reg.overflow,
        tables_ok(r, m, 1),
    ensures
        !r.overflow,
        reg_wf(des_enum_s(d, c, e, r, m).0.reg),
        !reg_live(r).difference(m.take(1).to_set()).contains(des_enum_s(d, c, e, r, m).1),
        reg_live(des_enum_s(d, c, e, r, m).0.reg) == reg_live(r).difference(m.take(1).to_set()).insert(
            des_enum_s(d, c, e, r, m).1,
        ),
{
    let (r1, v) = reg_alloc(r);
    let (r2, w) = reg_alloc(r1);
    lemma_fresh(r);
    lemma_fresh(r1);
    crate::mir_builder::lemma_release_live(r2, v);
    crate::mir_builder::lemma_release_live(reg_release(r2, v), m[0]);
    assert forall|u: u16| m.take(1).to_set().contains(u) <==> u == m[0] by {
        if m.take(1).contains(u) {
            let k = choose|k: int| 0 <= k < 1 && #[trigger] m.take(1)[k] == u;
            assert(k == 0);
        }
        if u == m[0] {
            assert(m.take(1)[0] == u);
        }
    }
    assert(reg_live(reg_release(reg_release(r2, v), m[0])) =~= reg_live(r).difference(m.take(1).to_set()).insert(w));
}

#[verifier::spinoff_prover]
proof fn lemma_des_array_live(d: Des, c: CtxV, a: ArrayType, r: RegState, m: Seq<u16>)
    requires
        reg_wf(r),
        !des_array_s(d, c, a, r, m).0.reg.overflow,
        tables_ok(r, m, enums_in(*a.item)),
    ensures
        !r.overflow,
        reg_wf(des_array_s(d, c, a, r, m).0.reg),
        !reg_live(r).difference(m.take(enums_in(*a.item) as int).to_set()).contains(des_array_s(d, c, a, r, m).1),
        reg_live(des_array_s(d, c, a, r, m).0.reg) == reg_live(r).difference(
            m.take(enums_in(*a.item) as int).to_set(),
        ).insert(des_array_s(d, c, a, r, m).1),
    decreases a, 1int,
{
    let k = enums_in(*a.item);
    let t = m.take(k as int).to_set();
    let (l, n) = des_length_s(d, c, r, a.len);
    let (r2, arr) = reg_alloc(l.reg);
    let (r3, i) = reg_alloc(r2);
    let (body, v) = des_s(d, c, *a.item, r3, m);
    lemma_des_ovf(d, c, *a.item, r3, m);
    lemma_fresh(r);
    lemma_fresh(l.reg);
    lemma_fresh(r2);
    lemma_des_live(d, c, *a.item, r3, m);
    assert(!t.contains(n) && !t.contains(arr) && !t.contains(i)) by {
        if t.contains(n) {
            lemma_in_take(m, k as int, n);
        }
        if t.contains(arr) {
            lemma_in_take(m, k as int, arr);
        }
        if t.contains(i) {
            lemma_in_take(m, k as int, i);
        }
    }
    let q1 = reg_release(body.reg, v);
    let q2 = reg_release(q1, i);
    crate::mir_builder::lemma_release_live(body.reg, v);
    crate::mir_builder::lemma_release_live(q1, i);
    crate::mir_builder::lemma_release_live(q2, n);
    assert(reg_live(reg_release(q2, n)) =~= reg_live(r).difference(t).insert(arr));
}

#[verifier::spinoff_prover]
proof fn lemma_des_set_live(d: Des, c: CtxV, st: SetType, r: RegState, m: Seq<u16>)
    requires
        reg_wf(r),
        !des_set_s(d, c, st, r, m).0.reg.overflow,
        tables_ok(r, m, enums_in(*st.item)),
    ensures
        !r.overflow,
        reg_wf(des_set_s(d, c, st, r, m).0.reg),
        !reg_live(r).difference(m.take(enums_in(*st.item) as int).to_set()).contains(des_set_s(d, c, st, r, m).1),
        reg_live(des_set_s(d, c, st, r, m).0.reg) == reg_live(r).difference(
            m.take(enums_in(*st.item) as int).to_set(),
        ).insert(des_set_s(d, c, st, r, m).1),
    decreases st, 1int,
{
    let k = enums_in(*st.item);
    let t = m.take(k as int).to_set();
    let (r1, n) = reg_alloc(r);
    let (r2, set) = reg_alloc(r1);
    let (r3, i) = reg_alloc(r2);
    let (body, v) = des_s(d, c, *st.item, r3, m);
    lemma_des_ovf(d, c, *st.item, r3, m);
    lemma_fresh(r);
    lemma_fresh(r1);
    lemma_fresh(r2);
    lemma_des_live(d, c, *st.item, r3, m);
    assert(!t.contains(n) && !t.contains(set) && !t.contains(i)) by {
        if t.contains(n) {
            lemma_in_take(m, k as int, n);
        }
        if t.contains(set) {
            lemma_in_take(m, k as int, set);
        }
        if t.contains(i) {
            lemma_in_take(m, k as int, i);
        }
    }
    let q1 = reg_release(body.reg, v);
    let q2 = reg_release(q1, i);
    crate::mir_builder::lemma_release_live(body.reg, v);
    crate::mir_builder::lemma_release_live(q1, i);
    crate::mir_builder::lemma_release_live(q2, n);
    assert(reg_live(reg_release(q2, n)) =~= reg_live(r).difference(t).insert(set));
}

#[verifier::rlimit(60)]
#[verifier::spinoff_prover]
proof fn lemma_des_map_live(d: Des, c: CtxV, mt: MapType, r: RegState, m: Seq<u16>)
    requires
        reg_wf(r),
        !des_map_s(d, c, mt, r, m).0.reg.overflow,
        tables_ok(r, m, enums_in(*mt.index) + enums_in(*mt.value)),
    ensures
        !r.overflow,
        reg_wf(des_map_s(d, c, mt, r, m).0.reg),
        !reg_live(r).difference(m.take((enums_in(*mt.index) + enums_in(*mt.value)) as int).to_set()).contains(
            des_map_s(d, c, mt, r, m).1,
        ),
        reg_live(des_map_s(d, c, mt, r, m).0.reg) == reg_live(r).difference(
            m.take((enums_in(*mt.index) + enums_in(*mt.value)) as int).to_set(),
        ).insert(des_map_s(d, c, mt, r, m).1),
    decreases mt, 1int,
{
    let ki = enums_in(*mt.index);
    let kv = enums_in(*mt.value);
    let ms = m.skip(ki as int);
    let (r1, n) = reg_alloc(r);
    let (r2, map) = reg_alloc(r1);
    let (r3, i) = reg_alloc(r2);
    let (bi, k) = des_s(d, c, *mt.index, r3, m);
    let (bv, v) = des_s(d, c, *mt.value, bi.reg, ms);
    lemma_des_ovf(d, c, *mt.value, bi.reg, ms);
    lemma_des_ovf(d, c, *mt.index, r3, m);
    lemma_fresh(r);
    lemma_fresh(r1);
    lemma_fresh(r2);
    let t1 = m.take(ki as int).to_set();
    let t2 = ms.take(kv as int).to_set();
    lemma_des_live(d, c, *mt.index, r3, m);
    assert forall|j: int| 0 <= j < kv implies reg_live(r).difference(t1).contains(#[trigger] ms[j]) by {
        assert(ms[j] == m[ki + j]);
        assert(reg_live(r).contains(m[ki + j]));
        if t1.contains(ms[j]) {
            lemma_in_take(m, ki as int, ms[j]);
            let q = choose|q: int| 0 <= q < ki && #[trigger] m[q] == ms[j];
            assert(m[q] != m[ki + j]);
        }
    }
    assert forall|j: int| 0 <= j < kv implies reg_live(bi.reg).contains(#[trigger] ms[j]) by {
        assert(reg_live(r).difference(t1).contains(ms[j]));
        assert(reg_live(r3).contains(ms[j]));
    }
    assert forall|a: int, b: int| 0 <= a < b < kv implies ms[a] != ms[b] by {
        assert(ms[a] == m[ki + a] && ms[b] == m[ki + b]);
    }
    lemma_des_live(d, c, *mt.value, bi.reg, ms);
    lemma_take_union(m, ki as int, kv as int);
    let t = m.take((ki + kv) as int).to_set();
    assert(!t.contains(n) && !t.contains(map) && !t.contains(i)) by {
        if t.contains(n) {
            lemma_in_take(m, (ki + kv) as int, n);
        }
        if t.contains(map) {
            lemma_in_take(m, (ki + kv) as int, map);
        }
        if t.contains(i) {
            lemma_in_take(m, (ki + kv) as int, i);
        }
    }
    assert(!t2.contains(k)) by {
        if t2.contains(k) {
            lemma_in_take(ms, kv as int, k);
            let j = choose|j: int| 0 <= j < kv && #[trigger] ms[j] == k;
            assert(reg_live(r).difference(t1).contains(ms[j]));
        }
    }
    let q1 = reg_release(bv.reg, v);
    let q2 = reg_release(q1, k);
    let q3 = reg_release(q2, i);
    crate::mir_builder::lemma_release_live(bv.reg, v);
    crate::mir_builder::lemma_release_live(q1, k);
    crate::mir_builder::lemma_release_live(q2, i);
    crate::mir_builder::lemma_release_live(q3, n);
    assert(reg_live(reg_release(q3, n)) =~= reg_live(r).difference(t).insert(map));
}

#[verifier::spinoff_prover]
proof fn lemma_des_struct_live(d: Des, c: CtxV, st: StructType, r: RegState, m: Seq<u16>)
    requires
        reg_wf(r),
        !des_struct_s(d, c, st, r, m).0.reg.overflow,
        tables_ok(r, m, fields_enums(st.fields@)),
    ensures
        !r.overflow,
        reg_wf(des_struct_s(d, c, st, r, m).0.reg),
        !reg_live(r).difference(m.take(fields_enums(st.fields@) as int).to_set()).contains(
            des_struct_s(d, c, st, r, m).1,
        ),
        reg_live(des_struct_s(d, c, st, r, m).0.reg) == reg_live(r).difference(
            m.take(fields_enums(st.fields@) as int).to_set(),
        ).insert(des_struct_s(d, c, st, r, m).1),
    decreases st, 1int,
{
    let t = m.take(fields_enums(st.fields@) as int).to_set();
    let (f, vs) = des_fields_s(d, c, st.fields@, r, m);
    let (r1, w) = reg_alloc(f.reg);
    crate::mir_builder::lemma_release_all_ovf(r1, vs);
    lemma_des_fields_live(d, c, st.fields@, r, m);
    lemma_fresh(f.reg);
    assert forall|i: int| 0 <= i < vs.len() implies reg_live(r1).contains(#[trigger] vs[i]) by {
        assert(vs.to_set().contains(vs[i]));
    }
    crate::mir_builder::lemma_release_all_live(r1, vs);
    assert(!vs.to_set().contains(w));
    assert(reg_live(release_all(r1, vs)) =~= reg_live(r).difference(t).insert(w));
}

#[verifier::rlimit(60)]
#[verifier::spinoff_prover]
proof fn lemma_des_fields_live(d: Des, c: CtxV, fs: Seq<(String, Type)>, r: RegState, m: Seq<u16>)
    requires
        reg_wf(r),
        !des_fields_s(d, c, fs, r, m).0.reg.overflow,
        tables_ok(r, m, fields_enums(fs)),
    ensures
        !r.overflow,
        reg_wf(des_fields_s(d, c, fs, r, m).0.reg),
        des_fields_s(d, c, fs, r, m).1.no_duplicates(),
        forall|i: int|
            0 <= i < des_fields_s(d, c, fs, r, m).1.len() ==> !reg_live(r).difference(
                m.take(fields_enums(fs) as int).to_set(),
            ).contains(#[trigger] des_fields_s(d, c, fs, r, m).1[i]),
        reg_live(des_fields_s(d, c, fs, r, m).0.reg) == reg_live(r).difference(
            m.take(fields_enums(fs) as int).to_set(),
        ).union(des_fields_s(d, c, fs, r, m).1.to_set()),
    decreases fs, 1int,
{
    if fs.len() == 0 {
        assert(m.take(0).to_set() =~= Set::<u16>::empty());
        assert(reg_live(r).difference(Set::<u16>::empty()).union(Seq::<u16>::empty().to_set()) =~= reg_live(r));
    } else {
        let p = fs.subrange(0, fs.len() - 1);
        let kp = fields_enums(p);
        let kl = enums_in(fs[fs.len() - 1].1);
        let ms = m.skip(kp as int);
        let (a, vs) = des_fields_s(d, c, p, r, m);
        let (f, v) = des_s(d, c, fs[fs.len() - 1].1, a.reg, ms);
        lemma_des_ovf(d, c, fs[fs.len() - 1].1, a.reg, ms);
        lemma_des_fields_live(d, c, p, r, m);
        let t1 = m.take(kp as int).to_set();
        let t2 = ms.take(kl as int).to_set();
        assert forall|j: int| 0 <= j < kl implies reg_live(r).difference(t1).contains(#[trigger] ms[j]) by {
            assert(ms[j] == m[kp + j]);
            assert(reg_live(r).contains(m[kp + j]));
            if t1.contains(ms[j]) {
                lemma_in_take(m, kp as int, ms[j]);
                let q = choose|q: int| 0 <= q < kp && #[trigger] m[q] == ms[j];
                assert(m[q] != m[kp + j]);
            }
        }
        assert forall|j: int| 0 <= j < kl implies reg_live(a.reg).contains(#[trigger] ms[j]) by {
            assert(reg_live(r).difference(t1).contains(ms[j]));
        }
        assert forall|i: int, j: int| 0 <= i < j < kl implies ms[i] != ms[j] by {
            assert(ms[i] == m[kp + i] && ms[j] == m[kp + j]);
        }
        lemma_des_live(d, c, fs[fs.len() - 1].1, a.reg, ms);
        lemma_take_union(m, kp as int, kl as int);
        let t = m.take((kp + kl) as int).to_set();
        let ws = vs.push(v);
        assert(!vs.contains(v)) by {
            if vs.contains(v) {
                let q = choose|q: int| 0 <= q < vs.len() && #[trigger] vs[q] == v;
                assert(vs.to_set().contains(vs[q]));
                assert(!reg_live(r).difference(t1).contains(vs[q]));
                if t2.contains(v) {
                    lemma_in_take(ms, kl as int, v);
                    let j = choose|j: int| 0 <= j < kl && #[trigger] ms[j] == v;
                    assert(reg_live(r).difference(t1).contains(ms[j]));
                }
            }
        }
        assert forall|i: int, j: int| 0 <= i < j < ws.len() implies ws[i] != ws[j] by {
            if j == ws.len() - 1 {
                assert(ws[i] == vs[i]);
                assert(vs.contains(vs[i]));
            } else {
                assert(ws[i] == vs[i] && ws[j] == vs[j]);
            }
        }
        assert forall|i: int| 0 <= i < ws.len() implies !reg_live(r).difference(t).contains(#[trigger] ws[i]) by {
            if i < vs.len() {
                assert(ws[i] == vs[i]);
                assert(!reg_live(r).difference(t1).contains(vs[i]));
            }
        }
        assert forall|i: int| 0 <= i < vs.len() implies !t2.contains(#[trigger] vs[i]) by {
            if t2.contains(vs[i]) {
                lemma_in_take(ms, kl as int, vs[i]);
                let j = choose|j: int| 0 <= j < kl && #[trigger] ms[j] == vs[i];
                assert(reg_live(r).difference(t1).contains(ms[j]));
            }
        }
        vs.lemma_push_to_set_commute(v);
        assert(reg_live(f.reg) =~= reg_live(r).difference(t).union(ws.to_set()));
    }
}

} // verus!

verus! {

/// A bound that the generated code compares a value with: at least, or at
/// most, a number.
pub enum Bound {
    AtLeast(Num),
    AtMost(Num),
}

/// `(x >= n)` or `(x <= n)`.
pub open spec fn bound_text(x: Seq<char>, b: Bound) -> Seq<char> {
    match b {
        Bound::AtLeast(n) => bin_t(x, BinOp::Ge, num_text(n)),
        Bound::AtMost(n) => bin_t(x, BinOp::Le, num_text(n)),
    }
}

/// The value `v` meets the bound.
pub open spec fn bound_holds(b: Bound, v: Num) -> bool {
    match b {
        Bound::AtLeast(n) => num_le(n, v),
        Bound::AtMost(n) => num_le(v, n),
    }
}

/// The bounds joined by `and`.
pub open spec fn bounds_text(x: Seq<char>, bs: Seq<Bound>) -> Seq<char>
    decreases bs.len(),
{
    if bs.len() <= 1 {
        bound_text(x, bs[0])
    } else {
        bin_t(bounds_text(x, bs.drop_last()), BinOp::And, bound_text(x, bs.last()))
    }
}

/// The values a range stands for: at least its lower bound when it has one,
/// at most its upper bound when it has one.
pub open spec fn in_range(rg: Range, v: Num) -> bool {
    &&& rg.min matches Some(mn) ==> num_le(mn, v)
    &&& rg.max matches Some(mx) ==> num_le(v, mx)
}

/// The range check lets through exactly the values of the range: with no
/// bound it is no code at all; else it raises an error unless the value
/// meets a list of bounds, and a value meets them all exactly when it is in
/// the range (at least the minimum if there is one, at most the maximum if
/// there is one).
pub proof fn lemma_range_check_meaning(x: Seq<char>, rg: Range)
    ensures
        rg.min is None && rg.max is None ==> range_check_t(x, rg) == Seq::<char>::empty(),
        !(rg.min is None && rg.max is None) ==> exists|bs: Seq<Bound>, msg: Seq<char>|
            {
                &&& bs.len() > 0
                &&& range_check_t(x, rg) == assert_text(bounds_text(x, bs), msg)
                &&& forall|v: Num|
                    (forall|i: int| 0 <= i < bs.len() ==> #[trigger] bound_holds(bs[i], v)) <==> in_range(
                        rg,
                        v,
                    )
            },
{
    match (rg.min, rg.max) {
        (Some(mn), Some(mx)) => {
            let bs = seq![Bound::AtLeast(mn), Bound::AtMost(mx)];
            assert(bs.drop_last() =~= seq![Bound::AtLeast(mn)]);
            assert(bounds_text(x, bs.drop_last()) == bound_text(x, Bound::AtLeast(mn)));
            assert(bs.last() == Bound::AtMost(mx));
            assert(bounds_text(x, bs) == bin_t(bound_text(x, Bound::AtLeast(mn)), BinOp::And, bound_text(x, Bound::AtMost(mx))));
            let msg = "value out of bounds ["@ + num_text(mn) + ", "@ + num_text(mx) + "]"@;
            assert(range_check_t(x, rg) == assert_text(bounds_text(x, bs), msg));
            assert forall|v: Num| (forall|i: int| 0 <= i < bs.len() ==> #[trigger] bound_holds(bs[i], v))
                <==> in_range(rg, v) by {
                if in_range(rg, v) {
                    assert forall|i: int| 0 <= i < bs.len() implies #[trigger] bound_holds(bs[i], v) by {}
                } else {
                    if !num_le(mn, v) {
                        assert(!bound_holds(bs[0], v));
                    } else {
                        assert(!bound_holds(bs[1], v));
                    }
                }
            }
        },
        (Some(mn), None) => {
            let bs = seq![Bound::AtLeast(mn)];
            let msg = "value out of bounds ["@ + num_text(mn) + ", inf]"@;
            assert(range_check_t(x, rg) == assert_text(bounds_text(x, bs), msg));
            assert forall|v: Num| (forall|i: int| 0 <= i < bs.len() ==> #[trigger] bound_holds(bs[i], v))
                <==> in_range(rg, v) by {
                if !in_range(rg, v) {
                    assert(!bound_holds(bs[0], v));
                }
            }
        },
        (None, Some(mx)) => {
            let bs = seq![Bound::AtMost(mx)];
            let msg = "value out of bounds [-inf, "@ + num_text(mx) + "]"@;
            assert(range_check_t(x, rg) == assert_text(bounds_text(x, bs), msg));
            assert forall|v: Num| (forall|i: int| 0 <= i < bs.len() ==> #[trigger] bound_holds(bs[i], v))
                <==> in_range(rg, v) by {
                if !in_range(rg, v) {
                    assert(!bound_holds(bs[0], v));
                }
            }
        },
        (None, None) => {},
    }
}

/// A set is read into a table that starts empty and has as keys exactly
/// the items read, each set to `true`: the code creates the empty table it
/// returns, and its loop ends by reading one item (with the reader of the
/// item type) and setting that item, as a key, to `true` in the table.
pub proof fn lemma_set_reader_keys(d: Des, c: CtxV, st: SetType, r: RegState, m: Seq<u16>)
    ensures
        ({
            let (e, set) = des_set_s(d, c, st, r, m);
            exists|h0: Seq<char>, h1: Seq<char>, ri: RegState|
                e.text == h0 + ("local "@ + vt(set) + " = "@ + empty_table_t() + ";"@) + h1 + des_s(
                    d,
                    c,
                    *st.item,
                    ri,
                    m,
                ).0.text + (vt(set) + "["@ + vt(des_s(d, c, *st.item, ri, m).1) + "] = "@ + "true"@ + ";"@)
                    + " end;"@
        }),
{
    let (r1, n) = reg_alloc(r);
    let (r2, set) = reg_alloc(r1);
    let (r3, i) = reg_alloc(r2);
    let (body, v) = des_s(d, c, *st.item, r3, m);
    let h0 = count_read_t(d, c, st.len, n);
    let h1 = "for "@ + vt(i) + " = "@ + nat_text(1) + ", "@ + vt(n) + " do "@;
    assert(init_t(set, empty_table_t()) =~= "local "@ + vt(set) + " = "@ + empty_table_t() + ";"@);
    assert(assign_index_t(set, vt(v), "true"@) =~= vt(set) + "["@ + vt(v) + "] = "@ + "true"@ + ";"@);
    assert(for_range_t(i, nat_text(1), vt(n), body.text + assign_index_t(set, vt(v), "true"@)) =~= h1 + body.text
        + assign_index_t(set, vt(v), "true"@) + " end;"@);
    assert(des_set_s(d, c, st, r, m).0.text =~= h0 + ("local "@ + vt(set) + " = "@ + empty_table_t() + ";"@) + h1
        + body.text + (vt(set) + "["@ + vt(v) + "] = "@ + "true"@ + ";"@) + " end;"@);
    assert(des_set_s(d, c, st, r, m).1 == set);
}

/// A map is read into a table that starts empty and, in its loop, reads a
/// key and then a value (with the readers of their types) and sets the key
/// to the value in the table it returns.
proof fn lemma_assoc_reader(
    a: Seq<char>,
    b: Seq<char>,
    h: Seq<char>,
    x: Seq<char>,
    y: Seq<char>,
    z: Seq<char>,
    e: Seq<char>,
)
    ensures
        a + b + (h + (x + y + z) + e) == a + b + h + x + y + z + e,
{
    assert(a + b + (h + (x + y + z) + e) =~= a + b + h + x + y + z + e);
}

#[verifier::spinoff_prover]
#[verifier::rlimit(40)]
pub proof fn lemma_map_reader_pairs(d: Des, c: CtxV, mt: MapType, r: RegState, m: Seq<u16>)
    ensures
        ({
            let (e, map) = des_map_s(d, c, mt, r, m);
            exists|h0: Seq<char>, h1: Seq<char>, rk: RegState|
                e.text == h0 + ("local "@ + vt(map) + " = "@ + empty_table_t() + ";"@) + h1 + des_s(
                    d,
                    c,
                    *mt.index,
                    rk,
                    m,
                ).0.text + des_s(
                    d,
                    c,
                    *mt.value,
                    des_s(d, c, *mt.index, rk, m).0.reg,
                    m.skip(enums_in(*mt.index) as int),
                ).0.text + (vt(map) + "["@ + vt(des_s(d, c, *mt.index, rk, m).1) + "] = "@ + vt(
                    des_s(
                        d,
                        c,
                        *mt.value,
                        des_s(d, c, *mt.index, rk, m).0.reg,
                        m.skip(enums_in(*mt.index) as int),
                    ).1,
                ) + ";"@) + " end;"@
        }),
{
    let (r1, n) = reg_alloc(r);
    let (r2, map) = reg_alloc(r1);
    let (r3, i) = reg_alloc(r2);
    let (bi, k) = des_s(d, c, *mt.index, r3, m);
    let (bv, v) = des_s(d, c, *mt.value, bi.reg, m.skip(enums_in(*mt.index) as int));
    let h0 = count_read_t(d, c, mt.len, n);
    let h1 = "for "@ + vt(i) + " = "@ + nat_text(1) + ", "@ + vt(n) + " do "@;
    let kv = vt(map) + "["@ + vt(k) + "] = "@ + vt(v) + ";"@;
    assert(init_t(map, empty_table_t()) =~= "local "@ + vt(map) + " = "@ + empty_table_t() + ";"@);
    assert(assign_index_t(map, vt(k), vt(v)) =~= kv);
    assert(for_range_t(i, nat_text(1), vt(n), bi.text + bv.text + kv) =~= h1 + (bi.text + bv.text + kv) + " end;"@);
    assert(des_map_s(d, c, mt, r, m).0.text == h0 + init_t(map, empty_table_t()) + for_range_t(
        i,
        nat_text(1),
        vt(n),
        bi.text + bv.text + assign_index_t(map, vt(k), vt(v)),
    ));
    lemma_assoc_reader(h0, init_t(map, empty_table_t()), h1, bi.text, bv.text, kv, " end;"@);
    assert(des_map_s(d, c, mt, r, m).1 == map);
}

/// An array is read into a table made for as many items as its length, and
/// in its loop over the positions `i` from 1 to the length, an item is read
/// (with the reader of the item type) and put at position `i`.
pub proof fn lemma_array_reader_items(d: Des, c: CtxV, a: ArrayType, r: RegState, m: Seq<u16>)
    ensures
        ({
            let (e, arr) = des_array_s(d, c, a, r, m);
            exists|h0: Seq<char>, n: u16, i: u16, ri: RegState|
                e.text == h0 + ("local "@ + vt(arr) + " = "@ + call1_t("table.create"@, vt(n)) + ";"@) + (
                "for "@ + vt(i) + " = "@ + nat_text(1) + ", "@ + vt(n) + " do "@) + des_s(d, c, *a.item, ri, m).0.text
                    + (vt(arr) + "["@ + vt(i) + "] = "@ + vt(des_s(d, c, *a.item, ri, m).1) + ";"@) + " end;"@
        }),
{
    let (l, n) = des_length_s(d, c, r, a.len);
    let (r2, arr) = reg_alloc(l.reg);
    let (r3, i) = reg_alloc(r2);
    let (body, v) = des_s(d, c, *a.item, r3, m);
    let h1 = "for "@ + vt(i) + " = "@ + nat_text(1) + ", "@ + vt(n) + " do "@;
    let iv = vt(arr) + "["@ + vt(i) + "] = "@ + vt(v) + ";"@;
    assert(init_t(arr, call1_t("table.create"@, vt(n))) =~= "local "@ + vt(arr) + " = "@ + call1_t("table.create"@, vt(n)) + ";"@);
    assert(assign_index_t(arr, vt(i), vt(v)) =~= iv);
    assert(for_range_t(i, nat_text(1), vt(n), body.text + iv) =~= h1 + body.text + iv + " end;"@);
    assert(des_array_s(d, c, a, r, m).0.text =~= l.text + ("local "@ + vt(arr) + " = "@ + call1_t("table.create"@, vt(n)) + ";"@)
        + h1 + body.text + iv + " end;"@);
    assert(des_array_s(d, c, a, r, m).1 == arr);
}

} // verus!

