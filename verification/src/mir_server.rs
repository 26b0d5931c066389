//! The server side of the generated networking code.
//!
//! For each remote, the generated code keeps a table of listeners, one for
//! each event that clients send through it, and a function that reads the
//! index of the event from a packet and hands the packet to its listener.
//! Each such event gets an `iter` function that hands out what was
//! received; each event that the server sends gets a `send` function that
//! writes the packet and fires it to one player.
use vstd::prelude::*;
use crate::hir::{Event, Hir, Item, Table, Type, buckets_view, items_events, kind_for_max, spec_buckets, type_text, push_type};
use crate::mir::{BinOp, Block, Expr, FuncK, Instr, UnOp, Var, exprs_text, expr_text, instr_text, instrs_text, string_literal_text, unop_text};
use crate::mir_builder::{
    Builder, Ctx, CtxV, Em, RegState, TVar, alloc_n, assert_text, bin_t, call1_t, check_t, ctx_v,
    fn_t, ids, index_t, lemma_ids_len, read_k_t, reg_alloc, reg_release, release_all, vt,
    write_k_t,
};
use crate::mir_serdes::{
    Des, Ser, lemma_types_enums_prefix, prep_types, assign_index_t, assign_t, des_s, empty_table_t, enums_in, grew, init_t, lemma_cat,
    out, prep_s, ser_s, types_enums, types_prep_s,
};
use crate::num::Num;
use crate::options::Options;
use crate::shared::{Casing, NetworkSide, NumberKind, Remote, casing_accepts, casing_words, split_words, uuid_text};
use crate::size::{Size, SizeOf, SizeV, sv_exact, sv_gt, sz, types_size, types_size_ok};
use crate::text::nat_text;

verus! {

/// The expression of a variable.
pub open spec fn ev(id: u16) -> Expr {
    Expr::Var(Var { id })
}

/// A whole number as an expression.
pub open spec fn en(n: nat) -> Expr {
    Expr::Number(Num::Finite { neg: false, digits: n as u64, exp: 0 })
}

/// `f(args)`
pub open spec fn call_t(f: Seq<char>, args: Seq<Expr>) -> Seq<char> {
    f + "("@ + exprs_text(args) + ")"@
}

/// `export<path>.<name> = v;`
pub open spec fn export_t(path: Seq<char>, name: Seq<char>, v: u16) -> Seq<char> {
    "export"@ + (path + "."@ + name) + " = "@ + vt(v) + ";"@
}

/// The name of a function of an event: the word in the event's casing.
pub open spec fn event_fn_name(e: Event, word: Seq<char>) -> Seq<char> {
    casing_words(e.opts.casing, split_words(word))
}

/// `table.insert(q, v);`
pub open spec fn insert_t(q: u16, v: u16) -> Seq<char> {
    call_t("table.insert"@, seq![ev(q), ev(v)]) + ";"@
}

/// `return q;` after taking the queue: `local c = q; q = {  };`
pub open spec fn take_queue_t(q: u16, c: u16) -> Seq<char> {
    init_t(c, vt(q)) + assign_t(q, empty_table_t())
}

} // verus!

verus! {

proof fn lemma_split_single(s: Seq<char>)
    requires
        forall|i: int| 0 <= i < s.len() ==> s[i] != ' ',
    ensures
        split_words(s) == seq![s],
    decreases s.len(),
{
    if s.len() > 0 {
        lemma_split_single(s.drop_last());
        assert(s[s.len() - 1] != ' ');
        assert(s.drop_last().push(s.last()) =~= s);
        let ws = seq![s.drop_last()];
        assert(ws.last() == s.drop_last());
        assert(ws.update(0, s) =~= seq![s]);
    } else {
        assert(s =~= seq![]);
    }
}

/// The name of the function `word` (one lower-case word) of an event.
fn fn_name(e: &Event, word: &'static str) -> (r: String)
    requires
        word@.len() > 0,
        forall|i: int| 0 <= i < word@.len() ==> word@[i] != ' ',
    ensures
        r@ == event_fn_name(*e, word@),
{
    proof {
        lemma_split_single(word@);
        assert(seq![word@][0] == word@);
    }
    e.opts.casing.fmt(word)
}

pub(crate) fn iter_name(e: &Event) -> (r: String)
    ensures
        r@ == event_fn_name(*e, "iter"@),
{
    proof {
        reveal_strlit("iter");
    }
    fn_name(e, "iter")
}

pub(crate) fn send_name(e: &Event) -> (r: String)
    ensures
        r@ == event_fn_name(*e, "send"@),
{
    proof {
        reveal_strlit("send");
    }
    fn_name(e, "send")
}

/// `f(args)` for a global function `f`.
pub(crate) fn global_call(f: &'static str, args: Vec<Expr>) -> (e: Expr)
    ensures
        expr_text(e) == call_t(f@, args@),
        e is Call,
{
    let g = Expr::Global(f);
    assert(expr_text(g) == f@);
    g.call(args)
}

/// `table.insert(q, v);`
fn insert(b: &mut Builder, q: &TVar, v: &TVar)
    ensures
        final(b).reg() == old(b).reg(),
        final(b).text() == old(b).text() + insert_t(q.id(), v.id()),
{
    let args = vec![q.expr(), v.expr()];
    assert(args@ == seq![ev(q.id()), ev(v.id())]);
    let c = global_call("table.insert", args);
    b.call(c);
}

/// The listeners of the events that the other side sends through a remote.
pub struct RecvCtx {
    pub jump_tbl: TVar,
    pub item_idx: usize,
}

impl RecvCtx {
    /// Makes `listener` the listener of the current event.
    pub(crate) fn listen(&self, b: &mut Builder, listener: Expr)
        ensures
            final(b).reg() == old(b).reg(),
            final(b).text() == old(b).text() + assign_index_t(
                self.jump_tbl.id(),
                nat_text(self.item_idx as nat),
                expr_text(listener),
            ),
    {
        let k = Expr::from_u64(self.item_idx as u64);
        b.assign_index(&self.jump_tbl, k, listener);
    }
}

/// An event with no data: its listener queues the player who sent it, and
/// `iter` hands out the queue.
pub open spec fn iter0_s(r: RegState, jt: u16, k: nat, path: Seq<char>, e: Event) -> Em {
    let (r1, q) = reg_alloc(r);
    let (r2, l) = reg_alloc(r1);
    let (r3, a1) = alloc_n(r2, 1);
    let r4 = release_all(r3, a1);
    let (r5, it) = reg_alloc(r4);
    let (r6, a0) = alloc_n(r5, 0);
    let (r7, c) = reg_alloc(r6);
    let r8 = release_all(reg_release(r7, c), a0);
    out(
        reg_release(reg_release(reg_release(r8, it), l), q),
        init_t(q, empty_table_t()) + fn_t(l, a1, insert_t(q, a1[0])) + assign_index_t(
            jt,
            nat_text(k),
            vt(l),
        ) + fn_t(it, a0, take_queue_t(q, c) + ("return "@ + exprs_text(seq![ev(c)]) + ";"@))
            + export_t(path, event_fn_name(e, "iter"@), it),
    )
}

fn iter_0data(b: &mut Builder, recv: &RecvCtx, path: &str, e: &Event)
    ensures
        grew(
            old(b).em(),
            final(b).em(),
            iter0_s(old(b).reg(), recv.jump_tbl.id(), recv.item_idx as nat, path@, *e),
        ),
{
    let ghost t0 = b.text();
    let tbl0 = Expr::Table(Vec::new());
    assert(expr_text(tbl0) == empty_table_t());
    let q = b.init(tbl0);
    let ghost p1 = init_t(q.id(), empty_table_t());
    let (l, a1, mut inner) = b.open_function(1);
    insert(&mut inner, &q, &a1[0]);
    let ghost body1 = insert_t(q.id(), ids(a1@)[0]);
    proof {
        lemma_ids_len(a1@);
        assert(inner.text() =~= body1);
    }
    b.close_function(&l, a1, inner);
    let ghost p2 = fn_t(l.id(), ids(a1@), body1);
    proof {
        lemma_cat(t0, p1, p2);
    }
    let le = l.expr();
    assert(expr_text(le) == vt(l.id()));
    recv.listen(b, le);
    let ghost p3 = assign_index_t(recv.jump_tbl.id(), nat_text(recv.item_idx as nat), vt(l.id()));
    proof {
        lemma_cat(t0, p1 + p2, p3);
    }
    let (it, a0, mut inner) = b.open_function(0);
    let qe = q.expr();
    assert(expr_text(qe) == vt(q.id()));
    let c = inner.init(qe);
    let tbl = Expr::Table(Vec::new());
    assert(expr_text(tbl) == empty_table_t());
    inner.assign(&q, tbl);
    let rets = vec![c.expr()];
    assert(rets@ == seq![ev(c.id())]);
    inner.ret(rets);
    let ghost body2 = take_queue_t(q.id(), c.id()) + ("return "@ + exprs_text(seq![ev(c.id())]) + ";"@);
    assert(inner.text() =~= body2);
    inner.free(c);
    b.close_function(&it, a0, inner);
    let ghost p4 = fn_t(it.id(), ids(a0@), body2);
    proof {
        lemma_cat(t0, p1 + p2 + p3, p4);
    }
    let name = iter_name(e);
    let ie = it.expr();
    assert(expr_text(ie) == vt(it.id()));
    b.export(path, name.as_str(), ie);
    proof {
        lemma_cat(t0, p1 + p2 + p3 + p4, export_t(path@, event_fn_name(*e, "iter"@), it.id()));
    }
    b.free(it);
    b.free(l);
    b.free(q);
}

} // verus!

verus! {

/// How the server reads what an event carries.
pub open spec fn recv_des(e: Event) -> Des {
    Des { opts: e.opts, native: true, check: false }
}

/// Reading each value of a list of types and queueing it in `q`.
pub open spec fn des_all_s(d: Des, c: CtxV, ts: Seq<Type>, r: RegState, m: Seq<u16>, q: u16) -> Em
    decreases ts.len(),
{
    if ts.len() == 0 {
        out(r, seq![])
    } else {
        let a = des_all_s(d, c, ts.drop_last(), r, m, q);
        let (f, v) = des_s(d, c, ts.last(), a.reg, m.skip(types_enums(ts.drop_last()) as int));
        out(reg_release(f.reg, v), a.text + f.text + insert_t(q, v))
    }
}

/// The listener of an event with data: it queues the player, then each
/// value read from the packet.
pub open spec fn recv_listener_s(r: RegState, q: u16, e: Event, m: Seq<u16>) -> (Em, u16) {
    let (r1, l) = reg_alloc(r);
    let (r2, a) = alloc_n(r1, 4);
    let (r3, cb) = reg_alloc(r2);
    let (r4, cp) = reg_alloc(r3);
    let (r5, cl) = reg_alloc(r4);
    let c = CtxV { buf: cb, pos: cp, len: cl };
    let dd = des_all_s(recv_des(e), c, e.data@, r5, m, q);
    (
        out(
            release_all(reg_release(reg_release(reg_release(dd.reg, cb), cp), cl), a),
            fn_t(
                l,
                a,
                init_t(cb, vt(a[1])) + init_t(cp, vt(a[2])) + init_t(cl, vt(a[3])) + insert_t(q, a[0])
                    + dd.text,
            ),
        ),
        l,
    )
}

/// The values that `next` returns for an event of `n` values: the next
/// index, then the player and the values.
pub open spec fn next_rets(cap: u16, i: u16, n: nat) -> Seq<Expr> {
    Seq::new(
        n + 2,
        |j: int|
            if j == 0 {
                Expr::Binary(Box::new(ev(i)), BinOp::Add, Box::new(en(n + 1)))
            } else {
                Expr::Index(
                    Box::new(ev(cap)),
                    Box::new(Expr::Binary(Box::new(ev(i)), BinOp::Add, Box::new(en((j - 1) as nat)))),
                )
            },
    )
}

/// The body of `next`: when the queue has an entry at `i`, the entry.
pub open spec fn next_body_t(cap: u16, i: u16, n: nat) -> Seq<char> {
    "if "@ + ("("@ + unop_text(UnOp::Not) + bin_t(index_t(vt(cap), vt(i)), BinOp::Eq, "nil"@) + ")"@)
        + " then "@ + ("return "@ + exprs_text(next_rets(cap, i, n)) + ";"@) + " else "@ + seq![]
        + " end;"@
}

/// The `next` function of an event of `n` values.
pub open spec fn next_fn_s(r: RegState, n: nat) -> (Em, u16) {
    let (r1, f) = reg_alloc(r);
    let (r2, a) = alloc_n(r1, 2);
    (out(release_all(r2, a), fn_t(f, a, next_body_t(a[0], a[1], n))), f)
}

/// The `iter` function of an event with data: the queue is taken and
/// handed to `next`.
pub open spec fn iter_fn_s(r: RegState, q: u16, nx: u16) -> (Em, u16) {
    let (r1, f) = reg_alloc(r);
    let (r2, a) = alloc_n(r1, 0);
    let (r3, c) = reg_alloc(r2);
    (
        out(
            release_all(reg_release(r3, c), a),
            fn_t(f, a, take_queue_t(q, c) + ("return "@ + exprs_text(seq![ev(nx), ev(c), en(1)]) + ";"@)),
        ),
        f,
    )
}

/// An event with data that clients send.
pub open spec fn iter_n_s(r: RegState, jt: u16, k: nat, path: Seq<char>, e: Event) -> Em {
    let (r1, q) = reg_alloc(r);
    let (p, ms) = types_prep_s(e.data@, r1, false);
    let (lf, l) = recv_listener_s(p.reg, q, e, ms);
    let (nf, nx) = next_fn_s(lf.reg, e.data@.len());
    let (itf, it) = iter_fn_s(nf.reg, q, nx);
    out(
        reg_release(reg_release(reg_release(reg_release(itf.reg, it), nx), l), q),
        init_t(q, empty_table_t()) + p.text + lf.text + assign_index_t(jt, nat_text(k), vt(l))
            + nf.text + itf.text + export_t(path, event_fn_name(e, "iter"@), it),
    )
}

/// An event that clients send.
#[verifier::opaque]
pub open spec fn iter_s(r: RegState, jt: u16, k: nat, path: Seq<char>, e: Event) -> Em {
    if e.data@.len() == 0 {
        iter0_s(r, jt, k, path, e)
    } else {
        iter_n_s(r, jt, k, path, e)
    }
}

#[verifier::rlimit(40)]
pub(crate) fn des_all(d: &Des, b: &mut Builder, ctx: &Ctx, ts: &Vec<Type>, q: &TVar, maps: &mut Vec<TVar>)
    requires
        old(maps)@.len() >= types_enums(ts@),
    ensures
        grew(old(b).em(), final(b).em(), des_all_s(*d, ctx_v(ctx), ts@, old(b).reg(), ids(old(maps)@), q.id())),
{
    let ghost t0 = b.text();
    let ghost r0 = b.reg();
    let ghost m0 = ids(maps@);
    let ghost n0 = maps@.len();
    let ghost c = ctx_v(ctx);
    proof {
        assert(ts@.take(0) =~= Seq::<Type>::empty());
        assert(t0 + seq![] =~= t0);
        assert(m0.skip(0) =~= m0);
        lemma_ids_len(maps@);
    }
    let mut i: usize = 0;
    while i < ts.len()
        invariant
            i <= ts@.len(),
            b.reg() == des_all_s(*d, c, ts@.take(i as int), r0, m0, q.id()).reg,
            b.text() == t0 + des_all_s(*d, c, ts@.take(i as int), r0, m0, q.id()).text,
            ids(maps@) == m0.skip(types_enums(ts@.take(i as int)) as int),
            types_enums(ts@.take(i as int)) <= types_enums(ts@),
            m0.len() == n0,
            n0 >= types_enums(ts@),
            maps@.len() == n0 - types_enums(ts@.take(i as int)),
            c == ctx_v(ctx),
        decreases ts.len() - i,
    {
        proof {
            lemma_types_enums_prefix(ts@, i as int);
            lemma_types_enums_prefix(ts@, i as int + 1);
            assert(ts@.take(i + 1).drop_last() =~= ts@.take(i as int));
            assert(ts@.take(i + 1).last() == ts@[i as int]);
        }
        let ghost pre = ts@.take(i as int);
        let ghost a = des_all_s(*d, c, pre, r0, m0, q.id());
        let ghost before = maps@;
        let v = d.emit(b, ctx, &ts[i], maps);
        let ghost f = des_s(*d, c, ts@[i as int], a.reg, m0.skip(types_enums(pre) as int)).0;
        proof {
            lemma_ids_len(before);
            lemma_ids_len(maps@);
            lemma_cat(t0, a.text, f.text);
            crate::mir_serdes::lemma_skip_skip(m0, types_enums(pre) as int, enums_in(ts@[i as int]) as int);
        }
        insert(b, q, &v);
        proof {
            lemma_cat(t0, a.text + f.text, insert_t(q.id(), v.id()));
        }
        b.free(v);
        i += 1;
    }
    assert(ts@.take(ts@.len() as int) =~= ts@);
}

fn recv_listener(b: &mut Builder, q: &TVar, e: &Event, maps: &mut Vec<TVar>) -> (l: TVar)
    requires
        old(maps)@.len() >= types_enums(e.data@),
    ensures
        grew(old(b).em(), final(b).em(), recv_listener_s(old(b).reg(), q.id(), *e, ids(old(maps)@)).0),
        l.id() == recv_listener_s(old(b).reg(), q.id(), *e, ids(old(maps)@)).1,
{
    let ghost m0 = ids(maps@);
    let ghost t0 = b.text();
    let (l, a, mut inner) = b.open_function(4);
    proof {
        lemma_ids_len(a@);
    }
    let a1 = a[1].expr();
    let a2 = a[2].expr();
    let a3 = a[3].expr();
    assert(expr_text(a1) == vt(ids(a@)[1]));
    assert(expr_text(a2) == vt(ids(a@)[2]));
    assert(expr_text(a3) == vt(ids(a@)[3]));
    let cb = inner.init(a1);
    let cp = inner.init(a2);
    let cl = inner.init(a3);
    let ghost r5 = inner.reg();
    let ghost h = init_t(cb.id(), vt(ids(a@)[1])) + init_t(cp.id(), vt(ids(a@)[2])) + init_t(cl.id(), vt(ids(a@)[3]));
    assert(inner.text() =~= h);
    insert(&mut inner, q, &a[0]);
    let ctx = Ctx { buf: cb, pos: cp, len: cl };
    let ghost h2 = h + insert_t(q.id(), ids(a@)[0]);
    let d = Des { opts: e.opts, native: true, check: false };
    des_all(&d, &mut inner, &ctx, &e.data, q, maps);
    let ghost dd = des_all_s(recv_des(*e), ctx_v(&ctx), e.data@, r5, m0, q.id());
    proof {
        lemma_cat(seq![], h2, dd.text);
        assert(seq![] + h2 =~= h2);
        assert(seq![] + (h2 + dd.text) =~= h2 + dd.text);
    }
    inner.free(ctx.buf);
    inner.free(ctx.pos);
    inner.free(ctx.len);
    b.close_function(&l, a, inner);
    l
}

pub(crate) fn next_fn(b: &mut Builder, n: usize) -> (f: TVar)
    requires
        n < usize::MAX,
    ensures
        grew(old(b).em(), final(b).em(), next_fn_s(old(b).reg(), n as nat).0),
        f.id() == next_fn_s(old(b).reg(), n as nat).1,
{
    let (f, a, mut inner) = b.open_function(2);
    proof {
        lemma_ids_len(a@);
    }
    let ghost cap = ids(a@)[0];
    let ghost i = ids(a@)[1];
    let c0 = a[0].expr();
    let i0 = a[1].expr();
    assert(expr_text(c0) == vt(cap));
    assert(expr_text(i0) == vt(i));
    let nil = Expr::Nil;
    assert(expr_text(nil) == "nil"@);
    let idx = c0.index(i0);
    assert(expr_text(idx) == index_t(vt(cap), vt(i)));
    let eq = idx.eq(nil);
    assert(expr_text(eq) == bin_t(index_t(vt(cap), vt(i)), BinOp::Eq, "nil"@));
    let cond = eq.not();
    let mut rets: Vec<Expr> = Vec::new();
    rets.push(a[1].expr().add(Expr::from_u64(n as u64 + 1)));
    let ghost want = next_rets(cap, i, n as nat);
    assert(rets@ =~= want.take(1));
    let mut j: usize = 0;
    while j <= n
        invariant
            j <= n + 1,
            n < usize::MAX,
            a@.len() == 2,
            ids(a@)[0] == cap,
            ids(a@)[1] == i,
            want == next_rets(cap, i, n as nat),
            rets@ == want.take(j + 1),
        decreases n + 1 - j,
    {
        let e = a[0].expr().index(a[1].expr().add(Expr::from_u64(j as u64)));
        rets.push(e);
        assert(rets@ =~= want.take(j + 2));
        j += 1;
    }
    assert(want.take(n + 2) =~= want);
    let ghost rs = rets@;
    let then_block = Block { instrs: vec![Instr::Return { exprs: rets }] };
    let else_block = Block { instrs: Vec::new() };
    proof {
        let ts = then_block.instrs@;
        assert(ts.len() == 1);
        assert(instr_text(ts[0]) == "return "@ + exprs_text(rs) + ";"@);
        assert(instrs_text(Seq::<Instr>::empty()) == Seq::<char>::empty());
        assert(ts.subrange(0, 0) =~= Seq::<Instr>::empty());
        assert(instrs_text(ts) =~= "return "@ + exprs_text(rs) + ";"@);
        assert(instrs_text(else_block.instrs@) =~= Seq::<char>::empty());
    }
    let br = Instr::Branch { cond, then_block, else_block };
    assert(instr_text(br) == next_body_t(cap, i, n as nat));
    inner.instr(br);
    assert(inner.text() =~= next_body_t(cap, i, n as nat));
    b.close_function(&f, a, inner);
    f
}

pub(crate) fn iter_fn(b: &mut Builder, q: &TVar, nx: &TVar) -> (f: TVar)
    ensures
        grew(old(b).em(), final(b).em(), iter_fn_s(old(b).reg(), q.id(), nx.id()).0),
        f.id() == iter_fn_s(old(b).reg(), q.id(), nx.id()).1,
{
    let (f, a, mut inner) = b.open_function(0);
    let qe = q.expr();
    assert(expr_text(qe) == vt(q.id()));
    let c = inner.init(qe);
    let tbl = Expr::Table(Vec::new());
    assert(expr_text(tbl) == empty_table_t());
    inner.assign(q, tbl);
    let rets = vec![nx.expr(), c.expr(), Expr::from_u64(1)];
    assert(rets@ == seq![ev(nx.id()), ev(c.id()), en(1)]);
    inner.ret(rets);
    assert(inner.text() =~= take_queue_t(q.id(), c.id()) + ("return "@ + exprs_text(seq![ev(nx.id()), ev(c.id()), en(1)]) + ";"@));
    inner.free(c);
    b.close_function(&f, a, inner);
    f
}

fn iter_ndata(b: &mut Builder, recv: &RecvCtx, path: &str, e: &Event)
    requires
        e.data@.len() < usize::MAX,
    ensures
        grew(
            old(b).em(),
            final(b).em(),
            iter_n_s(old(b).reg(), recv.jump_tbl.id(), recv.item_idx as nat, path@, *e),
        ),
{
    let ghost t0 = b.text();
    let tbl0 = Expr::Table(Vec::new());
    assert(expr_text(tbl0) == empty_table_t());
    let q = b.init(tbl0);
    let ghost p1 = init_t(q.id(), empty_table_t());
    let ghost r1 = b.reg();
    let mut maps: Vec<TVar> = Vec::new();
    proof {
        assert(ids(maps@) =~= Seq::<u16>::empty());
    }
    prep_types(b, &e.data, false, &mut maps);
    let ghost (p, ms) = types_prep_s(e.data@, r1, false);
    proof {
        lemma_cat(t0, p1, p.text);
        assert(Seq::<u16>::empty() + ms =~= ms);
        lemma_ids_len(maps@);
    }
    let l = recv_listener(b, &q, e, &mut maps);
    let ghost lf = recv_listener_s(p.reg, q.id(), *e, ms).0;
    proof {
        lemma_cat(t0, p1 + p.text, lf.text);
    }
    let le = l.expr();
    assert(expr_text(le) == vt(l.id()));
    recv.listen(b, le);
    let ghost p3 = assign_index_t(recv.jump_tbl.id(), nat_text(recv.item_idx as nat), vt(l.id()));
    proof {
        lemma_cat(t0, p1 + p.text + lf.text, p3);
    }
    let nx = next_fn(b, e.data.len());
    let ghost nf = next_fn_s(lf.reg, e.data@.len()).0;
    proof {
        lemma_cat(t0, p1 + p.text + lf.text + p3, nf.text);
    }
    let it = iter_fn(b, &q, &nx);
    let ghost itf = iter_fn_s(nf.reg, q.id(), nx.id()).0;
    proof {
        lemma_cat(t0, p1 + p.text + lf.text + p3 + nf.text, itf.text);
    }
    let name = iter_name(e);
    let ie = it.expr();
    assert(expr_text(ie) == vt(it.id()));
    b.export(path, name.as_str(), ie);
    proof {
        lemma_cat(t0, p1 + p.text + lf.text + p3 + nf.text + itf.text, export_t(path@, event_fn_name(*e, "iter"@), it.id()));
    }
    b.free(it);
    b.free(nx);
    b.free(l);
    b.free(q);
}

/// Emits the code for an event that clients send.
fn iter(b: &mut Builder, recv: &RecvCtx, path: &str, e: &Event)
    requires
        e.data@.len() < usize::MAX,
    ensures
        grew(
            old(b).em(),
            final(b).em(),
            iter_s(old(b).reg(), recv.jump_tbl.id(), recv.item_idx as nat, path@, *e),
        ),
{
    reveal(iter_s);
    if e.data.len() == 0 {
        iter_0data(b, recv, path, e)
    } else {
        iter_ndata(b, recv, path, e)
    }
}

/// Writing the index `k` of an event as a `kind`.
pub open spec fn write_idx_t(c: CtxV, kind: NumberKind, k: nat) -> Seq<char> {
    check_t(c, nat_text(kind.spec_size() as nat)) + write_k_t(c, FuncK::spec_from_kind(kind), nat_text(k))
}

/// Taking the packet context `g` of the remote into the local one `c`.
pub open spec fn load_t(g: CtxV, c: CtxV) -> Seq<char> {
    init_t(c.buf, vt(g.buf)) + init_t(c.pos, vt(g.pos)) + init_t(c.len, vt(g.len))
}

/// Putting the local packet context `c` back into the remote's `g`.
pub open spec fn save_t(g: CtxV, c: CtxV) -> Seq<char> {
    assign_t(g.buf, vt(c.buf)) + assign_t(g.pos, vt(c.pos)) + assign_t(g.len, vt(c.len))
}

/// Copying what was written into a new buffer `o`, firing it to `player`
/// through the remote instance `inst`, and starting the packet over.
pub open spec fn send_t(inst: u16, player: Expr, c: CtxV, o: u16) -> Seq<char> {
    init_t(o, call_t("buffer.create"@, seq![ev(c.pos)])) + (call_t(
        "buffer.copy"@,
        seq![ev(o), en(0), ev(c.buf), en(0), ev(c.pos)],
    ) + ";"@) + (vt(inst) + ":"@ + "FireClient"@ + "("@ + exprs_text(seq![player, ev(o)]) + ")"@
        + ";"@) + assign_t(c.pos, nat_text(0))
}

/// The remote that events go through, and the packet context they are
/// written into.
pub struct SendCtx<'a> {
    pub instance: TVar,
    pub item_idx: usize,
    pub idx_kind: NumberKind,
    pub ctx: &'a Ctx,
}

impl<'a> SendCtx<'a> {
    /// Writes the index of the current event.
    pub(crate) fn write_idx(&self, b: &mut Builder, ctx: &Ctx)
        ensures
            final(b).reg() == old(b).reg(),
            final(b).text() == old(b).text() + write_idx_t(ctx_v(ctx), self.idx_kind, self.item_idx as nat),
    {
        let ghost t0 = b.text();
        b.check(ctx, Expr::from_u64(self.idx_kind.size() as u64));
        b.write_k(ctx, FuncK::from_kind(self.idx_kind), Expr::from_u64(self.item_idx as u64));
        proof {
            lemma_cat(
                t0,
                check_t(ctx_v(ctx), nat_text(self.idx_kind.spec_size() as nat)),
                write_k_t(ctx_v(ctx), FuncK::spec_from_kind(self.idx_kind), nat_text(self.item_idx as nat)),
            );
        }
    }

    /// Fires what was written in `ctx` to `player`, and starts over.
    fn send(&self, b: &mut Builder, player: Expr, ctx: &Ctx)
        ensures
            final(b).reg() == reg_release(reg_alloc(old(b).reg()).0, reg_alloc(old(b).reg()).1),
            final(b).text() == old(b).text() + send_t(self.instance.id(), player, ctx_v(ctx), reg_alloc(old(b).reg()).1),
    {
        let ghost t0 = b.text();
        let ghost c = ctx_v(ctx);
        let ghost pl = player;
        let args = vec![ctx.pos.expr()];
        assert(args@ == seq![ev(c.pos)]);
        let o = b.init(global_call("buffer.create", args));
        let ghost p1 = init_t(o.id(), call_t("buffer.create"@, seq![ev(c.pos)]));
        let args = vec![o.expr(), Expr::from_u64(0), ctx.buf.expr(), Expr::from_u64(0), ctx.pos.expr()];
        assert(args@ == seq![ev(o.id()), en(0), ev(c.buf), en(0), ev(c.pos)]);
        b.call(global_call("buffer.copy", args));
        let ghost p2 = call_t("buffer.copy"@, seq![ev(o.id()), en(0), ev(c.buf), en(0), ev(c.pos)]) + ";"@;
        proof {
            lemma_cat(t0, p1, p2);
        }
        let args = vec![player, o.expr()];
        assert(args@ == seq![pl, ev(o.id())]);
        let ie = self.instance.expr();
        assert(expr_text(ie) == vt(self.instance.id()));
        let fire = ie.namecall("FireClient", args);
        let ghost p3 = vt(self.instance.id()) + ":"@ + "FireClient"@ + "("@ + exprs_text(seq![pl, ev(o.id())]) + ")"@ + ";"@;
        b.call(fire);
        proof {
            lemma_cat(t0, p1 + p2, p3);
        }
        b.assign(&ctx.pos, Expr::from_u64(0));
        proof {
            lemma_cat(t0, p1 + p2 + p3, assign_t(c.pos, nat_text(0)));
        }
        b.free(o);
    }

    /// Takes the packet context of the remote into new local variables.
    pub(crate) fn load_ctx(&self, b: &mut Builder) -> (c: Ctx)
        ensures
            c.buf.id() == reg_alloc(old(b).reg()).1,
            c.pos.id() == reg_alloc(reg_alloc(old(b).reg()).0).1,
            (final(b).reg(), c.len.id()) == reg_alloc(reg_alloc(reg_alloc(old(b).reg()).0).0),
            final(b).text() == old(b).text() + load_t(ctx_v(self.ctx), ctx_v(&c)),
    {
        let ghost t0 = b.text();
        let ghost g = ctx_v(self.ctx);
        let e1 = self.ctx.buf.expr();
        let e2 = self.ctx.pos.expr();
        let e3 = self.ctx.len.expr();
        assert(expr_text(e1) == vt(g.buf));
        assert(expr_text(e2) == vt(g.pos));
        assert(expr_text(e3) == vt(g.len));
        let buf = b.init(e1);
        let pos = b.init(e2);
        let len = b.init(e3);
        let c = Ctx { buf, pos, len };
        assert(b.text() =~= t0 + load_t(g, ctx_v(&c)));
        c
    }

    /// Puts the local packet context back into the remote's.
    pub(crate) fn save_ctx(&self, b: &mut Builder, ctx: &Ctx)
        ensures
            final(b).reg() == old(b).reg(),
            final(b).text() == old(b).text() + save_t(ctx_v(self.ctx), ctx_v(ctx)),
    {
        let ghost t0 = b.text();
        let ghost c = ctx_v(ctx);
        let e1 = ctx.buf.expr();
        let e2 = ctx.pos.expr();
        let e3 = ctx.len.expr();
        assert(expr_text(e1) == vt(c.buf));
        assert(expr_text(e2) == vt(c.pos));
        assert(expr_text(e3) == vt(c.len));
        b.assign(&self.ctx.buf, e1);
        b.assign(&self.ctx.pos, e2);
        b.assign(&self.ctx.len, e3);
        assert(b.text() =~= t0 + save_t(ctx_v(self.ctx), c));
    }
}

/// How the server writes what an event carries.
pub open spec fn send_ser(e: Event) -> Ser {
    Ser { opts: e.opts, native: true }
}

/// Writing each value of a list of types, the `j`-th from the variable
/// `xs[j]`.
pub open spec fn ser_all_s(s: Ser, c: CtxV, ts: Seq<Type>, xs: Seq<u16>, r: RegState, m: Seq<u16>) -> Em
    decreases ts.len(),
{
    if ts.len() == 0 {
        out(r, seq![])
    } else {
        let a = ser_all_s(s, c, ts.drop_last(), xs, r, m);
        let f = ser_s(s, c, ts.last(), vt(xs[ts.len() - 1]), a.reg, m.skip(types_enums(ts.drop_last()) as int));
        out(f.reg, a.text + f.text)
    }
}

/// The `send` function of an event: its arguments are the player and the
/// values; it writes the index of the event and each value, and fires the
/// packet to the player.
pub open spec fn send_fn_s(
    r: RegState,
    g: CtxV,
    inst: u16,
    kind: NumberKind,
    k: nat,
    e: Event,
    m: Seq<u16>,
) -> (Em, u16) {
    let ts = e.data@;
    let (r1, f) = reg_alloc(r);
    let (r2, a) = alloc_n(r1, ts.len() + 1);
    let (r3, cb) = reg_alloc(r2);
    let (r4, cp) = reg_alloc(r3);
    let (r5, cl) = reg_alloc(r4);
    let c = CtxV { buf: cb, pos: cp, len: cl };
    let sd = ser_all_s(send_ser(e), c, ts, a.skip(1), r5, m);
    let (r6, o) = reg_alloc(sd.reg);
    let r7 = reg_release(reg_release(reg_release(reg_release(r6, o), cb), cp), cl);
    (
        out(
            release_all(r7, a),
            fn_t(
                f,
                a,
                load_t(g, c) + write_idx_t(c, kind, k) + sd.text + send_t(inst, ev(a[0]), c, o) + save_t(
                    g,
                    c,
                ),
            ),
        ),
        f,
    )
}

/// An event that the server sends.
#[verifier::opaque]
pub open spec fn send_s(r: RegState, g: CtxV, inst: u16, kind: NumberKind, k: nat, path: Seq<char>, e: Event) -> Em {
    let (p, ms) = types_prep_s(e.data@, r, true);
    let (sf, f) = send_fn_s(p.reg, g, inst, kind, k, e, ms);
    out(reg_release(sf.reg, f), p.text + sf.text + export_t(path, event_fn_name(e, "send"@), f))
}

#[verifier::rlimit(40)]
pub(crate) fn ser_all(s: &Ser, b: &mut Builder, ctx: &Ctx, ts: &Vec<Type>, xs: &Vec<TVar>, maps: &mut Vec<TVar>)
    requires
        old(maps)@.len() >= types_enums(ts@),
        xs@.len() == ts@.len(),
    ensures
        grew(old(b).em(), final(b).em(), ser_all_s(*s, ctx_v(ctx), ts@, ids(xs@), old(b).reg(), ids(old(maps)@))),
{
    let ghost t0 = b.text();
    let ghost r0 = b.reg();
    let ghost m0 = ids(maps@);
    let ghost n0 = maps@.len();
    let ghost c = ctx_v(ctx);
    let ghost xv = ids(xs@);
    proof {
        assert(ts@.take(0) =~= Seq::<Type>::empty());
        assert(t0 + seq![] =~= t0);
        assert(m0.skip(0) =~= m0);
        lemma_ids_len(maps@);
        lemma_ids_len(xs@);
    }
    let mut i: usize = 0;
    while i < ts.len()
        invariant
            i <= ts@.len(),
            xs@.len() == ts@.len(),
            xv == ids(xs@),
            xv.len() == xs@.len(),
            b.reg() == ser_all_s(*s, c, ts@.take(i as int), xv, r0, m0).reg,
            b.text() == t0 + ser_all_s(*s, c, ts@.take(i as int), xv, r0, m0).text,
            ids(maps@) == m0.skip(types_enums(ts@.take(i as int)) as int),
            types_enums(ts@.take(i as int)) <= types_enums(ts@),
            m0.len() == n0,
            n0 >= types_enums(ts@),
            maps@.len() == n0 - types_enums(ts@.take(i as int)),
            c == ctx_v(ctx),
        decreases ts.len() - i,
    {
        proof {
            lemma_types_enums_prefix(ts@, i as int);
            lemma_types_enums_prefix(ts@, i as int + 1);
            assert(ts@.take(i + 1).drop_last() =~= ts@.take(i as int));
            assert(ts@.take(i + 1).last() == ts@[i as int]);
        }
        let ghost pre = ts@.take(i as int);
        let ghost a = ser_all_s(*s, c, pre, xv, r0, m0);
        let ghost before = maps@;
        let x = xs[i].expr();
        assert(expr_text(x) == vt(xv[i as int]));
        s.emit(b, ctx, &ts[i], x, maps);
        let ghost f = ser_s(*s, c, ts@[i as int], vt(xv[i as int]), a.reg, m0.skip(types_enums(pre) as int));
        proof {
            lemma_ids_len(before);
            lemma_ids_len(maps@);
            lemma_cat(t0, a.text, f.text);
            crate::mir_serdes::lemma_skip_skip(m0, types_enums(pre) as int, enums_in(ts@[i as int]) as int);
        }
        i += 1;
    }
    assert(ts@.take(ts@.len() as int) =~= ts@);
}

#[verifier::rlimit(40)]
fn send_fn(b: &mut Builder, sc: &SendCtx, e: &Event, maps: &mut Vec<TVar>) -> (f: TVar)
    requires
        old(maps)@.len() >= types_enums(e.data@),
        e.data@.len() < usize::MAX,
    ensures
        grew(
            old(b).em(),
            final(b).em(),
            send_fn_s(old(b).reg(), ctx_v(sc.ctx), sc.instance.id(), sc.idx_kind, sc.item_idx as nat, *e, ids(old(maps)@)).0,
        ),
        f.id() == send_fn_s(old(b).reg(), ctx_v(sc.ctx), sc.instance.id(), sc.idx_kind, sc.item_idx as nat, *e, ids(old(maps)@)).1,
{
    let ghost m0 = ids(maps@);
    let ghost g = ctx_v(sc.ctx);
    let n = e.data.len();
    let (f, mut a, mut inner) = b.open_function(n + 1);
    proof {
        lemma_ids_len(a@);
    }
    let ghost av = ids(a@);
    let ctx = sc.load_ctx(&mut inner);
    let ghost c = ctx_v(&ctx);
    let ghost h1 = load_t(g, c);
    let ghost r5 = inner.reg();
    assert(inner.text() =~= h1);
    sc.write_idx(&mut inner, &ctx);
    let ghost h2 = h1 + write_idx_t(c, sc.idx_kind, sc.item_idx as nat);
    let player = a.remove(0);
    proof {
        assert(ids(a@) =~= av.skip(1));
        lemma_ids_len(a@);
    }
    let s = Ser { opts: e.opts, native: true };
    ser_all(&s, &mut inner, &ctx, &e.data, &a, maps);
    let ghost sd = ser_all_s(send_ser(*e), c, e.data@, av.skip(1), r5, m0);
    proof {
        lemma_cat(seq![], h2, sd.text);
        assert(seq![] + h2 =~= h2);
    }
    let ghost r6 = inner.reg();
    let pe = player.expr();
    sc.send(&mut inner, pe, &ctx);
    proof {
        lemma_cat(seq![], h2 + sd.text, send_t(sc.instance.id(), ev(av[0]), c, reg_alloc(r6).1));
    }
    sc.save_ctx(&mut inner, &ctx);
    proof {
        lemma_cat(seq![], h2 + sd.text + send_t(sc.instance.id(), ev(av[0]), c, reg_alloc(r6).1), save_t(g, c));
        assert(seq![] + (h2 + sd.text + send_t(sc.instance.id(), ev(av[0]), c, reg_alloc(r6).1) + save_t(g, c)) =~= h2 + sd.text + send_t(sc.instance.id(), ev(av[0]), c, reg_alloc(r6).1) + save_t(g, c));
        assert(seq![] + (h2 + sd.text) =~= h2 + sd.text);
    }
    inner.free(ctx.buf);
    inner.free(ctx.pos);
    inner.free(ctx.len);
    a.insert(0, player);
    proof {
        assert(ids(a@) =~= av);
    }
    b.close_function(&f, a, inner);
    f
}

/// Emits the code for an event that the server sends.
fn send_event(b: &mut Builder, sc: &SendCtx, path: &str, e: &Event)
    requires
        e.data@.len() < usize::MAX,
    ensures
        grew(
            old(b).em(),
            final(b).em(),
            send_s(old(b).reg(), ctx_v(sc.ctx), sc.instance.id(), sc.idx_kind, sc.item_idx as nat, path@, *e),
        ),
{
    reveal(send_s);
    let ghost t0 = b.text();
    let ghost r0 = b.reg();
    let mut maps: Vec<TVar> = Vec::new();
    proof {
        assert(ids(maps@) =~= Seq::<u16>::empty());
    }
    prep_types(b, &e.data, true, &mut maps);
    let ghost (p, ms) = types_prep_s(e.data@, r0, true);
    proof {
        assert(Seq::<u16>::empty() + ms =~= ms);
        lemma_ids_len(maps@);
    }
    let f = send_fn(b, sc, e, &mut maps);
    let ghost sf = send_fn_s(p.reg, ctx_v(sc.ctx), sc.instance.id(), sc.idx_kind, sc.item_idx as nat, *e, ms).0;
    proof {
        lemma_cat(t0, p.text, sf.text);
    }
    let name = send_name(e);
    let fe = f.expr();
    assert(expr_text(fe) == vt(f.id()));
    b.export(path, name.as_str(), fe);
    proof {
        lemma_cat(t0, p.text + sf.text, export_t(path@, event_fn_name(*e, "send"@), f.id()));
    }
    b.free(f);
}

/// The events of `evs` that `side` sends, in order.
pub open spec fn side_events(evs: Seq<(Seq<char>, Event)>, side: NetworkSide) -> Seq<(Seq<char>, Event)>
    decreases evs.len(),
{
    if evs.len() == 0 {
        seq![]
    } else if evs.last().1.from == side {
        side_events(evs.drop_last(), side).push(evs.last())
    } else {
        side_events(evs.drop_last(), side)
    }
}

/// The code for the events that clients send through a remote, the `k`-th
/// of them with index `k`.
pub open spec fn recv_all_s(r: RegState, jt: u16, evs: Seq<(Seq<char>, Event)>) -> Em
    decreases evs.len(),
{
    if evs.len() == 0 {
        out(r, seq![])
    } else {
        let a = recv_all_s(r, jt, evs.drop_last());
        let f = iter_s(a.reg, jt, evs.len(), evs.last().0, evs.last().1);
        out(f.reg, a.text + f.text)
    }
}

/// The code for the events that the server sends through a remote, the
/// `k`-th of them with index `k`.
pub open spec fn send_all_s(
    r: RegState,
    g: CtxV,
    inst: u16,
    kind: NumberKind,
    evs: Seq<(Seq<char>, Event)>,
) -> Em
    decreases evs.len(),
{
    if evs.len() == 0 {
        out(r, seq![])
    } else {
        let a = send_all_s(r, g, inst, kind, evs.drop_last());
        let f = send_s(a.reg, g, inst, kind, evs.len(), evs.last().0, evs.last().1);
        out(f.reg, a.text + f.text)
    }
}

/// The greatest size of the data of the events, from an empty packet on,
/// in the order of sizes (`size_order`: by minimum first). This follows the
/// generator as written: the bound it gives can be below the largest packet
/// of an event whose minimum is smaller but whose maximum is larger, and it
/// leaves out the bytes of the event index; valid packets can then be
/// refused as too large.
pub open spec fn max_size(evs: Seq<(Seq<char>, Event)>) -> SizeV
    decreases evs.len(),
{
    if evs.len() == 0 {
        sv_exact(0)
    } else {
        let m = max_size(evs.drop_last());
        let s = types_size(evs.last().1.data@);
        if sv_gt(s, m) {
            s
        } else {
            m
        }
    }
}

/// The function that takes a packet from a player: it checks its length
/// against the largest packet, reads the index of the event, and hands the
/// packet to the event's listener.
#[verifier::opaque]
pub open spec fn packet_listener_s(r: RegState, jt: u16, kind: NumberKind, max: SizeV) -> (Em, u16) {
    let (r1, f) = reg_alloc(r);
    let (r2, a) = alloc_n(r1, 2);
    let (r3, cb) = reg_alloc(r2);
    let (r4, cp) = reg_alloc(r3);
    let (r5, cl) = reg_alloc(r4);
    let c = CtxV { buf: cb, pos: cp, len: cl };
    let (r6, idx) = reg_alloc(r5);
    let body = init_t(cb, vt(a[1])) + init_t(cp, nat_text(0)) + init_t(
        cl,
        call_t("buffer.len"@, seq![ev(a[1])]),
    ) + match max.max {
        Some(m) => assert_text(bin_t(vt(cl), BinOp::Le, nat_text(m as nat)), "packet too large"@),
        None => seq![],
    } + read_k_t(c, FuncK::spec_from_kind(kind), idx) + (index_t(vt(jt), vt(idx)) + "("@
        + exprs_text(seq![ev(a[0]), ev(cb), ev(cp), ev(cl)]) + ")"@ + ";"@);
    (
        out(
            release_all(
                reg_release(reg_release(reg_release(reg_release(r6, idx), cb), cp), cl),
                a,
            ),
            fn_t(f, a, body),
        ),
        f,
    )
}

/// `folder:WaitForChild("<uuid>")`
pub open spec fn wait_t(u: u128) -> Seq<char> {
    "folder"@ + ":"@ + "WaitForChild"@ + "("@ + string_literal_text(uuid_text(u)) + ")"@
}

/// `inst["OnServerEvent"]:Connect(f);`
pub open spec fn connect_t(inst: u16, f: u16) -> Seq<char> {
    index_t(vt(inst), string_literal_text("OnServerEvent"@)) + ":"@ + "Connect"@ + "("@ + exprs_text(
        seq![ev(f)],
    ) + ")"@ + ";"@
}

/// The code for a remote and the events that go through it.
#[verifier::opaque]
pub open spec fn remote_s(r: RegState, g: CtxV, rm: Remote, evs: Seq<(Seq<char>, Event)>) -> Em {
    let recv = side_events(evs, NetworkSide::Client);
    let send = side_events(evs, NetworkSide::Server);
    let (r1, jt) = reg_alloc(r);
    let rv = recv_all_s(r1, jt, recv);
    let (r2, inst) = reg_alloc(rv.reg);
    let sd = send_all_s(r2, g, inst, kind_for_max(send.len() as int), send);
    let (lf, l) = packet_listener_s(sd.reg, jt, kind_for_max(recv.len() as int), max_size(recv));
    out(
        reg_release(reg_release(reg_release(lf.reg, l), inst), jt),
        init_t(jt, empty_table_t()) + rv.text + init_t(inst, wait_t(rm.uuid)) + sd.text + lf.text
            + connect_t(inst, l),
    )
}

/// What the code generation asks of an event: that the count of its values
/// plus one fits in a `usize`, and that the size of the data of an event
/// that clients send fits in a `u32`.
pub open spec fn event_ok(e: Event) -> bool {
    &&& e.data@.len() < usize::MAX
    &&& e.from == NetworkSide::Client ==> types_size_ok(e.data@)
}

pub open spec fn all_ok(evs: Seq<(Seq<char>, Event)>) -> bool {
    forall|i: int| 0 <= i < evs.len() ==> event_ok(#[trigger] evs[i].1)
}

proof fn lemma_side_ok(evs: Seq<(Seq<char>, Event)>, side: NetworkSide)
    requires
        all_ok(evs),
    ensures
        all_ok(side_events(evs, side)),
        forall|i: int| 0 <= i < side_events(evs, side).len() ==> #[trigger] side_events(evs, side)[i].1.from == side,
    decreases evs.len(),
{
    if evs.len() > 0 {
        assert(all_ok(evs.drop_last())) by {
            assert forall|i: int| 0 <= i < evs.drop_last().len() implies event_ok(#[trigger] evs.drop_last()[i].1) by {
                assert(evs.drop_last()[i] == evs[i]);
            }
        }
        lemma_side_ok(evs.drop_last(), side);
        assert(event_ok(evs[evs.len() - 1].1));
    }
}

proof fn lemma_side_len(evs: Seq<(Seq<char>, Event)>, side: NetworkSide)
    ensures
        side_events(evs, side).len() <= evs.len(),
    decreases evs.len(),
{
    if evs.len() > 0 {
        lemma_side_len(evs.drop_last(), side);
    }
}

proof fn lemma_side_step(all: Seq<(Seq<char>, Event)>, i: int, side: NetworkSide)
    requires
        0 <= i < all.len(),
    ensures
        side_events(all.take(i + 1), side) == if all[i].1.from == side {
            side_events(all.take(i), side).push(all[i])
        } else {
            side_events(all.take(i), side)
        },
{
    assert(all.take(i + 1).drop_last() =~= all.take(i));
    assert(all.take(i + 1).last() == all[i]);
}

/// The number of events that `side` sends.
fn count_side(evs: &Vec<(String, &Event)>, side: NetworkSide) -> (n: usize)
    ensures
        n == side_events(crate::hir::pairs_view(evs@), side).len(),
{
    let ghost all = crate::hir::pairs_view(evs@);
    let mut n: usize = 0;
    let mut i: usize = 0;
    assert(all.take(0) =~= Seq::<(Seq<char>, Event)>::empty());
    while i < evs.len()
        invariant
            i <= evs@.len(),
            all == crate::hir::pairs_view(evs@),
            all.len() == evs@.len(),
            n == side_events(all.take(i as int), side).len(),
        decreases evs.len() - i,
    {
        proof {
            lemma_side_step(all, i as int, side);
            lemma_side_len(all.take(i as int), side);
        }
        if evs[i].1.from == side {
            n += 1;
        }
        i += 1;
    }
    assert(all.take(all.len() as int) =~= all);
    n
}

/// The kind that indexes `1..=n` are written as.
fn kind_of_count(n: usize) -> (k: NumberKind)
    ensures
        k == kind_for_max(n as int),
{
    if n <= 255 {
        NumberKind::U8
    } else if n <= 65535 {
        NumberKind::U16
    } else {
        NumberKind::U32
    }
}

fn recv_all(b: &mut Builder, recv: &mut RecvCtx, evs: &Vec<(String, &Event)>, max: &mut Size)
    requires
        all_ok(crate::hir::pairs_view(evs@)),
        old(recv).item_idx == 0,
        sz(*old(max)) == sv_exact(0),
    ensures
        grew(
            old(b).em(),
            final(b).em(),
            recv_all_s(old(b).reg(), old(recv).jump_tbl.id(), side_events(crate::hir::pairs_view(evs@), NetworkSide::Client)),
        ),
        final(recv).jump_tbl == old(recv).jump_tbl,
        sz(*final(max)) == max_size(side_events(crate::hir::pairs_view(evs@), NetworkSide::Client)),
{
    let ghost all = crate::hir::pairs_view(evs@);
    let ghost t0 = b.text();
    let ghost r0 = b.reg();
    let ghost jt = recv.jump_tbl;
    let mut i: usize = 0;
    proof {
        assert(all.take(0) =~= Seq::<(Seq<char>, Event)>::empty());
        assert(t0 + seq![] =~= t0);
    }
    while i < evs.len()
        invariant
            i <= evs@.len(),
            all == crate::hir::pairs_view(evs@),
            all.len() == evs@.len(),
            all_ok(all),
            recv.jump_tbl == jt,
            recv.item_idx == side_events(all.take(i as int), NetworkSide::Client).len(),
            b.reg() == recv_all_s(r0, jt.id(), side_events(all.take(i as int), NetworkSide::Client)).reg,
            b.text() == t0 + recv_all_s(r0, jt.id(), side_events(all.take(i as int), NetworkSide::Client)).text,
            sz(*max) == max_size(side_events(all.take(i as int), NetworkSide::Client)),
        decreases evs.len() - i,
    {
        proof {
            lemma_side_step(all, i as int, NetworkSide::Client);
            lemma_side_len(all.take(i as int), NetworkSide::Client);
            assert(event_ok(all[i as int].1));
        }
        let e = evs[i].1;
        if e.from == NetworkSide::Client {
            let ghost pre = side_events(all.take(i as int), NetworkSide::Client);
            let ghost a = recv_all_s(r0, jt.id(), pre);
            recv.item_idx = recv.item_idx + 1;
            iter(b, recv, evs[i].0.as_str(), e);
            proof {
                let now = pre.push(all[i as int]);
                assert(now.drop_last() =~= pre);
                lemma_cat(t0, a.text, iter_s(a.reg, jt.id(), now.len(), all[i as int].0, all[i as int].1).text);
            }
            let size = e.data.size_of();
            *max = size.larger(*max);
        }
        i += 1;
    }
    assert(all.take(all.len() as int) =~= all);
}

fn send_all(b: &mut Builder, sc: &mut SendCtx, evs: &Vec<(String, &Event)>)
    requires
        all_ok(crate::hir::pairs_view(evs@)),
        old(sc).item_idx == 0,
    ensures
        grew(
            old(b).em(),
            final(b).em(),
            send_all_s(
                old(b).reg(),
                ctx_v(old(sc).ctx),
                old(sc).instance.id(),
                old(sc).idx_kind,
                side_events(crate::hir::pairs_view(evs@), NetworkSide::Server),
            ),
        ),
        final(sc).instance == old(sc).instance,
        final(sc).ctx == old(sc).ctx,
        final(sc).idx_kind == old(sc).idx_kind,
{
    let ghost all = crate::hir::pairs_view(evs@);
    let ghost t0 = b.text();
    let ghost r0 = b.reg();
    let ghost inst = sc.instance;
    let ghost g = ctx_v(sc.ctx);
    let ghost gctx = sc.ctx;
    let ghost kind = sc.idx_kind;
    let mut i: usize = 0;
    proof {
        assert(all.take(0) =~= Seq::<(Seq<char>, Event)>::empty());
        assert(t0 + seq![] =~= t0);
    }
    while i < evs.len()
        invariant
            i <= evs@.len(),
            all == crate::hir::pairs_view(evs@),
            all.len() == evs@.len(),
            all_ok(all),
            sc.instance == inst,
            sc.ctx == gctx,
            g == ctx_v(gctx),
            sc.idx_kind == kind,
            sc.item_idx == side_events(all.take(i as int), NetworkSide::Server).len(),
            b.reg() == send_all_s(r0, g, inst.id(), kind, side_events(all.take(i as int), NetworkSide::Server)).reg,
            b.text() == t0 + send_all_s(r0, g, inst.id(), kind, side_events(all.take(i as int), NetworkSide::Server)).text,
        decreases evs.len() - i,
    {
        proof {
            lemma_side_step(all, i as int, NetworkSide::Server);
            lemma_side_len(all.take(i as int), NetworkSide::Server);
            assert(event_ok(all[i as int].1));
        }
        let e = evs[i].1;
        if e.from == NetworkSide::Server {
            let ghost pre = side_events(all.take(i as int), NetworkSide::Server);
            let ghost a = send_all_s(r0, g, inst.id(), kind, pre);
            sc.item_idx = sc.item_idx + 1;
            send_event(b, sc, evs[i].0.as_str(), e);
            proof {
                let now = pre.push(all[i as int]);
                assert(now.drop_last() =~= pre);
                lemma_cat(t0, a.text, send_s(a.reg, g, inst.id(), kind, now.len(), all[i as int].0, all[i as int].1).text);
            }
        }
        i += 1;
    }
    assert(all.take(all.len() as int) =~= all);
}

#[verifier::rlimit(40)]
fn packet_listener(b: &mut Builder, jt: &TVar, kind: NumberKind, max: Size) -> (f: TVar)
    ensures
        grew(old(b).em(), final(b).em(), packet_listener_s(old(b).reg(), jt.id(), kind, sz(max)).0),
        f.id() == packet_listener_s(old(b).reg(), jt.id(), kind, sz(max)).1,
{
    reveal(packet_listener_s);
    let (f, a, mut inner) = b.open_function(2);
    proof {
        lemma_ids_len(a@);
    }
    let ghost av = ids(a@);
    let a1 = a[1].expr();
    assert(expr_text(a1) == vt(av[1]));
    let cb = inner.init(a1);
    let cp = inner.init(Expr::from_u64(0));
    let args = vec![a[1].expr()];
    assert(args@ == seq![ev(av[1])]);
    let cl = inner.init(global_call("buffer.len", args));
    let ctx = Ctx { buf: cb, pos: cp, len: cl };
    let ghost c = ctx_v(&ctx);
    let ghost h1 = init_t(c.buf, vt(av[1])) + init_t(c.pos, nat_text(0)) + init_t(c.len, call_t("buffer.len"@, seq![ev(av[1])]));
    assert(inner.text() =~= h1);
    let ghost t1 = inner.text();
    match max.max {
        Some(m) => {
            let le = ctx.len.expr();
            assert(expr_text(le) == vt(c.len));
            let cond = le.le(Expr::from_u64(m as u64));
            inner.assert_cond(cond, "packet too large");
        },
        None => {},
    }
    let ghost h2 = match sz(max).max {
        Some(m) => assert_text(bin_t(vt(c.len), BinOp::Le, nat_text(m as nat)), "packet too large"@),
        None => seq![],
    };
    assert(inner.text() == t1 + h2);
    let idx = inner.read_k(&ctx, FuncK::from_kind(kind));
    proof {
        lemma_cat(seq![], h1, h2);
        assert(seq![] + h1 =~= h1);
        lemma_cat(seq![], h1 + h2, read_k_t(c, FuncK::spec_from_kind(kind), idx.id()));
    }
    let je = jt.expr();
    let ie = idx.expr();
    assert(expr_text(je) == vt(jt.id()));
    assert(expr_text(ie) == vt(idx.id()));
    let callee = je.index(ie);
    assert(expr_text(callee) == index_t(vt(jt.id()), vt(idx.id())));
    let args = vec![a[0].expr(), ctx.buf.expr(), ctx.pos.expr(), ctx.len.expr()];
    assert(args@ == seq![ev(av[0]), ev(c.buf), ev(c.pos), ev(c.len)]);
    let ghost at = args@;
    let call = callee.call(args);
    assert(expr_text(call) == index_t(vt(jt.id()), vt(idx.id())) + "("@ + exprs_text(at) + ")"@);
    inner.call(call);
    let ghost h4 = index_t(vt(jt.id()), vt(idx.id())) + "("@ + exprs_text(at) + ")"@ + ";"@;
    proof {
        lemma_cat(seq![], h1 + h2 + read_k_t(c, FuncK::spec_from_kind(kind), idx.id()), h4);
        assert(seq![] + (h1 + h2 + read_k_t(c, FuncK::spec_from_kind(kind), idx.id()) + h4) =~= h1 + h2 + read_k_t(c, FuncK::spec_from_kind(kind), idx.id()) + h4);
        assert(seq![] + (h1 + h2) =~= h1 + h2);
    }
    inner.free(idx);
    inner.free(ctx.buf);
    inner.free(ctx.pos);
    inner.free(ctx.len);
    b.close_function(&f, a, inner);
    f
}

/// Emits the code for a remote and the events that go through it.
#[verifier::rlimit(40)]
fn remote(b: &mut Builder, g: &Ctx, rm: &Remote, evs: &Vec<(String, &Event)>)
    requires
        all_ok(crate::hir::pairs_view(evs@)),
    ensures
        grew(old(b).em(), final(b).em(), remote_s(old(b).reg(), ctx_v(g), *rm, crate::hir::pairs_view(evs@))),
{
    reveal(remote_s);
    let ghost all = crate::hir::pairs_view(evs@);
    let ghost t0 = b.text();
    let ghost gv = ctx_v(g);
    let uuid = rm.name();
    let nrecv = count_side(evs, NetworkSide::Client);
    let nsend = count_side(evs, NetworkSide::Server);
    let recv_kind = kind_of_count(nrecv);
    let send_kind = kind_of_count(nsend);
    let tbl0 = Expr::Table(Vec::new());
    assert(expr_text(tbl0) == empty_table_t());
    let jt = b.init(tbl0);
    let ghost p1 = init_t(jt.id(), empty_table_t());
    let ghost jtv = jt;
    let mut recv = RecvCtx { jump_tbl: jt, item_idx: 0 };
    let mut max = Size::default();
    let ghost r1 = b.reg();
    recv_all(b, &mut recv, evs, &mut max);
    let ghost rv = recv_all_s(r1, jtv.id(), side_events(all, NetworkSide::Client));
    proof {
        lemma_cat(t0, p1, rv.text);
    }
    let lit = Expr::String(uuid);
    assert(expr_text(lit) == string_literal_text(uuid_text(rm.uuid)));
    let args = vec![lit];
    let ghost at = args@;
    let fo = Expr::Global("folder");
    assert(expr_text(fo) == "folder"@);
    let wait = fo.namecall("WaitForChild", args);
    assert(exprs_text(at) == string_literal_text(uuid_text(rm.uuid)));
    assert(expr_text(wait) == wait_t(rm.uuid));
    let inst = b.init(wait);
    proof {
        lemma_cat(t0, p1 + rv.text, init_t(inst.id(), wait_t(rm.uuid)));
    }
    let ghost instv = inst;
    let ghost r2 = b.reg();
    let mut sc = SendCtx { instance: inst, item_idx: 0, idx_kind: send_kind, ctx: g };
    send_all(b, &mut sc, evs);
    let ghost sd = send_all_s(r2, gv, instv.id(), send_kind, side_events(all, NetworkSide::Server));
    proof {
        lemma_cat(t0, p1 + rv.text + init_t(instv.id(), wait_t(rm.uuid)), sd.text);
    }
    let ghost r3 = b.reg();
    let l = packet_listener(b, &recv.jump_tbl, recv_kind, max);
    let ghost lf = packet_listener_s(r3, jtv.id(), recv_kind, sz(max)).0;
    proof {
        lemma_cat(t0, p1 + rv.text + init_t(instv.id(), wait_t(rm.uuid)) + sd.text, lf.text);
    }
    let ie = sc.instance.expr();
    assert(expr_text(ie) == vt(instv.id()));
    let key = Expr::from_str("OnServerEvent");
    assert(expr_text(key) == string_literal_text("OnServerEvent"@));
    let ev_ = ie.index(key);
    assert(expr_text(ev_) == index_t(vt(instv.id()), string_literal_text("OnServerEvent"@)));
    let largs = vec![l.expr()];
    assert(largs@ == seq![ev(l.id())]);
    let ghost lat = largs@;
    let conn = ev_.namecall("Connect", largs);
    assert(expr_text(conn) == index_t(vt(instv.id()), string_literal_text("OnServerEvent"@)) + ":"@ + "Connect"@ + "("@ + exprs_text(lat) + ")"@);
    b.call(conn);
    proof {
        lemma_cat(t0, p1 + rv.text + init_t(instv.id(), wait_t(rm.uuid)) + sd.text + lf.text, connect_t(instv.id(), l.id()));
    }
    b.free(l);
    b.free(sc.instance);
    b.free(recv.jump_tbl);
}

/// The code for the remotes, one after the other.
pub open spec fn buckets_s(r: RegState, g: CtxV, bs: Seq<(Remote, Seq<(Seq<char>, Event)>)>) -> Em
    decreases bs.len(),
{
    if bs.len() == 0 {
        out(r, seq![])
    } else {
        let a = buckets_s(r, g, bs.drop_last());
        let f = remote_s(a.reg, g, bs.last().0, bs.last().1);
        out(f.reg, a.text + f.text)
    }
}

/// Every event meets what code generation asks of it.
pub open spec fn server_accepts(hir: Hir) -> bool {
    forall|k: int| 0 <= k < spec_buckets(hir).len() ==> all_ok(#[trigger] spec_buckets(hir)[k].1)
}

/// The packet context of the server: a buffer of 1024 bytes.
pub open spec fn global_t(g: CtxV) -> Seq<char> {
    init_t(g.buf, call_t("buffer.create"@, seq![en(1024)])) + init_t(g.pos, nat_text(0)) + init_t(
        g.len,
        nat_text(1024),
    )
}

/// The generated code of the server: its packet context, then the code for
/// each remote.
pub open spec fn server_s(hir: Hir) -> Em {
    let r0 = RegState { next: 0, free: seq![], overflow: false };
    let (r1, gb) = reg_alloc(r0);
    let (r2, gp) = reg_alloc(r1);
    let (r3, gl) = reg_alloc(r2);
    let g = CtxV { buf: gb, pos: gp, len: gl };
    let bk = buckets_s(r3, g, spec_buckets(hir));
    out(bk.reg, global_t(g) + bk.text)
}

/// The types of a list, each after `, `.
pub open spec fn tys_t(ts: Seq<Type>) -> Seq<char>
    decreases ts.len(),
{
    if ts.len() == 0 {
        seq![]
    } else {
        tys_t(ts.drop_last()) + ", "@ + type_text(ts.last())
    }
}

/// The type of the API of an event that clients send.
pub open spec fn iter_iface_t(ts: Seq<Type>) -> Seq<char> {
    if ts.len() == 0 {
        "{ iter: () -> {Player} }"@
    } else {
        "{ iter: () -> (({ any }, number?) -> (number?, Player"@ + tys_t(ts) + "), { any }) }"@
    }
}

/// The type of the API of an event that the server sends.
pub open spec fn send_iface_t(ts: Seq<Type>) -> Seq<char> {
    "{ send: (Player"@ + tys_t(ts) + ") -> () }"@
}

/// The type of the API of the tables and events of a table.
pub open spec fn interface_t(t: Table) -> Seq<char>
    decreases t,
{
    "{ "@ + items_iface_t(t.items@) + " }"@
}

pub open spec fn items_iface_t(items: Seq<(String, Item)>) -> Seq<char>
    decreases items,
{
    if items.len() == 0 {
        seq![]
    } else {
        let last = items[items.len() - 1];
        items_iface_t(items.subrange(0, items.len() - 1)) + (last.0@ + ": "@ + match last.1 {
            Item::Table(t) => interface_t(t),
            Item::Event(e) => if e.from == NetworkSide::Client {
                iter_iface_t(e.data@)
            } else {
                send_iface_t(e.data@)
            },
        } + ", "@)
    }
}

fn push_tys(s: &mut String, ts: &Vec<Type>)
    ensures
        final(s)@ == old(s)@ + tys_t(ts@),
{
    let ghost s0 = s@;
    let mut i: usize = 0;
    assert(ts@.take(0) =~= Seq::<Type>::empty());
    assert(s0 + seq![] =~= s0);
    while i < ts.len()
        invariant
            i <= ts@.len(),
            s@ == s0 + tys_t(ts@.take(i as int)),
        decreases ts.len() - i,
    {
        s.append(", ");
        push_type(s, &ts[i]);
        assert(ts@.take(i + 1).drop_last() =~= ts@.take(i as int));
        assert(ts@.take(i + 1).last() == ts@[i as int]);
        assert(s@ =~= s0 + tys_t(ts@.take(i + 1)));
        i += 1;
    }
    assert(ts@.take(ts@.len() as int) =~= ts@);
}

fn event_interface(s: &mut String, e: &Event)
    ensures
        final(s)@ == old(s)@ + if e.from == NetworkSide::Client {
            iter_iface_t(e.data@)
        } else {
            send_iface_t(e.data@)
        },
{
    let ghost s0 = s@;
    if e.from == NetworkSide::Client {
        if e.data.len() == 0 {
            s.append("{ iter: () -> {Player} }");
        } else {
            s.append("{ iter: () -> (({ any }, number?) -> (number?, Player");
            push_tys(s, &e.data);
            s.append("), { any }) }");
            assert(s@ =~= s0 + iter_iface_t(e.data@));
        }
    } else {
        s.append("{ send: (Player");
        push_tys(s, &e.data);
        s.append(") -> () }");
        assert(s@ =~= s0 + send_iface_t(e.data@));
    }
}

/// Appends the type of the API of the tables and events of `t`.
pub fn interface(s: &mut String, t: &Table)
    ensures
        final(s)@ == old(s)@ + interface_t(*t),
    decreases t, 1int,
{
    let ghost s0 = s@;
    s.append("{ ");
    items_interface(s, &t.items);
    s.append(" }");
    assert(s@ =~= s0 + interface_t(*t));
}

fn items_interface(s: &mut String, items: &Vec<(String, Item)>)
    ensures
        final(s)@ == old(s)@ + items_iface_t(items@),
    decreases items, 0int,
{
    let ghost s0 = s@;
    let mut i: usize = 0;
    assert(items@.subrange(0, 0) =~= Seq::<(String, Item)>::empty());
    assert(s0 + seq![] =~= s0);
    while i < items.len()
        invariant
            i <= items@.len(),
            s@ == s0 + items_iface_t(items@.subrange(0, i as int)),
        decreases items.len() - i,
    {
        let ghost s1 = s@;
        let ghost it = items@[i as int];
        s.append(items[i].0.as_str());
        s.append(": ");
        match &items[i].1 {
            Item::Table(sub) => interface(s, sub),
            Item::Event(e) => event_interface(s, e),
        }
        s.append(", ");
        assert(items@.subrange(0, i + 1).subrange(0, i as int) =~= items@.subrange(0, i as int));
        assert(items@.subrange(0, i + 1)[i as int] == it);
        assert(s@ =~= s0 + items_iface_t(items@.subrange(0, i + 1)));
        i += 1;
    }
    assert(items@.subrange(0, items@.len() as int) =~= items@);
}

/// The generated code of the server, between `header` and `footer`,
/// followed by `::` and the type of its API; `None` when an event asks
/// more than code generation allows (see `event_ok`) or when the
/// variables of the generated code run out.
pub fn server(hir: &Hir, header: &str, footer: &str) -> (r: Option<String>)
    ensures
        r is Some <==> (server_accepts(*hir) && !server_s(*hir).reg.overflow),
        r matches Some(s) ==> s@ == header@ + server_s(*hir).text + footer@ + "::"@ + interface_t(
            hir.table,
        ),
{
    let bs = hir.buckets();
    let ghost sb = spec_buckets(*hir);
    let mut k: usize = 0;
    while k < bs.len()
        invariant
            k <= bs@.len(),
            buckets_view(bs@) == sb,
            sb == spec_buckets(*hir),
            forall|j: int| 0 <= j < k ==> all_ok(#[trigger] sb[j].1),
        decreases bs.len() - k,
    {
        let evs = &bs[k].1;
        let ghost pv = crate::hir::pairs_view(evs@);
        assert(sb[k as int] == (bs@[k as int].0, crate::hir::pairs_view(bs@[k as int].1@)));
        assert(sb[k as int].1 == pv);
        let mut i: usize = 0;
        while i < evs.len()
            invariant
                i <= evs@.len(),
                k < sb.len(),
                sb == spec_buckets(*hir),
                sb[k as int].1 == pv,
                pv == crate::hir::pairs_view(evs@),
                forall|j: int| 0 <= j < i ==> event_ok(#[trigger] pv[j].1),
            decreases evs.len() - i,
        {
            let e = evs[i].1;
            assert(pv[i as int].1 == *e);
            if e.data.len() == usize::MAX {
                proof {
                    assert(!event_ok(pv[i as int].1));
                    assert(!all_ok(sb[k as int].1));
                    assert(!server_accepts(*hir));
                }
                return None;
            }
            if e.from == NetworkSide::Client {
                match crate::size::try_types_size(&e.data) {
                    Some(_) => {},
                    None => {
                        proof {
                            assert(!event_ok(pv[i as int].1));
                            assert(!all_ok(sb[k as int].1));
                            assert(!server_accepts(*hir));
                        }
                        return None;
                    },
                }
            }
            i += 1;
        }
        assert(all_ok(sb[k as int].1));
        k += 1;
    }
    let mut b = Builder::new();
    let args = vec![Expr::from_u64(1024)];
    assert(args@ == seq![en(1024)]);
    let gb = b.init(global_call("buffer.create", args));
    let gp = b.init(Expr::from_u64(0));
    let gl = b.init(Expr::from_u64(1024));
    let g = Ctx { buf: gb, pos: gp, len: gl };
    let ghost gv = ctx_v(&g);
    let ghost r3 = b.reg();
    let ghost t3 = b.text();
    assert(t3 =~= global_t(gv));
    let mut k: usize = 0;
    assert(sb.take(0) =~= Seq::<(Remote, Seq<(Seq<char>, Event)>)>::empty());
    assert(t3 + seq![] =~= t3);
    while k < bs.len()
        invariant
            k <= bs@.len(),
            buckets_view(bs@) == sb,
            sb == spec_buckets(*hir),
            sb.len() == bs@.len(),
            forall|j: int| 0 <= j < sb.len() ==> all_ok(#[trigger] sb[j].1),
            gv == ctx_v(&g),
            b.reg() == buckets_s(r3, gv, sb.take(k as int)).reg,
            b.text() == t3 + buckets_s(r3, gv, sb.take(k as int)).text,
        decreases bs.len() - k,
    {
        let ghost a = buckets_s(r3, gv, sb.take(k as int));
        assert(sb[k as int] == (bs@[k as int].0, crate::hir::pairs_view(bs@[k as int].1@)));
        assert(all_ok(sb[k as int].1));
        remote(&mut b, &g, &bs[k].0, &bs[k].1);
        proof {
            assert(sb.take(k + 1).drop_last() =~= sb.take(k as int));
            assert(sb.take(k + 1).last() == sb[k as int]);
            lemma_cat(t3, a.text, remote_s(a.reg, gv, sb[k as int].0, sb[k as int].1).text);
        }
        k += 1;
    }
    assert(sb.take(sb.len() as int) =~= sb);
    if b.overflowed() {
        return None;
    }
    let body = b.build().render();
    let mut s = String::new();
    s.append(header);
    s.append(body.as_str());
    s.append(footer);
    s.append("::");
    interface(&mut s, &hir.table);
    assert(s@ =~= header@ + server_s(*hir).text + footer@ + "::"@ + interface_t(hir.table));
    Some(s)
}

} // verus!

verus! {

/// A send function starts its packet over once it has fired it: the last
/// things it does are firing the packet to the player, setting the position
/// to 0 and saving the buffer, position and length back into the remote's
/// packet context. So the position it saves is 0, and the packet the next
/// call fires holds only what that call writes, from the event index on.
#[verifier::spinoff_prover]
#[verifier::rlimit(40)]
pub proof fn lemma_send_starts_packet_over(
    r: RegState,
    g: CtxV,
    inst: u16,
    kind: NumberKind,
    k: nat,
    e: Event,
    m: Seq<u16>,
)
    ensures
        exists|h: Seq<char>, args: Seq<char>, c: CtxV|
            send_fn_s(r, g, inst, kind, k, e, m).0.text == h + (vt(inst) + ":"@ + "FireClient"@ + "("@ + args
                + ")"@ + ";"@) + (vt(c.pos) + " = "@ + nat_text(0) + ";"@) + (vt(g.buf) + " = "@ + vt(c.buf)
                + ";"@) + (vt(g.pos) + " = "@ + vt(c.pos) + ";"@) + (vt(g.len) + " = "@ + vt(c.len) + ";"@)
                + " end;"@,
{
    let ts = e.data@;
    let (r1, f) = reg_alloc(r);
    let (r2, a) = alloc_n(r1, ts.len() + 1);
    let (r3, cb) = reg_alloc(r2);
    let (r4, cp) = reg_alloc(r3);
    let (r5, cl) = reg_alloc(r4);
    let c = CtxV { buf: cb, pos: cp, len: cl };
    let sd = ser_all_s(send_ser(e), c, ts, a.skip(1), r5, m);
    let (r6, o) = reg_alloc(sd.reg);
    let args = exprs_text(seq![ev(a[0]), ev(o)]);
    let hd = "local function "@ + crate::mir::var_text(Var { id: f }) + "("@ + crate::mir::vars_text(
        crate::mir_builder::vars_of(a),
    ) + ") "@;
    let b = load_t(g, c) + write_idx_t(c, kind, k) + sd.text;
    let p = init_t(o, call_t("buffer.create"@, seq![ev(c.pos)])) + (call_t(
        "buffer.copy"@,
        seq![ev(o), en(0), ev(c.buf), en(0), ev(c.pos)],
    ) + ";"@);
    let fire = vt(inst) + ":"@ + "FireClient"@ + "("@ + args + ")"@ + ";"@;
    let z = vt(c.pos) + " = "@ + nat_text(0) + ";"@;
    let s1 = vt(g.buf) + " = "@ + vt(c.buf) + ";"@;
    let s2 = vt(g.pos) + " = "@ + vt(c.pos) + ";"@;
    let s3 = vt(g.len) + " = "@ + vt(c.len) + ";"@;
    assert(send_t(inst, ev(a[0]), c, o) == p + fire + z);
    assert(save_t(g, c) == s1 + s2 + s3);
    assert(send_fn_s(r, g, inst, kind, k, e, m).0.text == fn_t(f, a, b + send_t(inst, ev(a[0]), c, o) + save_t(g, c)));
    assert(fn_t(f, a, b + (p + fire + z) + (s1 + s2 + s3)) == hd + (b + (p + fire + z) + (s1 + s2 + s3)) + " end;"@);
    lemma_assoc_send(hd, b, p, fire, z, s1, s2, s3, " end;"@);
}

proof fn lemma_assoc_send(
    hd: Seq<char>,
    b: Seq<char>,
    p: Seq<char>,
    f: Seq<char>,
    z: Seq<char>,
    s1: Seq<char>,
    s2: Seq<char>,
    s3: Seq<char>,
    e: Seq<char>,
)
    ensures
        hd + (b + (p + f + z) + (s1 + s2 + s3)) + e == (hd + b + p) + f + z + s1 + s2 + s3 + e,
{
    assert(hd + (b + (p + f + z) + (s1 + s2 + s3)) + e =~= (hd + b + p) + f + z + s1 + s2 + s3 + e);
}

} // verus!

