//! The client side of the generated networking code.
//!
//! Each event that the server sends gets an `iter` function on the client
//! that hands out what was received: a count for an event with no data, the
//! queued values otherwise. Each event that the client sends gets a `send`
//! function that writes the packet and fires it to the server.
use vstd::prelude::*;
use crate::hir::{Event, Type};
use crate::mir::{BinOp, Block, Expr, Instr, exprs_text, expr_text, instr_text, instrs_text};
use crate::mir_builder::{
    Builder, Ctx, CtxV, Em, RegState, TVar, alloc_n, bin_t, ctx_v, fn_t, ids, lemma_ids_len, reg_alloc,
    reg_release, release_all, vt,
};
use crate::mir_serdes::{
    Des, Ser, assign_index_t, assign_t, empty_table_t, init_t, lemma_cat, out, grew, prep_types,
    types_enums, types_prep_s,
};
use crate::mir_server::{
    RecvCtx, SendCtx, call_t, des_all, des_all_s, en, ev, event_fn_name, export_t, global_call, iter_fn,
    iter_fn_s, iter_name, load_t, next_fn, next_fn_s, recv_des, save_t, send_name, send_ser, ser_all,
    ser_all_s, take_queue_t, write_idx_t,
};
use crate::shared::NumberKind;
use crate::text::nat_text;

verus! {

/// The body of `next` for an event with no data: while `i` is below the
/// count, the next index.
pub open spec fn count_next_t(cap: u16, i: u16) -> Seq<char> {
    "if "@ + bin_t(vt(i), BinOp::Lt, vt(cap)) + " then "@ + ("return "@ + exprs_text(
        seq![Expr::Binary(Box::new(ev(i)), BinOp::Add, Box::new(en(1)))],
    ) + ";"@) + " else "@ + seq![] + " end;"@
}

/// An event with no data: its listener counts the packets, and `iter`
/// takes the count and hands out that many steps of `next`.
pub open spec fn iter0_s(r: RegState, jt: u16, k: nat, path: Seq<char>, e: Event) -> Em {
    let (r1, cn) = reg_alloc(r);
    let (r2, l) = reg_alloc(r1);
    let (r3, a0) = alloc_n(r2, 0);
    let r4 = release_all(r3, a0);
    let (r5, nx) = reg_alloc(r4);
    let (r6, a2) = alloc_n(r5, 2);
    let r7 = release_all(r6, a2);
    let (r8, it) = reg_alloc(r7);
    let (r9, b0) = alloc_n(r8, 0);
    let (r10, c) = reg_alloc(r9);
    let r11 = release_all(reg_release(r10, c), b0);
    out(
        reg_release(reg_release(reg_release(reg_release(r11, it), nx), l), cn),
        init_t(cn, nat_text(0)) + fn_t(l, a0, assign_t(cn, bin_t(vt(cn), BinOp::Add, nat_text(1))))
            + assign_index_t(jt, nat_text(k), vt(l)) + fn_t(nx, a2, count_next_t(a2[0], a2[1])) + fn_t(
            it,
            b0,
            init_t(c, vt(cn)) + assign_t(cn, nat_text(0)) + ("return "@ + exprs_text(
                seq![ev(nx), ev(c), en(0)],
            ) + ";"@),
        ) + export_t(path, event_fn_name(e, "iter"@), it),
    )
}

fn iter_0data(b: &mut Builder, recv: &RecvCtx, path: &str, e: &Event)
    ensures
        grew(
            old(b).em(),
            final(b).em(),
            iter0_s(old(b).reg(), recv.jump_tbl.id(), recv.item_idx as nat, path@, *e),
        ),
{
    let ghost t0 = b.text();
    let z = Expr::from_u64(0);
    let cn = b.init(z);
    let ghost p1 = init_t(cn.id(), nat_text(0));
    let (l, a0, mut inner) = b.open_function(0);
    let ce0 = cn.expr();
    let one = Expr::from_u64(1);
    assert(expr_text(ce0) == vt(cn.id()));
    assert(expr_text(one) == nat_text(1));
    let sum = ce0.add(one);
    assert(expr_text(sum) == bin_t(vt(cn.id()), BinOp::Add, nat_text(1)));
    inner.assign(&cn, sum);
    let ghost body1 = assign_t(cn.id(), bin_t(vt(cn.id()), BinOp::Add, nat_text(1)));
    assert(inner.text() =~= body1);
    b.close_function(&l, a0, inner);
    let ghost p2 = fn_t(l.id(), ids(a0@), body1);
    proof {
        lemma_cat(t0, p1, p2);
    }
    let le = l.expr();
    assert(expr_text(le) == vt(l.id()));
    recv.listen(b, le);
    let ghost p3 = assign_index_t(recv.jump_tbl.id(), nat_text(recv.item_idx as nat), vt(l.id()));
    proof {
        lemma_cat(t0, p1 + p2, p3);
    }
    let (nx, a2, mut inner) = b.open_function(2);
    proof {
        lemma_ids_len(a2@);
    }
    let ghost cap = ids(a2@)[0];
    let ghost i = ids(a2@)[1];
    let ie0 = a2[1].expr();
    let ce1 = a2[0].expr();
    assert(expr_text(ie0) == vt(i));
    assert(expr_text(ce1) == vt(cap));
    let cond = ie0.lt(ce1);
    assert(expr_text(cond) == bin_t(vt(i), BinOp::Lt, vt(cap)));
    let rets = vec![a2[1].expr().add(Expr::from_u64(1))];
    let ghost rs = rets@;
    assert(rs == seq![Expr::Binary(Box::new(ev(i)), BinOp::Add, Box::new(en(1)))]);
    let then_block = Block { instrs: vec![Instr::Return { exprs: rets }] };
    let else_block = Block { instrs: Vec::new() };
    proof {
        let ts = then_block.instrs@;
        assert(ts.len() == 1);
        assert(instr_text(ts[0]) == "return "@ + exprs_text(rs) + ";"@);
        assert(instrs_text(Seq::<Instr>::empty()) == Seq::<char>::empty());
        assert(ts.subrange(0, 0) =~= Seq::<Instr>::empty());
        assert(instrs_text(ts) =~= "return "@ + exprs_text(rs) + ";"@);
        assert(instrs_text(else_block.instrs@) =~= Seq::<char>::empty());
    }
    let br = Instr::Branch { cond, then_block, else_block };
    assert(instr_text(br) == count_next_t(cap, i));
    inner.instr(br);
    assert(inner.text() =~= count_next_t(cap, i));
    b.close_function(&nx, a2, inner);
    let ghost p4 = fn_t(nx.id(), ids(a2@), count_next_t(cap, i));
    proof {
        lemma_cat(t0, p1 + p2 + p3, p4);
    }
    let (it, b0, mut inner) = b.open_function(0);
    let ce = cn.expr();
    assert(expr_text(ce) == vt(cn.id()));
    let c = inner.init(ce);
    inner.assign(&cn, Expr::from_u64(0));
    let rets = vec![nx.expr(), c.expr(), Expr::from_u64(0)];
    assert(rets@ == seq![ev(nx.id()), ev(c.id()), en(0)]);
    inner.ret(rets);
    let ghost body3 = init_t(c.id(), vt(cn.id())) + assign_t(cn.id(), nat_text(0)) + ("return "@
        + exprs_text(seq![ev(nx.id()), ev(c.id()), en(0)]) + ";"@);
    assert(inner.text() =~= body3);
    inner.free(c);
    b.close_function(&it, b0, inner);
    let ghost p5 = fn_t(it.id(), ids(b0@), body3);
    proof {
        lemma_cat(t0, p1 + p2 + p3 + p4, p5);
    }
    let name = iter_name(e);
    let ie = it.expr();
    assert(expr_text(ie) == vt(it.id()));
    b.export(path, name.as_str(), ie);
    proof {
        lemma_cat(t0, p1 + p2 + p3 + p4 + p5, export_t(path@, event_fn_name(*e, "iter"@), it.id()));
    }
    b.free(it);
    b.free(nx);
    b.free(l);
    b.free(cn);
}

/// The listener of an event with data: it queues each value read from the
/// packet.
pub open spec fn listener_s(r: RegState, q: u16, e: Event, m: Seq<u16>) -> (Em, u16) {
    let (r1, l) = reg_alloc(r);
    let (r2, a) = alloc_n(r1, 3);
    let (r3, cb) = reg_alloc(r2);
    let (r4, cp) = reg_alloc(r3);
    let (r5, cl) = reg_alloc(r4);
    let c = CtxV { buf: cb, pos: cp, len: cl };
    let dd = des_all_s(recv_des(e), c, e.data@, r5, m, q);
    (
        out(
            release_all(reg_release(reg_release(reg_release(dd.reg, cb), cp), cl), a),
            fn_t(l, a, init_t(cb, vt(a[0])) + init_t(cp, vt(a[1])) + init_t(cl, vt(a[2])) + dd.text),
        ),
        l,
    )
}

/// The queue of an event with data, filled by its listener.
pub open spec fn queue_s(r: RegState, jt: u16, k: nat, e: Event) -> (Em, u16) {
    let (r1, q) = reg_alloc(r);
    let (p, ms) = types_prep_s(e.data@, r1, false);
    let (lf, l) = listener_s(p.reg, q, e, ms);
    (
        out(
            reg_release(lf.reg, l),
            init_t(q, empty_table_t()) + p.text + lf.text + assign_index_t(jt, nat_text(k), vt(l)),
        ),
        q,
    )
}

fn listener(b: &mut Builder, q: &TVar, e: &Event, maps: &mut Vec<TVar>) -> (l: TVar)
    requires
        old(maps)@.len() >= types_enums(e.data@),
    ensures
        grew(old(b).em(), final(b).em(), listener_s(old(b).reg(), q.id(), *e, ids(old(maps)@)).0),
        l.id() == listener_s(old(b).reg(), q.id(), *e, ids(old(maps)@)).1,
{
    let ghost m0 = ids(maps@);
    let (l, a, mut inner) = b.open_function(3);
    proof {
        lemma_ids_len(a@);
    }
    let a0 = a[0].expr();
    let a1 = a[1].expr();
    let a2 = a[2].expr();
    assert(expr_text(a0) == vt(ids(a@)[0]));
    assert(expr_text(a1) == vt(ids(a@)[1]));
    assert(expr_text(a2) == vt(ids(a@)[2]));
    let cb = inner.init(a0);
    let cp = inner.init(a1);
    let cl = inner.init(a2);
    let ghost r5 = inner.reg();
    let ghost h = init_t(cb.id(), vt(ids(a@)[0])) + init_t(cp.id(), vt(ids(a@)[1])) + init_t(
        cl.id(),
        vt(ids(a@)[2]),
    );
    assert(inner.text() =~= h);
    let ctx = Ctx { buf: cb, pos: cp, len: cl };
    let d = Des { opts: e.opts, native: true, check: false };
    des_all(&d, &mut inner, &ctx, &e.data, q, maps);
    let ghost dd = des_all_s(recv_des(*e), ctx_v(&ctx), e.data@, r5, m0, q.id());
    proof {
        lemma_cat(seq![], h, dd.text);
        assert(seq![] + h =~= h);
        assert(seq![] + (h + dd.text) =~= h + dd.text);
    }
    inner.free(ctx.buf);
    inner.free(ctx.pos);
    inner.free(ctx.len);
    b.close_function(&l, a, inner);
    l
}

fn queue(b: &mut Builder, recv: &RecvCtx, e: &Event) -> (q: TVar)
    ensures
        grew(
            old(b).em(),
            final(b).em(),
            queue_s(old(b).reg(), recv.jump_tbl.id(), recv.item_idx as nat, *e).0,
        ),
        q.id() == queue_s(old(b).reg(), recv.jump_tbl.id(), recv.item_idx as nat, *e).1,
{
    let ghost t0 = b.text();
    let tbl0 = Expr::Table(Vec::new());
    assert(expr_text(tbl0) == empty_table_t());
    let q = b.init(tbl0);
    let ghost p1 = init_t(q.id(), empty_table_t());
    let ghost r1 = b.reg();
    let mut maps: Vec<TVar> = Vec::new();
    proof {
        assert(ids(maps@) =~= Seq::<u16>::empty());
    }
    prep_types(b, &e.data, false, &mut maps);
    let ghost (p, ms) = types_prep_s(e.data@, r1, false);
    proof {
        lemma_cat(t0, p1, p.text);
        assert(Seq::<u16>::empty() + ms =~= ms);
        lemma_ids_len(maps@);
    }
    let l = listener(b, &q, e, &mut maps);
    let ghost lf = listener_s(p.reg, q.id(), *e, ms).0;
    proof {
        lemma_cat(t0, p1 + p.text, lf.text);
    }
    let le = l.expr();
    assert(expr_text(le) == vt(l.id()));
    recv.listen(b, le);
    proof {
        lemma_cat(
            t0,
            p1 + p.text + lf.text,
            assign_index_t(recv.jump_tbl.id(), nat_text(recv.item_idx as nat), vt(l.id())),
        );
    }
    b.free(l);
    q
}

/// An event with one value: `iter` hands out the queue itself.
pub open spec fn iter1_s(r: RegState, jt: u16, k: nat, path: Seq<char>, e: Event) -> Em {
    let (qf, q) = queue_s(r, jt, k, e);
    let (r1, it) = reg_alloc(qf.reg);
    let (r2, a0) = alloc_n(r1, 0);
    let (r3, c) = reg_alloc(r2);
    let r4 = release_all(reg_release(r3, c), a0);
    out(
        reg_release(reg_release(r4, it), q),
        qf.text + fn_t(it, a0, take_queue_t(q, c) + ("return "@ + exprs_text(seq![ev(c)]) + ";"@))
            + export_t(path, event_fn_name(e, "iter"@), it),
    )
}

fn iter_1data(b: &mut Builder, recv: &RecvCtx, path: &str, e: &Event)
    ensures
        grew(
            old(b).em(),
            final(b).em(),
            iter1_s(old(b).reg(), recv.jump_tbl.id(), recv.item_idx as nat, path@, *e),
        ),
{
    let ghost t0 = b.text();
    let q = queue(b, recv, e);
    let ghost qf = queue_s(old(b).reg(), recv.jump_tbl.id(), recv.item_idx as nat, *e).0;
    let (it, a0, mut inner) = b.open_function(0);
    let qe = q.expr();
    assert(expr_text(qe) == vt(q.id()));
    let c = inner.init(qe);
    let tbl = Expr::Table(Vec::new());
    assert(expr_text(tbl) == empty_table_t());
    inner.assign(&q, tbl);
    let rets = vec![c.expr()];
    assert(rets@ == seq![ev(c.id())]);
    inner.ret(rets);
    let ghost body = take_queue_t(q.id(), c.id()) + ("return "@ + exprs_text(seq![ev(c.id())]) + ";"@);
    assert(inner.text() =~= body);
    inner.free(c);
    b.close_function(&it, a0, inner);
    let ghost p2 = fn_t(it.id(), ids(a0@), body);
    proof {
        lemma_cat(t0, qf.text, p2);
    }
    let name = iter_name(e);
    let ie = it.expr();
    assert(expr_text(ie) == vt(it.id()));
    b.export(path, name.as_str(), ie);
    proof {
        lemma_cat(t0, qf.text + p2, export_t(path@, event_fn_name(*e, "iter"@), it.id()));
    }
    b.free(it);
    b.free(q);
}

/// An event with two values or more: `iter` hands the queue to `next`,
/// which steps through it a whole event at a time.
pub open spec fn itern_s(r: RegState, jt: u16, k: nat, path: Seq<char>, e: Event) -> Em {
    let (qf, q) = queue_s(r, jt, k, e);
    let (nf, nx) = next_fn_s(qf.reg, (e.data@.len() - 1) as nat);
    let (itf, it) = iter_fn_s(nf.reg, q, nx);
    out(
        reg_release(reg_release(reg_release(itf.reg, it), nx), q),
        qf.text + nf.text + itf.text + export_t(path, event_fn_name(e, "iter"@), it),
    )
}

fn iter_ndata(b: &mut Builder, recv: &RecvCtx, path: &str, e: &Event)
    requires
        e.data@.len() >= 1,
    ensures
        grew(
            old(b).em(),
            final(b).em(),
            itern_s(old(b).reg(), recv.jump_tbl.id(), recv.item_idx as nat, path@, *e),
        ),
{
    let ghost t0 = b.text();
    let q = queue(b, recv, e);
    let ghost qf = queue_s(old(b).reg(), recv.jump_tbl.id(), recv.item_idx as nat, *e).0;
    let nx = next_fn(b, e.data.len() - 1);
    let ghost nf = next_fn_s(qf.reg, (e.data@.len() - 1) as nat).0;
    proof {
        lemma_cat(t0, qf.text, nf.text);
    }
    let it = iter_fn(b, &q, &nx);
    let ghost itf = iter_fn_s(nf.reg, q.id(), nx.id()).0;
    proof {
        lemma_cat(t0, qf.text + nf.text, itf.text);
    }
    let name = iter_name(e);
    let ie = it.expr();
    assert(expr_text(ie) == vt(it.id()));
    b.export(path, name.as_str(), ie);
    proof {
        lemma_cat(t0, qf.text + nf.text + itf.text, export_t(path@, event_fn_name(*e, "iter"@), it.id()));
    }
    b.free(it);
    b.free(nx);
    b.free(q);
}

/// An event that the server sends, as the client receives it.
#[verifier::opaque]
pub open spec fn iter_s(r: RegState, jt: u16, k: nat, path: Seq<char>, e: Event) -> Em {
    if e.data@.len() == 0 {
        iter0_s(r, jt, k, path, e)
    } else if e.data@.len() == 1 {
        iter1_s(r, jt, k, path, e)
    } else {
        itern_s(r, jt, k, path, e)
    }
}

/// Emits the code with which the client receives an event that the server
/// sends: its listener, registered as the `item_idx`-th of `recv`, and its
/// `iter` function, exported at `path`.
pub fn iter(b: &mut Builder, recv: &RecvCtx, path: &str, e: &Event)
    ensures
        grew(
            old(b).em(),
            final(b).em(),
            iter_s(old(b).reg(), recv.jump_tbl.id(), recv.item_idx as nat, path@, *e),
        ),
{
    reveal(iter_s);
    if e.data.len() == 0 {
        iter_0data(b, recv, path, e)
    } else if e.data.len() == 1 {
        iter_1data(b, recv, path, e)
    } else {
        iter_ndata(b, recv, path, e)
    }
}

} // verus!

verus! {

/// Copying what was written into a new buffer `o`, firing it to the server
/// through the remote instance `inst`, and starting the packet over.
pub open spec fn fire_t(inst: u16, c: CtxV, o: u16) -> Seq<char> {
    init_t(o, call_t("buffer.create"@, seq![ev(c.pos)])) + (call_t(
        "buffer.copy"@,
        seq![ev(o), en(0), ev(c.buf), en(0), ev(c.pos)],
    ) + ";"@) + (vt(inst) + ":"@ + "FireServer"@ + "("@ + exprs_text(seq![ev(o)]) + ")"@ + ";"@)
        + assign_t(c.pos, nat_text(0))
}

/// Fires what was written in `ctx` to the server, and starts over.
fn fire(sc: &SendCtx, b: &mut Builder, ctx: &Ctx)
    ensures
        final(b).reg() == reg_release(reg_alloc(old(b).reg()).0, reg_alloc(old(b).reg()).1),
        final(b).text() == old(b).text() + fire_t(sc.instance.id(), ctx_v(ctx), reg_alloc(old(b).reg()).1),
{
    let ghost t0 = b.text();
    let ghost c = ctx_v(ctx);
    let args = vec![ctx.pos.expr()];
    assert(args@ == seq![ev(c.pos)]);
    let o = b.init(global_call("buffer.create", args));
    let ghost p1 = init_t(o.id(), call_t("buffer.create"@, seq![ev(c.pos)]));
    let args = vec![o.expr(), Expr::from_u64(0), ctx.buf.expr(), Expr::from_u64(0), ctx.pos.expr()];
    assert(args@ == seq![ev(o.id()), en(0), ev(c.buf), en(0), ev(c.pos)]);
    b.call(global_call("buffer.copy", args));
    let ghost p2 = call_t("buffer.copy"@, seq![ev(o.id()), en(0), ev(c.buf), en(0), ev(c.pos)]) + ";"@;
    proof {
        lemma_cat(t0, p1, p2);
    }
    let args = vec![o.expr()];
    assert(args@ == seq![ev(o.id())]);
    let ie = sc.instance.expr();
    assert(expr_text(ie) == vt(sc.instance.id()));
    let fire = ie.namecall("FireServer", args);
    let ghost p3 = vt(sc.instance.id()) + ":"@ + "FireServer"@ + "("@ + exprs_text(seq![ev(o.id())]) + ")"@
        + ";"@;
    b.call(fire);
    proof {
        lemma_cat(t0, p1 + p2, p3);
    }
    b.assign(&ctx.pos, Expr::from_u64(0));
    proof {
        lemma_cat(t0, p1 + p2 + p3, assign_t(c.pos, nat_text(0)));
    }
    b.free(o);
}

/// The `send` function of an event that the client sends: its arguments
/// are the values; it writes the index of the event and each value, and
/// fires the packet to the server.
pub open spec fn send_fn_s(
    r: RegState,
    g: CtxV,
    inst: u16,
    kind: NumberKind,
    k: nat,
    e: Event,
    m: Seq<u16>,
) -> (Em, u16) {
    let ts = e.data@;
    let (r1, f) = reg_alloc(r);
    let (r2, a) = alloc_n(r1, ts.len());
    let (r3, cb) = reg_alloc(r2);
    let (r4, cp) = reg_alloc(r3);
    let (r5, cl) = reg_alloc(r4);
    let c = CtxV { buf: cb, pos: cp, len: cl };
    let sd = ser_all_s(send_ser(e), c, ts, a, r5, m);
    let (r6, o) = reg_alloc(sd.reg);
    let r7 = reg_release(reg_release(reg_release(reg_release(r6, o), cb), cp), cl);
    (
        out(
            release_all(r7, a),
            fn_t(f, a, load_t(g, c) + write_idx_t(c, kind, k) + sd.text + fire_t(inst, c, o) + save_t(g, c)),
        ),
        f,
    )
}

/// An event that the client sends.
#[verifier::opaque]
pub open spec fn send_s(r: RegState, g: CtxV, inst: u16, kind: NumberKind, k: nat, path: Seq<char>, e: Event) -> Em {
    let (p, ms) = types_prep_s(e.data@, r, true);
    let (sf, f) = send_fn_s(p.reg, g, inst, kind, k, e, ms);
    out(reg_release(sf.reg, f), p.text + sf.text + export_t(path, event_fn_name(e, "send"@), f))
}

#[verifier::rlimit(40)]
fn send_fn(b: &mut Builder, sc: &SendCtx, e: &Event, maps: &mut Vec<TVar>) -> (f: TVar)
    requires
        old(maps)@.len() >= types_enums(e.data@),
    ensures
        grew(
            old(b).em(),
            final(b).em(),
            send_fn_s(old(b).reg(), ctx_v(sc.ctx), sc.instance.id(), sc.idx_kind, sc.item_idx as nat, *e, ids(old(maps)@)).0,
        ),
        f.id() == send_fn_s(old(b).reg(), ctx_v(sc.ctx), sc.instance.id(), sc.idx_kind, sc.item_idx as nat, *e, ids(old(maps)@)).1,
{
    let ghost m0 = ids(maps@);
    let ghost g = ctx_v(sc.ctx);
    let n = e.data.len();
    let (f, a, mut inner) = b.open_function(n);
    proof {
        lemma_ids_len(a@);
    }
    let ghost av = ids(a@);
    let ctx = sc.load_ctx(&mut inner);
    let ghost c = ctx_v(&ctx);
    let ghost h1 = load_t(g, c);
    let ghost r5 = inner.reg();
    assert(inner.text() =~= h1);
    sc.write_idx(&mut inner, &ctx);
    let ghost h2 = h1 + write_idx_t(c, sc.idx_kind, sc.item_idx as nat);
    let s = Ser { opts: e.opts, native: true };
    ser_all(&s, &mut inner, &ctx, &e.data, &a, maps);
    let ghost sd = ser_all_s(send_ser(*e), c, e.data@, av, r5, m0);
    proof {
        lemma_cat(seq![], h2, sd.text);
        assert(seq![] + h2 =~= h2);
    }
    let ghost r6 = inner.reg();
    fire(sc, &mut inner, &ctx);
    let ghost ft = fire_t(sc.instance.id(), c, reg_alloc(r6).1);
    proof {
        lemma_cat(seq![], h2 + sd.text, ft);
    }
    sc.save_ctx(&mut inner, &ctx);
    proof {
        lemma_cat(seq![], h2 + sd.text + ft, save_t(g, c));
        assert(seq![] + (h2 + sd.text + ft + save_t(g, c)) =~= h2 + sd.text + ft + save_t(g, c));
        assert(seq![] + (h2 + sd.text) =~= h2 + sd.text);
    }
    inner.free(ctx.buf);
    inner.free(ctx.pos);
    inner.free(ctx.len);
    b.close_function(&f, a, inner);
    f
}

/// Emits the code with which the client sends an event: the `send`
/// function, which writes the index `item_idx` of the event and its values
/// into the packet of `sc` and fires it, exported at `path`.
pub fn event(b: &mut Builder, sc: &SendCtx, path: &str, e: &Event)
    ensures
        grew(
            old(b).em(),
            final(b).em(),
            send_s(old(b).reg(), ctx_v(sc.ctx), sc.instance.id(), sc.idx_kind, sc.item_idx as nat, path@, *e),
        ),
{
    reveal(send_s);
    let ghost t0 = b.text();
    let ghost r0 = b.reg();
    let mut maps: Vec<TVar> = Vec::new();
    proof {
        assert(ids(maps@) =~= Seq::<u16>::empty());
    }
    prep_types(b, &e.data, true, &mut maps);
    let ghost (p, ms) = types_prep_s(e.data@, r0, true);
    proof {
        assert(Seq::<u16>::empty() + ms =~= ms);
        lemma_ids_len(maps@);
    }
    let f = send_fn(b, sc, e, &mut maps);
    let ghost sf = send_fn_s(p.reg, ctx_v(sc.ctx), sc.instance.id(), sc.idx_kind, sc.item_idx as nat, *e, ms).0;
    proof {
        lemma_cat(t0, p.text, sf.text);
    }
    let name = send_name(e);
    let fe = f.expr();
    assert(expr_text(fe) == vt(f.id()));
    b.export(path, name.as_str(), fe);
    proof {
        lemma_cat(t0, p.text + sf.text, export_t(path@, event_fn_name(*e, "send"@), f.id()));
    }
    b.free(f);
}

} // verus!

verus! {

/// A client send function starts its packet over once it has fired it:
/// the last things it does are firing the packet to the server, setting the
/// position to 0 and saving the buffer, position and length back into the
/// remote's packet context. So the position it saves is 0, and the packet
/// the next call fires holds only what that call writes.
#[verifier::spinoff_prover]
#[verifier::rlimit(40)]
pub proof fn lemma_client_send_starts_packet_over(
    r: RegState,
    g: CtxV,
    inst: u16,
    kind: NumberKind,
    k: nat,
    e: Event,
    m: Seq<u16>,
)
    ensures
        exists|h: Seq<char>, args: Seq<char>, c: CtxV|
            send_fn_s(r, g, inst, kind, k, e, m).0.text == h + (vt(inst) + ":"@ + "FireServer"@ + "("@ + args
                + ")"@ + ";"@) + (vt(c.pos) + " = "@ + nat_text(0) + ";"@) + (vt(g.buf) + " = "@ + vt(c.buf)
                + ";"@) + (vt(g.pos) + " = "@ + vt(c.pos) + ";"@) + (vt(g.len) + " = "@ + vt(c.len) + ";"@)
                + " end;"@,
{
    let ts = e.data@;
    let (r1, f) = reg_alloc(r);
    let (r2, a) = alloc_n(r1, ts.len());
    let (r3, cb) = reg_alloc(r2);
    let (r4, cp) = reg_alloc(r3);
    let (r5, cl) = reg_alloc(r4);
    let c = CtxV { buf: cb, pos: cp, len: cl };
    let sd = ser_all_s(send_ser(e), c, ts, a, r5, m);
    let (r6, o) = reg_alloc(sd.reg);
    let args = exprs_text(seq![ev(o)]);
    let hd = "local function "@ + crate::mir::var_text(crate::mir::Var { id: f }) + "("@ + crate::mir::vars_text(
        crate::mir_builder::vars_of(a),
    ) + ") "@;
    let b = load_t(g, c) + write_idx_t(c, kind, k) + sd.text;
    let p = init_t(o, call_t("buffer.create"@, seq![ev(c.pos)])) + (call_t(
        "buffer.copy"@,
        seq![ev(o), en(0), ev(c.buf), en(0), ev(c.pos)],
    ) + ";"@);
    let fire = vt(inst) + ":"@ + "FireServer"@ + "("@ + args + ")"@ + ";"@;
    let z = vt(c.pos) + " = "@ + nat_text(0) + ";"@;
    let s1 = vt(g.buf) + " = "@ + vt(c.buf) + ";"@;
    let s2 = vt(g.pos) + " = "@ + vt(c.pos) + ";"@;
    let s3 = vt(g.len) + " = "@ + vt(c.len) + ";"@;
    assert(fire_t(inst, c, o) == p + fire + z);
    assert(save_t(g, c) == s1 + s2 + s3);
    assert(fn_t(f, a, b + (p + fire + z) + (s1 + s2 + s3)) == hd + (b + (p + fire + z) + (s1 + s2 + s3)) + " end;"@);
    lemma_assoc_fire(hd, b, p, fire, z, s1, s2, s3, " end;"@);
}

proof fn lemma_assoc_fire(
    hd: Seq<char>,
    b: Seq<char>,
    p: Seq<char>,
    f: Seq<char>,
    z: Seq<char>,
    s1: Seq<char>,
    s2: Seq<char>,
    s3: Seq<char>,
    e: Seq<char>,
)
    ensures
        hd + (b + (p + f + z) + (s1 + s2 + s3)) + e == (hd + b + p) + f + z + s1 + s2 + s3 + e,
{
    assert(hd + (b + (p + f + z) + (s1 + s2 + s3)) + e =~= (hd + b + p) + f + z + s1 + s2 + s3 + e);
}

} // verus!

