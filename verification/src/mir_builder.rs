//! Building blocks of instructions, with a registry that hands out the
//! local variables of the generated code and takes them back for reuse.
use vstd::prelude::*;
use crate::mir::{Block, Expr, FuncD, FuncK, Instr, Var, instr_text, instrs_text, var_text, expr_text};

verus! {

/// The registry as a value: the next never-used id, the ids handed back
/// (the last one is reused first), and whether ids ran out.
pub struct RegState {
    pub next: u16,
    pub free: Seq<u16>,
    pub overflow: bool,
}

/// Handing out a variable: the last id handed back, else the next
/// never-used one. The id after 65534 cannot be counted: `overflow` is set
/// then and 65535 is handed out.
pub open spec fn reg_alloc(r: RegState) -> (RegState, u16) {
    if r.free.len() > 0 {
        (RegState { next: r.next, free: r.free.drop_last(), overflow: r.overflow }, r.free.last())
    } else if r.next < u16::MAX {
        (RegState { next: (r.next + 1) as u16, free: r.free, overflow: r.overflow }, r.next)
    } else {
        (RegState { next: r.next, free: r.free, overflow: true }, r.next)
    }
}

/// Handing a variable back.
pub open spec fn reg_release(r: RegState, v: u16) -> RegState {
    RegState { next: r.next, free: r.free.push(v), overflow: r.overflow }
}

/// The ids in use: handed out and not handed back.
pub open spec fn reg_live(r: RegState) -> Set<u16> {
    Set::new(|v: u16| v < r.next && !r.free.contains(v))
}

/// Every id handed back was handed out before, and only once.
pub open spec fn reg_wf(r: RegState) -> bool {
    &&& forall|i: int| 0 <= i < r.free.len() ==> #[trigger] r.free[i] < r.next
    &&& r.free.no_duplicates()
}

/// A variable handed out by the registry is not in use at that moment, and
/// is in use afterwards; nothing else changes in use.
pub proof fn lemma_alloc_fresh(r: RegState)
    requires
        reg_wf(r),
        !r.overflow,
        !reg_alloc(r).0.overflow,
    ensures
        !reg_live(r).contains(reg_alloc(r).1),
        reg_wf(reg_alloc(r).0),
        reg_live(reg_alloc(r).0) == reg_live(r).insert(reg_alloc(r).1),
{
    let (r2, v) = reg_alloc(r);
    if r.free.len() > 0 {
        assert(r.free.contains(v)) by {
            assert(r.free[r.free.len() - 1] == v);
        }
        assert forall|x: u16| r.free.drop_last().contains(x) implies x != v by {
            let k = choose|k: int| 0 <= k < r.free.drop_last().len() && r.free.drop_last()[k] == x;
            assert(r.free[k] == x);
        }
        assert forall|x: u16| #[trigger] r.free.contains(x) <==> (r.free.drop_last().contains(x)
            || x == v) by {
            if r.free.contains(x) {
                let k = choose|k: int| 0 <= k < r.free.len() && r.free[k] == x;
                if k < r.free.len() - 1 {
                    assert(r.free.drop_last()[k] == x);
                }
            }
            if r.free.drop_last().contains(x) {
                let k = choose|k: int| 0 <= k < r.free.drop_last().len() && r.free.drop_last()[k]
                    == x;
                assert(r.free[k] == x);
            }
        }
        assert(reg_live(r2) =~= reg_live(r).insert(v));
    } else {
        assert forall|x: u16| !r.free.contains(x) by {}
        assert(reg_live(r2) =~= reg_live(r).insert(v));
    }
}

/// Handing back a variable in use makes it free for reuse and leaves the
/// others in use.
pub proof fn lemma_release_live(r: RegState, v: u16)
    requires
        reg_wf(r),
        reg_live(r).contains(v),
    ensures
        reg_wf(reg_release(r, v)),
        reg_live(reg_release(r, v)) == reg_live(r).remove(v),
{
    let r2 = reg_release(r, v);
    assert forall|x: u16| #[trigger] r2.free.contains(x) <==> (r.free.contains(x) || x == v) by {
        if r2.free.contains(x) {
            let k = choose|k: int| 0 <= k < r2.free.len() && r2.free[k] == x;
            if k < r.free.len() {
                assert(r.free[k] == x);
            }
        }
        if r.free.contains(x) {
            let k = choose|k: int| 0 <= k < r.free.len() && r.free[k] == x;
            assert(r2.free[k] == x);
        }
        if x == v {
            assert(r2.free[r.free.len() as int] == x);
        }
    }
    assert(reg_live(r2) =~= reg_live(r).remove(v));
}

/// A step of a registry's life: a variable handed out, or the variable
/// with id `v` handed back.
pub enum RegOp {
    Alloc,
    Release(u16),
}

/// The registry state after the steps `ops`, from `r`.
pub open spec fn reg_run(r: RegState, ops: Seq<RegOp>) -> RegState
    decreases ops.len(),
{
    if ops.len() == 0 {
        r
    } else {
        let s = reg_run(r, ops.drop_last());
        match ops.last() {
            RegOp::Alloc => reg_alloc(s).0,
            RegOp::Release(v) => reg_release(s, v),
        }
    }
}

/// Every variable handed back by `ops` was in use when it was handed back,
/// as each variable is handed back once, to the registry that handed it out.
pub open spec fn reg_run_proper(r: RegState, ops: Seq<RegOp>) -> bool
    decreases ops.len(),
{
    if ops.len() == 0 {
        true
    } else {
        &&& reg_run_proper(r, ops.drop_last())
        &&& match ops.last() {
            RegOp::Alloc => true,
            RegOp::Release(v) => reg_live(reg_run(r, ops.drop_last())).contains(v),
        }
    }
}

/// The registry of every state reachable from a new registry, handing each
/// variable back once to it, is well formed; so, until the ids run out,
/// the next variable it hands out is none of those in use.
pub proof fn lemma_reachable_fresh(ops: Seq<RegOp>)
    requires
        reg_run_proper(RegState { next: 0, free: Seq::empty(), overflow: false }, ops),
    ensures
        reg_wf(reg_run(RegState { next: 0, free: Seq::empty(), overflow: false }, ops)),
        ({
            let s = reg_run(RegState { next: 0, free: Seq::empty(), overflow: false }, ops);
            !reg_alloc(s).0.overflow ==> !reg_live(s).contains(reg_alloc(s).1)
        }),
    decreases ops.len(),
{
    let r0 = RegState { next: 0, free: Seq::empty(), overflow: false };
    if ops.len() > 0 {
        lemma_reachable_fresh(ops.drop_last());
        let s = reg_run(r0, ops.drop_last());
        match ops.last() {
            RegOp::Alloc => {
                lemma_run_overflow(ops.drop_last());
                if !reg_alloc(s).0.overflow {
                    lemma_alloc_fresh(s);
                } else {
                    lemma_alloc_keeps_wf(s);
                }
            },
            RegOp::Release(v) => {
                lemma_release_live(s, v);
            },
        }
    }
    let s = reg_run(r0, ops);
    if !reg_alloc(s).0.overflow {
        lemma_run_overflow(ops);
        lemma_alloc_fresh(s);
    }
}

proof fn lemma_run_overflow(ops: Seq<RegOp>)
    ensures
        !reg_alloc(reg_run(RegState { next: 0, free: Seq::empty(), overflow: false }, ops)).0.overflow
            ==> !reg_run(RegState { next: 0, free: Seq::empty(), overflow: false }, ops).overflow,
{
}

proof fn lemma_alloc_keeps_wf(r: RegState)
    requires
        reg_wf(r),
    ensures
        reg_wf(reg_alloc(r).0),
{
    if r.free.len() > 0 {
        let f = r.free.drop_last();
        assert forall|i: int, j: int| 0 <= i < f.len() && 0 <= j < f.len() && i != j implies f[i] != f[j] by {
            assert(f[i] == r.free[i] && f[j] == r.free[j]);
        }
        assert forall|i: int| 0 <= i < f.len() implies #[trigger] f[i] < r.next by {
            assert(f[i] == r.free[i]);
        }
    }
}

/// The registry of local variables.
pub struct Registry {
    next: u16,
    free: Vec<u16>,
    overflow: bool,
}

impl Registry {
    pub closed spec fn view(&self) -> RegState {
        RegState { next: self.next, free: self.free@, overflow: self.overflow }
    }

    /// A registry that has handed out nothing.
    pub fn new() -> (r: Registry)
        ensures
            r.view() == (RegState { next: 0, free: Seq::empty(), overflow: false }),
            reg_wf(r.view()),
    {
        Registry { next: 0, free: Vec::new(), overflow: false }
    }

    /// Hands out a variable. From a well-formed registry whose ids have not
    /// run out, it is one not in use, and it is in use afterwards.
    pub fn var(&mut self) -> (v: TVar)
        ensures
            (final(self).view(), v.id()) == reg_alloc(old(self).view()),
            reg_wf(old(self).view()) && !final(self).view().overflow ==> {
                &&& !reg_live(old(self).view()).contains(v.id())
                &&& reg_wf(final(self).view())
                &&& reg_live(final(self).view()) == reg_live(old(self).view()).insert(v.id())
            },
    {
        proof {
            if reg_wf(self.view()) && !reg_alloc(self.view()).0.overflow {
                lemma_alloc_fresh(self.view());
            }
        }
        if let Some(id) = self.free.pop() {
            TVar { var: Var { id } }
        } else if self.next < u16::MAX {
            let id = self.next;
            self.next = self.next + 1;
            TVar { var: Var { id } }
        } else {
            self.overflow = true;
            TVar { var: Var { id: self.next } }
        }
    }

    /// Takes a variable back for reuse. Handing back one in use keeps the
    /// registry well formed.
    pub fn free(&mut self, v: TVar)
        ensures
            final(self).view() == reg_release(old(self).view(), v.id()),
            reg_wf(old(self).view()) && reg_live(old(self).view()).contains(v.id()) ==> {
                &&& reg_wf(final(self).view())
                &&& reg_live(final(self).view()) == reg_live(old(self).view()).remove(v.id())
            },
    {
        proof {
            if reg_wf(self.view()) && reg_live(self.view()).contains(v.id()) {
                lemma_release_live(self.view(), v.id());
            }
        }
        self.free.push(v.var.id);
    }
}

/// A variable handed out by a registry, to be handed back when its value is
/// no longer needed.
pub struct TVar {
    var: Var,
}

impl TVar {
    pub closed spec fn id(&self) -> u16 {
        self.var.id
    }

    /// The variable.
    pub fn var(&self) -> (v: Var)
        ensures
            v.id == self.id(),
    {
        self.var
    }

    /// The variable as an expression.
    pub fn expr(&self) -> (e: Expr)
        ensures
            e == Expr::Var(Var { id: self.id() }),
    {
        Expr::Var(self.var)
    }
}

/// The ids of a list of variables.
pub open spec fn ids(s: Seq<TVar>) -> Seq<u16> {
    s.map_values(|v: TVar| v.id())
}

pub proof fn lemma_ids_len(s: Seq<TVar>)
    ensures
        ids(s).len() == s.len(),
{
}

pub proof fn lemma_ids_push(s: Seq<TVar>, v: TVar)
    ensures
        ids(s.push(v)) == ids(s) + seq![v.id()],
{
    assert(ids(s.push(v)) =~= ids(s) + seq![v.id()]);
}

pub proof fn lemma_take_push(vs: Seq<u16>, k: int)
    requires
        0 <= k < vs.len(),
    ensures
        vs.take(k + 1).drop_last() == vs.take(k),
        vs.take(k + 1).last() == vs[k],
{
    assert(vs.take(k + 1).drop_last() =~= vs.take(k));
}

/// Registry state `r` after handing out `n` variables, and their ids.
pub open spec fn alloc_n(r: RegState, n: nat) -> (RegState, Seq<u16>)
    decreases n,
{
    if n == 0 {
        (r, seq![])
    } else {
        let (r1, vs) = alloc_n(r, (n - 1) as nat);
        let (r2, v) = reg_alloc(r1);
        (r2, vs.push(v))
    }
}

/// Registry state `r` after handing back `vs`, first to last.
pub open spec fn release_all(r: RegState, vs: Seq<u16>) -> RegState
    decreases vs.len(),
{
    if vs.len() == 0 {
        r
    } else {
        reg_release(release_all(r, vs.drop_last()), vs.last())
    }
}


/// Handing variables back keeps the flag of ids run out.
pub proof fn lemma_release_all_ovf(r: RegState, vs: Seq<u16>)
    ensures
        release_all(r, vs).overflow == r.overflow,
    decreases vs.len(),
{
    if vs.len() > 0 {
        lemma_release_all_ovf(r, vs.drop_last());
    }
}

/// Handing back variables in use, each once, leaves the others in use.
pub proof fn lemma_release_all_live(r: RegState, vs: Seq<u16>)
    requires
        reg_wf(r),
        vs.no_duplicates(),
        forall|i: int| 0 <= i < vs.len() ==> reg_live(r).contains(#[trigger] vs[i]),
    ensures
        reg_wf(release_all(r, vs)),
        reg_live(release_all(r, vs)) == reg_live(r).difference(vs.to_set()),
    decreases vs.len(),
{
    if vs.len() == 0 {
        assert(reg_live(r).difference(vs.to_set()) =~= reg_live(r));
    } else {
        let p = vs.drop_last();
        assert forall|i: int, j: int| 0 <= i < j < p.len() implies p[i] != p[j] by {
            assert(p[i] == vs[i] && p[j] == vs[j]);
        }
        assert forall|i: int| 0 <= i < p.len() implies reg_live(r).contains(#[trigger] p[i]) by {
            assert(p[i] == vs[i]);
        }
        lemma_release_all_live(r, p);
        let v = vs.last();
        assert(!p.contains(v)) by {
            if p.contains(v) {
                let k = choose|k: int| 0 <= k < p.len() && p[k] == v;
                assert(vs[k] == vs[vs.len() - 1]);
            }
        }
        assert(reg_live(r).contains(v));
        lemma_release_live(release_all(r, p), v);
        assert(p.push(v) =~= vs);
        p.lemma_push_to_set_commute(v);
        assert(reg_live(release_all(r, vs)) =~= reg_live(r).difference(vs.to_set()));
    }
}

/// The variables as `Var`s.
pub open spec fn vars_of(vs: Seq<u16>) -> Seq<Var> {
    vs.map_values(|v: u16| Var { id: v })
}

/// `local function f(args) body end;`
pub open spec fn fn_t(f: u16, args: Seq<u16>, body: Seq<char>) -> Seq<char> {
    "local function "@ + var_text(Var { id: f }) + "("@ + crate::mir::vars_text(vars_of(args)) + ") "@
        + body + " end;"@
}

/// `old` is kept as the beginning of `new`.
pub open spec fn keeps(old: Seq<Instr>, new: Seq<Instr>) -> bool {
    old.len() <= new.len() && new.subrange(0, old.len() as int) == old
}

pub proof fn lemma_instrs_text_split(s: Seq<Instr>, k: int)
    requires
        0 <= k <= s.len(),
    ensures
        instrs_text(s) == instrs_text(s.subrange(0, k)) + instrs_text(s.subrange(k, s.len() as int)),
    decreases s.len(),
{
    if s.len() == k {
        assert(s.subrange(0, k) =~= s);
        assert(s.subrange(k, s.len() as int) =~= Seq::<Instr>::empty());
    } else {
        let t = s.subrange(0, s.len() - 1);
        lemma_instrs_text_split(t, k);
        assert(t.subrange(0, k) =~= s.subrange(0, k));
        let u = s.subrange(k, s.len() as int);
        assert(u.subrange(0, u.len() - 1) =~= t.subrange(k, t.len() as int));
        assert(u[u.len() - 1] == s[s.len() - 1]);
    }
}

/// Instructions being built, and the registry of their variables.
pub struct Builder {
    reg: Registry,
    out: Vec<Instr>,
}

impl Builder {
    /// The instructions built so far.
    pub closed spec fn out(&self) -> Seq<Instr> {
        self.out@
    }

    /// The registry state.
    pub closed spec fn reg(&self) -> RegState {
        self.reg.view()
    }

    /// The text of the instructions built so far.
    pub open spec fn text(&self) -> Seq<char> {
        instrs_text(self.out())
    }

    /// A builder with no instructions and no variables handed out.
    pub fn new() -> (b: Builder)
        ensures
            b.out() == Seq::<Instr>::empty(),
            b.reg() == (RegState { next: 0, free: Seq::empty(), overflow: false }),
    {
        Builder { reg: Registry::new(), out: Vec::new() }
    }

    /// The instructions built.
    pub fn build(self) -> (b: Block)
        ensures
            b.instrs@ == self.out(),
    {
        Block { instrs: self.out }
    }

    /// Whether variable ids ran out while building.
    pub fn overflowed(&self) -> (r: bool)
        ensures
            r == self.reg().overflow,
    {
        self.reg.overflow
    }

    /// Where the next instruction goes; a block begun here is taken with
    /// `take_block`.
    pub fn mark(&self) -> (m: usize)
        ensures
            m == self.out().len(),
    {
        self.out.len()
    }

    /// Takes the instructions built since `mark` as a block.
    pub fn take_block(&mut self, mark: usize) -> (b: Block)
        requires
            mark <= old(self).out().len(),
        ensures
            final(self).out() == old(self).out().subrange(0, mark as int),
            b.instrs@ == old(self).out().subrange(mark as int, old(self).out().len() as int),
            instrs_text(old(self).out()) == final(self).text() + instrs_text(b.instrs@),
            final(self).reg() == old(self).reg(),
    {
        proof {
            lemma_instrs_text_split(self.out@, mark as int);
        }
        let instrs = self.out.split_off(mark);
        Block { instrs }
    }

    /// Hands out a variable.
    pub fn var(&mut self) -> (v: TVar)
        ensures
            (final(self).reg(), v.id()) == reg_alloc(old(self).reg()),
            final(self).out() == old(self).out(),
    {
        self.reg.var()
    }

    /// Hands a variable back.
    pub fn free(&mut self, v: TVar)
        ensures
            final(self).reg() == reg_release(old(self).reg(), v.id()),
            final(self).out() == old(self).out(),
    {
        self.reg.free(v)
    }

    /// A builder for a nested block: it takes over the registry, and starts
    /// with no instructions.
    pub fn nest(&mut self) -> (inner: Builder)
        ensures
            inner.reg() == old(self).reg(),
            inner.out() == Seq::<Instr>::empty(),
            final(self).out() == old(self).out(),
    {
        let mut free: Vec<u16> = Vec::new();
        std::mem::swap(&mut free, &mut self.reg.free);
        let reg = Registry { next: self.reg.next, free, overflow: self.reg.overflow };
        Builder { reg, out: Vec::new() }
    }

    /// Takes the registry back from a nested builder, and its instructions as
    /// a block.
    pub fn unnest(&mut self, inner: Builder) -> (blk: Block)
        ensures
            final(self).reg() == inner.reg(),
            final(self).out() == old(self).out(),
            blk.instrs@ == inner.out(),
            instrs_text(blk.instrs@) == inner.text(),
    {
        self.reg = inner.reg;
        Block { instrs: inner.out }
    }

    /// Begins a local function of `n` arguments: hands out its variable and
    /// those of its arguments, and returns a builder for its body.
    pub fn open_function(&mut self, n: usize) -> (r: (TVar, Vec<TVar>, Builder))
        ensures
            r.0.id() == reg_alloc(old(self).reg()).1,
            ids(r.1@) == alloc_n(reg_alloc(old(self).reg()).0, n as nat).1,
            r.2.reg() == alloc_n(reg_alloc(old(self).reg()).0, n as nat).0,
            r.2.out() == Seq::<Instr>::empty(),
            r.1@.len() == n,
            final(self).out() == old(self).out(),
    {
        let f = self.var();
        let mut args: Vec<TVar> = Vec::new();
        let ghost r1 = self.reg();
        let mut k: usize = 0;
        proof {
            assert(ids(args@) =~= Seq::<u16>::empty());
        }
        while k < n
            invariant
                k <= n,
                args@.len() == k,
                (self.reg(), ids(args@)) == alloc_n(r1, k as nat),
                self.out() == old(self).out(),
            decreases n - k,
        {
            let v = self.var();
            let ghost before = args@;
            args.push(v);
            proof {
                lemma_ids_push(before, v);
            }
            k += 1;
        }
        let inner = self.nest();
        (f, args, inner)
    }

    /// Ends a local function begun with `open_function`: takes the
    /// registry back, hands back the argument variables, and adds the
    /// function.
    pub fn close_function(&mut self, f: &TVar, args: Vec<TVar>, inner: Builder)
        ensures
            final(self).reg() == release_all(inner.reg(), ids(args@)),
            final(self).text() == old(self).text() + fn_t(f.id(), ids(args@), inner.text()),
    {
        let blk = self.unnest(inner);
        let ghost all = args@;
        let mut vars: Vec<Var> = Vec::new();
        let mut k: usize = 0;
        let n = args.len();
        while k < n
            invariant
                k <= n,
                n == all.len(),
                args@ == all,
                vars@ == vars_of(ids(all)).take(k as int),
            decreases n - k,
        {
            vars.push(args[k].var());
            proof {
                lemma_ids_len(all);
                assert(vars@ =~= vars_of(ids(all)).take(k + 1));
            }
            k += 1;
        }
        proof {
            lemma_ids_len(all);
            assert(vars_of(ids(all)).take(n as int) =~= vars_of(ids(all)));
        }
        let ghost r0 = self.reg();
        let mut rest = args;
        let mut j: usize = 0;
        proof {
            assert(ids(all).take(0) =~= Seq::<u16>::empty());
            assert(all.skip(0) =~= all);
        }
        while j < n
            invariant
                j <= n,
                n == all.len(),
                rest@ == all.skip(j as int),
                self.reg() == release_all(r0, ids(all).take(j as int)),
                self.out() == old(self).out(),
            decreases n - j,
        {
            proof {
                lemma_ids_len(all);
                lemma_take_push(ids(all), j as int);
                assert(all.skip(j as int)[0] == all[j as int]);
                assert(all.skip(j as int).remove(0) =~= all.skip(j + 1));
            }
            let v = rest.remove(0);
            self.free(v);
            j += 1;
        }
        proof {
            lemma_ids_len(all);
            assert(ids(all).take(n as int) =~= ids(all));
        }
        let ghost bt = instrs_text(blk.instrs@);
        let fi = Instr::Function { dst: f.var(), args: vars, block: blk };
        assert(instr_text(fi) == fn_t(f.id(), ids(all), bt));
        self.instr(fi);
    }

    /// Adds an instruction.
    pub fn instr(&mut self, i: Instr)
        ensures
            final(self).out() == old(self).out().push(i),
            final(self).text() == old(self).text() + instr_text(i),
            final(self).reg() == old(self).reg(),
            keeps(old(self).out(), final(self).out()),
    {
        let ghost s = self.out@;
        self.out.push(i);
        assert(self.out@.subrange(0, self.out@.len() - 1) =~= s);
    }
}

} // verus!

verus! {

/// The buffer, position and length variables of the code that reads or
/// writes a packet.
pub struct Ctx {
    pub buf: TVar,
    pub pos: TVar,
    pub len: TVar,
}

/// The text of `assert`: an `error` call when the condition does not hold.
pub open spec fn assert_text(cond: Seq<char>, msg: Seq<char>) -> Seq<char> {
    "if "@ + ("("@ + "not "@ + cond + ")"@) + " then "@ + ("error"@ + "("@ + crate::mir::string_literal_text(msg)
        + ")"@ + ";"@) + " else "@ + " end;"@
}

impl Builder {
    /// `export<path>.<name> = <expr>;`
    pub fn export(&mut self, path: &str, name: &str, expr: Expr)
        ensures
            final(self).text() == old(self).text() + ("export"@ + (path@ + "."@ + name@) + " = "@
                + expr_text(expr) + ";"@),
            keeps(old(self).out(), final(self).out()),
            final(self).reg() == old(self).reg(),
    {
        let mut p = String::new();
        p.append(path);
        p.append(".");
        p.append(name);
        let ghost e = expr;
        self.instr(Instr::Export { path: p, expr });
        assert(p@ =~= path@ + "."@ + name@);
    }

    /// `local <v> = <src>;` with a new variable `v`.
    pub fn init(&mut self, src: Expr) -> (v: TVar)
        ensures
            (final(self).reg(), v.id()) == reg_alloc(old(self).reg()),
            final(self).out() == old(self).out().push(Instr::Init { dst: Var { id: v.id() }, src }),
            final(self).text() == old(self).text() + ("local "@ + var_text(Var { id: v.id() })
                + " = "@ + expr_text(src) + ";"@),
    {
        let v = self.var();
        let dst = v.var();
        self.instr(Instr::Init { dst, src });
        v
    }

    /// `<dst> = <src>;`
    pub fn assign(&mut self, dst: &TVar, src: Expr)
        ensures
            final(self).out() == old(self).out().push(Instr::Assign { dst: Var { id: dst.id() }, src }),
            final(self).text() == old(self).text() + (var_text(Var { id: dst.id() }) + " = "@
                + expr_text(src) + ";"@),
            final(self).reg() == old(self).reg(),
    {
        self.instr(Instr::Assign { dst: dst.var(), src });
    }

    /// `<dst>[<idx>] = <src>;`
    pub fn assign_index(&mut self, dst: &TVar, idx: Expr, src: Expr)
        ensures
            final(self).out() == old(self).out().push(
                Instr::AssignIndex { dst: Var { id: dst.id() }, idx, src },
            ),
            final(self).text() == old(self).text() + (var_text(Var { id: dst.id() }) + "["@
                + expr_text(idx) + "] = "@ + expr_text(src) + ";"@),
            final(self).reg() == old(self).reg(),
    {
        self.instr(Instr::AssignIndex { dst: dst.var(), idx, src });
    }

    /// A call as a statement.
    pub fn call(&mut self, call: Expr)
        requires
            call is Call || call is Namecall,
        ensures
            final(self).out() == old(self).out().push(Instr::Call { call }),
            final(self).text() == old(self).text() + (expr_text(call) + ";"@),
            final(self).reg() == old(self).reg(),
    {
        self.instr(Instr::Call { call });
    }

    /// `return <exprs>;`
    pub fn ret(&mut self, exprs: Vec<Expr>)
        ensures
            final(self).text() == old(self).text() + ("return "@ + crate::mir::exprs_text(exprs@)
                + ";"@),
            keeps(old(self).out(), final(self).out()),
            final(self).reg() == old(self).reg(),
    {
        let ghost es = exprs@;
        self.instr(Instr::Return { exprs });
    }

    /// Grows the buffer of `ctx` when `size` more bytes do not fit.
    pub fn check(&mut self, ctx: &Ctx, size: Expr)
        ensures
            final(self).text() == old(self).text() + check_t(ctx_v(ctx), expr_text(size)),
            final(self).out() == old(self).out().push(
                Instr::Check {
                    buf: Var { id: ctx.buf.id() },
                    pos: Var { id: ctx.pos.id() },
                    len: Var { id: ctx.len.id() },
                    size,
                },
            ),
            final(self).reg() == old(self).reg(),
    {
        self.instr(Instr::Check { buf: ctx.buf.var(), pos: ctx.pos.var(), len: ctx.len.var(), size });
    }

    /// Keeps `size` bytes at the position of `ctx`; the new variable holds
    /// where they are.
    pub fn reserve(&mut self, ctx: &Ctx, size: Expr) -> (v: TVar)
        ensures
            final(self).text() == old(self).text() + reserve_t(ctx_v(ctx), v.id(), expr_text(size)),
            (final(self).reg(), v.id()) == reg_alloc(old(self).reg()),
            final(self).out() == old(self).out().push(
                Instr::Reserve { dst: Var { id: v.id() }, pos: Var { id: ctx.pos.id() }, size },
            ),
    {
        let v = self.var();
        self.instr(Instr::Reserve { dst: v.var(), pos: ctx.pos.var(), size });
        v
    }

    /// Writes `src` at the position of `ctx` and moves past it.
    pub fn write_k(&mut self, ctx: &Ctx, func: FuncK, src: Expr)
        ensures
            final(self).text() == old(self).text() + write_k_t(ctx_v(ctx), func, expr_text(src)),
            final(self).out() == old(self).out().push(
                Instr::WriteK {
                    func,
                    buf: Var { id: ctx.buf.id() },
                    pos: Var { id: ctx.pos.id() },
                    src,
                },
            ),
            final(self).reg() == old(self).reg(),
    {
        self.instr(Instr::WriteK { func, buf: ctx.buf.var(), pos: ctx.pos.var(), src });
    }

    /// Writes `size` bytes of `src` at the position of `ctx` and moves past
    /// them.
    pub fn write_d(&mut self, ctx: &Ctx, func: FuncD, src: Expr, size: Expr)
        ensures
            final(self).text() == old(self).text() + write_d_t(ctx_v(ctx), expr_text(src), expr_text(
                size,
            )),
            final(self).out() == old(self).out().push(
                Instr::WriteD {
                    func,
                    buf: Var { id: ctx.buf.id() },
                    pos: Var { id: ctx.pos.id() },
                    src,
                    size,
                },
            ),
            final(self).reg() == old(self).reg(),
    {
        self.instr(Instr::WriteD { func, buf: ctx.buf.var(), pos: ctx.pos.var(), src, size });
    }

    /// Writes `src` at the reserved position `at`.
    pub fn write_reserved_k(&mut self, ctx: &Ctx, func: FuncK, at: Expr, src: Expr)
        ensures
            final(self).text() == old(self).text() + write_reserved_t(ctx_v(ctx), func, expr_text(at),
                expr_text(src)),
            final(self).out() == old(self).out().push(
                Instr::WriteReservedK { func, buf: Var { id: ctx.buf.id() }, pos: at, src },
            ),
            final(self).reg() == old(self).reg(),
    {
        self.instr(Instr::WriteReservedK { func, buf: ctx.buf.var(), pos: at, src });
    }

    /// Reads a value at the position of `ctx` into a new variable and moves
    /// past it.
    pub fn read_k(&mut self, ctx: &Ctx, func: FuncK) -> (v: TVar)
        ensures
            final(self).text() == old(self).text() + read_k_t(ctx_v(ctx), func, v.id()),
            (final(self).reg(), v.id()) == reg_alloc(old(self).reg()),
            final(self).out() == old(self).out().push(
                Instr::ReadK {
                    func,
                    buf: Var { id: ctx.buf.id() },
                    pos: Var { id: ctx.pos.id() },
                    dst: Var { id: v.id() },
                },
            ),
    {
        let v = self.var();
        self.instr(Instr::ReadK { func, buf: ctx.buf.var(), pos: ctx.pos.var(), dst: v.var() });
        v
    }

    /// Reads `size` bytes at the position of `ctx` into a new variable.
    pub fn read_d(&mut self, ctx: &Ctx, func: FuncD, size: Expr) -> (v: TVar)
        ensures
            final(self).text() == old(self).text() + read_d_t(ctx_v(ctx), expr_text(size), v.id()),
            (final(self).reg(), v.id()) == reg_alloc(old(self).reg()),
            final(self).out() == old(self).out().push(
                Instr::ReadD {
                    func,
                    buf: Var { id: ctx.buf.id() },
                    pos: Var { id: ctx.pos.id() },
                    size,
                    dst: Var { id: v.id() },
                },
            ),
    {
        let v = self.var();
        self.instr(
            Instr::ReadD { func, buf: ctx.buf.var(), pos: ctx.pos.var(), size, dst: v.var() },
        );
        v
    }

    /// Raises the error `msg` when `cond` does not hold.
    pub fn assert_cond(&mut self, cond: Expr, msg: &str)
        ensures
            final(self).text() == old(self).text() + assert_text(expr_text(cond), msg@),
            keeps(old(self).out(), final(self).out()),
            final(self).reg() == old(self).reg(),
    {
        let ghost c = expr_text(cond);
        let m = Expr::from_str(msg);
        let ghost mt = expr_text(m);
        let args = vec![m];
        let ghost a = args@;
        let g = Expr::Global("error");
        assert(expr_text(g) == "error"@);
        let error = g.call(args);
        let ghost et = expr_text(error);
        proof {
            assert(crate::mir::exprs_text(a) == mt);
            assert(et == "error"@ + "("@ + mt + ")"@);
        }
        let then_block = Block { instrs: vec![Instr::Call { call: error }] };
        let else_block = Block { instrs: Vec::new() };
        let ncond = cond.not();
        proof {
            let ts = then_block.instrs@;
            assert(ts.len() == 1);
            assert(instr_text(ts[0]) == et + ";"@);
            assert(instrs_text(Seq::<Instr>::empty()) == Seq::<char>::empty());
            assert(ts.subrange(0, 0) =~= Seq::<Instr>::empty());
            assert(instrs_text(ts) =~= et + ";"@);
            assert(instrs_text(else_block.instrs@) =~= Seq::<char>::empty());
            assert(expr_text(ncond) == "("@ + "not "@ + c + ")"@);
        }
        self.instr(Instr::Branch { cond: ncond, then_block, else_block });
        assert(self.text() =~= old(self).text() + assert_text(c, msg@));
    }
}

} // verus!

verus! {

/// What building has produced: the registry state and the text so far.
pub struct Em {
    pub reg: RegState,
    pub text: Seq<char>,
}

pub open spec fn em_put(e: Em, t: Seq<char>) -> Em {
    Em { reg: e.reg, text: e.text + t }
}

pub open spec fn em_alloc(e: Em) -> (Em, u16) {
    (Em { reg: reg_alloc(e.reg).0, text: e.text }, reg_alloc(e.reg).1)
}

/// `v<id>`.
pub open spec fn vt(v: u16) -> Seq<char> {
    var_text(Var { id: v })
}

/// The variables of a packet context as ids.
pub struct CtxV {
    pub buf: u16,
    pub pos: u16,
    pub len: u16,
}

pub open spec fn ctx_v(c: &Ctx) -> CtxV {
    CtxV { buf: c.buf.id(), pos: c.pos.id(), len: c.len.id() }
}

/// `(l op r)`.
pub open spec fn bin_t(l: Seq<char>, op: crate::mir::BinOp, r: Seq<char>) -> Seq<char> {
    "("@ + l + " "@ + crate::mir::binop_text(op) + " "@ + r + ")"@
}

/// `t[i]`.
pub open spec fn index_t(t: Seq<char>, i: Seq<char>) -> Seq<char> {
    t + "["@ + i + "]"@
}

/// `f(a)`.
pub open spec fn call1_t(f: Seq<char>, a: Seq<char>) -> Seq<char> {
    f + "("@ + a + ")"@
}

pub open spec fn check_t(c: CtxV, size: Seq<char>) -> Seq<char> {
    "if "@ + vt(c.pos) + " + "@ + size + " >= "@ + vt(c.len) + " then "@ + vt(c.buf) + ", "@ + vt(
        c.len,
    ) + " = resize("@ + vt(c.buf) + ", "@ + vt(c.pos) + ", "@ + vt(c.len) + ", "@ + size + ")"@
        + "end;"@
}

pub open spec fn write_k_t(c: CtxV, f: FuncK, src: Seq<char>) -> Seq<char> {
    "buffer.write"@ + crate::mir::funck_text(f) + "("@ + vt(c.buf) + ", "@ + vt(c.pos) + ", "@ + src
        + ");"@ + vt(c.pos) + " += "@ + crate::text::nat_text(f.spec_size() as nat) + ";"@
}

pub open spec fn write_d_t(c: CtxV, src: Seq<char>, size: Seq<char>) -> Seq<char> {
    "buffer.writestring("@ + vt(c.buf) + ", "@ + vt(c.pos) + ", "@ + src + ", "@ + size + ");"@
        + vt(c.pos) + " += "@ + size + ";"@
}

pub open spec fn write_reserved_t(c: CtxV, f: FuncK, at: Seq<char>, src: Seq<char>) -> Seq<char> {
    "buffer.write"@ + crate::mir::funck_text(f) + "("@ + vt(c.buf) + ", "@ + at + ", "@ + src
        + ");"@
}

pub open spec fn read_k_t(c: CtxV, f: FuncK, dst: u16) -> Seq<char> {
    "local "@ + vt(dst) + " = buffer.read"@ + crate::mir::funck_text(f) + "("@ + vt(c.buf) + ", "@
        + vt(c.pos) + ");"@ + vt(c.pos) + " += "@ + crate::text::nat_text(f.spec_size() as nat)
        + ";"@
}

pub open spec fn read_d_t(c: CtxV, size: Seq<char>, dst: u16) -> Seq<char> {
    "local "@ + vt(dst) + " = buffer.readstring("@ + vt(c.buf) + ", "@ + vt(c.pos) + ", "@ + size
        + ");"@ + vt(c.pos) + " += "@ + size + ";"@
}

pub open spec fn reserve_t(c: CtxV, dst: u16, size: Seq<char>) -> Seq<char> {
    "local "@ + vt(dst) + " = "@ + vt(c.pos) + ";"@ + vt(c.pos) + " += "@ + size + ";"@
}

pub open spec fn for_range_t(dst: u16, start: Seq<char>, end: Seq<char>, body: Seq<char>) -> Seq<
    char,
> {
    "for "@ + vt(dst) + " = "@ + start + ", "@ + end + " do "@ + body + " end;"@
}

pub open spec fn for_table_t(idx: u16, val: u16, table: Seq<char>, body: Seq<char>) -> Seq<char> {
    "for "@ + vt(idx) + ", "@ + vt(val) + " in "@ + table + " do "@ + body + " end;"@
}

impl Builder {
    pub open spec fn em(&self) -> Em {
        Em { reg: self.reg(), text: self.text() }
    }
}

} // verus!
