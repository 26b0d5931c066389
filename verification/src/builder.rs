//! Building the instructions of the first code generator, with a registry
//! that hands out local variables and takes them back for reuse.
use vstd::prelude::*;
use crate::ir::{Block, Expr, FuncD, FuncK, Instr, Var, expr_text, instr_text, instrs_text, var_text};
use crate::mir_builder::{Em, RegState, reg_alloc, reg_release};
use crate::text::nat_text;

verus! {

/// The registry of local variables.
struct Registry {
    next: u16,
    free: Vec<u16>,
    overflow: bool,
}

impl Registry {
    closed spec fn view(&self) -> RegState {
        RegState { next: self.next, free: self.free@, overflow: self.overflow }
    }

    fn var(&mut self) -> (v: UninitVar)
        ensures
            (final(self).view(), v.var) == reg_alloc(old(self).view()),
    {
        if let Some(var) = self.free.pop() {
            UninitVar { var }
        } else if self.next < u16::MAX {
            let var = self.next;
            self.next = self.next + 1;
            UninitVar { var }
        } else {
            self.overflow = true;
            UninitVar { var: self.next }
        }
    }

    fn free(&mut self, var: u16)
        ensures
            final(self).view() == reg_release(old(self).view(), var),
    {
        self.free.push(var);
    }
}

/// A variable handed out and not yet given a value.
pub struct UninitVar {
    var: u16,
}

impl UninitVar {
    pub closed spec fn id(&self) -> u16 {
        self.var
    }

    /// The variable, now that it is given a value.
    pub fn init(self) -> (v: InitVar)
        ensures
            v.id() == self.id(),
    {
        InitVar { var: self.var }
    }
}

/// A variable that holds a value, to be handed back when the value is no
/// longer needed.
pub struct InitVar {
    var: u16,
}

impl InitVar {
    pub closed spec fn id(&self) -> u16 {
        self.var
    }

    /// The variable.
    pub fn var(&self) -> (v: Var)
        ensures
            v == Var(self.id()),
    {
        Var(self.var)
    }

    /// The variable as an expression.
    pub fn expr(&self) -> (e: Expr)
        ensures
            e == Expr::Var(Var(self.id())),
            expr_text(e) == vt(self.id()),
    {
        Expr::Var(Var(self.var))
    }
}

/// `v<id>`.
pub open spec fn vt(v: u16) -> Seq<char> {
    var_text(Var(v))
}

/// Instructions being built, and the registry of their variables.
pub struct Builder {
    reg: Registry,
    out: Vec<Instr>,
}

impl Builder {
    /// The instructions built so far.
    pub closed spec fn out(&self) -> Seq<Instr> {
        self.out@
    }

    /// The registry state.
    pub closed spec fn reg(&self) -> RegState {
        self.reg.view()
    }

    /// The text of the instructions built so far.
    pub open spec fn text(&self) -> Seq<char> {
        instrs_text(self.out())
    }

    /// The registry and the text.
    pub open spec fn em(&self) -> Em {
        Em { reg: self.reg(), text: self.text() }
    }

    /// A builder with no instructions and no variables handed out.
    pub fn new() -> (b: Builder)
        ensures
            b.out() == Seq::<Instr>::empty(),
            b.reg() == (RegState { next: 0, free: Seq::empty(), overflow: false }),
    {
        Builder { reg: Registry { next: 0, free: Vec::new(), overflow: false }, out: Vec::new() }
    }

    /// The instructions built.
    pub fn build(self) -> (b: Block)
        ensures
            b.instrs@ == self.out(),
    {
        Block { instrs: self.out }
    }

    /// Whether variable ids ran out while building.
    pub fn overflowed(&self) -> (r: bool)
        ensures
            r == self.reg().overflow,
    {
        self.reg.overflow
    }

    /// Hands out a variable.
    pub fn var(&mut self) -> (v: UninitVar)
        ensures
            (final(self).reg(), v.id()) == reg_alloc(old(self).reg()),
            final(self).out() == old(self).out(),
    {
        self.reg.var()
    }

    /// Hands a variable back.
    pub fn free(&mut self, v: InitVar)
        ensures
            final(self).reg() == reg_release(old(self).reg(), v.id()),
            final(self).out() == old(self).out(),
    {
        self.reg.free(v.var)
    }

    /// Adds an instruction.
    fn push(&mut self, i: Instr)
        ensures
            final(self).out() == old(self).out().push(i),
            final(self).text() == old(self).text() + instr_text(i),
            final(self).reg() == old(self).reg(),
    {
        let ghost s = self.out@;
        self.out.push(i);
        assert(self.out@.subrange(0, self.out@.len() - 1) =~= s);
    }

    /// A builder for a nested block: it takes over the registry, and starts
    /// with no instructions.
    fn nest(&mut self) -> (inner: Builder)
        ensures
            inner.reg() == old(self).reg(),
            inner.out() == Seq::<Instr>::empty(),
            final(self).out() == old(self).out(),
    {
        let mut free: Vec<u16> = Vec::new();
        std::mem::swap(&mut free, &mut self.reg.free);
        let reg = Registry { next: self.reg.next, free, overflow: self.reg.overflow };
        Builder { reg, out: Vec::new() }
    }

    /// Takes the registry back from a nested builder, and its instructions
    /// as a block.
    fn unnest(&mut self, inner: Builder) -> (blk: Block)
        ensures
            final(self).reg() == inner.reg(),
            final(self).out() == old(self).out(),
            instrs_text(blk.instrs@) == inner.text(),
    {
        self.reg = inner.reg;
        Block { instrs: inner.out }
    }

    /// `if not <expr> then error("<msg>") end;`
    pub fn assert_cond(&mut self, expr: Expr, msg: &str)
        ensures
            final(self).reg() == old(self).reg(),
            final(self).text() == old(self).text() + assert_t(expr_text(expr), msg@),
    {
        let ghost e = expr;
        self.push(Instr::Assert { expr, msg: String::from_str(msg) });
    }

    /// Makes room for `size` bytes.
    pub fn alloc_k(&mut self, size: u32)
        ensures
            final(self).reg() == old(self).reg(),
            final(self).text() == old(self).text() + alloc_t(nat_text(size as nat)),
    {
        self.push(Instr::AllocK { size });
    }

    /// Makes room for `size` bytes, counted when the code runs.
    pub fn alloc_d(&mut self, size: Expr)
        ensures
            final(self).reg() == old(self).reg(),
            final(self).text() == old(self).text() + alloc_t(expr_text(size)),
    {
        let ghost e = size;
        self.push(Instr::AllocD { size });
    }

    /// Keeps `size` bytes for a value written later; the place is the new
    /// variable.
    pub fn reserve_k(&mut self, size: u32) -> (v: InitVar)
        ensures
            (final(self).reg(), v.id()) == reg_alloc(old(self).reg()),
            final(self).text() == old(self).text() + reserve_t(v.id(), size),
    {
        let v = self.reg.var().init();
        self.push(Instr::ReserveK { into: v.var(), size });
        v
    }

    /// Writes `expr` as a value of a fixed size.
    pub fn write_k(&mut self, func: FuncK, expr: Expr)
        ensures
            final(self).reg() == old(self).reg(),
            final(self).text() == old(self).text() + write_k_t(func, expr_text(expr)),
    {
        let ghost e = expr;
        self.push(Instr::WriteK { func, expr });
    }

    /// Writes `expr` as a value of `size` bytes.
    pub fn write_d(&mut self, func: FuncD, expr: Expr, size: Expr)
        ensures
            final(self).reg() == old(self).reg(),
            final(self).text() == old(self).text() + write_d_t(expr_text(expr), expr_text(size)),
    {
        let ghost e = expr;
        let ghost z = size;
        self.push(Instr::WriteD { func, expr, size });
    }

    /// Writes `expr` as a value of a fixed size at the kept place `at`.
    pub fn write_reserved_k(&mut self, func: FuncK, at: Expr, expr: Expr)
        ensures
            final(self).reg() == old(self).reg(),
            final(self).text() == old(self).text() + write_reserved_t(func, expr_text(at), expr_text(expr)),
    {
        let ghost a = at;
        let ghost e = expr;
        self.push(Instr::WriteReservedK { func, at, expr });
    }

    /// Reads a value of a fixed size into a new variable.
    pub fn read_k(&mut self, func: FuncK) -> (v: InitVar)
        ensures
            (final(self).reg(), v.id()) == reg_alloc(old(self).reg()),
            final(self).text() == old(self).text() + read_k_t(v.id(), func),
    {
        let v = self.reg.var().init();
        self.push(Instr::ReadK { into: v.var(), func });
        v
    }

    /// Reads a value of `size` bytes into a new variable.
    pub fn read_d(&mut self, func: FuncD, size: Expr) -> (v: InitVar)
        ensures
            (final(self).reg(), v.id()) == reg_alloc(old(self).reg()),
            final(self).text() == old(self).text() + read_d_t(v.id(), expr_text(size)),
    {
        let ghost z = size;
        let v = self.reg.var().init();
        self.push(Instr::ReadD { into: v.var(), func, size });
        v
    }

    /// A new variable holding `expr`.
    pub fn expr(&mut self, expr: Expr) -> (v: InitVar)
        ensures
            (final(self).reg(), v.id()) == reg_alloc(old(self).reg()),
            final(self).text() == old(self).text() + local_t(v.id(), expr_text(expr)),
    {
        let ghost e = expr;
        let v = self.reg.var().init();
        self.push(Instr::Expr { into: v.var(), expr });
        v
    }

    /// Sets a variable.
    pub fn assign(&mut self, var: &InitVar, expr: Expr)
        ensures
            final(self).reg() == old(self).reg(),
            final(self).text() == old(self).text() + set_t(var.id(), expr_text(expr)),
    {
        let ghost e = expr;
        self.push(Instr::Assign { into: var.var(), expr });
    }

    /// Sets an index of a variable.
    pub fn assign_index(&mut self, var: &InitVar, index: Expr, expr: Expr)
        ensures
            final(self).reg() == old(self).reg(),
            final(self).text() == old(self).text() + set_index_t(var.id(), expr_text(index), expr_text(expr)),
    {
        let ghost i = index;
        let ghost e = expr;
        self.push(Instr::AssignIndex { into: var.var(), index, expr });
    }

    /// Begins a loop over a range: hands out the loop variable, and returns
    /// a builder for the body.
    pub fn open_range(&mut self) -> (r: (InitVar, Builder))
        ensures
            (r.1.reg(), r.0.id()) == reg_alloc(old(self).reg()),
            r.1.out() == Seq::<Instr>::empty(),
            final(self).out() == old(self).out(),
    {
        let v = self.reg.var().init();
        let inner = self.nest();
        (v, inner)
    }

    /// Ends a loop begun with `open_range`: `for v = start, end do body end;`,
    /// then hands the loop variable back.
    pub fn close_range(&mut self, v: InitVar, start: Expr, end: Expr, inner: Builder)
        ensures
            final(self).reg() == reg_release(inner.reg(), v.id()),
            final(self).text() == old(self).text() + range_t(v.id(), expr_text(start), expr_text(end), inner.text()),
    {
        let ghost s = start;
        let ghost e = end;
        let block = self.unnest(inner);
        self.push(Instr::IterRange { into: v.var(), start, end, block });
        self.free(v);
    }

    /// Begins a loop over a table: hands out the key and value variables,
    /// and returns a builder for the body.
    pub fn open_map(&mut self) -> (r: (InitVar, InitVar, Builder))
        ensures
            (reg_alloc(old(self).reg()).0, r.0.id()) == reg_alloc(old(self).reg()),
            (r.2.reg(), r.1.id()) == reg_alloc(reg_alloc(old(self).reg()).0),
            r.2.out() == Seq::<Instr>::empty(),
            final(self).out() == old(self).out(),
    {
        let index = self.reg.var().init();
        let value = self.reg.var().init();
        let inner = self.nest();
        (index, value, inner)
    }

    /// Ends a loop begun with `open_map`: `for k, v in map do body end;`,
    /// then hands back the value variable and the key variable.
    pub fn close_map(&mut self, index: InitVar, value: InitVar, map: Expr, inner: Builder)
        ensures
            final(self).reg() == reg_release(reg_release(inner.reg(), value.id()), index.id()),
            final(self).text() == old(self).text() + map_t(index.id(), value.id(), expr_text(map), inner.text()),
    {
        let ghost m = map;
        let block = self.unnest(inner);
        self.push(Instr::IterMap { index: index.var(), value: value.var(), map, block });
        self.free(value);
        self.free(index);
    }
}

/// `if not cond then error("msg") end;`
pub open spec fn assert_t(cond: Seq<char>, msg: Seq<char>) -> Seq<char> {
    "if not "@ + cond + " then error(\""@ + msg + "\") end;"@
}

/// `if pos + size > len then resize(size) end;`
pub open spec fn alloc_t(size: Seq<char>) -> Seq<char> {
    "if pos + "@ + size + " > len then resize("@ + size + ") end;"@
}

pub open spec fn reserve_t(v: u16, size: u32) -> Seq<char> {
    "local "@ + vt(v) + " = pos;"@ + "pos += "@ + nat_text(size as nat) + ";"@
}

pub open spec fn write_k_t(func: FuncK, src: Seq<char>) -> Seq<char> {
    "buffer.write"@ + crate::ir::funck_text(func) + "(buf, pos, "@ + src + ");"@ + "pos += "@
        + nat_text(func.spec_size() as nat) + ";"@
}

pub open spec fn write_d_t(src: Seq<char>, size: Seq<char>) -> Seq<char> {
    "buffer.write"@ + "string"@ + "(buf, pos, "@ + src + ", "@ + size + ");"@ + "pos += "@ + size
        + ";"@
}

pub open spec fn write_reserved_t(func: FuncK, at: Seq<char>, src: Seq<char>) -> Seq<char> {
    "buffer.write"@ + crate::ir::funck_text(func) + "(buf, "@ + at + ", "@ + src + ");"@
}

pub open spec fn read_k_t(v: u16, func: FuncK) -> Seq<char> {
    "local "@ + vt(v) + " = buffer.read"@ + crate::ir::funck_text(func) + "(buf, pos);"@
        + "pos += "@ + nat_text(func.spec_size() as nat) + ";"@
}

pub open spec fn read_d_t(v: u16, size: Seq<char>) -> Seq<char> {
    "local "@ + vt(v) + " = buffer.read"@ + "string"@ + "(buf, pos, "@ + size + ");"@ + "pos += "@
        + size + ";"@
}

pub open spec fn local_t(v: u16, src: Seq<char>) -> Seq<char> {
    "local "@ + vt(v) + " = "@ + src + ";"@
}

pub open spec fn set_t(v: u16, src: Seq<char>) -> Seq<char> {
    vt(v) + " = "@ + src + ";"@
}

pub open spec fn set_index_t(v: u16, idx: Seq<char>, src: Seq<char>) -> Seq<char> {
    vt(v) + "["@ + idx + "] = "@ + src + ";"@
}

pub open spec fn range_t(v: u16, start: Seq<char>, end: Seq<char>, body: Seq<char>) -> Seq<char> {
    "for "@ + vt(v) + " = "@ + start + ", "@ + end + " do "@ + body + " end;"@
}

pub open spec fn map_t(k: u16, v: u16, map: Seq<char>, body: Seq<char>) -> Seq<char> {
    "for "@ + vt(k) + ", "@ + vt(v) + " in "@ + map + " do "@ + body + " end;"@
}

} // verus!
