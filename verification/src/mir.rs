//! The mid-level representation: instructions and expressions that map
//! closely to Luau, and the Luau text that each stands for.
use vstd::prelude::*;
use crate::num::{Num, num_text, num_to_u32, push_num};
use crate::text::zeros;
use crate::shared::NumberKind;
use crate::text::{nat_text, push_char, push_nat};

verus! {

/// A local variable of the generated code, written `v<id>`.
#[derive(Clone, Copy, PartialEq, Eq, Structural, Debug)]
pub struct Var {
    pub id: u16,
}

/// A buffer read or write whose size is known when generating.
#[derive(Clone, Copy, PartialEq, Eq, Structural, Debug)]
pub enum FuncK {
    U8,
    U16,
    U32,
    I8,
    I16,
    I32,
    F32,
    F64,
}

/// A buffer read or write whose size is only known when running.
#[derive(Clone, Copy, PartialEq, Eq, Structural, Debug)]
pub enum FuncD {
    String,
}

/// Binary operators.
#[derive(Clone, Copy, PartialEq, Eq, Structural, Debug)]
pub enum BinOp {
    And,
    Or,
    Add,
    Mul,
    Mod,
    Eq,
    Lt,
    Gt,
    Le,
    Ge,
}

/// Unary operators.
#[derive(Clone, Copy, PartialEq, Eq, Structural, Debug)]
pub enum UnOp {
    Not,
    Len,
}

/// An expression of the generated code.
pub enum Expr {
    Nil,
    /// A global name, such as `buffer.create`.
    Global(&'static str),
    Boolean(bool),
    Number(Num),
    String(String),
    /// A table constructor with explicit keys.
    Table(Vec<(Expr, Expr)>),
    Var(Var),
    Index(Box<Expr>, Box<Expr>),
    Binary(Box<Expr>, BinOp, Box<Expr>),
    Unary(UnOp, Box<Expr>),
    Call(Box<Expr>, Vec<Expr>),
    /// A method call `object:method(args)`.
    Namecall(Box<Expr>, &'static str, Vec<Expr>),
}

/// A sequence of instructions.
pub struct Block {
    pub instrs: Vec<Instr>,
}

/// An instruction of the generated code.
#[allow(inconsistent_fields)]
pub enum Instr {
    Export { path: String, expr: Expr },
    Init { dst: Var, src: Expr },
    Assign { dst: Var, src: Expr },
    AssignIndex { dst: Var, idx: Expr, src: Expr },
    Call { call: Expr },
    Return { exprs: Vec<Expr> },
    ForRange { dst: Var, start: Expr, end: Expr, block: Block },
    ForTable { idx: Var, val: Var, table: Expr, block: Block },
    Branch { cond: Expr, then_block: Block, else_block: Block },
    Function { dst: Var, args: Vec<Var>, block: Block },
    /// Grows the buffer when `size` more bytes do not fit.
    Check { buf: Var, pos: Var, len: Var, size: Expr },
    /// Keeps `size` bytes at the current position for a later write.
    Reserve { dst: Var, pos: Var, size: Expr },
    WriteK { func: FuncK, buf: Var, pos: Var, src: Expr },
    WriteD { func: FuncD, buf: Var, pos: Var, src: Expr, size: Expr },
    WriteReservedK { func: FuncK, buf: Var, pos: Expr, src: Expr },
    ReadK { func: FuncK, buf: Var, pos: Var, dst: Var },
    ReadD { func: FuncD, buf: Var, pos: Var, size: Expr, dst: Var },
}

impl FuncK {
    /// The number of bytes that the read or write moves over.
    pub open spec fn spec_size(self) -> u32 {
        match self {
            FuncK::U8 | FuncK::I8 => 1,
            FuncK::U16 | FuncK::I16 => 2,
            FuncK::U32 | FuncK::I32 | FuncK::F32 => 4,
            FuncK::F64 => 8,
        }
    }

    /// The number of bytes that the read or write moves over.
    pub fn size(&self) -> (r: u32)
        ensures
            r == self.spec_size(),
    {
        match self {
            FuncK::U8 | FuncK::I8 => 1,
            FuncK::U16 | FuncK::I16 => 2,
            FuncK::U32 | FuncK::I32 | FuncK::F32 => 4,
            FuncK::F64 => 8,
        }
    }

    /// The read or write that a number kind uses: 24-bit kinds go through
    /// 32-bit ones, the NaN-allowing floats through the plain ones.
    pub open spec fn spec_from_kind(k: NumberKind) -> FuncK {
        match k {
            NumberKind::U8 => FuncK::U8,
            NumberKind::U16 => FuncK::U16,
            NumberKind::U24 => FuncK::U32,
            NumberKind::U32 => FuncK::U32,
            NumberKind::I8 => FuncK::I8,
            NumberKind::I16 => FuncK::I16,
            NumberKind::I24 => FuncK::I32,
            NumberKind::I32 => FuncK::I32,
            NumberKind::F32 | NumberKind::NaNF32 => FuncK::F32,
            NumberKind::F64 | NumberKind::NaNF64 => FuncK::F64,
        }
    }

    /// The read or write that a number kind uses.
    pub fn from_kind(k: NumberKind) -> (r: FuncK)
        ensures
            r == FuncK::spec_from_kind(k),
    {
        match k {
            NumberKind::U8 => FuncK::U8,
            NumberKind::U16 => FuncK::U16,
            NumberKind::U24 => FuncK::U32,
            NumberKind::U32 => FuncK::U32,
            NumberKind::I8 => FuncK::I8,
            NumberKind::I16 => FuncK::I16,
            NumberKind::I24 => FuncK::I32,
            NumberKind::I32 => FuncK::I32,
            NumberKind::F32 | NumberKind::NaNF32 => FuncK::F32,
            NumberKind::F64 | NumberKind::NaNF64 => FuncK::F64,
        }
    }
}

/// `v<id>`.
pub open spec fn var_text(v: Var) -> Seq<char> {
    seq!['v'] + nat_text(v.id as nat)
}

/// The suffix of `buffer.read*` and `buffer.write*`.
pub open spec fn funck_text(f: FuncK) -> Seq<char> {
    match f {
        FuncK::U8 => "u8"@,
        FuncK::U16 => "u16"@,
        FuncK::U32 => "u32"@,
        FuncK::I8 => "i8"@,
        FuncK::I16 => "i16"@,
        FuncK::I32 => "i32"@,
        FuncK::F32 => "f32"@,
        FuncK::F64 => "f64"@,
    }
}

pub open spec fn binop_text(op: BinOp) -> Seq<char> {
    match op {
        BinOp::And => "and"@,
        BinOp::Or => "or"@,
        BinOp::Add => "+"@,
        BinOp::Mul => "*"@,
        BinOp::Mod => "%"@,
        BinOp::Eq => "=="@,
        BinOp::Lt => "<"@,
        BinOp::Gt => ">"@,
        BinOp::Le => "<="@,
        BinOp::Ge => ">="@,
    }
}

pub open spec fn unop_text(op: UnOp) -> Seq<char> {
    match op {
        UnOp::Not => "not "@,
        UnOp::Len => "#"@,
    }
}

/// A lower-case hexadecimal digit.
pub open spec fn hex_char(d: int) -> char {
    if d < 10 {
        (48 + d) as char
    } else {
        (87 + d) as char
    }
}

/// The ASCII escape of one byte: `\t`, `\r`, `\n`, `\\`, `\'` and `\"`
/// for those, printable ASCII as it is, `\xNN` for every other byte.
pub open spec fn byte_escape(b: u8) -> Seq<char> {
    if b == 9 {
        seq!['\\', 't']
    } else if b == 13 {
        seq!['\\', 'r']
    } else if b == 10 {
        seq!['\\', 'n']
    } else if b == 92 {
        seq!['\\', '\\']
    } else if b == 39 {
        seq!['\\', '\'']
    } else if b == 34 {
        seq!['\\', '"']
    } else if 32 <= b < 127 {
        seq![b as char]
    } else {
        seq!['\\', 'x', hex_char(b as int / 16), hex_char(b as int % 16)]
    }
}

/// The escapes of a sequence of bytes, one after the other.
pub open spec fn bytes_escape(bs: Seq<u8>) -> Seq<char>
    decreases bs.len(),
{
    if bs.len() == 0 {
        seq![]
    } else {
        bytes_escape(bs.drop_last()) + byte_escape(bs.last())
    }
}

/// A string literal: the UTF-8 bytes of `s`, escaped, in double quotes.
pub open spec fn string_literal_text(s: Seq<char>) -> Seq<char> {
    seq!['"'] + bytes_escape(vstd::utf8::encode_utf8(s)) + seq!['"']
}

/// The text of an expression.
pub open spec fn expr_text(e: Expr) -> Seq<char>
    decreases e,
{
    match e {
        Expr::Nil => "nil"@,
        Expr::Global(name) => name@,
        Expr::Boolean(b) => if b {
            "true"@
        } else {
            "false"@
        },
        Expr::Number(n) => num_text(n),
        Expr::String(s) => string_literal_text(s@),
        Expr::Table(fields) => "{ "@ + fields_text(fields@) + " }"@,
        Expr::Var(v) => var_text(v),
        Expr::Index(t, i) => expr_text(*t) + "["@ + expr_text(*i) + "]"@,
        Expr::Binary(l, op, r) => "("@ + expr_text(*l) + " "@ + binop_text(op) + " "@ + expr_text(
            *r,
        ) + ")"@,
        Expr::Unary(op, x) => "("@ + unop_text(op) + expr_text(*x) + ")"@,
        Expr::Call(f, args) => expr_text(*f) + "("@ + exprs_text(args@) + ")"@,
        Expr::Namecall(obj, m, args) => expr_text(*obj) + ":"@ + m@ + "("@ + exprs_text(args@)
            + ")"@,
    }
}

/// Expressions separated by `, `.
pub open spec fn exprs_text(s: Seq<Expr>) -> Seq<char>
    decreases s,
{
    if s.len() == 0 {
        seq![]
    } else if s.len() == 1 {
        expr_text(s[0])
    } else {
        exprs_text(s.subrange(0, s.len() - 1)) + ", "@ + expr_text(s[s.len() - 1])
    }
}

/// Table fields `[key] = value`, separated by `, `.
pub open spec fn fields_text(s: Seq<(Expr, Expr)>) -> Seq<char>
    decreases s,
{
    if s.len() == 0 {
        seq![]
    } else if s.len() == 1 {
        "["@ + expr_text(s[0].0) + "] = "@ + expr_text(s[0].1)
    } else {
        fields_text(s.subrange(0, s.len() - 1)) + ", "@ + "["@ + expr_text(s[s.len() - 1].0)
            + "] = "@ + expr_text(s[s.len() - 1].1)
    }
}

/// Variables separated by `,`.
pub open spec fn vars_text(s: Seq<Var>) -> Seq<char>
    decreases s.len(),
{
    if s.len() == 0 {
        seq![]
    } else if s.len() == 1 {
        var_text(s[0])
    } else {
        vars_text(s.drop_last()) + ","@ + var_text(s.last())
    }
}

/// The text of an instruction.
pub open spec fn instr_text(i: Instr) -> Seq<char>
    decreases i,
{
    match i {
        Instr::Export { path, expr } => "export"@ + path@ + " = "@ + expr_text(expr) + ";"@,
        Instr::Init { dst, src } => "local "@ + var_text(dst) + " = "@ + expr_text(src) + ";"@,
        Instr::Assign { dst, src } => var_text(dst) + " = "@ + expr_text(src) + ";"@,
        Instr::AssignIndex { dst, idx, src } => var_text(dst) + "["@ + expr_text(idx) + "] = "@
            + expr_text(src) + ";"@,
        Instr::Call { call } => expr_text(call) + ";"@,
        Instr::Return { exprs } => "return "@ + exprs_text(exprs@) + ";"@,
        Instr::ForRange { dst, start, end, block } => "for "@ + var_text(dst) + " = "@ + expr_text(
            start,
        ) + ", "@ + expr_text(end) + " do "@ + instrs_text(block.instrs@) + " end;"@,
        Instr::ForTable { idx, val, table, block } => "for "@ + var_text(idx) + ", "@ + var_text(
            val,
        ) + " in "@ + expr_text(table) + " do "@ + instrs_text(block.instrs@) + " end;"@,
        Instr::Branch { cond, then_block, else_block } => "if "@ + expr_text(cond) + " then "@
            + instrs_text(then_block.instrs@) + " else "@ + instrs_text(else_block.instrs@)
            + " end;"@,
        Instr::Function { dst, args, block } => "local function "@ + var_text(dst) + "("@
            + vars_text(args@) + ") "@ + instrs_text(block.instrs@) + " end;"@,
        Instr::Check { buf, pos, len, size } => "if "@ + var_text(pos) + " + "@ + expr_text(size)
            + " >= "@ + var_text(len) + " then "@ + var_text(buf) + ", "@ + var_text(len)
            + " = resize("@ + var_text(buf) + ", "@ + var_text(pos) + ", "@ + var_text(len)
            + ", "@ + expr_text(size) + ")"@ + "end;"@,
        Instr::Reserve { dst, pos, size } => "local "@ + var_text(dst) + " = "@ + var_text(pos)
            + ";"@ + var_text(pos) + " += "@ + expr_text(size) + ";"@,
        Instr::WriteK { func, buf, pos, src } => "buffer.write"@ + funck_text(func) + "("@
            + var_text(buf) + ", "@ + var_text(pos) + ", "@ + expr_text(src) + ");"@ + var_text(
            pos,
        ) + " += "@ + nat_text(func.spec_size() as nat) + ";"@,
        Instr::WriteD { func, buf, pos, src, size } => "buffer.writestring("@ + var_text(buf)
            + ", "@ + var_text(pos) + ", "@ + expr_text(src) + ", "@ + expr_text(size) + ");"@
            + var_text(pos) + " += "@ + expr_text(size) + ";"@,
        Instr::WriteReservedK { func, buf, pos, src } => "buffer.write"@ + funck_text(func) + "("@
            + var_text(buf) + ", "@ + expr_text(pos) + ", "@ + expr_text(src) + ");"@,
        Instr::ReadK { func, buf, pos, dst } => "local "@ + var_text(dst) + " = buffer.read"@
            + funck_text(func) + "("@ + var_text(buf) + ", "@ + var_text(pos) + ");"@ + var_text(
            pos,
        ) + " += "@ + nat_text(func.spec_size() as nat) + ";"@,
        Instr::ReadD { func, buf, pos, size, dst } => "local "@ + var_text(dst)
            + " = buffer.readstring("@ + var_text(buf) + ", "@ + var_text(pos) + ", "@ + expr_text(
            size,
        ) + ");"@ + var_text(pos) + " += "@ + expr_text(size) + ";"@,
    }
}

/// `[1] = nil, [2] = nil, ..., [n] = nil`.
pub open spec fn nil_fields_t(n: nat) -> Seq<char>
    decreases n,
{
    if n == 0 {
        seq![]
    } else if n == 1 {
        "["@ + nat_text(1) + "] = "@ + "nil"@
    } else {
        nil_fields_t((n - 1) as nat) + ", "@ + "["@ + nat_text(n) + "] = "@ + "nil"@
    }
}

/// Instructions one after the other.
pub open spec fn instrs_text(s: Seq<Instr>) -> Seq<char>
    decreases s,
{
    if s.len() == 0 {
        seq![]
    } else {
        instrs_text(s.subrange(0, s.len() - 1)) + instr_text(s[s.len() - 1])
    }
}

} // verus!

verus! {

/// Appends the text of a variable.
pub fn push_var(s: &mut String, v: Var)
    ensures
        final(s)@ == old(s)@ + var_text(v),
{
    push_char(s, 'v');
    push_nat(s, v.id as u64);
    assert(final(s)@ =~= old(s)@ + var_text(v));
}

fn push_funck(s: &mut String, f: FuncK)
    ensures
        final(s)@ == old(s)@ + funck_text(f),
{
    match f {
        FuncK::U8 => s.append("u8"),
        FuncK::U16 => s.append("u16"),
        FuncK::U32 => s.append("u32"),
        FuncK::I8 => s.append("i8"),
        FuncK::I16 => s.append("i16"),
        FuncK::I32 => s.append("i32"),
        FuncK::F32 => s.append("f32"),
        FuncK::F64 => s.append("f64"),
    }
}

fn push_binop(s: &mut String, op: BinOp)
    ensures
        final(s)@ == old(s)@ + binop_text(op),
{
    match op {
        BinOp::And => s.append("and"),
        BinOp::Or => s.append("or"),
        BinOp::Add => s.append("+"),
        BinOp::Mul => s.append("*"),
        BinOp::Mod => s.append("%"),
        BinOp::Eq => s.append("=="),
        BinOp::Lt => s.append("<"),
        BinOp::Gt => s.append(">"),
        BinOp::Le => s.append("<="),
        BinOp::Ge => s.append(">="),
    }
}

fn hex(d: u8) -> (c: char)
    requires
        d < 16,
    ensures
        c == hex_char(d as int),
{
    if d < 10 {
        (48u8 + d) as char
    } else {
        (87u8 + d) as char
    }
}

fn push_byte_escape(s: &mut String, b: u8)
    ensures
        final(s)@ == old(s)@ + byte_escape(b),
{
    let ghost s0 = s@;
    if b == 9 {
        push_char(s, '\\');
        push_char(s, 't');
    } else if b == 13 {
        push_char(s, '\\');
        push_char(s, 'r');
    } else if b == 10 {
        push_char(s, '\\');
        push_char(s, 'n');
    } else if b == 92 {
        push_char(s, '\\');
        push_char(s, '\\');
    } else if b == 39 {
        push_char(s, '\\');
        push_char(s, '\'');
    } else if b == 34 {
        push_char(s, '\\');
        push_char(s, '"');
    } else if 32 <= b && b < 127 {
        push_char(s, b as char);
    } else {
        push_char(s, '\\');
        push_char(s, 'x');
        push_char(s, hex(b / 16));
        push_char(s, hex(b % 16));
    }
    assert(s@ =~= s0 + byte_escape(b));
}

/// Appends `text` as a string literal of the generated code.
pub fn push_string_literal(s: &mut String, text: &str)
    ensures
        final(s)@ == old(s)@ + string_literal_text(text@),
{
    let ghost s0 = s@;
    push_char(s, '"');
    let bytes = text.as_bytes();
    let mut i: usize = 0;
    while i < bytes.len()
        invariant
            i <= bytes@.len(),
            bytes@ == vstd::utf8::encode_utf8(text@),
            s@ == s0 + seq!['"'] + bytes_escape(bytes@.subrange(0, i as int)),
        decreases bytes.len() - i,
    {
        push_byte_escape(s, bytes[i]);
        assert(bytes@.subrange(0, i + 1).drop_last() =~= bytes@.subrange(0, i as int));
        i += 1;
    }
    push_char(s, '"');
    assert(bytes@.subrange(0, bytes@.len() as int) =~= bytes@);
    assert(s@ =~= s0 + string_literal_text(text@));
}

/// Appends the text of an expression.
pub fn push_expr(s: &mut String, e: &Expr)
    ensures
        final(s)@ == old(s)@ + expr_text(*e),
    decreases e,
{
    let ghost s0 = s@;
    match e {
        Expr::Nil => s.append("nil"),
        Expr::Global(name) => s.append(name),
        Expr::Boolean(b) => if *b {
            s.append("true")
        } else {
            s.append("false")
        },
        Expr::Number(n) => push_num(s, n),
        Expr::String(text) => push_string_literal(s, text.as_str()),
        Expr::Table(fields) => {
            s.append("{ ");
            push_fields(s, fields);
            s.append(" }");
        },
        Expr::Var(v) => push_var(s, *v),
        Expr::Index(t, i) => {
            push_expr(s, t);
            s.append("[");
            push_expr(s, i);
            s.append("]");
        },
        Expr::Binary(l, op, r) => {
            s.append("(");
            push_expr(s, l);
            s.append(" ");
            push_binop(s, *op);
            s.append(" ");
            push_expr(s, r);
            s.append(")");
        },
        Expr::Unary(op, x) => {
            s.append("(");
            match op {
                UnOp::Not => s.append("not "),
                UnOp::Len => s.append("#"),
            }
            push_expr(s, x);
            s.append(")");
        },
        Expr::Call(f, args) => {
            push_expr(s, f);
            s.append("(");
            push_exprs(s, args);
            s.append(")");
        },
        Expr::Namecall(obj, m, args) => {
            push_expr(s, obj);
            s.append(":");
            s.append(m);
            s.append("(");
            push_exprs(s, args);
            s.append(")");
        },
    }
    assert(s@ =~= s0 + expr_text(*e));
}

/// Appends expressions separated by `, `.
pub fn push_exprs(s: &mut String, es: &Vec<Expr>)
    ensures
        final(s)@ == old(s)@ + exprs_text(es@),
    decreases es,
{
    let ghost s0 = s@;
    let mut i: usize = 0;
    while i < es.len()
        invariant
            i <= es@.len(),
            s@ == s0 + exprs_text(es@.subrange(0, i as int)),
        decreases es.len() - i,
    {
        let ghost pre = s@;
        if i > 0 {
            s.append(", ");
        }
        push_expr(s, &es[i]);
        assert(es@.subrange(0, i + 1).subrange(0, i as int) =~= es@.subrange(0, i as int));
        assert(s@ =~= s0 + exprs_text(es@.subrange(0, i + 1)));
        i += 1;
    }
    assert(es@.subrange(0, es@.len() as int) =~= es@);
}

/// Appends table fields `[key] = value` separated by `, `.
pub fn push_fields(s: &mut String, fs: &Vec<(Expr, Expr)>)
    ensures
        final(s)@ == old(s)@ + fields_text(fs@),
    decreases fs,
{
    let ghost s0 = s@;
    let mut i: usize = 0;
    while i < fs.len()
        invariant
            i <= fs@.len(),
            s@ == s0 + fields_text(fs@.subrange(0, i as int)),
        decreases fs.len() - i,
    {
        if i > 0 {
            s.append(", ");
        }
        s.append("[");
        push_expr(s, &fs[i].0);
        s.append("] = ");
        push_expr(s, &fs[i].1);
        assert(fs@.subrange(0, i + 1).subrange(0, i as int) =~= fs@.subrange(0, i as int));
        assert(s@ =~= s0 + fields_text(fs@.subrange(0, i + 1)));
        i += 1;
    }
    assert(fs@.subrange(0, fs@.len() as int) =~= fs@);
}

/// Appends variables separated by `,`.
pub fn push_vars(s: &mut String, vs: &Vec<Var>)
    ensures
        final(s)@ == old(s)@ + vars_text(vs@),
{
    let ghost s0 = s@;
    let mut i: usize = 0;
    while i < vs.len()
        invariant
            i <= vs@.len(),
            s@ == s0 + vars_text(vs@.subrange(0, i as int)),
        decreases vs.len() - i,
    {
        if i > 0 {
            s.append(",");
        }
        push_var(s, vs[i]);
        assert(vs@.subrange(0, i + 1).drop_last() =~= vs@.subrange(0, i as int));
        assert(s@ =~= s0 + vars_text(vs@.subrange(0, i + 1)));
        i += 1;
    }
    assert(vs@.subrange(0, vs@.len() as int) =~= vs@);
}

} // verus!

verus! {

fn push_instr_simple(s: &mut String, i: &Instr)
    requires
        i is Export || i is Init || i is Assign || i is AssignIndex || i is Call || i is Return,
    ensures
        final(s)@ == old(s)@ + instr_text(*i),
    decreases i, 0nat,
{
    let ghost s0 = s@;
    match i {
        Instr::Export { path, expr } => {
            s.append("export");
            s.append(path.as_str());
            s.append(" = ");
            push_expr(s, expr);
            s.append(";");
            assert(s@ =~= s0 + instr_text(*i));
        },
        Instr::Init { dst, src } => {
            s.append("local ");
            push_var(s, *dst);
            s.append(" = ");
            push_expr(s, src);
            s.append(";");
            assert(s@ =~= s0 + instr_text(*i));
        },
        Instr::Assign { dst, src } => {
            push_var(s, *dst);
            s.append(" = ");
            push_expr(s, src);
            s.append(";");
            assert(s@ =~= s0 + instr_text(*i));
        },
        Instr::AssignIndex { dst, idx, src } => {
            push_var(s, *dst);
            s.append("[");
            push_expr(s, idx);
            s.append("] = ");
            push_expr(s, src);
            s.append(";");
            assert(s@ =~= s0 + instr_text(*i));
        },
        Instr::Call { call } => {
            push_expr(s, call);
            s.append(";");
            assert(s@ =~= s0 + instr_text(*i));
        },
        Instr::Return { exprs } => {
            s.append("return ");
            push_exprs(s, exprs);
            s.append(";");
            assert(s@ =~= s0 + instr_text(*i));
        },
        _ => {},
    }
}

fn push_instr_block(s: &mut String, i: &Instr)
    requires
        i is ForRange || i is ForTable || i is Branch || i is Function,
    ensures
        final(s)@ == old(s)@ + instr_text(*i),
    decreases i, 0nat,
{
    let ghost s0 = s@;
    match i {
        Instr::ForRange { dst, start, end, block } => {
            s.append("for ");
            push_var(s, *dst);
            s.append(" = ");
            push_expr(s, start);
            s.append(", ");
            push_expr(s, end);
            s.append(" do ");
            push_instrs(s, &block.instrs);
            s.append(" end;");
            assert(s@ =~= s0 + instr_text(*i));
        },
        Instr::ForTable { idx, val, table, block } => {
            s.append("for ");
            push_var(s, *idx);
            s.append(", ");
            push_var(s, *val);
            s.append(" in ");
            push_expr(s, table);
            s.append(" do ");
            push_instrs(s, &block.instrs);
            s.append(" end;");
            assert(s@ =~= s0 + instr_text(*i));
        },
        Instr::Branch { cond, then_block, else_block } => {
            s.append("if ");
            push_expr(s, cond);
            s.append(" then ");
            push_instrs(s, &then_block.instrs);
            s.append(" else ");
            push_instrs(s, &else_block.instrs);
            s.append(" end;");
            assert(s@ =~= s0 + instr_text(*i));
        },
        Instr::Function { dst, args, block } => {
            s.append("local function ");
            push_var(s, *dst);
            s.append("(");
            push_vars(s, args);
            s.append(") ");
            push_instrs(s, &block.instrs);
            s.append(" end;");
            assert(s@ =~= s0 + instr_text(*i));
        },
        _ => {},
    }
}

#[verifier::rlimit(60)]
fn push_instr_place(s: &mut String, i: &Instr)
    requires
        i is Check || i is Reserve || i is WriteReservedK,
    ensures
        final(s)@ == old(s)@ + instr_text(*i),
    decreases i, 0nat,
{
    let ghost s0 = s@;
    match i {
        Instr::Check { buf, pos, len, size } => {
            s.append("if ");
            push_var(s, *pos);
            s.append(" + ");
            push_expr(s, size);
            s.append(" >= ");
            push_var(s, *len);
            s.append(" then ");
            push_var(s, *buf);
            s.append(", ");
            push_var(s, *len);
            s.append(" = resize(");
            push_var(s, *buf);
            s.append(", ");
            push_var(s, *pos);
            s.append(", ");
            push_var(s, *len);
            s.append(", ");
            push_expr(s, size);
            s.append(")");
            s.append("end;");
            assert(s@ =~= s0 + instr_text(*i));
        },
        Instr::Reserve { dst, pos, size } => {
            s.append("local ");
            push_var(s, *dst);
            s.append(" = ");
            push_var(s, *pos);
            s.append(";");
            push_var(s, *pos);
            s.append(" += ");
            push_expr(s, size);
            s.append(";");
            assert(s@ =~= s0 + instr_text(*i));
        },
        Instr::WriteReservedK { func, buf, pos, src } => {
            s.append("buffer.write");
            push_funck(s, *func);
            s.append("(");
            push_var(s, *buf);
            s.append(", ");
            push_expr(s, pos);
            s.append(", ");
            push_expr(s, src);
            s.append(");");
            assert(s@ =~= s0 + instr_text(*i));
        },
        _ => {},
    }
}

#[verifier::rlimit(60)]
fn push_instr_buffer(s: &mut String, i: &Instr)
    requires
        i is WriteK || i is WriteD || i is ReadK || i is ReadD,
    ensures
        final(s)@ == old(s)@ + instr_text(*i),
    decreases i, 0nat,
{
    let ghost s0 = s@;
    match i {
        Instr::WriteK { func, buf, pos, src } => {
            s.append("buffer.write");
            push_funck(s, *func);
            s.append("(");
            push_var(s, *buf);
            s.append(", ");
            push_var(s, *pos);
            s.append(", ");
            push_expr(s, src);
            s.append(");");
            push_var(s, *pos);
            s.append(" += ");
            push_nat(s, func.size() as u64);
            s.append(";");
            assert(s@ =~= s0 + instr_text(*i));
        },
        Instr::WriteD { func, buf, pos, src, size } => {
            s.append("buffer.writestring(");
            push_var(s, *buf);
            s.append(", ");
            push_var(s, *pos);
            s.append(", ");
            push_expr(s, src);
            s.append(", ");
            push_expr(s, size);
            s.append(");");
            push_var(s, *pos);
            s.append(" += ");
            push_expr(s, size);
            s.append(";");
            assert(s@ =~= s0 + instr_text(*i));
        },
        Instr::ReadK { func, buf, pos, dst } => {
            s.append("local ");
            push_var(s, *dst);
            s.append(" = buffer.read");
            push_funck(s, *func);
            s.append("(");
            push_var(s, *buf);
            s.append(", ");
            push_var(s, *pos);
            s.append(");");
            push_var(s, *pos);
            s.append(" += ");
            push_nat(s, func.size() as u64);
            s.append(";");
            assert(s@ =~= s0 + instr_text(*i));
        },
        Instr::ReadD { func, buf, pos, size, dst } => {
            s.append("local ");
            push_var(s, *dst);
            s.append(" = buffer.readstring(");
            push_var(s, *buf);
            s.append(", ");
            push_var(s, *pos);
            s.append(", ");
            push_expr(s, size);
            s.append(");");
            push_var(s, *pos);
            s.append(" += ");
            push_expr(s, size);
            s.append(";");
            assert(s@ =~= s0 + instr_text(*i));
        },
        _ => {},
    }
}

/// Appends the text of an instruction.
pub fn push_instr(s: &mut String, i: &Instr)
    ensures
        final(s)@ == old(s)@ + instr_text(*i),
    decreases i, 1nat,
{
    match i {
        Instr::Export { .. } | Instr::Init { .. } | Instr::Assign { .. } | Instr::AssignIndex {
            ..
        } | Instr::Call { .. } | Instr::Return { .. } => push_instr_simple(s, i),
        Instr::ForRange { .. } | Instr::ForTable { .. } | Instr::Branch { .. } | Instr::Function {
            ..
        } => push_instr_block(s, i),
        Instr::Check { .. } | Instr::Reserve { .. } | Instr::WriteReservedK { .. } => push_instr_place(s, i),
        _ => push_instr_buffer(s, i),
    }
}

/// Appends instructions one after the other.
pub fn push_instrs(s: &mut String, is: &Vec<Instr>)
    ensures
        final(s)@ == old(s)@ + instrs_text(is@),
    decreases is, 2nat,
{
    let ghost s0 = s@;
    let mut k: usize = 0;
    while k < is.len()
        invariant
            k <= is@.len(),
            s@ == s0 + instrs_text(is@.subrange(0, k as int)),
        decreases is.len() - k,
    {
        push_instr(s, &is[k]);
        assert(is@.subrange(0, k + 1).subrange(0, k as int) =~= is@.subrange(0, k as int));
        assert(s@ =~= s0 + instrs_text(is@.subrange(0, k + 1)));
        k += 1;
    }
    assert(is@.subrange(0, is@.len() as int) =~= is@);
}

impl Block {
    /// The Luau text of the block.
    pub fn render(&self) -> (r: String)
        ensures
            r@ == instrs_text(self.instrs@),
    {
        let mut s = String::new();
        push_instrs(&mut s, &self.instrs);
        s
    }
}

} // verus!

verus! {

impl Expr {
    pub fn index(self, index: Expr) -> (r: Expr)
        ensures
            r == Expr::Index(Box::new(self), Box::new(index)),
    {
        Expr::Index(Box::new(self), Box::new(index))
    }

    pub fn binary(self, op: BinOp, rhs: Expr) -> (r: Expr)
        ensures
            r == Expr::Binary(Box::new(self), op, Box::new(rhs)),
    {
        Expr::Binary(Box::new(self), op, Box::new(rhs))
    }

    pub fn and(self, rhs: Expr) -> (r: Expr)
        ensures
            r == Expr::Binary(Box::new(self), BinOp::And, Box::new(rhs)),
    {
        self.binary(BinOp::And, rhs)
    }

    pub fn or(self, rhs: Expr) -> (r: Expr)
        ensures
            r == Expr::Binary(Box::new(self), BinOp::Or, Box::new(rhs)),
    {
        self.binary(BinOp::Or, rhs)
    }

    pub fn add(self, rhs: Expr) -> (r: Expr)
        ensures
            r == Expr::Binary(Box::new(self), BinOp::Add, Box::new(rhs)),
    {
        self.binary(BinOp::Add, rhs)
    }

    pub fn mul(self, rhs: Expr) -> (r: Expr)
        ensures
            r == Expr::Binary(Box::new(self), BinOp::Mul, Box::new(rhs)),
    {
        self.binary(BinOp::Mul, rhs)
    }

    pub fn mud(self, rhs: Expr) -> (r: Expr)
        ensures
            r == Expr::Binary(Box::new(self), BinOp::Mod, Box::new(rhs)),
    {
        self.binary(BinOp::Mod, rhs)
    }

    pub fn eq(self, rhs: Expr) -> (r: Expr)
        ensures
            r == Expr::Binary(Box::new(self), BinOp::Eq, Box::new(rhs)),
    {
        self.binary(BinOp::Eq, rhs)
    }

    pub fn lt(self, rhs: Expr) -> (r: Expr)
        ensures
            r == Expr::Binary(Box::new(self), BinOp::Lt, Box::new(rhs)),
    {
        self.binary(BinOp::Lt, rhs)
    }

    pub fn gt(self, rhs: Expr) -> (r: Expr)
        ensures
            r == Expr::Binary(Box::new(self), BinOp::Gt, Box::new(rhs)),
    {
        self.binary(BinOp::Gt, rhs)
    }

    pub fn le(self, rhs: Expr) -> (r: Expr)
        ensures
            r == Expr::Binary(Box::new(self), BinOp::Le, Box::new(rhs)),
    {
        self.binary(BinOp::Le, rhs)
    }

    pub fn ge(self, rhs: Expr) -> (r: Expr)
        ensures
            r == Expr::Binary(Box::new(self), BinOp::Ge, Box::new(rhs)),
    {
        self.binary(BinOp::Ge, rhs)
    }

    pub fn not(self) -> (r: Expr)
        ensures
            r == Expr::Unary(UnOp::Not, Box::new(self)),
    {
        Expr::Unary(UnOp::Not, Box::new(self))
    }

    pub fn len(self) -> (r: Expr)
        ensures
            r == Expr::Unary(UnOp::Len, Box::new(self)),
    {
        Expr::Unary(UnOp::Len, Box::new(self))
    }

    pub fn call(self, args: Vec<Expr>) -> (r: Expr)
        ensures
            r == Expr::Call(Box::new(self), args),
    {
        Expr::Call(Box::new(self), args)
    }

    pub fn namecall(self, method: &'static str, args: Vec<Expr>) -> (r: Expr)
        ensures
            r == Expr::Namecall(Box::new(self), method, args),
    {
        Expr::Namecall(Box::new(self), method, args)
    }

    /// A whole number.
    pub fn from_u64(v: u64) -> (r: Expr)
        ensures
            r == Expr::Number(Num::Finite { neg: false, digits: v, exp: 0 }),
            expr_text(r) == nat_text(v as nat),
    {
        Expr::Number(Num::from_u64(v))
    }

    /// A string literal.
    pub fn from_str(s: &str) -> (r: Expr)
        ensures
            r matches Expr::String(t) && t@ == s@,
            expr_text(r) == string_literal_text(s@),
    {
        Expr::String(s.to_string())
    }

    /// A table for `len` items: when `len` is a number, with a `nil` slot
    /// for each whole number from 1 up to it (as `as u32` truncates it), else
    /// `table.create(len)`.
    pub fn array(len: Expr) -> (r: Expr)
        ensures
            match len {
                Expr::Number(n) => expr_text(r) == "{ "@ + nil_fields_t(num_to_u32(n) as nat) + " }"@,
                _ => expr_text(r) == "table.create"@ + "("@ + expr_text(len) + ")"@,
            },
    {
        if let Expr::Number(n) = &len {
            let count = n.to_u32();
            let mut fields: Vec<(Expr, Expr)> = Vec::new();
            let mut i: u32 = 0;
            while i < count
                invariant
                    i <= count,
                    fields@.len() == i,
                    fields_text(fields@) == nil_fields_t(i as nat),
                decreases count - i,
            {
                let ghost before = fields@;
                i += 1;
                let k = Expr::from_u64(i as u64);
                let nil = Expr::Nil;
                assert(expr_text(nil) == "nil"@);
                assert(expr_text(k) == nat_text(i as nat));
                fields.push((k, nil));
                assert(fields@.subrange(0, fields@.len() - 1) =~= before);
                assert(expr_text(fields@[fields@.len() - 1].0) == nat_text(i as nat));
                assert(expr_text(fields@[fields@.len() - 1].1) == "nil"@);
            }
            Expr::Table(fields)
        } else {
            let ghost lt = expr_text(len);
            let args = vec![len];
            let ghost a = args@;
            let g = Expr::Global("table.create");
            assert(expr_text(g) == "table.create"@);
            let r = g.call(args);
            assert(exprs_text(a) == lt);
            r
        }
    }

    /// `vector.create(x, y, z)`.
    pub fn vector(x: Expr, y: Expr, z: Expr) -> (r: Expr)
        ensures
            expr_text(r) == "vector.create"@ + "("@ + expr_text(x) + ", "@ + expr_text(y) + ", "@
                + expr_text(z) + ")"@,
    {
        let ghost (tx, ty, tz) = (expr_text(x), expr_text(y), expr_text(z));
        let args = vec![x, y, z];
        let ghost a = args@;
        let g = Expr::Global("vector.create");
        assert(expr_text(g) == "vector.create"@);
        let r = g.call(args);
        proof {
            assert(a.subrange(0, 2).subrange(0, 1) =~= seq![a[0]]);
            assert(a.subrange(0, 2) =~= seq![a[0], a[1]]);
            assert(a.subrange(0, 3 - 1) =~= seq![a[0], a[1]]);
            assert(exprs_text(seq![a[0]]) == tx);
            assert(exprs_text(seq![a[0], a[1]]) == tx + ", "@ + ty);
            assert(exprs_text(a) == tx + ", "@ + ty + ", "@ + tz);
            assert(expr_text(r) =~= "vector.create"@ + "("@ + tx + ", "@ + ty + ", "@ + tz + ")"@);
        }
        r
    }
}

} // verus!

verus! {

proof fn lemma_exprs_text_same(a: Seq<Expr>, b: Seq<Expr>)
    requires
        a.len() == b.len(),
        forall|i: int| 0 <= i < a.len() ==> expr_text(#[trigger] a[i]) == expr_text(b[i]),
    ensures
        exprs_text(a) == exprs_text(b),
    decreases a.len(),
{
    if a.len() > 1 {
        let a2 = a.subrange(0, a.len() - 1);
        let b2 = b.subrange(0, b.len() - 1);
        assert forall|i: int| 0 <= i < a2.len() implies expr_text(#[trigger] a2[i]) == expr_text(
            b2[i],
        ) by {
            assert(a2[i] == a[i]);
            assert(b2[i] == b[i]);
        }
        lemma_exprs_text_same(a2, b2);
    }
}

proof fn lemma_fields_text_same(a: Seq<(Expr, Expr)>, b: Seq<(Expr, Expr)>)
    requires
        a.len() == b.len(),
        forall|i: int|
            0 <= i < a.len() ==> expr_text(#[trigger] a[i].0) == expr_text(b[i].0) && expr_text(
                a[i].1,
            ) == expr_text(b[i].1),
    ensures
        fields_text(a) == fields_text(b),
    decreases a.len(),
{
    if a.len() > 1 {
        let a2 = a.subrange(0, a.len() - 1);
        let b2 = b.subrange(0, b.len() - 1);
        assert forall|i: int| 0 <= i < a2.len() implies expr_text(#[trigger] a2[i].0) == expr_text(
            b2[i].0,
        ) && expr_text(a2[i].1) == expr_text(b2[i].1) by {
            assert(a2[i] == a[i]);
            assert(b2[i] == b[i]);
        }
        lemma_fields_text_same(a2, b2);
    }
}

impl Expr {
    /// A copy of the expression (the same text).
    pub fn dup(&self) -> (r: Expr)
        ensures
            expr_text(r) == expr_text(*self),
        decreases self,
    {
        match self {
            Expr::Nil => Expr::Nil,
            Expr::Global(g) => Expr::Global(g),
            Expr::Boolean(b) => Expr::Boolean(*b),
            Expr::Number(n) => Expr::Number(*n),
            Expr::String(s) => Expr::String(s.clone()),
            Expr::Table(fields) => Expr::Table(dup_fields(fields)),
            Expr::Var(v) => Expr::Var(*v),
            Expr::Index(t, i) => Expr::Index(Box::new(t.dup()), Box::new(i.dup())),
            Expr::Binary(l, op, r) => Expr::Binary(Box::new(l.dup()), *op, Box::new(r.dup())),
            Expr::Unary(op, x) => Expr::Unary(*op, Box::new(x.dup())),
            Expr::Call(f, args) => Expr::Call(Box::new(f.dup()), dup_exprs(args)),
            Expr::Namecall(o, m, args) => Expr::Namecall(Box::new(o.dup()), m, dup_exprs(args)),
        }
    }
}

fn dup_fields(fields: &Vec<(Expr, Expr)>) -> (r: Vec<(Expr, Expr)>)
    ensures
        fields_text(r@) == fields_text(fields@),
    decreases fields,
{
    let mut out: Vec<(Expr, Expr)> = Vec::new();
    let mut i: usize = 0;
    while i < fields.len()
        invariant
            i <= fields@.len(),
            out@.len() == i,
            forall|j: int|
                0 <= j < i ==> expr_text(#[trigger] out@[j].0) == expr_text(fields@[j].0)
                    && expr_text(out@[j].1) == expr_text(fields@[j].1),
        decreases fields.len() - i,
    {
        let k = fields[i].0.dup();
        let v = fields[i].1.dup();
        out.push((k, v));
        i += 1;
    }
    proof {
        lemma_fields_text_same(out@, fields@);
    }
    out
}

fn dup_exprs(es: &Vec<Expr>) -> (r: Vec<Expr>)
    ensures
        exprs_text(r@) == exprs_text(es@),
    decreases es,
{
    let mut out: Vec<Expr> = Vec::new();
    let mut i: usize = 0;
    while i < es.len()
        invariant
            i <= es@.len(),
            out@.len() == i,
            forall|j: int| 0 <= j < i ==> expr_text(#[trigger] out@[j]) == expr_text(es@[j]),
        decreases es.len() - i,
    {
        out.push(es[i].dup());
        i += 1;
    }
    proof {
        lemma_exprs_text_same(out@, es@);
    }
    out
}

} // verus!
