//! The instructions of the first code generator and their Luau text.
//!
//! The generated code works on a buffer `buf`, a position `pos` and a
//! length `len` that the surrounding code declares; a value to write is
//! reached from `root`.
use vstd::prelude::*;
use crate::nums::NumberKind;
use crate::num::{Num, num_text, push_num};
use crate::mir::hex_char;
use crate::text::{nat_text, push_char, push_nat};

verus! {

/// Instructions one after the other.
pub struct Block {
    pub instrs: Vec<Instr>,
}

pub enum Instr {
    /// Fails with `msg` unless `expr` holds.
    Assert { expr: Expr, msg: String },
    /// Makes room for `size` bytes.
    AllocK { size: u32 },
    /// Makes room for a number of bytes known when the code runs.
    AllocD { size: Expr },
    /// Keeps `size` bytes for a value written later, at `into`.
    ReserveK { into: Var, size: u32 },
    /// Writes a value of a fixed size.
    WriteK { func: FuncK, expr: Expr },
    /// Writes a value of a size known when the code runs.
    WriteD { func: FuncD, expr: Expr, size: Expr },
    /// Writes a value of a fixed size at a kept place.
    WriteReservedK { func: FuncK, at: Expr, expr: Expr },
    /// Reads a value of a fixed size into a new variable.
    ReadK { into: Var, func: FuncK },
    /// Reads a value of a size known when the code runs.
    ReadD { into: Var, func: FuncD, size: Expr },
    /// A new variable holding an expression.
    Expr { into: Var, expr: Expr },
    /// Sets a variable.
    Assign { into: Var, expr: Expr },
    /// Sets an index of a variable.
    AssignIndex { into: Var, index: Expr, expr: Expr },
    /// Runs a block for each number of a range.
    IterRange { into: Var, start: Expr, end: Expr, block: Block },
    /// Runs a block for each entry of a table.
    IterMap { index: Var, value: Var, map: Expr, block: Block },
}

/// A value of a fixed size in a buffer.
#[derive(Clone, Copy, PartialEq, Eq, Structural, Debug)]
pub enum FuncK {
    U8,
    U16,
    U32,
    I8,
    I16,
    I32,
    F32,
    F64,
}

/// A value whose size is known when the code runs.
#[derive(Clone, Copy, PartialEq, Eq, Structural, Debug)]
pub enum FuncD {
    String,
}

pub enum Expr {
    /// The value being written.
    Root,
    Boolean(bool),
    Number(Num),
    String(String),
    /// An empty table.
    Table,
    /// An array with room for the given number of items.
    Array(Box<Expr>),
    /// A table with the given fields.
    Struct(Vec<(String, Expr)>),
    Var(Var),
    Index(Box<Expr>, Box<Expr>),
    Binary(Box<Expr>, BinaryOp, Box<Expr>),
    Unary(UnaryOp, Box<Expr>),
    Vector(Box<Expr>, Box<Expr>, Box<Expr>),
    /// The type name of a value.
    Type(Box<Expr>),
    /// The number of UTF-8 characters of a string, or nothing.
    Utf8(Box<Expr>),
}

#[derive(Clone, Copy, PartialEq, Eq, Structural, Debug)]
pub enum BinaryOp {
    And,
    Add,
    Mul,
    Eq,
    Lt,
    Gt,
    Le,
    Ge,
}

#[derive(Clone, Copy, PartialEq, Eq, Structural, Debug)]
pub enum UnaryOp {
    Len,
}

/// A local variable of the generated code.
#[derive(Clone, Copy, PartialEq, Eq, Structural, Debug)]
pub struct Var(pub u16);

impl FuncK {
    pub open spec fn spec_size(self) -> u32 {
        match self {
            FuncK::U8 | FuncK::I8 => 1,
            FuncK::U16 | FuncK::I16 => 2,
            FuncK::U32 | FuncK::I32 => 4,
            FuncK::F32 => 4,
            FuncK::F64 => 8,
        }
    }

    /// The number of bytes the value takes.
    pub fn size(&self) -> (r: u32)
        ensures
            r == self.spec_size(),
    {
        match self {
            FuncK::U8 | FuncK::I8 => 1,
            FuncK::U16 | FuncK::I16 => 2,
            FuncK::U32 | FuncK::I32 => 4,
            FuncK::F32 => 4,
            FuncK::F64 => 8,
        }
    }

    pub open spec fn spec_from_kind(k: NumberKind) -> FuncK {
        match k {
            NumberKind::U8 => FuncK::U8,
            NumberKind::U16 => FuncK::U16,
            NumberKind::U32 => FuncK::U32,
            NumberKind::I8 => FuncK::I8,
            NumberKind::I16 => FuncK::I16,
            NumberKind::I32 => FuncK::I32,
            NumberKind::F32 | NumberKind::NaNF32 => FuncK::F32,
            NumberKind::F64 | NumberKind::NaNF64 => FuncK::F64,
        }
    }

    /// The buffer value that a number of kind `k` is written as.
    pub fn from_kind(k: NumberKind) -> (r: FuncK)
        ensures
            r == FuncK::spec_from_kind(k),
    {
        match k {
            NumberKind::U8 => FuncK::U8,
            NumberKind::U16 => FuncK::U16,
            NumberKind::U32 => FuncK::U32,
            NumberKind::I8 => FuncK::I8,
            NumberKind::I16 => FuncK::I16,
            NumberKind::I32 => FuncK::I32,
            NumberKind::F32 | NumberKind::NaNF32 => FuncK::F32,
            NumberKind::F64 | NumberKind::NaNF64 => FuncK::F64,
        }
    }
}

pub open spec fn var_text(v: Var) -> Seq<char> {
    seq!['v'] + nat_text(v.0 as nat)
}

pub open spec fn funck_text(f: FuncK) -> Seq<char> {
    match f {
        FuncK::U8 => "u8"@,
        FuncK::U16 => "u16"@,
        FuncK::U32 => "u32"@,
        FuncK::I8 => "i8"@,
        FuncK::I16 => "i16"@,
        FuncK::I32 => "i32"@,
        FuncK::F32 => "f32"@,
        FuncK::F64 => "f64"@,
    }
}

pub open spec fn funcd_text(f: FuncD) -> Seq<char> {
    "string"@
}

pub open spec fn binop_text(op: BinaryOp) -> Seq<char> {
    match op {
        BinaryOp::And => "and"@,
        BinaryOp::Add => "+"@,
        BinaryOp::Mul => "*"@,
        BinaryOp::Eq => "=="@,
        BinaryOp::Lt => "<"@,
        BinaryOp::Gt => ">"@,
        BinaryOp::Le => "<="@,
        BinaryOp::Ge => ">="@,
    }
}

/// Lower-case hexadecimal digits of `n`, without leading zeros.
pub open spec fn hex_text(n: nat) -> Seq<char>
    decreases n,
{
    if n < 16 {
        seq![hex_char(n as int)]
    } else {
        hex_text(n / 16).push(hex_char((n % 16) as int))
    }
}

/// `char::escape_default`: `\t`, `\r`, `\n`, `\\`, `\'` and `\"` for those,
/// printable ASCII as it is, `\u{..}` with the code point in hexadecimal
/// for every other character.
pub open spec fn char_escape(c: char) -> Seq<char> {
    if c == '\t' {
        seq!['\\', 't']
    } else if c == '\r' {
        seq!['\\', 'r']
    } else if c == '\n' {
        seq!['\\', 'n']
    } else if c == '\\' {
        seq!['\\', '\\']
    } else if c == '\'' {
        seq!['\\', '\'']
    } else if c == '"' {
        seq!['\\', '"']
    } else if 0x20 <= (c as u32) < 0x7f {
        seq![c]
    } else {
        seq!['\\', 'u', '{'] + hex_text(c as u32 as nat) + seq!['}']
    }
}

/// `str::escape_default`: each character escaped.
pub open spec fn str_escape(s: Seq<char>) -> Seq<char>
    decreases s.len(),
{
    if s.len() == 0 {
        seq![]
    } else {
        str_escape(s.drop_last()) + char_escape(s.last())
    }
}

/// A number that compares equal to zero.
pub open spec fn is_zero(n: Num) -> bool {
    n matches Num::Finite { digits, .. } && digits == 0
}

/// The text of an expression.
pub open spec fn expr_text(e: Expr) -> Seq<char>
    decreases e,
{
    match e {
        Expr::Root => "root"@,
        Expr::Boolean(b) => if b {
            "true"@
        } else {
            "false"@
        },
        Expr::Number(n) => num_text(n),
        Expr::String(s) => seq!['"'] + str_escape(s@) + seq!['"'],
        Expr::Table => "{}"@,
        Expr::Array(len) => if *len matches Expr::Number(n) && is_zero(n) {
            "{}"@
        } else {
            "table.create("@ + expr_text(*len) + ")"@
        },
        Expr::Struct(fields) => "{ "@ + fields_text(fields@) + "}"@,
        Expr::Var(v) => var_text(v),
        Expr::Index(t, i) => expr_text(*t) + "["@ + expr_text(*i) + "]"@,
        Expr::Binary(l, op, r) => "("@ + expr_text(*l) + " "@ + binop_text(op) + " "@ + expr_text(
            *r,
        ) + ")"@,
        Expr::Unary(op, x) => "("@ + "#"@ + expr_text(*x) + ")"@,
        Expr::Vector(x, y, z) => "vector.create("@ + expr_text(*x) + ", "@ + expr_text(*y) + ", "@
            + expr_text(*z) + ")"@,
        Expr::Type(x) => "type("@ + expr_text(*x) + ")"@,
        Expr::Utf8(x) => "utf8.len("@ + expr_text(*x) + ")"@,
    }
}

/// Fields `name = value, `, one after the other.
pub open spec fn fields_text(s: Seq<(String, Expr)>) -> Seq<char>
    decreases s,
{
    if s.len() == 0 {
        seq![]
    } else {
        fields_text(s.subrange(0, s.len() - 1)) + s[s.len() - 1].0@ + " = "@ + expr_text(
            s[s.len() - 1].1,
        ) + ", "@
    }
}

/// The text of an instruction.
pub open spec fn instr_text(i: Instr) -> Seq<char>
    decreases i,
{
    match i {
        Instr::Assert { expr, msg } => "if not "@ + expr_text(expr) + " then error(\""@ + msg@
            + "\") end;"@,
        Instr::AllocK { size } => "if pos + "@ + nat_text(size as nat) + " > len then resize("@
            + nat_text(size as nat) + ") end;"@,
        Instr::AllocD { size } => "if pos + "@ + expr_text(size) + " > len then resize("@
            + expr_text(size) + ") end;"@,
        Instr::ReserveK { into, size } => "local "@ + var_text(into) + " = pos;"@ + "pos += "@
            + nat_text(size as nat) + ";"@,
        Instr::WriteK { func, expr } => "buffer.write"@ + funck_text(func) + "(buf, pos, "@
            + expr_text(expr) + ");"@ + "pos += "@ + nat_text(func.spec_size() as nat) + ";"@,
        Instr::WriteD { func, expr, size } => "buffer.write"@ + funcd_text(func) + "(buf, pos, "@
            + expr_text(expr) + ", "@ + expr_text(size) + ");"@ + "pos += "@ + expr_text(size)
            + ";"@,
        Instr::WriteReservedK { func, at, expr } => "buffer.write"@ + funck_text(func) + "(buf, "@
            + expr_text(at) + ", "@ + expr_text(expr) + ");"@,
        Instr::ReadK { into, func } => "local "@ + var_text(into) + " = buffer.read"@ + funck_text(
            func,
        ) + "(buf, pos);"@ + "pos += "@ + nat_text(func.spec_size() as nat) + ";"@,
        Instr::ReadD { into, func, size } => "local "@ + var_text(into) + " = buffer.read"@
            + funcd_text(func) + "(buf, pos, "@ + expr_text(size) + ");"@ + "pos += "@ + expr_text(
            size,
        ) + ";"@,
        Instr::Expr { into, expr } => "local "@ + var_text(into) + " = "@ + expr_text(expr) + ";"@,
        Instr::Assign { into, expr } => var_text(into) + " = "@ + expr_text(expr) + ";"@,
        Instr::AssignIndex { into, index, expr } => var_text(into) + "["@ + expr_text(index)
            + "] = "@ + expr_text(expr) + ";"@,
        Instr::IterRange { into, start, end, block } => "for "@ + var_text(into) + " = "@ + expr_text(
            start,
        ) + ", "@ + expr_text(end) + " do "@ + instrs_text(block.instrs@) + " end;"@,
        Instr::IterMap { index, value, map, block } => "for "@ + var_text(index) + ", "@ + var_text(
            value,
        ) + " in "@ + expr_text(map) + " do "@ + instrs_text(block.instrs@) + " end;"@,
    }
}

/// Instructions one after the other.
pub open spec fn instrs_text(s: Seq<Instr>) -> Seq<char>
    decreases s,
{
    if s.len() == 0 {
        seq![]
    } else {
        instrs_text(s.subrange(0, s.len() - 1)) + instr_text(s[s.len() - 1])
    }
}

} // verus!

verus! {

fn push_var(s: &mut String, v: Var)
    ensures
        final(s)@ == old(s)@ + var_text(v),
{
    push_char(s, 'v');
    push_nat(s, v.0 as u64);
    assert(final(s)@ =~= old(s)@ + var_text(v));
}

fn push_funck(s: &mut String, f: FuncK)
    ensures
        final(s)@ == old(s)@ + funck_text(f),
{
    match f {
        FuncK::U8 => s.append("u8"),
        FuncK::U16 => s.append("u16"),
        FuncK::U32 => s.append("u32"),
        FuncK::I8 => s.append("i8"),
        FuncK::I16 => s.append("i16"),
        FuncK::I32 => s.append("i32"),
        FuncK::F32 => s.append("f32"),
        FuncK::F64 => s.append("f64"),
    }
}

fn push_binop(s: &mut String, op: BinaryOp)
    ensures
        final(s)@ == old(s)@ + binop_text(op),
{
    match op {
        BinaryOp::And => s.append("and"),
        BinaryOp::Add => s.append("+"),
        BinaryOp::Mul => s.append("*"),
        BinaryOp::Eq => s.append("=="),
        BinaryOp::Lt => s.append("<"),
        BinaryOp::Gt => s.append(">"),
        BinaryOp::Le => s.append("<="),
        BinaryOp::Ge => s.append(">="),
    }
}

fn push_hex(s: &mut String, n: u32)
    ensures
        final(s)@ == old(s)@ + hex_text(n as nat),
    decreases n,
{
    if n >= 16 {
        push_hex(s, n / 16);
    }
    let d: u8 = (n % 16) as u8;
    let c = if d < 10 {
        (48u8 + d) as char
    } else {
        (87u8 + d) as char
    };
    push_char(s, c);
    proof {
        assert(c == hex_char((n % 16) as int));
    }
}

fn push_char_escape(s: &mut String, c: char)
    ensures
        final(s)@ == old(s)@ + char_escape(c),
{
    let ghost s0 = s@;
    let code = c as u32;
    if c == '\t' {
        s.append("\\t");
    } else if c == '\r' {
        s.append("\\r");
    } else if c == '\n' {
        s.append("\\n");
    } else if c == '\\' {
        s.append("\\\\");
    } else if c == '\'' {
        s.append("\\'");
    } else if c == '"' {
        s.append("\\\"");
    } else if 0x20 <= code && code < 0x7f {
        push_char(s, c);
    } else {
        s.append("\\u{");
        push_hex(s, code);
        push_char(s, '}');
    }
    proof {
        reveal_strlit("\\t");
        reveal_strlit("\\r");
        reveal_strlit("\\n");
        reveal_strlit("\\\\");
        reveal_strlit("\\'");
        reveal_strlit("\\\"");
        reveal_strlit("\\u{");
    }
    assert(s@ =~= s0 + char_escape(c));
}

/// Appends `"text"` with each character escaped.
fn push_string(s: &mut String, text: &str)
    ensures
        final(s)@ == old(s)@ + seq!['"'] + str_escape(text@) + seq!['"'],
{
    push_char(s, '"');
    push_escaped(s, text);
    push_char(s, '"');
}

/// Appends `text` with each character escaped.
pub fn push_escaped(s: &mut String, text: &str)
    ensures
        final(s)@ == old(s)@ + str_escape(text@),
{
    let ghost s0 = s@;
    let n = text.unicode_len();
    let mut i: usize = 0;
    assert(text@.subrange(0, 0) =~= Seq::<char>::empty());
    while i < n
        invariant
            i <= n,
            n == text@.len(),
            s@ == s0 + str_escape(text@.subrange(0, i as int)),
        decreases n - i,
    {
        push_char_escape(s, text.get_char(i));
        assert(text@.subrange(0, i + 1).drop_last() =~= text@.subrange(0, i as int));
        i += 1;
    }
    assert(text@.subrange(0, n as int) =~= text@);
}

/// Appends the text of an expression.
pub fn push_expr(s: &mut String, e: &Expr)
    ensures
        final(s)@ == old(s)@ + expr_text(*e),
    decreases e,
{
    let ghost s0 = s@;
    match e {
        Expr::Root => s.append("root"),
        Expr::Boolean(b) => if *b {
            s.append("true")
        } else {
            s.append("false")
        },
        Expr::Number(n) => push_num(s, n),
        Expr::String(text) => push_string(s, text.as_str()),
        Expr::Table => s.append("{}"),
        Expr::Array(len) => {
            let zero = match &**len {
                Expr::Number(Num::Finite { digits, .. }) => *digits == 0,
                _ => false,
            };
            if zero {
                s.append("{}");
            } else {
                s.append("table.create(");
                push_expr(s, len);
                s.append(")");
            }
        },
        Expr::Struct(fields) => {
            s.append("{ ");
            push_fields(s, fields);
            s.append("}");
        },
        Expr::Var(v) => push_var(s, *v),
        Expr::Index(t, i) => {
            push_expr(s, t);
            s.append("[");
            push_expr(s, i);
            s.append("]");
        },
        Expr::Binary(l, op, r) => {
            s.append("(");
            push_expr(s, l);
            s.append(" ");
            push_binop(s, *op);
            s.append(" ");
            push_expr(s, r);
            s.append(")");
        },
        Expr::Unary(_, x) => {
            s.append("(#");
            push_expr(s, x);
            s.append(")");
        },
        Expr::Vector(x, y, z) => {
            s.append("vector.create(");
            push_expr(s, x);
            s.append(", ");
            push_expr(s, y);
            s.append(", ");
            push_expr(s, z);
            s.append(")");
        },
        Expr::Type(x) => {
            s.append("type(");
            push_expr(s, x);
            s.append(")");
        },
        Expr::Utf8(x) => {
            s.append("utf8.len(");
            push_expr(s, x);
            s.append(")");
        },
    }
    proof {
        reveal_strlit("(#");
        reveal_strlit("#");
        reveal_strlit("(");
    }
    assert(s@ =~= s0 + expr_text(*e));
}

/// Appends fields `name = value, `.
fn push_fields(s: &mut String, fs: &Vec<(String, Expr)>)
    ensures
        final(s)@ == old(s)@ + fields_text(fs@),
    decreases fs,
{
    let ghost s0 = s@;
    let mut i: usize = 0;
    while i < fs.len()
        invariant
            i <= fs@.len(),
            s@ == s0 + fields_text(fs@.subrange(0, i as int)),
        decreases fs.len() - i,
    {
        s.append(fs[i].0.as_str());
        s.append(" = ");
        push_expr(s, &fs[i].1);
        s.append(", ");
        assert(fs@.subrange(0, i + 1).subrange(0, i as int) =~= fs@.subrange(0, i as int));
        assert(s@ =~= s0 + fields_text(fs@.subrange(0, i + 1)));
        i += 1;
    }
    assert(fs@.subrange(0, fs@.len() as int) =~= fs@);
}

fn push_instr_write(s: &mut String, i: &Instr)
    requires
        i is AllocK || i is AllocD || i is ReserveK || i is WriteK || i is WriteD || i is WriteReservedK,
    ensures
        final(s)@ == old(s)@ + instr_text(*i),
    decreases i, 0nat,
{
    let ghost s0 = s@;
    match i {
        Instr::AllocK { size } => {
            s.append("if pos + ");
            push_nat(s, *size as u64);
            s.append(" > len then resize(");
            push_nat(s, *size as u64);
            s.append(") end;");
        },
        Instr::AllocD { size } => {
            s.append("if pos + ");
            push_expr(s, size);
            s.append(" > len then resize(");
            push_expr(s, size);
            s.append(") end;");
        },
        Instr::ReserveK { into, size } => {
            s.append("local ");
            push_var(s, *into);
            s.append(" = pos;");
            s.append("pos += ");
            push_nat(s, *size as u64);
            s.append(";");
        },
        Instr::WriteK { func, expr } => {
            s.append("buffer.write");
            push_funck(s, *func);
            s.append("(buf, pos, ");
            push_expr(s, expr);
            s.append(");");
            s.append("pos += ");
            push_nat(s, func.size() as u64);
            s.append(";");
        },
        Instr::WriteD { func, expr, size } => {
            s.append("buffer.write");
            s.append("string");
            s.append("(buf, pos, ");
            push_expr(s, expr);
            s.append(", ");
            push_expr(s, size);
            s.append(");");
            s.append("pos += ");
            push_expr(s, size);
            s.append(";");
        },
        Instr::WriteReservedK { func, at, expr } => {
            s.append("buffer.write");
            push_funck(s, *func);
            s.append("(buf, ");
            push_expr(s, at);
            s.append(", ");
            push_expr(s, expr);
            s.append(");");
        },
        _ => {},
    }
    assert(s@ =~= s0 + instr_text(*i));
}

fn push_instr_read(s: &mut String, i: &Instr)
    requires
        i is Assert || i is ReadK || i is ReadD || i is Expr || i is Assign || i is AssignIndex,
    ensures
        final(s)@ == old(s)@ + instr_text(*i),
    decreases i, 0nat,
{
    let ghost s0 = s@;
    match i {
        Instr::Assert { expr, msg } => {
            s.append("if not ");
            push_expr(s, expr);
            s.append(" then error(\"");
            s.append(msg.as_str());
            s.append("\") end;");
        },
        Instr::ReadK { into, func } => {
            s.append("local ");
            push_var(s, *into);
            s.append(" = buffer.read");
            push_funck(s, *func);
            s.append("(buf, pos);");
            s.append("pos += ");
            push_nat(s, func.size() as u64);
            s.append(";");
        },
        Instr::ReadD { into, func, size } => {
            s.append("local ");
            push_var(s, *into);
            s.append(" = buffer.read");
            s.append("string");
            s.append("(buf, pos, ");
            push_expr(s, size);
            s.append(");");
            s.append("pos += ");
            push_expr(s, size);
            s.append(";");
        },
        Instr::Expr { into, expr } => {
            s.append("local ");
            push_var(s, *into);
            s.append(" = ");
            push_expr(s, expr);
            s.append(";");
        },
        Instr::Assign { into, expr } => {
            push_var(s, *into);
            s.append(" = ");
            push_expr(s, expr);
            s.append(";");
        },
        Instr::AssignIndex { into, index, expr } => {
            push_var(s, *into);
            s.append("[");
            push_expr(s, index);
            s.append("] = ");
            push_expr(s, expr);
            s.append(";");
        },
        _ => {},
    }
    assert(s@ =~= s0 + instr_text(*i));
}

fn push_instr_iter(s: &mut String, i: &Instr)
    requires
        i is IterRange || i is IterMap,
    ensures
        final(s)@ == old(s)@ + instr_text(*i),
    decreases i, 0nat,
{
    let ghost s0 = s@;
    match i {
        Instr::IterRange { into, start, end, block } => {
            s.append("for ");
            push_var(s, *into);
            s.append(" = ");
            push_expr(s, start);
            s.append(", ");
            push_expr(s, end);
            s.append(" do ");
            push_instrs(s, &block.instrs);
            s.append(" end;");
        },
        Instr::IterMap { index, value, map, block } => {
            s.append("for ");
            push_var(s, *index);
            s.append(", ");
            push_var(s, *value);
            s.append(" in ");
            push_expr(s, map);
            s.append(" do ");
            push_instrs(s, &block.instrs);
            s.append(" end;");
        },
        _ => {},
    }
    assert(s@ =~= s0 + instr_text(*i));
}

/// Appends the text of an instruction.
pub fn push_instr(s: &mut String, i: &Instr)
    ensures
        final(s)@ == old(s)@ + instr_text(*i),
    decreases i, 1nat,
{
    match i {
        Instr::AllocK { .. } | Instr::AllocD { .. } | Instr::ReserveK { .. } | Instr::WriteK { .. }
        | Instr::WriteD { .. } | Instr::WriteReservedK { .. } => push_instr_write(s, i),
        Instr::IterRange { .. } | Instr::IterMap { .. } => push_instr_iter(s, i),
        _ => push_instr_read(s, i),
    }
}

/// Appends instructions one after the other.
pub fn push_instrs(s: &mut String, is: &Vec<Instr>)
    ensures
        final(s)@ == old(s)@ + instrs_text(is@),
    decreases is, 2nat,
{
    let ghost s0 = s@;
    let mut k: usize = 0;
    while k < is.len()
        invariant
            k <= is@.len(),
            s@ == s0 + instrs_text(is@.subrange(0, k as int)),
        decreases is.len() - k,
    {
        push_instr(s, &is[k]);
        assert(is@.subrange(0, k + 1).subrange(0, k as int) =~= is@.subrange(0, k as int));
        assert(s@ =~= s0 + instrs_text(is@.subrange(0, k + 1)));
        k += 1;
    }
    assert(is@.subrange(0, is@.len() as int) =~= is@);
}

impl Block {
    /// The Luau text of the block.
    pub fn render(&self) -> (r: String)
        ensures
            r@ == instrs_text(self.instrs@),
    {
        let mut s = String::new();
        push_instrs(&mut s, &self.instrs);
        s
    }
}

} // verus!

verus! {

impl Expr {
    pub fn index(self, index: Expr) -> (r: Expr)
        ensures
            r == Expr::Index(Box::new(self), Box::new(index)),
    {
        Expr::Index(Box::new(self), Box::new(index))
    }

    pub fn binary(self, op: BinaryOp, rhs: Expr) -> (r: Expr)
        ensures
            r == Expr::Binary(Box::new(self), op, Box::new(rhs)),
    {
        Expr::Binary(Box::new(self), op, Box::new(rhs))
    }

    pub fn and(self, rhs: Expr) -> (r: Expr)
        ensures
            r == Expr::Binary(Box::new(self), BinaryOp::And, Box::new(rhs)),
    {
        self.binary(BinaryOp::And, rhs)
    }

    pub fn add(self, rhs: Expr) -> (r: Expr)
        ensures
            r == Expr::Binary(Box::new(self), BinaryOp::Add, Box::new(rhs)),
    {
        self.binary(BinaryOp::Add, rhs)
    }

    pub fn mul(self, rhs: Expr) -> (r: Expr)
        ensures
            r == Expr::Binary(Box::new(self), BinaryOp::Mul, Box::new(rhs)),
    {
        self.binary(BinaryOp::Mul, rhs)
    }

    pub fn eq(self, rhs: Expr) -> (r: Expr)
        ensures
            r == Expr::Binary(Box::new(self), BinaryOp::Eq, Box::new(rhs)),
    {
        self.binary(BinaryOp::Eq, rhs)
    }

    pub fn lt(self, rhs: Expr) -> (r: Expr)
        ensures
            r == Expr::Binary(Box::new(self), BinaryOp::Lt, Box::new(rhs)),
    {
        self.binary(BinaryOp::Lt, rhs)
    }

    pub fn gt(self, rhs: Expr) -> (r: Expr)
        ensures
            r == Expr::Binary(Box::new(self), BinaryOp::Gt, Box::new(rhs)),
    {
        self.binary(BinaryOp::Gt, rhs)
    }

    pub fn le(self, rhs: Expr) -> (r: Expr)
        ensures
            r == Expr::Binary(Box::new(self), BinaryOp::Le, Box::new(rhs)),
    {
        self.binary(BinaryOp::Le, rhs)
    }

    pub fn ge(self, rhs: Expr) -> (r: Expr)
        ensures
            r == Expr::Binary(Box::new(self), BinaryOp::Ge, Box::new(rhs)),
    {
        self.binary(BinaryOp::Ge, rhs)
    }

    pub fn len(self) -> (r: Expr)
        ensures
            r == Expr::Unary(UnaryOp::Len, Box::new(self)),
    {
        Expr::Unary(UnaryOp::Len, Box::new(self))
    }

    pub fn ty(self) -> (r: Expr)
        ensures
            r == Expr::Type(Box::new(self)),
    {
        Expr::Type(Box::new(self))
    }

    pub fn utf8(self) -> (r: Expr)
        ensures
            r == Expr::Utf8(Box::new(self)),
    {
        Expr::Utf8(Box::new(self))
    }

    /// A string literal.
    pub fn from_str(s: &str) -> (r: Expr)
        ensures
            expr_text(r) == seq!['"'] + str_escape(s@) + seq!['"'],
    {
        Expr::String(String::from_str(s))
    }

    /// A copy of the expression (the same text).
    pub fn dup(&self) -> (r: Expr)
        ensures
            expr_text(r) == expr_text(*self),
            *self is Number ==> r == *self,
            r is Number ==> *self is Number,
        decreases self,
    {
        let r = match self {
            Expr::Root => Expr::Root,
            Expr::Boolean(b) => Expr::Boolean(*b),
            Expr::Number(n) => Expr::Number(*n),
            Expr::String(s) => {
                let c = s.clone();
                assert(c@ == s@);
                Expr::String(c)
            },
            Expr::Table => Expr::Table,
            Expr::Array(len) => match &**len {
                Expr::Number(n) => Expr::Array(Box::new(Expr::Number(*n))),
                _ => {
                    let l = len.dup();
                    assert(!(l matches Expr::Number(_)));
                    Expr::Array(Box::new(l))
                },
            },
            Expr::Struct(fields) => Expr::Struct(dup_fields(fields)),
            Expr::Var(v) => Expr::Var(*v),
            Expr::Index(t, i) => Expr::Index(Box::new(t.dup()), Box::new(i.dup())),
            Expr::Binary(l, op, r) => Expr::Binary(Box::new(l.dup()), *op, Box::new(r.dup())),
            Expr::Unary(op, x) => Expr::Unary(*op, Box::new(x.dup())),
            Expr::Vector(x, y, z) => Expr::Vector(Box::new(x.dup()), Box::new(y.dup()), Box::new(z.dup())),
            Expr::Type(x) => Expr::Type(Box::new(x.dup())),
            Expr::Utf8(x) => Expr::Utf8(Box::new(x.dup())),
        };
        r
    }
}

proof fn lemma_fields_text_same(a: Seq<(String, Expr)>, b: Seq<(String, Expr)>)
    requires
        a.len() == b.len(),
        forall|i: int|
            0 <= i < a.len() ==> (#[trigger] a[i]).0@ == b[i].0@ && expr_text(a[i].1) == expr_text(
                b[i].1,
            ),
    ensures
        fields_text(a) == fields_text(b),
    decreases a.len(),
{
    if a.len() > 0 {
        let a2 = a.subrange(0, a.len() - 1);
        let b2 = b.subrange(0, b.len() - 1);
        assert forall|i: int| 0 <= i < a2.len() implies (#[trigger] a2[i]).0@ == b2[i].0@
            && expr_text(a2[i].1) == expr_text(b2[i].1) by {
            assert(a2[i] == a[i]);
            assert(b2[i] == b[i]);
        }
        lemma_fields_text_same(a2, b2);
        assert(a[a.len() - 1].0@ == b[b.len() - 1].0@);
    }
}

fn dup_fields(fields: &Vec<(String, Expr)>) -> (r: Vec<(String, Expr)>)
    ensures
        fields_text(r@) == fields_text(fields@),
    decreases fields,
{
    let mut out: Vec<(String, Expr)> = Vec::new();
    let mut i: usize = 0;
    while i < fields.len()
        invariant
            i <= fields@.len(),
            out@.len() == i,
            forall|j: int|
                0 <= j < i ==> (#[trigger] out@[j]).0@ == fields@[j].0@ && expr_text(out@[j].1)
                    == expr_text(fields@[j].1),
        decreases fields.len() - i,
    {
        let k = fields[i].0.clone();
        let v = fields[i].1.dup();
        out.push((k, v));
        i += 1;
    }
    proof {
        lemma_fields_text_same(out@, fields@);
    }
    out
}

} // verus!

verus! {

/// How much a value written by `build` is checked: not at all, its ranges,
/// lengths and encodings, or its types too.
#[derive(Clone, Copy, PartialEq, Eq, Structural, Debug)]
pub enum Check {
    Off,
    Untyped,
    Full,
}

/// The level of API checks that a `Check` stands for.
pub open spec fn check_level(c: Check) -> crate::shared::ApiCheck {
    match c {
        Check::Off => crate::shared::ApiCheck::Off,
        Check::Untyped => crate::shared::ApiCheck::Basic,
        Check::Full => crate::shared::ApiCheck::Full,
    }
}

/// The instructions that write `root`, a value of type `ty`, with the
/// checks that `checks` asks for.
pub fn build(ty: &crate::types::Type, checks: Check) -> (blk: Block)
    ensures
        instrs_text(blk.instrs@) == crate::serdes::ser_s(
            crate::serdes::Ser { apicheck: check_level(checks) },
            *ty,
            "root"@,
            crate::mir_builder::RegState { next: 0, free: Seq::empty(), overflow: false },
        ).text,
{
    let apicheck = match checks {
        Check::Off => crate::shared::ApiCheck::Off,
        Check::Untyped => crate::shared::ApiCheck::Basic,
        Check::Full => crate::shared::ApiCheck::Full,
    };
    let mut b = crate::builder::Builder::new();
    assert(b.text() =~= Seq::<char>::empty());
    let root = Expr::Root;
    assert(expr_text(root) == "root"@);
    crate::serdes::ser(crate::serdes::Ser { apicheck }, &mut b, ty, root);
    b.build()
}

} // verus!
