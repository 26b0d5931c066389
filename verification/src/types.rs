//! The types of the values of events, for the first code generator.
use vstd::prelude::*;
use crate::nums::NumberKind;
use crate::range::Range;
use crate::ir::{push_escaped, str_escape};

verus! {

/// An item of the configuration: an event, or a table of named items.
pub enum Item {
    Event(Event),
    Table(Vec<(String, Item)>),
}

/// An event: the UUID that names its remote, the side that sends it, the
/// types of its values, and whether it is delivered reliably.
pub struct Event {
    pub name: u128,
    pub from: EventFrom,
    pub data: Vec<Type>,
    pub reliable: bool,
}

/// The side that sends an event.
#[derive(Clone, Copy, PartialEq, Eq, Structural, Debug)]
pub enum EventFrom {
    Server,
    Client,
}

pub enum Type {
    Number(NumberType),
    Vector(VectorType),
    BinaryString(BinaryStringType),
    Utf8String(Utf8StringType),
    Array(ArrayType),
    SetOf(SetType),
    MapOf(MapType),
    Struct(StructType),
}

#[derive(Clone, Copy, PartialEq, Eq, Structural, Debug)]
pub struct NumberType {
    pub kind: NumberKind,
    pub range: Range,
}

/// Two or three number components.
#[derive(Clone, Copy, PartialEq, Eq, Structural, Debug)]
pub struct VectorType {
    pub x: NumberType,
    pub y: NumberType,
    pub z: Option<NumberType>,
}

/// A string of any bytes, of a length within `len`.
#[derive(Clone, Copy, PartialEq, Eq, Structural, Debug)]
pub struct BinaryStringType {
    pub len: Range,
}

/// A valid UTF-8 string, of a length within `len`.
#[derive(Clone, Copy, PartialEq, Eq, Structural, Debug)]
pub struct Utf8StringType {
    pub len: Range,
}

pub struct ArrayType {
    pub len: Range,
    pub item: Box<Type>,
}

pub struct SetType {
    pub len: Range,
    pub item: Box<Type>,
}

pub struct MapType {
    pub len: Range,
    pub index: Box<Type>,
    pub value: Box<Type>,
}

/// Named fields, in order.
pub struct StructType {
    pub fields: Vec<(String, Type)>,
}

} // verus!

verus! {

/// The Luau type annotation of a value of type `t`.
pub open spec fn type_text(t: Type) -> Seq<char>
    decreases t,
{
    match t {
        Type::Number(_) => "number"@,
        Type::Vector(_) => "vector"@,
        Type::BinaryString(_) => "string"@,
        Type::Utf8String(_) => "string"@,
        Type::Array(a) => "{ "@ + type_text(*a.item) + " }"@,
        Type::SetOf(s) => "{ ["@ + type_text(*s.item) + "]: unknown }"@,
        Type::MapOf(m) => "{ ["@ + type_text(*m.index) + "]: "@ + type_text(*m.value) + " }"@,
        Type::Struct(s) => "{ "@ + fields_type_text(s.fields@) + "}"@,
    }
}

/// The fields of a struct annotation: `["name"]: type, ` each.
pub open spec fn fields_type_text(fs: Seq<(String, Type)>) -> Seq<char>
    decreases fs,
{
    if fs.len() == 0 {
        seq![]
    } else {
        fields_type_text(fs.subrange(0, fs.len() - 1)) + "[\""@ + str_escape(fs[fs.len() - 1].0@) + "\"]: "@
            + type_text(fs[fs.len() - 1].1) + ", "@
    }
}

/// Appends the type annotation of `t`.
pub fn push_type(s: &mut String, t: &Type)
    ensures
        final(s)@ == old(s)@ + type_text(*t),
    decreases t,
{
    let ghost s0 = s@;
    match t {
        Type::Number(_) => s.append("number"),
        Type::Vector(_) => s.append("vector"),
        Type::BinaryString(_) => s.append("string"),
        Type::Utf8String(_) => s.append("string"),
        Type::Array(a) => {
            s.append("{ ");
            push_type(s, &a.item);
            s.append(" }");
        },
        Type::SetOf(st) => {
            s.append("{ [");
            push_type(s, &st.item);
            s.append("]: unknown }");
        },
        Type::MapOf(m) => {
            s.append("{ [");
            push_type(s, &m.index);
            s.append("]: ");
            push_type(s, &m.value);
            s.append(" }");
        },
        Type::Struct(st) => {
            s.append("{ ");
            push_fields_type(s, &st.fields);
            s.append("}");
        },
    }
    assert(s@ =~= s0 + type_text(*t));
}

fn push_fields_type(s: &mut String, fs: &Vec<(String, Type)>)
    ensures
        final(s)@ == old(s)@ + fields_type_text(fs@),
    decreases fs,
{
    let ghost s0 = s@;
    let mut i: usize = 0;
    while i < fs.len()
        invariant
            i <= fs@.len(),
            s@ == s0 + fields_type_text(fs@.subrange(0, i as int)),
        decreases fs.len() - i,
    {
        s.append("[\"");
        push_escaped(s, fs[i].0.as_str());
        s.append("\"]: ");
        push_type(s, &fs[i].1);
        s.append(", ");
        assert(fs@.subrange(0, i + 1).subrange(0, i as int) =~= fs@.subrange(0, i as int));
        assert(s@ =~= s0 + fields_type_text(fs@.subrange(0, i + 1)));
        i += 1;
    }
    assert(fs@.subrange(0, fs@.len() as int) =~= fs@);
}

impl Type {
    /// The Luau type annotation of a value of this type.
    pub fn render(&self) -> (r: String)
        ensures
            r@ == type_text(*self),
    {
        let mut s = String::new();
        push_type(&mut s, self);
        s
    }
}

} // verus!
