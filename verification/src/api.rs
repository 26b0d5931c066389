//! The configuration as the configuration script describes it: tables of
//! events with their options, and the types of the data of the events.
//!
//! The script calls the functions of the `zap` library (`zap.u8`,
//! `zap.options`, `remote:event`, ...); what each of them decides on the
//! values it is handed is here, as are the strings the configuration may
//! name and the lowering of a configuration to its high-level
//! representation.
use vstd::prelude::*;
use crate::hir;
use crate::hir::{Length, kind_for_max};
use crate::num::{Num, num_le, num_lt, num_to_u32};
use crate::options;
use crate::shared::{ApiCheck, Casing, NetworkSide, NumberKind, Range, Remote, whole};

verus! {

/// A table of the configuration: the options it sets, its items by name,
/// and how many of the items were read before the options. A table read
/// before the options of the table that holds it was linked to the options
/// that held nothing yet, and falls back to the defaults; one read after
/// them falls back to them.
pub struct Table {
    pub opts: options::Node,
    pub items: Vec<(String, Item)>,
    pub opts_at: usize,
}

pub enum Item {
    Table(Table),
    Event(Event),
}

/// An event: the remote it goes through, the side that sends it, and the
/// types of the values it carries.
pub struct Event {
    pub thru: Remote,
    pub from: NetworkSide,
    pub data: Vec<Type>,
}

/// The options that `zap.options` makes.
pub struct OptionUserdata(pub options::Node);

/// A remote that `zap.remote` makes.
#[derive(Clone, Copy)]
pub struct RemoteUserdata(pub Remote);

pub enum Type {
    Boolean(BooleanType),
    Number(NumberType),
    Vector(VectorType),
    BinaryString(BinaryStringType),
    Utf8String(Utf8StringType),
    Array(ArrayType),
    SetOf(SetType),
    MapOf(MapType),
    Enum(EnumType),
    Struct(StructType),
}

#[derive(Clone, Copy, PartialEq, Eq, Structural, Debug)]
pub struct BooleanType;

#[derive(Clone, Copy, PartialEq, Eq, Structural, Debug)]
pub struct NumberType {
    pub kind: NumberKind,
    pub range: Range,
}

#[derive(Clone, Copy, PartialEq, Eq, Structural, Debug)]
pub struct VectorType {
    pub x: NumberType,
    pub y: NumberType,
    pub z: Option<NumberType>,
}

#[derive(Clone, Copy, PartialEq, Eq, Structural, Debug)]
pub struct BinaryStringType {
    pub len: Range,
}

#[derive(Clone, Copy, PartialEq, Eq, Structural, Debug)]
pub struct Utf8StringType {
    pub len: Range,
}

pub struct ArrayType {
    pub len: Range,
    pub item: Box<Type>,
}

pub struct SetType {
    pub len: Range,
    pub item: Box<Type>,
}

pub struct MapType {
    pub len: Range,
    pub index: Box<Type>,
    pub value: Box<Type>,
}

pub struct EnumType {
    pub variants: Vec<String>,
}

pub struct StructType {
    pub fields: Vec<(String, Type)>,
}

/// Whether two strings are the same.
fn same(a: &str, b: &str) -> (r: bool)
    ensures
        r == (a@ == b@),
{
    let n = a.unicode_len();
    if n != b.unicode_len() {
        return false;
    }
    let mut i: usize = 0;
    while i < n
        invariant
            n == a@.len(),
            n == b@.len(),
            i <= n,
            forall|j: int| 0 <= j < i ==> a@[j] == b@[j],
        decreases n - i,
    {
        if a.get_char(i) != b.get_char(i) {
            return false;
        }
        i += 1;
    }
    assert(a@ =~= b@);
    true
}

/// The level of checks that `apicheck` names: `"none"`, `"some"` or
/// `"full"`.
pub open spec fn apicheck_named(s: Seq<char>) -> Option<ApiCheck> {
    if s == "none"@ {
        Some(ApiCheck::Off)
    } else if s == "some"@ {
        Some(ApiCheck::Basic)
    } else if s == "full"@ {
        Some(ApiCheck::Full)
    } else {
        None
    }
}

/// The casing that `casing` names: `"lower"`, `"snake"`, `"camel"` or
/// `"pascal"`.
pub open spec fn casing_named(s: Seq<char>) -> Option<Casing> {
    if s == "lower"@ {
        Some(Casing::Lower)
    } else if s == "snake"@ {
        Some(Casing::Snake)
    } else if s == "camel"@ {
        Some(Casing::Camel)
    } else if s == "pascal"@ {
        Some(Casing::Pascal)
    } else {
        None
    }
}

/// The side that an event names: `"server"` or `"client"`.
pub open spec fn side_named(s: Seq<char>) -> Option<NetworkSide> {
    if s == "server"@ {
        Some(NetworkSide::Server)
    } else if s == "client"@ {
        Some(NetworkSide::Client)
    } else {
        None
    }
}

/// The value of the `apicheck` option.
pub fn parse_apicheck(s: &str) -> (r: Result<ApiCheck, String>)
    ensures
        r matches Ok(a) ==> apicheck_named(s@) == Some(a),
        r matches Err(e) ==> apicheck_named(s@) is None && e@ == "apicheck must be 'none', 'some', or 'full'"@,
{
    if same(s, "none") {
        Ok(ApiCheck::Off)
    } else if same(s, "some") {
        Ok(ApiCheck::Basic)
    } else if same(s, "full") {
        Ok(ApiCheck::Full)
    } else {
        Err(String::from_str("apicheck must be 'none', 'some', or 'full'"))
    }
}

/// The value of the `casing` option.
pub fn parse_casing(s: &str) -> (r: Result<Casing, String>)
    ensures
        r matches Ok(c) ==> casing_named(s@) == Some(c),
        r matches Err(e) ==> casing_named(s@) is None && e@ == "casing must be 'lower', 'snake', 'camel', or 'pascal'"@,
{
    if same(s, "lower") {
        Ok(Casing::Lower)
    } else if same(s, "snake") {
        Ok(Casing::Snake)
    } else if same(s, "camel") {
        Ok(Casing::Camel)
    } else if same(s, "pascal") {
        Ok(Casing::Pascal)
    } else {
        Err(String::from_str("casing must be 'lower', 'snake', 'camel', or 'pascal'"))
    }
}

/// The side that sends an event.
pub fn parse_side(s: &str) -> (r: Result<NetworkSide, String>)
    ensures
        r matches Ok(n) ==> side_named(s@) == Some(n),
        r matches Err(e) ==> side_named(s@) is None && e@ == "must be 'server' or 'client'"@,
{
    if same(s, "server") {
        Ok(NetworkSide::Server)
    } else if same(s, "client") {
        Ok(NetworkSide::Client)
    } else {
        Err(String::from_str("must be 'server' or 'client'"))
    }
}

} // verus!

verus! {

/// A key and value of `zap.options`, as strings.
pub open spec fn entry_view(e: (String, String)) -> (Seq<char>, Seq<char>) {
    (e.0@, e.1@)
}

/// The options that a list of entries sets, in order, or the message of
/// the first entry that is refused.
pub open spec fn options_s(es: Seq<(Seq<char>, Seq<char>)>) -> Result<options::Partial, Seq<char>>
    decreases es.len(),
{
    if es.len() == 0 {
        Ok(options::Partial { apicheck: None, casing: None })
    } else {
        match options_s(es.drop_last()) {
            Err(m) => Err(m),
            Ok(p) => {
                let (k, v) = es.last();
                if k == "apicheck"@ {
                    match apicheck_named(v) {
                        Some(a) => Ok(options::Partial { apicheck: Some(a), casing: p.casing }),
                        None => Err("apicheck must be 'none', 'some', or 'full'"@),
                    }
                } else if k == "casing"@ {
                    match casing_named(v) {
                        Some(c) => Ok(options::Partial { apicheck: p.apicheck, casing: Some(c) }),
                        None => Err("casing must be 'lower', 'snake', 'camel', or 'pascal'"@),
                    }
                } else {
                    Err("unknown option: "@ + k)
                }
            },
        }
    }
}

/// The options that `zap.options` sets from the entries of its table.
pub fn options(entries: &Vec<(String, String)>) -> (r: Result<options::Partial, String>)
    ensures
        match options_s(entries@.map_values(|e: (String, String)| entry_view(e))) {
            Ok(p) => r == Ok::<options::Partial, String>(p),
            Err(m) => r matches Err(e) && e@ == m,
        },
{
    let ghost es = entries@.map_values(|e: (String, String)| entry_view(e));
    let mut p = options::Partial { apicheck: None, casing: None };
    let mut i: usize = 0;
    assert(es.take(0) =~= Seq::<(Seq<char>, Seq<char>)>::empty());
    while i < entries.len()
        invariant
            i <= entries@.len(),
            es == entries@.map_values(|e: (String, String)| entry_view(e)),
            options_s(es.take(i as int)) == Ok::<options::Partial, Seq<char>>(p),
        decreases entries.len() - i,
    {
        assert(es.take(i + 1).drop_last() =~= es.take(i as int));
        assert(es.take(i + 1).last() == es[i as int]);
        assert(es[i as int] == entry_view(entries@[i as int]));
        let key = entries[i].0.as_str();
        let value = entries[i].1.as_str();
        if same(key, "apicheck") {
            match parse_apicheck(value) {
                Ok(a) => {
                    p.apicheck = Some(a);
                },
                Err(e) => {
                    proof {
                        lemma_options_err(es, i as int + 1);
                    }
                    return Err(e);
                },
            }
        } else if same(key, "casing") {
            match parse_casing(value) {
                Ok(c) => {
                    p.casing = Some(c);
                },
                Err(e) => {
                    proof {
                        lemma_options_err(es, i as int + 1);
                    }
                    return Err(e);
                },
            }
        } else {
            let mut msg = String::from_str("unknown option: ");
            msg.append(key);
            proof {
                lemma_options_err(es, i as int + 1);
            }
            return Err(msg);
        }
        i += 1;
    }
    assert(es.take(es.len() as int) =~= es);
    Ok(p)
}

/// Entries are taken in order and the first refused one decides the
/// outcome: once the entries up to `k` are refused, the later ones are not
/// looked at.
pub proof fn lemma_options_err(es: Seq<(Seq<char>, Seq<char>)>, k: int)
    requires
        0 <= k <= es.len(),
        options_s(es.take(k)) is Err,
    ensures
        options_s(es) == options_s(es.take(k)),
    decreases es.len() - k,
{
    if k < es.len() {
        assert(es.take(k + 1).drop_last() =~= es.take(k));
        lemma_options_err(es, k + 1);
    } else {
        assert(es.take(k) =~= es);
    }
}

/// A later setting of an option overrides an earlier one: an accepted
/// entry for `apicheck` (or `casing`) sets that option and keeps the other.
pub proof fn lemma_options_last_wins(es: Seq<(Seq<char>, Seq<char>)>, k: Seq<char>, v: Seq<char>)
    requires
        options_s(es) is Ok,
    ensures
        k == "apicheck"@ && apicheck_named(v) is Some ==> options_s(es.push((k, v))) == Ok::<
            options::Partial,
            Seq<char>,
        >(options::Partial { apicheck: apicheck_named(v), casing: options_s(es)->Ok_0.casing }),
        k == "casing"@ && casing_named(v) is Some ==> options_s(es.push((k, v))) == Ok::<
            options::Partial,
            Seq<char>,
        >(options::Partial { apicheck: options_s(es)->Ok_0.apicheck, casing: casing_named(v) }),
{
    assert(es.push((k, v)).drop_last() =~= es);
    reveal_strlit("apicheck");
    reveal_strlit("casing");
    assert("casing"@.len() != "apicheck"@.len());
}

/// The kinds that a vector component cannot be.
pub open spec fn is_wide(k: NumberKind) -> bool {
    k == NumberKind::F64 || k == NumberKind::NaNF64
}

/// The vector of the components that `zap.vector` is handed, or the
/// message that refuses them.
pub open spec fn vector_s(x: Type, y: Type, z: Option<Type>) -> Result<VectorType, Seq<char>> {
    match (x, y, z) {
        (Type::Number(a), Type::Number(b), Some(Type::Number(c))) => if is_wide(a.kind) || is_wide(
            b.kind,
        ) || is_wide(c.kind) {
            Err("vector components cannot be f64 or nanf64"@)
        } else {
            Ok(VectorType { x: a, y: b, z: Some(c) })
        },
        (Type::Number(a), Type::Number(b), None) => if is_wide(a.kind) || is_wide(b.kind) {
            Err("vector components cannot be f64 or nanf64"@)
        } else {
            Ok(VectorType { x: a, y: b, z: None })
        },
        _ => Err("all vector components must be number types"@),
    }
}

fn wide(k: NumberKind) -> (r: bool)
    ensures
        r == is_wide(k),
{
    match k {
        NumberKind::F64 | NumberKind::NaNF64 => true,
        _ => false,
    }
}

/// The vector type of components `x`, `y` and, when there is one, `z`.
pub fn vector(x: &Type, y: &Type, z: Option<&Type>) -> (r: Result<Type, String>)
    ensures
        match vector_s(*x, *y, match z {
            Some(t) => Some(*t),
            None => None,
        }) {
            Ok(v) => r == Ok::<Type, String>(Type::Vector(v)),
            Err(m) => r matches Err(e) && e@ == m,
        },
{
    match (x, y, z) {
        (Type::Number(a), Type::Number(b), Some(Type::Number(c))) => {
            if wide(a.kind) || wide(b.kind) || wide(c.kind) {
                Err(String::from_str("vector components cannot be f64 or nanf64"))
            } else {
                Ok(Type::Vector(VectorType { x: *a, y: *b, z: Some(*c) }))
            }
        },
        (Type::Number(a), Type::Number(b), None) => {
            if wide(a.kind) || wide(b.kind) {
                Err(String::from_str("vector components cannot be f64 or nanf64"))
            } else {
                Ok(Type::Vector(VectorType { x: *a, y: *b, z: None }))
            }
        },
        _ => Err(String::from_str("all vector components must be number types")),
    }
}

/// A new remote.
pub fn remote() -> (r: RemoteUserdata)
    ensures
        crate::shared::nibble(r.0.uuid, 12) == 4,
        crate::shared::nibble(r.0.uuid, 16) / 4 == 2,
{
    RemoteUserdata(Remote::new())
}

impl RemoteUserdata {
    /// An event through this remote, sent by the side that `from` names,
    /// carrying values of the types of `data`.
    pub fn event(&self, from: &str, data: Vec<Type>) -> (r: Result<Event, String>)
        ensures
            match side_named(from@) {
                Some(side) => r matches Ok(e) && e.thru == self.0 && e.from == side && e.data@ == data@,
                None => r matches Err(m) && m@ == "must be 'server' or 'client'"@,
            },
    {
        match parse_side(from) {
            Ok(side) => Ok(Event { thru: self.0, from: side, data }),
            Err(e) => Err(e),
        }
    }
}

/// A key of a configuration table: the number 1, a name, or anything else.
pub enum TableKey {
    One,
    Name(String),
    Other,
}

/// A value of a configuration table: options, a table (as reading it came
/// out), an event, or anything else.
pub enum TableValue {
    Options(options::Partial),
    Table(Result<Table, String>),
    Event(Event),
    Other,
}

/// The options and items of a table so far, or the message that refused it.
pub type TableSoFar = Result<(options::Partial, Seq<(String, Item)>, nat), Seq<char>>;

/// One entry taken into the table read so far: index 1 holds the options
/// (and only options); any other key must be a name, whose value must be a
/// table or an event. The first refused entry decides the outcome.
pub open spec fn table_step(acc: TableSoFar, e: (TableKey, TableValue)) -> TableSoFar {
    match acc {
        Err(m) => Err(m),
        Ok((p, items, at)) => match e.0 {
            TableKey::One => match e.1 {
                TableValue::Options(q) => Ok((q, items, items.len())),
                _ => Err("index 1 may only contain options"@),
            },
            TableKey::Other => Err("item name must be a string"@),
            TableKey::Name(n) => match e.1 {
                TableValue::Table(Ok(t)) => Ok((p, items.push((n, Item::Table(t))), at)),
                TableValue::Table(Err(m)) => Err(m@),
                TableValue::Event(ev) => Ok((p, items.push((n, Item::Event(ev))), at)),
                _ => Err("item "@ + n@ + " must be a table or event"@),
            },
        },
    }
}

/// The table that the entries `es`, taken in order, make.
pub open spec fn table_s(es: Seq<(TableKey, TableValue)>) -> TableSoFar
    decreases es.len(),
{
    if es.len() == 0 {
        Ok((options::Partial { apicheck: None, casing: None }, Seq::empty(), 0))
    } else {
        table_step(table_s(es.drop_last()), es.last())
    }
}

/// A table of the configuration from its entries, in the order the script
/// hands them over: the options at index 1 (none set where there is no
/// index 1), and the named tables and events as items.
pub fn table(entries: Vec<(TableKey, TableValue)>) -> (r: Result<Table, String>)
    ensures
        match table_s(entries@) {
            Ok((p, items, at)) => r matches Ok(t) && t.opts.spec_partial() == p
                && t.opts.spec_parent() is None && t.opts.kept() is None && t.items@ == items
                && t.opts_at == at,
            Err(m) => r matches Err(e) && e@ == m,
        },
{
    let ghost es = entries@;
    let mut rest = entries;
    let mut p = options::Partial::default();
    let mut items: Vec<(String, Item)> = Vec::new();
    let mut at: usize = 0;
    let n = rest.len();
    let mut i: usize = 0;
    assert(es.take(0) =~= Seq::<(TableKey, TableValue)>::empty());
    while i < n
        invariant
            n == es.len(),
            i <= n,
            rest@ == es.skip(i as int),
            es == entries@,
            table_s(es.take(i as int)) == Ok::<(options::Partial, Seq<(String, Item)>, nat), Seq<char>>(
                (p, items@, at as nat)),
            at <= items@.len(),
        decreases n - i,
    {
        let (k, v) = rest.remove(0);
        proof {
            assert(es.take(i as int + 1).drop_last() =~= es.take(i as int));
            assert(es.take(i as int + 1).last() == es[i as int]);
            assert(es.skip(i as int)[0] == es[i as int]);
            assert(es.skip(i as int).remove(0) =~= es.skip(i as int + 1));
        }
        match k {
            TableKey::One => match v {
                TableValue::Options(q) => {
                    p = q;
                    at = items.len();
                },
                _ => {
                    let msg = String::from_str("index 1 may only contain options");
                    proof {
                        lemma_table_err(es, i as int + 1);
                    }
                    return Err(msg);
                },
            },
            TableKey::Other => {
                let msg = String::from_str("item name must be a string");
                proof {
                    lemma_table_err(es, i as int + 1);
                }
                return Err(msg);
            },
            TableKey::Name(name) => match v {
                TableValue::Table(Ok(t)) => {
                    items.push((name, Item::Table(t)));
                },
                TableValue::Table(Err(m)) => {
                    proof {
                        lemma_table_err(es, i as int + 1);
                    }
                    return Err(m);
                },
                TableValue::Event(ev) => {
                    items.push((name, Item::Event(ev)));
                },
                _ => {
                    let mut msg = String::from_str("item ");
                    msg.append(name.as_str());
                    msg.append(" must be a table or event");
                    proof {
                        lemma_table_err(es, i as int + 1);
                    }
                    return Err(msg);
                },
            },
        }
        i += 1;
    }
    assert(es.take(n as int) =~= es);
    Ok(Table { opts: options::Node::from(p), items, opts_at: at })
}

/// Entries are taken in order and the first refused one decides the
/// outcome: once the entries up to `k` are refused, the later ones are not
/// looked at.
pub proof fn lemma_table_err(es: Seq<(TableKey, TableValue)>, k: int)
    requires
        0 <= k <= es.len(),
        table_s(es.take(k)) is Err,
    ensures
        table_s(es) == table_s(es.take(k)),
    decreases es.len() - k,
{
    if k < es.len() {
        assert(es.take(k + 1).drop_last() =~= es.take(k));
        lemma_table_err(es, k + 1);
    } else {
        assert(es.take(k) =~= es);
    }
}

} // verus!

verus! {

/// The bounds of a length given as numbers, as `as u32` turns them into
/// whole numbers; no lower bound is 0.
pub open spec fn length_of(r: Range) -> Length {
    Length {
        min: match r.min {
            Some(n) => num_to_u32(n),
            None => 0,
        },
        max: match r.max {
            Some(n) => Some(num_to_u32(n)),
            None => None,
        },
    }
}

/// The number that picks one of `n` variants: the range `0..=n-1`, and the
/// smallest unsigned kind that holds `n-1`.
pub open spec fn enum_number(n: nat) -> hir::NumberType {
    let max = if n == 0 {
        Num::Finite { neg: true, digits: 1, exp: 0 }
    } else {
        Num::Finite { neg: false, digits: (n - 1) as u64, exp: 0 }
    };
    hir::NumberType {
        kind: kind_for_max(n - 1),
        range: Range { min: Some(Num::Finite { neg: false, digits: 0, exp: 0 }), max: Some(max) },
    }
}

pub open spec fn number_of(n: NumberType) -> hir::NumberType {
    hir::NumberType { kind: n.kind, range: n.range }
}

/// `h` is the high-level form of `a`.
pub open spec fn converts(a: Type, h: hir::Type) -> bool
    decreases a,
{
    match (a, h) {
        (Type::Boolean(_), hir::Type::Boolean(_)) => true,
        (Type::Number(x), hir::Type::Number(y)) => y == number_of(x),
        (Type::Vector(x), hir::Type::Vector(y)) => y == hir::VectorType {
            x: number_of(x.x),
            y: number_of(x.y),
            z: match x.z {
                Some(z) => Some(number_of(z)),
                None => None,
            },
        },
        (Type::BinaryString(x), hir::Type::BinaryString(y)) => y.len == length_of(x.len),
        (Type::Utf8String(x), hir::Type::Utf8String(y)) => y.len == length_of(x.len),
        (Type::Array(x), hir::Type::Array(y)) => y.len == length_of(x.len) && converts(*x.item, *y.item),
        (Type::SetOf(x), hir::Type::SetOf(y)) => y.len == length_of(x.len) && converts(*x.item, *y.item),
        (Type::MapOf(x), hir::Type::MapOf(y)) => y.len == length_of(x.len) && converts(*x.index, *y.index)
            && converts(*x.value, *y.value),
        (Type::Enum(x), hir::Type::Enum(y)) => y.variants@ == x.variants@ && y.number == enum_number(
            x.variants@.len(),
        ),
        (Type::Struct(x), hir::Type::Struct(y)) => fields_convert(x.fields@, y.fields@),
        _ => false,
    }
}

pub open spec fn fields_convert(a: Seq<(String, Type)>, h: Seq<(String, hir::Type)>) -> bool
    decreases a,
{
    if a.len() == 0 {
        h.len() == 0
    } else {
        &&& h.len() == a.len()
        &&& fields_convert(a.subrange(0, a.len() - 1), h.subrange(0, h.len() - 1))
        &&& h[h.len() - 1].0@ == a[a.len() - 1].0@
        &&& converts(a[a.len() - 1].1, h[h.len() - 1].1)
    }
}

pub open spec fn types_convert(a: Seq<Type>, h: Seq<hir::Type>) -> bool {
    &&& h.len() == a.len()
    &&& forall|i: int| 0 <= i < a.len() ==> converts(#[trigger] a[i], h[i])
}

/// Every enum of the type has few enough variants that its count is an
/// exact `f64`.
pub open spec fn type_ok(a: Type) -> bool
    decreases a,
{
    match a {
        Type::Array(x) => type_ok(*x.item),
        Type::SetOf(x) => type_ok(*x.item),
        Type::MapOf(x) => type_ok(*x.index) && type_ok(*x.value),
        Type::Enum(x) => x.variants@.len() <= 9007199254740992,
        Type::Struct(x) => fields_ok(x.fields@),
        _ => true,
    }
}

pub open spec fn fields_ok(a: Seq<(String, Type)>) -> bool
    decreases a,
{
    if a.len() == 0 {
        true
    } else {
        fields_ok(a.subrange(0, a.len() - 1)) && type_ok(a[a.len() - 1].1)
    }
}

fn length_from(r: Range) -> (l: Length)
    ensures
        l == length_of(r),
{
    Length {
        min: match r.min {
            Some(n) => n.to_u32(),
            None => 0,
        },
        max: match r.max {
            Some(n) => Some(n.to_u32()),
            None => None,
        },
    }
}

fn number_from(n: &NumberType) -> (r: hir::NumberType)
    ensures
        r == number_of(*n),
{
    hir::NumberType { kind: n.kind, range: n.range }
}

impl hir::Type {
    /// The high-level form of a type of the configuration.
    pub fn from_api(a: &Type) -> (h: hir::Type)
        requires
            type_ok(*a),
        ensures
            converts(*a, h),
        decreases a,
    {
        match a {
            Type::Boolean(_) => hir::Type::Boolean(hir::BooleanType),
            Type::Number(n) => hir::Type::Number(number_from(n)),
            Type::Vector(v) => hir::Type::Vector(
                hir::VectorType {
                    x: number_from(&v.x),
                    y: number_from(&v.y),
                    z: match &v.z {
                        Some(z) => Some(number_from(z)),
                        None => None,
                    },
                },
            ),
            Type::BinaryString(s) => hir::Type::BinaryString(hir::BinaryStringType { len: length_from(s.len) }),
            Type::Utf8String(s) => hir::Type::Utf8String(hir::Utf8StringType { len: length_from(s.len) }),
            Type::Array(x) => hir::Type::Array(
                hir::ArrayType { len: length_from(x.len), item: Box::new(hir::Type::from_api(&x.item)) },
            ),
            Type::SetOf(x) => hir::Type::SetOf(
                hir::SetType { len: length_from(x.len), item: Box::new(hir::Type::from_api(&x.item)) },
            ),
            Type::MapOf(x) => {
                let index = Box::new(hir::Type::from_api(&x.index));
                let value = Box::new(hir::Type::from_api(&x.value));
                hir::Type::MapOf(hir::MapType { len: length_from(x.len), index, value })
            },
            Type::Enum(x) => hir::Type::Enum(enum_from(x)),
            Type::Struct(x) => hir::Type::Struct(hir::StructType { fields: fields_from(&x.fields) }),
        }
    }
}

fn enum_from(x: &EnumType) -> (h: hir::EnumType)
    requires
        x.variants@.len() <= 9007199254740992,
    ensures
        h.variants@ == x.variants@,
        h.number == enum_number(x.variants@.len()),
{
    let mut variants: Vec<String> = Vec::new();
    let mut i: usize = 0;
    while i < x.variants.len()
        invariant
            i <= x.variants@.len(),
            variants@ == x.variants@.take(i as int),
        decreases x.variants.len() - i,
    {
        variants.push(x.variants[i].clone());
        assert(variants@ =~= x.variants@.take(i + 1));
        i += 1;
    }
    assert(x.variants@.take(x.variants@.len() as int) =~= x.variants@);
    let n = x.variants.len();
    let max = if n == 0 {
        Num::Finite { neg: true, digits: 1, exp: 0 }
    } else {
        Num::Finite { neg: false, digits: (n - 1) as u64, exp: 0 }
    };
    let kind = if n <= 256 {
        NumberKind::U8
    } else if n <= 65536 {
        NumberKind::U16
    } else {
        NumberKind::U32
    };
    let number = hir::NumberType {
        kind,
        range: Range { min: Some(Num::Finite { neg: false, digits: 0, exp: 0 }), max: Some(max) },
    };
    hir::EnumType { variants, number }
}

fn fields_from(fs: &Vec<(String, Type)>) -> (h: Vec<(String, hir::Type)>)
    requires
        fields_ok(fs@),
    ensures
        fields_convert(fs@, h@),
    decreases fs,
{
    let mut out: Vec<(String, hir::Type)> = Vec::new();
    let mut i: usize = 0;
    assert(fs@.subrange(0, 0) =~= Seq::<(String, Type)>::empty());
    while i < fs.len()
        invariant
            i <= fs@.len(),
            fields_ok(fs@),
            fields_convert(fs@.subrange(0, i as int), out@),
        decreases fs.len() - i,
    {
        proof {
            lemma_fields_ok_at(fs@, i as int);
        }
        let name = fs[i].0.clone();
        let t = hir::Type::from_api(&fs[i].1);
        let ghost before = out@;
        out.push((name, t));
        proof {
            assert(fs@.subrange(0, i + 1).subrange(0, i as int) =~= fs@.subrange(0, i as int));
            assert(out@.subrange(0, out@.len() - 1) =~= before);
        }
        i += 1;
    }
    assert(fs@.subrange(0, fs@.len() as int) =~= fs@);
    out
}

proof fn lemma_fields_ok_at(fs: Seq<(String, Type)>, k: int)
    requires
        0 <= k < fs.len(),
        fields_ok(fs),
    ensures
        type_ok(fs[k].1),
    decreases fs.len(),
{
    if k < fs.len() - 1 {
        lemma_fields_ok_at(fs.subrange(0, fs.len() - 1), k);
    }
}

} // verus!

verus! {

/// What the table at position `k` of a table's items falls back to: the
/// options in effect for the table that holds it when it was read after
/// them, the defaults when it was read before.
pub open spec fn fallback(k: int, early: nat, opts: options::Options) -> options::Options {
    if k >= early {
        opts
    } else {
        default_options()
    }
}

/// The options in effect when no table sets any.
pub open spec fn default_options() -> options::Options {
    options::Options { apicheck: ApiCheck::Basic, casing: Casing::Lower }
}

/// `h` is the high-level form of the table `a`, nested in a table whose
/// options in effect are `parent`: the items keep their names and order;
/// each event takes the options in effect for the table that holds it.
pub open spec fn built_table(a: Table, parent: options::Options, h: hir::Table) -> bool
    decreases a,
{
    built_items(a.items@, a.opts.spec_partial().spec_resolve(parent), a.opts_at as nat, h.items@)
}

pub open spec fn built_items(a: Seq<(String, Item)>, opts: options::Options, early: nat, h: Seq<(String, hir::Item)>) -> bool
    decreases a,
{
    if a.len() == 0 {
        h.len() == 0
    } else {
        &&& h.len() == a.len()
        &&& built_items(a.subrange(0, a.len() - 1), opts, early, h.subrange(0, h.len() - 1))
        &&& h[h.len() - 1].0@ == a[a.len() - 1].0@
        &&& match (a[a.len() - 1].1, h[h.len() - 1].1) {
            (Item::Table(at), hir::Item::Table(ht)) => built_table(at, fallback(a.len() - 1, early, opts), ht),
            (Item::Event(ae), hir::Item::Event(he)) => {
                &&& he.opts == opts
                &&& he.thru == ae.thru
                &&& he.from == ae.from
                &&& types_convert(ae.data@, he.data@)
            },
            _ => false,
        }
    }
}

/// Every enum of the configuration has few enough variants that its count
/// is an exact `f64`.
pub open spec fn table_ok(a: Table) -> bool
    decreases a,
{
    items_ok(a.items@)
}

pub open spec fn items_ok(a: Seq<(String, Item)>) -> bool
    decreases a,
{
    if a.len() == 0 {
        true
    } else {
        &&& items_ok(a.subrange(0, a.len() - 1))
        &&& match a[a.len() - 1].1 {
            Item::Table(t) => table_ok(t),
            Item::Event(e) => forall|i: int| 0 <= i < e.data@.len() ==> type_ok(#[trigger] e.data@[i]),
        }
    }
}

proof fn lemma_items_ok_prefix(a: Seq<(String, Item)>, k: int)
    requires
        0 <= k < a.len(),
        items_ok(a),
    ensures
        items_ok(a.subrange(0, k + 1)),
    decreases a.len(),
{
    if k + 1 < a.len() {
        lemma_items_ok_prefix(a.subrange(0, a.len() - 1), k);
        assert(a.subrange(0, a.len() - 1).subrange(0, k + 1) =~= a.subrange(0, k + 1));
    } else {
        assert(a.subrange(0, k + 1) =~= a);
    }
}

/// The high-level form of a configuration.
pub fn build(table: &Table) -> (h: hir::Hir)
    requires
        table_ok(*table),
    ensures
        built_table(*table, default_options(), h.table),
{
    let parent = options::Options::default();
    hir::Hir { table: build_table(table, &parent) }
}

fn build_table(a: &Table, parent: &options::Options) -> (h: hir::Table)
    requires
        table_ok(*a),
    ensures
        built_table(*a, *parent, h),
    decreases a, 1int,
{
    let opts = a.opts.partial().resolve(parent);
    hir::Table { items: build_items(&a.items, &opts, a.opts_at) }
}

fn build_items(a: &Vec<(String, Item)>, opts: &options::Options, early: usize) -> (h: Vec<(String, hir::Item)>)
    requires
        items_ok(a@),
    ensures
        built_items(a@, *opts, early as nat, h@),
    decreases a, 0int,
{
    let mut out: Vec<(String, hir::Item)> = Vec::new();
    let mut i: usize = 0;
    assert(a@.subrange(0, 0) =~= Seq::<(String, Item)>::empty());
    while i < a.len()
        invariant
            i <= a@.len(),
            items_ok(a@),
            built_items(a@.subrange(0, i as int), *opts, early as nat, out@),
        decreases a.len() - i,
    {
        proof {
            lemma_items_ok_prefix(a@, i as int);
            assert(a@.subrange(0, i + 1)[i as int] == a@[i as int]);
        }
        let name = a[i].0.clone();
        let item = match &a[i].1 {
            Item::Table(t) => {
                let defaults = options::Options::default();
                let fb = if i >= early {
                    opts
                } else {
                    &defaults
                };
                hir::Item::Table(build_table(t, fb))
            },
            Item::Event(e) => hir::Item::Event(event_from(e, opts)),
        };
        let ghost before = out@;
        out.push((name, item));
        proof {
            assert(a@.subrange(0, i + 1).subrange(0, i as int) =~= a@.subrange(0, i as int));
            assert(out@.subrange(0, out@.len() - 1) =~= before);
        }
        i += 1;
    }
    assert(a@.subrange(0, a@.len() as int) =~= a@);
    out
}

fn event_from(e: &Event, opts: &options::Options) -> (h: hir::Event)
    requires
        forall|i: int| 0 <= i < e.data@.len() ==> type_ok(#[trigger] e.data@[i]),
    ensures
        h.opts == *opts,
        h.thru == e.thru,
        h.from == e.from,
        types_convert(e.data@, h.data@),
{
    let mut data: Vec<hir::Type> = Vec::new();
    let mut i: usize = 0;
    while i < e.data.len()
        invariant
            i <= e.data@.len(),
            forall|j: int| 0 <= j < e.data@.len() ==> type_ok(#[trigger] e.data@[j]),
            data@.len() == i,
            forall|j: int| 0 <= j < i ==> converts(#[trigger] e.data@[j], data@[j]),
        decreases e.data.len() - i,
    {
        let t = hir::Type::from_api(&e.data[i]);
        data.push(t);
        i += 1;
    }
    hir::Event { opts: *opts, thru: e.thru, from: e.from, data }
}

} // verus!

verus! {

proof fn lemma_fields_ok_prefix(fs: Seq<(String, Type)>, k: int)
    requires
        0 <= k <= fs.len(),
        fields_ok(fs),
    ensures
        fields_ok(fs.subrange(0, k)),
    decreases fs.len(),
{
    if k < fs.len() {
        lemma_fields_ok_prefix(fs.subrange(0, fs.len() - 1), k);
        assert(fs.subrange(0, fs.len() - 1).subrange(0, k) =~= fs.subrange(0, k));
    } else {
        assert(fs.subrange(0, k) =~= fs);
    }
}

proof fn lemma_items_ok_sub(a: Seq<(String, Item)>, k: int)
    requires
        0 <= k <= a.len(),
        items_ok(a),
    ensures
        items_ok(a.subrange(0, k)),
    decreases a.len(),
{
    if k < a.len() {
        lemma_items_ok_sub(a.subrange(0, a.len() - 1), k);
        assert(a.subrange(0, a.len() - 1).subrange(0, k) =~= a.subrange(0, k));
    } else {
        assert(a.subrange(0, k) =~= a);
    }
}

/// Whether every enum of the type has few enough variants that its count
/// is an exact `f64`.
pub fn type_fits(a: &Type) -> (r: bool)
    ensures
        r == type_ok(*a),
    decreases a, 1int,
{
    match a {
        Type::Array(x) => type_fits(&x.item),
        Type::SetOf(x) => type_fits(&x.item),
        Type::MapOf(x) => type_fits(&x.index) && type_fits(&x.value),
        Type::Enum(x) => x.variants.len() as u64 <= 9007199254740992u64,
        Type::Struct(x) => fields_fit(&x.fields),
        _ => true,
    }
}

fn fields_fit(fs: &Vec<(String, Type)>) -> (r: bool)
    ensures
        r == fields_ok(fs@),
    decreases fs, 0int,
{
    let mut i: usize = 0;
    assert(fs@.subrange(0, 0) =~= Seq::<(String, Type)>::empty());
    while i < fs.len()
        invariant
            i <= fs@.len(),
            fields_ok(fs@.subrange(0, i as int)),
        decreases fs.len() - i,
    {
        assert(fs@.subrange(0, i + 1).subrange(0, i as int) =~= fs@.subrange(0, i as int));
        if !type_fits(&fs[i].1) {
            proof {
                if fields_ok(fs@) {
                    lemma_fields_ok_prefix(fs@, i + 1);
                }
            }
            return false;
        }
        i += 1;
    }
    assert(fs@.subrange(0, fs@.len() as int) =~= fs@);
    true
}

/// Whether every enum of the configuration has few enough variants that
/// its count is an exact `f64`, as `build` asks.
pub fn table_fits(t: &Table) -> (r: bool)
    ensures
        r == table_ok(*t),
    decreases t, 1int,
{
    items_fit(&t.items)
}

fn items_fit(items: &Vec<(String, Item)>) -> (r: bool)
    ensures
        r == items_ok(items@),
    decreases items, 0int,
{
    let mut i: usize = 0;
    assert(items@.subrange(0, 0) =~= Seq::<(String, Item)>::empty());
    while i < items.len()
        invariant
            i <= items@.len(),
            items_ok(items@.subrange(0, i as int)),
        decreases items.len() - i,
    {
        assert(items@.subrange(0, i + 1).subrange(0, i as int) =~= items@.subrange(0, i as int));
        assert(items@.subrange(0, i + 1)[i as int] == items@[i as int]);
        let ok = match &items[i].1 {
            Item::Table(t) => table_fits(t),
            Item::Event(e) => {
                let mut all = true;
                let mut j: usize = 0;
                while j < e.data.len()
                    invariant
                        j <= e.data@.len(),
                        all == (forall|k: int| 0 <= k < j ==> type_ok(#[trigger] e.data@[k])),
                    decreases e.data.len() - j,
                {
                    if !type_fits(&e.data[j]) {
                        all = false;
                    }
                    j += 1;
                }
                all
            },
        };
        if !ok {
            proof {
                if items_ok(items@) {
                    lemma_items_ok_sub(items@, i + 1);
                }
            }
            return false;
        }
        i += 1;
    }
    assert(items@.subrange(0, items@.len() as int) =~= items@);
    true
}

} // verus!

verus! {

/// The values that a number of an integer kind can take, from the least to
/// the greatest; the float kinds take any.
pub open spec fn kind_limits(kind: NumberKind) -> Option<(Num, Num)> {
    match kind {
        NumberKind::F32 | NumberKind::F64 | NumberKind::NaNF32 | NumberKind::NaNF64 => None,
        _ => Some((kind.spec_min(), kind.spec_max())),
    }
}

/// The message that refuses a lower bound outside the values of `kind`.
pub open spec fn min_out_msg(kind: NumberKind) -> Seq<char> {
    match kind {
        NumberKind::U8 => "u8 min must be between 0 and 255"@,
        NumberKind::U16 => "u16 min must be between 0 and 65535"@,
        NumberKind::U24 => "u24 min must be between 0 and 16777215"@,
        NumberKind::U32 => "u32 min must be between 0 and 4294967295"@,
        NumberKind::I8 => "i8 min must be between -128 and 127"@,
        NumberKind::I16 => "i16 min must be between -32768 and 32767"@,
        NumberKind::I24 => "i24 min must be between -8388608 and 8388607"@,
        _ => "i32 min must be between -2147483648 and 2147483647"@,
    }
}

/// The message that refuses an upper bound outside the values of `kind`.
pub open spec fn max_out_msg(kind: NumberKind) -> Seq<char> {
    match kind {
        NumberKind::U8 => "u8 max must be between 0 and 255"@,
        NumberKind::U16 => "u16 max must be between 0 and 65535"@,
        NumberKind::U24 => "u24 max must be between 0 and 16777215"@,
        NumberKind::U32 => "u32 max must be between 0 and 4294967295"@,
        NumberKind::I8 => "i8 max must be between -128 and 127"@,
        NumberKind::I16 => "i16 max must be between -32768 and 32767"@,
        NumberKind::I24 => "i24 max must be between -8388608 and 8388607"@,
        _ => "i32 max must be between -2147483648 and 2147483647"@,
    }
}

/// `n` lies within the limits `lo..=hi`.
pub open spec fn within(n: Num, lo: Num, hi: Num) -> bool {
    num_le(lo, n) && num_le(n, hi)
}

/// The bounds are given in the wrong order.
pub open spec fn crossed(min: Option<Num>, max: Option<Num>) -> bool {
    match (min, max) {
        (Some(a), Some(b)) => num_lt(b, a),
        _ => false,
    }
}

/// The number type of `kind` with the bounds `min` and `max`, or the
/// message that refuses them: a bound outside the values of an integer
/// kind (the lower one is looked at first), then bounds in the wrong order.
pub open spec fn number_s(kind: NumberKind, min: Option<Num>, max: Option<Num>) -> Result<
    NumberType,
    Seq<char>,
> {
    match kind_limits(kind) {
        Some((lo, hi)) if min is Some && !within(min->0, lo, hi) => Err(min_out_msg(kind)),
        Some((lo, hi)) if max is Some && !within(max->0, lo, hi) => Err(max_out_msg(kind)),
        _ => if crossed(min, max) {
            Err("min must be less than or equal to max"@)
        } else {
            Ok(NumberType { kind, range: Range { min, max } })
        },
    }
}

/// The bounds of a length, or the message that refuses them: a negative
/// bound (the lower one is looked at first), then bounds in the wrong order.
pub open spec fn length_s(min: Option<Num>, max: Option<Num>) -> Result<Range, Seq<char>> {
    if min is Some && num_lt(min->0, whole(false, 0)) {
        Err("length min cannot be negative"@)
    } else if max is Some && num_lt(max->0, whole(false, 0)) {
        Err("length max cannot be negative"@)
    } else if crossed(min, max) {
        Err("min must be less than or equal to max"@)
    } else {
        Ok(Range { min, max })
    }
}

fn limits(kind: NumberKind) -> (r: Option<(Num, Num)>)
    ensures
        r == kind_limits(kind),
{
    match kind {
        NumberKind::F32 | NumberKind::F64 | NumberKind::NaNF32 | NumberKind::NaNF64 => None,
        _ => Some((kind.min(), kind.max())),
    }
}

fn min_out(kind: NumberKind) -> (m: String)
    ensures
        m@ == min_out_msg(kind),
{
    match kind {
        NumberKind::U8 => String::from_str("u8 min must be between 0 and 255"),
        NumberKind::U16 => String::from_str("u16 min must be between 0 and 65535"),
        NumberKind::U24 => String::from_str("u24 min must be between 0 and 16777215"),
        NumberKind::U32 => String::from_str("u32 min must be between 0 and 4294967295"),
        NumberKind::I8 => String::from_str("i8 min must be between -128 and 127"),
        NumberKind::I16 => String::from_str("i16 min must be between -32768 and 32767"),
        NumberKind::I24 => String::from_str("i24 min must be between -8388608 and 8388607"),
        _ => String::from_str("i32 min must be between -2147483648 and 2147483647"),
    }
}

fn max_out(kind: NumberKind) -> (m: String)
    ensures
        m@ == max_out_msg(kind),
{
    match kind {
        NumberKind::U8 => String::from_str("u8 max must be between 0 and 255"),
        NumberKind::U16 => String::from_str("u16 max must be between 0 and 65535"),
        NumberKind::U24 => String::from_str("u24 max must be between 0 and 16777215"),
        NumberKind::U32 => String::from_str("u32 max must be between 0 and 4294967295"),
        NumberKind::I8 => String::from_str("i8 max must be between -128 and 127"),
        NumberKind::I16 => String::from_str("i16 max must be between -32768 and 32767"),
        NumberKind::I24 => String::from_str("i24 max must be between -8388608 and 8388607"),
        _ => String::from_str("i32 max must be between -2147483648 and 2147483647"),
    }
}

fn bounds_crossed(min: Option<Num>, max: Option<Num>) -> (r: bool)
    ensures
        r == crossed(min, max),
{
    match (min, max) {
        (Some(a), Some(b)) => b.lt(&a),
        _ => false,
    }
}

/// The number type that `zap.u8`, `zap.i32`, `zap.f64` and the like make:
/// of `kind`, with the bounds it is handed.
pub fn number(kind: NumberKind, min: Option<Num>, max: Option<Num>) -> (r: Result<Type, String>)
    ensures
        match number_s(kind, min, max) {
            Ok(n) => r == Ok::<Type, String>(Type::Number(n)),
            Err(m) => r matches Err(e) && e@ == m,
        },
{
    if let Some((lo, hi)) = limits(kind) {
        if let Some(a) = min {
            if !(lo.le(&a) && a.le(&hi)) {
                return Err(min_out(kind));
            }
        }
        if let Some(b) = max {
            if !(lo.le(&b) && b.le(&hi)) {
                return Err(max_out(kind));
            }
        }
    }
    if bounds_crossed(min, max) {
        return Err(String::from_str("min must be less than or equal to max"));
    }
    Ok(Type::Number(NumberType { kind, range: Range { min, max } }))
}

/// The bounds of the length of a string, array, set or map, as
/// `zap.string.binary`, `zap.array` and the like take them.
pub fn length(min: Option<Num>, max: Option<Num>) -> (r: Result<Range, String>)
    ensures
        match length_s(min, max) {
            Ok(l) => r == Ok::<Range, String>(l),
            Err(m) => r matches Err(e) && e@ == m,
        },
{
    let zero = Num::from_u64(0);
    if let Some(a) = min {
        if a.lt(&zero) {
            return Err(String::from_str("length min cannot be negative"));
        }
    }
    if let Some(b) = max {
        if b.lt(&zero) {
            return Err(String::from_str("length max cannot be negative"));
        }
    }
    if bounds_crossed(min, max) {
        return Err(String::from_str("min must be less than or equal to max"));
    }
    Ok(Range { min, max })
}

} // verus!

verus! {

/// The Luau type annotation that a type of the configuration describes:
/// a map of keys `K` to values `V` is `{ [K]: V }`, a set of `K` is
/// `{ [K]: boolean }`, an array of `T` is `{ T }`, and so on.
pub open spec fn described_text(t: Type) -> Seq<char>
    decreases t,
{
    match t {
        Type::Boolean(_) => "boolean"@,
        Type::Number(_) => "number"@,
        Type::Vector(_) => "vector"@,
        Type::BinaryString(_) => "string"@,
        Type::Utf8String(_) => "string"@,
        Type::Array(a) => "{ "@ + described_text(*a.item) + " }"@,
        Type::SetOf(s) => "{ ["@ + described_text(*s.item) + "]: boolean }"@,
        Type::MapOf(m) => "{ ["@ + described_text(*m.index) + "]: "@ + described_text(*m.value) + " }"@,
        Type::Enum(e) => "("@ + hir::variants_text(e.variants@) + ")"@,
        Type::Struct(s) => "{"@ + described_fields_text(s.fields@) + "}"@,
    }
}

pub open spec fn described_fields_text(fs: Seq<(String, Type)>) -> Seq<char>
    decreases fs,
{
    if fs.len() == 0 {
        seq![]
    } else {
        described_fields_text(fs.subrange(0, fs.len() - 1)) + "[\""@ + fs[fs.len() - 1].0@ + "\"]: "@
            + described_text(fs[fs.len() - 1].1) + ","@
    }
}

/// Converting a type of the configuration keeps what it describes: the
/// annotation of the converted type is the one the configured type
/// describes. Keys stay keys and values stay values, items stay items, and
/// fields keep their names and order.
pub proof fn lemma_converts_keeps_annotation(a: Type, h: hir::Type)
    requires
        converts(a, h),
    ensures
        hir::type_text(h) == described_text(a),
    decreases a,
{
    match (a, h) {
        (Type::Array(x), hir::Type::Array(y)) => {
            lemma_converts_keeps_annotation(*x.item, *y.item);
        },
        (Type::SetOf(x), hir::Type::SetOf(y)) => {
            lemma_converts_keeps_annotation(*x.item, *y.item);
        },
        (Type::MapOf(x), hir::Type::MapOf(y)) => {
            lemma_converts_keeps_annotation(*x.index, *y.index);
            lemma_converts_keeps_annotation(*x.value, *y.value);
        },
        (Type::Struct(x), hir::Type::Struct(y)) => {
            lemma_fields_keep_annotation(x.fields@, y.fields@);
        },
        _ => {},
    }
}

proof fn lemma_fields_keep_annotation(a: Seq<(String, Type)>, h: Seq<(String, hir::Type)>)
    requires
        fields_convert(a, h),
    ensures
        hir::struct_fields_text(h) == described_fields_text(a),
    decreases a,
{
    if a.len() > 0 {
        lemma_fields_keep_annotation(a.subrange(0, a.len() - 1), h.subrange(0, h.len() - 1));
        lemma_converts_keeps_annotation(a[a.len() - 1].1, h[h.len() - 1].1);
    }
}

} // verus!

