//! The high-level representation of a configuration: tables of events,
//! the types of their data, and the remotes that events go through.
use vstd::prelude::*;
use crate::num::Num;
use crate::options::Options;
use crate::shared::{NetworkSide, NumberKind, Range, Remote};
use crate::text::{nat_text, push_char};

verus! {

pub struct Hir {
    pub table: Table,
}

pub struct Table {
    pub items: Vec<(String, Item)>,
}

pub enum Item {
    Table(Table),
    Event(Event),
}

pub struct Event {
    pub opts: Options,
    pub thru: Remote,
    pub from: NetworkSide,
    pub data: Vec<Type>,
}

pub enum Type {
    Boolean(BooleanType),
    Number(NumberType),
    Vector(VectorType),
    BinaryString(BinaryStringType),
    Utf8String(Utf8StringType),
    Array(ArrayType),
    SetOf(SetType),
    MapOf(MapType),
    Enum(EnumType),
    Struct(StructType),
}

#[derive(Clone, Copy, PartialEq, Eq, Structural, Debug)]
pub struct BooleanType;

#[derive(Clone, Copy, PartialEq, Eq, Structural, Debug)]
pub struct NumberType {
    pub kind: NumberKind,
    pub range: Range,
}

#[derive(Clone, Copy, PartialEq, Eq, Structural, Debug)]
pub struct VectorType {
    pub x: NumberType,
    pub y: NumberType,
    pub z: Option<NumberType>,
}

#[derive(Clone, Copy, PartialEq, Eq, Structural, Debug)]
pub struct BinaryStringType {
    pub len: Length,
}

#[derive(Clone, Copy, PartialEq, Eq, Structural, Debug)]
pub struct Utf8StringType {
    pub len: Length,
}

pub struct ArrayType {
    pub len: Length,
    pub item: Box<Type>,
}

pub struct SetType {
    pub len: Length,
    pub item: Box<Type>,
}

pub struct MapType {
    pub len: Length,
    pub index: Box<Type>,
    pub value: Box<Type>,
}

pub struct EnumType {
    pub variants: Vec<String>,
    pub number: NumberType,
}

pub struct StructType {
    pub fields: Vec<(String, Type)>,
}

/// The bounds of a length: at least `min`, at most `max` when there is one.
#[derive(Clone, Copy, PartialEq, Eq, Structural, Debug)]
pub struct Length {
    pub min: u32,
    pub max: Option<u32>,
}

/// The kind that counts up to `max` (no bound: up to `u32::MAX`) are written
/// as: the smallest unsigned one.
pub open spec fn kind_for_max(max: int) -> NumberKind {
    if max <= 255 {
        NumberKind::U8
    } else if max <= 65535 {
        NumberKind::U16
    } else {
        NumberKind::U32
    }
}

impl Length {
    /// The length when it is fixed.
    pub open spec fn spec_exact(self) -> Option<u32> {
        match self.max {
            Some(max) => if self.min == max {
                Some(max)
            } else {
                None
            },
            None => None,
        }
    }

    /// The length when it is fixed: the maximum, when it equals the minimum.
    pub fn exact(&self) -> (r: Option<u32>)
        ensures
            r == self.spec_exact(),
    {
        match self.max {
            Some(max) => if self.min == max {
                Some(max)
            } else {
                None
            },
            None => None,
        }
    }

    pub open spec fn spec_kind(self) -> NumberKind {
        kind_for_max(
            match self.max {
                Some(m) => m as int,
                None => u32::MAX as int,
            },
        )
    }

    /// The kind that the length is written as.
    pub fn kind(&self) -> (r: NumberKind)
        ensures
            r == self.spec_kind(),
    {
        let max = match self.max {
            Some(m) => m,
            None => u32::MAX,
        };
        if max <= 255 {
            NumberKind::U8
        } else if max <= 65535 {
            NumberKind::U16
        } else {
            NumberKind::U32
        }
    }

    /// The bounds as a range of numbers.
    pub fn range(&self) -> (r: Range)
        ensures
            r.min == Some(Num::Finite { neg: false, digits: self.min as u64, exp: 0 }),
            r.max == match self.max {
                Some(m) => Some(Num::Finite { neg: false, digits: m as u64, exp: 0 }),
                None => None,
            },
    {
        Range {
            min: Some(Num::from_u64(self.min as u64)),
            max: match self.max {
                Some(m) => Some(Num::from_u64(m as u64)),
                None => None,
            },
        }
    }
}

} // verus!

verus! {

/// The Luau type annotation of a type.
pub open spec fn type_text(t: Type) -> Seq<char>
    decreases t,
{
    match t {
        Type::Boolean(_) => "boolean"@,
        Type::Number(_) => "number"@,
        Type::Vector(_) => "vector"@,
        Type::BinaryString(_) => "string"@,
        Type::Utf8String(_) => "string"@,
        Type::Array(a) => "{ "@ + type_text(*a.item) + " }"@,
        Type::SetOf(s) => "{ ["@ + type_text(*s.item) + "]: boolean }"@,
        Type::MapOf(m) => "{ ["@ + type_text(*m.index) + "]: "@ + type_text(*m.value) + " }"@,
        Type::Enum(e) => "("@ + variants_text(e.variants@) + ")"@,
        Type::Struct(s) => "{"@ + struct_fields_text(s.fields@) + "}"@,
    }
}

/// `| <variant>` for each variant.
pub open spec fn variants_text(vs: Seq<String>) -> Seq<char>
    decreases vs.len(),
{
    if vs.len() == 0 {
        seq![]
    } else {
        variants_text(vs.drop_last()) + "| "@ + vs.last()@
    }
}

/// `["<name>"]: <type>,` for each field.
pub open spec fn struct_fields_text(fs: Seq<(String, Type)>) -> Seq<char>
    decreases fs,
{
    if fs.len() == 0 {
        seq![]
    } else {
        struct_fields_text(fs.subrange(0, fs.len() - 1)) + "[\""@ + fs[fs.len() - 1].0@ + "\"]: "@
            + type_text(fs[fs.len() - 1].1) + ","@
    }
}

/// Appends the type annotation of `t`.
pub fn push_type(s: &mut String, t: &Type)
    ensures
        final(s)@ == old(s)@ + type_text(*t),
    decreases t,
{
    let ghost s0 = s@;
    match t {
        Type::Boolean(_) => s.append("boolean"),
        Type::Number(_) => s.append("number"),
        Type::Vector(_) => s.append("vector"),
        Type::BinaryString(_) => s.append("string"),
        Type::Utf8String(_) => s.append("string"),
        Type::Array(a) => {
            s.append("{ ");
            push_type(s, &a.item);
            s.append(" }");
        },
        Type::SetOf(st) => {
            s.append("{ [");
            push_type(s, &st.item);
            s.append("]: boolean }");
        },
        Type::MapOf(m) => {
            s.append("{ [");
            push_type(s, &m.index);
            s.append("]: ");
            push_type(s, &m.value);
            s.append(" }");
        },
        Type::Enum(e) => {
            s.append("(");
            let mut i: usize = 0;
            while i < e.variants.len()
                invariant
                    i <= e.variants@.len(),
                    s@ == s0 + "("@ + variants_text(e.variants@.subrange(0, i as int)),
                decreases e.variants.len() - i,
            {
                s.append("| ");
                s.append(e.variants[i].as_str());
                assert(e.variants@.subrange(0, i + 1).drop_last() =~= e.variants@.subrange(
                    0,
                    i as int,
                ));
                i += 1;
            }
            s.append(")");
            assert(e.variants@.subrange(0, e.variants@.len() as int) =~= e.variants@);
        },
        Type::Struct(st) => {
            s.append("{");
            push_struct_fields(s, &st.fields);
            s.append("}");
        },
    }
    assert(s@ =~= s0 + type_text(*t));
}

fn push_struct_fields(s: &mut String, fs: &Vec<(String, Type)>)
    ensures
        final(s)@ == old(s)@ + struct_fields_text(fs@),
    decreases fs,
{
    let ghost s0 = s@;
    let mut i: usize = 0;
    while i < fs.len()
        invariant
            i <= fs@.len(),
            s@ == s0 + struct_fields_text(fs@.subrange(0, i as int)),
        decreases fs.len() - i,
    {
        s.append("[\"");
        s.append(fs[i].0.as_str());
        s.append("\"]: ");
        push_type(s, &fs[i].1);
        s.append(",");
        assert(fs@.subrange(0, i + 1).subrange(0, i as int) =~= fs@.subrange(0, i as int));
        assert(s@ =~= s0 + struct_fields_text(fs@.subrange(0, i + 1)));
        i += 1;
    }
    assert(fs@.subrange(0, fs@.len() as int) =~= fs@);
}

impl Type {
    /// The Luau type annotation of the type.
    pub fn annotation(&self) -> (r: String)
        ensures
            r@ == type_text(*self),
    {
        let mut s = String::new();
        push_type(&mut s, self);
        s
    }
}

} // verus!

verus! {

/// A path and the event at it, as values.
pub open spec fn pair_view(p: (String, &Event)) -> (Seq<char>, Event) {
    (p.0@, *p.1)
}

pub open spec fn pairs_view(s: Seq<(String, &Event)>) -> Seq<(Seq<char>, Event)> {
    s.map_values(|p: (String, &Event)| pair_view(p))
}

/// Every event below `item`, with its path: the names from the root, each
/// after a `.`, in the order the tables list them.
pub open spec fn item_events(item: Item, path: Seq<char>) -> Seq<(Seq<char>, Event)>
    decreases item,
{
    match item {
        Item::Table(t) => items_events(t.items@, path),
        Item::Event(e) => seq![(path, e)],
    }
}

pub open spec fn items_events(items: Seq<(String, Item)>, path: Seq<char>) -> Seq<
    (Seq<char>, Event),
>
    decreases items,
{
    if items.len() == 0 {
        seq![]
    } else {
        let last = items[items.len() - 1];
        items_events(items.subrange(0, items.len() - 1), path) + item_events(
            last.1,
            path + "."@ + last.0@,
        )
    }
}

fn collect_events<'a>(items: &'a Vec<(String, Item)>, path: &str, out: &mut Vec<(String, &'a Event)>)
    ensures
        pairs_view(final(out)@) == pairs_view(old(out)@) + items_events(items@, path@),
    decreases items,
{
    let ghost o0 = pairs_view(out@);
    let mut i: usize = 0;
    while i < items.len()
        invariant
            i <= items@.len(),
            pairs_view(out@) == o0 + items_events(items@.subrange(0, i as int), path@),
        decreases items.len() - i,
    {
        let mut p = String::new();
        p.append(path);
        p.append(".");
        p.append(items[i].0.as_str());
        assert(p@ =~= path@ + "."@ + items@[i as int].0@);
        let ghost before = pairs_view(out@);
        let ghost it = items@[i as int];
        let ghost pv = p@;
        match &items[i].1 {
            Item::Table(t) => {
                collect_events(&t.items, p.as_str(), out);
                assert(item_events(it.1, pv) == items_events(t.items@, pv));
            },
            Item::Event(e) => {
                out.push((p, e));
                assert(pairs_view(out@) =~= before + seq![pair_view((p, e))]);
                assert(item_events(it.1, pv) == seq![(pv, *e)]);
            },
        }
        assert(pairs_view(out@) == before + item_events(it.1, pv));
        assert(items@.subrange(0, i + 1)[i as int] == it);
        assert(items@.subrange(0, i + 1).subrange(0, i as int) =~= items@.subrange(0, i as int));
        assert(pairs_view(out@) =~= o0 + items_events(items@.subrange(0, i + 1), path@));
        i += 1;
    }
    assert(items@.subrange(0, items@.len() as int) =~= items@);
}

/// The remotes that the events go through, each once, in the order of
/// their first event.
pub open spec fn remotes_of(s: Seq<(Seq<char>, Event)>) -> Seq<Remote>
    decreases s.len(),
{
    if s.len() == 0 {
        seq![]
    } else {
        let rs = remotes_of(s.drop_last());
        if rs.contains(s.last().1.thru) {
            rs
        } else {
            rs.push(s.last().1.thru)
        }
    }
}

/// The events that go through `r`, in order.
pub open spec fn events_thru(s: Seq<(Seq<char>, Event)>, r: Remote) -> Seq<(Seq<char>, Event)>
    decreases s.len(),
{
    if s.len() == 0 {
        seq![]
    } else if s.last().1.thru == r {
        events_thru(s.drop_last(), r).push(s.last())
    } else {
        events_thru(s.drop_last(), r)
    }
}

/// The events of a configuration grouped by remote: one bucket per remote,
/// in the order of the remotes' first events, holding that remote's events
/// in order.
pub open spec fn spec_buckets(hir: Hir) -> Seq<(Remote, Seq<(Seq<char>, Event)>)> {
    let evs = items_events(hir.table.items@, seq![]);
    remotes_of(evs).map_values(|r: Remote| (r, events_thru(evs, r)))
}

/// The buckets as values.
pub open spec fn buckets_view(b: Seq<(Remote, Vec<(String, &Event)>)>) -> Seq<
    (Remote, Seq<(Seq<char>, Event)>),
> {
    b.map_values(|x: (Remote, Vec<(String, &Event)>)| (x.0, pairs_view(x.1@)))
}

proof fn lemma_remotes_distinct(s: Seq<(Seq<char>, Event)>)
    ensures
        remotes_of(s).no_duplicates(),
    decreases s.len(),
{
    if s.len() > 0 {
        lemma_remotes_distinct(s.drop_last());
    }
}

proof fn lemma_thru_all(s: Seq<(Seq<char>, Event)>, r: Remote)
    ensures
        forall|j: int| 0 <= j < events_thru(s, r).len() ==> #[trigger] events_thru(s, r)[j].1.thru == r,
    decreases s.len(),
{
    if s.len() > 0 {
        lemma_thru_all(s.drop_last(), r);
    }
}

proof fn lemma_thru_has(s: Seq<(Seq<char>, Event)>, i: int)
    requires
        0 <= i < s.len(),
    ensures
        events_thru(s, s[i].1.thru).contains(s[i]),
    decreases s.len(),
{
    let r = s[i].1.thru;
    if i < s.len() - 1 {
        lemma_thru_has(s.drop_last(), i);
        assert(s.drop_last()[i] == s[i]);
        let t = events_thru(s.drop_last(), r);
        let k = choose|k: int| 0 <= k < t.len() && t[k] == s[i];
        if s.last().1.thru == r {
            assert(t.push(s.last())[k] == s[i]);
        }
    } else {
        let t = events_thru(s.drop_last(), r);
        assert(t.push(s.last())[t.len() as int] == s[i]);
    }
}

proof fn lemma_remote_listed(s: Seq<(Seq<char>, Event)>, i: int)
    requires
        0 <= i < s.len(),
    ensures
        remotes_of(s).contains(s[i].1.thru),
    decreases s.len(),
{
    let rs = remotes_of(s.drop_last());
    if i < s.len() - 1 {
        lemma_remote_listed(s.drop_last(), i);
        assert(s.drop_last()[i] == s[i]);
        if !rs.contains(s.last().1.thru) {
            let k = choose|k: int| 0 <= k < rs.len() && rs[k] == s[i].1.thru;
            assert(rs.push(s.last().1.thru)[k] == s[i].1.thru);
        }
    } else {
        if !rs.contains(s.last().1.thru) {
            assert(rs.push(s.last().1.thru)[rs.len() as int] == s[i].1.thru);
        }
    }
}

/// `e` is in the bucket of its remote.
pub open spec fn in_bucket(b: Seq<(Remote, Seq<(Seq<char>, Event)>)>, e: (Seq<char>, Event)) -> bool {
    exists|k: int| 0 <= k < b.len() && b[k].0 == e.1.thru && #[trigger] b[k].1.contains(e)
}

/// The buckets split the events of a configuration by remote: each bucket
/// holds only events of its remote, every event is in the bucket of its
/// remote, and no two buckets have the same remote.
pub proof fn lemma_buckets_partition(hir: Hir)
    ensures
        forall|k: int, j: int|
            0 <= k < spec_buckets(hir).len() && 0 <= j < spec_buckets(hir)[k].1.len()
                ==> #[trigger] spec_buckets(hir)[k].1[j].1.thru == spec_buckets(hir)[k].0,
        forall|i: int|
            0 <= i < items_events(hir.table.items@, seq![]).len() ==> in_bucket(
                spec_buckets(hir),
                #[trigger] items_events(hir.table.items@, seq![])[i],
            ),
        forall|k1: int, k2: int|
            0 <= k1 < k2 < spec_buckets(hir).len() ==> #[trigger] spec_buckets(hir)[k1].0
                != #[trigger] spec_buckets(hir)[k2].0,
{
    let evs = items_events(hir.table.items@, seq![]);
    let b = spec_buckets(hir);
    let rs = remotes_of(evs);
    assert forall|k: int, j: int| 0 <= k < b.len() && 0 <= j < b[k].1.len() implies #[trigger] b[k].1[j].1.thru == b[k].0 by {
        lemma_thru_all(evs, rs[k]);
    }
    assert forall|i: int| 0 <= i < evs.len() implies in_bucket(b, #[trigger] evs[i]) by {
        lemma_remote_listed(evs, i);
        lemma_thru_has(evs, i);
        let k = choose|k: int| 0 <= k < rs.len() && rs[k] == evs[i].1.thru;
        assert(b.len() == rs.len());
        assert(b[k] == (rs[k], events_thru(evs, rs[k])));
        assert(b[k].1.contains(evs[i]));
    }
    lemma_remotes_distinct(evs);
}

/// How many times `e` occurs in `s`.
pub open spec fn occurrences(s: Seq<(Seq<char>, Event)>, e: (Seq<char>, Event)) -> nat
    decreases s.len(),
{
    if s.len() == 0 {
        0
    } else {
        occurrences(s.drop_last(), e) + if s.last() == e {
            1nat
        } else {
            0nat
        }
    }
}

proof fn lemma_thru_occurrences(s: Seq<(Seq<char>, Event)>, r: Remote, e: (Seq<char>, Event))
    ensures
        occurrences(events_thru(s, r), e) == if e.1.thru == r {
            occurrences(s, e)
        } else {
            0
        },
    decreases s.len(),
{
    if s.len() > 0 {
        lemma_thru_occurrences(s.drop_last(), r, e);
        let t = events_thru(s.drop_last(), r);
        if s.last().1.thru == r {
            assert(t.push(s.last()).drop_last() =~= t);
        }
    }
}

/// Every event is in the buckets exactly as often as in the configuration:
/// that many times in the bucket of its remote, and in no other.
pub proof fn lemma_buckets_exact(hir: Hir, e: (Seq<char>, Event))
    ensures
        forall|k: int|
            0 <= k < spec_buckets(hir).len() ==> occurrences(#[trigger] spec_buckets(hir)[k].1, e) == if spec_buckets(
                hir,
            )[k].0 == e.1.thru {
                occurrences(items_events(hir.table.items@, seq![]), e)
            } else {
                0
            },
{
    let evs = items_events(hir.table.items@, seq![]);
    let rs = remotes_of(evs);
    assert forall|k: int| 0 <= k < spec_buckets(hir).len() implies occurrences(#[trigger] spec_buckets(hir)[k].1, e)
        == if spec_buckets(hir)[k].0 == e.1.thru {
        occurrences(evs, e)
    } else {
        0
    } by {
        assert(spec_buckets(hir)[k] == (rs[k], events_thru(evs, rs[k])));
        lemma_thru_occurrences(evs, rs[k], e);
    }
}

impl Hir {
    /// The events grouped by remote.
    pub fn buckets<'a>(&'a self) -> (r: Vec<(Remote, Vec<(String, &'a Event)>)>)
        ensures
            buckets_view(r@) == spec_buckets(*self),
            remotes_of(items_events(self.table.items@, seq![])).no_duplicates(),
    {
        let mut evs: Vec<(String, &'a Event)> = Vec::new();
        collect_events(&self.table.items, "", &mut evs);
        assert(pairs_view(Seq::<(String, &Event)>::empty()) =~= seq![]);
        assert(""@ =~= Seq::<char>::empty()) by {
            reveal_strlit("");
        }
        let ghost all = pairs_view(evs@);
        assert(all == items_events(self.table.items@, seq![]));
        // the remotes, in the order of their first event
        let mut keys: Vec<Remote> = Vec::new();
        let mut i: usize = 0;
        while i < evs.len()
            invariant
                i <= evs@.len(),
                all == pairs_view(evs@),
                keys@ == remotes_of(all.subrange(0, i as int)),
            decreases evs.len() - i,
        {
            let r = evs[i].1.thru;
            let mut found = false;
            let mut k: usize = 0;
            while k < keys.len()
                invariant
                    k <= keys@.len(),
                    found == (exists|j: int| 0 <= j < k && #[trigger] keys@[j] == r),
                decreases keys.len() - k,
            {
                if keys[k] == r {
                    found = true;
                }
                k += 1;
            }
            assert(found == keys@.contains(r));
            assert(all.subrange(0, i + 1).drop_last() =~= all.subrange(0, i as int));
            assert(all.subrange(0, i + 1).last() == all[i as int]);
            if !found {
                keys.push(r);
            }
            i += 1;
        }
        assert(all.subrange(0, all.len() as int) =~= all);
        // each remote with its events
        let mut out: Vec<(Remote, Vec<(String, &'a Event)>)> = Vec::new();
        let mut k: usize = 0;
        while k < keys.len()
            invariant
                k <= keys@.len(),
                all == pairs_view(evs@),
                keys@ == remotes_of(all),
                buckets_view(out@) == keys@.subrange(0, k as int).map_values(
                    |r: Remote| (r, events_thru(all, r)),
                ),
            decreases keys.len() - k,
        {
            let r = keys[k];
            let mut bucket: Vec<(String, &'a Event)> = Vec::new();
            let mut j: usize = 0;
            while j < evs.len()
                invariant
                    j <= evs@.len(),
                    all == pairs_view(evs@),
                    pairs_view(bucket@) == events_thru(all.subrange(0, j as int), r),
                decreases evs.len() - j,
            {
                let ghost before = pairs_view(bucket@);
                assert(all.subrange(0, j + 1).drop_last() =~= all.subrange(0, j as int));
                assert(all.subrange(0, j + 1).last() == all[j as int]);
                if evs[j].1.thru == r {
                    let p = evs[j].0.clone();
                    bucket.push((p, evs[j].1));
                    assert(pairs_view(bucket@) =~= before.push(all[j as int]));
                }
                j += 1;
            }
            assert(all.subrange(0, all.len() as int) =~= all);
            let ghost before = buckets_view(out@);
            out.push((r, bucket));
            assert(buckets_view(out@) =~= before.push((r, events_thru(all, r))));
            assert(keys@.subrange(0, k + 1).map_values(|r: Remote| (r, events_thru(all, r)))
                =~= keys@.subrange(0, k as int).map_values(
                |r: Remote| (r, events_thru(all, r)),
            ).push((r, events_thru(all, r))));
            k += 1;
        }
        assert(keys@.subrange(0, keys@.len() as int) =~= keys@);
        proof {
            lemma_remotes_distinct(all);
        }
        out
    }
}

} // verus!
