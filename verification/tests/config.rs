use std::rc::Rc;

use zap::api;
use zap::hir::{self, Length, Type};
use zap::num::Num;
use zap::options::{self, Node, Partial};
use zap::shared::{self, ApiCheck, Casing, NetworkSide, NumberKind, Range, Remote};
use zap::size::{Size, try_size_of};

#[test]
fn casing_formats_words() {
    assert_eq!(Casing::Lower.fmt("foo bar baz"), "foobarbaz");
    assert_eq!(Casing::Snake.fmt("foo bar baz"), "foo_bar_baz");
    assert_eq!(Casing::Camel.fmt("foo bar baz"), "fooBarBaz");
    assert_eq!(Casing::Pascal.fmt("foo bar baz"), "FooBarBaz");
    assert_eq!(Casing::Pascal.fmt("iter"), "Iter");
    assert_eq!(Casing::Camel.fmt("iter"), "iter");
}

#[test]
fn shared_options_fall_back_to_parent_then_default() {
    let root = shared::Options::new();
    assert_eq!(root.apicheck(), ApiCheck::Basic);
    assert_eq!(root.casing(), Casing::Lower);
    let parent = Rc::new(shared::Options::new().with_apicheck(ApiCheck::Full));
    let child = shared::Options::new().with_casing(Casing::Snake).with_parent(parent);
    assert_eq!(child.apicheck(), ApiCheck::Full);
    assert_eq!(child.casing(), Casing::Snake);
}

#[test]
fn own_option_wins_over_parent() {
    let parent = Rc::new(shared::Options::new().with_apicheck(ApiCheck::Full));
    let child = shared::Options::new().with_apicheck(ApiCheck::Off).with_parent(parent);
    assert_eq!(child.apicheck(), ApiCheck::Off);
}

#[test]
fn node_resolves_through_its_parents() {
    let mut grand = Node::from(Partial { apicheck: Some(ApiCheck::Off), casing: None });
    let mut parent = Node::from(Partial { apicheck: None, casing: Some(Casing::Camel) });
    let mut child = Node::from(Partial { apicheck: None, casing: None });
    grand.set_parent(Node::from(Partial::default()));
    parent.set_parent(grand);
    child.set_parent(parent);
    assert_eq!(
        child.resolved(),
        options::Options { apicheck: ApiCheck::Off, casing: Casing::Camel }
    );
    let mut lone = Node::from(Partial::default());
    assert_eq!(lone.resolved(), options::Options::default());
}

#[test]
fn node_keeps_its_first_resolution() {
    let mut node = Node::from(Partial { apicheck: None, casing: Some(Casing::Pascal) });
    let first = node.resolved();
    assert_eq!(first, options::Options { apicheck: ApiCheck::Basic, casing: Casing::Pascal });
    node.set_parent(Node::from(Partial { apicheck: Some(ApiCheck::Full), casing: None }));
    assert_eq!(node.resolved(), first);
}

#[test]
fn unresolved_node_takes_its_new_parent() {
    let mut node = Node::from(Partial::default());
    node.set_parent(Node::from(Partial { apicheck: Some(ApiCheck::Full), casing: None }));
    assert_eq!(node.resolved().apicheck, ApiCheck::Full);
}

#[test]
fn length_exact_and_kind() {
    assert_eq!(Length { min: 3, max: Some(3) }.exact(), Some(3));
    assert_eq!(Length { min: 2, max: Some(3) }.exact(), None);
    assert_eq!(Length { min: 0, max: None }.exact(), None);
    assert_eq!(Length { min: 0, max: Some(255) }.kind(), NumberKind::U8);
    assert_eq!(Length { min: 0, max: Some(256) }.kind(), NumberKind::U16);
    assert_eq!(Length { min: 0, max: Some(65536) }.kind(), NumberKind::U32);
    assert_eq!(Length { min: 0, max: None }.kind(), NumberKind::U32);
}

#[test]
fn number_kind_sizes() {
    assert_eq!(NumberKind::U8.size(), 1);
    assert_eq!(NumberKind::I16.size(), 2);
    assert_eq!(NumberKind::U24.size(), 4);
    assert_eq!(NumberKind::F32.size(), 4);
    assert_eq!(NumberKind::NaNF64.size(), 8);
}

#[test]
fn sizes_of_types() {
    let s = try_size_of(&Type::Array(hir::ArrayType {
        len: Length { min: 1, max: Some(4) },
        item: Box::new(Type::Number(hir::NumberType {
            kind: NumberKind::U16,
            range: Range { min: None, max: None },
        })),
    }))
    .unwrap();
    assert_eq!(s, Size { min: 3, max: Some(9) });
    assert_eq!(s.is_exact(), None);
    assert_eq!(Size::from_u32(5).is_exact(), Some(5));
    let open = try_size_of(&Type::Utf8String(hir::Utf8StringType { len: Length { min: 2, max: None } }))
        .unwrap();
    assert_eq!(open, Size { min: 6, max: None });
    assert!(open.gt(&s));
    assert!(!s.gt(&open));
    assert_eq!(s.larger(open), open);
}

#[test]
fn numbers_as_u32() {
    assert_eq!(Num::Finite { neg: false, digits: 37, exp: -1 }.to_u32(), 3);
    assert_eq!(Num::Finite { neg: true, digits: 1, exp: 0 }.to_u32(), 0);
    assert_eq!(Num::Finite { neg: false, digits: 5, exp: 9 }.to_u32(), u32::MAX);
    assert_eq!(Num::Finite { neg: false, digits: 42, exp: 2 }.to_u32(), 4200);
    assert_eq!(Num::Finite { neg: false, digits: 7, exp: -400 }.to_u32(), 0);
    assert_eq!(Num::NaN.to_u32(), 0);
    assert_eq!(Num::Inf { neg: false }.to_u32(), u32::MAX);
    assert_eq!(Num::Inf { neg: true }.to_u32(), 0);
}

#[test]
fn numbers_print_like_f64() {
    let cases = [
        (Num::from_u64(1024), "1024"),
        (Num::from_i64(-7), "-7"),
        (Num::Finite { neg: false, digits: 15, exp: -1 }, "1.5"),
        (Num::Finite { neg: false, digits: 5, exp: -3 }, "0.005"),
        (Num::Finite { neg: true, digits: 25, exp: 2 }, "-2500"),
        (Num::Inf { neg: true }, "-inf"),
        (Num::NaN, "NaN"),
    ];
    for (n, text) in cases {
        let mut s = String::new();
        zap::num::push_num(&mut s, &n);
        assert_eq!(s, text);
    }
}

#[test]
fn remote_names_are_hyphenated_uuids() {
    let r = Remote { uuid: 0x0123456789abcdef0123456789abcdef };
    assert_eq!(r.name(), "01234567-89ab-cdef-0123-456789abcdef");
    let fresh = Remote::new().name();
    assert_eq!(fresh.len(), 36);
    assert_eq!(&fresh[14..15], "4");
    assert!(matches!(&fresh[19..20], "8" | "9" | "a" | "b"));
    assert_ne!(Remote::new(), Remote::new());
}

#[test]
fn option_strings_are_parsed() {
    assert_eq!(api::parse_apicheck("none"), Ok(ApiCheck::Off));
    assert_eq!(api::parse_apicheck("some"), Ok(ApiCheck::Basic));
    assert_eq!(api::parse_apicheck("full"), Ok(ApiCheck::Full));
    assert_eq!(
        api::parse_apicheck("all"),
        Err("apicheck must be 'none', 'some', or 'full'".to_string())
    );
    assert_eq!(api::parse_casing("pascal"), Ok(Casing::Pascal));
    assert_eq!(
        api::parse_casing("kebab"),
        Err("casing must be 'lower', 'snake', 'camel', or 'pascal'".to_string())
    );
    assert_eq!(api::parse_side("server"), Ok(NetworkSide::Server));
    assert_eq!(api::parse_side("client"), Ok(NetworkSide::Client));
    assert_eq!(api::parse_side("both"), Err("must be 'server' or 'client'".to_string()));
}

#[test]
fn options_entries_set_options_in_order() {
    let entries = vec![
        ("apicheck".to_string(), "full".to_string()),
        ("casing".to_string(), "camel".to_string()),
        ("apicheck".to_string(), "none".to_string()),
    ];
    assert_eq!(
        api::options(&entries),
        Ok(Partial { apicheck: Some(ApiCheck::Off), casing: Some(Casing::Camel) })
    );
    let bad = vec![("color".to_string(), "red".to_string())];
    assert_eq!(api::options(&bad), Err("unknown option: color".to_string()));
    let bad_value = vec![
        ("casing".to_string(), "upper".to_string()),
        ("color".to_string(), "red".to_string()),
    ];
    assert_eq!(
        api::options(&bad_value),
        Err("casing must be 'lower', 'snake', 'camel', or 'pascal'".to_string())
    );
    assert_eq!(api::options(&vec![]), Ok(Partial::default()));
}

fn num(kind: NumberKind) -> api::Type {
    api::Type::Number(api::NumberType { kind, range: Range { min: None, max: None } })
}

#[test]
fn vector_components_are_checked() {
    let ok = api::vector(&num(NumberKind::F32), &num(NumberKind::I16), None);
    assert!(matches!(ok, Ok(api::Type::Vector(api::VectorType { z: None, .. }))));
    let wide = api::vector(&num(NumberKind::F32), &num(NumberKind::F32), Some(&num(NumberKind::F64)));
    assert_eq!(wide.err(), Some("vector components cannot be f64 or nanf64".to_string()));
    let not_number = api::vector(&num(NumberKind::F32), &api::Type::Boolean(api::BooleanType), None);
    assert_eq!(not_number.err(), Some("all vector components must be number types".to_string()));
}

#[test]
fn events_name_their_side() {
    let remote = api::remote();
    let e = remote.event("server", vec![num(NumberKind::U8)]).ok().unwrap();
    assert_eq!(e.from, NetworkSide::Server);
    assert_eq!(e.thru, remote.0);
    assert_eq!(e.data.len(), 1);
    assert_eq!(remote.event("up", vec![]).err(), Some("must be 'server' or 'client'".to_string()));
}

#[test]
fn build_resolves_options_and_converts_types() {
    let remote = Remote { uuid: 7 };
    let inner = api::Table {
        opts: Node::from(Partial { apicheck: None, casing: Some(Casing::Pascal) }),
        items: vec![(
            "hit".to_string(),
            api::Item::Event(api::Event {
                thru: remote,
                from: NetworkSide::Client,
                data: vec![
                    api::Type::BinaryString(api::BinaryStringType {
                        len: Range {
                            min: Some(Num::Finite { neg: false, digits: 15, exp: -1 }),
                            max: None,
                        },
                    }),
                    api::Type::Enum(api::EnumType {
                        variants: vec!["a".to_string(), "b".to_string(), "c".to_string()],
                    }),
                ],
            }),
        )],
        opts_at: 0,
    };
    let root = api::Table {
        opts: Node::from(Partial { apicheck: Some(ApiCheck::Full), casing: None }),
        items: vec![("net".to_string(), api::Item::Table(inner))],
        opts_at: 0,
    };
    let h = api::build(&root);
    let hir::Item::Table(net) = &h.table.items[0].1 else { panic!("table expected") };
    assert_eq!(h.table.items[0].0, "net");
    let hir::Item::Event(e) = &net.items[0].1 else { panic!("event expected") };
    assert_eq!(e.opts, options::Options { apicheck: ApiCheck::Full, casing: Casing::Pascal });
    assert_eq!(e.thru, remote);
    let Type::BinaryString(s) = &e.data[0] else { panic!("string expected") };
    assert_eq!(s.len, Length { min: 1, max: None });
    let Type::Enum(en) = &e.data[1] else { panic!("enum expected") };
    assert_eq!(en.variants, vec!["a".to_string(), "b".to_string(), "c".to_string()]);
    assert_eq!(en.number.kind, NumberKind::U8);
    assert_eq!(en.number.range.max, Some(Num::from_u64(2)));
}

#[test]
fn buckets_group_events_by_remote_in_order() {
    let r1 = Remote { uuid: 1 };
    let r2 = Remote { uuid: 2 };
    let ev = |r: Remote| {
        hir::Item::Event(hir::Event {
            opts: options::Options::default(),
            thru: r,
            from: NetworkSide::Server,
            data: vec![],
        })
    };
    let h = hir::Hir {
        table: hir::Table {
            items: vec![
                ("a".to_string(), ev(r2)),
                ("t".to_string(), hir::Item::Table(hir::Table { items: vec![("b".to_string(), ev(r1))] })),
                ("c".to_string(), ev(r2)),
            ],
        },
    };
    let b = h.buckets();
    assert_eq!(b.len(), 2);
    assert_eq!(b[0].0, r2);
    let paths: Vec<&str> = b[0].1.iter().map(|(p, _)| p.as_str()).collect();
    assert_eq!(paths, vec![".a", ".c"]);
    assert_eq!(b[1].0, r1);
    assert_eq!(b[1].1[0].0, ".t.b");
}

#[test]
fn type_annotations() {
    let t = Type::MapOf(hir::MapType {
        len: Length { min: 0, max: None },
        index: Box::new(Type::Utf8String(hir::Utf8StringType { len: Length { min: 0, max: None } })),
        value: Box::new(Type::SetOf(hir::SetType {
            len: Length { min: 0, max: None },
            item: Box::new(Type::Boolean(hir::BooleanType)),
        })),
    });
    assert_eq!(t.annotation(), "{ [string]: { [boolean]: boolean } }");
}


fn dec(neg: bool, digits: u64, exp: i32) -> Num {
    Num::Finite { neg, digits, exp }
}

fn err_text<T>(r: Result<T, String>) -> String {
    match r {
        Ok(_) => panic!("expected an error"),
        Err(e) => e,
    }
}

#[test]
fn numbers_compare_as_f64() {
    assert!(dec(false, 25, -1).lt(&dec(false, 3, 0)));
    assert!(!dec(false, 3, 0).lt(&dec(false, 25, -1)));
    assert!(dec(false, 3, 0).le(&dec(false, 30, -1)));
    assert!(!dec(false, 3, 0).lt(&dec(false, 30, -1)));
    assert!(dec(true, 5, 0).lt(&dec(false, 0, 0)));
    assert!(dec(true, 0, 0).le(&dec(false, 0, 0)));
    assert!(!dec(true, 0, 0).lt(&dec(false, 0, 0)));
    assert!(dec(true, 3, 0).lt(&dec(true, 25, -1)));
    assert!(dec(false, 1, 30).lt(&Num::Inf { neg: false }));
    assert!(Num::Inf { neg: true }.lt(&dec(true, 1, 30)));
    assert!(!Num::NaN.lt(&dec(false, 1, 0)));
    assert!(!Num::NaN.le(&Num::NaN));
    assert!(!dec(false, 1, 0).le(&Num::NaN));
    assert!(dec(false, 1, 25).lt(&dec(false, 2, 25)));
    assert!(dec(false, 18446744073709551615, 0).lt(&dec(false, 1, 20)));
}

#[test]
fn integer_bounds_are_checked_against_the_kind() {
    let ok = api::number(NumberKind::U8, Some(dec(false, 0, 0)), Some(dec(false, 255, 0)));
    match ok {
        Ok(api::Type::Number(n)) => {
            assert_eq!(n.kind, NumberKind::U8);
            assert_eq!(n.range, Range { min: Some(dec(false, 0, 0)), max: Some(dec(false, 255, 0)) });
        }
        _ => panic!("expected a number type"),
    }
    assert_eq!(
        err_text(api::number(NumberKind::U8, Some(dec(false, 256, 0)), None)),
        "u8 min must be between 0 and 255"
    );
    assert_eq!(
        err_text(api::number(NumberKind::U8, None, Some(dec(true, 1, 0)))),
        "u8 max must be between 0 and 255"
    );
    assert_eq!(
        err_text(api::number(NumberKind::I8, Some(dec(true, 129, 0)), Some(dec(false, 500, 0)))),
        "i8 min must be between -128 and 127"
    );
    assert!(api::number(NumberKind::I8, Some(dec(true, 128, 0)), Some(dec(false, 127, 0))).is_ok());
    assert_eq!(
        err_text(api::number(NumberKind::I32, None, Some(dec(false, 2147483648, 0)))),
        "i32 max must be between -2147483648 and 2147483647"
    );
    assert_eq!(
        err_text(api::number(NumberKind::U16, Some(Num::NaN), None)),
        "u16 min must be between 0 and 65535"
    );
    assert_eq!(
        err_text(api::number(NumberKind::U32, Some(dec(false, 5, 0)), Some(dec(false, 45, -1)))),
        "min must be less than or equal to max"
    );
    assert!(api::number(NumberKind::U24, Some(dec(false, 5, -1)), Some(dec(false, 5, -1))).is_ok());
}

#[test]
fn float_bounds_are_only_ordered() {
    assert!(api::number(NumberKind::F64, Some(dec(true, 1, 300)), Some(Num::Inf { neg: false })).is_ok());
    assert!(api::number(NumberKind::NaNF32, Some(Num::NaN), Some(dec(true, 1, 0))).is_ok());
    assert_eq!(
        err_text(api::number(NumberKind::F32, Some(dec(false, 2, 0)), Some(dec(false, 1, 0)))),
        "min must be less than or equal to max"
    );
}

#[test]
fn length_bounds_are_checked() {
    assert_eq!(
        api::length(Some(dec(false, 1, 0)), Some(dec(false, 10, 0))),
        Ok(Range { min: Some(dec(false, 1, 0)), max: Some(dec(false, 10, 0)) })
    );
    assert_eq!(api::length(None, None), Ok(Range { min: None, max: None }));
    assert_eq!(
        api::length(Some(dec(true, 5, -1)), None),
        Err("length min cannot be negative".to_string())
    );
    assert_eq!(
        api::length(Some(dec(true, 5, -1)), Some(dec(true, 1, 0))),
        Err("length min cannot be negative".to_string())
    );
    assert_eq!(
        api::length(None, Some(dec(true, 1, 0))),
        Err("length max cannot be negative".to_string())
    );
    assert_eq!(
        api::length(Some(dec(false, 3, 0)), Some(dec(false, 2, 0))),
        Err("min must be less than or equal to max".to_string())
    );
    assert!(api::length(Some(dec(true, 0, 0)), Some(Num::NaN)).is_ok());
}

#[test]
fn number_kinds_have_bounds() {
    assert_eq!(NumberKind::U8.min(), dec(false, 0, 0));
    assert_eq!(NumberKind::U8.max(), dec(false, 255, 0));
    assert_eq!(NumberKind::I16.min(), dec(true, 32768, 0));
    assert_eq!(NumberKind::I32.max(), dec(false, 2147483647, 0));
    assert_eq!(NumberKind::U32.max(), dec(false, 4294967295, 0));
    let f32_max = format!("{:e}", f32::MAX as f64);
    assert_eq!(f32_max, "3.4028234663852886e38");
    assert_eq!(NumberKind::F32.max(), dec(false, 34028234663852886, 22));
    assert_eq!(NumberKind::NaNF32.min(), dec(true, 34028234663852886, 22));
    assert_eq!(format!("{:e}", f64::MIN), "-1.7976931348623157e308");
    assert_eq!(NumberKind::F64.min(), dec(true, 17976931348623157, 292));
    assert_eq!(NumberKind::NaNF64.max(), dec(false, 17976931348623157, 292));
}

#[test]
fn ranges_have_an_exact_value_and_a_kind() {
    assert_eq!(Range::new(Some(dec(false, 4, 0)), Some(dec(false, 40, -1))).exact(), Some(dec(false, 4, 0)));
    assert_eq!(Range::new(Some(dec(false, 4, 0)), Some(dec(false, 5, 0))).exact(), None);
    assert_eq!(Range::new(Some(dec(true, 0, 0)), Some(dec(false, 0, 0))).exact(), Some(dec(true, 0, 0)));
    assert_eq!(Range::new(Some(Num::NaN), Some(Num::NaN)).exact(), None);
    assert_eq!(Range::new(None, None).exact(), None);
    assert_eq!(Range::new(Some(dec(false, 4, 0)), None).exact(), None);
    assert_eq!(Range::new(None, Some(dec(false, 255, 0))).kind(), NumberKind::U8);
    assert_eq!(Range::new(None, Some(dec(false, 2555, -1))).kind(), NumberKind::U16);
    assert_eq!(Range::new(Some(dec(false, 1, 0)), Some(dec(false, 65535, 0))).kind(), NumberKind::U16);
    assert_eq!(Range::new(None, Some(dec(false, 65536, 0))).kind(), NumberKind::U32);
    assert_eq!(Range::new(None, None).kind(), NumberKind::U32);
    assert_eq!(Range::new(None, Some(Num::NaN)).kind(), NumberKind::U32);
    assert_eq!(Range::new(None, Some(dec(true, 1, 0))).kind(), NumberKind::U8);
}

#[test]
fn sizes_add_and_multiply() {
    let s = Size::from_u32(3);
    assert_eq!(s.add_u32(2).is_exact(), Some(5));
    assert_eq!(s.mul_u32(4).is_exact(), Some(12));
    let l = s.mul_length(Length { min: 1, max: Some(5) });
    assert_eq!(l.is_exact(), None);
    assert_eq!(l.add(Size::from_u32(1)).mul_u32(2).is_exact(), None);
    assert_eq!(s.mul_length(Length { min: 2, max: Some(2) }).is_exact(), Some(6));
    assert_eq!(s.mul_length(Length { min: 2, max: None }).is_exact(), None);
}

fn an_event() -> api::Event {
    api::Event { thru: Remote { uuid: 7 }, from: NetworkSide::Client, data: Vec::new() }
}

#[test]
fn table_takes_options_and_items_in_order() {
    let inner = api::table(vec![(api::TableKey::Name("ping".to_string()), api::TableValue::Event(an_event()))]);
    let t = api::table(vec![
        (
            api::TableKey::One,
            api::TableValue::Options(Partial { apicheck: Some(ApiCheck::Off), casing: None }),
        ),
        (api::TableKey::Name("sub".to_string()), api::TableValue::Table(inner)),
        (api::TableKey::Name("pong".to_string()), api::TableValue::Event(an_event())),
    ])
    .unwrap();
    assert_eq!(*t.opts.partial(), Partial { apicheck: Some(ApiCheck::Off), casing: None });
    assert_eq!(t.items.len(), 2);
    assert_eq!(t.items[0].0, "sub");
    assert_eq!(t.items[1].0, "pong");
    match &t.items[0].1 {
        api::Item::Table(sub) => assert_eq!(sub.items[0].0, "ping"),
        api::Item::Event(_) => panic!("expected a table"),
    }
    let empty = api::table(Vec::new()).unwrap();
    assert_eq!(*empty.opts.partial(), Partial::default());
    assert!(empty.items.is_empty());
}

#[test]
fn table_refuses_bad_entries() {
    let msg = |r: Result<api::Table, String>| match r {
        Ok(_) => panic!("expected an error"),
        Err(e) => e,
    };
    assert_eq!(
        msg(api::table(vec![(api::TableKey::One, api::TableValue::Event(an_event()))])),
        "index 1 may only contain options"
    );
    assert_eq!(
        msg(api::table(vec![(api::TableKey::Other, api::TableValue::Event(an_event()))])),
        "item name must be a string"
    );
    assert_eq!(
        msg(api::table(vec![(api::TableKey::Name("foo".to_string()), api::TableValue::Other)])),
        "item foo must be a table or event"
    );
    assert_eq!(
        msg(api::table(vec![(
            api::TableKey::Name("foo".to_string()),
            api::TableValue::Options(Partial::default())
        )])),
        "item foo must be a table or event"
    );
    assert_eq!(
        msg(api::table(vec![
            (api::TableKey::Name("a".to_string()), api::TableValue::Table(Err("inner".to_string()))),
            (api::TableKey::Other, api::TableValue::Other),
        ])),
        "inner"
    );
}

#[test]
fn option_setters_commute() {
    let a = shared::Options::new().with_apicheck(ApiCheck::Full).with_casing(Casing::Snake);
    let b = shared::Options::new().with_casing(Casing::Snake).with_apicheck(ApiCheck::Full);
    assert_eq!(a.apicheck(), b.apicheck());
    assert_eq!(a.casing(), b.casing());
    let c = shared::Options::default().with_casing(Casing::Camel);
    assert_eq!(c.apicheck(), ApiCheck::Basic);
    assert_eq!(c.clone().casing(), Casing::Camel);
}

#[test]
fn casings_relate() {
    let camel = Casing::Camel.fmt("iter all now");
    assert_eq!(camel.to_ascii_lowercase(), Casing::Lower.fmt("iter all now"));
    let mut first_up = camel.clone();
    first_up.replace_range(0..1, &camel[0..1].to_ascii_uppercase());
    assert_eq!(first_up, Casing::Pascal.fmt("iter all now"));
}

#[test]
fn table_read_before_the_options_falls_back_to_the_defaults() {
    let inner = || {
        api::table(vec![(api::TableKey::Name("ping".to_string()), api::TableValue::Event(an_event()))])
    };
    let pascal = Partial { apicheck: Some(ApiCheck::Full), casing: Some(Casing::Pascal) };
    // a named table, then the options
    let before = api::table(vec![
        (api::TableKey::Name("sub".to_string()), api::TableValue::Table(inner())),
        (api::TableKey::One, api::TableValue::Options(pascal)),
        (api::TableKey::Name("pong".to_string()), api::TableValue::Event(an_event())),
    ])
    .unwrap();
    assert_eq!(before.opts_at, 1);
    let h = api::build(&before);
    let hir::Item::Table(sub) = &h.table.items[0].1 else { panic!("table expected") };
    let hir::Item::Event(ping) = &sub.items[0].1 else { panic!("event expected") };
    assert_eq!(ping.opts, options::Options::default());
    let hir::Item::Event(pong) = &h.table.items[1].1 else { panic!("event expected") };
    assert_eq!(pong.opts, options::Options { apicheck: ApiCheck::Full, casing: Casing::Pascal });
    // the options, then a named table
    let after = api::table(vec![
        (api::TableKey::One, api::TableValue::Options(pascal)),
        (api::TableKey::Name("sub".to_string()), api::TableValue::Table(inner())),
    ])
    .unwrap();
    assert_eq!(after.opts_at, 0);
    let h = api::build(&after);
    let hir::Item::Table(sub) = &h.table.items[0].1 else { panic!("table expected") };
    let hir::Item::Event(ping) = &sub.items[0].1 else { panic!("event expected") };
    assert_eq!(ping.opts, options::Options { apicheck: ApiCheck::Full, casing: Casing::Pascal });
}
