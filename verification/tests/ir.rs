use zap::builder::Builder;
use zap::ir::{Block, Expr, FuncK, Instr, Var};
use zap::nums::NumberKind;
use zap::num::Num;
use zap::range::Range;
use zap::serdes::{Des, Ser, des, ser};
use zap::shared::ApiCheck;
use zap::types::{
    ArrayType, BinaryStringType, MapType, NumberType, SetType, StructType, Type, Utf8StringType,
    VectorType,
};

fn whole_num(v: u64) -> Num {
    Num::from_u64(v)
}

fn bounds(min: Option<u64>, max: Option<u64>) -> Range {
    Range { min: min.map(whole_num), max: max.map(whole_num) }
}

fn number(kind: NumberKind, min: Option<u64>, max: Option<u64>) -> NumberType {
    NumberType { kind, range: bounds(min, max) }
}

fn ser_text(t: &Type, apicheck: ApiCheck) -> String {
    let mut b = Builder::new();
    ser(Ser { apicheck }, &mut b, t, Expr::Root);
    b.build().render()
}

fn des_text(t: &Type, check: bool) -> String {
    let mut b = Builder::new();
    let v = des(Des { check }, &mut b, t);
    let out = b.build().render();
    format!("{out}=>v{}", v.var().0)
}

#[test]
fn ir_ser_number_with_all_checks() {
    assert_eq!(ser_text(&Type::Number(number(NumberKind::U8, Some(0), Some(10))), ApiCheck::Full), r#"if not (type(root) == "number") then error("expected number") end;if not ((root >= 0) and (root <= 10)) then error("value out of range [0, 10]") end;if not (root == root) then error("value is nan") end;if pos + 1 > len then resize(1) end;buffer.writeu8(buf, pos, root);pos += 1;"#);
}

#[test]
fn ir_ser_nan_number_without_checks() {
    assert_eq!(ser_text(&Type::Number(number(NumberKind::NaNF32, None, None)), ApiCheck::Off), r#"if pos + 4 > len then resize(4) end;buffer.writef32(buf, pos, root);pos += 4;"#);
}

#[test]
fn ir_ser_fixed_string() {
    let t = Type::BinaryString(BinaryStringType { len: bounds(Some(4), Some(4)) });
    assert_eq!(ser_text(&t, ApiCheck::Basic), r#"if not ((#root) == 4) then error("not equal to 4") end;if pos + 4 > len then resize(4) end;buffer.writestring(buf, pos, root, 4);pos += 4;"#);
}

#[test]
fn ir_ser_counted_utf8_string() {
    let t = Type::Utf8String(Utf8StringType { len: bounds(None, Some(300)) });
    assert_eq!(ser_text(&t, ApiCheck::Full), r#"if not (type(root) == "string") then error("expected string") end;if not utf8.len(root) then error("not a valid utf8 string") end;local v0 = (#root);if not (v0 <= 300) then error("value greater than 300") end;if pos + 2 > len then resize(2) end;buffer.writeu16(buf, pos, v0);pos += 2;if pos + v0 > len then resize(v0) end;buffer.writestring(buf, pos, root, v0);pos += v0;"#);
}

#[test]
fn ir_ser_vector_and_struct() {
    let v = Type::Vector(VectorType {
        x: number(NumberKind::F32, None, None),
        y: number(NumberKind::F32, None, None),
        z: None,
    });
    let t = Type::Struct(StructType { fields: vec![("pos".to_string(), v)] });
    assert_eq!(ser_text(&t, ApiCheck::Off), r#"local v0 = root["pos"];if pos + 4 > len then resize(4) end;buffer.writef32(buf, pos, v0["x"]);pos += 4;if pos + 4 > len then resize(4) end;buffer.writef32(buf, pos, v0["y"]);pos += 4;"#);
}

#[test]
fn ir_ser_array_set_map() {
    let a = Type::Array(ArrayType {
        len: bounds(Some(2), Some(2)),
        item: Box::new(Type::Number(number(NumberKind::U8, None, None))),
    });
    assert_eq!(ser_text(&a, ApiCheck::Off), r#"for v0 = 1, 2 do local v1 = root[v0];if pos + 1 > len then resize(1) end;buffer.writeu8(buf, pos, v1);pos += 1; end;"#);
    let c = Type::Array(ArrayType {
        len: bounds(None, Some(10)),
        item: Box::new(Type::Number(number(NumberKind::U8, None, None))),
    });
    assert_eq!(ser_text(&c, ApiCheck::Off), r#"local v0 = (#root);if pos + 1 > len then resize(1) end;buffer.writeu8(buf, pos, v0);pos += 1;for v1 = 1, v0 do local v2 = root[v1];if pos + 1 > len then resize(1) end;buffer.writeu8(buf, pos, v2);pos += 1; end;"#);
    let s = Type::SetOf(SetType {
        len: bounds(None, None),
        item: Box::new(Type::Number(number(NumberKind::U16, None, None))),
    });
    assert_eq!(ser_text(&s, ApiCheck::Basic), r#"local v0 = pos;pos += 4;local v1 = 0;for v2, v3 in root do v1 = (v1 + 1);if not (v2 == v2) then error("value is nan") end;if pos + 2 > len then resize(2) end;buffer.writeu16(buf, pos, v2);pos += 2; end;buffer.writeu32(buf, v0, v1);"#);
    let m = Type::MapOf(MapType {
        len: bounds(None, Some(3)),
        index: Box::new(Type::Number(number(NumberKind::U8, None, None))),
        value: Box::new(Type::Number(number(NumberKind::I8, None, None))),
    });
    assert_eq!(ser_text(&m, ApiCheck::Off), r#"local v0 = pos;pos += 1;local v1 = 0;for v2, v3 in root do v1 = (v1 + 1);if pos + 1 > len then resize(1) end;buffer.writeu8(buf, pos, v2);pos += 1;if pos + 1 > len then resize(1) end;buffer.writei8(buf, pos, v3);pos += 1; end;buffer.writeu8(buf, v0, v1);"#);
}

#[test]
fn ir_des_number_and_vector() {
    assert_eq!(des_text(&Type::Number(number(NumberKind::I16, Some(1), None)), true), r#"local v0 = buffer.readi16(buf, pos);pos += 2;if not (v0 >= 1) then error("value less than 1") end;if not (v0 == v0) then error("value is nan") end;=>v0"#);
    let v = Type::Vector(VectorType {
        x: number(NumberKind::F32, None, None),
        y: number(NumberKind::F32, None, None),
        z: Some(number(NumberKind::F32, None, None)),
    });
    assert_eq!(des_text(&v, false), r#"local v0 = buffer.readf32(buf, pos);pos += 4;local v1 = buffer.readf32(buf, pos);pos += 4;local v2 = buffer.readf32(buf, pos);pos += 4;local v2 = vector.create(v0, v1, v2);=>v2"#);
}

#[test]
fn ir_des_strings() {
    let t = Type::Utf8String(Utf8StringType { len: bounds(Some(3), Some(3)) });
    assert_eq!(des_text(&t, true), r#"local v0 = buffer.readstring(buf, pos, 3);pos += 3;if not utf8.len(v0) then error("not a valid utf8 string") end;=>v0"#);
    let t = Type::BinaryString(BinaryStringType { len: bounds(Some(1), Some(70000)) });
    assert_eq!(des_text(&t, true), r#"local v0 = buffer.readu32(buf, pos);pos += 4;if not ((v0 >= 1) and (v0 <= 70000)) then error("value out of range [1, 70000]") end;local v1 = buffer.readstring(buf, pos, v0);pos += v0;=>v1"#);
}

#[test]
fn ir_des_collections() {
    let a = Type::Array(ArrayType {
        len: bounds(Some(0), Some(0)),
        item: Box::new(Type::Number(number(NumberKind::U8, None, None))),
    });
    assert_eq!(des_text(&a, false), r#"local v0 = {};for v1 = 1, 0 do local v2 = buffer.readu8(buf, pos);pos += 1;v0[v1] = v2; end;=>v0"#);
    let c = Type::Array(ArrayType {
        len: bounds(None, None),
        item: Box::new(Type::Number(number(NumberKind::U8, None, None))),
    });
    assert_eq!(des_text(&c, false), r#"local v0 = buffer.readu32(buf, pos);pos += 4;local v1 = table.create(v0);for v2 = 1, v0 do local v3 = buffer.readu8(buf, pos);pos += 1;v1[v2] = v3; end;=>v1"#);
    let m = Type::MapOf(MapType {
        len: bounds(None, Some(3)),
        index: Box::new(Type::Number(number(NumberKind::U8, None, None))),
        value: Box::new(Type::Number(number(NumberKind::I8, None, None))),
    });
    assert_eq!(des_text(&m, false), r#"local v0 = buffer.readu8(buf, pos);pos += 1;local v1 = {};for v2 = 1, v0 do local v3 = buffer.readu8(buf, pos);pos += 1;local v4 = buffer.readi8(buf, pos);pos += 1;v1[v3] = v4; end;=>v1"#);
    let s = Type::SetOf(SetType {
        len: bounds(None, Some(3)),
        item: Box::new(Type::Number(number(NumberKind::U8, None, None))),
    });
    assert_eq!(des_text(&s, false), r#"local v0 = buffer.readu8(buf, pos);pos += 1;local v1 = {};for v2 = 1, v0 do local v3 = buffer.readu8(buf, pos);pos += 1;v1[v3] = true; end;=>v1"#);
    let st = Type::Struct(StructType {
        fields: vec![
            ("a".to_string(), Type::Number(number(NumberKind::U8, None, None))),
            ("b".to_string(), Type::Number(number(NumberKind::U8, None, None))),
        ],
    });
    assert_eq!(des_text(&st, false), r#"local v0 = buffer.readu8(buf, pos);pos += 1;local v1 = buffer.readu8(buf, pos);pos += 1;local v2 = { a = v0, b = v1, };=>v2"#);
}

#[test]
fn ir_expressions_print_as_luau() {
    let e = Expr::Root.index(Expr::from_str("tab\t\"q\" é"));
    let blk = Block { instrs: vec![Instr::Expr { into: Var(3), expr: e }] };
    assert_eq!(blk.render(), r#"local v3 = root["tab\t\"q\" \u{e9}"];"#);
    let blk = Block {
        instrs: vec![
            Instr::Expr { into: Var(0), expr: Expr::Array(Box::new(Expr::Number(Num::Finite { neg: true, digits: 0, exp: 0 }))) },
            Instr::WriteK { func: FuncK::from_kind(NumberKind::NaNF64), expr: Expr::Var(Var(0)).len() },
        ],
    };
    assert_eq!(blk.render(), r#"local v0 = {};buffer.writef64(buf, pos, (#v0));pos += 8;"#);
}

#[test]
fn ir_ranges_and_kinds() {
    assert_eq!(bounds(Some(5), Some(5)).exact(), Some(whole_num(5)));
    assert_eq!(bounds(Some(5), None).exact(), None);
    assert_eq!(bounds(None, Some(255)).len_kind(), NumberKind::U8);
    assert_eq!(bounds(None, Some(256)).len_kind(), NumberKind::U16);
    assert_eq!(bounds(None, None).len_kind(), NumberKind::U32);
    assert_eq!(NumberKind::I8.min(), Num::from_i64(-128));
    assert_eq!(NumberKind::U16.max(), whole_num(65535));
    assert_eq!(NumberKind::F64.size(), 8);
    assert_eq!(FuncK::from_kind(NumberKind::NaNF32), FuncK::F32);
    assert_eq!(FuncK::F64.size(), 8);
}

#[test]
fn client_and_server_paths() {
    let c = zap::client::Client { apicheck: ApiCheck::Full, location: "result".to_string() };
    let inner = c.push_location("net");
    assert_eq!(inner.location, "result.net");
    assert_eq!(inner.apicheck, ApiCheck::Full);
    assert_eq!(inner.function("send"), "result.net.send");
    let s = zap::server::Server { apicheck: ApiCheck::Off, location: "result".to_string() };
    assert_eq!(s.push_location("a").push_location("b").function("fire"), "result.a.b.fire");
}

#[test]
fn client_and_server_settings_for_values() {
    let t = Type::Number(number(NumberKind::U8, None, None));
    let c = zap::client::Client { apicheck: ApiCheck::Full, location: String::new() };
    let mut b = Builder::new();
    zap::client::ser(&c, &mut b, &t, Expr::Root);
    assert_eq!(
        b.build().render(),
        r#"if not (type(root) == "number") then error("expected number") end;if not (root == root) then error("value is nan") end;if pos + 1 > len then resize(1) end;buffer.writeu8(buf, pos, root);pos += 1;"#
    );
    let s = zap::server::Server { apicheck: ApiCheck::Full, location: String::new() };
    let t = Type::Number(number(NumberKind::U8, Some(1), Some(2)));
    let mut b = Builder::new();
    let v = zap::server::des(&s, &mut b, &t);
    assert_eq!(v.var().0, 0);
    assert_eq!(b.build().render(), "local v0 = buffer.readu8(buf, pos);pos += 1;");
}

#[test]
fn build_writes_the_root_value() {
    let t = Type::Number(number(NumberKind::U16, Some(3), Some(3)));
    assert_eq!(
        zap::ir::build(&t, zap::ir::Check::Untyped).render(),
        r#"if not (root == 3) then error("not equal to 3") end;if not (root == root) then error("value is nan") end;if pos + 2 > len then resize(2) end;buffer.writeu16(buf, pos, root);pos += 2;"#
    );
    assert_eq!(
        zap::ir::build(&t, zap::ir::Check::Off).render(),
        "if pos + 2 > len then resize(2) end;buffer.writeu16(buf, pos, root);pos += 2;"
    );
}

fn err_of<T>(r: Result<T, String>) -> String {
    match r {
        Ok(_) => panic!("expected an error"),
        Err(e) => e,
    }
}

#[test]
fn runtime_number_bounds() {
    assert!(zap::luau_api::number(NumberKind::U8, Some(whole_num(300)), Some(whole_num(400))).is_ok());
    assert_eq!(err_of(zap::luau_api::number(NumberKind::U8, Some(Num::NaN), None)), "range minimum out of bounds");
    assert_eq!(err_of(zap::luau_api::number(NumberKind::F32, None, Some(Num::NaN))), "range maximum out of bounds");
    assert_eq!(
        err_of(zap::luau_api::number(NumberKind::I32, Some(whole_num(5)), Some(whole_num(4)))),
        "range minimum cannot be greater than maximum"
    );
    match zap::luau_api::number(NumberKind::I16, Some(Num::from_i64(-3)), None) {
        Ok(Type::Number(n)) => {
            assert_eq!(n.kind, NumberKind::I16);
            assert_eq!(n.range, Range { min: Some(Num::from_i64(-3)), max: None });
        }
        _ => panic!("expected a number type"),
    }
}

#[test]
fn runtime_length_bounds() {
    assert_eq!(zap::luau_api::len_range(Some(whole_num(1)), Some(whole_num(2))), Ok(bounds(Some(1), Some(2))));
    assert_eq!(zap::luau_api::len_range(Some(Num::from_i64(-1)), None), Err("length minimum cannot be negative".to_string()));
    assert_eq!(zap::luau_api::len_range(None, Some(Num::from_i64(-1))), Err("length maximum cannot be negative".to_string()));
    assert_eq!(
        zap::luau_api::len_range(Some(whole_num(3)), Some(whole_num(2))),
        Err("length minimum cannot be greater than maximum".to_string())
    );
}

#[test]
fn runtime_vector_components() {
    let f32t = Type::Number(number(NumberKind::F32, None, None));
    let f64t = Type::Number(number(NumberKind::NaNF64, None, None));
    let s = Type::BinaryString(BinaryStringType { len: bounds(None, None) });
    match zap::luau_api::vector(&f32t, &f32t, None) {
        Ok(Type::Vector(v)) => assert!(v.z.is_none()),
        _ => panic!("expected a vector"),
    }
    match zap::luau_api::vector(&f32t, &f32t, Some(&f32t)) {
        Ok(Type::Vector(v)) => assert!(v.z.is_some()),
        _ => panic!("expected a vector"),
    }
    assert_eq!(err_of(zap::luau_api::vector(&f32t, &f64t, None)), "vector components cannot be f64 or NaNF64");
    assert_eq!(err_of(zap::luau_api::vector(&f32t, &s, None)), "all vector components must be number types");
}

#[test]
fn ir_writing_hands_back_and_reading_keeps_one() {
    let t = Type::MapOf(MapType {
        len: bounds(None, Some(3)),
        index: Box::new(Type::Number(number(NumberKind::U8, None, None))),
        value: Box::new(Type::Number(number(NumberKind::I8, None, None))),
    });
    let mut b = Builder::new();
    ser(Ser { apicheck: ApiCheck::Basic }, &mut b, &t, Expr::Root);
    assert_eq!(b.var().init().var().0, 0);
    let mut b = Builder::new();
    let v = des(Des { check: true }, &mut b, &t);
    assert_eq!(v.var().0, 1);
    assert_eq!(b.var().init().var().0, 0);
    assert_eq!(b.var().init().var().0, 2);
}

#[test]
fn types_print_as_luau_annotations() {
    let t = Type::Struct(StructType {
        fields: vec![
            (
                "na\"me".to_string(),
                Type::Array(ArrayType {
                    len: bounds(None, None),
                    item: Box::new(Type::Number(number(NumberKind::U8, None, None))),
                }),
            ),
            (
                "tags".to_string(),
                Type::SetOf(SetType {
                    len: bounds(None, None),
                    item: Box::new(Type::Utf8String(Utf8StringType { len: bounds(None, None) })),
                }),
            ),
            (
                "scores".to_string(),
                Type::MapOf(MapType {
                    len: bounds(None, None),
                    index: Box::new(Type::BinaryString(BinaryStringType { len: bounds(None, None) })),
                    value: Box::new(Type::Vector(VectorType {
                        x: number(NumberKind::F32, None, None),
                        y: number(NumberKind::F32, None, None),
                        z: None,
                    })),
                }),
            ),
        ],
    });
    assert_eq!(
        t.render(),
        r#"{ ["na\"me"]: { number }, ["tags"]: { [string]: unknown }, ["scores"]: { [string]: vector }, }"#
    );
}

#[test]
fn events_of_the_configuration() {
    let e = zap::types::Event {
        name: 7,
        from: zap::types::EventFrom::Client,
        data: vec![Type::Number(number(NumberKind::U8, None, None))],
        reliable: true,
    };
    let item = zap::types::Item::Table(vec![("ping".to_string(), zap::types::Item::Event(e))]);
    match item {
        zap::types::Item::Table(items) => {
            assert_eq!(items.len(), 1);
            match &items[0].1 {
                zap::types::Item::Event(e) => {
                    assert_eq!(e.from, zap::types::EventFrom::Client);
                    assert!(e.reliable);
                }
                _ => panic!("expected an event"),
            }
        }
        _ => panic!("expected a table"),
    }
}

/// Takes out every `if not ... then error("...") end;` check.
fn without_checks(s: &str) -> String {
    let mut out = String::new();
    let mut rest = s;
    while let Some(i) = rest.find("if not ") {
        out.push_str(&rest[..i]);
        let after = &rest[i..];
        let j = after.find("\") end;").unwrap() + "\") end;".len();
        rest = &after[j..];
    }
    out.push_str(rest);
    out
}

#[test]
fn ir_off_level_is_full_without_checks() {
    let t = Type::Struct(StructType {
        fields: vec![
            (
                "names".to_string(),
                Type::Array(ArrayType {
                    len: bounds(Some(1), Some(5)),
                    item: Box::new(Type::Utf8String(Utf8StringType { len: bounds(None, Some(20)) })),
                }),
            ),
            (
                "scores".to_string(),
                Type::MapOf(MapType {
                    len: bounds(None, Some(3)),
                    index: Box::new(Type::Number(number(NumberKind::U8, Some(1), Some(9)))),
                    value: Box::new(Type::Number(number(NumberKind::F64, None, None))),
                }),
            ),
        ],
    });
    let full = ser_text(&t, ApiCheck::Full);
    let off = ser_text(&t, ApiCheck::Off);
    assert!(full.len() > off.len());
    assert_eq!(without_checks(&full), off);
    assert_eq!(without_checks(&ser_text(&t, ApiCheck::Basic)), off);
}

/// The byte width of a buffer function.
fn width(name: &str) -> String {
    match name {
        "u8" | "i8" => "1".to_string(),
        "u16" | "i16" => "2".to_string(),
        "u32" | "i32" | "f32" => "4".to_string(),
        "f64" => "8".to_string(),
        other => other.to_string(),
    }
}

/// The buffer accesses of generated code, in order: the width of each
/// number and `string` for each string written or read at the current
/// position, the width of each place kept for later, and `loop`/`end` for
/// loops.
fn accesses_of(code: &str, word: &str) -> Vec<String> {
    let mut out = Vec::new();
    let mut rest = code;
    loop {
        let mut cands: Vec<(usize, u8)> = Vec::new();
        if let Some(i) = rest.find(word) {
            cands.push((i, 0));
        }
        if let Some(i) = rest.find("for ") {
            cands.push((i, 1));
        }
        if let Some(i) = rest.find(" end;") {
            cands.push((i, 2));
        }
        if let Some(i) = rest.find(" = pos;pos += ") {
            cands.push((i, 3));
        }
        let Some(&(i, kind)) = cands.iter().min() else { break };
        match kind {
            0 => {
                let after = &rest[i + word.len()..];
                let name: String = after.chars().take_while(|c| c.is_ascii_alphanumeric()).collect();
                if after[name.len()..].starts_with("(buf, pos") {
                    out.push(width(&name));
                }
                rest = after;
            }
            1 => {
                out.push("loop".to_string());
                rest = &rest[i + 4..];
            }
            2 => {
                // a loop ends after a statement; an `if` ends after a call
                if rest[..i].ends_with(';') {
                    out.push("end".to_string());
                }
                rest = &rest[i + 5..];
            }
            _ => {
                let after = &rest[i + " = pos;pos += ".len()..];
                let n: String = after.chars().take_while(|c| c.is_ascii_digit()).collect();
                out.push(n);
                rest = after;
            }
        }
    }
    out
}

#[test]
fn ir_written_is_read_back() {
    let t = Type::Struct(StructType {
        fields: vec![
            ("id".to_string(), Type::Number(number(NumberKind::U16, None, None))),
            (
                "tags".to_string(),
                Type::SetOf(SetType {
                    len: bounds(None, Some(10)),
                    item: Box::new(Type::Utf8String(Utf8StringType { len: bounds(None, Some(40)) })),
                }),
            ),
            (
                "grid".to_string(),
                Type::Array(ArrayType {
                    len: bounds(Some(3), Some(3)),
                    item: Box::new(Type::Vector(VectorType {
                        x: number(NumberKind::F32, None, None),
                        y: number(NumberKind::F32, None, None),
                        z: Some(number(NumberKind::I8, None, None)),
                    })),
                }),
            ),
        ],
    });
    for level in [ApiCheck::Off, ApiCheck::Basic, ApiCheck::Full] {
        for check in [false, true] {
            let w = accesses_of(&ser_text(&t, level), "buffer.write");
            let r = accesses_of(&des_text(&t, check), "buffer.read");
            assert_eq!(w, r);
        }
    }
    let r = accesses_of(&des_text(&t, true), "buffer.read");
    assert_eq!(r, vec!["2", "1", "loop", "1", "string", "end", "loop", "4", "4", "1", "end"]);
}
