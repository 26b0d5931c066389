use zap::hir::{
    ArrayType, BinaryStringType, BooleanType, EnumType, Event, Hir, Item, Length, MapType,
    NumberType, SetType, StructType, Table, Type, Utf8StringType, VectorType,
};
use zap::mir::{BinOp, Block, Expr, Instr, Var};
use zap::mir_builder::{Builder, Ctx, Registry};
use zap::mir_serdes::{Des, Ser};
use zap::mir_server::{RecvCtx, SendCtx, interface, server};
use zap::num::Num;
use zap::options::Options;
use zap::shared::{ApiCheck, Casing, NetworkSide, NumberKind, Range, Remote};

fn ctx_builder() -> (Builder, Ctx) {
    let mut b = Builder::new();
    let buf = b.init(Expr::from_u64(0));
    let pos = b.init(Expr::from_u64(0));
    let len = b.init(Expr::from_u64(0));
    (b, Ctx { buf, pos, len })
}

const HEAD: &str = "local v0 = 0;local v1 = 0;local v2 = 0;";

fn opts(apicheck: ApiCheck) -> Options {
    Options { apicheck, casing: Casing::Lower }
}

fn u8_range(min: u64, max: u64) -> NumberType {
    NumberType {
        kind: NumberKind::U8,
        range: Range { min: Some(Num::from_u64(min)), max: Some(Num::from_u64(max)) },
    }
}

fn free_num(kind: NumberKind) -> NumberType {
    NumberType { kind, range: Range { min: None, max: None } }
}

fn emit_ser(t: &Type, apicheck: ApiCheck) -> String {
    let (mut b, ctx) = ctx_builder();
    let ser = Ser { opts: opts(apicheck), native: true };
    let mut maps = Vec::new();
    ser.prep(&mut b, t, &mut maps);
    ser.emit(&mut b, &ctx, t, Expr::Global("x"), &mut maps);
    b.build().render()
}

fn emit_des(t: &Type, check: bool, native: bool) -> (String, u16) {
    let (mut b, ctx) = ctx_builder();
    let des = Des { opts: opts(ApiCheck::Basic), native, check };
    let mut maps = Vec::new();
    des.prep(&mut b, t, &mut maps);
    let v = des.emit(&mut b, &ctx, t, &mut maps);
    let id = v.var().id;
    (b.build().render(), id)
}

#[test]
fn ser_boolean_without_type_check() {
    let out = emit_ser(&Type::Boolean(BooleanType), ApiCheck::Basic);
    assert_eq!(
        out,
        format!("{HEAD}if v1 + 1 >= v2 then v0, v2 = resize(v0, v1, v2, 1)end;buffer.writeu8(v0, v1, bool[x]);v1 += 1;")
    );
}

#[test]
fn ser_number_with_all_checks() {
    let out = emit_ser(&Type::Number(u8_range(0, 10)), ApiCheck::Full);
    let expected = format!(
        "{HEAD}if (not (type(x) == \"number\")) then error(\"value is not of type number\"); else  end;\
         if (not ((x >= 0) and (x <= 10))) then error(\"value out of bounds [0, 10]\"); else  end;\
         if v1 + 1 >= v2 then v0, v2 = resize(v0, v1, v2, 1)end;buffer.writeu8(v0, v1, x);v1 += 1;"
    );
    assert_eq!(out, expected);
}

#[test]
fn ser_number_without_checks() {
    let out = emit_ser(&Type::Number(u8_range(0, 10)), ApiCheck::Off);
    assert_eq!(
        out,
        format!("{HEAD}if v1 + 1 >= v2 then v0, v2 = resize(v0, v1, v2, 1)end;buffer.writeu8(v0, v1, x);v1 += 1;")
    );
}

#[test]
fn ser_fixed_length_string() {
    let t = Type::BinaryString(BinaryStringType { len: Length { min: 4, max: Some(4) } });
    let out = emit_ser(&t, ApiCheck::Off);
    assert_eq!(
        out,
        format!(
            "{HEAD}local v3 = 4;if v1 + v3 >= v2 then v0, v2 = resize(v0, v1, v2, v3)end;\
             buffer.writestring(v0, v1, x, v3);v1 += v3;"
        )
    );
}

#[test]
fn ser_bounded_utf8_string() {
    let t = Type::Utf8String(Utf8StringType { len: Length { min: 0, max: Some(300) } });
    let out = emit_ser(&t, ApiCheck::Basic);
    assert_eq!(
        out,
        format!(
            "{HEAD}if (not utf8.len(x)) then error(\"string is not valid utf8\"); else  end;\
             local v3 = (#x);if (not ((v3 >= 0) and (v3 <= 300))) then error(\"value out of bounds [0, 300]\"); else  end;\
             if v1 + 2 >= v2 then v0, v2 = resize(v0, v1, v2, 2)end;buffer.writeu16(v0, v1, v3);v1 += 2;\
             if v1 + v3 >= v2 then v0, v2 = resize(v0, v1, v2, v3)end;buffer.writestring(v0, v1, x, v3);v1 += v3;"
        )
    );
}

#[test]
fn ser_vector_writes_each_component() {
    let t = Type::Vector(VectorType {
        x: free_num(NumberKind::F32),
        y: free_num(NumberKind::F32),
        z: None,
    });
    let out = emit_ser(&t, ApiCheck::Off);
    assert_eq!(
        out,
        format!(
            "{HEAD}if v1 + 4 >= v2 then v0, v2 = resize(v0, v1, v2, 4)end;buffer.writef32(v0, v1, x[\"x\"]);v1 += 4;\
             if v1 + 4 >= v2 then v0, v2 = resize(v0, v1, v2, 4)end;buffer.writef32(v0, v1, x[\"y\"]);v1 += 4;"
        )
    );
}

#[test]
fn ser_array_loops_over_items() {
    let t = Type::Array(ArrayType {
        len: Length { min: 2, max: Some(2) },
        item: Box::new(Type::Boolean(BooleanType)),
    });
    let out = emit_ser(&t, ApiCheck::Off);
    assert_eq!(
        out,
        format!(
            "{HEAD}local v3 = 2;for v4 = 1, v3 do local v5 = x[v4];\
             if v1 + 1 >= v2 then v0, v2 = resize(v0, v1, v2, 1)end;buffer.writeu8(v0, v1, bool[v5]);v1 += 1; end;"
        )
    );
}

#[test]
fn ser_set_counts_and_writes_count_where_reserved() {
    let t = Type::SetOf(SetType {
        len: Length { min: 0, max: Some(10) },
        item: Box::new(Type::Number(free_num(NumberKind::U8))),
    });
    let out = emit_ser(&t, ApiCheck::Off);
    assert_eq!(
        out,
        format!(
            "{HEAD}if v1 + 1 >= v2 then v0, v2 = resize(v0, v1, v2, 1)end;local v3 = v1;v1 += 1;local v4 = 0;\
             for v5, v6 in x do v4 = (v4 + 1);if v1 + 1 >= v2 then v0, v2 = resize(v0, v1, v2, 1)end;buffer.writeu8(v0, v1, v5);v1 += 1; end;\
             buffer.writeu8(v0, v3, v4);"
        )
    );
}

#[test]
fn ser_enum_uses_its_table() {
    let t = Type::Enum(EnumType {
        variants: vec!["a".to_string(), "b".to_string()],
        number: free_num(NumberKind::U8),
    });
    let out = emit_ser(&t, ApiCheck::Full);
    assert_eq!(
        out,
        format!(
            "{HEAD}local v3 = {{ [\"a\"] = 1, [\"b\"] = 2 }};\
             if (not (type(x) == \"string\")) then error(\"value is not of type string\"); else  end;\
             local v4 = v3[x];if (not v4) then error(\"enum value is not a valid variant\"); else  end;\
             if v1 + 1 >= v2 then v0, v2 = resize(v0, v1, v2, 1)end;buffer.writeu8(v0, v1, v4);v1 += 1;"
        )
    );
}

#[test]
fn ser_struct_takes_each_field() {
    let t = Type::Struct(StructType {
        fields: vec![("a".to_string(), Type::Boolean(BooleanType))],
    });
    let out = emit_ser(&t, ApiCheck::Off);
    assert_eq!(
        out,
        format!(
            "{HEAD}local v3 = x[\"a\"];if v1 + 1 >= v2 then v0, v2 = resize(v0, v1, v2, 1)end;\
             buffer.writeu8(v0, v1, bool[v3]);v1 += 1;"
        )
    );
}

#[test]
fn des_struct_with_enum_reuses_variables() {
    let t = Type::Struct(StructType {
        fields: vec![
            ("a".to_string(), Type::Number(free_num(NumberKind::U8))),
            (
                "b".to_string(),
                Type::Enum(EnumType {
                    variants: vec!["x".to_string(), "y".to_string()],
                    number: free_num(NumberKind::U8),
                }),
            ),
        ],
    });
    let (out, id) = emit_des(&t, false, true);
    assert_eq!(
        out,
        format!(
            "{HEAD}local v3 = {{ [1] = \"x\", [2] = \"y\" }};local v4 = buffer.readu8(v0, v1);v1 += 1;\
             local v5 = buffer.readu8(v0, v1);v1 += 1;local v6 = v3[v5];\
             local v3 = {{ [\"a\"] = v4, [\"b\"] = v6 }};"
        )
    );
    assert_eq!(id, 3);
}

#[test]
fn des_u24_is_masked() {
    let t = Type::Number(free_num(NumberKind::U24));
    let (native, id) = emit_des(&t, false, true);
    assert_eq!(
        native,
        format!("{HEAD}local v3 = buffer.readu32(v0, v1);v1 += 4;local v4 = bit32.band(v3, 16777215);")
    );
    assert_eq!(id, 4);
    let (plain, _) = emit_des(&t, false, false);
    assert_eq!(
        plain,
        format!("{HEAD}local v3 = buffer.readu32(v0, v1);v1 += 4;local v4 = (v3 % 16777216);")
    );
}

#[test]
fn des_checks_nan_and_range() {
    let t = Type::Number(NumberType {
        kind: NumberKind::F64,
        range: Range { min: Some(Num::Finite { neg: true, digits: 15, exp: -1 }), max: None },
    });
    let (out, id) = emit_des(&t, true, true);
    assert_eq!(
        out,
        format!(
            "{HEAD}local v3 = buffer.readf64(v0, v1);v1 += 8;\
             if (not (v3 >= -1.5)) then error(\"value out of bounds [-1.5, inf]\"); else  end;\
             if (not (v3 == v3)) then error(\"value is nan\"); else  end;"
        )
    );
    assert_eq!(id, 3);
}

#[test]
fn des_map_reads_pairs() {
    let t = Type::MapOf(MapType {
        len: Length { min: 0, max: None },
        index: Box::new(Type::Number(free_num(NumberKind::U8))),
        value: Box::new(Type::Boolean(BooleanType)),
    });
    let (out, id) = emit_des(&t, false, true);
    assert_eq!(
        out,
        format!(
            "{HEAD}local v3 = buffer.readu32(v0, v1);v1 += 4;local v4 = {{  }};\
             for v5 = 1, v3 do local v6 = buffer.readu8(v0, v1);v1 += 1;\
             local v7 = buffer.readu8(v0, v1);v1 += 1;local v8 = bool[v7];v4[v6] = v8; end;"
        )
    );
    assert_eq!(id, 4);
}

#[test]
fn des_array_of_fixed_length() {
    let t = Type::Array(ArrayType {
        len: Length { min: 3, max: Some(3) },
        item: Box::new(Type::Number(free_num(NumberKind::I16))),
    });
    let (out, id) = emit_des(&t, false, true);
    assert_eq!(
        out,
        format!(
            "{HEAD}local v3 = 3;local v4 = table.create(v3);for v5 = 1, v3 do \
             local v6 = buffer.readi16(v0, v1);v1 += 2;v4[v5] = v6; end;"
        )
    );
    assert_eq!(id, 4);
}

fn one_event_hir(from: NetworkSide, data: Vec<Type>) -> Hir {
    Hir {
        table: Table {
            items: vec![(
                "ping".to_string(),
                Item::Event(Event {
                    opts: Options { apicheck: ApiCheck::Basic, casing: Casing::Lower },
                    thru: Remote { uuid: 0 },
                    from,
                    data,
                }),
            )],
        },
    }
}

#[test]
fn server_for_an_empty_client_event() {
    let hir = one_event_hir(NetworkSide::Client, vec![]);
    let out = server(&hir, "H", "F").expect("generated");
    let body = "local v0 = buffer.create(1024);local v1 = 0;local v2 = 1024;local v3 = {  };\
                local v4 = {  };local function v5(v6) table.insert(v4, v6); end;v3[1] = v5;\
                local function v6() local v7 = v4;v4 = {  };return v7; end;export.ping.iter = v6;\
                local v4 = folder:WaitForChild(\"00000000-0000-0000-0000-000000000000\");\
                local function v5(v6,v7) local v8 = v7;local v9 = 0;local v10 = buffer.len(v7);\
                if (not (v10 <= 0)) then error(\"packet too large\"); else  end;\
                local v11 = buffer.readu8(v8, v9);v9 += 1;v3[v11](v6, v8, v9, v10); end;\
                v4[\"OnServerEvent\"]:Connect(v5);";
    assert_eq!(out, format!("H{body}F::{{ ping: {{ iter: () -> {{Player}} }},  }}"));
}

#[test]
fn server_send_function_fires_to_the_player() {
    let hir = one_event_hir(NetworkSide::Server, vec![Type::Boolean(BooleanType)]);
    let out = server(&hir, "", "").expect("generated");
    assert!(out.contains("export.ping.send = "));
    assert!(out.contains(":FireClient("));
    assert!(out.ends_with("::{ ping: { send: (Player, boolean) -> () },  }"));
}

#[test]
fn server_iter_for_event_with_data_returns_next() {
    let hir = one_event_hir(NetworkSide::Client, vec![Type::Boolean(BooleanType)]);
    let out = server(&hir, "", "").expect("generated");
    assert!(out.contains("export.ping.iter = "));
    assert!(out.contains("return "));
    assert!(out.ends_with(
        "::{ ping: { iter: () -> (({ any }, number?) -> (number?, Player, boolean), { any }) },  }"
    ));
}

#[test]
fn server_refuses_unbounded_client_data() {
    let t = Type::Array(ArrayType {
        len: Length { min: 4294967295, max: Some(4294967295) },
        item: Box::new(Type::Number(free_num(NumberKind::F64))),
    });
    let hir = one_event_hir(NetworkSide::Client, vec![t]);
    assert_eq!(server(&hir, "", ""), None);
}

#[test]
fn interface_of_nested_tables() {
    let hir = one_event_hir(NetworkSide::Client, vec![]);
    let outer = Table { items: vec![("net".to_string(), Item::Table(hir.table))] };
    let mut s = String::new();
    interface(&mut s, &outer);
    assert_eq!(s, "{ net: { ping: { iter: () -> {Player} },  },  }");
}

#[test]
fn registry_reuses_the_last_variable_handed_back() {
    let mut r = Registry::new();
    let a = r.var();
    let b = r.var();
    assert_eq!(a.var().id, 0);
    assert_eq!(b.var().id, 1);
    r.free(a);
    r.free(b);
    let c = r.var();
    assert_eq!(c.var().id, 1);
    let d = r.var();
    assert_eq!(d.var().id, 0);
    let e = r.var();
    assert_eq!(e.var().id, 2);
}

#[test]
fn builder_renders_instructions_in_order() {
    let mut b = Builder::new();
    let v = b.init(Expr::from_str("hi\n"));
    b.assign(&v, Expr::Global("x").binary(BinOp::Add, Expr::from_u64(2)));
    b.assert_cond(v.expr().eq(Expr::Nil), "oops");
    assert!(!b.overflowed());
    let text = b.build().render();
    assert_eq!(
        text,
        "local v0 = \"hi\\n\";v0 = (x + 2);if (not (v0 == nil)) then error(\"oops\"); else  end;"
    );
}

#[test]
fn block_render_of_a_function() {
    let blk = Block {
        instrs: vec![Instr::Function {
            dst: Var { id: 3 },
            args: vec![Var { id: 4 }, Var { id: 5 }],
            block: Block { instrs: vec![Instr::Return { exprs: vec![Expr::Var(Var { id: 4 })] }] },
        }],
    };
    assert_eq!(blk.render(), "local function v3(v4,v5) return v4; end;");
}

#[test]
fn array_expression_of_a_number_lists_slots() {
    let e = Expr::array(Expr::Number(Num::Finite { neg: false, digits: 25, exp: -1 }));
    let blk = Block { instrs: vec![Instr::Call { call: Expr::Global("f").call(vec![e]) }] };
    assert_eq!(blk.render(), "f({ [1] = nil, [2] = nil });");
    let e = Expr::array(Expr::Var(Var { id: 7 }));
    let blk = Block { instrs: vec![Instr::Call { call: Expr::Global("f").call(vec![e]) }] };
    assert_eq!(blk.render(), "f(table.create(v7));");
}

#[test]
fn string_literals_escape_bytes() {
    let e = Expr::from_str("a\"b\\c\té");
    let blk = Block { instrs: vec![Instr::Call { call: Expr::Global("f").call(vec![e]) }] };
    assert_eq!(blk.render(), "f(\"a\\\"b\\\\c\\t\\xc3\\xa9\");");
}

fn client_event(data: Vec<Type>) -> Event {
    Event {
        opts: Options { apicheck: ApiCheck::Basic, casing: Casing::Pascal },
        thru: Remote { uuid: 0 },
        from: NetworkSide::Server,
        data,
    }
}

fn client_iter_text(data: Vec<Type>) -> String {
    let mut b = Builder::new();
    let jump_tbl = b.init(Expr::Table(vec![]));
    let recv = RecvCtx { jump_tbl, item_idx: 2 };
    zap::mir_client::iter(&mut b, &recv, ".net", &client_event(data));
    b.build().render()
}

#[test]
fn client_iter_counts_events_without_data() {
    assert_eq!(
        client_iter_text(vec![]),
        "local v0 = {  };local v1 = 0;local function v2() v1 = (v1 + 1); end;v0[2] = v2;\
         local function v3(v4,v5) if (v5 < v4) then return (v5 + 1); else  end; end;\
         local function v5() local v4 = v1;v1 = 0;return v3, v4, 0; end;export.net.Iter = v5;"
    );
}

#[test]
fn client_iter_hands_out_the_queue_of_one_value() {
    assert_eq!(
        client_iter_text(vec![Type::Boolean(BooleanType)]),
        "local v0 = {  };local v1 = {  };local function v2(v3,v4,v5) local v6 = v3;local v7 = v4;\
         local v8 = v5;local v9 = buffer.readu8(v6, v7);v7 += 1;local v10 = bool[v9];\
         table.insert(v1, v10); end;v0[2] = v2;local function v2() local v5 = v1;v1 = {  };return v5; end;\
         export.net.Iter = v2;"
    );
}

#[test]
fn client_iter_steps_through_several_values() {
    assert_eq!(
        client_iter_text(vec![Type::Boolean(BooleanType), Type::Number(free_num(NumberKind::U8))]),
        "local v0 = {  };local v1 = {  };local function v2(v3,v4,v5) local v6 = v3;local v7 = v4;\
         local v8 = v5;local v9 = buffer.readu8(v6, v7);v7 += 1;local v10 = bool[v9];\
         table.insert(v1, v10);local v10 = buffer.readu8(v6, v7);v7 += 1;table.insert(v1, v10); end;\
         v0[2] = v2;local function v2(v5,v4) if (not (v5[v4] == nil)) then \
         return (v4 + 2), v5[(v4 + 0)], v5[(v4 + 1)]; else  end; end;\
         local function v4() local v5 = v1;v1 = {  };return v2, v5, 1; end;export.net.Iter = v4;"
    );
}

#[test]
fn client_send_fires_to_the_server() {
    let mut b = Builder::new();
    let buf = b.init(Expr::from_u64(0));
    let pos = b.init(Expr::from_u64(0));
    let len = b.init(Expr::from_u64(0));
    let ctx = Ctx { buf, pos, len };
    let instance = b.init(Expr::Global("remote"));
    let sc = SendCtx { instance, item_idx: 3, idx_kind: NumberKind::U8, ctx: &ctx };
    let mut e = client_event(vec![Type::Boolean(BooleanType)]);
    e.from = NetworkSide::Client;
    zap::mir_client::event(&mut b, &sc, ".net", &e);
    drop(sc);
    assert_eq!(
        b.build().render(),
        "local v0 = 0;local v1 = 0;local v2 = 0;local v3 = remote;local function v4(v5) local v6 = v0;\
         local v7 = v1;local v8 = v2;if v7 + 1 >= v8 then v6, v8 = resize(v6, v7, v8, 1)end;\
         buffer.writeu8(v6, v7, 3);v7 += 1;if v7 + 1 >= v8 then v6, v8 = resize(v6, v7, v8, 1)end;\
         buffer.writeu8(v6, v7, bool[v5]);v7 += 1;local v9 = buffer.create(v7);\
         buffer.copy(v9, 0, v6, 0, v7);v3:FireServer(v9);v7 = 0;v0 = v6;v1 = v7;v2 = v8; end;\
         export.net.Send = v4;"
    );
}

#[test]
fn writing_a_value_hands_back_its_variables() {
    let (mut b, ctx) = ctx_builder();
    let t = Type::SetOf(SetType {
        len: Length { min: 0, max: None },
        item: Box::new(Type::Number(free_num(NumberKind::U8))),
    });
    let ser = Ser { opts: opts(ApiCheck::Basic), native: true };
    let mut maps = Vec::new();
    ser.emit(&mut b, &ctx, &t, Expr::Global("x"), &mut maps);
    let next = b.var();
    assert_eq!(next.var().id, 3);
    let after = b.var();
    assert_eq!(after.var().id, 4);
    let fresh = b.var();
    assert_eq!(fresh.var().id, 5);
    let last = b.var();
    assert_eq!(last.var().id, 6);
    let beyond = b.var();
    assert_eq!(beyond.var().id, 7);
}

#[test]
fn reading_a_value_keeps_only_its_variable() {
    let (mut b, ctx) = ctx_builder();
    let t = Type::Array(ArrayType {
        len: Length { min: 0, max: Some(3) },
        item: Box::new(Type::Number(free_num(NumberKind::U8))),
    });
    let des = Des { opts: opts(ApiCheck::Basic), native: true, check: false };
    let mut maps = Vec::new();
    let v = des.emit(&mut b, &ctx, &t, &mut maps);
    let held = v.var().id;
    let mut others = Vec::new();
    for _ in 0..4 {
        others.push(b.var().var().id);
    }
    assert!(!others.contains(&held));
    assert!(!others.contains(&0) && !others.contains(&1) && !others.contains(&2));
}

#[test]
fn des_string_moves_position_past_it() {
    let t = Type::Utf8String(Utf8StringType { len: Length { min: 0, max: Some(30) } });
    let (out, v) = emit_des(&t, false, true);
    assert_eq!(v, 4);
    assert!(out.contains("local v4 = buffer.readstring(v0, v1, v3);v1 += v3;"));
}

fn width_of(name: &str) -> String {
    match name {
        "u8" | "i8" => "1".to_string(),
        "u16" | "i16" => "2".to_string(),
        "u32" | "i32" | "f32" => "4".to_string(),
        "f64" => "8".to_string(),
        other => other.to_string(),
    }
}

/// The accesses at the current position `v1` of buffer `v0`, in order:
/// widths of numbers, `string`, widths of kept places, `loop` and `end`.
fn packet_accesses(code: &str, word: &str) -> Vec<String> {
    let mut out = Vec::new();
    let mut rest = code;
    loop {
        let mut cands: Vec<(usize, u8)> = Vec::new();
        if let Some(i) = rest.find(word) {
            cands.push((i, 0));
        }
        if let Some(i) = rest.find("for ") {
            cands.push((i, 1));
        }
        if let Some(i) = rest.find(" end;") {
            cands.push((i, 2));
        }
        if let Some(i) = rest.find(" = v1;v1 += ") {
            cands.push((i, 3));
        }
        let Some(&(i, kind)) = cands.iter().min() else { break };
        match kind {
            0 => {
                let after = &rest[i + word.len()..];
                let name: String = after.chars().take_while(|c| c.is_ascii_alphanumeric()).collect();
                if after[name.len()..].starts_with("(v0, v1") {
                    out.push(width_of(&name));
                }
                rest = after;
            }
            1 => {
                out.push("loop".to_string());
                rest = &rest[i + 4..];
            }
            2 => {
                if rest[..i].ends_with(';') {
                    out.push("end".to_string());
                }
                rest = &rest[i + 5..];
            }
            _ => {
                let after = &rest[i + " = v1;v1 += ".len()..];
                let n: String = after.chars().take_while(|c| c.is_ascii_digit()).collect();
                out.push(n);
                rest = after;
            }
        }
    }
    out
}

#[test]
fn mir_written_is_read_back() {
    let t = Type::Struct(StructType {
        fields: vec![
            ("name".to_string(), Type::Utf8String(Utf8StringType { len: Length { min: 0, max: Some(50) } })),
            ("on".to_string(), Type::Boolean(BooleanType)),
            (
                "tags".to_string(),
                Type::SetOf(SetType {
                    len: Length { min: 0, max: Some(10) },
                    item: Box::new(Type::BinaryString(BinaryStringType { len: Length { min: 4, max: Some(4) } })),
                }),
            ),
            (
                "pts".to_string(),
                Type::Array(ArrayType {
                    len: Length { min: 0, max: Some(300) },
                    item: Box::new(Type::Number(free_num(NumberKind::F32))),
                }),
            ),
        ],
    });
    for level in [ApiCheck::Off, ApiCheck::Basic, ApiCheck::Full] {
        for check in [false, true] {
            let w = packet_accesses(&emit_ser(&t, level), "buffer.write");
            let (rd, _) = emit_des(&t, check, true);
            let r = packet_accesses(&rd, "buffer.read");
            assert_eq!(w, r);
        }
    }
    let (rd, _) = emit_des(&t, true, true);
    assert_eq!(
        packet_accesses(&rd, "buffer.read"),
        vec!["1", "string", "1", "1", "loop", "string", "end", "2", "loop", "4", "end"]
    );
}
