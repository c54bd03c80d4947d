use ch2rs::codegen::{
    column_names, do_make_type, find_override, generate_field, generate_row, generate_sentinel_modules,
    generate_with_names, make_attribute,
    ident_from_camel, prepare_name_ident, sentinel_info, sentinel_mod_name, temporal_path, validate_sentinel, ColumnNames,
};
use ch2rs::{generate, Column, GenerateError, Options, Override, SqlType, Table, Temporal, Type};

fn options(table: &str) -> Options {
    Options {
        url: "localhost:8123".to_string(),
        user: None,
        password: None,
        database: "default".to_string(),
        table: table.to_string(),
        serialize: false,
        deserialize: false,
        owned: false,
        types: vec![],
        overrides: vec![],
        bytes: vec![],
        ignore: vec![],
        derives: vec![],
        sentinels: vec![],
        temporal: Temporal::Raw,
    }
}

fn column(name: &str, type_: SqlType) -> Column {
    Column { name: name.to_string(), type_, comment: String::new() }
}

fn make_table(columns: Vec<(&str, SqlType)>) -> Table {
    Table { columns: columns.into_iter().map(|(n, t)| column(n, t)).collect() }
}

fn sentinel_options(owned: bool) -> Options {
    let mut o = options("t");
    o.serialize = true;
    o.deserialize = true;
    o.owned = owned;
    o.sentinels = vec!["col".to_string()];
    o
}

fn assert_sentinel_rejected(sql_type: SqlType) {
    let table = make_table(vec![("col", sql_type)]);
    assert!(generate(&table, &sentinel_options(false)).is_err());
}

#[test]
fn test_sentinel_rejected_for_nullable() {
    assert_sentinel_rejected(SqlType::Nullable(Box::new(SqlType::UInt32)));
}

#[test]
fn test_sentinel_rejected_for_enum8() {
    assert_sentinel_rejected(SqlType::Enum8(vec![]));
}

#[test]
fn test_sentinel_rejected_for_array() {
    assert_sentinel_rejected(SqlType::Array(Box::new(SqlType::String)));
}

#[test]
fn test_sentinel_rejected_for_date() {
    assert_sentinel_rejected(SqlType::Date);
}

#[test]
fn test_sentinel_rejected_for_uuid() {
    assert_sentinel_rejected(SqlType::UUID);
}

#[test]
fn test_sentinel_rejected_for_bool() {
    assert_sentinel_rejected(SqlType::Bool);
}

fn assert_sentinel_generates(sql_type: SqlType, expected_type: &str) {
    let table = make_table(vec![("col", sql_type)]);
    let code = generate(&table, &sentinel_options(true)).unwrap();
    assert!(code.contains(&format!("pub col: {}", expected_type)));
    assert!(code.contains("mod sentinel_col"));
}

#[test]
fn test_sentinel_generates_string() {
    assert_sentinel_generates(SqlType::String, "Option<String>");
}

#[test]
fn test_sentinel_generates_u8() {
    assert_sentinel_generates(SqlType::UInt8, "Option<u8>");
}

#[test]
fn test_sentinel_generates_u16() {
    assert_sentinel_generates(SqlType::UInt16, "Option<u16>");
}

#[test]
fn test_sentinel_generates_u32() {
    assert_sentinel_generates(SqlType::UInt32, "Option<u32>");
}

#[test]
fn test_sentinel_generates_u64() {
    assert_sentinel_generates(SqlType::UInt64, "Option<u64>");
}

#[test]
fn test_sentinel_generates_u128() {
    assert_sentinel_generates(SqlType::UInt128, "Option<u128>");
}

#[test]
fn test_sentinel_generates_i8() {
    assert_sentinel_generates(SqlType::Int8, "Option<i8>");
}

#[test]
fn test_sentinel_generates_i16() {
    assert_sentinel_generates(SqlType::Int16, "Option<i16>");
}

#[test]
fn test_sentinel_generates_i32() {
    assert_sentinel_generates(SqlType::Int32, "Option<i32>");
}

#[test]
fn test_sentinel_generates_i64() {
    assert_sentinel_generates(SqlType::Int64, "Option<i64>");
}

#[test]
fn test_sentinel_generates_i128() {
    assert_sentinel_generates(SqlType::Int128, "Option<i128>");
}

#[test]
fn test_sentinel_generates_f32() {
    assert_sentinel_generates(SqlType::Float32, "Option<f32>");
}

#[test]
fn test_sentinel_generates_f64() {
    assert_sentinel_generates(SqlType::Float64, "Option<f64>");
}

#[test]
fn generate_whole_table() {
    let mut table = make_table(vec![
        ("id", SqlType::UInt32),
        ("name", SqlType::String),
        (
            "kind",
            SqlType::Enum8(vec![("".to_string(), -128), ("Foo Bar".to_string(), 0)]),
        ),
    ]);
    table.columns[0].comment = "the id".to_string();
    let mut o = options("t");
    o.serialize = true;
    let code = generate(&table, &o).unwrap();
    let expected = "// GENERATED CODE (ch2rs v0.1.0)\n\
#![cfg_attr(rustfmt, rustfmt::skip)]\n\
#![allow(warnings)]\n\
#![allow(clippy::all)]\n\
\n\
// Generated with the following options:\n\
/*\n\
ch2rs t -S\n\
*/\n\
\n\
#[derive(Debug, clickhouse::Row)]\n\
#[derive(serde::Serialize)]\n\
pub struct Row<'a> {\n    /// the id\n    pub id: u32,\n    pub name: &'a str,\n    pub kind: Kind,\n}\n\
\n\
#[derive(Debug)]\n\
#[derive(serde_repr::Serialize_repr)]\n\
#[repr(i8)]\n\
pub enum Kind {\n    Empty = -128,\n    FooBar = 0,\n}";
    assert_eq!(code, expected);
}

#[test]
fn generate_sentinel_module_text() {
    let table = make_table(vec![("col", SqlType::UInt32)]);
    let mut o = options("t");
    o.owned = true;
    o.sentinels = vec!["col".to_string()];
    let code = generate(&table, &o).unwrap();
    let module = "mod sentinel_col {\n    use serde::{Deserializer, Serializer};\n\n    pub fn deserialize<'de, D>(deserializer: D) -> Result<Option<u32>, D::Error>\n    where\n        D: Deserializer<'de>,\n    {\n        let value = <u32 as serde::Deserialize>::deserialize(deserializer)?;\n        if value == 0u32 {\n            Ok(None)\n        } else {\n            Ok(Some(value))\n        }\n    }\n\n    pub fn serialize<S>(value: &Option<u32>, serializer: S) -> Result<S::Ok, S::Error>\n    where\n        S: Serializer,\n    {\n        match value {\n            Some(v) => serde::Serialize::serialize(v, serializer),\n            None => serde::Serialize::serialize(&0u32, serializer),\n        }\n    }\n}";
    assert!(code.ends_with(module));
    assert!(code.contains("    #[serde(with = \"sentinel_col\")]\n    pub col: Option<u32>,\n"));
    assert!(code.contains("pub struct Row {\n"));
}

#[test]
fn generate_names_are_case_converted() {
    let table = make_table(vec![("userName", SqlType::Enum16(vec![("first one".to_string(), 1024)]))]);
    let code = generate(&table, &options("t")).unwrap();
    assert!(code.contains("    pub user_name: UserName,\n"));
    assert!(code.contains("#[repr(i16)]\npub enum UserName {\n    FirstOne = 1024,\n}"));
}

#[test]
fn generate_with_given_names() {
    let table = make_table(vec![("a", SqlType::Enum8(vec![("x".to_string(), 1)]))]);
    let names = vec![ColumnNames {
        field: "field_a".to_string(),
        enum_name: "EnumA".to_string(),
        variants: vec!["VariantX".to_string()],
    }];
    let code = generate_with_names(&table, &options("t"), &names).unwrap();
    assert!(code.contains("    pub field_a: EnumA,\n"));
    assert!(code.contains("pub enum EnumA {\n    VariantX = 1,\n}"));
}

#[test]
fn column_names_use_heck() {
    let c = column("someField", SqlType::Nullable(Box::new(SqlType::Enum8(vec![("a b".to_string(), 1)]))));
    let names = column_names(&c);
    assert_eq!(names.field, "some_field");
    assert_eq!(names.enum_name, "SomeField");
    assert_eq!(names.variants, vec!["AB".to_string()]);
}

#[test]
fn comment_lines_become_doc_lines() {
    let mut table = make_table(vec![("x", SqlType::UInt8)]);
    table.columns[0].comment = "first\r\nsecond\n".to_string();
    let code = generate(&table, &options("t")).unwrap();
    assert!(code.contains("pub struct Row {\n    /// first\n    /// second\n    pub x: u8,\n}"));
}

#[test]
fn lifetime_in_comment_does_not_borrow() {
    let mut table = make_table(vec![("x", SqlType::UInt8)]);
    table.columns[0].comment = "it's 'a lot".to_string();
    let code = generate(&table, &options("t")).unwrap();
    assert!(code.contains("pub struct Row {\n"));
    assert!(!code.contains("Row<'a>"));
}

#[test]
fn borrowed_field_type_makes_row_borrow() {
    let table = make_table(vec![("x", SqlType::UInt8), ("s", SqlType::String)]);
    let code = generate(&table, &options("t")).unwrap();
    assert!(code.contains("pub struct Row<'a> {\n"));
    let mut o = options("t");
    o.owned = true;
    let code = generate(&table, &o).unwrap();
    assert!(code.contains("pub struct Row {\n"));
}

#[test]
fn enum_inside_map_is_generated() {
    let value = SqlType::Enum8(vec![("on".to_string(), 1), ("off".to_string(), 0)]);
    let table = make_table(vec![("state", SqlType::MapOf(Box::new(SqlType::String), Box::new(value)))]);
    let mut o = options("t");
    o.owned = true;
    let code = generate(&table, &o).unwrap();
    assert!(code.contains("    pub state: Vec<(String, State, )>,\n"));
    assert!(code.contains("#[repr(i8)]\npub enum State {\n    On = 1,\n    Off = 0,\n}"));
}

#[test]
fn no_default_type_for_fixed_string() {
    let table = make_table(vec![("fs", SqlType::FixedString(5))]);
    match generate(&table, &options("t")) {
        Err(GenerateError::NoDefaultType { sql }) => assert_eq!(sql, "FixedString(5)"),
        other => panic!("unexpected {:?}", other),
    }
}

#[test]
fn type_override_fixes_fixed_string() {
    let table = make_table(vec![("fs", SqlType::FixedString(5))]);
    let mut o = options("t");
    o.types = vec![Type { sql: SqlType::FixedString(5), type_: "[u8; 5]".to_string() }];
    let code = generate(&table, &o).unwrap();
    assert!(code.contains("    pub fs: [u8; 5],\n"));
    assert!(code.contains("ch2rs t \\\n        -T 'FixedString(5)=[u8; 5]'\n*/"));
}

#[test]
fn unsupported_precision_is_an_error() {
    let table = make_table(vec![("t", SqlType::DateTime64(4, None))]);
    let mut o = options("t");
    o.temporal = Temporal::Chrono;
    match generate(&table, &o) {
        Err(GenerateError::UnsupportedPrecision { precision, ty, temporal }) => {
            assert_eq!(precision, 4);
            assert_eq!(ty, "datetime64");
            assert_eq!(temporal, Temporal::Chrono);
        }
        other => panic!("unexpected {:?}", other),
    }
}

#[test]
fn sentinel_with_override_is_an_error() {
    let table = make_table(vec![("col", SqlType::UInt32)]);
    let mut o = options("t");
    o.sentinels = vec!["col".to_string()];
    o.overrides = vec![Override { column: "col".to_string(), type_: "u64".to_string() }];
    match generate(&table, &o) {
        Err(GenerateError::SentinelWithOverride { column }) => assert_eq!(column, "col"),
        other => panic!("unexpected {:?}", other),
    }
}

#[test]
fn sentinel_of_nullable_is_refused() {
    let c = column("col", SqlType::Nullable(Box::new(SqlType::String)));
    match validate_sentinel(&c, &sentinel_options(false)) {
        Err(GenerateError::SentinelNullable { column }) => assert_eq!(column, "col"),
        other => panic!("unexpected {:?}", other),
    }
}

#[test]
fn sentinel_unsupported_names_the_type() {
    match sentinel_info(&SqlType::Array(Box::new(SqlType::UInt8))) {
        Err(GenerateError::SentinelUnsupported { sql }) => assert_eq!(sql, "Array(UInt8)"),
        other => panic!("unexpected {:?}", other),
    }
    assert_eq!(sentinel_info(&SqlType::String).unwrap(), ("String", "\"\""));
    assert_eq!(sentinel_info(&SqlType::Float32).unwrap(), ("f32", "0f32"));
}

fn rust_type(t: SqlType, o: &Options) -> String {
    do_make_type("col", "Col", &t, o).unwrap()
}

#[test]
fn rust_types_of_plain_types() {
    let o = options("t");
    assert_eq!(rust_type(SqlType::UInt128, &o), "u128");
    assert_eq!(rust_type(SqlType::Int8, &o), "i8");
    assert_eq!(rust_type(SqlType::Bool, &o), "bool");
    assert_eq!(rust_type(SqlType::Float64, &o), "f64");
    assert_eq!(rust_type(SqlType::IPv4, &o), "::std::net::Ipv4Addr");
    assert_eq!(rust_type(SqlType::IPv6, &o), "::std::net::Ipv6Addr");
    assert_eq!(rust_type(SqlType::UUID, &o), "::uuid::Uuid");
    assert_eq!(rust_type(SqlType::String, &o), "&'a str");
    let mut owned = options("t");
    owned.owned = true;
    assert_eq!(rust_type(SqlType::String, &owned), "String");
}

#[test]
fn rust_types_of_temporal_types() {
    let mut o = options("t");
    assert_eq!(rust_type(SqlType::Date, &o), "u16");
    assert_eq!(rust_type(SqlType::Date32, &o), "i32");
    assert_eq!(rust_type(SqlType::DateTime(None), &o), "u32");
    assert_eq!(rust_type(SqlType::DateTime64(3, None), &o), "i64");
    assert_eq!(rust_type(SqlType::Time, &o), "i32");
    assert_eq!(rust_type(SqlType::Time64(6), &o), "i64");
    o.temporal = Temporal::Time;
    assert_eq!(rust_type(SqlType::Date32, &o), "::time::Date");
    assert_eq!(rust_type(SqlType::DateTime64(3, None), &o), "::time::OffsetDateTime");
    assert_eq!(rust_type(SqlType::Time64(3), &o), "::time::Duration");
    o.temporal = Temporal::Chrono;
    assert_eq!(rust_type(SqlType::Date, &o), "::chrono::NaiveDate");
    assert_eq!(rust_type(SqlType::DateTime(Some("UTC".to_string())), &o), "::chrono::DateTime<::chrono::Utc>");
    assert_eq!(rust_type(SqlType::Time, &o), "::chrono::Duration");
}

#[test]
fn rust_types_of_composite_types() {
    let o = options("t");
    assert_eq!(rust_type(SqlType::Array(Box::new(SqlType::UInt8)), &o), "Vec<u8>");
    assert_eq!(rust_type(SqlType::Nullable(Box::new(SqlType::Int64)), &o), "Option<i64>");
    assert_eq!(
        rust_type(SqlType::Tuple(vec![SqlType::String, SqlType::UInt8]), &o),
        "(&'a str, u8, )"
    );
    assert_eq!(
        rust_type(SqlType::MapOf(Box::new(SqlType::String), Box::new(SqlType::Float32)), &o),
        "Vec<(&'a str, f32, )>"
    );
    assert_eq!(rust_type(SqlType::Enum8(vec![]), &o), "Col");
}

#[test]
fn map_uses_overrides_of_its_entries() {
    let mut o = options("t");
    o.types = vec![Type {
        sql: SqlType::Tuple(vec![SqlType::String, SqlType::String]),
        type_: "Pair".to_string(),
    }];
    let map = SqlType::MapOf(Box::new(SqlType::String), Box::new(SqlType::String));
    assert_eq!(do_make_type("m", "M", &map, &o).unwrap(), "Vec<Pair>");
    o.types.push(Type {
        sql: SqlType::Array(Box::new(SqlType::Tuple(vec![SqlType::String, SqlType::String]))),
        type_: "Pairs".to_string(),
    });
    o.types.swap(0, 1);
    assert_eq!(do_make_type("m", "M", &map, &o).unwrap(), "Pairs");
}

#[test]
fn name_override_wins_over_type_override() {
    let mut o = options("t");
    o.types = vec![Type { sql: SqlType::UInt8, type_: "Byte".to_string() }];
    o.overrides = vec![Override { column: "c".to_string(), type_: "MyByte".to_string() }];
    assert_eq!(find_override("c", &SqlType::UInt8, &o), Some("MyByte"));
    assert_eq!(find_override("d", &SqlType::UInt8, &o), Some("Byte"));
    assert_eq!(find_override("d", &SqlType::UInt16, &o), None);
    assert_eq!(do_make_type("d", "D", &SqlType::Array(Box::new(SqlType::UInt8)), &o).unwrap(), "Vec<Byte>");
}

#[test]
fn temporal_paths() {
    assert_eq!(temporal_path(Temporal::Raw, "date", None).unwrap(), None);
    assert_eq!(temporal_path(Temporal::Raw, "datetime64", Some(5)).unwrap(), None);
    assert_eq!(
        temporal_path(Temporal::Time, "date", None).unwrap(),
        Some("::clickhouse::serde::time::date".to_string())
    );
    assert_eq!(
        temporal_path(Temporal::Chrono, "datetime64", Some(0)).unwrap(),
        Some("::clickhouse::serde::chrono::datetime64::secs".to_string())
    );
    assert_eq!(
        temporal_path(Temporal::Time, "time64", Some(3)).unwrap(),
        Some("::clickhouse::serde::time::time64::millis".to_string())
    );
    assert_eq!(
        temporal_path(Temporal::Time, "time64", Some(6)).unwrap(),
        Some("::clickhouse::serde::time::time64::micros".to_string())
    );
    assert_eq!(
        temporal_path(Temporal::Chrono, "time64", Some(9)).unwrap(),
        Some("::clickhouse::serde::chrono::time64::nanos".to_string())
    );
    assert!(temporal_path(Temporal::Time, "time64", Some(2)).is_err());
}

#[test]
fn attributes_of_fields() {
    let mut o = options("t");
    o.temporal = Temporal::Chrono;
    o.bytes = vec!["blob".to_string()];
    let opt_dt = column("d", SqlType::Nullable(Box::new(SqlType::DateTime(None))));
    assert_eq!(
        make_attribute(&opt_dt, "d", &o).unwrap(),
        Some("    #[serde(with = \"::clickhouse::serde::chrono::datetime::option\")]".to_string())
    );
    let uuid = column("u", SqlType::UUID);
    assert_eq!(
        make_attribute(&uuid, "u", &o).unwrap(),
        Some("    #[serde(with = \"::clickhouse::serde::uuid\")]".to_string())
    );
    let blob = column("blob", SqlType::String);
    assert_eq!(
        make_attribute(&blob, "blob", &o).unwrap(),
        Some("    #[serde(with = \"serde_bytes\")]".to_string())
    );
    let plain = column("p", SqlType::Date);
    let raw = options("t");
    assert_eq!(make_attribute(&plain, "p", &raw).unwrap(), None);
    let mut over = options("t");
    over.temporal = Temporal::Time;
    over.overrides = vec![Override { column: "p".to_string(), type_: "X".to_string() }];
    assert_eq!(make_attribute(&plain, "p", &over).unwrap(), None);
}

#[test]
fn sentinel_module_names() {
    assert_eq!(sentinel_mod_name("userId"), "sentinel_user_id");
    assert_eq!(sentinel_mod_name("col"), "sentinel_col");
}

#[test]
fn variant_identifiers() {
    assert_eq!(ident_from_camel(" \t", "ignored"), "Empty");
    assert_eq!(ident_from_camel("", ""), "Empty");
    assert_eq!(ident_from_camel("x y", "XY"), "XY");
    assert_eq!(prepare_name_ident("foo bar"), "FooBar");
    assert_eq!(prepare_name_ident("\u{2003}"), "Empty");
    assert_eq!(prepare_name_ident("fooBar"), "FooBar");
}

fn plain_names(table: &Table) -> Vec<ColumnNames> {
    table.columns.iter().map(column_names).collect()
}

#[test]
fn failed_field_keeps_its_attribute_line() {
    let c = column("data", SqlType::Decimal(10, 2));
    let mut o = options("t");
    o.bytes = vec!["data".to_string()];
    let names = column_names(&c);
    let mut dst = String::from("before\n");
    let r = generate_field(&mut dst, &c, &names, &o);
    assert!(matches!(r, Err(GenerateError::NoDefaultType { .. })));
    assert_eq!(dst, "before\n    #[serde(with = \"serde_bytes\")]\n");
}

#[test]
fn failed_row_keeps_its_derive_lines() {
    let table = make_table(vec![("a", SqlType::UInt8), ("b", SqlType::Decimal(10, 2))]);
    let mut o = options("t");
    o.serialize = true;
    o.derives = vec!["Clone".to_string()];
    let mut dst = String::new();
    let r = generate_row(&mut dst, &table, &plain_names(&table), &o);
    assert!(r.is_err());
    assert_eq!(dst, "#[derive(Debug, clickhouse::Row)]\n#[derive(serde::Serialize)]\n#[derive(Clone)]\n");
}

#[test]
fn failed_sentinel_keeps_earlier_modules() {
    let table = make_table(vec![("a", SqlType::UInt8), ("b", SqlType::Date), ("c", SqlType::UInt16)]);
    let mut o = options("t");
    o.sentinels = vec!["a".to_string(), "b".to_string(), "c".to_string()];
    let mut dst = String::new();
    let r = generate_sentinel_modules(&mut dst, &table, &plain_names(&table), &o);
    match r {
        Err(GenerateError::SentinelUnsupported { sql }) => assert_eq!(sql, "Date"),
        other => panic!("unexpected {:?}", other),
    }
    assert!(dst.starts_with("mod sentinel_a {\n"));
    assert!(dst.ends_with("}\n\n"));
    assert!(!dst.contains("sentinel_b"));
    assert!(!dst.contains("sentinel_c"));
}

#[test]
fn generate_ignores_connection() {
    let table = make_table(vec![("a", SqlType::String), ("b", SqlType::Date)]);
    let a = options("t");
    let mut b = options("t");
    b.url = "remote:8123".to_string();
    b.user = Some("user".to_string());
    b.password = Some("secret".to_string());
    assert_eq!(generate(&table, &a).unwrap(), generate(&table, &b).unwrap());
}

#[test]
fn generate_fails_exactly_on_a_refused_column() {
    let good = make_table(vec![("a", SqlType::UInt8), ("b", SqlType::Nullable(Box::new(SqlType::String)))]);
    assert!(generate(&good, &options("t")).is_ok());
    let bad = make_table(vec![("a", SqlType::UInt8), ("b", SqlType::IPv6), ("c", SqlType::Decimal(9, 2))]);
    assert!(generate(&bad, &options("t")).is_err());
    let mut o = options("t");
    o.types = vec![Type { sql: SqlType::Decimal(9, 2), type_: "Dec".to_string() }];
    assert!(generate(&bad, &o).is_ok());
}
