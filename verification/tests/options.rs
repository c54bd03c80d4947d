use ch2rs::options::{parse_override, sorted_texts};
use ch2rs::{OptionError, Options, Override, SqlType, Temporal, Type};

fn options(table: &str) -> Options {
    Options {
        url: "localhost:8123".to_string(),
        user: None,
        password: None,
        database: "default".to_string(),
        table: table.to_string(),
        serialize: false,
        deserialize: false,
        owned: false,
        types: vec![],
        overrides: vec![],
        bytes: vec![],
        ignore: vec![],
        derives: vec![],
        sentinels: vec![],
        temporal: Temporal::Raw,
    }
}

#[test]
fn format_minimal() {
    assert_eq!(options("events").format(), "ch2rs events");
}

#[test]
fn format_flags_and_database() {
    let mut o = options("events");
    o.database = "logs".to_string();
    o.serialize = true;
    o.deserialize = true;
    o.owned = true;
    assert_eq!(o.format(), "ch2rs events -d logs -S -D --owned");
}

#[test]
fn format_lists_sorted() {
    let mut o = options("t");
    o.derives = vec!["PartialEq".to_string(), "Clone".to_string()];
    o.temporal = Temporal::Chrono;
    o.types = vec![
        Type { sql: SqlType::String, type_: "String".to_string() },
        Type { sql: SqlType::UInt8, type_: "u16".to_string() },
        Type { sql: SqlType::Decimal(18, 9), type_: "u64".to_string() },
    ];
    o.overrides = vec![
        Override { column: "z".to_string(), type_: "A".to_string() },
        Override { column: "a".to_string(), type_: "B".to_string() },
    ];
    o.bytes = vec!["y".to_string(), "x".to_string()];
    o.sentinels = vec!["s2".to_string(), "s1".to_string()];
    o.ignore = vec!["b".to_string(), "a".to_string()];
    let expected = [
        "ch2rs t \\",
        "    --derive PartialEq \\",
        "    --derive Clone \\",
        "    --temporal chrono \\",
        "    -T 'UInt8=u16' \\",
        "    -T 'Decimal(18, 9)=u64' \\",
        "    -T 'String=String' \\",
        "    -O 'a=B' \\",
        "    -O 'z=A' \\",
        "    -B 'x' \\",
        "    -B 'y' \\",
        "    -N 's1' \\",
        "    -N 's2' \\",
        "    -I 'a' \\",
        "    -I 'b'",
    ]
    .join("\n");
    assert_eq!(o.format(), expected);
}

#[test]
fn format_orders_types_by_variant_then_fields() {
    let mut o = options("t");
    o.types = vec![
        Type { sql: SqlType::Nullable(Box::new(SqlType::UInt8)), type_: "b".to_string() },
        Type { sql: SqlType::DateTime64(3, Some("UTC".to_string())), type_: "c".to_string() },
        Type { sql: SqlType::DateTime64(3, None), type_: "d".to_string() },
        Type { sql: SqlType::Nullable(Box::new(SqlType::UInt8)), type_: "a".to_string() },
    ];
    let expected = [
        "ch2rs t \\",
        "    -T 'DateTime64(3)=d' \\",
        "    -T 'DateTime64(3, 'UTC')=c' \\",
        "    -T 'Nullable(UInt8)=a' \\",
        "    -T 'Nullable(UInt8)=b'",
    ]
    .join("\n");
    assert_eq!(o.format(), expected);
}

#[test]
fn sorted_texts_is_byte_order() {
    let v = vec!["b".to_string(), "B".to_string(), "ä".to_string(), "a".to_string(), "b".to_string()];
    let sorted: Vec<&str> = sorted_texts(&v).into_iter().map(|s| s.as_str()).collect();
    assert_eq!(sorted, vec!["B", "a", "b", "b", "ä"]);
}

#[test]
fn parse_override_splits_at_first_equals() {
    let o = parse_override("blob=Vec<u8>").unwrap();
    assert_eq!(o.column, "blob");
    assert_eq!(o.type_, "Vec<u8>");
    let o = parse_override("a=b=c").unwrap();
    assert_eq!(o.column, "a");
    assert_eq!(o.type_, "b=c");
    let o = parse_override("=x").unwrap();
    assert_eq!(o.column, "");
    assert_eq!(o.type_, "x");
    assert_eq!(parse_override("no-equals").err(), Some(OptionError::InvalidKeyValue));
}

#[test]
fn temporal_names() {
    assert_eq!("raw".parse::<Temporal>(), Ok(Temporal::Raw));
    assert_eq!("time".parse::<Temporal>(), Ok(Temporal::Time));
    assert_eq!("chrono".parse::<Temporal>(), Ok(Temporal::Chrono));
    assert_eq!("Chrono".parse::<Temporal>(), Err("invalid temporal".to_string()));
    assert_eq!(Temporal::Time.name(), "time");
    assert_eq!(Temporal::from_name(Temporal::Chrono.name()), Ok(Temporal::Chrono));
}

#[test]
fn format_ignores_list_order_and_connection() {
    let mut a = options("t");
    a.types = vec![
        Type { sql: SqlType::UInt8, type_: "u16".to_string() },
        Type { sql: SqlType::String, type_: "String".to_string() },
    ];
    a.overrides = vec![
        Override { column: "b".to_string(), type_: "X".to_string() },
        Override { column: "a".to_string(), type_: "Y".to_string() },
    ];
    a.bytes = vec!["z".to_string(), "y".to_string()];
    a.sentinels = vec!["n2".to_string(), "n1".to_string()];
    a.ignore = vec!["i2".to_string(), "i1".to_string()];
    let mut b = options("t");
    b.url = "other:9000".to_string();
    b.user = Some("someone".to_string());
    b.types = vec![
        Type { sql: SqlType::String, type_: "String".to_string() },
        Type { sql: SqlType::UInt8, type_: "u16".to_string() },
    ];
    b.overrides = vec![
        Override { column: "a".to_string(), type_: "Y".to_string() },
        Override { column: "b".to_string(), type_: "X".to_string() },
    ];
    b.bytes = vec!["y".to_string(), "z".to_string()];
    b.sentinels = vec!["n1".to_string(), "n2".to_string()];
    b.ignore = vec!["i1".to_string(), "i2".to_string()];
    assert_eq!(a.format(), b.format());
}

#[test]
fn derived_order_of_types() {
    let x = Type { sql: SqlType::UInt8, type_: "b".to_string() };
    let y = Type { sql: SqlType::UInt16, type_: "a".to_string() };
    assert!(x < y);
    assert_eq!(Override { column: "a".to_string(), type_: "b".to_string() }, Override { column: "a".to_string(), type_: "b".to_string() });
}
