use ch2rs::options::parse_type;
use ch2rs::parse::parse_sql_type;
use ch2rs::schema::{sql_eq, sql_type_text};
use ch2rs::{OptionError, SqlType};

fn parsed(s: &str) -> SqlType {
    parse_sql_type(s).unwrap_or_else(|| panic!("{} did not parse", s))
}

fn assert_round_trip(s: &str) {
    assert_eq!(sql_type_text(&parsed(s)), s);
}

#[test]
fn parses_plain_types() {
    assert!(sql_eq(&parsed("UInt8"), &SqlType::UInt8));
    assert!(sql_eq(&parsed("UInt128"), &SqlType::UInt128));
    assert!(sql_eq(&parsed("Int16"), &SqlType::Int16));
    assert!(sql_eq(&parsed("Float64"), &SqlType::Float64));
    assert!(sql_eq(&parsed("Bool"), &SqlType::Bool));
    assert!(sql_eq(&parsed("String"), &SqlType::String));
    assert!(sql_eq(&parsed("UUID"), &SqlType::UUID));
    assert!(sql_eq(&parsed("Date"), &SqlType::Date));
    assert!(sql_eq(&parsed("Date32"), &SqlType::Date32));
    assert!(sql_eq(&parsed("DateTime"), &SqlType::DateTime(None)));
    assert!(sql_eq(&parsed("Time"), &SqlType::Time));
    assert!(sql_eq(&parsed("IPv4"), &SqlType::IPv4));
    assert!(sql_eq(&parsed("IPv6"), &SqlType::IPv6));
}

#[test]
fn parses_types_with_parameters() {
    assert!(sql_eq(&parsed("Decimal(18, 9)"), &SqlType::Decimal(18, 9)));
    assert!(sql_eq(&parsed("FixedString(5)"), &SqlType::FixedString(5)));
    assert!(sql_eq(&parsed("DateTime64(0)"), &SqlType::DateTime64(0, None)));
    assert!(sql_eq(
        &parsed("DateTime64(3, 'UTC')"),
        &SqlType::DateTime64(3, Some("UTC".to_string()))
    ));
    assert!(sql_eq(
        &parsed("DateTime('Europe/Moscow')"),
        &SqlType::DateTime(Some("Europe/Moscow".to_string()))
    ));
    assert!(sql_eq(&parsed("Time64(9)"), &SqlType::Time64(9)));
    assert!(sql_eq(
        &parsed("Enum8('' = -128, 'Foo Bar' = 0)"),
        &SqlType::Enum8(vec![("".to_string(), -128), ("Foo Bar".to_string(), 0)])
    ));
    assert!(sql_eq(&parsed("Enum16()"), &SqlType::Enum16(vec![])));
}

#[test]
fn parses_nested_types() {
    assert!(sql_eq(
        &parsed("Nullable(Array(String))"),
        &SqlType::Nullable(Box::new(SqlType::Array(Box::new(SqlType::String))))
    ));
    assert!(sql_eq(
        &parsed("Map(String, Array(UInt8))"),
        &SqlType::MapOf(
            Box::new(SqlType::String),
            Box::new(SqlType::Array(Box::new(SqlType::UInt8)))
        )
    ));
    assert!(sql_eq(
        &parsed("Tuple(String, Nullable(Int32), Tuple())"),
        &SqlType::Tuple(vec![
            SqlType::String,
            SqlType::Nullable(Box::new(SqlType::Int32)),
            SqlType::Tuple(vec![]),
        ])
    ));
}

#[test]
fn notation_round_trips() {
    assert_round_trip("Array(Tuple(DateTime64(6, 'Asia/Tokyo'), Decimal(38, 0)))");
    assert_round_trip("Map(String, Int8)");
    assert_round_trip("Enum16('a, b' = 1024, ')' = -32768)");
    assert_round_trip("Nullable(FixedString(4294967295))");
}

#[test]
fn rejects_what_is_not_a_notation() {
    for s in [
        "",
        "UInt8 ",
        " UInt8",
        "Int9",
        "uint8",
        "Decimal(18,9)",
        "FixedString(05)",
        "FixedString(4294967296)",
        "Nullable(UInt8",
        "Nullable(UInt8))",
        "Array()",
        "Enum8('a' = -0)",
        "Enum8('a' = 128, )",
        "Enum8('a' = 2147483648)",
        "DateTime64(3, UTC)",
        "DateTime()",
        "Map(String)",
        "LowCardinality(String)",
    ] {
        assert!(parse_sql_type(s).is_none(), "{} parsed", s);
    }
    assert!(parse_sql_type("Enum8('a' = -2147483648)").is_some());
}

#[test]
fn parse_type_reads_type_overrides() {
    let t = parse_type("FixedString(5)=[u8; 5]").unwrap();
    assert!(sql_eq(&t.sql, &SqlType::FixedString(5)));
    assert_eq!(t.type_, "[u8; 5]");
    let t = parse_type("Decimal(18, 9)=u64").unwrap();
    assert!(sql_eq(&t.sql, &SqlType::Decimal(18, 9)));
    assert_eq!(t.type_, "u64");
    assert_eq!(parse_type("FixedString(5)").err(), Some(OptionError::InvalidKeyValue));
    assert_eq!(parse_type("Fixed=u8").err(), Some(OptionError::InvalidSqlType));
}
