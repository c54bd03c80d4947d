//! Generation of the Rust source of a row type, its enums and the serde
//! modules of sentinel columns.
use vstd::prelude::*;

use crate::options::{text_views, Options, Override, Temporal, Type};
use crate::schema::{
    copy_sql_type, lemma_sql_views, sql_eq, sql_text, sql_type_text, sql_views, Column, SqlType,
    SqlTypeView, Table,
};
use crate::schema::variants_view;
use crate::case::{snake_case, to_snake_case, to_upper_camel_case, upper_camel_case};
use crate::options::options_text;
use crate::text::{
    indent_after_newlines, push_indented, trim, trimmed,
    all_white_space, contains_lifetime, has_lifetime, is_white_space, lines, prefixed_lines,
    push_prefixed_lines, push_signed_decimal, signed_decimal, str_eq, vec_has,
};

verus! {

/// Why code could not be generated.
#[derive(Debug)]
pub enum GenerateError {
    /// No Rust type is known for the ClickHouse type (its notation); `-T` or
    /// `-O` must name one.
    NoDefaultType { sql: String },
    /// A date or time precision that the temporal mode has no module for.
    UnsupportedPrecision { precision: u32, ty: String, temporal: Temporal },
    /// `-N` names a column of a type (its notation) without a default value.
    SentinelUnsupported { sql: String },
    /// `-N` names a column that is already `Nullable`.
    SentinelNullable { column: String },
    /// `-N` names a column whose type `-O` or `-T` also sets.
    SentinelWithOverride { column: String },
}

/// The value of a [`GenerateError`].
pub enum GenerateErrorView {
    NoDefaultType { sql: Seq<char> },
    UnsupportedPrecision { precision: u32, ty: Seq<char>, temporal: Temporal },
    SentinelUnsupported { sql: Seq<char> },
    SentinelNullable { column: Seq<char> },
    SentinelWithOverride { column: Seq<char> },
}

impl View for GenerateError {
    type V = GenerateErrorView;

    open spec fn view(&self) -> GenerateErrorView {
        match self {
            GenerateError::NoDefaultType { sql } => GenerateErrorView::NoDefaultType { sql: sql@ },
            GenerateError::UnsupportedPrecision { precision, ty, temporal } =>
                GenerateErrorView::UnsupportedPrecision {
                precision: *precision,
                ty: ty@,
                temporal: *temporal,
            },
            GenerateError::SentinelUnsupported { sql } => GenerateErrorView::SentinelUnsupported {
                sql: sql@,
            },
            GenerateError::SentinelNullable { column } => GenerateErrorView::SentinelNullable {
                column: column@,
            },
            GenerateError::SentinelWithOverride { column } =>
                GenerateErrorView::SentinelWithOverride { column: column@ },
        }
    }
}

/// The name of a temporal mode in messages.
pub open spec fn temporal_debug_name(t: Temporal) -> Seq<char> {
    match t {
        Temporal::Raw => "Raw"@,
        Temporal::Time => "Time"@,
        Temporal::Chrono => "Chrono"@,
    }
}

/// The message that explains an error.
pub open spec fn error_message(e: GenerateErrorView) -> Seq<char> {
    match e {
        GenerateErrorView::NoDefaultType { sql } => "there is no default impl for "@ + sql
            + ", use -T or -O to specify it"@,
        GenerateErrorView::UnsupportedPrecision { precision, ty, temporal } =>
            "Unsupported precision "@ + crate::text::decimal(precision as nat) + " for "@ + ty
            + " in "@ + temporal_debug_name(temporal) + " mode; supported: 0, 3, 6, 9"@,
        GenerateErrorView::SentinelUnsupported { sql } => "-N is not supported for type "@ + sql,
        GenerateErrorView::SentinelNullable { column } => "column `"@ + column
            + "` is already Nullable; -N is not needed"@,
        GenerateErrorView::SentinelWithOverride { column } => "column `"@ + column
            + "` has both -N and -O/-T; this combination is not supported"@,
    }
}

impl GenerateError {
    /// The message that explains the error.
    pub fn message(&self) -> (r: String)
        ensures
            r@ == error_message(self@),
    {
        let mut s = String::new();
        match self {
            GenerateError::NoDefaultType { sql } => {
                s.append("there is no default impl for ");
                s.append(sql.as_str());
                s.append(", use -T or -O to specify it");
            },
            GenerateError::UnsupportedPrecision { precision, ty, temporal } => {
                s.append("Unsupported precision ");
                crate::text::push_decimal(&mut s, *precision as u64);
                s.append(" for ");
                s.append(ty.as_str());
                s.append(" in ");
                s.append(
                    match temporal {
                        Temporal::Raw => "Raw",
                        Temporal::Time => "Time",
                        Temporal::Chrono => "Chrono",
                    },
                );
                s.append(" mode; supported: 0, 3, 6, 9");
            },
            GenerateError::SentinelUnsupported { sql } => {
                s.append("-N is not supported for type ");
                s.append(sql.as_str());
            },
            GenerateError::SentinelNullable { column } => {
                s.append("column `");
                s.append(column.as_str());
                s.append("` is already Nullable; -N is not needed");
            },
            GenerateError::SentinelWithOverride { column } => {
                s.append("column `");
                s.append(column.as_str());
                s.append("` has both -N and -O/-T; this combination is not supported");
            },
        }
        assert(s@ =~= error_message(self@));
        s
    }
}

/// The value of a generated text or of the error.
pub open spec fn text_result(r: Result<String, GenerateError>) -> Result<
    Seq<char>,
    GenerateErrorView,
> {
    match r {
        Ok(s) => Ok(s@),
        Err(e) => Err(e@),
    }
}

/// The Rust type of the first `-O` for the column `name`.
pub open spec fn name_override(os: Seq<Override>, name: Seq<char>) -> Option<Seq<char>>
    decreases os.len(),
{
    if os.len() == 0 {
        None
    } else if os[0].column@ == name {
        Some(os[0].type_@)
    } else {
        name_override(os.drop_first(), name)
    }
}

/// The Rust type of the first `-T` for the ClickHouse type `t`.
pub open spec fn type_override(ts: Seq<Type>, t: SqlTypeView) -> Option<Seq<char>>
    decreases ts.len(),
{
    if ts.len() == 0 {
        None
    } else if ts[0].sql@ == t {
        Some(ts[0].type_@)
    } else {
        type_override(ts.drop_first(), t)
    }
}

/// The Rust type that the options set for a column name and type: `-O`
/// first, then `-T`.
pub open spec fn override_for(name: Seq<char>, t: SqlTypeView, options: Options) -> Option<
    Seq<char>,
> {
    match name_override(options.overrides@, name) {
        Some(x) => Some(x),
        None => type_override(options.types@, t),
    }
}

fn find_name_override<'a>(os: &'a Vec<Override>, name: &str) -> (r: Option<&'a str>)
    ensures
        match r {
            Some(x) => name_override(os@, name@) == Some(x@),
            None => name_override(os@, name@) is None,
        },
{
    let mut i: usize = 0;
    proof {
        assert(os@.skip(0) =~= os@);
    }
    while i < os.len()
        invariant
            i <= os.len(),
            name_override(os@, name@) == name_override(os@.skip(i as int), name@),
        decreases os.len() - i,
    {
        assert(os@.skip(i as int).drop_first() =~= os@.skip(i + 1));
        if str_eq(os[i].column.as_str(), name) {
            return Some(os[i].type_.as_str());
        }
        i = i + 1;
    }
    None
}

fn find_type_override<'a>(ts: &'a Vec<Type>, t: &SqlType) -> (r: Option<&'a str>)
    ensures
        match r {
            Some(x) => type_override(ts@, t@) == Some(x@),
            None => type_override(ts@, t@) is None,
        },
{
    let mut i: usize = 0;
    proof {
        assert(ts@.skip(0) =~= ts@);
    }
    while i < ts.len()
        invariant
            i <= ts.len(),
            type_override(ts@, t@) == type_override(ts@.skip(i as int), t@),
        decreases ts.len() - i,
    {
        assert(ts@.skip(i as int).drop_first() =~= ts@.skip(i + 1));
        if sql_eq(&ts[i].sql, t) {
            return Some(ts[i].type_.as_str());
        }
        i = i + 1;
    }
    None
}

/// The Rust type that `-O` sets for the column `name`, or else that `-T`
/// sets for its type `t`.
pub fn find_override<'a>(name: &str, t: &SqlType, options: &'a Options) -> (r: Option<&'a str>)
    ensures
        match r {
            Some(x) => override_for(name@, t@, *options) == Some(x@),
            None => override_for(name@, t@, *options) is None,
        },
{
    match find_name_override(&options.overrides, name) {
        Some(x) => Some(x),
        None => find_type_override(&options.types, t),
    }
}

/// The Rust type of a date or time type in a temporal mode.
pub open spec fn temporal_type(t: SqlTypeView, mode: Temporal) -> Seq<char> {
    match mode {
        Temporal::Raw => match t {
            SqlTypeView::Date => "u16"@,
            SqlTypeView::Date32 => "i32"@,
            SqlTypeView::DateTime(_) => "u32"@,
            SqlTypeView::DateTime64(_, _) => "i64"@,
            SqlTypeView::Time => "i32"@,
            _ => "i64"@,
        },
        Temporal::Time => match t {
            SqlTypeView::Date => "::time::Date"@,
            SqlTypeView::Date32 => "::time::Date"@,
            SqlTypeView::DateTime(_) => "::time::OffsetDateTime"@,
            SqlTypeView::DateTime64(_, _) => "::time::OffsetDateTime"@,
            _ => "::time::Duration"@,
        },
        Temporal::Chrono => match t {
            SqlTypeView::Date => "::chrono::NaiveDate"@,
            SqlTypeView::Date32 => "::chrono::NaiveDate"@,
            SqlTypeView::DateTime(_) => "::chrono::DateTime<::chrono::Utc>"@,
            SqlTypeView::DateTime64(_, _) => "::chrono::DateTime<::chrono::Utc>"@,
            _ => "::chrono::Duration"@,
        },
    }
}

/// Whether a type holds a date or a time.
pub open spec fn is_temporal(t: SqlTypeView) -> bool {
    t is Date || t is Date32 || t is DateTime || t is DateTime64 || t is Time || t is Time64
}

fn temporal_rust_type(t: &SqlType, mode: Temporal) -> (r: &'static str)
    requires
        is_temporal(t@),
    ensures
        r@ == temporal_type(t@, mode),
{
    match mode {
        Temporal::Raw => match t {
            SqlType::Date => "u16",
            SqlType::Date32 => "i32",
            SqlType::DateTime(_) => "u32",
            SqlType::DateTime64(_, _) => "i64",
            SqlType::Time => "i32",
            _ => "i64",
        },
        Temporal::Time => match t {
            SqlType::Date => "::time::Date",
            SqlType::Date32 => "::time::Date",
            SqlType::DateTime(_) => "::time::OffsetDateTime",
            SqlType::DateTime64(_, _) => "::time::OffsetDateTime",
            _ => "::time::Duration",
        },
        Temporal::Chrono => match t {
            SqlType::Date => "::chrono::NaiveDate",
            SqlType::Date32 => "::chrono::NaiveDate",
            SqlType::DateTime(_) => "::chrono::DateTime<::chrono::Utc>",
            SqlType::DateTime64(_, _) => "::chrono::DateTime<::chrono::Utc>",
            _ => "::chrono::Duration",
        },
    }
}

/// The Rust type of a type that needs neither recursion nor a name: `None`
/// for the others.
pub open spec fn scalar_type(t: SqlTypeView, options: Options) -> Option<Seq<char>> {
    match t {
        SqlTypeView::UInt8 => Some("u8"@),
        SqlTypeView::UInt16 => Some("u16"@),
        SqlTypeView::UInt32 => Some("u32"@),
        SqlTypeView::UInt64 => Some("u64"@),
        SqlTypeView::UInt128 => Some("u128"@),
        SqlTypeView::Int8 => Some("i8"@),
        SqlTypeView::Int16 => Some("i16"@),
        SqlTypeView::Int32 => Some("i32"@),
        SqlTypeView::Int64 => Some("i64"@),
        SqlTypeView::Int128 => Some("i128"@),
        SqlTypeView::Bool => Some("bool"@),
        SqlTypeView::String => Some(
            if options.owned {
                "String"@
            } else {
                "&'a str"@
            },
        ),
        SqlTypeView::Float32 => Some("f32"@),
        SqlTypeView::Float64 => Some("f64"@),
        SqlTypeView::IPv4 => Some("::std::net::Ipv4Addr"@),
        SqlTypeView::IPv6 => Some("::std::net::Ipv6Addr"@),
        SqlTypeView::UUID => Some("::uuid::Uuid"@),
        _ => if is_temporal(t) {
            Some(temporal_type(t, options.temporal))
        } else {
            None
        },
    }
}

fn scalar_rust_type(t: &SqlType, options: &Options) -> (r: Option<&'static str>)
    ensures
        match r {
            Some(x) => scalar_type(t@, *options) == Some(x@),
            None => scalar_type(t@, *options) is None,
        },
{
    match t {
        SqlType::UInt8 => Some("u8"),
        SqlType::UInt16 => Some("u16"),
        SqlType::UInt32 => Some("u32"),
        SqlType::UInt64 => Some("u64"),
        SqlType::UInt128 => Some("u128"),
        SqlType::Int8 => Some("i8"),
        SqlType::Int16 => Some("i16"),
        SqlType::Int32 => Some("i32"),
        SqlType::Int64 => Some("i64"),
        SqlType::Int128 => Some("i128"),
        SqlType::Bool => Some("bool"),
        SqlType::String => Some(
            if options.owned {
                "String"
            } else {
                "&'a str"
            },
        ),
        SqlType::Float32 => Some("f32"),
        SqlType::Float64 => Some("f64"),
        SqlType::IPv4 => Some("::std::net::Ipv4Addr"),
        SqlType::IPv6 => Some("::std::net::Ipv6Addr"),
        SqlType::UUID => Some("::uuid::Uuid"),
        SqlType::Date | SqlType::Date32 | SqlType::DateTime(_) | SqlType::DateTime64(_, _)
        | SqlType::Time | SqlType::Time64(_) => Some(temporal_rust_type(t, options.temporal)),
        _ => None,
    }
}

/// The Rust type of a column named `name` (whose enum type is named
/// `enum_name`) for the ClickHouse type `t`.
pub open spec fn rust_type(name: Seq<char>, enum_name: Seq<char>, t: SqlTypeView, options: Options) -> Result<
    Seq<char>,
    GenerateErrorView,
>
    decreases t,
{
    match override_for(name, t, options) {
        Some(x) => Ok(x),
        None => match scalar_type(t, options) {
            Some(x) => Ok(x),
            None => match t {
                SqlTypeView::Enum8(_) => Ok(enum_name),
                SqlTypeView::Enum16(_) => Ok(enum_name),
                SqlTypeView::Array(inner) => match rust_type(name, enum_name, *inner, options) {
                    Ok(x) => Ok("Vec<"@ + x + ">"@),
                    Err(e) => Err(e),
                },
                SqlTypeView::Nullable(inner) => match rust_type(name, enum_name, *inner, options) {
                    Ok(x) => Ok("Option<"@ + x + ">"@),
                    Err(e) => Err(e),
                },
                SqlTypeView::Tuple(items) => match rust_types(name, enum_name, items, options) {
                    Ok(x) => Ok("("@ + x + ")"@),
                    Err(e) => Err(e),
                },
                SqlTypeView::MapOf(k, v) => {
                    let entry = SqlTypeView::Tuple(seq![*k, *v]);
                    match override_for(name, SqlTypeView::Array(Box::new(entry)), options) {
                        Some(x) => Ok(x),
                        None => match override_for(name, entry, options) {
                            Some(x) => Ok("Vec<"@ + x + ">"@),
                            None => match rust_type(name, enum_name, *k, options) {
                                Err(e) => Err(e),
                                Ok(a) => match rust_type(name, enum_name, *v, options) {
                                    Err(e) => Err(e),
                                    Ok(b) => Ok("Vec<("@ + a + ", "@ + b + ", )>"@),
                                },
                            },
                        },
                    }
                },
                _ => Err(GenerateErrorView::NoDefaultType { sql: sql_text(t) }),
            },
        },
    }
}

/// The Rust types of the items of a tuple, each followed by `, `; the first
/// error if any.
pub open spec fn rust_types(
    name: Seq<char>,
    enum_name: Seq<char>,
    items: Seq<SqlTypeView>,
    options: Options,
) -> Result<Seq<char>, GenerateErrorView>
    decreases items,
{
    if items.len() == 0 {
        Ok(Seq::empty())
    } else {
        match rust_types(name, enum_name, items.subrange(0, items.len() - 1), options) {
            Err(e) => Err(e),
            Ok(p) => match rust_type(name, enum_name, items[items.len() - 1], options) {
                Err(e) => Err(e),
                Ok(x) => Ok(p + x + ", "@),
            },
        }
    }
}

proof fn lemma_rust_types_err(
    name: Seq<char>,
    enum_name: Seq<char>,
    items: Seq<SqlTypeView>,
    j: int,
    options: Options,
)
    requires
        0 <= j <= items.len(),
        rust_types(name, enum_name, items.take(j), options) is Err,
    ensures
        rust_types(name, enum_name, items, options) == rust_types(
            name,
            enum_name,
            items.take(j),
            options,
        ),
    decreases items.len() - j,
{
    if j < items.len() {
        let w = items.take(j + 1);
        assert(w.subrange(0, w.len() - 1) =~= items.take(j));
        lemma_rust_types_err(name, enum_name, items, j + 1, options);
    } else {
        assert(items.take(j) =~= items);
    }
}

/// The tuple of a key type and a value type, whose array is a map type.
fn map_entry_type(k: &SqlType, v: &SqlType) -> (r: SqlType)
    ensures
        r@ == SqlTypeView::Tuple(seq![k@, v@]),
{
    let items = vec![copy_sql_type(k), copy_sql_type(v)];
    proof {
        lemma_sql_views(items@);
        assert(sql_views(items@) =~= seq![k@, v@]);
    }
    SqlType::Tuple(items)
}

/// The Rust type for the ClickHouse type `t` of the column `name`, whose
/// enum type is named `enum_name`.
#[verifier::loop_isolation(false)]
pub fn do_make_type(name: &str, enum_name: &str, t: &SqlType, options: &Options) -> (r: Result<
    String,
    GenerateError,
>)
    ensures
        text_result(r) == rust_type(name@, enum_name@, t@, *options),
    decreases t,
{
    if let Some(x) = find_override(name, t, options) {
        return Ok(String::from_str(x));
    }
    if let Some(x) = scalar_rust_type(t, options) {
        return Ok(String::from_str(x));
    }
    match t {
        SqlType::Enum8(_) | SqlType::Enum16(_) => Ok(String::from_str(enum_name)),
        SqlType::Array(inner) => {
            let x = do_make_type(name, enum_name, inner, options)?;
            let mut s = String::from_str("Vec<");
            s.append(x.as_str());
            s.append(">");
            Ok(s)
        },
        SqlType::Nullable(inner) => {
            let x = do_make_type(name, enum_name, inner, options)?;
            let mut s = String::from_str("Option<");
            s.append(x.as_str());
            s.append(">");
            Ok(s)
        },
        SqlType::Tuple(items) => {
            let mut s = String::from_str("(");
            let mut i: usize = 0;
            proof {
                lemma_sql_views(items@);
                assert(sql_views(items@).take(0) =~= Seq::<SqlTypeView>::empty());
                assert(s@ =~= "("@ + Seq::<char>::empty());
            }
            while i < items.len()
                invariant
                    i <= items.len(),
                    rust_types(name@, enum_name@, sql_views(items@).take(i as int), *options)
                        matches Ok(p) && s@ == "("@ + p,
                decreases items.len() - i,
            {
                assert(decreases_to!(t => items@[i as int]));
                let x = do_make_type(name, enum_name, &items[i], options);
                let ghost w = sql_views(items@).take(i + 1);
                proof {
                    assert(w.subrange(0, w.len() - 1) =~= sql_views(items@).take(i as int));
                }
                match x {
                    Err(e) => {
                        proof {
                            lemma_rust_types_err(
                                name@,
                                enum_name@,
                                sql_views(items@),
                                i + 1,
                                *options,
                            );
                        }
                        return Err(e);
                    },
                    Ok(x) => {
                        s.append(x.as_str());
                        s.append(", ");
                    },
                }
                i = i + 1;
            }
            assert(sql_views(items@).take(items.len() as int) =~= sql_views(items@));
            s.append(")");
            Ok(s)
        },
        SqlType::MapOf(k, v) => {
            let entries = SqlType::Array(Box::new(map_entry_type(k, v)));
            if let Some(x) = find_override(name, &entries, options) {
                return Ok(String::from_str(x));
            }
            let entry = map_entry_type(k, v);
            if let Some(x) = find_override(name, &entry, options) {
                let mut s = String::from_str("Vec<");
                s.append(x);
                s.append(">");
                return Ok(s);
            }
            let a = do_make_type(name, enum_name, k, options)?;
            let b = do_make_type(name, enum_name, v, options)?;
            let mut s = String::from_str("Vec<(");
            s.append(a.as_str());
            s.append(", ");
            s.append(b.as_str());
            s.append(", )>");
            Ok(s)
        },
        _ => Err(GenerateError::NoDefaultType { sql: sql_type_text(t) }),
    }
}

/// The module path of the serde helpers of a temporal mode: `None` in raw
/// mode; an error for a precision other than 0, 3, 6 and 9.
pub open spec fn temporal_module(mode: Temporal, ty: Seq<char>, precision: Option<u32>) -> Result<
    Option<Seq<char>>,
    GenerateErrorView,
> {
    let base = if mode == Temporal::Time {
        "::clickhouse::serde::time::"@
    } else {
        "::clickhouse::serde::chrono::"@
    };
    if mode == Temporal::Raw {
        Ok(None)
    } else {
        match precision {
            None => Ok(Some(base + ty)),
            Some(p) => if p == 0 {
                Ok(Some(base + ty + "::secs"@))
            } else if p == 3 {
                Ok(Some(base + ty + "::millis"@))
            } else if p == 6 {
                Ok(Some(base + ty + "::micros"@))
            } else if p == 9 {
                Ok(Some(base + ty + "::nanos"@))
            } else {
                Err(
                    GenerateErrorView::UnsupportedPrecision {
                        precision: p,
                        ty: ty,
                        temporal: mode,
                    },
                )
            },
        }
    }
}

/// The value of an optional text or of the error.
pub open spec fn opt_text_result(r: Result<Option<String>, GenerateError>) -> Result<
    Option<Seq<char>>,
    GenerateErrorView,
> {
    match r {
        Ok(Some(s)) => Ok(Some(s@)),
        Ok(None) => Ok(None),
        Err(e) => Err(e@),
    }
}

/// The serde helper module for a temporal type `ty` (such as `datetime64`)
/// of a precision, in a temporal mode.
pub fn temporal_path(mode: Temporal, ty: &str, precision: Option<u32>) -> (r: Result<
    Option<String>,
    GenerateError,
>)
    ensures
        opt_text_result(r) == temporal_module(mode, ty@, precision),
{
    let base = match mode {
        Temporal::Time => "::clickhouse::serde::time::",
        Temporal::Chrono => "::clickhouse::serde::chrono::",
        Temporal::Raw => {
            return Ok(None);
        },
    };
    let suffix = match precision {
        None => "",
        Some(0) => "::secs",
        Some(3) => "::millis",
        Some(6) => "::micros",
        Some(9) => "::nanos",
        Some(p) => {
            return Err(
                GenerateError::UnsupportedPrecision {
                    precision: p,
                    ty: String::from_str(ty),
                    temporal: mode,
                },
            );
        },
    };
    let mut s = String::from_str(base);
    s.append(ty);
    s.append(suffix);
    proof {
        if precision is None {
            reveal_strlit("");
            assert(s@ =~= base@ + ty@);
        }
    }
    Ok(Some(s))
}

/// The Rust type of a sentinel column and the literal of its default value,
/// or an error for a type without one.
pub open spec fn sentinel_type(t: SqlTypeView) -> Result<(Seq<char>, Seq<char>), GenerateErrorView> {
    match t {
        SqlTypeView::String => Ok(("String"@, "\"\""@)),
        SqlTypeView::UInt8 => Ok(("u8"@, "0u8"@)),
        SqlTypeView::UInt16 => Ok(("u16"@, "0u16"@)),
        SqlTypeView::UInt32 => Ok(("u32"@, "0u32"@)),
        SqlTypeView::UInt64 => Ok(("u64"@, "0u64"@)),
        SqlTypeView::UInt128 => Ok(("u128"@, "0u128"@)),
        SqlTypeView::Int8 => Ok(("i8"@, "0i8"@)),
        SqlTypeView::Int16 => Ok(("i16"@, "0i16"@)),
        SqlTypeView::Int32 => Ok(("i32"@, "0i32"@)),
        SqlTypeView::Int64 => Ok(("i64"@, "0i64"@)),
        SqlTypeView::Int128 => Ok(("i128"@, "0i128"@)),
        SqlTypeView::Float32 => Ok(("f32"@, "0f32"@)),
        SqlTypeView::Float64 => Ok(("f64"@, "0f64"@)),
        _ => Err(GenerateErrorView::SentinelUnsupported { sql: sql_text(t) }),
    }
}

/// The Rust type of a sentinel column of type `t` and the literal of its
/// default value.
pub fn sentinel_info(t: &SqlType) -> (r: Result<(&'static str, &'static str), GenerateError>)
    ensures
        match r {
            Ok((a, b)) => sentinel_type(t@) == Ok::<(Seq<char>, Seq<char>), GenerateErrorView>(
                (a@, b@),
            ),
            Err(e) => sentinel_type(t@) == Err::<(Seq<char>, Seq<char>), GenerateErrorView>(e@),
        },
{
    match t {
        SqlType::String => Ok(("String", "\"\"")),
        SqlType::UInt8 => Ok(("u8", "0u8")),
        SqlType::UInt16 => Ok(("u16", "0u16")),
        SqlType::UInt32 => Ok(("u32", "0u32")),
        SqlType::UInt64 => Ok(("u64", "0u64")),
        SqlType::UInt128 => Ok(("u128", "0u128")),
        SqlType::Int8 => Ok(("i8", "0i8")),
        SqlType::Int16 => Ok(("i16", "0i16")),
        SqlType::Int32 => Ok(("i32", "0i32")),
        SqlType::Int64 => Ok(("i64", "0i64")),
        SqlType::Int128 => Ok(("i128", "0i128")),
        SqlType::Float32 => Ok(("f32", "0f32")),
        SqlType::Float64 => Ok(("f64", "0f64")),
        _ => Err(GenerateError::SentinelUnsupported { sql: sql_type_text(t) }),
    }
}

/// Whether `-N` names the column.
pub open spec fn is_sentinel_column(name: Seq<char>, options: Options) -> bool {
    crate::text::seq_has(options.sentinels@, name)
}

/// Whether `-N` names the column `column_name`.
pub fn is_sentinel(column_name: &str, options: &Options) -> (r: bool)
    ensures
        r == is_sentinel_column(column_name@, *options),
{
    vec_has(&options.sentinels, column_name)
}

/// The name of the serde module of a sentinel column, from the column's
/// field name.
pub open spec fn sentinel_module(field: Seq<char>) -> Seq<char> {
    "sentinel_"@ + field
}

/// The name of the serde module of the sentinel column `column_name`.
pub fn sentinel_mod_name(column_name: &str) -> (r: String)
    ensures
        r@ == sentinel_module(snake_case(column_name@)),
{
    let field = to_snake_case(column_name);
    field_sentinel_mod_name(field.as_str())
}

/// The name of the serde module of a sentinel column whose field is named
/// `field`.
pub fn field_sentinel_mod_name(field: &str) -> (r: String)
    ensures
        r@ == sentinel_module(field@),
{
    let mut s = String::from_str("sentinel_");
    s.append(field);
    s
}

/// The serde helper module of a type that is not `Nullable`, if it has one.
pub open spec fn serde_module(t: SqlTypeView, mode: Temporal) -> Result<
    Option<Seq<char>>,
    GenerateErrorView,
> {
    match t {
        SqlTypeView::UUID => Ok(Some("::clickhouse::serde::uuid"@)),
        SqlTypeView::IPv4 => Ok(Some("::clickhouse::serde::ipv4"@)),
        SqlTypeView::Date => temporal_module(mode, "date"@, None),
        SqlTypeView::Date32 => temporal_module(mode, "date32"@, None),
        SqlTypeView::DateTime(_) => temporal_module(mode, "datetime"@, None),
        SqlTypeView::DateTime64(p, _) => temporal_module(mode, "datetime64"@, Some(p)),
        SqlTypeView::Time => temporal_module(mode, "time"@, None),
        SqlTypeView::Time64(p) => temporal_module(mode, "time64"@, Some(p)),
        _ => Ok(None),
    }
}

/// The `serde(with)` attribute line of a field: for `-B` columns, for
/// sentinel columns, and for columns without an override whose type needs
/// a helper module.
pub open spec fn field_attribute(column: Column, field: Seq<char>, options: Options) -> Result<
    Option<Seq<char>>,
    GenerateErrorView,
> {
    if crate::text::seq_has(options.bytes@, column.name@) {
        Ok(Some("    #[serde(with = \"serde_bytes\")]"@))
    } else if is_sentinel_column(column.name@, options) {
        Ok(Some("    #[serde(with = \""@ + sentinel_module(field) + "\")]"@))
    } else if override_for(column.name@, column.type_@, options) is Some {
        Ok(None)
    } else {
        let (inner, is_option) = match column.type_@ {
            SqlTypeView::Nullable(inner) => (*inner, true),
            t => (t, false),
        };
        match serde_module(inner, options.temporal) {
            Err(e) => Err(e),
            Ok(None) => Ok(None),
            Ok(Some(base)) => Ok(
                Some(
                    "    #[serde(with = \""@ + base + (if is_option {
                        "::option"@
                    } else {
                        Seq::empty()
                    }) + "\")]"@,
                ),
            ),
        }
    }
}

fn serde_path(t: &SqlType, mode: Temporal) -> (r: Result<Option<String>, GenerateError>)
    ensures
        opt_text_result(r) == serde_module(t@, mode),
{
    match t {
        SqlType::UUID => Ok(Some(String::from_str("::clickhouse::serde::uuid"))),
        SqlType::IPv4 => Ok(Some(String::from_str("::clickhouse::serde::ipv4"))),
        SqlType::Date => temporal_path(mode, "date", None),
        SqlType::Date32 => temporal_path(mode, "date32", None),
        SqlType::DateTime(_) => temporal_path(mode, "datetime", None),
        SqlType::DateTime64(p, _) => temporal_path(mode, "datetime64", Some(*p)),
        SqlType::Time => temporal_path(mode, "time", None),
        SqlType::Time64(p) => temporal_path(mode, "time64", Some(*p)),
        _ => Ok(None),
    }
}

/// The `serde(with)` attribute line of the field of `column`, whose field
/// name is `field`.
pub fn make_attribute(column: &Column, field: &str, options: &Options) -> (r: Result<
    Option<String>,
    GenerateError,
>)
    ensures
        opt_text_result(r) == field_attribute(*column, field@, *options),
{
    if vec_has(&options.bytes, column.name.as_str()) {
        return Ok(Some(String::from_str("    #[serde(with = \"serde_bytes\")]")));
    }
    if is_sentinel(column.name.as_str(), options) {
        let mod_name = field_sentinel_mod_name(field);
        let mut s = String::from_str("    #[serde(with = \"");
        s.append(mod_name.as_str());
        s.append("\")]");
        return Ok(Some(s));
    }
    if find_override(column.name.as_str(), &column.type_, options).is_some() {
        return Ok(None);
    }
    let (inner, is_option) = match &column.type_ {
        SqlType::Nullable(inner) => (&**inner, true),
        t => (t, false),
    };
    let base = match serde_path(inner, options.temporal)? {
        Some(base) => base,
        None => {
            return Ok(None);
        },
    };
    let mut s = String::from_str("    #[serde(with = \"");
    s.append(base.as_str());
    if is_option {
        s.append("::option");
    }
    s.append("\")]");
    proof {
        if !is_option {
            assert(s@ =~= "    #[serde(with = \""@ + base@ + Seq::<char>::empty() + "\")]"@);
        }
    }
    Ok(Some(s))
}

/// The Rust type of the field of a column: `Option` of the sentinel type for
/// sentinel columns.
pub open spec fn field_type(column: Column, enum_name: Seq<char>, options: Options) -> Result<
    Seq<char>,
    GenerateErrorView,
> {
    if is_sentinel_column(column.name@, options) {
        match sentinel_type(column.type_@) {
            Ok((t, _)) => Ok("Option<"@ + t + ">"@),
            Err(e) => Err(e),
        }
    } else {
        rust_type(column.name@, enum_name, column.type_@, options)
    }
}

/// The Rust type of the field of `column`, whose enum type is named
/// `enum_name`.
pub fn make_type(column: &Column, enum_name: &str, options: &Options) -> (r: Result<
    String,
    GenerateError,
>)
    ensures
        text_result(r) == field_type(*column, enum_name@, *options),
{
    if is_sentinel(column.name.as_str(), options) {
        let (rust_type, _) = sentinel_info(&column.type_)?;
        let mut s = String::from_str("Option<");
        s.append(rust_type);
        s.append(">");
        return Ok(s);
    }
    do_make_type(column.name.as_str(), enum_name, &column.type_, options)
}

/// The first enum type within a type, through arrays, tuples, maps (key
/// first) and `Nullable`, and whether it is an `Enum16`.
pub open spec fn enum_of(t: SqlTypeView) -> Option<(bool, Seq<(Seq<char>, i32)>)>
    decreases t,
{
    match t {
        SqlTypeView::Enum8(v) => Some((false, v)),
        SqlTypeView::Enum16(v) => Some((true, v)),
        SqlTypeView::Array(inner) => enum_of(*inner),
        SqlTypeView::Nullable(inner) => enum_of(*inner),
        SqlTypeView::Tuple(items) => enum_of_items(items),
        SqlTypeView::MapOf(k, v) => match enum_of(*k) {
            Some(x) => Some(x),
            None => enum_of(*v),
        },
        _ => None,
    }
}

/// The first enum type within a sequence of types.
pub open spec fn enum_of_items(items: Seq<SqlTypeView>) -> Option<(bool, Seq<(Seq<char>, i32)>)>
    decreases items,
{
    if items.len() == 0 {
        None
    } else {
        match enum_of(items[0]) {
            Some(x) => Some(x),
            None => enum_of_items(items.subrange(1, items.len() as int)),
        }
    }
}

/// The first enum type within `t`, and whether it is an `Enum16`.
#[verifier::loop_isolation(false)]
pub fn find_enum(t: &SqlType) -> (r: Option<(bool, &Vec<(String, i32)>)>)
    ensures
        match r {
            Some((e, v)) => enum_of(t@) == Some((e, variants_view(v@))),
            None => enum_of(t@) is None,
        },
    decreases t,
{
    match t {
        SqlType::Enum8(v) => Some((false, v)),
        SqlType::Enum16(v) => Some((true, v)),
        SqlType::Array(inner) => find_enum(inner),
        SqlType::Nullable(inner) => find_enum(inner),
        SqlType::Tuple(items) => {
            let mut i: usize = 0;
            proof {
                lemma_sql_views(items@);
                assert(sql_views(items@).skip(0) =~= sql_views(items@));
            }
            while i < items.len()
                invariant
                    i <= items.len(),
                    enum_of(t@) == enum_of_items(sql_views(items@).skip(i as int)),
                decreases items.len() - i,
            {
                let ghost rest = sql_views(items@).skip(i as int);
                assert(rest.subrange(1, rest.len() as int) =~= sql_views(items@).skip(i + 1));
                assert(rest[0] == items@[i as int]@);
                assert(decreases_to!(t => items@[i as int]));
                if let Some(x) = find_enum(&items[i]) {
                    return Some(x);
                }
                i = i + 1;
            }
            None
        },
        SqlType::MapOf(k, v) => match find_enum(k) {
            Some(x) => Some(x),
            None => find_enum(v),
        },
        _ => None,
    }
}

/// The names that case conversion gives a column: the field name, the name
/// of its enum type, and the identifier of every variant of that enum.
pub struct ColumnNames {
    pub field: String,
    pub enum_name: String,
    pub variants: Vec<String>,
}

/// The value of [`ColumnNames`].
pub struct ColumnNamesView {
    pub field: Seq<char>,
    pub enum_name: Seq<char>,
    pub variants: Seq<Seq<char>>,
}

impl View for ColumnNames {
    type V = ColumnNamesView;

    open spec fn view(&self) -> ColumnNamesView {
        ColumnNamesView {
            field: self.field@,
            enum_name: self.enum_name@,
            variants: text_views(self.variants@),
        }
    }
}

/// The value of every entry.
pub open spec fn names_view(names: Seq<ColumnNames>) -> Seq<ColumnNamesView> {
    names.map_values(|c: ColumnNames| c@)
}

/// Whether `r` and the text that `dst` gained agree with `expected`: `Ok`
/// with that text appended, or the expected error with `partial`, the text
/// written before the error came, appended.
pub open spec fn wrote(
    r: Result<(), GenerateError>,
    before: Seq<char>,
    after: Seq<char>,
    expected: Result<Seq<char>, GenerateErrorView>,
    partial: Seq<char>,
) -> bool {
    match expected {
        Ok(t) => r is Ok && after == before + t,
        Err(e) => r matches Err(x) && x@ == e && after == before + partial,
    }
}

/// The attribute line, if any, with its line break.
pub open spec fn attribute_line(a: Option<Seq<char>>) -> Seq<char> {
    match a {
        Some(x) => x + "\n"@,
        None => Seq::empty(),
    }
}

/// The text of the field of a column: its attribute, its comment as doc
/// comment lines, and the field itself.
pub open spec fn field_text(
    column: Column,
    field: Seq<char>,
    enum_name: Seq<char>,
    options: Options,
) -> Result<Seq<char>, GenerateErrorView> {
    match field_attribute(column, field, options) {
        Err(e) => Err(e),
        Ok(a) => match field_type(column, enum_name, options) {
            Err(e) => Err(e),
            Ok(t) => Ok(
                attribute_line(a) + prefixed_lines(lines(column.comment@), "    /// "@)
                    + "    pub "@ + field + ": "@ + t + ",\n"@,
            ),
        },
    }
}

/// What the field of a column writes before its type is known: its
/// attribute line, if the attribute could be made.
pub open spec fn field_written(column: Column, field: Seq<char>, options: Options) -> Seq<char> {
    match field_attribute(column, field, options) {
        Ok(a) => attribute_line(a),
        Err(_) => Seq::empty(),
    }
}

/// Appends the field of `column`, named as `names` says. Where the type
/// cannot be made, the attribute line stays written.
pub fn generate_field(dst: &mut String, column: &Column, names: &ColumnNames, options: &Options) -> (r: Result<(), GenerateError>)
    ensures
        wrote(
            r,
            old(dst)@,
            final(dst)@,
            field_text(*column, names.field@, names.enum_name@, *options),
            field_written(*column, names.field@, *options),
        ),
{
    let attr = make_attribute(column, names.field.as_str(), options)?;
    let ghost start = dst@;
    match &attr {
        Some(a) => {
            dst.append(a.as_str());
            dst.append("\n");
        },
        None => {},
    }
    assert(dst@ =~= start + field_written(*column, names.field@, *options));
    let ty = make_type(column, names.enum_name.as_str(), options)?;
    push_prefixed_lines(dst, column.comment.as_str(), "    /// ");
    dst.append("    pub ");
    dst.append(names.field.as_str());
    dst.append(": ");
    dst.append(ty.as_str());
    dst.append(",\n");
    assert(dst@ =~= start + field_text(*column, names.field@, names.enum_name@, *options)->Ok_0);
    Ok(())
}

/// The `derive` lines of the traits that `--derive` names.
pub open spec fn derive_lines(ds: Seq<String>) -> Seq<char>
    decreases ds.len(),
{
    if ds.len() == 0 {
        Seq::empty()
    } else {
        derive_lines(ds.drop_last()) + "#[derive("@ + ds.last()@ + ")]\n"@
    }
}

fn push_derive_lines(dst: &mut String, ds: &Vec<String>)
    ensures
        final(dst)@ == old(dst)@ + derive_lines(ds@),
{
    let mut i: usize = 0;
    proof {
        assert(ds@.take(0) =~= Seq::<String>::empty());
        assert(dst@ =~= old(dst)@ + derive_lines(ds@.take(0)));
    }
    while i < ds.len()
        invariant
            i <= ds.len(),
            dst@ == old(dst)@ + derive_lines(ds@.take(i as int)),
        decreases ds.len() - i,
    {
        dst.append("#[derive(");
        dst.append(ds[i].as_str());
        dst.append(")]\n");
        proof {
            assert(ds@.take(i + 1).drop_last() =~= ds@.take(i as int));
            assert(dst@ =~= old(dst)@ + derive_lines(ds@.take(i + 1)));
        }
        i = i + 1;
    }
    assert(ds@.take(ds.len() as int) =~= ds@);
}

/// The fields of the first `n` columns, or the first error.
pub open spec fn fields_text(
    columns: Seq<Column>,
    names: Seq<ColumnNamesView>,
    options: Options,
    n: int,
) -> Result<Seq<char>, GenerateErrorView>
    decreases n,
{
    if n <= 0 {
        Ok(Seq::empty())
    } else {
        match fields_text(columns, names, options, n - 1) {
            Err(e) => Err(e),
            Ok(p) => match field_text(
                columns[n - 1],
                names[n - 1].field,
                names[n - 1].enum_name,
                options,
            ) {
                Err(e) => Err(e),
                Ok(f) => Ok(p + f),
            },
        }
    }
}

proof fn lemma_fields_text_err(
    columns: Seq<Column>,
    names: Seq<ColumnNamesView>,
    options: Options,
    j: int,
    n: int,
)
    requires
        0 <= j <= n,
        fields_text(columns, names, options, j) is Err,
    ensures
        fields_text(columns, names, options, n) == fields_text(columns, names, options, j),
    decreases n - j,
{
    if j < n {
        lemma_fields_text_err(columns, names, options, j, n - 1);
    }
}

/// The derive lines above the row struct.
pub open spec fn row_header(options: Options) -> Seq<char> {
    "#[derive(Debug, clickhouse::Row)]\n"@ + (if options.serialize {
        "#[derive(serde::Serialize)]\n"@
    } else {
        Seq::empty()
    }) + (if options.deserialize {
        "#[derive(serde::Deserialize)]\n"@
    } else {
        Seq::empty()
    }) + derive_lines(options.derives@)
}

/// Whether the type of one of the first `n` fields borrows with the
/// lifetime `'a`.
pub open spec fn fields_borrow(
    columns: Seq<Column>,
    names: Seq<ColumnNamesView>,
    options: Options,
    n: int,
) -> bool
    decreases n,
{
    if n <= 0 {
        false
    } else {
        fields_borrow(columns, names, options, n - 1) || (field_type(
            columns[n - 1],
            names[n - 1].enum_name,
            options,
        ) matches Ok(t) && has_lifetime(t))
    }
}

/// The row struct: borrowing with the lifetime `'a` when the type of one of
/// its fields mentions `'a` (a doc comment that does is no reason).
pub open spec fn row_text(table: Table, names: Seq<ColumnNamesView>, options: Options) -> Result<
    Seq<char>,
    GenerateErrorView,
> {
    match fields_text(table.columns@, names, options, table.columns@.len() as int) {
        Err(e) => Err(e),
        Ok(f) => Ok(
            row_header(options) + (if fields_borrow(
                table.columns@,
                names,
                options,
                table.columns@.len() as int,
            ) {
                "pub struct Row<'a> {\n"@
            } else {
                "pub struct Row {\n"@
            }) + f + "}\n"@,
        ),
    }
}

/// Whether `names` has an entry for every column, and an identifier for
/// every variant of the enum of its column.
pub open spec fn names_fit(table: Table, names: Seq<ColumnNamesView>) -> bool {
    &&& names.len() == table.columns@.len()
    &&& forall|i: int|
        0 <= i < names.len() ==> match enum_of(#[trigger] table.columns@[i].type_@) {
            Some((_, v)) => names[i].variants.len() == v.len(),
            None => true,
        }
}

fn push_row_header(dst: &mut String, options: &Options)
    ensures
        final(dst)@ == old(dst)@ + row_header(*options),
{
    dst.append("#[derive(Debug, clickhouse::Row)]\n");
    if options.serialize {
        dst.append("#[derive(serde::Serialize)]\n");
    }
    if options.deserialize {
        dst.append("#[derive(serde::Deserialize)]\n");
    }
    push_derive_lines(dst, &options.derives);
    assert(final(dst)@ =~= old(dst)@ + row_header(*options));
}

/// Appends the row struct of `table`. Where a field cannot be made, the
/// derive lines above the struct stay written.
pub fn generate_row(dst: &mut String, table: &Table, names: &Vec<ColumnNames>, options: &Options) -> (r: Result<(), GenerateError>)
    requires
        names@.len() == table.columns@.len(),
    ensures
        wrote(
            r,
            old(dst)@,
            final(dst)@,
            row_text(*table, names_view(names@), *options),
            row_header(*options),
        ),
{
    push_row_header(dst, options);
    let mut buffer = String::new();
    let mut borrows = false;
    let mut i: usize = 0;
    while i < table.columns.len()
        invariant
            i <= table.columns.len(),
            names@.len() == table.columns@.len(),
            dst@ == old(dst)@ + row_header(*options),
            fields_text(table.columns@, names_view(names@), *options, i as int) == Ok::<
                Seq<char>,
                GenerateErrorView,
            >(buffer@),
            borrows == fields_borrow(table.columns@, names_view(names@), *options, i as int),
        decreases table.columns.len() - i,
    {
        let res = generate_field(&mut buffer, &table.columns[i], &names[i], options);
        match res {
            Err(e) => {
                proof {
                    lemma_fields_text_err(
                        table.columns@,
                        names_view(names@),
                        *options,
                        i + 1,
                        table.columns@.len() as int,
                    );
                }
                return Err(e);
            },
            Ok(()) => {},
        }
        if let Ok(ty) = make_type(&table.columns[i], names[i].enum_name.as_str(), options) {
            if contains_lifetime(ty.as_str()) {
                borrows = true;
            }
        }
        i = i + 1;
    }
    if borrows {
        dst.append("pub struct Row<'a> {\n");
    } else {
        dst.append("pub struct Row {\n");
    }
    dst.append(buffer.as_str());
    dst.append("}\n");
    assert(final(dst)@ =~= old(dst)@ + row_text(*table, names_view(names@), *options)->Ok_0);
    Ok(())
}

/// The identifier of an enum variant: `Empty` for a name of white space
/// only, else the name in upper camel case (given as `camel`).
pub open spec fn variant_ident(name: Seq<char>, camel: Seq<char>) -> Seq<char> {
    if forall|i: int| 0 <= i < name.len() ==> is_white_space(#[trigger] name[i]) {
        "Empty"@
    } else {
        camel
    }
}

/// The identifier of the enum variant `name`.
pub fn prepare_name_ident(name: &str) -> (r: String)
    ensures
        r@ == variant_ident(name@, upper_camel_case(name@)),
{
    let camel = to_upper_camel_case(name);
    ident_from_camel(name, camel.as_str())
}

/// The identifier of the enum variant `name`, whose upper camel case form
/// is `camel`.
pub fn ident_from_camel(name: &str, camel: &str) -> (r: String)
    ensures
        r@ == variant_ident(name@, camel@),
{
    if all_white_space(name) {
        String::from_str("Empty")
    } else {
        String::from_str(camel)
    }
}

/// The lines of the first `n` variants.
pub open spec fn variant_lines(v: Seq<(Seq<char>, i32)>, idents: Seq<Seq<char>>, n: int) -> Seq<char>
    decreases n,
{
    if n <= 0 {
        Seq::empty()
    } else {
        variant_lines(v, idents, n - 1) + "    "@ + variant_ident(v[n - 1].0, idents[n - 1])
            + " = "@ + signed_decimal(v[n - 1].1 as int) + ",\n"@
    }
}

/// The text of an enum type: its derives, its representation and its
/// variants with their values.
pub open spec fn enum_text(
    name: Seq<char>,
    is_extended: bool,
    v: Seq<(Seq<char>, i32)>,
    idents: Seq<Seq<char>>,
    options: Options,
) -> Seq<char> {
    "#[derive(Debug)]\n"@ + (if options.serialize {
        "#[derive(serde_repr::Serialize_repr)]\n"@
    } else {
        Seq::empty()
    }) + (if options.deserialize {
        "#[derive(serde_repr::Deserialize_repr)]\n"@
    } else {
        Seq::empty()
    }) + derive_lines(options.derives@) + (if is_extended {
        "#[repr(i16)]\n"@
    } else {
        "#[repr(i8)]\n"@
    }) + "pub enum "@ + name + " {\n"@ + variant_lines(v, idents, v.len() as int) + "}\n"@
}

fn push_enum_header(dst: &mut String, is_extended: bool, options: &Options)
    ensures
        final(dst)@ == old(dst)@ + "#[derive(Debug)]\n"@ + (if options.serialize {
            "#[derive(serde_repr::Serialize_repr)]\n"@
        } else {
            Seq::empty()
        }) + (if options.deserialize {
            "#[derive(serde_repr::Deserialize_repr)]\n"@
        } else {
            Seq::empty()
        }) + derive_lines(options.derives@) + (if is_extended {
            "#[repr(i16)]\n"@
        } else {
            "#[repr(i8)]\n"@
        }),
{
    dst.append("#[derive(Debug)]\n");
    if options.serialize {
        dst.append("#[derive(serde_repr::Serialize_repr)]\n");
    }
    if options.deserialize {
        dst.append("#[derive(serde_repr::Deserialize_repr)]\n");
    }
    push_derive_lines(dst, &options.derives);
    if is_extended {
        dst.append("#[repr(i16)]\n");
    } else {
        dst.append("#[repr(i8)]\n");
    }
    assert(final(dst)@ =~= old(dst)@ + "#[derive(Debug)]\n"@ + (if options.serialize {
        "#[derive(serde_repr::Serialize_repr)]\n"@
    } else {
        Seq::empty()
    }) + (if options.deserialize {
        "#[derive(serde_repr::Deserialize_repr)]\n"@
    } else {
        Seq::empty()
    }) + derive_lines(options.derives@) + (if is_extended {
        "#[repr(i16)]\n"@
    } else {
        "#[repr(i8)]\n"@
    }));
}

/// Appends the enum type `name` with the variants `variants`, whose upper
/// camel case forms are `idents`.
pub fn generate_enum(
    dst: &mut String,
    name: &str,
    is_extended: bool,
    variants: &Vec<(String, i32)>,
    idents: &Vec<String>,
    options: &Options,
)
    requires
        text_views(idents@).len() == variants@.len(),
    ensures
        final(dst)@ == old(dst)@ + enum_text(
            name@,
            is_extended,
            variants_view(variants@),
            text_views(idents@),
            *options,
        ),
{
    push_enum_header(dst, is_extended, options);
    dst.append("pub enum ");
    dst.append(name);
    dst.append(" {\n");
    let ghost mid = dst@;
    let ghost v = variants_view(variants@);
    let mut i: usize = 0;
    proof {
        assert(dst@ =~= mid + variant_lines(v, text_views(idents@), 0));
    }
    while i < variants.len()
        invariant
            i <= variants.len(),
            text_views(idents@).len() == variants@.len(),
            v == variants_view(variants@),
            dst@ == mid + variant_lines(v, text_views(idents@), i as int),
        decreases variants.len() - i,
    {
        let ident = ident_from_camel(variants[i].0.as_str(), idents[i].as_str());
        dst.append("    ");
        dst.append(ident.as_str());
        dst.append(" = ");
        push_signed_decimal(dst, variants[i].1);
        dst.append(",\n");
        assert(dst@ =~= mid + variant_lines(v, text_views(idents@), i + 1));
        i = i + 1;
    }
    dst.append("}\n");
    assert(final(dst)@ =~= old(dst)@ + enum_text(
        name@,
        is_extended,
        variants_view(variants@),
        text_views(idents@),
        *options,
    ));
}

/// The enum types of the first `n` columns, each followed by an empty line.
pub open spec fn enums_text(
    columns: Seq<Column>,
    names: Seq<ColumnNamesView>,
    options: Options,
    n: int,
) -> Seq<char>
    decreases n,
{
    if n <= 0 {
        Seq::empty()
    } else {
        enums_text(columns, names, options, n - 1) + match enum_of(columns[n - 1].type_@) {
            Some((e, v)) => enum_text(
                names[n - 1].enum_name,
                e,
                v,
                names[n - 1].variants,
                options,
            ) + "\n"@,
            None => Seq::empty(),
        }
    }
}

/// Appends the enum types of the columns of `table`.
pub fn generate_enums(dst: &mut String, table: &Table, names: &Vec<ColumnNames>, options: &Options)
    requires
        names_fit(*table, names_view(names@)),
    ensures
        final(dst)@ == old(dst)@ + enums_text(
            table.columns@,
            names_view(names@),
            *options,
            table.columns@.len() as int,
        ),
{
    let mut i: usize = 0;
    assert(dst@ =~= old(dst)@ + enums_text(table.columns@, names_view(names@), *options, 0));
    while i < table.columns.len()
        invariant
            i <= table.columns.len(),
            names_fit(*table, names_view(names@)),
            dst@ == old(dst)@ + enums_text(table.columns@, names_view(names@), *options, i as int),
        decreases table.columns.len() - i,
    {
        let column = &table.columns[i];
        let ghost before = dst@;
        match find_enum(&column.type_) {
            Some((is_extended, variants)) => {
                assert(enum_of(table.columns@[i as int].type_@) is Some);
                generate_enum(
                    dst,
                    names[i].enum_name.as_str(),
                    is_extended,
                    variants,
                    &names[i].variants,
                    options,
                );
                dst.append("\n");
            },
            None => {},
        }
        assert(dst@ =~= old(dst)@ + enums_text(table.columns@, names_view(names@), *options, i + 1));
        i = i + 1;
    }
}

/// The error of a sentinel column that is `Nullable` or has an override.
pub open spec fn sentinel_problem(column: Column, options: Options) -> Option<GenerateErrorView> {
    if column.type_@ is Nullable {
        Some(GenerateErrorView::SentinelNullable { column: column.name@ })
    } else if override_for(column.name@, column.type_@, options) is Some {
        Some(GenerateErrorView::SentinelWithOverride { column: column.name@ })
    } else {
        None
    }
}

/// Refuses a sentinel column that is already `Nullable`, or whose type `-O`
/// or `-T` sets.
pub fn validate_sentinel(column: &Column, options: &Options) -> (r: Result<(), GenerateError>)
    ensures
        match sentinel_problem(*column, *options) {
            Some(e) => r matches Err(x) && x@ == e,
            None => r is Ok,
        },
{
    if let SqlType::Nullable(_) = &column.type_ {
        return Err(GenerateError::SentinelNullable { column: column.name.clone() });
    }
    if find_override(column.name.as_str(), &column.type_, options).is_some() {
        return Err(GenerateError::SentinelWithOverride { column: column.name.clone() });
    }
    Ok(())
}

/// The serde module `name` that reads the default value `default` of the
/// type `rust_type` as `None`, and writes `None` as it.
pub open spec fn sentinel_module_text(
    name: Seq<char>,
    rust_type: Seq<char>,
    default: Seq<char>,
) -> Seq<char> {
    "mod "@ + name + " {\n    use serde::{Deserializer, Serializer};\n\n    pub fn deserialize<'de, D>(deserializer: D) -> Result<Option<"@
        + rust_type
        + ">, D::Error>\n    where\n        D: Deserializer<'de>,\n    {\n        let value = <"@
        + rust_type
        + " as serde::Deserialize>::deserialize(deserializer)?;\n        if value == "@
        + default
        + " {\n            Ok(None)\n        } else {\n            Ok(Some(value))\n        }\n    }\n\n    pub fn serialize<S>(value: &Option<"@
        + rust_type
        + ">, serializer: S) -> Result<S::Ok, S::Error>\n    where\n        S: Serializer,\n    {\n        match value {\n            Some(v) => serde::Serialize::serialize(v, serializer),\n            None => serde::Serialize::serialize(&"@
        + default + ", serializer),\n        }\n    }\n}\n\n"@
}

fn push_sentinel_module(dst: &mut String, name: &str, rust_type: &str, default: &str)
    ensures
        final(dst)@ == old(dst)@ + sentinel_module_text(name@, rust_type@, default@),
{
    dst.append("mod ");
    dst.append(name);
    dst.append(
        " {\n    use serde::{Deserializer, Serializer};\n\n    pub fn deserialize<'de, D>(deserializer: D) -> Result<Option<",
    );
    dst.append(rust_type);
    dst.append(
        ">, D::Error>\n    where\n        D: Deserializer<'de>,\n    {\n        let value = <",
    );
    dst.append(rust_type);
    dst.append(" as serde::Deserialize>::deserialize(deserializer)?;\n        if value == ");
    dst.append(default);
    dst.append(
        " {\n            Ok(None)\n        } else {\n            Ok(Some(value))\n        }\n    }\n\n    pub fn serialize<S>(value: &Option<",
    );
    dst.append(rust_type);
    dst.append(
        ">, serializer: S) -> Result<S::Ok, S::Error>\n    where\n        S: Serializer,\n    {\n        match value {\n            Some(v) => serde::Serialize::serialize(v, serializer),\n            None => serde::Serialize::serialize(&",
    );
    dst.append(default);
    dst.append(", serializer),\n        }\n    }\n}\n\n");
    assert(final(dst)@ =~= old(dst)@ + sentinel_module_text(name@, rust_type@, default@));
}

/// The serde modules of the sentinel columns among the first `n` columns,
/// or the first error.
pub open spec fn sentinel_modules_text(
    columns: Seq<Column>,
    names: Seq<ColumnNamesView>,
    options: Options,
    n: int,
) -> Result<Seq<char>, GenerateErrorView>
    decreases n,
{
    if n <= 0 {
        Ok(Seq::empty())
    } else {
        match sentinel_modules_text(columns, names, options, n - 1) {
            Err(e) => Err(e),
            Ok(p) => {
                let column = columns[n - 1];
                if !is_sentinel_column(column.name@, options) {
                    Ok(p)
                } else {
                    match sentinel_problem(column, options) {
                        Some(e) => Err(e),
                        None => match sentinel_type(column.type_@) {
                            Err(e) => Err(e),
                            Ok((t, d)) => Ok(
                                p + sentinel_module_text(sentinel_module(names[n - 1].field), t, d),
                            ),
                        },
                    }
                }
            },
        }
    }
}

proof fn lemma_sentinel_modules_err(
    columns: Seq<Column>,
    names: Seq<ColumnNamesView>,
    options: Options,
    j: int,
    n: int,
)
    requires
        0 <= j <= n,
        sentinel_modules_text(columns, names, options, j) is Err,
    ensures
        sentinel_modules_text(columns, names, options, n) == sentinel_modules_text(
            columns,
            names,
            options,
            j,
        ),
    decreases n - j,
{
    if j < n {
        lemma_sentinel_modules_err(columns, names, options, j, n - 1);
    }
}

/// The serde modules that the first `n` columns write: all of them, or,
/// after an error, those of the sentinel columns before the failing one.
pub open spec fn sentinel_modules_written(
    columns: Seq<Column>,
    names: Seq<ColumnNamesView>,
    options: Options,
    n: int,
) -> Seq<char>
    decreases n,
{
    if n <= 0 {
        Seq::empty()
    } else {
        match sentinel_modules_text(columns, names, options, n - 1) {
            Err(_) => sentinel_modules_written(columns, names, options, n - 1),
            Ok(p) => match sentinel_modules_text(columns, names, options, n) {
                Ok(q) => q,
                Err(_) => p,
            },
        }
    }
}

proof fn lemma_sentinel_modules_written_err(
    columns: Seq<Column>,
    names: Seq<ColumnNamesView>,
    options: Options,
    j: int,
    n: int,
)
    requires
        0 <= j <= n,
        sentinel_modules_text(columns, names, options, j) is Err,
    ensures
        sentinel_modules_written(columns, names, options, n) == sentinel_modules_written(
            columns,
            names,
            options,
            j,
        ),
    decreases n - j,
{
    if j < n {
        lemma_sentinel_modules_written_err(columns, names, options, j, n - 1);
        lemma_sentinel_modules_err(columns, names, options, j, n - 1);
    }
}

/// Appends the serde modules of the sentinel columns of `table`. Where a
/// sentinel column is refused, the modules before it stay written.
pub fn generate_sentinel_modules(
    dst: &mut String,
    table: &Table,
    names: &Vec<ColumnNames>,
    options: &Options,
) -> (r: Result<(), GenerateError>)
    requires
        names@.len() == table.columns@.len(),
    ensures
        wrote(
            r,
            old(dst)@,
            final(dst)@,
            sentinel_modules_text(table.columns@, names_view(names@), *options, table.columns@.len() as int),
            sentinel_modules_written(
                table.columns@,
                names_view(names@),
                *options,
                table.columns@.len() as int,
            ),
        ),
{
    let mut i: usize = 0;
    assert(dst@ =~= old(dst)@ + Seq::<char>::empty());
    while i < table.columns.len()
        invariant
            i <= table.columns.len(),
            names@.len() == table.columns@.len(),
            sentinel_modules_text(table.columns@, names_view(names@), *options, i as int) matches Ok(p)
                && dst@ == old(dst)@ + p,
        decreases table.columns.len() - i,
    {
        let column = &table.columns[i];
        let ghost p = sentinel_modules_text(table.columns@, names_view(names@), *options, i as int)->Ok_0;
        if is_sentinel(column.name.as_str(), options) {
            let checked = validate_sentinel(column, options);
            if let Err(e) = checked {
                proof {
                    lemma_sentinel_modules_err(
                        table.columns@,
                        names_view(names@),
                        *options,
                        i + 1,
                        table.columns@.len() as int,
                    );
                    lemma_sentinel_modules_written_err(
                        table.columns@,
                        names_view(names@),
                        *options,
                        i + 1,
                        table.columns@.len() as int,
                    );
                }
                return Err(e);
            }
            let mod_name = field_sentinel_mod_name(names[i].field.as_str());
            let info = sentinel_info(&column.type_);
            match info {
                Err(e) => {
                    proof {
                        lemma_sentinel_modules_err(
                            table.columns@,
                            names_view(names@),
                            *options,
                            i + 1,
                            table.columns@.len() as int,
                        );
                        lemma_sentinel_modules_written_err(
                            table.columns@,
                            names_view(names@),
                            *options,
                            i + 1,
                            table.columns@.len() as int,
                        );
                    }
                    return Err(e);
                },
                Ok((rust_type, default)) => {
                    push_sentinel_module(dst, mod_name.as_str(), rust_type, default);
                },
            }
        }
        assert(sentinel_modules_text(table.columns@, names_view(names@), *options, i + 1) matches Ok(q)
            && dst@ =~= old(dst)@ + q);
        i = i + 1;
    }
    Ok(())
}

/// The version of this package that the generated code names in its first
/// line. It must be kept equal to the `version` in Cargo.toml.
pub const VERSION: &'static str = "0.1.0";

/// The first line of the generated code, which names this package's version.
pub open spec fn header_line() -> Seq<char> {
    "// GENERATED CODE (ch2rs v"@ + VERSION@ + ")\n"@
}

/// The comment lines that open the generated code: this crate's version,
/// lint settings, and the command line of the options.
pub open spec fn prelude_text(options: Options) -> Seq<char> {
    header_line()
        + "#![cfg_attr(rustfmt, rustfmt::skip)]\n#![allow(warnings)]\n#![allow(clippy::all)]\n\n// Generated with the following options:\n/*\n"@
        + indent_after_newlines(options_text(options)) + "\n*/\n"@
}

/// Appends the opening comments of the generated code.
pub fn generate_prelude(dst: &mut String, options: &Options)
    ensures
        final(dst)@ == old(dst)@ + prelude_text(*options),
{
    dst.append("// GENERATED CODE (ch2rs v");
    dst.append(VERSION);
    dst.append(")\n");
    dst.append(
        "#![cfg_attr(rustfmt, rustfmt::skip)]\n#![allow(warnings)]\n#![allow(clippy::all)]\n\n// Generated with the following options:\n/*\n",
    );
    let formatted = options.format();
    push_indented(dst, formatted.as_str());
    dst.append("\n*/\n");
    assert(final(dst)@ =~= old(dst)@ + prelude_text(*options));
}

/// The generated code for a table: the prelude, the row struct, the enum
/// types and the sentinel modules, without white space at either end; or
/// the first error.
pub open spec fn generated_code(table: Table, names: Seq<ColumnNamesView>, options: Options) -> Result<
    Seq<char>,
    GenerateErrorView,
> {
    let n = table.columns@.len() as int;
    match row_text(table, names, options) {
        Err(e) => Err(e),
        Ok(row) => match sentinel_modules_text(table.columns@, names, options, n) {
            Err(e) => Err(e),
            Ok(modules) => Ok(
                trim(
                    prelude_text(options) + "\n"@ + row + "\n"@ + enums_text(
                        table.columns@,
                        names,
                        options,
                        n,
                    ) + modules,
                ),
            ),
        },
    }
}

/// Generates the code for `table` with the given case converted names.
pub fn generate_with_names(table: &Table, options: &Options, names: &Vec<ColumnNames>) -> (r: Result<
    String,
    GenerateError,
>)
    requires
        names_fit(*table, names_view(names@)),
    ensures
        text_result(r) == generated_code(*table, names_view(names@), *options),
{
    let mut code = String::new();
    generate_prelude(&mut code, options);
    code.append("\n");
    let ghost head = code@;
    generate_row(&mut code, table, names, options)?;
    let ghost row = row_text(*table, names_view(names@), *options)->Ok_0;
    code.append("\n");
    generate_enums(&mut code, table, names, options);
    let ghost before_modules = code@;
    let res = generate_sentinel_modules(&mut code, table, names, options);
    if let Err(e) = res {
        return Err(e);
    }
    assert(code@ =~= prelude_text(*options) + "\n"@ + row + "\n"@ + enums_text(
        table.columns@,
        names_view(names@),
        *options,
        table.columns@.len() as int,
    ) + sentinel_modules_text(
        table.columns@,
        names_view(names@),
        *options,
        table.columns@.len() as int,
    )->Ok_0);
    Ok(trimmed(code.as_str()))
}

/// The names that case conversion gives a column.
pub open spec fn column_case_names(column: Column) -> ColumnNamesView {
    ColumnNamesView {
        field: snake_case(column.name@),
        enum_name: upper_camel_case(column.name@),
        variants: match enum_of(column.type_@) {
            Some((_, v)) => v.map_values(|p: (Seq<char>, i32)| upper_camel_case(p.0)),
            None => Seq::empty(),
        },
    }
}

/// The names that case conversion gives the columns of a table.
pub open spec fn case_names(table: Table) -> Seq<ColumnNamesView> {
    Seq::new(table.columns@.len(), |i: int| column_case_names(table.columns@[i]))
}

/// The field name, enum name and variant identifiers of `column`, converted
/// by `heck`.
pub fn column_names(column: &Column) -> (r: ColumnNames)
    ensures
        r@ == column_case_names(*column),
{
    let mut variants: Vec<String> = Vec::new();
    match find_enum(&column.type_) {
        Some((_, v)) => {
            let mut i: usize = 0;
            while i < v.len()
                invariant
                    i <= v.len(),
                    variants@.len() == i,
                    forall|j: int|
                        0 <= j < i ==> #[trigger] variants@[j]@ == upper_camel_case(v@[j].0@),
                decreases v.len() - i,
            {
                variants.push(to_upper_camel_case(v[i].0.as_str()));
                i = i + 1;
            }
            assert(text_views(variants@) =~= variants_view(v@).map_values(
                |p: (Seq<char>, i32)| upper_camel_case(p.0),
            ));
        },
        None => {
            assert(text_views(variants@) =~= Seq::<Seq<char>>::empty());
        },
    }
    ColumnNames {
        field: to_snake_case(column.name.as_str()),
        enum_name: to_upper_camel_case(column.name.as_str()),
        variants,
    }
}

/// Generates the code for `table`: the row struct, its enums and the serde
/// modules of sentinel columns, after a prelude that records the options.
pub fn generate(table: &Table, options: &Options) -> (r: Result<String, GenerateError>)
    ensures
        text_result(r) == generated_code(*table, case_names(*table), *options),
{
    let mut names: Vec<ColumnNames> = Vec::new();
    let mut i: usize = 0;
    while i < table.columns.len()
        invariant
            i <= table.columns.len(),
            names@.len() == i,
            forall|j: int|
                0 <= j < i ==> #[trigger] names@[j]@ == column_case_names(table.columns@[j]),
        decreases table.columns.len() - i,
    {
        names.push(column_names(&table.columns[i]));
        i = i + 1;
    }
    assert(names_view(names@) =~= case_names(*table));
    proof {
        assert forall|k: int| 0 <= k < names@.len() implies match enum_of(
            #[trigger] table.columns@[k].type_@,
        ) {
            Some((_, v)) => names_view(names@)[k].variants.len() == v.len(),
            None => true,
        } by {
            assert(names_view(names@)[k] == column_case_names(table.columns@[k]));
        }
    }
    generate_with_names(table, options, &names)
}

} // verus!
