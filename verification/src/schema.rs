//! ClickHouse column types and table descriptions, with the notation in
//! which ClickHouse writes a type.
use vstd::prelude::*;

use crate::text::{decimal, push_decimal, push_signed_decimal, signed_decimal, str_eq};

verus! {

/// A ClickHouse column type.
#[derive(Debug, PartialEq, Eq, PartialOrd, Ord)]
pub enum SqlType {
    UInt8,
    UInt16,
    UInt32,
    UInt64,
    UInt128,
    Int8,
    Int16,
    Int32,
    Int64,
    Int128,
    Float32,
    Float64,
    /// Precision and scale.
    Decimal(u32, u32),
    Bool,
    String,
    /// Length in bytes.
    FixedString(u32),
    UUID,
    Date,
    Date32,
    /// Optional time zone.
    DateTime(Option<String>),
    /// Precision (digits after the second) and optional time zone.
    DateTime64(u32, Option<String>),
    Time,
    /// Precision (digits after the second).
    Time64(u32),
    IPv4,
    IPv6,
    /// Variant names and their values.
    Enum8(Vec<(String, i32)>),
    Enum16(Vec<(String, i32)>),
    Array(Box<SqlType>),
    Tuple(Vec<SqlType>),
    MapOf(Box<SqlType>, Box<SqlType>),
    Nullable(Box<SqlType>),
}

/// The mathematical value of a [`SqlType`]: strings as character sequences.
pub enum SqlTypeView {
    UInt8,
    UInt16,
    UInt32,
    UInt64,
    UInt128,
    Int8,
    Int16,
    Int32,
    Int64,
    Int128,
    Float32,
    Float64,
    Decimal(u32, u32),
    Bool,
    String,
    FixedString(u32),
    UUID,
    Date,
    Date32,
    DateTime(Option<Seq<char>>),
    DateTime64(u32, Option<Seq<char>>),
    Time,
    Time64(u32),
    IPv4,
    IPv6,
    Enum8(Seq<(Seq<char>, i32)>),
    Enum16(Seq<(Seq<char>, i32)>),
    Array(Box<SqlTypeView>),
    Tuple(Seq<SqlTypeView>),
    MapOf(Box<SqlTypeView>, Box<SqlTypeView>),
    Nullable(Box<SqlTypeView>),
}

pub open spec fn opt_str_view(o: Option<String>) -> Option<Seq<char>> {
    match o {
        Some(s) => Some(s@),
        None => None,
    }
}

pub open spec fn variants_view(v: Seq<(String, i32)>) -> Seq<(Seq<char>, i32)> {
    v.map_values(|p: (String, i32)| (p.0@, p.1))
}

pub open spec fn sql_view(t: SqlType) -> SqlTypeView
    decreases t,
{
    match t {
        SqlType::UInt8 => SqlTypeView::UInt8,
        SqlType::UInt16 => SqlTypeView::UInt16,
        SqlType::UInt32 => SqlTypeView::UInt32,
        SqlType::UInt64 => SqlTypeView::UInt64,
        SqlType::UInt128 => SqlTypeView::UInt128,
        SqlType::Int8 => SqlTypeView::Int8,
        SqlType::Int16 => SqlTypeView::Int16,
        SqlType::Int32 => SqlTypeView::Int32,
        SqlType::Int64 => SqlTypeView::Int64,
        SqlType::Int128 => SqlTypeView::Int128,
        SqlType::Float32 => SqlTypeView::Float32,
        SqlType::Float64 => SqlTypeView::Float64,
        SqlType::Decimal(p, s) => SqlTypeView::Decimal(p, s),
        SqlType::Bool => SqlTypeView::Bool,
        SqlType::String => SqlTypeView::String,
        SqlType::FixedString(n) => SqlTypeView::FixedString(n),
        SqlType::UUID => SqlTypeView::UUID,
        SqlType::Date => SqlTypeView::Date,
        SqlType::Date32 => SqlTypeView::Date32,
        SqlType::DateTime(tz) => SqlTypeView::DateTime(opt_str_view(tz)),
        SqlType::DateTime64(p, tz) => SqlTypeView::DateTime64(p, opt_str_view(tz)),
        SqlType::Time => SqlTypeView::Time,
        SqlType::Time64(p) => SqlTypeView::Time64(p),
        SqlType::IPv4 => SqlTypeView::IPv4,
        SqlType::IPv6 => SqlTypeView::IPv6,
        SqlType::Enum8(v) => SqlTypeView::Enum8(variants_view(v@)),
        SqlType::Enum16(v) => SqlTypeView::Enum16(variants_view(v@)),
        SqlType::Array(b) => SqlTypeView::Array(Box::new(sql_view(*b))),
        SqlType::Tuple(v) => SqlTypeView::Tuple(sql_views(v@)),
        SqlType::MapOf(k, v) => SqlTypeView::MapOf(Box::new(sql_view(*k)), Box::new(sql_view(*v))),
        SqlType::Nullable(b) => SqlTypeView::Nullable(Box::new(sql_view(*b))),
    }
}

pub open spec fn sql_views(s: Seq<SqlType>) -> Seq<SqlTypeView>
    decreases s,
{
    if s.len() == 0 {
        Seq::empty()
    } else {
        seq![sql_view(s[0])] + sql_views(s.subrange(1, s.len() as int))
    }
}

impl View for SqlType {
    type V = SqlTypeView;

    open spec fn view(&self) -> SqlTypeView {
        sql_view(*self)
    }
}

pub proof fn lemma_sql_views(s: Seq<SqlType>)
    ensures
        sql_views(s).len() == s.len(),
        forall|i: int| 0 <= i < s.len() ==> #[trigger] sql_views(s)[i] == sql_view(s[i]),
    decreases s.len(),
{
    if s.len() > 0 {
        lemma_sql_views(s.subrange(1, s.len() as int));
    }
}

/// A column of a table.
#[derive(Debug)]
pub struct Column {
    pub name: String,
    pub type_: SqlType,
    pub comment: String,
}

/// The columns of a table, in their order.
#[derive(Debug)]
pub struct Table {
    pub columns: Vec<Column>,
}

fn opt_str_eq(a: &Option<String>, b: &Option<String>) -> (r: bool)
    ensures
        r == (opt_str_view(*a) == opt_str_view(*b)),
{
    match (a, b) {
        (None, None) => true,
        (Some(x), Some(y)) => str_eq(x.as_str(), y.as_str()),
        _ => false,
    }
}

fn variants_eq(a: &Vec<(String, i32)>, b: &Vec<(String, i32)>) -> (r: bool)
    ensures
        r == (variants_view(a@) == variants_view(b@)),
{
    if a.len() != b.len() {
        proof {
            assert(variants_view(a@).len() != variants_view(b@).len());
        }
        return false;
    }
    let mut i: usize = 0;
    while i < a.len()
        invariant
            a.len() == b.len(),
            i <= a.len(),
            forall|j: int| 0 <= j < i ==> #[trigger] variants_view(a@)[j] == variants_view(b@)[j],
        decreases a.len() - i,
    {
        if !str_eq(a[i].0.as_str(), b[i].0.as_str()) || a[i].1 != b[i].1 {
            proof {
                assert(variants_view(a@)[i as int] != variants_view(b@)[i as int]);
            }
            return false;
        }
        i = i + 1;
    }
    assert(variants_view(a@) =~= variants_view(b@));
    true
}

/// Whether two types are the same type.
#[verifier::loop_isolation(false)]
pub fn sql_eq(a: &SqlType, b: &SqlType) -> (r: bool)
    ensures
        r == (a@ == b@),
    decreases a,
{
    match (a, b) {
        (SqlType::UInt8, SqlType::UInt8) => true,
        (SqlType::UInt16, SqlType::UInt16) => true,
        (SqlType::UInt32, SqlType::UInt32) => true,
        (SqlType::UInt64, SqlType::UInt64) => true,
        (SqlType::UInt128, SqlType::UInt128) => true,
        (SqlType::Int8, SqlType::Int8) => true,
        (SqlType::Int16, SqlType::Int16) => true,
        (SqlType::Int32, SqlType::Int32) => true,
        (SqlType::Int64, SqlType::Int64) => true,
        (SqlType::Int128, SqlType::Int128) => true,
        (SqlType::Float32, SqlType::Float32) => true,
        (SqlType::Float64, SqlType::Float64) => true,
        (SqlType::Decimal(p1, s1), SqlType::Decimal(p2, s2)) => *p1 == *p2 && *s1 == *s2,
        (SqlType::Bool, SqlType::Bool) => true,
        (SqlType::String, SqlType::String) => true,
        (SqlType::FixedString(n1), SqlType::FixedString(n2)) => *n1 == *n2,
        (SqlType::UUID, SqlType::UUID) => true,
        (SqlType::Date, SqlType::Date) => true,
        (SqlType::Date32, SqlType::Date32) => true,
        (SqlType::DateTime(z1), SqlType::DateTime(z2)) => opt_str_eq(z1, z2),
        (SqlType::DateTime64(p1, z1), SqlType::DateTime64(p2, z2)) => *p1 == *p2 && opt_str_eq(
            z1,
            z2,
        ),
        (SqlType::Time, SqlType::Time) => true,
        (SqlType::Time64(p1), SqlType::Time64(p2)) => *p1 == *p2,
        (SqlType::IPv4, SqlType::IPv4) => true,
        (SqlType::IPv6, SqlType::IPv6) => true,
        (SqlType::Enum8(v1), SqlType::Enum8(v2)) => variants_eq(v1, v2),
        (SqlType::Enum16(v1), SqlType::Enum16(v2)) => variants_eq(v1, v2),
        (SqlType::Array(x), SqlType::Array(y)) => sql_eq(x, y),
        (SqlType::Nullable(x), SqlType::Nullable(y)) => sql_eq(x, y),
        (SqlType::MapOf(k1, v1), SqlType::MapOf(k2, v2)) => sql_eq(k1, k2) && sql_eq(v1, v2),
        (SqlType::Tuple(v1), SqlType::Tuple(v2)) => {
            proof {
                lemma_sql_views(v1@);
                lemma_sql_views(v2@);
            }
            if v1.len() != v2.len() {
                return false;
            }
            let mut i: usize = 0;
            while i < v1.len()
                invariant
                    v1.len() == v2.len(),
                    i <= v1.len(),
                    sql_views(v1@).len() == v1.len(),
                    sql_views(v2@).len() == v2.len(),
                    forall|j: int| 0 <= j < v1.len() ==> #[trigger] sql_views(v1@)[j] == sql_view(v1@[j]),
                    forall|j: int| 0 <= j < v2.len() ==> #[trigger] sql_views(v2@)[j] == sql_view(v2@[j]),
                    forall|j: int| 0 <= j < i ==> #[trigger] sql_views(v1@)[j] == sql_views(v2@)[j],
                decreases v1.len() - i,
            {
                assert(decreases_to!(a => v1@[i as int]));
                if !sql_eq(&v1[i], &v2[i]) {
                    assert(sql_views(v1@)[i as int] != sql_views(v2@)[i as int]);
                    return false;
                }
                i = i + 1;
            }
            assert(sql_views(v1@) =~= sql_views(v2@));
            true
        },
        _ => false,
    }
}

fn clone_opt_str(o: &Option<String>) -> (r: Option<String>)
    ensures
        opt_str_view(r) == opt_str_view(*o),
{
    match o {
        Some(s) => Some(s.clone()),
        None => None,
    }
}

fn clone_variants(v: &Vec<(String, i32)>) -> (r: Vec<(String, i32)>)
    ensures
        variants_view(r@) == variants_view(v@),
{
    let mut r: Vec<(String, i32)> = Vec::new();
    let mut i: usize = 0;
    while i < v.len()
        invariant
            i <= v.len(),
            r.len() == i,
            forall|j: int| 0 <= j < i ==> #[trigger] r@[j].0@ == v@[j].0@ && r@[j].1 == v@[j].1,
        decreases v.len() - i,
    {
        r.push((v[i].0.clone(), v[i].1));
        i = i + 1;
    }
    assert(variants_view(r@) =~= variants_view(v@));
    r
}

/// A copy of a type.
#[verifier::loop_isolation(false)]
pub fn copy_sql_type(t: &SqlType) -> (r: SqlType)
    ensures
        r@ == t@,
    decreases t,
{
    match t {
        SqlType::UInt8 => SqlType::UInt8,
        SqlType::UInt16 => SqlType::UInt16,
        SqlType::UInt32 => SqlType::UInt32,
        SqlType::UInt64 => SqlType::UInt64,
        SqlType::UInt128 => SqlType::UInt128,
        SqlType::Int8 => SqlType::Int8,
        SqlType::Int16 => SqlType::Int16,
        SqlType::Int32 => SqlType::Int32,
        SqlType::Int64 => SqlType::Int64,
        SqlType::Int128 => SqlType::Int128,
        SqlType::Float32 => SqlType::Float32,
        SqlType::Float64 => SqlType::Float64,
        SqlType::Decimal(p, s) => SqlType::Decimal(*p, *s),
        SqlType::Bool => SqlType::Bool,
        SqlType::String => SqlType::String,
        SqlType::FixedString(n) => SqlType::FixedString(*n),
        SqlType::UUID => SqlType::UUID,
        SqlType::Date => SqlType::Date,
        SqlType::Date32 => SqlType::Date32,
        SqlType::DateTime(z) => SqlType::DateTime(clone_opt_str(z)),
        SqlType::DateTime64(p, z) => SqlType::DateTime64(*p, clone_opt_str(z)),
        SqlType::Time => SqlType::Time,
        SqlType::Time64(p) => SqlType::Time64(*p),
        SqlType::IPv4 => SqlType::IPv4,
        SqlType::IPv6 => SqlType::IPv6,
        SqlType::Enum8(v) => SqlType::Enum8(clone_variants(v)),
        SqlType::Enum16(v) => SqlType::Enum16(clone_variants(v)),
        SqlType::Array(x) => SqlType::Array(Box::new(copy_sql_type(x))),
        SqlType::Nullable(x) => SqlType::Nullable(Box::new(copy_sql_type(x))),
        SqlType::MapOf(k, v) => SqlType::MapOf(
            Box::new(copy_sql_type(k)),
            Box::new(copy_sql_type(v)),
        ),
        SqlType::Tuple(v) => {
            let mut r: Vec<SqlType> = Vec::new();
            let mut i: usize = 0;
            proof {
                lemma_sql_views(v@);
            }
            while i < v.len()
                invariant
                    i <= v.len(),
                    r.len() == i,
                    forall|j: int| 0 <= j < i ==> #[trigger] sql_view(r@[j]) == sql_view(v@[j]),
                decreases v.len() - i,
            {
                assert(decreases_to!(t => v@[i as int]));
                r.push(copy_sql_type(&v[i]));
                i = i + 1;
            }
            proof {
                lemma_sql_views(r@);
                lemma_sql_views(v@);
                assert(sql_views(r@) =~= sql_views(v@));
            }
            SqlType::Tuple(r)
        },
    }
}

/// Whether a type takes no parameters.
pub open spec fn is_plain(t: SqlTypeView) -> bool {
    !(t is Decimal || t is FixedString || t is DateTime || t is DateTime64 || t is Time64
        || t is Enum8 || t is Enum16 || t is Array || t is Tuple || t is MapOf || t is Nullable)
}

/// The name of a type that takes no parameters.
pub open spec fn plain_name(t: SqlTypeView) -> Seq<char> {
    match t {
        SqlTypeView::UInt8 => "UInt8"@,
        SqlTypeView::UInt16 => "UInt16"@,
        SqlTypeView::UInt32 => "UInt32"@,
        SqlTypeView::UInt64 => "UInt64"@,
        SqlTypeView::UInt128 => "UInt128"@,
        SqlTypeView::Int8 => "Int8"@,
        SqlTypeView::Int16 => "Int16"@,
        SqlTypeView::Int32 => "Int32"@,
        SqlTypeView::Int64 => "Int64"@,
        SqlTypeView::Int128 => "Int128"@,
        SqlTypeView::Float32 => "Float32"@,
        SqlTypeView::Float64 => "Float64"@,
        SqlTypeView::Bool => "Bool"@,
        SqlTypeView::String => "String"@,
        SqlTypeView::UUID => "UUID"@,
        SqlTypeView::Date => "Date"@,
        SqlTypeView::Date32 => "Date32"@,
        SqlTypeView::Time => "Time"@,
        SqlTypeView::IPv4 => "IPv4"@,
        SqlTypeView::IPv6 => "IPv6"@,
        _ => Seq::empty(),
    }
}

/// `'name' = value` for one variant.
pub open spec fn variant_item(x: (Seq<char>, i32)) -> Seq<char> {
    "'"@ + x.0 + "'"@ + " = "@ + signed_decimal(x.1 as int)
}

/// `'name' = value` for every variant, separated by `, `.
pub open spec fn variants_text(v: Seq<(Seq<char>, i32)>) -> Seq<char>
    decreases v.len(),
{
    if v.len() == 0 {
        Seq::empty()
    } else {
        let item = variant_item(v.last());
        if v.len() == 1 {
            item
        } else {
            variants_text(v.drop_last()) + ", "@ + item
        }
    }
}

/// The quoted time zone after a comma, or nothing.
pub open spec fn tz_suffix(tz: Option<Seq<char>>) -> Seq<char> {
    match tz {
        Some(z) => ", "@ + "'"@ + z + "'"@,
        None => Seq::empty(),
    }
}

/// How ClickHouse writes a type.
pub open spec fn sql_text(t: SqlTypeView) -> Seq<char>
    decreases t,
{
    match t {
        SqlTypeView::Decimal(p, s) => "Decimal"@ + "("@ + decimal(p as nat) + ", "@ + decimal(
            s as nat,
        ) + ")"@,
        SqlTypeView::FixedString(n) => "FixedString"@ + "("@ + decimal(n as nat) + ")"@,
        SqlTypeView::DateTime(tz) => match tz {
            Some(z) => "DateTime"@ + "("@ + "'"@ + z + "'"@ + ")"@,
            None => "DateTime"@,
        },
        SqlTypeView::DateTime64(p, tz) => "DateTime64"@ + "("@ + decimal(p as nat) + tz_suffix(tz)
            + ")"@,
        SqlTypeView::Time64(p) => "Time64"@ + "("@ + decimal(p as nat) + ")"@,
        SqlTypeView::Enum8(v) => "Enum8"@ + "("@ + variants_text(v) + ")"@,
        SqlTypeView::Enum16(v) => "Enum16"@ + "("@ + variants_text(v) + ")"@,
        SqlTypeView::Array(x) => "Array"@ + "("@ + sql_text(*x) + ")"@,
        SqlTypeView::Nullable(x) => "Nullable"@ + "("@ + sql_text(*x) + ")"@,
        SqlTypeView::MapOf(k, v) => "Map"@ + "("@ + sql_text(*k) + ", "@ + sql_text(*v) + ")"@,
        SqlTypeView::Tuple(ts) => "Tuple"@ + "("@ + sql_texts(ts) + ")"@,
        _ => plain_name(t),
    }
}

/// The notations of several types, separated by `, `.
pub open spec fn sql_texts(ts: Seq<SqlTypeView>) -> Seq<char>
    decreases ts,
{
    if ts.len() == 0 {
        Seq::empty()
    } else if ts.len() == 1 {
        sql_text(ts[0])
    } else {
        sql_texts(ts.subrange(0, ts.len() - 1)) + ", "@ + sql_text(ts[ts.len() - 1])
    }
}

fn push_variants(dst: &mut String, v: &Vec<(String, i32)>)
    ensures
        final(dst)@ == old(dst)@ + variants_text(variants_view(v@)),
{
    let mut i: usize = 0;
    proof {
        assert(variants_view(v@.take(0)) =~= Seq::<(Seq<char>, i32)>::empty());
        assert(dst@ =~= old(dst)@ + variants_text(variants_view(v@.take(0))));
    }
    while i < v.len()
        invariant
            i <= v.len(),
            dst@ == old(dst)@ + variants_text(variants_view(v@.take(i as int))),
        decreases v.len() - i,
    {
        let ghost before = dst@;
        if i > 0 {
            dst.append(", ");
        }
        dst.append("'");
        dst.append(v[i].0.as_str());
        dst.append("'");
        dst.append(" = ");
        push_signed_decimal(dst, v[i].1);
        proof {
            let w = variants_view(v@.take(i + 1));
            assert(w.drop_last() =~= variants_view(v@.take(i as int)));
            assert(w.last() == (v@[i as int].0@, v@[i as int].1));
            assert(dst@ =~= old(dst)@ + variants_text(w));
        }
        i = i + 1;
    }
    assert(v@.take(v.len() as int) =~= v@);
}

fn push_plain_name(dst: &mut String, t: &SqlType) -> (pushed: bool)
    ensures
        pushed == is_plain(t@),
        pushed ==> final(dst)@ == old(dst)@ + plain_name(t@) && sql_text(t@) == plain_name(t@),
        !pushed ==> final(dst)@ == old(dst)@,
{
    let name = match t {
        SqlType::UInt8 => "UInt8",
        SqlType::UInt16 => "UInt16",
        SqlType::UInt32 => "UInt32",
        SqlType::UInt64 => "UInt64",
        SqlType::UInt128 => "UInt128",
        SqlType::Int8 => "Int8",
        SqlType::Int16 => "Int16",
        SqlType::Int32 => "Int32",
        SqlType::Int64 => "Int64",
        SqlType::Int128 => "Int128",
        SqlType::Float32 => "Float32",
        SqlType::Float64 => "Float64",
        SqlType::Bool => "Bool",
        SqlType::String => "String",
        SqlType::UUID => "UUID",
        SqlType::Date => "Date",
        SqlType::Date32 => "Date32",
        SqlType::Time => "Time",
        SqlType::IPv4 => "IPv4",
        SqlType::IPv6 => "IPv6",
        _ => {
            return false;
        },
    };
    dst.append(name);
    true
}

/// Appends the notation of a type with numbers or names as parameters.
fn push_param_text(dst: &mut String, t: &SqlType)
    requires
        !is_plain(t@),
        !(t is Array || t is Nullable || t is MapOf || t is Tuple),
    ensures
        final(dst)@ == old(dst)@ + sql_text(t@),
{
    match t {
        SqlType::Decimal(p, s) => {
            dst.append("Decimal");
            dst.append("(");
            push_decimal(dst, *p as u64);
            dst.append(", ");
            push_decimal(dst, *s as u64);
            dst.append(")");
        },
        SqlType::FixedString(n) => {
            dst.append("FixedString");
            dst.append("(");
            push_decimal(dst, *n as u64);
            dst.append(")");
        },
        SqlType::DateTime(tz) => {
            match tz {
                Some(z) => {
                    dst.append("DateTime");
                    dst.append("(");
                    dst.append("'");
                    dst.append(z.as_str());
                    dst.append("'");
                    dst.append(")");
                },
                None => {
                    dst.append("DateTime");
                },
            }
        },
        SqlType::DateTime64(p, tz) => {
            dst.append("DateTime64");
            dst.append("(");
            push_decimal(dst, *p as u64);
            match tz {
                Some(z) => {
                    dst.append(", ");
                    dst.append("'");
                    dst.append(z.as_str());
                    dst.append("'");
                },
                None => {},
            }
            dst.append(")");
        },
        SqlType::Time64(p) => {
            dst.append("Time64");
            dst.append("(");
            push_decimal(dst, *p as u64);
            dst.append(")");
        },
        SqlType::Enum8(v) => {
            dst.append("Enum8");
            dst.append("(");
            push_variants(dst, v);
            dst.append(")");
        },
        SqlType::Enum16(v) => {
            dst.append("Enum16");
            dst.append("(");
            push_variants(dst, v);
            dst.append(")");
        },
        _ => {
            assert(false);
        },
    }
    assert(final(dst)@ =~= old(dst)@ + sql_text(t@));
}

/// Appends the notations of the types of `v`, separated by `, `.
#[verifier::loop_isolation(false)]
fn push_sql_texts(dst: &mut String, v: &Vec<SqlType>)
    ensures
        final(dst)@ == old(dst)@ + sql_texts(sql_views(v@)),
    decreases v,
{
    let mut i: usize = 0;
    proof {
        lemma_sql_views(v@);
        assert(sql_views(v@).take(0) =~= Seq::<SqlTypeView>::empty());
        assert(dst@ =~= old(dst)@ + sql_texts(sql_views(v@).take(0)));
    }
    while i < v.len()
        invariant
            i <= v.len(),
            dst@ == old(dst)@ + sql_texts(sql_views(v@).take(i as int)),
        decreases v.len() - i,
    {
        if i > 0 {
            dst.append(", ");
        }
        assert(decreases_to!(v => v@[i as int]));
        push_sql_text(dst, &v[i]);
        proof {
            let w = sql_views(v@).take(i + 1);
            assert(w.subrange(0, w.len() - 1) =~= sql_views(v@).take(i as int));
            assert(dst@ =~= old(dst)@ + sql_texts(w));
        }
        i = i + 1;
    }
    assert(sql_views(v@).take(v.len() as int) =~= sql_views(v@));
}

/// Appends how ClickHouse writes the type `t`.
pub fn push_sql_text(dst: &mut String, t: &SqlType)
    ensures
        final(dst)@ == old(dst)@ + sql_text(t@),
    decreases t,
{
    if push_plain_name(dst, t) {
        return ;
    }
    match t {
        SqlType::Array(x) => {
            dst.append("Array");
            dst.append("(");
            push_sql_text(dst, x);
            dst.append(")");
        },
        SqlType::Nullable(x) => {
            dst.append("Nullable");
            dst.append("(");
            push_sql_text(dst, x);
            dst.append(")");
        },
        SqlType::MapOf(k, v) => {
            dst.append("Map");
            dst.append("(");
            push_sql_text(dst, k);
            dst.append(", ");
            push_sql_text(dst, v);
            dst.append(")");
        },
        SqlType::Tuple(v) => {
            dst.append("Tuple");
            dst.append("(");
            push_sql_texts(dst, v);
            dst.append(")");
        },
        _ => {
            push_param_text(dst, t);
        },
    }
    assert(final(dst)@ =~= old(dst)@ + sql_text(t@));
}

/// How ClickHouse writes the type `t`.
pub fn sql_type_text(t: &SqlType) -> (r: String)
    ensures
        r@ == sql_text(t@),
{
    let mut s = String::new();
    push_sql_text(&mut s, t);
    assert(s@ =~= sql_text(t@));
    s
}

} // verus!
