//! Reading a ClickHouse type from its notation.
use vstd::prelude::*;

use crate::schema::{lemma_sql_views, sql_views, SqlType, SqlTypeView};
use crate::schema::{
    is_plain, plain_name, sql_text, sql_texts, tz_suffix, variant_item, variants_text,
};
use crate::text::{decimal, digit_char, find_char_from, first_index, signed_decimal, str_eq};

verus! {

/// ASCII letters and digits: the characters of type names.
pub open spec fn is_name_char(c: char) -> bool {
    let u = c as u32;
    (48 <= u <= 57) || (65 <= u <= 90) || (97 <= u <= 122)
}

/// ASCII digits.
pub open spec fn is_digit(c: char) -> bool {
    48 <= c as u32 <= 57
}

/// The end of the run of name characters that starts at `i`.
pub open spec fn name_end(s: Seq<char>, i: int) -> int
    decreases s.len() - i,
{
    if 0 <= i < s.len() && is_name_char(s[i]) {
        name_end(s, i + 1)
    } else {
        i
    }
}

/// The end of the run of digits that starts at `i`.
pub open spec fn digits_end(s: Seq<char>, i: int) -> int
    decreases s.len() - i,
{
    if 0 <= i < s.len() && is_digit(s[i]) {
        digits_end(s, i + 1)
    } else {
        i
    }
}

/// The number that decimal digits denote.
pub open spec fn digits_value(ds: Seq<char>) -> nat
    decreases ds.len(),
{
    if ds.len() == 0 {
        0
    } else {
        digits_value(ds.drop_last()) * 10 + ((ds.last() as u32) - 48) as nat
    }
}

/// Whether `s` holds `c` at `i`.
pub open spec fn char_at(s: Seq<char>, i: int, c: char) -> bool {
    0 <= i < s.len() && s[i] == c
}

/// Whether `, ` stands at `i`.
pub open spec fn comma_at(s: Seq<char>, i: int) -> bool {
    char_at(s, i, ',') && char_at(s, i + 1, ' ')
}

/// Whether a type may end at `j`: at the end, or before `,` or `)`.
pub open spec fn ends_type(s: Seq<char>, j: int) -> bool {
    j == s.len() || char_at(s, j, ',') || char_at(s, j, ')')
}

/// A natural number at `i` without leading zeros, and where it ends.
pub open spec fn parse_nat(s: Seq<char>, i: int) -> Option<(nat, int)> {
    let e = digits_end(s, i);
    if e <= i || (e - i > 1 && s[i] as u32 == 48) {
        None
    } else {
        Some((digits_value(s.subrange(i, e)), e))
    }
}

/// A `u32` at `i`, and where it ends.
pub open spec fn parse_u32(s: Seq<char>, i: int) -> Option<(u32, int)> {
    match parse_nat(s, i) {
        Some((v, e)) => if v <= u32::MAX {
            Some((v as u32, e))
        } else {
            None
        },
        None => None,
    }
}

/// An `i32` at `i`, with `-` before a negative one, and where it ends.
pub open spec fn parse_i32(s: Seq<char>, i: int) -> Option<(i32, int)> {
    if char_at(s, i, '-') {
        match parse_nat(s, i + 1) {
            Some((v, e)) => if 0 < v <= 0x8000_0000 {
                Some(((-v) as i32, e))
            } else {
                None
            },
            None => None,
        }
    } else {
        match parse_nat(s, i) {
            Some((v, e)) => if v <= 0x7fff_ffff {
                Some((v as i32, e))
            } else {
                None
            },
            None => None,
        }
    }
}

/// A text in single quotes at `i`, and where it ends: the quotes enclose it,
/// and it holds no quote.
pub open spec fn parse_quoted(s: Seq<char>, i: int) -> Option<(Seq<char>, int)> {
    if char_at(s, i, '\'') && 0 <= i {
        match first_index(s.skip(i + 1), '\'') {
            Some(k) => Some((s.subrange(i + 1, i + 1 + k), i + 2 + k)),
            None => None,
        }
    } else {
        None
    }
}

/// An enum variant `'name' = value` at `i`, and where it ends.
pub open spec fn parse_variant(s: Seq<char>, i: int) -> Option<((Seq<char>, i32), int)> {
    match parse_quoted(s, i) {
        Some((name, j)) => if char_at(s, j, ' ') && char_at(s, j + 1, '=') && char_at(
            s,
            j + 2,
            ' ',
        ) {
            match parse_i32(s, j + 3) {
                Some((v, k)) => Some(((name, v), k)),
                None => None,
            }
        } else {
            None
        },
        None => None,
    }
}

/// Enum variants separated by `, ` at `i`, and where they end.
pub open spec fn parse_variants(s: Seq<char>, i: int) -> Option<(Seq<(Seq<char>, i32)>, int)>
    decreases s.len() - i,
{
    match parse_variant(s, i) {
        Some((v, j)) => if i < j && comma_at(s, j) {
            match parse_variants(s, j + 2) {
                Some((rest, k)) => Some((seq![v] + rest, k)),
                None => None,
            }
        } else {
            Some((seq![v], j))
        },
        None => None,
    }
}

/// The type that a name stands for alone.
pub open spec fn plain_type(name: Seq<char>) -> Option<SqlTypeView> {
    if name == "UInt8"@ {
        Some(SqlTypeView::UInt8)
    } else if name == "UInt16"@ {
        Some(SqlTypeView::UInt16)
    } else if name == "UInt32"@ {
        Some(SqlTypeView::UInt32)
    } else if name == "UInt64"@ {
        Some(SqlTypeView::UInt64)
    } else if name == "UInt128"@ {
        Some(SqlTypeView::UInt128)
    } else if name == "Int8"@ {
        Some(SqlTypeView::Int8)
    } else if name == "Int16"@ {
        Some(SqlTypeView::Int16)
    } else if name == "Int32"@ {
        Some(SqlTypeView::Int32)
    } else if name == "Int64"@ {
        Some(SqlTypeView::Int64)
    } else if name == "Int128"@ {
        Some(SqlTypeView::Int128)
    } else if name == "Float32"@ {
        Some(SqlTypeView::Float32)
    } else if name == "Float64"@ {
        Some(SqlTypeView::Float64)
    } else if name == "Bool"@ {
        Some(SqlTypeView::Bool)
    } else if name == "String"@ {
        Some(SqlTypeView::String)
    } else if name == "UUID"@ {
        Some(SqlTypeView::UUID)
    } else if name == "Date"@ {
        Some(SqlTypeView::Date)
    } else if name == "Date32"@ {
        Some(SqlTypeView::Date32)
    } else if name == "Time"@ {
        Some(SqlTypeView::Time)
    } else if name == "IPv4"@ {
        Some(SqlTypeView::IPv4)
    } else if name == "IPv6"@ {
        Some(SqlTypeView::IPv6)
    } else {
        None
    }
}

/// The parameters and closing bracket of a type named `name` whose opening
/// bracket ends at `j`, and where they end.
pub open spec fn parse_params(s: Seq<char>, name: Seq<char>, j: int) -> Option<(SqlTypeView, int)>
    decreases s.len() - j, 2int,
{
    if !(0 < j <= s.len()) {
        None
    } else if name == "Decimal"@ {
        match parse_u32(s, j) {
            Some((p, k)) => if comma_at(s, k) {
                match parse_u32(s, k + 2) {
                    Some((q, m)) => if char_at(s, m, ')') {
                        Some((SqlTypeView::Decimal(p, q), m + 1))
                    } else {
                        None
                    },
                    None => None,
                }
            } else {
                None
            },
            None => None,
        }
    } else if name == "FixedString"@ || name == "Time64"@ {
        match parse_u32(s, j) {
            Some((n, k)) => if char_at(s, k, ')') {
                Some(
                    (
                        if name == "FixedString"@ {
                            SqlTypeView::FixedString(n)
                        } else {
                            SqlTypeView::Time64(n)
                        },
                        k + 1,
                    ),
                )
            } else {
                None
            },
            None => None,
        }
    } else if name == "DateTime"@ {
        match parse_quoted(s, j) {
            Some((z, k)) => if char_at(s, k, ')') {
                Some((SqlTypeView::DateTime(Some(z)), k + 1))
            } else {
                None
            },
            None => None,
        }
    } else if name == "DateTime64"@ {
        match parse_u32(s, j) {
            Some((p, k)) => if char_at(s, k, ')') {
                Some((SqlTypeView::DateTime64(p, None), k + 1))
            } else if comma_at(s, k) {
                match parse_quoted(s, k + 2) {
                    Some((z, m)) => if char_at(s, m, ')') {
                        Some((SqlTypeView::DateTime64(p, Some(z)), m + 1))
                    } else {
                        None
                    },
                    None => None,
                }
            } else {
                None
            },
            None => None,
        }
    } else if name == "Enum8"@ || name == "Enum16"@ {
        let e8 = name == "Enum8"@;
        if char_at(s, j, ')') {
            Some(
                (
                    if e8 {
                        SqlTypeView::Enum8(Seq::empty())
                    } else {
                        SqlTypeView::Enum16(Seq::empty())
                    },
                    j + 1,
                ),
            )
        } else {
            match parse_variants(s, j) {
                Some((v, k)) => if char_at(s, k, ')') {
                    Some(
                        (
                            if e8 {
                                SqlTypeView::Enum8(v)
                            } else {
                                SqlTypeView::Enum16(v)
                            },
                            k + 1,
                        ),
                    )
                } else {
                    None
                },
                None => None,
            }
        }
    } else if name == "Array"@ || name == "Nullable"@ {
        match parse_type_from(s, j) {
            Some((t, k)) => if char_at(s, k, ')') {
                Some(
                    (
                        if name == "Array"@ {
                            SqlTypeView::Array(Box::new(t))
                        } else {
                            SqlTypeView::Nullable(Box::new(t))
                        },
                        k + 1,
                    ),
                )
            } else {
                None
            },
            None => None,
        }
    } else if name == "Map"@ {
        match parse_type_from(s, j) {
            Some((a, k)) => if j < k && comma_at(s, k) {
                match parse_type_from(s, k + 2) {
                    Some((b, m)) => if char_at(s, m, ')') {
                        Some((SqlTypeView::MapOf(Box::new(a), Box::new(b)), m + 1))
                    } else {
                        None
                    },
                    None => None,
                }
            } else {
                None
            },
            None => None,
        }
    } else if name == "Tuple"@ {
        if char_at(s, j, ')') {
            Some((SqlTypeView::Tuple(Seq::empty()), j + 1))
        } else {
            match parse_types(s, j) {
                Some((ts, k)) => if char_at(s, k, ')') {
                    Some((SqlTypeView::Tuple(ts), k + 1))
                } else {
                    None
                },
                None => None,
            }
        }
    } else {
        None
    }
}

/// The type whose notation starts at `i`, and where it ends.
pub open spec fn parse_type_from(s: Seq<char>, i: int) -> Option<(SqlTypeView, int)>
    decreases s.len() - i, 0int,
{
    if !(0 <= i <= s.len()) {
        None
    } else {
        let e = name_end(s, i);
        let name = s.subrange(i, e);
        match plain_type(name) {
            Some(t) => if ends_type(s, e) {
                Some((t, e))
            } else {
                None
            },
            None => if name == "DateTime"@ && ends_type(s, e) {
                Some((SqlTypeView::DateTime(None), e))
            } else if i < e && char_at(s, e, '(') {
                parse_params(s, name, e + 1)
            } else {
                None
            },
        }
    }
}

/// Types separated by `, ` at `i`, and where they end.
pub open spec fn parse_types(s: Seq<char>, i: int) -> Option<(Seq<SqlTypeView>, int)>
    decreases s.len() - i, 1int,
{
    match parse_type_from(s, i) {
        Some((t, j)) => if i < j && comma_at(s, j) {
            match parse_types(s, j + 2) {
                Some((rest, k)) => Some((seq![t] + rest, k)),
                None => None,
            }
        } else {
            Some((seq![t], j))
        },
        None => None,
    }
}

/// The type that `s` is the notation of.
pub open spec fn sql_type_of(s: Seq<char>) -> Option<SqlTypeView> {
    match parse_type_from(s, 0) {
        Some((t, j)) => if j == s.len() {
            Some(t)
        } else {
            None
        },
        None => None,
    }
}

fn name_char(c: char) -> (r: bool)
    ensures
        r == is_name_char(c),
{
    let u = c as u32;
    (48 <= u && u <= 57) || (65 <= u && u <= 90) || (97 <= u && u <= 122)
}

fn digit(c: char) -> (r: bool)
    ensures
        r == is_digit(c),
{
    let u = c as u32;
    48 <= u && u <= 57
}

fn char_is(s: &str, n: usize, i: usize, c: char) -> (r: bool)
    requires
        n == s@.len(),
    ensures
        r == char_at(s@, i as int, c),
{
    i < n && s.get_char(i) == c
}

fn comma_is(s: &str, n: usize, i: usize) -> (r: bool)
    requires
        n == s@.len(),
    ensures
        r == comma_at(s@, i as int),
{
    i < n && char_is(s, n, i, ',') && char_is(s, n, i + 1, ' ')
}

fn find_name_end(s: &str, n: usize, i: usize) -> (e: usize)
    requires
        n == s@.len(),
        i <= n,
    ensures
        e == name_end(s@, i as int),
        i <= e <= n,
{
    let mut k = i;
    while k < n && name_char(s.get_char(k))
        invariant
            n == s@.len(),
            i <= k <= n,
            name_end(s@, i as int) == name_end(s@, k as int),
        decreases n - k,
    {
        k = k + 1;
    }
    k
}

fn find_digits_end(s: &str, n: usize, i: usize) -> (e: usize)
    requires
        n == s@.len(),
        i <= n,
    ensures
        e == digits_end(s@, i as int),
        i <= e <= n,
        forall|k: int| i <= k < e ==> is_digit(#[trigger] s@[k]),
{
    let mut k = i;
    while k < n && digit(s.get_char(k))
        invariant
            n == s@.len(),
            i <= k <= n,
            digits_end(s@, i as int) == digits_end(s@, k as int),
            forall|m: int| i <= m < k ==> is_digit(#[trigger] s@[m]),
        decreases n - k,
    {
        k = k + 1;
    }
    k
}

proof fn lemma_digits_value_grows(ds: Seq<char>, m: int)
    requires
        0 <= m <= ds.len(),
        forall|k: int| 0 <= k < ds.len() ==> is_digit(#[trigger] ds[k]),
    ensures
        digits_value(ds.take(m)) <= digits_value(ds),
    decreases ds.len(),
{
    if m < ds.len() {
        assert(ds.drop_last().take(m) =~= ds.take(m));
        lemma_digits_value_grows(ds.drop_last(), m);
    } else {
        assert(ds.take(m) =~= ds);
    }
}

/// A `u32` at `i` without leading zeros, and where it ends.
fn read_u32(s: &str, n: usize, i: usize) -> (r: Option<(u32, usize)>)
    requires
        n == s@.len(),
        i <= n,
    ensures
        match r {
            Some((v, e)) => parse_u32(s@, i as int) == Some((v, e as int)),
            None => parse_u32(s@, i as int) is None,
        },
{
    let e = find_digits_end(s, n, i);
    if e <= i || (e - i > 1 && s.get_char(i) as u32 == 48) {
        return None;
    }
    let ghost ds = s@.subrange(i as int, e as int);
    let mut v: u64 = 0;
    let mut k = i;
    assert(s@.subrange(i as int, i as int) =~= Seq::<char>::empty());
    while k < e
        invariant
            n == s@.len(),
            i <= k <= e <= n,
            ds == s@.subrange(i as int, e as int),
            e == digits_end(s@, i as int),
            i < e,
            !(e - i > 1 && s@[i as int] as u32 == 48),
            forall|m: int| i <= m < e ==> is_digit(#[trigger] s@[m]),
            v == digits_value(s@.subrange(i as int, k as int)),
            v <= u32::MAX,
        decreases e - k,
    {
        let c = s.get_char(k);
        let d = (c as u32 - 48) as u64;
        proof {
            assert(is_digit(s@[k as int]));
            let w = s@.subrange(i as int, k + 1);
            assert(w.drop_last() =~= s@.subrange(i as int, k as int));
            assert(w.last() == c);
            assert(digits_value(w) == v * 10 + d);
        }
        if v * 10 + d > u32::MAX as u64 {
            proof {
                assert forall|m: int| 0 <= m < ds.len() implies is_digit(#[trigger] ds[m]) by {
                    assert(ds[m] == s@[i + m]);
                }
                lemma_digits_value_grows(ds, k + 1 - i);
                assert(ds.take(k + 1 - i) =~= s@.subrange(i as int, k + 1));
                assert(digits_value(ds) > u32::MAX);
                assert(parse_nat(s@, i as int) == Some((digits_value(ds), e as int)));
            }
            return None;
        }
        v = v * 10 + d;
        k = k + 1;
    }
    Some((v as u32, e))
}

/// An `i32` at `i`, and where it ends.
fn read_i32(s: &str, n: usize, i: usize) -> (r: Option<(i32, usize)>)
    requires
        n == s@.len(),
        i <= n,
    ensures
        match r {
            Some((v, e)) => parse_i32(s@, i as int) == Some((v, e as int)),
            None => parse_i32(s@, i as int) is None,
        },
{
    if char_is(s, n, i, '-') {
        match read_u32(s, n, i + 1) {
            Some((v, e)) => {
                if 0 < v && v <= 0x8000_0000 {
                    let m: i64 = -(v as i64);
                    Some((m as i32, e))
                } else {
                    None
                }
            },
            None => None,
        }
    } else {
        match read_u32(s, n, i) {
            Some((v, e)) => {
                if v <= 0x7fff_ffff {
                    Some((v as i32, e))
                } else {
                    None
                }
            },
            None => None,
        }
    }
}

/// A quoted text at `i`, and where it ends.
fn read_quoted(s: &str, n: usize, i: usize) -> (r: Option<(String, usize)>)
    requires
        n == s@.len(),
        i <= n,
    ensures
        match r {
            Some((z, e)) => parse_quoted(s@, i as int) == Some((z@, e as int)),
            None => parse_quoted(s@, i as int) is None,
        },
{
    if !char_is(s, n, i, '\'') {
        return None;
    }
    assert(s@.subrange(i + 1, n as int) =~= s@.skip(i + 1));
    match find_char_from(s, n, '\'', i + 1) {
        Some(q) => Some((crate::text::substring(s, i + 1, q), q + 1)),
        None => None,
    }
}

fn read_variant(s: &str, n: usize, i: usize) -> (r: Option<((String, i32), usize)>)
    requires
        n == s@.len(),
        i <= n,
    ensures
        match r {
            Some((v, e)) => parse_variant(s@, i as int) == Some(((v.0@, v.1), e as int)),
            None => parse_variant(s@, i as int) is None,
        },
{
    match read_quoted(s, n, i) {
        Some((name, j)) => {
            if char_is(s, n, j, ' ') && char_is(s, n, j + 1, '=') && char_is(s, n, j + 2, ' ') {
                match read_i32(s, n, j + 3) {
                    Some((v, k)) => Some(((name, v), k)),
                    None => None,
                }
            } else {
                None
            }
        },
        None => None,
    }
}

fn read_variants(s: &str, n: usize, i: usize) -> (r: Option<(Vec<(String, i32)>, usize)>)
    requires
        n == s@.len(),
        i <= n,
    ensures
        match r {
            Some((v, e)) => parse_variants(s@, i as int) == Some(
                (crate::schema::variants_view(v@), e as int),
            ),
            None => parse_variants(s@, i as int) is None,
        },
    decreases n - i,
{
    match read_variant(s, n, i) {
        Some((v, j)) => {
            let ghost vv = (v.0@, v.1);
            if i < j && comma_is(s, n, j) {
                match read_variants(s, n, j + 2) {
                    Some((mut rest, k)) => {
                        let ghost old_rest = crate::schema::variants_view(rest@);
                        rest.insert(0, v);
                        assert(crate::schema::variants_view(rest@) =~= seq![vv] + old_rest);
                        Some((rest, k))
                    },
                    None => None,
                }
            } else {
                let one = vec![v];
                assert(crate::schema::variants_view(one@) =~= seq![vv]);
                Some((one, j))
            }
        },
        None => None,
    }
}

fn read_plain_type(name: &str) -> (r: Option<SqlType>)
    ensures
        match r {
            Some(t) => plain_type(name@) == Some(t@),
            None => plain_type(name@) is None,
        },
{
    if str_eq(name, "UInt8") {
        Some(SqlType::UInt8)
    } else if str_eq(name, "UInt16") {
        Some(SqlType::UInt16)
    } else if str_eq(name, "UInt32") {
        Some(SqlType::UInt32)
    } else if str_eq(name, "UInt64") {
        Some(SqlType::UInt64)
    } else if str_eq(name, "UInt128") {
        Some(SqlType::UInt128)
    } else if str_eq(name, "Int8") {
        Some(SqlType::Int8)
    } else if str_eq(name, "Int16") {
        Some(SqlType::Int16)
    } else if str_eq(name, "Int32") {
        Some(SqlType::Int32)
    } else if str_eq(name, "Int64") {
        Some(SqlType::Int64)
    } else if str_eq(name, "Int128") {
        Some(SqlType::Int128)
    } else if str_eq(name, "Float32") {
        Some(SqlType::Float32)
    } else if str_eq(name, "Float64") {
        Some(SqlType::Float64)
    } else if str_eq(name, "Bool") {
        Some(SqlType::Bool)
    } else if str_eq(name, "String") {
        Some(SqlType::String)
    } else if str_eq(name, "UUID") {
        Some(SqlType::UUID)
    } else if str_eq(name, "Date") {
        Some(SqlType::Date)
    } else if str_eq(name, "Date32") {
        Some(SqlType::Date32)
    } else if str_eq(name, "Time") {
        Some(SqlType::Time)
    } else if str_eq(name, "IPv4") {
        Some(SqlType::IPv4)
    } else if str_eq(name, "IPv6") {
        Some(SqlType::IPv6)
    } else {
        None
    }
}

/// The parameters and closing bracket of a type named `name`, after its
/// opening bracket ends at `j`.
fn read_params(s: &str, n: usize, name: &str, j: usize) -> (r: Option<(SqlType, usize)>)
    requires
        n == s@.len(),
    ensures
        match r {
            Some((t, e)) => parse_params(s@, name@, j as int) == Some((t@, e as int)),
            None => parse_params(s@, name@, j as int) is None,
        },
    decreases n - j, 2int,
{
    if !(0 < j && j <= n) {
        return None;
    }
    if str_eq(name, "Decimal") {
        match read_u32(s, n, j) {
            Some((p, k)) => {
                if comma_is(s, n, k) {
                    match read_u32(s, n, k + 2) {
                        Some((q, m)) => if char_is(s, n, m, ')') {
                            Some((SqlType::Decimal(p, q), m + 1))
                        } else {
                            None
                        },
                        None => None,
                    }
                } else {
                    None
                }
            },
            None => None,
        }
    } else if str_eq(name, "FixedString") || str_eq(name, "Time64") {
        match read_u32(s, n, j) {
            Some((v, k)) => if char_is(s, n, k, ')') {
                Some(
                    (
                        if str_eq(name, "FixedString") {
                            SqlType::FixedString(v)
                        } else {
                            SqlType::Time64(v)
                        },
                        k + 1,
                    ),
                )
            } else {
                None
            },
            None => None,
        }
    } else if str_eq(name, "DateTime") {
        match read_quoted(s, n, j) {
            Some((z, k)) => if char_is(s, n, k, ')') {
                Some((SqlType::DateTime(Some(z)), k + 1))
            } else {
                None
            },
            None => None,
        }
    } else if str_eq(name, "DateTime64") {
        match read_u32(s, n, j) {
            Some((p, k)) => {
                if char_is(s, n, k, ')') {
                    Some((SqlType::DateTime64(p, None), k + 1))
                } else if comma_is(s, n, k) {
                    match read_quoted(s, n, k + 2) {
                        Some((z, m)) => if char_is(s, n, m, ')') {
                            Some((SqlType::DateTime64(p, Some(z)), m + 1))
                        } else {
                            None
                        },
                        None => None,
                    }
                } else {
                    None
                }
            },
            None => None,
        }
    } else if str_eq(name, "Enum8") || str_eq(name, "Enum16") {
        let e8 = str_eq(name, "Enum8");
        if char_is(s, n, j, ')') {
            let empty: Vec<(String, i32)> = Vec::new();
            assert(crate::schema::variants_view(empty@) =~= Seq::<(Seq<char>, i32)>::empty());
            Some(
                (
                    if e8 {
                        SqlType::Enum8(empty)
                    } else {
                        SqlType::Enum16(empty)
                    },
                    j + 1,
                ),
            )
        } else {
            match read_variants(s, n, j) {
                Some((v, k)) => if char_is(s, n, k, ')') {
                    Some(
                        (
                            if e8 {
                                SqlType::Enum8(v)
                            } else {
                                SqlType::Enum16(v)
                            },
                            k + 1,
                        ),
                    )
                } else {
                    None
                },
                None => None,
            }
        }
    } else if str_eq(name, "Array") || str_eq(name, "Nullable") {
        match read_type(s, n, j) {
            Some((t, k)) => if char_is(s, n, k, ')') {
                Some(
                    (
                        if str_eq(name, "Array") {
                            SqlType::Array(Box::new(t))
                        } else {
                            SqlType::Nullable(Box::new(t))
                        },
                        k + 1,
                    ),
                )
            } else {
                None
            },
            None => None,
        }
    } else if str_eq(name, "Map") {
        match read_type(s, n, j) {
            Some((a, k)) => {
                if j < k && comma_is(s, n, k) {
                    match read_type(s, n, k + 2) {
                        Some((b, m)) => if char_is(s, n, m, ')') {
                            Some((SqlType::MapOf(Box::new(a), Box::new(b)), m + 1))
                        } else {
                            None
                        },
                        None => None,
                    }
                } else {
                    None
                }
            },
            None => None,
        }
    } else if str_eq(name, "Tuple") {
        if char_is(s, n, j, ')') {
            let empty: Vec<SqlType> = Vec::new();
            proof {
                lemma_sql_views(empty@);
                assert(sql_views(empty@) =~= Seq::<SqlTypeView>::empty());
            }
            Some((SqlType::Tuple(empty), j + 1))
        } else {
            match read_types(s, n, j) {
                Some((ts, k)) => if char_is(s, n, k, ')') {
                    Some((SqlType::Tuple(ts), k + 1))
                } else {
                    None
                },
                None => None,
            }
        }
    } else {
        None
    }
}

/// The type whose notation starts at `i`, and where it ends.
pub fn read_type(s: &str, n: usize, i: usize) -> (r: Option<(SqlType, usize)>)
    requires
        n == s@.len(),
    ensures
        match r {
            Some((t, e)) => parse_type_from(s@, i as int) == Some((t@, e as int)),
            None => parse_type_from(s@, i as int) is None,
        },
    decreases n - i, 0int,
{
    if i > n {
        return None;
    }
    let e = find_name_end(s, n, i);
    let name = s.substring_char(i, e);
    match read_plain_type(name) {
        Some(t) => {
            if e == n || char_is(s, n, e, ',') || char_is(s, n, e, ')') {
                Some((t, e))
            } else {
                None
            }
        },
        None => {
            if str_eq(name, "DateTime") && (e == n || char_is(s, n, e, ',') || char_is(
                s,
                n,
                e,
                ')',
            )) {
                Some((SqlType::DateTime(None), e))
            } else if i < e && char_is(s, n, e, '(') {
                read_params(s, n, name, e + 1)
            } else {
                None
            }
        },
    }
}

fn read_types(s: &str, n: usize, i: usize) -> (r: Option<(Vec<SqlType>, usize)>)
    requires
        n == s@.len(),
    ensures
        match r {
            Some((v, e)) => parse_types(s@, i as int) == Some((sql_views(v@), e as int)),
            None => parse_types(s@, i as int) is None,
        },
    decreases n - i, 1int,
{
    match read_type(s, n, i) {
        Some((t, j)) => {
            let ghost tv = t@;
            if i < j && j <= n && comma_is(s, n, j) {
                match read_types(s, n, j + 2) {
                    Some((mut rest, k)) => {
                        let ghost old_rest = rest@;
                        rest.insert(0, t);
                        proof {
                            lemma_sql_views(old_rest);
                            lemma_sql_views(rest@);
                            assert(sql_views(rest@) =~= seq![tv] + sql_views(old_rest));
                        }
                        Some((rest, k))
                    },
                    None => None,
                }
            } else {
                let one = vec![t];
                proof {
                    lemma_sql_views(one@);
                    assert(sql_views(one@) =~= seq![tv]);
                }
                Some((one, j))
            }
        },
        None => None,
    }
}

/// The type whose notation `s` is, if it is one.
pub fn parse_sql_type(s: &str) -> (r: Option<SqlType>)
    ensures
        match r {
            Some(t) => sql_type_of(s@) == Some(t@),
            None => sql_type_of(s@) is None,
        },
{
    let n = s.unicode_len();
    match read_type(s, n, 0) {
        Some((t, e)) => if e == n {
            Some(t)
        } else {
            None
        },
        None => None,
    }
}

proof fn lemma_digit_char(c: char)
    requires
        is_digit(c),
    ensures
        digit_char(((c as u32) - 48) as nat) == c,
        ((c as u32) - 48) < 10,
{
}

proof fn lemma_digits_end(s: Seq<char>, i: int)
    requires
        0 <= i <= s.len(),
    ensures
        i <= digits_end(s, i) <= s.len(),
        forall|k: int| i <= k < digits_end(s, i) ==> is_digit(#[trigger] s[k]),
        digits_end(s, i) < s.len() ==> !is_digit(s[digits_end(s, i)]),
    decreases s.len() - i,
{
    if i < s.len() && is_digit(s[i]) {
        lemma_digits_end(s, i + 1);
    }
}

proof fn lemma_name_end(s: Seq<char>, i: int)
    requires
        0 <= i <= s.len(),
    ensures
        i <= name_end(s, i) <= s.len(),
        forall|k: int| i <= k < name_end(s, i) ==> is_name_char(#[trigger] s[k]),
        name_end(s, i) < s.len() ==> !is_name_char(s[name_end(s, i)]),
    decreases s.len() - i,
{
    if i < s.len() && is_name_char(s[i]) {
        lemma_name_end(s, i + 1);
    }
}

proof fn lemma_digits_value_positive(ds: Seq<char>)
    requires
        ds.len() > 0,
        forall|k: int| 0 <= k < ds.len() ==> is_digit(#[trigger] ds[k]),
        ds[0] as u32 != 48,
    ensures
        digits_value(ds) >= 1,
    decreases ds.len(),
{
    assert(is_digit(ds[ds.len() - 1]));
    if ds.len() > 1 {
        assert(ds.drop_last()[0] == ds[0]);
        lemma_digits_value_positive(ds.drop_last());
    } else {
        assert(ds.drop_last() =~= Seq::<char>::empty());
        assert(digits_value(ds.drop_last()) == 0);
        assert(ds.last() == ds[0]);
    }
}

proof fn lemma_decimal_of_digits(ds: Seq<char>)
    requires
        ds.len() > 0,
        forall|k: int| 0 <= k < ds.len() ==> is_digit(#[trigger] ds[k]),
        !(ds.len() > 1 && ds[0] as u32 == 48),
    ensures
        decimal(digits_value(ds)) == ds,
    decreases ds.len(),
{
    let d = ((ds.last() as u32) - 48) as nat;
    lemma_digit_char(ds.last());
    if ds.len() == 1 {
        assert(ds.drop_last() =~= Seq::<char>::empty());
        assert(digits_value(ds.drop_last()) == 0);
        assert(digits_value(ds) == d);
        assert(decimal(d) =~= ds);
    } else {
        let w = ds.drop_last();
        lemma_digits_value_positive(w);
        lemma_decimal_of_digits(w);
        let a = digits_value(w);
        let v = digits_value(ds);
        assert(v == a * 10 + d);
        assert(v / 10 == a && v % 10 == d) by (nonlinear_arith)
            requires
                v == a * 10 + d,
                d < 10,
        ;
        assert(decimal(v) =~= ds);
    }
}

proof fn lemma_parse_nat_sound(s: Seq<char>, i: int)
    requires
        0 <= i <= s.len(),
    ensures
        parse_nat(s, i) matches Some((v, e)) ==> i < e <= s.len() && s.subrange(i, e) == decimal(
            v,
        ),
{
    lemma_digits_end(s, i);
    let e = digits_end(s, i);
    if let Some((v, e)) = parse_nat(s, i) {
        let ds = s.subrange(i, e);
        assert forall|k: int| 0 <= k < ds.len() implies is_digit(#[trigger] ds[k]) by {
            assert(ds[k] == s[i + k]);
        }
        lemma_decimal_of_digits(ds);
    }
}

proof fn lemma_parse_u32_sound(s: Seq<char>, i: int)
    requires
        0 <= i <= s.len(),
    ensures
        parse_u32(s, i) matches Some((v, e)) ==> i < e <= s.len() && s.subrange(i, e) == decimal(
            v as nat,
        ),
{
    lemma_parse_nat_sound(s, i);
}

proof fn lemma_parse_i32_sound(s: Seq<char>, i: int)
    requires
        0 <= i <= s.len(),
    ensures
        parse_i32(s, i) matches Some((v, e)) ==> i < e <= s.len() && s.subrange(i, e)
            == signed_decimal(v as int),
{
    if char_at(s, i, '-') {
        lemma_parse_nat_sound(s, i + 1);
        if let Some((v, e)) = parse_i32(s, i) {
            let m = parse_nat(s, i + 1)->Some_0.0;
            assert(s.subrange(i, e) =~= seq!['-'] + s.subrange(i + 1, e));
            assert((-(v as int)) as nat == m);
        }
    } else {
        lemma_parse_nat_sound(s, i);
    }
}

proof fn lemma_parse_quoted_sound(s: Seq<char>, i: int)
    requires
        0 <= i <= s.len(),
    ensures
        parse_quoted(s, i) matches Some((z, e)) ==> i < e <= s.len() && s.subrange(i, e) == "'"@
            + z + "'"@ && forall|k: int| 0 <= k < z.len() ==> #[trigger] z[k] != '\'',
{
    reveal_strlit("'");
    if let Some((z, e)) = parse_quoted(s, i) {
        let rest = s.skip(i + 1);
        let k = first_index(rest, '\'')->Some_0;
        crate::text::lemma_first_index_bound(rest, '\'');
        assert forall|m: int| 0 <= m < z.len() implies #[trigger] z[m] != '\'' by {
            assert(z[m] == rest[m]);
        }
        assert(s.subrange(i, e) =~= "'"@ + z + "'"@);
    }
}

proof fn lemma_variants_text_front(x: (Seq<char>, i32), r: Seq<(Seq<char>, i32)>)
    ensures
        variants_text(seq![x] + r) == if r.len() == 0 {
            variant_item(x)
        } else {
            variant_item(x) + ", "@ + variants_text(r)
        },
    decreases r.len(),
{
    let u = seq![x] + r;
    if r.len() == 0 {
        assert(u =~= seq![x]);
        assert(u.drop_last() =~= Seq::<(Seq<char>, i32)>::empty());
    } else {
        assert(u.drop_last() =~= seq![x] + r.drop_last());
        assert(u.last() == r.last());
        lemma_variants_text_front(x, r.drop_last());
        if r.len() == 1 {
            assert(r.drop_last() =~= Seq::<(Seq<char>, i32)>::empty());
        }
        assert(variants_text(u) =~= variant_item(x) + ", "@ + variants_text(r));
    }
}

proof fn lemma_sql_texts_front(t: SqlTypeView, r: Seq<SqlTypeView>)
    ensures
        sql_texts(seq![t] + r) == if r.len() == 0 {
            sql_text(t)
        } else {
            sql_text(t) + ", "@ + sql_texts(r)
        },
    decreases r.len(),
{
    let u = seq![t] + r;
    if r.len() == 0 {
        assert(u =~= seq![t]);
    } else {
        let rd = r.subrange(0, r.len() - 1);
        assert(u.subrange(0, u.len() - 1) =~= seq![t] + rd);
        assert(u[u.len() - 1] == r[r.len() - 1]);
        lemma_sql_texts_front(t, rd);
        assert(sql_texts(u) =~= sql_text(t) + ", "@ + sql_texts(r));
    }
}

proof fn lemma_parse_variant_sound(s: Seq<char>, i: int)
    requires
        0 <= i <= s.len(),
    ensures
        parse_variant(s, i) matches Some((x, j)) ==> i < j <= s.len() && s.subrange(i, j)
            == variant_item(x),
{
    lemma_parse_quoted_sound(s, i);
    reveal_strlit(" = ");
    if let Some((name, q)) = parse_quoted(s, i) {
        if char_at(s, q, ' ') && char_at(s, q + 1, '=') && char_at(s, q + 2, ' ') {
            lemma_parse_i32_sound(s, q + 3);
            if let Some((v, k)) = parse_i32(s, q + 3) {
                assert(s.subrange(i, k) =~= s.subrange(i, q) + " = "@ + s.subrange(q + 3, k));
            }
        }
    }
}

proof fn lemma_parse_variants_sound(s: Seq<char>, i: int)
    requires
        0 <= i <= s.len(),
    ensures
        parse_variants(s, i) matches Some((v, j)) ==> i < j <= s.len() && v.len() > 0
            && s.subrange(i, j) == variants_text(v),
    decreases s.len() - i,
{
    lemma_parse_variant_sound(s, i);
    reveal_strlit(", ");
    if let Some((x, j)) = parse_variant(s, i) {
        if i < j && comma_at(s, j) {
            lemma_parse_variants_sound(s, j + 2);
            if let Some((rest, k)) = parse_variants(s, j + 2) {
                lemma_variants_text_front(x, rest);
                assert(s.subrange(i, k) =~= s.subrange(i, j) + ", "@ + s.subrange(j + 2, k));
            }
        } else {
            lemma_variants_text_front(x, Seq::empty());
            assert(seq![x] + Seq::<(Seq<char>, i32)>::empty() =~= seq![x]);
        }
    }
}

proof fn lemma_plain_type(name: Seq<char>)
    ensures
        plain_type(name) matches Some(t) ==> is_plain(t) && plain_name(t) == name && sql_text(t)
            == name,
{
}

/// What is read as a type is that type's notation.
pub proof fn lemma_parse_type_sound(s: Seq<char>, i: int)
    requires
        0 <= i <= s.len(),
    ensures
        parse_type_from(s, i) matches Some((t, j)) ==> i < j <= s.len() && s.subrange(i, j)
            == sql_text(t),
    decreases s.len() - i, 0int,
{
    reveal_strlit("(");
    lemma_name_end(s, i);
    let e = name_end(s, i);
    let name = s.subrange(i, e);
    lemma_plain_type(name);
    if plain_type(name) is None && !(name == "DateTime"@ && ends_type(s, e)) && i < e && char_at(
        s,
        e,
        '(',
    ) {
        lemma_parse_params_sound(s, name, e + 1);
        if let Some((t, k)) = parse_params(s, name, e + 1) {
            assert(s.subrange(i, k) =~= name + "("@ + s.subrange(e + 1, k));
        }
    }
    if let Some((t, j)) = parse_type_from(s, i) {
        if plain_type(name) is Some {
            assert(i < e) by {
                if i == e {
                    assert(name =~= Seq::<char>::empty());
                    reveal_strlit("UInt8");
                    reveal_strlit("UInt16");
                    reveal_strlit("UInt32");
                    reveal_strlit("UInt64");
                    reveal_strlit("UInt128");
                    reveal_strlit("Int8");
                    reveal_strlit("Int16");
                    reveal_strlit("Int32");
                    reveal_strlit("Int64");
                    reveal_strlit("Int128");
                    reveal_strlit("Float32");
                    reveal_strlit("Float64");
                    reveal_strlit("Bool");
                    reveal_strlit("String");
                    reveal_strlit("UUID");
                    reveal_strlit("Date");
                    reveal_strlit("Date32");
                    reveal_strlit("Time");
                    reveal_strlit("IPv4");
                    reveal_strlit("IPv6");
                }
            }
        } else if name == "DateTime"@ && ends_type(s, e) {
            assert(i < e) by {
                reveal_strlit("DateTime");
                if i == e {
                    assert(name =~= Seq::<char>::empty());
                }
            }
        }
    }
}

proof fn lemma_parse_types_sound(s: Seq<char>, i: int)
    requires
        0 <= i <= s.len(),
    ensures
        parse_types(s, i) matches Some((ts, j)) ==> i < j <= s.len() && ts.len() > 0
            && s.subrange(i, j) == sql_texts(ts),
    decreases s.len() - i, 1int,
{
    reveal_strlit(", ");
    lemma_parse_type_sound(s, i);
    if let Some((t, j)) = parse_type_from(s, i) {
        if i < j && comma_at(s, j) {
            lemma_parse_types_sound(s, j + 2);
            if let Some((rest, k)) = parse_types(s, j + 2) {
                lemma_sql_texts_front(t, rest);
                assert(s.subrange(i, k) =~= s.subrange(i, j) + ", "@ + s.subrange(j + 2, k));
            }
        } else {
            lemma_sql_texts_front(t, Seq::empty());
            assert(seq![t] + Seq::<SqlTypeView>::empty() =~= seq![t]);
        }
    }
}

proof fn lemma_params_scalar_sound(s: Seq<char>, name: Seq<char>, j: int)
    requires
        0 < j <= s.len(),
        name == "Decimal"@ || name == "FixedString"@ || name == "Time64"@ || name == "DateTime"@
            || name == "DateTime64"@ || name == "Enum8"@ || name == "Enum16"@,
    ensures
        parse_params(s, name, j) matches Some((t, k)) ==> j < k <= s.len() && sql_text(t) == name
            + "("@ + s.subrange(j, k),
{
    reveal_strlit(")");
    reveal_strlit(", ");
    if let Some((t, k)) = parse_params(s, name, j) {
        if name == "Decimal"@ {
            lemma_parse_u32_sound(s, j);
            let (p, a) = parse_u32(s, j)->Some_0;
            lemma_parse_u32_sound(s, a + 2);
            let (q, b) = parse_u32(s, a + 2)->Some_0;
            assert(s.subrange(j, k) =~= s.subrange(j, a) + ", "@ + s.subrange(a + 2, b) + ")"@);
        } else if name == "FixedString"@ || name == "Time64"@ {
            lemma_parse_u32_sound(s, j);
            let (v, a) = parse_u32(s, j)->Some_0;
            assert(s.subrange(j, k) =~= s.subrange(j, a) + ")"@);
        } else if name == "DateTime"@ {
            lemma_parse_quoted_sound(s, j);
            let (z, a) = parse_quoted(s, j)->Some_0;
            assert(s.subrange(j, k) =~= s.subrange(j, a) + ")"@);
        } else if name == "DateTime64"@ {
            lemma_params_datetime64_sound(s, name, j);
        } else {
            if char_at(s, j, ')') {
                assert(s.subrange(j, k) =~= ")"@);
                assert(variants_text(Seq::empty()) =~= Seq::<char>::empty());
            } else {
                lemma_parse_variants_sound(s, j);
                let (v, a) = parse_variants(s, j)->Some_0;
                assert(s.subrange(j, k) =~= s.subrange(j, a) + ")"@);
            }
        }
    }
}

proof fn lemma_params_datetime64_sound(s: Seq<char>, name: Seq<char>, j: int)
    requires
        0 < j <= s.len(),
        name == "DateTime64"@,
        !(name == "Decimal"@ || name == "FixedString"@ || name == "Time64"@ || name == "DateTime"@),
    ensures
        parse_params(s, name, j) matches Some((t, k)) ==> j < k <= s.len() && sql_text(t)
            == name + "("@ + s.subrange(j, k),
{
    reveal_strlit(")");
    reveal_strlit(", ");
    if let Some((t, k)) = parse_params(s, name, j) {
        lemma_parse_u32_sound(s, j);
        let (p, a) = parse_u32(s, j)->Some_0;
        if char_at(s, a, ')') {
            assert(s.subrange(j, k) =~= s.subrange(j, a) + ")"@);
        } else {
            lemma_parse_quoted_sound(s, a + 2);
            let (z, b) = parse_quoted(s, a + 2)->Some_0;
            assert(s.subrange(j, k) =~= s.subrange(j, a) + ", "@ + s.subrange(a + 2, b) + ")"@);
        }
    }
}

proof fn lemma_params_wrapped_sound(s: Seq<char>, name: Seq<char>, j: int)
    requires
        0 < j <= s.len(),
        name == "Array"@ || name == "Nullable"@,
        !(name == "Decimal"@ || name == "FixedString"@ || name == "Time64"@ || name == "DateTime"@
            || name == "DateTime64"@ || name == "Enum8"@ || name == "Enum16"@),
    ensures
        parse_params(s, name, j) matches Some((t, k)) ==> j < k <= s.len() && sql_text(t) == name
            + "("@ + s.subrange(j, k),
    decreases s.len() - j, 2int,
{
    reveal_strlit(")");
    if let Some((t, k)) = parse_params(s, name, j) {
        lemma_parse_type_sound(s, j);
        let (x, a) = parse_type_from(s, j)->Some_0;
        assert(s.subrange(j, k) =~= s.subrange(j, a) + ")"@);
    }
}

proof fn lemma_params_map_sound(s: Seq<char>, name: Seq<char>, j: int)
    requires
        0 < j <= s.len(),
        name == "Map"@,
        !(name == "Decimal"@ || name == "FixedString"@ || name == "Time64"@ || name == "DateTime"@
            || name == "DateTime64"@ || name == "Enum8"@ || name == "Enum16"@ || name == "Array"@
            || name == "Nullable"@),
    ensures
        parse_params(s, name, j) matches Some((t, k)) ==> j < k <= s.len() && sql_text(t) == name
            + "("@ + s.subrange(j, k),
    decreases s.len() - j, 2int,
{
    reveal_strlit(")");
    reveal_strlit(", ");
    if let Some((t, k)) = parse_params(s, name, j) {
        lemma_parse_type_sound(s, j);
        let (x, a) = parse_type_from(s, j)->Some_0;
        lemma_parse_type_sound(s, a + 2);
        let (y, b) = parse_type_from(s, a + 2)->Some_0;
        assert(s.subrange(j, k) =~= s.subrange(j, a) + ", "@ + s.subrange(a + 2, b) + ")"@);
    }
}

proof fn lemma_params_tuple_sound(s: Seq<char>, name: Seq<char>, j: int)
    requires
        0 < j <= s.len(),
        name == "Tuple"@,
        !(name == "Decimal"@ || name == "FixedString"@ || name == "Time64"@ || name == "DateTime"@
            || name == "DateTime64"@ || name == "Enum8"@ || name == "Enum16"@ || name == "Array"@
            || name == "Nullable"@ || name == "Map"@),
    ensures
        parse_params(s, name, j) matches Some((t, k)) ==> j < k <= s.len() && sql_text(t) == name
            + "("@ + s.subrange(j, k),
    decreases s.len() - j, 2int,
{
    reveal_strlit(")");
    if let Some((t, k)) = parse_params(s, name, j) {
        if char_at(s, j, ')') {
            assert(s.subrange(j, k) =~= ")"@);
            assert(sql_texts(Seq::empty()) =~= Seq::<char>::empty());
        } else {
            lemma_parse_types_sound(s, j);
            let (ts, a) = parse_types(s, j)->Some_0;
            assert(s.subrange(j, k) =~= s.subrange(j, a) + ")"@);
        }
    }
}

proof fn lemma_parse_params_sound(s: Seq<char>, name: Seq<char>, j: int)
    requires
        0 < j <= s.len(),
    ensures
        parse_params(s, name, j) matches Some((t, k)) ==> j < k <= s.len() && sql_text(t) == name
            + "("@ + s.subrange(j, k),
    decreases s.len() - j, 3int,
{
    if name == "Decimal"@ || name == "FixedString"@ || name == "Time64"@ || name == "DateTime"@
        || name == "DateTime64"@ || name == "Enum8"@ || name == "Enum16"@ {
        lemma_params_scalar_sound(s, name, j);
    } else if name == "Array"@ || name == "Nullable"@ {
        lemma_params_wrapped_sound(s, name, j);
    } else if name == "Map"@ {
        lemma_params_map_sound(s, name, j);
    } else if name == "Tuple"@ {
        lemma_params_tuple_sound(s, name, j);
    }
}

proof fn lemma_decimal_digits(n: nat)
    ensures
        decimal(n).len() > 0,
        forall|k: int| 0 <= k < decimal(n).len() ==> is_digit(#[trigger] decimal(n)[k]),
        decimal(n).len() > 1 ==> decimal(n)[0] as u32 != 48,
        digits_value(decimal(n)) == n,
    decreases n,
{
    if n >= 10 {
        lemma_decimal_digits(n / 10);
        let w = decimal(n / 10);
        assert(decimal(n).drop_last() =~= w);
        assert(decimal(n)[0] == w[0]);
        assert(n / 10 >= 1);
        if w.len() == 1 {
            assert(digits_value(w) == n / 10);
            assert(w.drop_last() =~= Seq::<char>::empty());
            assert(digits_value(w.drop_last()) == 0);
            assert(w[0] as u32 != 48);
        }
        assert(n == (n / 10) * 10 + n % 10);
    } else {
        assert(decimal(n).drop_last() =~= Seq::<char>::empty());
        assert(digits_value(decimal(n).drop_last()) == 0);
    }
}

proof fn lemma_digits_end_at(s: Seq<char>, i: int, e: int)
    requires
        0 <= i <= e <= s.len(),
        forall|k: int| i <= k < e ==> is_digit(#[trigger] s[k]),
        e < s.len() ==> !is_digit(s[e]),
    ensures
        digits_end(s, i) == e,
    decreases e - i,
{
    if i < e {
        lemma_digits_end_at(s, i + 1, e);
    }
}

/// Where a decimal number stands, followed by no digit, it is read back.
proof fn lemma_parse_nat_complete(s: Seq<char>, i: int, n: nat)
    requires
        0 <= i,
        i + decimal(n).len() <= s.len(),
        s.subrange(i, i + decimal(n).len()) == decimal(n),
        i + decimal(n).len() < s.len() ==> !is_digit(s[i + decimal(n).len()]),
    ensures
        parse_nat(s, i) == Some((n, i + decimal(n).len())),
{
    let d = decimal(n);
    lemma_decimal_digits(n);
    assert forall|k: int| i <= k < i + d.len() implies is_digit(#[trigger] s[k]) by {
        assert(s[k] == d[k - i]);
    }
    lemma_digits_end_at(s, i, i + d.len());
    assert(s[i] == d[0]);
}

proof fn lemma_parse_u32_complete(s: Seq<char>, i: int, n: u32)
    requires
        0 <= i,
        i + decimal(n as nat).len() <= s.len(),
        s.subrange(i, i + decimal(n as nat).len()) == decimal(n as nat),
        i + decimal(n as nat).len() < s.len() ==> !is_digit(s[i + decimal(n as nat).len()]),
    ensures
        parse_u32(s, i) == Some((n, i + decimal(n as nat).len())),
{
    lemma_parse_nat_complete(s, i, n as nat);
}

proof fn lemma_parse_i32_complete(s: Seq<char>, i: int, v: i32)
    requires
        0 <= i,
        i + signed_decimal(v as int).len() <= s.len(),
        s.subrange(i, i + signed_decimal(v as int).len()) == signed_decimal(v as int),
        i + signed_decimal(v as int).len() < s.len() ==> !is_digit(
            s[i + signed_decimal(v as int).len()],
        ),
    ensures
        parse_i32(s, i) == Some((v, i + signed_decimal(v as int).len())),
{
    let t = signed_decimal(v as int);
    if v < 0 {
        let m = (-(v as int)) as nat;
        let d = decimal(m);
        assert(t == seq!['-'] + d);
        assert(s[i] == t[0]);
        assert(s.subrange(i + 1, i + 1 + d.len()) =~= d) by {
            assert forall|k: int| 0 <= k < d.len() implies s.subrange(i + 1, i + 1 + d.len())[k]
                == d[k] by {
                assert(s.subrange(i, i + t.len())[k + 1] == t[k + 1]);
            }
        }
        lemma_parse_nat_complete(s, i + 1, m);
        lemma_decimal_digits(m);
        assert(d[0] == s[i + 1]);
        assert(!char_at(s, i + 1, '-') || true);
    } else {
        lemma_decimal_digits(v as nat);
        let d = decimal(v as nat);
        assert(s[i] == d[0]);
        assert(is_digit(d[0]));
        lemma_parse_nat_complete(s, i, v as nat);
    }
}

/// The name with which the notation of a type begins.
pub open spec fn head_name(t: SqlTypeView) -> Seq<char> {
    match t {
        SqlTypeView::Decimal(_, _) => "Decimal"@,
        SqlTypeView::FixedString(_) => "FixedString"@,
        SqlTypeView::DateTime(_) => "DateTime"@,
        SqlTypeView::DateTime64(_, _) => "DateTime64"@,
        SqlTypeView::Time64(_) => "Time64"@,
        SqlTypeView::Enum8(_) => "Enum8"@,
        SqlTypeView::Enum16(_) => "Enum16"@,
        SqlTypeView::Array(_) => "Array"@,
        SqlTypeView::Nullable(_) => "Nullable"@,
        SqlTypeView::MapOf(_, _) => "Map"@,
        SqlTypeView::Tuple(_) => "Tuple"@,
        _ => plain_name(t),
    }
}


/// The length and the first and last two characters of every type name,
/// which tell the names apart.
proof fn lemma_name_marks()
    ensures
        "UInt8"@.len() == 5,
        "UInt8"@[0] == 'U',
        "UInt8"@[4] == '8',
        "UInt8"@[3] == 't',
        "UInt16"@.len() == 6,
        "UInt16"@[0] == 'U',
        "UInt16"@[5] == '6',
        "UInt16"@[4] == '1',
        "UInt32"@.len() == 6,
        "UInt32"@[0] == 'U',
        "UInt32"@[5] == '2',
        "UInt32"@[4] == '3',
        "UInt64"@.len() == 6,
        "UInt64"@[0] == 'U',
        "UInt64"@[5] == '4',
        "UInt64"@[4] == '6',
        "UInt128"@.len() == 7,
        "UInt128"@[0] == 'U',
        "UInt128"@[6] == '8',
        "UInt128"@[5] == '2',
        "Int8"@.len() == 4,
        "Int8"@[0] == 'I',
        "Int8"@[3] == '8',
        "Int8"@[2] == 't',
        "Int16"@.len() == 5,
        "Int16"@[0] == 'I',
        "Int16"@[4] == '6',
        "Int16"@[3] == '1',
        "Int32"@.len() == 5,
        "Int32"@[0] == 'I',
        "Int32"@[4] == '2',
        "Int32"@[3] == '3',
        "Int64"@.len() == 5,
        "Int64"@[0] == 'I',
        "Int64"@[4] == '4',
        "Int64"@[3] == '6',
        "Int128"@.len() == 6,
        "Int128"@[0] == 'I',
        "Int128"@[5] == '8',
        "Int128"@[4] == '2',
        "Float32"@.len() == 7,
        "Float32"@[0] == 'F',
        "Float32"@[6] == '2',
        "Float32"@[5] == '3',
        "Float64"@.len() == 7,
        "Float64"@[0] == 'F',
        "Float64"@[6] == '4',
        "Float64"@[5] == '6',
        "Bool"@.len() == 4,
        "Bool"@[0] == 'B',
        "Bool"@[3] == 'l',
        "Bool"@[2] == 'o',
        "String"@.len() == 6,
        "String"@[0] == 'S',
        "String"@[5] == 'g',
        "String"@[4] == 'n',
        "UUID"@.len() == 4,
        "UUID"@[0] == 'U',
        "UUID"@[3] == 'D',
        "UUID"@[2] == 'I',
        "Date"@.len() == 4,
        "Date"@[0] == 'D',
        "Date"@[3] == 'e',
        "Date"@[2] == 't',
        "Date32"@.len() == 6,
        "Date32"@[0] == 'D',
        "Date32"@[5] == '2',
        "Date32"@[4] == '3',
        "Time"@.len() == 4,
        "Time"@[0] == 'T',
        "Time"@[3] == 'e',
        "Time"@[2] == 'm',
        "IPv4"@.len() == 4,
        "IPv4"@[0] == 'I',
        "IPv4"@[3] == '4',
        "IPv4"@[2] == 'v',
        "IPv6"@.len() == 4,
        "IPv6"@[0] == 'I',
        "IPv6"@[3] == '6',
        "IPv6"@[2] == 'v',
        "Decimal"@.len() == 7,
        "Decimal"@[0] == 'D',
        "Decimal"@[6] == 'l',
        "Decimal"@[5] == 'a',
        "FixedString"@.len() == 11,
        "FixedString"@[0] == 'F',
        "FixedString"@[10] == 'g',
        "FixedString"@[9] == 'n',
        "DateTime"@.len() == 8,
        "DateTime"@[0] == 'D',
        "DateTime"@[7] == 'e',
        "DateTime"@[6] == 'm',
        "DateTime64"@.len() == 10,
        "DateTime64"@[0] == 'D',
        "DateTime64"@[9] == '4',
        "DateTime64"@[8] == '6',
        "Time64"@.len() == 6,
        "Time64"@[0] == 'T',
        "Time64"@[5] == '4',
        "Time64"@[4] == '6',
        "Enum8"@.len() == 5,
        "Enum8"@[0] == 'E',
        "Enum8"@[4] == '8',
        "Enum8"@[3] == 'm',
        "Enum16"@.len() == 6,
        "Enum16"@[0] == 'E',
        "Enum16"@[5] == '6',
        "Enum16"@[4] == '1',
        "Array"@.len() == 5,
        "Array"@[0] == 'A',
        "Array"@[4] == 'y',
        "Array"@[3] == 'a',
        "Nullable"@.len() == 8,
        "Nullable"@[0] == 'N',
        "Nullable"@[7] == 'e',
        "Nullable"@[6] == 'l',
        "Map"@.len() == 3,
        "Map"@[0] == 'M',
        "Map"@[2] == 'p',
        "Map"@[1] == 'a',
        "Tuple"@.len() == 5,
        "Tuple"@[0] == 'T',
        "Tuple"@[4] == 'e',
        "Tuple"@[3] == 'l',
{
    reveal_strlit("UInt8");
    reveal_strlit("UInt16");
    reveal_strlit("UInt32");
    reveal_strlit("UInt64");
    reveal_strlit("UInt128");
    reveal_strlit("Int8");
    reveal_strlit("Int16");
    reveal_strlit("Int32");
    reveal_strlit("Int64");
    reveal_strlit("Int128");
    reveal_strlit("Float32");
    reveal_strlit("Float64");
    reveal_strlit("Bool");
    reveal_strlit("String");
    reveal_strlit("UUID");
    reveal_strlit("Date");
    reveal_strlit("Date32");
    reveal_strlit("Time");
    reveal_strlit("IPv4");
    reveal_strlit("IPv6");
    reveal_strlit("Decimal");
    reveal_strlit("FixedString");
    reveal_strlit("DateTime");
    reveal_strlit("DateTime64");
    reveal_strlit("Time64");
    reveal_strlit("Enum8");
    reveal_strlit("Enum16");
    reveal_strlit("Array");
    reveal_strlit("Nullable");
    reveal_strlit("Map");
    reveal_strlit("Tuple");
}

/// What reading the name of a type tells apart.
proof fn lemma_head_name(t: SqlTypeView)
    ensures
        head_name(t).len() > 0,
        forall|k: int| 0 <= k < head_name(t).len() ==> is_name_char(#[trigger] head_name(t)[k]),
        is_plain(t) ==> plain_type(head_name(t)) == Some(t),
        !is_plain(t) ==> plain_type(head_name(t)) is None,
        (head_name(t) == "DateTime"@) == (t is DateTime),
        (head_name(t) == "Decimal"@) == (t is Decimal),
        (head_name(t) == "FixedString"@) == (t is FixedString),
        (head_name(t) == "Time64"@) == (t is Time64),
        (head_name(t) == "DateTime64"@) == (t is DateTime64),
        (head_name(t) == "Enum8"@) == (t is Enum8),
        (head_name(t) == "Enum16"@) == (t is Enum16),
        (head_name(t) == "Array"@) == (t is Array),
        (head_name(t) == "Nullable"@) == (t is Nullable),
        (head_name(t) == "Map"@) == (t is MapOf),
        (head_name(t) == "Tuple"@) == (t is Tuple),
{
    lemma_name_marks();
    reveal_strlit("UInt8");
    reveal_strlit("UInt16");
    reveal_strlit("UInt32");
    reveal_strlit("UInt64");
    reveal_strlit("UInt128");
    reveal_strlit("Int8");
    reveal_strlit("Int16");
    reveal_strlit("Int32");
    reveal_strlit("Int64");
    reveal_strlit("Int128");
    reveal_strlit("Float32");
    reveal_strlit("Float64");
    reveal_strlit("Bool");
    reveal_strlit("String");
    reveal_strlit("UUID");
    reveal_strlit("Date");
    reveal_strlit("Date32");
    reveal_strlit("Time");
    reveal_strlit("IPv4");
    reveal_strlit("IPv6");
    reveal_strlit("Decimal");
    reveal_strlit("FixedString");
    reveal_strlit("DateTime");
    reveal_strlit("DateTime64");
    reveal_strlit("Time64");
    reveal_strlit("Enum8");
    reveal_strlit("Enum16");
    reveal_strlit("Array");
    reveal_strlit("Nullable");
    reveal_strlit("Map");
    reveal_strlit("Tuple");
    match t {
        SqlTypeView::UInt8 => {},
        SqlTypeView::UInt16 => {},
        SqlTypeView::UInt32 => {},
        SqlTypeView::UInt64 => {},
        SqlTypeView::UInt128 => {},
        SqlTypeView::Int8 => {},
        SqlTypeView::Int16 => {},
        SqlTypeView::Int32 => {},
        SqlTypeView::Int64 => {},
        SqlTypeView::Int128 => {},
        SqlTypeView::Float32 => {},
        SqlTypeView::Float64 => {},
        SqlTypeView::Bool => {},
        SqlTypeView::String => {},
        SqlTypeView::UUID => {},
        SqlTypeView::Date => {},
        SqlTypeView::Date32 => {},
        SqlTypeView::Time => {},
        SqlTypeView::IPv4 => {},
        SqlTypeView::IPv6 => {},
        _ => {},
    }
}

/// Whether `x` stands at position `i` of `s`.
pub open spec fn text_at(s: Seq<char>, i: int, x: Seq<char>) -> bool {
    0 <= i && i + x.len() <= s.len() && s.subrange(i, i + x.len()) == x
}

/// Whether a text holds no single quote.
pub open spec fn no_quote(z: Seq<char>) -> bool {
    forall|k: int| 0 <= k < z.len() ==> z[k] != '\''
}

/// Whether the time zones and variant names within a type hold no single
/// quote, which their notation could not tell from its end.
pub open spec fn quotes_free(t: SqlTypeView) -> bool
    decreases t,
{
    match t {
        SqlTypeView::DateTime(Some(z)) => no_quote(z),
        SqlTypeView::DateTime64(_, Some(z)) => no_quote(z),
        SqlTypeView::Enum8(v) => forall|k: int| 0 <= k < v.len() ==> no_quote(#[trigger] v[k].0),
        SqlTypeView::Enum16(v) => forall|k: int| 0 <= k < v.len() ==> no_quote(#[trigger] v[k].0),
        SqlTypeView::Array(x) => quotes_free(*x),
        SqlTypeView::Nullable(x) => quotes_free(*x),
        SqlTypeView::MapOf(k, v) => quotes_free(*k) && quotes_free(*v),
        SqlTypeView::Tuple(ts) => all_quotes_free(ts),
        _ => true,
    }
}

/// Whether every type of `ts` is [`quotes_free`].
pub open spec fn all_quotes_free(ts: Seq<SqlTypeView>) -> bool
    decreases ts,
{
    if ts.len() == 0 {
        true
    } else {
        quotes_free(ts[0]) && all_quotes_free(ts.subrange(1, ts.len() as int))
    }
}

proof fn lemma_text_at_split(s: Seq<char>, i: int, a: Seq<char>, b: Seq<char>)
    requires
        text_at(s, i, a + b),
    ensures
        text_at(s, i, a),
        text_at(s, i + a.len(), b),
{
    let w = s.subrange(i, i + a.len() + b.len());
    assert(w == a + b);
    assert forall|k: int| 0 <= k < a.len() implies s[i + k] == a[k] by {
        assert(w[k] == s[i + k]);
        assert((a + b)[k] == a[k]);
    }
    assert forall|k: int| 0 <= k < b.len() implies s[i + a.len() + k] == b[k] by {
        assert(w[a.len() + k] == s[i + a.len() + k]);
        assert((a + b)[a.len() + k] == b[k]);
    }
    assert(s.subrange(i, i + a.len()) =~= a);
    assert(s.subrange(i + a.len(), i + a.len() + b.len()) =~= b);
}

proof fn lemma_name_end_at(s: Seq<char>, i: int, e: int)
    requires
        0 <= i <= e <= s.len(),
        forall|k: int| i <= k < e ==> is_name_char(#[trigger] s[k]),
        e < s.len() ==> !is_name_char(s[e]),
    ensures
        name_end(s, i) == e,
    decreases e - i,
{
    if i < e {
        lemma_name_end_at(s, i + 1, e);
    }
}

proof fn lemma_parse_quoted_complete(s: Seq<char>, i: int, z: Seq<char>)
    requires
        text_at(s, i, "'"@ + z + "'"@),
        no_quote(z),
    ensures
        parse_quoted(s, i) == Some((z, i + z.len() + 2)),
{
    reveal_strlit("'");
    let x = "'"@ + z + "'"@;
    assert(s[i] == x[0]);
    let rest = s.skip(i + 1);
    assert forall|j: int| 0 <= j < z.len() implies rest[j] != '\'' by {
        assert(rest[j] == x[j + 1]);
    }
    assert(rest[z.len() as int] == x[z.len() as int + 1]);
    crate::text::lemma_first_index(rest, '\'', z.len() as int);
    assert(s.subrange(i + 1, i + 1 + z.len()) =~= z) by {
        assert forall|k: int| 0 <= k < z.len() implies s.subrange(i + 1, i + 1 + z.len())[k]
            == z[k] by {
            assert(s[i + 1 + k] == x[k + 1]);
        }
    }
}

proof fn lemma_parse_variant_complete(s: Seq<char>, i: int, x: (Seq<char>, i32))
    requires
        text_at(s, i, variant_item(x)),
        no_quote(x.0),
        i + variant_item(x).len() < s.len() ==> !is_digit(s[i + variant_item(x).len()]),
    ensures
        parse_variant(s, i) == Some((x, i + variant_item(x).len())),
{
    reveal_strlit(" = ");
    reveal_strlit("'");
    let q = "'"@ + x.0 + "'"@;
    let d = signed_decimal(x.1 as int);
    assert(variant_item(x) =~= q + (" = "@ + d));
    lemma_text_at_split(s, i, q, " = "@ + d);
    lemma_text_at_split(s, i + q.len(), " = "@, d);
    lemma_parse_quoted_complete(s, i, x.0);
    let j = i + q.len();
    assert(s[j] == " = "@[0]);
    assert(s[j + 1] == " = "@[1]);
    assert(s[j + 2] == " = "@[2]);
    lemma_parse_i32_complete(s, j + 3, x.1);
}

proof fn lemma_parse_variants_complete(s: Seq<char>, i: int, v: Seq<(Seq<char>, i32)>)
    requires
        v.len() > 0,
        forall|k: int| 0 <= k < v.len() ==> no_quote(#[trigger] v[k].0),
        text_at(s, i, variants_text(v)),
        char_at(s, i + variants_text(v).len(), ')'),
    ensures
        parse_variants(s, i) == Some((v, i + variants_text(v).len())),
    decreases v.len(),
{
    reveal_strlit(", ");
    let x = v[0];
    let r = v.subrange(1, v.len() as int);
    assert(v =~= seq![x] + r);
    lemma_variants_text_front(x, r);
    assert(no_quote(v[0].0));
    let item = variant_item(x);
    if r.len() == 0 {
        assert(variants_text(v) == item);
        lemma_parse_variant_complete(s, i, x);
        assert(item.len() > 0) by {
            reveal_strlit("'");
        }
    } else {
        assert(variants_text(v) =~= item + (", "@ + variants_text(r)));
        lemma_text_at_split(s, i, item, ", "@ + variants_text(r));
        lemma_text_at_split(s, i + item.len(), ", "@, variants_text(r));
        let j = i + item.len();
        assert(s[j] == ", "@[0]);
        assert(s[j + 1] == ", "@[1]);
        lemma_parse_variant_complete(s, i, x);
        assert(item.len() > 0) by {
            reveal_strlit("'");
        }
        assert forall|k: int| 0 <= k < r.len() implies no_quote(#[trigger] r[k].0) by {
            assert(r[k] == v[k + 1]);
        }
        lemma_parse_variants_complete(s, j + 2, r);
    }
}

/// Whether a type is written with parameters in brackets.
pub open spec fn has_params(t: SqlTypeView) -> bool {
    !is_plain(t) && t != SqlTypeView::DateTime(None)
}

/// What follows the opening bracket in the notation of a type with
/// parameters.
pub open spec fn params_text(t: SqlTypeView) -> Seq<char> {
    match t {
        SqlTypeView::Decimal(p, q) => decimal(p as nat) + ", "@ + decimal(q as nat) + ")"@,
        SqlTypeView::FixedString(n) => decimal(n as nat) + ")"@,
        SqlTypeView::Time64(n) => decimal(n as nat) + ")"@,
        SqlTypeView::DateTime(Some(z)) => "'"@ + z + "'"@ + ")"@,
        SqlTypeView::DateTime64(p, tz) => decimal(p as nat) + tz_suffix(tz) + ")"@,
        SqlTypeView::Enum8(v) => variants_text(v) + ")"@,
        SqlTypeView::Enum16(v) => variants_text(v) + ")"@,
        SqlTypeView::Array(x) => sql_text(*x) + ")"@,
        SqlTypeView::Nullable(x) => sql_text(*x) + ")"@,
        SqlTypeView::MapOf(k, v) => sql_text(*k) + ", "@ + sql_text(*v) + ")"@,
        SqlTypeView::Tuple(ts) => sql_texts(ts) + ")"@,
        _ => Seq::empty(),
    }
}

proof fn lemma_sql_text_shape(t: SqlTypeView)
    ensures
        has_params(t) ==> sql_text(t) == head_name(t) + "("@ + params_text(t),
        !has_params(t) ==> sql_text(t) == head_name(t),
{
    match t {
        SqlTypeView::DateTime(Some(z)) => {
            assert(sql_text(t) =~= head_name(t) + "("@ + params_text(t));
        },
        SqlTypeView::DateTime(None) => {},
        _ => {
            if has_params(t) {
                assert(sql_text(t) =~= head_name(t) + "("@ + params_text(t));
            }
        },
    }
}

proof fn lemma_sql_text_starts(t: SqlTypeView)
    ensures
        sql_text(t).len() > 0,
        is_name_char(sql_text(t)[0]),
{
    lemma_head_name(t);
    lemma_sql_text_shape(t);
    assert(sql_text(t)[0] == head_name(t)[0]);
}

/// Where the notation of a type stands, followed by the end, `,` or `)`,
/// that type is read back.
pub proof fn lemma_parse_type_complete(s: Seq<char>, i: int, t: SqlTypeView)
    requires
        quotes_free(t),
        text_at(s, i, sql_text(t)),
        ends_type(s, i + sql_text(t).len()),
    ensures
        parse_type_from(s, i) == Some((t, i + sql_text(t).len())),
    decreases t, 1int,
{
    reveal_strlit("(");
    lemma_head_name(t);
    lemma_sql_text_shape(t);
    let n = head_name(t);
    let e = i + n.len();
    let x = sql_text(t);
    assert forall|k: int| i <= k < e implies is_name_char(#[trigger] s[k]) by {
        assert(s[k] == x[k - i]);
        assert(x[k - i] == n[k - i]);
    }
    if has_params(t) {
        assert(s[e] == x[n.len() as int]);
        assert(x[n.len() as int] == '(');
    }
    lemma_name_end_at(s, i, e);
    assert(s.subrange(i, e) =~= n);
    if has_params(t) {
        assert(!ends_type(s, e));
        lemma_text_at_split(s, i, n + "("@, params_text(t));
        lemma_parse_params_complete(s, e + 1, t);
    }
}

/// Where the notations of types separated by `, ` stand, followed by `)`,
/// those types are read back.
proof fn lemma_parse_types_complete(s: Seq<char>, i: int, ts: Seq<SqlTypeView>)
    requires
        ts.len() > 0,
        all_quotes_free(ts),
        text_at(s, i, sql_texts(ts)),
        char_at(s, i + sql_texts(ts).len(), ')'),
    ensures
        parse_types(s, i) == Some((ts, i + sql_texts(ts).len())),
    decreases ts, 0int,
{
    reveal_strlit(", ");
    let t = ts[0];
    let r = ts.subrange(1, ts.len() as int);
    assert(ts =~= seq![t] + r);
    lemma_sql_texts_front(t, r);
    lemma_sql_text_starts(t);
    let x = sql_text(t);
    if r.len() == 0 {
        lemma_parse_type_complete(s, i, t);
    } else {
        assert(sql_texts(ts) =~= x + (", "@ + sql_texts(r)));
        lemma_text_at_split(s, i, x, ", "@ + sql_texts(r));
        lemma_text_at_split(s, i + x.len(), ", "@, sql_texts(r));
        let j = i + x.len();
        assert(s[j] == ", "@[0]);
        assert(s[j + 1] == ", "@[1]);
        lemma_parse_type_complete(s, i, t);
        lemma_parse_types_complete(s, j + 2, r);
    }
}

proof fn lemma_params_numbers_complete(s: Seq<char>, j: int, t: SqlTypeView)
    requires
        t is Decimal || t is FixedString || t is Time64 || t is DateTime64 || t is DateTime,
        has_params(t),
        quotes_free(t),
        text_at(s, j, params_text(t)),
        j > 0,
    ensures
        parse_params(s, head_name(t), j) == Some((t, j + params_text(t).len())),
{
    reveal_strlit(")");
    reveal_strlit(", ");
    reveal_strlit("'");
    lemma_head_name(t);
    let x = params_text(t);
    match t {
        SqlTypeView::Decimal(p, q) => {
            let a = decimal(p as nat);
            let b = decimal(q as nat);
            assert(x =~= a + (", "@ + (b + ")"@)));
            lemma_text_at_split(s, j, a, ", "@ + (b + ")"@));
            lemma_text_at_split(s, j + a.len(), ", "@, b + ")"@);
            lemma_text_at_split(s, j + a.len() + 2, b, ")"@);
            assert(s[j + a.len()] == ", "@[0]);
            assert(s[j + a.len() + 1] == ", "@[1]);
            assert(s[j + a.len() + 2 + b.len()] == ")"@[0]);
            lemma_parse_u32_complete(s, j, p);
            lemma_parse_u32_complete(s, j + a.len() + 2, q);
        },
        SqlTypeView::FixedString(v) => {
            let a = decimal(v as nat);
            lemma_text_at_split(s, j, a, ")"@);
            assert(s[j + a.len()] == ")"@[0]);
            lemma_parse_u32_complete(s, j, v);
        },
        SqlTypeView::Time64(v) => {
            let a = decimal(v as nat);
            lemma_text_at_split(s, j, a, ")"@);
            assert(s[j + a.len()] == ")"@[0]);
            lemma_parse_u32_complete(s, j, v);
        },
        SqlTypeView::DateTime(tz) => {
            let z = tz->Some_0;
            let a = "'"@ + z + "'"@;
            lemma_text_at_split(s, j, a, ")"@);
            assert(s[j + a.len()] == ")"@[0]);
            lemma_parse_quoted_complete(s, j, z);
        },
        SqlTypeView::DateTime64(p, tz) => {
            let a = decimal(p as nat);
            assert(x =~= a + (tz_suffix(tz) + ")"@));
            lemma_text_at_split(s, j, a, tz_suffix(tz) + ")"@);
            match tz {
                None => {
                    assert(tz_suffix(tz) + ")"@ =~= ")"@);
                    assert(s[j + a.len()] == ")"@[0]);
                    lemma_parse_u32_complete(s, j, p);
                },
                Some(z) => {
                    let q = "'"@ + z + "'"@;
                    assert(tz_suffix(tz) + ")"@ =~= ", "@ + (q + ")"@));
                    lemma_text_at_split(s, j + a.len(), ", "@, q + ")"@);
                    lemma_text_at_split(s, j + a.len() + 2, q, ")"@);
                    assert(s[j + a.len()] == ", "@[0]);
                    assert(s[j + a.len() + 1] == ", "@[1]);
                    assert(s[j + a.len() + 2 + q.len()] == ")"@[0]);
                    lemma_parse_u32_complete(s, j, p);
                    lemma_parse_quoted_complete(s, j + a.len() + 2, z);
                },
            }
        },
        _ => {},
    }
}

proof fn lemma_params_enum_complete(s: Seq<char>, j: int, t: SqlTypeView)
    requires
        t is Enum8 || t is Enum16,
        quotes_free(t),
        text_at(s, j, params_text(t)),
        j > 0,
    ensures
        parse_params(s, head_name(t), j) == Some((t, j + params_text(t).len())),
{
    reveal_strlit(")");
    reveal_strlit("'");
    lemma_head_name(t);
    let v = match t {
        SqlTypeView::Enum8(v) => v,
        SqlTypeView::Enum16(v) => v,
        _ => Seq::empty(),
    };
    let a = variants_text(v);
    lemma_text_at_split(s, j, a, ")"@);
    assert(s[j + a.len()] == ")"@[0]);
    if v.len() == 0 {
        assert(a =~= Seq::<char>::empty());
        assert(v =~= Seq::<(Seq<char>, i32)>::empty());
    } else {
        lemma_variants_text_front(v[0], v.subrange(1, v.len() as int));
        assert(v =~= seq![v[0]] + v.subrange(1, v.len() as int));
        assert(a[0] == variant_item(v[0])[0]);
        assert(s[j] == a[0]);
        lemma_parse_variants_complete(s, j, v);
    }
}

proof fn lemma_parse_params_complete(s: Seq<char>, j: int, t: SqlTypeView)
    requires
        has_params(t),
        quotes_free(t),
        text_at(s, j, params_text(t)),
        j > 0,
    ensures
        parse_params(s, head_name(t), j) == Some((t, j + params_text(t).len())),
    decreases t, 0int,
{
    reveal_strlit(")");
    reveal_strlit(", ");
    lemma_head_name(t);
    let x = params_text(t);
    match t {
        SqlTypeView::Array(inner) => {
            let a = sql_text(*inner);
            lemma_text_at_split(s, j, a, ")"@);
            assert(s[j + a.len()] == ")"@[0]);
            lemma_parse_type_complete(s, j, *inner);
        },
        SqlTypeView::Nullable(inner) => {
            let a = sql_text(*inner);
            lemma_text_at_split(s, j, a, ")"@);
            assert(s[j + a.len()] == ")"@[0]);
            lemma_parse_type_complete(s, j, *inner);
        },
        SqlTypeView::MapOf(k, v) => {
            let a = sql_text(*k);
            let b = sql_text(*v);
            assert(x =~= a + (", "@ + (b + ")"@)));
            lemma_text_at_split(s, j, a, ", "@ + (b + ")"@));
            lemma_text_at_split(s, j + a.len(), ", "@, b + ")"@);
            lemma_text_at_split(s, j + a.len() + 2, b, ")"@);
            assert(s[j + a.len()] == ", "@[0]);
            assert(s[j + a.len() + 1] == ", "@[1]);
            assert(s[j + a.len() + 2 + b.len()] == ")"@[0]);
            lemma_sql_text_starts(*k);
            lemma_parse_type_complete(s, j, *k);
            lemma_parse_type_complete(s, j + a.len() + 2, *v);
        },
        SqlTypeView::Tuple(ts) => {
            let a = sql_texts(ts);
            lemma_text_at_split(s, j, a, ")"@);
            assert(s[j + a.len()] == ")"@[0]);
            if ts.len() == 0 {
                assert(a =~= Seq::<char>::empty());
                assert(ts =~= Seq::<SqlTypeView>::empty());
            } else {
                lemma_sql_texts_front(ts[0], ts.subrange(1, ts.len() as int));
                assert(ts =~= seq![ts[0]] + ts.subrange(1, ts.len() as int));
                lemma_sql_text_starts(ts[0]);
                assert(a[0] == sql_text(ts[0])[0]);
                assert(s[j] == a[0]);
                lemma_parse_types_complete(s, j, ts);
            }
        },
        SqlTypeView::Enum8(_) => {
            lemma_params_enum_complete(s, j, t);
        },
        SqlTypeView::Enum16(_) => {
            lemma_params_enum_complete(s, j, t);
        },
        _ => {
            lemma_params_numbers_complete(s, j, t);
        },
    }
}

} // verus!
