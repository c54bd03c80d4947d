//! The orders in which the command line lists options (those that `derive`
//! gives the option types), and stable insertion sorting.
use vstd::prelude::*;

use crate::schema::{lemma_sql_views, sql_views, SqlType, SqlTypeView, variants_view};
use vstd::utf8::encode_utf8;

verus! {

/// `-1`, `0` or `1` as `a` is below, equal to or above `b`.
pub open spec fn num_order(a: int, b: int) -> int {
    if a < b {
        -1
    } else if a > b {
        1
    } else {
        0
    }
}

/// The first comparison that is not equal.
pub open spec fn order_then(c: int, d: int) -> int {
    if c != 0 {
        c
    } else {
        d
    }
}

/// Lexicographic comparison of byte strings.
pub open spec fn bytes_order(a: Seq<u8>, b: Seq<u8>) -> int
    decreases a.len(),
{
    if a.len() == 0 {
        if b.len() == 0 {
            0
        } else {
            -1
        }
    } else if b.len() == 0 {
        1
    } else {
        order_then(num_order(a[0] as int, b[0] as int), bytes_order(a.drop_first(), b.drop_first()))
    }
}

/// How `String`'s order compares two strings: by their UTF-8 bytes.
pub open spec fn text_order(a: Seq<char>, b: Seq<char>) -> int {
    bytes_order(encode_utf8(a), encode_utf8(b))
}

proof fn lemma_bytes_order_skip(a: Seq<u8>, b: Seq<u8>, i: int)
    requires
        0 <= i <= a.len(),
        i <= b.len(),
        a.take(i) == b.take(i),
    ensures
        bytes_order(a, b) == bytes_order(a.skip(i), b.skip(i)),
    decreases i,
{
    if i > 0 {
        assert(a[0] == a.take(i)[0]);
        assert(b[0] == b.take(i)[0]);
        assert(a.drop_first().take(i - 1) =~= a.take(i).drop_first());
        assert(b.drop_first().take(i - 1) =~= b.take(i).drop_first());
        lemma_bytes_order_skip(a.drop_first(), b.drop_first(), i - 1);
        assert(a.drop_first().skip(i - 1) =~= a.skip(i));
        assert(b.drop_first().skip(i - 1) =~= b.skip(i));
    } else {
        assert(a.skip(0) =~= a);
        assert(b.skip(0) =~= b);
    }
}

/// Swapping the operands negates a byte string comparison.
pub proof fn lemma_bytes_order_antisymmetric(a: Seq<u8>, b: Seq<u8>)
    ensures
        bytes_order(a, b) == -bytes_order(b, a),
    decreases a.len(),
{
    if a.len() > 0 && b.len() > 0 {
        lemma_bytes_order_antisymmetric(a.drop_first(), b.drop_first());
    }
}

/// Swapping the operands negates a string comparison.
pub proof fn lemma_text_order_antisymmetric(a: Seq<char>, b: Seq<char>)
    ensures
        text_order(a, b) == -text_order(b, a),
{
    lemma_bytes_order_antisymmetric(encode_utf8(a), encode_utf8(b));
}

/// Compares two strings as `String`'s order does.
pub fn compare_text(a: &str, b: &str) -> (r: i8)
    ensures
        r as int == text_order(a@, b@),
{
    let x = a.as_bytes();
    let y = b.as_bytes();
    let mut i: usize = 0;
    while i < x.len() && i < y.len()
        invariant
            x@ == encode_utf8(a@),
            y@ == encode_utf8(b@),
            i <= x@.len(),
            i <= y@.len(),
            x@.take(i as int) == y@.take(i as int),
        decreases x.len() - i,
    {
        if x[i] != y[i] {
            proof {
                lemma_bytes_order_skip(x@, y@, i as int);
            }
            if x[i] < y[i] {
                return -1;
            } else {
                return 1;
            }
        }
        assert(x@.take(i + 1) =~= x@.take(i as int).push(x@[i as int]));
        assert(y@.take(i + 1) =~= y@.take(i as int).push(y@[i as int]));
        i = i + 1;
    }
    proof {
        lemma_bytes_order_skip(x@, y@, i as int);
    }
    if x.len() == y.len() {
        0
    } else if i == x.len() {
        -1
    } else {
        1
    }
}

/// How `Option<String>`'s order compares two optional strings.
pub open spec fn opt_text_order(a: Option<Seq<char>>, b: Option<Seq<char>>) -> int {
    match (a, b) {
        (None, None) => 0,
        (None, Some(_)) => -1,
        (Some(_), None) => 1,
        (Some(x), Some(y)) => text_order(x, y),
    }
}

/// How the order of `Vec<(String, i32)>` compares two variant lists.
pub open spec fn variants_order(a: Seq<(Seq<char>, i32)>, b: Seq<(Seq<char>, i32)>) -> int
    decreases a.len(),
{
    if a.len() == 0 {
        if b.len() == 0 {
            0
        } else {
            -1
        }
    } else if b.len() == 0 {
        1
    } else {
        order_then(
            order_then(text_order(a[0].0, b[0].0), num_order(a[0].1 as int, b[0].1 as int)),
            variants_order(a.drop_first(), b.drop_first()),
        )
    }
}

/// The position of a type's variant in the declaration of [`SqlType`].
pub open spec fn type_tag(t: SqlTypeView) -> int {
    match t {
        SqlTypeView::UInt8 => 0,
        SqlTypeView::UInt16 => 1,
        SqlTypeView::UInt32 => 2,
        SqlTypeView::UInt64 => 3,
        SqlTypeView::UInt128 => 4,
        SqlTypeView::Int8 => 5,
        SqlTypeView::Int16 => 6,
        SqlTypeView::Int32 => 7,
        SqlTypeView::Int64 => 8,
        SqlTypeView::Int128 => 9,
        SqlTypeView::Float32 => 10,
        SqlTypeView::Float64 => 11,
        SqlTypeView::Decimal(_, _) => 12,
        SqlTypeView::Bool => 13,
        SqlTypeView::String => 14,
        SqlTypeView::FixedString(_) => 15,
        SqlTypeView::UUID => 16,
        SqlTypeView::Date => 17,
        SqlTypeView::Date32 => 18,
        SqlTypeView::DateTime(_) => 19,
        SqlTypeView::DateTime64(_, _) => 20,
        SqlTypeView::Time => 21,
        SqlTypeView::Time64(_) => 22,
        SqlTypeView::IPv4 => 23,
        SqlTypeView::IPv6 => 24,
        SqlTypeView::Enum8(_) => 25,
        SqlTypeView::Enum16(_) => 26,
        SqlTypeView::Array(_) => 27,
        SqlTypeView::Tuple(_) => 28,
        SqlTypeView::MapOf(_, _) => 29,
        SqlTypeView::Nullable(_) => 30,
    }
}

/// The order that `derive(Ord)` gives [`SqlType`]: by variant, then by the
/// fields in turn.
pub open spec fn sql_order(a: SqlTypeView, b: SqlTypeView) -> int
    decreases a,
{
    if type_tag(a) != type_tag(b) {
        num_order(type_tag(a), type_tag(b))
    } else {
        match (a, b) {
            (SqlTypeView::Decimal(p1, s1), SqlTypeView::Decimal(p2, s2)) => order_then(
                num_order(p1 as int, p2 as int),
                num_order(s1 as int, s2 as int),
            ),
            (SqlTypeView::FixedString(n1), SqlTypeView::FixedString(n2)) => num_order(
                n1 as int,
                n2 as int,
            ),
            (SqlTypeView::DateTime(z1), SqlTypeView::DateTime(z2)) => opt_text_order(z1, z2),
            (SqlTypeView::DateTime64(p1, z1), SqlTypeView::DateTime64(p2, z2)) => order_then(
                num_order(p1 as int, p2 as int),
                opt_text_order(z1, z2),
            ),
            (SqlTypeView::Time64(p1), SqlTypeView::Time64(p2)) => num_order(p1 as int, p2 as int),
            (SqlTypeView::Enum8(v1), SqlTypeView::Enum8(v2)) => variants_order(v1, v2),
            (SqlTypeView::Enum16(v1), SqlTypeView::Enum16(v2)) => variants_order(v1, v2),
            (SqlTypeView::Array(x), SqlTypeView::Array(y)) => sql_order(*x, *y),
            (SqlTypeView::Nullable(x), SqlTypeView::Nullable(y)) => sql_order(*x, *y),
            (SqlTypeView::MapOf(k1, v1), SqlTypeView::MapOf(k2, v2)) => order_then(
                sql_order(*k1, *k2),
                sql_order(*v1, *v2),
            ),
            (SqlTypeView::Tuple(t1), SqlTypeView::Tuple(t2)) => sql_orders(t1, t2),
            _ => 0,
        }
    }
}

/// The lexicographic order of sequences of types.
pub open spec fn sql_orders(a: Seq<SqlTypeView>, b: Seq<SqlTypeView>) -> int
    decreases a,
{
    if a.len() == 0 {
        if b.len() == 0 {
            0
        } else {
            -1
        }
    } else if b.len() == 0 {
        1
    } else {
        order_then(
            sql_order(a[0], b[0]),
            sql_orders(a.subrange(1, a.len() as int), b.subrange(1, b.len() as int)),
        )
    }
}

proof fn lemma_variants_order_antisymmetric(a: Seq<(Seq<char>, i32)>, b: Seq<(Seq<char>, i32)>)
    ensures
        variants_order(a, b) == -variants_order(b, a),
    decreases a.len(),
{
    if a.len() > 0 && b.len() > 0 {
        lemma_text_order_antisymmetric(a[0].0, b[0].0);
        lemma_variants_order_antisymmetric(a.drop_first(), b.drop_first());
    }
}

/// Swapping the operands negates a comparison of types.
pub proof fn lemma_sql_order_antisymmetric(a: SqlTypeView, b: SqlTypeView)
    ensures
        sql_order(a, b) == -sql_order(b, a),
    decreases a,
{
    if type_tag(a) == type_tag(b) {
        match (a, b) {
            (SqlTypeView::DateTime(z1), SqlTypeView::DateTime(z2)) => {
                if z1 is Some && z2 is Some {
                    lemma_text_order_antisymmetric(z1->0, z2->0);
                }
            },
            (SqlTypeView::DateTime64(_, z1), SqlTypeView::DateTime64(_, z2)) => {
                if z1 is Some && z2 is Some {
                    lemma_text_order_antisymmetric(z1->0, z2->0);
                }
            },
            (SqlTypeView::Enum8(v1), SqlTypeView::Enum8(v2)) => {
                lemma_variants_order_antisymmetric(v1, v2);
            },
            (SqlTypeView::Enum16(v1), SqlTypeView::Enum16(v2)) => {
                lemma_variants_order_antisymmetric(v1, v2);
            },
            (SqlTypeView::Array(x), SqlTypeView::Array(y)) => {
                lemma_sql_order_antisymmetric(*x, *y);
            },
            (SqlTypeView::Nullable(x), SqlTypeView::Nullable(y)) => {
                lemma_sql_order_antisymmetric(*x, *y);
            },
            (SqlTypeView::MapOf(k1, v1), SqlTypeView::MapOf(k2, v2)) => {
                lemma_sql_order_antisymmetric(*k1, *k2);
                lemma_sql_order_antisymmetric(*v1, *v2);
            },
            (SqlTypeView::Tuple(t1), SqlTypeView::Tuple(t2)) => {
                lemma_sql_orders_antisymmetric(t1, t2);
            },
            _ => {},
        }
    }
}

proof fn lemma_sql_orders_antisymmetric(a: Seq<SqlTypeView>, b: Seq<SqlTypeView>)
    ensures
        sql_orders(a, b) == -sql_orders(b, a),
    decreases a,
{
    if a.len() > 0 && b.len() > 0 {
        lemma_sql_order_antisymmetric(a[0], b[0]);
        lemma_sql_orders_antisymmetric(
            a.subrange(1, a.len() as int),
            b.subrange(1, b.len() as int),
        );
    }
}

/// Byte strings that compare equal are equal.
pub proof fn lemma_bytes_order_zero(a: Seq<u8>, b: Seq<u8>)
    requires
        bytes_order(a, b) == 0,
    ensures
        a == b,
    decreases a.len(),
{
    if a.len() > 0 && b.len() > 0 {
        lemma_bytes_order_zero(a.drop_first(), b.drop_first());
        assert(a =~= seq![a[0]] + a.drop_first());
        assert(b =~= seq![b[0]] + b.drop_first());
    }
    assert(a =~= b);
}

/// The order of byte strings is transitive.
pub proof fn lemma_bytes_order_transitive(a: Seq<u8>, b: Seq<u8>, c: Seq<u8>)
    requires
        bytes_order(a, b) < 0,
        bytes_order(b, c) < 0,
    ensures
        bytes_order(a, c) < 0,
    decreases a.len(),
{
    if a.len() > 0 && b.len() > 0 && c.len() > 0 && a[0] == b[0] && b[0] == c[0] {
        lemma_bytes_order_transitive(a.drop_first(), b.drop_first(), c.drop_first());
    }
}

/// Strings that compare equal are equal.
pub proof fn lemma_text_order_zero(a: Seq<char>, b: Seq<char>)
    requires
        text_order(a, b) == 0,
    ensures
        a == b,
{
    lemma_bytes_order_zero(encode_utf8(a), encode_utf8(b));
    vstd::utf8::encode_utf8_decode_utf8(a);
    vstd::utf8::encode_utf8_decode_utf8(b);
}

/// The order of strings is transitive.
pub proof fn lemma_text_order_transitive(a: Seq<char>, b: Seq<char>, c: Seq<char>)
    requires
        text_order(a, b) < 0,
        text_order(b, c) < 0,
    ensures
        text_order(a, c) < 0,
{
    lemma_bytes_order_transitive(encode_utf8(a), encode_utf8(b), encode_utf8(c));
}

proof fn lemma_opt_text_order_zero(a: Option<Seq<char>>, b: Option<Seq<char>>)
    requires
        opt_text_order(a, b) == 0,
    ensures
        a == b,
{
    if a is Some && b is Some {
        lemma_text_order_zero(a->0, b->0);
    }
}

proof fn lemma_opt_text_order_transitive(
    a: Option<Seq<char>>,
    b: Option<Seq<char>>,
    c: Option<Seq<char>>,
)
    requires
        opt_text_order(a, b) < 0,
        opt_text_order(b, c) < 0,
    ensures
        opt_text_order(a, c) < 0,
{
    if a is Some && b is Some && c is Some {
        lemma_text_order_transitive(a->0, b->0, c->0);
    }
}

proof fn lemma_variants_order_zero(a: Seq<(Seq<char>, i32)>, b: Seq<(Seq<char>, i32)>)
    requires
        variants_order(a, b) == 0,
    ensures
        a == b,
    decreases a.len(),
{
    if a.len() > 0 && b.len() > 0 {
        lemma_text_order_zero(a[0].0, b[0].0);
        lemma_variants_order_zero(a.drop_first(), b.drop_first());
        assert(a =~= seq![a[0]] + a.drop_first());
        assert(b =~= seq![b[0]] + b.drop_first());
    }
    assert(a =~= b);
}

proof fn lemma_variants_order_transitive(
    a: Seq<(Seq<char>, i32)>,
    b: Seq<(Seq<char>, i32)>,
    c: Seq<(Seq<char>, i32)>,
)
    requires
        variants_order(a, b) < 0,
        variants_order(b, c) < 0,
    ensures
        variants_order(a, c) < 0,
    decreases a.len(),
{
    if a.len() > 0 && b.len() > 0 && c.len() > 0 {
        let ab = text_order(a[0].0, b[0].0);
        let bc = text_order(b[0].0, c[0].0);
        if ab == 0 {
            lemma_text_order_zero(a[0].0, b[0].0);
        }
        if bc == 0 {
            lemma_text_order_zero(b[0].0, c[0].0);
        }
        if ab < 0 && bc < 0 {
            lemma_text_order_transitive(a[0].0, b[0].0, c[0].0);
        }
        if ab == 0 && bc == 0 && a[0].1 == b[0].1 && b[0].1 == c[0].1 {
            lemma_variants_order_transitive(a.drop_first(), b.drop_first(), c.drop_first());
        }
    }
}

/// Types that compare equal are equal.
pub proof fn lemma_sql_order_zero(a: SqlTypeView, b: SqlTypeView)
    requires
        sql_order(a, b) == 0,
    ensures
        a == b,
    decreases a,
{
    match (a, b) {
        (SqlTypeView::DateTime(z1), SqlTypeView::DateTime(z2)) => {
            lemma_opt_text_order_zero(z1, z2);
        },
        (SqlTypeView::DateTime64(_, z1), SqlTypeView::DateTime64(_, z2)) => {
            lemma_opt_text_order_zero(z1, z2);
        },
        (SqlTypeView::Enum8(v1), SqlTypeView::Enum8(v2)) => {
            lemma_variants_order_zero(v1, v2);
        },
        (SqlTypeView::Enum16(v1), SqlTypeView::Enum16(v2)) => {
            lemma_variants_order_zero(v1, v2);
        },
        (SqlTypeView::Array(x), SqlTypeView::Array(y)) => {
            lemma_sql_order_zero(*x, *y);
        },
        (SqlTypeView::Nullable(x), SqlTypeView::Nullable(y)) => {
            lemma_sql_order_zero(*x, *y);
        },
        (SqlTypeView::MapOf(k1, v1), SqlTypeView::MapOf(k2, v2)) => {
            lemma_sql_order_zero(*k1, *k2);
            lemma_sql_order_zero(*v1, *v2);
        },
        (SqlTypeView::Tuple(t1), SqlTypeView::Tuple(t2)) => {
            lemma_sql_orders_zero(t1, t2);
        },
        _ => {},
    }
}

proof fn lemma_sql_orders_zero(a: Seq<SqlTypeView>, b: Seq<SqlTypeView>)
    requires
        sql_orders(a, b) == 0,
    ensures
        a == b,
    decreases a,
{
    if a.len() > 0 && b.len() > 0 {
        lemma_sql_order_zero(a[0], b[0]);
        lemma_sql_orders_zero(a.subrange(1, a.len() as int), b.subrange(1, b.len() as int));
        assert(a =~= seq![a[0]] + a.subrange(1, a.len() as int));
        assert(b =~= seq![b[0]] + b.subrange(1, b.len() as int));
    }
    assert(a =~= b);
}

/// The order of types is transitive.
pub proof fn lemma_sql_order_transitive(a: SqlTypeView, b: SqlTypeView, c: SqlTypeView)
    requires
        sql_order(a, b) < 0,
        sql_order(b, c) < 0,
    ensures
        sql_order(a, c) < 0,
    decreases a,
{
    if type_tag(a) == type_tag(b) && type_tag(b) == type_tag(c) {
        match (a, b, c) {
            (SqlTypeView::DateTime(x), SqlTypeView::DateTime(y), SqlTypeView::DateTime(z)) => {
                lemma_opt_text_order_transitive(x, y, z);
            },
            (
                SqlTypeView::DateTime64(p, x),
                SqlTypeView::DateTime64(q, y),
                SqlTypeView::DateTime64(r, z),
            ) => {
                if p == q && q == r {
                    lemma_opt_text_order_transitive(x, y, z);
                }
            },
            (SqlTypeView::Enum8(x), SqlTypeView::Enum8(y), SqlTypeView::Enum8(z)) => {
                lemma_variants_order_transitive(x, y, z);
            },
            (SqlTypeView::Enum16(x), SqlTypeView::Enum16(y), SqlTypeView::Enum16(z)) => {
                lemma_variants_order_transitive(x, y, z);
            },
            (SqlTypeView::Array(x), SqlTypeView::Array(y), SqlTypeView::Array(z)) => {
                lemma_sql_order_transitive(*x, *y, *z);
            },
            (SqlTypeView::Nullable(x), SqlTypeView::Nullable(y), SqlTypeView::Nullable(z)) => {
                lemma_sql_order_transitive(*x, *y, *z);
            },
            (SqlTypeView::MapOf(k1, v1), SqlTypeView::MapOf(k2, v2), SqlTypeView::MapOf(k3, v3)) => {
                let ab = sql_order(*k1, *k2);
                let bc = sql_order(*k2, *k3);
                if ab == 0 {
                    lemma_sql_order_zero(*k1, *k2);
                }
                if bc == 0 {
                    lemma_sql_order_zero(*k2, *k3);
                }
                if ab < 0 && bc < 0 {
                    lemma_sql_order_transitive(*k1, *k2, *k3);
                }
                if ab == 0 && bc == 0 {
                    lemma_sql_order_transitive(*v1, *v2, *v3);
                }
            },
            (SqlTypeView::Tuple(x), SqlTypeView::Tuple(y), SqlTypeView::Tuple(z)) => {
                lemma_sql_orders_transitive(x, y, z);
            },
            _ => {},
        }
    }
}

proof fn lemma_sql_orders_transitive(a: Seq<SqlTypeView>, b: Seq<SqlTypeView>, c: Seq<SqlTypeView>)
    requires
        sql_orders(a, b) < 0,
        sql_orders(b, c) < 0,
    ensures
        sql_orders(a, c) < 0,
    decreases a,
{
    if a.len() > 0 && b.len() > 0 && c.len() > 0 {
        let ab = sql_order(a[0], b[0]);
        let bc = sql_order(b[0], c[0]);
        if ab == 0 {
            lemma_sql_order_zero(a[0], b[0]);
        }
        if bc == 0 {
            lemma_sql_order_zero(b[0], c[0]);
        }
        if ab < 0 && bc < 0 {
            lemma_sql_order_transitive(a[0], b[0], c[0]);
        }
        if ab == 0 && bc == 0 {
            lemma_sql_orders_transitive(
                a.subrange(1, a.len() as int),
                b.subrange(1, b.len() as int),
                c.subrange(1, c.len() as int),
            );
        }
    }
}

fn compare_num(a: u32, b: u32) -> (r: i8)
    ensures
        r as int == num_order(a as int, b as int),
{
    if a < b {
        -1
    } else if a > b {
        1
    } else {
        0
    }
}

fn compare_opt_text(a: &Option<String>, b: &Option<String>) -> (r: i8)
    ensures
        r as int == opt_text_order(crate::schema::opt_str_view(*a), crate::schema::opt_str_view(*b)),
{
    match (a, b) {
        (None, None) => 0,
        (None, Some(_)) => -1,
        (Some(_), None) => 1,
        (Some(x), Some(y)) => compare_text(x.as_str(), y.as_str()),
    }
}

fn compare_variants(a: &Vec<(String, i32)>, b: &Vec<(String, i32)>) -> (r: i8)
    ensures
        r as int == variants_order(variants_view(a@), variants_view(b@)),
{
    let ghost va = variants_view(a@);
    let ghost vb = variants_view(b@);
    let mut i: usize = 0;
    proof {
        assert(va.skip(0) =~= va);
        assert(vb.skip(0) =~= vb);
    }
    while i < a.len() && i < b.len()
        invariant
            va == variants_view(a@),
            vb == variants_view(b@),
            i <= a.len(),
            i <= b.len(),
            variants_order(va, vb) == variants_order(va.skip(i as int), vb.skip(i as int)),
        decreases a.len() - i,
    {
        let c = compare_text(a[i].0.as_str(), b[i].0.as_str());
        let d: i8 = if a[i].1 < b[i].1 {
            -1
        } else if a[i].1 > b[i].1 {
            1
        } else {
            0
        };
        proof {
            assert(va.skip(i as int).drop_first() =~= va.skip(i + 1));
            assert(vb.skip(i as int).drop_first() =~= vb.skip(i + 1));
        }
        if c != 0 {
            return c;
        }
        if d != 0 {
            return d;
        }
        i = i + 1;
    }
    if a.len() == b.len() {
        0
    } else if i == a.len() {
        -1
    } else {
        1
    }
}

fn type_tag_of(t: &SqlType) -> (r: u8)
    ensures
        r as int == type_tag(t@),
{
    match t {
        SqlType::UInt8 => 0,
        SqlType::UInt16 => 1,
        SqlType::UInt32 => 2,
        SqlType::UInt64 => 3,
        SqlType::UInt128 => 4,
        SqlType::Int8 => 5,
        SqlType::Int16 => 6,
        SqlType::Int32 => 7,
        SqlType::Int64 => 8,
        SqlType::Int128 => 9,
        SqlType::Float32 => 10,
        SqlType::Float64 => 11,
        SqlType::Decimal(_, _) => 12,
        SqlType::Bool => 13,
        SqlType::String => 14,
        SqlType::FixedString(_) => 15,
        SqlType::UUID => 16,
        SqlType::Date => 17,
        SqlType::Date32 => 18,
        SqlType::DateTime(_) => 19,
        SqlType::DateTime64(_, _) => 20,
        SqlType::Time => 21,
        SqlType::Time64(_) => 22,
        SqlType::IPv4 => 23,
        SqlType::IPv6 => 24,
        SqlType::Enum8(_) => 25,
        SqlType::Enum16(_) => 26,
        SqlType::Array(_) => 27,
        SqlType::Tuple(_) => 28,
        SqlType::MapOf(_, _) => 29,
        SqlType::Nullable(_) => 30,
    }
}

/// Compares two types as `derive(Ord)` orders [`SqlType`].
#[verifier::loop_isolation(false)]
pub fn compare_sql(a: &SqlType, b: &SqlType) -> (r: i8)
    ensures
        r as int == sql_order(a@, b@),
    decreases a,
{
    let ta = type_tag_of(a);
    let tb = type_tag_of(b);
    if ta != tb {
        return if ta < tb {
            -1
        } else {
            1
        };
    }
    match (a, b) {
        (SqlType::Decimal(p1, s1), SqlType::Decimal(p2, s2)) => {
            let c = compare_num(*p1, *p2);
            if c != 0 {
                c
            } else {
                compare_num(*s1, *s2)
            }
        },
        (SqlType::FixedString(n1), SqlType::FixedString(n2)) => compare_num(*n1, *n2),
        (SqlType::DateTime(z1), SqlType::DateTime(z2)) => compare_opt_text(z1, z2),
        (SqlType::DateTime64(p1, z1), SqlType::DateTime64(p2, z2)) => {
            let c = compare_num(*p1, *p2);
            if c != 0 {
                c
            } else {
                compare_opt_text(z1, z2)
            }
        },
        (SqlType::Time64(p1), SqlType::Time64(p2)) => compare_num(*p1, *p2),
        (SqlType::Enum8(v1), SqlType::Enum8(v2)) => compare_variants(v1, v2),
        (SqlType::Enum16(v1), SqlType::Enum16(v2)) => compare_variants(v1, v2),
        (SqlType::Array(x), SqlType::Array(y)) => compare_sql(x, y),
        (SqlType::Nullable(x), SqlType::Nullable(y)) => compare_sql(x, y),
        (SqlType::MapOf(k1, v1), SqlType::MapOf(k2, v2)) => {
            let c = compare_sql(k1, k2);
            if c != 0 {
                c
            } else {
                compare_sql(v1, v2)
            }
        },
        (SqlType::Tuple(t1), SqlType::Tuple(t2)) => {
            let ghost va = sql_views(t1@);
            let ghost vb = sql_views(t2@);
            proof {
                lemma_sql_views(t1@);
                lemma_sql_views(t2@);
                assert(va.skip(0) =~= va);
                assert(vb.skip(0) =~= vb);
            }
            let mut i: usize = 0;
            while i < t1.len() && i < t2.len()
                invariant
                    i <= t1.len(),
                    i <= t2.len(),
                    sql_order(a@, b@) == sql_orders(va.skip(i as int), vb.skip(i as int)),
                decreases t1.len() - i,
            {
                proof {
                    let ra = va.skip(i as int);
                    let rb = vb.skip(i as int);
                    assert(ra.subrange(1, ra.len() as int) =~= va.skip(i + 1));
                    assert(rb.subrange(1, rb.len() as int) =~= vb.skip(i + 1));
                }
                assert(decreases_to!(a => t1@[i as int]));
                let c = compare_sql(&t1[i], &t2[i]);
                if c != 0 {
                    return c;
                }
                i = i + 1;
            }
            if t1.len() == t2.len() {
                0
            } else if i == t1.len() {
                -1
            } else {
                1
            }
        },
        _ => 0,
    }
}

} // verus!
