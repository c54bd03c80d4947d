//! Properties that hold of the generator for all inputs.
use vstd::prelude::*;

use crate::codegen::{
    derive_lines, enum_of, enum_of_items, enum_text, enums_text, fields_borrow, header_line,
    is_temporal, override_for, row_header, scalar_type, rust_types, sentinel_problem, field_attribute, field_text, field_type, fields_text, generated_code,
    is_sentinel_column, name_override, names_fit, prelude_text, row_text,
    rust_type, sentinel_module, sentinel_module_text, sentinel_modules_text,
    sentinel_type, type_override, ColumnNamesView, GenerateErrorView,
};
use crate::options::{
    command_head, command_lines, derive_option_lines, options_text, override_before, override_views, split_key_value, temporal_name, text_before,
    text_views, type_before, type_views, Options, Temporal,
};
use crate::parse::{
    lemma_parse_type_complete, lemma_parse_type_sound, quotes_free, sql_type_of,
};
use crate::order::{
    lemma_sql_order_antisymmetric, lemma_sql_order_transitive, lemma_sql_order_zero,
    lemma_text_order_antisymmetric, lemma_text_order_transitive, lemma_text_order_zero,
    sql_order, text_order,
};
use crate::schema::{sql_text, Column, SqlTypeView, Table};
use crate::sort::{
    is_asymmetric, is_sorted_by, is_strict_total, lemma_sort_by_permutation, lemma_sort_by_sorted,
    sort_by,
};
use crate::text::{
    has_lifetime, lifetime_at, is_continuation_char, is_white_space, lemma_first_index, trim, trim_end_by,
    trim_start_by,
};

verus! {

proof fn lemma_text_before_asymmetric()
    ensures
        is_asymmetric(text_before()),
{
    assert forall|a: Seq<char>, b: Seq<char>| #[trigger]
        (text_before())(a, b) implies !(text_before())(b, a) by {
        lemma_text_order_antisymmetric(a, b);
    }
}

proof fn lemma_override_before_asymmetric()
    ensures
        is_asymmetric(override_before()),
{
    assert forall|a: (Seq<char>, Seq<char>), b: (Seq<char>, Seq<char>)| #[trigger]
        (override_before())(a, b) implies !(override_before())(b, a) by {
        lemma_text_order_antisymmetric(a.0, b.0);
        lemma_text_order_antisymmetric(a.1, b.1);
    }
}

proof fn lemma_type_before_asymmetric()
    ensures
        is_asymmetric(type_before()),
{
    assert forall|a: (SqlTypeView, Seq<char>), b: (SqlTypeView, Seq<char>)| #[trigger]
        (type_before())(a, b) implies !(type_before())(b, a) by {
        lemma_sql_order_antisymmetric(a.0, b.0);
        lemma_text_order_antisymmetric(a.1, b.1);
    }
}

/// The command line lists every `-T`, `-O`, `-B`, `-N` and `-I` value that
/// the options hold, each list in the order of its type (no line below the
/// one before it).
pub proof fn law_format_lists_sorted(options: Options)
    ensures
        is_sorted_by(sort_by(type_views(options.types@), type_before()), type_before()),
        sort_by(type_views(options.types@), type_before()).to_multiset() == type_views(
            options.types@,
        ).to_multiset(),
        is_sorted_by(
            sort_by(override_views(options.overrides@), override_before()),
            override_before(),
        ),
        sort_by(override_views(options.overrides@), override_before()).to_multiset()
            == override_views(options.overrides@).to_multiset(),
        is_sorted_by(sort_by(text_views(options.bytes@), text_before()), text_before()),
        sort_by(text_views(options.bytes@), text_before()).to_multiset() == text_views(
            options.bytes@,
        ).to_multiset(),
        is_sorted_by(sort_by(text_views(options.sentinels@), text_before()), text_before()),
        sort_by(text_views(options.sentinels@), text_before()).to_multiset() == text_views(
            options.sentinels@,
        ).to_multiset(),
        is_sorted_by(sort_by(text_views(options.ignore@), text_before()), text_before()),
        sort_by(text_views(options.ignore@), text_before()).to_multiset() == text_views(
            options.ignore@,
        ).to_multiset(),
{
    lemma_text_before_asymmetric();
    lemma_override_before_asymmetric();
    lemma_type_before_asymmetric();
    lemma_sort_by_sorted(type_views(options.types@), type_before());
    lemma_sort_by_sorted(override_views(options.overrides@), override_before());
    lemma_sort_by_sorted(text_views(options.bytes@), text_before());
    lemma_sort_by_sorted(text_views(options.sentinels@), text_before());
    lemma_sort_by_sorted(text_views(options.ignore@), text_before());
}

proof fn lemma_text_before_total()
    ensures
        is_strict_total(text_before()),
{
    let lt = text_before();
    assert forall|a: Seq<char>| !#[trigger] lt(a, a) by {
        lemma_text_order_antisymmetric(a, a);
    }
    assert forall|a: Seq<char>, b: Seq<char>, c: Seq<char>| #[trigger] lt(a, b) && #[trigger] lt(
        b,
        c,
    ) implies lt(a, c) by {
        lemma_text_order_transitive(a, b, c);
    }
    assert forall|a: Seq<char>, b: Seq<char>| a != b implies #[trigger] lt(a, b) || #[trigger] lt(
        b,
        a,
    ) by {
        lemma_text_order_antisymmetric(a, b);
        if text_order(a, b) == 0 {
            lemma_text_order_zero(a, b);
        }
    }
}

proof fn lemma_override_before_total()
    ensures
        is_strict_total(override_before()),
{
    let lt = override_before();
    assert forall|a: (Seq<char>, Seq<char>)| !#[trigger] lt(a, a) by {
        lemma_text_order_antisymmetric(a.0, a.0);
        lemma_text_order_antisymmetric(a.1, a.1);
    }
    assert forall|a: (Seq<char>, Seq<char>), b: (Seq<char>, Seq<char>), c: (Seq<char>, Seq<char>)|
        #[trigger] lt(a, b) && #[trigger] lt(b, c) implies lt(a, c) by {
        if text_order(a.0, b.0) == 0 {
            lemma_text_order_zero(a.0, b.0);
        }
        if text_order(b.0, c.0) == 0 {
            lemma_text_order_zero(b.0, c.0);
        }
        if text_order(a.0, b.0) < 0 && text_order(b.0, c.0) < 0 {
            lemma_text_order_transitive(a.0, b.0, c.0);
        }
        if text_order(a.0, b.0) == 0 && text_order(b.0, c.0) == 0 {
            lemma_text_order_transitive(a.1, b.1, c.1);
        }
    }
    assert forall|a: (Seq<char>, Seq<char>), b: (Seq<char>, Seq<char>)| a != b implies #[trigger] lt(
        a,
        b,
    ) || #[trigger] lt(b, a) by {
        lemma_text_order_antisymmetric(a.0, b.0);
        lemma_text_order_antisymmetric(a.1, b.1);
        if text_order(a.0, b.0) == 0 {
            lemma_text_order_zero(a.0, b.0);
        }
        if text_order(a.1, b.1) == 0 {
            lemma_text_order_zero(a.1, b.1);
        }
    }
}

proof fn lemma_type_before_total()
    ensures
        is_strict_total(type_before()),
{
    let lt = type_before();
    assert forall|a: (SqlTypeView, Seq<char>)| !#[trigger] lt(a, a) by {
        lemma_sql_order_antisymmetric(a.0, a.0);
        lemma_text_order_antisymmetric(a.1, a.1);
    }
    assert forall|
        a: (SqlTypeView, Seq<char>),
        b: (SqlTypeView, Seq<char>),
        c: (SqlTypeView, Seq<char>),
    | #[trigger] lt(a, b) && #[trigger] lt(b, c) implies lt(a, c) by {
        if sql_order(a.0, b.0) == 0 {
            lemma_sql_order_zero(a.0, b.0);
        }
        if sql_order(b.0, c.0) == 0 {
            lemma_sql_order_zero(b.0, c.0);
        }
        if sql_order(a.0, b.0) < 0 && sql_order(b.0, c.0) < 0 {
            lemma_sql_order_transitive(a.0, b.0, c.0);
        }
        if sql_order(a.0, b.0) == 0 && sql_order(b.0, c.0) == 0 {
            lemma_text_order_transitive(a.1, b.1, c.1);
        }
    }
    assert forall|a: (SqlTypeView, Seq<char>), b: (SqlTypeView, Seq<char>)| a != b implies #[trigger] lt(
        a,
        b,
    ) || #[trigger] lt(b, a) by {
        lemma_sql_order_antisymmetric(a.0, b.0);
        lemma_text_order_antisymmetric(a.1, b.1);
        if sql_order(a.0, b.0) == 0 {
            lemma_sql_order_zero(a.0, b.0);
        }
        if text_order(a.1, b.1) == 0 {
            lemma_text_order_zero(a.1, b.1);
        }
    }
}

/// The command line that the options are recorded as does not depend on the
/// order in which the `-T`, `-O`, `-B`, `-N` and `-I` values were given (nor
/// on the server's URL, user and password): options that agree in every
/// other field, and hold the same values in those lists, print alike. The
/// `--derive` lines keep their given order.
pub proof fn law_format_ignores_list_order(o1: Options, o2: Options)
    requires
        o1.table@ == o2.table@,
        o1.database@ == o2.database@,
        o1.serialize == o2.serialize,
        o1.deserialize == o2.deserialize,
        o1.owned == o2.owned,
        o1.derives@ == o2.derives@,
        o1.temporal == o2.temporal,
        type_views(o1.types@).to_multiset() == type_views(o2.types@).to_multiset(),
        override_views(o1.overrides@).to_multiset() == override_views(o2.overrides@).to_multiset(),
        text_views(o1.bytes@).to_multiset() == text_views(o2.bytes@).to_multiset(),
        text_views(o1.sentinels@).to_multiset() == text_views(o2.sentinels@).to_multiset(),
        text_views(o1.ignore@).to_multiset() == text_views(o2.ignore@).to_multiset(),
    ensures
        options_text(o1) == options_text(o2),
{
    lemma_text_before_total();
    lemma_override_before_total();
    lemma_type_before_total();
    lemma_sort_by_permutation(type_views(o1.types@), type_views(o2.types@), type_before());
    lemma_sort_by_permutation(
        override_views(o1.overrides@),
        override_views(o2.overrides@),
        override_before(),
    );
    lemma_sort_by_permutation(text_views(o1.bytes@), text_views(o2.bytes@), text_before());
    lemma_sort_by_permutation(text_views(o1.sentinels@), text_views(o2.sentinels@), text_before());
    lemma_sort_by_permutation(text_views(o1.ignore@), text_views(o2.ignore@), text_before());
    assert(crate::options::command_lines(o1) == crate::options::command_lines(o2));
}

proof fn lemma_trim_end_shape(s: Seq<char>, p: spec_fn(char) -> bool)
    ensures
        exists|k: int|
            0 <= k <= s.len() && trim_end_by(s, p) == s.take(k) && (k == 0 || !p(s[k - 1]))
                && forall|j: int| k <= j < s.len() ==> p(#[trigger] s[j]),
    decreases s.len(),
{
    if s.len() > 0 && p(s.last()) {
        lemma_trim_end_shape(s.drop_last(), p);
        let k = choose|k: int|
            0 <= k <= s.drop_last().len() && trim_end_by(s.drop_last(), p) == s.drop_last().take(
                k,
            ) && (k == 0 || !p(s.drop_last()[k - 1])) && forall|j: int|
                k <= j < s.drop_last().len() ==> p(#[trigger] s.drop_last()[j]);
        assert(s.drop_last().take(k) =~= s.take(k));
        assert forall|j: int| k <= j < s.len() implies p(#[trigger] s[j]) by {
            if j < s.len() - 1 {
                assert(s[j] == s.drop_last()[j]);
            }
        }
    } else {
        assert(s.take(s.len() as int) =~= s);
    }
}

proof fn lemma_trim_start_shape(s: Seq<char>, p: spec_fn(char) -> bool)
    ensures
        exists|k: int|
            0 <= k <= s.len() && trim_start_by(s, p) == s.skip(k) && (k == s.len() || !p(s[k])),
    decreases s.len(),
{
    if s.len() > 0 && p(s[0]) {
        lemma_trim_start_shape(s.drop_first(), p);
        let k = choose|k: int|
            0 <= k <= s.drop_first().len() && trim_start_by(s.drop_first(), p)
                == s.drop_first().skip(k) && (k == s.drop_first().len() || !p(
                s.drop_first()[k],
            ));
        assert(s.drop_first().skip(k) =~= s.skip(k + 1));
    } else {
        assert(s.skip(0) =~= s);
    }
}

/// The command line that the options are recorded as never ends in `\`, a
/// space or a line break.
pub proof fn law_options_text_ends_cleanly(options: Options)
    ensures
        options_text(options).len() == 0 || !is_continuation_char(options_text(options).last()),
{
    let p = |c: char| is_continuation_char(c);
    let s = crate::options::command_lines(options);
    lemma_trim_end_shape(s, p);
}

/// Generated code has no white space at either end.
pub proof fn law_generated_code_trimmed(table: Table, names: Seq<ColumnNamesView>, options: Options)
    ensures
        generated_code(table, names, options) matches Ok(c) ==> c.len() == 0 || (
        !is_white_space(c[0]) && !is_white_space(c.last())),
{
    if let Ok(c) = generated_code(table, names, options) {
        let p = |c: char| is_white_space(c);
        let n = table.columns@.len() as int;
        let row = row_text(table, names, options)->Ok_0;
        let modules = sentinel_modules_text(table.columns@, names, options, n)->Ok_0;
        let x = prelude_text(options) + "\n"@ + row + "\n"@ + crate::codegen::enums_text(
            table.columns@,
            names,
            options,
            n,
        ) + modules;
        assert(c == trim(x));
        lemma_trim_start_shape(x, p);
        let t = trim_start_by(x, p);
        lemma_trim_end_shape(t, p);
        let k = choose|k: int|
            0 <= k <= t.len() && trim_end_by(t, p) == t.take(k) && (k == 0 || !p(t[k - 1]))
                && forall|j: int| k <= j < t.len() ==> p(#[trigger] t[j]);
        if c.len() > 0 {
            assert(c[0] == t[0]);
            assert(c.last() == t[k - 1]);
        }
    }
}

/// Generated code begins with the line that names the generator and its
/// version.
pub proof fn law_generated_code_header(table: Table, names: Seq<ColumnNamesView>, options: Options)
    ensures
        generated_code(table, names, options) matches Ok(c) ==> header_line().is_prefix_of(
            c,
        ),
{
    if let Ok(c) = generated_code(table, names, options) {
        let p = |c: char| is_white_space(c);
        let n = table.columns@.len() as int;
        let h = header_line();
        let row = row_text(table, names, options)->Ok_0;
        let modules = sentinel_modules_text(table.columns@, names, options, n)->Ok_0;
        let rest = "#![cfg_attr(rustfmt, rustfmt::skip)]\n#![allow(warnings)]\n#![allow(clippy::all)]\n\n// Generated with the following options:\n/*\n"@
            + crate::text::indent_after_newlines(options_text(options));
        let x = prelude_text(options) + "\n"@ + row + "\n"@ + crate::codegen::enums_text(
            table.columns@,
            names,
            options,
            n,
        ) + modules;
        reveal_strlit("// GENERATED CODE (ch2rs v");
        reveal_strlit("\n*/\n");
        assert(prelude_text(options) =~= h + rest + "\n*/\n"@);
        assert(x[0] == '/');
        assert(!p(x[0]));
        assert(trim_start_by(x, p) == x) by {
            lemma_trim_start_zero(x, p);
        }
        lemma_trim_end_shape(x, p);
        let k = choose|k: int|
            0 <= k <= x.len() && trim_end_by(x, p) == x.take(k) && (k == 0 || !p(x[k - 1]))
                && forall|j: int| k <= j < x.len() ==> p(#[trigger] x[j]);
        let slash: int = h.len() as int + rest.len() as int + 2;
        assert(x[slash] == '/');
        assert(k > slash);
        assert(c =~= x.take(k));
        assert forall|i: int| 0 <= i < h.len() implies c[i] == h[i] by {
            assert(x[i] == h[i]);
        }
    }
}

proof fn lemma_trim_start_zero(s: Seq<char>, p: spec_fn(char) -> bool)
    requires
        s.len() > 0,
        !p(s[0]),
    ensures
        trim_start_by(s, p) == s,
{
}

proof fn lemma_fields_text_fails(
    columns: Seq<Column>,
    names: Seq<ColumnNamesView>,
    options: Options,
    i: int,
    n: int,
)
    requires
        0 <= i < n,
        field_text(columns[i], names[i].field, names[i].enum_name, options) is Err,
    ensures
        fields_text(columns, names, options, n) is Err,
    decreases n,
{
    if i < n - 1 {
        lemma_fields_text_fails(columns, names, options, i, n - 1);
    }
}

/// A sentinel column of a type without a default value makes generation
/// fail.
pub proof fn law_sentinel_without_default_fails(
    table: Table,
    names: Seq<ColumnNamesView>,
    options: Options,
    i: int,
)
    requires
        names_fit(table, names),
        0 <= i < table.columns@.len(),
        is_sentinel_column(table.columns@[i].name@, options),
        sentinel_type(table.columns@[i].type_@) is Err,
    ensures
        generated_code(table, names, options) is Err,
{
    let c = table.columns@[i];
    assert(field_attribute(c, names[i].field, options) is Ok);
    assert(field_type(c, names[i].enum_name, options) is Err);
    lemma_fields_text_fails(table.columns@, names, options, i, table.columns@.len() as int);
}

/// The field of a sentinel column of a type with a default value is an
/// `Option` of that type.
pub proof fn law_sentinel_field_is_option(column: Column, enum_name: Seq<char>, options: Options)
    requires
        is_sentinel_column(column.name@, options),
        sentinel_type(column.type_@) is Ok,
    ensures
        field_type(column, enum_name, options) == Ok::<Seq<char>, GenerateErrorView>(
            "Option<"@ + sentinel_type(column.type_@)->Ok_0.0 + ">"@,
        ),
{
}

/// When the sentinel modules are generated, every sentinel column has its
/// module, named after its field.
pub proof fn law_sentinel_module_present(
    table: Table,
    names: Seq<ColumnNamesView>,
    options: Options,
    i: int,
    n: int,
)
    requires
        0 <= i < n <= table.columns@.len(),
        is_sentinel_column(table.columns@[i].name@, options),
        sentinel_modules_text(table.columns@, names, options, n) is Ok,
    ensures
        sentinel_type(table.columns@[i].type_@) is Ok,
        ({
            let m = sentinel_modules_text(table.columns@, names, options, n)->Ok_0;
            let (t, d) = sentinel_type(table.columns@[i].type_@)->Ok_0;
            let text = sentinel_module_text(sentinel_module(names[i].field), t, d);
            exists|j: int| 0 <= j && j + text.len() <= m.len() && #[trigger] m.subrange(j, j + text.len()) == text
        }),
    decreases n,
{
    let m = sentinel_modules_text(table.columns@, names, options, n)->Ok_0;
    if i < n - 1 {
        law_sentinel_module_present(table, names, options, i, n - 1);
        let prev = sentinel_modules_text(table.columns@, names, options, n - 1)->Ok_0;
        let (t, d) = sentinel_type(table.columns@[i].type_@)->Ok_0;
        let text = sentinel_module_text(sentinel_module(names[i].field), t, d);
        let j = choose|j: int|
            0 <= j && j + text.len() <= prev.len() && #[trigger] prev.subrange(j, j + text.len())
                == text;
        assert(prev.is_prefix_of(m));
        assert(m.subrange(j, j + text.len()) =~= prev.subrange(j, j + text.len()));
    } else {
        let prev = sentinel_modules_text(table.columns@, names, options, n - 1)->Ok_0;
        let (t, d) = sentinel_type(table.columns@[i].type_@)->Ok_0;
        let text = sentinel_module_text(sentinel_module(names[i].field), t, d);
        assert(m =~= prev + text);
        assert(m.subrange(prev.len() as int, (prev.len() + text.len()) as int) =~= text);
    }
}

/// `-O` for a column's name decides its Rust type before any `-T`; without
/// one, the first `-T` for its type does.
pub proof fn law_override_precedence(
    name: Seq<char>,
    enum_name: Seq<char>,
    t: SqlTypeView,
    options: Options,
)
    ensures
        name_override(options.overrides@, name) matches Some(x) ==> rust_type(
            name,
            enum_name,
            t,
            options,
        ) == Ok::<Seq<char>, GenerateErrorView>(x),
        name_override(options.overrides@, name) is None ==> (type_override(options.types@, t)
            matches Some(x) ==> rust_type(name, enum_name, t, options) == Ok::<
            Seq<char>,
            GenerateErrorView,
        >(x)),
{
}

/// An `-O column=type` value whose column has no `=` reads back as that
/// column and type.
pub proof fn law_override_value_round_trip(column: Seq<char>, ty: Seq<char>)
    requires
        forall|i: int| 0 <= i < column.len() ==> column[i] != '=',
    ensures
        split_key_value(column + seq!['='] + ty) == Some((column, ty)),
{
    let s = column + seq!['='] + ty;
    lemma_first_index(s, '=', column.len() as int);
    assert(s.take(column.len() as int) =~= column);
    assert(s.skip(column.len() as int + 1) =~= ty);
}

/// Distinct temporal modes have distinct names.
pub proof fn law_temporal_names_distinct(a: Temporal, b: Temporal)
    ensures
        temporal_name(a) == temporal_name(b) ==> a == b,
{
    reveal_strlit("raw");
    reveal_strlit("time");
    reveal_strlit("chrono");
    if temporal_name(a) == temporal_name(b) && a != b {
        assert(temporal_name(a).len() != temporal_name(b).len() || temporal_name(a)[0]
            != temporal_name(b)[0]);
    }
}

/// The notation of a type reads back as that type, when its time zones and
/// variant names hold no single quote.
pub proof fn law_sql_notation_round_trip(t: SqlTypeView)
    requires
        quotes_free(t),
    ensures
        sql_type_of(sql_text(t)) == Some(t),
{
    let s = sql_text(t);
    assert(s.subrange(0, s.len() as int) =~= s);
    lemma_parse_type_complete(s, 0, t);
}

/// Whatever reads as a type is exactly that type's notation.
pub proof fn law_sql_notation_faithful(s: Seq<char>)
    ensures
        sql_type_of(s) matches Some(t) ==> sql_text(t) == s,
{
    lemma_parse_type_sound(s, 0);
    if let Some(t) = sql_type_of(s) {
        assert(s.subrange(0, s.len() as int) =~= s);
    }
}

/// A `-T` line of the command line reads back as the type override it shows,
/// when the type's notation holds no `=` and no quote inside a name.
pub proof fn law_type_value_round_trip(t: SqlTypeView, ty: Seq<char>)
    requires
        quotes_free(t),
        forall|i: int| 0 <= i < sql_text(t).len() ==> sql_text(t)[i] != '=',
    ensures
        split_key_value(sql_text(t) + seq!['='] + ty) == Some((sql_text(t), ty)),
        sql_type_of(sql_text(t)) == Some(t),
{
    law_override_value_round_trip(sql_text(t), ty);
    law_sql_notation_round_trip(t);
}

/// Whether two options differ at most in the server's URL, user and
/// password.
pub open spec fn differ_in_connection_only(o1: Options, o2: Options) -> bool {
    &&& o1.database == o2.database
    &&& o1.table == o2.table
    &&& o1.serialize == o2.serialize
    &&& o1.deserialize == o2.deserialize
    &&& o1.owned == o2.owned
    &&& o1.types == o2.types
    &&& o1.overrides == o2.overrides
    &&& o1.bytes == o2.bytes
    &&& o1.ignore == o2.ignore
    &&& o1.derives == o2.derives
    &&& o1.sentinels == o2.sentinels
    &&& o1.temporal == o2.temporal
}

proof fn lemma_rust_type_connection(
    name: Seq<char>,
    enum_name: Seq<char>,
    t: SqlTypeView,
    o1: Options,
    o2: Options,
)
    requires
        differ_in_connection_only(o1, o2),
    ensures
        rust_type(name, enum_name, t, o1) == rust_type(name, enum_name, t, o2),
    decreases t,
{
    match t {
        SqlTypeView::Array(inner) => lemma_rust_type_connection(name, enum_name, *inner, o1, o2),
        SqlTypeView::Nullable(inner) => lemma_rust_type_connection(name, enum_name, *inner, o1, o2),
        SqlTypeView::Tuple(items) => lemma_rust_types_connection(name, enum_name, items, o1, o2),
        SqlTypeView::MapOf(k, v) => {
            lemma_rust_type_connection(name, enum_name, *k, o1, o2);
            lemma_rust_type_connection(name, enum_name, *v, o1, o2);
        },
        _ => {},
    }
}

proof fn lemma_rust_types_connection(
    name: Seq<char>,
    enum_name: Seq<char>,
    items: Seq<SqlTypeView>,
    o1: Options,
    o2: Options,
)
    requires
        differ_in_connection_only(o1, o2),
    ensures
        rust_types(name, enum_name, items, o1) == rust_types(name, enum_name, items, o2),
    decreases items,
{
    if items.len() > 0 {
        lemma_rust_types_connection(name, enum_name, items.subrange(0, items.len() - 1), o1, o2);
        lemma_rust_type_connection(name, enum_name, items[items.len() - 1], o1, o2);
    }
}

proof fn lemma_fields_text_connection(
    columns: Seq<Column>,
    names: Seq<ColumnNamesView>,
    o1: Options,
    o2: Options,
    n: int,
)
    requires
        differ_in_connection_only(o1, o2),
    ensures
        fields_text(columns, names, o1, n) == fields_text(columns, names, o2, n),
        fields_borrow(columns, names, o1, n) == fields_borrow(columns, names, o2, n),
    decreases n,
{
    if n > 0 {
        lemma_fields_text_connection(columns, names, o1, o2, n - 1);
        let c = columns[n - 1];
        lemma_rust_type_connection(c.name@, names[n - 1].enum_name, c.type_@, o1, o2);
        assert(field_type(c, names[n - 1].enum_name, o1) == field_type(c, names[n - 1].enum_name, o2));
        assert(field_attribute(c, names[n - 1].field, o1) == field_attribute(c, names[n - 1].field, o2));
    }
}

proof fn lemma_enums_text_connection(
    columns: Seq<Column>,
    names: Seq<ColumnNamesView>,
    o1: Options,
    o2: Options,
    n: int,
)
    requires
        differ_in_connection_only(o1, o2),
    ensures
        enums_text(columns, names, o1, n) == enums_text(columns, names, o2, n),
    decreases n,
{
    if n > 0 {
        lemma_enums_text_connection(columns, names, o1, o2, n - 1);
    }
}

proof fn lemma_sentinel_modules_connection(
    columns: Seq<Column>,
    names: Seq<ColumnNamesView>,
    o1: Options,
    o2: Options,
    n: int,
)
    requires
        differ_in_connection_only(o1, o2),
    ensures
        sentinel_modules_text(columns, names, o1, n) == sentinel_modules_text(columns, names, o2, n),
    decreases n,
{
    if n > 0 {
        lemma_sentinel_modules_connection(columns, names, o1, o2, n - 1);
        assert(sentinel_problem(columns[n - 1], o1) == sentinel_problem(columns[n - 1], o2));
    }
}

/// The generated code does not depend on the server's URL, user and
/// password: options that differ in nothing else give the same code, or the
/// same error.
pub proof fn law_generated_code_ignores_connection(
    table: Table,
    names: Seq<ColumnNamesView>,
    o1: Options,
    o2: Options,
)
    requires
        differ_in_connection_only(o1, o2),
    ensures
        generated_code(table, names, o1) == generated_code(table, names, o2),
{
    let n = table.columns@.len() as int;
    lemma_fields_text_connection(table.columns@, names, o1, o2, n);
    lemma_enums_text_connection(table.columns@, names, o1, o2, n);
    lemma_sentinel_modules_connection(table.columns@, names, o1, o2, n);
    assert(options_text(o1) == options_text(o2));
    assert(prelude_text(o1) == prelude_text(o2));
    assert(row_text(table, names, o1) == row_text(table, names, o2));
}

/// Whether a column can be generated: a sentinel column needs a type with a
/// default value and no `-O` or `-T` for it; any other column needs its
/// serde attribute and its Rust type.
pub open spec fn column_accepted(column: Column, names: ColumnNamesView, options: Options) -> bool {
    if is_sentinel_column(column.name@, options) {
        &&& sentinel_type(column.type_@) is Ok
        &&& override_for(column.name@, column.type_@, options) is None
    } else {
        &&& field_attribute(column, names.field, options) is Ok
        &&& rust_type(column.name@, names.enum_name, column.type_@, options) is Ok
    }
}

proof fn lemma_fields_text_ok(
    columns: Seq<Column>,
    names: Seq<ColumnNamesView>,
    options: Options,
    n: int,
)
    requires
        0 <= n,
    ensures
        fields_text(columns, names, options, n) is Ok <==> forall|i: int|
            0 <= i < n ==> #[trigger] field_text(
                columns[i],
                names[i].field,
                names[i].enum_name,
                options,
            ) is Ok,
    decreases n,
{
    if n > 0 {
        lemma_fields_text_ok(columns, names, options, n - 1);
    }
}

proof fn lemma_sentinel_modules_ok(
    columns: Seq<Column>,
    names: Seq<ColumnNamesView>,
    options: Options,
    n: int,
)
    requires
        0 <= n,
    ensures
        sentinel_modules_text(columns, names, options, n) is Ok <==> forall|i: int|
            0 <= i < n && is_sentinel_column(columns[i].name@, options) ==> (sentinel_problem(
                #[trigger] columns[i],
                options,
            ) is None && sentinel_type(columns[i].type_@) is Ok),
    decreases n,
{
    if n > 0 {
        lemma_sentinel_modules_ok(columns, names, options, n - 1);
    }
}

/// Code is generated exactly when every column can be generated; else the
/// result is an error.
pub proof fn law_generate_succeeds_iff_columns_accepted(
    table: Table,
    names: Seq<ColumnNamesView>,
    options: Options,
)
    requires
        names.len() == table.columns@.len(),
    ensures
        generated_code(table, names, options) is Ok <==> forall|i: int|
            0 <= i < names.len() ==> column_accepted(#[trigger] table.columns@[i], names[i], options),
{
    let columns = table.columns@;
    let n = columns.len() as int;
    lemma_fields_text_ok(columns, names, options, n);
    lemma_sentinel_modules_ok(columns, names, options, n);
    assert forall|i: int| 0 <= i < n implies column_accepted(#[trigger] columns[i], names[i], options)
        <==> (field_text(columns[i], names[i].field, names[i].enum_name, options) is Ok && (
        is_sentinel_column(columns[i].name@, options) ==> (sentinel_problem(columns[i], options)
            is None && sentinel_type(columns[i].type_@) is Ok))) by {}
}

proof fn lemma_lifetime_concat(a: Seq<char>, b: Seq<char>)
    ensures
        has_lifetime(a + b) ==> has_lifetime(a) || has_lifetime(b) || (a.len() > 0 && b.len() > 0
            && a.last() == '\'' && b[0] == 'a'),
{
    if has_lifetime(a + b) {
        let s = a + b;
        let i = choose|i: int| #[trigger] lifetime_at(s, i);
        if i + 1 < a.len() {
            assert(lifetime_at(a, i));
        } else if i >= a.len() {
            assert(lifetime_at(b, i - a.len()));
        }
    }
}

/// `x` between `p` and `q` holds no `'a` where none of them does and the
/// joints cannot make one.
proof fn lemma_lifetime_free_wrap(p: Seq<char>, x: Seq<char>, q: Seq<char>)
    requires
        !has_lifetime(p),
        !has_lifetime(x),
        !has_lifetime(q),
        p.len() > 0 ==> p.last() != '\'',
        q.len() > 0 ==> q[0] != 'a',
    ensures
        !has_lifetime(p + x + q),
{
    lemma_lifetime_concat(p, x);
    lemma_lifetime_concat(p + x, q);
    if x.len() == 0 && p.len() > 0 {
        assert(p + x =~= p);
    }
}

proof fn lemma_name_override_lifetime_free(os: Seq<crate::options::Override>, name: Seq<char>)
    requires
        forall|i: int| 0 <= i < os.len() ==> !has_lifetime(#[trigger] os[i].type_@),
    ensures
        name_override(os, name) matches Some(x) ==> !has_lifetime(x),
    decreases os.len(),
{
    if os.len() > 0 {
        assert forall|i: int| 0 <= i < os.drop_first().len() implies !has_lifetime(
            #[trigger] os.drop_first()[i].type_@,
        ) by {
            assert(os.drop_first()[i] == os[i + 1]);
        }
        lemma_name_override_lifetime_free(os.drop_first(), name);
    }
}

proof fn lemma_type_override_lifetime_free(ts: Seq<crate::options::Type>, t: SqlTypeView)
    requires
        forall|i: int| 0 <= i < ts.len() ==> !has_lifetime(#[trigger] ts[i].type_@),
    ensures
        type_override(ts, t) matches Some(x) ==> !has_lifetime(x),
    decreases ts.len(),
{
    if ts.len() > 0 {
        assert forall|i: int| 0 <= i < ts.drop_first().len() implies !has_lifetime(
            #[trigger] ts.drop_first()[i].type_@,
        ) by {
            assert(ts.drop_first()[i] == ts[i + 1]);
        }
        lemma_type_override_lifetime_free(ts.drop_first(), t);
    }
}

/// Whether no `-O` or `-T` type of the options holds `'a`.
pub open spec fn overrides_lifetime_free(options: Options) -> bool {
    &&& forall|i: int|
        0 <= i < options.overrides@.len() ==> !has_lifetime(#[trigger] options.overrides@[i].type_@)
    &&& forall|i: int|
        0 <= i < options.types@.len() ==> !has_lifetime(#[trigger] options.types@[i].type_@)
}

proof fn lemma_override_for_lifetime_free(name: Seq<char>, t: SqlTypeView, options: Options)
    requires
        overrides_lifetime_free(options),
    ensures
        override_for(name, t, options) matches Some(x) ==> !has_lifetime(x),
{
    lemma_name_override_lifetime_free(options.overrides@, name);
    lemma_type_override_lifetime_free(options.types@, t);
}

proof fn lemma_scalar_type_owned(t: SqlTypeView, options: Options)
    requires
        options.owned,
    ensures
        scalar_type(t, options) matches Some(x) ==> !has_lifetime(x),
{
    reveal_strlit("u8");
    reveal_strlit("u16");
    reveal_strlit("u32");
    reveal_strlit("u64");
    reveal_strlit("u128");
    reveal_strlit("i8");
    reveal_strlit("i16");
    reveal_strlit("i32");
    reveal_strlit("i64");
    reveal_strlit("i128");
    reveal_strlit("bool");
    reveal_strlit("String");
    reveal_strlit("f32");
    reveal_strlit("f64");
    reveal_strlit("::std::net::Ipv4Addr");
    reveal_strlit("::std::net::Ipv6Addr");
    reveal_strlit("::uuid::Uuid");
    reveal_strlit("::time::Date");
    reveal_strlit("::time::OffsetDateTime");
    reveal_strlit("::time::Duration");
    reveal_strlit("::chrono::NaiveDate");
    reveal_strlit("::chrono::DateTime<::chrono::Utc>");
    reveal_strlit("::chrono::Duration");
}

proof fn lemma_rust_type_owned(
    name: Seq<char>,
    enum_name: Seq<char>,
    t: SqlTypeView,
    options: Options,
)
    requires
        options.owned,
        overrides_lifetime_free(options),
        !has_lifetime(enum_name),
    ensures
        rust_type(name, enum_name, t, options) matches Ok(x) ==> !has_lifetime(x),
    decreases t,
{
    lemma_override_for_lifetime_free(name, t, options);
    lemma_scalar_type_owned(t, options);
    if override_for(name, t, options) is None && scalar_type(t, options) is None {
        reveal_strlit("Vec<");
        reveal_strlit(">");
        reveal_strlit("Option<");
        reveal_strlit("(");
        reveal_strlit(")");
        match t {
            SqlTypeView::Array(inner) => {
                lemma_rust_type_owned(name, enum_name, *inner, options);
                if let Ok(x) = rust_type(name, enum_name, *inner, options) {
                    lemma_lifetime_free_wrap("Vec<"@, x, ">"@);
                }
            },
            SqlTypeView::Nullable(inner) => {
                lemma_rust_type_owned(name, enum_name, *inner, options);
                if let Ok(x) = rust_type(name, enum_name, *inner, options) {
                    lemma_lifetime_free_wrap("Option<"@, x, ">"@);
                }
            },
            SqlTypeView::Tuple(items) => {
                lemma_rust_types_owned(name, enum_name, items, options);
                if let Ok(x) = rust_types(name, enum_name, items, options) {
                    lemma_lifetime_free_wrap("("@, x, ")"@);
                }
            },
            SqlTypeView::MapOf(k, v) => {
                let entry = SqlTypeView::Tuple(seq![*k, *v]);
                lemma_override_for_lifetime_free(name, SqlTypeView::Array(Box::new(entry)), options);
                lemma_override_for_lifetime_free(name, entry, options);
                if let Some(x) = override_for(name, entry, options) {
                    lemma_lifetime_free_wrap("Vec<"@, x, ">"@);
                }
                lemma_rust_type_owned(name, enum_name, *k, options);
                lemma_rust_type_owned(name, enum_name, *v, options);
                if let (Ok(a), Ok(b)) = (
                    rust_type(name, enum_name, *k, options),
                    rust_type(name, enum_name, *v, options),
                ) {
                    reveal_strlit("Vec<(");
                    reveal_strlit(", ");
                    reveal_strlit(", )>");
                    lemma_lifetime_free_wrap("Vec<("@, a, ", "@);
                    lemma_lifetime_free_wrap("Vec<("@ + a + ", "@, b, ", )>"@);
                }
            },
            _ => {},
        }
    }
}

proof fn lemma_rust_types_owned(
    name: Seq<char>,
    enum_name: Seq<char>,
    items: Seq<SqlTypeView>,
    options: Options,
)
    requires
        options.owned,
        overrides_lifetime_free(options),
        !has_lifetime(enum_name),
    ensures
        rust_types(name, enum_name, items, options) matches Ok(x) ==> !has_lifetime(x) && (x.len()
            == 0 || x.last() == ' '),
    decreases items,
{
    if items.len() > 0 {
        let init = items.subrange(0, items.len() - 1);
        lemma_rust_types_owned(name, enum_name, init, options);
        lemma_rust_type_owned(name, enum_name, items[items.len() - 1], options);
        if let (Ok(p), Ok(x)) = (
            rust_types(name, enum_name, init, options),
            rust_type(name, enum_name, items[items.len() - 1], options),
        ) {
            reveal_strlit(", ");
            lemma_lifetime_free_wrap(p, x, ", "@);
        }
    }
}

proof fn lemma_field_type_owned(column: Column, enum_name: Seq<char>, options: Options)
    requires
        options.owned,
        overrides_lifetime_free(options),
        !has_lifetime(enum_name),
    ensures
        field_type(column, enum_name, options) matches Ok(x) ==> !has_lifetime(x),
{
    if is_sentinel_column(column.name@, options) {
        if let Ok((t, _)) = sentinel_type(column.type_@) {
            reveal_strlit("Option<");
            reveal_strlit(">");
            reveal_strlit("String");
            reveal_strlit("u8");
            reveal_strlit("u16");
            reveal_strlit("u32");
            reveal_strlit("u64");
            reveal_strlit("u128");
            reveal_strlit("i8");
            reveal_strlit("i16");
            reveal_strlit("i32");
            reveal_strlit("i64");
            reveal_strlit("i128");
            reveal_strlit("f32");
            reveal_strlit("f64");
            assert(!has_lifetime(t));
            lemma_lifetime_free_wrap("Option<"@, t, ">"@);
        }
    } else {
        lemma_rust_type_owned(column.name@, enum_name, column.type_@, options);
    }
}

proof fn lemma_fields_borrow_owned(
    columns: Seq<Column>,
    names: Seq<ColumnNamesView>,
    options: Options,
    n: int,
)
    requires
        options.owned,
        overrides_lifetime_free(options),
        n <= names.len(),
        forall|i: int| 0 <= i < names.len() ==> !has_lifetime(#[trigger] names[i].enum_name),
    ensures
        !fields_borrow(columns, names, options, n),
    decreases n,
{
    if n > 0 {
        lemma_fields_borrow_owned(columns, names, options, n - 1);
        lemma_field_type_owned(columns[n - 1], names[n - 1].enum_name, options);
    }
}

/// With `--owned` the row struct has no lifetime parameter, whatever the
/// column comments say, unless a `-O` or `-T` type, or the name of an enum
/// type, holds `'a`.
pub proof fn law_owned_row_does_not_borrow(
    table: Table,
    names: Seq<ColumnNamesView>,
    options: Options,
)
    requires
        options.owned,
        overrides_lifetime_free(options),
        names.len() == table.columns@.len(),
        forall|i: int| 0 <= i < names.len() ==> !has_lifetime(#[trigger] names[i].enum_name),
    ensures
        !fields_borrow(table.columns@, names, options, table.columns@.len() as int),
        row_text(table, names, options) matches Ok(r) ==> r == row_header(options)
            + "pub struct Row {\n"@ + fields_text(
            table.columns@,
            names,
            options,
            table.columns@.len() as int,
        )->Ok_0 + "}\n"@,
{
    lemma_fields_borrow_owned(table.columns@, names, options, table.columns@.len() as int);
}

/// Whether `w` occurs in `s` at position `p`.
pub open spec fn occurs_at(s: Seq<char>, w: Seq<char>, p: int) -> bool {
    0 <= p && p + w.len() <= s.len() && s.subrange(p, p + w.len()) == w
}

proof fn lemma_occurs_in_concat(a: Seq<char>, b: Seq<char>, c: Seq<char>)
    ensures
        occurs_at(a + b + c, b, a.len() as int),
{
    assert((a + b + c).subrange(a.len() as int, a.len() + b.len() as int) =~= b);
}

/// The Rust type of a date or time column without `-O` or `-T` follows the
/// temporal mode: in raw mode the integer that ClickHouse stores; with
/// `time` a date is `::time::Date`, a date-time (with or without a time
/// zone or precision) `::time::OffsetDateTime`, and a time of day
/// `::time::Duration`; with `chrono` the matching `chrono` types.
pub proof fn law_temporal_field_types(
    name: Seq<char>,
    enum_name: Seq<char>,
    t: SqlTypeView,
    options: Options,
)
    requires
        is_temporal(t),
        override_for(name, t, options) is None,
    ensures
        options.temporal == Temporal::Raw ==> rust_type(name, enum_name, t, options) == Ok::<
            Seq<char>,
            GenerateErrorView,
        >(
            if t is Date {
                "u16"@
            } else if t is DateTime {
                "u32"@
            } else if t is Date32 || t is Time {
                "i32"@
            } else {
                "i64"@
            },
        ),
        options.temporal == Temporal::Time ==> rust_type(name, enum_name, t, options) == Ok::<
            Seq<char>,
            GenerateErrorView,
        >(
            if t is Date || t is Date32 {
                "::time::Date"@
            } else if t is DateTime || t is DateTime64 {
                "::time::OffsetDateTime"@
            } else {
                "::time::Duration"@
            },
        ),
        options.temporal == Temporal::Chrono ==> rust_type(name, enum_name, t, options) == Ok::<
            Seq<char>,
            GenerateErrorView,
        >(
            if t is Date || t is Date32 {
                "::chrono::NaiveDate"@
            } else if t is DateTime || t is DateTime64 {
                "::chrono::DateTime<::chrono::Utc>"@
            } else {
                "::chrono::Duration"@
            },
        ),
{
}

/// A column of a type that ClickHouse encodes its own way, with no `-B`,
/// `-N`, `-O` or `-T` for it, gets the serde attribute of that encoding:
/// `IPv4` and `UUID` the `clickhouse` helpers in every temporal mode (their
/// `option` form when `Nullable`), and a date-time the helper of the
/// temporal mode (none in raw mode).
pub proof fn law_helper_module_attributes(column: Column, field: Seq<char>, options: Options)
    requires
        !crate::text::seq_has(options.bytes@, column.name@),
        !is_sentinel_column(column.name@, options),
        override_for(column.name@, column.type_@, options) is None,
    ensures
        column.type_@ == SqlTypeView::IPv4 ==> field_attribute(column, field, options) == Ok::<
            Option<Seq<char>>,
            GenerateErrorView,
        >(Some("    #[serde(with = \""@ + "::clickhouse::serde::ipv4"@ + "\")]"@)),
        column.type_@ == SqlTypeView::Nullable(Box::new(SqlTypeView::IPv4)) ==> field_attribute(
            column,
            field,
            options,
        ) == Ok::<Option<Seq<char>>, GenerateErrorView>(
            Some("    #[serde(with = \""@ + "::clickhouse::serde::ipv4"@ + "::option"@ + "\")]"@),
        ),
        column.type_@ == SqlTypeView::UUID ==> field_attribute(column, field, options) == Ok::<
            Option<Seq<char>>,
            GenerateErrorView,
        >(Some("    #[serde(with = \""@ + "::clickhouse::serde::uuid"@ + "\")]"@)),
        column.type_@ == SqlTypeView::Nullable(Box::new(SqlTypeView::UUID)) ==> field_attribute(
            column,
            field,
            options,
        ) == Ok::<Option<Seq<char>>, GenerateErrorView>(
            Some("    #[serde(with = \""@ + "::clickhouse::serde::uuid"@ + "::option"@ + "\")]"@),
        ),
        column.type_@ is DateTime && options.temporal == Temporal::Time ==> field_attribute(
            column,
            field,
            options,
        ) == Ok::<Option<Seq<char>>, GenerateErrorView>(
            Some("    #[serde(with = \""@ + "::clickhouse::serde::time::"@ + "datetime"@ + "\")]"@),
        ),
        column.type_@ is DateTime && options.temporal == Temporal::Chrono ==> field_attribute(
            column,
            field,
            options,
        ) == Ok::<Option<Seq<char>>, GenerateErrorView>(
            Some(
                "    #[serde(with = \""@ + "::clickhouse::serde::chrono::"@ + "datetime"@ + "\")]"@,
            ),
        ),
        is_temporal(column.type_@) && options.temporal == Temporal::Raw ==> field_attribute(
            column,
            field,
            options,
        ) == Ok::<Option<Seq<char>>, GenerateErrorView>(None),
{
    let pre = "    #[serde(with = \""@;
    let post = "\")]"@;
    assert(pre + "::clickhouse::serde::ipv4"@ + Seq::<char>::empty() + post =~= pre
        + "::clickhouse::serde::ipv4"@ + post);
    assert(pre + "::clickhouse::serde::uuid"@ + Seq::<char>::empty() + post =~= pre
        + "::clickhouse::serde::uuid"@ + post);
    assert(pre + ("::clickhouse::serde::time::"@ + "datetime"@) + Seq::<char>::empty() + post
        =~= pre + "::clickhouse::serde::time::"@ + "datetime"@ + post);
    assert(pre + ("::clickhouse::serde::chrono::"@ + "datetime"@) + Seq::<char>::empty() + post
        =~= pre + "::clickhouse::serde::chrono::"@ + "datetime"@ + post);
}

/// A field type that depends on the name given to the column's enum type
/// only comes from a column type that holds an enum (through arrays,
/// `Nullable`, tuples and maps), whose enum type is then generated.
pub proof fn law_enum_name_use_needs_enum(
    name: Seq<char>,
    e1: Seq<char>,
    e2: Seq<char>,
    t: SqlTypeView,
    options: Options,
)
    requires
        rust_type(name, e1, t, options) != rust_type(name, e2, t, options),
    ensures
        enum_of(t) is Some,
{
    if enum_of(t) is None {
        lemma_enum_name_unused(name, e1, e2, t, options);
    }
}

proof fn lemma_enum_name_unused(
    name: Seq<char>,
    e1: Seq<char>,
    e2: Seq<char>,
    t: SqlTypeView,
    options: Options,
)
    requires
        enum_of(t) is None,
    ensures
        rust_type(name, e1, t, options) == rust_type(name, e2, t, options),
    decreases t,
{
    match t {
        SqlTypeView::Array(inner) => lemma_enum_name_unused(name, e1, e2, *inner, options),
        SqlTypeView::Nullable(inner) => lemma_enum_name_unused(name, e1, e2, *inner, options),
        SqlTypeView::Tuple(items) => lemma_enum_names_unused(name, e1, e2, items, options),
        SqlTypeView::MapOf(k, v) => {
            lemma_enum_name_unused(name, e1, e2, *k, options);
            lemma_enum_name_unused(name, e1, e2, *v, options);
        },
        _ => {},
    }
}

proof fn lemma_enum_names_unused(
    name: Seq<char>,
    e1: Seq<char>,
    e2: Seq<char>,
    items: Seq<SqlTypeView>,
    options: Options,
)
    requires
        enum_of_items(items) is None,
    ensures
        rust_types(name, e1, items, options) == rust_types(name, e2, items, options),
    decreases items,
{
    if items.len() > 0 {
        let init = items.subrange(0, items.len() - 1);
        let last = items[items.len() - 1];
        lemma_enum_of_items_none(items, items.len() - 1);
        assert(init.len() < items.len());
        lemma_enum_of_items_prefix_none(items, items.len() - 1);
        lemma_enum_names_unused(name, e1, e2, init, options);
        lemma_enum_name_unused(name, e1, e2, last, options);
    }
}

proof fn lemma_enum_of_items_none(items: Seq<SqlTypeView>, j: int)
    requires
        enum_of_items(items) is None,
        0 <= j < items.len(),
    ensures
        enum_of(items[j]) is None,
    decreases j,
{
    if j > 0 {
        let rest = items.subrange(1, items.len() as int);
        lemma_enum_of_items_none(rest, j - 1);
        assert(rest[j - 1] == items[j]);
    }
}

proof fn lemma_enum_of_items_prefix_none(items: Seq<SqlTypeView>, n: int)
    requires
        enum_of_items(items) is None,
        0 <= n <= items.len(),
    ensures
        enum_of_items(items.subrange(0, n)) is None,
    decreases n,
{
    if n > 0 {
        let rest = items.subrange(1, items.len() as int);
        lemma_enum_of_items_prefix_none(rest, n - 1);
        assert(items.subrange(0, n).subrange(1, n) =~= rest.subrange(0, n - 1));
        assert(items.subrange(0, n)[0] == items[0]);
    }
}

proof fn lemma_enums_text_prefix(
    columns: Seq<Column>,
    names: Seq<ColumnNamesView>,
    options: Options,
    m: int,
    n: int,
)
    requires
        0 <= m <= n,
    ensures
        enums_text(columns, names, options, m).is_prefix_of(enums_text(columns, names, options, n)),
    decreases n - m,
{
    if m < n {
        lemma_enums_text_prefix(columns, names, options, m, n - 1);
        let a = enums_text(columns, names, options, m);
        let b = enums_text(columns, names, options, n - 1);
        let c = enums_text(columns, names, options, n);
        assert forall|i: int| 0 <= i < a.len() implies a[i] == c[i] by {
            assert(a[i] == b[i]);
        }
    }
}

/// Every enum type that a field of the row names is generated: where the
/// type of a column's field depends on the name given to the column's enum
/// type, the enum types hold `pub enum` with that name.
pub proof fn law_used_enum_is_generated(
    table: Table,
    names: Seq<ColumnNamesView>,
    options: Options,
    i: int,
    other: Seq<char>,
)
    requires
        names.len() == table.columns@.len(),
        0 <= i < names.len(),
        field_type(table.columns@[i], names[i].enum_name, options) != field_type(
            table.columns@[i],
            other,
            options,
        ),
    ensures
        exists|p: int|
            occurs_at(
                enums_text(table.columns@, names, options, table.columns@.len() as int),
                "pub enum "@ + names[i].enum_name + " {\n"@,
                p,
            ),
{
    let columns = table.columns@;
    let c = columns[i];
    law_enum_name_use_needs_enum(c.name@, names[i].enum_name, other, c.type_@, options);
    let (e, v) = enum_of(c.type_@)->0;
    let name = names[i].enum_name;
    let head = "#[derive(Debug)]\n"@ + (if options.serialize {
        "#[derive(serde_repr::Serialize_repr)]\n"@
    } else {
        Seq::empty()
    }) + (if options.deserialize {
        "#[derive(serde_repr::Deserialize_repr)]\n"@
    } else {
        Seq::empty()
    }) + derive_lines(options.derives@) + (if e {
        "#[repr(i16)]\n"@
    } else {
        "#[repr(i8)]\n"@
    });
    let w = "pub enum "@ + name + " {\n"@;
    let t = enum_text(name, e, v, names[i].variants, options);
    let rest = crate::codegen::variant_lines(v, names[i].variants, v.len() as int) + "}\n"@;
    assert(t =~= head + w + rest);
    let before = enums_text(columns, names, options, i);
    let after = enums_text(columns, names, options, i + 1);
    assert(after =~= (before + head) + w + (rest + "\n"@));
    lemma_occurs_in_concat(before + head, w, rest + "\n"@);
    lemma_enums_text_prefix(columns, names, options, i + 1, columns.len() as int);
    let all = enums_text(columns, names, options, columns.len() as int);
    let p = (before + head).len() as int;
    assert(all.subrange(p, p + w.len()) =~= after.subrange(p, p + w.len()));
    assert(occurs_at(all, w, p));
}

/// The recorded command line keeps a temporal mode other than raw: it holds
/// `--temporal time` or `--temporal chrono`.
pub proof fn law_format_records_temporal(options: Options)
    ensures
        options.temporal == Temporal::Time ==> exists|p: int|
            occurs_at(options_text(options), "    --temporal "@ + "time"@, p),
        options.temporal == Temporal::Chrono ==> exists|p: int|
            occurs_at(options_text(options), "    --temporal "@ + "chrono"@, p),
{
    if options.temporal != Temporal::Raw {
        let s = command_lines(options);
        let a = command_head(options) + derive_option_lines(options.derives@);
        let w = "    --temporal "@ + temporal_name(options.temporal);
        let b = " \\\n"@ + crate::options::type_lines(
            sort_by(type_views(options.types@), type_before()),
        ) + crate::options::override_lines(
            sort_by(override_views(options.overrides@), override_before()),
        ) + crate::options::quoted_lines("    -B '"@, sort_by(text_views(options.bytes@), text_before()))
            + crate::options::quoted_lines(
            "    -N '"@,
            sort_by(text_views(options.sentinels@), text_before()),
        ) + crate::options::quoted_lines("    -I '"@, sort_by(text_views(options.ignore@), text_before()));
        assert(s =~= a + w + b);
        lemma_occurs_in_concat(a, w, b);
        reveal_strlit("time");
        reveal_strlit("chrono");
        let p = a.len() as int;
        let last = p + w.len() - 1;
        assert(s[last] == w.last());
        assert(!is_continuation_char(s[last]));
        let f = |c: char| is_continuation_char(c);
        lemma_trim_end_shape(s, f);
        let k = choose|k: int|
            0 <= k <= s.len() && trim_end_by(s, f) == s.take(k) && (k == 0 || !f(s[k - 1]))
                && forall|j: int| k <= j < s.len() ==> f(#[trigger] s[j]);
        assert(k > last);
        let o = options_text(options);
        assert(o == s.take(k));
        assert(o.subrange(p, p + w.len()) =~= s.subrange(p, p + w.len()));
        assert(occurs_at(o, w, p));
    }
}

/// The row struct derives what `-S` and `-D` ask for: `serde::Serialize`
/// and `serde::Deserialize` on lines above `pub struct Row`, and always
/// `Debug` and `clickhouse::Row` on its first line.
pub proof fn law_row_derives(table: Table, names: Seq<ColumnNamesView>, options: Options)
    ensures
        row_text(table, names, options) matches Ok(r) ==> {
            &&& "#[derive(Debug, clickhouse::Row)]\n"@.is_prefix_of(r)
            &&& exists|q: int| occurs_at(r, "pub struct Row"@, q)
            &&& options.serialize ==> exists|p: int, q: int|
                p + "#[derive(serde::Serialize)]\n"@.len() <= q && occurs_at(
                    r,
                    "#[derive(serde::Serialize)]\n"@,
                    p,
                ) && occurs_at(r, "pub struct Row"@, q)
            &&& options.deserialize ==> exists|p: int, q: int|
                p + "#[derive(serde::Deserialize)]\n"@.len() <= q && occurs_at(
                    r,
                    "#[derive(serde::Deserialize)]\n"@,
                    p,
                ) && occurs_at(r, "pub struct Row"@, q)
        },
{
    if let Ok(r) = row_text(table, names, options) {
        let n = table.columns@.len() as int;
        let f = fields_text(table.columns@, names, options, n)->Ok_0;
        let d0 = "#[derive(Debug, clickhouse::Row)]\n"@;
        let ds = if options.serialize {
            "#[derive(serde::Serialize)]\n"@
        } else {
            Seq::empty()
        };
        let dd = if options.deserialize {
            "#[derive(serde::Deserialize)]\n"@
        } else {
            Seq::empty()
        };
        let dl = derive_lines(options.derives@);
        let open = if fields_borrow(table.columns@, names, options, n) {
            "pub struct Row<'a> {\n"@
        } else {
            "pub struct Row {\n"@
        };
        reveal_strlit("pub struct Row<'a> {\n");
        reveal_strlit("pub struct Row {\n");
        reveal_strlit("pub struct Row");
        let w = "pub struct Row"@;
        assert(open =~= w + open.skip(w.len() as int));
        let tail = open.skip(w.len() as int) + f + "}\n"@;
        assert(r =~= (d0 + ds + dd + dl) + w + tail);
        let q = (d0 + ds + dd + dl).len() as int;
        lemma_occurs_in_concat(d0 + ds + dd + dl, w, tail);
        assert(d0.is_prefix_of(r)) by {
            assert(r.subrange(0, d0.len() as int) =~= d0);
        }
        if options.serialize {
            assert(r =~= d0 + ds + (dd + dl + w + tail));
            lemma_occurs_in_concat(d0, ds, dd + dl + w + tail);
            assert(occurs_at(r, ds, d0.len() as int));
        }
        if options.deserialize {
            assert(r =~= (d0 + ds) + dd + (dl + w + tail));
            lemma_occurs_in_concat(d0 + ds, dd, dl + w + tail);
            assert(occurs_at(r, dd, (d0 + ds).len() as int));
        }
        assert(occurs_at(r, w, q));
    }
}

/// The Rust type of a column of a plain ClickHouse type, without `-O` or
/// `-T` for it: the integer, float and `bool` types of the same width,
/// `std`'s address types, `uuid`'s `Uuid`, and for `String` an owned
/// `String` with `--owned`, else a `&'a str` borrowed from the row.
pub proof fn law_plain_field_types(
    name: Seq<char>,
    enum_name: Seq<char>,
    t: SqlTypeView,
    options: Options,
)
    requires
        override_for(name, t, options) is None,
    ensures
        t == SqlTypeView::UInt8 ==> rust_type(name, enum_name, t, options) == Ok::<Seq<char>, GenerateErrorView>("u8"@),
        t == SqlTypeView::UInt16 ==> rust_type(name, enum_name, t, options) == Ok::<Seq<char>, GenerateErrorView>("u16"@),
        t == SqlTypeView::UInt32 ==> rust_type(name, enum_name, t, options) == Ok::<Seq<char>, GenerateErrorView>("u32"@),
        t == SqlTypeView::UInt64 ==> rust_type(name, enum_name, t, options) == Ok::<Seq<char>, GenerateErrorView>("u64"@),
        t == SqlTypeView::UInt128 ==> rust_type(name, enum_name, t, options) == Ok::<Seq<char>, GenerateErrorView>("u128"@),
        t == SqlTypeView::Int8 ==> rust_type(name, enum_name, t, options) == Ok::<Seq<char>, GenerateErrorView>("i8"@),
        t == SqlTypeView::Int16 ==> rust_type(name, enum_name, t, options) == Ok::<Seq<char>, GenerateErrorView>("i16"@),
        t == SqlTypeView::Int32 ==> rust_type(name, enum_name, t, options) == Ok::<Seq<char>, GenerateErrorView>("i32"@),
        t == SqlTypeView::Int64 ==> rust_type(name, enum_name, t, options) == Ok::<Seq<char>, GenerateErrorView>("i64"@),
        t == SqlTypeView::Int128 ==> rust_type(name, enum_name, t, options) == Ok::<Seq<char>, GenerateErrorView>("i128"@),
        t == SqlTypeView::Float32 ==> rust_type(name, enum_name, t, options) == Ok::<Seq<char>, GenerateErrorView>("f32"@),
        t == SqlTypeView::Float64 ==> rust_type(name, enum_name, t, options) == Ok::<Seq<char>, GenerateErrorView>("f64"@),
        t == SqlTypeView::Bool ==> rust_type(name, enum_name, t, options) == Ok::<Seq<char>, GenerateErrorView>("bool"@),
        t == SqlTypeView::IPv4 ==> rust_type(name, enum_name, t, options) == Ok::<Seq<char>, GenerateErrorView>("::std::net::Ipv4Addr"@),
        t == SqlTypeView::IPv6 ==> rust_type(name, enum_name, t, options) == Ok::<Seq<char>, GenerateErrorView>("::std::net::Ipv6Addr"@),
        t == SqlTypeView::UUID ==> rust_type(name, enum_name, t, options) == Ok::<Seq<char>, GenerateErrorView>("::uuid::Uuid"@),
        t == SqlTypeView::String && options.owned ==> rust_type(name, enum_name, t, options) == Ok::<Seq<char>, GenerateErrorView>("String"@),
        t == SqlTypeView::String && !options.owned ==> rust_type(name, enum_name, t, options) == Ok::<Seq<char>, GenerateErrorView>("&'a str"@),
        t is Enum8 || t is Enum16 ==> rust_type(name, enum_name, t, options) == Ok::<Seq<char>, GenerateErrorView>(enum_name),
{
}

/// The Rust type of a composite column type is built from the types of its
/// parts, unless `-O` or `-T` sets it: an array is a `Vec`, a `Nullable` an
/// `Option`, a tuple a tuple of its items' types, and a map a `Vec` of
/// key-value tuples; a part without a type makes the whole fail alike.
pub proof fn law_composite_field_types(
    name: Seq<char>,
    enum_name: Seq<char>,
    t: SqlTypeView,
    options: Options,
)
    requires
        override_for(name, t, options) is None,
    ensures
        t matches SqlTypeView::Array(inner) ==> rust_type(name, enum_name, t, options) == match rust_type(name, enum_name, *inner, options) {
            Ok(x) => Ok::<Seq<char>, GenerateErrorView>("Vec<"@ + x + ">"@),
            Err(e) => Err(e),
        },
        t matches SqlTypeView::Nullable(inner) ==> rust_type(name, enum_name, t, options) == match rust_type(name, enum_name, *inner, options) {
            Ok(x) => Ok::<Seq<char>, GenerateErrorView>("Option<"@ + x + ">"@),
            Err(e) => Err(e),
        },
        t matches SqlTypeView::Tuple(items) ==> (items.len() == 2 && rust_type(name, enum_name, items[0], options) is Ok
            && rust_type(name, enum_name, items[1], options) is Ok ==> rust_type(name, enum_name, t, options)
            == Ok::<Seq<char>, GenerateErrorView>("("@ + rust_type(name, enum_name, items[0], options)->Ok_0 + ", "@
            + rust_type(name, enum_name, items[1], options)->Ok_0 + ", "@ + ")"@)),
        t matches SqlTypeView::MapOf(k, v) ==> (override_for(name, SqlTypeView::Array(Box::new(SqlTypeView::Tuple(seq![*k, *v]))), options) is None
            && override_for(name, SqlTypeView::Tuple(seq![*k, *v]), options) is None
            && rust_type(name, enum_name, *k, options) is Ok && rust_type(name, enum_name, *v, options) is Ok
            ==> rust_type(name, enum_name, t, options) == Ok::<Seq<char>, GenerateErrorView>("Vec<("@
            + rust_type(name, enum_name, *k, options)->Ok_0 + ", "@ + rust_type(name, enum_name, *v, options)->Ok_0 + ", )>"@)),
{
    if let SqlTypeView::Tuple(items) = t {
        if items.len() == 2 {
            let init = items.subrange(0, 1);
            assert(init.subrange(0, 0) =~= Seq::<SqlTypeView>::empty());
            assert(init[0] == items[0]);
            assert(rust_types(name, enum_name, Seq::empty(), options) == Ok::<Seq<char>, GenerateErrorView>(Seq::empty()));
            if rust_type(name, enum_name, items[0], options) is Ok && rust_type(name, enum_name, items[1], options) is Ok {
                let a = rust_type(name, enum_name, items[0], options)->Ok_0;
                let b = rust_type(name, enum_name, items[1], options)->Ok_0;
                assert(rust_types(name, enum_name, init, options) == Ok::<Seq<char>, GenerateErrorView>(Seq::empty() + a + ", "@));
                assert(Seq::<char>::empty() + a + ", "@ =~= a + ", "@);
                assert(items.subrange(0, items.len() - 1) =~= init);
                assert(items[items.len() - 1] == items[1]);
                assert(rust_types(name, enum_name, items, options) == Ok::<Seq<char>, GenerateErrorView>(a + ", "@ + b + ", "@));
                assert("("@ + (a + ", "@ + b + ", "@) + ")"@ =~= "("@ + a + ", "@ + b + ", "@ + ")"@);
            }
        }
    }
}

/// A date-time with a precision gets the helper module of that precision in
/// the `time` and `chrono` modes: 0 `secs`, 3 `millis`, 6 `micros`, 9
/// `nanos`; any other precision is refused with an error that names it.
pub proof fn law_precision_modules(mode: Temporal, ty: Seq<char>, p: u32)
    requires
        mode != Temporal::Raw,
    ensures
        p == 0 ==> (crate::codegen::temporal_module(mode, ty, Some(p)) matches Ok(Some(x)) && x.len() >= 6 && x.subrange(x.len() - 6, x.len() as int) == "::secs"@),
        p == 3 ==> (crate::codegen::temporal_module(mode, ty, Some(p)) matches Ok(Some(x)) && x.len() >= 8 && x.subrange(x.len() - 8, x.len() as int) == "::millis"@),
        p == 6 ==> (crate::codegen::temporal_module(mode, ty, Some(p)) matches Ok(Some(x)) && x.len() >= 8 && x.subrange(x.len() - 8, x.len() as int) == "::micros"@),
        p == 9 ==> (crate::codegen::temporal_module(mode, ty, Some(p)) matches Ok(Some(x)) && x.len() >= 7 && x.subrange(x.len() - 7, x.len() as int) == "::nanos"@),
        p != 0 && p != 3 && p != 6 && p != 9 ==> crate::codegen::temporal_module(mode, ty, Some(p))
            == Err::<Option<Seq<char>>, GenerateErrorView>(GenerateErrorView::UnsupportedPrecision { precision: p, ty: ty, temporal: mode }),
        crate::codegen::temporal_module(mode, ty, None) == Ok::<Option<Seq<char>>, GenerateErrorView>(Some(
            (if mode == Temporal::Time { "::clickhouse::serde::time::"@ } else { "::clickhouse::serde::chrono::"@ }) + ty)),
{
    let base = if mode == Temporal::Time { "::clickhouse::serde::time::"@ } else { "::clickhouse::serde::chrono::"@ };
    let sfx = if p == 0 { "::secs"@ } else if p == 3 { "::millis"@ } else if p == 6 { "::micros"@ } else { "::nanos"@ };
    if p == 0 || p == 3 || p == 6 || p == 9 {
        reveal_strlit("::secs");
        reveal_strlit("::millis");
        reveal_strlit("::micros");
        reveal_strlit("::nanos");
        let x = base + ty + sfx;
        assert(x.subrange(x.len() - sfx.len(), x.len() as int) =~= sfx);
    }
}

/// A sentinel column is read as `None` where it holds its type's default
/// value: `""` for `String` and zero for the integer and float types, each
/// literal typed as the field is; every other type is refused.
pub proof fn law_sentinel_defaults(t: SqlTypeView)
    ensures
        t == SqlTypeView::String ==> sentinel_type(t) == Ok::<(Seq<char>, Seq<char>), GenerateErrorView>(("String"@, "\"\""@)),
        t == SqlTypeView::UInt8 ==> sentinel_type(t) == Ok::<(Seq<char>, Seq<char>), GenerateErrorView>(("u8"@, "0u8"@)),
        t == SqlTypeView::UInt16 ==> sentinel_type(t) == Ok::<(Seq<char>, Seq<char>), GenerateErrorView>(("u16"@, "0u16"@)),
        t == SqlTypeView::UInt32 ==> sentinel_type(t) == Ok::<(Seq<char>, Seq<char>), GenerateErrorView>(("u32"@, "0u32"@)),
        t == SqlTypeView::UInt64 ==> sentinel_type(t) == Ok::<(Seq<char>, Seq<char>), GenerateErrorView>(("u64"@, "0u64"@)),
        t == SqlTypeView::UInt128 ==> sentinel_type(t) == Ok::<(Seq<char>, Seq<char>), GenerateErrorView>(("u128"@, "0u128"@)),
        t == SqlTypeView::Int8 ==> sentinel_type(t) == Ok::<(Seq<char>, Seq<char>), GenerateErrorView>(("i8"@, "0i8"@)),
        t == SqlTypeView::Int16 ==> sentinel_type(t) == Ok::<(Seq<char>, Seq<char>), GenerateErrorView>(("i16"@, "0i16"@)),
        t == SqlTypeView::Int32 ==> sentinel_type(t) == Ok::<(Seq<char>, Seq<char>), GenerateErrorView>(("i32"@, "0i32"@)),
        t == SqlTypeView::Int64 ==> sentinel_type(t) == Ok::<(Seq<char>, Seq<char>), GenerateErrorView>(("i64"@, "0i64"@)),
        t == SqlTypeView::Int128 ==> sentinel_type(t) == Ok::<(Seq<char>, Seq<char>), GenerateErrorView>(("i128"@, "0i128"@)),
        t == SqlTypeView::Float32 ==> sentinel_type(t) == Ok::<(Seq<char>, Seq<char>), GenerateErrorView>(("f32"@, "0f32"@)),
        t == SqlTypeView::Float64 ==> sentinel_type(t) == Ok::<(Seq<char>, Seq<char>), GenerateErrorView>(("f64"@, "0f64"@)),
        !(t is String || t is UInt8 || t is UInt16 || t is UInt32 || t is UInt64 || t is UInt128
            || t is Int8 || t is Int16 || t is Int32 || t is Int64 || t is Int128 || t is Float32
            || t is Float64) ==> sentinel_type(t) == Err::<(Seq<char>, Seq<char>), GenerateErrorView>(
            GenerateErrorView::SentinelUnsupported { sql: sql_text(t) },
        ),
{
}

/// An enum type derives what `-S` and `-D` ask for through `serde_repr`,
/// and is represented as `i8` for `Enum8` and `i16` for `Enum16`.
pub proof fn law_enum_derives(
    name: Seq<char>,
    is_extended: bool,
    v: Seq<(Seq<char>, i32)>,
    idents: Seq<Seq<char>>,
    options: Options,
)
    ensures
        "#[derive(Debug)]\n"@.is_prefix_of(enum_text(name, is_extended, v, idents, options)),
        options.serialize ==> exists|p: int| occurs_at(enum_text(name, is_extended, v, idents, options), "#[derive(serde_repr::Serialize_repr)]\n"@, p),
        options.deserialize ==> exists|p: int| occurs_at(enum_text(name, is_extended, v, idents, options), "#[derive(serde_repr::Deserialize_repr)]\n"@, p),
        is_extended ==> exists|p: int| occurs_at(enum_text(name, is_extended, v, idents, options),
            "#[repr(i16)]\n"@ + "pub enum "@ + name + " {\n"@, p),
        !is_extended ==> exists|p: int| occurs_at(enum_text(name, is_extended, v, idents, options),
            "#[repr(i8)]\n"@ + "pub enum "@ + name + " {\n"@, p),
{
    let t = enum_text(name, is_extended, v, idents, options);
    let d0 = "#[derive(Debug)]\n"@;
    let ds = if options.serialize { "#[derive(serde_repr::Serialize_repr)]\n"@ } else { Seq::empty() };
    let dd = if options.deserialize { "#[derive(serde_repr::Deserialize_repr)]\n"@ } else { Seq::empty() };
    let dl = derive_lines(options.derives@);
    let rp = if is_extended { "#[repr(i16)]\n"@ } else { "#[repr(i8)]\n"@ };
    let w = rp + "pub enum "@ + name + " {\n"@;
    let rest = crate::codegen::variant_lines(v, idents, v.len() as int) + "}\n"@;
    assert(t =~= (d0 + ds + dd + dl) + w + rest);
    lemma_occurs_in_concat(d0 + ds + dd + dl, w, rest);
    assert(t.subrange(0, d0.len() as int) =~= d0);
    if options.serialize {
        assert(t =~= d0 + ds + (dd + dl + w + rest));
        lemma_occurs_in_concat(d0, ds, dd + dl + w + rest);
        assert(occurs_at(t, ds, d0.len() as int));
    }
    if options.deserialize {
        assert(t =~= (d0 + ds) + dd + (dl + w + rest));
        lemma_occurs_in_concat(d0 + ds, dd, dl + w + rest);
        assert(occurs_at(t, dd, (d0 + ds).len() as int));
    }
    assert(occurs_at(t, w, (d0 + ds + dd + dl).len() as int));
}

} // verus!
