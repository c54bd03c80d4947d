//! Command line options of the generator, and the command line that
//! reproduces them.
use vstd::prelude::*;

use crate::order::{compare_sql, compare_text, order_then, sql_order, text_order};
use crate::parse::{parse_sql_type, sql_type_of};
use crate::schema::{push_sql_text, sql_text, SqlType, SqlTypeView};
use crate::sort::{lemma_insert_sorted_at, lemma_sort_by_step, sort_by};
use crate::text::{
    find_char, first_index, is_continuation_char, str_eq, substring, trim_continuation_end,
    trim_end_by,
};

verus! {

/// The options that a run of the generator was given.
#[derive(Debug)]
pub struct Options {
    /// ClickHouse server's URL.
    pub url: String,
    pub user: Option<String>,
    pub password: Option<String>,
    /// A database where the table is placed in.
    pub database: String,
    /// The table's name.
    pub table: String,
    /// Generate `Serialize` instances.
    pub serialize: bool,
    /// Generate `Deserialize` instances.
    pub deserialize: bool,
    /// Generate only owned types.
    pub owned: bool,
    /// Override the type, e.g. 'Decimal(18, 9)=fixnum::FixedPoint<i64, typenum::U9>'
    pub types: Vec<Type>,
    /// Override the type of the provided column.
    pub overrides: Vec<Override>,
    /// Add `#[serde(with = "serde_bytes")]` to the provided column.
    pub bytes: Vec<String>,
    /// Ignore a specified column.
    pub ignore: Vec<String>,
    /// Add `#[derive(<trait>)]` to the generated types.
    pub derives: Vec<String>,
    /// Treat the column as Option, mapping the type's default value to None.
    pub sentinels: Vec<String>,
    /// Temporal mapping mode.
    pub temporal: Temporal,
}

/// A Rust type to use for every column of a ClickHouse type.
#[derive(Debug, PartialEq, Eq, PartialOrd, Ord)]
pub struct Type {
    pub sql: SqlType,
    pub type_: String,
}

/// A Rust type to use for one column.
#[derive(Debug, PartialEq, Eq, PartialOrd, Ord)]
pub struct Override {
    pub column: String,
    pub type_: String,
}

/// Which crate the date and time columns are mapped to.
#[derive(Debug, Clone, Copy, PartialEq, Eq, Structural)]
pub enum Temporal {
    Raw,
    Time,
    Chrono,
}

/// The name of a temporal mode on the command line.
pub open spec fn temporal_name(t: Temporal) -> Seq<char> {
    match t {
        Temporal::Raw => "raw"@,
        Temporal::Time => "time"@,
        Temporal::Chrono => "chrono"@,
    }
}

impl Temporal {
    /// The mode of a name on the command line: `raw`, `time` or `chrono`.
    pub fn from_name(s: &str) -> (r: Result<Temporal, String>)
        ensures
            match r {
                Ok(t) => s@ == temporal_name(t),
                Err(msg) => msg@ == "invalid temporal"@ && forall|t: Temporal|
                    s@ != #[trigger] temporal_name(t),
            },
    {
        if str_eq(s, "raw") {
            Ok(Temporal::Raw)
        } else if str_eq(s, "time") {
            Ok(Temporal::Time)
        } else if str_eq(s, "chrono") {
            Ok(Temporal::Chrono)
        } else {
            Err(String::from_str("invalid temporal"))
        }
    }

    /// The name of the mode on the command line.
    pub fn name(&self) -> (r: &'static str)
        ensures
            r@ == temporal_name(*self),
    {
        match self {
            Temporal::Raw => "raw",
            Temporal::Time => "time",
            Temporal::Chrono => "chrono",
        }
    }
}

impl std::str::FromStr for Temporal {
    type Err = String;

    fn from_str(s: &str) -> (r: Result<Temporal, String>)
        ensures
            match r {
                Ok(t) => s@ == temporal_name(t),
                Err(msg) => msg@ == "invalid temporal"@ && forall|t: Temporal|
                    s@ != #[trigger] temporal_name(t),
            },
    {
        Temporal::from_name(s)
    }
}

/// Why a command line value could not be read.
#[derive(Debug, PartialEq, Eq, Structural)]
pub enum OptionError {
    /// The value has no `=` between a key and a value.
    InvalidKeyValue,
    /// The key is not a ClickHouse type.
    InvalidSqlType,
}

impl OptionError {
    /// The message that explains the error.
    pub fn message(&self) -> (r: &'static str)
        ensures
            r@ == match self {
                OptionError::InvalidKeyValue => "invalid key-value"@,
                OptionError::InvalidSqlType => "invalid ClickHouse type"@,
            },
    {
        match self {
            OptionError::InvalidKeyValue => "invalid key-value",
            OptionError::InvalidSqlType => "invalid ClickHouse type",
        }
    }
}

/// The text before the first `=` and the text after it.
pub open spec fn split_key_value(s: Seq<char>) -> Option<(Seq<char>, Seq<char>)> {
    match first_index(s, '=') {
        Some(i) => Some((s.take(i), s.skip(i + 1))),
        None => None,
    }
}

/// Reads `-O column=type`.
pub fn parse_override(s: &str) -> (r: Result<Override, OptionError>)
    ensures
        match r {
            Ok(o) => split_key_value(s@) == Some((o.column@, o.type_@)),
            Err(e) => split_key_value(s@) is None && e == OptionError::InvalidKeyValue,
        },
{
    let n = s.unicode_len();
    match find_char(s, '=') {
        Some(i) => {
            let column = substring(s, 0, i);
            let type_ = substring(s, i + 1, n);
            assert(s@.subrange(0, i as int) =~= s@.take(i as int));
            assert(s@.subrange(i + 1, n as int) =~= s@.skip(i + 1));
            Ok(Override { column, type_ })
        },
        None => Err(OptionError::InvalidKeyValue),
    }
}

/// Reads `-T sql=type`: a ClickHouse type in its notation, `=`, and the
/// Rust type to use for it.
pub fn parse_type(s: &str) -> (r: Result<Type, OptionError>)
    ensures
        match split_key_value(s@) {
            None => r == Err::<Type, OptionError>(OptionError::InvalidKeyValue),
            Some((key, value)) => match sql_type_of(key) {
                None => r == Err::<Type, OptionError>(OptionError::InvalidSqlType),
                Some(t) => r matches Ok(x) && x.sql@ == t && x.type_@ == value,
            },
        },
{
    let kv = parse_override(s);
    match kv {
        Err(e) => Err(e),
        Ok(kv) => match parse_sql_type(kv.column.as_str()) {
            Some(sql) => Ok(Type { sql, type_: kv.type_ }),
            None => Err(OptionError::InvalidSqlType),
        },
    }
}

/// How `String`'s order sorts strings.
pub open spec fn text_before() -> spec_fn(Seq<char>, Seq<char>) -> bool {
    |a: Seq<char>, b: Seq<char>| text_order(a, b) < 0
}

/// How `derive(Ord)` sorts [`Override`]s: by column, then by type.
pub open spec fn override_before() -> spec_fn((Seq<char>, Seq<char>), (Seq<char>, Seq<char>)) -> bool {
    |a: (Seq<char>, Seq<char>), b: (Seq<char>, Seq<char>)|
        order_then(text_order(a.0, b.0), text_order(a.1, b.1)) < 0
}

/// How `derive(Ord)` sorts [`Type`]s: by ClickHouse type, then by Rust type.
pub open spec fn type_before() -> spec_fn((SqlTypeView, Seq<char>), (SqlTypeView, Seq<char>)) -> bool {
    |a: (SqlTypeView, Seq<char>), b: (SqlTypeView, Seq<char>)|
        order_then(sql_order(a.0, b.0), text_order(a.1, b.1)) < 0
}

/// The characters of every string.
pub open spec fn text_views(v: Seq<String>) -> Seq<Seq<char>> {
    v.map_values(|s: String| s@)
}

/// The characters of every referenced string.
pub open spec fn text_ref_views(v: Seq<&String>) -> Seq<Seq<char>> {
    v.map_values(|s: &String| s@)
}

/// Every override as column and type.
pub open spec fn override_views(v: Seq<Override>) -> Seq<(Seq<char>, Seq<char>)> {
    v.map_values(|o: Override| (o.column@, o.type_@))
}

/// Every referenced override as column and type.
pub open spec fn override_ref_views(v: Seq<&Override>) -> Seq<(Seq<char>, Seq<char>)> {
    v.map_values(|o: &Override| (o.column@, o.type_@))
}

/// Every type override as ClickHouse type and Rust type.
pub open spec fn type_views(v: Seq<Type>) -> Seq<(SqlTypeView, Seq<char>)> {
    v.map_values(|t: Type| (t.sql@, t.type_@))
}

/// Every referenced type override as ClickHouse type and Rust type.
pub open spec fn type_ref_views(v: Seq<&Type>) -> Seq<(SqlTypeView, Seq<char>)> {
    v.map_values(|t: &Type| (t.sql@, t.type_@))
}

fn override_is_before(x: &Override, y: &Override) -> (r: bool)
    ensures
        r == (override_before())((x.column@, x.type_@), (y.column@, y.type_@)),
{
    let c = compare_text(x.column.as_str(), y.column.as_str());
    c < 0 || (c == 0 && compare_text(x.type_.as_str(), y.type_.as_str()) < 0)
}

fn type_is_before(x: &Type, y: &Type) -> (r: bool)
    ensures
        r == (type_before())((x.sql@, x.type_@), (y.sql@, y.type_@)),
{
    let c = compare_sql(&x.sql, &y.sql);
    c < 0 || (c == 0 && compare_text(x.type_.as_str(), y.type_.as_str()) < 0)
}

/// The strings of `v` in `String`'s order.
pub fn sorted_texts(v: &Vec<String>) -> (r: Vec<&String>)
    ensures
        text_ref_views(r@) == sort_by(text_views(v@), text_before()),
{
    let mut r: Vec<&String> = Vec::new();
    let ghost keys = text_views(v@);
    let mut i: usize = 0;
    proof {
        assert(keys.take(0) =~= Seq::<Seq<char>>::empty());
        assert(text_ref_views(r@) =~= Seq::<Seq<char>>::empty());
    }
    while i < v.len()
        invariant
            i <= v.len(),
            keys == text_views(v@),
            text_ref_views(r@) == sort_by(keys.take(i as int), text_before()),
        decreases v.len() - i,
    {
        let ghost sorted = text_ref_views(r@);
        let x = &v[i];
        let mut p: usize = 0;
        while p < r.len() && compare_text(x.as_str(), r[p].as_str()) >= 0
            invariant
                p <= r.len(),
                sorted == text_ref_views(r@),
                forall|j: int| 0 <= j < p ==> !(text_before())(x@, #[trigger] sorted[j]),
            decreases r.len() - p,
        {
            p = p + 1;
        }
        proof {
            if p < r.len() {
                assert((text_before())(x@, sorted[p as int]));
            }
            lemma_insert_sorted_at(x@, sorted, text_before(), p as int);
            lemma_sort_by_step(keys, text_before(), i as int);
        }
        r.insert(p, x);
        assert(text_ref_views(r@) =~= sorted.insert(p as int, x@));
        i = i + 1;
    }
    assert(keys.take(v.len() as int) =~= keys);
    r
}

/// The overrides of `v` in the order of `derive(Ord)`.
pub fn sorted_overrides(v: &Vec<Override>) -> (r: Vec<&Override>)
    ensures
        override_ref_views(r@) == sort_by(override_views(v@), override_before()),
{
    let mut r: Vec<&Override> = Vec::new();
    let ghost keys = override_views(v@);
    let mut i: usize = 0;
    proof {
        assert(keys.take(0) =~= Seq::<(Seq<char>, Seq<char>)>::empty());
        assert(override_ref_views(r@) =~= Seq::<(Seq<char>, Seq<char>)>::empty());
    }
    while i < v.len()
        invariant
            i <= v.len(),
            keys == override_views(v@),
            override_ref_views(r@) == sort_by(keys.take(i as int), override_before()),
        decreases v.len() - i,
    {
        let ghost sorted = override_ref_views(r@);
        let x = &v[i];
        let ghost kx = (x.column@, x.type_@);
        let mut p: usize = 0;
        while p < r.len() && !override_is_before(x, r[p])
            invariant
                p <= r.len(),
                sorted == override_ref_views(r@),
                kx == (x.column@, x.type_@),
                forall|j: int| 0 <= j < p ==> !(override_before())(kx, #[trigger] sorted[j]),
            decreases r.len() - p,
        {
            p = p + 1;
        }
        proof {
            if p < r.len() {
                assert((override_before())(kx, sorted[p as int]));
            }
            lemma_insert_sorted_at(kx, sorted, override_before(), p as int);
            lemma_sort_by_step(keys, override_before(), i as int);
        }
        r.insert(p, x);
        assert(override_ref_views(r@) =~= sorted.insert(p as int, kx));
        i = i + 1;
    }
    assert(keys.take(v.len() as int) =~= keys);
    r
}

/// The type overrides of `v` in the order of `derive(Ord)`.
pub fn sorted_types(v: &Vec<Type>) -> (r: Vec<&Type>)
    ensures
        type_ref_views(r@) == sort_by(type_views(v@), type_before()),
{
    let mut r: Vec<&Type> = Vec::new();
    let ghost keys = type_views(v@);
    let mut i: usize = 0;
    proof {
        assert(keys.take(0) =~= Seq::<(SqlTypeView, Seq<char>)>::empty());
        assert(type_ref_views(r@) =~= Seq::<(SqlTypeView, Seq<char>)>::empty());
    }
    while i < v.len()
        invariant
            i <= v.len(),
            keys == type_views(v@),
            type_ref_views(r@) == sort_by(keys.take(i as int), type_before()),
        decreases v.len() - i,
    {
        let ghost sorted = type_ref_views(r@);
        let x = &v[i];
        let ghost kx = (x.sql@, x.type_@);
        let mut p: usize = 0;
        while p < r.len() && !type_is_before(x, r[p])
            invariant
                p <= r.len(),
                sorted == type_ref_views(r@),
                kx == (x.sql@, x.type_@),
                forall|j: int| 0 <= j < p ==> !(type_before())(kx, #[trigger] sorted[j]),
            decreases r.len() - p,
        {
            p = p + 1;
        }
        proof {
            if p < r.len() {
                assert((type_before())(kx, sorted[p as int]));
            }
            lemma_insert_sorted_at(kx, sorted, type_before(), p as int);
            lemma_sort_by_step(keys, type_before(), i as int);
        }
        r.insert(p, x);
        assert(type_ref_views(r@) =~= sorted.insert(p as int, kx));
        i = i + 1;
    }
    assert(keys.take(v.len() as int) =~= keys);
    r
}

/// A line `prefix` + item + `' \` for every item.
pub open spec fn quoted_lines(prefix: Seq<char>, items: Seq<Seq<char>>) -> Seq<char>
    decreases items.len(),
{
    if items.len() == 0 {
        Seq::empty()
    } else {
        quoted_lines(prefix, items.drop_last()) + prefix + items.last() + "' \\\n"@
    }
}

/// A line `    -O 'column=type' \` for every override.
pub open spec fn override_lines(items: Seq<(Seq<char>, Seq<char>)>) -> Seq<char>
    decreases items.len(),
{
    if items.len() == 0 {
        Seq::empty()
    } else {
        override_lines(items.drop_last()) + "    -O '"@ + items.last().0 + "="@ + items.last().1
            + "' \\\n"@
    }
}

/// A line `    -T 'sql=type' \` for every type override.
pub open spec fn type_lines(items: Seq<(SqlTypeView, Seq<char>)>) -> Seq<char>
    decreases items.len(),
{
    if items.len() == 0 {
        Seq::empty()
    } else {
        type_lines(items.drop_last()) + "    -T '"@ + sql_text(items.last().0) + "="@
            + items.last().1 + "' \\\n"@
    }
}

/// A line `    --derive trait \` for every derived trait.
pub open spec fn derive_option_lines(ds: Seq<String>) -> Seq<char>
    decreases ds.len(),
{
    if ds.len() == 0 {
        Seq::empty()
    } else {
        derive_option_lines(ds.drop_last()) + "    --derive "@ + ds.last()@ + " \\\n"@
    }
}

/// The first line of the command: the table and the flags.
pub open spec fn command_head(options: Options) -> Seq<char> {
    "ch2rs "@ + options.table@ + (if options.database@ != "default"@ {
        " -d "@ + options.database@
    } else {
        Seq::empty()
    }) + command_flags(options) + " \\\n"@
}

/// The command line, one option per line, before its end is trimmed:
/// the lists of `-T`, `-O`, `-B`, `-N` and `-I` each sorted.
pub open spec fn command_lines(options: Options) -> Seq<char> {
    command_head(options) + derive_option_lines(options.derives@) + (if options.temporal
        != Temporal::Raw {
        "    --temporal "@ + temporal_name(options.temporal) + " \\\n"@
    } else {
        Seq::empty()
    }) + type_lines(sort_by(type_views(options.types@), type_before())) + override_lines(
        sort_by(override_views(options.overrides@), override_before()),
    ) + quoted_lines("    -B '"@, sort_by(text_views(options.bytes@), text_before()))
        + quoted_lines("    -N '"@, sort_by(text_views(options.sentinels@), text_before()))
        + quoted_lines("    -I '"@, sort_by(text_views(options.ignore@), text_before()))
}

/// The command line that gives these options, without the `\`, spaces and
/// line breaks at its end.
pub open spec fn options_text(options: Options) -> Seq<char> {
    trim_end_by(command_lines(options), |c: char| is_continuation_char(c))
}

fn push_quoted_lines(dst: &mut String, prefix: &str, items: &Vec<&String>)
    ensures
        final(dst)@ == old(dst)@ + quoted_lines(prefix@, text_ref_views(items@)),
{
    let ghost v = text_ref_views(items@);
    let mut i: usize = 0;
    assert(dst@ =~= old(dst)@ + quoted_lines(prefix@, v.take(0)));
    while i < items.len()
        invariant
            i <= items.len(),
            v == text_ref_views(items@),
            dst@ == old(dst)@ + quoted_lines(prefix@, v.take(i as int)),
        decreases items.len() - i,
    {
        dst.append(prefix);
        dst.append(items[i].as_str());
        dst.append("' \\\n");
        assert(v.take(i + 1).drop_last() =~= v.take(i as int));
        assert(dst@ =~= old(dst)@ + quoted_lines(prefix@, v.take(i + 1)));
        i = i + 1;
    }
    assert(v.take(items.len() as int) =~= v);
}

fn push_override_lines(dst: &mut String, items: &Vec<&Override>)
    ensures
        final(dst)@ == old(dst)@ + override_lines(override_ref_views(items@)),
{
    let ghost v = override_ref_views(items@);
    let mut i: usize = 0;
    assert(dst@ =~= old(dst)@ + override_lines(v.take(0)));
    while i < items.len()
        invariant
            i <= items.len(),
            v == override_ref_views(items@),
            dst@ == old(dst)@ + override_lines(v.take(i as int)),
        decreases items.len() - i,
    {
        dst.append("    -O '");
        dst.append(items[i].column.as_str());
        dst.append("=");
        dst.append(items[i].type_.as_str());
        dst.append("' \\\n");
        assert(v.take(i + 1).drop_last() =~= v.take(i as int));
        assert(dst@ =~= old(dst)@ + override_lines(v.take(i + 1)));
        i = i + 1;
    }
    assert(v.take(items.len() as int) =~= v);
}

fn push_type_lines(dst: &mut String, items: &Vec<&Type>)
    ensures
        final(dst)@ == old(dst)@ + type_lines(type_ref_views(items@)),
{
    let ghost v = type_ref_views(items@);
    let mut i: usize = 0;
    assert(dst@ =~= old(dst)@ + type_lines(v.take(0)));
    while i < items.len()
        invariant
            i <= items.len(),
            v == type_ref_views(items@),
            dst@ == old(dst)@ + type_lines(v.take(i as int)),
        decreases items.len() - i,
    {
        dst.append("    -T '");
        push_sql_text(dst, &items[i].sql);
        dst.append("=");
        dst.append(items[i].type_.as_str());
        dst.append("' \\\n");
        assert(v.take(i + 1).drop_last() =~= v.take(i as int));
        assert(dst@ =~= old(dst)@ + type_lines(v.take(i + 1)));
        i = i + 1;
    }
    assert(v.take(items.len() as int) =~= v);
}

fn push_derive_options(dst: &mut String, ds: &Vec<String>)
    ensures
        final(dst)@ == old(dst)@ + derive_option_lines(ds@),
{
    let mut i: usize = 0;
    assert(dst@ =~= old(dst)@ + derive_option_lines(ds@.take(0)));
    while i < ds.len()
        invariant
            i <= ds.len(),
            dst@ == old(dst)@ + derive_option_lines(ds@.take(i as int)),
        decreases ds.len() - i,
    {
        dst.append("    --derive ");
        dst.append(ds[i].as_str());
        dst.append(" \\\n");
        assert(ds@.take(i + 1).drop_last() =~= ds@.take(i as int));
        assert(dst@ =~= old(dst)@ + derive_option_lines(ds@.take(i + 1)));
        i = i + 1;
    }
    assert(ds@.take(ds.len() as int) =~= ds@);
}

/// The flags of the first line of the command.
pub open spec fn command_flags(options: Options) -> Seq<char> {
    (if options.serialize {
        " -S"@
    } else {
        Seq::empty()
    }) + (if options.deserialize {
        " -D"@
    } else {
        Seq::empty()
    }) + (if options.owned {
        " --owned"@
    } else {
        Seq::empty()
    })
}

fn push_command_flags(dst: &mut String, options: &Options)
    ensures
        final(dst)@ == old(dst)@ + command_flags(*options),
{
    let ghost start = dst@;
    if options.serialize {
        dst.append(" -S");
    }
    let ghost a = dst@;
    if options.deserialize {
        dst.append(" -D");
    }
    let ghost b = dst@;
    if options.owned {
        dst.append(" --owned");
    }
    assert(dst@ =~= start + command_flags(*options));
}

fn push_command_head(dst: &mut String, options: &Options)
    ensures
        final(dst)@ == old(dst)@ + command_head(*options),
{
    dst.append("ch2rs ");
    dst.append(options.table.as_str());
    if !str_eq(options.database.as_str(), "default") {
        dst.append(" -d ");
        dst.append(options.database.as_str());
    }
    let ghost mid = dst@;
    push_command_flags(dst, options);
    dst.append(" \\\n");
    assert(final(dst)@ =~= old(dst)@ + command_head(*options));
}

impl Options {
    /// The command line that gives these options: one option per line, the
    /// lists sorted.
    pub fn format(&self) -> (r: String)
        ensures
            r@ == options_text(*self),
    {
        let mut s = String::new();
        push_command_head(&mut s, self);
        push_derive_options(&mut s, &self.derives);
        if self.temporal != Temporal::Raw {
            s.append("    --temporal ");
            s.append(self.temporal.name());
            s.append(" \\\n");
        }
        let types = sorted_types(&self.types);
        push_type_lines(&mut s, &types);
        let overrides = sorted_overrides(&self.overrides);
        push_override_lines(&mut s, &overrides);
        let bytes = sorted_texts(&self.bytes);
        push_quoted_lines(&mut s, "    -B '", &bytes);
        let sentinels = sorted_texts(&self.sentinels);
        push_quoted_lines(&mut s, "    -N '", &sentinels);
        let ignore = sorted_texts(&self.ignore);
        push_quoted_lines(&mut s, "    -I '", &ignore);
        assert(s@ =~= command_lines(*self));
        trim_continuation_end(s.as_str())
    }
}

} // verus!
