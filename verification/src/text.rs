//! Text primitives the generators are built from: appending, decimal
//! rendering, searching, splitting into lines and trimming, each with a
//! specification over `Seq<char>`.
use vstd::prelude::*;

verus! {

/// Unicode `White_Space`, the set that `char::is_whitespace` tests.
pub open spec fn is_white_space(c: char) -> bool {
    let u = c as u32;
    ||| 9 <= u <= 13
    ||| u == 32
    ||| u == 0x85
    ||| u == 0xA0
    ||| u == 0x1680
    ||| 0x2000 <= u <= 0x200A
    ||| u == 0x2028
    ||| u == 0x2029
    ||| u == 0x202F
    ||| u == 0x205F
    ||| u == 0x3000
}

pub fn char_is_white_space(c: char) -> (r: bool)
    ensures
        r == is_white_space(c),
{
    let u = c as u32;
    (9 <= u && u <= 13) || u == 32 || u == 0x85 || u == 0xA0 || u == 0x1680 || (0x2000 <= u
        && u <= 0x200A) || u == 0x2028 || u == 0x2029 || u == 0x202F || u == 0x205F || u
        == 0x3000
}

/// The character of a decimal digit.
pub open spec fn digit_char(d: nat) -> char {
    ((('0' as u32) as nat) + d) as char
}

/// The decimal notation of a natural number, without leading zeros.
pub open spec fn decimal(n: nat) -> Seq<char>
    decreases n,
{
    if n < 10 {
        seq![digit_char(n)]
    } else {
        decimal(n / 10).push(digit_char(n % 10))
    }
}

/// The decimal notation of an integer, with a leading `-` when negative.
pub open spec fn signed_decimal(i: int) -> Seq<char> {
    if i < 0 {
        seq!['-'] + decimal((-i) as nat)
    } else {
        decimal(i as nat)
    }
}

fn digit_str(d: u64) -> (r: &'static str)
    requires
        d < 10,
    ensures
        r@ == seq![digit_char(d as nat)],
{
    if d == 0 {
        proof { reveal_strlit("0"); }
        "0"
    } else if d == 1 {
        proof { reveal_strlit("1"); }
        "1"
    } else if d == 2 {
        proof { reveal_strlit("2"); }
        "2"
    } else if d == 3 {
        proof { reveal_strlit("3"); }
        "3"
    } else if d == 4 {
        proof { reveal_strlit("4"); }
        "4"
    } else if d == 5 {
        proof { reveal_strlit("5"); }
        "5"
    } else if d == 6 {
        proof { reveal_strlit("6"); }
        "6"
    } else if d == 7 {
        proof { reveal_strlit("7"); }
        "7"
    } else if d == 8 {
        proof { reveal_strlit("8"); }
        "8"
    } else {
        proof { reveal_strlit("9"); }
        "9"
    }
}

/// Appends the decimal notation of `n`.
pub fn push_decimal(dst: &mut String, n: u64)
    ensures
        final(dst)@ == old(dst)@ + decimal(n as nat),
    decreases n,
{
    if n >= 10 {
        push_decimal(dst, n / 10);
    }
    let d = digit_str(n % 10);
    let ghost before = dst@;
    dst.append(d);
    proof {
        if n >= 10 {
            assert(dst@ =~= old(dst)@ + decimal(n as nat));
        } else {
            assert(dst@ =~= old(dst)@ + decimal(n as nat));
        }
    }
}

/// Appends the decimal notation of `n`, signed.
pub fn push_signed_decimal(dst: &mut String, n: i32)
    ensures
        final(dst)@ == old(dst)@ + signed_decimal(n as int),
{
    if n < 0 {
        proof { reveal_strlit("-"); }
        dst.append("-");
        let m: i64 = n as i64;
        let a: u64 = (-m) as u64;
        push_decimal(dst, a);
        assert(final(dst)@ =~= old(dst)@ + signed_decimal(n as int));
    } else {
        push_decimal(dst, n as u64);
    }
}

/// Appends one character of `s`.
fn push_char_of(dst: &mut String, s: &str, i: usize)
    requires
        i < s@.len() <= usize::MAX,
    ensures
        final(dst)@ == old(dst)@.push(s@[i as int]),
{
    let piece = s.substring_char(i, i + 1);
    dst.append(piece);
    assert(piece@ =~= seq![s@[i as int]]);
    assert(final(dst)@ =~= old(dst)@.push(s@[i as int]));
}

/// Character equality of two strings.
pub fn str_eq(a: &str, b: &str) -> (r: bool)
    ensures
        r == (a@ == b@),
{
    let n = a.unicode_len();
    let m = b.unicode_len();
    if n != m {
        return false;
    }
    let mut i: usize = 0;
    while i < n
        invariant
            n == a@.len(),
            m == b@.len(),
            n == m,
            i <= n,
            forall|j: int| 0 <= j < i ==> a@[j] == b@[j],
        decreases n - i,
    {
        if a.get_char(i) != b.get_char(i) {
            return false;
        }
        i = i + 1;
    }
    assert(a@ =~= b@);
    true
}

/// Whether some string of `v` equals `s`.
pub open spec fn seq_has(v: Seq<String>, s: Seq<char>) -> bool {
    exists|i: int| 0 <= i < v.len() && #[trigger] v[i]@ == s
}

pub fn vec_has(v: &Vec<String>, s: &str) -> (r: bool)
    ensures
        r == seq_has(v@, s@),
{
    let mut i: usize = 0;
    while i < v.len()
        invariant
            i <= v.len(),
            forall|j: int| 0 <= j < i ==> #[trigger] v@[j]@ != s@,
        decreases v.len() - i,
    {
        if str_eq(v[i].as_str(), s) {
            assert(v@[i as int]@ == s@);
            return true;
        }
        i = i + 1;
    }
    false
}

/// Whether `'a` starts at position `i`.
pub open spec fn lifetime_at(s: Seq<char>, i: int) -> bool {
    0 <= i && i + 1 < s.len() && s[i] == '\'' && s[i + 1] == 'a'
}

/// Whether `s` holds `'a` anywhere.
pub open spec fn has_lifetime(s: Seq<char>) -> bool {
    exists|i: int| #[trigger] lifetime_at(s, i)
}

pub fn contains_lifetime(s: &str) -> (r: bool)
    ensures
        r == has_lifetime(s@),
{
    let mut prev: char = ' ';
    let mut found = false;
    let mut k: usize = 0;
    let n = s.unicode_len();
    for c in it: s.chars()
        invariant
            it.index() == k,
            it.seq() == s@,
            k <= s@.len(),
            n == s@.len(),
            k > 0 ==> prev == s@[k - 1],
            k == 0 ==> prev == ' ',
            found == exists|i: int| 0 <= i < k as int - 1 && #[trigger] lifetime_at(s@, i),
    {
        assert(c == s@[k as int]);
        let ghost old_found = found;
        if prev == '\'' && c == 'a' {
            found = true;
        }
        proof {
            let kk = k as int;
            if kk > 0 {
                assert(lifetime_at(s@, kk - 1) == (prev == '\'' && c == 'a'));
            }
            if found && !old_found {
                assert(lifetime_at(s@, kk - 1));
            }
            if !found {
                assert forall|i: int| 0 <= i < kk implies !lifetime_at(s@, i) by {
                    if i < kk - 1 {
                    }
                }
            }
        }
        prev = c;
        k = k + 1;
    }
    proof {
        if !found {
            assert forall|i: int| !lifetime_at(s@, i) by {
                if 0 <= i < n as int - 1 {
                }
            }
        }
    }
    found
}

/// The position of the first `c` in `s`.
pub open spec fn first_index(s: Seq<char>, c: char) -> Option<int>
    decreases s.len(),
{
    if s.len() == 0 {
        None
    } else if s[0] == c {
        Some(0)
    } else {
        match first_index(s.drop_first(), c) {
            Some(i) => Some(i + 1),
            None => None,
        }
    }
}

pub proof fn lemma_first_index(s: Seq<char>, c: char, k: int)
    requires
        0 <= k <= s.len(),
        forall|j: int| 0 <= j < k ==> s[j] != c,
    ensures
        k < s.len() && s[k] == c ==> first_index(s, c) == Some(k),
        k == s.len() ==> first_index(s, c) is None,
    decreases k,
{
    if k > 0 {
        lemma_first_index(s.drop_first(), c, k - 1);
    } else if s.len() > 0 {
    }
}

/// Finds the first `c` in `s` at or after `from`.
pub fn find_char_from(s: &str, n: usize, c: char, from: usize) -> (r: Option<usize>)
    requires
        n == s@.len(),
        from <= n,
    ensures
        match r {
            Some(i) => from <= i < n && s@[i as int] == c && first_index(
                s@.subrange(from as int, n as int),
                c,
            ) == Some(i - from),
            None => first_index(s@.subrange(from as int, n as int), c) is None,
        },
{
    let mut i = from;
    while i < n
        invariant
            n == s@.len(),
            from <= i <= n,
            forall|j: int| from <= j < i ==> s@[j] != c,
        decreases n - i,
    {
        if s.get_char(i) == c {
            proof {
                lemma_first_index(s@.subrange(from as int, n as int), c, i - from);
            }
            return Some(i);
        }
        i = i + 1;
    }
    proof {
        lemma_first_index(s@.subrange(from as int, n as int), c, n - from);
    }
    None
}

/// Finds the first `c` in `s`.
pub fn find_char(s: &str, c: char) -> (r: Option<usize>)
    ensures
        match r {
            Some(i) => first_index(s@, c) == Some(i as int) && i < s@.len(),
            None => first_index(s@, c) is None,
        },
{
    let n = s.unicode_len();
    let r = find_char_from(s, n, c, 0);
    assert(s@.subrange(0, n as int) =~= s@);
    r
}

/// A copy of the characters `from..to` of `s`.
pub fn substring(s: &str, from: usize, to: usize) -> (r: String)
    requires
        from <= to <= s@.len(),
    ensures
        r@ == s@.subrange(from as int, to as int),
{
    String::from_str(s.substring_char(from, to))
}

/// A line without a carriage return that ended it.
pub open spec fn strip_cr(line: Seq<char>) -> Seq<char> {
    if line.len() > 0 && line.last() == '\r' {
        line.drop_last()
    } else {
        line
    }
}

/// The lines of `s` as `str::lines` yields them: split at `\n`, with a `\r`
/// right before the `\n` dropped, and no empty line after a final `\n`.
pub open spec fn lines(s: Seq<char>) -> Seq<Seq<char>>
    decreases s.len(),
{
    if s.len() == 0 {
        Seq::empty()
    } else {
        match first_index(s, '\n') {
            None => seq![s],
            Some(i) => if 0 <= i < s.len() {
                seq![strip_cr(s.take(i))] + lines(s.skip(i + 1))
            } else {
                Seq::empty()
            },
        }
    }
}

/// Every line prefixed by `prefix` and followed by `\n`.
pub open spec fn prefixed_lines(ls: Seq<Seq<char>>, prefix: Seq<char>) -> Seq<char>
    decreases ls.len(),
{
    if ls.len() == 0 {
        Seq::empty()
    } else {
        prefixed_lines(ls.drop_last(), prefix) + prefix + ls.last() + seq!['\n']
    }
}

pub proof fn lemma_first_index_bound(s: Seq<char>, c: char)
    ensures
        first_index(s, c) matches Some(i) ==> 0 <= i < s.len() && s[i] == c && forall|j: int|
            0 <= j < i ==> s[j] != c,
        first_index(s, c) is None ==> forall|j: int| 0 <= j < s.len() ==> s[j] != c,
    decreases s.len(),
{
    if s.len() > 0 {
        lemma_first_index_bound(s.drop_first(), c);
        assert forall|j: int| 0 < j < s.len() implies s[j] == s.drop_first()[j - 1] by {}
    }
}

/// Appends `prefix`, the line and `\n` for every line of `s`.
pub fn push_prefixed_lines(dst: &mut String, s: &str, prefix: &str)
    ensures
        final(dst)@ == old(dst)@ + prefixed_lines(lines(s@), prefix@),
{
    let n = s.unicode_len();
    let mut pos: usize = 0;
    let ghost mut done: Seq<Seq<char>> = Seq::empty();
    proof {
        assert(s@.skip(0) =~= s@);
        assert(old(dst)@ + prefixed_lines(done, prefix@) =~= old(dst)@);
    }
    while pos < n
        invariant
            n == s@.len(),
            pos <= n,
            lines(s@) == done + lines(s@.skip(pos as int)),
            dst@ == old(dst)@ + prefixed_lines(done, prefix@),
        decreases n - pos,
    {
        let ghost rest = s@.skip(pos as int);
        let found = find_char_from(s, n, '\n', pos);
        proof {
            assert(s@.subrange(pos as int, n as int) =~= rest);
        }
        match found {
            Some(i) => {
                let mut end = i;
                if end > pos && s.get_char(end - 1) == '\r' {
                    end = end - 1;
                }
                let ghost before = dst@;
                dst.append(prefix);
                let line = s.substring_char(pos, end);
                dst.append(line);
                proof { reveal_strlit("\n"); }
                dst.append("\n");
                proof {
                    let k = (i - pos) as int;
                    let line_v = strip_cr(rest.take(k));
                    assert(rest.take(k) =~= s@.subrange(pos as int, i as int));
                    if i > pos && s@[i - 1] == '\r' {
                        assert(line_v =~= s@.subrange(pos as int, i - 1));
                    } else {
                        assert(line_v =~= s@.subrange(pos as int, i as int));
                    }
                    assert(line@ =~= line_v);
                    assert(rest.skip(k + 1) =~= s@.skip(i + 1));
                    assert(lines(rest) == seq![line_v] + lines(s@.skip(i + 1)));
                    let nd = done.push(line_v);
                    assert(nd.drop_last() =~= done);
                    assert(dst@ =~= old(dst)@ + prefixed_lines(nd, prefix@));
                    assert(lines(s@) =~= nd + lines(s@.skip(i + 1)));
                    done = nd;
                }
                pos = i + 1;
            },
            None => {
                dst.append(prefix);
                let line = s.substring_char(pos, n);
                dst.append(line);
                proof { reveal_strlit("\n"); }
                dst.append("\n");
                proof {
                    assert(line@ =~= rest);
                    assert(lines(rest) == seq![rest]);
                    let nd = done.push(rest);
                    assert(nd.drop_last() =~= done);
                    assert(dst@ =~= old(dst)@ + prefixed_lines(nd, prefix@));
                    assert(s@.skip(n as int) =~= Seq::<char>::empty());
                    assert(lines(s@) =~= nd + lines(s@.skip(n as int)));
                    done = nd;
                }
                pos = n;
            },
        }
    }
    proof {
        assert(s@.skip(pos as int) =~= Seq::<char>::empty());
        assert(lines(s@) =~= done);
    }
}

/// Every `\n` of `s` followed by four spaces.
pub open spec fn indent_after_newlines(s: Seq<char>) -> Seq<char>
    decreases s.len(),
{
    if s.len() == 0 {
        Seq::empty()
    } else if s.last() == '\n' {
        indent_after_newlines(s.drop_last()) + "\n    "@
    } else {
        indent_after_newlines(s.drop_last()).push(s.last())
    }
}

/// Appends `s` with every `\n` replaced by `\n` and four spaces.
pub fn push_indented(dst: &mut String, s: &str)
    ensures
        final(dst)@ == old(dst)@ + indent_after_newlines(s@),
{
    let n = s.unicode_len();
    let mut i: usize = 0;
    proof {
        assert(s@.take(0) =~= Seq::<char>::empty());
        assert(dst@ =~= old(dst)@ + indent_after_newlines(s@.take(0)));
    }
    while i < n
        invariant
            n == s@.len(),
            i <= n,
            dst@ == old(dst)@ + indent_after_newlines(s@.take(i as int)),
        decreases n - i,
    {
        let c = s.get_char(i);
        if c == '\n' {
            dst.append("\n    ");
        } else {
            push_char_of(dst, s, i);
        }
        proof {
            assert(s@.take(i + 1).drop_last() =~= s@.take(i as int));
            assert(dst@ =~= old(dst)@ + indent_after_newlines(s@.take(i + 1)));
        }
        i = i + 1;
    }
    assert(s@.take(n as int) =~= s@);
}

/// `s` without the leading characters that `p` holds of.
pub open spec fn trim_start_by(s: Seq<char>, p: spec_fn(char) -> bool) -> Seq<char>
    decreases s.len(),
{
    if s.len() > 0 && p(s[0]) {
        trim_start_by(s.drop_first(), p)
    } else {
        s
    }
}

/// `s` without the trailing characters that `p` holds of.
pub open spec fn trim_end_by(s: Seq<char>, p: spec_fn(char) -> bool) -> Seq<char>
    decreases s.len(),
{
    if s.len() > 0 && p(s.last()) {
        trim_end_by(s.drop_last(), p)
    } else {
        s
    }
}

/// `str::trim`: white space removed at both ends.
pub open spec fn trim(s: Seq<char>) -> Seq<char> {
    trim_end_by(trim_start_by(s, |c: char| is_white_space(c)), |c: char| is_white_space(c))
}

proof fn lemma_trim_start(s: Seq<char>, p: spec_fn(char) -> bool, k: int)
    requires
        0 <= k <= s.len(),
        forall|j: int| 0 <= j < k ==> p(#[trigger] s[j]),
        k < s.len() ==> !p(s[k]),
    ensures
        trim_start_by(s, p) == s.skip(k),
    decreases k,
{
    if k > 0 {
        lemma_trim_start(s.drop_first(), p, k - 1);
        assert(s.drop_first().skip(k - 1) =~= s.skip(k));
    } else {
        assert(s.skip(0) =~= s);
    }
}

proof fn lemma_trim_end(s: Seq<char>, p: spec_fn(char) -> bool, k: int)
    requires
        0 <= k <= s.len(),
        forall|j: int| k <= j < s.len() ==> p(#[trigger] s[j]),
        k > 0 ==> !p(s[k - 1]),
    ensures
        trim_end_by(s, p) == s.take(k),
    decreases s.len() - k,
{
    if k < s.len() {
        lemma_trim_end(s.drop_last(), p, k);
        assert(s.drop_last().take(k) =~= s.take(k));
    } else {
        assert(s.take(k) =~= s);
    }
}

/// A copy of `s` without white space at either end.
pub fn trimmed(s: &str) -> (r: String)
    ensures
        r@ == trim(s@),
{
    let ghost p = |c: char| is_white_space(c);
    let n = s.unicode_len();
    let mut a: usize = 0;
    while a < n && char_is_white_space(s.get_char(a))
        invariant
            n == s@.len(),
            a <= n,
            forall|j: int| 0 <= j < a ==> is_white_space(#[trigger] s@[j]),
        decreases n - a,
    {
        a = a + 1;
    }
    proof {
        lemma_trim_start(s@, p, a as int);
    }
    let ghost t = s@.skip(a as int);
    let mut b: usize = n;
    while b > a && char_is_white_space(s.get_char(b - 1))
        invariant
            n == s@.len(),
            a <= b <= n,
            t == s@.skip(a as int),
            forall|j: int| b <= j < n ==> is_white_space(#[trigger] s@[j]),
        decreases b,
    {
        b = b - 1;
    }
    proof {
        assert forall|j: int| (b - a) as int <= j < t.len() implies p(#[trigger] t[j]) by {
            assert(t[j] == s@[j + a]);
        }
        if b > a {
            assert(t[b - a - 1] == s@[b - 1]);
        }
        lemma_trim_end(t, p, (b - a) as int);
        assert(t.take((b - a) as int) =~= s@.subrange(a as int, b as int));
    }
    substring(s, a, b)
}

/// The characters `\`, space and `\n`.
pub open spec fn is_continuation_char(c: char) -> bool {
    c == '\\' || c == ' ' || c == '\n'
}

fn char_is_continuation(c: char) -> (r: bool)
    ensures
        r == is_continuation_char(c),
{
    c == '\\' || c == ' ' || c == '\n'
}

/// A copy of `s` without a tail made of `\`, spaces and `\n`.
pub fn trim_continuation_end(s: &str) -> (r: String)
    ensures
        r@ == trim_end_by(s@, |c: char| is_continuation_char(c)),
{
    let ghost p = |c: char| is_continuation_char(c);
    let n = s.unicode_len();
    let mut b: usize = n;
    while b > 0 && char_is_continuation(s.get_char(b - 1))
        invariant
            n == s@.len(),
            b <= n,
            forall|j: int| b <= j < n ==> is_continuation_char(#[trigger] s@[j]),
        decreases b,
    {
        b = b - 1;
    }
    proof {
        lemma_trim_end(s@, p, b as int);
    }
    substring(s, 0, b)
}

/// Whether every character of `s` is white space.
pub fn all_white_space(s: &str) -> (r: bool)
    ensures
        r == forall|i: int| 0 <= i < s@.len() ==> is_white_space(#[trigger] s@[i]),
{
    let n = s.unicode_len();
    let mut i: usize = 0;
    while i < n
        invariant
            n == s@.len(),
            i <= n,
            forall|j: int| 0 <= j < i ==> is_white_space(#[trigger] s@[j]),
        decreases n - i,
    {
        if !char_is_white_space(s.get_char(i)) {
            return false;
        }
        i = i + 1;
    }
    true
}

} // verus!
