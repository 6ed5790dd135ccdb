//! Character-level text operations used by the descriptor interpreter.
use vstd::prelude::*;

verus! {

/// The separator that plugin paths use.
pub open spec fn is_separator(c: char) -> bool {
    c == '\\'
}

/// Either slash character, as accepted by path normalization.
pub open spec fn is_slash(c: char) -> bool {
    c == '\\' || c == '/'
}

/// No two adjacent characters of `s` are both separators.
pub open spec fn no_double_separator(s: Seq<char>) -> bool {
    forall|i: int| 0 <= i && i + 1 < s.len() ==> !(#[trigger] is_separator(s[i]) && is_separator(s[i + 1]))
}

/// Relies on `FromIterator<&char>` for `String`: the string holds exactly the
/// given characters, in order.
#[verifier::external_body]
pub(crate) fn string_of(v: &Vec<char>) -> (r: String)
    ensures
        r@ == v@,
{
    v.iter().collect()
}

/// The characters of `s`, in order.
pub fn chars_of(s: &str) -> (r: Vec<char>)
    ensures
        r@ == s@,
{
    let n = s.unicode_len();
    let mut r: Vec<char> = Vec::new();
    let mut i: usize = 0;
    while i < n
        invariant
            n == s@.len(),
            i <= n,
            r@ == s@.take(i as int),
        decreases n - i,
    {
        let c = s.get_char(i);
        r.push(c);
        i = i + 1;
        assert(r@ =~= s@.take(i as int));
    }
    assert(r@ =~= s@);
    r
}


/// Every occurrence of `p` in `s`, scanning left to right without overlap,
/// replaced by `r`.
pub open spec fn replace_all(s: Seq<char>, p: Seq<char>, r: Seq<char>) -> Seq<char>
    decreases s.len(),
{
    if p.len() == 0 || s.len() < p.len() {
        s
    } else if s.take(p.len() as int) == p {
        r + replace_all(s.skip(p.len() as int), p, r)
    } else {
        seq![s[0]] + replace_all(s.skip(1), p, r)
    }
}

/// Whether `p` occurs in `s` starting at index `i`.
pub fn matches_at(s: &Vec<char>, i: usize, p: &Vec<char>) -> (b: bool)
    requires
        i <= s@.len(),
    ensures
        b == (i + p@.len() <= s@.len() && s@.subrange(i as int, i + p@.len()) == p@),
{
    if p.len() > s.len() - i {
        return false;
    }
    let mut j: usize = 0;
    while j < p.len()
        invariant
            j <= p@.len(),
            i + p@.len() <= s.len(),
            forall|k: int| 0 <= k < j ==> s@[i + k] == p@[k],
        decreases p@.len() - j,
    {
        if s[i + j] != p[j] {
            assert(s@.subrange(i as int, i + p@.len())[j as int] != p@[j as int]);
            return false;
        }
        j = j + 1;
    }
    assert(s@.subrange(i as int, i + p@.len()) =~= p@);
    true
}

/// Appends the characters of `r` to `out`.
pub fn append_chars(out: &mut Vec<char>, r: &Vec<char>)
    ensures
        final(out)@ == old(out)@ + r@,
{
    let mut j: usize = 0;
    while j < r.len()
        invariant
            j <= r@.len(),
            out@ == old(out)@ + r@.take(j as int),
        decreases r@.len() - j,
    {
        out.push(r[j]);
        j = j + 1;
        assert(out@ =~= old(out)@ + r@.take(j as int));
    }
    assert(r@.take(r@.len() as int) =~= r@);
}

/// `s` with every occurrence of `p` replaced by `r`.
pub fn replace_chars(s: &Vec<char>, p: &Vec<char>, r: &Vec<char>) -> (out: Vec<char>)
    requires
        p@.len() > 0,
    ensures
        out@ == replace_all(s@, p@, r@),
{
    let mut out: Vec<char> = Vec::new();
    let mut i: usize = 0;
    assert(s@.skip(0) =~= s@);
    assert(out@ + replace_all(s@, p@, r@) =~= replace_all(s@, p@, r@));
    while i < s.len()
        invariant
            i <= s@.len(),
            p@.len() > 0,
            out@ + replace_all(s@.skip(i as int), p@, r@) == replace_all(s@, p@, r@),
        decreases s@.len() - i,
    {
        let ghost rest = s@.skip(i as int);
        let ghost before = out@;
        if matches_at(s, i, p) {
            assert(rest.take(p@.len() as int) =~= s@.subrange(i as int, i + p@.len()));
            assert(rest.skip(p@.len() as int) =~= s@.skip(i + p@.len()));
            append_chars(&mut out, r);
            i = i + p.len();
            assert(before + (r@ + replace_all(s@.skip(i as int), p@, r@))
                =~= out@ + replace_all(s@.skip(i as int), p@, r@));
        } else {
            proof {
                if rest.len() < p@.len() {
                    assert(rest =~= seq![rest[0]] + rest.skip(1));
                } else {
                    assert(rest.take(p@.len() as int) =~= s@.subrange(i as int, i + p@.len()));
                }
            }
            out.push(s[i]);
            i = i + 1;
            assert(rest.skip(1) =~= s@.skip(i as int));
            assert(before + (seq![rest[0]] + replace_all(s@.skip(i as int), p@, r@))
                =~= out@ + replace_all(s@.skip(i as int), p@, r@));
        }
    }
    assert(s@.skip(i as int) =~= Seq::<char>::empty());
    assert(out@ + Seq::<char>::empty() =~= out@);
    out
}

/// What escaping makes of one character: a separator is doubled.
pub open spec fn escape_char(c: char) -> Seq<char> {
    if is_separator(c) {
        seq!['\\', '\\']
    } else {
        seq![c]
    }
}

/// `s` with every separator doubled.
pub open spec fn escape(s: Seq<char>) -> Seq<char>
    decreases s.len(),
{
    if s.len() == 0 {
        Seq::empty()
    } else {
        escape_char(s[0]) + escape(s.skip(1))
    }
}

/// Reads escaped text back: a doubled separator stands for one.
pub open spec fn unescape(s: Seq<char>) -> Seq<char>
    decreases s.len(),
{
    if s.len() == 0 {
        Seq::empty()
    } else if s.len() >= 2 && is_separator(s[0]) && is_separator(s[1]) {
        seq!['\\'] + unescape(s.skip(2))
    } else {
        seq![s[0]] + unescape(s.skip(1))
    }
}

/// The number of separators in `s`.
pub open spec fn separator_count(s: Seq<char>) -> nat
    decreases s.len(),
{
    if s.len() == 0 {
        0
    } else {
        (if is_separator(s[0]) { 1nat } else { 0nat }) + separator_count(s.skip(1))
    }
}

proof fn lemma_escape_push(s: Seq<char>, c: char)
    ensures
        escape(s.push(c)) == escape(s) + escape_char(c),
    decreases s.len(),
{
    if s.len() == 0 {
        assert(s.push(c).skip(1) =~= Seq::<char>::empty());
        assert(escape(s.push(c).skip(1)) == Seq::<char>::empty());
        assert(escape(s) == Seq::<char>::empty());
        assert(escape(s.push(c)) =~= escape(s) + escape_char(c));
    } else {
        assert(s.push(c).skip(1) =~= s.skip(1).push(c));
        lemma_escape_push(s.skip(1), c);
        assert(escape(s.push(c)) =~= escape(s) + escape_char(c));
    }
}

/// Escaping doubles each separator once and adds nothing else: reading the
/// escaped text back gives `s` again, and it is longer by exactly the
/// number of separators.
pub proof fn lemma_escape_round_trip(s: Seq<char>)
    ensures
        unescape(escape(s)) == s,
        escape(s).len() == s.len() + separator_count(s),
    decreases s.len(),
{
    if s.len() > 0 {
        let e = escape(s);
        lemma_escape_round_trip(s.skip(1));
        if is_separator(s[0]) {
            assert(e.skip(2) =~= escape(s.skip(1)));
        } else {
            assert(e.skip(1) =~= escape(s.skip(1)));
        }
        assert(unescape(e) =~= s);
    }
}

/// `s` with every separator doubled, so that a parser which reads `\` as an
/// escape sees each one literally.
pub fn escape_separators(s: &Vec<char>) -> (r: Vec<char>)
    ensures
        r@ == escape(s@),
{
    let mut r: Vec<char> = Vec::new();
    let mut i: usize = 0;
    while i < s.len()
        invariant
            i <= s@.len(),
            r@ == escape(s@.take(i as int)),
        decreases s@.len() - i,
    {
        let c = s[i];
        proof {
            lemma_escape_push(s@.take(i as int), c);
            assert(s@.take(i + 1) =~= s@.take(i as int).push(c));
        }
        if c == '\\' {
            r.push('\\');
            r.push('\\');
        } else {
            r.push(c);
        }
        i = i + 1;
        assert(r@ =~= escape(s@.take(i as int)));
    }
    assert(s@.take(i as int) =~= s@);
    r
}

/// `s` with every run of slash characters collapsed into one `\`.
pub open spec fn normalize(s: Seq<char>) -> Seq<char>
    decreases s.len(),
{
    if s.len() == 0 {
        Seq::empty()
    } else if is_slash(s.last()) {
        if s.drop_last().len() > 0 && is_slash(s.drop_last().last()) {
            normalize(s.drop_last())
        } else {
            normalize(s.drop_last()).push('\\')
        }
    } else {
        normalize(s.drop_last()).push(s.last())
    }
}

proof fn lemma_normalize_shape(s: Seq<char>)
    ensures
        no_double_separator(normalize(s)),
        forall|i: int| 0 <= i < normalize(s).len() ==> normalize(s)[i] != '/',
        normalize(s).len() == 0 <==> s.len() == 0,
        s.len() > 0 ==> (is_separator(normalize(s).last()) <==> is_slash(s.last())),
    decreases s.len(),
{
    if s.len() > 0 {
        lemma_normalize_shape(s.drop_last());
    }
}

/// `path` with every run of `\` and `/` characters collapsed into a single
/// `\`; every other character is kept.
pub fn normalize_path(path: &str) -> (r: String)
    ensures
        r@ == normalize(path@),
        no_double_separator(r@),
        forall|i: int| 0 <= i < r@.len() ==> r@[i] != '/',
{
    let s = chars_of(path);
    let mut out: Vec<char> = Vec::new();
    let mut prev_slash = false;
    let mut i: usize = 0;
    while i < s.len()
        invariant
            i <= s@.len(),
            out@ == normalize(s@.take(i as int)),
            prev_slash == (i > 0 && is_slash(s@[i - 1])),
        decreases s@.len() - i,
    {
        let c = s[i];
        assert(s@.take(i + 1).drop_last() =~= s@.take(i as int));
        if c == '\\' || c == '/' {
            if !prev_slash {
                out.push('\\');
            }
            prev_slash = true;
        } else {
            out.push(c);
            prev_slash = false;
        }
        i = i + 1;
    }
    assert(s@.take(i as int) =~= s@);
    proof {
        lemma_normalize_shape(s@);
    }
    string_of(&out)
}


/// `s` begins with `p`.
pub open spec fn has_prefix(s: Seq<char>, p: Seq<char>) -> bool {
    p.len() <= s.len() && s.subrange(0, p.len() as int) == p
}

/// Whether `s` begins with `p`.
pub fn starts_with_chars(s: &Vec<char>, p: &Vec<char>) -> (b: bool)
    ensures
        b == has_prefix(s@, p@),
{
    matches_at(s, 0, p)
}

/// `s` ends with `p`.
pub open spec fn has_suffix(s: Seq<char>, p: Seq<char>) -> bool {
    p.len() <= s.len() && s.subrange(s.len() - p.len(), s.len() as int) == p
}

/// Whether `s` ends with `p`.
pub fn ends_with_chars(s: &Vec<char>, p: &Vec<char>) -> (b: bool)
    ensures
        b == has_suffix(s@, p@),
{
    if p.len() > s.len() {
        return false;
    }
    matches_at(s, s.len() - p.len(), p)
}

/// The token that stands for the plugin's own directory in a descriptor.
pub open spec fn macro_token() -> Seq<char> {
    seq!['%', 'F', 'N', '%']
}

/// `d`, ending in a separator: one is appended unless it already ends in one.
pub open spec fn with_trailing_separator(d: Seq<char>) -> Seq<char> {
    if d.len() > 0 && is_separator(d.last()) {
        d
    } else {
        d.push('\\')
    }
}

/// The macro token followed by a separator is replaced by the directory
/// first, then the bare token is; the directory always ends in a separator.
pub open spec fn substitute_macro(text: Seq<char>, dir: Seq<char>) -> Seq<char> {
    let d = with_trailing_separator(dir);
    replace_all(replace_all(text, macro_token().push('\\'), d), macro_token(), d)
}

/// `dir`, ending in a separator.
pub fn ensure_trailing_separator(dir: &Vec<char>) -> (r: Vec<char>)
    ensures
        r@ == with_trailing_separator(dir@),
{
    let mut r: Vec<char> = Vec::new();
    append_chars(&mut r, dir);
    if !(dir.len() > 0 && dir[dir.len() - 1] == '\\') {
        r.push('\\');
    }
    r
}

/// `text` with the directory macro replaced by `dir`.
pub fn substitute_dir_macro(text: &Vec<char>, dir: &Vec<char>) -> (r: Vec<char>)
    ensures
        r@ == substitute_macro(text@, dir@),
{
    let d = ensure_trailing_separator(dir);
    let with_sep = vec!['%', 'F', 'N', '%', '\\'];
    let bare = vec!['%', 'F', 'N', '%'];
    assert(with_sep@ =~= macro_token().push('\\'));
    assert(bare@ =~= macro_token());
    let first = replace_chars(text, &with_sep, &d);
    replace_chars(&first, &bare, &d)
}


/// Appends the characters of `s` to `out`.
pub fn push_str_chars(out: &mut Vec<char>, s: &str)
    ensures
        final(out)@ == old(out)@ + s@,
{
    let c = chars_of(s);
    append_chars(out, &c);
}

/// Leading double quotes removed.
pub open spec fn trim_leading_quotes(s: Seq<char>) -> Seq<char>
    decreases s.len(),
{
    if s.len() > 0 && s[0] == '"' {
        trim_leading_quotes(s.skip(1))
    } else {
        s
    }
}

/// Trailing double quotes removed.
pub open spec fn trim_trailing_quotes(s: Seq<char>) -> Seq<char>
    decreases s.len(),
{
    if s.len() > 0 && s.last() == '"' {
        trim_trailing_quotes(s.drop_last())
    } else {
        s
    }
}

/// Double quotes removed from both ends.
pub open spec fn trim_quotes(s: Seq<char>) -> Seq<char> {
    trim_trailing_quotes(trim_leading_quotes(s))
}

/// `s` with double quotes removed from both ends.
pub fn trim_quotes_of(s: &str) -> (r: String)
    ensures
        r@ == trim_quotes(s@),
{
    let c = chars_of(s);
    let mut i: usize = 0;
    assert(c@.skip(0) =~= c@);
    while i < c.len() && c[i] == '"'
        invariant
            i <= c@.len(),
            trim_leading_quotes(c@) == trim_leading_quotes(c@.skip(i as int)),
        decreases c@.len() - i,
    {
        assert(c@.skip(i as int).skip(1) =~= c@.skip(i + 1));
        i = i + 1;
    }
    let ghost t = c@.skip(i as int);
    let mut j: usize = c.len();
    assert(t.take((j - i) as int) =~= t);
    while j > i && c[j - 1] == '"'
        invariant
            i <= j <= c@.len(),
            t == c@.skip(i as int),
            trim_leading_quotes(c@) == t,
            trim_trailing_quotes(t) == trim_trailing_quotes(t.take((j - i) as int)),
        decreases j,
    {
        assert(t.take((j - i) as int).drop_last() =~= t.take(j - 1 - i));
        j = j - 1;
    }
    let mut out: Vec<char> = Vec::new();
    let mut k: usize = i;
    while k < j
        invariant
            i <= k <= j,
            j <= c@.len(),
            out@ == c@.subrange(i as int, k as int),
        decreases j - k,
    {
        out.push(c[k]);
        k = k + 1;
        assert(out@ =~= c@.subrange(i as int, k as int));
    }
    assert(out@ =~= t.take((j - i) as int));
    string_of(&out)
}


/// `p` occurs in `s` at index `i`.
pub open spec fn occurs_at(s: Seq<char>, p: Seq<char>, i: int) -> bool {
    0 <= i && i + p.len() <= s.len() && s.subrange(i, i + p.len()) == p
}

/// No occurrence of `p` in `s` is directly followed by a separator.
pub open spec fn no_separator_after(s: Seq<char>, p: Seq<char>) -> bool {
    forall|i: int| #[trigger] occurs_at(s, p, i) && i + p.len() < s.len() ==> !is_separator(s[i + p.len()])
}

/// The macro token followed by a separator.
pub open spec fn dir_marker() -> Seq<char> {
    seq!['%', 'F', 'N', '%', '\\']
}

proof fn lemma_replace_keeps_single_separators(s: Seq<char>, p: Seq<char>, r: Seq<char>)
    requires
        p.len() > 0,
        no_double_separator(s),
        no_double_separator(r),
        r.len() > 0,
        !is_separator(r[0]),
        no_separator_after(s, p),
    ensures
        no_double_separator(replace_all(s, p, r)),
        replace_all(s, p, r).len() > 0 && is_separator(replace_all(s, p, r)[0]) ==> s.len() > 0
            && is_separator(s[0]),
    decreases s.len(),
{
    if s.len() < p.len() {
    } else if s.take(p.len() as int) == p {
        let n = p.len() as int;
        let rest = s.skip(n);
        assert forall|i: int| 0 <= i && i + 1 < rest.len() implies !(#[trigger] is_separator(rest[i])
            && is_separator(rest[i + 1])) by {
            assert(rest[i] == s[i + n]);
            assert(rest[i + 1] == s[i + n + 1]);
        }
        assert forall|i: int| #[trigger] occurs_at(rest, p, i) && i + n < rest.len() implies !is_separator(
            rest[i + n],
        ) by {
            assert(s.subrange(i + n, i + n + n) =~= rest.subrange(i, i + n));
            assert(occurs_at(s, p, i + n));
            assert(rest[i + n] == s[i + n + n]);
        }
        lemma_replace_keeps_single_separators(rest, p, r);
        let t = replace_all(rest, p, r);
        assert(s.subrange(0, n) =~= s.take(n));
        assert(occurs_at(s, p, 0));
        if rest.len() > 0 {
            assert(rest[0] == s[n]);
        }
        let res = r + t;
        assert forall|i: int| 0 <= i && i + 1 < res.len() implies !(#[trigger] is_separator(res[i])
            && is_separator(res[i + 1])) by {
            if i + 1 < r.len() {
                assert(res[i] == r[i] && res[i + 1] == r[i + 1]);
            } else if i + 1 == r.len() {
                assert(res[i + 1] == t[0]);
            } else {
                assert(res[i] == t[i - r.len()]);
                assert(res[i + 1] == t[i + 1 - r.len()]);
            }
        }
        assert(res[0] == r[0]);
    } else {
        let rest = s.skip(1);
        assert forall|i: int| 0 <= i && i + 1 < rest.len() implies !(#[trigger] is_separator(rest[i])
            && is_separator(rest[i + 1])) by {
            assert(rest[i] == s[i + 1]);
            assert(rest[i + 1] == s[i + 2]);
        }
        assert forall|i: int| #[trigger] occurs_at(rest, p, i) && i + p.len() < rest.len() implies !is_separator(
            rest[i + p.len()],
        ) by {
            assert(s.subrange(i + 1, i + 1 + p.len()) =~= rest.subrange(i, i + p.len()));
            assert(occurs_at(s, p, i + 1));
            assert(rest[i + p.len()] == s[i + 1 + p.len()]);
        }
        lemma_replace_keeps_single_separators(rest, p, r);
        let t = replace_all(rest, p, r);
        let res = seq![s[0]] + t;
        assert forall|i: int| 0 <= i && i + 1 < res.len() implies !(#[trigger] is_separator(res[i])
            && is_separator(res[i + 1])) by {
            if i == 0 {
                assert(res[1] == t[0]);
                if is_separator(t[0]) {
                    assert(rest[0] == s[1]);
                }
            } else {
                assert(res[i] == t[i - 1]);
                assert(res[i + 1] == t[i]);
            }
        }
    }
}

proof fn lemma_marker_replaced(s: Seq<char>, r: Seq<char>)
    requires
        r.len() > 0,
        !is_separator(r[0]),
        r.last() == '\\',
        forall|j: int| 0 <= j < r.len() ==> r[j] != '%',
    ensures
        forall|i: int| !occurs_at(replace_all(s, dir_marker(), r), dir_marker(), i),
        forall|k: int|
            1 <= k <= 4 && #[trigger] has_prefix(replace_all(s, dir_marker(), r), dir_marker().skip(k))
                ==> has_prefix(s, dir_marker().skip(k)),
    decreases s.len(),
{
    let m = dir_marker();
    let res = replace_all(s, m, r);
    if s.len() < m.len() {
    } else if s.take(5) == m {
        let rest = s.skip(5);
        lemma_marker_replaced(rest, r);
        let t = replace_all(rest, m, r);
        assert(res == r + t);
        assert forall|i: int| !occurs_at(res, m, i) by {
            if occurs_at(res, m, i) {
                assert(res.subrange(i, i + 5)[0] == m[0]);
                if i < r.len() {
                    assert(res[i] == r[i]);
                } else {
                    assert(res.subrange(i, i + 5) =~= t.subrange(i - r.len(), i - r.len() + 5));
                    assert(occurs_at(t, m, i - r.len()));
                }
            }
        }
        assert forall|k: int|
            1 <= k <= 4 && #[trigger] has_prefix(res, m.skip(k)) implies has_prefix(s, m.skip(k)) by {
            let q = m.skip(k);
            if k == 4 {
                assert(res.subrange(0, q.len() as int)[0] == q[0]);
                assert(res[0] == r[0]);
            } else {
                let j = 3 - k;
                if r.len() > j {
                    assert(res.subrange(0, q.len() as int)[j] == q[j]);
                    assert(res[j] == r[j]);
                    assert(q[j] == m[3]);
                } else {
                    let e = r.len() - 1;
                    assert(res.subrange(0, q.len() as int)[e] == q[e]);
                    assert(res[e] == r[e]);
                    assert(q[e] == m[k + e]);
                }
            }
        }
    } else {
        let rest = s.skip(1);
        lemma_marker_replaced(rest, r);
        let t = replace_all(rest, m, r);
        assert(res == seq![s[0]] + t);
        assert forall|i: int| !occurs_at(res, m, i) by {
            if occurs_at(res, m, i) {
                if i == 0 {
                    assert(t.subrange(0, 4) =~= res.subrange(1, 5));
                    assert(res.subrange(1, 5) =~= m.skip(1));
                    assert(has_prefix(t, m.skip(1)));
                    assert(has_prefix(rest, m.skip(1)));
                    assert(res.subrange(0, 5)[0] == m[0]);
                    assert(s.take(5) =~= m) by {
                        assert forall|j: int| 1 <= j < 5 implies s[j] == m[j] by {
                            assert(rest.subrange(0, 4)[j - 1] == m.skip(1)[j - 1]);
                        }
                    }
                } else {
                    assert(res.subrange(i, i + 5) =~= t.subrange(i - 1, i + 4));
                    assert(occurs_at(t, m, i - 1));
                }
            }
        }
        assert forall|k: int|
            1 <= k <= 4 && #[trigger] has_prefix(res, m.skip(k)) implies has_prefix(s, m.skip(k)) by {
            let q = m.skip(k);
            assert(res.subrange(0, q.len() as int)[0] == q[0]);
            if k < 4 {
                assert(t.subrange(0, q.len() - 1) =~= res.subrange(1, q.len() as int));
                assert(res.subrange(1, q.len() as int) =~= m.skip(k + 1)) by {
                    assert forall|j: int| 0 <= j < q.len() - 1 implies res.subrange(1, q.len() as int)[j]
                        == m.skip(k + 1)[j] by {
                        assert(res.subrange(0, q.len() as int)[j + 1] == q[j + 1]);
                    }
                }
                assert(has_prefix(t, m.skip(k + 1)));
                assert(has_prefix(rest, m.skip(k + 1)));
                assert(s.subrange(0, q.len() as int) =~= q) by {
                    assert forall|j: int| 1 <= j < q.len() implies s[j] == q[j] by {
                        assert(rest.subrange(0, q.len() - 1)[j - 1] == m.skip(k + 1)[j - 1]);
                    }
                }
            } else {
                assert(s.subrange(0, q.len() as int) =~= q);
            }
        }
    }
}

/// Substituting a well-formed directory (not empty, not starting with a
/// separator, without `%`, without two adjacent separators) into a
/// descriptor without two adjacent separators yields none: the token
/// followed by a separator takes the directory's own final separator.
pub proof fn lemma_substitution_single_separators(text: Seq<char>, dir: Seq<char>)
    requires
        no_double_separator(text),
        no_double_separator(dir),
        dir.len() > 0,
        !is_separator(dir[0]),
        forall|j: int| 0 <= j < dir.len() ==> dir[j] != '%',
    ensures
        no_double_separator(substitute_macro(text, dir)),
{
    let d = with_trailing_separator(dir);
    assert(d[0] == dir[0]);
    assert forall|j: int| 0 <= j < d.len() implies d[j] != '%' by {
        if j < dir.len() {
            assert(d[j] == dir[j]);
        }
    }
    assert forall|i: int| 0 <= i && i + 1 < d.len() implies !(#[trigger] is_separator(d[i])
        && is_separator(d[i + 1])) by {
        assert(d[i] == dir[i]);
        if i + 1 < dir.len() {
            assert(d[i + 1] == dir[i + 1]);
        }
    }
    let m = dir_marker();
    assert(m =~= macro_token().push('\\'));
    assert forall|i: int| #[trigger] occurs_at(text, m, i) && i + m.len() < text.len() implies !is_separator(
        text[i + m.len()],
    ) by {
        assert(text.subrange(i, i + 5)[4] == m[4]);
        assert(text[i + 4] == '\\');
    }
    lemma_replace_keeps_single_separators(text, m, d);
    let first = replace_all(text, m, d);
    lemma_marker_replaced(text, d);
    let bare = macro_token();
    assert forall|i: int| #[trigger] occurs_at(first, bare, i) && i + bare.len() < first.len() implies !is_separator(
        first[i + bare.len()],
    ) by {
        if is_separator(first[i + 4]) {
            assert(first.subrange(i, i + 5) =~= m) by {
                assert forall|j: int| 0 <= j < 4 implies first[i + j] == m[j] by {
                    assert(first.subrange(i, i + 4)[j] == bare[j]);
                }
            }
            assert(occurs_at(first, m, i));
        }
    }
    lemma_replace_keeps_single_separators(first, bare, d);
}

} // verus!
