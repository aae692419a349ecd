//! Character-level text utilities shared by the report parsers: line
//! splitting, whitespace tokenization, prefix tests and trailing
//! whitespace removal, each pinned to a spec-level definition over
//! `Seq<char>`.

use vstd::prelude::*;

verus! {

/// The characters that separate fields inside one report line.
pub open spec fn is_space(c: char) -> bool {
    c == ' ' || c == '\t'
}

/// The characters removed from the end of a display line.
pub open spec fn is_blank(c: char) -> bool {
    c == ' ' || c == '\t' || c == '\r' || c == '\n'
}

/// Index of the first line feed of `s`, or `s.len()` when there is
/// none.
pub open spec fn spec_find_nl(s: Seq<char>) -> nat
    decreases s.len(),
{
    if s.len() == 0 {
        0
    } else if s[0] == '\n' {
        0
    } else {
        1 + spec_find_nl(s.drop_first())
    }
}

pub proof fn lemma_find_nl(s: Seq<char>)
    ensures
        spec_find_nl(s) <= s.len(),
        forall|j: int| 0 <= j < spec_find_nl(s) ==> s[j] != '\n',
        spec_find_nl(s) < s.len() ==> s[spec_find_nl(s) as int] == '\n',
    decreases s.len(),
{
    if s.len() == 0 {
    } else if s[0] == '\n' {
    } else {
        lemma_find_nl(s.drop_first());
        assert forall|j: int| 0 <= j < spec_find_nl(s) implies s[j] != '\n' by {
            if j > 0 {
                assert(s.drop_first()[j - 1] == s[j]);
            }
        }
        if spec_find_nl(s) < s.len() {
            assert(s.drop_first()[spec_find_nl(s.drop_first()) as int]
                == s[spec_find_nl(s) as int]);
        }
    }
}

/// A line body with one trailing carriage return removed, as the
/// line-splitting rule demands before a line feed.
pub open spec fn strip_cr(l: Seq<char>) -> Seq<char> {
    if l.len() > 0 && l.last() == '\r' {
        l.drop_last()
    } else {
        l
    }
}

/// The lines of `s`: split at each line feed, with one carriage
/// return stripped from the end of a body that a line feed closes; a
/// final body without a line feed is kept as written, and a final
/// line feed closes the last line rather than opening an empty one.
pub open spec fn spec_lines(s: Seq<char>) -> Seq<Seq<char>>
    decreases s.len(),
{
    if s.len() == 0 {
        Seq::empty()
    } else {
        let i = spec_find_nl(s);
        if i >= s.len() {
            seq![s]
        } else {
            seq![strip_cr(s.take(i as int))] + spec_lines(s.skip(i as int + 1))
        }
    }
}

/// Number of characters in the field that starts `s`: the count of
/// leading non-separator characters.
pub open spec fn spec_token_len(s: Seq<char>) -> nat
    decreases s.len(),
{
    if s.len() == 0 || is_space(s[0]) {
        0
    } else {
        1 + spec_token_len(s.drop_first())
    }
}

pub proof fn lemma_token_len(s: Seq<char>)
    ensures
        spec_token_len(s) <= s.len(),
        forall|j: int| 0 <= j < spec_token_len(s) ==> !is_space(s[j]),
        spec_token_len(s) < s.len() ==> is_space(s[spec_token_len(s) as int]),
    decreases s.len(),
{
    if s.len() == 0 || is_space(s[0]) {
    } else {
        lemma_token_len(s.drop_first());
        assert forall|j: int| 0 <= j < spec_token_len(s) implies !is_space(s[j]) by {
            if j > 0 {
                assert(s.drop_first()[j - 1] == s[j]);
            }
        }
        if spec_token_len(s) < s.len() {
            assert(s.drop_first()[spec_token_len(s.drop_first()) as int]
                == s[spec_token_len(s) as int]);
        }
    }
}

/// The whitespace-delimited fields of `s`, in order, each non-empty
/// and free of separator characters.
pub open spec fn spec_tokens(s: Seq<char>) -> Seq<Seq<char>>
    decreases s.len(),
{
    if s.len() == 0 {
        Seq::empty()
    } else if is_space(s[0]) {
        spec_tokens(s.drop_first())
    } else {
        let e = spec_token_len(s);
        if e >= s.len() {
            seq![s]
        } else {
            seq![s.take(e as int)] + spec_tokens(s.skip(e as int))
        }
    }
}

/// Tokenization ignores any run of leading separator characters.
pub proof fn lemma_tokens_skip_spaces(s: Seq<char>, k: int)
    requires
        0 <= k <= s.len(),
        forall|j: int| 0 <= j < k ==> is_space(s[j]),
    ensures
        spec_tokens(s) == spec_tokens(s.skip(k)),
    decreases k,
{
    if k > 0 {
        assert(spec_tokens(s) == spec_tokens(s.drop_first()));
        lemma_tokens_skip_spaces(s.drop_first(), k - 1);
        assert(s.drop_first().skip(k - 1) =~= s.skip(k));
    } else {
        assert(s.skip(0) =~= s);
    }
}

/// `s` with every trailing blank character removed.
pub open spec fn spec_trim_end(s: Seq<char>) -> Seq<char>
    decreases s.len(),
{
    if s.len() == 0 {
        s
    } else if is_blank(s.last()) {
        spec_trim_end(s.drop_last())
    } else {
        s
    }
}

pub proof fn lemma_trim_end(s: Seq<char>, e: int)
    requires
        0 <= e <= s.len(),
        forall|k: int| e <= k < s.len() ==> is_blank(s[k]),
        e > 0 ==> !is_blank(s[e - 1]),
    ensures
        spec_trim_end(s) == s.take(e),
    decreases s.len(),
{
    if s.len() == 0 {
        assert(s.take(0) =~= s);
    } else if e == s.len() {
        assert(!is_blank(s.last()));
        assert(s.take(e) =~= s);
    } else {
        assert(is_blank(s.last()));
        lemma_trim_end(s.drop_last(), e);
        assert(s.drop_last().take(e) =~= s.take(e));
    }
}

/// The parent directory of a slash-separated path: the characters
/// before the last slash, or the empty sequence for a path without
/// one.
pub open spec fn parent_of(p: Seq<char>) -> Seq<char>
    decreases p.len(),
{
    if p.len() == 0 {
        p
    } else if p.last() == '/' {
        p.drop_last()
    } else {
        parent_of(p.drop_last())
    }
}

pub proof fn lemma_parent_of(p: Seq<char>, e: int)
    requires
        -1 <= e < p.len(),
        forall|k: int| e < k < p.len() ==> p[k] != '/',
        e >= 0 ==> p[e] == '/',
    ensures
        e >= 0 ==> parent_of(p) == p.take(e),
        e < 0 ==> parent_of(p) == Seq::<char>::empty(),
    decreases p.len(),
{
    if p.len() == 0 {
        assert(p =~= Seq::<char>::empty());
    } else if p.last() == '/' {
        assert(e == p.len() - 1);
        assert(p.drop_last() =~= p.take(e));
    } else {
        assert(e < p.len() - 1);
        lemma_parent_of(p.drop_last(), e);
        if e >= 0 {
            assert(p.drop_last().take(e) =~= p.take(e));
        }
    }
}

/// The parent directory of `path`, exactly as [`parent_of`]
/// describes.
pub fn parent_dir(path: &str) -> (r: String)
    ensures
        r@ == parent_of(path@),
{
    let n = path.unicode_len();
    let mut e = n;
    while e > 0 && path.get_char(e - 1) != '/'
        invariant
            e <= n,
            n == path@.len(),
            forall|k: int| e <= k < n ==> path@[k] != '/',
        decreases e,
    {
        e -= 1;
    }
    if e == 0 {
        proof {
            lemma_parent_of(path@, -1);
        }
        String::new()
    } else {
        proof {
            lemma_parent_of(path@, e - 1);
        }
        path.substring_char(0, e - 1).to_owned()
    }
}

/// First index at or beyond `from` that holds a line feed, or the
/// length when there is none.
fn find_nl_from(s: &str, n: usize, from: usize) -> (r: usize)
    requires
        n == s@.len(),
        from <= n,
    ensures
        from <= r <= n,
        forall|k: int| from <= k < r ==> s@[k] != '\n',
        r < n ==> s@[r as int] == '\n',
{
    let mut j = from;
    while j < n
        invariant
            from <= j <= n,
            n == s@.len(),
            forall|k: int| from <= k < j ==> s@[k] != '\n',
        decreases n - j,
    {
        if s.get_char(j) == '\n' {
            return j;
        }
        j += 1;
    }
    j
}

/// Splits `s` into its lines, exactly as [`spec_lines`] describes.
pub fn split_lines(s: &str) -> (r: Vec<String>)
    ensures
        r.deep_view() == spec_lines(s@),
{
    let n = s.unicode_len();
    let mut out: Vec<String> = Vec::new();
    let mut pos: usize = 0;
    proof {
        assert(s@.skip(0) =~= s@);
        assert(out.deep_view() =~= Seq::<Seq<char>>::empty());
        assert(out.deep_view() + spec_lines(s@) =~= spec_lines(s@));
    }
    while pos < n
        invariant
            pos <= n,
            n == s@.len(),
            spec_lines(s@) == out.deep_view() + spec_lines(s@.skip(pos as int)),
        decreases n - pos,
    {
        let ghost prefix_view = out.deep_view();
        let ghost t = s@.skip(pos as int);
        let j = find_nl_from(s, n, pos);
        proof {
            lemma_find_nl(t);
            assert forall|k: int| 0 <= k < j - pos implies t[k] != '\n' by {
                assert(t[k] == s@[pos + k]);
            }
            if (j as int) < n {
                assert(t[j - pos] == s@[j as int]);
            }
            // both j - pos and spec_find_nl(t) are the least line
            // feed position of t, hence equal
            if spec_find_nl(t) < j - pos {
                assert(s@[pos + spec_find_nl(t)] == t[spec_find_nl(t) as int]);
            }
            assert(spec_find_nl(t) == j - pos);
        }
        if j == n {
            let line = s.substring_char(pos, n).to_owned();
            proof {
                assert(line@ =~= t);
                assert(spec_lines(t) =~= seq![t]);
                assert(out.deep_view().push(line@) =~= prefix_view + seq![t]);
                assert(prefix_view + seq![t] + Seq::<Seq<char>>::empty() =~= prefix_view
                    + seq![t]);
                assert(s@.skip(n as int) =~= Seq::<char>::empty());
            }
            out.push(line);
            pos = n;
        } else {
            let line_end = if j > pos && s.get_char(j - 1) == '\r' {
                j - 1
            } else {
                j
            };
            let line = s.substring_char(pos, line_end).to_owned();
            proof {
                let body = t.take(j - pos);
                if j > pos && s@[j - 1] == '\r' {
                    assert(body.last() == s@[j - 1]);
                    assert(line@ =~= body.drop_last());
                    assert(line@ =~= strip_cr(body));
                } else {
                    if body.len() > 0 {
                        assert(body.last() == s@[j - 1]);
                    }
                    assert(line@ =~= body);
                    assert(line@ =~= strip_cr(body));
                }
                assert(spec_lines(t) == seq![strip_cr(body)] + spec_lines(
                    t.skip(j - pos + 1),
                ));
                assert(t.skip(j - pos + 1) =~= s@.skip(j + 1));
                assert(prefix_view + spec_lines(t) =~= (prefix_view + seq![line@])
                    + spec_lines(s@.skip(j + 1)));
            }
            out.push(line);
            proof {
                assert(out.deep_view() =~= prefix_view + seq![line@]);
            }
            pos = j + 1;
        }
    }
    proof {
        assert(s@.skip(n as int) =~= Seq::<char>::empty());
        assert(out.deep_view() =~= out.deep_view() + spec_lines(s@.skip(pos as int)));
    }
    out
}

/// Splits `s` into its whitespace-delimited fields, exactly as
/// [`spec_tokens`] describes.
pub fn tokens(s: &str) -> (r: Vec<String>)
    ensures
        r.deep_view() == spec_tokens(s@),
{
    let n = s.unicode_len();
    let mut out: Vec<String> = Vec::new();
    let mut pos: usize = 0;
    proof {
        assert(s@.skip(0) =~= s@);
        assert(out.deep_view() =~= Seq::<Seq<char>>::empty());
        assert(out.deep_view() + spec_tokens(s@) =~= spec_tokens(s@));
    }
    while pos < n
        invariant
            pos <= n,
            n == s@.len(),
            spec_tokens(s@) == out.deep_view() + spec_tokens(s@.skip(pos as int)),
        decreases n - pos,
    {
        let ghost prefix_view = out.deep_view();
        // skip separators
        let mut b = pos;
        while b < n && is_space_char(s.get_char(b))
            invariant
                pos <= b <= n,
                n == s@.len(),
                forall|k: int| pos <= k < b ==> is_space(s@[k]),
            decreases n - b,
        {
            b += 1;
        }
        proof {
            let t = s@.skip(pos as int);
            assert forall|k: int| 0 <= k < b - pos implies is_space(t[k]) by {
                assert(t[k] == s@[pos + k]);
            }
            lemma_tokens_skip_spaces(t, b - pos);
            assert(t.skip(b - pos) =~= s@.skip(b as int));
        }
        if b == n {
            proof {
                assert(s@.skip(n as int) =~= Seq::<char>::empty());
                assert(out.deep_view() =~= prefix_view + spec_tokens(s@.skip(n as int)));
            }
            pos = n;
        } else {
            let ghost u = s@.skip(b as int);
            // scan the field
            let mut e = b;
            while e < n && !is_space_char(s.get_char(e))
                invariant
                    b <= e <= n,
                    n == s@.len(),
                    forall|k: int| b <= k < e ==> !is_space(s@[k]),
                decreases n - e,
            {
                e += 1;
            }
            proof {
                lemma_token_len(u);
                assert forall|k: int| 0 <= k < e - b implies !is_space(u[k]) by {
                    assert(u[k] == s@[b + k]);
                }
                if (e as int) < n {
                    assert(u[e - b] == s@[e as int]);
                }
                if spec_token_len(u) < e - b {
                    assert(s@[b + spec_token_len(u)] == u[spec_token_len(u) as int]);
                }
                assert(spec_token_len(u) == e - b);
            }
            let tok = s.substring_char(b, e).to_owned();
            proof {
                assert(!is_space(u[0]));
                if e == n {
                    assert(tok@ =~= u);
                    assert(spec_tokens(u) =~= seq![u]);
                    assert(s@.skip(n as int) =~= Seq::<char>::empty());
                    assert(prefix_view + spec_tokens(u) =~= (prefix_view + seq![tok@])
                        + spec_tokens(s@.skip(n as int)));
                } else {
                    assert(tok@ =~= u.take(e - b));
                    assert(spec_tokens(u) == seq![u.take(e - b)] + spec_tokens(
                        u.skip(e - b),
                    ));
                    assert(u.skip(e - b) =~= s@.skip(e as int));
                    assert(prefix_view + spec_tokens(u) =~= (prefix_view + seq![tok@])
                        + spec_tokens(s@.skip(e as int)));
                }
            }
            out.push(tok);
            proof {
                assert(out.deep_view() =~= prefix_view + seq![tok@]);
            }
            pos = e;
        }
    }
    proof {
        assert(s@.skip(n as int) =~= Seq::<char>::empty());
        assert(out.deep_view() =~= out.deep_view() + spec_tokens(s@.skip(pos as int)));
    }
    out
}

/// Executable form of [`is_space`].
pub fn is_space_char(c: char) -> (r: bool)
    ensures
        r == is_space(c),
{
    c == ' ' || c == '\t'
}

/// Executable form of [`is_blank`].
pub fn is_blank_char(c: char) -> (r: bool)
    ensures
        r == is_blank(c),
{
    c == ' ' || c == '\t' || c == '\r' || c == '\n'
}

/// True when `p` is a prefix of `s`.
pub open spec fn spec_starts_with(s: Seq<char>, p: Seq<char>) -> bool {
    p.len() <= s.len() && s.take(p.len() as int) == p
}

pub fn starts_with(s: &str, p: &str) -> (r: bool)
    ensures
        r == spec_starts_with(s@, p@),
{
    let n = s.unicode_len();
    let m = p.unicode_len();
    if m > n {
        proof {
            assert(!spec_starts_with(s@, p@));
        }
        return false;
    }
    let mut i: usize = 0;
    while i < m
        invariant
            i <= m,
            m <= n,
            n == s@.len(),
            m == p@.len(),
            forall|k: int| 0 <= k < i ==> s@[k] == p@[k],
        decreases m - i,
    {
        if s.get_char(i) != p.get_char(i) {
            proof {
                assert(s@.take(m as int)[i as int] != p@[i as int]);
            }
            return false;
        }
        i += 1;
    }
    proof {
        assert(s@.take(m as int) =~= p@);
    }
    true
}

/// Removes every trailing blank character of `s`, exactly as
/// [`spec_trim_end`] describes.
pub fn trim_end(s: &str) -> (r: String)
    ensures
        r@ == spec_trim_end(s@),
{
    let n = s.unicode_len();
    let mut e = n;
    while e > 0 && is_blank_char(s.get_char(e - 1))
        invariant
            e <= n,
            n == s@.len(),
            forall|k: int| e <= k < n ==> is_blank(s@[k]),
        decreases e,
    {
        e -= 1;
    }
    proof {
        lemma_trim_end(s@, e as int);
    }
    s.substring_char(0, e).to_owned()
}

} // verus!
