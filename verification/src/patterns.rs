//! Exclusion patterns read from text: `.gitignore` files and the packaged
//! default exclusion list. One pattern per line; blank lines and comment lines
//! are skipped.
use vstd::prelude::*;
use crate::text::{chars_of, starts_with, string_from, trim};

verus! {

/// Index of the first `c` in `s`, or `s.len()` when there is none.
pub open spec fn first_index_of(s: Seq<char>, c: char) -> nat
    decreases s.len(),
{
    if s.len() == 0 || s[0] == c {
        0
    } else {
        1 + first_index_of(s.drop_first(), c)
    }
}

proof fn lemma_first_index_of(s: Seq<char>, c: char)
    ensures
        first_index_of(s, c) <= s.len(),
        forall|k: int| 0 <= k < first_index_of(s, c) ==> s[k] != c,
        first_index_of(s, c) < s.len() ==> s[first_index_of(s, c) as int] == c,
    decreases s.len(),
{
    if s.len() > 0 && s[0] != c {
        lemma_first_index_of(s.drop_first(), c);
        assert forall|k: int| 0 <= k < first_index_of(s, c) implies s[k] != c by {
            if k > 0 {
                assert(s[k] == s.drop_first()[k - 1]);
            }
        }
    }
}

/// `s` without one trailing carriage return.
pub open spec fn strip_cr(s: Seq<char>) -> Seq<char> {
    if s.len() > 0 && s.last() == '\r' {
        s.drop_last()
    } else {
        s
    }
}

/// The lines of `s` (`str::lines`): split at `\n`, a `\r` before the `\n`
/// dropped, and no empty line after a final `\n`.
pub open spec fn lines_spec(s: Seq<char>) -> Seq<Seq<char>>
    decreases s.len(),
{
    if s.len() == 0 {
        Seq::empty()
    } else {
        let k = first_index_of(s, '\n');
        if k >= s.len() {
            seq![s]
        } else {
            seq![strip_cr(s.take(k as int))] + lines_spec(s.skip(k as int + 1))
        }
    }
}

/// The patterns among `lines`: each line trimmed, kept unless blank or a comment.
pub open spec fn patterns_of(lines: Seq<Seq<char>>, comment: Seq<char>) -> Seq<Seq<char>>
    decreases lines.len(),
{
    if lines.len() == 0 {
        Seq::empty()
    } else {
        let t = crate::text::trim_ws(lines[0]);
        let rest = patterns_of(lines.drop_first(), comment);
        if t.len() > 0 && !crate::text::has_prefix(t, comment) {
            seq![t] + rest
        } else {
            rest
        }
    }
}

/// The patterns in `content`, comment lines starting with `comment`.
pub open spec fn parse_patterns_spec(content: Seq<char>, comment: Seq<char>) -> Seq<Seq<char>> {
    patterns_of(lines_spec(content), comment)
}

proof fn lemma_patterns_of_append(a: Seq<Seq<char>>, b: Seq<Seq<char>>, comment: Seq<char>)
    ensures
        patterns_of(a + b, comment) == patterns_of(a, comment) + patterns_of(b, comment),
    decreases a.len(),
{
    if a.len() == 0 {
        assert(a + b =~= b);
    } else {
        lemma_patterns_of_append(a.drop_first(), b, comment);
        assert((a + b).drop_first() =~= a.drop_first() + b);
        assert((a + b)[0] == a[0]);
    }
}

/// The patterns in `content` (see `parse_patterns_spec`).
pub fn parse_patterns(content: &str, comment: &str) -> (r: Vec<String>)
    ensures
        crate::models::strings_view(r@) == parse_patterns_spec(content@, comment@),
{
    let s = chars_of(content);
    let c = chars_of(comment);
    let n = s.len();
    let mut r: Vec<String> = Vec::new();
    let mut i: usize = 0;
    assert(s@.skip(0) =~= s@);
    while i < n
        invariant
            0 <= i <= n,
            n == s@.len(),
            c@ == comment@,
            crate::models::strings_view(r@) + parse_patterns_spec(s@.skip(i as int), comment@)
                == parse_patterns_spec(s@, comment@),
        decreases n - i,
    {
        let ghost rest = s@.skip(i as int);
        let mut j: usize = i;
        while j < n && s[j] != '\n'
            invariant
                i <= j <= n,
                n == s@.len(),
                forall|k: int| i <= k < j ==> s@[k] != '\n',
            decreases n - j,
        {
            j = j + 1;
        }
        let mut line: Vec<char> = Vec::new();
        let mut k: usize = i;
        while k < j
            invariant
                i <= k <= j <= n,
                n == s@.len(),
                line@ == s@.subrange(i as int, k as int),
            decreases j - k,
        {
            line.push(s[k]);
            k = k + 1;
        }
        if j < n && line.len() > 0 && line[line.len() - 1] == '\r' {
            line.pop();
        }
        let ghost ln = if j < n { strip_cr(s@.subrange(i as int, j as int)) } else { s@.subrange(i as int, j as int) };
        proof {
            lemma_first_index_of(rest, '\n');
            let f = first_index_of(rest, '\n');
            if (f as int) < j - i {
                assert(rest[f as int] == s@[i + f]);
            }
            if j < n {
                assert(rest[j - i] == s@[j as int]);
                assert(!((f as int) > j - i));
            }
            assert(f == j - i);
            assert(rest.take(j - i) =~= s@.subrange(i as int, j as int));
            assert(line@ == ln);
            let nexti = if j < n { j + 1 } else { j as int };
            if j < n {
                assert(rest.skip(j - i + 1) =~= s@.skip(j + 1));
                assert(lines_spec(rest) == seq![ln] + lines_spec(s@.skip(j + 1)));
            } else {
                assert(rest =~= s@.subrange(i as int, j as int));
                assert(lines_spec(rest) == seq![ln]);
                assert(s@.skip(j as int) =~= Seq::<char>::empty());
                assert(lines_spec(s@.skip(j as int)) =~= Seq::<Seq<char>>::empty());
                assert(seq![ln] + lines_spec(s@.skip(j as int)) =~= seq![ln]);
            }
            lemma_patterns_of_append(seq![ln], lines_spec(s@.skip(nexti)), comment@);
            assert(seq![ln].drop_first() =~= Seq::<Seq<char>>::empty());
            assert(parse_patterns_spec(rest, comment@) == patterns_of(seq![ln], comment@) + parse_patterns_spec(s@.skip(nexti), comment@));
        }
        let t = trim(&line);
        let ghost before = crate::models::strings_view(r@);
        let ghost pl = patterns_of(seq![ln], comment@);
        proof {
            assert(seq![ln][0] == ln);
            assert(patterns_of(seq![ln].drop_first(), comment@) =~= Seq::<Seq<char>>::empty());
        }
        if t.len() > 0 && !starts_with(&t, &c) {
            r.push(string_from(t.as_slice()));
            assert(pl =~= seq![t@]);
            assert(crate::models::strings_view(r@) =~= before + pl);
        } else {
            assert(pl =~= Seq::<Seq<char>>::empty());
            assert(crate::models::strings_view(r@) =~= before + pl);
        }
        let ghost nexti: int = if j < n { j + 1 } else { j as int };
        assert(crate::models::strings_view(r@) + parse_patterns_spec(s@.skip(nexti), comment@) =~= before + (pl
            + parse_patterns_spec(s@.skip(nexti), comment@)));
        if j < n {
            i = j + 1;
        } else {
            i = j;
        }
    }
    assert(s@.skip(n as int) =~= Seq::<char>::empty());
    assert(parse_patterns_spec(Seq::<char>::empty(), comment@) =~= Seq::<Seq<char>>::empty());
    assert(crate::models::strings_view(r@) + Seq::<Seq<char>>::empty() =~= crate::models::strings_view(r@));
    r
}

/// Every pattern read is non-empty, has no surrounding whitespace and is not
/// a comment.
pub proof fn lemma_patterns_are_clean(lines: Seq<Seq<char>>, comment: Seq<char>)
    ensures
        forall|i: int|
            0 <= i < patterns_of(lines, comment).len() ==> {
                let p = #[trigger] patterns_of(lines, comment)[i];
                p.len() > 0 && !crate::text::has_prefix(p, comment) && crate::text::trim_ws(p) == p
            },
    decreases lines.len(),
{
    if lines.len() > 0 {
        lemma_patterns_of_append(seq![lines[0]], lines.drop_first(), comment);
        lemma_patterns_are_clean(lines.drop_first(), comment);
        let t = crate::text::trim_ws(lines[0]);
        crate::text::lemma_trim_idempotent(lines[0]);
        let r = patterns_of(lines, comment);
        let rest = patterns_of(lines.drop_first(), comment);
        if t.len() > 0 && !crate::text::has_prefix(t, comment) {
            assert forall|i: int| 0 <= i < r.len() implies {
                let p = #[trigger] r[i];
                p.len() > 0 && !crate::text::has_prefix(p, comment) && crate::text::trim_ws(p) == p
            } by {
                if i > 0 {
                    assert(r[i] == rest[i - 1]);
                }
            }
        }
    }
}

} // verus!
