//! The rsync invocation of a backup rule, and the reading of rsync's progress
//! output.
use vstd::prelude::*;
use crate::models::{BackupRule, BackupRuleView};
use crate::text::{chars_of, is_whitespace, push_str, string_from};

verus! {

// ---------------------------------------------------------------- arguments

/// `prefix` followed by `s`, for each `s`.
pub open spec fn prefixed(prefix: Seq<char>, items: Seq<Seq<char>>) -> Seq<Seq<char>> {
    items.map_values(|s: Seq<char>| prefix + s)
}

/// The optional argument `prefix` + `o` when `o` is present.
pub open spec fn optional_arg(prefix: Seq<char>, o: Option<Seq<char>>) -> Seq<Seq<char>> {
    match o {
        Some(s) => seq![prefix + s],
        None => Seq::empty(),
    }
}

/// The arguments rsync is run with for a rule: archive, verbose, compressed,
/// with progress (`-avzP`); `--delete` when the rule mirrors exactly; one
/// `--exclude=` per pattern; `--exclude-from=` the source's `.gitignore` when
/// one was found; `--link-dest=` the previous snapshot for incremental rules;
/// then the source and the destination.
pub open spec fn rsync_args_spec(
    rule: BackupRuleView,
    gitignore: Option<Seq<char>>,
    link_dest: Option<Seq<char>>,
    final_dest: Seq<char>,
) -> Seq<Seq<char>> {
    seq!["-avzP"@] + (if rule.delete_missing {
        seq!["--delete"@]
    } else {
        Seq::empty()
    }) + prefixed("--exclude="@, rule.exclude) + optional_arg("--exclude-from="@, gitignore)
        + optional_arg("--link-dest="@, link_dest) + seq![rule.source_path, final_dest]
}

fn prefixed_string(prefix: &str, s: &str) -> (r: String)
    ensures
        r@ == prefix@ + s@,
{
    crate::text::concat(prefix, s)
}

/// See `rsync_args_spec`.
pub fn rsync_args(
    rule: &BackupRule,
    gitignore: &Option<String>,
    link_dest: &Option<String>,
    final_dest: &str,
) -> (args: Vec<String>)
    ensures
        crate::models::strings_view(args@) == rsync_args_spec(
            rule@,
            crate::models::opt_view(*gitignore),
            crate::models::opt_view(*link_dest),
            final_dest@,
        ),
{
    let mut args: Vec<String> = Vec::new();
    args.push("-avzP".to_owned());
    if rule.delete_missing {
        args.push("--delete".to_owned());
    }
    let ghost head = crate::models::strings_view(args@);
    let mut i: usize = 0;
    while i < rule.exclude.len()
        invariant
            0 <= i <= rule.exclude@.len(),
            crate::models::strings_view(args@) == head + prefixed(
                "--exclude="@,
                crate::models::strings_view(rule.exclude@).take(i as int),
            ),
        decreases rule.exclude.len() - i,
    {
        let a = prefixed_string("--exclude=", rule.exclude[i].as_str());
        let ghost before = crate::models::strings_view(args@);
        args.push(a);
        let ghost taken = crate::models::strings_view(rule.exclude@).take(i as int);
        let ghost e = rule.exclude@[i as int]@;
        assert(crate::models::strings_view(rule.exclude@).take(i + 1) =~= taken.push(e));
        assert(prefixed("--exclude="@, taken.push(e)) =~= prefixed("--exclude="@, taken).push(
            "--exclude="@ + e,
        ));
        assert(crate::models::strings_view(args@) =~= before.push("--exclude="@ + e));
        assert(crate::models::strings_view(args@) =~= head + prefixed(
            "--exclude="@,
            crate::models::strings_view(rule.exclude@).take(i + 1),
        ));
        i = i + 1;
    }
    assert(crate::models::strings_view(rule.exclude@).take(rule.exclude@.len() as int) =~= crate::models::strings_view(
        rule.exclude@,
    ));
    let ghost mid = crate::models::strings_view(args@);
    match gitignore {
        Some(g) => args.push(prefixed_string("--exclude-from=", g.as_str())),
        None => {},
    }
    assert(crate::models::strings_view(args@) =~= mid + optional_arg("--exclude-from="@, crate::models::opt_view(*gitignore)));
    let ghost mid2 = crate::models::strings_view(args@);
    match link_dest {
        Some(l) => args.push(prefixed_string("--link-dest=", l.as_str())),
        None => {},
    }
    assert(crate::models::strings_view(args@) =~= mid2 + optional_arg("--link-dest="@, crate::models::opt_view(*link_dest)));
    let ghost mid3 = crate::models::strings_view(args@);
    args.push(rule.source_path.clone());
    args.push(final_dest.to_owned());
    assert(crate::models::strings_view(args@) =~= mid3 + seq![rule@.source_path, final_dest@]);
    assert(crate::models::strings_view(args@) =~= rsync_args_spec(
        rule@,
        crate::models::opt_view(*gitignore),
        crate::models::opt_view(*link_dest),
        final_dest@,
    ));
    args
}

/// The options of a rule's rsync invocation (everything before the source and
/// the destination) hold `--delete` exactly when the rule mirrors deletions,
/// pass every exclusion pattern as `--exclude=pattern` in the rule's order, and
/// the invocation ends with the source and the destination.
pub proof fn lemma_rsync_args_shape(
    rule: BackupRuleView,
    gitignore: Option<Seq<char>>,
    link_dest: Option<Seq<char>>,
    final_dest: Seq<char>,
)
    ensures
        ({
            let args = rsync_args_spec(rule, gitignore, link_dest, final_dest);
            let options = args.take(args.len() - 2);
            let d: int = if rule.delete_missing { 1 } else { 0 };
            &&& args.len() >= 3
            &&& args.len() == 3 + d + rule.exclude.len() + (if gitignore is Some { 1int } else { 0int })
                + (if link_dest is Some { 1int } else { 0int })
            &&& args[0] == "-avzP"@
            &&& args[args.len() - 2] == rule.source_path
            &&& args[args.len() - 1] == final_dest
            &&& options.contains("--delete"@) <==> rule.delete_missing
            &&& forall|k: int| 0 <= k < rule.exclude.len() ==> #[trigger] args[1 + d + k] == "--exclude="@ + rule.exclude[k]
        }),
{
    reveal_strlit("--delete");
    reveal_strlit("-avzP");
    reveal_strlit("--exclude=");
    reveal_strlit("--exclude-from=");
    reveal_strlit("--link-dest=");
    let args = rsync_args_spec(rule, gitignore, link_dest, final_dest);
    let del: Seq<Seq<char>> = if rule.delete_missing { seq!["--delete"@] } else { Seq::empty() };
    let ex = prefixed("--exclude="@, rule.exclude);
    let g = optional_arg("--exclude-from="@, gitignore);
    let l = optional_arg("--link-dest="@, link_dest);
    let options = seq!["-avzP"@] + del + ex + g + l;
    assert(args =~= options + seq![rule.source_path, final_dest]);
    assert(args.take(args.len() - 2) =~= options);
    let d: int = if rule.delete_missing { 1 } else { 0 };
    assert forall|k: int| 0 <= k < rule.exclude.len() implies #[trigger] args[1 + d + k] == "--exclude="@ + rule.exclude[k] by {
        assert(args[1 + d + k] == options[1 + d + k]);
        assert(options[1 + d + k] == ex[k]);
    }
    if rule.delete_missing {
        assert(options[1] == "--delete"@);
    } else {
        assert forall|i: int| 0 <= i < options.len() implies options[i] != "--delete"@ by {
            let o = options[i];
            if i == 0 {
                assert(o[1] != "--delete"@[1]);
            } else if i < 1 + ex.len() {
                assert(o == "--exclude="@ + rule.exclude[i - 1]);
                assert(o[2] != "--delete"@[2]);
            } else if i < 1 + ex.len() + g.len() {
                assert(o == "--exclude-from="@ + gitignore->0);
                assert(o[2] != "--delete"@[2]);
            } else {
                assert(o == "--link-dest="@ + link_dest->0);
                assert(o[2] != "--delete"@[2]);
            }
        }
    }
}

/// `--link-dest=` is passed exactly for the previous snapshot: the options
/// hold `--link-dest=` followed by it when there is one, and no option
/// starting with `--link-dest=` when there is none, whatever `.gitignore`
/// was found.
pub proof fn lemma_link_dest_follows_previous_snapshot(
    rule: BackupRuleView,
    gitignore: Option<Seq<char>>,
    link_dest: Option<Seq<char>>,
    final_dest: Seq<char>,
)
    ensures
        ({
            let args = rsync_args_spec(rule, gitignore, link_dest, final_dest);
            let options = args.take(args.len() - 2);
            &&& link_dest matches Some(l) ==> options.contains("--link-dest="@ + l)
            &&& link_dest is None ==> forall|i: int| 0 <= i < options.len()
                ==> !crate::text::has_prefix(#[trigger] options[i], "--link-dest="@)
        }),
{
    reveal_strlit("--delete");
    reveal_strlit("-avzP");
    reveal_strlit("--exclude=");
    reveal_strlit("--exclude-from=");
    reveal_strlit("--link-dest=");
    let args = rsync_args_spec(rule, gitignore, link_dest, final_dest);
    let del: Seq<Seq<char>> = if rule.delete_missing { seq!["--delete"@] } else { Seq::empty() };
    let ex = prefixed("--exclude="@, rule.exclude);
    let g = optional_arg("--exclude-from="@, gitignore);
    let l = optional_arg("--link-dest="@, link_dest);
    let options = seq!["-avzP"@] + del + ex + g + l;
    assert(args =~= options + seq![rule.source_path, final_dest]);
    assert(args.take(args.len() - 2) =~= options);
    let p = "--link-dest="@;
    match link_dest {
        Some(x) => {
            assert(options[options.len() - 1] == p + x);
        },
        None => {
            assert forall|i: int| 0 <= i < options.len() implies !crate::text::has_prefix(#[trigger] options[i], p) by {
                let o = options[i];
                if crate::text::has_prefix(o, p) {
                    assert(o.take(p.len() as int)[2] == o[2]);
                    assert(o.take(p.len() as int)[1] == o[1]);
                    if i == 0 {
                        assert(o[1] != p[1]);
                    } else if i < 1 + del.len() {
                        assert(o[2] != p[2]);
                    } else if i < 1 + del.len() + ex.len() {
                        assert(o == "--exclude="@ + rule.exclude[i - 1 - del.len()]);
                        assert(o[2] != p[2]);
                    } else {
                        assert(o == "--exclude-from="@ + gitignore->0);
                        assert(o[2] != p[2]);
                    }
                }
            }
        },
    }
}

/// A `.gitignore` found in the source adds `--exclude-from=` and changes
/// nothing else: the arguments with it are those without it, with
/// `--exclude-from=` inserted after the exclusion patterns.
pub proof fn lemma_gitignore_adds_only_exclude_from(
    rule: BackupRuleView,
    gitignore: Seq<char>,
    link_dest: Option<Seq<char>>,
    final_dest: Seq<char>,
)
    ensures
        rsync_args_spec(rule, Some(gitignore), link_dest, final_dest) == rsync_args_spec(
            rule,
            None,
            link_dest,
            final_dest,
        ).insert(
            1 + (if rule.delete_missing { 1int } else { 0int }) + rule.exclude.len(),
            "--exclude-from="@ + gitignore,
        ),
{
    let del: Seq<Seq<char>> = if rule.delete_missing { seq!["--delete"@] } else { Seq::empty() };
    let head = seq!["-avzP"@] + del + prefixed("--exclude="@, rule.exclude);
    let tail = optional_arg("--link-dest="@, link_dest) + seq![rule.source_path, final_dest];
    let with = rsync_args_spec(rule, Some(gitignore), link_dest, final_dest);
    let without = rsync_args_spec(rule, None, link_dest, final_dest);
    assert(with =~= head + seq!["--exclude-from="@ + gitignore] + tail);
    assert(without =~= head + tail);
    assert(head.len() == 1 + (if rule.delete_missing { 1int } else { 0int }) + rule.exclude.len());
    assert(with =~= without.insert(head.len() as int, "--exclude-from="@ + gitignore));
}

// ---------------------------------------------------------------- numbers

/// An ASCII decimal digit.
pub open spec fn is_digit(c: char) -> bool {
    '0' <= c <= '9'
}

/// The value of a string of decimal digits.
pub open spec fn digits_value(d: Seq<char>) -> nat
    decreases d.len(),
{
    if d.len() == 0 {
        0
    } else {
        digits_value(d.drop_last()) * 10 + ((d.last() as nat) - 48) as nat
    }
}

/// `s` without the `+` sign it may start with.
pub open spec fn unsigned_digits(s: Seq<char>) -> Seq<char> {
    if s.len() > 0 && s[0] == '+' {
        s.drop_first()
    } else {
        s
    }
}

/// Every character is an ASCII digit.
pub open spec fn all_digits(d: Seq<char>) -> bool {
    forall|i: int| 0 <= i < d.len() ==> is_digit(#[trigger] d[i])
}

/// What `u64::from_str` accepts: an optional `+`, then one or more ASCII
/// digits whose value fits in 64 bits.
pub open spec fn parse_u64_spec(s: Seq<char>) -> Option<u64> {
    let d = unsigned_digits(s);
    if d.len() > 0 && all_digits(d) && digits_value(d) <= u64::MAX {
        Some(digits_value(d) as u64)
    } else {
        None
    }
}

proof fn lemma_digits_value_grows(d: Seq<char>, k: int)
    requires
        0 <= k <= d.len(),
        forall|i: int| 0 <= i < d.len() ==> is_digit(#[trigger] d[i]),
    ensures
        digits_value(d.take(k)) <= digits_value(d),
    decreases d.len() - k,
{
    if k < d.len() {
        lemma_digits_value_grows(d, k + 1);
        let p = d.take(k + 1);
        assert(p.drop_last() =~= d.take(k));
        assert(is_digit(p.last()));
        assert(digits_value(p) == digits_value(d.take(k)) * 10 + ((p.last() as nat) - 48) as nat);
        assert(digits_value(d.take(k)) <= digits_value(d.take(k)) * 10) by (nonlinear_arith);
    } else {
        assert(d.take(k) =~= d);
    }
}

/// `u64::from_str`.
pub fn parse_u64(s: &Vec<char>) -> (r: Option<u64>)
    ensures
        r == parse_u64_spec(s@),
{
    let start: usize = if s.len() > 0 && s[0] == '+' {
        1
    } else {
        0
    };
    let ghost d = unsigned_digits(s@);
    assert(d =~= s@.skip(start as int));
    if start >= s.len() {
        return None;
    }
    let mut acc: u64 = 0;
    let mut i: usize = start;
    while i < s.len()
        invariant
            start <= i <= s@.len(),
            d == s@.skip(start as int),
            d == unsigned_digits(s@),
            d.len() > 0,
            forall|k: int| 0 <= k < i - start ==> is_digit(#[trigger] d[k]),
            acc as nat == digits_value(d.take(i - start)),
        decreases s.len() - i,
    {
        let c = s[i];
        if !('0' <= c && c <= '9') {
            assert(d[i - start] == c);
            assert(!is_digit(d[i - start]));
            return None;
        }
        let digit: u64 = (c as u32 - 48) as u64;
        assert(d.take(i - start + 1).drop_last() =~= d.take(i - start));
        assert(d.take(i - start + 1).last() == c);
        if acc > (u64::MAX - digit) / 10 {
            proof {
                assert(acc * 10 + digit > u64::MAX) by (nonlinear_arith)
                    requires
                        acc > (u64::MAX - digit) / 10,
                        digit <= 9,
                ;
                if all_digits(d) {
                    lemma_digits_value_grows(d, i - start + 1);
                    assert(digits_value(d.take(i - start + 1)) == acc * 10 + digit);
                }
            }
            return None;
        }
        acc = acc * 10 + digit;
        i = i + 1;
    }
    assert(d.take(i - start) =~= d);
    Some(acc)
}

// ---------------------------------------------------------------- progress

/// Length of the run of non-whitespace characters that starts `s`.
pub open spec fn word_len(s: Seq<char>) -> nat
    decreases s.len(),
{
    if s.len() > 0 && !crate::text::is_ws(s[0]) {
        1 + word_len(s.drop_first())
    } else {
        0
    }
}

/// A word is no longer than the text it starts, and at least one character
/// long when the text starts with a non-whitespace character.
pub proof fn lemma_word_len_bound(s: Seq<char>)
    ensures
        word_len(s) <= s.len(),
        s.len() > 0 && !crate::text::is_ws(s[0]) ==> word_len(s) >= 1,
    decreases s.len(),
{
    if s.len() > 0 && !crate::text::is_ws(s[0]) {
        lemma_word_len_bound(s.drop_first());
    }
}

/// The whitespace-separated words of `s`, in order (`str::split_whitespace`).
pub open spec fn ws_tokens(s: Seq<char>) -> Seq<Seq<char>>
    decreases s.len(),
{
    if s.len() == 0 {
        Seq::empty()
    } else if crate::text::is_ws(s[0]) {
        ws_tokens(s.drop_first())
    } else {
        proof {
            lemma_word_len_bound(s);
        }
        seq![s.take(word_len(s) as int)] + ws_tokens(s.skip(word_len(s) as int))
    }
}

/// `s` without its trailing `c` characters (`str::trim_end_matches` with a char).
pub open spec fn trim_end_char(s: Seq<char>, c: char) -> Seq<char>
    decreases s.len(),
{
    if s.len() > 0 && s.last() == c {
        trim_end_char(s.drop_last(), c)
    } else {
        s
    }
}

/// The percentage a word of rsync's output reports: a word holding `%` whose
/// text before the trailing `%` signs reads as a number.
pub open spec fn token_percent(t: Seq<char>) -> Option<u64> {
    if t.contains('%') {
        parse_u64_spec(trim_end_char(t, '%'))
    } else {
        None
    }
}

/// The last percentage among the words.
pub open spec fn last_percent(ts: Seq<Seq<char>>) -> Option<u64>
    decreases ts.len(),
{
    if ts.len() == 0 {
        None
    } else {
        match last_percent(ts.drop_first()) {
            Some(v) => Some(v),
            None => token_percent(ts[0]),
        }
    }
}

/// The progress that a line of `rsync -P` output reports, if any: the last of
/// its words that reads as a percentage.
pub open spec fn line_progress(line: Seq<char>) -> Option<u64> {
    last_percent(ws_tokens(line))
}

proof fn lemma_word_len_is(s: Seq<char>, k: int)
    requires
        0 <= k <= s.len(),
        forall|j: int| 0 <= j < k ==> !crate::text::is_ws(#[trigger] s[j]),
        k == s.len() || crate::text::is_ws(s[k]),
    ensures
        word_len(s) == k,
    decreases k,
{
    if k > 0 {
        lemma_word_len_is(s.drop_first(), k - 1);
    }
}

fn trim_end_percent(t: &Vec<char>) -> (r: Vec<char>)
    ensures
        r@ == trim_end_char(t@, '%'),
{
    let mut j: usize = t.len();
    assert(t@.take(j as int) =~= t@);
    while j > 0 && t[j - 1] == '%'
        invariant
            0 <= j <= t@.len(),
            trim_end_char(t@, '%') == trim_end_char(t@.take(j as int), '%'),
        decreases j,
    {
        assert(t@.take(j as int).drop_last() =~= t@.take(j - 1));
        j = j - 1;
    }
    let mut r: Vec<char> = Vec::new();
    let mut k: usize = 0;
    while k < j
        invariant
            0 <= k <= j <= t@.len(),
            r@ == t@.take(k as int),
        decreases j - k,
    {
        r.push(t[k]);
        assert(t@.take(k + 1) =~= t@.take(k as int).push(t@[k as int]));
        k = k + 1;
    }
    r
}

fn has_percent(t: &Vec<char>) -> (b: bool)
    ensures
        b == t@.contains('%'),
{
    let mut i: usize = 0;
    while i < t.len()
        invariant
            0 <= i <= t@.len(),
            forall|k: int| 0 <= k < i ==> t@[k] != '%',
        decreases t.len() - i,
    {
        if t[i] == '%' {
            assert(t@[i as int] == '%');
            return true;
        }
        i = i + 1;
    }
    false
}

/// The percentage a word reports (see `token_percent`).
pub fn word_percent(t: &Vec<char>) -> (r: Option<u64>)
    ensures
        r == token_percent(t@),
{
    if has_percent(t) {
        parse_u64(&trim_end_percent(t))
    } else {
        None
    }
}

/// The progress a line of rsync output reports (see `line_progress`).
pub fn parse_progress(line: &str) -> (r: Option<u64>)
    ensures
        r == line_progress(line@),
{
    let s = chars_of(line);
    let n = s.len();
    let mut acc: Option<u64> = None;
    let mut i: usize = 0;
    assert(s@.skip(0) =~= s@);
    while i < n
        invariant
            0 <= i <= n,
            n == s@.len(),
            line_progress(line@) == (match last_percent(ws_tokens(s@.skip(i as int))) {
                Some(v) => Some(v),
                None => acc,
            }),
        decreases n - i,
    {
        let ghost rest = s@.skip(i as int);
        if is_whitespace(s[i]) {
            assert(rest.drop_first() =~= s@.skip(i + 1));
            i = i + 1;
        } else {
            let mut j: usize = i;
            while j < n && !is_whitespace(s[j])
                invariant
                    i <= j <= n,
                    n == s@.len(),
                    forall|k: int| i <= k < j ==> !crate::text::is_ws(#[trigger] s@[k]),
                decreases n - j,
            {
                j = j + 1;
            }
            let mut w: Vec<char> = Vec::new();
            let mut k: usize = i;
            while k < j
                invariant
                    i <= k <= j <= n,
                    n == s@.len(),
                    w@ == s@.subrange(i as int, k as int),
                decreases j - k,
            {
                w.push(s[k]);
                k = k + 1;
            }
            proof {
                assert forall|q: int| 0 <= q < j - i implies !crate::text::is_ws(#[trigger] rest[q]) by {
                    assert(rest[q] == s@[i + q]);
                }
                if j < n {
                    assert(rest[j - i] == s@[j as int]);
                }
                lemma_word_len_is(rest, j - i);
                assert(rest.take(j - i) =~= w@);
                assert(rest.skip(j - i) =~= s@.skip(j as int));
                let ts = ws_tokens(rest);
                assert(ts =~= seq![w@] + ws_tokens(s@.skip(j as int)));
                assert(ts.drop_first() =~= ws_tokens(s@.skip(j as int)));
            }
            let p = word_percent(&w);
            if p.is_some() {
                acc = p;
            }
            i = j;
        }
    }
    assert(s@.skip(n as int) =~= Seq::<char>::empty());
    acc
}

/// Reading back a number's decimal text gives the number.
pub proof fn lemma_parse_decimal(n: u64)
    ensures
        parse_u64_spec(crate::text::decimal(n as nat)) == Some(n),
{
    lemma_decimal_digits(n as nat);
    let d = crate::text::decimal(n as nat);
    assert(d[0] != '+');
    assert(unsigned_digits(d) == d);
}

proof fn lemma_decimal_digits(n: nat)
    ensures
        crate::text::decimal(n).len() > 0,
        all_digits(crate::text::decimal(n)),
        digits_value(crate::text::decimal(n)) == n,
    decreases n,
{
    let d = crate::text::decimal(n);
    if n < 10 {
        assert(d.drop_last() =~= Seq::<char>::empty());
        assert((crate::text::digit_char(n) as nat) == 48 + n);
        assert(d.len() == 1);
        assert(d.last() == crate::text::digit_char(n));
        assert(digits_value(d.drop_last()) == 0);
        assert(digits_value(d) == digits_value(d.drop_last()) * 10 + ((d.last() as nat) - 48) as nat);
    } else {
        assert((crate::text::digit_char(n % 10) as nat) == 48 + n % 10);
        assert(n == (n / 10) * 10 + n % 10);
        lemma_decimal_digits(n / 10);
        let e = crate::text::decimal(n / 10);
        assert(d.drop_last() =~= e);
        assert(d.last() == crate::text::digit_char(n % 10));
        assert(forall|i: int| 0 <= i < e.len() ==> d[i] == e[i]);
        assert(digits_value(d) == digits_value(d.drop_last()) * 10 + ((d.last() as nat) - 48) as nat);
        assert(digits_value(d) == (n / 10) * 10 + n % 10);
    }
}

/// A word made of a number's decimal text and `%` reports that number, zero
/// included.
pub proof fn lemma_percent_word_reports_number(n: u64)
    ensures
        token_percent(crate::text::decimal(n as nat) + seq!['%']) == Some(n),
{
    let d = crate::text::decimal(n as nat);
    let w = d + seq!['%'];
    lemma_decimal_digits(n as nat);
    lemma_parse_decimal(n);
    assert(w[w.len() - 1] == '%');
    assert(w.contains('%'));
    assert(w.drop_last() =~= d);
    assert(is_digit(d.last()));
    assert(trim_end_char(d, '%') == d);
    assert(trim_end_char(w, '%') == d);
}

/// The words of text that ends with whitespace, followed by more text, are
/// its own words followed by those of the rest.
proof fn lemma_word_len_stops(a: Seq<char>, b: Seq<char>)
    requires
        a.len() > 0 && crate::text::is_ws(a.last()),
    ensures
        word_len(a + b) == word_len(a),
        word_len(a) < a.len(),
    decreases a.len(),
{
    if !crate::text::is_ws(a[0]) {
        assert((a + b).drop_first() =~= a.drop_first() + b);
        assert(a.drop_first().last() == a.last());
        lemma_word_len_stops(a.drop_first(), b);
    }
}

proof fn lemma_ws_tokens_concat(a: Seq<char>, b: Seq<char>)
    requires
        a.len() == 0 || crate::text::is_ws(a.last()),
    ensures
        ws_tokens(a + b) == ws_tokens(a) + ws_tokens(b),
    decreases a.len(),
{
    if a.len() == 0 {
        assert(a + b =~= b);
        assert(ws_tokens(a) + ws_tokens(b) =~= ws_tokens(b));
    } else if crate::text::is_ws(a[0]) {
        assert((a + b).drop_first() =~= a.drop_first() + b);
        lemma_ws_tokens_concat(a.drop_first(), b);
    } else {
        lemma_word_len_stops(a, b);
        lemma_word_len_bound(a);
        let k = word_len(a) as int;
        assert((a + b).take(k) =~= a.take(k));
        assert((a + b).skip(k) =~= a.skip(k) + b);
        assert(a.skip(k).last() == a.last());
        lemma_ws_tokens_concat(a.skip(k), b);
        assert(ws_tokens(a + b) =~= ws_tokens(a) + ws_tokens(b));
    }
}

proof fn lemma_ws_tokens_word_first(w: Seq<char>, b: Seq<char>)
    requires
        w.len() > 0,
        forall|i: int| 0 <= i < w.len() ==> !crate::text::is_ws(#[trigger] w[i]),
        b.len() == 0 || crate::text::is_ws(b[0]),
    ensures
        ws_tokens(w + b) == seq![w] + ws_tokens(b),
{
    let s = w + b;
    assert forall|j: int| 0 <= j < w.len() implies !crate::text::is_ws(#[trigger] s[j]) by {
        assert(s[j] == w[j]);
    }
    if b.len() > 0 {
        assert(s[w.len() as int] == b[0]);
    }
    lemma_word_len_is(s, w.len() as int);
    assert(s.take(w.len() as int) =~= w);
    assert(s.skip(w.len() as int) =~= b);
    assert(!crate::text::is_ws(s[0]));
}

proof fn lemma_tokens_without_percent(s: Seq<char>)
    requires
        !s.contains('%'),
    ensures
        forall|k: int| 0 <= k < ws_tokens(s).len() ==> !(#[trigger] ws_tokens(s)[k]).contains('%'),
    decreases s.len(),
{
    if s.len() == 0 {
        assert(ws_tokens(s).len() == 0);
    } else if crate::text::is_ws(s[0]) {
        let t = s.drop_first();
        assert(!t.contains('%')) by {
            if t.contains('%') {
                let j = choose|j: int| 0 <= j < t.len() && t[j] == '%';
                assert(s[j + 1] == '%');
            }
        }
        lemma_tokens_without_percent(t);
        assert(ws_tokens(s) == ws_tokens(t));
    } else {
        lemma_word_len_bound(s);
        let k = word_len(s) as int;
        let w = s.take(k);
        let t = s.skip(k);
        assert(!w.contains('%')) by {
            if w.contains('%') {
                let j = choose|j: int| 0 <= j < w.len() && w[j] == '%';
                assert(s[j] == '%');
            }
        }
        assert(!t.contains('%')) by {
            if t.contains('%') {
                let j = choose|j: int| 0 <= j < t.len() && t[j] == '%';
                assert(s[j + k] == '%');
            }
        }
        lemma_tokens_without_percent(t);
        let ts = ws_tokens(s);
        assert(ts =~= seq![w] + ws_tokens(t));
        assert forall|q: int| 0 <= q < ts.len() implies !(#[trigger] ts[q]).contains('%') by {
            if q > 0 {
                assert(ts[q] == ws_tokens(t)[q - 1]);
            }
        }
    }
}

proof fn lemma_no_percent_words(ts: Seq<Seq<char>>)
    requires
        forall|k: int| 0 <= k < ts.len() ==> !(#[trigger] ts[k]).contains('%'),
    ensures
        last_percent(ts) is None,
    decreases ts.len(),
{
    if ts.len() > 0 {
        let r = ts.drop_first();
        assert forall|k: int| 0 <= k < r.len() implies !(#[trigger] r[k]).contains('%') by {
            assert(r[k] == ts[k + 1]);
        }
        lemma_no_percent_words(r);
        assert(!ts[0].contains('%'));
    }
}

proof fn lemma_last_percent_concat(x: Seq<Seq<char>>, y: Seq<Seq<char>>)
    ensures
        last_percent(x + y) == (match last_percent(y) {
            Some(v) => Some(v),
            None => last_percent(x),
        }),
    decreases x.len(),
{
    if x.len() == 0 {
        assert(x + y =~= y);
    } else {
        assert((x + y).drop_first() =~= x.drop_first() + y);
        assert((x + y)[0] == x[0]);
        lemma_last_percent_concat(x.drop_first(), y);
    }
}

/// A line of rsync output whose only word holding `%` is a number followed by
/// `%` reports that number, zero included (the first progress line of a file
/// reads `0%`).
pub proof fn lemma_line_reports_its_percentage(before: Seq<char>, n: u64, after: Seq<char>)
    requires
        !before.contains('%'),
        !after.contains('%'),
        before.len() == 0 || crate::text::is_ws(before.last()),
        after.len() == 0 || crate::text::is_ws(after[0]),
    ensures
        line_progress(before + crate::text::decimal(n as nat) + seq!['%'] + after) == Some(n),
{
    let w = crate::text::decimal(n as nat) + seq!['%'];
    lemma_decimal_digits(n as nat);
    let d = crate::text::decimal(n as nat);
    assert forall|i: int| 0 <= i < w.len() implies !crate::text::is_ws(#[trigger] w[i]) by {
        if i < d.len() {
            assert(w[i] == d[i]);
            assert(is_digit(d[i]));
        } else {
            assert(w[i] == '%');
        }
    }
    let line = before + crate::text::decimal(n as nat) + seq!['%'] + after;
    assert(line =~= before + (w + after));
    lemma_ws_tokens_concat(before, w + after);
    lemma_ws_tokens_word_first(w, after);
    lemma_tokens_without_percent(before);
    lemma_tokens_without_percent(after);
    lemma_no_percent_words(ws_tokens(before));
    lemma_no_percent_words(ws_tokens(after));
    lemma_percent_word_reports_number(n);
    lemma_last_percent_concat(seq![w], ws_tokens(after));
    assert(last_percent(seq![w]) == token_percent(w)) by {
        let one = seq![w];
        assert(one.drop_first() =~= Seq::<Seq<char>>::empty());
        assert(last_percent(one.drop_first()) is None);
        assert(one[0] == w);
    }
    lemma_last_percent_concat(ws_tokens(before), seq![w] + ws_tokens(after));
}

/// A word without `%` reports no percentage.
pub proof fn lemma_word_without_percent(t: Seq<char>)
    requires
        !t.contains('%'),
    ensures
        token_percent(t) is None,
{
}

/// When a line holds several percentages, the later one counts: for text `a`
/// ending with whitespace followed by text `b`, the line reports what `b`
/// reports, and what `a` reports only when `b` reports nothing.
pub proof fn lemma_later_percentage_wins(a: Seq<char>, b: Seq<char>)
    requires
        a.len() == 0 || crate::text::is_ws(a.last()),
    ensures
        line_progress(a + b) == (match line_progress(b) {
            Some(v) => Some(v),
            None => line_progress(a),
        }),
{
    lemma_ws_tokens_concat(a, b);
    lemma_last_percent_concat(ws_tokens(a), ws_tokens(b));
}

} // verus!
