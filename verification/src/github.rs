//! `.gitignore` templates offered from GitHub's template repository: which
//! entries of a directory listing are templates, and the patterns a
//! downloaded template holds.
use vstd::prelude::*;
use crate::text::{chars_of, ends_with, string_from};

verus! {

/// One entry of a GitHub directory listing.
#[derive(Clone, Debug)]
pub struct GithubContent {
    pub name: String,
    pub download_url: Option<String>,
    pub content_type: String,
}

/// `s` with every trailing occurrence of `p` removed (`str::trim_end_matches`).
pub open spec fn trim_end_seq(s: Seq<char>, p: Seq<char>) -> Seq<char>
    decreases s.len(),
{
    if p.len() > 0 && crate::text::has_suffix(s, p) {
        trim_end_seq(s.take(s.len() - p.len()), p)
    } else {
        s
    }
}

/// The template an entry offers: a file named `*.gitignore` with a download
/// URL gives its name without the suffix, and the URL.
pub open spec fn template_of(item: GithubContent) -> Option<(Seq<char>, Seq<char>)> {
    if item.content_type@ == "file"@ && crate::text::has_suffix(item.name@, ".gitignore"@)
        && item.download_url is Some {
        Some((trim_end_seq(item.name@, ".gitignore"@), item.download_url->0@))
    } else {
        None
    }
}

/// The templates of a listing, in listing order.
pub open spec fn templates_spec(items: Seq<GithubContent>) -> Seq<(Seq<char>, Seq<char>)>
    decreases items.len(),
{
    if items.len() == 0 {
        Seq::empty()
    } else {
        let rest = templates_spec(items.drop_last());
        match template_of(items.last()) {
            Some(t) => rest.push(t),
            None => rest,
        }
    }
}

/// The views of (name, URL) pairs.
pub open spec fn pairs_view(v: Seq<(String, String)>) -> Seq<(Seq<char>, Seq<char>)> {
    v.map_values(|p: (String, String)| (p.0@, p.1@))
}

fn trim_end_suffix(s: &Vec<char>, p: &Vec<char>) -> (r: Vec<char>)
    requires
        p@.len() > 0,
    ensures
        r@ == trim_end_seq(s@, p@),
{
    let mut cur: Vec<char> = s.clone();
    assert(cur@ == s@);
    while ends_with(&cur, p)
        invariant
            p@.len() > 0,
            trim_end_seq(s@, p@) == trim_end_seq(cur@, p@),
        decreases cur@.len(),
    {
        let keep = cur.len() - p.len();
        let ghost old_cur = cur@;
        cur.truncate(keep);
        assert(cur@ =~= old_cur.take(old_cur.len() - p@.len()));
    }
    cur
}


/// The templates of a listing (see `templates_spec`).
pub fn select_templates(items: &Vec<GithubContent>) -> (r: Vec<(String, String)>)
    ensures
        pairs_view(r@) == templates_spec(items@),
{
    let suffix = chars_of(".gitignore");
    let mut r: Vec<(String, String)> = Vec::new();
    let mut i: usize = 0;
    while i < items.len()
        invariant
            0 <= i <= items@.len(),
            suffix@ == ".gitignore"@,
            pairs_view(r@) == templates_spec(items@.take(i as int)),
        decreases items.len() - i,
    {
        let item = &items[i];
        let ghost before = pairs_view(r@);
        assert(items@.take(i + 1).drop_last() =~= items@.take(i as int));
        assert(items@.take(i + 1).last() == items@[i as int]);
        proof {
            reveal_strlit(".gitignore");
        }
        assert(suffix@.len() > 0);
        let name = chars_of(item.name.as_str());
        if crate::text::str_equals(item.content_type.as_str(), "file") && ends_with(&name, &suffix) {
            match &item.download_url {
                Some(url) => {
                    let shown = string_from(trim_end_suffix(&name, &suffix).as_slice());
                    r.push((shown, url.clone()));
                    assert(pairs_view(r@) =~= before.push(template_of(items@[i as int])->0));
                },
                None => {},
            }
        }
        i = i + 1;
    }
    assert(items@.take(items@.len() as int) =~= items@);
    r
}

/// The patterns of a downloaded `.gitignore`: its lines, trimmed, without
/// blank lines and `#` comments.
pub fn gitignore_patterns(content: &str) -> (r: Vec<String>)
    ensures
        crate::models::strings_view(r@) == crate::patterns::parse_patterns_spec(content@, "#"@),
{
    crate::patterns::parse_patterns(content, "#")
}

/// No template name keeps the `.gitignore` suffix, and every template comes
/// from an entry of the listing that is a file with a download URL.
pub proof fn lemma_templates_are_files(items: Seq<GithubContent>)
    ensures
        forall|k: int|
            0 <= k < templates_spec(items).len() ==> !crate::text::has_suffix(
                (#[trigger] templates_spec(items)[k]).0,
                ".gitignore"@,
            ) && exists|j: int| 0 <= j < items.len() && template_of(items[j]) == Some(templates_spec(items)[k]),
    decreases items.len(),
{
    reveal_strlit(".gitignore");
    if items.len() > 0 {
        lemma_templates_are_files(items.drop_last());
        let rest = templates_spec(items.drop_last());
        let t = templates_spec(items);
        assert forall|k: int| 0 <= k < t.len() implies !crate::text::has_suffix((#[trigger] t[k]).0, ".gitignore"@)
            && exists|j: int| 0 <= j < items.len() && template_of(items[j]) == Some(t[k]) by {
            if k < rest.len() {
                assert(t[k] == rest[k]);
                let j = choose|j: int| 0 <= j < items.drop_last().len() && template_of(items.drop_last()[j]) == Some(rest[k]);
                assert(items[j] == items.drop_last()[j]);
            } else {
                let it = items.last();
                assert(template_of(it) is Some);
                assert(t[k] == template_of(it)->0);
                proof_trim_end_seq_no_suffix(it.name@, ".gitignore"@);
                assert(items[items.len() - 1] == it);
            }
        }
    }
}

proof fn proof_trim_end_seq_no_suffix(s: Seq<char>, p: Seq<char>)
    requires
        p.len() > 0,
    ensures
        !crate::text::has_suffix(trim_end_seq(s, p), p),
    decreases s.len(),
{
    if crate::text::has_suffix(s, p) {
        proof_trim_end_seq_no_suffix(s.take(s.len() - p.len()), p);
    }
}

} // verus!
