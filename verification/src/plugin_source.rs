//! Where a plugin comes from: a GitHub URL (or `owner/repo` shorthand, or an
//! SSH remote) read into owner, repository, git ref and path inside the
//! repository.

use vstd::prelude::*;

use crate::agent_refs::strip_prefix_repeated;
use crate::bash_policy::{join, join_strings};
use crate::bash_tokenizer::strings_view;
use crate::client_core::{first_index_of, lemma_first_index_of, lemma_first_index_of_found, lemma_first_index_of_none};
use crate::local_fs_edit::{find_from, lemma_next_match, matches_at, next_match, replace_all_chars, replace_from};
use crate::plugins::{either, is_loader_error, strip_chars, trim_by, trim_end_by, trim_start_by, PluginError};
use crate::text::{
    chars_of, eq_str, extend_chars, extend_str, has_prefix, has_suffix, last_index_in,
    last_index_of, slice_chars, string_of, trim, trim_chars,
};

verus! {

/// The parts of a parsed URL this library reads: its serialization, the
/// host, the path and the decoded query pairs, in order.
#[derive(Debug, Clone, PartialEq, Eq)]
pub struct UrlParts {
    pub href: String,
    pub host: Option<String>,
    pub path: String,
    pub query: Vec<(String, String)>,
}

/// A plugin's place on GitHub.
#[derive(Debug, Clone, PartialEq, Eq)]
pub struct GitHubPluginRef {
    pub owner: String,
    pub repo: String,
    pub git_ref: String,
    pub repo_path: String,
    /// `github.com/owner/repo@ref`, then `/` and the path when there is one.
    pub canonical: String,
}

/// The five texts of a `GitHubPluginRef`, in field order.
pub type GitHubRefView = (Seq<char>, Seq<char>, Seq<char>, Seq<char>, Seq<char>);

pub open spec fn github_ref_view(r: GitHubPluginRef) -> GitHubRefView {
    (r.owner@, r.repo@, r.git_ref@, r.repo_path@, r.canonical@)
}

pub open spec fn opt_text(o: Option<String>) -> Option<Seq<char>> {
    match o {
        Some(s) => Some(s@),
        None => None,
    }
}

pub open spec fn text_pairs(v: Seq<(String, String)>) -> Seq<(Seq<char>, Seq<char>)> {
    v.map_values(|p: (String, String)| (p.0@, p.1@))
}

/// The non-empty parts of `s` between slashes, in order.
pub open spec fn path_segments(s: Seq<char>) -> Seq<Seq<char>>
    decreases s.len(),
{
    let k = first_index_of(s, '/');
    if 0 <= k < s.len() {
        let seg = s.subrange(0, k);
        let rest = path_segments(s.subrange(k + 1, s.len() as int));
        if seg.len() == 0 {
            rest
        } else {
            seq![seg] + rest
        }
    } else if s.len() == 0 {
        Seq::empty()
    } else {
        seq![s]
    }
}

/// The value of the first query pair named `ref`, or the empty text.
pub open spec fn ref_query(q: Seq<(Seq<char>, Seq<char>)>) -> Seq<char>
    decreases q.len(),
{
    if q.len() == 0 {
        Seq::empty()
    } else if q[0].0 == "ref"@ {
        q[0].1
    } else {
        ref_query(q.drop_first())
    }
}

/// `s` without its repeated trailing `p`.
pub open spec fn strip_suffix_repeated(s: Seq<char>, p: Seq<char>) -> Seq<char>
    decreases s.len(),
{
    if p.len() > 0 && p.is_suffix_of(s) {
        strip_suffix_repeated(s.subrange(0, s.len() - p.len()), p)
    } else {
        s
    }
}

/// `s` up to its last slash (empty when it has none).
pub open spec fn without_last_segment(s: Seq<char>) -> Seq<char> {
    let k = last_index_of(s, '/');
    if k < 0 {
        Seq::empty()
    } else {
        s.subrange(0, k)
    }
}

/// `s` up to the first occurrence of `n`, or all of `s`.
pub open spec fn cut_at(s: Seq<char>, n: Seq<char>) -> Seq<char> {
    match next_match(s, n, 0) {
        Some(i) => s.subrange(0, i),
        None => s,
    }
}

pub open spec fn slash() -> spec_fn(char) -> bool {
    either('/', '/')
}

/// The path inside the repository: the remaining segments joined, without
/// a trailing `PLUGIN.md` or `SKILL.md` file, and, for another markdown
/// file, cut before a `commands` or `agents` directory.
pub open spec fn plugin_repo_path(rest: Seq<Seq<char>>) -> Seq<char> {
    let p0 = trim_by(join(rest, "/"@), slash());
    let p1 = if "PLUGIN.md"@.is_suffix_of(p0) || "SKILL.md"@.is_suffix_of(p0) {
        without_last_segment(p0)
    } else {
        p0
    };
    if ".md"@.is_suffix_of(p1) {
        trim_by(cut_at(cut_at(p1, "/commands/"@), "/agents/"@), slash())
    } else {
        p1
    }
}

/// `github.com/owner/repo@ref`, then `/` and the path when it is not empty.
pub open spec fn canonical_text(owner: Seq<char>, repo: Seq<char>, git_ref: Seq<char>, path: Seq<char>) -> Seq<char> {
    let base = "github.com/"@ + owner + "/"@ + repo + "@"@ + git_ref;
    if path.len() == 0 {
        base
    } else {
        base + "/"@ + path
    }
}

/// What a parsed GitHub URL says of a plugin's place, or the loader error's
/// message. The host may start with `www.`; the ref comes from the `ref`
/// query pair, else from `repo@ref`, else from a `tree`/`blob` segment (on
/// github.com) or the first segment after the repository (on
/// raw.githubusercontent.com), else it is `HEAD`.
pub open spec fn github_ref_spec(
    host: Option<Seq<char>>,
    path: Seq<char>,
    query: Seq<(Seq<char>, Seq<char>)>,
) -> Result<GitHubRefView, Seq<char>> {
    let host0 = match host {
        Some(h) => h,
        None => Seq::empty(),
    };
    let h = strip_prefix_repeated(host0, "www."@);
    let raw = h == "raw.githubusercontent.com"@;
    if h != "github.com"@ && !raw {
        Err("unsupported host: "@ + host0)
    } else {
        let segs = path_segments(path);
        if segs.len() < 2 {
            Err("invalid github url: expected /owner/repo"@)
        } else {
            let q_ref = ref_query(query);
            let owner = segs[0];
            let rp = strip_suffix_repeated(segs[1], ".git"@);
            let at = first_index_of(rp, '@');
            let ref1 = if 0 <= at && q_ref.len() == 0 && at + 1 < rp.len() {
                rp.subrange(at + 1, rp.len() as int)
            } else {
                q_ref
            };
            let repo = if 0 <= at {
                rp.subrange(0, at)
            } else {
                rp
            };
            let rest0 = segs.skip(2);
            let tree = !raw && rest0.len() >= 2 && (rest0[0] == "tree"@ || rest0[0] == "blob"@);
            let ref2 = if tree && ref1.len() == 0 {
                rest0[1]
            } else {
                ref1
            };
            let rest1 = if tree {
                rest0.skip(2)
            } else {
                rest0
            };
            if raw && rest1.len() == 0 {
                Err("invalid raw github url"@)
            } else {
                let ref3 = if raw && ref2.len() == 0 {
                    rest1[0]
                } else {
                    ref2
                };
                let rest2 = if raw {
                    rest1.skip(1)
                } else {
                    rest1
                };
                let repo_path = plugin_repo_path(rest2);
                let git_ref = if ref3.len() == 0 {
                    "HEAD"@
                } else {
                    ref3
                };
                Ok((owner, repo, git_ref, repo_path, canonical_text(owner, repo, git_ref, repo_path)))
            }
        }
    }
}

/// The non-empty parts of `path` between slashes.
pub fn segments_of(path: &str) -> (r: Vec<String>)
    ensures
        strings_view(r@) == path_segments(path@),
{
    let v = chars_of(path);
    let ghost whole = v@;
    let mut out: Vec<String> = Vec::new();
    let mut start: usize = 0;
    assert(v@.subrange(0, v@.len() as int) =~= v@);
    assert(strings_view(out@) =~= Seq::<Seq<char>>::empty());
    loop
        invariant
            start <= v@.len(),
            whole == v@,
            v@ == path@,
            path_segments(whole) == strings_view(out@) + path_segments(
                v@.subrange(start as int, v@.len() as int),
            ),
        decreases v@.len() - start,
    {
        let ghost rest = v@.subrange(start as int, v@.len() as int);
        let mut k = start;
        while k < v.len() && v[k] != '/'
            invariant
                start <= k <= v@.len(),
                forall|j: int| start <= j < k ==> v@[j] != '/',
            decreases v@.len() - k,
        {
            k += 1;
        }
        if k == v.len() {
            proof {
                assert forall|j: int| 0 <= j < rest.len() implies rest[j] != '/' by {
                    assert(rest[j] == v@[start + j]);
                }
                lemma_first_index_of_none(rest, '/');
            }
            if start < v.len() {
                let seg = slice_chars(v.as_slice(), start, v.len());
                let ghost o0 = out@;
                out.push(string_of(seg.as_slice()));
                assert(strings_view(out@) =~= strings_view(o0).push(rest));
                assert(strings_view(o0) + seq![rest] =~= strings_view(out@));
            } else {
                assert(strings_view(out@) + Seq::<Seq<char>>::empty() =~= strings_view(out@));
            }
            return out;
        }
        proof {
            assert forall|j: int| 0 <= j < k - start implies rest[j] != '/' by {
                assert(rest[j] == v@[start + j]);
            }
            lemma_first_index_of_found(rest, '/', k - start);
            assert(rest.subrange(0, k - start) =~= v@.subrange(start as int, k as int));
            assert(rest.subrange(k - start + 1, rest.len() as int) =~= v@.subrange(
                k + 1,
                v@.len() as int,
            ));
        }
        if k > start {
            let seg = slice_chars(v.as_slice(), start, k);
            let ghost o0 = out@;
            out.push(string_of(seg.as_slice()));
            assert(strings_view(out@) =~= strings_view(o0).push(seg@));
            assert(strings_view(o0) + (seq![seg@] + path_segments(
                v@.subrange(k + 1, v@.len() as int),
            )) =~= strings_view(out@) + path_segments(v@.subrange(k + 1, v@.len() as int)));
        }
        start = k + 1;
    }
}

/// The value of the first query pair named `ref`, or the empty text.
pub fn query_ref(q: &Vec<(String, String)>) -> (r: String)
    ensures
        r@ == ref_query(text_pairs(q@)),
{
    let mut i: usize = 0;
    assert(text_pairs(q@).skip(0) =~= text_pairs(q@));
    while i < q.len()
        invariant
            i <= q@.len(),
            ref_query(text_pairs(q@)) == ref_query(text_pairs(q@).skip(i as int)),
        decreases q@.len() - i,
    {
        let ghost t = text_pairs(q@).skip(i as int);
        assert(t[0] == (q@[i as int].0@, q@[i as int].1@));
        let kc = chars_of(q[i].0.as_str());
        if eq_str(kc.as_slice(), "ref") {
            return q[i].1.clone();
        }
        assert(t.drop_first() =~= text_pairs(q@).skip(i + 1));
        i += 1;
    }
    assert(text_pairs(q@).skip(i as int) =~= Seq::<(Seq<char>, Seq<char>)>::empty());
    String::new()
}

/// Removes the repeated leading `p` from `v`.
fn strip_prefix_all(v: &[char], p: &[char]) -> (r: Vec<char>)
    requires
        p@.len() > 0,
    ensures
        r@ == strip_prefix_repeated(v@, p@),
{
    let mut i: usize = 0;
    assert(v@.skip(0) =~= v@);
    while v.len() - i >= p.len() && has_prefix(slice_chars(v, i, v.len()).as_slice(), p)
        invariant
            i <= v@.len(),
            p@.len() > 0,
            strip_prefix_repeated(v@, p@) == strip_prefix_repeated(v@.skip(i as int), p@),
        decreases v@.len() - i,
    {
        assert(v@.subrange(i as int, v@.len() as int) =~= v@.skip(i as int));
        assert(v@.skip(i as int).skip(p@.len() as int) =~= v@.skip(i + p@.len()));
        i += p.len();
    }
    proof {
        if i + p@.len() <= v@.len() {
            assert(v@.subrange(i as int, v@.len() as int) =~= v@.skip(i as int));
        }
    }
    let r = slice_chars(v, i, v.len());
    assert(r@ =~= v@.skip(i as int));
    r
}

/// Removes the repeated trailing `p` from `v`.
fn strip_suffix_all(v: &[char], p: &[char]) -> (r: Vec<char>)
    requires
        p@.len() > 0,
    ensures
        r@ == strip_suffix_repeated(v@, p@),
{
    let mut j: usize = v.len();
    assert(v@.take(j as int) =~= v@);
    while j >= p.len() && has_suffix(slice_chars(v, 0, j).as_slice(), p)
        invariant
            j <= v@.len(),
            p@.len() > 0,
            strip_suffix_repeated(v@, p@) == strip_suffix_repeated(v@.take(j as int), p@),
        decreases j,
    {
        assert(v@.subrange(0, j as int) =~= v@.take(j as int));
        assert(v@.take(j as int).subrange(0, j - p@.len()) =~= v@.take(j - p@.len()));
        j -= p.len();
    }
    proof {
        if j >= p@.len() {
            assert(v@.subrange(0, j as int) =~= v@.take(j as int));
        }
    }
    let r = slice_chars(v, 0, j);
    assert(r@ =~= v@.take(j as int));
    r
}

/// `v` up to the first occurrence of `n`, or all of `v`.
fn cut_at_chars(v: Vec<char>, n: &str) -> (r: Vec<char>)
    requires
        n@.len() > 0,
    ensures
        r@ == cut_at(v@, n@),
{
    let nc = chars_of(n);
    match find_from(v.as_slice(), nc.as_slice(), 0) {
        Some(i) => {
            proof {
                crate::local_fs_edit::lemma_next_match(v@, n@, 0);
            }
            slice_chars(v.as_slice(), 0, i)
        },
        None => v,
    }
}

/// The strings of `v` from position `from` on.
fn strings_from(v: &Vec<String>, from: usize) -> (r: Vec<String>)
    requires
        from <= v@.len(),
    ensures
        strings_view(r@) == strings_view(v@).skip(from as int),
{
    let mut out: Vec<String> = Vec::new();
    let mut i = from;
    while i < v.len()
        invariant
            from <= i <= v@.len(),
            strings_view(out@) == strings_view(v@).subrange(from as int, i as int),
        decreases v@.len() - i,
    {
        let ghost o0 = out@;
        out.push(v[i].clone());
        assert(strings_view(out@) =~= strings_view(o0).push(v@[i as int]@));
        assert(strings_view(v@).subrange(from as int, i + 1) =~= strings_view(v@).subrange(
            from as int,
            i as int,
        ).push(v@[i as int]@));
        i += 1;
    }
    assert(strings_view(v@).subrange(from as int, v@.len() as int) =~= strings_view(v@).skip(
        from as int,
    ));
    out
}

/// The path inside the repository for the remaining segments.
pub fn repo_path_of(rest: &Vec<String>) -> (r: String)
    ensures
        r@ == plugin_repo_path(strings_view(rest@)),
{
    let joined = join_strings(rest, "/");
    let p0 = strip_chars(joined.as_slice(), '/', '/');
    proof {
        reveal_strlit("/");
    }
    assert(p0@.subrange(0, p0@.len() as int) =~= p0@);
    let p1 = if crate::text::ends_with_str(p0.as_slice(), "PLUGIN.md") || crate::text::ends_with_str(
        p0.as_slice(),
        "SKILL.md",
    ) {
        proof {
            crate::text::lemma_last_index_of_bounds(p0@, '/');
        }
        match last_index_in(p0.as_slice(), p0.len(), '/') {
            Some(k) => slice_chars(p0.as_slice(), 0, k),
            None => Vec::new(),
        }
    } else {
        p0
    };
    proof {
        reveal_strlit("/commands/");
        reveal_strlit("/agents/");
    }
    if crate::text::ends_with_str(p1.as_slice(), ".md") {
        let c1 = cut_at_chars(p1, "/commands/");
        let c2 = cut_at_chars(c1, "/agents/");
        let p2 = strip_chars(c2.as_slice(), '/', '/');
        string_of(p2.as_slice())
    } else {
        string_of(p1.as_slice())
    }
}


fn loader_message(msg: Vec<char>) -> (r: PluginError)
    ensures
        is_loader_error(r, msg@),
{
    PluginError::Loader(string_of(msg.as_slice()))
}

/// The text of `v` as a `String`.
fn text_of(v: &Vec<char>) -> (r: String)
    ensures
        r@ == v@,
{
    string_of(v.as_slice())
}

/// Reads a plugin's place from the parts of a parsed GitHub URL, as
/// `github_ref_spec` says; an unsupported host, a path without owner and
/// repository, or a raw URL without a ref are refused with a loader error.
pub fn github_ref_from_url(parts: &UrlParts) -> (r: Result<GitHubPluginRef, PluginError>)
    ensures
        match github_ref_spec(opt_text(parts.host), parts.path@, text_pairs(parts.query@)) {
            Ok(v) => r matches Ok(g) && github_ref_view(g) == v,
            Err(m) => r matches Err(e) && is_loader_error(e, m),
        },
{
    proof {
        reveal_strlit("www.");
        reveal_strlit("github.com");
        reveal_strlit("raw.githubusercontent.com");
        reveal_strlit("unsupported host: ");
        reveal_strlit("invalid github url: expected /owner/repo");
        reveal_strlit(".git");
        reveal_strlit("tree");
        reveal_strlit("blob");
        reveal_strlit("invalid raw github url");
        reveal_strlit("HEAD");
        reveal_strlit("github.com/");
        reveal_strlit("/");
        reveal_strlit("@");
    }
    let host0: Vec<char> = match &parts.host {
        Some(h) => chars_of(h.as_str()),
        None => Vec::new(),
    };
    let www = chars_of("www.");
    let h = strip_prefix_all(host0.as_slice(), www.as_slice());
    let on_github = eq_str(h.as_slice(), "github.com");
    let raw = eq_str(h.as_slice(), "raw.githubusercontent.com");
    if !on_github && !raw {
        let mut m = chars_of("unsupported host: ");
        extend_chars(&mut m, host0.as_slice());
        return Err(loader_message(m));
    }
    let segs = segments_of(parts.path.as_str());
    if segs.len() < 2 {
        return Err(loader_message(chars_of("invalid github url: expected /owner/repo")));
    }
    let q_ref = chars_of(query_ref(&parts.query).as_str());
    let owner = segs[0].clone();
    let s1 = chars_of(segs[1].as_str());
    let git = chars_of(".git");
    let rp = strip_suffix_all(s1.as_slice(), git.as_slice());
    let mut at: Option<usize> = None;
    let mut k: usize = 0;
    while k < rp.len() && at.is_none()
        invariant
            k <= rp@.len(),
            at is None ==> forall|j: int| 0 <= j < k ==> rp@[j] != '@',
            at matches Some(a) ==> a < rp@.len() && rp@[a as int] == '@' && forall|j: int|
                0 <= j < a ==> rp@[j] != '@',
        decreases rp@.len() - k, if at is None { 1int } else { 0int },
    {
        if rp[k] == '@' {
            at = Some(k);
        } else {
            k += 1;
        }
    }
    proof {
        lemma_first_index_of(rp@, '@');
        match at {
            Some(a) => lemma_first_index_of_found(rp@, '@', a as int),
            None => lemma_first_index_of_none(rp@, '@'),
        }
    }
    let (ref1, repo): (Vec<char>, Vec<char>) = match at {
        Some(a) => {
            let r1 = if q_ref.len() == 0 && a + 1 < rp.len() {
                slice_chars(rp.as_slice(), a + 1, rp.len())
            } else {
                q_ref
            };
            (r1, slice_chars(rp.as_slice(), 0, a))
        },
        None => (q_ref, rp),
    };
    let rest0 = strings_from(&segs, 2);
    let tree = !raw && rest0.len() >= 2 && (eq_str(chars_of(rest0[0].as_str()).as_slice(), "tree")
        || eq_str(chars_of(rest0[0].as_str()).as_slice(), "blob"));
    let ref2 = if tree && ref1.len() == 0 {
        chars_of(rest0[1].as_str())
    } else {
        ref1
    };
    let rest1 = if tree {
        strings_from(&rest0, 2)
    } else {
        rest0
    };
    if raw && rest1.len() == 0 {
        return Err(loader_message(chars_of("invalid raw github url")));
    }
    let ref3 = if raw && ref2.len() == 0 {
        chars_of(rest1[0].as_str())
    } else {
        ref2
    };
    let rest2 = if raw {
        strings_from(&rest1, 1)
    } else {
        rest1
    };
    let repo_path = repo_path_of(&rest2);
    let git_ref = if ref3.len() == 0 {
        chars_of("HEAD")
    } else {
        ref3
    };
    let mut canonical = chars_of("github.com/");
    extend_chars(&mut canonical, chars_of(owner.as_str()).as_slice());
    extend_str(&mut canonical, "/");
    extend_chars(&mut canonical, repo.as_slice());
    extend_str(&mut canonical, "@");
    extend_chars(&mut canonical, git_ref.as_slice());
    let pc = chars_of(repo_path.as_str());
    if pc.len() > 0 {
        extend_str(&mut canonical, "/");
        extend_chars(&mut canonical, pc.as_slice());
    }
    let g = GitHubPluginRef {
        owner,
        repo: text_of(&repo),
        git_ref: text_of(&git_ref),
        repo_path,
        canonical: text_of(&canonical),
    };
    Ok(g)
}

/// What `reqwest::Url::parse` gives for a text: the URL's serialization,
/// host, path and decoded query pairs, or the text of the parse error.
pub uninterp spec fn url_parse_result(s: Seq<char>) -> Result<
    (Seq<char>, Option<Seq<char>>, Seq<char>, Seq<(Seq<char>, Seq<char>)>),
    Seq<char>,
>;

pub open spec fn url_parts_view(u: UrlParts) -> (
    Seq<char>,
    Option<Seq<char>>,
    Seq<char>,
    Seq<(Seq<char>, Seq<char>)>,
) {
    (u.href@, opt_text(u.host), u.path@, text_pairs(u.query@))
}

/// Calls `reqwest::Url::parse` (the `url` crate's WHATWG URL parser) and
/// reads the serialization, the host, the path and the decoded query pairs
/// of the URL, or the error's text. What it gives is named `url_parse_result`; the parsing
/// itself is left unsaid.
#[verifier::external_body]
pub(crate) fn parse_url(s: &str) -> (r: Result<UrlParts, String>)
    ensures
        url_parse_result(s@) == (match r {
            Ok(u) => Ok(url_parts_view(u)),
            Err(t) => Err(t@),
        }),
{
    match reqwest::Url::parse(s) {
        Ok(u) => Ok(UrlParts {
            href: u.as_str().to_string(),
            host: u.host_str().map(|h| h.to_string()),
            path: u.path().to_string(),
            query: u.query_pairs().map(|(k, v)| (k.into_owned(), v.into_owned())).collect(),
        }),
        Err(e) => Err(e.to_string()),
    }
}

/// The URL a plugin source is parsed as: trimmed; an SSH remote
/// `git@github.com:owner/repo` becomes `https://github.com/owner/repo`; a
/// text without a scheme gets `https://`.
pub open spec fn source_url_text(raw: Seq<char>) -> Seq<char> {
    let u = trim(raw);
    let u1 = if "git@github.com:"@.is_prefix_of(u) {
        "https://github.com/"@ + replace_from(u, "git@github.com:"@, Seq::empty(), 0)
    } else {
        u
    };
    if next_match(u1, "://"@, 0) is Some {
        u1
    } else {
        "https://"@ + u1
    }
}

/// Reads where a plugin comes from: a blank source is refused; otherwise
/// the source is made a URL (`source_url_text`), parsed, and read as
/// [`github_ref_from_url`] says; a URL that does not parse is refused with
/// the parser's error.
pub fn parse_github_plugin_ref(raw: &str) -> (r: Result<GitHubPluginRef, PluginError>)
    ensures
        trim(raw@).len() == 0 ==> (r matches Err(e) && is_loader_error(e, "source url required"@)),
        trim(raw@).len() > 0 ==> match url_parse_result(source_url_text(raw@)) {
            Err(t) => r matches Err(e) && is_loader_error(e, "invalid github url: "@ + t),
            Ok(p) => match github_ref_spec(p.1, p.2, p.3) {
                Ok(v) => r matches Ok(g) && github_ref_view(g) == v,
                Err(m) => r matches Err(e) && is_loader_error(e, m),
            },
        },
{
    proof {
        reveal_strlit("source url required");
        reveal_strlit("git@github.com:");
        reveal_strlit("https://github.com/");
        reveal_strlit("://");
        reveal_strlit("https://");
        reveal_strlit("invalid github url: ");
    }
    let rc = chars_of(raw);
    let u = trim_chars(rc.as_slice());
    if u.len() == 0 {
        return Err(loader_message(chars_of("source url required")));
    }
    let ssh = chars_of("git@github.com:");
    let u1 = if has_prefix(u.as_slice(), ssh.as_slice()) {
        let mut w = chars_of("https://github.com/");
        let empty: Vec<char> = Vec::new();
        let replaced = replace_all_chars(u.as_slice(), ssh.as_slice(), empty.as_slice());
        extend_chars(&mut w, replaced.as_slice());
        w
    } else {
        u
    };
    let sep = chars_of("://");
    let url = match find_from(u1.as_slice(), sep.as_slice(), 0) {
        Some(_) => u1,
        None => {
            let mut w = chars_of("https://");
            extend_chars(&mut w, u1.as_slice());
            w
        },
    };
    let text = string_of(url.as_slice());
    match parse_url(text.as_str()) {
        Ok(parts) => github_ref_from_url(&parts),
        Err(t) => {
            let mut m = chars_of("invalid github url: ");
            extend_chars(&mut m, chars_of(t.as_str()).as_slice());
            Err(loader_message(m))
        },
    }
}

/// Every segment of a path is non-empty.
pub proof fn lemma_path_segments_non_empty(s: Seq<char>)
    ensures
        forall|i: int| 0 <= i < path_segments(s).len() ==> #[trigger] path_segments(s)[i].len() > 0,
    decreases s.len(),
{
    let k = first_index_of(s, '/');
    lemma_first_index_of(s, '/');
    if 0 <= k < s.len() {
        let seg = s.subrange(0, k);
        let tail = s.subrange(k + 1, s.len() as int);
        lemma_path_segments_non_empty(tail);
        if seg.len() > 0 {
            assert forall|i: int| 0 <= i < path_segments(s).len() implies #[trigger] path_segments(s)[i].len() > 0 by {
                if i > 0 {
                    assert(path_segments(s)[i] == path_segments(tail)[i - 1]);
                }
            }
        }
    }
}

/// A source that is accepted names an owner and a git ref (`HEAD` when the
/// URL gives none), and its canonical key is made of the parts read.
pub proof fn lemma_accepted_source_is_complete(
    host: Option<Seq<char>>,
    path: Seq<char>,
    query: Seq<(Seq<char>, Seq<char>)>,
)
    ensures
        github_ref_spec(host, path, query) matches Ok(v) ==> {
            &&& v.0.len() > 0
            &&& v.2.len() > 0
            &&& v.4 == canonical_text(v.0, v.1, v.2, v.3)
        },
{
    lemma_path_segments_non_empty(path);
    reveal_strlit("HEAD");
    if path_segments(path).len() >= 2 {
        assert(path_segments(path)[0].len() > 0);
    }
}

/// Cutting at the first occurrence of `n`, found at `i`, keeps what comes before it.
proof fn lemma_cut_at_first(h: Seq<char>, n: Seq<char>, i: int)
    requires
        n.len() > 0,
        matches_at(h, n, i),
        forall|j: int| 0 <= j < i ==> !matches_at(h, n, j),
    ensures
        cut_at(h, n) == h.subrange(0, i),
{
    lemma_next_match(h, n, 0);
    match next_match(h, n, 0) {
        Some(k) => {
            if k > i {
                assert(!matches_at(h, n, i));
            }
        },
        None => {
            assert(!matches_at(h, n, i));
        },
    }
}

/// Cutting at a text that does not occur keeps everything.
proof fn lemma_cut_at_absent(h: Seq<char>, n: Seq<char>)
    requires
        forall|j: int| 0 <= j ==> !matches_at(h, n, j),
    ensures
        cut_at(h, n) == h,
{
    lemma_next_match(h, n, 0);
    if let Some(k) = next_match(h, n, 0) {
        assert(matches_at(h, n, k));
    }
}

/// Text that neither starts nor ends with a slash is left as it is by
/// trimming slashes.
proof fn lemma_trim_slashes_keeps(x: Seq<char>)
    requires
        x.len() > 0,
        x[0] != '/',
        x.last() != '/',
    ensures
        trim_by(x, slash()) == x,
{
    assert(!slash()(x[0]));
    assert(trim_start_by(x, slash()) == x);
    assert(!slash()(x.last()));
    assert(trim_end_by(x, slash()) == x);
}

/// A markdown file inside an `agents` or `commands` directory belongs to the
/// plugin in the directory above: when the remaining path reads
/// `<dir>/agents/<file>` or `<dir>/commands/<file>`, where `<file>` is a
/// markdown file name (no slash, ending in `.md`, not `PLUGIN.md` or
/// `SKILL.md`) and `<dir>` neither starts nor ends with a slash and holds
/// no `/agents/` or `/commands/` of its own, the path inside the repository
/// is `<dir>`.
pub proof fn lemma_markdown_path_names_its_directory(
    rest: Seq<Seq<char>>,
    dir: Seq<char>,
    marker: Seq<char>,
    file: Seq<char>,
)
    requires
        marker == "/agents/"@ || marker == "/commands/"@,
        join(rest, "/"@) == dir + marker + file,
        dir.len() > 0,
        dir[0] != '/',
        dir.last() != '/',
        forall|j: int| 0 <= j < file.len() ==> file[j] != '/',
        ".md"@.is_suffix_of(file),
        !"PLUGIN.md"@.is_suffix_of(file),
        !"SKILL.md"@.is_suffix_of(file),
        forall|k: int|
            0 <= k < dir.len() ==> !matches_at(dir + marker + file, "/agents/"@, k) && !matches_at(
                dir + marker + file,
                "/commands/"@,
                k,
            ),
    ensures
        plugin_repo_path(rest) == dir,
{
    reveal_strlit("/agents/");
    reveal_strlit("/commands/");
    reveal_strlit(".md");
    reveal_strlit("PLUGIN.md");
    reveal_strlit("SKILL.md");
    let p = dir + marker + file;
    let a = "/agents/"@;
    let c = "/commands/"@;
    let dl = dir.len() as int;
    let ml = marker.len() as int;
    assert(file.len() >= 3);
    assert(p.len() == dl + ml + file.len());
    // The whole path neither starts nor ends with a slash.
    assert(p[0] == dir[0]);
    assert(p.last() == file.last());
    assert(file.last() == ".md"@[2]);
    lemma_trim_slashes_keeps(p);
    // It names no PLUGIN.md or SKILL.md file.
    assert(marker.last() == '/');
    assert(p[dl + ml - 1] == '/');
    assert forall|j: int| 0 <= j < file.len() implies p[dl + ml + j] == file[j] by {}
    if "PLUGIN.md"@.is_suffix_of(p) {
        if file.len() >= 9 {
            assert(file.subrange(file.len() - 9, file.len() as int) =~= p.subrange(p.len() - 9, p.len() as int));
        } else {
            let q = 9 - file.len() - 1;
            assert(p[dl + ml - 1] == p.subrange(p.len() - 9, p.len() as int)[q]);
        }
    }
    if "SKILL.md"@.is_suffix_of(p) {
        if file.len() >= 8 {
            assert(file.subrange(file.len() - 8, file.len() as int) =~= p.subrange(p.len() - 8, p.len() as int));
        } else {
            let q = 8 - file.len() - 1;
            assert(p[dl + ml - 1] == p.subrange(p.len() - 8, p.len() as int)[q]);
        }
    }
    assert(".md"@ =~= p.subrange(p.len() - 3, p.len() as int)) by {
        assert(file.subrange(file.len() - 3, file.len() as int) =~= p.subrange(p.len() - 3, p.len() as int));
    }
    assert(plugin_repo_path(rest) == trim_by(cut_at(cut_at(p, c), a), slash()));
    // The marker occurs right after the directory.
    assert(p.subrange(dl, dl + ml) =~= marker);
    assert(matches_at(p, marker, dl));
    assert(p.subrange(0, dl) =~= dir);
    if marker == a {
        // No `/commands/` anywhere: before the directory's end by the
        // requirement, after it a slash would fall inside the file name.
        assert forall|j: int| 0 <= j implies !matches_at(p, c, j) by {
            if j >= dl && matches_at(p, c, j) {
                assert(p.subrange(j, j + 10)[9] == '/');
                assert(p[j + 9] == '/');
                assert(p[dl + ml + (j + 9 - dl - ml)] == file[j + 9 - dl - ml]);
            }
        }
        lemma_cut_at_absent(p, c);
        lemma_cut_at_first(p, a, dl);
    } else {
        lemma_cut_at_first(p, c, dl);
        assert forall|j: int| 0 <= j implies !matches_at(dir, a, j) by {
            if matches_at(dir, a, j) {
                assert(p.subrange(j, j + 8) =~= dir.subrange(j, j + 8));
                assert(matches_at(p, a, j));
            }
        }
        lemma_cut_at_absent(dir, a);
    }
    lemma_trim_slashes_keeps(dir);
}

} // verus!
