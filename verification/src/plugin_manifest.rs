//! Reading a plugin's manifest from its markdown: a front matter block when
//! there is one, else the first heading and the paragraph under it.

use vstd::prelude::*;

use crate::bash_tokenizer::strings_view;
use crate::client_core::{first_index_of, lemma_first_index_of};
use crate::plugin_markdown::{
    closing_index, fm_key, fm_value, frontmatter_list, is_list_line, markdown_lines,
    split_frontmatter_list, split_lines, strip_dash_prefixes,
};
use crate::plugins::{PluginAgentName, PluginCommandName, PluginManifest};
use crate::text::{chars_of, slice_chars, starts_with_str, str_eq, string_of, trim, trim_chars};

verus! {

/// Lexicographic order of character sequences by code point (the order
/// `String`'s `Ord` gives, UTF-8 keeping code point order).
pub open spec fn text_le(a: Seq<char>, b: Seq<char>) -> bool
    decreases a.len(),
{
    if a.len() == 0 {
        true
    } else if b.len() == 0 {
        false
    } else if (a[0] as u32) < (b[0] as u32) {
        true
    } else if (a[0] as u32) > (b[0] as u32) {
        false
    } else {
        text_le(a.drop_first(), b.drop_first())
    }
}

/// `s` is in increasing order.
pub open spec fn texts_sorted(s: Seq<Seq<char>>) -> bool {
    forall|i: int, j: int| 0 <= i < j < s.len() ==> text_le(#[trigger] s[i], #[trigger] s[j])
}

proof fn lemma_text_le_total(a: Seq<char>, b: Seq<char>)
    ensures
        text_le(a, b) || text_le(b, a),
    decreases a.len(),
{
    if a.len() > 0 && b.len() > 0 && a[0] as u32 == b[0] as u32 {
        lemma_text_le_total(a.drop_first(), b.drop_first());
    }
}

proof fn lemma_text_le_trans(a: Seq<char>, b: Seq<char>, c: Seq<char>)
    requires
        text_le(a, b),
        text_le(b, c),
    ensures
        text_le(a, c),
    decreases a.len(),
{
    if a.len() > 0 && b.len() > 0 && c.len() > 0 && a[0] as u32 == b[0] as u32 && b[0] as u32
        == c[0] as u32 {
        lemma_text_le_trans(a.drop_first(), b.drop_first(), c.drop_first());
    }
}

fn chars_le(a: &[char], b: &[char]) -> (r: bool)
    ensures
        r == text_le(a@, b@),
{
    let mut i: usize = 0;
    assert(a@.skip(0) =~= a@);
    assert(b@.skip(0) =~= b@);
    while i < a.len() && i < b.len() && (a[i] as u32) == (b[i] as u32)
        invariant
            i <= a@.len(),
            i <= b@.len(),
            text_le(a@, b@) == text_le(a@.skip(i as int), b@.skip(i as int)),
        decreases a@.len() - i,
    {
        assert(a@.skip(i as int).drop_first() =~= a@.skip(i + 1));
        assert(b@.skip(i as int).drop_first() =~= b@.skip(i + 1));
        i += 1;
    }
    if i == a.len() {
        assert(a@.skip(i as int).len() == 0);
        return true;
    }
    if i == b.len() {
        return false;
    }
    assert(a@.skip(i as int)[0] == a@[i as int]);
    assert(b@.skip(i as int)[0] == b@[i as int]);
    (a[i] as u32) < (b[i] as u32)
}

/// Sorts texts in increasing order (an insertion sort).
pub fn sort_texts(v: Vec<String>) -> (r: Vec<String>)
    ensures
        texts_sorted(strings_view(r@)),
        strings_view(r@).to_multiset() == strings_view(v@).to_multiset(),
{
    let mut out: Vec<String> = Vec::new();
    let mut i: usize = 0;
    assert(strings_view(v@).take(0) =~= Seq::<Seq<char>>::empty());
    assert(strings_view(out@) =~= Seq::<Seq<char>>::empty());
    while i < v.len()
        invariant
            i <= v@.len(),
            texts_sorted(strings_view(out@)),
            strings_view(out@).to_multiset() == strings_view(v@).take(i as int).to_multiset(),
        decreases v@.len() - i,
    {
        let x = v[i].clone();
        let xc = chars_of(x.as_str());
        let ghost o = strings_view(out@);
        let mut p: usize = 0;
        while p < out.len() && chars_le(chars_of(out[p].as_str()).as_slice(), xc.as_slice())
            invariant
                p <= out@.len(),
                o == strings_view(out@),
                xc@ == x@,
                forall|k: int| 0 <= k < p ==> text_le(#[trigger] o[k], x@),
            decreases out@.len() - p,
        {
            assert(o[p as int] == out@[p as int]@);
            p += 1;
        }
        proof {
            if p < o.len() {
                assert(o[p as int] == out@[p as int]@);
                assert(!text_le(o[p as int], x@));
                lemma_text_le_total(o[p as int], x@);
                assert forall|k: int| p <= k < o.len() implies text_le(x@, #[trigger] o[k]) by {
                    if k > p {
                        lemma_text_le_trans(x@, o[p as int], o[k]);
                    }
                }
            }
        }
        out.insert(p, x);
        proof {
            let n = strings_view(out@);
            assert(n =~= o.insert(p as int, x@));
            assert forall|a: int, b: int| 0 <= a < b < n.len() implies text_le(
                #[trigger] n[a],
                #[trigger] n[b],
            ) by {
                if a < p && b < p {
                } else if a < p && b == p {
                } else if a < p && b > p {
                    assert(n[b] == o[b - 1]);
                } else if a == p {
                    assert(n[b] == o[b - 1]);
                } else {
                    assert(n[a] == o[a - 1]);
                    assert(n[b] == o[b - 1]);
                }
            }
            let vv = strings_view(v@);
            assert(vv.take(i + 1) =~= vv.take(i as int).push(vv[i as int]));
            assert(vv[i as int] == x@);
            vstd::seq_lib::to_multiset_insert(o, p as int, x@);
            vstd::seq_lib::to_multiset_build(vv.take(i as int), x@);
        }
        i += 1;
    }
    assert(strings_view(v@).take(v@.len() as int) =~= strings_view(v@));
    out
}

/// Which list a manifest front matter has open.
#[derive(Debug, Clone, Copy, PartialEq, Eq, Structural)]
pub enum ManifestList {
    NoList,
    Commands,
    Agents,
}

/// What has been read of a manifest front matter.
pub struct ManifestState {
    pub name: Option<Seq<char>>,
    pub description: Option<Seq<char>>,
    pub version: Option<Seq<char>>,
    pub commands: Option<Seq<Seq<char>>>,
    pub agents: Option<Seq<Seq<char>>>,
    pub list: ManifestList,
}

/// `x` appended to the list (created when missing).
pub open spec fn opt_push(o: Option<Seq<Seq<char>>>, x: Seq<char>) -> Option<Seq<Seq<char>>> {
    match o {
        Some(v) => Some(v.push(x)),
        None => Some(seq![x]),
    }
}

/// The list with the non-blank trimmed items appended.
pub open spec fn add_names(o: Option<Seq<Seq<char>>>, items: Seq<Seq<char>>) -> Option<Seq<Seq<char>>>
    decreases items.len(),
{
    if items.len() == 0 {
        o
    } else {
        let prev = add_names(o, items.drop_last());
        let t = trim(items.last());
        if t.len() > 0 {
            opt_push(prev, t)
        } else {
            prev
        }
    }
}

/// Reads one manifest front matter line; `None` when a line that is neither
/// a list item nor a comment has no `:`.
pub open spec fn manifest_step(st: ManifestState, line: Seq<char>) -> Option<ManifestState> {
    let raw = trim(line);
    if raw.len() == 0 || raw[0] == '#' {
        Some(st)
    } else if st.list != ManifestList::NoList && is_list_line(raw) {
        let item = trim(strip_dash_prefixes(raw));
        Some(
            if item.len() == 0 {
                st
            } else if st.list == ManifestList::Commands {
                ManifestState { commands: opt_push(st.commands, item), ..st }
            } else {
                ManifestState { agents: opt_push(st.agents, item), ..st }
            },
        )
    } else {
        let k = first_index_of(raw, ':');
        if !(0 <= k < raw.len()) {
            None
        } else {
            let st = ManifestState { list: ManifestList::NoList, ..st };
            let key = fm_key(raw);
            let value = fm_value(raw);
            Some(
                if key == "name"@ {
                    ManifestState { name: Some(value), ..st }
                } else if key == "description"@ {
                    ManifestState { description: Some(value), ..st }
                } else if key == "version"@ {
                    ManifestState { version: Some(value), ..st }
                } else if key == "commands"@ {
                    if value.len() == 0 {
                        ManifestState { list: ManifestList::Commands, ..st }
                    } else {
                        ManifestState { commands: add_names(st.commands, frontmatter_list(value)), ..st }
                    }
                } else if key == "agents"@ {
                    if value.len() == 0 {
                        ManifestState { list: ManifestList::Agents, ..st }
                    } else {
                        ManifestState { agents: add_names(st.agents, frontmatter_list(value)), ..st }
                    }
                } else {
                    st
                },
            )
        }
    }
}

/// Reads the manifest front matter lines in order.
pub open spec fn manifest_fold(lines: Seq<Seq<char>>) -> Option<ManifestState>
    decreases lines.len(),
{
    if lines.len() == 0 {
        Some(
            ManifestState {
                name: None,
                description: None,
                version: None,
                commands: None,
                agents: None,
                list: ManifestList::NoList,
            },
        )
    } else {
        match manifest_fold(lines.drop_last()) {
            None => None,
            Some(st) => manifest_step(st, lines.last()),
        }
    }
}

/// The state read from the front matter block of `md`, if `md` starts
/// with one.
pub open spec fn manifest_frontmatter_state(md: Seq<char>) -> Option<ManifestState> {
    let lines = markdown_lines(md);
    let end = closing_index(lines);
    if lines.len() == 0 || trim(lines[0]) != "---"@ || end < 0 {
        None
    } else {
        manifest_fold(lines.subrange(1, end))
    }
}

/// The texts of command names.
pub open spec fn command_texts(v: Seq<PluginCommandName>) -> Seq<Seq<char>> {
    v.map_values(|n: PluginCommandName| n.text())
}

/// The texts of agent names.
pub open spec fn agent_texts(v: Seq<PluginAgentName>) -> Seq<Seq<char>> {
    v.map_values(|n: PluginAgentName| n.text())
}

/// An optional text, by its view.
pub open spec fn opt_text(o: Option<String>) -> Option<Seq<char>> {
    match o {
        Some(s) => Some(s@),
        None => None,
    }
}

/// `out` holds the names of `expected` sorted (or both are missing).
pub open spec fn sorted_names(out: Option<Seq<Seq<char>>>, expected: Option<Seq<Seq<char>>>) -> bool {
    match expected {
        None => out is None,
        Some(e) => out matches Some(o) && texts_sorted(o) && o.to_multiset() == e.to_multiset(),
    }
}

/// The manifest holds what `st` read, its command and agent names sorted.
pub open spec fn manifest_matches(m: PluginManifest, st: ManifestState) -> bool {
    &&& opt_text(m.name) == st.name
    &&& opt_text(m.description) == st.description
    &&& opt_text(m.version) == st.version
    &&& sorted_names(
        match m.commands {
            Some(v) => Some(command_texts(v@)),
            None => None,
        },
        st.commands,
    )
    &&& sorted_names(
        match m.agents {
            Some(v) => Some(agent_texts(v@)),
            None => None,
        },
        st.agents,
    )
}

/// An optional list of strings, by its texts.
pub open spec fn opt_list(o: Option<Vec<String>>) -> Option<Seq<Seq<char>>> {
    match o {
        Some(v) => Some(strings_view(v@)),
        None => None,
    }
}

/// A manifest front matter being read.
struct ManifestReader {
    name: Option<String>,
    description: Option<String>,
    version: Option<String>,
    commands: Option<Vec<String>>,
    agents: Option<Vec<String>>,
    list: ManifestList,
}

impl ManifestReader {
    spec fn state(&self) -> ManifestState {
        ManifestState {
            name: opt_text(self.name),
            description: opt_text(self.description),
            version: opt_text(self.version),
            commands: opt_list(self.commands),
            agents: opt_list(self.agents),
            list: self.list,
        }
    }
}

fn push_opt(o: &mut Option<Vec<String>>, x: String)
    ensures
        opt_list(*final(o)) == opt_push(opt_list(*old(o)), x@),
{
    match o {
        Some(v) => {
            let ghost v0 = v@;
            v.push(x);
            assert(strings_view(v@) =~= strings_view(v0).push(x@));
        },
        None => {
            let mut v: Vec<String> = Vec::new();
            v.push(x);
            assert(strings_view(v@) =~= seq![x@]);
            *o = Some(v);
        },
    }
}

fn add_items(o: &mut Option<Vec<String>>, items: &Vec<String>)
    ensures
        opt_list(*final(o)) == add_names(opt_list(*old(o)), strings_view(items@)),
{
    let ghost iv = strings_view(items@);
    let ghost o0 = opt_list(*o);
    let mut j: usize = 0;
    assert(iv.take(0) =~= Seq::<Seq<char>>::empty());
    while j < items.len()
        invariant
            j <= items@.len(),
            iv == strings_view(items@),
            opt_list(*o) == add_names(o0, iv.take(j as int)),
        decreases items@.len() - j,
    {
        assert(iv.take(j + 1).drop_last() =~= iv.take(j as int));
        assert(iv.take(j + 1).last() == items@[j as int]@);
        let c = chars_of(items[j].as_str());
        let t = trim_chars(c.as_slice());
        if t.len() > 0 {
            push_opt(o, string_of(t.as_slice()));
        }
        j += 1;
    }
    assert(iv.take(iv.len() as int) =~= iv);
}

fn read_manifest_line(rd: &mut ManifestReader, line: &String) -> (ok: bool)
    ensures
        match manifest_step(old(rd).state(), line@) {
            None => !ok,
            Some(s) => ok && final(rd).state() == s,
        },
{
    let lc = chars_of(line.as_str());
    let raw = trim_chars(lc.as_slice());
    if raw.len() == 0 || raw[0] == '#' {
        return true;
    }
    if rd.list != ManifestList::NoList && raw.len() >= 2 && raw[0] == '-' && raw[1] == ' ' {
        let s = crate::plugin_markdown::strip_dashes_pub(raw.as_slice());
        let item = trim_chars(s.as_slice());
        if item.len() > 0 {
            if rd.list == ManifestList::Commands {
                push_opt(&mut rd.commands, string_of(item.as_slice()));
            } else {
                push_opt(&mut rd.agents, string_of(item.as_slice()));
            }
        }
        return true;
    }
    proof {
        lemma_first_index_of(raw@, ':');
    }
    if !crate::text::contains_char(raw.as_slice(), ':') {
        proof {
            if 0 <= first_index_of(raw@, ':') < raw@.len() {
                assert(raw@[first_index_of(raw@, ':')] == ':');
            }
        }
        return false;
    }
    proof {
        let k = first_index_of(raw@, ':');
        if k < 0 {
            let w = choose|w: int| 0 <= w < raw@.len() && raw@[w] == ':';
            assert(raw@[w] != ':');
        }
    }
    rd.list = ManifestList::NoList;
    let (key, value) = crate::plugin_markdown::key_value_pub(raw.as_slice());
    let k = key.as_str();
    if str_eq(k, "name") {
        rd.name = Some(string_of(value.as_slice()));
    } else if str_eq(k, "description") {
        rd.description = Some(string_of(value.as_slice()));
    } else if str_eq(k, "version") {
        rd.version = Some(string_of(value.as_slice()));
    } else if str_eq(k, "commands") {
        if value.len() == 0 {
            rd.list = ManifestList::Commands;
        } else {
            let vs = string_of(value.as_slice());
            let items = split_frontmatter_list(vs.as_str());
            add_items(&mut rd.commands, &items);
        }
    } else if str_eq(k, "agents") {
        if value.len() == 0 {
            rd.list = ManifestList::Agents;
        } else {
            let vs = string_of(value.as_slice());
            let items = split_frontmatter_list(vs.as_str());
            add_items(&mut rd.agents, &items);
        }
    }
    true
}

proof fn lemma_manifest_fold_abort(lines: Seq<Seq<char>>, n: int)
    requires
        0 <= n <= lines.len(),
        manifest_fold(lines.take(n)) is None,
    ensures
        manifest_fold(lines) is None,
    decreases lines.len() - n,
{
    if n < lines.len() {
        assert(lines.take(n + 1).drop_last() =~= lines.take(n));
        lemma_manifest_fold_abort(lines, n + 1);
    } else {
        assert(lines.take(n) =~= lines);
    }
}

fn command_names(v: Vec<String>) -> (r: Vec<PluginCommandName>)
    ensures
        command_texts(r@) == strings_view(v@),
{
    let mut r: Vec<PluginCommandName> = Vec::new();
    let mut i: usize = 0;
    while i < v.len()
        invariant
            i <= v@.len(),
            command_texts(r@) == strings_view(v@).take(i as int),
        decreases v@.len() - i,
    {
        let ghost r0 = r@;
        r.push(PluginCommandName::from_text(v[i].clone()));
        assert(command_texts(r@) =~= command_texts(r0).push(v@[i as int]@));
        assert(strings_view(v@).take(i + 1) =~= strings_view(v@).take(i as int).push(v@[i as int]@));
        i += 1;
    }
    assert(strings_view(v@).take(v@.len() as int) =~= strings_view(v@));
    r
}

fn agent_names(v: Vec<String>) -> (r: Vec<PluginAgentName>)
    ensures
        agent_texts(r@) == strings_view(v@),
{
    let mut r: Vec<PluginAgentName> = Vec::new();
    let mut i: usize = 0;
    while i < v.len()
        invariant
            i <= v@.len(),
            agent_texts(r@) == strings_view(v@).take(i as int),
        decreases v@.len() - i,
    {
        let ghost r0 = r@;
        r.push(PluginAgentName::from_text(v[i].clone()));
        assert(agent_texts(r@) =~= agent_texts(r0).push(v@[i as int]@));
        assert(strings_view(v@).take(i + 1) =~= strings_view(v@).take(i as int).push(v@[i as int]@));
        i += 1;
    }
    assert(strings_view(v@).take(v@.len() as int) =~= strings_view(v@));
    r
}

/// Reads the manifest from the front matter block that opens `markdown`.
#[verifier::loop_isolation(false)]
pub fn parse_manifest_frontmatter(markdown: &str) -> (r: Option<PluginManifest>)
    ensures
        match manifest_frontmatter_state(markdown@) {
            None => r is None,
            Some(st) => r matches Some(m) && manifest_matches(m, st),
        },
{
    let lines = split_lines(markdown);
    let ghost lv = strings_view(lines@);
    if lines.len() == 0 {
        return None;
    }
    let c0 = chars_of(lines[0].as_str());
    let t0 = trim_chars(c0.as_slice());
    assert(lv[0] == lines@[0]@);
    if !crate::text::eq_str(t0.as_slice(), "---") {
        return None;
    }
    let end = match crate::plugin_markdown::find_closing(&lines) {
        Some(e) => e,
        None => {
            return None;
        },
    };
    let mut rd = ManifestReader {
        name: None,
        description: None,
        version: None,
        commands: None,
        agents: None,
        list: ManifestList::NoList,
    };
    let mut i: usize = 1;
    assert(lv.subrange(1, 1) =~= Seq::<Seq<char>>::empty());
    while i < end
        invariant
            1 <= i <= end <= lines@.len(),
            lv == strings_view(lines@),
            manifest_fold(lv.subrange(1, i as int)) == Some(rd.state()),
        decreases end - i,
    {
        assert(lv.subrange(1, i + 1).drop_last() =~= lv.subrange(1, i as int));
        assert(lv.subrange(1, i + 1).last() == lines@[i as int]@);
        if !read_manifest_line(&mut rd, &lines[i]) {
            proof {
                let body = lv.subrange(1, end as int);
                assert(body.take(i as int) =~= lv.subrange(1, i + 1));
                lemma_manifest_fold_abort(body, i as int);
            }
            return None;
        }
        i += 1;
    }
    let commands = match rd.commands {
        Some(v) => Some(command_names(sort_texts(v))),
        None => None,
    };
    let agents = match rd.agents {
        Some(v) => Some(agent_names(sort_texts(v))),
        None => None,
    };
    Some(PluginManifest { name: rd.name, description: rd.description, version: rd.version, commands, agents })
}

/// The text of the first `# ` heading line, trimmed.
pub open spec fn heading_name(lines: Seq<Seq<char>>) -> Option<Seq<char>>
    decreases lines.len(),
{
    if lines.len() == 0 {
        None
    } else if "# "@.is_prefix_of(lines[0]) {
        Some(trim(lines[0].subrange(2, lines[0].len() as int)))
    } else {
        heading_name(lines.drop_first())
    }
}

/// The first non-blank line after a `# ` heading, unless a `## ` heading
/// comes first (lines trimmed).
pub open spec fn heading_description(lines: Seq<Seq<char>>, after: bool) -> Option<Seq<char>>
    decreases lines.len(),
{
    if lines.len() == 0 {
        None
    } else {
        let t = trim(lines[0]);
        if "# "@.is_prefix_of(t) {
            heading_description(lines.drop_first(), true)
        } else if !after || t.len() == 0 {
            heading_description(lines.drop_first(), after)
        } else if "## "@.is_prefix_of(t) {
            None
        } else {
            Some(t)
        }
    }
}

/// What a plugin's markdown declares: its front matter when it opens with
/// one, else the first heading as name and the paragraph under it as
/// description.
pub open spec fn plugin_manifest_state(md: Seq<char>) -> ManifestState {
    let t = trim(md);
    let empty = ManifestState {
        name: None,
        description: None,
        version: None,
        commands: None,
        agents: None,
        list: ManifestList::NoList,
    };
    if t.len() == 0 {
        empty
    } else {
        match manifest_frontmatter_state(t) {
            Some(st) => st,
            None => {
                let lines = markdown_lines(t);
                let name = heading_name(lines);
                ManifestState {
                    name,
                    description: if name is Some {
                        heading_description(lines, false)
                    } else {
                        None
                    },
                    ..empty
                }
            },
        }
    }
}

fn find_heading(lines: &Vec<String>) -> (r: Option<String>)
    ensures
        opt_text(r) == heading_name(strings_view(lines@)),
{
    let ghost lv = strings_view(lines@);
    let mut i: usize = 0;
    assert(lv.skip(0) =~= lv);
    while i < lines.len()
        invariant
            i <= lines@.len(),
            lv == strings_view(lines@),
            heading_name(lv) == heading_name(lv.skip(i as int)),
        decreases lines@.len() - i,
    {
        let c = chars_of(lines[i].as_str());
        assert(lv.skip(i as int)[0] == c@);
        assert(lv.skip(i as int).drop_first() =~= lv.skip(i + 1));
        if starts_with_str(c.as_slice(), "# ") {
            proof {
                reveal_strlit("# ");
            }
            let rest = slice_chars(c.as_slice(), 2, c.len());
            let t = trim_chars(rest.as_slice());
            return Some(string_of(t.as_slice()));
        }
        i += 1;
    }
    None
}

fn find_description(lines: &Vec<String>) -> (r: Option<String>)
    ensures
        opt_text(r) == heading_description(strings_view(lines@), false),
{
    let ghost lv = strings_view(lines@);
    let mut after = false;
    let mut i: usize = 0;
    assert(lv.skip(0) =~= lv);
    while i < lines.len()
        invariant
            i <= lines@.len(),
            lv == strings_view(lines@),
            heading_description(lv, false) == heading_description(lv.skip(i as int), after),
        decreases lines@.len() - i,
    {
        let c = chars_of(lines[i].as_str());
        assert(lv.skip(i as int)[0] == c@);
        assert(lv.skip(i as int).drop_first() =~= lv.skip(i + 1));
        let t = trim_chars(c.as_slice());
        if starts_with_str(t.as_slice(), "# ") {
            after = true;
        } else if !after || t.len() == 0 {
        } else if starts_with_str(t.as_slice(), "## ") {
            return None;
        } else {
            return Some(string_of(t.as_slice()));
        }
        i += 1;
    }
    None
}

/// Reads a plugin's manifest from its markdown.
pub fn parse_plugin_manifest(markdown: &str) -> (r: PluginManifest)
    ensures
        manifest_matches(r, plugin_manifest_state(markdown@)),
{
    let c = chars_of(markdown);
    let t = trim_chars(c.as_slice());
    if t.len() == 0 {
        return PluginManifest::default();
    }
    let trimmed = string_of(t.as_slice());
    if let Some(front) = parse_manifest_frontmatter(trimmed.as_str()) {
        return front;
    }
    let lines = split_lines(trimmed.as_str());
    let name = find_heading(&lines);
    let description = if name.is_some() {
        find_description(&lines)
    } else {
        None
    };
    PluginManifest { name, description, version: None, commands: None, agents: None }
}

} // verus!
