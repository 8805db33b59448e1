//! Reading plugin markdown: lines, front matter blocks and their lists.

use vstd::prelude::*;

use crate::bash_policy::join;
use crate::bash_tokenizer::strings_view;
use crate::client_core::{
    first_index_of, lemma_first_index_of, lemma_first_index_of_found, lemma_first_index_of_none,
};
use crate::local_fs_edit::{replace_all_chars, replace_from};
use crate::plugins::{
    either, strip_chars, strip_end_chars, strip_start_chars, tool_named, trim_by, trim_end_by,
    trim_start_by, PluginError, PluginOrchestrationErrorCode, PluginToolName,
};
use crate::text::{chars_of, slice_chars, str_eq, string_of, trim, trim_chars};

verus! {

/// The first `c` in `v` at or after `from`, as a position in `v`.
fn find_char_from(v: &[char], from: usize, c: char) -> (r: Option<usize>)
    requires
        from <= v@.len(),
    ensures
        ({
            let rest = v@.subrange(from as int, v@.len() as int);
            match r {
                Some(k) => from <= k < v@.len() && first_index_of(rest, c) == k - from,
                None => first_index_of(rest, c) == -1,
            }
        }),
{
    let ghost rest = v@.subrange(from as int, v@.len() as int);
    let mut k = from;
    while k < v.len() && v[k] != c
        invariant
            from <= k <= v@.len(),
            forall|j: int| from <= j < k ==> v@[j] != c,
        decreases v@.len() - k,
    {
        k += 1;
    }
    if k < v.len() {
        proof {
            assert forall|j: int| 0 <= j < k - from implies rest[j] != c by {
                assert(rest[j] == v@[from + j]);
            }
            assert(rest[k - from] == v@[k as int]);
            lemma_first_index_of_found(rest, c, k - from);
        }
        Some(k)
    } else {
        proof {
            assert forall|j: int| 0 <= j < rest.len() implies rest[j] != c by {
                assert(rest[j] == v@[from + j]);
            }
            lemma_first_index_of_none(rest, c);
        }
        None
    }
}

/// `s` with every `\r\n` turned into `\n`.
pub open spec fn crlf_normalized(s: Seq<char>) -> Seq<char> {
    replace_from(s, seq!['\r', '\n'], seq!['\n'], 0)
}

/// The lines of `s` as `str::lines` gives them: split at `\n`, a `\r`
/// just before a `\n` dropped, no empty last line.
pub open spec fn text_lines(s: Seq<char>) -> Seq<Seq<char>>
    decreases s.len(),
{
    let k = first_index_of(s, '\n');
    if 0 <= k < s.len() {
        let line = s.subrange(0, k);
        let line = if line.len() > 0 && line.last() == '\r' {
            line.drop_last()
        } else {
            line
        };
        seq![line] + text_lines(s.subrange(k + 1, s.len() as int))
    } else if s.len() == 0 {
        seq![]
    } else {
        seq![s]
    }
}

/// The lines of markdown text, with Windows line endings normalised first.
pub open spec fn markdown_lines(s: Seq<char>) -> Seq<Seq<char>> {
    text_lines(crlf_normalized(s))
}

fn lines_of(v: &[char]) -> (r: Vec<String>)
    ensures
        strings_view(r@) == text_lines(v@),
{
    let ghost whole = v@;
    let vl = v.len();
    let mut out: Vec<String> = Vec::new();
    let mut start: usize = 0;
    let mut done = false;
    assert(v@.subrange(0, v@.len() as int) =~= v@);
    while !done
        invariant
            vl == v@.len(),
            start <= v@.len(),
            whole == v@,
            !done ==> text_lines(whole) == strings_view(out@) + text_lines(
                v@.subrange(start as int, v@.len() as int),
            ),
            done ==> text_lines(whole) == strings_view(out@),
        decreases v@.len() - start + (if done {
            0int
        } else {
            1int
        }),
    {
        let ghost rest = v@.subrange(start as int, v@.len() as int);
        let ghost o = strings_view(out@);
        proof {
            lemma_first_index_of(rest, '\n');
        }
        match find_char_from(v, start, '\n') {
            Some(k) => {
                let mut end = k;
                if end > start && v[end - 1] == '\r' {
                    end -= 1;
                }
                let line = slice_chars(v, start, end);
                out.push(string_of(line.as_slice()));
                proof {
                    let l = rest.subrange(0, k - start);
                    assert(rest.subrange(0, k - start) =~= v@.subrange(start as int, k as int));
                    if end < k {
                        assert(l.drop_last() =~= line@);
                    } else {
                        assert(l =~= line@);
                    }
                    assert(rest.subrange(k - start + 1, rest.len() as int) =~= v@.subrange(
                        k + 1,
                        v@.len() as int,
                    ));
                    assert(strings_view(out@) =~= o.push(line@));
                    assert(o.push(line@) + text_lines(v@.subrange(k + 1, v@.len() as int)) =~= o + (
                    seq![line@] + text_lines(v@.subrange(k + 1, v@.len() as int))));
                }
                start = k + 1;
            },
            None => {
                if start < v.len() {
                    let line = slice_chars(v, start, v.len());
                    out.push(string_of(line.as_slice()));
                    assert(strings_view(out@) =~= o + seq![rest]);
                } else {
                    assert(rest.len() == 0);
                    assert(o + text_lines(rest) =~= o);
                }
                done = true;
            },
        }
    }
    out
}

/// Splits markdown into lines, `\r\n` and `\n` both ending a line.
pub fn split_lines(input: &str) -> (r: Vec<String>)
    ensures
        strings_view(r@) == markdown_lines(input@),
{
    let v = chars_of(input);
    let crlf = vec!['\r', '\n'];
    let lf = vec!['\n'];
    assert(crlf@ =~= seq!['\r', '\n']);
    assert(lf@ =~= seq!['\n']);
    let n = replace_all_chars(v.as_slice(), crlf.as_slice(), lf.as_slice());
    lines_of(n.as_slice())
}

/// The parts of `s` between the occurrences of `c` (as `str::split`).
pub open spec fn split_on(s: Seq<char>, c: char) -> Seq<Seq<char>>
    decreases s.len(),
{
    let k = first_index_of(s, c);
    if 0 <= k < s.len() {
        seq![s.subrange(0, k)] + split_on(s.subrange(k + 1, s.len() as int), c)
    } else {
        seq![s]
    }
}

/// The quote characters stripped from front matter values.
pub open spec fn quotes() -> spec_fn(char) -> bool {
    either('"', '\'')
}

/// A front matter value or list item: trimmed, then without surrounding quotes.
pub open spec fn unquoted(s: Seq<char>) -> Seq<char> {
    trim_by(trim(s), quotes())
}

/// The non-empty unquoted parts, in order.
pub open spec fn list_items(parts: Seq<Seq<char>>) -> Seq<Seq<char>>
    decreases parts.len(),
{
    if parts.len() == 0 {
        seq![]
    } else {
        let rest = list_items(parts.drop_last());
        let p = unquoted(parts.last());
        if p.len() > 0 {
            rest.push(p)
        } else {
            rest
        }
    }
}

/// The items of an inline front matter list such as `[a, "b"]`.
pub open spec fn frontmatter_list(raw: Seq<char>) -> Seq<Seq<char>> {
    let cleaned = trim_end_by(trim_start_by(trim(raw), either('[', '[')), either(']', ']'));
    if cleaned.len() == 0 {
        seq![]
    } else {
        list_items(split_on(cleaned, ','))
    }
}

fn unquote(v: &[char]) -> (r: Vec<char>)
    ensures
        r@ == unquoted(v@),
{
    let t = trim_chars(v);
    strip_chars(t.as_slice(), '"', '\'')
}

/// Splits an inline front matter list into its items.
pub fn split_frontmatter_list(raw: &str) -> (r: Vec<String>)
    ensures
        strings_view(r@) == frontmatter_list(raw@),
{
    let c = chars_of(raw);
    let t = trim_chars(c.as_slice());
    let a = strip_start_chars(t.as_slice(), '[', '[');
    let cleaned = strip_end_chars(a.as_slice(), ']', ']');
    let mut out: Vec<String> = Vec::new();
    if cleaned.len() == 0 {
        return out;
    }
    let ghost parts = split_on(cleaned@, ',');
    let cl = cleaned.len();
    let mut start: usize = 0;
    let mut done = false;
    let ghost mut taken: Seq<Seq<char>> = seq![];
    assert(cleaned@.subrange(0, cleaned@.len() as int) =~= cleaned@);
    while !done
        invariant
            cl == cleaned@.len(),
            start <= cleaned@.len(),
            parts == split_on(cleaned@, ','),
            strings_view(out@) == list_items(taken),
            !done ==> parts == taken + split_on(cleaned@.subrange(start as int, cleaned@.len() as int), ','),
            done ==> parts == taken,
        decreases cleaned@.len() - start + (if done {
            0int
        } else {
            1int
        }),
    {
        let ghost rest = cleaned@.subrange(start as int, cleaned@.len() as int);
        proof {
            lemma_first_index_of(rest, ',');
        }
        let (end, next) = match find_char_from(cleaned.as_slice(), start, ',') {
            Some(k) => (k, Some(k + 1)),
            None => (cleaned.len(), None),
        };
        let part = slice_chars(cleaned.as_slice(), start, end);
        let item = unquote(part.as_slice());
        let ghost t0 = taken;
        let ghost o = strings_view(out@);
        if item.len() > 0 {
            out.push(string_of(item.as_slice()));
            assert(strings_view(out@) =~= o.push(item@));
        }
        proof {
            taken = t0.push(part@);
            assert(taken.drop_last() =~= t0);
        }
        match next {
            Some(n) => {
                proof {
                    assert(rest.subrange(0, end - start) =~= part@);
                    assert(rest.subrange(end - start + 1, rest.len() as int) =~= cleaned@.subrange(
                        n as int,
                        cleaned@.len() as int,
                    ));
                    assert(t0 + split_on(rest, ',') =~= taken + split_on(
                        cleaned@.subrange(n as int, cleaned@.len() as int),
                        ',',
                    ));
                }
                start = n;
            },
            None => {
                proof {
                    assert(rest =~= part@);
                    assert(t0 + split_on(rest, ',') =~= taken);
                }
                done = true;
            },
        }
    }
    out
}

/// What `str::to_lowercase` returns for `s` (Unicode lower-casing).
pub uninterp spec fn unicode_lowercase(s: Seq<char>) -> Seq<char>;

/// Calls `str::to_lowercase`; its Unicode case mapping is named
/// `unicode_lowercase` and not spelled out, except that an ASCII text is
/// lower-cased character by character in ASCII (`A`-`Z` become `a`-`z`,
/// every other ASCII character stays).
#[verifier::external_body]
pub(crate) fn to_lowercase(s: &str) -> (r: String)
    ensures
        r@ == unicode_lowercase(s@),
        (forall|i: int| 0 <= i < s@.len() ==> (#[trigger] s@[i] as u32) < 128) ==> r@
            == crate::text::ascii_lower_seq(s@),
{
    s.to_lowercase()
}

/// The key of a front matter line: the text before its first `:`, trimmed
/// and lower-cased.
pub open spec fn fm_key(raw: Seq<char>) -> Seq<char> {
    let k = first_index_of(raw, ':');
    unicode_lowercase(trim(if 0 <= k < raw.len() { raw.subrange(0, k) } else { raw }))
}

/// The value of a front matter line: the text after its first `:` (empty
/// when it has none), unquoted.
pub open spec fn fm_value(raw: Seq<char>) -> Seq<char> {
    let k = first_index_of(raw, ':');
    unquoted(if 0 <= k < raw.len() { raw.subrange(k + 1, raw.len() as int) } else { seq![] })
}

/// `s` without its repeated leading `- ` prefixes.
pub open spec fn strip_dash_prefixes(s: Seq<char>) -> Seq<char>
    decreases s.len(),
{
    if s.len() >= 2 && s[0] == '-' && s[1] == ' ' {
        strip_dash_prefixes(s.subrange(2, s.len() as int))
    } else {
        s
    }
}

/// Whether `raw` is a `- item` line.
pub open spec fn is_list_line(raw: Seq<char>) -> bool {
    raw.len() >= 2 && raw[0] == '-' && raw[1] == ' '
}

/// What has been read of an agent's front matter: its description, its tool
/// names, and whether a `tools:` list is open.
pub struct AgentFmState {
    pub description: Option<Seq<char>>,
    pub items: Seq<Seq<char>>,
    pub in_tools: bool,
}

/// Reads one front matter line.
pub open spec fn agent_fm_step(st: AgentFmState, line: Seq<char>) -> AgentFmState {
    let raw = trim(line);
    if raw.len() == 0 || raw[0] == '#' {
        st
    } else if st.in_tools && is_list_line(raw) {
        let item = trim(strip_dash_prefixes(raw));
        AgentFmState {
            items: if item.len() > 0 {
                st.items.push(item)
            } else {
                st.items
            },
            ..st
        }
    } else {
        let key = fm_key(raw);
        let value = fm_value(raw);
        let description = if key == "description"@ {
            Some(value)
        } else {
            st.description
        };
        if key == "tools"@ {
            if value.len() == 0 {
                AgentFmState { description, items: st.items, in_tools: true }
            } else {
                AgentFmState { description, items: st.items + frontmatter_list(value), in_tools: false }
            }
        } else {
            AgentFmState { description, items: st.items, in_tools: false }
        }
    }
}

/// Reads the front matter lines in order.
pub open spec fn agent_fm_fold(lines: Seq<Seq<char>>) -> AgentFmState
    decreases lines.len(),
{
    if lines.len() == 0 {
        AgentFmState { description: None, items: seq![], in_tools: false }
    } else {
        agent_fm_step(agent_fm_fold(lines.drop_last()), lines.last())
    }
}

/// The first line after the first one that is `---` once trimmed, or -1.
pub open spec fn closing_index(lines: Seq<Seq<char>>) -> int {
    closing_from(lines, 1)
}

/// The first line at or after `i` that is `---` once trimmed, or -1.
pub open spec fn closing_from(lines: Seq<Seq<char>>, i: int) -> int
    decreases lines.len() - i,
{
    if i < 0 || i >= lines.len() {
        -1
    } else if trim(lines[i]) == "---"@ {
        i
    } else {
        closing_from(lines, i + 1)
    }
}

/// Tool names read as tools, or the first one that is not a tool.
pub open spec fn tools_of(items: Seq<Seq<char>>) -> Result<Seq<PluginToolName>, Seq<char>>
    decreases items.len(),
{
    if items.len() == 0 {
        Ok(seq![])
    } else {
        match tools_of(items.drop_last()) {
            Err(bad) => Err(bad),
            Ok(ts) => match tool_named(items.last()) {
                Some(t) => Ok(ts.push(t)),
                None => Err(items.last()),
            },
        }
    }
}

/// The front matter of an agent file and the markdown after it.
#[derive(Debug, Clone)]
pub struct FrontMatter {
    pub description: Option<String>,
    pub tools: Option<Vec<PluginToolName>>,
    pub body: String,
}

/// The parts of a front matter as plain values.
pub struct FrontMatterView {
    pub description: Option<Seq<char>>,
    pub tools: Option<Seq<PluginToolName>>,
    pub body: Seq<char>,
}

impl View for FrontMatter {
    type V = FrontMatterView;

    open spec fn view(&self) -> FrontMatterView {
        FrontMatterView {
            description: match self.description {
                Some(d) => Some(d@),
                None => None,
            },
            tools: match self.tools {
                Some(t) => Some(t@),
                None => None,
            },
            body: self.body@,
        }
    }
}

/// The outcome of reading an agent file: without a closed `---` block at
/// its start the whole text is the body; else the block's `description`
/// and `tools` are read (a tool name that is not a tool is refused), and
/// the body is what follows the block, without leading line breaks.
pub open spec fn frontmatter_result(md: Seq<char>) -> Result<FrontMatterView, Seq<char>> {
    let trimmed = trim(md);
    let lines = markdown_lines(trimmed);
    let end = closing_index(lines);
    if !"---"@.is_prefix_of(trimmed) || end < 0 {
        Ok(FrontMatterView { description: None, tools: None, body: md })
    } else {
        let st = agent_fm_fold(lines.subrange(1, end));
        let body = trim_start_by(join(lines.subrange(end + 1, lines.len() as int), "\n"@), either('\n', '\r'));
        if st.items.len() == 0 {
            Ok(FrontMatterView { description: st.description, tools: None, body })
        } else {
            match tools_of(st.items) {
                Ok(ts) => Ok(FrontMatterView { description: st.description, tools: Some(ts), body }),
                Err(bad) => Err(bad),
            }
        }
    }
}

/// Splits a front matter line at its first `:` into key and value.
fn key_value(raw: &[char]) -> (r: (String, Vec<char>))
    ensures
        r.0@ == fm_key(raw@),
        r.1@ == fm_value(raw@),
{
    proof {
        lemma_first_index_of(raw@, ':');
    }
    let rl = raw.len();
    assert(rl == raw@.len());
    let (before, after) = match find_char_from(raw, 0, ':') {
        Some(k) => (slice_chars(raw, 0, k), slice_chars(raw, k + 1, raw.len())),
        None => (slice_chars(raw, 0, raw.len()), Vec::new()),
    };
    assert(raw@.subrange(0, raw@.len() as int) =~= raw@);
    let kt = trim_chars(before.as_slice());
    let ks = string_of(kt.as_slice());
    let key = to_lowercase(ks.as_str());
    let value = unquote(after.as_slice());
    proof {
        let k = first_index_of(raw@, ':');
        if !(0 <= k < raw@.len()) {
            assert(after@ =~= Seq::<char>::empty());
        }
    }
    (key, value)
}

fn strip_dashes(v: &[char]) -> (r: Vec<char>)
    ensures
        r@ == strip_dash_prefixes(v@),
{
    let mut i: usize = 0;
    assert(v@.subrange(0, v@.len() as int) =~= v@);
    while v.len() - i >= 2 && v[i] == '-' && v[i + 1] == ' '
        invariant
            i <= v@.len(),
            strip_dash_prefixes(v@) == strip_dash_prefixes(v@.subrange(i as int, v@.len() as int)),
        decreases v@.len() - i,
    {
        let ghost s = v@.subrange(i as int, v@.len() as int);
        assert(s.subrange(2, s.len() as int) =~= v@.subrange(i + 2, v@.len() as int));
        i += 2;
    }
    slice_chars(v, i, v.len())
}

/// Reads the front matter lines `lines[1..end]` of an agent file.
fn read_agent_fm(lines: &Vec<String>, end: usize) -> (r: (Option<String>, Vec<String>))
    requires
        1 <= end <= lines@.len(),
    ensures
        ({
            let st = agent_fm_fold(strings_view(lines@).subrange(1, end as int));
            &&& match r.0 {
                Some(d) => st.description == Some(d@),
                None => st.description is None,
            }
            &&& strings_view(r.1@) == st.items
        }),
{
    let ghost lv = strings_view(lines@);
    let mut description: Option<String> = None;
    let mut items: Vec<String> = Vec::new();
    let mut in_tools = false;
    let mut i: usize = 1;
    assert(lv.subrange(1, 1) =~= Seq::<Seq<char>>::empty());
    while i < end
        invariant
            1 <= i <= end <= lines@.len(),
            lv == strings_view(lines@),
            ({
                let st = agent_fm_fold(lv.subrange(1, i as int));
                &&& match description {
                    Some(d) => st.description == Some(d@),
                    None => st.description is None,
                }
                &&& strings_view(items@) == st.items
                &&& in_tools == st.in_tools
            }),
        decreases end - i,
    {
        let ghost prev = lv.subrange(1, i as int);
        assert(lv.subrange(1, i + 1).drop_last() =~= prev);
        assert(lv.subrange(1, i + 1).last() == lines@[i as int]@);
        let lc = chars_of(lines[i].as_str());
        let raw = trim_chars(lc.as_slice());
        let ghost it0 = strings_view(items@);
        if raw.len() == 0 || raw[0] == '#' {
        } else if in_tools && raw.len() >= 2 && raw[0] == '-' && raw[1] == ' ' {
            let s = strip_dashes(raw.as_slice());
            let item = trim_chars(s.as_slice());
            if item.len() > 0 {
                items.push(string_of(item.as_slice()));
                assert(strings_view(items@) =~= it0.push(item@));
            }
        } else {
            let (key, value) = key_value(raw.as_slice());
            in_tools = false;
            if str_eq(key.as_str(), "description") {
                description = Some(string_of(value.as_slice()));
            }
            if str_eq(key.as_str(), "tools") {
                if value.len() == 0 {
                    in_tools = true;
                } else {
                    let vs = string_of(value.as_slice());
                    let more = split_frontmatter_list(vs.as_str());
                    let mut j: usize = 0;
                    while j < more.len()
                        invariant
                            j <= more@.len(),
                            strings_view(items@) == it0 + strings_view(more@).take(j as int),
                        decreases more@.len() - j,
                    {
                        let ghost b = strings_view(items@);
                        items.push(more[j].clone());
                        assert(strings_view(items@) =~= b.push(more@[j as int]@));
                        assert(it0 + strings_view(more@).take(j + 1) =~= (it0 + strings_view(
                            more@,
                        ).take(j as int)).push(more@[j as int]@));
                        j += 1;
                    }
                    assert(strings_view(more@).take(more@.len() as int) =~= strings_view(more@));
                }
            }
        }
        i += 1;
    }
    (description, items)
}

/// Parses the front matter of an agent markdown file.
#[verifier::loop_isolation(false)]
pub fn parse_markdown_frontmatter(markdown: &str) -> (r: Result<FrontMatter, PluginError>)
    ensures
        match frontmatter_result(markdown@) {
            Ok(v) => r matches Ok(f) && f@ == v,
            Err(bad) => r matches Err(e) && crate::plugins::is_orchestration_error(
                e,
                PluginOrchestrationErrorCode::UnknownTool,
                "unknown tool \""@ + trim(bad) + "\""@,
            ),
        },
{
    let mc = chars_of(markdown);
    let tc = trim_chars(mc.as_slice());
    let trimmed = string_of(tc.as_slice());
    let lines = split_lines(trimmed.as_str());
    let ghost lv = strings_view(lines@);
    let opens = crate::text::starts_with_str(tc.as_slice(), "---");
    let mut end: usize = 1;
    let mut found = false;
    while !found && end < lines.len()
        invariant
            1 <= end <= lines@.len() || (end == 1 && lines@.len() == 0),
            lv == strings_view(lines@),
            closing_index(lv) == closing_from(lv, end as int),
            found ==> end < lines@.len() && closing_from(lv, end as int) == end,
        decreases lines@.len() - end + (if found {
            0int
        } else {
            1int
        }),
    {
        let lc = chars_of(lines[end].as_str());
        let t = trim_chars(lc.as_slice());
        assert(lv[end as int] == lines@[end as int]@);
        if crate::text::eq_str(t.as_slice(), "---") {
            found = true;
        } else {
            end += 1;
        }
    }
    if !opens || !found {
        return Ok(FrontMatter { description: None, tools: None, body: crate::text::owned(markdown) });
    }
    assert(closing_index(lv) == end);
    let (description, items) = read_agent_fm(&lines, end);
    let mut rest: Vec<String> = Vec::new();
    let mut k: usize = end + 1;
    while k < lines.len()
        invariant
            end < k <= lines@.len(),
            lv == strings_view(lines@),
            strings_view(rest@) == lv.subrange(end + 1, k as int),
        decreases lines@.len() - k,
    {
        let ghost b = strings_view(rest@);
        rest.push(lines[k].clone());
        assert(strings_view(rest@) =~= b.push(lv[k as int]));
        assert(lv.subrange(end + 1, k + 1) =~= lv.subrange(end + 1, k as int).push(lv[k as int]));
        k += 1;
    }
    let joined = crate::bash_policy::join_strings(&rest, "\n");
    let body_chars = strip_start_chars(joined.as_slice(), '\n', '\r');
    let body = string_of(body_chars.as_slice());
    if items.len() == 0 {
        return Ok(FrontMatter { description, tools: None, body });
    }
    let ghost iv = strings_view(items@);
    let mut tools: Vec<PluginToolName> = Vec::new();
    let mut i: usize = 0;
    while i < items.len()
        invariant
            i <= items@.len(),
            iv == strings_view(items@),
            tools_of(iv.take(i as int)) == Ok::<Seq<PluginToolName>, Seq<char>>(tools@),
        decreases items@.len() - i,
    {
        assert(iv.take(i + 1).drop_last() =~= iv.take(i as int));
        assert(iv.take(i + 1).last() == items@[i as int]@);
        match PluginToolName::from_str(items[i].as_str()) {
            Ok(t) => {
                tools.push(t);
            },
            Err(e) => {
                proof {
                    assert(tool_named(iv[i as int]) is None);
                    assert(tools_of(iv.take(i + 1)) == Err::<Seq<PluginToolName>, Seq<char>>(
                        iv[i as int],
                    ));
                    lemma_tools_of_err_prefix(iv, i as int + 1);
                }
                return Err(PluginError::Orchestration(e));
            },
        }
        i += 1;
    }
    assert(iv.take(iv.len() as int) =~= iv);
    Ok(FrontMatter { description, tools: Some(tools), body })
}

/// An error in a prefix of the items is the error of all of them.
proof fn lemma_tools_of_err_prefix(items: Seq<Seq<char>>, n: int)
    requires
        0 <= n <= items.len(),
        tools_of(items.take(n)) is Err,
    ensures
        tools_of(items) == tools_of(items.take(n)),
    decreases items.len() - n,
{
    if n < items.len() {
        assert(items.take(n + 1).drop_last() =~= items.take(n));
        lemma_tools_of_err_prefix(items, n + 1);
    } else {
        assert(items.take(n) =~= items);
    }
}

/// Splits a front matter line at its first `:` into key and value.
pub(crate) fn key_value_pub(raw: &[char]) -> (r: (String, Vec<char>))
    ensures
        r.0@ == fm_key(raw@),
        r.1@ == fm_value(raw@),
{
    key_value(raw)
}

/// `v` without its repeated leading `- ` prefixes.
pub(crate) fn strip_dashes_pub(v: &[char]) -> (r: Vec<char>)
    ensures
        r@ == strip_dash_prefixes(v@),
{
    strip_dashes(v)
}

/// The first line after the first one that is `---` once trimmed.
pub(crate) fn find_closing(lines: &Vec<String>) -> (r: Option<usize>)
    ensures
        match r {
            Some(e) => 1 <= e < lines@.len() && closing_index(strings_view(lines@)) == e,
            None => closing_index(strings_view(lines@)) < 0,
        },
{
    let ghost lv = strings_view(lines@);
    let mut end: usize = 1;
    while end < lines.len()
        invariant
            1 <= end,
            lv == strings_view(lines@),
            closing_index(lv) == closing_from(lv, end as int),
        decreases lines@.len() - end,
    {
        let lc = chars_of(lines[end].as_str());
        let t = trim_chars(lc.as_slice());
        assert(lv[end as int] == lines@[end as int]@);
        if crate::text::eq_str(t.as_slice(), "---") {
            return Some(end);
        }
        end += 1;
    }
    None
}


/// The agent a plugin file `agents/<name>.md` defines: named after the file
/// (its base name without `.md`, trimmed), its system prompt the body of
/// the file, with the description and tools of its front matter. A front
/// matter naming an unknown tool is reported first, then a blank name.
pub fn plugin_agent_from_file(file_path: &str, body: &str) -> (r: Result<
    crate::plugins::PluginAgent,
    PluginError,
>)
    ensures
        match frontmatter_result(body@) {
            Err(bad) => r matches Err(e) && crate::plugins::is_orchestration_error(
                e,
                PluginOrchestrationErrorCode::UnknownTool,
                "unknown tool \""@ + trim(bad) + "\""@,
            ),
            Ok(v) => {
                let name = trim(crate::plugins::basename_text(file_path@));
                if name.len() == 0 {
                    r matches Err(e) && crate::plugins::is_loader_error(
                        e,
                        "plugin agent name is required"@,
                    )
                } else {
                    r matches Ok(a) && a.name.text() == name && (FrontMatter {
                        description: a.description,
                        tools: a.tools,
                        body: a.system_prompt,
                    })@ == v
                }
            },
        },
{
    let parsed = parse_markdown_frontmatter(body)?;
    let name = crate::plugins::PluginAgentName::new(crate::plugins::basename(file_path))?;
    Ok(
        crate::plugins::PluginAgent {
            name,
            system_prompt: parsed.body,
            description: parsed.description,
            tools: parsed.tools,
        },
    )
}

} // verus!
