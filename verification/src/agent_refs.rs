//! The agents a command's markdown refers to: each line that mentions an
//! `agents/<name>.md` file (in any letter case) names one agent.
//!
//! The place of the mention is found in the lower-cased line and then taken
//! as a UTF-8 byte offset into the line itself. Where lower-casing changed
//! the length of what comes before the mention, that offset can fall inside
//! a character; such a markdown has no reading, and `agent_refs_checked`
//! reports it.

use vstd::prelude::*;

use crate::local_fs_edit::{find_from, next_match};
use crate::plugin_manifest::{sort_texts, texts_sorted};
use crate::plugin_markdown::{markdown_lines, split_lines, to_lowercase, unicode_lowercase};
use crate::plugins::PluginAgentName;
use crate::text::{chars_of, slice_chars, str_eq, string_of, trim, trim_chars};
use crate::bash_tokenizer::strings_view;

verus! {

/// The number of bytes of `c` in UTF-8.
pub open spec fn utf8_len(c: char) -> nat {
    let n = c as u32;
    if n < 0x80 {
        1
    } else if n < 0x800 {
        2
    } else if n < 0x10000 {
        3
    } else {
        4
    }
}

/// The number of bytes of `s` in UTF-8.
pub open spec fn byte_len(s: Seq<char>) -> nat
    decreases s.len(),
{
    if s.len() == 0 {
        0
    } else {
        byte_len(s.drop_last()) + utf8_len(s.last())
    }
}

/// The character position of `s` that starts at byte offset `b`, or -1
/// when `b` falls inside a character or past the end.
pub open spec fn char_at_byte(s: Seq<char>, b: int) -> int
    decreases s.len(),
{
    if b == 0 {
        0
    } else if s.len() == 0 || b < utf8_len(s[0]) {
        -1
    } else {
        let r = char_at_byte(s.drop_first(), b - utf8_len(s[0]));
        if r < 0 {
            -1
        } else {
            r + 1
        }
    }
}

fn utf8_width(c: char) -> (r: u128)
    ensures
        r == utf8_len(c),
{
    let n = c as u32;
    if n < 0x80 {
        1
    } else if n < 0x800 {
        2
    } else if n < 0x10000 {
        3
    } else {
        4
    }
}

/// `byte_len(v[..n])`.
pub(crate) fn prefix_byte_len(v: &[char], n: usize) -> (r: u128)
    requires
        n <= v@.len(),
    ensures
        r == byte_len(v@.take(n as int)),
{
    let mut acc: u128 = 0;
    let mut i: usize = 0;
    assert(v@.take(0) =~= Seq::<char>::empty());
    while i < n
        invariant
            i <= n,
            n <= v@.len(),
            acc == byte_len(v@.take(i as int)),
            acc <= 4 * i,
        decreases n - i,
    {
        assert(v@.take(i + 1).drop_last() =~= v@.take(i as int));
        acc = acc + utf8_width(v[i]);
        i += 1;
    }
    acc
}

/// The character position of `v` at byte offset `b`, if one starts there.
pub(crate) fn char_index_at_byte(v: &[char], b: u128) -> (r: Option<usize>)
    ensures
        match r {
            Some(j) => char_at_byte(v@, b as int) == j as int,
            None => char_at_byte(v@, b as int) < 0,
        },
{
    let mut j: usize = 0;
    let mut rest: u128 = b;
    assert(v@.skip(0) =~= v@);
    while rest > 0 && j < v.len() && rest >= utf8_width(v[j])
        invariant
            j <= v@.len(),
            char_at_byte(v@, b as int) == (if char_at_byte(v@.skip(j as int), rest as int) < 0 {
                -1
            } else {
                char_at_byte(v@.skip(j as int), rest as int) + j
            }),
        decreases v@.len() - j,
    {
        assert(v@.skip(j as int)[0] == v@[j as int]);
        assert(v@.skip(j as int).drop_first() =~= v@.skip(j + 1));
        rest = rest - utf8_width(v[j]);
        j += 1;
    }
    if rest == 0 {
        Some(j)
    } else {
        if j < v.len() {
            assert(v@.skip(j as int)[0] == v@[j as int]);
        }
        None
    }
}


/// `s` without its repeated leading `p`.
pub open spec fn strip_prefix_repeated(s: Seq<char>, p: Seq<char>) -> Seq<char>
    decreases s.len(),
{
    if p.len() > 0 && p.is_prefix_of(s) {
        strip_prefix_repeated(s.skip(p.len() as int), p)
    } else {
        s
    }
}

/// The marks a reference is cleaned of: backquotes, asterisks, spaces and
/// underscores.
pub open spec fn is_ref_mark(c: char) -> bool {
    c == '`' || c == '*' || c == ' ' || c == '_'
}

/// `s` without its marks.
pub open spec fn without_marks(s: Seq<char>) -> Seq<char>
    decreases s.len(),
{
    if s.len() == 0 {
        s
    } else {
        let r = without_marks(s.drop_last());
        if is_ref_mark(s.last()) {
            r
        } else {
            r.push(s.last())
        }
    }
}

/// The agent name a mention reads as: the text from the mention on,
/// trimmed, without its leading `agents/` prefixes, cut before its first
/// `.md`, cleaned of marks and trimmed again.
pub open spec fn clean_reference(s: Seq<char>) -> Seq<char> {
    let t = strip_prefix_repeated(trim(s), "agents/"@);
    let u = match next_match(t, ".md"@, 0) {
        Some(k) => t.take(k),
        None => t,
    };
    trim(without_marks(u))
}

/// What one line says: `Some(None)` when it names no agent file (no
/// `agents/` in the lower-cased line, or no `.md` after it); `None` when the
/// byte offset of the mention falls inside a character of the line; else
/// the reference read from the line at that offset.
pub open spec fn line_reference(line: Seq<char>) -> Option<Option<Seq<char>>> {
    let lower = unicode_lowercase(line);
    match next_match(lower, "agents/"@, 0) {
        None => Some(None),
        Some(ci) => if next_match(lower, ".md"@, ci) is None {
            Some(None)
        } else {
            let j = char_at_byte(line, byte_len(lower.take(ci)) as int);
            if j < 0 {
                None
            } else {
                Some(Some(clean_reference(line.skip(j))))
            }
        },
    }
}

/// The references of the lines, in order, each non-empty one once; `None`
/// when a line has no reading.
pub open spec fn references_of_lines(lines: Seq<Seq<char>>) -> Option<Seq<Seq<char>>>
    decreases lines.len(),
{
    if lines.len() == 0 {
        Some(seq![])
    } else {
        match references_of_lines(lines.drop_last()) {
            None => None,
            Some(acc) => match line_reference(lines.last()) {
                None => None,
                Some(None) => Some(acc),
                Some(Some(r)) => if r.len() == 0 || acc.contains(r) {
                    Some(acc)
                } else {
                    Some(acc.push(r))
                },
            },
        }
    }
}

/// The agent references of a markdown: `None` when it has no reading,
/// `Some(None)` when it names no agent.
pub open spec fn agent_references(markdown: Seq<char>) -> Option<Option<Seq<Seq<char>>>> {
    match references_of_lines(markdown_lines(markdown)) {
        None => None,
        Some(refs) => if refs.len() == 0 {
            Some(None)
        } else {
            Some(Some(refs))
        },
    }
}

fn strip_agents_prefixes(v: &[char]) -> (r: Vec<char>)
    ensures
        r@ == strip_prefix_repeated(v@, "agents/"@),
{
    let p = chars_of("agents/");
    proof {
        reveal_strlit("agents/");
    }
    let mut i: usize = 0;
    assert(v@.skip(0) =~= v@);
    while v.len() - i >= 7 && crate::text::has_prefix(slice_chars(v, i, v.len()).as_slice(), p.as_slice())
        invariant
            i <= v@.len(),
            p@ == "agents/"@,
            strip_prefix_repeated(v@, "agents/"@) == strip_prefix_repeated(v@.skip(i as int), "agents/"@),
        decreases v@.len() - i,
    {
        proof {
            reveal_strlit("agents/");
        }
        assert(v@.subrange(i as int, v@.len() as int) =~= v@.skip(i as int));
        assert("agents/"@.is_prefix_of(v@.skip(i as int)));
        assert(v@.skip(i as int).skip(7) =~= v@.skip(i + 7));
        i += 7;
    }
    proof {
        if i + 7 > v@.len() {
            assert(!"agents/"@.is_prefix_of(v@.skip(i as int)));
        } else {
            assert(v@.subrange(i as int, v@.len() as int) =~= v@.skip(i as int));
        }
    }
    let r = slice_chars(v, i, v.len());
    assert(r@ =~= v@.skip(i as int));
    r
}

fn without_marks_chars(v: &[char]) -> (r: Vec<char>)
    ensures
        r@ == without_marks(v@),
{
    let mut out: Vec<char> = Vec::new();
    let mut i: usize = 0;
    assert(v@.take(0) =~= Seq::<char>::empty());
    while i < v.len()
        invariant
            i <= v@.len(),
            out@ == without_marks(v@.take(i as int)),
        decreases v@.len() - i,
    {
        assert(v@.take(i + 1).drop_last() =~= v@.take(i as int));
        let c = v[i];
        if !(c == '`' || c == '*' || c == ' ' || c == '_') {
            out.push(c);
        }
        i += 1;
    }
    assert(v@.take(v@.len() as int) =~= v@);
    out
}

fn clean_reference_chars(v: &[char]) -> (r: Vec<char>)
    ensures
        r@ == clean_reference(v@),
{
    let t0 = trim_chars(v);
    let t = strip_agents_prefixes(t0.as_slice());
    let md = chars_of(".md");
    let u = match find_from(t.as_slice(), md.as_slice(), 0) {
        Some(k) => {
            proof {
                crate::local_fs_edit::lemma_next_match(t@, md@, 0);
            }
            slice_chars(t.as_slice(), 0, k)
        },
        None => t,
    };
    let w = without_marks_chars(u.as_slice());
    trim_chars(w.as_slice())
}

/// What one line says, as `line_reference` states it.
fn line_reference_of(line: &str) -> (r: Option<Option<Vec<char>>>)
    ensures
        match line_reference(line@) {
            None => r is None,
            Some(None) => r == Some(None::<Vec<char>>),
            Some(Some(x)) => r matches Some(Some(v)) && v@ == x,
        },
{
    let lower_s = to_lowercase(line);
    let lower = chars_of(lower_s.as_str());
    let pat = chars_of("agents/");
    let ci = match find_from(lower.as_slice(), pat.as_slice(), 0) {
        Some(ci) => ci,
        None => {
            return Some(None);
        },
    };
    let md = chars_of(".md");
    if find_from(lower.as_slice(), md.as_slice(), ci).is_none() {
        return Some(None);
    }
    proof {
        crate::local_fs_edit::lemma_next_match(lower@, pat@, 0);
    }
    let b = prefix_byte_len(lower.as_slice(), ci);
    let lc = chars_of(line);
    match char_index_at_byte(lc.as_slice(), b) {
        None => None,
        Some(j) => {
            proof {
                assert(char_at_byte(lc@, b as int) == j as int);
                lemma_char_at_byte_bound(lc@, b as int);
            }
            let rest = slice_chars(lc.as_slice(), j, lc.len());
            assert(rest@ =~= line@.skip(j as int));
            Some(Some(clean_reference_chars(rest.as_slice())))
        },
    }
}

/// A position found by `char_at_byte` lies within the text.
pub(crate) proof fn lemma_char_at_byte_bound(s: Seq<char>, b: int)
    ensures
        char_at_byte(s, b) <= s.len(),
    decreases s.len(),
{
    if b != 0 && s.len() > 0 && b >= utf8_len(s[0]) {
        lemma_char_at_byte_bound(s.drop_first(), b - utf8_len(s[0]));
    }
}


/// Once a prefix of the lines has no reading, neither have the lines.
proof fn lemma_references_none_prefix(lines: Seq<Seq<char>>, n: int)
    requires
        0 <= n <= lines.len(),
        references_of_lines(lines.take(n)) is None,
    ensures
        references_of_lines(lines) is None,
    decreases lines.len() - n,
{
    if n < lines.len() {
        assert(lines.take(n + 1).drop_last() =~= lines.take(n));
        lemma_references_none_prefix(lines, n + 1);
    } else {
        assert(lines.take(n) =~= lines);
    }
}

/// The texts of agent names.
pub open spec fn agent_name_texts(v: Seq<PluginAgentName>) -> Seq<Seq<char>> {
    v.map_values(|n: PluginAgentName| n.text())
}

fn contains_text(v: &Vec<String>, s: &[char]) -> (r: bool)
    ensures
        r == strings_view(v@).contains(s@),
{
    let ghost sv = strings_view(v@);
    let t = string_of(s);
    let mut i: usize = 0;
    while i < v.len()
        invariant
            i <= v@.len(),
            sv == strings_view(v@),
            t@ == s@,
            forall|j: int| 0 <= j < i ==> sv[j] != s@,
        decreases v@.len() - i,
    {
        if str_eq(v[i].as_str(), t.as_str()) {
            assert(sv[i as int] == s@);
            return true;
        }
        i += 1;
    }
    false
}

/// The references of a markdown, in order of first mention, or `None` when
/// it has no reading.
fn scan_references(markdown: &str) -> (r: Option<Vec<String>>)
    ensures
        match references_of_lines(markdown_lines(markdown@)) {
            None => r is None,
            Some(refs) => r matches Some(v) && strings_view(v@) == refs,
        },
{
    let lines = split_lines(markdown);
    let ghost lv = strings_view(lines@);
    let mut acc: Vec<String> = Vec::new();
    let mut i: usize = 0;
    assert(lv.take(0) =~= Seq::<Seq<char>>::empty());
    assert(strings_view(acc@) =~= Seq::<Seq<char>>::empty());
    while i < lines.len()
        invariant
            i <= lines@.len(),
            lv == strings_view(lines@),
            lv == markdown_lines(markdown@),
            references_of_lines(lv.take(i as int)) == Some(strings_view(acc@)),
        decreases lines@.len() - i,
    {
        assert(lv.take(i + 1).drop_last() =~= lv.take(i as int));
        assert(lv.take(i + 1).last() == lines@[i as int]@);
        match line_reference_of(lines[i].as_str()) {
            None => {
                proof {
                    lemma_references_none_prefix(lv, i + 1);
                }
                return None;
            },
            Some(None) => {},
            Some(Some(r)) => {
                if r.len() > 0 && !contains_text(&acc, r.as_slice()) {
                    let ghost before = acc@;
                    acc.push(string_of(r.as_slice()));
                    assert(strings_view(acc@) =~= strings_view(before).push(r@));
                }
            },
        }
        i += 1;
    }
    assert(lv.take(lines@.len() as int) =~= lv);
    Some(acc)
}

/// The agents a command's markdown refers to, sorted by name, or `None`
/// when it names none. Each line mentioning `agents/<name>.md` (in any
/// letter case) names the agent `<name>`, read from the line as the module
/// documentation says; a name is counted once. The markdown must have a
/// reading: at a byte offset that falls inside a character the slicing of
/// the line is undefined.
pub fn extract_agent_refs(markdown: &str) -> (r: Option<Vec<PluginAgentName>>)
    requires
        agent_references(markdown@) is Some,
    ensures
        match agent_references(markdown@) {
            Some(None) => r is None,
            Some(Some(refs)) => r matches Some(v) && texts_sorted(agent_name_texts(v@))
                && agent_name_texts(v@).to_multiset() == refs.to_multiset(),
            None => false,
        },
{
    let acc = match scan_references(markdown) {
        Some(a) => a,
        None => {
            return None;
        },
    };
    if acc.len() == 0 {
        return None;
    }
    let sorted = sort_texts(acc);
    let ghost sv = strings_view(sorted@);
    let mut names: Vec<PluginAgentName> = Vec::new();
    let mut k: usize = 0;
    while k < sorted.len()
        invariant
            k <= sorted@.len(),
            sv == strings_view(sorted@),
            agent_name_texts(names@) == sv.take(k as int),
        decreases sorted@.len() - k,
    {
        let ghost before = names@;
        names.push(PluginAgentName::from_text(sorted[k].clone()));
        assert(agent_name_texts(names@) =~= agent_name_texts(before).push(sv[k as int]));
        assert(sv.take(k + 1) =~= sv.take(k as int).push(sv[k as int]));
        k += 1;
    }
    assert(sv.take(sorted@.len() as int) =~= sv);
    Some(names)
}

/// The agents a command's markdown refers to, as `extract_agent_refs`
/// gives them, or `None` when the markdown has no reading.
pub fn agent_refs_checked(markdown: &str) -> (r: Option<Option<Vec<PluginAgentName>>>)
    ensures
        match agent_references(markdown@) {
            None => r is None,
            Some(None) => r matches Some(None),
            Some(Some(refs)) => r matches Some(Some(v)) && texts_sorted(agent_name_texts(v@))
                && agent_name_texts(v@).to_multiset() == refs.to_multiset(),
        },
{
    if scan_references(markdown).is_none() {
        return None;
    }
    Some(extract_agent_refs(markdown))
}


/// Whether a command file can be read: a body whose agent references have
/// a reading (a front matter that is refused needs none).
pub open spec fn command_file_readable(body: Seq<char>) -> bool {
    match crate::plugin_markdown::frontmatter_result(body) {
        Ok(v) => agent_references(v.body) is Some,
        Err(_) => true,
    }
}

/// The references a command holds, as `extract_agent_refs` states them.
pub open spec fn refs_match(refs: Option<Vec<PluginAgentName>>, expected: Option<Seq<Seq<char>>>) -> bool {
    match expected {
        None => refs is None,
        Some(e) => refs matches Some(v) && texts_sorted(agent_name_texts(v@)) && agent_name_texts(
            v@,
        ).to_multiset() == e.to_multiset(),
    }
}

/// What the command file `file_path` with text `body` yields, as
/// `plugin_command_from_file` states it.
pub open spec fn command_from_file(
    file_path: Seq<char>,
    body: Seq<char>,
    r: Result<crate::plugins::PluginCommand, crate::plugins::PluginError>,
) -> bool {
    match crate::plugin_markdown::frontmatter_result(body) {
        Err(bad) => r matches Err(e) && crate::plugins::is_orchestration_error(
            e,
            crate::plugins::PluginOrchestrationErrorCode::UnknownTool,
            "unknown tool \""@ + trim(bad) + "\""@,
        ),
        Ok(v) => {
            let name = trim(crate::plugins::basename_text(file_path));
            if name.len() == 0 {
                r matches Err(e) && crate::plugins::is_loader_error(
                    e,
                    "plugin command name is required"@,
                )
            } else {
                &&& r matches Ok(c)
                &&& c.name.text() == name
                &&& c.prompt@ == v.body
                &&& (match c.tools {
                    Some(t) => Some(t@),
                    None => None,
                }) == v.tools
                &&& refs_match(c.agent_refs, agent_references(v.body)->Some_0)
            }
        },
    }
}

/// The command a plugin file `commands/<name>.md` defines: named after the
/// file (its base name without `.md`, trimmed), its prompt the body of the
/// file, with the tools of its front matter and the agents its body refers
/// to. A front matter naming an unknown tool is reported first, then a
/// blank name.
pub fn plugin_command_from_file(file_path: &str, body: &str) -> (r: Result<
    crate::plugins::PluginCommand,
    crate::plugins::PluginError,
>)
    requires
        command_file_readable(body@),
    ensures
        command_from_file(file_path@, body@, r),
{
    let parsed = crate::plugin_markdown::parse_markdown_frontmatter(body)?;
    let name = crate::plugins::PluginCommandName::new(crate::plugins::basename(file_path))?;
    let refs = extract_agent_refs(parsed.body.as_str());
    Ok(
        crate::plugins::PluginCommand {
            name,
            prompt: parsed.body,
            agent_refs: refs,
            tools: parsed.tools,
        },
    )
}

/// The command a plugin file defines, as `plugin_command_from_file` gives
/// it, or `None` when the file's references have no reading.
pub fn plugin_command_from_file_checked(file_path: &str, body: &str) -> (r: Option<
    Result<crate::plugins::PluginCommand, crate::plugins::PluginError>,
>)
    ensures
        r is Some <==> command_file_readable(body@),
        r matches Some(x) ==> command_from_file(file_path@, body@, x),
{
    match crate::plugin_markdown::parse_markdown_frontmatter(body) {
        Ok(parsed) => {
            if scan_references(parsed.body.as_str()).is_none() {
                return None;
            }
        },
        Err(_) => {},
    }
    Some(plugin_command_from_file(file_path, body))
}

} // verus!
