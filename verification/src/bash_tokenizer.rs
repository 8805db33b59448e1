//! Lightweight bash tokenizer used for policy evaluation.
//!
//! The lexer is specified as a character-by-character state machine
//! (`lex_step`), and the public result as a fold over the produced tokens.

use vstd::prelude::*;

use crate::text::{
    chars_of, eq_str, file_name, file_name_bounds, is_ascii_digit, is_ascii_whitespace,
    is_ascii_ws, slice_chars, starts_with_str, string_of, trim, trim_chars,
};

verus! {

/// Tokenized representation of a bash command string.
#[derive(Clone, Debug, Default, PartialEq, Eq)]
pub struct BashTokens {
    /// Primary command (normalized, e.g., "/usr/bin/git" -> "git").
    pub primary_command: String,
    /// All commands in chain (for pipes, ;, &&, ||).
    pub all_commands: Vec<String>,
    /// Structural flags.
    pub has_pipe: bool,
    pub has_chain: bool,
    pub has_redirect: bool,
    pub has_subshell: bool,
    pub has_eval: bool,
    pub has_dangerous_redirect: bool,
    /// Raw arguments for the primary command.
    pub primary_args: Vec<String>,
}

/// Mathematical model of [`BashTokens`].
pub struct BashTokensView {
    pub primary_command: Seq<char>,
    pub all_commands: Seq<Seq<char>>,
    pub has_pipe: bool,
    pub has_chain: bool,
    pub has_redirect: bool,
    pub has_subshell: bool,
    pub has_eval: bool,
    pub has_dangerous_redirect: bool,
    pub primary_args: Seq<Seq<char>>,
}

pub open spec fn strings_view(v: Seq<String>) -> Seq<Seq<char>> {
    v.map_values(|s: String| s@)
}

impl View for BashTokens {
    type V = BashTokensView;

    open spec fn view(&self) -> BashTokensView {
        BashTokensView {
            primary_command: self.primary_command@,
            all_commands: strings_view(self.all_commands@),
            has_pipe: self.has_pipe,
            has_chain: self.has_chain,
            has_redirect: self.has_redirect,
            has_subshell: self.has_subshell,
            has_eval: self.has_eval,
            has_dangerous_redirect: self.has_dangerous_redirect,
            primary_args: strings_view(self.primary_args@),
        }
    }
}

#[derive(Clone, Copy, Debug, PartialEq, Eq)]
pub enum Operator {
    Pipe,
    Chain,
    Redirect,
}

/// A lexed token, as characters.
pub enum Token {
    Word(Vec<char>),
    Operator(Operator),
    RedirectTarget(Vec<char>),
}

/// Model of a [`Token`].
pub enum TokenV {
    Word(Seq<char>),
    Operator(Operator),
    RedirectTarget(Seq<char>),
}

impl View for Token {
    type V = TokenV;

    open spec fn view(&self) -> TokenV {
        match self {
            Token::Word(w) => TokenV::Word(w@),
            Token::Operator(o) => TokenV::Operator(*o),
            Token::RedirectTarget(w) => TokenV::RedirectTarget(w@),
        }
    }
}

pub open spec fn tokens_view(v: Seq<Token>) -> Seq<TokenV> {
    v.map_values(|t: Token| t@)
}

#[derive(Clone, Copy)]
pub struct LexFlags {
    pub has_pipe: bool,
    pub has_chain: bool,
    pub has_redirect: bool,
    pub has_subshell: bool,
    pub has_dangerous_redirect: bool,
}

pub open spec fn no_flags() -> LexFlags {
    LexFlags {
        has_pipe: false,
        has_chain: false,
        has_redirect: false,
        has_subshell: false,
        has_dangerous_redirect: false,
    }
}

/// Model of the lexer state between two characters.
pub struct LexSt {
    pub tokens: Seq<TokenV>,
    pub flags: LexFlags,
    pub buf: Seq<char>,
    pub in_single: bool,
    pub in_double: bool,
    pub escape: bool,
    pub expect: bool,
}

pub open spec fn lex_init() -> LexSt {
    LexSt {
        tokens: Seq::empty(),
        flags: no_flags(),
        buf: Seq::empty(),
        in_single: false,
        in_double: false,
        escape: false,
        expect: false,
    }
}

/// A redirect target that writes into a sensitive system location.
pub open spec fn dangerous_target(t: Seq<char>) -> bool {
    let s = trim(t);
    "/etc/"@.is_prefix_of(s) || "/root/"@.is_prefix_of(s) || s == "/etc/passwd"@
}

/// Moves a pending word (if any) into the token list; a word after a redirect
/// operator becomes its target.
pub open spec fn flush(st: LexSt) -> LexSt {
    if st.buf.len() == 0 {
        st
    } else if st.expect {
        LexSt {
            tokens: st.tokens.push(TokenV::RedirectTarget(st.buf)),
            flags: LexFlags {
                has_dangerous_redirect: st.flags.has_dangerous_redirect || dangerous_target(
                    st.buf,
                ),
                ..st.flags
            },
            buf: Seq::empty(),
            expect: false,
            ..st
        }
    } else {
        LexSt { tokens: st.tokens.push(TokenV::Word(st.buf)), buf: Seq::empty(), ..st }
    }
}

pub open spec fn push_op(st: LexSt, op: Operator) -> LexSt {
    LexSt { tokens: st.tokens.push(TokenV::Operator(op)), ..st }
}

pub open spec fn push_buf(st: LexSt, c: char) -> LexSt {
    LexSt { buf: st.buf.push(c), ..st }
}

pub open spec fn peek(s: Seq<char>, i: int) -> Option<char> {
    if 0 <= i < s.len() {
        Some(s[i])
    } else {
        None
    }
}

pub open spec fn set_chain(st: LexSt) -> LexSt {
    LexSt { flags: LexFlags { has_chain: true, ..st.flags }, ..st }
}

pub open spec fn set_pipe(st: LexSt) -> LexSt {
    LexSt { flags: LexFlags { has_pipe: true, ..st.flags }, ..st }
}

pub open spec fn set_redirect(st: LexSt) -> LexSt {
    LexSt { flags: LexFlags { has_redirect: true, ..st.flags }, ..st }
}

pub open spec fn set_subshell(st: LexSt) -> LexSt {
    LexSt { flags: LexFlags { has_subshell: true, ..st.flags }, ..st }
}

/// A redirect operator: the pending word is flushed (its target status is
/// dropped), the operator recorded, and the next word becomes the target.
pub open spec fn redirect(st: LexSt) -> LexSt {
    let f = flush(st);
    push_op(LexSt { expect: true, ..set_redirect(f) }, Operator::Redirect)
}

/// End of a `>` or `>>` operator whose first `>` is at `j - 1`.
pub open spec fn after_gt(s: Seq<char>, j: int) -> int {
    if peek(s, j) == Some('>') {
        j + 1
    } else {
        j
    }
}

/// One step of the lexer at position `i`: the new state and the next position.
pub open spec fn lex_step(s: Seq<char>, i: int, st: LexSt) -> (LexSt, int) {
    let c = s[i];
    let p = peek(s, i + 1);
    if st.escape {
        (LexSt { escape: false, ..push_buf(st, c) }, i + 1)
    } else if st.in_single {
        if c == '\'' {
            (LexSt { in_single: false, ..st }, i + 1)
        } else {
            (push_buf(st, c), i + 1)
        }
    } else if st.in_double {
        if c == '"' {
            (LexSt { in_double: false, ..st }, i + 1)
        } else {
            let st1 = if (c == '$' && p == Some('(')) || c == '`' {
                set_subshell(st)
            } else {
                st
            };
            if c == '\\' && (p == Some('"') || p == Some('\\') || p == Some('$') || p == Some(
                '`',
            )) {
                (push_buf(st1, s[i + 1]), i + 2)
            } else {
                (push_buf(st1, c), i + 1)
            }
        }
    } else if c == '\\' {
        (LexSt { escape: true, ..st }, i + 1)
    } else if c == '\'' {
        (LexSt { in_single: true, ..st }, i + 1)
    } else if c == '"' {
        (LexSt { in_double: true, ..st }, i + 1)
    } else if c == '#' {
        if st.buf.len() == 0 {
            (st, s.len() as int)
        } else {
            (push_buf(st, c), i + 1)
        }
    } else if is_ascii_ws(c) {
        let f = flush(st);
        if c == '\n' {
            (push_op(set_chain(f), Operator::Chain), i + 1)
        } else {
            (f, i + 1)
        }
    } else if c == '$' {
        if p == Some('(') {
            (flush(set_subshell(st)), i + 2)
        } else {
            (push_buf(st, c), i + 1)
        }
    } else if c == '`' {
        (flush(set_subshell(st)), i + 1)
    } else if is_ascii_digit(c) && st.buf.len() == 0 && (p == Some('>') || p == Some('<')) {
        if p == Some('>') {
            (redirect(st), after_gt(s, i + 2))
        } else {
            (redirect(st), i + 2)
        }
    } else if c == '|' {
        let f = flush(st);
        if p == Some('|') {
            (push_op(set_chain(f), Operator::Chain), i + 2)
        } else if p == Some('&') {
            (push_op(set_pipe(f), Operator::Pipe), i + 2)
        } else {
            (push_op(set_pipe(f), Operator::Pipe), i + 1)
        }
    } else if c == ';' {
        (push_op(set_chain(flush(st)), Operator::Chain), i + 1)
    } else if c == '&' {
        if p == Some('>') {
            (redirect(st), after_gt(s, i + 2))
        } else if p == Some('&') {
            (push_op(set_chain(flush(st)), Operator::Chain), i + 2)
        } else {
            (push_op(set_chain(flush(st)), Operator::Chain), i + 1)
        }
    } else if c == '>' {
        (redirect(st), after_gt(s, i + 1))
    } else if c == '<' {
        (redirect(st), i + 1)
    } else {
        (push_buf(st, c), i + 1)
    }
}

proof fn lemma_lex_step_advances(s: Seq<char>, i: int, st: LexSt)
    requires
        0 <= i < s.len(),
    ensures
        i < lex_step(s, i, st).1 <= s.len(),
{
}

/// Runs the lexer from position `i` in state `st` to the end of the input,
/// then flushes the pending word.
pub open spec fn lex_run(s: Seq<char>, i: int, st: LexSt) -> LexSt
    decreases s.len() - i,
{
    if 0 <= i < s.len() {
        let (st2, j) = lex_step(s, i, st);
        if i < j <= s.len() {
            lex_run(s, j, st2)
        } else {
            flush(st2)
        }
    } else {
        flush(st)
    }
}

/// The tokens and flags of a whole command.
pub open spec fn lex(s: Seq<char>) -> LexSt {
    lex_run(s, 0, lex_init())
}

/// A character the lexer only adds to the current word, outside quotes.
pub open spec fn plain(c: char) -> bool {
    !(c == '\\' || c == '\'' || c == '"' || c == '#' || is_ascii_ws(c) || c == '$' || c == '`'
        || is_ascii_digit(c) || c == '|' || c == ';' || c == '&' || c == '>' || c == '<')
}

/// A lexer state outside quotes and escapes.
pub open spec fn unquoted_state(st: LexSt) -> bool {
    !st.escape && !st.in_single && !st.in_double
}

/// A run of plain characters goes into the current word.
pub proof fn lemma_lex_plain_run(s: Seq<char>, i: int, j: int, st: LexSt)
    requires
        0 <= i <= j <= s.len(),
        forall|k: int| i <= k < j ==> plain(#[trigger] s[k]),
        unquoted_state(st),
    ensures
        lex_run(s, i, st) == lex_run(s, j, LexSt { buf: st.buf + s.subrange(i, j), ..st }),
    decreases j - i,
{
    if i == j {
        assert(st.buf + s.subrange(i, j) =~= st.buf);
        assert(LexSt { buf: st.buf + s.subrange(i, j), ..st } == st);
    } else {
        assert(plain(s[i]));
        let st2 = push_buf(st, s[i]);
        assert(lex_step(s, i, st) == (st2, i + 1));
        lemma_lex_plain_run(s, i + 1, j, st2);
        assert(st2.buf + s.subrange(i + 1, j) =~= st.buf + s.subrange(i, j));
    }
}

/// A space ends the current word.
pub proof fn lemma_lex_space(s: Seq<char>, i: int, st: LexSt)
    requires
        0 <= i < s.len(),
        s[i] == ' ',
        unquoted_state(st),
    ensures
        lex_run(s, i, st) == lex_run(s, i + 1, flush(st)),
{
    assert(lex_step(s, i, st) == (flush(st), i + 1));
}

/// A lone `|` (not `||` or `|&`) ends the word and adds a pipe.
pub proof fn lemma_lex_pipe(s: Seq<char>, i: int, st: LexSt)
    requires
        0 <= i < s.len(),
        s[i] == '|',
        peek(s, i + 1) != Some('|'),
        peek(s, i + 1) != Some('&'),
        unquoted_state(st),
    ensures
        lex_run(s, i, st) == lex_run(s, i + 1, push_op(set_pipe(flush(st)), Operator::Pipe)),
{
}

/// A `;` ends the word and adds a chain.
pub proof fn lemma_lex_semicolon(s: Seq<char>, i: int, st: LexSt)
    requires
        0 <= i < s.len(),
        s[i] == ';',
        unquoted_state(st),
    ensures
        lex_run(s, i, st) == lex_run(s, i + 1, push_op(set_chain(flush(st)), Operator::Chain)),
{
}

/// `$(` marks a subshell and ends the word.
pub proof fn lemma_lex_dollar_paren(s: Seq<char>, i: int, st: LexSt)
    requires
        0 <= i < s.len() - 1,
        s[i] == '$',
        s[i + 1] == '(',
        unquoted_state(st),
    ensures
        lex_run(s, i, st) == lex_run(s, i + 2, flush(set_subshell(st))),
{
}

/// A lone `>` is a redirect.
pub proof fn lemma_lex_gt(s: Seq<char>, i: int, st: LexSt)
    requires
        0 <= i < s.len(),
        s[i] == '>',
        peek(s, i + 1) != Some('>'),
        unquoted_state(st),
    ensures
        lex_run(s, i, st) == lex_run(s, i + 1, redirect(st)),
{
}

/// At the end of the input, the pending word is flushed.
pub proof fn lemma_lex_end(s: Seq<char>, st: LexSt)
    ensures
        lex_run(s, s.len() as int, st) == flush(st),
{
}

/// Executable lexer state.
struct LexState {
    tokens: Vec<Token>,
    flags: LexFlags,
    buf: Vec<char>,
    in_single: bool,
    in_double: bool,
    escape: bool,
    expect: bool,
}

impl LexState {
    spec fn view(&self) -> LexSt {
        LexSt {
            tokens: tokens_view(self.tokens@),
            flags: self.flags,
            buf: self.buf@,
            in_single: self.in_single,
            in_double: self.in_double,
            escape: self.escape,
            expect: self.expect,
        }
    }
}

fn push_token(tokens: &mut Vec<Token>, t: Token)
    ensures
        tokens_view(final(tokens)@) == tokens_view(old(tokens)@).push(t@),
{
    let ghost t_view = t@;
    tokens.push(t);
    assert(tokens_view(tokens@) =~= tokens_view(old(tokens)@).push(t_view));
}

fn is_dangerous_redirect_target(target: &[char]) -> (r: bool)
    ensures
        r == dangerous_target(target@),
{
    let t = trim_chars(target);
    starts_with_str(t.as_slice(), "/etc/") || starts_with_str(t.as_slice(), "/root/") || eq_str(
        t.as_slice(),
        "/etc/passwd",
    )
}

fn flush_word(st: &mut LexState)
    ensures
        final(st).view() == flush(old(st).view()),
{
    if st.buf.len() == 0 {
        return ;
    }
    let mut word: Vec<char> = Vec::new();
    std::mem::swap(&mut st.buf, &mut word);
    if st.expect {
        if is_dangerous_redirect_target(word.as_slice()) {
            st.flags.has_dangerous_redirect = true;
        }
        push_token(&mut st.tokens, Token::RedirectTarget(word));
        st.expect = false;
    } else {
        push_token(&mut st.tokens, Token::Word(word));
    }
}

fn do_redirect(st: &mut LexState)
    ensures
        final(st).view() == redirect(old(st).view()),
{
    flush_word(st);
    st.flags.has_redirect = true;
    st.expect = true;
    push_token(&mut st.tokens, Token::Operator(Operator::Redirect));
}

fn push_operator(st: &mut LexState, op: Operator)
    ensures
        final(st).view() == push_op(old(st).view(), op),
{
    push_token(&mut st.tokens, Token::Operator(op));
}

fn peek_at(s: &[char], i: usize) -> (r: Option<char>)
    ensures
        r == peek(s@, i as int),
{
    if i < s.len() {
        Some(s[i])
    } else {
        None
    }
}

fn end_of_gt(s: &[char], j: usize) -> (r: usize)
    requires
        j <= s@.len(),
    ensures
        r == after_gt(s@, j as int),
{
    if j < s.len() && s[j] == '>' {
        j + 1
    } else {
        j
    }
}

/// Executes one lexer step at position `i`.
fn lex_step_exec(s: &[char], i: usize, st: &mut LexState) -> (r: usize)
    requires
        i < s@.len(),
    ensures
        (final(st).view(), r as int) == lex_step(s@, i as int, old(st).view()),
{
    let c = s[i];
    let p = peek_at(s, i + 1);
    if st.escape {
        st.buf.push(c);
        st.escape = false;
        return i + 1;
    }
    if st.in_single {
        if c == '\'' {
            st.in_single = false;
        } else {
            st.buf.push(c);
        }
        return i + 1;
    }
    if st.in_double {
        if c == '"' {
            st.in_double = false;
            return i + 1;
        }
        if (c == '$' && p == Some('(')) || c == '`' {
            st.flags.has_subshell = true;
        }
        if c == '\\' && (p == Some('"') || p == Some('\\') || p == Some('$') || p == Some('`')) {
            st.buf.push(s[i + 1]);
            return i + 2;
        }
        st.buf.push(c);
        return i + 1;
    }
    if c == '\\' {
        st.escape = true;
        return i + 1;
    }
    if c == '\'' {
        st.in_single = true;
        return i + 1;
    }
    if c == '"' {
        st.in_double = true;
        return i + 1;
    }
    if c == '#' {
        if st.buf.len() == 0 {
            return s.len();
        }
        st.buf.push(c);
        return i + 1;
    }
    if is_ascii_whitespace(c) {
        flush_word(st);
        if c == '\n' {
            st.flags.has_chain = true;
            push_operator(st, Operator::Chain);
        }
        return i + 1;
    }
    if c == '$' {
        if p == Some('(') {
            st.flags.has_subshell = true;
            flush_word(st);
            return i + 2;
        }
        st.buf.push(c);
        return i + 1;
    }
    if c == '`' {
        st.flags.has_subshell = true;
        flush_word(st);
        return i + 1;
    }
    if '0' <= c && c <= '9' && st.buf.len() == 0 && (p == Some('>') || p == Some('<')) {
        do_redirect(st);
        if p == Some('>') {
            return end_of_gt(s, i + 2);
        }
        return i + 2;
    }
    if c == '|' {
        flush_word(st);
        if p == Some('|') {
            st.flags.has_chain = true;
            push_operator(st, Operator::Chain);
            return i + 2;
        }
        st.flags.has_pipe = true;
        push_operator(st, Operator::Pipe);
        if p == Some('&') {
            return i + 2;
        }
        return i + 1;
    }
    if c == ';' {
        flush_word(st);
        st.flags.has_chain = true;
        push_operator(st, Operator::Chain);
        return i + 1;
    }
    if c == '&' {
        if p == Some('>') {
            do_redirect(st);
            return end_of_gt(s, i + 2);
        }
        flush_word(st);
        st.flags.has_chain = true;
        push_operator(st, Operator::Chain);
        if p == Some('&') {
            return i + 2;
        }
        return i + 1;
    }
    if c == '>' {
        do_redirect(st);
        return end_of_gt(s, i + 1);
    }
    if c == '<' {
        do_redirect(st);
        return i + 1;
    }
    st.buf.push(c);
    i + 1
}

/// Lexes `input` into tokens and structural flags.
fn lex_tokens(input: &[char]) -> (r: (Vec<Token>, LexFlags))
    ensures
        tokens_view(r.0@) == lex(input@).tokens,
        r.1 == lex(input@).flags,
{
    let mut st = LexState {
        tokens: Vec::new(),
        flags: LexFlags {
            has_pipe: false,
            has_chain: false,
            has_redirect: false,
            has_subshell: false,
            has_dangerous_redirect: false,
        },
        buf: Vec::new(),
        in_single: false,
        in_double: false,
        escape: false,
        expect: false,
    };
    assert(st.view() == lex_init()) by {
        assert(tokens_view(st.tokens@) =~= Seq::<TokenV>::empty());
    }
    let mut i: usize = 0;
    while i < input.len()
        invariant
            i <= input@.len(),
            lex_run(input@, i as int, st.view()) == lex(input@),
        decreases input@.len() - i,
    {
        proof {
            lemma_lex_step_advances(input@, i as int, st.view());
        }
        i = lex_step_exec(input, i, &mut st);
    }
    flush_word(&mut st);
    (st.tokens, st.flags)
}


// ---------------------------------------------------------------------------
// Word normalization
// ---------------------------------------------------------------------------

/// A command word reduced to its program name: trimmed, and for a path the
/// final component (`/usr/bin/git` -> `git`).
pub open spec fn normalize_command(word: Seq<char>) -> Seq<char> {
    let t = trim(word);
    if t.len() == 0 {
        Seq::empty()
    } else {
        match file_name(t) {
            Some(n) => n,
            None => t,
        }
    }
}

pub open spec fn is_shell(cmd: Seq<char>) -> bool {
    cmd == "sh"@ || cmd == "bash"@ || cmd == "zsh"@ || cmd == "dash"@ || cmd == "ksh"@
}

pub open spec fn is_eval(cmd: Seq<char>) -> bool {
    cmd == "eval"@ || cmd == "exec"@
}

/// A shell variable name: a letter or `_`, then letters, digits or `_`.
pub open spec fn valid_var_name(base: Seq<char>) -> bool {
    &&& base.len() > 0
    &&& (base[0] == '_' || crate::text::is_ascii_alpha(base[0]))
    &&& forall|j: int|
        1 <= j < base.len() ==> (#[trigger] base[j] == '_' || crate::text::is_ascii_alnum(base[j]))
}

/// The part of an assignment's name before an optional `+` (for `NAME+=value`).
pub open spec fn assign_base(name: Seq<char>) -> Seq<char> {
    if name.len() > 0 && name.last() == '+' {
        name.drop_last()
    } else {
        name
    }
}

/// `NAME=value` or `NAME+=value`, split at the first `=`.
pub open spec fn env_assignment(w: Seq<char>) -> bool {
    exists|k: int|
        0 <= k < w.len() && #[trigger] w[k] == '=' && (forall|j: int| 0 <= j < k ==> w[j] != '=')
            && valid_var_name(assign_base(w.subrange(0, k)))
}

fn normalize_command_exec(word: &[char]) -> (r: Vec<char>)
    ensures
        r@ == normalize_command(word@),
{
    let t = trim_chars(word);
    if t.len() == 0 {
        return Vec::new();
    }
    match file_name_bounds(t.as_slice()) {
        Some((a, b)) => slice_chars(t.as_slice(), a, b),
        None => t,
    }
}

fn is_valid_var_name(base: &[char]) -> (r: bool)
    ensures
        r == valid_var_name(base@),
{
    if base.len() == 0 {
        return false;
    }
    let first = base[0];
    if !(first == '_' || ('a' <= first && first <= 'z') || ('A' <= first && first <= 'Z')) {
        return false;
    }
    let mut j: usize = 1;
    while j < base.len()
        invariant
            1 <= j <= base@.len(),
            forall|k: int|
                1 <= k < j ==> (#[trigger] base@[k] == '_' || crate::text::is_ascii_alnum(
                    base@[k],
                )),
        decreases base@.len() - j,
    {
        let c = base[j];
        if !(c == '_' || crate::text::is_ascii_alphanumeric(c)) {
            return false;
        }
        j += 1;
    }
    true
}

fn is_env_assignment(w: &[char]) -> (r: bool)
    ensures
        r == env_assignment(w@),
{
    let mut k: usize = 0;
    while k < w.len() && w[k] != '='
        invariant
            k <= w@.len(),
            forall|j: int| 0 <= j < k ==> w@[j] != '=',
        decreases w@.len() - k,
    {
        k += 1;
    }
    if k == w.len() {
        assert(!env_assignment(w@));
        return false;
    }
    let name = slice_chars(w, 0, k);
    let base = if name.len() > 0 && name[name.len() - 1] == '+' {
        slice_chars(name.as_slice(), 0, name.len() - 1)
    } else {
        name
    };
    proof {
        if name@.len() > 0 && name@.last() == '+' {
            assert(name@.subrange(0, name@.len() - 1) =~= name@.drop_last());
        }
    }
    let ok = is_valid_var_name(base.as_slice());
    proof {
        if !ok {
            assert forall|k2: int|
                0 <= k2 < w@.len() && #[trigger] w@[k2] == '=' && (forall|j: int|
                    0 <= j < k2 ==> w@[j] != '=') implies !valid_var_name(
                assign_base(w@.subrange(0, k2)),
            ) by {
                if k2 < k {
                } else if k2 > k {
                    assert(w@[k as int] == '=');
                }
            }
        }
    }
    ok
}

fn is_shell_command(cmd: &[char]) -> (r: bool)
    ensures
        r == is_shell(cmd@),
{
    eq_str(cmd, "sh") || eq_str(cmd, "bash") || eq_str(cmd, "zsh") || eq_str(cmd, "dash")
        || eq_str(cmd, "ksh")
}

fn is_eval_command(cmd: &[char]) -> (r: bool)
    ensures
        r == is_eval(cmd@),
{
    eq_str(cmd, "eval") || eq_str(cmd, "exec")
}

// ---------------------------------------------------------------------------
// `bash -c` detection over plainly split words
// ---------------------------------------------------------------------------

/// State of the minimal word splitter.
pub struct SimpleSt {
    pub words: Seq<Seq<char>>,
    pub buf: Seq<char>,
    pub in_single: bool,
    pub in_double: bool,
    pub escape: bool,
}

pub open spec fn simple_step(st: SimpleSt, c: char) -> SimpleSt {
    if st.escape {
        SimpleSt { buf: st.buf.push(c), escape: false, ..st }
    } else if st.in_single {
        if c == '\'' {
            SimpleSt { in_single: false, ..st }
        } else {
            SimpleSt { buf: st.buf.push(c), ..st }
        }
    } else if st.in_double {
        if c == '"' {
            SimpleSt { in_double: false, ..st }
        } else if c == '\\' {
            SimpleSt { escape: true, ..st }
        } else {
            SimpleSt { buf: st.buf.push(c), ..st }
        }
    } else if c == '\\' {
        SimpleSt { escape: true, ..st }
    } else if c == '\'' {
        SimpleSt { in_single: true, ..st }
    } else if c == '"' {
        SimpleSt { in_double: true, ..st }
    } else if is_ascii_ws(c) {
        if st.buf.len() > 0 {
            SimpleSt { words: st.words.push(st.buf), buf: Seq::empty(), ..st }
        } else {
            st
        }
    } else {
        SimpleSt { buf: st.buf.push(c), ..st }
    }
}

pub open spec fn simple_fold(s: Seq<char>) -> SimpleSt
    decreases s.len(),
{
    if s.len() == 0 {
        SimpleSt {
            words: Seq::empty(),
            buf: Seq::empty(),
            in_single: false,
            in_double: false,
            escape: false,
        }
    } else {
        simple_step(simple_fold(s.drop_last()), s.last())
    }
}

/// Whitespace-separated words of `s`, honoring quotes and backslashes.
pub open spec fn simple_words(s: Seq<char>) -> Seq<Seq<char>> {
    let st = simple_fold(s);
    if st.buf.len() > 0 {
        st.words.push(st.buf)
    } else {
        st.words
    }
}

/// From word `i` on, a shell name followed directly by `-c` (the word after a
/// shell name is consumed whatever it is).
pub open spec fn shell_dash_c(words: Seq<Seq<char>>, i: int) -> bool
    decreases words.len() - i,
{
    if 0 <= i < words.len() {
        if is_shell(normalize_command(words[i])) {
            if i + 1 < words.len() {
                words[i + 1] == "-c"@ || shell_dash_c(words, i + 2)
            } else {
                false
            }
        } else {
            shell_dash_c(words, i + 1)
        }
    } else {
        false
    }
}

/// A character that the word splitter only adds to the current word.
pub open spec fn simple_plain(c: char) -> bool {
    !(c == '\\' || c == '\'' || c == '"' || is_ascii_ws(c))
}

pub open spec fn simple_unquoted(st: SimpleSt) -> bool {
    !st.escape && !st.in_single && !st.in_double
}

/// A run of plain characters goes into the current word.
pub proof fn lemma_simple_run(s: Seq<char>, i: int, j: int)
    requires
        0 <= i <= j <= s.len(),
        forall|k: int| i <= k < j ==> simple_plain(#[trigger] s[k]),
        simple_unquoted(simple_fold(s.take(i))),
    ensures
        simple_fold(s.take(j)) == (SimpleSt { buf: simple_fold(s.take(i)).buf + s.subrange(i, j), ..simple_fold(s.take(i)) }),
    decreases j - i,
{
    if i == j {
        assert(simple_fold(s.take(i)).buf + s.subrange(i, j) =~= simple_fold(s.take(i)).buf);
    } else {
        lemma_simple_run(s, i, j - 1);
        let t = s.take(j);
        assert(t.len() == j);
        assert(t.drop_last() =~= s.take(j - 1));
        assert(t.last() == s[j - 1]);
        assert(simple_plain(s[j - 1]));
        assert(simple_fold(t) == simple_step(simple_fold(t.drop_last()), t.last()));
        assert((simple_fold(s.take(i)).buf + s.subrange(i, j - 1)).push(s[j - 1]) =~= simple_fold(s.take(i)).buf + s.subrange(i, j));
    }
}

/// A space ends the current word, if any.
pub proof fn lemma_simple_space(s: Seq<char>, i: int)
    requires
        0 <= i < s.len(),
        s[i] == ' ',
        simple_unquoted(simple_fold(s.take(i))),
    ensures
        simple_fold(s.take(i + 1)) == simple_step(simple_fold(s.take(i)), ' '),
{
    let t = s.take(i + 1);
    assert(t.len() == i + 1);
    assert(t.drop_last() =~= s.take(i));
    assert(t.last() == ' ');
    assert(simple_fold(t) == simple_step(simple_fold(t.drop_last()), t.last()));
}

pub open spec fn words_view(v: Seq<Vec<char>>) -> Seq<Seq<char>> {
    v.map_values(|w: Vec<char>| w@)
}

fn push_word(words: &mut Vec<Vec<char>>, w: Vec<char>)
    ensures
        words_view(final(words)@) == words_view(old(words)@).push(w@),
{
    let ghost wv = w@;
    words.push(w);
    assert(words_view(words@) =~= words_view(old(words)@).push(wv));
}

fn lex_simple_words(input: &[char]) -> (r: Vec<Vec<char>>)
    ensures
        words_view(r@) == simple_words(input@),
{
    let mut words: Vec<Vec<char>> = Vec::new();
    let mut buf: Vec<char> = Vec::new();
    let mut in_single = false;
    let mut in_double = false;
    let mut escape = false;
    let mut i: usize = 0;
    assert(words_view(words@) =~= Seq::<Seq<char>>::empty());
    assert(input@.take(0) =~= Seq::<char>::empty());
    while i < input.len()
        invariant
            i <= input@.len(),
            simple_fold(input@.take(i as int)) == (SimpleSt {
                words: words_view(words@),
                buf: buf@,
                in_single,
                in_double,
                escape,
            }),
        decreases input@.len() - i,
    {
        let c = input[i];
        assert(input@.take(i + 1).drop_last() =~= input@.take(i as int));
        if escape {
            buf.push(c);
            escape = false;
        } else if in_single {
            if c == '\'' {
                in_single = false;
            } else {
                buf.push(c);
            }
        } else if in_double {
            if c == '"' {
                in_double = false;
            } else if c == '\\' {
                escape = true;
            } else {
                buf.push(c);
            }
        } else if c == '\\' {
            escape = true;
        } else if c == '\'' {
            in_single = true;
        } else if c == '"' {
            in_double = true;
        } else if is_ascii_whitespace(c) {
            if buf.len() > 0 {
                let mut w: Vec<char> = Vec::new();
                std::mem::swap(&mut buf, &mut w);
                push_word(&mut words, w);
            }
        } else {
            buf.push(c);
        }
        i += 1;
    }
    assert(input@.take(input@.len() as int) =~= input@);
    if buf.len() > 0 {
        push_word(&mut words, buf);
    }
    words
}

fn detect_shell_subshell(command: &[char]) -> (r: bool)
    ensures
        r == shell_dash_c(simple_words(command@), 0),
{
    let words = lex_simple_words(command);
    let ghost ws = simple_words(command@);
    let mut i: usize = 0;
    while i < words.len()
        invariant
            ws == simple_words(command@),
            words_view(words@) == ws,
            i <= words@.len() + 1,
            shell_dash_c(ws, 0) == shell_dash_c(ws, i as int),
        decreases words@.len() + 1 - i,
    {
        assert(ws[i as int] == words@[i as int]@);
        assert(ws.len() == words@.len());
        let normalized = normalize_command_exec(words[i].as_slice());
        assert(normalized@ == normalize_command(ws[i as int]));
        if is_shell_command(normalized.as_slice()) {
            if i + 1 < words.len() {
                assert(ws[i + 1] == words@[i + 1]@);
                let dash_c = eq_str(words[i + 1].as_slice(), "-c");
                assert(shell_dash_c(ws, i as int) == (ws[i + 1] == "-c"@ || shell_dash_c(ws, i + 2)));
                if dash_c {
                    return true;
                }
                i += 2;
            } else {
                return false;
            }
        } else {
            i += 1;
        }
    }
    false
}

// ---------------------------------------------------------------------------
// Command assembly
// ---------------------------------------------------------------------------

/// Accumulator of the fold that turns tokens into commands.
pub struct Asm {
    pub all: Seq<Seq<char>>,
    pub primary: Seq<char>,
    pub primary_args: Seq<Seq<char>>,
    pub current: Option<Seq<char>>,
    pub args: Seq<Seq<char>>,
}

pub open spec fn asm_init() -> Asm {
    Asm {
        all: Seq::empty(),
        primary: Seq::empty(),
        primary_args: Seq::empty(),
        current: None,
        args: Seq::empty(),
    }
}

/// Closes the current command: it joins the command list, and the first
/// command closed becomes the primary one together with its arguments.
pub open spec fn end_command(a: Asm) -> Asm {
    match a.current {
        Some(cmd) => {
            let first = a.primary.len() == 0;
            Asm {
                all: a.all.push(cmd),
                primary: if first {
                    cmd
                } else {
                    a.primary
                },
                primary_args: if first {
                    a.args
                } else {
                    a.primary_args
                },
                current: None,
                args: a.args,
            }
        },
        None => a,
    }
}

pub open spec fn asm_step(a: Asm, t: TokenV) -> Asm {
    match t {
        TokenV::Word(w) => {
            let n = trim(w);
            if a.current is None {
                if env_assignment(n) {
                    a
                } else {
                    let cmd = normalize_command(n);
                    if cmd.len() > 0 {
                        Asm { current: Some(cmd), ..a }
                    } else {
                        a
                    }
                }
            } else {
                Asm { args: a.args.push(n), ..a }
            }
        },
        TokenV::Operator(op) => match op {
            Operator::Redirect => a,
            _ => Asm { args: Seq::empty(), ..end_command(a) },
        },
        TokenV::RedirectTarget(_) => a,
    }
}

pub open spec fn asm_fold(ts: Seq<TokenV>) -> Asm
    decreases ts.len(),
{
    if ts.len() == 0 {
        asm_init()
    } else {
        asm_step(asm_fold(ts.drop_last()), ts.last())
    }
}

/// The commands found in `command`.
pub open spec fn commands_of(command: Seq<char>) -> Asm {
    end_command(asm_fold(lex(command).tokens))
}

/// What [`tokenize_bash`] returns for `command`.
pub open spec fn tokenize(command: Seq<char>) -> BashTokensView {
    let lx = lex(command);
    let a = commands_of(command);
    BashTokensView {
        primary_command: a.primary,
        all_commands: a.all,
        has_pipe: lx.flags.has_pipe,
        has_chain: lx.flags.has_chain,
        has_redirect: lx.flags.has_redirect,
        has_subshell: lx.flags.has_subshell || shell_dash_c(simple_words(command), 0),
        has_eval: exists|i: int| 0 <= i < a.all.len() && is_eval(#[trigger] a.all[i]),
        has_dangerous_redirect: lx.flags.has_dangerous_redirect,
        primary_args: a.primary_args,
    }
}

struct AsmState {
    all: Vec<Vec<char>>,
    primary: Vec<char>,
    primary_args: Vec<Vec<char>>,
    current: Option<Vec<char>>,
    args: Vec<Vec<char>>,
}

impl AsmState {
    spec fn view(&self) -> Asm {
        Asm {
            all: words_view(self.all@),
            primary: self.primary@,
            primary_args: words_view(self.primary_args@),
            current: match self.current {
                Some(c) => Some(c@),
                None => None,
            },
            args: words_view(self.args@),
        }
    }
}

fn copy_words(v: &Vec<Vec<char>>) -> (r: Vec<Vec<char>>)
    ensures
        words_view(r@) == words_view(v@),
{
    let mut r: Vec<Vec<char>> = Vec::new();
    let mut i: usize = 0;
    while i < v.len()
        invariant
            i <= v@.len(),
            words_view(r@) == words_view(v@).take(i as int),
        decreases v@.len() - i,
    {
        let w = slice_chars(v[i].as_slice(), 0, v[i].len());
        assert(v[i as int]@.subrange(0, v[i as int]@.len() as int) =~= v[i as int]@);
        push_word(&mut r, w);
        assert(words_view(v@).take(i as int).push(v@[i as int]@) =~= words_view(v@).take(i + 1));
        i += 1;
    }
    assert(words_view(v@).take(v@.len() as int) =~= words_view(v@));
    r
}

fn end_command_exec(a: &mut AsmState)
    ensures
        final(a).view() == end_command(old(a).view()),
{
    let mut cur: Option<Vec<char>> = None;
    std::mem::swap(&mut cur, &mut a.current);
    match cur {
        Some(cmd) => {
            if a.primary.len() == 0 {
                a.primary = slice_chars(cmd.as_slice(), 0, cmd.len());
                assert(cmd@.subrange(0, cmd@.len() as int) =~= cmd@);
                a.primary_args = copy_words(&a.args);
            }
            push_word(&mut a.all, cmd);
        },
        None => {},
    }
}

fn strings_of(v: &Vec<Vec<char>>) -> (r: Vec<String>)
    ensures
        strings_view(r@) == words_view(v@),
{
    let mut r: Vec<String> = Vec::new();
    let mut i: usize = 0;
    while i < v.len()
        invariant
            i <= v@.len(),
            strings_view(r@) == words_view(v@).take(i as int),
        decreases v@.len() - i,
    {
        let s = string_of(v[i].as_slice());
        let ghost sv = s@;
        let ghost r0 = r@;
        r.push(s);
        assert(strings_view(r@) =~= strings_view(r0).push(sv));
        assert(words_view(v@).take(i as int).push(v@[i as int]@) =~= words_view(v@).take(i + 1));
        i += 1;
    }
    assert(words_view(v@).take(v@.len() as int) =~= words_view(v@));
    r
}

/// Tokenize a bash command string with lightweight detection and normalization.
pub fn tokenize_bash(command: &str) -> (r: BashTokens)
    ensures
        r@ == tokenize(command@),
{
    let input = chars_of(command);
    let (tokens, flags) = lex_tokens(input.as_slice());
    let ghost tv = tokens_view(tokens@);
    let mut a = AsmState {
        all: Vec::new(),
        primary: Vec::new(),
        primary_args: Vec::new(),
        current: None,
        args: Vec::new(),
    };
    assert(a.view() == asm_init()) by {
        assert(words_view(a.all@) =~= Seq::<Seq<char>>::empty());
        assert(words_view(a.args@) =~= Seq::<Seq<char>>::empty());
        assert(words_view(a.primary_args@) =~= Seq::<Seq<char>>::empty());
    }
    let mut i: usize = 0;
    assert(tv.take(0) =~= Seq::<TokenV>::empty());
    while i < tokens.len()
        invariant
            i <= tokens@.len(),
            tv == tokens_view(tokens@),
            a.view() == asm_fold(tv.take(i as int)),
        decreases tokens@.len() - i,
    {
        assert(tv.take(i + 1).drop_last() =~= tv.take(i as int));
        assert(tv.take(i + 1).last() == tokens@[i as int]@);
        match &tokens[i] {
            Token::Word(word) => {
                let normalized = trim_chars(word.as_slice());
                if a.current.is_none() {
                    if !is_env_assignment(normalized.as_slice()) {
                        let cmd = normalize_command_exec(normalized.as_slice());
                        if cmd.len() > 0 {
                            a.current = Some(cmd);
                        }
                    }
                } else {
                    push_word(&mut a.args, normalized);
                }
            },
            Token::Operator(op) => match op {
                Operator::Redirect => {},
                _ => {
                    end_command_exec(&mut a);
                    a.args = Vec::new();
                    assert(words_view(a.args@) =~= Seq::<Seq<char>>::empty());
                },
            },
            Token::RedirectTarget(_) => {},
        }
        i += 1;
    }
    assert(tv.take(tokens@.len() as int) =~= tv);
    end_command_exec(&mut a);
    let mut has_eval = false;
    let mut j: usize = 0;
    while j < a.all.len()
        invariant
            j <= a.all@.len(),
            has_eval == exists|k: int| 0 <= k < j && is_eval(#[trigger] words_view(a.all@)[k]),
        decreases a.all@.len() - j,
    {
        assert(words_view(a.all@)[j as int] == a.all@[j as int]@);
        if is_eval_command(a.all[j].as_slice()) {
            has_eval = true;
        }
        j += 1;
    }
    let mut has_subshell = flags.has_subshell;
    if !has_subshell && detect_shell_subshell(input.as_slice()) {
        has_subshell = true;
    }
    let all_commands = strings_of(&a.all);
    let primary_args = strings_of(&a.primary_args);
    let primary_command = string_of(a.primary.as_slice());
    BashTokens {
        primary_command,
        all_commands,
        has_pipe: flags.has_pipe,
        has_chain: flags.has_chain,
        has_redirect: flags.has_redirect,
        has_subshell,
        has_eval,
        has_dangerous_redirect: flags.has_dangerous_redirect,
        primary_args,
    }
}

} // verus!
