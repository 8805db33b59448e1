//! Character-level helpers shared by the parsers of this crate.
//!
//! Strings are handled as sequences of Unicode scalar values (`Seq<char>`),
//! which is the view vstd gives to `str` and `String`.

use vstd::prelude::*;

verus! {

/// Appends one character to a `String` (std `String::push`).
#[verifier::external_body]
pub(crate) fn push_char(s: &mut String, c: char)
    ensures
        final(s)@ == old(s)@.push(c),
{
    s.push(c);
}

/// The characters `urlencoding::encode` leaves as they are: ASCII letters
/// and digits, `-`, `.`, `_` and `~`.
pub open spec fn is_url_safe(c: char) -> bool {
    is_ascii_alnum(c) || c == '-' || c == '.' || c == '_' || c == '~'
}

/// The UTF-8 bytes of `c`.
pub open spec fn utf8_bytes(c: char) -> Seq<u8> {
    let n = c as u32;
    if n < 0x80 {
        seq![n as u8]
    } else if n < 0x800 {
        seq![(0xC0 + n / 64) as u8, (0x80 + n % 64) as u8]
    } else if n < 0x10000 {
        seq![(0xE0 + n / 4096) as u8, (0x80 + (n / 64) % 64) as u8, (0x80 + n % 64) as u8]
    } else {
        seq![
            (0xF0 + n / 262144) as u8,
            (0x80 + (n / 4096) % 64) as u8,
            (0x80 + (n / 64) % 64) as u8,
            (0x80 + n % 64) as u8,
        ]
    }
}

/// The upper-case hexadecimal digit of `d` (below 16).
pub open spec fn hex_digit(d: nat) -> char {
    if d < 10 {
        (48 + d) as char
    } else {
        (55 + d) as char
    }
}

/// `%` and the two hexadecimal digits of each byte.
pub open spec fn percent_bytes(b: Seq<u8>) -> Seq<char>
    decreases b.len(),
{
    if b.len() == 0 {
        Seq::empty()
    } else {
        percent_bytes(b.drop_last()) + seq!['%', hex_digit((b.last() / 16) as nat), hex_digit((b.last() % 16) as nat)]
    }
}

/// What `urlencoding::encode` gives for `s`: the characters of
/// `is_url_safe` as they are, every other character as `%XX` for each of
/// its UTF-8 bytes (upper-case hexadecimal).
pub open spec fn url_encoded(s: Seq<char>) -> Seq<char>
    decreases s.len(),
{
    if s.len() == 0 {
        Seq::empty()
    } else {
        url_encoded(s.drop_last()) + if is_url_safe(s.last()) {
            seq![s.last()]
        } else {
            percent_bytes(utf8_bytes(s.last()))
        }
    }
}

fn hex_char(d: u8) -> (c: char)
    requires
        d < 16,
    ensures
        c == hex_digit(d as nat),
{
    if d < 10 {
        char_from_ascii((48 + d) as u32)
    } else {
        char_from_ascii((55 + d) as u32)
    }
}

/// The UTF-8 bytes of `c`.
fn utf8_bytes_of(c: char) -> (r: Vec<u8>)
    ensures
        r@ == utf8_bytes(c),
{
    let n = c as u32;
    let mut r: Vec<u8> = Vec::new();
    if n < 0x80 {
        r.push(n as u8);
    } else if n < 0x800 {
        r.push((0xC0 + n / 64) as u8);
        r.push((0x80 + n % 64) as u8);
    } else if n < 0x10000 {
        r.push((0xE0 + n / 4096) as u8);
        r.push((0x80 + (n / 64) % 64) as u8);
        r.push((0x80 + n % 64) as u8);
    } else {
        r.push((0xF0 + n / 262144) as u8);
        r.push((0x80 + (n / 4096) % 64) as u8);
        r.push((0x80 + (n / 64) % 64) as u8);
        r.push((0x80 + n % 64) as u8);
    }
    assert(r@ =~= utf8_bytes(c));
    r
}

/// Percent-encodes `s` as `urlencoding::encode` does: the characters of
/// `is_url_safe` stay, every other byte of the UTF-8 text becomes `%XX`.
pub(crate) fn url_encode(s: &str) -> (r: String)
    ensures
        r@ == url_encoded(s@),
        (forall|i: int| 0 <= i < s@.len() ==> is_url_safe(#[trigger] s@[i])) ==> r@ == s@,
{
    let v = chars_of(s);
    let mut out: Vec<char> = Vec::new();
    let mut i: usize = 0;
    assert(v@.take(0) =~= Seq::<char>::empty());
    while i < v.len()
        invariant
            i <= v@.len(),
            out@ == url_encoded(v@.take(i as int)),
            (forall|j: int| 0 <= j < v@.len() ==> is_url_safe(#[trigger] v@[j])) ==> out@ == v@.take(i as int),
        decreases v@.len() - i,
    {
        let c = v[i];
        assert(v@.take(i + 1).drop_last() =~= v@.take(i as int));
        let ghost before = out@;
        if is_ascii_alphanumeric(c) || c == '-' || c == '.' || c == '_' || c == '~' {
            out.push(c);
            assert(v@.take(i + 1) =~= v@.take(i as int).push(c));
        } else {
            let bytes = utf8_bytes_of(c);
            let mut k: usize = 0;
            assert(bytes@.take(0) =~= Seq::<u8>::empty());
            assert(before + Seq::<char>::empty() =~= before);
            while k < bytes.len()
                invariant
                    k <= bytes@.len(),
                    out@ == before + percent_bytes(bytes@.take(k as int)),
                decreases bytes@.len() - k,
            {
                let b = bytes[k];
                assert(bytes@.take(k + 1).drop_last() =~= bytes@.take(k as int));
                out.push('%');
                out.push(hex_char(b / 16));
                out.push(hex_char(b % 16));
                assert(out@ =~= before + percent_bytes(bytes@.take(k + 1)));
                k += 1;
            }
            assert(bytes@.take(bytes@.len() as int) =~= bytes@);
        }
        i += 1;
    }
    assert(v@.take(v@.len() as int) =~= v@);
    string_of(out.as_slice())
}

/// The decimal text of a signed integer, with a leading `-` when negative.
pub open spec fn signed_decimal(n: int) -> Seq<char> {
    if n < 0 {
        seq!['-'] + decimal((-n) as nat)
    } else {
        decimal(n as nat)
    }
}

/// `signed_decimal(n)` as characters (what `i32::to_string` prints).
pub fn i32_decimal_chars(n: i32) -> (r: Vec<char>)
    ensures
        r@ == signed_decimal(n as int),
{
    if n < 0 {
        let m: u64 = (0i64 - (n as i64)) as u64;
        let mut r: Vec<char> = Vec::new();
        r.push('-');
        let d = decimal_chars(m);
        extend_chars(&mut r, d.as_slice());
        assert(r@ =~= seq!['-'] + decimal((-(n as int)) as nat));
        r
    } else {
        decimal_chars(n as u64)
    }
}

/// The characters of `s`, in order.
pub fn chars_of(s: &str) -> (res: Vec<char>)
    ensures
        res@ == s@,
{
    let mut res: Vec<char> = Vec::new();
    for c in it: s.chars()
        invariant
            res@ == it.seq().take(it.index() as int),
    {
        res.push(c);
    }
    res
}

/// A `String` holding exactly the characters of `v`.
pub fn string_of(v: &[char]) -> (res: String)
    ensures
        res@ == v@,
{
    let mut res = String::new();
    let mut i: usize = 0;
    while i < v.len()
        invariant
            i <= v@.len(),
            res@ == v@.take(i as int),
        decreases v@.len() - i,
    {
        push_char(&mut res, v[i]);
        assert(v@.take(i as int).push(v@[i as int]) =~= v@.take(i + 1));
        i += 1;
    }
    assert(v@.take(v@.len() as int) =~= v@);
    res
}

/// Converts a string slice to an owned `String` with the same characters.
pub fn owned(s: &str) -> (res: String)
    ensures
        res@ == s@,
{
    s.to_owned()
}

/// Characters with the Unicode `White_Space` property (what `char::is_whitespace` tests).
pub open spec fn is_ws(c: char) -> bool {
    let n = c as u32;
    ||| 9 <= n <= 13
    ||| n == 32
    ||| n == 0x85
    ||| n == 0xa0
    ||| n == 0x1680
    ||| 0x2000 <= n <= 0x200a
    ||| n == 0x2028
    ||| n == 0x2029
    ||| n == 0x202f
    ||| n == 0x205f
    ||| n == 0x3000
}

/// ASCII whitespace as `char::is_ascii_whitespace` defines it (space, tab, LF, FF, CR).
pub open spec fn is_ascii_ws(c: char) -> bool {
    c == ' ' || c == '\t' || c == '\n' || c == '\x0C' || c == '\r'
}

pub open spec fn is_ascii_digit(c: char) -> bool {
    '0' <= c <= '9'
}

pub open spec fn is_ascii_lower(c: char) -> bool {
    'a' <= c <= 'z'
}

pub open spec fn is_ascii_upper(c: char) -> bool {
    'A' <= c <= 'Z'
}

pub open spec fn is_ascii_alpha(c: char) -> bool {
    is_ascii_lower(c) || is_ascii_upper(c)
}

pub open spec fn is_ascii_alnum(c: char) -> bool {
    is_ascii_alpha(c) || is_ascii_digit(c)
}

/// Lower-cases ASCII letters and leaves every other character unchanged.
pub open spec fn ascii_lower(c: char) -> char {
    if is_ascii_upper(c) {
        ((c as u32) + 32) as char
    } else {
        c
    }
}

pub open spec fn ascii_lower_seq(s: Seq<char>) -> Seq<char> {
    s.map_values(|c: char| ascii_lower(c))
}

pub fn is_whitespace(c: char) -> (r: bool)
    ensures
        r == is_ws(c),
{
    let n = c as u32;
    (9 <= n && n <= 13) || n == 32 || n == 0x85 || n == 0xa0 || n == 0x1680 || (0x2000 <= n && n
        <= 0x200a) || n == 0x2028 || n == 0x2029 || n == 0x202f || n == 0x205f || n == 0x3000
}

pub fn is_ascii_whitespace(c: char) -> (r: bool)
    ensures
        r == is_ascii_ws(c),
{
    c == ' ' || c == '\t' || c == '\n' || c == '\x0C' || c == '\r'
}

pub fn is_ascii_alphanumeric(c: char) -> (r: bool)
    ensures
        r == is_ascii_alnum(c),
{
    ('a' <= c && c <= 'z') || ('A' <= c && c <= 'Z') || ('0' <= c && c <= '9')
}

pub fn to_ascii_lower(c: char) -> (r: char)
    ensures
        r == ascii_lower(c),
{
    if 'A' <= c && c <= 'Z' {
        let n: u32 = c as u32 + 32;
        assert(0x61 <= n <= 0x7a);
        char_from_ascii(n)
    } else {
        c
    }
}

/// The character with the given ASCII code.
fn char_from_ascii(n: u32) -> (c: char)
    requires
        n < 128,
    ensures
        c == n as char,
        c as u32 == n,
{
    let b: u8 = n as u8;
    b as char
}

/// Removes leading `White_Space` characters (what `str::trim_start` removes).
pub open spec fn trim_start(s: Seq<char>) -> Seq<char>
    decreases s.len(),
{
    if s.len() > 0 && is_ws(s[0]) {
        trim_start(s.drop_first())
    } else {
        s
    }
}

/// Removes trailing `White_Space` characters (what `str::trim_end` removes).
pub open spec fn trim_end(s: Seq<char>) -> Seq<char>
    decreases s.len(),
{
    if s.len() > 0 && is_ws(s.last()) {
        trim_end(s.drop_last())
    } else {
        s
    }
}

/// Removes leading and trailing `White_Space` characters (what `str::trim` removes).
pub open spec fn trim(s: Seq<char>) -> Seq<char> {
    trim_end(trim_start(s))
}

proof fn lemma_trim_start_skip(s: Seq<char>, i: int)
    requires
        0 <= i <= s.len(),
        forall|j: int| 0 <= j < i ==> is_ws(#[trigger] s[j]),
    ensures
        trim_start(s) == trim_start(s.subrange(i, s.len() as int)),
    decreases i,
{
    if i > 0 {
        assert(s.drop_first() =~= s.subrange(1, s.len() as int));
        let t = s.drop_first();
        assert forall|j: int| 0 <= j < i - 1 implies is_ws(#[trigger] t[j]) by {
            assert(t[j] == s[j + 1]);
        }
        lemma_trim_start_skip(t, i - 1);
        assert(t.subrange(i - 1, t.len() as int) =~= s.subrange(i, s.len() as int));
    } else {
        assert(s.subrange(0, s.len() as int) =~= s);
    }
}

proof fn lemma_trim_end_take(s: Seq<char>, i: int)
    requires
        0 <= i <= s.len(),
        forall|j: int| i <= j < s.len() ==> is_ws(#[trigger] s[j]),
    ensures
        trim_end(s) == trim_end(s.subrange(0, i)),
    decreases s.len() - i,
{
    if i < s.len() {
        let t = s.drop_last();
        assert forall|j: int| i <= j < t.len() implies is_ws(#[trigger] t[j]) by {
            assert(t[j] == s[j]);
        }
        lemma_trim_end_take(t, i);
        assert(t.subrange(0, i) =~= s.subrange(0, i));
    } else {
        assert(s.subrange(0, i) =~= s);
    }
}

/// The bounds `(start, end)` of `trim(v)` inside `v`.
pub fn trim_bounds(v: &[char]) -> (r: (usize, usize))
    ensures
        r.0 <= r.1 <= v@.len(),
        trim(v@) == v@.subrange(r.0 as int, r.1 as int),
        r.0 == r.1 ==> trim(v@).len() == 0,
{
    let mut start: usize = 0;
    while start < v.len() && is_whitespace(v[start])
        invariant
            start <= v@.len(),
            forall|j: int| 0 <= j < start ==> is_ws(#[trigger] v@[j]),
        decreases v@.len() - start,
    {
        start += 1;
    }
    proof {
        lemma_trim_start_skip(v@, start as int);
    }
    let ghost rest = v@.subrange(start as int, v@.len() as int);
    assert(trim_start(rest) == rest);
    let mut end: usize = v.len();
    while end > start && is_whitespace(v[end - 1])
        invariant
            start <= end <= v@.len(),
            forall|j: int| end <= j < v@.len() ==> is_ws(#[trigger] v@[j]),
        decreases end,
    {
        end -= 1;
    }
    proof {
        lemma_trim_end_take(rest, end - start);
        assert(rest.subrange(0, end - start) =~= v@.subrange(start as int, end as int));
        let t = v@.subrange(start as int, end as int);
        assert(trim_end(t) == t);
    }
    (start, end)
}

/// `trim(v)` as a new vector.
pub fn trim_chars(v: &[char]) -> (res: Vec<char>)
    ensures
        res@ == trim(v@),
{
    let (s, e) = trim_bounds(v);
    slice_chars(v, s, e)
}

/// Copies `v[from..to]`.
pub fn slice_chars(v: &[char], from: usize, to: usize) -> (res: Vec<char>)
    requires
        from <= to <= v@.len(),
    ensures
        res@ == v@.subrange(from as int, to as int),
{
    let mut res: Vec<char> = Vec::new();
    let mut i = from;
    while i < to
        invariant
            from <= i <= to <= v@.len(),
            res@ == v@.subrange(from as int, i as int),
        decreases to - i,
    {
        res.push(v[i]);
        assert(v@.subrange(from as int, i as int).push(v@[i as int]) =~= v@.subrange(
            from as int,
            i + 1,
        ));
        i += 1;
    }
    res
}

/// Whether two character sequences are equal.
pub fn chars_eq(a: &[char], b: &[char]) -> (r: bool)
    ensures
        r == (a@ == b@),
{
    if a.len() != b.len() {
        return false;
    }
    let mut i: usize = 0;
    while i < a.len()
        invariant
            a@.len() == b@.len(),
            i <= a@.len(),
            forall|j: int| 0 <= j < i ==> a@[j] == b@[j],
        decreases a@.len() - i,
    {
        if a[i] != b[i] {
            return false;
        }
        i += 1;
    }
    assert(a@ =~= b@);
    true
}

/// Whether `v` equals the characters of `lit`.
pub fn eq_str(v: &[char], lit: &str) -> (r: bool)
    ensures
        r == (v@ == lit@),
{
    let l = chars_of(lit);
    chars_eq(v, l.as_slice())
}

/// Whether `p` is a prefix of `v`.
pub fn has_prefix(v: &[char], p: &[char]) -> (r: bool)
    ensures
        r == p@.is_prefix_of(v@),
{
    if p.len() > v.len() {
        return false;
    }
    let mut i: usize = 0;
    while i < p.len()
        invariant
            p@.len() <= v@.len(),
            i <= p@.len(),
            forall|j: int| 0 <= j < i ==> p@[j] == v@[j],
        decreases p@.len() - i,
    {
        if p[i] != v[i] {
            return false;
        }
        i += 1;
    }
    true
}

/// Whether the characters of `lit` are a prefix of `v`.
pub fn starts_with_str(v: &[char], lit: &str) -> (r: bool)
    ensures
        r == lit@.is_prefix_of(v@),
{
    let l = chars_of(lit);
    has_prefix(v, l.as_slice())
}

/// Whether `s` is a suffix of `v`.
pub fn has_suffix(v: &[char], s: &[char]) -> (r: bool)
    ensures
        r == s@.is_suffix_of(v@),
{
    if s.len() > v.len() {
        return false;
    }
    let vl = v.len();
    let off = vl - s.len();
    let mut i: usize = 0;
    while i < s.len()
        invariant
            s@.len() <= v@.len(),
            off == v@.len() - s@.len(),
            off + s@.len() == vl,
            vl == v@.len(),
            i <= s@.len(),
            forall|j: int| 0 <= j < i ==> s@[j] == v@[off + j],
        decreases s@.len() - i,
    {
        if s[i] != v[off + i] {
            return false;
        }
        i += 1;
    }
    true
}

/// Whether the characters of `lit` are a suffix of `v`.
pub fn ends_with_str(v: &[char], lit: &str) -> (r: bool)
    ensures
        r == lit@.is_suffix_of(v@),
{
    let l = chars_of(lit);
    has_suffix(v, l.as_slice())
}

/// Whether `c` occurs in `v`.
pub fn contains_char(v: &[char], c: char) -> (r: bool)
    ensures
        r == v@.contains(c),
{
    let mut i: usize = 0;
    while i < v.len()
        invariant
            i <= v@.len(),
            forall|j: int| 0 <= j < i ==> v@[j] != c,
        decreases v@.len() - i,
    {
        if v[i] == c {
            return true;
        }
        i += 1;
    }
    false
}

/// Appends the characters of `lit` to `v`.
pub fn extend_str(v: &mut Vec<char>, lit: &str)
    ensures
        final(v)@ == old(v)@ + lit@,
{
    let l = chars_of(lit);
    extend_chars(v, l.as_slice());
}

/// Appends `w` to `v`.
pub fn extend_chars(v: &mut Vec<char>, w: &[char])
    ensures
        final(v)@ == old(v)@ + w@,
{
    let ghost v0 = v@;
    let mut i: usize = 0;
    while i < w.len()
        invariant
            i <= w@.len(),
            v@ == v0 + w@.take(i as int),
        decreases w@.len() - i,
    {
        v.push(w[i]);
        assert(v0 + w@.take(i as int).push(w@[i as int]) =~= v0 + w@.take(i + 1));
        i += 1;
    }
    assert(w@.take(w@.len() as int) =~= w@);
}

/// ASCII lower-casing of every character of `v`.
pub fn to_ascii_lowercase(v: &[char]) -> (res: Vec<char>)
    ensures
        res@ == ascii_lower_seq(v@),
{
    let mut res: Vec<char> = Vec::new();
    let mut i: usize = 0;
    while i < v.len()
        invariant
            i <= v@.len(),
            res@ =~= ascii_lower_seq(v@.take(i as int)),
        decreases v@.len() - i,
    {
        let c = to_ascii_lower(v[i]);
        res.push(c);
        assert(ascii_lower_seq(v@.take(i + 1)) =~= ascii_lower_seq(v@.take(i as int)).push(c));
        i += 1;
    }
    assert(v@.take(v@.len() as int) =~= v@);
    res
}


/// Index of the last occurrence of `c` in `s`, or -1.
pub open spec fn last_index_of(s: Seq<char>, c: char) -> int
    decreases s.len(),
{
    if s.len() == 0 {
        -1
    } else if s.last() == c {
        s.len() - 1
    } else {
        last_index_of(s.drop_last(), c)
    }
}

pub(crate) proof fn lemma_last_index_of_bounds(s: Seq<char>, c: char)
    ensures
        -1 <= last_index_of(s, c) < s.len(),
        last_index_of(s, c) >= 0 ==> s[last_index_of(s, c)] == c,
        forall|j: int| last_index_of(s, c) < j < s.len() ==> s[j] != c,
    decreases s.len(),
{
    if s.len() > 0 && s.last() != c {
        let t = s.drop_last();
        lemma_last_index_of_bounds(t, c);
        assert forall|j: int| last_index_of(s, c) < j < s.len() implies s[j] != c by {
            if j < s.len() - 1 {
                assert(s[j] == t[j]);
            }
        }
    }
}

/// The last component of `s` read as a Unix path: `/`-separated segments,
/// where empty and `.` segments are skipped.
pub open spec fn last_component(s: Seq<char>) -> Option<Seq<char>>
    decreases s.len(),
{
    if s.len() == 0 {
        None
    } else {
        let k = last_index_of(s, '/');
        let seg = s.subrange(k + 1, s.len() as int);
        if seg.len() > 0 && seg != seq!['.'] {
            Some(seg)
        } else if k < 0 || k >= s.len() {
            None
        } else {
            last_component(s.subrange(0, k))
        }
    }
}

/// What `std::path::Path::file_name` returns on Unix: the final component,
/// or `None` when the path ends in `..` or has no normal component.
pub open spec fn file_name(s: Seq<char>) -> Option<Seq<char>> {
    match last_component(s) {
        Some(x) => if x == seq!['.', '.'] {
            None
        } else {
            Some(x)
        },
        None => None,
    }
}

/// Position of the last `c` in `v[..end]`.
pub fn last_index_in(v: &[char], end: usize, c: char) -> (r: Option<usize>)
    requires
        end <= v@.len(),
    ensures
        match r {
            Some(k) => k < end && k as int == last_index_of(v@.subrange(0, end as int), c),
            None => last_index_of(v@.subrange(0, end as int), c) == -1,
        },
{
    let mut j = end;
    while j > 0
        invariant
            j <= end <= v@.len(),
            last_index_of(v@.subrange(0, end as int), c) == last_index_of(
                v@.subrange(0, j as int),
                c,
            ),
        decreases j,
    {
        assert(v@.subrange(0, j as int).last() == v@[j - 1]);
        if v[j - 1] == c {
            return Some(j - 1);
        }
        assert(v@.subrange(0, j as int).drop_last() =~= v@.subrange(0, j - 1));
        j -= 1;
    }
    None
}

/// Bounds of `last_component(v)` inside `v`.
fn last_component_bounds(v: &[char]) -> (r: Option<(usize, usize)>)
    ensures
        match r {
            Some((a, b)) => a <= b <= v@.len() && last_component(v@) == Some(
                v@.subrange(a as int, b as int),
            ),
            None => last_component(v@) is None,
        },
{
    let mut end = v.len();
    assert(v@.subrange(0, end as int) =~= v@);
    loop
        invariant
            end <= v@.len(),
            last_component(v@) == last_component(v@.subrange(0, end as int)),
        decreases end,
    {
        let ghost s = v@.subrange(0, end as int);
        if end == 0 {
            return None;
        }
        let k = last_index_in(v, end, '/');
        proof {
            lemma_last_index_of_bounds(s, '/');
        }
        let start = match k {
            Some(k) => k + 1,
            None => 0,
        };
        assert(s.subrange(start as int, s.len() as int) =~= v@.subrange(start as int, end as int));
        let seg_len = end - start;
        let is_dot = seg_len == 1 && v[start] == '.';
        proof {
            if seg_len == 1 {
                let seg = v@.subrange(start as int, end as int);
                if v@[start as int] == '.' {
                    assert(seg =~= seq!['.']);
                } else {
                    assert(seg[0] != seq!['.'][0]);
                }
            }
        }
        if seg_len > 0 && !is_dot {
            return Some((start, end));
        }
        match k {
            None => {
                return None;
            },
            Some(k) => {
                assert(s.subrange(0, k as int) =~= v@.subrange(0, k as int));
                end = k;
            },
        }
    }
}

/// `file_name(v)` as the bounds of the component inside `v`.
pub fn file_name_bounds(v: &[char]) -> (r: Option<(usize, usize)>)
    ensures
        match r {
            Some((a, b)) => a <= b <= v@.len() && file_name(v@) == Some(
                v@.subrange(a as int, b as int),
            ),
            None => file_name(v@) is None,
        },
{
    match last_component_bounds(v) {
        None => None,
        Some((a, b)) => {
            let is_dotdot = b - a == 2 && v[a] == '.' && v[a + 1] == '.';
            proof {
                let x = v@.subrange(a as int, b as int);
                if b - a == 2 {
                    if v@[a as int] == '.' && v@[a + 1] == '.' {
                        assert(x =~= seq!['.', '.']);
                    } else if v@[a as int] != '.' {
                        assert(x[0] != seq!['.', '.'][0]);
                    } else {
                        assert(x[1] != seq!['.', '.'][1]);
                    }
                } else {
                    assert(x.len() != seq!['.', '.'].len());
                }
            }
            if is_dotdot {
                None
            } else {
                Some((a, b))
            }
        },
    }
}


/// The decimal digit for `d < 10`.
pub open spec fn digit_char(d: nat) -> char {
    ((d + 48) as u32) as char
}

/// Decimal representation of `n` without leading zeros (what `Display` prints
/// for unsigned integers).
pub open spec fn decimal(n: nat) -> Seq<char>
    decreases n,
{
    if n < 10 {
        seq![digit_char(n)]
    } else {
        decimal(n / 10).push(digit_char(n % 10))
    }
}

/// `decimal(n)` as characters.
/// The decimal digits of a 128-bit count.
pub fn decimal_chars_wide(n: u128) -> (r: Vec<char>)
    ensures
        r@ == decimal(n as nat),
    decreases n,
{
    let d = n % 10;
    let c = char_from_ascii((d + 48) as u32);
    if n < 10 {
        let mut r: Vec<char> = Vec::new();
        r.push(c);
        assert(r@ =~= seq![digit_char(n as nat)]);
        r
    } else {
        let mut r = decimal_chars_wide(n / 10);
        r.push(c);
        r
    }
}

pub fn decimal_chars(n: u64) -> (r: Vec<char>)
    ensures
        r@ == decimal(n as nat),
    decreases n,
{
    let d = n % 10;
    let c = char_from_ascii((d + 48) as u32);
    if n < 10 {
        let mut r: Vec<char> = Vec::new();
        r.push(c);
        assert(r@ =~= seq![digit_char(n as nat)]);
        r
    } else {
        let mut r = decimal_chars(n / 10);
        r.push(c);
        r
    }
}

/// Whether two string slices hold the same characters.
pub fn str_eq(a: &str, b: &str) -> (r: bool)
    ensures
        r == (a@ == b@),
{
    let x = chars_of(a);
    let y = chars_of(b);
    chars_eq(x.as_slice(), y.as_slice())
}

/// Whether `a` is `Some` of the characters of `lit`.
pub fn opt_eq_str(a: &Option<String>, lit: &str) -> (r: bool)
    ensures
        r == (a matches Some(s) && s@ == lit@),
{
    match a {
        Some(s) => str_eq(s.as_str(), lit),
        None => false,
    }
}


proof fn lemma_trim_start_first(s: Seq<char>)
    ensures
        trim_start(s).len() <= s.len(),
        trim_start(s).len() > 0 ==> !is_ws(trim_start(s)[0]),
        trim_start(s) == s.subrange(s.len() - trim_start(s).len(), s.len() as int),
    decreases s.len(),
{
    if s.len() > 0 && is_ws(s[0]) {
        lemma_trim_start_first(s.drop_first());
        assert(s.drop_first().subrange(
            s.drop_first().len() - trim_start(s).len(),
            s.drop_first().len() as int,
        ) =~= s.subrange(s.len() - trim_start(s).len(), s.len() as int));
    } else {
        assert(s.subrange(0, s.len() as int) =~= s);
    }
}

proof fn lemma_trim_end_last(s: Seq<char>)
    ensures
        trim_end(s).len() <= s.len(),
        trim_end(s).len() > 0 ==> !is_ws(trim_end(s).last()),
        trim_end(s) == s.subrange(0, trim_end(s).len() as int),
    decreases s.len(),
{
    if s.len() > 0 && is_ws(s.last()) {
        lemma_trim_end_last(s.drop_last());
        assert(s.drop_last().subrange(0, trim_end(s).len() as int) =~= s.subrange(
            0,
            trim_end(s).len() as int,
        ));
    } else {
        assert(s.subrange(0, s.len() as int) =~= s);
    }
}

/// Trimming twice removes nothing more than trimming once.
pub proof fn lemma_trim_idempotent(s: Seq<char>)
    ensures
        trim(trim(s)) == trim(s),
{
    let a = trim_start(s);
    let x = trim_end(a);
    lemma_trim_start_first(s);
    lemma_trim_end_last(a);
    if x.len() > 0 {
        assert(x[0] == a[0]);
    }
    assert(trim_start(x) == x);
    assert(trim_end(x) == x);
}

} // verus!
