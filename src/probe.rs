//! Defensive parsing of the text that the system utilities print: line
//! splitting, the listening-socket count, the session list, the failed-login
//! history, and the owner id in a process status file.
use vstd::prelude::*;
use vstd::std_specs::iter::IteratorSpec;
use crate::text::push_char;

verus! {

broadcast use vstd::string::group_string_axioms;

/// The characters of a string, in order.
pub fn chars_of(text: &str) -> (r: Vec<char>)
    ensures
        r@ == text@,
{
    let mut it = text.chars();
    let mut r: Vec<char> = Vec::new();
    loop
        invariant
            r@ + it.remaining() == text@,
            it.decrease() is Some,
        ensures
            r@ == text@,
        decreases it.decrease()->0,
    {
        match it.next() {
            Some(c) => {
                r.push(c);
            },
            None => {
                assert(r@ =~= text@);
                break ;
            },
        }
    }
    r
}

/// The views of a list of strings.
pub open spec fn string_views(v: Seq<String>) -> Seq<Seq<char>> {
    v.map_values(|x: String| x@)
}

/// A line without the carriage return of a `\r\n` ending.
pub open spec fn strip_cr(l: Seq<char>) -> Seq<char> {
    if l.len() > 0 && l.last() == '\r' {
        l.drop_last()
    } else {
        l
    }
}

/// The lines of `s` from position `i` on, where the current line began at
/// `from`: a line ends at `\n` (or `\r\n`), and a last line without an
/// ending counts only when it is not empty.
pub open spec fn lines_after(s: Seq<char>, from: int, i: int) -> Seq<Seq<char>>
    decreases s.len() - i,
{
    if i >= s.len() {
        if from < s.len() {
            seq![s.subrange(from, s.len() as int)]
        } else {
            seq![]
        }
    } else if s[i] == '\n' {
        seq![strip_cr(s.subrange(from, i))] + lines_after(s, i + 1, i + 1)
    } else {
        lines_after(s, from, i + 1)
    }
}

/// The lines of a text.
pub open spec fn lines(s: Seq<char>) -> Seq<Seq<char>> {
    lines_after(s, 0, 0)
}

/// A string of the characters `chars[from..to]`.
pub fn string_of(chars: &Vec<char>, from: usize, to: usize) -> (r: String)
    requires
        from <= to <= chars.len(),
    ensures
        r@ == chars@.subrange(from as int, to as int),
{
    let mut r = String::new();
    let mut k: usize = from;
    while k < to
        invariant
            from <= k <= to <= chars.len(),
            r@ == chars@.subrange(from as int, k as int),
        decreases to - k,
    {
        push_char(&mut r, chars[k]);
        assert(chars@.subrange(from as int, k + 1) =~= chars@.subrange(from as int, k as int).push(
            chars@[k as int],
        ));
        k = k + 1;
    }
    r
}

/// The lines of a text, as `str::lines` splits them.
pub fn text_lines(text: &str) -> (r: Vec<String>)
    ensures
        string_views(r@) == lines(text@),
{
    let chars = chars_of(text);
    let ghost s = text@;
    let mut r: Vec<String> = Vec::new();
    let mut from: usize = 0;
    let mut i: usize = 0;
    while i < chars.len()
        invariant
            chars@ == s,
            from <= i <= chars.len(),
            lines(s) == string_views(r@) + lines_after(s, from as int, i as int),
        decreases chars.len() - i,
    {
        if chars[i] == '\n' {
            let end: usize = if i > from && chars[i - 1] == '\r' { i - 1 } else { i };
            let line = string_of(&chars, from, end);
            proof {
                assert(line@ == strip_cr(s.subrange(from as int, i as int)));
                assert(string_views(r@.push(line)) =~= string_views(r@).push(line@));
                assert(string_views(r@) + lines_after(s, from as int, i as int) =~= string_views(
                    r@,
                ).push(line@) + lines_after(s, i + 1, i + 1));
            }
            r.push(line);
            from = i + 1;
        }
        i = i + 1;
    }
    if from < chars.len() {
        let line = string_of(&chars, from, chars.len());
        proof {
            assert(string_views(r@.push(line)) =~= string_views(r@).push(line@));
            assert(string_views(r@) + lines_after(s, from as int, i as int) =~= string_views(
                r@,
            ).push(line@));
        }
        r.push(line);
    } else {
        assert(string_views(r@) + lines_after(s, from as int, i as int) =~= string_views(r@));
    }
    r
}

/// The marker of a listening socket in the socket listing.
pub open spec fn listen_marker() -> Seq<char> {
    seq!['L', 'I', 'S', 'T', 'E', 'N']
}

/// `pat` occurs in `l` at position `at`.
pub open spec fn occurs_at(l: Seq<char>, pat: Seq<char>, at: int) -> bool {
    0 <= at && at + pat.len() <= l.len() && l.subrange(at, at + pat.len()) == pat
}

/// `pat` occurs somewhere in `l`.
pub open spec fn contains(l: Seq<char>, pat: Seq<char>) -> bool {
    exists|at: int| occurs_at(l, pat, at)
}

/// How many of the first `m` lines contain `pat`.
pub open spec fn count_containing(ls: Seq<Seq<char>>, pat: Seq<char>, m: int) -> nat
    decreases m,
{
    if m <= 0 {
        0
    } else {
        count_containing(ls, pat, m - 1) + if contains(ls[m - 1], pat) {
            1nat
        } else {
            0nat
        }
    }
}

/// The number of listening sockets in the output of a socket listing: the
/// lines that contain `LISTEN`.
pub open spec fn listening_count(out: Seq<char>) -> nat {
    count_containing(lines(out), listen_marker(), lines(out).len() as int)
}

fn matches_at(l: &Vec<char>, pat: &Vec<char>, at: usize) -> (r: bool)
    requires
        at + pat.len() <= l.len(),
    ensures
        r == (l@.subrange(at as int, at + pat.len()) == pat@),
{
    let mut k: usize = 0;
    while k < pat.len()
        invariant
            at + pat.len() <= l.len(),
            k <= pat.len(),
            forall|q: int| 0 <= q < k ==> l@[at + q] == pat@[q],
        decreases pat.len() - k,
    {
        if l[at + k] != pat[k] {
            assert(l@.subrange(at as int, at + pat.len())[k as int] != pat@[k as int]);
            return false;
        }
        k = k + 1;
    }
    assert(l@.subrange(at as int, at + pat.len()) =~= pat@);
    true
}

/// Whether `pat` occurs in `l`.
pub fn contains_chars(l: &Vec<char>, pat: &Vec<char>) -> (r: bool)
    ensures
        r == contains(l@, pat@),
{
    if pat.len() > l.len() {
        return false;
    }
    let last = l.len() - pat.len();
    let mut at: usize = 0;
    loop
        invariant
            pat.len() <= l.len(),
            last == l.len() - pat.len(),
            at <= last,
            forall|b: int| 0 <= b < at ==> !occurs_at(l@, pat@, b),
        ensures
            forall|b: int| 0 <= b <= last ==> !occurs_at(l@, pat@, b),
        decreases last - at,
    {
        if matches_at(l, pat, at) {
            assert(occurs_at(l@, pat@, at as int));
            return true;
        }
        if at == last {
            break ;
        }
        at = at + 1;
    }
    assert forall|b: int| !occurs_at(l@, pat@, b) by {
        if 0 <= b <= last {
        }
    }
    false
}

/// Counts the listening sockets in the output of a socket listing.
pub fn count_listening(out: &str) -> (r: usize)
    ensures
        r == listening_count(out@),
{
    let ls = text_lines(out);
    let marker: Vec<char> = vec!['L', 'I', 'S', 'T', 'E', 'N'];
    assert(marker@ =~= listen_marker());
    let mut n: usize = 0;
    let mut k: usize = 0;
    while k < ls.len()
        invariant
            k <= ls.len(),
            string_views(ls@) == lines(out@),
            marker@ == listen_marker(),
            n == count_containing(lines(out@), listen_marker(), k as int),
            n <= k,
        decreases ls.len() - k,
    {
        let line = chars_of(ls[k].as_str());
        assert(line@ == lines(out@)[k as int]);
        if contains_chars(&line, &marker) {
            n = n + 1;
        }
        k = k + 1;
    }
    n
}

/// The listening-socket count of a probe: `None` where the utility could
/// not be run, so that the report leaves the line out.
pub fn listening_ports(out: &Option<String>) -> (r: Option<usize>)
    ensures
        out is None ==> r is None,
        out is Some ==> r is Some && r->0 == listening_count(out->0@),
{
    match out {
        Some(text) => Some(count_listening(text.as_str())),
        None => None,
    }
}

/// The most session lines that the report shows.
pub const MAX_SESSIONS_SHOWN: usize = 10;

/// The logged-in sessions: the first lines of the session listing, and the
/// number of all of its lines.
pub struct SessionList {
    pub shown: Vec<String>,
    pub total: usize,
}

/// The first `min(n, v.len())` items of `v`.
pub open spec fn first(v: Seq<Seq<char>>, n: int) -> Seq<Seq<char>> {
    if n < v.len() {
        v.take(n)
    } else {
        v
    }
}

/// Reads the output of a session listing: at most ten lines verbatim, and
/// the count of all lines.
pub fn parse_sessions(out: &str) -> (r: SessionList)
    ensures
        string_views(r.shown@) == first(lines(out@), MAX_SESSIONS_SHOWN as int),
        r.total == lines(out@).len(),
{
    let mut ls = text_lines(out);
    let total = ls.len();
    if ls.len() > MAX_SESSIONS_SHOWN {
        ls.truncate(MAX_SESSIONS_SHOWN);
        assert(string_views(ls@) =~= first(lines(out@), MAX_SESSIONS_SHOWN as int));
    }
    SessionList { shown: ls, total }
}

/// The sessions of a probe: `None` where the utility could not be run.
pub fn logged_in_sessions(out: &Option<String>) -> (r: Option<SessionList>)
    ensures
        out is None ==> r is None,
        out is Some ==> r is Some && string_views(r->0.shown@) == first(
            lines(out->0@),
            MAX_SESSIONS_SHOWN as int,
        ) && r->0.total == lines(out->0@).len(),
{
    match out {
        Some(text) => Some(parse_sessions(text.as_str())),
        None => None,
    }
}

/// The characters with the Unicode `White_Space` property.
pub open spec fn is_space(c: char) -> bool {
    ('\u{9}' <= c && c <= '\u{d}') || c == ' ' || c == '\u{85}' || c == '\u{a0}' || c
        == '\u{1680}' || ('\u{2000}' <= c && c <= '\u{200a}') || c == '\u{2028}' || c
        == '\u{2029}' || c == '\u{202f}' || c == '\u{205f}' || c == '\u{3000}'
}

pub(crate) fn space(c: char) -> (r: bool)
    ensures
        r == is_space(c),
{
    ('\u{9}' <= c && c <= '\u{d}') || c == ' ' || c == '\u{85}' || c == '\u{a0}' || c
        == '\u{1680}' || ('\u{2000}' <= c && c <= '\u{200a}') || c == '\u{2028}' || c
        == '\u{2029}' || c == '\u{202f}' || c == '\u{205f}' || c == '\u{3000}'
}

/// Every character of `l` is white space (so an empty text is blank).
pub open spec fn is_blank(l: Seq<char>) -> bool {
    forall|k: int| 0 <= k < l.len() ==> is_space(#[trigger] l[k])
}

fn blank(l: &Vec<char>) -> (r: bool)
    ensures
        r == is_blank(l@),
{
    let mut k: usize = 0;
    while k < l.len()
        invariant
            k <= l.len(),
            forall|q: int| 0 <= q < k ==> is_space(#[trigger] l@[q]),
        decreases l.len() - k,
    {
        if !space(l[k]) {
            return false;
        }
        k = k + 1;
    }
    true
}

/// The header line that the login history prints before its entries.
pub open spec fn history_header() -> Seq<char> {
    seq!['b', 't', 'm', 'p', ' ', 'b', 'e', 'g', 'i', 'n', 's']
}

/// `l` begins with `pat`.
pub open spec fn starts_with(l: Seq<char>, pat: Seq<char>) -> bool {
    pat.len() <= l.len() && l.subrange(0, pat.len() as int) == pat
}

/// A line of the login history that the report shows: neither blank nor
/// the history's header.
pub open spec fn is_entry(l: Seq<char>) -> bool {
    !is_blank(l) && !starts_with(l, history_header())
}

/// The entries among the first `m` lines, in order.
pub open spec fn entries_in(ls: Seq<Seq<char>>, m: int) -> Seq<Seq<char>>
    decreases m,
{
    if m <= 0 {
        seq![]
    } else if is_entry(ls[m - 1]) {
        entries_in(ls, m - 1).push(ls[m - 1])
    } else {
        entries_in(ls, m - 1)
    }
}

/// The most lines of the login history that the report reads.
pub const MAX_FAILED_LOGINS: usize = 5;

/// What the report says of failed logins.
pub enum FailedLogins {
    /// The history could not be read.
    Unavailable,
    /// The history is empty.
    NoneFound,
    /// The entries among its first lines.
    Entries(Vec<String>),
}

/// The entries that the report shows of a failed-login history.
pub open spec fn failed_entries(out: Seq<char>) -> Seq<Seq<char>> {
    let ls = first(lines(out), MAX_FAILED_LOGINS as int);
    entries_in(ls, ls.len() as int)
}

pub(crate) fn begins_with(l: &Vec<char>, pat: &Vec<char>) -> (r: bool)
    ensures
        r == starts_with(l@, pat@),
{
    if pat.len() > l.len() {
        false
    } else {
        matches_at(l, pat, 0)
    }
}

/// Reads the output of a failed-login history: `NoneFound` when it is
/// blank, else the entries among its first five lines.
pub fn parse_failed_logins(out: &str) -> (r: FailedLogins)
    ensures
        is_blank(out@) ==> r is NoneFound,
        !is_blank(out@) ==> r is Entries && string_views(r->Entries_0@) == failed_entries(out@),
{
    let all = chars_of(out);
    if blank(&all) {
        return FailedLogins::NoneFound;
    }
    let mut ls = text_lines(out);
    if ls.len() > MAX_FAILED_LOGINS {
        ls.truncate(MAX_FAILED_LOGINS);
    }
    let ghost fl = first(lines(out@), MAX_FAILED_LOGINS as int);
    assert(string_views(ls@) =~= fl);
    let header: Vec<char> = vec!['b', 't', 'm', 'p', ' ', 'b', 'e', 'g', 'i', 'n', 's'];
    assert(header@ =~= history_header());
    let mut kept: Vec<String> = Vec::new();
    let mut k: usize = 0;
    while k < ls.len()
        invariant
            k <= ls.len(),
            string_views(ls@) == fl,
            header@ == history_header(),
            string_views(kept@) == entries_in(fl, k as int),
        decreases ls.len() - k,
    {
        let line = chars_of(ls[k].as_str());
        assert(line@ == fl[k as int]);
        if !blank(&line) && !begins_with(&line, &header) {
            let copy = ls[k].clone();
            assert(string_views(kept@.push(copy)) =~= string_views(kept@).push(copy@));
            kept.push(copy);
        }
        k = k + 1;
    }
    FailedLogins::Entries(kept)
}

/// The failed logins of a probe: `Unavailable` where the history could not
/// be read.
pub fn failed_logins(out: &Option<String>) -> (r: FailedLogins)
    ensures
        out is None ==> r is Unavailable,
        out is Some && is_blank(out->0@) ==> r is NoneFound,
        out is Some && !is_blank(out->0@) ==> r is Entries && string_views(r->Entries_0@)
            == failed_entries(out->0@),
{
    match out {
        Some(text) => parse_failed_logins(text.as_str()),
        None => FailedLogins::Unavailable,
    }
}

} // verus!
