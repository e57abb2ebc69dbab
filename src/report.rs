//! The lines of the report sections that rest on the system utilities.
//! Each such section degrades to an explicit placeholder of its own when its
//! utility could not be run, and never stops the rest of the report.
use vstd::prelude::*;
use crate::probe::{
    chars_of, failed_entries, failed_logins, first, is_blank, lines, listening_count,
    listening_ports, logged_in_sessions, string_views, FailedLogins, MAX_SESSIONS_SHOWN,
};
use crate::text::{decimal, push_char, push_decimal};

verus! {

broadcast use vstd::string::group_string_axioms;

/// Appends the characters of `t` to `s`.
pub fn push_str(s: &mut String, t: &str)
    ensures
        final(s)@ == old(s)@ + t@,
{
    let chars = chars_of(t);
    let mut k: usize = 0;
    while k < chars.len()
        invariant
            k <= chars.len(),
            chars@ == t@,
            s@ == old(s)@ + chars@.subrange(0, k as int),
        decreases chars.len() - k,
    {
        assert(chars@.subrange(0, k + 1) =~= chars@.subrange(0, k as int).push(chars@[k as int]));
        push_char(s, chars[k]);
        k = k + 1;
    }
    assert(chars@.subrange(0, k as int) =~= t@);
}

/// A string of `t`.
pub fn string_from(t: &str) -> (r: String)
    ensures
        r@ == t@,
{
    let mut s = String::new();
    push_str(&mut s, t);
    assert(Seq::<char>::empty() + t@ =~= t@);
    s
}

/// The indentation of a listed line.
pub open spec fn indent() -> Seq<char> {
    seq![' ', ' ']
}

/// A listed line: the text behind the indentation.
pub fn indented(line: &String) -> (r: String)
    ensures
        r@ == indent() + line@,
{
    let mut s = String::new();
    push_char(&mut s, ' ');
    push_char(&mut s, ' ');
    push_str(&mut s, line.as_str());
    assert(s@ =~= indent() + line@);
    s
}

/// Each line listed behind the indentation.
pub open spec fn listed(ls: Seq<Seq<char>>) -> Seq<Seq<char>> {
    ls.map_values(|l: Seq<char>| indent() + l)
}

fn list_lines(ls: &Vec<String>, out: &mut Vec<String>)
    ensures
        string_views(final(out)@) == string_views(old(out)@) + listed(string_views(ls@)),
{
    let mut k: usize = 0;
    while k < ls.len()
        invariant
            k <= ls.len(),
            string_views(out@) == string_views(old(out)@) + listed(string_views(ls@)).subrange(
                0,
                k as int,
            ),
        decreases ls.len() - k,
    {
        let l = indented(&ls[k]);
        proof {
            assert(string_views(out@.push(l)) =~= string_views(out@).push(l@));
            assert(listed(string_views(ls@)).subrange(0, k + 1) =~= listed(
                string_views(ls@),
            ).subrange(0, k as int).push(l@));
        }
        out.push(l);
        k = k + 1;
    }
    assert(listed(string_views(ls@)).subrange(0, k as int) =~= listed(string_views(ls@)));
}

/// The sessions section: the first session lines, listed, then the count of
/// all sessions; or the placeholder where the session listing could not be run.
pub fn session_lines(out: &Option<String>) -> (r: Vec<String>)
    ensures
        out is None ==> string_views(r@) == seq!["  Unable to retrieve user information"@],
        out is Some ==> string_views(r@) == listed(first(lines(out->0@), MAX_SESSIONS_SHOWN as int))
            + seq!["Total logged in users: "@ + decimal(lines(out->0@).len())],
{
    let mut r: Vec<String> = Vec::new();
    match logged_in_sessions(out) {
        None => {
            let l = string_from("  Unable to retrieve user information");
            r.push(l);
            assert(string_views(r@) =~= seq![l@]);
        },
        Some(list) => {
            assert(string_views(r@) =~= Seq::<Seq<char>>::empty());
            list_lines(&list.shown, &mut r);
            let mut total = string_from("Total logged in users: ");
            push_decimal(&mut total, list.total as u128);
            let ghost before = r@;
            r.push(total);
            assert(string_views(r@) =~= string_views(before).push(total@));
        },
    }
    r
}

/// The failed-login section: the entries, listed; a note that there were
/// none; or the placeholder where the history could not be read.
pub fn failed_login_lines(out: &Option<String>) -> (r: Vec<String>)
    ensures
        out is None ==> string_views(r@) == seq![
            "  Unable to retrieve failed login information (may require elevated privileges)"@,
        ],
        out is Some && is_blank(out->0@) ==> string_views(r@) == seq![
            "  No failed login attempts found"@,
        ],
        out is Some && !is_blank(out->0@) ==> string_views(r@) == listed(
            failed_entries(out->0@),
        ),
{
    let mut r: Vec<String> = Vec::new();
    match failed_logins(out) {
        FailedLogins::Unavailable => {
            let l = string_from(
                "  Unable to retrieve failed login information (may require elevated privileges)",
            );
            r.push(l);
            assert(string_views(r@) =~= seq![l@]);
        },
        FailedLogins::NoneFound => {
            let l = string_from("  No failed login attempts found");
            r.push(l);
            assert(string_views(r@) =~= seq![l@]);
        },
        FailedLogins::Entries(entries) => {
            assert(string_views(r@) =~= Seq::<Seq<char>>::empty());
            list_lines(&entries, &mut r);
        },
    }
    r
}

/// The listening-socket line: `None` where the socket listing could not be
/// run, so that the report leaves the line out.
pub fn listening_line(out: &Option<String>) -> (r: Option<String>)
    ensures
        out is None ==> r is None,
        out is Some ==> r is Some && r->0@ == "Listening ports: "@ + decimal(
            listening_count(out->0@),
        ),
{
    match listening_ports(out) {
        None => None,
        Some(n) => {
            let mut l = string_from("Listening ports: ");
            push_decimal(&mut l, n as u128);
            Some(l)
        },
    }
}

/// The date and time, in UTC, of a number of seconds since the Unix epoch,
/// as `YYYY-MM-DD HH:MM:SS`.
pub uninterp spec fn utc_time_text(secs: int) -> Seq<char>;

/// Relies on chrono's `DateTime::from_timestamp` and `DateTime::format`: the
/// UTC date and time of `secs` seconds since the epoch (the epoch itself,
/// chrono's default, where `secs` lies out of its range), as
/// `%Y-%m-%d %H:%M:%S`. The text depends on `secs` alone.
#[verifier::external_body]
fn utc_time(secs: i64) -> (r: String)
    ensures
        r@ == utc_time_text(secs as int),
{
    chrono::DateTime::from_timestamp(secs, 0).unwrap_or_default().format(
        "%Y-%m-%d %H:%M:%S",
    ).to_string()
}

/// The boot-time line; a boot time past the range of `i64` is read as
/// `i64::MAX`.
pub fn boot_time_line(boot: u64) -> (r: String)
    ensures
        r@ == "Boot time: "@ + utc_time_text(if boot <= i64::MAX { boot as int } else { i64::MAX as int }),
{
    let secs: i64 = if boot <= 9223372036854775807u64 { boot as i64 } else { 9223372036854775807i64 };
    let mut l = string_from("Boot time: ");
    let t = utc_time(secs);
    push_str(&mut l, t.as_str());
    l
}

} // verus!
