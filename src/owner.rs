//! The owner of a process: the numeric user id in its status file, and the
//! account name that the identity directory gives for it.
use vstd::prelude::*;
use crate::probe::{
    begins_with, chars_of, is_space, lines, space, starts_with, string_of, string_views, text_lines,
};
use crate::text::push_char;

verus! {

/// The name that stands for an owner that could not be resolved.
pub open spec fn unknown_name() -> Seq<char> {
    seq!['u', 'n', 'k', 'n', 'o', 'w', 'n']
}

/// The whitespace-separated fields of `s` from position `i` on; `cur` is
/// where the field in progress began, or negative between fields.
pub open spec fn fields_after(s: Seq<char>, cur: int, i: int) -> Seq<Seq<char>>
    decreases s.len() - i,
{
    if i >= s.len() {
        if cur >= 0 {
            seq![s.subrange(cur, s.len() as int)]
        } else {
            seq![]
        }
    } else if is_space(s[i]) {
        if cur >= 0 {
            seq![s.subrange(cur, i)] + fields_after(s, -1, i + 1)
        } else {
            fields_after(s, -1, i + 1)
        }
    } else {
        fields_after(s, if cur >= 0 { cur } else { i }, i + 1)
    }
}

/// The whitespace-separated fields of a line, as `str::split_whitespace`
/// gives them.
pub open spec fn fields(s: Seq<char>) -> Seq<Seq<char>> {
    fields_after(s, -1, 0)
}

/// The value of a string of decimal digits.
pub open spec fn digits_value(d: Seq<char>) -> nat
    decreases d.len(),
{
    if d.len() == 0 {
        0
    } else {
        digits_value(d.drop_last()) * 10 + (d.last() as nat - 48) as nat
    }
}

/// Every character of `d` is an ASCII digit.
pub open spec fn all_digits(d: Seq<char>) -> bool {
    forall|k: int| 0 <= k < d.len() ==> '0' <= #[trigger] d[k] && d[k] <= '9'
}

/// The digits of an unsigned number, without an optional leading `+`.
pub open spec fn unsigned_digits(t: Seq<char>) -> Seq<char> {
    if t.len() > 0 && t[0] == '+' {
        t.drop_first()
    } else {
        t
    }
}

/// A `u32` in decimal, as `str::parse::<u32>` reads it: an optional `+`,
/// then at least one digit, with a value that fits.
pub open spec fn parsed_u32(t: Seq<char>) -> Option<u32> {
    let d = unsigned_digits(t);
    if d.len() > 0 && all_digits(d) && digits_value(d) <= u32::MAX {
        Some(digits_value(d) as u32)
    } else {
        None
    }
}

/// The prefix of the line that holds the owner ids in a status file.
pub open spec fn uid_prefix() -> Seq<char> {
    seq!['U', 'i', 'd', ':']
}

/// The first of the lines from `k` on that begins with `Uid:`.
pub open spec fn uid_line_from(ls: Seq<Seq<char>>, k: int) -> Option<Seq<char>>
    decreases ls.len() - k,
{
    if k < 0 || k >= ls.len() {
        None
    } else if starts_with(ls[k], uid_prefix()) {
        Some(ls[k])
    } else {
        uid_line_from(ls, k + 1)
    }
}

/// The owner id of a process status file: the second field of its first
/// `Uid:` line (the real user id), read as a `u32`.
pub open spec fn status_uid(status: Seq<char>) -> Option<u32> {
    match uid_line_from(lines(status), 0) {
        None => None,
        Some(l) => if fields(l).len() >= 2 {
            parsed_u32(fields(l)[1])
        } else {
            None
        },
    }
}

/// The whitespace-separated fields of a line.
pub fn split_fields(line: &str) -> (r: Vec<String>)
    ensures
        string_views(r@) == fields(line@),
{
    let chars = chars_of(line);
    let ghost s = line@;
    let mut r: Vec<String> = Vec::new();
    let mut in_field = false;
    let mut cur: usize = 0;
    let mut i: usize = 0;
    while i < chars.len()
        invariant
            chars@ == s,
            i <= chars.len(),
            in_field ==> cur <= i,
            fields(s) == string_views(r@) + fields_after(
                s,
                if in_field { cur as int } else { -1 },
                i as int,
            ),
        decreases chars.len() - i,
    {
        if space(chars[i]) {
            if in_field {
                let f = string_of(&chars, cur, i);
                proof {
                    assert(string_views(r@.push(f)) =~= string_views(r@).push(f@));
                    assert(string_views(r@) + fields_after(s, cur as int, i as int) =~= string_views(
                        r@,
                    ).push(f@) + fields_after(s, -1, i + 1));
                }
                r.push(f);
                in_field = false;
            }
        } else if !in_field {
            in_field = true;
            cur = i;
        }
        i = i + 1;
    }
    if in_field {
        let f = string_of(&chars, cur, chars.len());
        proof {
            assert(string_views(r@.push(f)) =~= string_views(r@).push(f@));
            assert(string_views(r@) + fields_after(s, cur as int, i as int) =~= string_views(
                r@,
            ).push(f@));
        }
        r.push(f);
    } else {
        assert(string_views(r@) + fields_after(s, -1, i as int) =~= string_views(r@));
    }
    r
}

/// Reads a `u32` in decimal, as `str::parse::<u32>` does.
pub fn parse_u32(text: &str) -> (r: Option<u32>)
    ensures
        r == parsed_u32(text@),
{
    let t = chars_of(text);
    let start: usize = if t.len() > 0 && t[0] == '+' { 1 } else { 0 };
    let ghost d = unsigned_digits(t@);
    assert(d =~= t@.subrange(start as int, t.len() as int));
    if start == t.len() {
        return None;
    }
    let mut value: u64 = 0;
    let mut over = false;
    let mut k: usize = start;
    while k < t.len()
        invariant
            start <= k <= t.len(),
            t@ == text@,
            d == unsigned_digits(text@),
            d == t@.subrange(start as int, t.len() as int),
            all_digits(t@.subrange(start as int, k as int)),
            !over ==> value == digits_value(t@.subrange(start as int, k as int)) && value
                <= u32::MAX,
            over ==> digits_value(t@.subrange(start as int, k as int)) > u32::MAX,
        decreases t.len() - k,
    {
        let c = t[k];
        if c < '0' || c > '9' {
            assert(d[k - start] == c);
            assert(!all_digits(d));
            return None;
        }
        let ghost pre = t@.subrange(start as int, k as int);
        let ghost next = t@.subrange(start as int, k + 1);
        assert(next.drop_last() =~= pre);
        assert(next.last() == c);
        assert(all_digits(next));
        if !over {
            let dig = (c as u32 - 48) as u64;
            value = value * 10 + dig;
            if value > 4294967295u64 {
                over = true;
            }
        }
        k = k + 1;
    }
    assert(t@.subrange(start as int, k as int) =~= d);
    if over {
        None
    } else {
        Some(value as u32)
    }
}

/// The owner id in the text of a process status file, if it has one.
pub fn owner_uid(status: &str) -> (r: Option<u32>)
    ensures
        r == status_uid(status@),
{
    let ls = text_lines(status);
    let prefix: Vec<char> = vec!['U', 'i', 'd', ':'];
    assert(prefix@ =~= uid_prefix());
    let mut k: usize = 0;
    while k < ls.len()
        invariant
            k <= ls.len(),
            string_views(ls@) == lines(status@),
            prefix@ == uid_prefix(),
            uid_line_from(lines(status@), 0) == uid_line_from(lines(status@), k as int),
        decreases ls.len() - k,
    {
        let line = chars_of(ls[k].as_str());
        assert(line@ == lines(status@)[k as int]);
        if begins_with(&line, &prefix) {
            let fs = split_fields(ls[k].as_str());
            if fs.len() >= 2 {
                return parse_u32(fs[1].as_str());
            } else {
                return None;
            }
        }
        k = k + 1;
    }
    None
}

/// Relies on `users::get_user_by_uid` and `User::name`: the account name of
/// a user id in the system's identity directory, if it holds one. What it
/// returns depends on that directory, so nothing is stated of it.
#[verifier::external_body]
fn account_name(uid: u32) -> (r: Option<String>) {
    users::get_user_by_uid(uid).map(|u| u.name().to_string_lossy().into_owned())
}

/// The name that the report shows for an owner: the account name where the
/// lookup found one, else `unknown`.
pub fn name_or_unknown(found: Option<String>) -> (r: String)
    ensures
        found is Some ==> r@ == found->0@,
        found is None ==> r@ == unknown_name(),
{
    match found {
        Some(name) => name,
        None => {
            let mut s = String::new();
            push_char(&mut s, 'u');
            push_char(&mut s, 'n');
            push_char(&mut s, 'k');
            push_char(&mut s, 'n');
            push_char(&mut s, 'o');
            push_char(&mut s, 'w');
            push_char(&mut s, 'n');
            assert(s@ =~= unknown_name());
            s
        },
    }
}

/// The owner of a process, from the text of its status file (`None` where
/// the file could not be read). Every failure on the way, an unreadable
/// file, a missing or malformed `Uid:` line, an id that the identity
/// directory does not know, gives `unknown`; none is an error.
pub fn resolve_owner(status: &Option<String>) -> (r: String)
    ensures
        status is None ==> r@ == unknown_name(),
        status is Some && status_uid(status->0@) is None ==> r@ == unknown_name(),
{
    match status {
        None => name_or_unknown(None),
        Some(text) => match owner_uid(text.as_str()) {
            None => name_or_unknown(None),
            Some(uid) => name_or_unknown(account_name(uid)),
        },
    }
}

} // verus!
