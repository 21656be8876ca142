//! The apex domain of a hostname: its last two dot-separated labels.

use vstd::prelude::*;

verus! {

/// The position of the last `.` in `s` before `end`, or -1 where there is none.
pub open spec fn last_dot_before(s: Seq<char>, end: int) -> int
    decreases end,
{
    if end <= 0 {
        -1
    } else if s[end - 1] == '.' {
        end - 1
    } else {
        last_dot_before(s, end - 1)
    }
}

/// The apex domain of a hostname: the text after the second-to-last `.`, or
/// the whole hostname where it has exactly one; `None` where it has no `.`,
/// that is fewer than two labels.
pub open spec fn apex_of(host: Seq<char>) -> Option<Seq<char>> {
    let last = last_dot_before(host, host.len() as int);
    if last < 0 {
        None
    } else {
        Some(host.subrange(last_dot_before(host, last) + 1, host.len() as int))
    }
}

proof fn lemma_last_dot_bounds(s: Seq<char>, end: int)
    requires
        end <= s.len(),
    ensures
        -1 <= last_dot_before(s, end) < end || (end <= 0 && last_dot_before(s, end) == -1),
        last_dot_before(s, end) >= 0 ==> s[last_dot_before(s, end)] == '.',
    decreases end,
{
    if end > 0 && s[end - 1] != '.' {
        lemma_last_dot_bounds(s, end - 1);
    }
}

/// The position of the last `.` in `host` before `end`, searched from `end` down.
fn find_last_dot(host: &str, end: usize) -> (r: Option<usize>)
    requires
        end <= host@.len(),
    ensures
        match r {
            Some(p) => p as int == last_dot_before(host@, end as int),
            None => last_dot_before(host@, end as int) == -1,
        },
{
    let mut e: usize = end;
    while e > 0
        invariant
            e <= end <= host@.len(),
            last_dot_before(host@, e as int) == last_dot_before(host@, end as int),
        decreases e,
    {
        if host.get_char(e - 1) == '.' {
            return Some(e - 1);
        }
        e = e - 1;
    }
    None
}

/// The apex domain of `hostname`, or `None` where it has fewer than two
/// dot-separated labels and cannot take part in resolution.
pub fn apex_domain(hostname: &str) -> (r: Option<String>)
    ensures
        match r {
            Some(a) => apex_of(hostname@) == Some(a@),
            None => apex_of(hostname@) is None,
        },
{
    let len = hostname.unicode_len();
    match find_last_dot(hostname, len) {
        None => None,
        Some(last) => {
            proof {
                lemma_last_dot_bounds(hostname@, len as int);
            }
            let start = match find_last_dot(hostname, last) {
                Some(p) => {
                    proof {
                        lemma_last_dot_bounds(hostname@, last as int);
                    }
                    p + 1
                },
                None => 0,
            };
            Some(String::from_str(hostname.substring_char(start, len)))
        },
    }
}

} // verus!
