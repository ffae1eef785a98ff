//! Text helpers: trimming, prefix stripping and the grammar of lists of names.

use vstd::prelude::*;
use vstd::string::*;

verus! {

/// Whether a character counts as white space, as `char::is_whitespace`
/// decides it.
pub uninterp spec fn is_whitespace(c: char) -> bool;

/// `char::is_whitespace`. Trusted: the result is what [`is_whitespace`] names,
/// that is, the same character always gets the same answer.
#[verifier::external_body]
fn char_is_whitespace(c: char) -> (r: bool)
    ensures
        r == is_whitespace(c),
{
    c.is_whitespace()
}

/// `s` without its leading white space.
pub open spec fn trim_start_of(s: Seq<char>) -> Seq<char>
    decreases s.len(),
{
    if s.len() > 0 && is_whitespace(s.first()) {
        trim_start_of(s.drop_first())
    } else {
        s
    }
}

/// `s` without its trailing white space.
pub open spec fn trim_end_of(s: Seq<char>) -> Seq<char>
    decreases s.len(),
{
    if s.len() > 0 && is_whitespace(s.last()) {
        trim_end_of(s.drop_last())
    } else {
        s
    }
}

/// `s` without its leading and trailing white space.
pub open spec fn trimmed(s: Seq<char>) -> Seq<char> {
    trim_end_of(trim_start_of(s))
}

/// The names joined by `", "`.
pub open spec fn comma_joined(names: Seq<Seq<char>>) -> Seq<char>
    decreases names.len(),
{
    if names.len() == 0 {
        Seq::empty()
    } else if names.len() == 1 {
        names.last()
    } else {
        comma_joined(names.drop_last()) + ", "@ + names.last()
    }
}

/// The names as an English list: nothing for no name, `A` for one,
/// `A and B` for two, and `A, B, and C` for three or more, where every name
/// but the last is followed by a comma.
pub open spec fn list_of(names: Seq<Seq<char>>) -> Seq<char> {
    if names.len() == 0 {
        Seq::empty()
    } else if names.len() == 1 {
        names[0]
    } else if names.len() == 2 {
        names[0] + " and "@ + names[1]
    } else {
        comma_joined(names.drop_last()) + ", and "@ + names.last()
    }
}

/// A copy of `s` without its leading and trailing white space.
pub fn trim(s: &str) -> (r: String)
    ensures
        r@ == trimmed(s@),
{
    let n: usize = s.unicode_len();
    let mut start: usize = 0;
    let mut scanning: bool = true;
    assert(s@.skip(0) =~= s@);
    while scanning && start < n
        invariant
            n == s@.len(),
            start <= n,
            trim_start_of(s@) == trim_start_of(s@.skip(start as int)),
            !scanning ==> start < n && !is_whitespace(s@[start as int]),
        decreases n - start + if scanning { 1nat } else { 0nat },
    {
        if char_is_whitespace(s.get_char(start)) {
            assert(s@.skip(start as int).drop_first() =~= s@.skip(start + 1));
            start = start + 1;
        } else {
            scanning = false;
        }
    }
    let ghost body: Seq<char> = s@.skip(start as int);
    assert(trim_start_of(s@) == body);
    let mut end: usize = n;
    scanning = true;
    assert(s@.subrange(start as int, n as int) =~= body);
    while scanning && start < end
        invariant
            n == s@.len(),
            start <= end <= n,
            trim_end_of(body) == trim_end_of(s@.subrange(start as int, end as int)),
            !scanning ==> start < end && !is_whitespace(s@[end - 1]),
        decreases end - start + if scanning { 1nat } else { 0nat },
    {
        if char_is_whitespace(s.get_char(end - 1)) {
            assert(s@.subrange(start as int, end as int).drop_last() =~= s@.subrange(
                start as int,
                end - 1,
            ));
            end = end - 1;
        } else {
            scanning = false;
        }
    }
    String::from_str(s.substring_char(start, end))
}

/// The rest of `s` after `prefix`, where `s` begins with it.
pub fn strip_prefix(s: &str, prefix: &str) -> (r: Option<String>)
    ensures
        match r {
            Some(rest) => prefix@.is_prefix_of(s@) && rest@ == s@.skip(prefix@.len() as int),
            None => !prefix@.is_prefix_of(s@),
        },
{
    let n: usize = s.unicode_len();
    let m: usize = prefix.unicode_len();
    if m > n {
        return None;
    }
    let mut i: usize = 0;
    while i < m
        invariant
            n == s@.len(),
            m == prefix@.len(),
            i <= m <= n,
            forall|j: int| 0 <= j < i ==> s@[j] == prefix@[j],
        decreases m - i,
    {
        if s.get_char(i) != prefix.get_char(i) {
            assert(s@.subrange(0, m as int)[i as int] != prefix@[i as int]);
            return None;
        }
        i = i + 1;
    }
    assert(prefix@ =~= s@.subrange(0, m as int));
    assert(s@.subrange(m as int, n as int) =~= s@.skip(m as int));
    Some(String::from_str(s.substring_char(m, n)))
}

/// The names as an English list: see [`list_of`].
pub fn join_names(names: &Vec<String>) -> (r: String)
    ensures
        r@ == list_of(names.deep_view()),
{
    let n: usize = names.len();
    let ghost all: Seq<Seq<char>> = names.deep_view();
    if n == 0 {
        return String::new();
    }
    let mut out: String = names[0].clone();
    if n == 1 {
        return out;
    }
    if n == 2 {
        out.append(" and ");
        out.append(names[1].as_str());
        return out;
    }
    let mut i: usize = 1;
    assert(all.drop_last().take(1).drop_last().len() == 0);
    while i < n - 1
        invariant
            n == names.len(),
            n >= 3,
            all == names.deep_view(),
            1 <= i <= n - 1,
            out@ == comma_joined(all.drop_last().take(i as int)),
        decreases n - i,
    {
        out.append(", ");
        out.append(names[i].as_str());
        assert(all.drop_last().take(i + 1).drop_last() =~= all.drop_last().take(i as int));
        i = i + 1;
    }
    assert(all.drop_last().take(n - 1) =~= all.drop_last());
    out.append(", and ");
    out.append(names[n - 1].as_str());
    out
}

} // verus!
