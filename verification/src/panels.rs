use vstd::prelude::*;

use crate::text::{chars_of, same_text};

verus! {

/// The lowercase form of `s`, as `str::to_lowercase` gives it.
pub uninterp spec fn lowercase_text(s: Seq<char>) -> Seq<char>;

/// Calls `str::to_lowercase`. The contract names the result: the Unicode
/// lowercase mapping of the whole text, which depends on the text alone.
#[verifier::external_body]
fn to_lowercase(s: &str) -> (r: String)
    ensures
        r@ == lowercase_text(s@),
{
    s.to_lowercase()
}

/// `needle` occurs in `hay` as a contiguous part.
pub open spec fn occurs_in(needle: Seq<char>, hay: Seq<char>) -> bool {
    exists|i: int| 0 <= i && i + needle.len() <= hay.len() && #[trigger] hay.subrange(i, i + needle.len()) == needle
}

/// The title a history or bookmark row shows: the page title, or the
/// address when the title is empty.
pub open spec fn row_title(url: Seq<char>, title: Seq<char>) -> Seq<char> {
    if title.len() == 0 {
        url
    } else {
        title
    }
}

/// The title a history or bookmark row shows.
pub fn display_title(url: &str, title: &str) -> (t: String)
    ensures
        t@ == row_title(url@, title@),
        title@.len() == 0 ==> t@ == url@,
        title@.len() > 0 ==> t@ == title@,
{
    if title.is_empty() {
        String::from_str(url)
    } else {
        String::from_str(title)
    }
}

/// The text a history row is searched by: its title and address,
/// lowercased, separated by a space.
pub open spec fn history_search_key(title: Seq<char>, url: Seq<char>) -> Seq<char> {
    lowercase_text(title) + seq![' '] + lowercase_text(url)
}

/// The text a history row is searched by.
pub fn history_row_key(title: &str, url: &str) -> (key: String)
    ensures
        key@ == history_search_key(title@, url@),
{
    let mut key = to_lowercase(title);
    key.push(' ');
    let u = to_lowercase(url);
    key.append(u.as_str());
    key
}

/// Whether a row whose lowercased search text is `key` passes the
/// lowercased filter `query`: every row passes an empty filter, otherwise
/// the filter must occur in the key.
pub fn matches_lowered(query: &str, key: &str) -> (r: bool)
    ensures
        r == (query@.len() == 0 || occurs_in(query@, key@)),
{
    let q = chars_of(query);
    let k = chars_of(key);
    if q.len() == 0 {
        return true;
    }
    if q.len() > k.len() {
        assert forall|i: int| 0 <= i && i + q@.len() <= k@.len() implies #[trigger] k@.subrange(
            i,
            i + q@.len(),
        ) != q@ by {}
        return false;
    }
    let nq = q.len();
    let nk = k.len();
    let last = nk - nq;
    let mut i: usize = 0;
    while i <= last
        invariant
            q@ == query@,
            k@ == key@,
            nq == q@.len(),
            nk == k@.len(),
            last == nk - nq,
            0 < nq <= nk,
            i <= last + 1,
            forall|j: int| 0 <= j < i ==> #[trigger] k@.subrange(j, j + q@.len()) != q@,
        decreases k@.len() - i,
    {
        let mut m: usize = 0;
        while m < nq && k[i + m] == q[m]
            invariant
                q@ == query@,
                k@ == key@,
                nq == q@.len(),
                nk == k@.len(),
                i + nq <= nk,
                m <= q@.len(),
                forall|t: int| 0 <= t < m ==> k@[i + t] == q@[t],
            decreases q@.len() - m,
        {
            m += 1;
        }
        if m == nq {
            assert(k@.subrange(i as int, i + q@.len()) =~= q@);
            return true;
        }
        assert(k@.subrange(i as int, i + q@.len())[m as int] != q@[m as int]);
        i += 1;
    }
    assert forall|j: int| 0 <= j && j + q@.len() <= k@.len() implies #[trigger] k@.subrange(
        j,
        j + q@.len(),
    ) != q@ by {}
    false
}

/// Whether a history row with search text `row_key` passes the filter typed
/// as `query`: both are lowercased, as `str::to_lowercase` does, before the
/// filter is looked for.
pub fn history_row_matches(query: &str, row_key: &str) -> (r: bool)
    ensures
        r == (lowercase_text(query@).len() == 0 || occurs_in(
            lowercase_text(query@),
            lowercase_text(row_key@),
        )),
{
    let q = to_lowercase(query);
    let k = to_lowercase(row_key);
    matches_lowered(q.as_str(), k.as_str())
}

} // verus!
