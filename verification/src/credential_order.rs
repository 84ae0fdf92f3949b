use vstd::prelude::*;

use crate::credentials::views;
use crate::records::{CredentialMeta, CredentialView};
use crate::text::chars_of;

verus! {

/// `a` comes before `b` in the order of `String`'s `Ord`: character by
/// character on code points (UTF-8 keeps that order byte by byte), a proper
/// prefix first.
pub open spec fn text_less(a: Seq<char>, b: Seq<char>) -> bool
    decreases a.len(),
{
    if a.len() == 0 {
        b.len() > 0
    } else if b.len() == 0 {
        false
    } else if a[0] != b[0] {
        (a[0] as int) < (b[0] as int)
    } else {
        text_less(a.drop_first(), b.drop_first())
    }
}

/// Two entries are for the same login.
pub open spec fn same_login(x: CredentialView, y: CredentialView) -> bool {
    x.origin == y.origin && x.username == y.username
}

/// `x` is listed before `y`: by origin, then by user name.
pub open spec fn listed_before(x: CredentialView, y: CredentialView) -> bool {
    text_less(x.origin, y.origin) || (x.origin == y.origin && text_less(x.username, y.username))
}

/// `p` takes the positions of `r` to those of `s`: `r` is `s` rearranged,
/// ordered by `listed_before`, with entries for the same login in their
/// order in `s`.
pub open spec fn is_stable_arrangement(p: Seq<int>, r: Seq<CredentialView>, s: Seq<CredentialView>) -> bool {
    &&& p.len() == r.len() == s.len()
    &&& forall|k: int| 0 <= k < p.len() ==> 0 <= #[trigger] p[k] < s.len()
    &&& forall|a: int, b: int| 0 <= a < b < p.len() ==> #[trigger] p[a] != #[trigger] p[b]
    &&& forall|k: int| 0 <= k < r.len() ==> #[trigger] r[k] == s[p[k]]
    &&& forall|a: int, b: int|
        0 <= a < b < r.len() ==> listed_before(#[trigger] r[a], #[trigger] r[b]) || (same_login(
            r[a],
            r[b],
        ) && p[a] < p[b])
}

/// `r` is `s` sorted by origin and user name, as a stable sort sorts it.
pub open spec fn is_stable_sort_of(r: Seq<CredentialView>, s: Seq<CredentialView>) -> bool {
    exists|p: Seq<int>| is_stable_arrangement(p, r, s)
}

proof fn lemma_text_trichotomy(a: Seq<char>, b: Seq<char>)
    ensures
        text_less(a, b) || a == b || text_less(b, a),
        !(text_less(a, b) && text_less(b, a)),
        !(text_less(a, b) && a == b),
    decreases a.len(),
{
    if a.len() > 0 && b.len() > 0 && a[0] == b[0] {
        lemma_text_trichotomy(a.drop_first(), b.drop_first());
        if a.drop_first() == b.drop_first() {
            assert forall|i: int| 0 <= i < a.len() implies a[i] == b[i] by {
                if i > 0 {
                    assert(a[i] == a.drop_first()[i - 1]);
                    assert(b[i] == b.drop_first()[i - 1]);
                }
            }
            assert(a =~= b);
        }
    } else if a.len() == 0 && b.len() == 0 {
        assert(a =~= b);
    } else if a.len() > 0 && b.len() > 0 {
        assert((a[0] as int) != (b[0] as int));
    }
}

proof fn lemma_text_transitive(a: Seq<char>, b: Seq<char>, c: Seq<char>)
    requires
        text_less(a, b),
        text_less(b, c),
    ensures
        text_less(a, c),
    decreases a.len(),
{
    if a.len() > 0 && b.len() > 0 && c.len() > 0 && a[0] == b[0] && b[0] == c[0] {
        lemma_text_transitive(a.drop_first(), b.drop_first(), c.drop_first());
    }
}

proof fn lemma_listed_trichotomy(x: CredentialView, y: CredentialView)
    ensures
        listed_before(x, y) || same_login(x, y) || listed_before(y, x),
        !(listed_before(x, y) && listed_before(y, x)),
        !(listed_before(x, y) && same_login(x, y)),
{
    lemma_text_trichotomy(x.origin, y.origin);
    lemma_text_trichotomy(x.username, y.username);
}

proof fn lemma_listed_transitive(x: CredentialView, y: CredentialView, z: CredentialView)
    requires
        listed_before(x, y),
        listed_before(y, z) || same_login(y, z),
    ensures
        listed_before(x, z),
{
    lemma_text_trichotomy(x.origin, y.origin);
    lemma_text_trichotomy(y.origin, z.origin);
    lemma_text_trichotomy(x.username, y.username);
    lemma_text_trichotomy(y.username, z.username);
    if listed_before(y, z) {
        if text_less(x.origin, y.origin) && text_less(y.origin, z.origin) {
            lemma_text_transitive(x.origin, y.origin, z.origin);
        }
        if x.origin == y.origin && y.origin == z.origin {
            lemma_text_transitive(x.username, y.username, z.username);
        }
    }
}

/// Whether `a` sorts before `b` as `String`s do.
pub fn text_less_than(a: &str, b: &str) -> (r: bool)
    ensures
        r == text_less(a@, b@),
{
    let x = chars_of(a);
    let y = chars_of(b);
    let mut k: usize = 0;
    assert(x@.skip(0) =~= x@);
    assert(y@.skip(0) =~= y@);
    while k < x.len() && k < y.len() && x[k] == y[k]
        invariant
            x@ == a@,
            y@ == b@,
            k <= x@.len(),
            k <= y@.len(),
            text_less(a@, b@) == text_less(x@.skip(k as int), y@.skip(k as int)),
        decreases x@.len() - k,
    {
        assert(x@.skip(k as int).drop_first() =~= x@.skip(k + 1));
        assert(y@.skip(k as int).drop_first() =~= y@.skip(k + 1));
        k += 1;
    }
    if k == x.len() {
        k < y.len()
    } else if k == y.len() {
        false
    } else {
        x[k] < y[k]
    }
}

/// Whether `x` is listed before `y`: by origin, then by user name.
pub fn is_listed_before(x: &CredentialMeta, y: &CredentialMeta) -> (r: bool)
    ensures
        r == listed_before(x@, y@),
{
    if text_less_than(x.origin.as_str(), y.origin.as_str()) {
        true
    } else if text_less_than(y.origin.as_str(), x.origin.as_str()) {
        false
    } else {
        proof {
            lemma_text_trichotomy(x.origin@, y.origin@);
        }
        text_less_than(x.username.as_str(), y.username.as_str())
    }
}

/// Sorts the saved logins for display: by origin, then by user name,
/// entries for the same login keeping their order.
pub fn sort_credentials(entries: &mut Vec<CredentialMeta>)
    ensures
        is_stable_sort_of(views(final(entries)@), views(old(entries)@)),
{
    let mut source: Vec<CredentialMeta> = Vec::new();
    std::mem::swap(entries, &mut source);
    let ghost s = views(source@);
    let n = source.len();
    let mut sorted: Vec<CredentialMeta> = Vec::new();
    let ghost mut p: Seq<int> = Seq::empty();
    let mut i: usize = 0;
    while i < n
        invariant
            n == source@.len(),
            s == views(source@),
            i <= n,
            is_stable_arrangement(p, views(sorted@), s.take(i as int)),
        decreases n - i,
    {
        let x = source[i].clone();
        let ghost r = views(sorted@);
        let mut pos: usize = 0;
        while pos < sorted.len() && !is_listed_before(&x, &sorted[pos])
            invariant
                r == views(sorted@),
                x@ == s[i as int],
                pos <= sorted@.len(),
                forall|k: int| 0 <= k < pos ==> !listed_before(x@, #[trigger] r[k]),
            decreases sorted@.len() - pos,
        {
            pos += 1;
        }
        let ghost xv = x@;
        sorted.insert(pos, x);
        proof {
            let np = p.insert(pos as int, i as int);
            let nr = views(sorted@);
            let ns = s.take(i + 1);
            assert(nr =~= r.insert(pos as int, xv));
            assert forall|k: int| 0 <= k < nr.len() implies #[trigger] nr[k] == ns[np[k]] by {
                if k < pos {
                    assert(nr[k] == r[k] && np[k] == p[k]);
                } else if k > pos {
                    assert(nr[k] == r[k - 1] && np[k] == p[k - 1]);
                }
            }
            assert forall|k: int| 0 <= k < np.len() implies 0 <= #[trigger] np[k] < ns.len() by {
                if k < pos {
                    assert(np[k] == p[k]);
                } else if k > pos {
                    assert(np[k] == p[k - 1]);
                }
            }
            assert forall|a: int, b: int| 0 <= a < b < np.len() implies #[trigger] np[a]
                != #[trigger] np[b] by {
                if a < pos {
                    assert(np[a] == p[a]);
                } else if a > pos {
                    assert(np[a] == p[a - 1]);
                }
                if b < pos {
                    assert(np[b] == p[b]);
                } else if b > pos {
                    assert(np[b] == p[b - 1]);
                }
            }
            assert forall|a: int, b: int| 0 <= a < b < nr.len() implies listed_before(
                #[trigger] nr[a],
                #[trigger] nr[b],
            ) || (same_login(nr[a], nr[b]) && np[a] < np[b]) by {
                if b < pos {
                    assert(nr[a] == r[a] && nr[b] == r[b] && np[a] == p[a] && np[b] == p[b]);
                } else if b == pos {
                    assert(nr[a] == r[a] && np[a] == p[a]);
                    lemma_listed_trichotomy(xv, r[a]);
                } else if a == pos {
                    assert(nr[b] == r[b - 1] && np[b] == p[b - 1]);
                    if b - 1 > pos {
                        assert(r[pos as int] == nr[pos + 1]);
                        lemma_listed_trichotomy(r[pos as int], r[b - 1]);
                        lemma_listed_transitive(xv, r[pos as int], r[b - 1]);
                    }
                } else if a < pos {
                    assert(nr[a] == r[a] && nr[b] == r[b - 1] && np[a] == p[a] && np[b] == p[b
                        - 1]);
                } else {
                    assert(nr[a] == r[a - 1] && nr[b] == r[b - 1] && np[a] == p[a - 1] && np[b]
                        == p[b - 1]);
                }
            }
            assert(is_stable_arrangement(np, nr, ns));
            p = np;
        }
        i += 1;
    }
    assert(s.take(n as int) =~= s);
    *entries = sorted;
}

} // verus!

verus! {

/// `a` and `b` agree on their first `k` characters, and there `a` either
/// ends while `b` goes on, or has the character with the smaller code point.
pub open spec fn diverges_below(a: Seq<char>, b: Seq<char>, k: int) -> bool {
    &&& 0 <= k <= a.len()
    &&& k <= b.len()
    &&& a.take(k) == b.take(k)
    &&& ((k == a.len() && k < b.len()) || (k < a.len() && k < b.len() && (a[k] as int) < (
        b[k] as int
    )))
}

/// Dictionary order on code points: `a` comes before `b` at the first place
/// where they differ, or is a proper prefix of `b`.
pub open spec fn dictionary_before(a: Seq<char>, b: Seq<char>) -> bool {
    exists|k: int| #[trigger] diverges_below(a, b, k)
}

/// The order used for saved logins is the dictionary order of `String`s,
/// whatever the lengths of the texts.
pub proof fn text_order_is_dictionary_order(a: Seq<char>, b: Seq<char>)
    ensures
        text_less(a, b) == dictionary_before(a, b),
    decreases a.len(),
{
    if a.len() == 0 {
        if b.len() > 0 {
            assert(a.take(0) =~= b.take(0));
            assert(diverges_below(a, b, 0));
        }
    } else if b.len() == 0 {
        assert forall|k: int| !diverges_below(a, b, k) by {}
    } else if a[0] != b[0] {
        if (a[0] as int) < (b[0] as int) {
            assert(a.take(0) =~= b.take(0));
            assert(diverges_below(a, b, 0));
        } else {
            assert forall|k: int| !diverges_below(a, b, k) by {
                if 0 < k && k <= a.len() && k <= b.len() && a.take(k) == b.take(k) {
                    assert(a.take(k)[0] == b.take(k)[0]);
                }
            }
        }
    } else {
        let a1 = a.drop_first();
        let b1 = b.drop_first();
        text_order_is_dictionary_order(a1, b1);
        if dictionary_before(a1, b1) {
            let k = choose|k: int| diverges_below(a1, b1, k);
            assert(a.take(k + 1) =~= seq![a[0]] + a1.take(k));
            assert(b.take(k + 1) =~= seq![b[0]] + b1.take(k));
            if k < a1.len() {
                assert(a[k + 1] == a1[k]);
            }
            if k < b1.len() {
                assert(b[k + 1] == b1[k]);
            }
            assert(diverges_below(a, b, k + 1));
        }
        if dictionary_before(a, b) {
            let k = choose|k: int| diverges_below(a, b, k);
            assert(k > 0);
            assert(a1.take(k - 1) =~= a.take(k).drop_first());
            assert(b1.take(k - 1) =~= b.take(k).drop_first());
            if k < a.len() {
                assert(a1[k - 1] == a[k]);
            }
            if k < b.len() {
                assert(b1[k - 1] == b[k]);
            }
            assert(diverges_below(a1, b1, k - 1));
        }
    }
}

/// Saved logins are listed by origin in `String` order, and logins of one
/// origin by user name in `String` order.
pub proof fn logins_listed_by_origin_then_user(x: CredentialView, y: CredentialView)
    ensures
        listed_before(x, y) == (dictionary_before(x.origin, y.origin) || (x.origin == y.origin
            && dictionary_before(x.username, y.username))),
{
    text_order_is_dictionary_order(x.origin, y.origin);
    text_order_is_dictionary_order(x.username, y.username);
}

/// In a sorted saved-logins list, no entry comes after one whose origin is
/// later in `String` order, nor after one of the same origin whose user name
/// is later.
pub proof fn sorted_logins_follow_string_order(r: Seq<CredentialView>, s: Seq<CredentialView>)
    requires
        is_stable_sort_of(r, s),
    ensures
        forall|i: int, j: int|
            0 <= i < j < r.len() ==> !dictionary_before(#[trigger] r[j].origin, #[trigger] r[i].origin)
                && (r[i].origin == r[j].origin ==> !dictionary_before(r[j].username, r[i].username)),
{
    let p = choose|p: Seq<int>| is_stable_arrangement(p, r, s);
    assert forall|i: int, j: int| 0 <= i < j < r.len() implies !dictionary_before(
        #[trigger] r[j].origin,
        #[trigger] r[i].origin,
    ) && (r[i].origin == r[j].origin ==> !dictionary_before(r[j].username, r[i].username)) by {
        assert(listed_before(r[i], r[j]) || (same_login(r[i], r[j]) && p[i] < p[j]));
        text_order_is_dictionary_order(r[j].origin, r[i].origin);
        text_order_is_dictionary_order(r[j].username, r[i].username);
        lemma_text_trichotomy(r[i].origin, r[j].origin);
        lemma_text_trichotomy(r[i].username, r[j].username);
    }
}

} // verus!
