use vstd::prelude::*;

use crate::records::{CredentialMeta, CredentialView};
use crate::text::{chars_of, push_range, same_text, separator_at, separator_from};

verus! {

/// The views of a list of credentials.
pub open spec fn views(cs: Seq<CredentialMeta>) -> Seq<CredentialView> {
    cs.map_values(|c: CredentialMeta| c@)
}

/// The keyring service name under which the passwords of `origin` are kept.
pub open spec fn keyring_service_name(origin: Seq<char>) -> Seq<char> {
    "velo:"@ + origin
}

/// `c` is a saved login for `origin`.
pub open spec fn is_for_origin(c: CredentialView, origin: Seq<char>) -> bool {
    c.origin == origin
}

/// `c` is the saved login of `username` at `origin`.
pub open spec fn is_login(c: CredentialView, origin: Seq<char>, username: Seq<char>) -> bool {
    c.origin == origin && c.username == username
}

/// The saved logins of `cs` for `origin`, in their order.
pub open spec fn logins_for_origin(cs: Seq<CredentialView>, origin: Seq<char>) -> Seq<CredentialView> {
    cs.filter(|c: CredentialView| is_for_origin(c, origin))
}

/// `cs` without the login of `username` at `origin`.
pub open spec fn without_login(cs: Seq<CredentialView>, origin: Seq<char>, username: Seq<char>) -> Seq<
    CredentialView,
> {
    cs.filter(|c: CredentialView| !is_login(c, origin, username))
}

/// `cs` after saving `m`: an older entry for the same login is dropped and
/// `m` goes to the end.
pub open spec fn with_login(cs: Seq<CredentialView>, m: CredentialView) -> Seq<CredentialView> {
    without_login(cs, m.origin, m.username).push(m)
}

/// No two entries of `cs` are for the same login.
pub open spec fn logins_unique(cs: Seq<CredentialView>) -> bool {
    forall|i: int, j: int|
        0 <= i < cs.len() && 0 <= j < cs.len() && i != j ==> !is_login(
            #[trigger] cs[i],
            cs[j].origin,
            #[trigger] cs[j].username,
        )
}

/// The service name under which the OS keyring holds the passwords saved
/// for `origin`.
pub fn keyring_service(origin: &str) -> (service: String)
    ensures
        service@ == keyring_service_name(origin@),
        service@ == "velo:"@ + origin@,
{
    let mut s = String::from_str("velo:");
    let v = chars_of(origin);
    push_range(&mut s, &v, 0, v.len());
    assert(v@.subrange(0, v@.len() as int) =~= v@);
    s
}

proof fn lemma_filter_step(cs: Seq<CredentialView>, i: int, pred: spec_fn(CredentialView) -> bool)
    requires
        0 <= i < cs.len(),
    ensures
        cs.take(i + 1).filter(pred) == if pred(cs[i]) {
            cs.take(i).filter(pred).push(cs[i])
        } else {
            cs.take(i).filter(pred)
        },
{
    reveal(Seq::filter);
    assert(cs.take(i + 1).drop_last() =~= cs.take(i));
}

/// The saved logins of `creds` for `origin`, in the order of `creds`.
pub fn find_credentials_for_origin(creds: &Vec<CredentialMeta>, origin: &str) -> (found: Vec<
    CredentialMeta,
>)
    ensures
        views(found@) == logins_for_origin(views(creds@), origin@),
{
    let ghost all = views(creds@);
    let ghost pred = |c: CredentialView| is_for_origin(c, origin@);
    let mut found: Vec<CredentialMeta> = Vec::new();
    let mut i: usize = 0;
    while i < creds.len()
        invariant
            i <= creds@.len(),
            all == views(creds@),
            pred == (|c: CredentialView| is_for_origin(c, origin@)),
            views(found@) == all.take(i as int).filter(pred),
        decreases creds@.len() - i,
    {
        proof {
            lemma_filter_step(all, i as int, pred);
        }
        if same_text(creds[i].origin.as_str(), origin) {
            found.push(creds[i].clone());
            assert(views(found@) =~= all.take(i as int).filter(pred).push(all[i as int]));
        }
        i += 1;
    }
    assert(all.take(creds@.len() as int) =~= all);
    found
}

/// Drops the saved login of `username` at `origin` from the index, keeping
/// the other entries in their order.
pub fn remove_credential(entries: &mut Vec<CredentialMeta>, origin: &str, username: &str)
    ensures
        views(final(entries)@) == without_login(views(old(entries)@), origin@, username@),
{
    let ghost all = views(entries@);
    let ghost pred = |c: CredentialView| !is_login(c, origin@, username@);
    let mut kept: Vec<CredentialMeta> = Vec::new();
    let mut i: usize = 0;
    while i < entries.len()
        invariant
            i <= entries@.len(),
            all == views(entries@),
            pred == (|c: CredentialView| !is_login(c, origin@, username@)),
            views(kept@) == all.take(i as int).filter(pred),
        decreases entries@.len() - i,
    {
        proof {
            lemma_filter_step(all, i as int, pred);
        }
        if !(same_text(entries[i].origin.as_str(), origin) && same_text(
            entries[i].username.as_str(),
            username,
        )) {
            kept.push(entries[i].clone());
            assert(views(kept@) =~= all.take(i as int).filter(pred).push(all[i as int]));
        }
        i += 1;
    }
    assert(all.take(entries@.len() as int) =~= all);
    *entries = kept;
}

/// Records `meta` in the index: an older entry for the same login is
/// dropped and `meta` goes to the end.
pub fn upsert_credential(entries: &mut Vec<CredentialMeta>, meta: CredentialMeta)
    ensures
        views(final(entries)@) == with_login(views(old(entries)@), meta@),
{
    remove_credential(entries, meta.origin.as_str(), meta.username.as_str());
    let ghost before = views(entries@);
    entries.push(meta);
    assert(views(entries@) =~= before.push(meta@));
}

} // verus!

verus! {

broadcast use vstd::seq_lib::group_filter_ensures;

proof fn lemma_filter_subset(s: Seq<CredentialView>, p: spec_fn(CredentialView) -> bool)
    ensures
        forall|i: int| 0 <= i < s.filter(p).len() ==> s.contains(#[trigger] s.filter(p)[i]),
    decreases s.len(),
{
    reveal(Seq::filter);
    if s.len() > 0 {
        let d = s.drop_last();
        lemma_filter_subset(d, p);
        assert forall|i: int| 0 <= i < s.filter(p).len() implies s.contains(
            #[trigger] s.filter(p)[i],
        ) by {
            if i < d.filter(p).len() {
                assert(s.filter(p)[i] == d.filter(p)[i]);
                let k = choose|k: int| 0 <= k < d.len() && d[k] == d.filter(p)[i];
                assert(s[k] == d[k]);
            } else {
                assert(s[s.len() - 1] == s.filter(p)[i]);
            }
        }
    }
}

proof fn lemma_filter_push(s: Seq<CredentialView>, x: CredentialView, p: spec_fn(CredentialView) -> bool)
    ensures
        s.push(x).filter(p) == if p(x) {
            s.filter(p).push(x)
        } else {
            s.filter(p)
        },
{
    reveal(Seq::filter);
    assert(s.push(x).drop_last() =~= s);
}

proof fn lemma_filter_filter(
    s: Seq<CredentialView>,
    p: spec_fn(CredentialView) -> bool,
    q: spec_fn(CredentialView) -> bool,
)
    requires
        forall|x: CredentialView| #[trigger] q(x) ==> p(x),
    ensures
        s.filter(p).filter(q) == s.filter(q),
    decreases s.len(),
{
    reveal(Seq::filter);
    if s.len() > 0 {
        lemma_filter_filter(s.drop_last(), p, q);
        lemma_filter_push(s.drop_last().filter(p), s.last(), q);
    }
}

proof fn lemma_filter_unique(s: Seq<CredentialView>, p: spec_fn(CredentialView) -> bool)
    requires
        logins_unique(s),
    ensures
        logins_unique(s.filter(p)),
    decreases s.len(),
{
    reveal(Seq::filter);
    if s.len() > 0 {
        let d = s.drop_last();
        assert forall|i: int, j: int|
            0 <= i < d.len() && 0 <= j < d.len() && i != j implies !is_login(
            #[trigger] d[i],
            d[j].origin,
            #[trigger] d[j].username,
        ) by {
            assert(d[i] == s[i] && d[j] == s[j]);
        }
        lemma_filter_unique(d, p);
        let f = d.filter(p);
        if p(s.last()) {
            lemma_filter_subset(d, p);
            assert forall|i: int| 0 <= i < f.len() implies !is_login(
                #[trigger] f[i],
                s.last().origin,
                s.last().username,
            ) && !is_login(s.last(), f[i].origin, f[i].username) by {
                assert(d.contains(f[i]));
                let k = choose|k: int| 0 <= k < d.len() && d[k] == f[i];
                assert(s[k] == f[i]);
                assert(s[s.len() - 1] == s.last());
            }
            let g = f.push(s.last());
            assert forall|i: int, j: int|
                0 <= i < g.len() && 0 <= j < g.len() && i != j implies !is_login(
                #[trigger] g[i],
                g[j].origin,
                #[trigger] g[j].username,
            ) by {
                if i < f.len() && j < f.len() {
                    assert(g[i] == f[i] && g[j] == f[j]);
                } else if i < f.len() {
                    assert(g[i] == f[i]);
                } else {
                    assert(g[j] == f[j]);
                }
            }
        }
    }
}

/// After saving `m`, the index holds `m` and no other entry for the same
/// login, so a later lookup of its origin finds it.
pub proof fn saved_login_is_found(cs: Seq<CredentialView>, m: CredentialView)
    ensures
        with_login(cs, m).contains(m),
        logins_for_origin(with_login(cs, m), m.origin).contains(m),
        forall|k: int|
            0 <= k < with_login(cs, m).len() && is_login(
                #[trigger] with_login(cs, m)[k],
                m.origin,
                m.username,
            ) ==> with_login(cs, m)[k] == m,
{
    let w = without_login(cs, m.origin, m.username);
    let r = with_login(cs, m);
    assert(r[r.len() - 1] == m);
    lemma_filter_push(w, m, |c: CredentialView| is_for_origin(c, m.origin));
    let f = logins_for_origin(r, m.origin);
    assert(f[f.len() - 1] == m);
    assert forall|k: int|
        0 <= k < r.len() && is_login(#[trigger] r[k], m.origin, m.username) implies r[k] == m by {
        if k < w.len() {
            assert(r[k] == w[k]);
        }
    }
}

/// After removing the login of `username` at `origin`, no entry for it is
/// left.
pub proof fn removed_login_is_gone(cs: Seq<CredentialView>, origin: Seq<char>, username: Seq<char>)
    ensures
        forall|k: int|
            0 <= k < without_login(cs, origin, username).len() ==> !is_login(
                #[trigger] without_login(cs, origin, username)[k],
                origin,
                username,
            ),
{
}

/// Removing a login that was just saved leaves the index as removing it
/// from the index before the save would.
pub proof fn remove_undoes_save(cs: Seq<CredentialView>, m: CredentialView)
    ensures
        without_login(with_login(cs, m), m.origin, m.username) == without_login(
            cs,
            m.origin,
            m.username,
        ),
{
    let p = |c: CredentialView| !is_login(c, m.origin, m.username);
    lemma_filter_push(cs.filter(p), m, p);
    lemma_filter_filter(cs, p, p);
}

/// Saving or removing a login leaves the logins of every other origin as
/// they were.
pub proof fn other_origins_unchanged(
    cs: Seq<CredentialView>,
    m: CredentialView,
    origin: Seq<char>,
    username: Seq<char>,
    other: Seq<char>,
)
    requires
        other != m.origin,
        other != origin,
    ensures
        logins_for_origin(with_login(cs, m), other) == logins_for_origin(cs, other),
        logins_for_origin(without_login(cs, origin, username), other) == logins_for_origin(
            cs,
            other,
        ),
{
    let q = |c: CredentialView| is_for_origin(c, other);
    let p1 = |c: CredentialView| !is_login(c, m.origin, m.username);
    let p2 = |c: CredentialView| !is_login(c, origin, username);
    lemma_filter_push(cs.filter(p1), m, q);
    lemma_filter_filter(cs, p1, q);
    lemma_filter_filter(cs, p2, q);
}

/// Saving and removing keep the index free of two entries for one login.
pub proof fn index_stays_unique(
    cs: Seq<CredentialView>,
    m: CredentialView,
    origin: Seq<char>,
    username: Seq<char>,
)
    requires
        logins_unique(cs),
    ensures
        logins_unique(with_login(cs, m)),
        logins_unique(without_login(cs, origin, username)),
{
    let p1 = |c: CredentialView| !is_login(c, m.origin, m.username);
    lemma_filter_unique(cs, p1);
    lemma_filter_unique(cs, |c: CredentialView| !is_login(c, origin, username));
    let w = cs.filter(p1);
    let g = w.push(m);
    assert forall|i: int, j: int|
        0 <= i < g.len() && 0 <= j < g.len() && i != j implies !is_login(
        #[trigger] g[i],
        g[j].origin,
        #[trigger] g[j].username,
    ) by {
        if i < w.len() && j < w.len() {
            assert(g[i] == w[i] && g[j] == w[j]);
        } else if i < w.len() {
            assert(g[i] == w[i]);
            assert(p1(w[i]));
        } else {
            assert(g[j] == w[j]);
            assert(p1(w[j]));
        }
    }
}

} // verus!

verus! {

/// What the saved-logins list shows for `origin`: the part after the first
/// `://`, up to the next `://`; the whole origin when it has none.
pub open spec fn host_label(origin: Seq<char>) -> Seq<char> {
    match crate::text::separator_from(origin, 0) {
        None => origin,
        Some(i) => match crate::text::separator_from(origin, i + 3) {
            None => origin.skip(i + 3),
            Some(j) => origin.subrange(i + 3, j),
        },
    }
}

/// The label of a saved login's origin in the saved-logins list.
pub fn origin_host_label(origin: &str) -> (label: String)
    ensures
        label@ == host_label(origin@),
{
    let v = chars_of(origin);
    let n = v.len();
    let mut out = String::new();
    match crate::text::find_separator(&v, 0) {
        None => {
            push_range(&mut out, &v, 0, v.len());
            assert(out@ =~= v@);
        },
        Some(i) => {
            assert(i + 3 <= n);
            match crate::text::find_separator(&v, i + 3) {
                None => {
                    push_range(&mut out, &v, i + 3, v.len());
                    assert(out@ =~= v@.skip(i + 3));
                },
                Some(j) => {
                    push_range(&mut out, &v, i + 3, j);
                    assert(out@ =~= v@.subrange(i + 3, j as int));
                },
            }
        },
    }
    out
}

proof fn lemma_separator_after(x: Seq<char>, from: int, to: int)
    requires
        0 <= from <= to <= x.len(),
        forall|k: int| from <= k < to ==> x[k] != ':',
    ensures
        separator_from(x, from) == separator_from(x, to),
    decreases to - from,
{
    if from < to && from + 3 <= x.len() {
        assert(!separator_at(x, from));
        lemma_separator_after(x, from + 1, to);
    }
}

proof fn lemma_no_separator(x: Seq<char>, from: int)
    requires
        0 <= from,
        forall|k: int| from <= k ==> !separator_at(x, k),
    ensures
        separator_from(x, from) is None,
    decreases x.len() - from,
{
    if from + 3 <= x.len() {
        assert(!separator_at(x, from));
        lemma_no_separator(x, from + 1);
    }
}

/// The saved-logins list labels an origin `scheme://rest` by `rest`, the
/// host with its port, whenever the scheme holds no `:` and `rest` no
/// further `://`.
pub proof fn host_label_of_origin(scheme: Seq<char>, rest: Seq<char>)
    requires
        forall|k: int| 0 <= k < scheme.len() ==> scheme[k] != ':',
        forall|k: int|
            0 <= k && k + 3 <= rest.len() ==> !(rest[k] == ':' && rest[k + 1] == '/' && #[trigger] rest[k
                + 2] == '/'),
    ensures
        host_label(scheme + "://"@ + rest) == rest,
{
    reveal_strlit("://");
    let x = scheme + "://"@ + rest;
    let n = scheme.len() as int;
    assert forall|k: int| 0 <= k < n implies x[k] != ':' by {
        assert(x[k] == scheme[k]);
    }
    lemma_separator_after(x, 0, n);
    assert(x[n] == ':' && x[n + 1] == '/' && x[n + 2] == '/');
    assert(separator_at(x, n));
    assert(separator_from(x, n) == Some(n));
    assert forall|k: int| n + 3 <= k implies !separator_at(x, k) by {
        if separator_at(x, k) {
            let j = k - n - 3;
            assert(x[k] == rest[j] && x[k + 1] == rest[j + 1] && x[k + 2] == rest[j + 2]);
        }
    }
    lemma_no_separator(x, n + 3);
    assert(x.skip(n + 3) =~= rest);
}

} // verus!

verus! {

/// Different origins get different keyring service names, so the passwords
/// of one site are never looked up under another.
pub proof fn keyring_services_differ(a: Seq<char>, b: Seq<char>)
    requires
        a != b,
    ensures
        keyring_service_name(a) != keyring_service_name(b),
{
    let p = "velo:"@;
    if keyring_service_name(a) == keyring_service_name(b) {
        assert((p + a).skip(p.len() as int) =~= a);
        assert((p + b).skip(p.len() as int) =~= b);
    }
}

} // verus!

verus! {

/// The index to write once the keyring has been asked to store the password
/// of `meta`'s login: when the keyring took it, the index with `meta` saved;
/// when it refused, none, and the index stays as it is.
pub fn index_after_save(entries: Vec<CredentialMeta>, meta: CredentialMeta, keyring_ok: bool) -> (r:
    Option<Vec<CredentialMeta>>)
    ensures
        keyring_ok <==> r is Some,
        r matches Some(v) ==> views(v@) == with_login(views(entries@), meta@),
{
    if keyring_ok {
        let mut v = entries;
        upsert_credential(&mut v, meta);
        Some(v)
    } else {
        None
    }
}

/// How the keyring answered a request to delete a login's password.
#[derive(Debug, PartialEq, Eq, Structural, Clone, Copy)]
pub enum KeyringDeletion {
    /// The password was deleted.
    Deleted,
    /// The keyring held no password for the login.
    NoEntry,
    /// The keyring could not be asked or refused.
    Failed,
}

/// The index to write once the keyring has been asked to delete the
/// password of `username` at `origin`: when the keyring deleted it, or held
/// none for that login, the index without the login; when the keyring
/// failed, none, and the index stays as it is.
pub fn index_after_delete(
    entries: Vec<CredentialMeta>,
    origin: &str,
    username: &str,
    keyring: KeyringDeletion,
) -> (r: Option<Vec<CredentialMeta>>)
    ensures
        keyring != KeyringDeletion::Failed <==> r is Some,
        r matches Some(v) ==> views(v@) == without_login(views(entries@), origin@, username@),
{
    match keyring {
        KeyringDeletion::Failed => None,
        _ => {
            let mut v = entries;
            remove_credential(&mut v, origin, username);
            Some(v)
        },
    }
}

} // verus!
