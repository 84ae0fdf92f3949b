use vstd::prelude::*;

use crate::records::{Bookmark, BookmarkView};
use crate::text::{
    chars_of, decimal, has_prefix, lemma_decimal_injective, push_decimal, push_range,
    range_contains, range_has_prefix, same_text,
};

verus! {

/// Unicode `White_Space`: the characters `char::is_whitespace` accepts.
pub open spec fn is_white_space(c: char) -> bool {
    let u = c as u32;
    ||| 0x09 <= u <= 0x0D
    ||| u == 0x20
    ||| u == 0x85
    ||| u == 0xA0
    ||| u == 0x1680
    ||| 0x2000 <= u <= 0x200A
    ||| u == 0x2028
    ||| u == 0x2029
    ||| u == 0x202F
    ||| u == 0x205F
    ||| u == 0x3000
}

/// `s` without its leading white space.
pub open spec fn trim_start(s: Seq<char>) -> Seq<char>
    decreases s.len(),
{
    if s.len() > 0 && is_white_space(s[0]) {
        trim_start(s.drop_first())
    } else {
        s
    }
}

/// `s` without its trailing white space.
pub open spec fn trim_end(s: Seq<char>) -> Seq<char>
    decreases s.len(),
{
    if s.len() > 0 && is_white_space(s.last()) {
        trim_end(s.drop_last())
    } else {
        s
    }
}

/// `s` without white space at either end, as `str::trim` gives it.
pub open spec fn trim(s: Seq<char>) -> Seq<char> {
    trim_end(trim_start(s))
}

/// `s` with every space replaced by `+`.
pub open spec fn spaces_to_plus(s: Seq<char>) -> Seq<char> {
    s.map_values(|c: char| if c == ' ' { '+' } else { c })
}

/// `s` names a scheme that the browser loads as it stands.
pub open spec fn has_known_scheme(s: Seq<char>) -> bool {
    ||| has_prefix(s, "http://"@)
    ||| has_prefix(s, "https://"@)
    ||| has_prefix(s, "file://"@)
    ||| has_prefix(s, "about:"@)
}

/// What the address bar turns `input` into: a URL with a known scheme kept as
/// it stands, something that looks like a host name under `https://`, and
/// anything else as a web search.
pub open spec fn normalized_url(input: Seq<char>) -> Seq<char> {
    let s = trim(input);
    if has_known_scheme(s) {
        s
    } else if s.contains('.') && !s.contains(' ') && s.len() > 0 {
        "https://"@ + s
    } else {
        "https://www.google.com/search?q="@ + spaces_to_plus(s)
    }
}

fn is_white_space_char(c: char) -> (r: bool)
    ensures
        r == is_white_space(c),
{
    let u = c as u32;
    (0x09 <= u && u <= 0x0D) || u == 0x20 || u == 0x85 || u == 0xA0 || u == 0x1680 || (0x2000
        <= u && u <= 0x200A) || u == 0x2028 || u == 0x2029 || u == 0x202F || u == 0x205F || u
        == 0x3000
}

proof fn lemma_trim_start_step(s: Seq<char>, i: int)
    requires
        0 <= i < s.len(),
        is_white_space(s[i]),
    ensures
        trim_start(s.skip(i)) == trim_start(s.skip(i + 1)),
{
    assert(s.skip(i).drop_first() =~= s.skip(i + 1));
}

proof fn lemma_trim_end_step(s: Seq<char>, j: int)
    requires
        0 < j <= s.len(),
        is_white_space(s[j - 1]),
    ensures
        trim_end(s.take(j)) == trim_end(s.take(j - 1)),
{
    assert(s.take(j).drop_last() =~= s.take(j - 1));
}

/// The bounds `(i, j)` with `v[i..j]` the trimmed text of `v`.
fn trim_bounds(v: &Vec<char>) -> (r: (usize, usize))
    ensures
        r.0 <= r.1 <= v@.len(),
        v@.subrange(r.0 as int, r.1 as int) == trim(v@),
{
    let n = v.len();
    let mut i: usize = 0;
    assert(v@.skip(0) =~= v@);
    while i < n && is_white_space_char(v[i])
        invariant
            i <= n == v@.len(),
            trim_start(v@) == trim_start(v@.skip(i as int)),
        decreases n - i,
    {
        proof {
            lemma_trim_start_step(v@, i as int);
        }
        i += 1;
    }
    let ghost t = v@.skip(i as int);
    assert(trim_start(v@) == t);
    let mut j: usize = n;
    assert(t.take(t.len() as int) =~= t);
    while j > i && is_white_space_char(v[j - 1])
        invariant
            i <= j <= n == v@.len(),
            t == v@.skip(i as int),
            trim_end(t) == trim_end(t.take(j - i)),
        decreases j,
    {
        proof {
            lemma_trim_end_step(t, j - i);
        }
        j -= 1;
    }
    assert(trim_end(t.take(j - i)) == t.take(j - i));
    assert(t.take(j - i) =~= v@.subrange(i as int, j as int));
    (i, j)
}

/// Turns what was typed into the address bar into the URL to load.
pub fn normalize_url(input: &str) -> (url: String)
    ensures
        url@ == normalized_url(input@),
        (has_prefix(trim(input@), "http://"@) || has_prefix(trim(input@), "https://"@) || has_prefix(
            trim(input@),
            "file://"@,
        ) || has_prefix(trim(input@), "about:"@)) ==> url@ == trim(input@),
        !(has_prefix(trim(input@), "http://"@) || has_prefix(trim(input@), "https://"@)
            || has_prefix(trim(input@), "file://"@) || has_prefix(trim(input@), "about:"@)) && trim(
            input@,
        ).contains('.') && !trim(input@).contains(' ') && trim(input@).len() > 0 ==> url@
            == "https://"@ + trim(input@),
{
    proof {
        normalize_url_cases(input@);
    }
    let v = chars_of(input);
    let (i, j) = trim_bounds(&v);
    let ghost s = v@.subrange(i as int, j as int);
    let known = range_has_prefix(&v, i, j, &chars_of("http://")) || range_has_prefix(
        &v,
        i,
        j,
        &chars_of("https://"),
    ) || range_has_prefix(&v, i, j, &chars_of("file://")) || range_has_prefix(
        &v,
        i,
        j,
        &chars_of("about:"),
    );
    if known {
        let mut out = String::new();
        push_range(&mut out, &v, i, j);
        return out;
    }
    if range_contains(&v, i, j, '.') && !range_contains(&v, i, j, ' ') && i < j {
        let mut out = String::from_str("https://");
        push_range(&mut out, &v, i, j);
        return out;
    }
    let mut out = String::from_str("https://www.google.com/search?q=");
    let ghost base = out@;
    let mut k = i;
    while k < j
        invariant
            i <= k <= j <= v@.len(),
            s == v@.subrange(i as int, j as int),
            out@ == base + spaces_to_plus(s.take(k - i)),
        decreases j - k,
    {
        let c = v[k];
        out.push(if c == ' ' { '+' } else { c });
        assert(spaces_to_plus(s.take(k + 1 - i)) =~= spaces_to_plus(s.take(k - i)).push(
            if c == ' ' { '+' } else { c },
        ));
        k += 1;
    }
    assert(s.take(j - i) =~= s);
    out
}

} // verus!

verus! {

proof fn lemma_trim_start_shape(s: Seq<char>)
    ensures
        trim_start(s).len() == 0 || !is_white_space(trim_start(s)[0]),
    decreases s.len(),
{
    if s.len() > 0 && is_white_space(s[0]) {
        lemma_trim_start_shape(s.drop_first());
    }
}

proof fn lemma_trim_end_shape(s: Seq<char>)
    ensures
        exists|k: int| 0 <= k <= s.len() && trim_end(s) == s.take(k),
        trim_end(s).len() == 0 || !is_white_space(trim_end(s).last()),
    decreases s.len(),
{
    if s.len() > 0 && is_white_space(s.last()) {
        lemma_trim_end_shape(s.drop_last());
        let k = choose|k: int| 0 <= k <= s.drop_last().len() && trim_end(s.drop_last()) == s.drop_last().take(k);
        assert(s.drop_last().take(k) =~= s.take(k));
    } else {
        assert(s.take(s.len() as int) =~= s);
    }
}

/// The trimmed text is empty or starts and ends with a character that is
/// not white space.
proof fn lemma_trim_shape(s: Seq<char>)
    ensures
        trim(s).len() == 0 || (!is_white_space(trim(s)[0]) && !is_white_space(trim(s).last())),
{
    lemma_trim_start_shape(s);
    lemma_trim_end_shape(trim_start(s));
}

/// Text that starts and ends with a character that is not white space is
/// left as it is by trimming.
proof fn lemma_trim_fixed(s: Seq<char>)
    requires
        s.len() == 0 || (!is_white_space(s[0]) && !is_white_space(s.last())),
    ensures
        trim(s) == s,
{
}

/// Normalizing a URL a second time changes nothing: what the address bar
/// produces is already a URL it keeps as it stands.
pub proof fn normalize_url_is_idempotent(input: Seq<char>)
    ensures
        normalized_url(normalized_url(input)) == normalized_url(input),
        has_known_scheme(normalized_url(input)),
{
    reveal_strlit("https://");
    reveal_strlit("https://www.google.com/search?q=");
    let s = trim(input);
    lemma_trim_shape(input);
    let r = normalized_url(input);
    if has_known_scheme(s) {
        lemma_trim_fixed(s);
    } else if s.contains('.') && !s.contains(' ') && s.len() > 0 {
        assert(r == "https://"@ + s);
        assert(r.take(8) =~= "https://"@);
        lemma_trim_fixed(r);
    } else {
        let p = "https://www.google.com/search?q="@;
        let q = spaces_to_plus(s);
        assert(r == p + q);
        assert(r.take(8) =~= "https://"@);
        if q.len() > 0 {
            assert(r.last() == q.last());
        }
        lemma_trim_fixed(r);
    }
}

} // verus!

verus! {

/// The address of the page a new tab opens on.
pub open spec fn new_tab_address() -> Seq<char> {
    "about:newtab"@
}

/// The address is the blank start page (or no address at all).
pub open spec fn is_newtab(uri: Seq<char>) -> bool {
    uri.len() == 0 || uri == "about:blank"@
}

/// Whether `uri` is the blank start page, which the address bar shows as
/// empty and which history does not record.
pub fn is_newtab_uri(uri: &str) -> (r: bool)
    ensures
        r == is_newtab(uri@),
{
    uri.is_empty() || same_text(uri, "about:blank")
}

/// What the address bar shows for a tab at `uri`.
pub fn url_bar_text(uri: &str) -> (text: String)
    ensures
        text@ == if is_newtab(uri@) {
            Seq::<char>::empty()
        } else {
            uri@
        },
{
    if is_newtab_uri(uri) {
        String::new()
    } else {
        String::from_str(uri)
    }
}

/// Whether a page that finished loading at `uri` goes into the history.
pub fn should_record_visit(uri: &str) -> (r: bool)
    ensures
        r == (!is_newtab(uri@) && uri@.len() > 0),
{
    !is_newtab_uri(uri) && !uri.is_empty()
}

/// The label of a tab showing a page titled `title`.
pub open spec fn tab_label(title: Option<Seq<char>>) -> Seq<char> {
    match title {
        Some(t) => if t.len() > 0 {
            t
        } else {
            "New Tab"@
        },
        None => "New Tab"@,
    }
}

/// The label of a tab whose page has the title `title`: the title, or
/// "New Tab" while the page has none.
pub fn tab_title(title: Option<&str>) -> (label: String)
    ensures
        label@ == tab_label(
            match title {
                Some(t) => Some(t@),
                None => None,
            },
        ),
        title matches Some(t) ==> (t@.len() > 0 ==> label@ == t@),
        title matches Some(t) ==> (t@.len() == 0 ==> label@ == "New Tab"@),
        title is None ==> label@ == "New Tab"@,
{
    match title {
        Some(t) => if !t.is_empty() {
            String::from_str(t)
        } else {
            String::from_str("New Tab")
        },
        None => String::from_str("New Tab"),
    }
}

/// What a newly opened tab shows first.
#[derive(Debug, PartialEq, Eq)]
pub enum TabStart {
    /// The built-in start page.
    NewTabPage,
    /// The page at this address.
    Address(String),
}

/// What a tab opened on `url` loads: the built-in start page for the
/// new-tab address, otherwise the address itself.
pub fn tab_start(url: &str) -> (start: TabStart)
    ensures
        url@ == new_tab_address() ==> start is NewTabPage,
        url@ != new_tab_address() ==> (start matches TabStart::Address(a) && a@ == url@),
        url@ == "about:newtab"@ <==> start is NewTabPage,
{
    if same_text(url, "about:newtab") {
        TabStart::NewTabPage
    } else {
        TabStart::Address(String::from_str(url))
    }
}

/// What the reload button shows and does.
#[derive(Debug, PartialEq, Eq, Structural, Clone, Copy)]
pub enum LoadControl {
    /// While a page loads: a stop button that stops loading.
    Stop,
    /// Otherwise: a reload button that reloads the page.
    Reload,
}

/// The reload button's face and action while the page is, or is not,
/// loading.
pub fn load_control(loading: bool) -> (c: LoadControl)
    ensures
        loading <==> c is Stop,
{
    if loading {
        LoadControl::Stop
    } else {
        LoadControl::Reload
    }
}

/// The bookmark that "Bookmark page" adds for the page at `url`, titled by
/// the page's title or, when it has none, by the address; none for an empty
/// address or the blank page.
pub fn bookmark_request(url: &str, page_title: Option<&str>) -> (b: Option<Bookmark>)
    ensures
        (url@.len() == 0 || url@ == "about:blank"@) <==> b is None,
        b matches Some(bm) ==> bm@ == (BookmarkView {
            id: None,
            url: url@,
            title: match page_title {
                Some(t) => t@,
                None => url@,
            },
            created_at: None,
        }),
{
    if url.is_empty() || same_text(url, "about:blank") {
        return None;
    }
    let title = match page_title {
        Some(t) => String::from_str(t),
        None => String::from_str(url),
    };
    Some(Bookmark::new_for(String::from_str(url), title))
}

/// The origin `scheme://host[:port]` of a parsed address: none without a
/// host; the port only when it is given (positive).
pub open spec fn origin_of(scheme: Seq<char>, host: Option<Seq<char>>, port: int) -> Option<
    Seq<char>,
> {
    match host {
        None => None,
        Some(h) => Some(
            scheme + "://"@ + h + if port > 0 {
                seq![':'] + decimal(port as nat)
            } else {
                Seq::empty()
            },
        ),
    }
}

/// The origin under which saved logins of a page are kept, from the parts
/// of its parsed address; paths, queries and credentials are left out.
pub fn origin_from_parts(scheme: &str, host: Option<&str>, port: i32) -> (origin: Option<String>)
    ensures
        match origin {
            Some(o) => origin_of(scheme@, host_view(host), port as int) == Some(o@),
            None => origin_of(scheme@, host_view(host), port as int) is None,
        },
        host is None <==> origin is None,
        host matches Some(h) ==> (port > 0 ==> (origin matches Some(o) && o@ == scheme@ + "://"@
            + h@ + seq![':'] + decimal(port as nat))),
        host matches Some(h) ==> (port <= 0 ==> (origin matches Some(o) && o@ == scheme@ + "://"@
            + h@)),
{
    match host {
        None => None,
        Some(h) => {
            let mut s = String::from_str(scheme);
            s.append("://");
            s.append(h);
            if port > 0 {
                s.push(':');
                push_decimal(&mut s, port as u64);
            }
            Some(s)
        },
    }
}

/// An origin names the scheme, `://` and the host, then `:` and the port
/// in decimal when the port is positive; without a host there is none.
/// Two positive ports, or a positive port and none, never give one origin.
pub proof fn origins_keep_the_port(scheme: Seq<char>, host: Option<Seq<char>>, p: int, q: int)
    ensures
        host is None ==> origin_of(scheme, host, p) is None,
        host matches Some(h) ==> (p > 0 ==> origin_of(scheme, host, p) == Some(
            scheme + "://"@ + h + seq![':'] + decimal(p as nat),
        )),
        host matches Some(h) ==> (p <= 0 ==> origin_of(scheme, host, p) == Some(
            scheme + "://"@ + h,
        )),
        host is Some && p > 0 && q > 0 && p != q ==> origin_of(scheme, host, p) != origin_of(
            scheme,
            host,
            q,
        ),
        host is Some && p > 0 && q <= 0 ==> origin_of(scheme, host, p) != origin_of(
            scheme,
            host,
            q,
        ),
{
    if let Some(h) = host {
        let base = scheme + "://"@ + h;
        if p > 0 {
            let x = base + seq![':'] + decimal(p as nat);
            assert(origin_of(scheme, host, p) == Some(x));
            if q > 0 && p != q {
                let y = base + seq![':'] + decimal(q as nat);
                assert(origin_of(scheme, host, q) == Some(y));
                if x == y {
                    assert(x.skip(base.len() as int + 1) =~= decimal(p as nat));
                    assert(y.skip(base.len() as int + 1) =~= decimal(q as nat));
                    lemma_decimal_injective(p as nat, q as nat);
                }
            }
            if q <= 0 {
                assert(origin_of(scheme, host, q) == Some(base));
                assert(x.len() > base.len());
            }
        }
    }
}

/// The characters of an optional host name.
pub open spec fn host_view(host: Option<&str>) -> Option<Seq<char>> {
    match host {
        Some(h) => Some(h@),
        None => None,
    }
}

} // verus!

verus! {

/// The input starts with `http://`, `https://`, `file://` or `about:`.
pub open spec fn starts_with_scheme(t: Seq<char>) -> bool {
    ||| has_prefix(t, "http://"@)
    ||| has_prefix(t, "https://"@)
    ||| has_prefix(t, "file://"@)
    ||| has_prefix(t, "about:"@)
}

proof fn lemma_trim_start_cut(s: Seq<char>)
    ensures
        exists|i: int|
            0 <= i <= s.len() && trim_start(s) == s.skip(i) && (forall|k: int|
                0 <= k < i ==> is_white_space(#[trigger] s[k])),
    decreases s.len(),
{
    if s.len() > 0 && is_white_space(s[0]) {
        let d = s.drop_first();
        lemma_trim_start_cut(d);
        let i = choose|i: int|
            0 <= i <= d.len() && trim_start(d) == d.skip(i) && (forall|k: int|
                0 <= k < i ==> is_white_space(#[trigger] d[k]));
        assert(d.skip(i) =~= s.skip(i + 1));
        assert forall|k: int| 0 <= k < i + 1 implies is_white_space(#[trigger] s[k]) by {
            if k > 0 {
                assert(s[k] == d[k - 1]);
            }
        }
    } else {
        assert(s.skip(0) =~= s);
    }
}

proof fn lemma_trim_end_cut(s: Seq<char>)
    ensures
        exists|j: int|
            0 <= j <= s.len() && trim_end(s) == s.take(j) && (forall|k: int|
                j <= k < s.len() ==> is_white_space(#[trigger] s[k])),
    decreases s.len(),
{
    if s.len() > 0 && is_white_space(s.last()) {
        let d = s.drop_last();
        lemma_trim_end_cut(d);
        let j = choose|j: int|
            0 <= j <= d.len() && trim_end(d) == d.take(j) && (forall|k: int|
                j <= k < d.len() ==> is_white_space(#[trigger] d[k]));
        assert(d.take(j) =~= s.take(j));
        assert forall|k: int| j <= k < s.len() implies is_white_space(#[trigger] s[k]) by {
            if k < s.len() - 1 {
                assert(s[k] == d[k]);
            }
        }
    } else {
        assert(s.take(s.len() as int) =~= s);
    }
}

/// Trimming removes exactly the white space at both ends: what is left is
/// a contiguous part of the text, everything before and after it is white
/// space, and it neither starts nor ends with white space.
pub proof fn trim_removes_white_space_at_the_ends(s: Seq<char>)
    ensures
        exists|i: int|
            0 <= i && i + trim(s).len() <= s.len() && #[trigger] s.subrange(i, i + trim(s).len()) == trim(s)
                && (forall|k: int| 0 <= k < i ==> is_white_space(#[trigger] s[k])) && (forall|k: int|
                i + trim(s).len() <= k < s.len() ==> is_white_space(#[trigger] s[k])),
        trim(s).len() == 0 || (!is_white_space(trim(s)[0]) && !is_white_space(trim(s).last())),
{
    lemma_trim_shape(s);
    lemma_trim_start_cut(s);
    let i = choose|i: int|
        0 <= i <= s.len() && trim_start(s) == s.skip(i) && (forall|k: int|
            0 <= k < i ==> is_white_space(#[trigger] s[k]));
    let u = s.skip(i);
    lemma_trim_end_cut(u);
    let j = choose|j: int|
        0 <= j <= u.len() && trim_end(u) == u.take(j) && (forall|k: int|
            j <= k < u.len() ==> is_white_space(#[trigger] u[k]));
    assert(trim(s) == u.take(j));
    assert(s.subrange(i, i + j) =~= u.take(j));
    assert forall|k: int| i + trim(s).len() <= k < s.len() implies is_white_space(#[trigger] s[k]) by {
        assert(s[k] == u[k - i]);
    }
}

/// What the address bar loads, case by case: a trimmed input with a known
/// scheme as it stands; one with a `.`, no space and something in it under
/// `https://`; anything else as a Google search for the input with every
/// space turned into `+`.
pub proof fn normalize_url_cases(input: Seq<char>)
    ensures
        starts_with_scheme(trim(input)) ==> normalized_url(input) == trim(input),
        !starts_with_scheme(trim(input)) && trim(input).contains('.') && !trim(input).contains(' ')
            && trim(input).len() > 0 ==> normalized_url(input) == "https://"@ + trim(input),
        !starts_with_scheme(trim(input)) && !(trim(input).contains('.') && !trim(input).contains(
            ' ',
        ) && trim(input).len() > 0) ==> {
            let r = normalized_url(input);
            let p = "https://www.google.com/search?q="@;
            &&& r.len() == p.len() + trim(input).len()
            &&& r.take(p.len() as int) == p
            &&& forall|k: int|
                0 <= k < trim(input).len() ==> #[trigger] r[p.len() + k] == if trim(input)[k] == ' ' {
                    '+'
                } else {
                    trim(input)[k]
                }
        },
{
    let t = trim(input);
    let p = "https://www.google.com/search?q="@;
    if !starts_with_scheme(t) && !(t.contains('.') && !t.contains(' ') && t.len() > 0) {
        let r = normalized_url(input);
        assert(r == p + spaces_to_plus(t));
        assert(r.take(p.len() as int) =~= p);
        assert forall|k: int| 0 <= k < t.len() implies #[trigger] r[p.len() + k] == if t[k] == ' ' {
            '+'
        } else {
            t[k]
        } by {
            assert(r[p.len() + k] == spaces_to_plus(t)[k]);
        }
    }
}

} // verus!
