use vstd::prelude::*;

use crate::text::{
    chars_of, decimal, lemma_decimal_injective, lemma_decimal_len, push_decimal,
    push_range,
};

verus! {

/// Position of the last `c` in `s`, or -1.
pub open spec fn last_index_of(s: Seq<char>, c: char) -> int
    decreases s.len(),
{
    if s.len() == 0 {
        -1
    } else if s.last() == c {
        s.len() - 1
    } else {
        last_index_of(s.drop_last(), c)
    }
}

/// Where the last occurrence of a character can stand.
pub proof fn lemma_last_index_bounds(s: Seq<char>, c: char)
    ensures
        -1 <= last_index_of(s, c) < s.len(),
        last_index_of(s, c) >= 0 ==> s[last_index_of(s, c)] == c,
        forall|k: int| last_index_of(s, c) < k < s.len() ==> s[k] != c,
    decreases s.len(),
{
    if s.len() > 0 && s.last() != c {
        lemma_last_index_bounds(s.drop_last(), c);
        assert forall|k: int| last_index_of(s, c) < k < s.len() implies s[k] != c by {
            if k < s.len() - 1 {
                assert(s[k] == s.drop_last()[k]);
            }
        }
    }
}

/// What follows the last `/` of `s` (all of `s` when it has none).
pub open spec fn last_segment(s: Seq<char>) -> Seq<char> {
    s.skip(last_index_of(s, '/') + 1)
}

/// The name a download is listed under before its file is known: the last
/// `/`-separated part of its address, or "Download" when that is empty.
pub open spec fn listed_download_name(uri: Seq<char>) -> Seq<char> {
    if last_segment(uri).len() > 0 {
        last_segment(uri)
    } else {
        "Download"@
    }
}

/// The final component of a path, as `Path::file_name` gives it: trailing
/// `/` and `.` components are skipped, and a path ending in `..` has none.
pub open spec fn file_name_of(s: Seq<char>) -> Option<Seq<char>>
    decreases s.len(),
{
    if s.len() == 0 {
        None
    } else if s.last() == '/' {
        file_name_of(s.drop_last())
    } else {
        let k = last_index_of(s, '/');
        let seg = s.skip(k + 1);
        if seg == seq!['.'] {
            if k < 0 {
                None
            } else {
                proof {
                    lemma_last_index_bounds(s, '/');
                }
                file_name_of(s.take(k + 1))
            }
        } else if seg == seq!['.', '.'] {
            None
        } else {
            Some(seg)
        }
    }
}

/// The stem of a file name, as `Path::file_stem` gives it: the part before
/// the last `.`, or the whole name when it has no `.` or starts with its
/// only one.
pub open spec fn stem_of(f: Seq<char>) -> Seq<char> {
    let d = last_index_of(f, '.');
    if d <= 0 {
        f
    } else {
        f.take(d)
    }
}

/// The extension of a file name, as `Path::extension` gives it.
pub open spec fn extension_of(f: Seq<char>) -> Option<Seq<char>> {
    let d = last_index_of(f, '.');
    if d <= 0 {
        None
    } else {
        Some(f.skip(d + 1))
    }
}

/// The name under which a download suggested as `suggested` is saved
/// first: the final component of the suggestion, so that the file stays
/// directly in the downloads folder, or "download" when the suggestion has
/// none (it is empty, or names a directory such as `/`, `.` or `..`).
/// Directory parts of a suggestion are dropped, relative ones too: `a/b.txt`
/// is saved as `b.txt`, not in a subfolder `a`.
pub open spec fn download_base_name(suggested: Seq<char>) -> Seq<char> {
    match file_name_of(suggested) {
        Some(f) => f,
        None => "download"@,
    }
}

/// `name` is a single path component: not empty, without `/`, and neither
/// `.` nor `..`; joined under a directory it names an entry of that
/// directory.
pub open spec fn is_plain_file_name(name: Seq<char>) -> bool {
    &&& name.len() > 0
    &&& !name.contains('/')
    &&& name != seq!['.']
    &&& name != seq!['.', '.']
}

/// The `n`-th alternative file name: `stem (n).ext`, or `stem (n)` without
/// an extension.
pub open spec fn numbered_name(stem: Seq<char>, ext: Option<Seq<char>>, n: nat) -> Seq<char> {
    stem + seq![' ', '('] + decimal(n) + seq![')'] + match ext {
        Some(e) => seq!['.'] + e,
        None => Seq::empty(),
    }
}

/// Position of the last `c` in `v`, if any.
fn find_last(v: &Vec<char>, c: char) -> (r: Option<usize>)
    ensures
        match r {
            Some(k) => last_index_of(v@, c) == k as int,
            None => last_index_of(v@, c) == -1,
        },
{
    let mut k = v.len();
    proof {
        assert(v@.take(k as int) =~= v@);
    }
    while k > 0
        invariant
            k <= v@.len(),
            last_index_of(v@, c) == last_index_of(v@.take(k as int), c),
        decreases k,
    {
        assert(v@.take(k as int).drop_last() =~= v@.take(k - 1));
        if v[k - 1] == c {
            return Some(k - 1);
        }
        k -= 1;
    }
    None
}

/// The name a download is listed under until its file name is known.
pub fn initial_download_name(uri: &str) -> (name: String)
    ensures
        name@ == listed_download_name(uri@),
        last_segment(uri@).len() == 0 ==> name@ == "Download"@,
{
    let v = chars_of(uri);
    proof {
        lemma_last_index_bounds(v@, '/');
    }
    let n = v.len();
    let start = match find_last(&v, '/') {
        Some(k) => {
            assert(k < n);
            k + 1
        },
        None => 0,
    };
    if start < v.len() {
        let mut out = String::new();
        push_range(&mut out, &v, start, v.len());
        assert(out@ =~= v@.skip(start as int));
        out
    } else {
        String::from_str("Download")
    }
}

/// The final component of the path `v`, as positions `[from, to)` in `v`.
fn file_name_range(v: &Vec<char>) -> (r: Option<(usize, usize)>)
    ensures
        match r {
            Some((a, b)) => a <= b <= v@.len() && file_name_of(v@) == Some(
                v@.subrange(a as int, b as int),
            ),
            None => file_name_of(v@) is None,
        },
{
    let mut end = v.len();
    assert(v@.take(end as int) =~= v@);
    while end > 0
        invariant
            end <= v@.len(),
            file_name_of(v@) == file_name_of(v@.take(end as int)),
        decreases end,
    {
        let ghost s = v@.take(end as int);
        if v[end - 1] == '/' {
            assert(s.drop_last() =~= v@.take(end - 1));
            end -= 1;
        } else {
            let mut k = end - 1;
            while k > 0 && v[k - 1] != '/'
                invariant
                    k < end <= v@.len(),
                    s == v@.take(end as int),
                    forall|m: int| k <= m < end ==> s[m] != '/',
                decreases k,
            {
                k -= 1;
            }
            proof {
                lemma_last_index_bounds(s, '/');
                if k > 0 {
                    assert(s[k - 1] == '/');
                }
                assert(last_index_of(s, '/') == k - 1);
            }
            let ghost seg = s.skip(k as int);
            assert(seg =~= v@.subrange(k as int, end as int));
            if end - k == 1 && v[k] == '.' {
                assert(seg =~= seq!['.']);
                if k == 0 {
                    return None;
                }
                assert(s.take(k as int) =~= v@.take(k as int));
                end = k;
            } else if end - k == 2 && v[k] == '.' && v[k + 1] == '.' {
                assert(seg =~= seq!['.', '.']);
                return None;
            } else {
                assert(seg != seq!['.']) by {
                    if seg.len() == 1 {
                        assert(seg[0] == v@[k as int]);
                    }
                }
                assert(seg != seq!['.', '.']) by {
                    if seg.len() == 2 {
                        assert(seg[0] == v@[k as int] && seg[1] == v@[k + 1]);
                    }
                }
                return Some((k, end));
            }
        }
    }
    None
}

/// How a download's file is named: the name tried first, and the stem and
/// extension from which numbered alternatives are made.
#[derive(Debug, PartialEq, Eq)]
pub struct DownloadName {
    pub name: String,
    pub stem: String,
    pub extension: Option<String>,
}

/// The name, stem and extension for a download suggested as `suggested`:
/// the suggestion's final component, or "download" when it has none.
pub fn download_name(suggested: &str) -> (d: DownloadName)
    ensures
        d.name@ == download_base_name(suggested@),
        file_name_of(suggested@) is None ==> d.name@ == "download"@,
        is_plain_file_name(d.name@),
        d.stem@ == stem_of(d.name@),
        match d.extension {
            Some(e) => extension_of(d.name@) == Some(e@),
            None => extension_of(d.name@) is None,
        },
{
    let given = chars_of(suggested);
    let (v, a, b) = match file_name_range(&given) {
        Some((a, b)) => {
            proof {
                lemma_file_name_is_plain(given@);
            }
            (given, a, b)
        },
        None => {
            let fallback = chars_of("download");
            proof {
                reveal_strlit("download");
                assert(fallback@.subrange(0, fallback@.len() as int) =~= fallback@);
                assert(!fallback@.contains('/'));
            }
            let n = fallback.len();
            (fallback, 0, n)
        },
    };
    let ghost f = v@.subrange(a as int, b as int);
    let mut name = String::new();
    push_range(&mut name, &v, a, b);
    assert(name@ =~= f);
    let mut d = b;
    while d > a && v[d - 1] != '.'
        invariant
            a <= d <= b <= v@.len(),
            f == v@.subrange(a as int, b as int),
            forall|m: int| d - a <= m < b - a ==> f[m] != '.',
        decreases d,
    {
        d -= 1;
    }
    proof {
        lemma_last_index_bounds(f, '.');
        if d > a {
            assert(f[d - a - 1] == '.');
        }
        assert(last_index_of(f, '.') == d - a - 1);
    }
    if d - a <= 1 {
        let mut stem = String::new();
        push_range(&mut stem, &v, a, b);
        assert(stem@ =~= f);
        DownloadName { name, stem, extension: None }
    } else {
        let mut stem = String::new();
        push_range(&mut stem, &v, a, d - 1);
        assert(stem@ =~= f.take(d - a - 1));
        let mut ext = String::new();
        push_range(&mut ext, &v, d, b);
        assert(ext@ =~= f.skip(d - a));
        DownloadName { name, stem, extension: Some(ext) }
    }
}

/// The final component of a path is a plain file name.
pub proof fn lemma_file_name_is_plain(s: Seq<char>)
    ensures
        file_name_of(s) matches Some(f) ==> is_plain_file_name(f),
    decreases s.len(),
{
    if s.len() == 0 {
    } else if s.last() == '/' {
        lemma_file_name_is_plain(s.drop_last());
    } else {
        let k = last_index_of(s, '/');
        lemma_last_index_bounds(s, '/');
        let seg = s.skip(k + 1);
        if seg == seq!['.'] {
            if k >= 0 {
                lemma_file_name_is_plain(s.take(k + 1));
            }
        } else if seg != seq!['.', '.'] {
            assert forall|m: int| 0 <= m < seg.len() implies seg[m] != '/' by {
                assert(seg[m] == s[k + 1 + m]);
            }
            assert(seg[seg.len() - 1] == s.last());
        }
    }
}

/// Stem and extension split a file name at its last `.`: the stem, a `.`
/// and the extension give the name back, and without an extension the stem
/// is the whole name. The stem of a name is never empty, so a name such as
/// `.bashrc` is all stem.
pub proof fn stem_and_extension_split_the_name(f: Seq<char>)
    requires
        f.len() > 0,
    ensures
        stem_of(f).len() > 0,
        extension_of(f) matches Some(e) ==> f == stem_of(f) + seq!['.'] + e,
        extension_of(f) is None ==> stem_of(f) == f,
{
    lemma_last_index_bounds(f, '.');
    let d = last_index_of(f, '.');
    if d > 0 {
        assert(f =~= f.take(d) + seq!['.'] + f.skip(d + 1));
    }
}

/// The `n`-th alternative name for a download whose first choice is taken.
pub fn numbered_download_name(stem: &str, extension: Option<&str>, n: u64) -> (name: String)
    ensures
        name@ == numbered_name(
            stem@,
            match extension {
                Some(e) => Some(e@),
                None => None,
            },
            n as nat,
        ),
{
    let mut out = String::from_str(stem);
    out.push(' ');
    out.push('(');
    push_decimal(&mut out, n);
    out.push(')');
    match extension {
        Some(e) => {
            out.push('.');
            out.append(e);
        },
        None => {},
    }
    out
}

} // verus!

verus! {

/// Different numbers give different alternative names, so the search for a
/// free file name never tries the same name twice.
pub proof fn numbered_names_differ(stem: Seq<char>, ext: Option<Seq<char>>, a: nat, b: nat)
    requires
        a != b,
    ensures
        numbered_name(stem, ext, a) != numbered_name(stem, ext, b),
{
    let x = numbered_name(stem, ext, a);
    let y = numbered_name(stem, ext, b);
    if x == y {
        let tail = match ext {
            Some(e) => seq!['.'] + e,
            None => Seq::<char>::empty(),
        };
        let da = decimal(a);
        let db = decimal(b);
        assert(x.len() == stem.len() + 3 + da.len() + tail.len());
        assert(y.len() == stem.len() + 3 + db.len() + tail.len());
        let lo = stem.len() + 2;
        assert(x.subrange(lo as int, (lo + da.len()) as int) =~= da);
        assert(y.subrange(lo as int, (lo + db.len()) as int) =~= db);
        lemma_decimal_injective(a, b);
    }
}

/// The unit a byte count is shown in: 0 for bytes, 1 for KB, 2 for MB and
/// 3 for GB, the largest one the count reaches.
pub open spec fn size_unit_of(bytes: nat) -> nat {
    if bytes < 1024 {
        0
    } else if bytes < 1024 * 1024 {
        1
    } else if bytes < 1024 * 1024 * 1024 {
        2
    } else {
        3
    }
}

/// The unit in which the downloads list shows `bytes`: the list divides by
/// 1024 while the count is at least 1024 and a larger unit is left. The unit
/// boundaries are powers of two below 2^53, where the count converts to a
/// float exactly, so the count alone decides the unit.
pub fn size_unit(bytes: u64) -> (unit: usize)
    ensures
        unit == size_unit_of(bytes as nat),
        (unit == 0) == (bytes < 1024),
        (unit == 1) == (1024 <= bytes < 1048576),
        (unit == 2) == (1048576 <= bytes < 1073741824),
        (unit == 3) == (1073741824 <= bytes),
{
    if bytes < 1024 {
        0
    } else if bytes < 1024 * 1024 {
        1
    } else if bytes < 1024 * 1024 * 1024 {
        2
    } else {
        3
    }
}

/// The name of a size unit.
pub open spec fn unit_name(unit: nat) -> Seq<char> {
    if unit == 0 {
        "B"@
    } else if unit == 1 {
        "KB"@
    } else if unit == 2 {
        "MB"@
    } else {
        "GB"@
    }
}

/// The name of the size unit `unit` (one of those `size_unit` gives).
pub fn size_unit_name(unit: usize) -> (name: String)
    requires
        unit <= 3,
    ensures
        name@ == unit_name(unit as nat),
        unit == 0 ==> name@ == "B"@,
        unit == 1 ==> name@ == "KB"@,
        unit == 2 ==> name@ == "MB"@,
        unit == 3 ==> name@ == "GB"@,
{
    if unit == 0 {
        String::from_str("B")
    } else if unit == 1 {
        String::from_str("KB")
    } else if unit == 2 {
        String::from_str("MB")
    } else {
        String::from_str("GB")
    }
}

/// The unit shown beside a byte count names the power of 1024 it was
/// divided by: B below 1024 bytes, KB up to 1024 KB, MB up to 1024 MB, and
/// GB from there on.
pub proof fn unit_names_follow_powers_of_1024(bytes: nat)
    ensures
        bytes < 1024 ==> unit_name(size_unit_of(bytes)) == "B"@,
        1024 <= bytes < 1048576 ==> unit_name(size_unit_of(bytes)) == "KB"@,
        1048576 <= bytes < 1073741824 ==> unit_name(size_unit_of(bytes)) == "MB"@,
        1073741824 <= bytes ==> unit_name(size_unit_of(bytes)) == "GB"@,
{
}

/// How a count of fewer than 1024 bytes is shown: the count and "B".
pub fn format_byte_count(bytes: u64) -> (text: String)
    ensures
        text@ == decimal(bytes as nat) + " B"@,
{
    let mut s = String::new();
    push_decimal(&mut s, bytes);
    s.append(" B");
    s
}

/// Where a download stands.
#[derive(Debug, PartialEq, Eq, Structural, Clone, Copy)]
pub enum DownloadState {
    Active,
    Done,
    Failed,
}

/// What a download row's button does in each state.
#[derive(Debug, PartialEq, Eq, Structural, Clone, Copy)]
pub enum DownloadAction {
    /// Cancel the running download.
    Cancel,
    /// Open the folder holding the finished file.
    ShowInFolder,
    /// Remove the failed download's row.
    RemoveRow,
}

impl DownloadState {
    /// The state of a download that has just started.
    pub fn started() -> (s: Self)
        ensures
            s == DownloadState::Active,
    {
        DownloadState::Active
    }

    /// The download finished. WebKit reports "finished" after a failure too,
    /// so a failed download stays failed; any other becomes done.
    pub fn finish(&mut self)
        ensures
            *old(self) == DownloadState::Failed ==> *final(self) == DownloadState::Failed,
            *old(self) != DownloadState::Failed ==> *final(self) == DownloadState::Done,
    {
        if *self != DownloadState::Failed {
            *self = DownloadState::Done;
        }
    }

    /// The download failed: whatever it was, it has now failed.
    pub fn fail(&mut self)
        ensures
            *final(self) == DownloadState::Failed,
    {
        *self = DownloadState::Failed;
    }

    /// What the row's button does now.
    pub fn action(&self) -> (a: DownloadAction)
        ensures
            *self == DownloadState::Active <==> a == DownloadAction::Cancel,
            *self == DownloadState::Done <==> a == DownloadAction::ShowInFolder,
            *self == DownloadState::Failed <==> a == DownloadAction::RemoveRow,
    {
        match self {
            DownloadState::Active => DownloadAction::Cancel,
            DownloadState::Done => DownloadAction::ShowInFolder,
            DownloadState::Failed => DownloadAction::RemoveRow,
        }
    }
}

} // verus!

verus! {

/// The characters of an optional extension.
pub open spec fn ext_view(e: Option<String>) -> Option<Seq<char>> {
    match e {
        Some(x) => Some(x@),
        None => None,
    }
}

/// The file name tried at attempt `attempt` of the search for a free name:
/// the name itself first, then the numbered alternatives 1, 2, ...
pub open spec fn candidate_name(name: Seq<char>, stem: Seq<char>, ext: Option<Seq<char>>, attempt: nat) -> Seq<char> {
    if attempt == 0 {
        name
    } else {
        numbered_name(stem, ext, attempt)
    }
}

impl DownloadName {
    /// The file name tried at attempt `attempt`.
    pub fn candidate(&self, attempt: u64) -> (c: String)
        ensures
            c@ == candidate_name(self.name@, self.stem@, ext_view(self.extension), attempt as nat),
    {
        if attempt == 0 {
            String::from_str(self.name.as_str())
        } else {
            let ext = match &self.extension {
                Some(e) => Some(e.as_str()),
                None => None,
            };
            numbered_download_name(self.stem.as_str(), ext, attempt)
        }
    }
}

/// The search for a free file name: the attempt under way.
#[derive(Debug, PartialEq, Eq, Structural, Clone, Copy)]
pub struct NameSearch {
    pub attempt: u64,
}

impl NameSearch {
    /// A search that starts with the name itself.
    pub fn new() -> (s: Self)
        ensures
            s.attempt == 0,
    {
        NameSearch { attempt: 0 }
    }

    /// Records whether the current candidate is taken; returns whether the
    /// search is over, its current candidate being free. Attempts go up by
    /// one, so the candidate it ends on is the first one found free.
    pub fn settle(&mut self, taken: bool) -> (done: bool)
        requires
            taken ==> old(self).attempt < u64::MAX,
        ensures
            done == !taken,
            taken ==> final(self).attempt == old(self).attempt + 1,
            !taken ==> *final(self) == *old(self),
    {
        if taken {
            self.attempt = self.attempt + 1;
            false
        } else {
            true
        }
    }
}

proof fn lemma_decimal_digits(n: nat)
    ensures
        forall|i: int| 0 <= i < decimal(n).len() ==> decimal(n)[i] != '/',
    decreases n,
{
    if n < 10 {
        assert(((48 + n) as char) as int == 48 + n);
    } else {
        lemma_decimal_digits(n / 10);
        assert(((48 + n % 10) as char) as int == 48 + n % 10);
        assert forall|i: int| 0 <= i < decimal(n).len() implies decimal(n)[i] != '/' by {
            if i < decimal(n).len() - 1 {
                assert(decimal(n)[i] == decimal(n / 10)[i]);
            }
        }
    }
}

/// Every name the search tries for a download is a plain file name, so it
/// stays inside the downloads folder, and different attempts try different
/// names.
pub proof fn candidates_stay_in_folder(name: Seq<char>, attempt: nat, other: nat)
    requires
        is_plain_file_name(name),
    ensures
        is_plain_file_name(candidate_name(name, stem_of(name), extension_of(name), attempt)),
        attempt != other ==> candidate_name(name, stem_of(name), extension_of(name), attempt)
            != candidate_name(name, stem_of(name), extension_of(name), other),
{
    let stem = stem_of(name);
    let ext = extension_of(name);
    let d = last_index_of(name, '.');
    lemma_last_index_bounds(name, '.');
    lemma_decimal_len(attempt);
    lemma_decimal_len(other);
    if attempt > 0 {
        let c = numbered_name(stem, ext, attempt);
        let tail = match ext {
            Some(e) => seq!['.'] + e,
            None => Seq::<char>::empty(),
        };
        let dec = decimal(attempt);
        lemma_decimal_digits(attempt);
        assert(c == stem + seq![' ', '('] + dec + seq![')'] + tail);
        assert forall|i: int| 0 <= i < c.len() implies c[i] != '/' by {
            if i < stem.len() {
                assert(c[i] == stem[i]);
                assert(stem[i] == name[i]);
            } else if i < stem.len() + 2 {
            } else if i < stem.len() + 2 + dec.len() {
                assert(c[i] == dec[i - stem.len() - 2]);
            } else if i == stem.len() + 2 + dec.len() {
            } else if i > stem.len() + 3 + dec.len() {
                let j = i - (stem.len() + 3 + dec.len());
                assert(c[i] == tail[j]);
                let e = ext->0;
                assert(tail[j] == e[j - 1]);
                assert(e[j - 1] == name[d + j]);
            }
        }
        assert(c.len() >= 4);
    }
    if attempt != other {
        if attempt > 0 && other > 0 {
            numbered_names_differ(stem, ext, attempt, other);
        } else {
            let k = if attempt > 0 { attempt } else { other };
            let c = numbered_name(stem, ext, k);
            lemma_decimal_len(k);
            assert(c.len() > name.len());
        }
    }
}

} // verus!
