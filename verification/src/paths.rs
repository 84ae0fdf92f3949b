use vstd::prelude::*;

use crate::text::{chars_of, push_range};

verus! {

/// `base` joined with the relative path `rel`, as `Path::join` joins them:
/// a `/` goes between unless `base` is empty or already ends in one.
pub open spec fn joined(base: Seq<char>, rel: Seq<char>) -> Seq<char> {
    if base.len() == 0 || base.last() == '/' {
        base + rel
    } else {
        base + seq!['/'] + rel
    }
}

/// The user's data directory: `$XDG_DATA_HOME` when it is set, otherwise
/// `.local/share` under `$HOME`, or under `/tmp` without a home.
pub open spec fn data_home_of(xdg: Option<Seq<char>>, home: Option<Seq<char>>) -> Seq<char> {
    match xdg {
        Some(x) => x,
        None => joined(
            match home {
                Some(h) => h,
                None => "/tmp"@,
            },
            ".local/share"@,
        ),
    }
}

/// The user's data directory from the values of `$XDG_DATA_HOME` and
/// `$HOME` (each `None` when unset).
pub fn data_home(xdg: Option<&str>, home: Option<&str>) -> (dir: String)
    ensures
        dir@ == data_home_of(
            match xdg {
                Some(x) => Some(x@),
                None => None,
            },
            match home {
                Some(h) => Some(h@),
                None => None,
            },
        ),
        xdg matches Some(x) ==> dir@ == x@,
        xdg is None && home is None ==> dir@ == "/tmp/.local/share"@,
        xdg is None ==> (home matches Some(h) ==> (h@.len() > 0 && h@.last() != '/' ==> dir@
            == h@ + "/.local/share"@)),
{
    proof {
        reveal_strlit("/tmp");
        reveal_strlit(".local/share");
        reveal_strlit("/tmp/.local/share");
        reveal_strlit("/.local/share");
        assert("/tmp/.local/share"@ =~= "/tmp"@ + seq!['/'] + ".local/share"@);
        assert("/.local/share"@ =~= seq!['/'] + ".local/share"@);
    }
    match xdg {
        Some(x) => String::from_str(x),
        None => {
            let base = match home {
                Some(h) => h,
                None => "/tmp",
            };
            let v = chars_of(base);
            let mut out = String::new();
            push_range(&mut out, &v, 0, v.len());
            assert(out@ =~= v@);
            if v.len() > 0 && v[v.len() - 1] != '/' {
                out.push('/');
            }
            out.append(".local/share");
            out
        },
    }
}

} // verus!
