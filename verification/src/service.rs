use vstd::prelude::*;

use crate::text::{push_signed_decimal, signed_decimal};

verus! {

/// The address of the local history service.
pub open spec fn service_base() -> Seq<char> {
    "http://127.0.0.1:7777"@
}

/// The address of `path` on the local history service.
pub fn service_url(path: &str) -> (url: String)
    ensures
        url@ == service_base() + path@,
        url@ == "http://127.0.0.1:7777"@ + path@,
{
    let mut url = String::from_str("http://127.0.0.1:7777");
    url.append(path);
    url
}

/// The service path of the bookmark with id `id`.
pub fn bookmark_path(id: i64) -> (path: String)
    ensures
        path@ == "/api/bookmarks/"@ + signed_decimal(id as int),
{
    let mut path = String::from_str("/api/bookmarks/");
    push_signed_decimal(&mut path, id);
    path
}

} // verus!
