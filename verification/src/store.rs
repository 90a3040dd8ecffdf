//! What the catalog store is asked: where it lives, and the bounds and
//! patterns of its queries.

use crate::metadata::paths::{path_starts_with, starts_with};
use vstd::prelude::*;

verus! {

/// The number of albums on a page where the caller names none.
pub const DEFAULT_PAGE_LIMIT: u32 = 50;

/// The number of search results where the caller names none.
pub const DEFAULT_SEARCH_LIMIT: u32 = 20;

/// The address of the catalog database at `db_path`.
pub fn database_url(db_path: &str) -> (url: String)
    ensures
        url@ == "sqlite:"@ + db_path@,
{
    String::from_str("sqlite:").concat(db_path)
}

/// The limit and the offset of a page of albums: 50 and 0 where none is given.
pub fn album_page(limit: Option<u32>, offset: Option<u32>) -> (page: (u32, u32))
    ensures
        page.0 == (match limit {
            Some(n) => n,
            None => DEFAULT_PAGE_LIMIT,
        }),
        page.1 == (match offset {
            Some(n) => n,
            None => 0u32,
        }),
{
    let limit = match limit {
        Some(n) => n,
        None => DEFAULT_PAGE_LIMIT,
    };
    let offset = match offset {
        Some(n) => n,
        None => 0,
    };
    (limit, offset)
}

/// The pattern that matches every text in which `query` occurs.
pub open spec fn spec_search_pattern(query: Seq<char>) -> Seq<char> {
    "%"@ + query + "%"@
}

/// The pattern and the limit of a search for albums: the query between two
/// wildcards, and 20 results where no limit is given.
pub fn search_request(query: &str, limit: Option<u32>) -> (request: (String, u32))
    ensures
        request.0@ == spec_search_pattern(query@),
        request.1 == (match limit {
            Some(n) => n,
            None => DEFAULT_SEARCH_LIMIT,
        }),
{
    let pattern = String::from_str("%").concat(query).concat("%");
    let limit = match limit {
        Some(n) => n,
        None => DEFAULT_SEARCH_LIMIT,
    };
    (pattern, limit)
}

/// Whether a stored album belongs to the location that a scan of `root`
/// replaces: its folder is `root` or lies below it.
///
/// Albums are stored under the directory of their tracks, which is `root` or
/// a directory below it. A scan of `root` therefore supersedes every album in
/// scope, and not only those stored under `root` itself.
pub open spec fn spec_album_in_scope(root: Seq<char>, folder_path: Seq<char>) -> bool {
    path_starts_with(folder_path, root)
}

/// Decides whether a stored album is superseded by a scan of `root`.
pub fn album_in_scope(root: &str, folder_path: &str) -> (yes: bool)
    ensures
        yes == spec_album_in_scope(root@, folder_path@),
{
    starts_with(folder_path, root)
}

} // verus!
