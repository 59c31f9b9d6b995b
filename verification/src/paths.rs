//! Relative request paths for the upstream API. Paths are
//! concatenated, not merged, with the configured base URL.
use vstd::prelude::*;

verus! {

/// The fixed page size of listing fetches; large enough that the
/// first page holds everything in practice (cursoring is out of
/// scope).
pub open spec fn page_suffix() -> Seq<char> {
    "?itemsPerPage=500"@
}

pub open spec fn groups_path_spec() -> Seq<char> {
    "groups"@ + page_suffix()
}

pub open spec fn users_path_spec(id: Seq<char>) -> Seq<char> {
    "groups/"@ + id + "/databaseUsers"@ + page_suffix()
}

pub open spec fn clusters_path_spec(id: Seq<char>) -> Seq<char> {
    "groups/"@ + id + "/clusters"@ + page_suffix()
}

pub open spec fn status_path_spec(id: Seq<char>, cluster: Seq<char>) -> Seq<char> {
    "groups/"@ + id + "/clusters/"@ + cluster + "/status"@
}

/// The path of the top-level group listing.
pub fn groups_path() -> (r: String)
    ensures
        r@ == groups_path_spec(),
{
    let mut s = String::from_str("groups");
    s.append("?itemsPerPage=500");
    s
}

/// The path of a group's database-user listing.
pub fn users_path(id: &str) -> (r: String)
    ensures
        r@ == users_path_spec(id@),
{
    let mut s = String::from_str("groups/");
    s.append(id);
    s.append("/databaseUsers");
    s.append("?itemsPerPage=500");
    proof {
        assert(s@ =~= users_path_spec(id@));
    }
    s
}

/// The path of a group's cluster listing.
pub fn clusters_path(id: &str) -> (r: String)
    ensures
        r@ == clusters_path_spec(id@),
{
    let mut s = String::from_str("groups/");
    s.append(id);
    s.append("/clusters");
    s.append("?itemsPerPage=500");
    proof {
        assert(s@ =~= clusters_path_spec(id@));
    }
    s
}

/// The path of one cluster's change status.
pub fn status_path(id: &str, cluster: &str) -> (r: String)
    ensures
        r@ == status_path_spec(id@, cluster@),
{
    let mut s = String::from_str("groups/");
    s.append(id);
    s.append("/clusters/");
    s.append(cluster);
    s.append("/status");
    proof {
        assert(s@ =~= status_path_spec(id@, cluster@));
    }
    s
}

/// The full request line: the base URL and the path, joined with a
/// single slash. The path must not be empty.
pub fn request_uri(base: &str, path: &str) -> (r: String)
    requires
        path@.len() > 0,
    ensures
        r@ == base@ + "/"@ + path@,
{
    let mut s = base.to_owned();
    s.append("/");
    s.append(path);
    proof {
        assert(s@ =~= base@ + "/"@ + path@);
    }
    s
}

} // verus!
