//! The directories above a directory, nearest first: where a git
//! repository's root is looked for.

use crate::text::{opt_view, owned, views};
use vstd::prelude::*;

verus! {

/// What `std::path::Path::parent` gives for a path: the path without its
/// final component, `None` for a root or an empty path.
pub uninterp spec fn path_parent(path: Seq<char>) -> Option<Seq<char>>;

/// `std::path::Path::parent`, as a string. Claimed: the result is
/// `path_parent(path)`, a function of the path alone, and, being the path
/// without a final component, shorter than the path. The parent of a
/// string path is a prefix of it, so it is a string too.
#[verifier::external_body]
fn parent_of(path: &str) -> (r: Option<String>)
    ensures
        opt_view(r) == path_parent(path@),
        r matches Some(p) ==> p@.len() < path@.len(),
{
    std::path::Path::new(path).parent().and_then(|p| p.to_str()).map(|p| p.to_string())
}

/// `path`, then its parent, the parent's parent and so on, to the first
/// path without a parent.
pub open spec fn ancestors(path: Seq<char>) -> Seq<Seq<char>>
    decreases path.len(),
{
    match path_parent(path) {
        Some(p) => if p.len() < path.len() {
            seq![path] + ancestors(p)
        } else {
            seq![path]
        },
        None => seq![path],
    }
}

/// The directories where a git repository's root is looked for, from
/// `start` upwards: `start`, its parent, and so on up to the root.
pub fn git_root_candidates(start: &str) -> (r: Vec<String>)
    ensures
        views(r@) == ancestors(start@),
{
    let mut r: Vec<String> = Vec::new();
    let mut current = owned(start);
    loop
        invariant
            views(r@) + ancestors(current@) == ancestors(start@),
        decreases current@.len(),
    {
        let ghost before = views(r@);
        r.push(current.clone());
        assert(views(r@) =~= before.push(current@));
        match parent_of(current.as_str()) {
            Some(p) => {
                assert(ancestors(current@) == seq![current@] + ancestors(p@));
                assert(views(r@) + ancestors(p@) =~= before + ancestors(current@));
                current = p;
            },
            None => {
                assert(ancestors(current@) == seq![current@]);
                assert(views(r@) =~= before + ancestors(current@));
                return r;
            },
        }
    }
}

} // verus!
