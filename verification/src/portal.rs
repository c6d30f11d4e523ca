//! The dangerous-path guard used when a scene is built: portals to paths
//! that people cannot afford to lose are sealed.

use vstd::prelude::*;

verus! {

/// What `std::path::Path::parent` returns for the path spelled by the given
/// characters, as text (`None` for a root or an empty path).
pub uninterp spec fn path_parent(path: Seq<char>) -> Option<Seq<char>>;

/// Whether `std::path::Path`'s `==` holds between the two paths spelled by
/// the given characters (it compares the paths component by component).
pub uninterp spec fn path_eq(a: Seq<char>, b: Seq<char>) -> bool;

/// Calls `std::path::Path::parent` on `path` and hands back the parent as a
/// string. Trusted: the result is claimed to be `path_parent(path@)`;
/// nothing more of it is stated.
#[verifier::external_body]
fn parent_of(path: &str) -> (parent: Option<String>)
    ensures
        match parent {
            Some(q) => path_parent(path@) == Some(q@),
            None => path_parent(path@) is None,
        },
{
    let q = std::path::Path::new(path).parent()?;
    Some(q.to_str()?.to_string())
}

/// Compares the paths spelled by `a` and `b` with `std::path::Path`'s `==`.
/// Trusted: the result is claimed to be `path_eq(a@, b@)`; nothing more of
/// it is stated.
#[verifier::external_body]
fn same_path(a: &str, b: &str) -> (eq: bool)
    ensures
        eq == path_eq(a@, b@),
{
    std::path::Path::new(a) == std::path::Path::new(b)
}

/// Whether `p` is a path whose portal gets a seal, given the user's home
/// directory `home` (if known): the filesystem root (a path without a
/// parent), the home directory itself, and any direct child of it.
pub open spec fn spec_is_dangerous_path(p: Seq<char>, home: Option<Seq<char>>) -> bool {
    ||| path_parent(p) is None
    ||| match home {
        Some(h) => path_eq(p, h) || (path_parent(p) matches Some(q) && path_eq(q, h)),
        None => false,
    }
}

/// The seal decision from the three facts about a path: it is a root (has
/// no parent), it is the home directory, its parent is the home directory.
pub fn seal_from(is_root: bool, is_home: bool, parent_is_home: bool) -> (sealed: bool)
    ensures
        sealed == (is_root || is_home || parent_is_home),
{
    is_root || is_home || parent_is_home
}

/// Predicate used at scene-build time to mark irrecoverable portals as
/// sealed: the filesystem root, `home` itself and any direct child of
/// `home` (such as `~/Documents`), where people actually lose work.
pub fn is_dangerous_path(p: &str, home: Option<&str>) -> (dangerous: bool)
    ensures
        dangerous == spec_is_dangerous_path(p@, match home {
            Some(h) => Some(h@),
            None => None,
        }),
{
    let parent = parent_of(p);
    let is_root = parent.is_none();
    let (is_home, parent_is_home) = match home {
        Some(h) => {
            let is_home = same_path(p, h);
            let parent_is_home = match &parent {
                Some(q) => same_path(q.as_str(), h),
                None => false,
            };
            (is_home, parent_is_home)
        },
        None => (false, false),
    };
    seal_from(is_root, is_home, parent_is_home)
}

/// The home directory as the environment gives it: `HOME` if it is set and
/// not empty, else `USERPROFILE` if it is set and not empty, else none.
pub open spec fn spec_home_dir(home_var: Option<Seq<char>>, user_profile_var: Option<Seq<char>>) -> Option<
    Seq<char>,
> {
    if home_var matches Some(h) && h.len() > 0 {
        home_var
    } else if user_profile_var matches Some(u) && u.len() > 0 {
        user_profile_var
    } else {
        None
    }
}

/// Pick the home directory from the values of the `HOME` and `USERPROFILE`
/// environment variables (`None` where a variable is unset).
pub fn home_dir_from(home_var: Option<String>, user_profile_var: Option<String>) -> (home: Option<
    String,
>)
    ensures
        (match home {
            Some(h) => Some(h@),
            None => None,
        }) == spec_home_dir(
            match home_var {
                Some(h) => Some(h@),
                None => None,
            },
            match user_profile_var {
                Some(u) => Some(u@),
                None => None,
            },
        ),
{
    if let Some(h) = home_var {
        if !h.as_str().is_empty() {
            return Some(h);
        }
    }
    if let Some(u) = user_profile_var {
        if !u.as_str().is_empty() {
            return Some(u);
        }
    }
    None
}

/// The root is always dangerous, and so are the home directory and its
/// direct children, whatever the home directory is.
pub proof fn lemma_root_home_and_children_sealed(p: Seq<char>, h: Seq<char>)
    ensures
        path_parent(p) is None ==> spec_is_dangerous_path(p, Some(h)) && spec_is_dangerous_path(
            p,
            None,
        ),
        path_eq(p, h) ==> spec_is_dangerous_path(p, Some(h)),
        (path_parent(p) matches Some(q) && path_eq(q, h)) ==> spec_is_dangerous_path(p, Some(h)),
{
}

/// Only those paths are sealed: a path that has a parent, is not the home
/// directory and whose parent is not the home directory is not dangerous;
/// without a known home directory, only parentless paths are.
pub proof fn lemma_only_root_home_and_children_sealed(p: Seq<char>, home: Option<Seq<char>>)
    ensures
        spec_is_dangerous_path(p, home) <==> (path_parent(p) is None || (home matches Some(h) && (
        path_eq(p, h) || (path_parent(p) matches Some(q) && path_eq(q, h))))),
        home is None ==> (spec_is_dangerous_path(p, home) <==> path_parent(p) is None),
{
}

/// A non-empty `HOME` always wins, whatever `USERPROFILE` holds; otherwise
/// a non-empty `USERPROFILE` is used; with neither, no home is known.
pub proof fn lemma_home_dir_choice(home_var: Option<Seq<char>>, user_profile_var: Option<Seq<char>>)
    ensures
        (home_var matches Some(h) && h.len() > 0) ==> spec_home_dir(home_var, user_profile_var)
            == home_var,
        !(home_var matches Some(h) && h.len() > 0) ==> spec_home_dir(home_var, user_profile_var)
            == (if user_profile_var matches Some(u) && u.len() > 0 {
            user_profile_var
        } else {
            None
        }),
        spec_home_dir(home_var, user_profile_var) matches Some(r) ==> r.len() > 0,
{
}

} // verus!
