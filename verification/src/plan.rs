//! Where plans are kept.
//!
//! Each user has a directory directly under the root, and the plan is the
//! file `.plan` in it. The root is the root of the file system once the
//! process is confined to its root directory, and that directory itself
//! otherwise. The listing of the users and the lookup of one user's plan
//! go by the same paths.

use crate::config::{Config, ConfigView};
use crate::text::chars_of;
use vstd::prelude::*;

verus! {

/// The path of the entry `name` of the directory `dir`: a slash stands
/// between them unless `dir` is empty or ends with one.
pub open spec fn entry_path(dir: Seq<char>, name: Seq<char>) -> Seq<char> {
    if dir.len() == 0 || dir.last() == '/' {
        dir + name
    } else {
        dir + "/"@ + name
    }
}

/// The path of the plan of the user whose directory is the entry `name` of
/// `dir`.
pub open spec fn plan_path_in(dir: Seq<char>, name: Seq<char>) -> Seq<char> {
    entry_path(dir, name) + "/.plan"@
}

/// The path of the plan of the user `name`.
pub open spec fn plan_path_of(config: ConfigView, name: Seq<char>) -> Seq<char> {
    plan_path_in(config.listing_root(), name)
}

/// The plan paths of the users `names`.
pub open spec fn user_paths(config: ConfigView, names: Seq<Seq<char>>) -> Seq<Seq<char>> {
    names.map_values(|name: Seq<char>| plan_path_of(config, name))
}

/// The names in `names`, as texts.
pub open spec fn name_views(names: Seq<String>) -> Seq<Seq<char>> {
    names.map_values(|name: String| name@)
}

/// The path of the plan of the user `name`.
pub fn plan_path(config: &Config, name: &str) -> (path: String)
    ensures
        path@ == plan_path_of(config@, name@),
{
    let root = config.listing_root();
    plan_path_under(root.as_str(), name)
}

/// The path of the plan of the user whose directory is the entry `name` of
/// `dir`.
pub fn plan_path_under(dir: &str, name: &str) -> (path: String)
    ensures
        path@ == plan_path_in(dir@, name@),
{
    let d = chars_of(dir);
    let mut path = String::from_str(dir);
    if d.len() > 0 && d[d.len() - 1] != '/' {
        path.append("/");
    }
    path.append(name);
    path.append("/.plan");
    path
}

/// The plan paths to look for, one for each of the directory entries
/// `names` of the listing root.
pub fn users(config: &Config, names: &Vec<String>) -> (paths: Vec<String>)
    ensures
        name_views(paths@) == user_paths(config@, name_views(names@)),
{
    let mut paths: Vec<String> = Vec::new();
    let mut i: usize = 0;
    while i < names.len()
        invariant
            i <= names.len(),
            paths.len() == i,
            forall|k: int|
                0 <= k < i ==> (#[trigger] paths@[k])@ == plan_path_of(config@, names@[k]@),
        decreases names.len() - i,
    {
        paths.push(plan_path(config, names[i].as_str()));
        i += 1;
    }
    assert(name_views(paths@) =~= user_paths(config@, name_views(names@)));
    paths
}

/// Once the process is confined to its root, the plan of a user is the file
/// `/<name>/.plan`.
pub proof fn lemma_plan_path_when_confined(config: ConfigView, name: Seq<char>)
    requires
        config.chroot,
    ensures
        plan_path_of(config, name) == "/"@ + name + "/.plan"@,
{
    reveal_strlit("/");
    assert("/"@.last() == '/');
}

} // verus!
