//! Finding the root file that must declare a new module.
use vstd::prelude::*;

use crate::roots::{
    is_folder_root_name, is_unnested_root, is_unnested_root_name, lib_stem, main_stem, mod_stem,
    rs_suffix, RootName,
};
use crate::target::{lemma_views_push, prefix, views, ResolvedTarget};

verus! {

/// Which canonical root files exist as regular files in one directory.
#[derive(Clone, Copy, Debug, PartialEq, Eq, Structural)]
pub struct RootPresence {
    pub mod_rs: bool,
    pub lib_rs: bool,
    pub main_rs: bool,
}

/// The directory in which the declaring root file of module `name`, whose
/// file lies in `dir`, is looked for: none for a root that heads a module
/// tree, the grandparent for the folder root, else `dir` itself.
pub open spec fn search_dir_of(dir: Seq<Seq<char>>, name: Seq<char>) -> Option<Seq<Seq<char>>> {
    if is_unnested_root(name) {
        None
    } else if name == mod_stem() {
        if dir.len() > 0 {
            Some(dir.drop_last())
        } else {
            None
        }
    } else {
        Some(dir)
    }
}

/// The first present root in the order `mod.rs`, `lib.rs`, `main.rs`.
pub open spec fn first_present(p: RootPresence) -> Option<RootName> {
    if p.mod_rs {
        Some(RootName::Mod)
    } else if p.lib_rs {
        Some(RootName::Lib)
    } else if p.main_rs {
        Some(RootName::Main)
    } else {
        None
    }
}

/// The path of the file that declares module `name` of directory `dir`,
/// given which roots are present in the directory searched.
pub open spec fn parent_file_of(dir: Seq<Seq<char>>, name: Seq<char>, p: RootPresence) -> Option<
    Seq<Seq<char>>,
> {
    match (search_dir_of(dir, name), first_present(p)) {
        (Some(d), Some(root)) => Some(d.push(root.spec_stem() + rs_suffix())),
        _ => None,
    }
}

/// The directory to probe for the root file that declares `target`.
pub fn search_dir(target: &ResolvedTarget) -> (r: Option<Vec<String>>)
    ensures
        search_dir_of(views(target.dir@), target.name@) is None <==> r is None,
        search_dir_of(views(target.dir@), target.name@) matches Some(d) ==> (r matches Some(v)
            && views(v@) == d),
{
    let n = target.dir.len();
    if is_unnested_root_name(target.name.as_str()) {
        None
    } else if is_folder_root_name(target.name.as_str()) {
        if n > 0 {
            let r = prefix(&target.dir, n - 1);
            assert(views(target.dir@).take(n - 1) =~= views(target.dir@).drop_last());
            Some(r)
        } else {
            None
        }
    } else {
        let r = prefix(&target.dir, n);
        assert(views(target.dir@).take(n as int) =~= views(target.dir@));
        Some(r)
    }
}

/// The root file that declares `target`, given which canonical roots are
/// present in the directory that `search_dir` gives.
pub fn find_parent(target: &ResolvedTarget, present: RootPresence) -> (r: Option<Vec<String>>)
    ensures
        parent_file_of(views(target.dir@), target.name@, present) is None <==> r is None,
        parent_file_of(views(target.dir@), target.name@, present) matches Some(f) ==> (r matches Some(
            v,
        ) && views(v@) == f),
{
    let root = if present.mod_rs {
        RootName::Mod
    } else if present.lib_rs {
        RootName::Lib
    } else if present.main_rs {
        RootName::Main
    } else {
        return None;
    };
    match search_dir(target) {
        Some(mut d) => {
            let ghost old_d = d@;
            let file = root.file_name();
            d.push(file);
            proof {
                lemma_views_push(old_d, file);
            }
            Some(d)
        },
        None => None,
    }
}

/// The folder root is looked for in the grandparent of its directory, never in
/// that directory itself, and what is found there is a file of the grandparent.
pub proof fn lemma_folder_root_searches_grandparent(dir: Seq<Seq<char>>, p: RootPresence)
    requires
        dir.len() > 0,
    ensures
        search_dir_of(dir, mod_stem()) == Some(dir.drop_last()),
        parent_file_of(dir, mod_stem(), p) matches Some(f) ==> f.drop_last() == dir.drop_last(),
        first_present(p) is Some ==> parent_file_of(dir, mod_stem(), p) is Some,
{
    assert(!is_unnested_root(mod_stem())) by {
        assert(mod_stem()[0] != lib_stem()[0]);
        assert(mod_stem().len() != main_stem().len());
    }
}

/// A root that heads a module tree has no parent file, whatever is present.
pub proof fn lemma_unnested_root_has_no_parent(dir: Seq<Seq<char>>, name: Seq<char>, p: RootPresence)
    requires
        is_unnested_root(name),
    ensures
        search_dir_of(dir, name) is None,
        parent_file_of(dir, name, p) is None,
{
}

} // verus!
