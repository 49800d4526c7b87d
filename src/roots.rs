//! The three canonical root files that hold module declarations.
use vstd::prelude::*;

use crate::text::{chars_of, same_chars};

verus! {

/// A canonical root file, by the stem of its name.
#[derive(Clone, Copy, Debug, PartialEq, Eq, Structural)]
pub enum RootName {
    /// `mod.rs`: a directory taken as one module.
    Mod,
    /// `lib.rs`: the root of a library crate.
    Lib,
    /// `main.rs`: the root of a binary crate.
    Main,
}

pub open spec fn mod_stem() -> Seq<char> {
    seq!['m', 'o', 'd']
}

pub open spec fn lib_stem() -> Seq<char> {
    seq!['l', 'i', 'b']
}

pub open spec fn main_stem() -> Seq<char> {
    seq!['m', 'a', 'i', 'n']
}

/// The extension of a source file name, dot included.
pub open spec fn rs_suffix() -> Seq<char> {
    seq!['.', 'r', 's']
}

/// A root that heads a whole module tree and is declared nowhere.
pub open spec fn is_unnested_root(s: Seq<char>) -> bool {
    s == lib_stem() || s == main_stem()
}

/// One of the three canonical root stems.
pub open spec fn is_root_stem(s: Seq<char>) -> bool {
    s == mod_stem() || is_unnested_root(s)
}

impl RootName {
    pub open spec fn spec_stem(self) -> Seq<char> {
        match self {
            RootName::Mod => mod_stem(),
            RootName::Lib => lib_stem(),
            RootName::Main => main_stem(),
        }
    }

    /// The file name of this root: its stem and the source extension.
    pub fn file_name(self) -> (r: String)
        ensures
            r@ == self.spec_stem() + rs_suffix(),
    {
        let s = match self {
            RootName::Mod => "mod.rs",
            RootName::Lib => "lib.rs",
            RootName::Main => "main.rs",
        };
        proof {
            reveal_strlit("mod.rs");
            reveal_strlit("lib.rs");
            reveal_strlit("main.rs");
            assert(mod_stem() + rs_suffix() =~= "mod.rs"@);
            assert(lib_stem() + rs_suffix() =~= "lib.rs"@);
            assert(main_stem() + rs_suffix() =~= "main.rs"@);
        }
        s.to_owned()
    }
}

/// Whether `name` is the stem of a canonical root file.
pub fn is_root_name(name: &str) -> (r: bool)
    ensures
        r == is_root_stem(name@),
{
    let cs = chars_of(name);
    proof {
        reveal_strlit("mod");
        reveal_strlit("lib");
        reveal_strlit("main");
        assert(mod_stem() =~= "mod"@);
        assert(lib_stem() =~= "lib"@);
        assert(main_stem() =~= "main"@);
    }
    same_chars(&cs, "mod") || same_chars(&cs, "lib") || same_chars(&cs, "main")
}

/// Whether `name` is the stem of a root that heads a module tree.
pub fn is_unnested_root_name(name: &str) -> (r: bool)
    ensures
        r == is_unnested_root(name@),
{
    let cs = chars_of(name);
    proof {
        reveal_strlit("lib");
        reveal_strlit("main");
        assert(lib_stem() =~= "lib"@);
        assert(main_stem() =~= "main"@);
    }
    same_chars(&cs, "lib") || same_chars(&cs, "main")
}

/// Whether `name` is the stem of the folder root, `mod`.
pub fn is_folder_root_name(name: &str) -> (r: bool)
    ensures
        r == (name@ == mod_stem()),
{
    let cs = chars_of(name);
    proof {
        reveal_strlit("mod");
        assert(mod_stem() =~= "mod"@);
    }
    same_chars(&cs, "mod")
}

} // verus!
