//! Declarations that a freshly created root file gets for its siblings.
use vstd::prelude::*;

use crate::declare::{decl_line, declaration_line};
use crate::roots::{is_root_name, is_root_stem};
use crate::text::{file_stem, has_rs_extension, is_rs_file_name, occurs_in, stem};

verus! {

/// One immediate child of the directory that a root file is created in.
pub struct DirEntry {
    /// The child's file name.
    pub name: String,
    /// The child is a directory.
    pub is_dir: bool,
    /// The child is a directory that holds a regular file `mod.rs`.
    pub has_mod_root: bool,
}

/// The module an entry stands for: a source file, or a directory that holds
/// a folder root, named by its stem, unless that stem is a canonical root's.
pub open spec fn entry_module(e: DirEntry) -> Option<Seq<char>> {
    let eligible = if e.is_dir {
        e.has_mod_root
    } else {
        has_rs_extension(e.name@)
    };
    if eligible && !is_root_stem(stem(e.name@)) {
        Some(stem(e.name@))
    } else {
        None
    }
}

/// The declaration lines for `entries`, one per module they stand for, in
/// their order.
pub open spec fn populated(entries: Seq<DirEntry>, public: bool) -> Seq<char>
    decreases entries.len(),
{
    if entries.len() == 0 {
        Seq::empty()
    } else {
        populated(entries.drop_last(), public) + match entry_module(entries.last()) {
            Some(m) => decl_line(m, public),
            None => Seq::empty(),
        }
    }
}

/// The module name that `entry` stands for, if any.
pub fn entry_module_name(entry: &DirEntry) -> (r: Option<String>)
    ensures
        entry_module(*entry) is None <==> r is None,
        entry_module(*entry) matches Some(m) ==> (r matches Some(s) && s@ == m),
{
    let eligible = if entry.is_dir {
        entry.has_mod_root
    } else {
        is_rs_file_name(entry.name.as_str())
    };
    if !eligible {
        return None;
    }
    let name = file_stem(entry.name.as_str());
    if is_root_name(name.as_str()) {
        None
    } else {
        Some(name)
    }
}

/// The text appended to a new root file: a declaration line for each entry
/// that stands for a module, in the order of `entries`.
pub fn populate_root_module(entries: &Vec<DirEntry>, public: bool) -> (r: String)
    ensures
        r@ == populated(entries@, public),
{
    let mut r = String::new();
    let mut i: usize = 0;
    while i < entries.len()
        invariant
            i <= entries.len(),
            r@ == populated(entries@.take(i as int), public),
        decreases entries.len() - i,
    {
        proof {
            assert(entries@.take(i + 1).drop_last() =~= entries@.take(i as int));
        }
        match entry_module_name(&entries[i]) {
            Some(m) => {
                let line = declaration_line(m.as_str(), public);
                r.append(line.as_str());
            },
            None => {
                assert(r@ =~= r@ + Seq::<char>::empty());
            },
        }
        i = i + 1;
    }
    proof {
        assert(entries@.take(entries.len() as int) =~= entries@);
    }
    r
}

/// What `a + b` gives is what `a` gives followed by what `b` gives.
pub proof fn lemma_populated_concat(a: Seq<DirEntry>, b: Seq<DirEntry>, public: bool)
    ensures
        populated(a + b, public) == populated(a, public) + populated(b, public),
    decreases b.len(),
{
    if b.len() == 0 {
        assert(a + b =~= a);
        assert(populated(a, public) + Seq::<char>::empty() =~= populated(a, public));
    } else {
        assert((a + b).drop_last() =~= a + b.drop_last());
        assert((a + b).last() == b.last());
        lemma_populated_concat(a, b.drop_last(), public);
        let tail = match entry_module(b.last()) {
            Some(m) => decl_line(m, public),
            None => Seq::<char>::empty(),
        };
        assert(populated(a, public) + populated(b.drop_last(), public) + tail =~= populated(
            a,
            public,
        ) + (populated(b.drop_last(), public) + tail));
    }
}

/// Every entry that stands for a module gets its declaration line, and an
/// entry that does not (a canonical root stem, a file that is no source file,
/// a directory without a folder root) leaves the text as it would be without it.
pub proof fn lemma_populate_membership(
    before: Seq<DirEntry>,
    e: DirEntry,
    after: Seq<DirEntry>,
    public: bool,
)
    ensures
        entry_module(e) matches Some(m) ==> occurs_in(
            decl_line(m, public),
            populated(before + seq![e] + after, public),
        ),
        entry_module(e) is None ==> populated(before + seq![e] + after, public) == populated(
            before + after,
            public,
        ),
        is_root_stem(stem(e.name@)) ==> entry_module(e) is None,
        !e.is_dir && !has_rs_extension(e.name@) ==> entry_module(e) is None,
        e.is_dir && !e.has_mod_root ==> entry_module(e) is None,
{
    let one = seq![e];
    lemma_populated_concat(before + one, after, public);
    lemma_populated_concat(before, one, public);
    lemma_populated_concat(before, after, public);
    assert(one.drop_last() =~= Seq::<DirEntry>::empty());
    assert(populated(one, public) == populated(Seq::<DirEntry>::empty(), public) + match entry_module(e) {
        Some(m) => decl_line(m, public),
        None => Seq::<char>::empty(),
    });
    let whole = populated(before + one + after, public);
    let pb = populated(before, public);
    match entry_module(e) {
        Some(m) => {
            let l = decl_line(m, public);
            assert(populated(one, public) =~= l);
            let i = pb.len() as int;
            assert(whole =~= pb + l + populated(after, public));
            assert(whole.subrange(i, i + l.len()) =~= l);
        },
        None => {
            assert(populated(one, public) =~= Seq::<char>::empty());
            assert(pb + populated(one, public) =~= pb);
        },
    }
}

/// The module names that `entries` stand for, in their order.
pub open spec fn modules(entries: Seq<DirEntry>) -> Seq<Seq<char>>
    decreases entries.len(),
{
    if entries.len() == 0 {
        Seq::empty()
    } else {
        modules(entries.drop_last()) + match entry_module(entries.last()) {
            Some(m) => seq![m],
            None => Seq::empty(),
        }
    }
}

/// One declaration line per name, in order.
pub open spec fn lines(names: Seq<Seq<char>>, public: bool) -> Seq<char>
    decreases names.len(),
{
    if names.len() == 0 {
        Seq::empty()
    } else {
        lines(names.drop_last(), public) + decl_line(names.last(), public)
    }
}

/// Line by line, the text for a new root file declares exactly the modules
/// that the entries stand for: each declared name is the stem of an eligible
/// entry (a source file, or a directory holding a folder root) and no
/// canonical root stem, and each eligible entry's stem is declared.
pub proof fn lemma_populate_lines(entries: Seq<DirEntry>, public: bool)
    ensures
        populated(entries, public) == lines(modules(entries), public),
        forall|k: int|
            0 <= k < modules(entries).len() ==> {
                &&& !is_root_stem(#[trigger] modules(entries)[k])
                &&& exists|i: int|
                    0 <= i < entries.len() && entry_module(#[trigger] entries[i]) == Some(
                        modules(entries)[k],
                    )
            },
        forall|i: int|
            0 <= i < entries.len() && (#[trigger] entry_module(entries[i])) is Some
                ==> modules(entries).contains(entry_module(entries[i])->0),
    decreases entries.len(),
{
    if entries.len() > 0 {
        let front = entries.drop_last();
        lemma_populate_lines(front, public);
        let mf = modules(front);
        let m = modules(entries);
        match entry_module(entries.last()) {
            Some(x) => {
                assert(m.drop_last() =~= mf);
                assert(m.last() == x);
            },
            None => {
                assert(m =~= mf);
            },
        }
        assert forall|k: int| 0 <= k < m.len() implies {
            &&& !is_root_stem(#[trigger] m[k])
            &&& exists|i: int| 0 <= i < entries.len() && entry_module(#[trigger] entries[i]) == Some(m[k])
        } by {
            if k < mf.len() {
                assert(m[k] == mf[k]);
                let i = choose|i: int| 0 <= i < front.len() && entry_module(#[trigger] front[i]) == Some(mf[k]);
                assert(entries[i] == front[i]);
            } else {
                assert(entries[entries.len() - 1] == entries.last());
            }
        }
        assert forall|i: int|
            0 <= i < entries.len() && (#[trigger] entry_module(entries[i])) is Some implies m.contains(
            entry_module(entries[i])->0,
        ) by {
            if i < front.len() {
                assert(entries[i] == front[i]);
                let j = choose|j: int| 0 <= j < mf.len() && mf[j] == entry_module(front[i])->0;
                assert(m[j] == mf[j]);
            } else {
                assert(m[m.len() - 1] == entry_module(entries[i])->0);
            }
        }
    }
}

} // verus!
