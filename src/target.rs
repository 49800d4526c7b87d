//! Resolving a target specification into a directory and a module name.
use vstd::prelude::*;

use crate::text::{chars_of, file_stem, stem};

verus! {

/// Why a run cannot go on.
#[derive(Clone, Copy, Debug, PartialEq, Eq, Structural)]
pub enum MkError {
    /// The target has no usable final component.
    InvalidTarget,
    /// An event arrived that the current stage of a run does not expect.
    UnexpectedEvent,
}

/// The segments of a target: it is split at each `/` and at each `::`,
/// the latter read from left to right.
pub open spec fn segments(s: Seq<char>) -> Seq<Seq<char>>
    decreases s.len(),
{
    if s.len() == 0 {
        seq![Seq::empty()]
    } else if s[0] == '/' {
        seq![Seq::empty()] + segments(s.skip(1))
    } else if s.len() >= 2 && s[0] == ':' && s[1] == ':' {
        seq![Seq::empty()] + segments(s.skip(2))
    } else {
        let rest = segments(s.skip(1));
        rest.update(0, seq![s[0]] + rest[0])
    }
}

/// `r` with `c` put in front of its first segment.
pub open spec fn prepend_first(c: Seq<char>, r: Seq<Seq<char>>) -> Seq<Seq<char>> {
    r.update(0, c + r[0])
}

/// A segment that names a directory step (neither empty nor `.`).
pub open spec fn is_dir_step(seg: Seq<char>) -> bool {
    seg.len() > 0 && seg != seq!['.']
}

/// The directory steps among `segs`, in order.
pub open spec fn dir_steps(segs: Seq<Seq<char>>) -> Seq<Seq<char>>
    decreases segs.len(),
{
    if segs.len() == 0 {
        segs
    } else if is_dir_step(segs.last()) {
        dir_steps(segs.drop_last()).push(segs.last())
    } else {
        dir_steps(segs.drop_last())
    }
}

/// A final component that can name a module file.
pub open spec fn is_valid_final(seg: Seq<char>) -> bool {
    seg.len() > 0 && seg != seq!['.'] && seg != seq!['.', '.']
}

/// The views of a sequence of strings.
pub open spec fn views(v: Seq<String>) -> Seq<Seq<char>> {
    v.map_values(|s: String| s@)
}

/// The module name that a final component gives, if it gives one.
pub open spec fn module_name_of(seg: Seq<char>) -> Option<Seq<char>> {
    if is_valid_final(seg) {
        Some(stem(seg))
    } else {
        None
    }
}

/// A target resolved against the working directory.
pub struct ResolvedTarget {
    /// Components of the directory that holds the module file, from the root.
    pub dir: Vec<String>,
    /// The module's name: the final component's stem.
    pub name: String,
}

/// The target starts with a separator, `/` or `::`: it names a path from the
/// file-system root rather than one under the working directory.
pub open spec fn is_absolute_target(target: Seq<char>) -> bool {
    (target.len() > 0 && target[0] == '/') || (target.len() >= 2 && target[0] == ':' && target[1]
        == ':')
}

/// The directory a target's steps are taken from: the root for an absolute
/// target, else the working directory.
pub open spec fn base_dir(cwd: Seq<Seq<char>>, target: Seq<char>) -> Seq<Seq<char>> {
    if is_absolute_target(target) {
        Seq::empty()
    } else {
        cwd
    }
}

/// Where a target lands: the components of its base directory followed by the
/// target's directory steps, and the module name; `None` for an invalid target.
pub open spec fn resolution(cwd: Seq<Seq<char>>, target: Seq<char>) -> Option<(Seq<Seq<char>>, Seq<char>)> {
    let segs = segments(target);
    match module_name_of(segs.last()) {
        Some(name) => Some((base_dir(cwd, target) + dir_steps(segs.drop_last()), name)),
        None => None,
    }
}

pub proof fn lemma_views_push(v: Seq<String>, s: String)
    ensures
        views(v.push(s)) == views(v).push(s@),
{
    assert(views(v.push(s)) =~= views(v).push(s@));
}

proof fn lemma_segments_nonempty(s: Seq<char>)
    ensures
        segments(s).len() >= 1,
    decreases s.len(),
{
    if s.len() > 0 {
        lemma_segments_nonempty(s.skip(1));
        if s.len() >= 2 {
            lemma_segments_nonempty(s.skip(2));
        }
    }
}

/// Splits a target into its segments.
pub fn split_target(target: &str) -> (r: Vec<String>)
    ensures
        views(r@) == segments(target@),
{
    let cs = chars_of(target);
    let n = cs.len();
    let mut done: Vec<String> = Vec::new();
    let mut start: usize = 0;
    let mut i: usize = 0;
    proof {
        lemma_segments_nonempty(cs@);
        assert(cs@.skip(0) =~= cs@);
        assert(prepend_first(Seq::empty(), segments(cs@)) =~= segments(cs@));
        assert(views(done@) =~= Seq::empty());
    }
    while i < n
        invariant
            n == cs.len(),
            cs@ == target@,
            start <= i <= n,
            segments(cs@) == views(done@) + prepend_first(
                cs@.subrange(start as int, i as int),
                segments(cs@.skip(i as int)),
            ),
        decreases n - i,
    {
        let ghost cur = cs@.subrange(start as int, i as int);
        let ghost tail = cs@.skip(i as int);
        proof {
            assert(tail[0] == cs@[i as int]);
        }
        if cs[i] == '/' || (cs[i] == ':' && i + 1 < n && cs[i + 1] == ':') {
            let step: usize = if cs[i] == '/' { 1 } else { 2 };
            let seg = target.substring_char(start, i).to_owned();
            let ghost old_done = done@;
            done.push(seg);
            proof {
                let rest = cs@.skip(i + step);
                assert(tail.skip(step as int) =~= rest);
                if step == 2 {
                    assert(tail[1] == cs@[i + 1]);
                }
                assert(segments(tail) == seq![Seq::<char>::empty()] + segments(rest));
                lemma_segments_nonempty(rest);
                assert(prepend_first(Seq::empty(), segments(rest)) =~= segments(rest));
                assert(views(done@) =~= views(old_done).push(cur));
                assert(prepend_first(cur, segments(tail)) =~= seq![cur] + segments(rest));
                assert(cs@.subrange((i + step) as int, (i + step) as int) =~= Seq::<char>::empty());
            }
            i = i + step;
            start = i;
        } else {
            proof {
                let rest = cs@.skip(i + 1);
                assert(tail.skip(1) =~= rest);
                lemma_segments_nonempty(rest);
                if i + 1 < n {
                    assert(tail[1] == cs@[i + 1]);
                }
                let r = segments(rest);
                assert(segments(tail) == r.update(0, seq![cs@[i as int]] + r[0]));
                assert(cs@.subrange(start as int, i + 1) =~= cur + seq![cs@[i as int]]);
                assert(cur + (seq![cs@[i as int]] + r[0]) =~= (cur + seq![cs@[i as int]]) + r[0]);
                assert(prepend_first(cur, segments(tail)) =~= prepend_first(
                    cs@.subrange(start as int, i + 1),
                    segments(rest),
                ));
            }
            i = i + 1;
        }
    }
    let seg = target.substring_char(start, n).to_owned();
    let ghost old_done = done@;
    done.push(seg);
    proof {
        assert(cs@.skip(n as int) =~= Seq::<char>::empty());
        assert(views(done@) =~= views(old_done).push(cs@.subrange(start as int, n as int)));
        assert(prepend_first(cs@.subrange(start as int, n as int), segments(Seq::empty()))
            =~= seq![cs@.subrange(start as int, n as int)]);
        assert(segments(cs@) =~= views(done@));
    }
    done
}

/// The module name of a final component: its stem, or `InvalidTarget` when
/// the component is empty, `.` or `..`.
pub fn extract_module_name(last: &str) -> (r: Result<String, MkError>)
    ensures
        module_name_of(last@) is None ==> r == Err::<String, MkError>(MkError::InvalidTarget),
        module_name_of(last@) matches Some(name) ==> (r matches Ok(s) && s@ == name),
{
    let cs = chars_of(last);
    let n = cs.len();
    let valid = if n == 0 {
        false
    } else if n == 1 {
        cs[0] != '.'
    } else if n == 2 {
        !(cs[0] == '.' && cs[1] == '.')
    } else {
        true
    };
    proof {
        if n == 1 && !valid {
            assert(cs@ =~= seq!['.']);
        }
        if n == 2 && !valid {
            assert(cs@ =~= seq!['.', '.']);
        }
        if n == 2 && cs@ == seq!['.', '.'] {
            assert(cs@[0] == '.' && cs@[1] == '.');
        }
        if n == 1 && cs@ == seq!['.'] {
            assert(cs@[0] == '.');
        }
    }
    if valid {
        Ok(file_stem(last))
    } else {
        Err(MkError::InvalidTarget)
    }
}

/// Whether `target` starts with a separator.
pub fn is_absolute(target: &str) -> (r: bool)
    ensures
        r == is_absolute_target(target@),
{
    let cs = chars_of(target);
    (cs.len() > 0 && cs[0] == '/') || (cs.len() >= 2 && cs[0] == ':' && cs[1] == ':')
}

/// The directory of a target whose segments are `segs`: the components of its
/// base directory (the root when the target starts with a separator, else the
/// working directory `cwd`) followed by the directory steps among the segments
/// before the last.
pub fn build_target_path(cwd: &Vec<String>, target: &str, segs: &Vec<String>) -> (r: Vec<String>)
    requires
        segs.len() >= 1,
    ensures
        views(r@) == base_dir(views(cwd@), target@) + dir_steps(views(segs@).drop_last()),
{
    let mut r = if is_absolute(target) {
        Vec::new()
    } else {
        prefix(cwd, cwd.len())
    };
    proof {
        assert(views(Seq::<String>::empty()) =~= Seq::<Seq<char>>::empty());
    }
    proof {
        assert(views(cwd@).take(cwd.len() as int) =~= views(cwd@));
    }
    let ghost base = views(r@);
    let last = segs.len() - 1;
    let mut i: usize = 0;
    let ghost front = views(segs@).drop_last();
    proof {
        assert(front.take(0) =~= Seq::<Seq<char>>::empty());
        assert(base + dir_steps(front.take(0)) =~= base);
    }
    while i < last
        invariant
            last == segs.len() - 1,
            i <= last,
            front == views(segs@).drop_last(),
            base == base_dir(views(cwd@), target@),
            views(r@) == base + dir_steps(front.take(i as int)),
        decreases last - i,
    {
        let seg: &String = &segs[i];
        let cs = chars_of(seg.as_str());
        let keep = cs.len() > 1 || (cs.len() == 1 && cs[0] != '.');
        let ghost old_r = r@;
        proof {
            assert(front.take(i + 1).drop_last() =~= front.take(i as int));
            assert(front.take(i + 1).last() == seg@);
            if cs.len() == 1 && seg@ == seq!['.'] {
                assert(cs@[0] == '.');
            }
            if cs.len() == 1 && !keep {
                assert(cs@ =~= seq!['.']);
            }
            if cs.len() > 1 {
                assert(seg@ != seq!['.']);
            }
            assert(keep == is_dir_step(seg@));
        }
        if keep {
            r.push(seg.clone());
            proof {
                lemma_views_push(old_r, *seg);
            }
        }
        i = i + 1;
    }
    proof {
        assert(front.take(last as int) =~= front);
    }
    r
}

/// Resolves `target` against the working directory `cwd`.
pub fn resolve_target(cwd: &Vec<String>, target: &str) -> (r: Result<ResolvedTarget, MkError>)
    ensures
        resolution(views(cwd@), target@) is None ==> r == Err::<ResolvedTarget, MkError>(MkError::InvalidTarget),
        resolution(views(cwd@), target@) matches Some((dir, name)) ==> (r matches Ok(t) && views(t.dir@) == dir && t.name@ == name),
{
    let segs = split_target(target);
    proof {
        lemma_segments_nonempty(target@);
    }
    let last: &String = &segs[segs.len() - 1];
    proof {
        assert(views(segs@).last() == last@);
    }
    match extract_module_name(last.as_str()) {
        Ok(name) => {
            let dir = build_target_path(cwd, target, &segs);
            Ok(ResolvedTarget { dir, name })
        },
        Err(e) => Err(e),
    }
}

/// The first `k` strings of `v`, copied.
pub fn prefix(v: &Vec<String>, k: usize) -> (r: Vec<String>)
    requires
        k <= v.len(),
    ensures
        views(r@) == views(v@).take(k as int),
{
    let mut r: Vec<String> = Vec::new();
    let mut i: usize = 0;
    while i < k
        invariant
            k <= v.len(),
            i <= k,
            views(r@) == views(v@).take(i as int),
        decreases k - i,
    {
        let ghost old_r = r@;
        r.push(v[i].clone());
        proof {
            lemma_views_push(old_r, v@[i as int]);
            assert(views(v@).take(i + 1) =~= views(v@).take(i as int).push(v@[i as int]@));
        }
        i = i + 1;
    }
    r
}

} // verus!
