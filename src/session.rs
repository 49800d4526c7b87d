//! One run of the tool, as a machine that decides each next file-system
//! action from the outcome of the previous one.
use vstd::prelude::*;

use crate::declare::{addition, declare_module};
use crate::locate::{find_parent, parent_file_of, search_dir, search_dir_of, RootPresence};
use crate::populate::{populate_root_module, populated, DirEntry};
use crate::roots::{is_root_name, is_root_stem, is_unnested_root, rs_suffix};
use crate::target::{
    lemma_views_push, prefix, resolution, resolve_target, views, MkError, ResolvedTarget,
};

verus! {

/// Where a run stands.
#[derive(Clone, Copy, Debug, PartialEq, Eq, Structural)]
pub enum Stage {
    /// Not started.
    Begin,
    /// Waiting for the target's directory to exist.
    MakingDirs,
    /// Waiting to learn which roots the searched directory holds.
    Probing,
    /// Waiting for the parent file's text.
    ReadingParent,
    /// Waiting for the declaration to be appended to the parent.
    AppendingParent,
    /// Waiting for the module file to be written with the header.
    CreatingFile,
    /// Waiting for the listing of the new root file's directory.
    Listing,
    /// Waiting for the sibling declarations to be appended.
    Populating,
    /// Done.
    Finished,
    /// Stopped on an error.
    Failed,
}

/// What the surroundings report back after carrying out an action.
pub enum Event {
    /// The run is started.
    Start,
    /// The last action that changes the file system succeeded.
    Completed,
    /// Which canonical roots exist in the directory probed.
    Probed(RootPresence),
    /// The text of the parent file.
    ParentText(String),
    /// The immediate children of the directory listed, in the order to
    /// declare them.
    Listed(Vec<DirEntry>),
}

/// What the surroundings are asked to do next. Paths are component lists
/// from the file-system root.
pub enum Action {
    /// Create the directory and its missing ancestors.
    CreateDirs(Vec<String>),
    /// Report which canonical root files are regular files in the directory.
    ProbeRoots(Vec<String>),
    /// Read the whole text of the file.
    ReadFile(Vec<String>),
    /// Append the text to the existing file.
    AppendFile(Vec<String>, String),
    /// Create the file, or truncate it, and write exactly the text.
    CreateFile(Vec<String>, String),
    /// List the immediate children of the directory.
    ListDir(Vec<String>),
    /// The run is over and succeeded.
    Finish,
    /// The run is over and failed.
    Fail(MkError),
}

/// The mathematical form of an action.
pub enum Plan {
    CreateDirs(Seq<Seq<char>>),
    ProbeRoots(Seq<Seq<char>>),
    ReadFile(Seq<Seq<char>>),
    AppendFile(Seq<Seq<char>>, Seq<char>),
    CreateFile(Seq<Seq<char>>, Seq<char>),
    ListDir(Seq<Seq<char>>),
    Finish,
    Fail(MkError),
}

impl View for Action {
    type V = Plan;

    open spec fn view(&self) -> Plan {
        match self {
            Action::CreateDirs(d) => Plan::CreateDirs(views(d@)),
            Action::ProbeRoots(d) => Plan::ProbeRoots(views(d@)),
            Action::ReadFile(f) => Plan::ReadFile(views(f@)),
            Action::AppendFile(f, t) => Plan::AppendFile(views(f@), t@),
            Action::CreateFile(f, t) => Plan::CreateFile(views(f@), t@),
            Action::ListDir(d) => Plan::ListDir(views(d@)),
            Action::Finish => Plan::Finish,
            Action::Fail(e) => Plan::Fail(*e),
        }
    }
}

/// The state of one run: its inputs, its stage, and the parent file once
/// one was found.
pub struct Session {
    /// Components of the working directory, from the root.
    pub cwd: Vec<String>,
    /// The target specification, as given.
    pub target: String,
    /// Declarations are written public.
    pub public: bool,
    /// The text every new module file starts with.
    pub header: String,
    pub stage: Stage,
    /// Components of the parent file, from the root.
    pub parent: Vec<String>,
}

/// The path of module `name`'s file in directory `dir`.
pub open spec fn file_of(dir: Seq<Seq<char>>, name: Seq<char>) -> Seq<Seq<char>> {
    dir.push(name + rs_suffix())
}

/// The event fits the stage.
pub open spec fn expects(stage: Stage, e: Event) -> bool {
    match (stage, e) {
        (Stage::Begin, Event::Start) => true,
        (Stage::MakingDirs, Event::Completed) => true,
        (Stage::Probing, Event::Probed(_)) => true,
        (Stage::ReadingParent, Event::ParentText(_)) => true,
        (Stage::AppendingParent, Event::Completed) => true,
        (Stage::CreatingFile, Event::Completed) => true,
        (Stage::Listing, Event::Listed(_)) => true,
        (Stage::Populating, Event::Completed) => true,
        _ => false,
    }
}

/// The step that creates the module file with the header.
pub open spec fn creating(
    s: Session,
    dir: Seq<Seq<char>>,
    name: Seq<char>,
) -> (Stage, Seq<Seq<char>>, Plan) {
    (Stage::CreatingFile, views(s.parent@), Plan::CreateFile(file_of(dir, name), s.header@))
}

/// The next stage, parent file and action of session `s` on event `e`.
pub open spec fn step(s: Session, e: Event) -> (Stage, Seq<Seq<char>>, Plan) {
    let kept = views(s.parent@);
    if !expects(s.stage, e) {
        (Stage::Failed, kept, Plan::Fail(MkError::UnexpectedEvent))
    } else {
        match resolution(views(s.cwd@), s.target@) {
            None => (Stage::Failed, kept, Plan::Fail(MkError::InvalidTarget)),
            Some((dir, name)) => match e {
                Event::Start => (Stage::MakingDirs, kept, Plan::CreateDirs(dir)),
                Event::Probed(p) => match parent_file_of(dir, name, p) {
                    Some(f) => (Stage::ReadingParent, f, Plan::ReadFile(f)),
                    None => creating(s, dir, name),
                },
                Event::ParentText(c) => match addition(c@, name, s.public) {
                    Some(line) => (Stage::AppendingParent, kept, Plan::AppendFile(kept, line)),
                    None => creating(s, dir, name),
                },
                Event::Listed(es) => (
                    Stage::Populating,
                    kept,
                    Plan::AppendFile(file_of(dir, name), populated(es@, s.public)),
                ),
                Event::Completed => match s.stage {
                    Stage::MakingDirs => match search_dir_of(dir, name) {
                        Some(d) => (Stage::Probing, kept, Plan::ProbeRoots(d)),
                        None => creating(s, dir, name),
                    },
                    Stage::CreatingFile => if is_root_stem(name) {
                        (Stage::Listing, kept, Plan::ListDir(dir))
                    } else {
                        (Stage::Finished, kept, Plan::Finish)
                    },
                    Stage::Populating => (Stage::Finished, kept, Plan::Finish),
                    _ => creating(s, dir, name),
                },
            },
        }
    }
}

impl Session {
    /// A run that has not started yet.
    pub fn new(cwd: Vec<String>, target: String, public: bool, header: String) -> (r: Session)
        ensures
            r.cwd == cwd,
            r.target == target,
            r.public == public,
            r.header == header,
            r.stage == Stage::Begin,
            r.parent@.len() == 0,
    {
        Session { cwd, target, public, header, stage: Stage::Begin, parent: Vec::new() }
    }
}

/// The path of module `name`'s file in directory `dir`.
fn module_file(dir: &Vec<String>, name: &String) -> (r: Vec<String>)
    ensures
        views(r@) == file_of(views(dir@), name@),
{
    let mut r = prefix(dir, dir.len());
    assert(views(dir@).take(dir.len() as int) =~= views(dir@));
    let mut file = name.clone();
    file.append(".rs");
    proof {
        reveal_strlit(".rs");
        assert(file@ =~= name@ + rs_suffix());
    }
    let ghost old_r = r@;
    r.push(file);
    proof {
        lemma_views_push(old_r, file);
    }
    r
}

/// Takes session `s` one step on event `e`: the stage moves on, the parent
/// file is kept or set, and the action returned is the next one to carry out.
pub fn run(s: &mut Session, e: Event) -> (a: Action)
    ensures
        (final(s).stage, views(final(s).parent@), a@) == step(*old(s), e),
        final(s).cwd == old(s).cwd,
        final(s).target == old(s).target,
        final(s).public == old(s).public,
        final(s).header == old(s).header,
{
    let fits = match (s.stage, &e) {
        (Stage::Begin, Event::Start) => true,
        (Stage::MakingDirs, Event::Completed) => true,
        (Stage::Probing, Event::Probed(_)) => true,
        (Stage::ReadingParent, Event::ParentText(_)) => true,
        (Stage::AppendingParent, Event::Completed) => true,
        (Stage::CreatingFile, Event::Completed) => true,
        (Stage::Listing, Event::Listed(_)) => true,
        (Stage::Populating, Event::Completed) => true,
        _ => false,
    };
    if !fits {
        s.stage = Stage::Failed;
        return Action::Fail(MkError::UnexpectedEvent);
    }
    let t = match resolve_target(&s.cwd, s.target.as_str()) {
        Ok(t) => t,
        Err(err) => {
            s.stage = Stage::Failed;
            return Action::Fail(err);
        },
    };
    match e {
        Event::Start => {
            s.stage = Stage::MakingDirs;
            Action::CreateDirs(t.dir)
        },
        Event::Probed(p) => match find_parent(&t, p) {
            Some(f) => {
                s.stage = Stage::ReadingParent;
                s.parent = prefix(&f, f.len());
                assert(views(f@).take(f.len() as int) =~= views(f@));
                Action::ReadFile(f)
            },
            None => start_creating(s, &t),
        },
        Event::ParentText(c) => match declare_module(c.as_str(), t.name.as_str(), s.public) {
            Some(line) => {
                s.stage = Stage::AppendingParent;
                let f = prefix(&s.parent, s.parent.len());
                assert(views(s.parent@).take(s.parent.len() as int) =~= views(s.parent@));
                Action::AppendFile(f, line)
            },
            None => start_creating(s, &t),
        },
        Event::Listed(es) => {
            s.stage = Stage::Populating;
            let text = populate_root_module(&es, s.public);
            Action::AppendFile(module_file(&t.dir, &t.name), text)
        },
        Event::Completed => match s.stage {
            Stage::MakingDirs => match search_dir(&t) {
                Some(d) => {
                    s.stage = Stage::Probing;
                    Action::ProbeRoots(d)
                },
                None => start_creating(s, &t),
            },
            Stage::CreatingFile => if is_root_name(t.name.as_str()) {
                s.stage = Stage::Listing;
                Action::ListDir(t.dir)
            } else {
                s.stage = Stage::Finished;
                Action::Finish
            },
            Stage::Populating => {
                s.stage = Stage::Finished;
                Action::Finish
            },
            _ => start_creating(s, &t),
        },
    }
}

/// Moves session `s` to the creation of the module file of `t`.
fn start_creating(s: &mut Session, t: &ResolvedTarget) -> (a: Action)
    ensures
        (final(s).stage, views(final(s).parent@), a@) == creating(*old(s), views(t.dir@), t.name@),
        final(s).cwd == old(s).cwd,
        final(s).target == old(s).target,
        final(s).public == old(s).public,
        final(s).header == old(s).header,
        final(s).parent == old(s).parent,
{
    s.stage = Stage::CreatingFile;
    Action::CreateFile(module_file(&t.dir, &t.name), s.header.clone())
}

/// Whenever a step moves to the creation of the module file, the action
/// writes exactly the header to the file of the resolved target, whatever the
/// file held before.
pub proof fn lemma_create_writes_header(s: Session, e: Event)
    ensures
        step(s, e).0 == Stage::CreatingFile ==> (resolution(views(s.cwd@), s.target@) matches Some(
            (dir, name),
        ) && step(s, e).2 == Plan::CreateFile(file_of(dir, name), s.header@)),
{
}

/// For a root that heads a module tree, the step after the directories exist
/// goes straight to creating the file: no parent is probed, read or changed.
pub proof fn lemma_unnested_root_skips_parent(s: Session)
    requires
        s.stage == Stage::MakingDirs,
        resolution(views(s.cwd@), s.target@) matches Some((dir, name)) && is_unnested_root(name),
    ensures
        step(s, Event::Completed).0 == Stage::CreatingFile,
{
}

} // verus!
