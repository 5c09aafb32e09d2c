//! Bringing a mirror up to date, one file operation after another.

use vstd::hash_set::StringHashSet;
use vstd::prelude::*;

use crate::paths;
use crate::flow::Program;
use crate::sync;
use crate::sync::exchange::{Content, FileContent, Response, SyncResponse, SyncSummary};
use crate::sync::{Fault, WikiSyncError};
use crate::sync::{LOCAL_MIRROR_GITIGNORE_CONTENT, LOCAL_MIRROR_GITIGNORE_PATH};
use crate::text;
use crate::views;

verus! {

/// The paths of files that a response brings.
pub open spec fn brought(upserts: Seq<Content>) -> Set<Seq<char>> {
    Set::new(|path: Seq<char>| exists|i: int| 0 <= i < upserts.len() && upserts[i].path == path)
}

/// Whether a response removes a path: it is neither brought by the same response nor the marker.
pub open spec fn removes(sync: Response, path: Seq<char>) -> bool {
    !brought(sync.upserts).contains(path) && !sync::is_control(path)
}

/// How many files a response brings, apart from the marker.
pub open spec fn updated_count(sync: Response) -> nat {
    sync.upserts.filter(|file: Content| !sync::is_control(file.path)).len()
}

/// How many paths a response removes.
pub open spec fn deleted_count(sync: Response) -> nat {
    sync.deletes.filter(|path: Seq<char>| removes(sync, path)).len()
}

/// How many files a response changes in all.
pub open spec fn total_count(sync: Response) -> nat {
    updated_count(sync) + deleted_count(sync)
}

fn brought_set(upserts: &Vec<FileContent>) -> (res: StringHashSet)
    ensures
        res@ == brought(upserts.deep_view()),
{
    let ghost all = upserts.deep_view();
    let n: usize = upserts.len();
    let mut set = StringHashSet::new();
    let mut i: usize = 0;
    assert(set@ =~= brought(all.take(0)));
    while i < n
        invariant
            n == upserts@.len(),
            i <= n,
            all == upserts.deep_view(),
            set@ == brought(all.take(i as int)),
        decreases n - i,
    {
        let ghost before = set@;
        set.insert(upserts[i].path.clone());
        proof {
            let head = all.take(i + 1);
            assert(head[i as int] == upserts@[i as int].deep_view());
            assert forall|path: Seq<char>| #[trigger]
                brought(head).contains(path) == before.insert(head[i as int].path).contains(
                    path,
                ) by {
                if before.contains(path) {
                    let k = choose|k: int|
                        0 <= k < all.take(i as int).len() && all.take(i as int)[k].path == path;
                    assert(head[k].path == path);
                }
                if brought(head).contains(path) {
                    let k = choose|k: int| 0 <= k < head.len() && head[k].path == path;
                    if k < i {
                        assert(all.take(i as int)[k].path == path);
                    }
                }
            }
            assert(set@ =~= brought(head));
        }
        i = i + 1;
    }
    assert(all.take(n as int) =~= all);
    set
}

impl SyncResponse {
    /// How many files the response changes.
    pub fn summary(&self) -> (res: SyncSummary)
        ensures
            res.updated == updated_count(self.deep_view()),
            res.deleted == deleted_count(self.deep_view()),
            res.updated + res.deleted == total_count(self.deep_view()),
    {
        let ghost sync = self.deep_view();
        let set = brought_set(&self.upserts);
        let n: usize = self.upserts.len();
        let ghost f = |file: Content| !sync::is_control(file.path);
        let mut updated: usize = 0;
        let mut i: usize = 0;
        proof {
            reveal(Seq::filter);
            assert(sync.upserts.take(0) =~= Seq::empty());
        }
        while i < n
            invariant
                n == self.upserts@.len(),
                i <= n,
                sync == self.deep_view(),
                f == (|file: Content| !sync::is_control(file.path)),
                updated == sync.upserts.take(i as int).filter(f).len(),
                updated <= i,
            decreases n - i,
        {
            proof {
                reveal(Seq::filter);
                assert(sync.upserts.take(i + 1).drop_last() =~= sync.upserts.take(i as int));
                assert(sync.upserts.take(i + 1).last() == self.upserts@[i as int].deep_view());
            }
            if !sync::is_local_mirror_control_path(self.upserts[i].path.as_str()) {
                updated = updated + 1;
            }
            i = i + 1;
        }
        let m: usize = self.deletes.len();
        let ghost g = |path: Seq<char>| removes(sync, path);
        let mut deleted: usize = 0;
        let mut j: usize = 0;
        proof {
            reveal(Seq::filter);
            assert(sync.deletes.take(0) =~= Seq::empty());
        }
        while j < m
            invariant
                m == self.deletes@.len(),
                j <= m,
                sync == self.deep_view(),
                set@ == brought(sync.upserts),
                g == (|path: Seq<char>| removes(sync, path)),
                deleted == sync.deletes.take(j as int).filter(g).len(),
                deleted <= j,
            decreases m - j,
        {
            proof {
                reveal(Seq::filter);
                assert(sync.deletes.take(j + 1).drop_last() =~= sync.deletes.take(j as int));
                assert(sync.deletes.take(j + 1).last() == self.deletes@[j as int]@);
            }
            let path = self.deletes[j].as_str();
            if !set.contains(path) && !sync::is_local_mirror_control_path(path) {
                deleted = deleted + 1;
            }
            j = j + 1;
        }
        assert(sync.upserts.take(n as int) =~= sync.upserts);
        assert(sync.deletes.take(m as int) =~= sync.deletes);
        SyncSummary { updated, deleted }
    }
}

impl SyncSummary {
    /// How many files a synchronisation changes in all.
    pub fn total(self) -> (res: usize)
        requires
            self.updated + self.deleted <= usize::MAX,
        ensures
            res == self.updated + self.deleted,
    {
        self.updated + self.deleted
    }
}

/// Whether a path that the server sent stays inside the mirror: relative, and without `..`.
pub open spec fn relative_check(path: Seq<char>) -> Result<(), Fault> {
    if paths::is_absolute(path) {
        Err(WikiSyncError::AbsolutePath(path))
    } else if paths::components(path).contains(seq!['.', '.']) {
        Err(WikiSyncError::ParentDir(path))
    } else {
        Ok(())
    }
}

/// Whether a path that the server sent stays inside the mirror.
pub fn validate_relative_path(relative: &str) -> (res: Result<(), WikiSyncError>)
    ensures
        views::outcome(res) == relative_check(relative@),
{
    if paths::absolute(relative) {
        return Err(WikiSyncError::AbsolutePath(relative.to_string()));
    }
    let parts = paths::component_list(relative);
    let n: usize = parts.len();
    let mut i: usize = 0;
    proof {
        reveal_strlit("..");
        assert(".."@ =~= seq!['.', '.']);
    }
    while i < n
        invariant
            n == parts@.len(),
            i <= n,
            parts.deep_view() == paths::components(relative@),
            !paths::is_absolute(relative@),
            ".."@ == seq!['.', '.'],
            forall|k: int| 0 <= k < i ==> paths::components(relative@)[k] != seq!['.', '.'],
        decreases n - i,
    {
        assert(parts.deep_view()[i as int] == parts@[i as int]@);
        if text::same(parts[i].as_str(), "..") {
            return Err(WikiSyncError::ParentDir(relative.to_string()));
        }
        i = i + 1;
    }
    Ok(())
}

/// What was found at the place of a mirror.
#[derive(Debug, PartialEq, Eq)]
pub struct MirrorFound<S = String> {
    pub exists: bool,
    /// What its marker holds, where that could be read.
    pub marker: Option<S>,
}

impl DeepView for MirrorFound<String> {
    type V = MirrorFound<Seq<char>>;

    open spec fn deep_view(&self) -> MirrorFound<Seq<char>> {
        MirrorFound { exists: self.exists, marker: self.marker.deep_view() }
    }
}

/// Whether a directory may be used as a mirror: it does not exist yet, or bears the marker.
pub open spec fn safe_check(wiki_path: Seq<char>, found: MirrorFound<Seq<char>>) -> Result<
    (),
    Fault,
> {
    if !found.exists || found.marker == Some(LOCAL_MIRROR_GITIGNORE_CONTENT@) {
        Ok(())
    } else {
        Err(WikiSyncError::UnsafeLocalMirrorPath { path: wiki_path })
    }
}

/// Whether a directory may be used as a mirror.
pub fn ensure_local_mirror_safe(wiki_path: &str, found: &MirrorFound) -> (res: Result<
    (),
    WikiSyncError,
>)
    ensures
        views::outcome(res) == safe_check(wiki_path@, found.deep_view()),
{
    if !found.exists {
        return Ok(());
    }
    let marked = match &found.marker {
        Some(marker) => text::same(marker.as_str(), LOCAL_MIRROR_GITIGNORE_CONTENT),
        None => false,
    };
    if marked {
        Ok(())
    } else {
        Err(WikiSyncError::UnsafeLocalMirrorPath { path: wiki_path.to_string() })
    }
}

/// An operation on files.
#[derive(Debug, PartialEq, Eq)]
pub enum FileAction<S = String> {
    /// Look whether a mirror exists, and what its marker holds.
    Inspect { path: S },
    /// Create a directory and those above it.
    CreateDirs { path: S },
    /// Resolve a path to the one that the file system knows.
    Canonicalize { path: S },
    Write { path: S, content: S },
    Remove { path: S },
}

/// The reply to an operation.
#[derive(Debug, PartialEq, Eq)]
pub enum FileReply<S = String> {
    Done,
    Found(MirrorFound<S>),
    Canonical(S),
    /// There is no such file, with the reason as the system puts it.
    Missing(S),
    Failed(S),
}

/// An operation by its views.
pub type Op = FileAction<Seq<char>>;

/// A reply by its views.
pub type Rep = FileReply<Seq<char>>;

/// A flow of operations that may fail.
pub type Ops = Program<FileAction<Seq<char>>, FileReply<Seq<char>>, Result<(), Fault>>;

impl DeepView for FileAction<String> {
    type V = FileAction<Seq<char>>;

    open spec fn deep_view(&self) -> FileAction<Seq<char>> {
        match self {
            FileAction::Inspect { path } => FileAction::Inspect { path: path@ },
            FileAction::CreateDirs { path } => FileAction::CreateDirs { path: path@ },
            FileAction::Canonicalize { path } => FileAction::Canonicalize { path: path@ },
            FileAction::Write { path, content } => FileAction::Write {
                path: path@,
                content: content@,
            },
            FileAction::Remove { path } => FileAction::Remove { path: path@ },
        }
    }
}

impl DeepView for FileReply<String> {
    type V = FileReply<Seq<char>>;

    open spec fn deep_view(&self) -> FileReply<Seq<char>> {
        match self {
            FileReply::Done => FileReply::Done,
            FileReply::Found(found) => FileReply::Found(found.deep_view()),
            FileReply::Canonical(path) => FileReply::Canonical(path@),
            FileReply::Missing(reason) => FileReply::Missing(reason@),
            FileReply::Failed(reason) => FileReply::Failed(reason@),
        }
    }
}

/// The reason why an operation failed, where it did.
pub open spec fn refusal(reply: Rep) -> Option<Seq<char>> {
    match reply {
        FileReply::Missing(reason) => Some(reason),
        FileReply::Failed(reason) => Some(reason),
        _ => None,
    }
}

/// The flow that fails because of a file.
pub open spec fn io_failure(path: Seq<char>, reason: Seq<char>) -> Ops {
    Program::Return(Err(WikiSyncError::Io { path, reason }))
}

/// Brings a mirror up to date: where it may be used as one, files are written, files are removed,
/// and the marker is written last.
pub open spec fn updating(wiki_path: Seq<char>, sync: Response) -> Ops {
    Program::Do {
        action: FileAction::Inspect { path: wiki_path },
        then: |reply: Rep| inspected(wiki_path, sync, reply),
    }
}

/// What follows the look at the mirror.
pub open spec fn inspected(wiki_path: Seq<char>, sync: Response, reply: Rep) -> Ops {
    let found = match reply {
        FileReply::Found(found) => found,
        _ => MirrorFound { exists: true, marker: None },
    };
    match safe_check(wiki_path, found) {
        Err(e) => Program::Return(Err(e)),
        Ok(u) => create_step(wiki_path, sync),
    }
}

/// Creates the mirror's directory.
pub open spec fn create_step(wiki_path: Seq<char>, sync: Response) -> Ops {
    Program::Do {
        action: FileAction::CreateDirs { path: wiki_path },
        then: |reply: Rep| created(wiki_path, sync, reply),
    }
}

/// What follows the creation of the mirror's directory.
pub open spec fn created(wiki_path: Seq<char>, sync: Response, reply: Rep) -> Ops {
    match refusal(reply) {
        Some(reason) => io_failure(wiki_path, reason),
        None => locate_step(wiki_path, sync),
    }
}

/// Resolves the mirror's path.
pub open spec fn locate_step(wiki_path: Seq<char>, sync: Response) -> Ops {
    Program::Do {
        action: FileAction::Canonicalize { path: wiki_path },
        then: |reply: Rep| located(wiki_path, sync, reply),
    }
}

/// What follows the resolution of the mirror's path.
pub open spec fn located(wiki_path: Seq<char>, sync: Response, reply: Rep) -> Ops {
    match reply {
        FileReply::Canonical(base) => writing(base, sync, 0),
        FileReply::Missing(reason) => io_failure(wiki_path, reason),
        FileReply::Failed(reason) => io_failure(wiki_path, reason),
        _ => writing(wiki_path, sync, 0),
    }
}

/// Writes the files of a response from one on, then goes on to those it removes.
pub open spec fn writing(base: Seq<char>, sync: Response, i: int) -> Ops
    decreases sync.upserts.len() - i, 3int,
{
    if i < 0 || i >= sync.upserts.len() {
        removing(base, sync, 0)
    } else if sync::is_control(sync.upserts[i].path) {
        writing(base, sync, i + 1)
    } else {
        match relative_check(sync.upserts[i].path) {
            Err(e) => Program::Return(Err(e)),
            Ok(u) => match paths::parent_of(paths::join_path(base, sync.upserts[i].path)) {
                Some(parent) => parent_step(base, sync, i, parent),
                None => write_step(base, sync, i),
            },
        }
    }
}

/// Creates the directory above a file.
pub open spec fn parent_step(base: Seq<char>, sync: Response, i: int, parent: Seq<char>) -> Ops
    decreases sync.upserts.len() - i, 2int,
{
    Program::Do {
        action: FileAction::CreateDirs { path: parent },
        then: |reply: Rep| parented(base, sync, i, parent, reply),
    }
}

/// What follows the creation of the directory above a file.
pub open spec fn parented(
    base: Seq<char>,
    sync: Response,
    i: int,
    parent: Seq<char>,
    reply: Rep,
) -> Ops
    decreases sync.upserts.len() - i, 1int,
{
    match refusal(reply) {
        Some(reason) => io_failure(parent, reason),
        None => write_step(base, sync, i),
    }
}

/// Writes a file.
pub open spec fn write_step(base: Seq<char>, sync: Response, i: int) -> Ops
    decreases sync.upserts.len() - i, 0int,
{
    if i < 0 || i >= sync.upserts.len() {
        removing(base, sync, 0)
    } else {
        Program::Do {
            action: FileAction::Write {
                path: paths::join_path(base, sync.upserts[i].path),
                content: sync.upserts[i].content,
            },
            then: |reply: Rep|
                match refusal(reply) {
                    Some(reason) => io_failure(
                        paths::join_path(base, sync.upserts[i].path),
                        reason,
                    ),
                    None => writing(base, sync, i + 1),
                },
        }
    }
}

/// Removes the files of a response from one on, then writes the marker.
pub open spec fn removing(base: Seq<char>, sync: Response, j: int) -> Ops
    decreases sync.deletes.len() - j, 3int,
{
    if j < 0 || j >= sync.deletes.len() {
        marking(base)
    } else if !removes(sync, sync.deletes[j]) {
        removing(base, sync, j + 1)
    } else {
        match relative_check(sync.deletes[j]) {
            Err(e) => Program::Return(Err(e)),
            Ok(u) => check_step(base, sync, j),
        }
    }
}

/// Resolves a path to remove.
pub open spec fn check_step(base: Seq<char>, sync: Response, j: int) -> Ops
    decreases sync.deletes.len() - j, 2int,
{
    Program::Do {
        action: FileAction::Canonicalize { path: paths::join_path(base, sync.deletes[j]) },
        then: |reply: Rep| checked(base, sync, j, reply),
    }
}

/// What follows the resolution of a path to remove: one that is gone is passed over, one that leads
/// out of the mirror fails the flow.
pub open spec fn checked(base: Seq<char>, sync: Response, j: int, reply: Rep) -> Ops
    decreases sync.deletes.len() - j, 1int,
{
    if j < 0 || j >= sync.deletes.len() {
        marking(base)
    } else {
        let target = paths::join_path(base, sync.deletes[j]);
        match reply {
            FileReply::Missing(reason) => removing(base, sync, j + 1),
            FileReply::Failed(reason) => io_failure(target, reason),
            _ => {
                let canonical = match reply {
                    FileReply::Canonical(path) => path,
                    _ => target,
                };
                if !paths::lies_in(canonical, base) {
                    Program::Return(Err(WikiSyncError::EscapedPath(sync.deletes[j])))
                } else {
                    remove_step(base, sync, j)
                }
            },
        }
    }
}

/// Removes a file.
pub open spec fn remove_step(base: Seq<char>, sync: Response, j: int) -> Ops
    decreases sync.deletes.len() - j, 0int,
{
    if j < 0 || j >= sync.deletes.len() {
        marking(base)
    } else {
        Program::Do {
            action: FileAction::Remove { path: paths::join_path(base, sync.deletes[j]) },
            then: |reply: Rep|
                match refusal(reply) {
                    Some(reason) => io_failure(paths::join_path(base, sync.deletes[j]), reason),
                    None => removing(base, sync, j + 1),
                },
        }
    }
}

/// Writes the marker.
pub open spec fn marking(base: Seq<char>) -> Ops {
    let target = paths::join_path(base, LOCAL_MIRROR_GITIGNORE_PATH@);
    Program::Do {
        action: FileAction::Write { path: target, content: LOCAL_MIRROR_GITIGNORE_CONTENT@ },
        then: |reply: Rep|
            match refusal(reply) {
                Some(reason) => io_failure(target, reason),
                None => Program::Return(Ok(())),
            },
    }
}

/// Where an update stands.
#[derive(Debug, PartialEq, Eq)]
enum Stage {
    Inspecting,
    Creating,
    Locating,
    Parenting { base: String, i: usize, parent: String },
    Writing { base: String, i: usize },
    Checking { base: String, j: usize },
    Removing { base: String, j: usize },
    Marking { base: String },
    Over(Result<(), WikiSyncError>),
}

/// An update of a mirror that is under way.
pub struct MirrorUpdate {
    wiki_path: String,
    sync: SyncResponse,
    brought: StringHashSet,
    stage: Stage,
}

impl MirrorUpdate {
    /// The mirror that is updated.
    pub closed spec fn mirror(self) -> Seq<char> {
        self.wiki_path@
    }

    /// The response that is applied.
    pub closed spec fn response(self) -> Response {
        self.sync.deep_view()
    }

    #[verifier::type_invariant]
    spec fn wf(self) -> bool {
        &&& self.brought@ == brought(self.sync.deep_view().upserts)
        &&& match self.stage {
            Stage::Parenting { base, i, parent } => i < self.sync.upserts@.len(),
            Stage::Writing { base, i } => i < self.sync.upserts@.len(),
            Stage::Checking { base, j } => j < self.sync.deletes@.len(),
            Stage::Removing { base, j } => j < self.sync.deletes@.len(),
            _ => true,
        }
    }

    /// What is left to do.
    pub closed spec fn rest(self) -> Ops {
        let sync = self.sync.deep_view();
        match self.stage {
            Stage::Inspecting => updating(self.wiki_path@, sync),
            Stage::Creating => create_step(self.wiki_path@, sync),
            Stage::Locating => locate_step(self.wiki_path@, sync),
            Stage::Parenting { base, i, parent } => parent_step(base@, sync, i as int, parent@),
            Stage::Writing { base, i } => write_step(base@, sync, i as int),
            Stage::Checking { base, j } => check_step(base@, sync, j as int),
            Stage::Removing { base, j } => remove_step(base@, sync, j as int),
            Stage::Marking { base } => marking(base@),
            Stage::Over(outcome) => Program::Return(views::outcome(outcome)),
        }
    }

    /// The update of a mirror with a response, before its first operation.
    pub fn new(wiki_path: &str, sync: SyncResponse) -> (res: Self)
        ensures
            res.mirror() == wiki_path@,
            res.response() == sync.deep_view(),
            res.rest() == updating(wiki_path@, sync.deep_view()),
    {
        let brought = brought_set(&sync.upserts);
        MirrorUpdate {
            wiki_path: wiki_path.to_string(),
            sync,
            brought,
            stage: Stage::Inspecting,
        }
    }

    /// The next operation, or none where the update is over.
    pub fn next(&self) -> (res: Option<FileAction>)
        ensures
            match self.rest() {
                Program::Do { action, then } => res.deep_view() == Some(action),
                Program::Return(_) => res is None,
            },
    {
        proof {
            use_type_invariant(self);
        }
        match &self.stage {
            Stage::Inspecting => Some(FileAction::Inspect { path: self.wiki_path.clone() }),
            Stage::Creating => Some(FileAction::CreateDirs { path: self.wiki_path.clone() }),
            Stage::Locating => Some(FileAction::Canonicalize { path: self.wiki_path.clone() }),
            Stage::Parenting { base: _, i: _, parent } => Some(
                FileAction::CreateDirs { path: parent.clone() },
            ),
            Stage::Writing { base, i } => {
                let file = &self.sync.upserts[*i];
                assert(self.sync.deep_view().upserts[*i as int] == file.deep_view());
                Some(
                    FileAction::Write {
                        path: paths::join(base.as_str(), file.path.as_str()),
                        content: file.content.clone(),
                    },
                )
            },
            Stage::Checking { base, j } => {
                assert(self.sync.deep_view().deletes[*j as int] == self.sync.deletes@[*j as int]@);
                Some(
                    FileAction::Canonicalize {
                        path: paths::join(base.as_str(), self.sync.deletes[*j].as_str()),
                    },
                )
            },
            Stage::Removing { base, j } => {
                assert(self.sync.deep_view().deletes[*j as int] == self.sync.deletes@[*j as int]@);
                Some(
                    FileAction::Remove {
                        path: paths::join(base.as_str(), self.sync.deletes[*j].as_str()),
                    },
                )
            },
            Stage::Marking { base } => Some(
                FileAction::Write {
                    path: paths::join(base.as_str(), LOCAL_MIRROR_GITIGNORE_PATH),
                    content: LOCAL_MIRROR_GITIGNORE_CONTENT.to_string(),
                },
            ),
            Stage::Over(_) => None,
        }
    }

    /// The outcome of an update that is over.
    pub fn outcome(self) -> (res: Option<Result<(), WikiSyncError>>)
        ensures
            match self.rest() {
                Program::Do { action, then } => res is None,
                Program::Return(outcome) => res matches Some(r) && views::outcome(r) == outcome,
            },
    {
        proof {
            use_type_invariant(&self);
        }
        match self.stage {
            Stage::Over(outcome) => Some(outcome),
            _ => None,
        }
    }

    fn at(wiki_path: String, sync: SyncResponse, brought_paths: StringHashSet, stage: Stage) -> (res:
        Self)
        requires
            brought_paths@ == brought(sync.deep_view().upserts),
            match stage {
                Stage::Parenting { base, i, parent } => i < sync.upserts@.len(),
                Stage::Writing { base, i } => i < sync.upserts@.len(),
                Stage::Checking { base, j } => j < sync.deletes@.len(),
                Stage::Removing { base, j } => j < sync.deletes@.len(),
                _ => true,
            },
        ensures
            res == (MirrorUpdate { wiki_path, sync, brought: brought_paths, stage }),
    {
        MirrorUpdate { wiki_path, sync, brought: brought_paths, stage }
    }

    fn remove_from(
        wiki_path: String,
        sync: SyncResponse,
        brought_paths: StringHashSet,
        base: String,
        start: usize,
    ) -> (res: Self)
        requires
            brought_paths@ == brought(sync.deep_view().upserts),
        ensures
            res.mirror() == wiki_path@,
            res.response() == sync.deep_view(),
            res.rest() == removing(base@, sync.deep_view(), start as int),
    {
        let ghost view = sync.deep_view();
        let n: usize = sync.deletes.len();
        let mut j: usize = start;
        while j < n
            invariant
                n == sync.deletes@.len(),
                view == sync.deep_view(),
                brought_paths@ == brought(view.upserts),
                removing(base@, view, start as int) == removing(base@, view, j as int),
            decreases n - j,
        {
            let path = sync.deletes[j].as_str();
            assert(view.deletes[j as int] == path@);
            if !brought_paths.contains(path) && !sync::is_local_mirror_control_path(path) {
                let stage = match validate_relative_path(path) {
                    Err(e) => Stage::Over(Err(e)),
                    Ok(()) => Stage::Checking { base, j },
                };
                return MirrorUpdate::at(wiki_path, sync, brought_paths, stage);
            }
            j = j + 1;
        }
        MirrorUpdate::at(wiki_path, sync, brought_paths, Stage::Marking { base })
    }

    fn write_from(
        wiki_path: String,
        sync: SyncResponse,
        brought_paths: StringHashSet,
        base: String,
        start: usize,
    ) -> (res: Self)
        requires
            brought_paths@ == brought(sync.deep_view().upserts),
        ensures
            res.mirror() == wiki_path@,
            res.response() == sync.deep_view(),
            res.rest() == writing(base@, sync.deep_view(), start as int),
    {
        let ghost view = sync.deep_view();
        let n: usize = sync.upserts.len();
        let mut i: usize = start;
        while i < n
            invariant
                n == sync.upserts@.len(),
                view == sync.deep_view(),
                brought_paths@ == brought(view.upserts),
                writing(base@, view, start as int) == writing(base@, view, i as int),
            decreases n - i,
        {
            let path = sync.upserts[i].path.as_str();
            assert(view.upserts[i as int] == sync.upserts@[i as int].deep_view());
            if !sync::is_local_mirror_control_path(path) {
                let stage = match validate_relative_path(path) {
                    Err(e) => Stage::Over(Err(e)),
                    Ok(()) => match paths::parent(paths::join(base.as_str(), path).as_str()) {
                        Some(parent) => Stage::Parenting { base, i, parent },
                        None => Stage::Writing { base, i },
                    },
                };
                return MirrorUpdate::at(wiki_path, sync, brought_paths, stage);
            }
            i = i + 1;
        }
        MirrorUpdate::remove_from(wiki_path, sync, brought_paths, base, 0)
    }

    /// The update after the reply to its operation. One that is over stays so.
    pub fn resume(self, reply: FileReply) -> (res: Self)
        ensures
            res.mirror() == self.mirror(),
            res.response() == self.response(),
            match self.rest() {
                Program::Do { action, then } => res.rest() == then(reply.deep_view()),
                Program::Return(_) => res.rest() == self.rest(),
            },
    {
        proof {
            use_type_invariant(&self);
        }
        let MirrorUpdate { wiki_path, sync, brought: set, stage } = self;
        let ghost view = sync.deep_view();
        assert(sync.upserts@.len() == sync.upserts.len());
        assert(sync.deletes@.len() == sync.deletes.len());
        match stage {
            Stage::Inspecting => {
                let found = match reply {
                    FileReply::Found(found) => found,
                    _ => MirrorFound { exists: true, marker: None },
                };
                let stage = match ensure_local_mirror_safe(wiki_path.as_str(), &found) {
                    Ok(()) => Stage::Creating,
                    Err(e) => Stage::Over(Err(e)),
                };
                MirrorUpdate::at(wiki_path, sync, set, stage)
            },
            Stage::Creating => {
                let stage = match refused(reply) {
                    Some(reason) => Stage::Over(
                        Err(WikiSyncError::Io { path: wiki_path.clone(), reason }),
                    ),
                    None => Stage::Locating,
                };
                MirrorUpdate::at(wiki_path, sync, set, stage)
            },
            Stage::Locating => match reply {
                FileReply::Canonical(base) => MirrorUpdate::write_from(
                    wiki_path,
                    sync,
                    set,
                    base,
                    0,
                ),
                FileReply::Missing(reason) => {
                    let path = wiki_path.clone();
                    MirrorUpdate::at(
                        wiki_path,
                        sync,
                        set,
                        Stage::Over(Err(WikiSyncError::Io { path, reason })),
                    )
                },
                FileReply::Failed(reason) => {
                    let path = wiki_path.clone();
                    MirrorUpdate::at(
                        wiki_path,
                        sync,
                        set,
                        Stage::Over(Err(WikiSyncError::Io { path, reason })),
                    )
                },
                _ => {
                    let base = wiki_path.clone();
                    MirrorUpdate::write_from(wiki_path, sync, set, base, 0)
                },
            },
            Stage::Parenting { base, i, parent } => {
                let stage = match refused(reply) {
                    Some(reason) => Stage::Over(Err(WikiSyncError::Io { path: parent, reason })),
                    None => Stage::Writing { base, i },
                };
                MirrorUpdate::at(wiki_path, sync, set, stage)
            },
            Stage::Writing { base, i } => match refused(reply) {
                Some(reason) => {
                    assert(view.upserts[i as int] == sync.upserts@[i as int].deep_view());
                    let path = paths::join(base.as_str(), sync.upserts[i].path.as_str());
                    MirrorUpdate::at(
                        wiki_path,
                        sync,
                        set,
                        Stage::Over(Err(WikiSyncError::Io { path, reason })),
                    )
                },
                None => MirrorUpdate::write_from(wiki_path, sync, set, base, i + 1),
            },
            Stage::Checking { base, j } => {
                assert(view.deletes[j as int] == sync.deletes@[j as int]@);
                let target = paths::join(base.as_str(), sync.deletes[j].as_str());
                match reply {
                    FileReply::Missing(_) => MirrorUpdate::remove_from(
                        wiki_path,
                        sync,
                        set,
                        base,
                        j + 1,
                    ),
                    FileReply::Failed(reason) => MirrorUpdate::at(
                        wiki_path,
                        sync,
                        set,
                        Stage::Over(Err(WikiSyncError::Io { path: target, reason })),
                    ),
                    other => {
                        let canonical = match other {
                            FileReply::Canonical(path) => path,
                            _ => target,
                        };
                        let stage = if paths::starts_with(canonical.as_str(), base.as_str()) {
                            Stage::Removing { base, j }
                        } else {
                            Stage::Over(Err(WikiSyncError::EscapedPath(sync.deletes[j].clone())))
                        };
                        MirrorUpdate::at(wiki_path, sync, set, stage)
                    },
                }
            },
            Stage::Removing { base, j } => match refused(reply) {
                Some(reason) => {
                    assert(view.deletes[j as int] == sync.deletes@[j as int]@);
                    let path = paths::join(base.as_str(), sync.deletes[j].as_str());
                    MirrorUpdate::at(
                        wiki_path,
                        sync,
                        set,
                        Stage::Over(Err(WikiSyncError::Io { path, reason })),
                    )
                },
                None => MirrorUpdate::remove_from(wiki_path, sync, set, base, j + 1),
            },
            Stage::Marking { base } => {
                let stage = match refused(reply) {
                    Some(reason) => Stage::Over(
                        Err(
                            WikiSyncError::Io {
                                path: paths::join(base.as_str(), LOCAL_MIRROR_GITIGNORE_PATH),
                                reason,
                            },
                        ),
                    ),
                    None => Stage::Over(Ok(())),
                };
                MirrorUpdate::at(wiki_path, sync, set, stage)
            },
            Stage::Over(outcome) => MirrorUpdate::at(wiki_path, sync, set, Stage::Over(outcome)),
        }
    }
}

fn refused(reply: FileReply) -> (res: Option<String>)
    ensures
        res.deep_view() == refusal(reply.deep_view()),
{
    match reply {
        FileReply::Missing(reason) => Some(reason),
        FileReply::Failed(reason) => Some(reason),
        _ => None,
    }
}

/// Every file that a response brings counts as updated, and every path that it removes as deleted,
/// apart from the marker and from paths that are brought as well.
pub proof fn changes_are_counted(
    upserts: Seq<Content>,
    deletes: Seq<Seq<char>>,
    file: Content,
    path: Seq<char>,
)
    ensures
        ({
            let sync = SyncResponse { upserts, deletes };
            &&& updated_count(SyncResponse { upserts: Seq::empty(), deletes }) == 0
            &&& deleted_count(SyncResponse { upserts, deletes: Seq::empty() }) == 0
            &&& updated_count(SyncResponse { upserts: upserts.push(file), deletes })
                == updated_count(sync) + if file.path == ".gitignore"@ {
                0int
            } else {
                1
            }
            &&& deleted_count(SyncResponse { upserts, deletes: deletes.push(path) })
                == deleted_count(sync) + if path == ".gitignore"@ || exists|i: int|
                0 <= i < upserts.len() && (#[trigger] upserts[i]).path == path {
                0int
            } else {
                1
            }
            &&& total_count(sync) == updated_count(sync) + deleted_count(sync)
        }),
{
    reveal(Seq::filter);
    let sync = SyncResponse { upserts, deletes };
    let longer = SyncResponse { upserts, deletes: deletes.push(path) };
    assert(upserts.push(file).drop_last() =~= upserts);
    assert(deletes.push(path).drop_last() =~= deletes);
    let f = |p: Seq<char>| removes(sync, p);
    let g = |p: Seq<char>| removes(longer, p);
    assert forall|p: Seq<char>| #[trigger] f(p) == g(p) by {}
    assert(f =~= g);
    assert(brought(upserts).contains(path) <==> exists|i: int|
        0 <= i < upserts.len() && (#[trigger] upserts[i]).path == path);
}

/// A path of a response may be written or removed exactly where it is not absolute and no part of it
/// between slashes leads to the directory above.
pub proof fn paths_that_lead_out_are_refused(path: Seq<char>)
    ensures
        relative_check("/"@ + path) == Err::<(), _>(WikiSyncError::AbsolutePath("/"@ + path)),
        (path.len() == 0 || path[0] != '/') && (exists|i: int|
            0 <= i < text::split(path, '/').len() && #[trigger] text::split(path, '/')[i] == ".."@)
            ==> relative_check(path) == Err::<(), _>(WikiSyncError::ParentDir(path)),
        relative_check(path) is Ok <==> (path.len() == 0 || path[0] != '/') && forall|i: int|
            0 <= i < text::split(path, '/').len() ==> #[trigger] text::split(path, '/')[i] != ".."@,
{
    reveal_strlit("/");
    reveal_strlit("..");
    assert("/"@ =~= seq!['/']);
    assert(".."@ =~= seq!['.', '.']);
    assert(("/"@ + path)[0] == '/');
    let parts = text::split(path, '/');
    let f = |p: Seq<char>| paths::is_step(p);
    let up = seq!['.', '.'];
    views::lemma_filtered(parts, f);
    if !paths::is_absolute(path) {
        let head = if parts[0] == seq!['.'] {
            seq![seq!['.']]
        } else {
            Seq::<Seq<char>>::empty()
        };
        let all = paths::components(path);
        assert(all == head + parts.filter(f));
        assert(f(up));
        assert(seq!['.'] != up) by {
            assert(seq!['.'].len() == 1 && up.len() == 2);
        }
        if all.contains(up) {
            let k = choose|k: int| 0 <= k < all.len() && all[k] == up;
            if k < head.len() {
                assert(all[k] == seq!['.']);
            } else {
                assert(parts.filter(f)[k - head.len()] == up);
                assert(parts.filter(f).contains(up));
                let i = choose|i: int| 0 <= i < parts.len() && parts[i] == up;
                assert(parts[i] == ".."@);
            }
        }
        if exists|i: int| 0 <= i < parts.len() && #[trigger] parts[i] == ".."@ {
            let i = choose|i: int| 0 <= i < parts.len() && #[trigger] parts[i] == ".."@;
            assert(parts[i] == up);
            assert(parts.contains(up));
            assert(parts.filter(f).contains(up));
            let k = choose|k: int| 0 <= k < parts.filter(f).len() && parts.filter(f)[k] == up;
            assert(all[head.len() + k] == parts.filter(f)[k]);
            assert(all.contains(up));
        }
    }
}

/// A directory may be used as a mirror where there is none yet, or where it bears the marker; any
/// other is refused and left alone.
pub proof fn foreign_directories_are_refused(
    path: Seq<char>,
    marker: Option<Seq<char>>,
    sync: Response,
)
    ensures
        safe_check(path, MirrorFound { exists: false, marker }) == Ok::<(), Fault>(()),
        safe_check(path, MirrorFound { exists: true, marker: Some("*\n"@) }) == Ok::<(), Fault>(()),
        marker != Some("*\n"@) ==> {
            let refused = Program::<Op, Rep, Result<(), Fault>>::Return(
                Err(WikiSyncError::UnsafeLocalMirrorPath { path }),
            );
            &&& safe_check(path, MirrorFound { exists: true, marker }) == Err::<(), _>(
                WikiSyncError::UnsafeLocalMirrorPath { path },
            )
            &&& updating(path, sync)->action == (FileAction::Inspect { path })
            &&& (updating(path, sync)->then)(FileReply::Found(MirrorFound { exists: true, marker }))
                == refused
        },
{
}

/// Whether a flow ends at the first operation that fails, with the path of that operation and the
/// reason. A look at a mirror that fails finds a directory that bears no marker, and a path to remove
/// that is gone is passed over.
pub open spec fn ends_at_failures(p: Ops, removal: bool) -> bool
    decreases p,
{
    match p {
        Program::Return(_) => true,
        Program::Do { action, then } => {
            &&& forall|reason: Seq<char>|
                failed_with(
                    action,
                    reason,
                    #[trigger] then(FileReply::Failed(reason)),
                )
            &&& forall|reason: Seq<char>|
                action is Canonicalize && removal || failed_with(
                    action,
                    reason,
                    #[trigger] then(FileReply::Missing(reason)),
                )
            &&& forall|reply: Rep|
                ends_at_failures(#[trigger] then(reply), removal || action is Canonicalize)
        },
    }
}

/// Whether a flow is the failure of an operation.
pub open spec fn failed_with(action: Op, reason: Seq<char>, rest: Ops) -> bool {
    rest == Program::<Op, Rep, Result<(), Fault>>::Return(
        Err(
            match action {
                FileAction::Inspect { path } => WikiSyncError::UnsafeLocalMirrorPath { path },
                FileAction::CreateDirs { path } => WikiSyncError::Io { path, reason },
                FileAction::Canonicalize { path } => WikiSyncError::Io { path, reason },
                FileAction::Write { path, content: _ } => WikiSyncError::Io { path, reason },
                FileAction::Remove { path } => WikiSyncError::Io { path, reason },
            },
        ),
    )
}

proof fn lemma_removing_ends(base: Seq<char>, sync: Response, j: int)
    requires
        0 <= j <= sync.deletes.len(),
    ensures
        ends_at_failures(removing(base, sync, j), true),
    decreases sync.deletes.len() - j,
{
    if j >= sync.deletes.len() {
        let p = marking(base);
        assert forall|reply: Rep| ends_at_failures(#[trigger] p->then(reply), true) by {}
        assert(ends_at_failures(p, true));
    } else {
        lemma_removing_ends(base, sync, j + 1);
        let last = remove_step(base, sync, j);
        assert forall|reply: Rep| ends_at_failures(#[trigger] last->then(reply), true) by {}
        assert(ends_at_failures(last, true));
        let p = check_step(base, sync, j);
        assert forall|reply: Rep| ends_at_failures(#[trigger] p->then(reply), true) by {
            assert(p->then(reply) == checked(base, sync, j, reply));
        }
        assert(ends_at_failures(p, true));
    }
}

proof fn lemma_writing_ends(base: Seq<char>, sync: Response, i: int)
    requires
        0 <= i <= sync.upserts.len(),
    ensures
        ends_at_failures(writing(base, sync, i), true),
    decreases sync.upserts.len() - i,
{
    if i >= sync.upserts.len() {
        lemma_removing_ends(base, sync, 0);
    } else {
        lemma_writing_ends(base, sync, i + 1);
        let last = write_step(base, sync, i);
        assert forall|reply: Rep| ends_at_failures(#[trigger] last->then(reply), true) by {}
        assert(ends_at_failures(last, true));
        match paths::parent_of(paths::join_path(base, sync.upserts[i].path)) {
            Some(parent) => {
                let p = parent_step(base, sync, i, parent);
                assert forall|reply: Rep| ends_at_failures(#[trigger] p->then(reply), true) by {
                    assert(p->then(reply) == parented(base, sync, i, parent, reply));
                }
                assert(ends_at_failures(p, true));
            },
            None => {},
        }
    }
}

/// An update ends at the first operation that fails and tells which one it was; nothing is done
/// after it.
pub proof fn updates_end_at_failures(wiki_path: Seq<char>, sync: Response)
    ensures
        ends_at_failures(updating(wiki_path, sync), false),
{
    let locating = locate_step(wiki_path, sync);
    assert forall|reply: Rep| ends_at_failures(#[trigger] locating->then(reply), true) by {
        assert(locating->then(reply) == located(wiki_path, sync, reply));
        match reply {
            FileReply::Canonical(base) => lemma_writing_ends(base, sync, 0),
            _ => lemma_writing_ends(wiki_path, sync, 0),
        }
    }
    assert(ends_at_failures(locating, false));
    let creating = create_step(wiki_path, sync);
    assert forall|reply: Rep| ends_at_failures(#[trigger] creating->then(reply), false) by {
        assert(creating->then(reply) == created(wiki_path, sync, reply));
    }
    assert(ends_at_failures(creating, false));
    let p = updating(wiki_path, sync);
    assert forall|reply: Rep| ends_at_failures(#[trigger] p->then(reply), false) by {
        assert(p->then(reply) == inspected(wiki_path, sync, reply));
    }
}

} // verus!
