//! The workspaces that the flows create beside the published one.

use vstd::prelude::*;

use crate::paths;
use crate::text;

verus! {

/// A workspace that a flow creates and removes again.
#[derive(Debug, PartialEq, Eq)]
pub struct OwnedWorkspace<S = String> {
    pub name: S,
    pub path: S,
}

impl DeepView for OwnedWorkspace<String> {
    type V = OwnedWorkspace<Seq<char>>;

    open spec fn deep_view(&self) -> OwnedWorkspace<Seq<char>> {
        OwnedWorkspace { name: self.name@, path: self.path@ }
    }
}

/// The workspace of a kind for a task, below the directory `root`.
pub open spec fn workspace_of(root: Seq<char>, kind: Seq<char>, id: Seq<char>) -> OwnedWorkspace<
    Seq<char>,
> {
    OwnedWorkspace {
        name: "wikidesk-"@ + kind + "-"@ + id,
        path: paths::join_path(root, kind + "-"@ + id),
    }
}

/// The workspace in which a task is researched.
pub open spec fn research_workspace(root: Seq<char>, task_id: Seq<char>) -> OwnedWorkspace<
    Seq<char>,
> {
    workspace_of(root, "research"@, task_id)
}

/// The workspace in which a task is merged into `main`.
pub open spec fn merge_workspace(root: Seq<char>, task_id: Seq<char>) -> OwnedWorkspace<Seq<char>> {
    workspace_of(root, "merge"@, task_id)
}

/// The workspace in which a remote's `main` is merged.
pub open spec fn remote_sync_workspace(root: Seq<char>, run_id: Seq<char>) -> OwnedWorkspace<
    Seq<char>,
> {
    workspace_of(root, "remote-sync"@, run_id)
}

impl OwnedWorkspace {
    fn new(root: &str, kind: &str, id: &str) -> (res: Self)
        ensures
            res.deep_view() == workspace_of(root@, kind@, id@),
    {
        let dir = kind.to_string().concat("-").concat(id);
        let name = "wikidesk-".to_string().concat(dir.as_str());
        assert(name@ =~= "wikidesk-"@ + kind@ + "-"@ + id@);
        OwnedWorkspace { name, path: paths::join(root, dir.as_str()) }
    }

    /// The workspace in which a task is researched.
    pub fn research(root: &str, task_id: &str) -> (res: Self)
        ensures
            res.deep_view() == research_workspace(root@, task_id@),
    {
        OwnedWorkspace::new(root, "research", task_id)
    }

    /// The workspace in which a task is merged into `main`.
    pub fn merge(root: &str, task_id: &str) -> (res: Self)
        ensures
            res.deep_view() == merge_workspace(root@, task_id@),
    {
        OwnedWorkspace::new(root, "merge", task_id)
    }

    /// The workspace in which a remote's `main` is merged.
    pub fn remote_sync(root: &str, run_id: &str) -> (res: Self)
        ensures
            res.deep_view() == remote_sync_workspace(root@, run_id@),
    {
        OwnedWorkspace::new(root, "remote-sync", run_id)
    }
}

/// Whether a workspace name is one that a flow gives.
pub open spec fn is_owned_name(name: Seq<char>) -> bool {
    ||| "wikidesk-research-"@.is_prefix_of(name)
    ||| "wikidesk-merge-"@.is_prefix_of(name)
    ||| "wikidesk-remote-sync-"@.is_prefix_of(name)
}

/// Whether a workspace name is one that a flow gives.
pub fn is_wikidesk_workspace(name: &str) -> (res: bool)
    ensures
        res == is_owned_name(name@),
{
    text::begins_with(name, "wikidesk-research-") || text::begins_with(name, "wikidesk-merge-")
        || text::begins_with(name, "wikidesk-remote-sync-")
}

/// Every workspace that a flow creates bears a name by which a later start recognises it.
pub proof fn created_workspaces_are_recognised(root: Seq<char>, id: Seq<char>)
    ensures
        is_owned_name(research_workspace(root, id).name),
        is_owned_name(merge_workspace(root, id).name),
        is_owned_name(remote_sync_workspace(root, id).name),
{
    reveal_strlit("wikidesk-research-");
    reveal_strlit("wikidesk-merge-");
    reveal_strlit("wikidesk-remote-sync-");
    reveal_strlit("wikidesk-");
    reveal_strlit("research");
    reveal_strlit("merge");
    reveal_strlit("remote-sync");
    reveal_strlit("-");
    assert("wikidesk-research-"@ =~= research_workspace(root, id).name.take(18));
    assert("wikidesk-merge-"@ =~= merge_workspace(root, id).name.take(15));
    assert("wikidesk-remote-sync-"@ =~= remote_sync_workspace(root, id).name.take(21));
}

/// The workspaces of two tasks are different, in name and in path.
pub proof fn workspaces_of_tasks_differ(
    root: Seq<char>,
    kind: Seq<char>,
    a: Seq<char>,
    b: Seq<char>,
)
    requires
        a != b,
        !paths::is_absolute(kind),
        kind.len() > 0,
    ensures
        workspace_of(root, kind, a).name != workspace_of(root, kind, b).name,
        workspace_of(root, kind, a).path != workspace_of(root, kind, b).path,
{
    let stem = "wikidesk-"@ + kind + "-"@;
    if workspace_of(root, kind, a).name == workspace_of(root, kind, b).name {
        assert((stem + a).skip(stem.len() as int) =~= a);
        assert((stem + b).skip(stem.len() as int) =~= b);
    }
    let dir = kind + "-"@;
    assert(!paths::is_absolute(dir + a) && !paths::is_absolute(dir + b));
    if workspace_of(root, kind, a).path == workspace_of(root, kind, b).path {
        let base = if root.len() == 0 {
            Seq::<char>::empty()
        } else if root.last() == '/' {
            root
        } else {
            root + seq!['/']
        };
        assert(workspace_of(root, kind, a).path =~= base + dir + a);
        assert(workspace_of(root, kind, b).path =~= base + dir + b);
        assert((base + dir + a).skip((base + dir).len() as int) =~= a);
        assert((base + dir + b).skip((base + dir).len() as int) =~= b);
    }
}

/// The directories that the platform sets aside for a program of the current user.
#[derive(Debug, PartialEq, Eq)]
pub struct ProgramDirs<S = String> {
    pub runtime: Option<S>,
    pub cache: S,
}

impl DeepView for ProgramDirs<String> {
    type V = ProgramDirs<Seq<char>>;

    open spec fn deep_view(&self) -> ProgramDirs<Seq<char>> {
        ProgramDirs { runtime: self.runtime.deep_view(), cache: self.cache@ }
    }
}

/// `ProjectDirs::from` of the crate `directories`, with an empty qualifier and organisation, and
/// its `runtime_dir` and `cache_dir`. Which directories they are, and whether there are any, comes
/// from the platform and the user's environment; each is said to hold the program's name, which the
/// crate keeps as it is where it is in lower-case letters.
#[verifier::external_body]
fn program_dirs(program: &str) -> (res: Option<ProgramDirs>)
    requires
        program@.len() > 0,
        forall|i: int| 0 <= i < program@.len() ==> 'a' <= #[trigger] program@[i] <= 'z',
    ensures
        match res {
            Some(dirs) => {
                &&& text::contains(dirs.cache@, program@)
                &&& dirs.runtime matches Some(runtime) ==> text::contains(runtime@, program@)
            },
            None => true,
        },
{
    directories::ProjectDirs::from("", "", program).map(
        |dirs| ProgramDirs {
            runtime: dirs.runtime_dir().map(|dir| dir.to_string_lossy().into_owned()),
            cache: dirs.cache_dir().to_string_lossy().into_owned(),
        },
    )
}

/// The directory that holds the workspaces of all wikis: in the user's runtime directory, else in
/// the cache directory, else in the directory for temporary files.
pub open spec fn data_root_of(dirs: Option<ProgramDirs<Seq<char>>>, temp_dir: Seq<char>) -> Seq<
    char,
> {
    let base = match dirs {
        Some(dirs) => match dirs.runtime {
            Some(runtime) => runtime,
            None => dirs.cache,
        },
        None => paths::join_path(temp_dir, "wikidesk"@),
    };
    paths::join_path(base, ".workspaces"@)
}

/// The directory that holds the workspaces of all wikis.
pub fn data_root(dirs: Option<ProgramDirs>, temp_dir: &str) -> (res: String)
    ensures
        res@ == data_root_of(dirs.deep_view(), temp_dir@),
{
    let base = match dirs {
        Some(dirs) => match dirs.runtime {
            Some(runtime) => runtime,
            None => dirs.cache,
        },
        None => paths::join(temp_dir, "wikidesk"),
    };
    paths::join(base.as_str(), ".workspaces")
}

/// The directory that holds the workspaces of all wikis, for the current user.
pub fn workspace_data_root(temp_dir: &str) -> (res: String)
    ensures
        exists|dirs: Option<ProgramDirs<Seq<char>>>| #[trigger]
            data_root_of(dirs, temp_dir@) == res@ && match dirs {
                Some(dirs) => {
                    &&& text::contains(dirs.cache, "wikidesk"@)
                    &&& dirs.runtime matches Some(runtime) ==> text::contains(
                        runtime,
                        "wikidesk"@,
                    )
                },
                None => true,
            },
{
    proof {
        reveal_strlit("wikidesk");
    }
    let dirs = program_dirs("wikidesk");
    data_root(dirs, temp_dir)
}

/// The directory that holds the workspaces of a wiki.
pub open spec fn workspace_root_of(data_root: Seq<char>, wiki_repo: Seq<char>) -> Seq<char> {
    let name = match paths::file_name_of(wiki_repo) {
        Some(name) => name,
        None => "wiki"@,
    };
    paths::join_path(data_root, name + "-workspaces"@)
}

/// The directory that holds the workspaces of a wiki.
pub fn workspace_root(data_root: &str, wiki_repo: &str) -> (res: String)
    ensures
        res@ == workspace_root_of(data_root@, wiki_repo@),
{
    let name = match paths::file_name(wiki_repo) {
        Some(name) => name,
        None => "wiki".to_string(),
    };
    paths::join(data_root, name.concat("-workspaces").as_str())
}

/// The workspaces of a task and of a synchronisation are named after what they are for and whose
/// they are, and lie below the directory of the wiki's workspaces under that name.
pub proof fn workspaces_are_named_after_their_task(root: Seq<char>, id: Seq<char>)
    requires
        root.len() > 0,
        root.last() != '/',
    ensures
        research_workspace(root, id) == (OwnedWorkspace {
            name: "wikidesk-research-"@ + id,
            path: root + "/research-"@ + id,
        }),
        merge_workspace(root, id) == (OwnedWorkspace {
            name: "wikidesk-merge-"@ + id,
            path: root + "/merge-"@ + id,
        }),
        remote_sync_workspace(root, id) == (OwnedWorkspace {
            name: "wikidesk-remote-sync-"@ + id,
            path: root + "/remote-sync-"@ + id,
        }),
{
    reveal_strlit("wikidesk-research-");
    reveal_strlit("wikidesk-merge-");
    reveal_strlit("wikidesk-remote-sync-");
    reveal_strlit("wikidesk-");
    reveal_strlit("research");
    reveal_strlit("merge");
    reveal_strlit("remote-sync");
    reveal_strlit("-");
    reveal_strlit("/");
    reveal_strlit("/research-");
    reveal_strlit("/merge-");
    reveal_strlit("/remote-sync-");
    paths::paths_are_taken_from_directories(root, "research"@ + "-"@ + id);
    paths::paths_are_taken_from_directories(root, "merge"@ + "-"@ + id);
    paths::paths_are_taken_from_directories(root, "remote-sync"@ + "-"@ + id);
    assert("wikidesk-"@ + "research"@ + "-"@ + id =~= "wikidesk-research-"@ + id);
    assert("wikidesk-"@ + "merge"@ + "-"@ + id =~= "wikidesk-merge-"@ + id);
    assert("wikidesk-"@ + "remote-sync"@ + "-"@ + id =~= "wikidesk-remote-sync-"@ + id);
    assert(root + "/"@ + ("research"@ + "-"@ + id) =~= root + "/research-"@ + id);
    assert(root + "/"@ + ("merge"@ + "-"@ + id) =~= root + "/merge-"@ + id);
    assert(root + "/"@ + ("remote-sync"@ + "-"@ + id) =~= root + "/remote-sync-"@ + id);
}

/// A workspace is taken for one that a flow left behind only where its name says so; the workspace
/// that every repository has is never.
pub proof fn other_workspaces_are_left_alone(name: Seq<char>)
    ensures
        is_owned_name(name) ==> "wikidesk-"@.is_prefix_of(name),
        !is_owned_name("default"@),
{
    reveal_strlit("wikidesk-research-");
    reveal_strlit("wikidesk-merge-");
    reveal_strlit("wikidesk-remote-sync-");
    reveal_strlit("wikidesk-");
    reveal_strlit("default");
    let mark = "wikidesk-"@;
    assert("wikidesk-research-"@.take(9) =~= mark);
    assert("wikidesk-merge-"@.take(9) =~= mark);
    assert("wikidesk-remote-sync-"@.take(9) =~= mark);
    if is_owned_name(name) {
        assert(name.take(9) =~= mark);
    }
    assert("default"@.len() == 7);
}

/// The workspaces of all wikis lie in the runtime directory of the program, else in its cache
/// directory, else in a directory of its own among the temporary files. Those of a wiki lie below
/// that, in a directory that bears the name of its repository.
pub proof fn workspaces_lie_in_the_programs_directory(
    runtime: Seq<char>,
    cache: Seq<char>,
    temp: Seq<char>,
    root: Seq<char>,
    dir: Seq<char>,
    name: Seq<char>,
)
    requires
        runtime.len() > 0 && runtime.last() != '/',
        cache.len() > 0 && cache.last() != '/',
        temp.len() > 0 && temp.last() != '/',
        root.len() > 0 && root.last() != '/',
        name.len() > 0,
        !name.contains('/'),
        name != "."@,
        name != ".."@,
    ensures
        data_root_of(Some(ProgramDirs { runtime: Some(runtime), cache }), temp) == runtime
            + "/.workspaces"@,
        data_root_of(Some(ProgramDirs { runtime: None, cache }), temp) == cache + "/.workspaces"@,
        data_root_of(None, temp) == temp + "/wikidesk/.workspaces"@,
        workspace_root_of(root, dir + "/"@ + name) == root + "/"@ + name + "-workspaces"@,
        workspace_root_of(root, "/"@) == root + "/wiki-workspaces"@,
{
    reveal_strlit(".workspaces");
    reveal_strlit("wikidesk");
    reveal_strlit("/.workspaces");
    reveal_strlit("/wikidesk/.workspaces");
    reveal_strlit("-workspaces");
    reveal_strlit("/wiki-workspaces");
    reveal_strlit("wiki");
    reveal_strlit("/");
    paths::paths_are_taken_from_directories(runtime, ".workspaces"@);
    paths::paths_are_taken_from_directories(cache, ".workspaces"@);
    paths::paths_are_taken_from_directories(temp, "wikidesk"@);
    paths::paths_are_taken_from_directories(temp + "/"@ + "wikidesk"@, ".workspaces"@);
    paths::paths_are_taken_from_directories(root, name + "-workspaces"@);
    paths::paths_are_taken_from_directories(root, "wiki"@ + "-workspaces"@);
    paths::entries_have_their_names(dir, name);
    assert(name.contains(name[0]));
    assert((temp + "/"@ + "wikidesk"@).last() != '/');
    assert(runtime + "/"@ + ".workspaces"@ =~= runtime + "/.workspaces"@);
    assert(cache + "/"@ + ".workspaces"@ =~= cache + "/.workspaces"@);
    assert(temp + "/"@ + "wikidesk"@ + "/"@ + ".workspaces"@ =~= temp + "/wikidesk/.workspaces"@);
    assert(root + "/"@ + (name + "-workspaces"@) =~= root + "/"@ + name + "-workspaces"@);
    assert(root + "/"@ + ("wiki"@ + "-workspaces"@) =~= root + "/wiki-workspaces"@);
    assert("/"@ =~= seq!['/']);
    assert(paths::strip_tail("/"@) == "/"@);
    assert("/"@.skip(1) =~= Seq::empty());
    assert(paths::file_name_of("/"@) is None);
}

} // verus!
