//! The `jj` command line: the calls that the flows make, their arguments, and their output.

use vstd::prelude::*;

use crate::research_task::jj::Error;
use crate::text;
use crate::views;

verus! {

/// A call of `jj`.
#[derive(Debug, PartialEq, Eq)]
pub enum JjCall<S = String, L = Vec<String>> {
    /// List the names of the repository's workspaces.
    WorkspaceNames,
    ForgetWorkspace { name: S },
    /// Record the working copy.
    Snapshot,
    /// Summarise the changes of the working copy commit.
    DiffSummary,
    /// List the files with unresolved conflicts.
    UnresolvedConflicts,
    Describe { message: S },
    /// Move the bookmark `main`.
    SetMain { rev: S },
    CommitIds { rev: S },
    /// Put the working copy commit on top of `main`.
    RebaseOnMain,
    GitFetch { remote: S, ssh_command: Option<S> },
    /// Track the remote's `main`.
    TrackMain { remote: S },
    GitPushMain { remote: S, ssh_command: Option<S> },
    /// Create a workspace on top of `main`.
    AddFromMain { name: S, path: S },
    /// Create a workspace that merges revisions.
    AddMerge { name: S, revs: L, message: S, path: S },
}

/// A call by its views.
pub type Call = JjCall<Seq<char>, Seq<Seq<char>>>;

impl DeepView for JjCall<String, Vec<String>> {
    type V = JjCall<Seq<char>, Seq<Seq<char>>>;

    open spec fn deep_view(&self) -> JjCall<Seq<char>, Seq<Seq<char>>> {
        match self {
            JjCall::WorkspaceNames => JjCall::WorkspaceNames,
            JjCall::ForgetWorkspace { name } => JjCall::ForgetWorkspace { name: name@ },
            JjCall::Snapshot => JjCall::Snapshot,
            JjCall::DiffSummary => JjCall::DiffSummary,
            JjCall::UnresolvedConflicts => JjCall::UnresolvedConflicts,
            JjCall::Describe { message } => JjCall::Describe { message: message@ },
            JjCall::SetMain { rev } => JjCall::SetMain { rev: rev@ },
            JjCall::CommitIds { rev } => JjCall::CommitIds { rev: rev@ },
            JjCall::RebaseOnMain => JjCall::RebaseOnMain,
            JjCall::GitFetch { remote, ssh_command } => JjCall::GitFetch {
                remote: remote@,
                ssh_command: ssh_command.deep_view(),
            },
            JjCall::TrackMain { remote } => JjCall::TrackMain { remote: remote@ },
            JjCall::GitPushMain { remote, ssh_command } => JjCall::GitPushMain {
                remote: remote@,
                ssh_command: ssh_command.deep_view(),
            },
            JjCall::AddFromMain { name, path } => JjCall::AddFromMain { name: name@, path: path@ },
            JjCall::AddMerge { name, revs, message, path } => JjCall::AddMerge {
                name: name@,
                revs: revs.deep_view(),
                message: message@,
                path: path@,
            },
        }
    }
}

/// Each revision behind the option `-r`.
pub open spec fn rev_options(revs: Seq<Seq<char>>) -> Seq<Seq<char>>
    decreases revs.len(),
{
    if revs.len() == 0 {
        Seq::empty()
    } else {
        rev_options(revs.drop_last()) + seq!["-r"@, revs.last()]
    }
}

/// The arguments that track the `main` of a remote.
pub open spec fn bookmark_track_of(remote: Seq<char>) -> Seq<Seq<char>> {
    seq!["bookmark"@, "track"@, "main@"@ + remote]
}

impl JjCall<Seq<char>, Seq<Seq<char>>> {
    /// The arguments of the call.
    pub open spec fn args(self) -> Seq<Seq<char>> {
        match self {
            JjCall::WorkspaceNames => seq!["workspace"@, "list"@, "-T"@, "name ++ \"\\n\""@],
            JjCall::ForgetWorkspace { name } => seq!["workspace"@, "forget"@, name],
            JjCall::Snapshot => seq!["util"@, "snapshot"@],
            JjCall::DiffSummary => seq!["diff"@, "--summary"@, "-r"@, "@"@],
            JjCall::UnresolvedConflicts => seq!["resolve"@, "--list"@],
            JjCall::Describe { message } => seq!["describe"@, "-m"@, message],
            JjCall::SetMain { rev } => seq!["bookmark"@, "set"@, "main"@, "-r"@, rev],
            JjCall::CommitIds { rev } => seq![
                "log"@,
                "--no-graph"@,
                "-r"@,
                rev,
                "-T"@,
                "commit_id ++ \"\\n\""@,
            ],
            JjCall::RebaseOnMain => seq!["rebase"@, "-r"@, "@"@, "-o"@, "main"@],
            JjCall::GitFetch { remote, ssh_command: _ } => seq![
                "git"@,
                "fetch"@,
                "--remote"@,
                remote,
            ],
            JjCall::TrackMain { remote } => bookmark_track_of(remote),
            JjCall::GitPushMain { remote, ssh_command: _ } => seq![
                "git"@,
                "push"@,
                "--remote"@,
                remote,
                "--bookmark"@,
                "main"@,
            ],
            JjCall::AddFromMain { name, path } => seq![
                "workspace"@,
                "add"@,
                "--name"@,
                name,
                "-r"@,
                "main"@,
                path,
            ],
            JjCall::AddMerge { name, revs, message, path } => seq![
                "workspace"@,
                "add"@,
                "--name"@,
                name,
            ] + rev_options(revs) + seq!["-m"@, message, path],
        }
    }

    /// The command that Git is to use for SSH, where the call sets one.
    pub open spec fn ssh(self) -> Option<Seq<char>> {
        match self {
            JjCall::GitFetch { remote: _, ssh_command } => ssh_command,
            JjCall::GitPushMain { remote: _, ssh_command } => ssh_command,
            _ => None,
        }
    }
}

/// The arguments that track the `main` of a remote.
pub fn bookmark_track_args(remote: &str) -> (res: Vec<String>)
    ensures
        res.deep_view() == bookmark_track_of(remote@),
{
    let res = vec![
        "bookmark".to_string(),
        "track".to_string(),
        "main@".to_string().concat(remote),
    ];
    assert(res.deep_view() =~= bookmark_track_of(remote@));
    res
}

fn merge_args(name: &str, revs: &Vec<String>, message: &str, path: &str) -> (res: Vec<String>)
    ensures
        res.deep_view() == (JjCall::AddMerge {
            name: name@,
            revs: revs.deep_view(),
            message: message@,
            path: path@,
        }).args(),
{
    let mut out = vec![
        "workspace".to_string(),
        "add".to_string(),
        "--name".to_string(),
        name.to_string(),
    ];
    let ghost head = seq!["workspace"@, "add"@, "--name"@, name@];
    let ghost all = revs.deep_view();
    let n: usize = revs.len();
    let mut i: usize = 0;
    assert(out.deep_view() =~= head);
    assert(out.deep_view() =~= head + rev_options(all.take(0)));
    while i < n
        invariant
            n == revs@.len(),
            i <= n,
            all == revs.deep_view(),
            out.deep_view() == head + rev_options(all.take(i as int)),
        decreases n - i,
    {
        let ghost before = out.deep_view();
        out.push("-r".to_string());
        out.push(revs[i].clone());
        proof {
            assert(all.take(i + 1).drop_last() =~= all.take(i as int));
            assert(all.take(i + 1).last() == revs@[i as int]@);
            assert(out.deep_view() =~= before + seq!["-r"@, all[i as int]]);
            assert(out.deep_view() =~= head + rev_options(all.take(i + 1)));
        }
        i = i + 1;
    }
    let ghost before = out.deep_view();
    out.push("-m".to_string());
    out.push(message.to_string());
    out.push(path.to_string());
    assert(all.take(n as int) =~= all);
    assert(out.deep_view() =~= before + seq!["-m"@, message@, path@]);
    out
}

impl JjCall {
    /// The arguments of the call.
    pub fn arguments(&self) -> (res: Vec<String>)
        ensures
            res.deep_view() == self.deep_view().args(),
    {
        let res = match self {
            JjCall::WorkspaceNames => vec![
                "workspace".to_string(),
                "list".to_string(),
                "-T".to_string(),
                "name ++ \"\\n\"".to_string(),
            ],
            JjCall::ForgetWorkspace { name } => vec![
                "workspace".to_string(),
                "forget".to_string(),
                name.clone(),
            ],
            JjCall::Snapshot => vec!["util".to_string(), "snapshot".to_string()],
            JjCall::DiffSummary => vec![
                "diff".to_string(),
                "--summary".to_string(),
                "-r".to_string(),
                "@".to_string(),
            ],
            JjCall::UnresolvedConflicts => vec!["resolve".to_string(), "--list".to_string()],
            JjCall::Describe { message } => vec![
                "describe".to_string(),
                "-m".to_string(),
                message.clone(),
            ],
            JjCall::SetMain { rev } => vec![
                "bookmark".to_string(),
                "set".to_string(),
                "main".to_string(),
                "-r".to_string(),
                rev.clone(),
            ],
            JjCall::CommitIds { rev } => vec![
                "log".to_string(),
                "--no-graph".to_string(),
                "-r".to_string(),
                rev.clone(),
                "-T".to_string(),
                "commit_id ++ \"\\n\"".to_string(),
            ],
            JjCall::RebaseOnMain => vec![
                "rebase".to_string(),
                "-r".to_string(),
                "@".to_string(),
                "-o".to_string(),
                "main".to_string(),
            ],
            JjCall::GitFetch { remote, ssh_command: _ } => vec![
                "git".to_string(),
                "fetch".to_string(),
                "--remote".to_string(),
                remote.clone(),
            ],
            JjCall::TrackMain { remote } => bookmark_track_args(remote.as_str()),
            JjCall::GitPushMain { remote, ssh_command: _ } => vec![
                "git".to_string(),
                "push".to_string(),
                "--remote".to_string(),
                remote.clone(),
                "--bookmark".to_string(),
                "main".to_string(),
            ],
            JjCall::AddFromMain { name, path } => vec![
                "workspace".to_string(),
                "add".to_string(),
                "--name".to_string(),
                name.clone(),
                "-r".to_string(),
                "main".to_string(),
                path.clone(),
            ],
            JjCall::AddMerge { name, revs, message, path } => merge_args(
                name.as_str(),
                revs,
                message.as_str(),
                path.as_str(),
            ),
        };
        assert(res.deep_view() =~= self.deep_view().args());
        res
    }

    /// The command that Git is to use for SSH, where the call sets one.
    pub fn ssh_command(&self) -> (res: Option<String>)
        ensures
            res.deep_view() == self.deep_view().ssh(),
    {
        match self {
            JjCall::GitFetch { remote: _, ssh_command } => ssh_command.clone(),
            JjCall::GitPushMain { remote: _, ssh_command } => ssh_command.clone(),
            _ => None,
        }
    }
}

/// The whole command line behind `jj`: no pager, no colour, the repository, then the arguments.
pub open spec fn command_line_of(repo: Seq<char>, call: Call) -> Seq<Seq<char>> {
    seq!["--no-pager"@, "--color"@, "never"@, "-R"@, repo] + call.args()
}

/// The whole command line behind `jj`.
pub fn command_line(repo: &str, call: &JjCall) -> (res: Vec<String>)
    ensures
        res.deep_view() == command_line_of(repo@, call.deep_view()),
{
    let mut out = vec![
        "--no-pager".to_string(),
        "--color".to_string(),
        "never".to_string(),
        "-R".to_string(),
        repo.to_string(),
    ];
    let ghost head = out.deep_view();
    assert(head =~= seq!["--no-pager"@, "--color"@, "never"@, "-R"@, repo@]);
    let mut args = call.arguments();
    let ghost tail = args.deep_view();
    out.append(&mut args);
    assert(out.deep_view() =~= head + tail);
    out
}

/// The arguments as they are shown in a message.
pub open spec fn shown_args(args: Seq<Seq<char>>) -> Seq<char> {
    text::join(args, seq![' '])
}

/// The arguments as they are shown in a message.
pub fn display_args(args: &Vec<String>) -> (res: String)
    ensures
        res@ == shown_args(args.deep_view()),
{
    proof {
        reveal_strlit(" ");
        assert(" "@ =~= seq![' ']);
    }
    text::joined(args, " ")
}

/// What a `jj` process that has ended says: its output, or the error it reported.
pub open spec fn completion(
    repo: Seq<char>,
    call: Call,
    success: bool,
    stdout: Seq<char>,
    stderr: Seq<char>,
) -> Result<Seq<char>, Error<Seq<char>>> {
    if success {
        Ok(stdout)
    } else {
        Err(Error::JjCommand { repo, args: shown_args(call.args()), stderr })
    }
}

/// What a `jj` process that has ended says.
pub fn completed(
    repo: &str,
    call: &JjCall,
    success: bool,
    stdout: String,
    stderr: String,
) -> (res: Result<String, Error>)
    ensures
        views::outcome(res) == completion(repo@, call.deep_view(), success, stdout@, stderr@),
{
    if success {
        Ok(stdout)
    } else {
        Err(
            Error::JjCommand {
                repo: repo.to_string(),
                args: display_args(&call.arguments()),
                stderr,
            },
        )
    }
}

/// What a `jj` process that has ended says, from the bytes that it wrote.
pub fn command_result(
    repo: &str,
    call: &JjCall,
    success: bool,
    stdout: &Vec<u8>,
    stderr: &Vec<u8>,
) -> (res: Result<String, Error>)
    ensures
        views::outcome(res) == completion(
            repo@,
            call.deep_view(),
            success,
            text::lossy(stdout@),
            text::lossy(stderr@),
        ),
{
    completed(repo, call, success, text::lossy_text(stdout), text::lossy_text(stderr))
}

/// The entries of a listing: its lines, trimmed, without the blank ones.
pub open spec fn entries(output: Seq<char>) -> Seq<Seq<char>> {
    text::nonempty(text::lines(output).map_values(|line: Seq<char>| text::trim(line)))
}

/// The entries of a listing.
pub fn entry_list(output: &str) -> (res: Vec<String>)
    ensures
        res.deep_view() == entries(output@),
{
    let lines = text::line_list(output);
    let n: usize = lines.len();
    let ghost all = text::lines(output@).map_values(|line: Seq<char>| text::trim(line));
    let mut out: Vec<String> = Vec::new();
    let mut i: usize = 0;
    proof {
        reveal(Seq::filter);
        assert(all.take(0) =~= Seq::<Seq<char>>::empty());
        assert(out.deep_view() =~= text::nonempty(all.take(0)));
    }
    while i < n
        invariant
            n == lines@.len(),
            n == all.len(),
            i <= n,
            lines.deep_view() == text::lines(output@),
            all == text::lines(output@).map_values(|line: Seq<char>| text::trim(line)),
            out.deep_view() == text::nonempty(all.take(i as int)),
        decreases n - i,
    {
        let entry = text::trimmed(lines[i].as_str());
        proof {
            reveal(Seq::filter);
            assert(lines.deep_view()[i as int] == lines@[i as int]@);
            assert(all.take(i + 1).drop_last() =~= all.take(i as int));
            assert(all.take(i + 1).last() == entry@);
        }
        let ghost before = out.deep_view();
        if !entry.as_str().is_empty() {
            let ghost shown = entry@;
            out.push(entry);
            assert(out.deep_view() =~= before.push(shown));
        }
        i = i + 1;
    }
    assert(all.take(n as int) =~= all);
    out
}

/// The commit ids in the output of a call that reads them; there is at least one.
pub open spec fn ids_of(output: Seq<char>, op: Seq<char>) -> Result<
    Seq<Seq<char>>,
    Error<Seq<char>>,
> {
    if entries(output).len() == 0 {
        Err(Error::UnexpectedOutput { op, output })
    } else {
        Ok(entries(output))
    }
}

/// The commit ids in the output of a call that reads them.
pub fn commit_ids(output: String, op: &str) -> (res: Result<Vec<String>, Error>)
    ensures
        views::outcome(res) == ids_of(output@, op@),
{
    let ids = entry_list(output.as_str());
    assert(ids.deep_view().len() == ids@.len());
    if ids.len() == 0 {
        Err(Error::UnexpectedOutput { op: op.to_string(), output })
    } else {
        Ok(ids)
    }
}

/// The only one of the commit ids.
pub open spec fn only_id(ids: Seq<Seq<char>>, op: Seq<char>) -> Result<
    Seq<char>,
    Error<Seq<char>>,
> {
    if ids.len() == 1 {
        Ok(ids[0])
    } else {
        Err(Error::UnexpectedOutput { op, output: text::join(ids, seq!['\n']) })
    }
}

/// The only one of the commit ids.
pub fn one_line(ids: Vec<String>, op: &str) -> (res: Result<String, Error>)
    ensures
        views::outcome(res) == only_id(ids.deep_view(), op@),
{
    assert(ids.deep_view().len() == ids@.len());
    if ids.len() == 1 {
        assert(ids.deep_view()[0] == ids@[0]@);
        return Ok(ids[0].clone());
    }
    proof {
        reveal_strlit("\n");
        assert("\n"@ =~= seq!['\n']);
    }
    Err(Error::UnexpectedOutput { op: op.to_string(), output: text::joined(&ids, "\n") })
}

/// What a command line does to a repository.
pub enum Effect {
    ListsWorkspaces,
    ForgetsWorkspace { name: Seq<char> },
    RecordsWorkingCopy,
    /// Lists what a revision changes.
    ListsChanges { rev: Seq<char> },
    ListsConflicts,
    DescribesWorkingCopy { text: Seq<char> },
    SetsBookmark { bookmark: Seq<char>, rev: Seq<char> },
    /// Lists the commit ids of a revision set.
    ListsCommits { revset: Seq<char> },
    /// Puts a revision on top of another.
    Moves { rev: Seq<char>, onto: Seq<char> },
    Fetches { remote: Seq<char> },
    TracksBookmark { remote_bookmark: Seq<char> },
    Pushes { remote: Seq<char>, bookmark: Seq<char> },
    /// Creates a workspace whose working copy stands on top of revisions.
    AddsWorkspace {
        name: Seq<char>,
        on: Seq<Seq<char>>,
        message: Option<Seq<char>>,
        path: Seq<char>,
    },
    Unknown,
}

/// The revisions behind options `-r`, where there is nothing else.
pub open spec fn revs_in(options: Seq<Seq<char>>) -> Option<Seq<Seq<char>>>
    decreases options.len(),
{
    if options.len() == 0 {
        Some(Seq::empty())
    } else if options.len() == 1 || options[options.len() - 2] != "-r"@ {
        None
    } else {
        match revs_in(options.take(options.len() - 2)) {
            Some(revs) => Some(revs.push(options.last())),
            None => None,
        }
    }
}

/// The workspace that `workspace add` creates: its name, the revisions under its working copy, the
/// description of its working copy, and its path, which stands last.
pub open spec fn addition(args: Seq<Seq<char>>) -> Effect {
    let n = args.len() as int;
    if n >= 7 && args[n - 3] == "-m"@ {
        match revs_in(args.subrange(4, n - 3)) {
            Some(on) => Effect::AddsWorkspace {
                name: args[3],
                on,
                message: Some(args[n - 2]),
                path: args[n - 1],
            },
            None => Effect::Unknown,
        }
    } else if n >= 5 {
        match revs_in(args.subrange(4, n - 1)) {
            Some(on) => Effect::AddsWorkspace {
                name: args[3],
                on,
                message: None,
                path: args[n - 1],
            },
            None => Effect::Unknown,
        }
    } else {
        Effect::Unknown
    }
}

/// What arguments ask of `jj`, as it reads them: the subcommand, and what stands behind its options.
#[verifier::opaque]
pub open spec fn effect_of(args: Seq<Seq<char>>) -> Effect {
    let n = args.len();
    if n == 4 && args[0] == "workspace"@ && args[1] == "list"@ && args[2] == "-T"@ && args[3]
        == "name ++ \"\\n\""@ {
        Effect::ListsWorkspaces
    } else if n == 3 && args[0] == "workspace"@ && args[1] == "forget"@ {
        Effect::ForgetsWorkspace { name: args[2] }
    } else if n >= 5 && args[0] == "workspace"@ && args[1] == "add"@ && args[2] == "--name"@ {
        addition(args)
    } else if n == 2 && args[0] == "util"@ && args[1] == "snapshot"@ {
        Effect::RecordsWorkingCopy
    } else if n == 4 && args[0] == "diff"@ && args[1] == "--summary"@ && args[2] == "-r"@ {
        Effect::ListsChanges { rev: args[3] }
    } else if n == 2 && args[0] == "resolve"@ && args[1] == "--list"@ {
        Effect::ListsConflicts
    } else if n == 3 && args[0] == "describe"@ && args[1] == "-m"@ {
        Effect::DescribesWorkingCopy { text: args[2] }
    } else if n == 5 && args[0] == "bookmark"@ && args[1] == "set"@ && args[3] == "-r"@ {
        Effect::SetsBookmark { bookmark: args[2], rev: args[4] }
    } else if n == 3 && args[0] == "bookmark"@ && args[1] == "track"@ {
        Effect::TracksBookmark { remote_bookmark: args[2] }
    } else if n == 6 && args[0] == "log"@ && args[1] == "--no-graph"@ && args[2] == "-r"@ && args[4]
        == "-T"@ && args[5] == "commit_id ++ \"\\n\""@ {
        Effect::ListsCommits { revset: args[3] }
    } else if n == 5 && args[0] == "rebase"@ && args[1] == "-r"@ && args[3] == "-o"@ {
        Effect::Moves { rev: args[2], onto: args[4] }
    } else if n == 4 && args[0] == "git"@ && args[1] == "fetch"@ && args[2] == "--remote"@ {
        Effect::Fetches { remote: args[3] }
    } else if n == 6 && args[0] == "git"@ && args[1] == "push"@ && args[2] == "--remote"@ && args[4]
        == "--bookmark"@ {
        Effect::Pushes { remote: args[3], bookmark: args[5] }
    } else {
        Effect::Unknown
    }
}

impl JjCall<Seq<char>, Seq<Seq<char>>> {
    /// What a flow relies on a call to do.
    pub open spec fn effect(self) -> Effect {
        match self {
            JjCall::WorkspaceNames => Effect::ListsWorkspaces,
            JjCall::ForgetWorkspace { name } => Effect::ForgetsWorkspace { name },
            JjCall::Snapshot => Effect::RecordsWorkingCopy,
            JjCall::DiffSummary => Effect::ListsChanges { rev: "@"@ },
            JjCall::UnresolvedConflicts => Effect::ListsConflicts,
            JjCall::Describe { message } => Effect::DescribesWorkingCopy { text: message },
            JjCall::SetMain { rev } => Effect::SetsBookmark { bookmark: "main"@, rev },
            JjCall::CommitIds { rev } => Effect::ListsCommits { revset: rev },
            JjCall::RebaseOnMain => Effect::Moves { rev: "@"@, onto: "main"@ },
            JjCall::GitFetch { remote, ssh_command: _ } => Effect::Fetches { remote },
            JjCall::TrackMain { remote } => Effect::TracksBookmark {
                remote_bookmark: "main@"@ + remote,
            },
            JjCall::GitPushMain { remote, ssh_command: _ } => Effect::Pushes {
                remote,
                bookmark: "main"@,
            },
            JjCall::AddFromMain { name, path } => Effect::AddsWorkspace {
                name,
                on: seq!["main"@],
                message: None,
                path,
            },
            JjCall::AddMerge { name, revs, message, path } => Effect::AddsWorkspace {
                name,
                on: revs,
                message: Some(message),
                path,
            },
        }
    }
}

proof fn lemma_revs_read(revs: Seq<Seq<char>>)
    ensures
        revs_in(rev_options(revs)) == Some(revs),
        rev_options(revs).len() == 2 * revs.len(),
    decreases revs.len(),
{
    if revs.len() > 0 {
        let before = revs.drop_last();
        lemma_revs_read(before);
        let all = rev_options(revs);
        assert(all.take(all.len() - 2) =~= rev_options(before));
        assert(before.push(revs.last()) =~= revs);
    } else {
        assert(revs =~= Seq::empty());
    }
}

proof fn lemma_subcommands()
    ensures
        "workspace"@.len() == 9,
        "util"@.len() == 4,
        "diff"@ != "util"@,
        "diff"@.len() == 4,
        "resolve"@.len() == 7,
        "describe"@.len() == 8,
        "bookmark"@ != "describe"@,
        "bookmark"@.len() == 8,
        "log"@.len() == 3,
        "git"@.len() == 3,
        "git"@ != "log"@,
        "rebase"@.len() == 6,
        "list"@ != "forget"@,
        "list"@ != "add"@,
        "forget"@ != "add"@,
        "set"@ != "track"@,
        "fetch"@ != "push"@,
        "-r"@ != "-m"@,
{
    reveal_strlit("workspace");
    reveal_strlit("util");
    reveal_strlit("diff");
    reveal_strlit("resolve");
    reveal_strlit("describe");
    reveal_strlit("bookmark");
    reveal_strlit("log");
    reveal_strlit("git");
    reveal_strlit("rebase");
    reveal_strlit("list");
    reveal_strlit("forget");
    reveal_strlit("add");
    reveal_strlit("set");
    reveal_strlit("track");
    reveal_strlit("fetch");
    reveal_strlit("push");
    reveal_strlit("-r");
    reveal_strlit("-m");
    assert("diff"@[0] == 'd' && "util"@[0] == 'u');
    assert("bookmark"@[0] == 'b' && "describe"@[0] == 'd');
    assert("git"@[0] == 'g' && "log"@[0] == 'l');
    assert("list"@[0] == 'l' && "forget"@[0] == 'f' && "add"@[0] == 'a');
    assert("set"@[0] == 's' && "track"@[0] == 't');
    assert("fetch"@[0] == 'f' && "push"@[0] == 'p');
    assert("-r"@[1] == 'r' && "-m"@[1] == 'm');
}

/// Every call does what the flows rely on it to do, as `jj` reads its arguments: the working copy is
/// what is put on top of `main`, `main` is what is set and pushed, and a workspace stands on top of
/// the revisions that are meant.
pub broadcast proof fn calls_do_what_flows_rely_on(call: Call)
    ensures
        #[trigger] effect_of(call.args()) == call.effect(),
{
    reveal(effect_of);
    lemma_subcommands();
    let args = call.args();
    match call {
        JjCall::AddMerge { name, revs, message, path } => {
            lemma_revs_read(revs);
            assert(args.subrange(4, args.len() - 3) =~= rev_options(revs));
        },
        JjCall::AddFromMain { name, path } => {
            lemma_revs_read(seq!["main"@]);
            let none = Seq::<Seq<char>>::empty();
            assert(seq!["main"@].drop_last() =~= none);
            assert(rev_options(none) =~= none);
            assert(args.subrange(4, 6) =~= rev_options(seq!["main"@]));
        },
        _ => {},
    }
}

/// The arguments of each call, one by one. Behind `-r` stands the revision that a call acts on,
/// behind `-o` the one that it is put on.
pub proof fn calls_are_spelled(
    name: Seq<char>,
    path: Seq<char>,
    message: Seq<char>,
    rev: Seq<char>,
    remote: Seq<char>,
    ssh: Option<Seq<char>>,
    a: Seq<char>,
    b: Seq<char>,
)
    ensures
        Call::WorkspaceNames.args() == seq!["workspace"@, "list"@, "-T"@, "name ++ \"\\n\""@],
        (Call::ForgetWorkspace { name }).args() == seq!["workspace"@, "forget"@, name],
        Call::Snapshot.args() == seq!["util"@, "snapshot"@],
        Call::DiffSummary.args() == seq!["diff"@, "--summary"@, "-r"@, "@"@],
        Call::UnresolvedConflicts.args() == seq!["resolve"@, "--list"@],
        (Call::Describe { message }).args() == seq!["describe"@, "-m"@, message],
        (Call::SetMain { rev }).args() == seq!["bookmark"@, "set"@, "main"@, "-r"@, rev],
        (Call::CommitIds { rev }).args() == seq![
            "log"@,
            "--no-graph"@,
            "-r"@,
            rev,
            "-T"@,
            "commit_id ++ \"\\n\""@,
        ],
        Call::RebaseOnMain.args() == seq!["rebase"@, "-r"@, "@"@, "-o"@, "main"@],
        (Call::GitFetch { remote, ssh_command: ssh }).args() == seq![
            "git"@,
            "fetch"@,
            "--remote"@,
            remote,
        ],
        (Call::TrackMain { remote }).args() == seq!["bookmark"@, "track"@, "main@"@ + remote],
        (Call::GitPushMain { remote, ssh_command: ssh }).args() == seq![
            "git"@,
            "push"@,
            "--remote"@,
            remote,
            "--bookmark"@,
            "main"@,
        ],
        (Call::AddFromMain { name, path }).args() == seq![
            "workspace"@,
            "add"@,
            "--name"@,
            name,
            "-r"@,
            "main"@,
            path,
        ],
        (Call::AddMerge { name, revs: seq![a, b], message, path }).args() == seq![
            "workspace"@,
            "add"@,
            "--name"@,
            name,
            "-r"@,
            a,
            "-r"@,
            b,
            "-m"@,
            message,
            path,
        ],
{
    let none = Seq::<Seq<char>>::empty();
    reveal_with_fuel(rev_options, 3);
    assert(seq![a, b].drop_last() =~= seq![a]);
    assert(seq![a].drop_last() =~= none);
    assert(rev_options(seq![a, b]) =~= seq!["-r"@, a, "-r"@, b]);
    assert((Call::AddMerge { name, revs: seq![a, b], message, path }).args() =~= seq![
        "workspace"@,
        "add"@,
        "--name"@,
        name,
        "-r"@,
        a,
        "-r"@,
        b,
        "-m"@,
        message,
        path,
    ]);
}

/// A command line runs on the repository behind `-R`, without pager and colours, and ends with the
/// arguments of the call. The calls that speak to a remote hand on the SSH command that is
/// configured for it, and no other call has one.
pub proof fn command_lines_name_their_repository(repo: Seq<char>, call: Call)
    ensures
        command_line_of(repo, call).take(5) == seq![
            "--no-pager"@,
            "--color"@,
            "never"@,
            "-R"@,
            repo,
        ],
        command_line_of(repo, call).skip(5) == call.args(),
        match call {
            JjCall::GitFetch { remote: _, ssh_command } => call.ssh() == ssh_command,
            JjCall::GitPushMain { remote: _, ssh_command } => call.ssh() == ssh_command,
            _ => call.ssh() is None,
        },
{
    assert(command_line_of(repo, call).take(5) =~= seq![
        "--no-pager"@,
        "--color"@,
        "never"@,
        "-R"@,
        repo,
    ]);
    assert(command_line_of(repo, call).skip(5) =~= call.args());
}

/// A `jj` process that ended well gives its output as it is, and one that failed the command, shown
/// with a blank between its arguments, and what it wrote to its error output.
pub proof fn processes_tell_how_they_ended(
    repo: Seq<char>,
    call: Call,
    stdout: Seq<char>,
    stderr: Seq<char>,
)
    ensures
        completion(repo, call, true, stdout, stderr) == Ok::<_, Error<Seq<char>>>(stdout),
        completion(repo, call, false, stdout, stderr) matches Err(e) && {
            &&& e matches Error::JjCommand { repo: at, args, stderr: told }
            &&& at == repo
            &&& told == stderr
            &&& args == text::join(call.args(), seq![' '])
        },
{
}

/// The entries of a listing are its lines without the white space around them, in their order; blank
/// lines are no entries, and lines are told apart by what they hold alone.
pub proof fn entries_are_the_written_lines(output: Seq<char>, line: Seq<char>)
    requires
        !line.contains('\n'),
    ensures
        entries(line + seq!['\n'] + output) == (if text::is_blank(line) {
            entries(output)
        } else {
            seq![text::trim(line)] + entries(output)
        }),
{
    let f = |l: Seq<char>| text::trim(l);
    let g = |p: Seq<char>| p.len() > 0;
    text::lemma_lines_first(line, output);
    let first = text::strip_cr(line);
    text::lemma_trim_strip_cr(line);
    let rest = text::lines(output).map_values(f);
    let all = text::lines(line + seq!['\n'] + output).map_values(f);
    assert(all =~= seq![text::trim(line)] + rest);
    text::lemma_trim_blank(line);
    Seq::filter_distributes_over_add(seq![text::trim(line)], rest, g);
    let one = seq![text::trim(line)];
    let none = Seq::<Seq<char>>::empty();
    reveal(Seq::filter);
    assert(one.drop_last() =~= none);
    assert(none.filter(g) =~= none);
    assert(one.filter(g) =~= (if text::is_blank(line) { none } else { one }));
    assert(none + rest.filter(g) =~= rest.filter(g));
}

/// A listing of one entry is a commit id, one of none or several is none and is reported as it
/// stands.
pub proof fn commit_ids_are_the_entries(output: Seq<char>, op: Seq<char>)
    ensures
        ids_of(output, op) is Ok <==> entries(output).len() > 0,
        ids_of(output, op) matches Ok(ids) ==> ids == entries(output),
        ids_of(output, op) matches Err(e) ==> e == (Error::UnexpectedOutput { op, output }),
        entries(output).len() == 1 ==> only_id(entries(output), op) == Ok::<
            _,
            Error<Seq<char>>,
        >(entries(output)[0]),
        entries(output).len() != 1 ==> only_id(entries(output), op) is Err,
{
}

} // verus!
