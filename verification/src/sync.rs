//! Mirrors of a wiki: what a client lacks, and how its mirror is brought up to date.

use vstd::prelude::*;

use crate::text;

pub mod apply;
pub mod convergence;
pub mod exchange;
pub mod tree;

verus! {

/// The file in a mirror that marks it as one and keeps it out of version control.
pub const LOCAL_MIRROR_GITIGNORE_PATH: &'static str = ".gitignore";

/// What the marker of a mirror holds.
pub const LOCAL_MIRROR_GITIGNORE_CONTENT: &'static str = "*\n";

/// Why a synchronisation of a mirror failed.
#[derive(Debug, PartialEq, Eq)]
#[non_exhaustive]
pub enum WikiSyncError<S = String> {
    Io { path: S, reason: S },
    ParentDir(S),
    AbsolutePath(S),
    EscapedPath(S),
    UnsafeLocalMirrorPath { path: S },
}

/// A failure by its views.
pub type Fault = WikiSyncError<Seq<char>>;

impl DeepView for WikiSyncError<String> {
    type V = WikiSyncError<Seq<char>>;

    open spec fn deep_view(&self) -> WikiSyncError<Seq<char>> {
        match self {
            WikiSyncError::Io { path, reason } => WikiSyncError::Io {
                path: path@,
                reason: reason@,
            },
            WikiSyncError::ParentDir(path) => WikiSyncError::ParentDir(path@),
            WikiSyncError::AbsolutePath(path) => WikiSyncError::AbsolutePath(path@),
            WikiSyncError::EscapedPath(path) => WikiSyncError::EscapedPath(path@),
            WikiSyncError::UnsafeLocalMirrorPath { path } => WikiSyncError::UnsafeLocalMirrorPath {
                path: path@,
            },
        }
    }
}

impl WikiSyncError<Seq<char>> {
    /// What the error says.
    pub open spec fn says(self) -> Seq<char> {
        match self {
            WikiSyncError::Io { path, reason: _ } => "failed to read '"@ + path + "'"@,
            WikiSyncError::ParentDir(path) => "server sent path with '..': '"@ + path + "'"@,
            WikiSyncError::AbsolutePath(path) => "server sent absolute path: '"@ + path + "'"@,
            WikiSyncError::EscapedPath(path) => "resolved path escapes wiki directory: '"@ + path
                + "'"@,
            WikiSyncError::UnsafeLocalMirrorPath {
                path,
            } => "refusing to sync into existing non-wikidesk directory '"@ + path + "'"@,
        }
    }
}

impl WikiSyncError {
    /// The message of the error.
    pub fn message(&self) -> (res: String)
        ensures
            res@ == self.deep_view().says(),
    {
        match self {
            WikiSyncError::Io { path, reason: _ } => "failed to read '".to_string().concat(
                path.as_str(),
            ).concat("'"),
            WikiSyncError::ParentDir(path) => "server sent path with '..': '".to_string().concat(
                path.as_str(),
            ).concat("'"),
            WikiSyncError::AbsolutePath(path) => "server sent absolute path: '".to_string().concat(
                path.as_str(),
            ).concat("'"),
            WikiSyncError::EscapedPath(
                path,
            ) => "resolved path escapes wiki directory: '".to_string().concat(
                path.as_str(),
            ).concat("'"),
            WikiSyncError::UnsafeLocalMirrorPath {
                path,
            } => "refusing to sync into existing non-wikidesk directory '".to_string().concat(
                path.as_str(),
            ).concat("'"),
        }
    }
}

/// Whether a path is that of the marker of a mirror.
pub open spec fn is_control(path: Seq<char>) -> bool {
    path == LOCAL_MIRROR_GITIGNORE_PATH@
}

/// Whether a path is that of the marker of a mirror.
pub fn is_local_mirror_control_path(path: &str) -> (res: bool)
    ensures
        res == is_control(path@),
{
    text::same(path, LOCAL_MIRROR_GITIGNORE_PATH)
}

/// What is said of a failed synchronisation.
pub proof fn failed_synchronisations_are_told(path: Seq<char>, reason: Seq<char>)
    ensures
        (WikiSyncError::Io { path, reason }).says() == "failed to read '"@ + path + "'"@,
        WikiSyncError::ParentDir(path).says() == "server sent path with '..': '"@ + path + "'"@,
        WikiSyncError::AbsolutePath(path).says() == "server sent absolute path: '"@ + path + "'"@,
        WikiSyncError::EscapedPath(path).says() == "resolved path escapes wiki directory: '"@ + path
            + "'"@,
        (WikiSyncError::UnsafeLocalMirrorPath { path }).says()
            == "refusing to sync into existing non-wikidesk directory '"@ + path + "'"@,
{
}

/// A mirror is marked by a file that keeps everything in it out of version control. No other path
/// is that of the marker.
pub proof fn mirrors_bear_a_marker(path: Seq<char>)
    ensures
        is_control(path) <==> path == ".gitignore"@,
        LOCAL_MIRROR_GITIGNORE_PATH@ == ".gitignore"@,
        LOCAL_MIRROR_GITIGNORE_CONTENT@ == "*\n"@,
{
}

} // verus!
