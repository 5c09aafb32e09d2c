//! The files of a directory tree.

use vstd::prelude::*;

use crate::paths;
use crate::sync::{Fault, WikiSyncError};
use crate::text;
use crate::views;

verus! {

/// A directory as it was read.
#[derive(Debug)]
pub enum Listing {
    /// The directory could not be read, with the reason.
    Unreadable(String),
    Entries(Vec<Entry>),
}

/// An entry of a directory as it was read.
#[derive(Debug)]
pub enum Entry {
    File { name: String },
    Dir { name: String, listing: Listing },
    /// An entry that could not be read, with the reason.
    Broken { reason: String },
    /// An entry of which it could not be told whether it is a directory, with the reason.
    Untyped { name: String, reason: String },
}

/// A file of a wiki: its path in the wiki, and where it lies.
#[derive(Debug, PartialEq, Eq)]
pub struct WikiFile<S = String> {
    pub path: S,
    pub absolute_path: S,
}

/// A file of a wiki by its views.
pub type File = WikiFile<Seq<char>>;

impl DeepView for WikiFile<String> {
    type V = WikiFile<Seq<char>>;

    open spec fn deep_view(&self) -> WikiFile<Seq<char>> {
        WikiFile { path: self.path@, absolute_path: self.absolute_path@ }
    }
}

/// The path of an entry in a wiki, from that of its directory.
pub open spec fn entry_path(dir: Seq<char>, name: Seq<char>) -> Seq<char> {
    if dir.len() == 0 {
        name
    } else {
        dir + seq!['/'] + name
    }
}

/// The files of a directory, in the order in which they were read, or the first failure.
pub open spec fn listed_files(rel: Seq<char>, abs: Seq<char>, listing: Listing) -> Result<
    Seq<File>,
    Fault,
>
    decreases listing,
{
    match listing {
        Listing::Unreadable(reason) => Err(WikiSyncError::Io { path: abs, reason: reason@ }),
        Listing::Entries(entries) => entries_files(rel, abs, entries@),
    }
}

/// The files of some entries of a directory.
pub open spec fn entries_files(rel: Seq<char>, abs: Seq<char>, entries: Seq<Entry>) -> Result<
    Seq<File>,
    Fault,
>
    decreases entries,
{
    if entries.len() == 0 {
        Ok(Seq::empty())
    } else {
        match entries_files(rel, abs, entries.subrange(0, entries.len() - 1)) {
            Err(e) => Err(e),
            Ok(files) => match entry_files(rel, abs, entries[entries.len() - 1]) {
                Err(e) => Err(e),
                Ok(more) => Ok(files + more),
            },
        }
    }
}

/// The files of an entry of a directory: the entry itself, or those below it.
pub open spec fn entry_files(rel: Seq<char>, abs: Seq<char>, entry: Entry) -> Result<
    Seq<File>,
    Fault,
>
    decreases entry,
{
    match entry {
        Entry::File { name } => Ok(
            seq![
                WikiFile {
                    path: entry_path(rel, name@),
                    absolute_path: paths::join_path(abs, name@),
                },
            ],
        ),
        Entry::Dir { name, listing } => listed_files(
            entry_path(rel, name@),
            paths::join_path(abs, name@),
            listing,
        ),
        Entry::Broken { reason } => Err(WikiSyncError::Io { path: abs, reason: reason@ }),
        Entry::Untyped { name, reason } => Err(
            WikiSyncError::Io { path: paths::join_path(abs, name@), reason: reason@ },
        ),
    }
}

fn joined_entry(dir: &str, name: &str) -> (res: String)
    ensures
        res@ == entry_path(dir@, name@),
{
    if dir.is_empty() {
        name.to_string()
    } else {
        let mut out = dir.to_string();
        out.push('/');
        out.append(name);
        assert(out@ =~= dir@ + seq!['/'] + name@);
        out
    }
}

fn visit(rel: &str, abs: &str, listing: &Listing, files: &mut Vec<WikiFile>) -> (res: Result<
    (),
    WikiSyncError,
>)
    ensures
        match listed_files(rel@, abs@, *listing) {
            Ok(more) => res is Ok && final(files).deep_view() == old(files).deep_view() + more,
            Err(e) => views::outcome(res) == Err::<(), _>(e),
        },
    decreases listing,
{
    let entries = match listing {
        Listing::Unreadable(reason) => {
            return Err(WikiSyncError::Io { path: abs.to_string(), reason: reason.clone() });
        },
        Listing::Entries(entries) => entries,
    };
    let ghost start = files.deep_view();
    let n: usize = entries.len();
    let mut i: usize = 0;
    assert(entries@.subrange(0, 0) =~= Seq::empty());
    assert(files.deep_view() =~= start + Seq::<File>::empty());
    while i < n
        invariant
            n == entries@.len(),
            i <= n,
            *listing == Listing::Entries(*entries),
            start == old(files).deep_view(),
            entries_files(rel@, abs@, entries@.subrange(0, i as int)) is Ok,
            files.deep_view() == start + entries_files(
                rel@,
                abs@,
                entries@.subrange(0, i as int),
            )->Ok_0,
        decreases n - i,
    {
        let ghost before = files.deep_view();
        let ghost head = entries@.subrange(0, i + 1);
        proof {
            assert(head.subrange(0, head.len() - 1) =~= entries@.subrange(0, i as int));
            assert(head[head.len() - 1] == entries@[i as int]);
            lemma_refused_entry(rel@, abs@, entries@, i + 1);
            assert(entries_files(rel@, abs@, head) == match entry_files(
                rel@,
                abs@,
                entries@[i as int],
            ) {
                Err(e) => Err(e),
                Ok(more) => Ok(
                    entries_files(rel@, abs@, entries@.subrange(0, i as int))->Ok_0 + more,
                ),
            });
            assert(listed_files(rel@, abs@, *listing) == entries_files(rel@, abs@, entries@));
        }
        match &entries[i] {
            Entry::File { name } => {
                let file = WikiFile {
                    path: joined_entry(rel, name.as_str()),
                    absolute_path: paths::join(abs, name.as_str()),
                };
                let ghost shown = file.deep_view();
                files.push(file);
                assert(files.deep_view() =~= before.push(shown));
            },
            Entry::Dir { name, listing: below } => {
                assert(decreases_to!(*listing => *below));
                let rel_below = joined_entry(rel, name.as_str());
                let abs_below = paths::join(abs, name.as_str());
                match visit(rel_below.as_str(), abs_below.as_str(), below, files) {
                    Ok(()) => {},
                    Err(e) => return Err(e),
                }
            },
            Entry::Broken { reason } => {
                return Err(WikiSyncError::Io { path: abs.to_string(), reason: reason.clone() });
            },
            Entry::Untyped { name, reason } => {
                return Err(
                    WikiSyncError::Io {
                        path: paths::join(abs, name.as_str()),
                        reason: reason.clone(),
                    },
                );
            },
        }
        assert(files.deep_view() =~= start + entries_files(rel@, abs@, head)->Ok_0);
        i = i + 1;
    }
    assert(entries@.subrange(0, n as int) =~= entries@);
    Ok(())
}

proof fn lemma_refused_entry(rel: Seq<char>, abs: Seq<char>, entries: Seq<Entry>, k: int)
    requires
        0 <= k <= entries.len(),
    ensures
        entries_files(rel, abs, entries.subrange(0, k)) is Err ==> entries_files(
            rel,
            abs,
            entries,
        ) == entries_files(rel, abs, entries.subrange(0, k)),
    decreases entries.len() - k,
{
    if k < entries.len() {
        lemma_refused_entry(rel, abs, entries, k + 1);
        let next = entries.subrange(0, k + 1);
        assert(next.subrange(0, next.len() - 1) =~= entries.subrange(0, k));
    } else {
        assert(entries.subrange(0, k) =~= entries);
    }
}

/// The files of a directory that may be missing, which then has none.
pub open spec fn tree_files(dir: Seq<char>, found: Option<Listing>) -> Result<Seq<File>, Fault> {
    match found {
        None => Ok(Seq::empty()),
        Some(listing) => listed_files(Seq::empty(), dir, listing),
    }
}

/// The files of a directory that may be missing.
pub fn walk_dir(dir: &str, found: &Option<Listing>) -> (res: Result<Vec<WikiFile>, WikiSyncError>)
    ensures
        views::outcome(res) == tree_files(dir@, *found),
{
    let mut files: Vec<WikiFile> = Vec::new();
    assert(files.deep_view() =~= Seq::<File>::empty());
    match found {
        None => Ok(files),
        Some(listing) => {
            proof {
                reveal_strlit("");
                assert(""@ =~= Seq::<char>::empty());
            }
            match visit("", dir, listing, &mut files) {
                Ok(()) => {
                    assert(files.deep_view() =~= tree_files(dir@, *found)->Ok_0);
                    Ok(files)
                },
                Err(e) => Err(e),
            }
        },
    }
}

/// Whether a file is a Markdown page.
pub open spec fn is_page(file: File) -> bool {
    match paths::file_name_of(file.absolute_path) {
        Some(name) => paths::extension_of(name) == Some("md"@),
        None => false,
    }
}

fn page(file: &WikiFile) -> (res: bool)
    ensures
        res == is_page(file.deep_view()),
{
    match paths::file_name(file.absolute_path.as_str()) {
        Some(name) => match paths::extension(name.as_str()) {
            Some(extension) => text::same(extension.as_str(), "md"),
            None => false,
        },
        None => false,
    }
}

/// The Markdown pages of a directory that may be missing.
pub open spec fn tree_pages(dir: Seq<char>, found: Option<Listing>) -> Result<Seq<File>, Fault> {
    match tree_files(dir, found) {
        Ok(files) => Ok(files.filter(|file: File| is_page(file))),
        Err(e) => Err(e),
    }
}

/// The Markdown pages of a directory that may be missing.
pub fn walk_markdown_files(dir: &str, found: &Option<Listing>) -> (res: Result<
    Vec<WikiFile>,
    WikiSyncError,
>)
    ensures
        views::outcome(res) == tree_pages(dir@, *found),
{
    let files = match walk_dir(dir, found) {
        Ok(files) => files,
        Err(e) => return Err(e),
    };
    let ghost all = files.deep_view();
    let ghost f = |file: File| is_page(file);
    let n: usize = files.len();
    let mut pages: Vec<WikiFile> = Vec::new();
    let mut i: usize = 0;
    proof {
        reveal(Seq::filter);
        assert(all.take(0) =~= Seq::empty());
        assert(pages.deep_view() =~= all.take(0).filter(f));
    }
    while i < n
        invariant
            n == files@.len(),
            i <= n,
            all == files.deep_view(),
            f == (|file: File| is_page(file)),
            pages.deep_view() == all.take(i as int).filter(f),
        decreases n - i,
    {
        proof {
            reveal(Seq::filter);
            assert(all.take(i + 1).drop_last() =~= all.take(i as int));
            assert(all.take(i + 1).last() == files@[i as int].deep_view());
        }
        let ghost before = pages.deep_view();
        if page(&files[i]) {
            pages.push(
                WikiFile {
                    path: files[i].path.clone(),
                    absolute_path: files[i].absolute_path.clone(),
                },
            );
            assert(pages.deep_view() =~= before.push(files@[i as int].deep_view()));
        }
        i = i + 1;
    }
    assert(all.take(n as int) =~= all);
    Ok(pages)
}

/// Whether a name can be that of an entry of a directory.
pub open spec fn is_name(name: Seq<char>) -> bool {
    &&& paths::is_step(name)
    &&& name != seq!['.', '.']
    &&& !name.contains('/')
}

/// Whether the entries of a directory, and of those below it, have names.
pub open spec fn is_named(listing: Listing) -> bool
    decreases listing,
{
    match listing {
        Listing::Unreadable(_) => true,
        Listing::Entries(entries) => forall|i: int|
            0 <= i < entries@.len() ==> entry_named(#[trigger] entries@[i]),
    }
}

/// Whether an entry, and the entries below it, have names.
pub open spec fn entry_named(entry: Entry) -> bool
    decreases entry,
{
    match entry {
        Entry::File { name } => is_name(name@),
        Entry::Dir { name, listing } => is_name(name@) && is_named(listing),
        Entry::Broken { reason: _ } => true,
        Entry::Untyped { name: _, reason: _ } => true,
    }
}

/// Whether a path is made of names.
pub open spec fn made_of_names(path: Seq<char>) -> bool {
    forall|i: int|
        0 <= i < text::split(path, '/').len() ==> is_name(#[trigger] text::split(path, '/')[i])
}

proof fn lemma_entry_path(rel: Seq<char>, name: Seq<char>)
    requires
        rel.len() == 0 || made_of_names(rel),
        is_name(name),
    ensures
        made_of_names(entry_path(rel, name)),
{
    text::lemma_split_without(name, '/');
    if rel.len() > 0 {
        text::lemma_split_around(rel, name, '/');
        let parts = text::split(rel, '/');
        let whole = text::split(entry_path(rel, name), '/');
        assert forall|i: int| 0 <= i < whole.len() implies is_name(#[trigger] whole[i]) by {
            if i < parts.len() {
                assert(whole[i] == parts[i]);
            }
        }
    }
}

proof fn lemma_listed_names(rel: Seq<char>, abs: Seq<char>, listing: Listing)
    requires
        rel.len() == 0 || made_of_names(rel),
        is_named(listing),
    ensures
        listed_files(rel, abs, listing) matches Ok(files) ==> forall|k: int|
            0 <= k < files.len() ==> made_of_names(#[trigger] files[k].path),
    decreases listing,
{
    match listing {
        Listing::Unreadable(_) => {},
        Listing::Entries(entries) => {
            lemma_entries_names(rel, abs, entries@);
        },
    }
}

proof fn lemma_entries_names(rel: Seq<char>, abs: Seq<char>, entries: Seq<Entry>)
    requires
        rel.len() == 0 || made_of_names(rel),
        forall|i: int| 0 <= i < entries.len() ==> entry_named(#[trigger] entries[i]),
    ensures
        entries_files(rel, abs, entries) matches Ok(files) ==> forall|k: int|
            0 <= k < files.len() ==> made_of_names(#[trigger] files[k].path),
    decreases entries,
{
    if entries.len() > 0 {
        let before = entries.subrange(0, entries.len() - 1);
        let entry = entries[entries.len() - 1];
        assert forall|i: int| 0 <= i < before.len() implies entry_named(#[trigger] before[i]) by {
            assert(before[i] == entries[i]);
        }
        lemma_entries_names(rel, abs, before);
        match entry {
            Entry::File { name } => {
                lemma_entry_path(rel, name@);
            },
            Entry::Dir { name, listing } => {
                lemma_entry_path(rel, name@);
                lemma_listed_names(
                    entry_path(rel, name@),
                    paths::join_path(abs, name@),
                    listing,
                );
            },
            _ => {},
        }
        if let Ok(files) = entries_files(rel, abs, entries) {
            let earlier = entries_files(rel, abs, before)->Ok_0;
            let more = entry_files(rel, abs, entry)->Ok_0;
            assert(files == earlier + more);
            assert forall|k: int| 0 <= k < files.len() implies made_of_names(
                #[trigger] files[k].path,
            ) by {
                if k < earlier.len() {
                    assert(files[k] == earlier[k]);
                } else {
                    assert(files[k] == more[k - earlier.len()]);
                }
            }
        }
    }
}

/// A path made of names is relative, and none of its components leads upwards.
pub proof fn lemma_names_stay_inside(path: Seq<char>)
    requires
        made_of_names(path),
    ensures
        !paths::is_absolute(path),
        !paths::components(path).contains(seq!['.', '.']),
{
    let parts = text::split(path, '/');
    text::lemma_split_where_len(path, text::is_char('/'));
    assert(is_name(parts[0]));
    if paths::is_absolute(path) {
        let empty = Seq::<char>::empty();
        text::lemma_split_around(empty, path.drop_first(), '/');
        assert(path =~= empty + seq!['/'] + path.drop_first());
        assert(parts[0] == empty);
    }
    let f = |p: Seq<char>| paths::is_step(p);
    views::lemma_filtered(parts, f);
    if paths::components(path).contains(seq!['.', '.']) {
        let k = choose|k: int|
            0 <= k < paths::components(path).len() && paths::components(path)[k] == seq!['.', '.'];
        assert(paths::components(path) =~= parts.filter(f));
        assert(parts.filter(f).contains(seq!['.', '.']));
        let i = choose|i: int| 0 <= i < parts.len() && parts[i] == seq!['.', '.'];
        assert(is_name(parts[i]));
    }
}

/// The files of a wiki have paths that stay inside it: relative ones, with no component that leads
/// upwards.
pub proof fn listed_paths_stay_inside(dir: Seq<char>, found: Option<Listing>, files: Seq<File>)
    requires
        found matches Some(listing) ==> is_named(listing),
        tree_files(dir, found) == Ok::<Seq<File>, Fault>(files),
    ensures
        forall|k: int|
            0 <= k < files.len() ==> !paths::is_absolute(#[trigger] files[k].path)
                && !paths::components(files[k].path).contains(seq!['.', '.']),
{
    match found {
        None => {},
        Some(listing) => {
            lemma_listed_names(Seq::empty(), dir, listing);
            let listed = listed_files(Seq::empty(), dir, listing);
            assert(listed == Ok::<Seq<File>, Fault>(files));
            assert forall|k: int| 0 <= k < files.len() implies !paths::is_absolute(
                #[trigger] files[k].path,
            ) && !paths::components(files[k].path).contains(seq!['.', '.']) by {
                assert(listed->Ok_0[k] == files[k]);
                assert(made_of_names(listed->Ok_0[k].path));
                lemma_names_stay_inside(files[k].path);
            }
        },
    }
}

/// The files of a directory are those of its entries, in the order in which they were read: a file
/// is listed with its path below the tree's root, with slashes, and with its place; a directory is
/// listed with the files below it; an entry that could not be read fails the listing.
pub proof fn directories_are_listed_entry_by_entry(
    rel: Seq<char>,
    abs: Seq<char>,
    entries: Seq<Entry>,
    entry: Entry,
)
    requires
        abs.len() > 0,
        abs.last() != '/',
        entries_files(rel, abs, entries) is Ok,
        entry matches Entry::File { name } ==> is_name(name@),
        entry matches Entry::Dir { name, listing } ==> is_name(name@),
        entry matches Entry::Untyped { name, reason } ==> is_name(name@),
    ensures
        entries_files(rel, abs, Seq::empty()) == Ok::<_, Fault>(Seq::<File>::empty()),
        ({
            let before = entries_files(rel, abs, entries)->Ok_0;
            let below = |name: Seq<char>|
                if rel.len() == 0 {
                    name
                } else {
                    rel + "/"@ + name
                };
            let all = entries_files(rel, abs, entries.push(entry));
            match entry {
                Entry::File { name } => all == Ok::<_, Fault>(
                    before.push(
                        WikiFile { path: below(name@), absolute_path: abs + "/"@ + name@ },
                    ),
                ),
                Entry::Dir { name, listing } => match listing {
                    Listing::Unreadable(reason) => all == Err::<Seq<File>, _>(
                        WikiSyncError::Io { path: abs + "/"@ + name@, reason: reason@ },
                    ),
                    Listing::Entries(inner) => match entries_files(
                        below(name@),
                        abs + "/"@ + name@,
                        inner@,
                    ) {
                        Ok(more) => all == Ok::<_, Fault>(before + more),
                        Err(e) => all == Err::<Seq<File>, _>(e),
                    },
                },
                Entry::Broken { reason } => all == Err::<Seq<File>, _>(
                    WikiSyncError::Io { path: abs, reason: reason@ },
                ),
                Entry::Untyped { name, reason } => all == Err::<Seq<File>, _>(
                    WikiSyncError::Io { path: abs + "/"@ + name@, reason: reason@ },
                ),
            }
        }),
{
    reveal_strlit("/");
    assert("/"@ =~= seq!['/']);
    let all = entries.push(entry);
    assert(all.subrange(0, all.len() - 1) =~= entries);
    assert(all[all.len() - 1] == entry);
    let before = entries_files(rel, abs, entries)->Ok_0;
    let name = match entry {
        Entry::File { name } => name@,
        Entry::Dir { name, listing } => name@,
        Entry::Untyped { name, reason } => name@,
        Entry::Broken { reason } => "x"@,
    };
    reveal_strlit("x");
    if !(entry is Broken) {
        assert(name.contains(name[0]));
        paths::paths_are_taken_from_directories(abs, name);
    }
    match entry {
        Entry::File { name } => {
            let file = WikiFile {
                path: entry_path(rel, name@),
                absolute_path: paths::join_path(abs, name@),
            };
            assert(paths::join_path(abs, name@) == abs + "/"@ + name@);
            assert(before + seq![file] =~= before.push(file));
            assert(entry_files(rel, abs, entry) == Ok::<_, Fault>(seq![file]));
        },
        _ => {},
    }
}

/// A wiki whose directory is missing has no files; one whose directory cannot be read fails; any
/// other has the files of its entries.
pub proof fn wikis_are_listed_from_their_root(dir: Seq<char>, reason: String, entries: Vec<Entry>)
    ensures
        tree_files(dir, None) == Ok::<_, Fault>(Seq::<File>::empty()),
        tree_files(dir, Some(Listing::Unreadable(reason))) == Err::<Seq<File>, _>(
            WikiSyncError::Io { path: dir, reason: reason@ },
        ),
        tree_files(dir, Some(Listing::Entries(entries))) == entries_files(
            Seq::empty(),
            dir,
            entries@,
        ),
{
}

/// The pages of a wiki are its files whose names end in `.md`, in their order.
pub proof fn pages_are_the_markdown_files(
    dir: Seq<char>,
    found: Option<Listing>,
    file: File,
    place: Seq<char>,
    stem: Seq<char>,
    ext: Seq<char>,
)
    requires
        tree_files(dir, found) is Ok,
        file.absolute_path == place + "/"@ + (stem + "."@ + ext),
        stem.len() > 0,
        !stem.contains('/'),
        ext.len() > 0,
        !ext.contains('/'),
        !ext.contains('.'),
    ensures
        tree_pages(dir, found) is Ok,
        tree_pages(dir, found)->Ok_0.contains(file) <==> tree_files(dir, found)->Ok_0.contains(file)
            && ext == "md"@,
{
    paths::files_have_their_names(place, stem, ext);
    views::lemma_filtered(tree_files(dir, found)->Ok_0, |file: File| is_page(file));
}

} // verus!
