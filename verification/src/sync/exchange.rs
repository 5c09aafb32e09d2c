//! What a client and the server tell each other about their files.

use vstd::hash_map::StringHashMap;
use vstd::hash_set::StringHashSet;
use vstd::prelude::*;
use vstd::utf8;

use crate::sync;
use crate::sync::{Fault, WikiSyncError};
use crate::views;

verus! {

/// A file by its path and the SHA-256 digest of its content.
#[derive(Debug, Clone, PartialEq, Eq)]
pub struct FileEntry<S = String, C = [u8; 32]> {
    pub path: S,
    pub checksum: C,
}

/// What a client sends: the files that it has.
#[derive(Debug, PartialEq, Eq)]
pub struct SyncRequest {
    pub files: Vec<FileEntry>,
}

/// A file by its path and its content.
#[derive(Debug, Clone, PartialEq, Eq)]
pub struct FileContent<S = String> {
    pub path: S,
    pub content: S,
}

/// What the server sends: the files that the client lacks or has with other content, and the paths
/// of those that the server does not have.
#[derive(Debug, Clone, PartialEq, Eq)]
pub struct SyncResponse<F = Vec<FileContent>, L = Vec<String>> {
    pub upserts: F,
    pub deletes: L,
}

/// How many files a synchronisation changes.
#[derive(Debug, Clone, Copy, PartialEq, Eq, Structural)]
pub struct SyncSummary {
    pub updated: usize,
    pub deleted: usize,
}

/// A file and its digest by their views.
pub type Sum = FileEntry<Seq<char>, Seq<u8>>;

/// A file and its content by their views.
pub type Content = FileContent<Seq<char>>;

/// A response by its views.
pub type Response = SyncResponse<Seq<FileContent<Seq<char>>>, Seq<Seq<char>>>;

impl DeepView for FileEntry<String, [u8; 32]> {
    type V = FileEntry<Seq<char>, Seq<u8>>;

    open spec fn deep_view(&self) -> FileEntry<Seq<char>, Seq<u8>> {
        FileEntry { path: self.path@, checksum: self.checksum@ }
    }
}

impl DeepView for FileContent<String> {
    type V = FileContent<Seq<char>>;

    open spec fn deep_view(&self) -> FileContent<Seq<char>> {
        FileContent { path: self.path@, content: self.content@ }
    }
}

impl DeepView for SyncResponse<Vec<FileContent>, Vec<String>> {
    type V = SyncResponse<Seq<FileContent<Seq<char>>>, Seq<Seq<char>>>;

    open spec fn deep_view(&self) -> SyncResponse<Seq<FileContent<Seq<char>>>, Seq<Seq<char>>> {
        SyncResponse { upserts: self.upserts.deep_view(), deletes: self.deletes.deep_view() }
    }
}

/// The SHA-256 digest of some bytes.
pub uninterp spec fn sha256(bytes: Seq<u8>) -> Seq<u8>;

/// `Sha256::digest` of the crate `sha2`, named [`sha256`]. What the digest is on given bytes is
/// left unsaid.
#[verifier::external_body]
fn digest(bytes: &Vec<u8>) -> (res: [u8; 32])
    ensures
        res@ == sha256(bytes@),
{
    <sha2::Sha256 as sha2::Digest>::digest(bytes).into()
}

/// The standard library's `String::from_utf8`: the text that valid UTF-8 encodes, and nothing for
/// other bytes.
#[verifier::external_body]
fn utf8_text(bytes: &Vec<u8>) -> (res: Option<String>)
    ensures
        match res {
            Some(text) => utf8::valid_utf8(bytes@) && text@ == utf8::decode_utf8(bytes@),
            None => !utf8::valid_utf8(bytes@),
        },
{
    String::from_utf8(bytes.clone()).ok()
}

/// A file as it was read: its bytes, or the reason why it could not be read.
#[derive(Debug, PartialEq, Eq)]
pub struct ReadFile {
    pub path: String,
    pub read: Result<Vec<u8>, String>,
}

/// The entry of a file that was read.
pub open spec fn entry_of(file: ReadFile) -> Result<Sum, Fault> {
    match file.read {
        Ok(bytes) => Ok(FileEntry { path: file.path@, checksum: sha256(bytes@) }),
        Err(reason) => Err(WikiSyncError::Io { path: file.path@, reason: reason@ }),
    }
}

/// The entries of files, or the failure of the first that could not be read.
pub open spec fn entries_of(files: Seq<ReadFile>) -> Result<Seq<Sum>, Fault>
    decreases files.len(),
{
    if files.len() == 0 {
        Ok(Seq::empty())
    } else {
        match entries_of(files.drop_last()) {
            Err(e) => Err(e),
            Ok(entries) => match entry_of(files.last()) {
                Err(e) => Err(e),
                Ok(entry) => Ok(entries.push(entry)),
            },
        }
    }
}

proof fn lemma_refused_file(files: Seq<ReadFile>, k: int)
    requires
        0 <= k <= files.len(),
    ensures
        entries_of(files.take(k)) is Err ==> entries_of(files) == entries_of(files.take(k)),
    decreases files.len() - k,
{
    if k < files.len() {
        lemma_refused_file(files, k + 1);
        assert(files.take(k + 1).drop_last() =~= files.take(k));
    } else {
        assert(files.take(k) =~= files);
    }
}

/// The entries of files that were read.
pub fn snapshot_files(files: &Vec<ReadFile>) -> (res: Result<Vec<FileEntry>, WikiSyncError>)
    ensures
        views::outcome(res) == entries_of(files@),
{
    let n: usize = files.len();
    let mut entries: Vec<FileEntry> = Vec::new();
    let mut i: usize = 0;
    assert(files@.take(0) =~= Seq::empty());
    assert(entries.deep_view() =~= Seq::empty());
    while i < n
        invariant
            n == files@.len(),
            i <= n,
            entries_of(files@.take(i as int)) == Ok::<_, Fault>(entries.deep_view()),
        decreases n - i,
    {
        proof {
            assert(files@.take(i + 1).drop_last() =~= files@.take(i as int));
            assert(files@.take(i + 1).last() == files@[i as int]);
            lemma_refused_file(files@, i + 1);
        }
        let ghost before = entries.deep_view();
        match &files[i].read {
            Ok(bytes) => {
                let entry = FileEntry { path: files[i].path.clone(), checksum: digest(bytes) };
                let ghost shown = entry.deep_view();
                entries.push(entry);
                assert(entries.deep_view() =~= before.push(shown));
            },
            Err(reason) => {
                return Err(
                    WikiSyncError::Io { path: files[i].path.clone(), reason: reason.clone() },
                );
            },
        }
        i = i + 1;
    }
    assert(files@.take(n as int) =~= files@);
    Ok(entries)
}

/// What a mirror tells the server: its entries without its marker.
pub open spec fn mirror_entries(files: Seq<ReadFile>) -> Result<Seq<Sum>, Fault> {
    match entries_of(files) {
        Ok(entries) => Ok(entries.filter(|entry: Sum| !sync::is_control(entry.path))),
        Err(e) => Err(e),
    }
}

/// What a mirror tells the server.
pub fn snapshot_local_mirror(files: &Vec<ReadFile>) -> (res: Result<Vec<FileEntry>, WikiSyncError>)
    ensures
        views::outcome(res) == mirror_entries(files@),
{
    let entries = match snapshot_files(files) {
        Ok(entries) => entries,
        Err(e) => return Err(e),
    };
    let ghost all = entries.deep_view();
    let ghost f = |entry: Sum| !sync::is_control(entry.path);
    let n: usize = entries.len();
    let mut out: Vec<FileEntry> = Vec::new();
    let mut i: usize = 0;
    proof {
        reveal(Seq::filter);
        assert(all.take(0) =~= Seq::empty());
        assert(out.deep_view() =~= all.take(0).filter(f));
    }
    while i < n
        invariant
            n == entries@.len(),
            i <= n,
            all == entries.deep_view(),
            f == (|entry: Sum| !sync::is_control(entry.path)),
            out.deep_view() == all.take(i as int).filter(f),
        decreases n - i,
    {
        proof {
            reveal(Seq::filter);
            assert(all.take(i + 1).drop_last() =~= all.take(i as int));
            assert(all.take(i + 1).last() == entries@[i as int].deep_view());
        }
        let ghost before = out.deep_view();
        if !sync::is_local_mirror_control_path(entries[i].path.as_str()) {
            out.push(
                FileEntry { path: entries[i].path.clone(), checksum: entries[i].checksum },
            );
            assert(out.deep_view() =~= before.push(entries@[i as int].deep_view()));
        }
        i = i + 1;
    }
    assert(all.take(n as int) =~= all);
    Ok(out)
}

/// The digests that a list of entries gives; for a path that occurs more than once, the last.
pub open spec fn digests(entries: Seq<Sum>) -> Map<Seq<char>, Seq<u8>>
    decreases entries.len(),
{
    if entries.len() == 0 {
        Map::empty()
    } else {
        digests(entries.drop_last()).insert(entries.last().path, entries.last().checksum)
    }
}

/// The paths of a list of entries.
pub open spec fn paths_of(entries: Seq<Sum>) -> Set<Seq<char>> {
    Set::new(|path: Seq<char>| exists|i: int| 0 <= i < entries.len() && entries[i].path == path)
}

/// Whether the client has a file of the server as it is.
pub open spec fn unchanged(entry: Sum, client: Seq<Sum>) -> bool {
    digests(client).contains_key(entry.path) && digests(client)[entry.path] == entry.checksum
}

/// A file of the server for the client: its text.
pub open spec fn content_of(path: Seq<char>, bytes: Seq<u8>) -> Result<Content, Fault> {
    if utf8::valid_utf8(bytes) {
        Ok(FileContent { path, content: utf8::decode_utf8(bytes) })
    } else {
        Err(WikiSyncError::Io { path, reason: "stream did not contain valid UTF-8"@ })
    }
}

/// The files that the client lacks or has with other content, in the server's order, or the
/// failure of the first of them that is no text.
pub open spec fn upserts_of(
    entries: Seq<Sum>,
    contents: Seq<Seq<u8>>,
    client: Seq<Sum>,
) -> Result<Seq<Content>, Fault>
    decreases entries.len(),
{
    if entries.len() == 0 {
        Ok(Seq::empty())
    } else {
        match upserts_of(entries.drop_last(), contents.drop_last(), client) {
            Err(e) => Err(e),
            Ok(upserts) => if unchanged(entries.last(), client) {
                Ok(upserts)
            } else {
                match content_of(entries.last().path, contents.last()) {
                    Err(e) => Err(e),
                    Ok(content) => Ok(upserts.push(content)),
                }
            },
        }
    }
}

/// The paths of the client that the server does not have, in the client's order.
pub open spec fn deletes_of(entries: Seq<Sum>, client: Seq<Sum>) -> Seq<Seq<char>> {
    client.map_values(|entry: Sum| entry.path).filter(
        |path: Seq<char>| !paths_of(entries).contains(path),
    )
}

/// What the server answers.
pub open spec fn response_of(
    entries: Seq<Sum>,
    contents: Seq<Seq<u8>>,
    client: Seq<Sum>,
) -> Result<Response, Fault> {
    match upserts_of(entries, contents, client) {
        Err(e) => Err(e),
        Ok(upserts) => Ok(SyncResponse { upserts, deletes: deletes_of(entries, client) }),
    }
}

proof fn lemma_refused_upsert(
    entries: Seq<Sum>,
    contents: Seq<Seq<u8>>,
    client: Seq<Sum>,
    k: int,
)
    requires
        0 <= k <= entries.len(),
        entries.len() == contents.len(),
    ensures
        upserts_of(entries.take(k), contents.take(k), client) is Err ==> upserts_of(
            entries,
            contents,
            client,
        ) == upserts_of(entries.take(k), contents.take(k), client),
    decreases entries.len() - k,
{
    if k < entries.len() {
        lemma_refused_upsert(entries, contents, client, k + 1);
        assert(entries.take(k + 1).drop_last() =~= entries.take(k));
        assert(contents.take(k + 1).drop_last() =~= contents.take(k));
    } else {
        assert(entries.take(k) =~= entries);
        assert(contents.take(k) =~= contents);
    }
}

/// Whether a table of digests is the one that is meant.
spec fn tabled(table: Map<Seq<char>, [u8; 32]>, meant: Map<Seq<char>, Seq<u8>>) -> bool {
    &&& table.dom() =~= meant.dom()
    &&& forall|path: Seq<char>|
        meant.contains_key(path) ==> (#[trigger] table[path])@ == meant[path]
}

fn digest_table(entries: &Vec<FileEntry>) -> (res: StringHashMap<[u8; 32]>)
    ensures
        tabled(res@, digests(entries.deep_view())),
{
    let ghost all = entries.deep_view();
    let n: usize = entries.len();
    let mut table: StringHashMap<[u8; 32]> = StringHashMap::new();
    let mut i: usize = 0;
    assert(all.take(0) =~= Seq::empty());
    while i < n
        invariant
            n == entries@.len(),
            i <= n,
            all == entries.deep_view(),
            tabled(table@, digests(all.take(i as int))),
        decreases n - i,
    {
        proof {
            assert(all.take(i + 1).drop_last() =~= all.take(i as int));
            assert(all.take(i + 1).last() == entries@[i as int].deep_view());
        }
        table.insert(entries[i].path.clone(), entries[i].checksum);
        i = i + 1;
    }
    assert(all.take(n as int) =~= all);
    table
}

fn path_set(entries: &Vec<FileEntry>) -> (res: StringHashSet)
    ensures
        res@ == paths_of(entries.deep_view()),
{
    let ghost all = entries.deep_view();
    let n: usize = entries.len();
    let mut set = StringHashSet::new();
    let mut i: usize = 0;
    assert(set@ =~= paths_of(all.take(0)));
    while i < n
        invariant
            n == entries@.len(),
            i <= n,
            all == entries.deep_view(),
            set@ == paths_of(all.take(i as int)),
        decreases n - i,
    {
        let ghost before = set@;
        set.insert(entries[i].path.clone());
        proof {
            let head = all.take(i + 1);
            assert(head[i as int] == entries@[i as int].deep_view());
            assert forall|path: Seq<char>| #[trigger]
                paths_of(head).contains(path) == before.insert(head[i as int].path).contains(
                    path,
                ) by {
                if before.contains(path) {
                    let k = choose|k: int|
                        0 <= k < all.take(i as int).len() && all.take(i as int)[k].path == path;
                    assert(head[k].path == path);
                }
                if paths_of(head).contains(path) {
                    let k = choose|k: int| 0 <= k < head.len() && head[k].path == path;
                    if k < i {
                        assert(all.take(i as int)[k].path == path);
                    }
                }
            }
            assert(set@ =~= paths_of(head));
        }
        i = i + 1;
    }
    assert(all.take(n as int) =~= all);
    set
}

fn same_digest(a: &[u8; 32], b: &[u8; 32]) -> (res: bool)
    ensures
        res == (a@ == b@),
{
    let mut i: usize = 0;
    while i < 32
        invariant
            i <= 32,
            forall|k: int| 0 <= k < i ==> a@[k] == b@[k],
        decreases 32 - i,
    {
        if a[i] != b[i] {
            assert(a@[i as int] != b@[i as int]);
            return false;
        }
        i = i + 1;
    }
    assert(a@ =~= b@);
    true
}

/// Whether files could all be read.
pub open spec fn all_read(files: Seq<ReadFile>) -> bool {
    forall|i: int| 0 <= i < files.len() ==> (#[trigger] files[i]).read is Ok
}

/// The bytes of files that were read.
pub open spec fn bytes_of(files: Seq<ReadFile>) -> Seq<Seq<u8>> {
    files.map_values(|file: ReadFile| file.read->Ok_0@)
}

fn changed_files(
    entries: &Vec<FileEntry>,
    files: &Vec<ReadFile>,
    client: &Vec<FileEntry>,
) -> (res: Result<Vec<FileContent>, WikiSyncError>)
    requires
        files@.len() == entries@.len(),
        all_read(files@),
    ensures
        views::outcome(res) == upserts_of(
            entries.deep_view(),
            bytes_of(files@),
            client.deep_view(),
        ),
{
    let table = digest_table(client);
    let ghost all = entries.deep_view();
    let ghost texts = bytes_of(files@);
    let ghost has = client.deep_view();
    let n: usize = entries.len();
    let mut upserts: Vec<FileContent> = Vec::new();
    let mut i: usize = 0;
    assert(all.take(0) =~= Seq::empty());
    assert(upserts.deep_view() =~= Seq::empty());
    while i < n
        invariant
            n == entries@.len(),
            n == files@.len(),
            i <= n,
            all_read(files@),
            all == entries.deep_view(),
            texts == bytes_of(files@),
            has == client.deep_view(),
            tabled(table@, digests(has)),
            upserts_of(all.take(i as int), texts.take(i as int), has) == Ok::<_, Fault>(
                upserts.deep_view(),
            ),
        decreases n - i,
    {
        proof {
            assert(all.take(i + 1).drop_last() =~= all.take(i as int));
            assert(texts.take(i + 1).drop_last() =~= texts.take(i as int));
            assert(all.take(i + 1).last() == entries@[i as int].deep_view());
            assert(texts.take(i + 1).last() == files@[i as int].read->Ok_0@);
            lemma_refused_upsert(all, texts, has, i + 1);
        }
        let entry = &entries[i];
        let same = match table.get(entry.path.as_str()) {
            Some(checksum) => same_digest(checksum, &entry.checksum),
            None => false,
        };
        let ghost before = upserts.deep_view();
        if !same {
            let text = match &files[i].read {
                Ok(bytes) => utf8_text(bytes),
                Err(_) => None,
            };
            match text {
                Some(content) => {
                    let file = FileContent { path: entry.path.clone(), content };
                    let ghost shown = file.deep_view();
                    upserts.push(file);
                    assert(upserts.deep_view() =~= before.push(shown));
                },
                None => {
                    return Err(
                        WikiSyncError::Io {
                            path: entry.path.clone(),
                            reason: "stream did not contain valid UTF-8".to_string(),
                        },
                    );
                },
            }
        }
        i = i + 1;
    }
    assert(all.take(n as int) =~= all);
    assert(texts.take(n as int) =~= texts);
    Ok(upserts)
}

fn vanished_paths(entries: &Vec<FileEntry>, client: &Vec<FileEntry>) -> (res: Vec<String>)
    ensures
        res.deep_view() == deletes_of(entries.deep_view(), client.deep_view()),
{
    let on_server = path_set(entries);
    let ghost server = entries.deep_view();
    let ghost all = client.deep_view().map_values(|entry: Sum| entry.path);
    let ghost f = |path: Seq<char>| !paths_of(server).contains(path);
    let n: usize = client.len();
    let mut out: Vec<String> = Vec::new();
    let mut i: usize = 0;
    proof {
        reveal(Seq::filter);
        assert(all.take(0) =~= Seq::empty());
        assert(out.deep_view() =~= all.take(0).filter(f));
    }
    while i < n
        invariant
            n == client@.len(),
            i <= n,
            on_server@ == paths_of(server),
            all == client.deep_view().map_values(|entry: Sum| entry.path),
            f == (|path: Seq<char>| !paths_of(server).contains(path)),
            out.deep_view() == all.take(i as int).filter(f),
        decreases n - i,
    {
        proof {
            reveal(Seq::filter);
            assert(all.take(i + 1).drop_last() =~= all.take(i as int));
            assert(client.deep_view()[i as int] == client@[i as int].deep_view());
            assert(all.take(i + 1).last() == client@[i as int].path@);
        }
        let ghost before = out.deep_view();
        if !on_server.contains(client[i].path.as_str()) {
            out.push(client[i].path.clone());
            assert(out.deep_view() =~= before.push(client@[i as int].path@));
        }
        i = i + 1;
    }
    assert(all.take(n as int) =~= all);
    out
}

/// What the server answers, given the files of its wiki and their entries.
pub fn sync_response(
    entries: &Vec<FileEntry>,
    files: &Vec<ReadFile>,
    client: &Vec<FileEntry>,
) -> (res: Result<SyncResponse, WikiSyncError>)
    requires
        files@.len() == entries@.len(),
        all_read(files@),
    ensures
        views::outcome(res) == response_of(
            entries.deep_view(),
            bytes_of(files@),
            client.deep_view(),
        ),
{
    match changed_files(entries, files, client) {
        Ok(upserts) => Ok(SyncResponse { upserts, deletes: vanished_paths(entries, client) }),
        Err(e) => Err(e),
    }
}

/// What the server answers, given the files of its wiki.
pub open spec fn sync_of(files: Seq<ReadFile>, client: Seq<Sum>) -> Result<Response, Fault> {
    match entries_of(files) {
        Err(e) => Err(e),
        Ok(entries) => response_of(entries, bytes_of(files), client),
    }
}

/// What the server answers, given the files of its wiki.
pub fn compute_sync(files: &Vec<ReadFile>, client_files: &Vec<FileEntry>) -> (res: Result<
    SyncResponse,
    WikiSyncError,
>)
    ensures
        views::outcome(res) == sync_of(files@, client_files.deep_view()),
{
    let entries = match snapshot_files(files) {
        Ok(entries) => entries,
        Err(e) => return Err(e),
    };
    proof {
        lemma_entries_read(files@);
        assert(entries.deep_view().len() == entries@.len());
    }
    sync_response(&entries, files, client_files)
}

/// Files that have entries could all be read, and have an entry each.
pub proof fn lemma_entries_read(files: Seq<ReadFile>)
    ensures
        entries_of(files) matches Ok(entries) ==> {
            &&& all_read(files)
            &&& entries.len() == files.len()
            &&& forall|i: int|
                0 <= i < files.len() ==> #[trigger] entries[i] == (FileEntry {
                    path: files[i].path@,
                    checksum: sha256(files[i].read->Ok_0@),
                })
        },
    decreases files.len(),
{
    if files.len() > 0 {
        lemma_entries_read(files.drop_last());
        assert forall|i: int| entries_of(files) is Ok && 0 <= i < files.len() implies (
        #[trigger] files[i]).read is Ok by {
            if i < files.len() - 1 {
                assert(files.drop_last()[i] == files[i]);
            }
        }
    }
}

/// Files that could all be read have entries.
pub proof fn lemma_read_have_entries(files: Seq<ReadFile>)
    requires
        all_read(files),
    ensures
        entries_of(files) is Ok,
    decreases files.len(),
{
    if files.len() > 0 {
        assert(files[files.len() - 1] == files.last());
        assert forall|i: int| 0 <= i < files.drop_last().len() implies (
        #[trigger] files.drop_last()[i]).read is Ok by {
            assert(files[i] == files.drop_last()[i]);
        }
        lemma_read_have_entries(files.drop_last());
    }
}

/// Files that are texts can all be brought.
pub proof fn lemma_texts_are_brought(
    entries: Seq<Sum>,
    contents: Seq<Seq<u8>>,
    client: Seq<Sum>,
)
    requires
        entries.len() == contents.len(),
        forall|i: int| 0 <= i < contents.len() ==> utf8::valid_utf8(#[trigger] contents[i]),
    ensures
        upserts_of(entries, contents, client) is Ok,
    decreases entries.len(),
{
    if entries.len() > 0 {
        assert(contents[contents.len() - 1] == contents.last());
        lemma_texts_are_brought(entries.drop_last(), contents.drop_last(), client);
    }
}

/// A file that could not be read fails the listing with the first such file, whatever follows it.
pub proof fn unreadable_files_are_told(
    before: Seq<ReadFile>,
    file: ReadFile,
    after: Seq<ReadFile>,
    client: Seq<Sum>,
)
    requires
        all_read(before),
        file.read is Err,
    ensures
        entries_of(before + seq![file] + after) == Err::<Seq<Sum>, _>(
            WikiSyncError::Io { path: file.path@, reason: file.read->Err_0@ },
        ),
        mirror_entries(before + seq![file] + after) == Err::<Seq<Sum>, _>(
            WikiSyncError::Io { path: file.path@, reason: file.read->Err_0@ },
        ),
        sync_of(before + seq![file] + after, client) == Err::<Response, _>(
            WikiSyncError::Io { path: file.path@, reason: file.read->Err_0@ },
        ),
{
    let all = before + seq![file] + after;
    let k = before.len() as int + 1;
    assert(all.take(k) =~= before.push(file));
    assert(before.push(file).drop_last() =~= before);
    lemma_read_have_entries(before);
    lemma_refused_file(all, k);
}

/// A file that is to be brought and is no text fails the answer, with its path.
pub proof fn files_to_bring_are_texts(
    entries: Seq<Sum>,
    contents: Seq<Seq<u8>>,
    client: Seq<Sum>,
    k: int,
)
    requires
        entries.len() == contents.len(),
        0 <= k < entries.len(),
        !utf8::valid_utf8(contents[k]),
        forall|i: int| 0 <= i < client.len() ==> (#[trigger] client[i]).path != entries[k].path,
        forall|i: int| 0 <= i < k ==> utf8::valid_utf8(#[trigger] contents[i]),
    ensures
        response_of(entries, contents, client) == Err::<Response, _>(
            WikiSyncError::Io {
                path: entries[k].path,
                reason: "stream did not contain valid UTF-8"@,
            },
        ),
{
    if digests(client).contains_key(entries[k].path) {
        lemma_reported(client, entries[k].path);
    }
    assert(entries.take(k + 1).drop_last() =~= entries.take(k));
    assert(contents.take(k + 1).drop_last() =~= contents.take(k));
    assert forall|i: int| 0 <= i < contents.take(k).len() implies utf8::valid_utf8(
        #[trigger] contents.take(k)[i],
    ) by {
        assert(contents.take(k)[i] == contents[i]);
    }
    lemma_texts_are_brought(entries.take(k), contents.take(k), client);
    lemma_refused_upsert(entries, contents, client, k + 1);
}

proof fn lemma_reported(client: Seq<Sum>, path: Seq<char>)
    requires
        digests(client).contains_key(path),
    ensures
        exists|i: int| 0 <= i < client.len() && (#[trigger] client[i]).path == path,
    decreases client.len(),
{
    if client.len() > 0 {
        if client.last().path == path {
            assert(client[client.len() - 1].path == path);
        } else {
            lemma_reported(client.drop_last(), path);
            let i = choose|i: int|
                0 <= i < client.drop_last().len() && (#[trigger] client.drop_last()[i]).path
                    == path;
            assert(client[i].path == path);
        }
    }
}

/// A mirror is reported file by file, in order, each with the digest of its bytes, apart from the
/// marker.
pub proof fn mirrors_are_reported_without_their_marker(files: Seq<ReadFile>, file: ReadFile)
    requires
        all_read(files),
        file.read is Ok,
    ensures
        mirror_entries(Seq::empty()) == Ok::<_, Fault>(Seq::<Sum>::empty()),
        mirror_entries(files) is Ok,
        mirror_entries(files.push(file)) == Ok::<_, Fault>(
            if file.path@ == ".gitignore"@ {
                mirror_entries(files)->Ok_0
            } else {
                mirror_entries(files)->Ok_0.push(
                    FileEntry { path: file.path@, checksum: sha256(file.read->Ok_0@) },
                )
            },
        ),
{
    let f = |entry: Sum| !sync::is_control(entry.path);
    lemma_read_have_entries(files);
    assert(files.push(file).drop_last() =~= files);
    let entries = entries_of(files)->Ok_0;
    let entry = FileEntry { path: file.path@, checksum: sha256(file.read->Ok_0@) };
    reveal(Seq::filter);
    assert(entries.push(entry).drop_last() =~= entries);
    assert(Seq::<Sum>::empty().filter(f) =~= Seq::empty());
}

} // verus!
