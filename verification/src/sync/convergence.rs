//! What a synchronisation achieves: afterwards the mirror holds the server's files.

use vstd::prelude::*;
use vstd::utf8;

use crate::flow::Program;
use crate::paths;
use crate::sync;
use crate::sync::apply;
use crate::sync::apply::{FileAction, FileReply, MirrorFound, Op, Ops, Rep};
use crate::sync::exchange;
use crate::sync::exchange::{Content, Response, Sum, SyncResponse};
use crate::sync::Fault;
use crate::sync::{LOCAL_MIRROR_GITIGNORE_CONTENT, LOCAL_MIRROR_GITIGNORE_PATH};
use crate::views;

verus! {

/// Whether no two entries have the same path.
pub open spec fn distinct(entries: Seq<Sum>) -> bool {
    forall|i: int, j: int|
        0 <= i < j < entries.len() ==> #[trigger] entries[i].path != #[trigger] entries[j].path
}

/// Entries with different paths are all in the table of digests, and nothing else is.
pub proof fn lemma_digests(entries: Seq<Sum>)
    ensures
        exchange::digests(entries).dom() == exchange::paths_of(entries),
        distinct(entries) ==> forall|i: int|
            0 <= i < entries.len() ==> exchange::digests(entries)[#[trigger] entries[i].path]
                == entries[i].checksum,
    decreases entries.len(),
{
    if entries.len() == 0 {
        assert(exchange::digests(entries).dom() =~= exchange::paths_of(entries));
    } else {
        let before = entries.drop_last();
        lemma_digests(before);
        assert forall|path: Seq<char>| #[trigger]
            exchange::digests(entries).dom().contains(path) == exchange::paths_of(
                entries,
            ).contains(path) by {
            if exchange::paths_of(before).contains(path) {
                let k = choose|k: int| 0 <= k < before.len() && before[k].path == path;
                assert(entries[k].path == path);
            }
            if exchange::paths_of(entries).contains(path) {
                let k = choose|k: int| 0 <= k < entries.len() && entries[k].path == path;
                if k < before.len() {
                    assert(before[k].path == path);
                }
            }
            assert(entries[entries.len() - 1].path == entries.last().path);
        }
        assert(exchange::digests(entries).dom() =~= exchange::paths_of(entries));
        if distinct(entries) {
            assert forall|i: int, j: int| 0 <= i < j < before.len() implies #[trigger]
                before[i].path != #[trigger] before[j].path by {
                assert(entries[i].path != entries[j].path);
            }
            assert forall|i: int| 0 <= i < entries.len() implies exchange::digests(
                entries,
            )[#[trigger] entries[i].path] == entries[i].checksum by {
                if i < before.len() {
                    assert(before[i] == entries[i]);
                    assert(entries[i].path != entries[entries.len() - 1].path);
                }
            }
        }
    }
}

proof fn lemma_nothing_new(entries: Seq<Sum>, contents: Seq<Seq<u8>>, client: Seq<Sum>)
    requires
        entries.len() == contents.len(),
        forall|i: int| 0 <= i < entries.len() ==> exchange::unchanged(#[trigger] entries[i], client),
    ensures
        exchange::upserts_of(entries, contents, client) == Ok::<Seq<Content>, Fault>(Seq::empty()),
    decreases entries.len(),
{
    if entries.len() > 0 {
        assert forall|i: int| 0 <= i < entries.drop_last().len() implies exchange::unchanged(
            #[trigger] entries.drop_last()[i],
            client,
        ) by {
            assert(entries.drop_last()[i] == entries[i]);
        }
        lemma_nothing_new(entries.drop_last(), contents.drop_last(), client);
        assert(entries[entries.len() - 1] == entries.last());
    }
}

/// A client that has what the server has is sent nothing.
pub proof fn up_to_date_client_gets_nothing(entries: Seq<Sum>, contents: Seq<Seq<u8>>)
    requires
        entries.len() == contents.len(),
        distinct(entries),
    ensures
        exchange::response_of(entries, contents, entries) == Ok::<Response, Fault>(
            SyncResponse { upserts: Seq::empty(), deletes: Seq::empty() },
        ),
{
    lemma_digests(entries);
    assert forall|i: int| 0 <= i < entries.len() implies exchange::unchanged(
        #[trigger] entries[i],
        entries,
    ) by {
        assert(exchange::paths_of(entries).contains(entries[i].path));
    }
    lemma_nothing_new(entries, contents, entries);
    let all = entries.map_values(|entry: Sum| entry.path);
    let f = |path: Seq<char>| !exchange::paths_of(entries).contains(path);
    views::lemma_filtered(all, f);
    if all.filter(f).len() > 0 {
        let path = all.filter(f)[0];
        assert(all.filter(f).contains(path));
        let k = choose|k: int| 0 <= k < all.len() && all[k] == path;
        assert(entries[k].path == path);
    }
    assert(all.filter(f) =~= Seq::empty());
}

/// Whether a file of a response is one of the server's that the client lacks or has with other
/// content.
pub open spec fn brought_from(
    file: Content,
    entries: Seq<Sum>,
    contents: Seq<Seq<u8>>,
    client: Seq<Sum>,
    i: int,
) -> bool {
    &&& 0 <= i < entries.len()
    &&& !exchange::unchanged(entries[i], client)
    &&& exchange::content_of(entries[i].path, contents[i]) == Ok::<Content, Fault>(file)
}

/// Whether a file of a response is among the server's files that the client lacks or has with other
/// content.
pub open spec fn is_new(
    file: Content,
    entries: Seq<Sum>,
    contents: Seq<Seq<u8>>,
    client: Seq<Sum>,
) -> bool {
    exists|i: int| brought_from(file, entries, contents, client, i)
}

/// Every file that a response brings is one that the client lacks or has with other content, and
/// no two have the same path.
pub proof fn lemma_brought_origin(
    entries: Seq<Sum>,
    contents: Seq<Seq<u8>>,
    client: Seq<Sum>,
    upserts: Seq<Content>,
)
    requires
        entries.len() == contents.len(),
        distinct(entries),
        exchange::upserts_of(entries, contents, client) == Ok::<Seq<Content>, Fault>(upserts),
    ensures
        forall|k: int|
            0 <= k < upserts.len() ==> is_new(#[trigger] upserts[k], entries, contents, client),
        forall|k: int, l: int|
            0 <= k < l < upserts.len() ==> #[trigger] upserts[k].path != #[trigger] upserts[l].path,
    decreases entries.len(),
{
    if entries.len() > 0 {
        let last = entries.len() - 1;
        let before = entries.drop_last();
        let texts = contents.drop_last();
        let earlier = exchange::upserts_of(before, texts, client)->Ok_0;
        assert forall|i: int, j: int| 0 <= i < j < before.len() implies #[trigger] before[i].path
            != #[trigger] before[j].path by {
            assert(entries[i].path != entries[j].path);
        }
        lemma_brought_origin(before, texts, client, earlier);
        assert(entries[last] == entries.last() && contents[last] == contents.last());
        assert forall|k: int| 0 <= k < upserts.len() implies is_new(
            #[trigger] upserts[k],
            entries,
            contents,
            client,
        ) by {
            if k < earlier.len() {
                assert(upserts[k] == earlier[k]);
                assert(is_new(earlier[k], before, texts, client));
                let i = choose|i: int| brought_from(earlier[k], before, texts, client, i);
                assert(entries[i] == before[i] && contents[i] == texts[i]);
                assert(brought_from(upserts[k], entries, contents, client, i));
            } else {
                assert(brought_from(upserts[k], entries, contents, client, last));
            }
        }
        assert forall|k: int, l: int| 0 <= k < l < upserts.len() implies #[trigger] upserts[k].path
            != #[trigger] upserts[l].path by {
            assert(upserts[k] == earlier[k]);
            if l < earlier.len() {
                assert(upserts[l] == earlier[l]);
            } else {
                assert(is_new(earlier[k], before, texts, client));
                let i = choose|i: int| brought_from(earlier[k], before, texts, client, i);
                assert(entries[i] == before[i]);
                assert(entries[i].path != entries[last].path);
            }
        }
    }
}

/// A file that the client lacks or has with other content is brought.
pub proof fn lemma_brought_all(
    entries: Seq<Sum>,
    contents: Seq<Seq<u8>>,
    client: Seq<Sum>,
    upserts: Seq<Content>,
    i: int,
) -> (k: int)
    requires
        entries.len() == contents.len(),
        exchange::upserts_of(entries, contents, client) == Ok::<Seq<Content>, Fault>(upserts),
        0 <= i < entries.len(),
        !exchange::unchanged(entries[i], client),
    ensures
        0 <= k < upserts.len(),
        brought_from(upserts[k], entries, contents, client, i),
    decreases entries.len(),
{
    let last = entries.len() - 1;
    if i < last {
        let before = entries.drop_last();
        let texts = contents.drop_last();
        let earlier = exchange::upserts_of(before, texts, client)->Ok_0;
        let k = lemma_brought_all(before, texts, client, earlier, i);
        assert(upserts[k] == earlier[k]);
        k
    } else {
        upserts.len() - 1
    }
}

/// What a file system holds: the bytes of each file.
pub type Disk = Map<Seq<char>, Seq<u8>>;

/// What a file system on which every operation succeeds replies. It knows its files and the
/// directory of the mirror by their own paths, and resolves the path by which the mirror is named,
/// whether relative or through links, to the mirror's own.
pub open spec fn served(
    disk: Disk,
    named: Seq<char>,
    mirror: Seq<char>,
    found: MirrorFound<Seq<char>>,
    op: Op,
) -> Rep {
    match op {
        FileAction::Inspect { path: _ } => FileReply::Found(found),
        FileAction::Canonicalize { path } => if path == named {
            FileReply::Canonical(mirror)
        } else if path == mirror || disk.contains_key(path) {
            FileReply::Canonical(path)
        } else {
            FileReply::Missing(Seq::empty())
        },
        _ => FileReply::Done,
    }
}

/// What a file system holds after an operation.
pub open spec fn changed(disk: Disk, op: Op) -> Disk {
    match op {
        FileAction::Write { path, content } => disk.insert(path, utf8::encode_utf8(content)),
        FileAction::Remove { path } => disk.remove(path),
        _ => disk,
    }
}

/// The outcome of a flow on such a file system, and what the file system holds afterwards.
pub open spec fn carried_out(
    p: Ops,
    disk: Disk,
    named: Seq<char>,
    mirror: Seq<char>,
    found: MirrorFound<Seq<char>>,
) -> (Result<(), Fault>, Disk)
    decreases p,
{
    match p {
        Program::Return(outcome) => (outcome, disk),
        Program::Do { action, then } => carried_out(
            then(served(disk, named, mirror, found, action)),
            changed(disk, action),
            named,
            mirror,
            found,
        ),
    }
}

/// The disk with the files of a response written, from one on.
pub open spec fn with_written(disk: Disk, mirror: Seq<char>, upserts: Seq<Content>, i: int) -> Disk
    decreases upserts.len() - i,
{
    if i < 0 || i >= upserts.len() {
        disk
    } else if sync::is_control(upserts[i].path) {
        with_written(disk, mirror, upserts, i + 1)
    } else {
        with_written(
            disk.insert(
                paths::join_path(mirror, upserts[i].path),
                utf8::encode_utf8(upserts[i].content),
            ),
            mirror,
            upserts,
            i + 1,
        )
    }
}

/// The disk without the files that a response removes, from one on.
pub open spec fn with_removed(disk: Disk, mirror: Seq<char>, sync: Response, j: int) -> Disk
    decreases sync.deletes.len() - j,
{
    if j < 0 || j >= sync.deletes.len() {
        disk
    } else if !apply::removes(sync, sync.deletes[j]) {
        with_removed(disk, mirror, sync, j + 1)
    } else {
        with_removed(
            disk.remove(paths::join_path(mirror, sync.deletes[j])),
            mirror,
            sync,
            j + 1,
        )
    }
}

/// The disk with the marker of the mirror.
pub open spec fn with_marker(disk: Disk, mirror: Seq<char>) -> Disk {
    disk.insert(
        paths::join_path(mirror, LOCAL_MIRROR_GITIGNORE_PATH@),
        utf8::encode_utf8(LOCAL_MIRROR_GITIGNORE_CONTENT@),
    )
}

/// Whether every path of a response stays inside the mirror.
pub open spec fn stays_inside(sync: Response) -> bool {
    &&& forall|i: int|
        0 <= i < sync.upserts.len() ==> apply::relative_check(#[trigger] sync.upserts[i].path) is Ok
    &&& forall|j: int|
        0 <= j < sync.deletes.len() ==> apply::relative_check(#[trigger] sync.deletes[j]) is Ok
}

proof fn lemma_marking(
    disk: Disk,
    named: Seq<char>,
    mirror: Seq<char>,
    found: MirrorFound<Seq<char>>,
)
    ensures
        carried_out(apply::marking(mirror), disk, named, mirror, found) == (
            Ok::<(), Fault>(()),
            with_marker(disk, mirror),
        ),
{
    reveal_with_fuel(carried_out, 2);
}

proof fn lemma_removing(
    disk: Disk,
    named: Seq<char>,
    mirror: Seq<char>,
    found: MirrorFound<Seq<char>>,
    sync: Response,
    j: int,
)
    requires
        0 <= j <= sync.deletes.len(),
        paths::is_canonical(mirror),
        stays_inside(sync),
    ensures
        carried_out(apply::removing(mirror, sync, j), disk, named, mirror, found) == (
            Ok::<(), Fault>(()),
            with_marker(with_removed(disk, mirror, sync, j), mirror),
        ),
    decreases sync.deletes.len() - j,
{
    if j >= sync.deletes.len() {
        lemma_marking(disk, named, mirror, found);
    } else if !apply::removes(sync, sync.deletes[j]) {
        lemma_removing(disk, named, mirror, found, sync, j + 1);
    } else {
        let path = sync.deletes[j];
        let target = paths::join_path(mirror, path);
        assert(apply::relative_check(path) is Ok);
        paths::lemma_components_below(mirror, path);
        lemma_removing(disk.remove(target), named, mirror, found, sync, j + 1);
        lemma_removing(disk, named, mirror, found, sync, j + 1);
        reveal_with_fuel(carried_out, 3);
        if target != mirror && !disk.contains_key(target) {
            assert(disk.remove(target) =~= disk);
        }
        assert(carried_out(apply::check_step(mirror, sync, j), disk, named, mirror, found)
            == carried_out(
            apply::checked(
                mirror,
                sync,
                j,
                served(disk, named, mirror, found, FileAction::Canonicalize { path: target }),
            ),
            disk,
            named,
            mirror,
            found,
        ));
    }
}

proof fn lemma_writing(
    disk: Disk,
    named: Seq<char>,
    mirror: Seq<char>,
    found: MirrorFound<Seq<char>>,
    sync: Response,
    i: int,
)
    requires
        0 <= i <= sync.upserts.len(),
        paths::is_canonical(mirror),
        stays_inside(sync),
    ensures
        carried_out(apply::writing(mirror, sync, i), disk, named, mirror, found) == (
            Ok::<(), Fault>(()),
            with_marker(
                with_removed(with_written(disk, mirror, sync.upserts, i), mirror, sync, 0),
                mirror,
            ),
        ),
    decreases sync.upserts.len() - i,
{
    if i >= sync.upserts.len() {
        lemma_removing(disk, named, mirror, found, sync, 0);
    } else if sync::is_control(sync.upserts[i].path) {
        lemma_writing(disk, named, mirror, found, sync, i + 1);
    } else {
        let path = sync.upserts[i].path;
        let target = paths::join_path(mirror, path);
        let after = disk.insert(target, utf8::encode_utf8(sync.upserts[i].content));
        assert(apply::relative_check(path) is Ok);
        lemma_writing(after, named, mirror, found, sync, i + 1);
        assert(carried_out(apply::write_step(mirror, sync, i), disk, named, mirror, found)
            == carried_out(apply::writing(mirror, sync, i + 1), after, named, mirror, found));
        match paths::parent_of(target) {
            Some(parent) => {
                assert(carried_out(
                    apply::parent_step(mirror, sync, i, parent),
                    disk,
                    named,
                    mirror,
                    found,
                ) == carried_out(
                    apply::parented(mirror, sync, i, parent, FileReply::Done),
                    disk,
                    named,
                    mirror,
                    found,
                ));
            },
            None => {},
        }
    }
}

/// Where nothing stands in its way, an update of a mirror, by whatever path it is named, succeeds:
/// it writes the files of the response in their order, then removes those that the response
/// removes, then writes the marker, and changes nothing else.
pub proof fn update_writes_and_removes(
    disk: Disk,
    named: Seq<char>,
    mirror: Seq<char>,
    found: MirrorFound<Seq<char>>,
    sync: Response,
)
    requires
        paths::is_canonical(mirror),
        apply::safe_check(named, found) is Ok,
        stays_inside(sync),
    ensures
        carried_out(apply::updating(named, sync), disk, named, mirror, found) == (
            Ok::<(), Fault>(()),
            with_marker(
                with_removed(with_written(disk, mirror, sync.upserts, 0), mirror, sync, 0),
                mirror,
            ),
        ),
{
    lemma_writing(disk, named, mirror, found, sync, 0);
    assert(carried_out(apply::locate_step(named, sync), disk, named, mirror, found) == carried_out(
        apply::located(named, sync, FileReply::Canonical(mirror)),
        disk,
        named,
        mirror,
        found,
    ));
    assert(carried_out(apply::create_step(named, sync), disk, named, mirror, found) == carried_out(
        apply::created(named, sync, FileReply::Done),
        disk,
        named,
        mirror,
        found,
    ));
    assert(carried_out(apply::updating(named, sync), disk, named, mirror, found) == carried_out(
        apply::inspected(named, sync, FileReply::Found(found)),
        disk,
        named,
        mirror,
        found,
    ));
}

proof fn lemma_written_file(
    disk: Disk,
    mirror: Seq<char>,
    upserts: Seq<Content>,
    i: int,
    path: Seq<char>,
)
    requires
        0 <= i <= upserts.len(),
        !paths::is_absolute(path),
        forall|k: int| 0 <= k < upserts.len() ==> !paths::is_absolute(#[trigger] upserts[k].path),
        forall|k: int, l: int|
            0 <= k < l < upserts.len() ==> #[trigger] upserts[k].path != #[trigger] upserts[l].path,
    ensures
        ({
            let after = with_written(disk, mirror, upserts, i);
            let target = paths::join_path(mirror, path);
            &&& forall|k: int|
                i <= k < upserts.len() && #[trigger] upserts[k].path == path && !sync::is_control(
                    path,
                ) ==> after.contains_key(target) && after[target] == utf8::encode_utf8(
                    upserts[k].content,
                )
            &&& (forall|k: int| i <= k < upserts.len() ==> #[trigger] upserts[k].path != path) ==> {
                &&& after.contains_key(target) == disk.contains_key(target)
                &&& after[target] == disk[target]
            }
        }),
    decreases upserts.len() - i,
{
    if i < upserts.len() {
        let target = paths::join_path(mirror, path);
        let next = if sync::is_control(upserts[i].path) {
            disk
        } else {
            disk.insert(
                paths::join_path(mirror, upserts[i].path),
                utf8::encode_utf8(upserts[i].content),
            )
        };
        lemma_written_file(next, mirror, upserts, i + 1, path);
        if paths::join_path(mirror, upserts[i].path) == target {
            paths::lemma_join_distinct(mirror, upserts[i].path, path);
        }
        if upserts[i].path == path {
            assert forall|k: int| i + 1 <= k < upserts.len() implies #[trigger] upserts[k].path
                != path by {
                assert(upserts[i].path != upserts[k].path);
            }
        }
    }
}

proof fn lemma_removed_file(
    disk: Disk,
    mirror: Seq<char>,
    sync: Response,
    j: int,
    path: Seq<char>,
)
    requires
        0 <= j <= sync.deletes.len(),
        !paths::is_absolute(path),
        forall|k: int| 0 <= k < sync.deletes.len() ==> !paths::is_absolute(#[trigger] sync.deletes[k]),
    ensures
        ({
            let after = with_removed(disk, mirror, sync, j);
            let target = paths::join_path(mirror, path);
            &&& apply::removes(sync, path) && (exists|k: int|
                j <= k < sync.deletes.len() && #[trigger] sync.deletes[k] == path)
                ==> !after.contains_key(target)
            &&& !apply::removes(sync, path) || (forall|k: int|
                j <= k < sync.deletes.len() ==> #[trigger] sync.deletes[k] != path) ==> {
                &&& after.contains_key(target) == disk.contains_key(target)
                &&& after[target] == disk[target]
            }
            &&& !disk.contains_key(target) ==> !after.contains_key(target)
        }),
    decreases sync.deletes.len() - j,
{
    if j < sync.deletes.len() {
        let target = paths::join_path(mirror, path);
        let next = if apply::removes(sync, sync.deletes[j]) {
            disk.remove(paths::join_path(mirror, sync.deletes[j]))
        } else {
            disk
        };
        lemma_removed_file(next, mirror, sync, j + 1, path);
        if paths::join_path(mirror, sync.deletes[j]) == target {
            paths::lemma_join_distinct(mirror, sync.deletes[j], path);
        }
        if exists|k: int| j <= k < sync.deletes.len() && #[trigger] sync.deletes[k] == path {
            let k = choose|k: int| j <= k < sync.deletes.len() && #[trigger] sync.deletes[k] == path;
            if k > j {
                assert(exists|l: int|
                    j + 1 <= l < sync.deletes.len() && #[trigger] sync.deletes[l] == path);
            }
        }
    }
}

/// Whether a client reports what its mirror holds: for every path inside the mirror but that of the
/// marker, the digest of the file there, and no path of which there is no file.
pub open spec fn reports(client: Seq<Sum>, disk: Disk, mirror: Seq<char>) -> bool {
    &&& forall|j: int|
        0 <= j < client.len() ==> apply::relative_check(#[trigger] client[j].path) is Ok
            && !sync::is_control(client[j].path)
    &&& forall|path: Seq<char>|
        apply::relative_check(path) is Ok && !sync::is_control(path) ==> {
            let target = paths::join_path(mirror, path);
            &&& #[trigger] exchange::digests(client).contains_key(path) <==> disk.contains_key(
                target,
            )
            &&& disk.contains_key(target) ==> exchange::digests(client)[path] == exchange::sha256(
                disk[target],
            )
        }
}

/// Whether files of the mirror and of the server with the same path and the same digest are the
/// same.
pub open spec fn no_collision(
    entries: Seq<Sum>,
    contents: Seq<Seq<u8>>,
    disk: Disk,
    mirror: Seq<char>,
) -> bool {
    forall|i: int|
        0 <= i < entries.len() && exchange::sha256(
            disk[paths::join_path(mirror, #[trigger] entries[i].path)],
        ) == exchange::sha256(contents[i]) ==> disk[paths::join_path(mirror, entries[i].path)]
            == contents[i]
}

/// A synchronisation makes the mirror, by whatever path it is named, a copy of the wiki. A client
/// reports its mirror, the server answers with a response, and the client brings its mirror up to
/// date: afterwards a path inside the mirror has a file exactly where the server has one, with the
/// same bytes, apart from the marker, which holds what marks a mirror.
pub proof fn synchronised_mirror_is_a_copy(
    entries: Seq<Sum>,
    contents: Seq<Seq<u8>>,
    client: Seq<Sum>,
    response: Response,
    disk: Disk,
    named: Seq<char>,
    mirror: Seq<char>,
    found: MirrorFound<Seq<char>>,
    path: Seq<char>,
)
    requires
        entries.len() == contents.len(),
        distinct(entries),
        forall|i: int|
            0 <= i < entries.len() ==> apply::relative_check(#[trigger] entries[i].path) is Ok
                && entries[i].checksum == exchange::sha256(contents[i]),
        paths::is_canonical(mirror),
        apply::safe_check(named, found) is Ok,
        reports(client, disk, mirror),
        no_collision(entries, contents, disk, mirror),
        exchange::response_of(entries, contents, client) == Ok::<Response, Fault>(response),
        apply::relative_check(path) is Ok,
    ensures
        ({
            let (outcome, after) = carried_out(
                apply::updating(named, response),
                disk,
                named,
                mirror,
                found,
            );
            let target = paths::join_path(mirror, path);
            &&& outcome is Ok
            &&& sync::is_control(path) ==> after.contains_key(target) && after[target]
                == utf8::encode_utf8(LOCAL_MIRROR_GITIGNORE_CONTENT@)
            &&& !sync::is_control(path) ==> (after.contains_key(target)
                <==> exchange::paths_of(entries).contains(path))
            &&& forall|i: int|
                0 <= i < entries.len() && #[trigger] entries[i].path == path && !sync::is_control(
                    path,
                ) ==> after[target] == contents[i]
        }),
{
    let target = paths::join_path(mirror, path);
    let marker = paths::join_path(mirror, LOCAL_MIRROR_GITIGNORE_PATH@);
    let upserts = response.upserts;
    lemma_brought_origin(entries, contents, client, upserts);
    lemma_digests(client);
    // Where the paths of the response come from.
    assert forall|k: int| 0 <= k < upserts.len() implies apply::relative_check(
        #[trigger] upserts[k].path,
    ) is Ok by {
        assert(is_new(upserts[k], entries, contents, client));
        let i = choose|i: int| brought_from(upserts[k], entries, contents, client, i);
    }
    let told = client.map_values(|entry: Sum| entry.path);
    let f = |p: Seq<char>| !exchange::paths_of(entries).contains(p);
    views::lemma_filtered(told, f);
    assert forall|j: int| 0 <= j < response.deletes.len() implies apply::relative_check(
        #[trigger] response.deletes[j],
    ) is Ok by {
        assert(told.filter(f).contains(response.deletes[j]));
        let k = choose|k: int| 0 <= k < told.len() && told[k] == response.deletes[j];
        assert(client[k].path == response.deletes[j]);
    }
    update_writes_and_removes(disk, named, mirror, found, response);
    let written = with_written(disk, mirror, upserts, 0);
    let removed = with_removed(written, mirror, response, 0);
    lemma_written_file(disk, mirror, upserts, 0, path);
    lemma_removed_file(written, mirror, response, 0, path);
    if !sync::is_control(path) {
        reveal_strlit(".gitignore");
        if target == marker {
            paths::lemma_join_distinct(mirror, path, LOCAL_MIRROR_GITIGNORE_PATH@);
        }
        if exchange::paths_of(entries).contains(path) {
            let i = choose|i: int| 0 <= i < entries.len() && entries[i].path == path;
            assert(entries[i].path == path);
            assert(forall|l: int|
                0 <= l < entries.len() && #[trigger] entries[l].path == path ==> l == i);
            // The response does not remove it.
            assert forall|j: int| 0 <= j < response.deletes.len() implies #[trigger]
                response.deletes[j] != path by {
                assert(told.filter(f).contains(response.deletes[j]));
            }
            if exchange::unchanged(entries[i], client) {
                assert forall|k: int| 0 <= k < upserts.len() implies #[trigger] upserts[k].path
                    != path by {
                    assert(is_new(upserts[k], entries, contents, client));
                    let l = choose|l: int| brought_from(upserts[k], entries, contents, client, l);
                }
                assert(exchange::digests(client).contains_key(path));
            } else {
                let k = lemma_brought_all(entries, contents, client, upserts, i);
                assert(upserts[k].path == path);
                utf8::decode_utf8_encode_utf8(contents[i]);
            }
        } else {
            assert forall|k: int| 0 <= k < upserts.len() implies #[trigger] upserts[k].path
                != path by {
                assert(is_new(upserts[k], entries, contents, client));
                let l = choose|l: int| brought_from(upserts[k], entries, contents, client, l);
                assert(entries[l].path == upserts[k].path);
            }
            assert(apply::removes(response, path));
            if exchange::digests(client).contains_key(path) {
                let k = choose|k: int| 0 <= k < client.len() && client[k].path == path;
                assert(told[k] == path);
                assert(told.contains(path));
                assert(told.filter(f).contains(path));
                let j = choose|j: int|
                    0 <= j < response.deletes.len() && response.deletes[j] == path;
                assert(response.deletes[j] == path);
            }
        }
    }
}

proof fn lemma_answered(entries: Seq<Sum>, contents: Seq<Seq<u8>>, client: Seq<Sum>)
    requires
        entries.len() == contents.len(),
        forall|i: int|
            0 <= i < entries.len() ==> exchange::unchanged(#[trigger] entries[i], client)
                || exchange::content_of(entries[i].path, contents[i]) is Ok,
    ensures
        exchange::upserts_of(entries, contents, client) is Ok,
    decreases entries.len(),
{
    if entries.len() > 0 {
        let before = entries.drop_last();
        assert forall|i: int| 0 <= i < before.len() implies exchange::unchanged(
            #[trigger] before[i],
            client,
        ) || exchange::content_of(before[i].path, contents.drop_last()[i]) is Ok by {
            assert(before[i] == entries[i]);
        }
        lemma_answered(before, contents.drop_last(), client);
        assert(entries[entries.len() - 1] == entries.last());
    }
}

proof fn lemma_again(
    entries: Seq<Sum>,
    contents: Seq<Seq<u8>>,
    client: Seq<Sum>,
    response: Response,
    disk: Disk,
    named: Seq<char>,
    mirror: Seq<char>,
    found: MirrorFound<Seq<char>>,
    again: Seq<Sum>,
)
    requires
        entries.len() == contents.len(),
        distinct(entries),
        forall|i: int|
            0 <= i < entries.len() ==> apply::relative_check(#[trigger] entries[i].path) is Ok
                && entries[i].checksum == exchange::sha256(contents[i]),
        paths::is_canonical(mirror),
        apply::safe_check(named, found) is Ok,
        reports(client, disk, mirror),
        no_collision(entries, contents, disk, mirror),
        exchange::response_of(entries, contents, client) == Ok::<Response, Fault>(response),
        reports(
            again,
            carried_out(apply::updating(named, response), disk, named, mirror, found).1,
            mirror,
        ),
    ensures
        ({
            let second = exchange::response_of(entries, contents, again);
            second is Ok && apply::total_count(second->Ok_0) == 0
        }),
{
    let after = carried_out(apply::updating(named, response), disk, named, mirror, found).1;
    lemma_digests(client);
    lemma_digests(again);
    // What the server has, the client reports, but for the marker.
    assert forall|i: int|
        0 <= i < entries.len() && !sync::is_control(entries[i].path) implies exchange::unchanged(
        #[trigger] entries[i],
        again,
    ) by {
        let path = entries[i].path;
        synchronised_mirror_is_a_copy(
            entries,
            contents,
            client,
            response,
            disk,
            named,
            mirror,
            found,
            path,
        );
        assert(exchange::paths_of(entries).contains(path));
        assert(after.contains_key(paths::join_path(mirror, path)));
        assert(exchange::digests(again).contains_key(path));
    }
    // A marker of the server's own was brought the first time, so it is text.
    assert forall|i: int| 0 <= i < entries.len() implies exchange::unchanged(
        #[trigger] entries[i],
        again,
    ) || exchange::content_of(entries[i].path, contents[i]) is Ok by {
        if sync::is_control(entries[i].path) {
            assert(!exchange::paths_of(client).contains(entries[i].path));
            lemma_brought_all(entries, contents, client, response.upserts, i);
        }
    }
    lemma_answered(entries, contents, again);
    let second = exchange::response_of(entries, contents, again)->Ok_0;
    lemma_brought_origin(entries, contents, again, second.upserts);
    let wanted = |file: Content| !sync::is_control(file.path);
    views::lemma_filtered(second.upserts, wanted);
    if second.upserts.filter(wanted).len() > 0 {
        let file = second.upserts.filter(wanted)[0];
        assert(second.upserts.filter(wanted).contains(file));
        let k = choose|k: int| 0 <= k < second.upserts.len() && second.upserts[k] == file;
        assert(is_new(second.upserts[k], entries, contents, again));
        let i = choose|i: int| brought_from(file, entries, contents, again, i);
    }
    // What the client reports, the server has.
    let told = again.map_values(|entry: Sum| entry.path);
    let f = |path: Seq<char>| !exchange::paths_of(entries).contains(path);
    views::lemma_filtered(told, f);
    if second.deletes.len() > 0 {
        let path = second.deletes[0];
        assert(told.filter(f).contains(path));
        let k = choose|k: int| 0 <= k < told.len() && told[k] == path;
        assert(again[k].path == path);
        assert(exchange::paths_of(again).contains(path));
        synchronised_mirror_is_a_copy(
            entries,
            contents,
            client,
            response,
            disk,
            named,
            mirror,
            found,
            path,
        );
    }
    reveal(Seq::filter);
}

/// Whether files that were read are those of a mirror: one for each file below it, with its bytes.
pub open spec fn read_from(files: Seq<exchange::ReadFile>, disk: Disk, mirror: Seq<char>) -> bool {
    &&& forall|i: int|
        0 <= i < files.len() ==> {
            let target = paths::join_path(mirror, (#[trigger] files[i]).path@);
            &&& apply::relative_check(files[i].path@) is Ok
            &&& files[i].read is Ok
            &&& disk.contains_key(target)
            &&& disk[target] == files[i].read->Ok_0@
        }
    &&& forall|i: int, j: int|
        0 <= i < j < files.len() ==> (#[trigger] files[i]).path@ != (#[trigger] files[j]).path@
    &&& forall|path: Seq<char>|
        apply::relative_check(path) is Ok && #[trigger] disk.contains_key(
            paths::join_path(mirror, path),
        ) ==> exists|i: int| 0 <= i < files.len() && (#[trigger] files[i]).path@ == path
}

proof fn lemma_all_entries(files: Seq<exchange::ReadFile>)
    requires
        exchange::all_read(files),
    ensures
        exchange::entries_of(files) is Ok,
    decreases files.len(),
{
    if files.len() > 0 {
        assert forall|i: int| 0 <= i < files.drop_last().len() implies (
        #[trigger] files.drop_last()[i]).read is Ok by {
            assert(files.drop_last()[i] == files[i]);
        }
        lemma_all_entries(files.drop_last());
        assert(files[files.len() - 1] == files.last());
    }
}

/// The snapshot of a mirror whose files could be read reports what the mirror holds.
pub proof fn snapshots_report_the_mirror(
    files: Seq<exchange::ReadFile>,
    disk: Disk,
    mirror: Seq<char>,
)
    requires
        read_from(files, disk, mirror),
    ensures
        exchange::mirror_entries(files) is Ok,
        reports(exchange::mirror_entries(files)->Ok_0, disk, mirror),
{
    assert forall|i: int| 0 <= i < files.len() implies (#[trigger] files[i]).read is Ok by {}
    lemma_all_entries(files);
    exchange::lemma_entries_read(files);
    let all = exchange::entries_of(files)->Ok_0;
    let f = |entry: Sum| !sync::is_control(entry.path);
    let told = all.filter(f);
    assert forall|i: int, j: int| 0 <= i < j < all.len() implies #[trigger] all[i].path
        != #[trigger] all[j].path by {
        assert(files[i].path@ != files[j].path@);
    }
    views::lemma_filtered(all, f);
    lemma_distinct_filter(all, f);
    lemma_digests(told);
    assert forall|j: int| 0 <= j < told.len() implies apply::relative_check(
        #[trigger] told[j].path,
    ) is Ok && !sync::is_control(told[j].path) by {
        assert(told.contains(told[j]));
        let i = choose|i: int| 0 <= i < all.len() && all[i] == told[j];
        assert(files[i].path@ == told[j].path);
    }
    assert forall|path: Seq<char>|
        apply::relative_check(path) is Ok && !sync::is_control(path) implies {
        let target = paths::join_path(mirror, path);
        &&& #[trigger] exchange::digests(told).contains_key(path) <==> disk.contains_key(target)
        &&& disk.contains_key(target) ==> exchange::digests(told)[path] == exchange::sha256(
            disk[target],
        )
    } by {
        let target = paths::join_path(mirror, path);
        if exchange::digests(told).contains_key(path) {
            let j = choose|j: int| 0 <= j < told.len() && told[j].path == path;
            assert(told.contains(told[j]));
            let i = choose|i: int| 0 <= i < all.len() && all[i] == told[j];
            assert(files[i].path@ == path);
        }
        if disk.contains_key(target) {
            let i = choose|i: int| 0 <= i < files.len() && (#[trigger] files[i]).path@ == path;
            assert(all[i].path == path);
            assert(all.contains(all[i]));
            assert(told.contains(all[i]));
            let j = choose|j: int| 0 <= j < told.len() && told[j] == all[i];
            assert(told[j].path == path);
            assert(exchange::paths_of(told).contains(path));
        }
    }
}

proof fn lemma_distinct_filter(entries: Seq<Sum>, f: spec_fn(Sum) -> bool)
    requires
        distinct(entries),
    ensures
        distinct(entries.filter(f)),
    decreases entries.len(),
{
    reveal(Seq::filter);
    if entries.len() > 0 {
        let before = entries.drop_last();
        assert forall|i: int, j: int| 0 <= i < j < before.len() implies #[trigger] before[i].path
            != #[trigger] before[j].path by {
            assert(entries[i].path != entries[j].path);
        }
        lemma_distinct_filter(before, f);
        views::lemma_filtered(before, f);
        let kept = before.filter(f);
        assert forall|i: int| 0 <= i < kept.len() implies #[trigger] kept[i].path
            != entries.last().path by {
            assert(kept.contains(kept[i]));
            let k = choose|k: int| 0 <= k < before.len() && before[k] == kept[i];
            assert(entries[k].path != entries[entries.len() - 1].path);
        }
    }
}

/// A synchronisation right after another changes nothing, by whatever path the mirror is named. A
/// client reads its mirror, the server answers with a response from its own files, and the client
/// brings its mirror up to date; then the client reads its mirror again. The server, whose files
/// are the same, has an answer for it again, and that answer changes no file.
pub proof fn synchronising_again_changes_nothing(
    server: Seq<exchange::ReadFile>,
    local: Seq<exchange::ReadFile>,
    response: Response,
    disk: Disk,
    named: Seq<char>,
    mirror: Seq<char>,
    found: MirrorFound<Seq<char>>,
    again: Seq<exchange::ReadFile>,
)
    requires
        forall|i: int|
            0 <= i < server.len() ==> apply::relative_check((#[trigger] server[i]).path@) is Ok,
        forall|i: int, j: int|
            0 <= i < j < server.len() ==> (#[trigger] server[i]).path@ != (
            #[trigger] server[j]).path@,
        paths::is_canonical(mirror),
        apply::safe_check(named, found) is Ok,
        read_from(local, disk, mirror),
        exchange::entries_of(server) matches Ok(entries) ==> no_collision(
            entries,
            exchange::bytes_of(server),
            disk,
            mirror,
        ),
        exchange::sync_of(server, exchange::mirror_entries(local)->Ok_0) == Ok::<Response, Fault>(
            response,
        ),
        read_from(
            again,
            carried_out(apply::updating(named, response), disk, named, mirror, found).1,
            mirror,
        ),
    ensures
        exchange::mirror_entries(local) is Ok,
        exchange::mirror_entries(again) is Ok,
        ({
            let second = exchange::sync_of(server, exchange::mirror_entries(again)->Ok_0);
            second is Ok && apply::total_count(second->Ok_0) == 0
        }),
{
    let after = carried_out(apply::updating(named, response), disk, named, mirror, found).1;
    snapshots_report_the_mirror(local, disk, mirror);
    snapshots_report_the_mirror(again, after, mirror);
    exchange::lemma_entries_read(server);
    let entries = exchange::entries_of(server)->Ok_0;
    let contents = exchange::bytes_of(server);
    assert forall|i: int, j: int| 0 <= i < j < entries.len() implies #[trigger] entries[i].path
        != #[trigger] entries[j].path by {
        assert(server[i].path@ != server[j].path@);
    }
    assert forall|i: int| 0 <= i < entries.len() implies apply::relative_check(
        #[trigger] entries[i].path,
    ) is Ok && entries[i].checksum == exchange::sha256(contents[i]) by {
        assert(server[i].path@ == entries[i].path);
    }
    lemma_again(
        entries,
        contents,
        exchange::mirror_entries(local)->Ok_0,
        response,
        disk,
        named,
        mirror,
        found,
        exchange::mirror_entries(again)->Ok_0,
    );
}

/// Whether every file that a flow can come to write or remove lies in a directory.
pub open spec fn confined(p: Ops, base: Seq<char>) -> bool
    decreases p,
{
    match p {
        Program::Return(_) => true,
        Program::Do { action, then } => {
            &&& match action {
                FileAction::Write { path, content: _ } => paths::lies_in(path, base),
                FileAction::Remove { path } => paths::lies_in(path, base),
                _ => true,
            }
            &&& forall|reply: Rep| confined(#[trigger] then(reply), base)
        },
    }
}

proof fn lemma_confined_removing(base: Seq<char>, sync: Response, j: int)
    requires
        paths::is_canonical(base),
        0 <= j <= sync.deletes.len(),
    ensures
        confined(apply::removing(base, sync, j), base),
    decreases sync.deletes.len() - j,
{
    if j >= sync.deletes.len() {
        reveal_strlit(".gitignore");
        paths::lemma_components_below(base, LOCAL_MIRROR_GITIGNORE_PATH@);
        let p = apply::marking(base);
        assert forall|reply: Rep| confined(#[trigger] p->then(reply), base) by {}
    } else {
        lemma_confined_removing(base, sync, j + 1);
        let path = sync.deletes[j];
        if apply::removes(sync, path) && apply::relative_check(path) is Ok {
            paths::lemma_components_below(base, path);
            let last = apply::remove_step(base, sync, j);
            assert forall|reply: Rep| confined(#[trigger] last->then(reply), base) by {}
            assert(confined(last, base));
            let p = apply::check_step(base, sync, j);
            assert forall|reply: Rep| confined(#[trigger] p->then(reply), base) by {
                assert(p->then(reply) == apply::checked(base, sync, j, reply));
            }
            assert(confined(p, base));
        }
    }
}

proof fn lemma_confined_writing(base: Seq<char>, sync: Response, i: int)
    requires
        paths::is_canonical(base),
        0 <= i <= sync.upserts.len(),
    ensures
        confined(apply::writing(base, sync, i), base),
    decreases sync.upserts.len() - i,
{
    if i >= sync.upserts.len() {
        lemma_confined_removing(base, sync, 0);
    } else {
        lemma_confined_writing(base, sync, i + 1);
        let path = sync.upserts[i].path;
        if !sync::is_control(path) && apply::relative_check(path) is Ok {
            paths::lemma_components_below(base, path);
            let last = apply::write_step(base, sync, i);
            assert forall|reply: Rep| confined(#[trigger] last->then(reply), base) by {}
            assert(confined(last, base));
            match paths::parent_of(paths::join_path(base, path)) {
                Some(parent) => {
                    let p = apply::parent_step(base, sync, i, parent);
                    assert forall|reply: Rep| confined(#[trigger] p->then(reply), base) by {
                        assert(p->then(reply) == apply::parented(base, sync, i, parent, reply));
                    }
                    assert(confined(p, base));
                },
                None => {},
            }
        }
    }
}

/// Whatever a response holds and whatever replies come, every file that an update writes or removes
/// lies in the directory that the mirror's path was resolved to.
pub proof fn update_stays_in_the_mirror(wiki_path: Seq<char>, base: Seq<char>, sync: Response)
    requires
        paths::is_canonical(base),
    ensures
        confined(apply::located(wiki_path, sync, FileReply::Canonical(base)), base),
{
    lemma_confined_writing(base, sync, 0);
}

/// A response with a path that leads out of the mirror is refused at that path.
pub proof fn leading_out_is_refused(base: Seq<char>, sync: Response, i: int)
    requires
        0 <= i < sync.upserts.len(),
        !sync::is_control(sync.upserts[i].path),
        apply::relative_check(sync.upserts[i].path) is Err,
    ensures
        apply::writing(base, sync, i) == Program::<Op, Rep, Result<(), Fault>>::Return(
            apply::relative_check(sync.upserts[i].path),
        ),
{
}

} // verus!
