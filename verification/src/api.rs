//! The HTTP interface: which requests are answered how.

use vstd::prelude::*;
use vstd::utf8;

use crate::names;
use crate::names::ResearchResponse;
use crate::paths;
use crate::queue::QueueFullError;
use crate::research_task;
use crate::surface;
use crate::surface::SurfaceError;
use crate::sync;
use crate::sync::apply;
use crate::sync::apply::MirrorFound;
use crate::sync::convergence;
use crate::sync::convergence::Disk;
use crate::sync::exchange;
use crate::sync::exchange::{FileContent, FileEntry, ReadFile, Response, Sum, SyncResponse};
use crate::sync::WikiSyncError;
use crate::views;

verus! {

/// Why a request is refused.
#[derive(Debug, PartialEq, Eq)]
pub enum ApiError<S = String> {
    BadRequest(S),
    Busy,
    Internal(S),
}

/// A refusal by its views.
pub type Fault = ApiError<Seq<char>>;

impl DeepView for ApiError<String> {
    type V = ApiError<Seq<char>>;

    open spec fn deep_view(&self) -> ApiError<Seq<char>> {
        match self {
            ApiError::BadRequest(message) => ApiError::BadRequest(message@),
            ApiError::Busy => ApiError::Busy,
            ApiError::Internal(message) => ApiError::Internal(message@),
        }
    }
}

impl ApiError<Seq<char>> {
    /// What the refusal says.
    pub open spec fn says(self) -> Seq<char> {
        match self {
            ApiError::BadRequest(message) => message,
            ApiError::Busy => "server busy"@,
            ApiError::Internal(message) => message,
        }
    }
}

impl ApiError<Seq<char>> {
    /// The HTTP status of the refusal.
    pub open spec fn code(self) -> u16 {
        match self {
            ApiError::BadRequest(_) => 400,
            ApiError::Busy => 503,
            ApiError::Internal(_) => 500,
        }
    }
}

/// The refusal of a request that the surface refuses. Why research failed is said as it is.
pub open spec fn surface_fault(error: surface::Fault) -> Fault {
    match error {
        SurfaceError::QueueFull(_) => ApiError::Busy,
        SurfaceError::InvalidLocalPath(_) => ApiError::BadRequest(error.says()),
        SurfaceError::ResearchFailed(message) => ApiError::Internal(message),
        _ => ApiError::Internal(error.says()),
    }
}

impl ApiError {
    /// The HTTP status of the refusal.
    pub fn status(&self) -> (res: u16)
        ensures
            res == (match self {
                ApiError::BadRequest(_) => 400u16,
                ApiError::Busy => 503u16,
                ApiError::Internal(_) => 500u16,
            }),
            res == self.deep_view().code(),
    {
        match self {
            ApiError::BadRequest(_) => 400,
            ApiError::Busy => 503,
            ApiError::Internal(_) => 500,
        }
    }

    /// The message of the refusal.
    pub fn message(&self) -> (res: String)
        ensures
            res@ == self.deep_view().says(),
    {
        match self {
            ApiError::BadRequest(message) => message.clone(),
            ApiError::Internal(message) => message.clone(),
            ApiError::Busy => "server busy".to_string(),
        }
    }

    /// The refusal of a question for which there is no room.
    pub fn from_queue_full(_full: QueueFullError) -> (res: Self)
        ensures
            res is Busy,
    {
        ApiError::Busy
    }

    /// The refusal of a request that the surface refuses.
    pub fn from_surface(error: SurfaceError) -> (res: Self)
        ensures
            res.deep_view() == surface_fault(error.deep_view()),
    {
        match error {
            SurfaceError::QueueFull(_) => ApiError::Busy,
            SurfaceError::InvalidLocalPath(_) => ApiError::BadRequest(error.message()),
            SurfaceError::ResearchFailed(message) => ApiError::Internal(message),
            _ => ApiError::Internal(error.message()),
        }
    }
}

/// The reply to a question: its answer, or why there is none.
pub open spec fn answer_outcome(outcome: Result<Seq<char>, surface::Fault>) -> Result<
    Seq<char>,
    Fault,
> {
    match outcome {
        Ok(answer) => Ok(answer),
        Err(e) => Err(surface_fault(e)),
    }
}

/// The reply to a question.
pub fn research_reply(outcome: Result<String, SurfaceError>) -> (res: Result<
    ResearchResponse,
    ApiError,
>)
    ensures
        match (res, views::outcome(outcome)) {
            (Ok(response), Ok(answer)) => response.answer@ == answer,
            (Err(error), Err(e)) => error.deep_view() == surface_fault(e),
            _ => false,
        },
        answer_outcome(views::outcome(outcome)) == (match res {
            Ok(response) => Ok::<_, Fault>(response.answer@),
            Err(error) => Err(error.deep_view()),
        }),
{
    match outcome {
        Ok(answer) => Ok(ResearchResponse { answer }),
        Err(e) => Err(ApiError::from_surface(e)),
    }
}

/// The reply to a request to synchronise, given how making the published wiki ready ended and how
/// its files were listed.
pub open spec fn sync_outcome(
    prepared: Result<(), research_task::Fault>,
    files: Result<Seq<ReadFile>, sync::Fault>,
    client: Seq<Sum>,
) -> Result<Response, Fault> {
    match prepared {
        Err(e) => Err(ApiError::Internal(e.says())),
        Ok(_) => match files {
            Err(e) => Err(ApiError::Internal(e.says())),
            Ok(read) => match exchange::sync_of(read, client) {
                Err(e) => Err(ApiError::Internal(e.says())),
                Ok(response) => Ok(response),
            },
        },
    }
}

/// The reply to a request to synchronise.
pub fn sync_reply(
    prepared: Result<(), research_task::Error>,
    files: Result<Vec<ReadFile>, WikiSyncError>,
    client_files: &Vec<FileEntry>,
) -> (res: Result<SyncResponse, ApiError>)
    ensures
        views::outcome(res) == sync_outcome(
            views::outcome(prepared),
            match files {
                Ok(read) => Ok(read@),
                Err(e) => Err(e.deep_view()),
            },
            client_files.deep_view(),
        ),
{
    match prepared {
        Err(e) => Err(ApiError::Internal(e.message())),
        Ok(()) => match files {
            Err(e) => Err(ApiError::Internal(e.message())),
            Ok(read) => match exchange::compute_sync(&read, client_files) {
                Err(e) => Err(ApiError::Internal(e.message())),
                Ok(response) => Ok(response),
            },
        },
    }
}

/// The HTTP status and the message of every refusal.
pub proof fn refusals_have_their_status(message: Seq<char>)
    ensures
        ApiError::BadRequest(message).code() == 400,
        ApiError::<Seq<char>>::Busy.code() == 503,
        ApiError::Internal(message).code() == 500,
        ApiError::BadRequest(message).says() == message,
        ApiError::<Seq<char>>::Busy.says() == "server busy"@,
        ApiError::Internal(message).says() == message,
{
}

/// How a question is replied to: with its answer, or with why there is none. A full queue is told as
/// a busy server, a path that may not be one as a bad request, and failed research as it failed.
pub proof fn questions_are_replied_to(
    answer: Seq<char>,
    message: Seq<char>,
    full: QueueFullError,
    path: names::LocalPathError<Seq<char>>,
    failure: research_task::Fault,
)
    ensures
        answer_outcome(Ok(answer)) == Ok::<_, Fault>(answer),
        answer_outcome(Err(SurfaceError::QueueFull(full))) == Err::<Seq<char>, Fault>(
            ApiError::Busy,
        ),
        answer_outcome(Err(SurfaceError::InvalidLocalPath(path))) == Err::<Seq<char>, _>(
            ApiError::BadRequest("invalid local_path: "@ + path.says()),
        ),
        answer_outcome(Err(SurfaceError::ResearchFailed(message))) == Err::<Seq<char>, _>(
            ApiError::Internal(message),
        ),
        answer_outcome(Err(SurfaceError::MissingTask)) == Err::<Seq<char>, _>(
            ApiError::Internal("task disappeared"@),
        ),
        answer_outcome(Err(SurfaceError::UnexpectedTaskState)) == Err::<Seq<char>, _>(
            ApiError::Internal("unexpected task state"@),
        ),
        answer_outcome(Err(SurfaceError::RewriteJoin(message))) == Err::<Seq<char>, _>(
            ApiError::Internal("wikilink rewrite task failed"@),
        ),
        answer_outcome(Err(SurfaceError::ResearchTask(failure))) == Err::<Seq<char>, _>(
            ApiError::Internal(failure.says()),
        ),
{
}

/// Where the published wiki could not be made ready or listed, the reply says why.
pub proof fn failed_synchronisations_are_told(
    failure: research_task::Fault,
    fault: sync::Fault,
    files: Result<Seq<ReadFile>, sync::Fault>,
    client: Seq<Sum>,
)
    ensures
        sync_outcome(Err(failure), files, client) == Err::<Response, _>(
            ApiError::Internal(failure.says()),
        ),
        sync_outcome(Ok(()), Err(fault), client) == Err::<Response, _>(
            ApiError::Internal(fault.says()),
        ),
{
}

/// The file of a wiki with a path.
pub open spec fn is_file(file: ReadFile, path: Seq<char>) -> bool {
    file.path@ == path
}

/// The reply to a request to synchronise tells the client to delete every path that it reported and
/// the wiki lacks, and no other, and brings every file that the client did not report or reported
/// with another digest, and no other.
pub proof fn replies_bring_what_clients_lack(read: Seq<ReadFile>, client: Seq<Sum>, path: Seq<char>)
    requires
        exchange::all_read(read),
        forall|i: int| 0 <= i < read.len() ==> utf8::valid_utf8((#[trigger] read[i]).read->Ok_0@),
        forall|i: int, j: int|
            0 <= i < j < client.len() ==> (#[trigger] client[i]).path != (#[trigger] client[j]).path,
        forall|i: int, j: int|
            0 <= i < j < read.len() ==> (#[trigger] read[i]).path@ != (#[trigger] read[j]).path@,
    ensures
        ({
            let reply = sync_outcome(Ok(()), Ok(read), client);
            &&& reply is Ok
            &&& reply->Ok_0.deletes.contains(path) <==> {
                &&& exists|i: int| 0 <= i < client.len() && (#[trigger] client[i]).path == path
                &&& forall|i: int| 0 <= i < read.len() ==> !is_file(#[trigger] read[i], path)
            }
            &&& forall|i: int|
                0 <= i < read.len() && !(exists|j: int|
                    0 <= j < client.len() && (#[trigger] client[j]).path == read[i].path@
                        && client[j].checksum == exchange::sha256(read[i].read->Ok_0@))
                    ==> reply->Ok_0.upserts.contains(
                    FileContent {
                        path: (#[trigger] read[i]).path@,
                        content: utf8::decode_utf8(read[i].read->Ok_0@),
                    },
                )
            &&& forall|k: int|
                0 <= k < reply->Ok_0.upserts.len() ==> exists|i: int|
                    0 <= i < read.len() && is_file(
                        #[trigger] read[i],
                        (#[trigger] reply->Ok_0.upserts[k]).path,
                    ) && reply->Ok_0.upserts[k].content == utf8::decode_utf8(read[i].read->Ok_0@)
                        && forall|j: int|
                        0 <= j < client.len() && (#[trigger] client[j]).path == read[i].path@
                            ==> client[j].checksum != exchange::sha256(read[i].read->Ok_0@)
        }),
{
    exchange::lemma_read_have_entries(read);
    exchange::lemma_entries_read(read);
    let entries = exchange::entries_of(read)->Ok_0;
    let contents = exchange::bytes_of(read);
    convergence::lemma_digests(client);
    assert forall|i: int| 0 <= i < contents.len() implies utf8::valid_utf8(
        #[trigger] contents[i],
    ) by {
        assert(utf8::valid_utf8(read[i].read->Ok_0@));
    }
    exchange::lemma_texts_are_brought(entries, contents, client);
    let response = exchange::sync_of(read, client)->Ok_0;
    let upserts = response.upserts;
    assert(convergence::distinct(entries)) by {
        assert forall|i: int, j: int| 0 <= i < j < entries.len() implies #[trigger] entries[i].path
            != #[trigger] entries[j].path by {
            assert(read[i].path@ != read[j].path@);
        }
    }
    assert(convergence::distinct(client));
    convergence::lemma_brought_origin(entries, contents, client, upserts);
    let told = client.map_values(|entry: Sum| entry.path);
    let f = |p: Seq<char>| !exchange::paths_of(entries).contains(p);
    views::lemma_filtered(told, f);
    assert(exchange::paths_of(entries).contains(path) <==> exists|i: int|
        0 <= i < read.len() && is_file(#[trigger] read[i], path)) by {
        if exchange::paths_of(entries).contains(path) {
            let i = choose|i: int| 0 <= i < entries.len() && entries[i].path == path;
            assert(is_file(read[i], path));
        }
        if exists|i: int| 0 <= i < read.len() && is_file(#[trigger] read[i], path) {
            let i = choose|i: int| 0 <= i < read.len() && is_file(#[trigger] read[i], path);
            assert(entries[i].path == path);
        }
    }
    assert(told.contains(path) <==> exists|i: int|
        0 <= i < client.len() && (#[trigger] client[i]).path == path) by {
        if told.contains(path) {
            let i = choose|i: int| 0 <= i < told.len() && told[i] == path;
            assert(client[i].path == path);
        }
        if exists|i: int| 0 <= i < client.len() && (#[trigger] client[i]).path == path {
            let i = choose|i: int| 0 <= i < client.len() && (#[trigger] client[i]).path == path;
            assert(told[i] == path);
        }
    }
    assert(response.deletes.contains(path) <==> told.contains(path) && f(path));
    assert forall|i: int|
        0 <= i < read.len() && !(exists|j: int|
            0 <= j < client.len() && (#[trigger] client[j]).path == read[i].path@
                && client[j].checksum == exchange::sha256(
                read[i].read->Ok_0@,
            )) implies upserts.contains(
        FileContent {
            path: (#[trigger] read[i]).path@,
            content: utf8::decode_utf8(read[i].read->Ok_0@),
        },
    ) by {
        lemma_unchanged(entries[i], client);
        let k = convergence::lemma_brought_all(entries, contents, client, upserts, i);
        assert(upserts.contains(upserts[k]));
    }
    assert forall|k: int| 0 <= k < upserts.len() implies exists|i: int|
        0 <= i < read.len() && is_file(#[trigger] read[i], (#[trigger] upserts[k]).path)
            && upserts[k].content == utf8::decode_utf8(read[i].read->Ok_0@) && forall|j: int|
            0 <= j < client.len() && (#[trigger] client[j]).path == read[i].path@
                ==> client[j].checksum != exchange::sha256(read[i].read->Ok_0@) by {
        assert(convergence::is_new(upserts[k], entries, contents, client));
        let i = choose|i: int|
            convergence::brought_from(upserts[k], entries, contents, client, i);
        lemma_unchanged(entries[i], client);
        assert(is_file(read[i], upserts[k].path));
    }
}

proof fn lemma_unchanged(entry: Sum, client: Seq<Sum>)
    requires
        convergence::distinct(client),
    ensures
        exchange::unchanged(entry, client) <==> exists|j: int|
            0 <= j < client.len() && (#[trigger] client[j]).path == entry.path
                && client[j].checksum == entry.checksum,
{
    convergence::lemma_digests(client);
    if exchange::unchanged(entry, client) {
        assert(exchange::paths_of(client).contains(entry.path));
        let j = choose|j: int| 0 <= j < client.len() && client[j].path == entry.path;
        assert(client[j].path == entry.path);
    }
    if exists|j: int|
        0 <= j < client.len() && (#[trigger] client[j]).path == entry.path && client[j].checksum
            == entry.checksum {
        let j = choose|j: int|
            0 <= j < client.len() && (#[trigger] client[j]).path == entry.path
                && client[j].checksum == entry.checksum;
        assert(exchange::paths_of(client).contains(client[j].path));
    }
}

/// The reply to a request to synchronise makes the client's mirror a copy of the wiki: carried out,
/// it leaves a file at a path of the mirror exactly where the wiki has one, with the same bytes.
pub proof fn replies_make_mirrors_copies(
    read: Seq<ReadFile>,
    client: Seq<Sum>,
    disk: Disk,
    named: Seq<char>,
    mirror: Seq<char>,
    found: MirrorFound<Seq<char>>,
    path: Seq<char>,
)
    requires
        exchange::all_read(read),
        forall|i: int|
            0 <= i < read.len() ==> utf8::valid_utf8((#[trigger] read[i]).read->Ok_0@)
                && apply::relative_check(read[i].path@) is Ok,
        forall|i: int, j: int|
            0 <= i < j < read.len() ==> (#[trigger] read[i]).path@ != (#[trigger] read[j]).path@,
        paths::is_canonical(mirror),
        apply::safe_check(named, found) is Ok,
        convergence::reports(client, disk, mirror),
        forall|i: int|
            0 <= i < read.len() && exchange::sha256(
                disk[paths::join_path(mirror, (#[trigger] read[i]).path@)],
            ) == exchange::sha256(read[i].read->Ok_0@) ==> disk[paths::join_path(
                mirror,
                read[i].path@,
            )] == read[i].read->Ok_0@,
        apply::relative_check(path) is Ok,
        !sync::is_control(path),
    ensures
        ({
            let reply = sync_outcome(Ok(()), Ok(read), client);
            let (outcome, after) = convergence::carried_out(
                apply::updating(named, reply->Ok_0),
                disk,
                named,
                mirror,
                found,
            );
            let target = paths::join_path(mirror, path);
            &&& reply is Ok
            &&& outcome is Ok
            &&& after.contains_key(target) <==> exists|i: int|
                0 <= i < read.len() && is_file(#[trigger] read[i], path)
            &&& forall|i: int|
                0 <= i < read.len() && is_file(#[trigger] read[i], path) ==> after[target]
                    == read[i].read->Ok_0@
        }),
{
    exchange::lemma_read_have_entries(read);
    exchange::lemma_entries_read(read);
    let entries = exchange::entries_of(read)->Ok_0;
    let contents = exchange::bytes_of(read);
    assert forall|i: int| 0 <= i < contents.len() implies utf8::valid_utf8(
        #[trigger] contents[i],
    ) by {
        assert(utf8::valid_utf8(read[i].read->Ok_0@));
    }
    exchange::lemma_texts_are_brought(entries, contents, client);
    let response = exchange::sync_of(read, client)->Ok_0;
    assert(convergence::distinct(entries)) by {
        assert forall|i: int, j: int| 0 <= i < j < entries.len() implies #[trigger] entries[i].path
            != #[trigger] entries[j].path by {
            assert(read[i].path@ != read[j].path@);
        }
    }
    assert(convergence::no_collision(entries, contents, disk, mirror)) by {
        assert forall|i: int|
            0 <= i < entries.len() && exchange::sha256(
                disk[paths::join_path(mirror, #[trigger] entries[i].path)],
            ) == exchange::sha256(contents[i]) implies disk[paths::join_path(
            mirror,
            entries[i].path,
        )] == contents[i] by {
            assert(entries[i].path == read[i].path@);
        }
    }
    assert forall|i: int| 0 <= i < entries.len() implies apply::relative_check(
        #[trigger] entries[i].path,
    ) is Ok && entries[i].checksum == exchange::sha256(contents[i]) by {
        assert(entries[i].path == read[i].path@);
    }
    convergence::synchronised_mirror_is_a_copy(
        entries,
        contents,
        client,
        response,
        disk,
        named,
        mirror,
        found,
        path,
    );
    if exchange::paths_of(entries).contains(path) {
        let i = choose|i: int| 0 <= i < entries.len() && entries[i].path == path;
        assert(is_file(read[i], path));
    }
    assert forall|i: int| 0 <= i < read.len() && is_file(
        #[trigger] read[i],
        path,
    ) implies exchange::paths_of(entries).contains(path) && entries[i].path == path by {
        assert(entries[i].path == path);
    }
}

} // verus!
