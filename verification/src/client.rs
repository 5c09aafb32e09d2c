//! The command line client: which wikis it mirrors, and what it asks of the server.

use vstd::prelude::*;

use crate::client::client_mirror::{ClientMirror, Mirror};
use crate::names;
use crate::names::LocalPathError;
use crate::sync::exchange::SyncSummary;
use crate::text;
use crate::views;

pub mod agent_setup;
pub mod client_mirror;
pub mod written;

verus! {

/// Why the client refuses to go on.
#[derive(Debug, PartialEq, Eq)]
pub enum ClientError<S = String> {
    ServerUrlUnset,
    WikisUnset,
    NoWikis,
    NoDescription(S),
    DuplicateName(S),
    DuplicatePath(S),
    InvalidName(S),
    InvalidLocalPath { name: S, error: LocalPathError<S> },
    EmptyDescription(S),
    /// Wikis that the server does not have, and those that it has.
    NotAdvertised { missing: S, available: S },
    /// No wiki was named; those that are configured.
    WikiRequired { configured: S },
    UnknownWiki { wiki: S, configured: S },
}

/// A refusal by its views.
pub type Fault = ClientError<Seq<char>>;

impl DeepView for ClientError<String> {
    type V = ClientError<Seq<char>>;

    open spec fn deep_view(&self) -> ClientError<Seq<char>> {
        match self {
            ClientError::ServerUrlUnset => ClientError::ServerUrlUnset,
            ClientError::WikisUnset => ClientError::WikisUnset,
            ClientError::NoWikis => ClientError::NoWikis,
            ClientError::NoDescription(name) => ClientError::NoDescription(name@),
            ClientError::DuplicateName(name) => ClientError::DuplicateName(name@),
            ClientError::DuplicatePath(path) => ClientError::DuplicatePath(path@),
            ClientError::InvalidName(name) => ClientError::InvalidName(name@),
            ClientError::InvalidLocalPath { name, error } => ClientError::InvalidLocalPath {
                name: name@,
                error: error.deep_view(),
            },
            ClientError::EmptyDescription(name) => ClientError::EmptyDescription(name@),
            ClientError::NotAdvertised { missing, available } => ClientError::NotAdvertised {
                missing: missing@,
                available: available@,
            },
            ClientError::WikiRequired { configured } => ClientError::WikiRequired {
                configured: configured@,
            },
            ClientError::UnknownWiki { wiki, configured } => ClientError::UnknownWiki {
                wiki: wiki@,
                configured: configured@,
            },
        }
    }
}

impl ClientError<Seq<char>> {
    /// What the refusal says.
    pub open spec fn says(self) -> Seq<char> {
        match self {
            ClientError::ServerUrlUnset => "WIKIDESK_SERVER_URL not set"@,
            ClientError::WikisUnset => "WIKIDESK_WIKIS not set (example: WIKIDESK_WIKIS=default,ml:wiki-ml)"@,
            ClientError::NoWikis => "WIKIDESK_WIKIS must name at least one wiki"@,
            ClientError::NoDescription(name) => "wiki '"@ + name + "' has no description"@,
            ClientError::DuplicateName(name) => "duplicate wiki name '"@ + name + "'"@,
            ClientError::DuplicatePath(path) => "duplicate local_path '"@ + path + "'"@,
            ClientError::InvalidName(name) => "invalid wiki name '"@ + name
                + "' (use lowercase letters, digits, and hyphens; start and end with a letter or digit)"@,
            ClientError::InvalidLocalPath { name, error } => "invalid local_path for wiki '"@ + name
                + "': "@ + error.says(),
            ClientError::EmptyDescription(name) => "server returned empty description for wiki '"@
                + name + "'"@,
            ClientError::NotAdvertised {
                missing,
                available,
            } => "server does not advertise wiki(s): "@ + missing + " (available: "@ + available
                + ")"@,
            ClientError::WikiRequired { configured } => "--wiki/-w is required (configured wikis: "@
                + configured + ")"@,
            ClientError::UnknownWiki { wiki, configured } => "unknown wiki '"@ + wiki
                + "' (configured wikis: "@ + configured + ")"@,
        }
    }
}

impl ClientError {
    /// The message of the refusal.
    pub fn message(&self) -> (res: String)
        ensures
            res@ == self.deep_view().says(),
    {
        match self {
            ClientError::ServerUrlUnset => "WIKIDESK_SERVER_URL not set".to_string(),
            ClientError::WikisUnset => "WIKIDESK_WIKIS not set (example: WIKIDESK_WIKIS=default,ml:wiki-ml)".to_string(),
            ClientError::NoWikis => "WIKIDESK_WIKIS must name at least one wiki".to_string(),
            ClientError::NoDescription(name) => "wiki '".to_string().concat(name.as_str()).concat(
                "' has no description",
            ),
            ClientError::DuplicateName(name) => "duplicate wiki name '".to_string().concat(
                name.as_str(),
            ).concat("'"),
            ClientError::DuplicatePath(path) => "duplicate local_path '".to_string().concat(
                path.as_str(),
            ).concat("'"),
            ClientError::InvalidName(name) => "invalid wiki name '".to_string().concat(
                name.as_str(),
            ).concat(
                "' (use lowercase letters, digits, and hyphens; start and end with a letter or digit)",
            ),
            ClientError::InvalidLocalPath {
                name,
                error,
            } => "invalid local_path for wiki '".to_string().concat(name.as_str()).concat(
                "': ",
            ).concat(error.message().as_str()),
            ClientError::EmptyDescription(
                name,
            ) => "server returned empty description for wiki '".to_string().concat(
                name.as_str(),
            ).concat("'"),
            ClientError::NotAdvertised {
                missing,
                available,
            } => "server does not advertise wiki(s): ".to_string().concat(missing.as_str()).concat(
                " (available: ",
            ).concat(available.as_str()).concat(")"),
            ClientError::WikiRequired {
                configured,
            } => "--wiki/-w is required (configured wikis: ".to_string().concat(
                configured.as_str(),
            ).concat(")"),
            ClientError::UnknownWiki { wiki, configured } => "unknown wiki '".to_string().concat(
                wiki.as_str(),
            ).concat("' (configured wikis: ").concat(configured.as_str()).concat(")"),
        }
    }
}

/// The names of mirrors, as they are listed in a message.
pub open spec fn listed_names(wikis: Seq<Mirror>) -> Seq<char> {
    text::join(wikis.map_values(|wiki: Mirror| wiki.name), seq![',', ' '])
}

/// The first mirror of a wiki.
pub open spec fn mirror_named(wikis: Seq<Mirror>, name: Seq<char>) -> Option<Mirror>
    decreases wikis.len(),
{
    if wikis.len() == 0 {
        None
    } else if wikis[0].name == name {
        Some(wikis[0])
    } else {
        mirror_named(wikis.drop_first(), name)
    }
}

/// The mirror of a wiki that is configured.
pub open spec fn known_mirror(wikis: Seq<Mirror>, name: Seq<char>) -> Result<Mirror, Fault> {
    match mirror_named(wikis, name) {
        Some(mirror) => Ok(mirror),
        None => Err(
            ClientError::UnknownWiki { wiki: name, configured: listed_names(wikis) },
        ),
    }
}

/// The server and the mirrors that the values of the two environment variables stand for.
pub open spec fn configured(server_url: Option<Seq<char>>, wikis: Option<Seq<char>>) -> Result<
    (Seq<char>, Seq<Mirror>),
    Fault,
> {
    match (server_url, wikis) {
        (None, _) => Err(ClientError::ServerUrlUnset),
        (Some(_), None) => Err(ClientError::WikisUnset),
        (Some(url), Some(raw)) => match client_mirror::wikis_of(raw) {
            Ok(mirrors) => Ok((server_url_of(url), mirrors)),
            Err(e) => Err(e),
        },
    }
}

/// The wiki that a question is for.
pub open spec fn required(wikis: Seq<Mirror>, wiki: Option<Seq<char>>) -> Result<Mirror, Fault> {
    match wiki {
        Some(name) => known_mirror(wikis, name),
        None => Err(ClientError::WikiRequired { configured: listed_names(wikis) }),
    }
}

/// The wikis that are synchronised.
pub open spec fn selected(wikis: Seq<Mirror>, wiki: Option<Seq<char>>) -> Result<
    Seq<Mirror>,
    Fault,
> {
    match wiki {
        Some(name) => match known_mirror(wikis, name) {
            Ok(mirror) => Ok(seq![mirror]),
            Err(e) => Err(e),
        },
        None => Ok(wikis),
    }
}

/// The URL of a server as it is used.
pub open spec fn server_url_of(raw: Seq<char>) -> Seq<char> {
    text::trim_end_char(raw, '/')
}

/// The URL at which a server lists its wikis.
pub open spec fn list_url_of(server_url: Seq<char>) -> Seq<char> {
    server_url + names::WIKI_LIST_PATH@
}

/// The URL at which a wiki takes research questions.
pub open spec fn research_url_of(server_url: Seq<char>, wiki: Seq<char>) -> Seq<char> {
    server_url + names::base_path_of(wiki) + "/api/research"@
}

/// The URL at which a wiki takes requests to synchronise.
pub open spec fn sync_url_of(server_url: Seq<char>, wiki: Seq<char>) -> Seq<char> {
    server_url + names::base_path_of(wiki) + "/api/sync"@
}

/// Which server the client speaks to, and which wikis it mirrors.
pub struct ClientConfig {
    pub server_url: String,
    pub wikis: Vec<ClientMirror>,
}

impl ClientConfig {
    /// The configuration in the values of the two environment variables, where they are set.
    pub fn from_values(server_url: Option<&str>, wikis: Option<&str>) -> (res: Result<
        Self,
        ClientError,
    >)
        ensures
            match res {
                Ok(config) => {
                    &&& server_url matches Some(url) && config.server_url@ == text::trim_end_char(
                        url@,
                        '/',
                    )
                    &&& wikis matches Some(raw) && client_mirror::wikis_of(raw@) == Ok::<_, Fault>(
                        config.wikis.deep_view(),
                    )
                },
                Err(e) => match (server_url, wikis) {
                    (None, _) => e is ServerUrlUnset,
                    (Some(_), None) => e is WikisUnset,
                    (Some(_), Some(raw)) => client_mirror::wikis_of(raw@) == Err::<
                        Seq<Mirror>,
                        Fault,
                    >(e.deep_view()),
                },
            },
            configured(server_url.deep_view(), wikis.deep_view()) == (match res {
                Ok(config) => Ok::<_, Fault>((config.server_url@, config.wikis.deep_view())),
                Err(e) => Err(e.deep_view()),
            }),
    {
        let server_url = match server_url {
            Some(url) => trim_server_url(url),
            None => return Err(ClientError::ServerUrlUnset),
        };
        match wikis {
            Some(raw) => match client_mirror::parse_wikis(raw) {
                Ok(wikis) => Ok(ClientConfig { server_url, wikis }),
                Err(e) => Err(e),
            },
            None => Err(ClientError::WikisUnset),
        }
    }

    /// The wiki that a question is for, which has to be named.
    pub fn require_wiki(&self, wiki: Option<String>) -> (res: Result<ClientMirror, ClientError>)
        ensures
            views::outcome(res) == (match wiki {
                Some(name) => known_mirror(self.wikis.deep_view(), name@),
                None => Err(
                    ClientError::WikiRequired { configured: listed_names(self.wikis.deep_view()) },
                ),
            }),
            views::outcome(res) == required(self.wikis.deep_view(), wiki.deep_view()),
    {
        match wiki {
            Some(name) => self.validate_wiki(name),
            None => Err(ClientError::WikiRequired { configured: self.configured_wikis() }),
        }
    }

    /// The wikis that are synchronised: the one that is named, else all.
    pub fn selected_wikis(&self, wiki: Option<String>) -> (res: Result<
        Vec<ClientMirror>,
        ClientError,
    >)
        ensures
            views::outcome(res) == (match wiki {
                Some(name) => match known_mirror(self.wikis.deep_view(), name@) {
                    Ok(mirror) => Ok(seq![mirror]),
                    Err(e) => Err(e),
                },
                None => Ok(self.wikis.deep_view()),
            }),
            views::outcome(res) == selected(self.wikis.deep_view(), wiki.deep_view()),
    {
        match wiki {
            Some(name) => match self.validate_wiki(name) {
                Ok(mirror) => {
                    let ghost shown = mirror.deep_view();
                    let one = vec![mirror];
                    assert(one.deep_view() =~= seq![shown]);
                    Ok(one)
                },
                Err(e) => Err(e),
            },
            None => Ok(client_mirror::cloned_mirrors(&self.wikis)),
        }
    }

    /// The mirror of a wiki that is configured.
    pub fn validate_wiki(&self, wiki: String) -> (res: Result<ClientMirror, ClientError>)
        ensures
            views::outcome(res) == known_mirror(self.wikis.deep_view(), wiki@),
    {
        let ghost all = self.wikis.deep_view();
        let n: usize = self.wikis.len();
        let mut i: usize = 0;
        assert(all.skip(0) =~= all);
        while i < n
            invariant
                n == self.wikis@.len(),
                i <= n,
                all == self.wikis.deep_view(),
                mirror_named(all, wiki@) == mirror_named(all.skip(i as int), wiki@),
            decreases n - i,
        {
            assert(all.skip(i as int)[0] == self.wikis@[i as int].deep_view());
            if text::same(self.wikis[i].name.as_str(), wiki.as_str()) {
                return Ok(self.wikis[i].clone());
            }
            assert(all.skip(i as int).drop_first() =~= all.skip(i + 1));
            i = i + 1;
        }
        Err(
            ClientError::UnknownWiki { wiki, configured: self.configured_wikis() },
        )
    }

    /// The names of the configured wikis, as they are listed in a message.
    pub fn configured_wikis(&self) -> (res: String)
        ensures
            res@ == listed_names(self.wikis.deep_view()),
    {
        proof {
            reveal_strlit(", ");
            assert(", "@ =~= seq![',', ' ']);
        }
        text::joined(&client_mirror::names_of(&self.wikis), ", ")
    }
}

/// The URL of a server without the slashes at its end.
pub fn trim_server_url(raw: &str) -> (res: String)
    ensures
        res@ == text::trim_end_char(raw@, '/'),
        res@ == server_url_of(raw@),
{
    text::without_trailing(raw, '/')
}

/// The URL at which a server lists its wikis.
pub fn wiki_list_url(server_url: &str) -> (res: String)
    ensures
        res@ == server_url@ + names::WIKI_LIST_PATH@,
        res@ == list_url_of(server_url@),
{
    server_url.to_string().concat(names::WIKI_LIST_PATH)
}

/// The URL at which a wiki takes research questions.
pub fn research_url(server_url: &str, wiki: &str) -> (res: String)
    ensures
        res@ == server_url@ + names::base_path_of(wiki@) + "/api/research"@,
        res@ == research_url_of(server_url@, wiki@),
{
    server_url.to_string().concat(names::wiki_base_path(wiki).as_str()).concat("/api/research")
}

/// The URL at which a wiki takes requests to synchronise.
pub fn sync_url(server_url: &str, wiki: &str) -> (res: String)
    ensures
        res@ == server_url@ + names::base_path_of(wiki@) + "/api/sync"@,
        res@ == sync_url_of(server_url@, wiki@),
{
    server_url.to_string().concat(names::wiki_base_path(wiki).as_str()).concat("/api/sync")
}

/// What is reported of a synchronisation, if it changed anything.
pub open spec fn summary_text(wiki: Seq<char>, summary: SyncSummary) -> Option<Seq<char>> {
    if summary.updated + summary.deleted > 0 {
        Some(
            "sync "@ + wiki + ": "@ + text::decimal(summary.updated as nat) + " updated, "@
                + text::decimal(summary.deleted as nat) + " deleted"@,
        )
    } else {
        None
    }
}

/// What is reported of a synchronisation, if it changed anything.
pub fn sync_summary_line(wiki: &str, summary: SyncSummary) -> (res: Option<String>)
    ensures
        res.deep_view() == summary_text(wiki@, summary),
{
    if summary.updated > 0 || summary.deleted > 0 {
        Some(
            "sync ".to_string().concat(wiki).concat(": ").concat(
                text::decimal_text(summary.updated as u64).as_str(),
            ).concat(" updated, ").concat(
                text::decimal_text(summary.deleted as u64).as_str(),
            ).concat(" deleted"),
        )
    } else {
        None
    }
}

/// The URLs of a server: its wikis are listed at one of them, and each takes questions and requests
/// to synchronise at its own. Slashes at the end of the server's own URL count for nothing.
pub proof fn urls_lead_to_the_wikis(server: Seq<char>, wiki: Seq<char>)
    ensures
        list_url_of(server) == server + "/wiki"@,
        research_url_of(server, wiki) == server + "/wiki/"@ + wiki + "/api/research"@,
        sync_url_of(server, wiki) == server + "/wiki/"@ + wiki + "/api/sync"@,
        server_url_of(server.push('/')) == server_url_of(server),
        server.len() == 0 || server.last() != '/' ==> server_url_of(server) == server,
{
    names::wikis_have_their_paths(wiki);
    assert(server + ("/wiki/"@ + wiki) =~= server + "/wiki/"@ + wiki);
    text::trailing_copies_go(server, '/');
}

/// The client is configured by the URL of its server and by its wikis; what is not set is told, the
/// server first.
pub proof fn clients_need_a_server_and_wikis(url: Seq<char>, raw: Seq<char>, any: Option<Seq<char>>)
    ensures
        configured(None, any) == Err::<(Seq<char>, Seq<Mirror>), Fault>(ClientError::ServerUrlUnset),
        configured(Some(url), None) == Err::<(Seq<char>, Seq<Mirror>), Fault>(
            ClientError::WikisUnset,
        ),
        client_mirror::wikis_of(raw) is Err ==> configured(Some(url), Some(raw)) == Err::<
            (Seq<char>, Seq<Mirror>),
            Fault,
        >(client_mirror::wikis_of(raw)->Err_0),
        client_mirror::wikis_of(raw) is Ok ==> configured(Some(url), Some(raw)) == Ok::<_, Fault>(
            (server_url_of(url), client_mirror::wikis_of(raw)->Ok_0),
        ),
{
}

proof fn lemma_named(wikis: Seq<Mirror>, i: int)
    requires
        0 <= i < wikis.len(),
        forall|j: int| 0 <= j < i ==> (#[trigger] wikis[j]).name != wikis[i].name,
    ensures
        mirror_named(wikis, wikis[i].name) == Some(wikis[i]),
    decreases i,
{
    if i > 0 {
        let rest = wikis.drop_first();
        assert(rest[i - 1] == wikis[i]);
        assert forall|j: int| 0 <= j < i - 1 implies (#[trigger] rest[j]).name != wikis[i].name by {
            assert(rest[j] == wikis[j + 1]);
        }
        lemma_named(rest, i - 1);
    }
}

proof fn lemma_unnamed(wikis: Seq<Mirror>, name: Seq<char>)
    requires
        forall|j: int| 0 <= j < wikis.len() ==> (#[trigger] wikis[j]).name != name,
    ensures
        mirror_named(wikis, name) is None,
    decreases wikis.len(),
{
    if wikis.len() > 0 {
        assert(wikis[0].name != name);
        let rest = wikis.drop_first();
        assert forall|j: int| 0 <= j < rest.len() implies (#[trigger] rest[j]).name != name by {
            assert(rest[j] == wikis[j + 1]);
        }
        lemma_unnamed(rest, name);
    }
}

/// A wiki that is named is the one with that name. A question has to name its wiki; without a name
/// all wikis are synchronised.
pub proof fn wikis_are_found_by_name(wikis: Seq<Mirror>, i: int)
    requires
        0 <= i < wikis.len(),
        forall|j: int| 0 <= j < i ==> (#[trigger] wikis[j]).name != wikis[i].name,
    ensures
        known_mirror(wikis, wikis[i].name) == Ok::<_, Fault>(wikis[i]),
        required(wikis, Some(wikis[i].name)) == Ok::<_, Fault>(wikis[i]),
        selected(wikis, Some(wikis[i].name)) == Ok::<_, Fault>(seq![wikis[i]]),
        selected(wikis, None) == Ok::<_, Fault>(wikis),
        required(wikis, None) == Err::<Mirror, _>(
            ClientError::WikiRequired {
                configured: text::join(wikis.map_values(|wiki: Mirror| wiki.name), ", "@),
            },
        ),
{
    reveal_strlit(", ");
    assert(", "@ =~= seq![',', ' ']);
    lemma_named(wikis, i);
}

/// A wiki that is not configured is refused, with the names of those that are.
pub proof fn unconfigured_wikis_are_refused(wikis: Seq<Mirror>, name: Seq<char>)
    requires
        forall|j: int| 0 <= j < wikis.len() ==> (#[trigger] wikis[j]).name != name,
    ensures
        ({
            let refusal = ClientError::UnknownWiki {
                wiki: name,
                configured: text::join(wikis.map_values(|wiki: Mirror| wiki.name), ", "@),
            };
            &&& known_mirror(wikis, name) == Err::<Mirror, _>(refusal)
            &&& required(wikis, Some(name)) == Err::<Mirror, _>(refusal)
            &&& selected(wikis, Some(name)) == Err::<Seq<Mirror>, _>(refusal)
        }),
{
    reveal_strlit(", ");
    assert(", "@ =~= seq![',', ' ']);
    lemma_unnamed(wikis, name);
}

/// What is reported of a synchronisation: nothing where nothing changed, else how many files were
/// updated and how many deleted.
pub proof fn changes_are_reported(wiki: Seq<char>, updated: usize, deleted: usize)
    ensures
        summary_text(wiki, SyncSummary { updated: 0, deleted: 0 }) is None,
        updated > 0 || deleted > 0 ==> summary_text(wiki, SyncSummary { updated, deleted }) == Some(
            "sync "@ + wiki + ": "@ + text::decimal(updated as nat) + " updated, "@
                + text::decimal(deleted as nat) + " deleted"@,
        ),
{
}

/// What is said where the client refuses to go on.
pub proof fn refusals_are_told(
    name: Seq<char>,
    text: Seq<char>,
    error: LocalPathError<Seq<char>>,
)
    ensures
        ClientError::<Seq<char>>::ServerUrlUnset.says() == "WIKIDESK_SERVER_URL not set"@,
        ClientError::<Seq<char>>::WikisUnset.says()
            == "WIKIDESK_WIKIS not set (example: WIKIDESK_WIKIS=default,ml:wiki-ml)"@,
        ClientError::<Seq<char>>::NoWikis.says() == "WIKIDESK_WIKIS must name at least one wiki"@,
        ClientError::NoDescription(name).says() == "wiki '"@ + name + "' has no description"@,
        ClientError::DuplicateName(name).says() == "duplicate wiki name '"@ + name + "'"@,
        ClientError::DuplicatePath(name).says() == "duplicate local_path '"@ + name + "'"@,
        ClientError::InvalidName(name).says() == "invalid wiki name '"@ + name
            + "' (use lowercase letters, digits, and hyphens; start and end with a letter or digit)"@,
        (ClientError::InvalidLocalPath { name, error }).says()
            == "invalid local_path for wiki '"@ + name + "': "@ + error.says(),
        ClientError::EmptyDescription(name).says()
            == "server returned empty description for wiki '"@ + name + "'"@,
        (ClientError::NotAdvertised { missing: name, available: text }).says()
            == "server does not advertise wiki(s): "@ + name + " (available: "@ + text + ")"@,
        (ClientError::WikiRequired { configured: text }).says()
            == "--wiki/-w is required (configured wikis: "@ + text + ")"@,
        (ClientError::UnknownWiki { wiki: name, configured: text }).says() == "unknown wiki '"@
            + name + "' (configured wikis: "@ + text + ")"@,
{
}

} // verus!
