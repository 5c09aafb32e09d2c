//! The mirrors of a client: wikis, and where their pages are kept.

use vstd::hash_map::StringHashMap;
use vstd::prelude::*;

use crate::client::{ClientError, Fault};
use crate::names;
use crate::names::WikiInfo;
use crate::text;
use crate::views;

verus! {

/// A mirror of a wiki.
#[derive(Debug, PartialEq, Eq)]
pub struct ClientMirror<S = String> {
    pub name: S,
    pub local_path: S,
    pub description: Option<S>,
}

/// A mirror by its views.
pub type Mirror = ClientMirror<Seq<char>>;

impl DeepView for ClientMirror<String> {
    type V = ClientMirror<Seq<char>>;

    open spec fn deep_view(&self) -> ClientMirror<Seq<char>> {
        ClientMirror {
            name: self.name@,
            local_path: self.local_path@,
            description: self.description.deep_view(),
        }
    }
}

impl Clone for ClientMirror<String> {
    fn clone(&self) -> (res: Self)
        ensures
            res.deep_view() == self.deep_view(),
    {
        ClientMirror {
            name: self.name.clone(),
            local_path: self.local_path.clone(),
            description: self.description.clone(),
        }
    }
}

/// How a mirror is written: the wiki's name, and the path behind a colon where it is not the one
/// that belongs to the name.
pub open spec fn spec_of(mirror: Mirror) -> Seq<char> {
    if mirror.local_path == names::wiki_path_of(mirror.name) {
        mirror.name
    } else {
        mirror.name + ":"@ + mirror.local_path
    }
}

impl ClientMirror {
    /// A mirror of a wiki of which nothing else is known.
    pub fn new(name: String, local_path: String) -> (res: Self)
        ensures
            res.deep_view() == (ClientMirror {
                name: name@,
                local_path: local_path@,
                description: None,
            }),
    {
        ClientMirror { name, local_path, description: None }
    }

    /// The mirror with a description.
    pub fn with_description(self, description: String) -> (res: Self)
        ensures
            res.deep_view() == (ClientMirror {
                description: Some(description@),
                ..self.deep_view()
            }),
    {
        ClientMirror {
            name: self.name,
            local_path: self.local_path,
            description: Some(description),
        }
    }

    /// The description of the wiki, which it has to have.
    pub fn description(&self) -> (res: Result<String, ClientError>)
        ensures
            views::outcome(res) == (match self.deep_view().description {
                Some(description) => Ok(description),
                None => Err(ClientError::NoDescription(self.name@)),
            }),
    {
        match &self.description {
            Some(description) => Ok(description.clone()),
            None => Err(ClientError::NoDescription(self.name.clone())),
        }
    }

    /// How the mirror is written.
    pub fn spec(&self) -> (res: String)
        ensures
            res@ == spec_of(self.deep_view()),
    {
        if text::same(
            self.local_path.as_str(),
            names::derived_wiki_path(self.name.as_str()).as_str(),
        ) {
            self.name.clone()
        } else {
            self.name.clone().concat(":").concat(self.local_path.as_str())
        }
    }
}

/// A copy of a list of mirrors.
pub fn cloned_mirrors(mirrors: &Vec<ClientMirror>) -> (res: Vec<ClientMirror>)
    ensures
        res.deep_view() == mirrors.deep_view(),
{
    let mut out: Vec<ClientMirror> = Vec::new();
    let n: usize = mirrors.len();
    let mut i: usize = 0;
    while i < n
        invariant
            n == mirrors@.len(),
            i <= n,
            out.deep_view() =~= mirrors.deep_view().take(i as int),
        decreases n - i,
    {
        let ghost before = out.deep_view();
        out.push(mirrors[i].clone());
        assert(out.deep_view() =~= before.push(mirrors@[i as int].deep_view()));
        i = i + 1;
    }
    assert(mirrors.deep_view().take(n as int) =~= mirrors.deep_view());
    out
}

/// The names of mirrors.
pub fn names_of(mirrors: &Vec<ClientMirror>) -> (res: Vec<String>)
    ensures
        res.deep_view() == mirrors.deep_view().map_values(|mirror: Mirror| mirror.name),
{
    let mut out: Vec<String> = Vec::new();
    let n: usize = mirrors.len();
    let mut i: usize = 0;
    while i < n
        invariant
            n == mirrors@.len(),
            i <= n,
            out.deep_view() =~= mirrors.deep_view().map_values(
                |mirror: Mirror| mirror.name,
            ).take(i as int),
        decreases n - i,
    {
        let ghost before = out.deep_view();
        out.push(mirrors[i].name.clone());
        assert(mirrors.deep_view()[i as int] == mirrors@[i as int].deep_view());
        assert(out.deep_view() =~= before.push(mirrors@[i as int].name@));
        i = i + 1;
    }
    assert(mirrors.deep_view().map_values(|mirror: Mirror| mirror.name).take(n as int)
        =~= mirrors.deep_view().map_values(|mirror: Mirror| mirror.name));
    out
}

/// The name and the path in what is written of a mirror.
pub open spec fn spec_parts(spec: Seq<char>) -> (Seq<char>, Option<Seq<char>>) {
    match text::cut_at(spec, ':') {
        Some((name, path)) => (text::trim(name), Some(text::trim(path))),
        None => (text::trim(spec), None),
    }
}

/// The mirror that is written, or what is wrong with it.
pub open spec fn mirror_of(spec: Seq<char>) -> Result<Mirror, Fault> {
    let (name, path) = spec_parts(spec);
    if !names::wiki_name(name) {
        Err(ClientError::InvalidName(name))
    } else {
        match path {
            None => Ok(
                ClientMirror { name, local_path: names::wiki_path_of(name), description: None },
            ),
            Some(path) => match names::local_path_check(path) {
                Ok(_) => Ok(ClientMirror { name, local_path: path, description: None }),
                Err(error) => Err(ClientError::InvalidLocalPath { name, error }),
            },
        }
    }
}

/// The mirror that is written.
pub fn parse_wiki_spec(spec: &str) -> (res: Result<ClientMirror, ClientError>)
    ensures
        views::outcome(res) == mirror_of(spec@),
{
    let (name, path) = match text::cut(spec, ':') {
        Some((name, path)) => (
            text::trimmed(name.as_str()),
            Some(text::trimmed(path.as_str())),
        ),
        None => (text::trimmed(spec), None),
    };
    if !names::is_valid_wiki_name(name.as_str()) {
        return Err(ClientError::InvalidName(name));
    }
    match path {
        None => {
            let local_path = names::derived_wiki_path(name.as_str());
            Ok(ClientMirror::new(name, local_path))
        },
        Some(path) => match names::validate_local_path(path.as_str()) {
            Ok(()) => Ok(ClientMirror::new(name, path)),
            Err(error) => Err(ClientError::InvalidLocalPath { name, error }),
        },
    }
}

/// What is written of mirrors in a list: the parts between commas, trimmed, without the blank ones.
pub open spec fn list_parts(raw: Seq<char>) -> Seq<Seq<char>> {
    text::nonempty(text::split(raw, ',').map_values(|part: Seq<char>| text::trim(part)))
}

/// What is written of mirrors in several lists.
pub open spec fn all_parts(raws: Seq<Seq<char>>) -> Seq<Seq<char>>
    decreases raws.len(),
{
    if raws.len() == 0 {
        Seq::empty()
    } else {
        all_parts(raws.drop_last()) + list_parts(raws.last())
    }
}

/// Whether a wiki is among mirrors.
pub open spec fn has_name(mirrors: Seq<Mirror>, name: Seq<char>) -> bool {
    exists|i: int| 0 <= i < mirrors.len() && (#[trigger] mirrors[i]).name == name
}

/// Whether a path is taken by a mirror.
pub open spec fn has_path(mirrors: Seq<Mirror>, path: Seq<char>) -> bool {
    exists|i: int| 0 <= i < mirrors.len() && (#[trigger] mirrors[i]).local_path == path
}

/// Mirrors with one more, unless its name or its path is taken.
pub open spec fn with_mirror(mirrors: Seq<Mirror>, mirror: Mirror) -> Result<Seq<Mirror>, Fault> {
    if has_name(mirrors, mirror.name) {
        Err(ClientError::DuplicateName(mirror.name))
    } else if has_path(mirrors, mirror.local_path) {
        Err(ClientError::DuplicatePath(mirror.local_path))
    } else {
        Ok(mirrors.push(mirror))
    }
}

/// The mirrors that are written, or what is wrong with the first that is refused.
pub open spec fn mirrors_of(specs: Seq<Seq<char>>) -> Result<Seq<Mirror>, Fault>
    decreases specs.len(),
{
    if specs.len() == 0 {
        Ok(Seq::empty())
    } else {
        match mirrors_of(specs.drop_last()) {
            Err(e) => Err(e),
            Ok(mirrors) => match mirror_of(specs.last()) {
                Err(e) => Err(e),
                Ok(mirror) => with_mirror(mirrors, mirror),
            },
        }
    }
}

proof fn lemma_refused_spec(specs: Seq<Seq<char>>, k: int)
    requires
        0 <= k <= specs.len(),
    ensures
        mirrors_of(specs.take(k)) is Err ==> mirrors_of(specs) == mirrors_of(specs.take(k)),
    decreases specs.len() - k,
{
    if k < specs.len() {
        lemma_refused_spec(specs, k + 1);
        assert(specs.take(k + 1).drop_last() =~= specs.take(k));
    } else {
        assert(specs.take(k) =~= specs);
    }
}

fn part_list(raw: &str) -> (res: Vec<String>)
    ensures
        res.deep_view() == list_parts(raw@),
{
    let pieces = text::pieces(raw, ',');
    let n: usize = pieces.len();
    let ghost all = text::split(raw@, ',').map_values(|part: Seq<char>| text::trim(part));
    let mut out: Vec<String> = Vec::new();
    let mut i: usize = 0;
    proof {
        reveal(Seq::filter);
        assert(all.take(0) =~= Seq::<Seq<char>>::empty());
        assert(out.deep_view() =~= text::nonempty(all.take(0)));
    }
    while i < n
        invariant
            n == pieces@.len(),
            n == all.len(),
            i <= n,
            pieces.deep_view() == text::split(raw@, ','),
            all == text::split(raw@, ',').map_values(|part: Seq<char>| text::trim(part)),
            out.deep_view() == text::nonempty(all.take(i as int)),
        decreases n - i,
    {
        let part = text::trimmed(pieces[i].as_str());
        proof {
            reveal(Seq::filter);
            assert(pieces.deep_view()[i as int] == pieces@[i as int]@);
            assert(all.take(i + 1).drop_last() =~= all.take(i as int));
            assert(all.take(i + 1).last() == part@);
        }
        let ghost before = out.deep_view();
        if !part.as_str().is_empty() {
            let ghost shown = part@;
            out.push(part);
            assert(out.deep_view() =~= before.push(shown));
        }
        i = i + 1;
    }
    assert(all.take(n as int) =~= all);
    out
}

fn all_part_list(raws: &Vec<String>) -> (res: Vec<String>)
    ensures
        res.deep_view() == all_parts(raws.deep_view()),
{
    let ghost all = raws.deep_view();
    let n: usize = raws.len();
    let mut out: Vec<String> = Vec::new();
    let mut i: usize = 0;
    assert(all.take(0) =~= Seq::empty());
    assert(out.deep_view() =~= Seq::empty());
    while i < n
        invariant
            n == raws@.len(),
            i <= n,
            all == raws.deep_view(),
            out.deep_view() == all_parts(all.take(i as int)),
        decreases n - i,
    {
        assert(all.take(i + 1).drop_last() =~= all.take(i as int));
        assert(all.take(i + 1).last() == raws@[i as int]@);
        let ghost before = out.deep_view();
        let mut parts = part_list(raws[i].as_str());
        let ghost more = parts.deep_view();
        out.append(&mut parts);
        assert(out.deep_view() =~= before + more);
        i = i + 1;
    }
    assert(all.take(n as int) =~= all);
    out
}

fn add_mirror(mirrors: &mut Vec<ClientMirror>, mirror: ClientMirror) -> (res: Result<
    (),
    ClientError,
>)
    ensures
        match with_mirror(old(mirrors).deep_view(), mirror.deep_view()) {
            Ok(all) => res is Ok && final(mirrors).deep_view() == all,
            Err(e) => views::outcome(res) == Err::<(), _>(e) && *final(mirrors) == *old(mirrors),
        },
{
    let ghost all = mirrors.deep_view();
    let n: usize = mirrors.len();
    let mut taken_path = false;
    let mut i: usize = 0;
    while i < n
        invariant
            n == mirrors@.len(),
            i <= n,
            *mirrors == *old(mirrors),
            all == mirrors.deep_view(),
            forall|k: int| 0 <= k < i ==> (#[trigger] all[k]).name != mirror.name@,
            taken_path <==> exists|k: int|
                0 <= k < i && (#[trigger] all[k]).local_path == mirror.local_path@,
        decreases n - i,
    {
        assert(all[i as int] == mirrors@[i as int].deep_view());
        if text::same(mirrors[i].name.as_str(), mirror.name.as_str()) {
            return Err(ClientError::DuplicateName(mirror.name));
        }
        if text::same(mirrors[i].local_path.as_str(), mirror.local_path.as_str()) {
            taken_path = true;
        }
        i = i + 1;
    }
    if taken_path {
        return Err(ClientError::DuplicatePath(mirror.local_path));
    }
    let ghost shown = mirror.deep_view();
    mirrors.push(mirror);
    assert(mirrors.deep_view() =~= all.push(shown));
    Ok(())
}

fn parse_all(specs: &Vec<String>) -> (res: Result<Vec<ClientMirror>, ClientError>)
    ensures
        views::outcome(res) == mirrors_of(specs.deep_view()),
{
    let ghost all = specs.deep_view();
    let n: usize = specs.len();
    let mut mirrors: Vec<ClientMirror> = Vec::new();
    let mut i: usize = 0;
    assert(all.take(0) =~= Seq::empty());
    assert(mirrors.deep_view() =~= Seq::empty());
    while i < n
        invariant
            n == specs@.len(),
            i <= n,
            all == specs.deep_view(),
            mirrors_of(all.take(i as int)) == Ok::<_, Fault>(mirrors.deep_view()),
        decreases n - i,
    {
        proof {
            assert(all.take(i + 1).drop_last() =~= all.take(i as int));
            assert(all.take(i + 1).last() == specs@[i as int]@);
            lemma_refused_spec(all, i + 1);
        }
        let mirror = match parse_wiki_spec(specs[i].as_str()) {
            Ok(mirror) => mirror,
            Err(e) => return Err(e),
        };
        match add_mirror(&mut mirrors, mirror) {
            Ok(()) => {},
            Err(e) => return Err(e),
        }
        i = i + 1;
    }
    assert(all.take(n as int) =~= all);
    Ok(mirrors)
}

/// The mirrors that are written in lists.
pub fn parse_wiki_specs(specs: &Vec<String>) -> (res: Result<Vec<ClientMirror>, ClientError>)
    ensures
        views::outcome(res) == mirrors_of(all_parts(specs.deep_view())),
{
    parse_all(&all_part_list(specs))
}

/// The mirrors that are written in a list, of which there is at least one.
pub open spec fn wikis_of(raw: Seq<char>) -> Result<Seq<Mirror>, Fault> {
    match mirrors_of(list_parts(raw)) {
        Err(e) => Err(e),
        Ok(mirrors) => if mirrors.len() == 0 {
            Err(ClientError::NoWikis)
        } else {
            Ok(mirrors)
        },
    }
}

/// The mirrors that are written in a list, of which there is at least one.
pub fn parse_wikis(raw: &str) -> (res: Result<Vec<ClientMirror>, ClientError>)
    ensures
        views::outcome(res) == wikis_of(raw@),
{
    match parse_all(&part_list(raw)) {
        Ok(mirrors) => {
            assert(mirrors.deep_view().len() == mirrors@.len());
            if mirrors.len() == 0 {
                Err(ClientError::NoWikis)
            } else {
                Ok(mirrors)
            }
        },
        Err(e) => Err(e),
    }
}

/// A wiki of a server by its views.
pub type Info = WikiInfo<Seq<char>>;

/// The mirrors of a server's wikis where the client names none, or the first wiki without a
/// description.
pub open spec fn offered(available: Seq<Info>) -> Result<Seq<Mirror>, Fault>
    decreases available.len(),
{
    if available.len() == 0 {
        Ok(Seq::empty())
    } else {
        match offered(available.drop_last()) {
            Err(e) => Err(e),
            Ok(mirrors) => if text::is_blank(available.last().description) {
                Err(ClientError::EmptyDescription(available.last().name))
            } else {
                Ok(
                    mirrors.push(
                        ClientMirror {
                            name: available.last().name,
                            local_path: names::wiki_path_of(available.last().name),
                            description: Some(available.last().description),
                        },
                    ),
                )
            },
        }
    }
}

/// The descriptions of a server's wikis; for a name that occurs more than once, the last.
pub open spec fn descriptions(available: Seq<Info>) -> Map<Seq<char>, Seq<char>>
    decreases available.len(),
{
    if available.len() == 0 {
        Map::empty()
    } else {
        descriptions(available.drop_last()).insert(
            available.last().name,
            available.last().description,
        )
    }
}

/// Those of the mirrors whose wikis the server has, with their descriptions.
pub open spec fn described(requested: Seq<Mirror>, known: Map<Seq<char>, Seq<char>>) -> Seq<Mirror>
    decreases requested.len(),
{
    if requested.len() == 0 {
        Seq::empty()
    } else {
        let before = described(requested.drop_last(), known);
        let mirror = requested.last();
        if known.contains_key(mirror.name) {
            before.push(ClientMirror { description: Some(known[mirror.name]), ..mirror })
        } else {
            before
        }
    }
}

/// The names of the mirrors whose wikis the server does not have.
pub open spec fn unknown_names(requested: Seq<Mirror>, known: Map<Seq<char>, Seq<char>>) -> Seq<
    Seq<char>,
> {
    requested.map_values(|mirror: Mirror| mirror.name).filter(
        |name: Seq<char>| !known.contains_key(name),
    )
}

/// The mirrors that a client asks for, or all of a server's wikis where it asks for none.
pub open spec fn selection(available: Seq<Info>, requested: Seq<Seq<char>>) -> Result<
    Seq<Mirror>,
    Fault,
> {
    match mirrors_of(all_parts(requested)) {
        Err(e) => Err(e),
        Ok(asked) => match offered(available) {
            Err(e) => Err(e),
            Ok(all) => {
                let known = descriptions(available);
                let missing = unknown_names(asked, known);
                if asked.len() == 0 {
                    Ok(all)
                } else if missing.len() > 0 {
                    Err(
                        ClientError::NotAdvertised {
                            missing: text::join(missing, seq![',', ' ']),
                            available: text::join(
                                text::sorted_set(available.map_values(|wiki: Info| wiki.name)),
                                seq![',', ' '],
                            ),
                        },
                    )
                } else {
                    Ok(described(asked, known))
                }
            },
        },
    }
}

proof fn lemma_refused_offer(available: Seq<Info>, k: int)
    requires
        0 <= k <= available.len(),
    ensures
        offered(available.take(k)) is Err ==> offered(available) == offered(available.take(k)),
    decreases available.len() - k,
{
    if k < available.len() {
        lemma_refused_offer(available, k + 1);
        assert(available.take(k + 1).drop_last() =~= available.take(k));
    } else {
        assert(available.take(k) =~= available);
    }
}

fn offer(available: &Vec<WikiInfo>) -> (res: Result<Vec<ClientMirror>, ClientError>)
    ensures
        views::outcome(res) == offered(available.deep_view()),
{
    let ghost all = available.deep_view();
    let n: usize = available.len();
    let mut out: Vec<ClientMirror> = Vec::new();
    let mut i: usize = 0;
    assert(all.take(0) =~= Seq::empty());
    assert(out.deep_view() =~= Seq::empty());
    while i < n
        invariant
            n == available@.len(),
            i <= n,
            all == available.deep_view(),
            offered(all.take(i as int)) == Ok::<_, Fault>(out.deep_view()),
        decreases n - i,
    {
        proof {
            assert(all.take(i + 1).drop_last() =~= all.take(i as int));
            assert(all.take(i + 1).last() == available@[i as int].deep_view());
            lemma_refused_offer(all, i + 1);
        }
        let wiki = &available[i];
        if text::blank(wiki.description.as_str()) {
            return Err(ClientError::EmptyDescription(wiki.name.clone()));
        }
        let mirror = ClientMirror::new(
            wiki.name.clone(),
            names::derived_wiki_path(wiki.name.as_str()),
        ).with_description(wiki.description.clone());
        let ghost before = out.deep_view();
        let ghost shown = mirror.deep_view();
        out.push(mirror);
        assert(out.deep_view() =~= before.push(shown));
        i = i + 1;
    }
    assert(all.take(n as int) =~= all);
    Ok(out)
}

spec fn tabled(table: Map<Seq<char>, String>, meant: Map<Seq<char>, Seq<char>>) -> bool {
    &&& table.dom() =~= meant.dom()
    &&& forall|name: Seq<char>|
        meant.contains_key(name) ==> (#[trigger] table[name])@ == meant[name]
}

fn description_table(available: &Vec<WikiInfo>) -> (res: StringHashMap<String>)
    ensures
        tabled(res@, descriptions(available.deep_view())),
{
    let ghost all = available.deep_view();
    let n: usize = available.len();
    let mut table: StringHashMap<String> = StringHashMap::new();
    let mut i: usize = 0;
    assert(all.take(0) =~= Seq::empty());
    while i < n
        invariant
            n == available@.len(),
            i <= n,
            all == available.deep_view(),
            tabled(table@, descriptions(all.take(i as int))),
        decreases n - i,
    {
        assert(all.take(i + 1).drop_last() =~= all.take(i as int));
        assert(all.take(i + 1).last() == available@[i as int].deep_view());
        table.insert(available[i].name.clone(), available[i].description.clone());
        i = i + 1;
    }
    assert(all.take(n as int) =~= all);
    table
}

fn wiki_names(available: &Vec<WikiInfo>) -> (res: Vec<String>)
    ensures
        res.deep_view() == available.deep_view().map_values(|wiki: Info| wiki.name),
{
    let ghost all = available.deep_view().map_values(|wiki: Info| wiki.name);
    let mut out: Vec<String> = Vec::new();
    let n: usize = available.len();
    let mut i: usize = 0;
    while i < n
        invariant
            n == available@.len(),
            i <= n,
            all == available.deep_view().map_values(|wiki: Info| wiki.name),
            out.deep_view() =~= all.take(i as int),
        decreases n - i,
    {
        let ghost before = out.deep_view();
        out.push(available[i].name.clone());
        assert(available.deep_view()[i as int] == available@[i as int].deep_view());
        assert(out.deep_view() =~= before.push(available@[i as int].name@));
        i = i + 1;
    }
    assert(all.take(n as int) =~= all);
    out
}

fn match_known(asked: &Vec<ClientMirror>, table: &StringHashMap<String>) -> (res: (
    Vec<ClientMirror>,
    Vec<String>,
))
    ensures
        forall|known: Map<Seq<char>, Seq<char>>| #[trigger]
            tabled(table@, known) ==> res.0.deep_view() == described(asked.deep_view(), known)
                && res.1.deep_view() == unknown_names(asked.deep_view(), known),
{
    let ghost all = asked.deep_view();
    let ghost names = all.map_values(|mirror: Mirror| mirror.name);
    let ghost known = Map::new(
        |name: Seq<char>| table@.contains_key(name),
        |name: Seq<char>| table@[name]@,
    );
    let ghost f = |name: Seq<char>| !known.contains_key(name);
    let n: usize = asked.len();
    let mut selected: Vec<ClientMirror> = Vec::new();
    let mut missing: Vec<String> = Vec::new();
    let mut i: usize = 0;
    proof {
        reveal(Seq::filter);
        assert(tabled(table@, known));
        assert(all.take(0) =~= Seq::empty());
        assert(names.take(0) =~= Seq::empty());
        assert(selected.deep_view() =~= Seq::empty());
        assert(missing.deep_view() =~= names.take(0).filter(f));
    }
    while i < n
        invariant
            n == asked@.len(),
            i <= n,
            all == asked.deep_view(),
            names == all.map_values(|mirror: Mirror| mirror.name),
            tabled(table@, known),
            f == (|name: Seq<char>| !known.contains_key(name)),
            selected.deep_view() == described(all.take(i as int), known),
            missing.deep_view() == names.take(i as int).filter(f),
        decreases n - i,
    {
        proof {
            reveal(Seq::filter);
            assert(all[i as int] == asked@[i as int].deep_view());
            assert(all.take(i + 1).drop_last() =~= all.take(i as int));
            assert(all.take(i + 1).last() == asked@[i as int].deep_view());
            assert(names.take(i + 1).drop_last() =~= names.take(i as int));
            assert(names.take(i + 1).last() == asked@[i as int].name@);
        }
        let ghost before = selected.deep_view();
        let ghost lacking = missing.deep_view();
        match table.get(asked[i].name.as_str()) {
            Some(description) => {
                let mirror = asked[i].clone().with_description(description.clone());
                let ghost shown = mirror.deep_view();
                selected.push(mirror);
                assert(selected.deep_view() =~= before.push(shown));
            },
            None => {
                missing.push(asked[i].name.clone());
                assert(missing.deep_view() =~= lacking.push(asked@[i as int].name@));
            },
        }
        i = i + 1;
    }
    proof {
        assert(all.take(n as int) =~= all);
        assert(names.take(n as int) =~= names);
        assert forall|other: Map<Seq<char>, Seq<char>>| #[trigger]
            tabled(table@, other) implies other == known by {
            assert(other.dom() =~= known.dom());
            assert(other =~= known);
        }
    }
    (selected, missing)
}

/// The mirrors that a client asks for, or all of a server's wikis where it asks for none.
pub fn select_wikis(available: Vec<WikiInfo>, requested: Vec<String>) -> (res: Result<
    Vec<ClientMirror>,
    ClientError,
>)
    ensures
        views::outcome(res) == selection(available.deep_view(), requested.deep_view()),
{
    let asked = match parse_wiki_specs(&requested) {
        Ok(asked) => asked,
        Err(e) => return Err(e),
    };
    let all = match offer(&available) {
        Ok(all) => all,
        Err(e) => return Err(e),
    };
    assert(asked.deep_view().len() == asked@.len());
    if asked.len() == 0 {
        return Ok(all);
    }
    let table = description_table(&available);
    let (selected, missing) = match_known(&asked, &table);
    assert(tabled(table@, descriptions(available.deep_view())));
    assert(missing.deep_view().len() == missing@.len());
    if missing.len() > 0 {
        proof {
            reveal_strlit(", ");
            assert(", "@ =~= seq![',', ' ']);
        }
        return Err(
            ClientError::NotAdvertised {
                missing: text::joined(&missing, ", "),
                available: text::joined(&text::sorted_list(&wiki_names(&available)), ", "),
            },
        );
    }
    Ok(selected)
}

/// A mirror is written as the name of its wiki, and with its path behind a colon where that is not
/// the path that belongs to the name. White space around either counts for nothing.
pub proof fn mirrors_are_written_with_a_colon(
    name: Seq<char>,
    path: Seq<char>,
    a: Seq<char>,
    b: Seq<char>,
    c: Seq<char>,
    d: Seq<char>,
)
    requires
        names::wiki_name(name),
        path.len() > 0 ==> !text::is_white(path[0]) && !text::is_white(path.last()),
        text::is_blank(a),
        text::is_blank(b),
        text::is_blank(c),
        text::is_blank(d),
    ensures
        mirror_of(a + name + b) == Ok::<_, Fault>(
            ClientMirror {
                name,
                local_path: if name == "default"@ {
                    "wiki"@
                } else {
                    "wiki-"@ + name
                },
                description: None,
            },
        ),
        mirror_of(a + name + b + ":"@ + (c + path + d)) == (match names::local_path_check(path) {
            Ok(_) => Ok::<_, Fault>(ClientMirror { name, local_path: path, description: None }),
            Err(error) => Err(ClientError::InvalidLocalPath { name, error }),
        }),
        spec_of(ClientMirror { name, local_path: path, description: None }) == (if path == (if name
            == "default"@ {
            "wiki"@
        } else {
            "wiki-"@ + name
        }) {
            name
        } else {
            name + ":"@ + path
        }),
{
    reveal_strlit(":");
    assert(":"@ =~= seq![':']);
    names::names_are_slugs(name);
    assert(!text::is_white(name[0]) && !text::is_white(name.last()));
    text::trimming_takes_off_the_ends(a, name, b);
    text::trimming_takes_off_the_ends(c, path, d);
    let whole = a + name + b;
    assert forall|k: int| 0 <= k < whole.len() implies whole[k] != ':' by {
        if k < a.len() {
            assert(text::is_white(a[k]));
        } else if k < a.len() + name.len() {
            assert(whole[k] == name[k - a.len()]);
        } else {
            assert(text::is_white(b[k - a.len() - name.len()]));
        }
    }
    text::texts_are_cut_at_the_first(whole, ':', c + path + d);
}

/// What is written before the first colon has to be the name of a wiki.
pub proof fn mirrors_need_a_name(text: Seq<char>, rest: Seq<char>)
    requires
        !text.contains(':'),
        !names::wiki_name(text::trim(text)),
    ensures
        mirror_of(text) == Err::<Mirror, _>(ClientError::InvalidName(text::trim(text))),
        mirror_of(text + ":"@ + rest) == Err::<Mirror, _>(
            ClientError::InvalidName(text::trim(text)),
        ),
{
    reveal_strlit(":");
    assert(":"@ =~= seq![':']);
    text::texts_are_cut_at_the_first(text, ':', rest);
}

/// A list of mirrors holds what stands between its commas, without the white space around it, and
/// nothing for a part that is blank. Several lists hold what each of them holds, in their order.
pub proof fn lists_hold_what_stands_between_commas(
    part: Seq<char>,
    rest: Seq<char>,
    raws: Seq<Seq<char>>,
)
    requires
        !part.contains(','),
    ensures
        list_parts(part) == (if text::is_blank(part) {
            Seq::empty()
        } else {
            seq![text::trim(part)]
        }),
        list_parts(part + ","@ + rest) == list_parts(part) + list_parts(rest),
        all_parts(Seq::empty()) == Seq::<Seq<char>>::empty(),
        all_parts(raws.push(rest)) == all_parts(raws) + list_parts(rest),
{
    reveal_strlit(",");
    assert(","@ =~= seq![',']);
    let t = |part: Seq<char>| text::trim(part);
    let f = |p: Seq<char>| p.len() > 0;
    text::lemma_split_without(part, ',');
    text::lemma_split_around(part, rest, ',');
    text::lemma_trim_blank(part);
    let one = text::split(part, ',').map_values(t);
    let more = text::split(rest, ',').map_values(t);
    assert(one =~= seq![text::trim(part)]);
    assert((text::split(part, ',') + text::split(rest, ',')).map_values(t) =~= one + more);
    Seq::filter_distributes_over_add(one, more, f);
    reveal(Seq::filter);
    assert(one.drop_last() =~= Seq::empty());
    assert(Seq::<Seq<char>>::empty().filter(f) =~= Seq::empty());
    if text::is_blank(part) {
        assert(list_parts(part) =~= Seq::empty());
    } else {
        assert(list_parts(part) =~= seq![text::trim(part)]);
    }
    assert(raws.push(rest).drop_last() =~= raws);
}

/// Mirrors are taken one by one; the first that is written wrongly, or whose name or path another
/// before it has, is refused with the whole list. A list has to name a wiki.
pub proof fn mirrors_are_taken_one_by_one(specs: Seq<Seq<char>>, spec: Seq<char>, blank: Seq<char>)
    requires
        text::is_blank(blank),
        !blank.contains(','),
    ensures
        mirrors_of(Seq::empty()) == Ok::<_, Fault>(Seq::<Mirror>::empty()),
        mirrors_of(specs) is Err ==> mirrors_of(specs.push(spec)) == mirrors_of(specs),
        mirrors_of(specs) is Ok && mirror_of(spec) is Err ==> mirrors_of(specs.push(spec)) == Err::<
            Seq<Mirror>,
            _,
        >(mirror_of(spec)->Err_0),
        mirrors_of(specs) is Ok && mirror_of(spec) is Ok ==> ({
            let before = mirrors_of(specs)->Ok_0;
            let mirror = mirror_of(spec)->Ok_0;
            let named = exists|i: int|
                0 <= i < before.len() && (#[trigger] before[i]).name == mirror.name;
            let placed = exists|i: int|
                0 <= i < before.len() && (#[trigger] before[i]).local_path == mirror.local_path;
            let all = mirrors_of(specs.push(spec));
            &&& named ==> all == Err::<Seq<Mirror>, _>(ClientError::DuplicateName(mirror.name))
            &&& !named && placed ==> all == Err::<Seq<Mirror>, _>(
                ClientError::DuplicatePath(mirror.local_path),
            )
            &&& !named && !placed ==> all == Ok::<_, Fault>(before.push(mirror))
        }),
        wikis_of(blank) == Err::<Seq<Mirror>, Fault>(ClientError::NoWikis),
{
    assert(specs.push(spec).drop_last() =~= specs);
    lists_hold_what_stands_between_commas(blank, blank, Seq::empty());
}

/// Where the client names no wikis it gets all that the server has, each in the directory that
/// belongs to its name and with its description; a wiki without one is refused.
pub proof fn all_wikis_are_offered(available: Seq<Info>, wiki: Info, blank: Seq<Seq<char>>)
    requires
        all_parts(blank) == Seq::<Seq<char>>::empty(),
    ensures
        offered(Seq::empty()) == Ok::<_, Fault>(Seq::<Mirror>::empty()),
        offered(available) is Err ==> offered(available.push(wiki)) == offered(available),
        offered(available) is Ok ==> offered(available.push(wiki)) == (if text::is_blank(
            wiki.description,
        ) {
            Err::<Seq<Mirror>, Fault>(ClientError::EmptyDescription(wiki.name))
        } else {
            Ok(
                offered(available)->Ok_0.push(
                    ClientMirror {
                        name: wiki.name,
                        local_path: if wiki.name == "default"@ {
                            "wiki"@
                        } else {
                            "wiki-"@ + wiki.name
                        },
                        description: Some(wiki.description),
                    },
                ),
            )
        }),
        selection(available, blank) == offered(available),
{
    assert(available.push(wiki).drop_last() =~= available);
}

proof fn lemma_described(available: Seq<Info>, name: Seq<char>)
    ensures
        descriptions(available).contains_key(name) <==> exists|i: int|
            0 <= i < available.len() && (#[trigger] available[i]).name == name,
        descriptions(available).contains_key(name) ==> exists|i: int|
            0 <= i < available.len() && (#[trigger] available[i]).name == name
                && available[i].description == descriptions(available)[name] && forall|j: int|
                i < j < available.len() ==> (#[trigger] available[j]).name != name,
    decreases available.len(),
{
    if available.len() > 0 {
        let before = available.drop_last();
        let last = available.len() - 1;
        lemma_described(before, name);
        assert(available[last] == available.last());
        if available.last().name == name {
            assert(available[last].name == name);
        } else {
            if descriptions(before).contains_key(name) {
                let i = choose|i: int|
                    0 <= i < before.len() && (#[trigger] before[i]).name == name
                        && before[i].description == descriptions(before)[name] && forall|j: int|
                        i < j < before.len() ==> (#[trigger] before[j]).name != name;
                assert(available[i] == before[i]);
                assert forall|j: int| i < j < available.len() implies (#[trigger] available[j]).name
                    != name by {
                    if j < before.len() {
                        assert(before[j] == available[j]);
                    }
                }
            }
            if exists|i: int| 0 <= i < available.len() && (#[trigger] available[i]).name == name {
                let i = choose|i: int|
                    0 <= i < available.len() && (#[trigger] available[i]).name == name;
                assert(before[i] == available[i]);
            }
        }
    }
}

/// The description of a wiki is the one that the server gives for its name.
pub proof fn descriptions_are_the_servers(available: Seq<Info>, i: int)
    requires
        0 <= i < available.len(),
        forall|j: int|
            0 <= j < available.len() && j != i ==> (#[trigger] available[j]).name
                != available[i].name,
    ensures
        descriptions(available).contains_key(available[i].name),
        descriptions(available)[available[i].name] == available[i].description,
{
    lemma_described(available, available[i].name);
}

proof fn lemma_all_described(asked: Seq<Mirror>, known: Map<Seq<char>, Seq<char>>)
    requires
        forall|i: int| 0 <= i < asked.len() ==> known.contains_key((#[trigger] asked[i]).name),
    ensures
        described(asked, known).len() == asked.len(),
        forall|i: int|
            0 <= i < asked.len() ==> #[trigger] described(asked, known)[i] == (ClientMirror {
                name: asked[i].name,
                local_path: asked[i].local_path,
                description: Some(known[asked[i].name]),
            }),
    decreases asked.len(),
{
    if asked.len() > 0 {
        let before = asked.drop_last();
        assert(asked[asked.len() - 1] == asked.last());
        assert forall|i: int| 0 <= i < before.len() implies known.contains_key(
            (#[trigger] before[i]).name,
        ) by {
            assert(before[i] == asked[i]);
        }
        lemma_all_described(before, known);
        assert forall|i: int| 0 <= i < asked.len() implies #[trigger] described(asked, known)[i]
            == (ClientMirror {
            name: asked[i].name,
            local_path: asked[i].local_path,
            description: Some(known[asked[i].name]),
        }) by {
            if i < before.len() {
                assert(described(before, known)[i] == described(asked, known)[i]);
                assert(before[i] == asked[i]);
            }
        }
    }
}

/// The client gets the mirrors that it asks for, in its order and with its paths, each with the
/// description that the server gives.
pub proof fn asked_wikis_are_selected(
    available: Seq<Info>,
    requested: Seq<Seq<char>>,
    asked: Seq<Mirror>,
)
    requires
        mirrors_of(all_parts(requested)) == Ok::<_, Fault>(asked),
        asked.len() > 0,
        offered(available) is Ok,
        forall|i: int|
            0 <= i < asked.len() ==> descriptions(available).contains_key(
                (#[trigger] asked[i]).name,
            ),
    ensures
        ({
            let selected = selection(available, requested);
            &&& selected is Ok
            &&& selected->Ok_0.len() == asked.len()
            &&& forall|i: int|
                0 <= i < asked.len() ==> #[trigger] selected->Ok_0[i] == (ClientMirror {
                    name: asked[i].name,
                    local_path: asked[i].local_path,
                    description: Some(descriptions(available)[asked[i].name]),
                })
        }),
{
    let known = descriptions(available);
    let names = asked.map_values(|mirror: Mirror| mirror.name);
    let f = |name: Seq<char>| !known.contains_key(name);
    views::lemma_filtered(names, f);
    if unknown_names(asked, known).len() > 0 {
        let name = unknown_names(asked, known)[0];
        assert(unknown_names(asked, known).contains(name));
        let k = choose|k: int| 0 <= k < names.len() && names[k] == name;
        assert(known.contains_key(asked[k].name));
    }
    lemma_all_described(asked, known);
}

/// A wiki that the server does not have is refused; the refusal names all such wikis, and those that
/// the server has, in order.
pub proof fn unknown_wikis_are_refused(
    available: Seq<Info>,
    requested: Seq<Seq<char>>,
    asked: Seq<Mirror>,
    k: int,
    name: Seq<char>,
)
    requires
        mirrors_of(all_parts(requested)) == Ok::<_, Fault>(asked),
        offered(available) is Ok,
        0 <= k < asked.len(),
        forall|i: int| 0 <= i < available.len() ==> (#[trigger] available[i]).name != asked[k].name,
    ensures
        ({
            let missing = unknown_names(asked, descriptions(available));
            let names = text::sorted_set(available.map_values(|wiki: Info| wiki.name));
            &&& selection(available, requested) == Err::<Seq<Mirror>, _>(
                ClientError::NotAdvertised {
                    missing: text::join(missing, ", "@),
                    available: text::join(names, ", "@),
                },
            )
            &&& missing.contains(asked[k].name)
            &&& missing.contains(name) <==> (exists|i: int|
                0 <= i < asked.len() && (#[trigger] asked[i]).name == name) && forall|i: int|
                0 <= i < available.len() ==> (#[trigger] available[i]).name != name
            &&& text::is_sorted_set(names)
            &&& names.contains(name) <==> exists|i: int|
                0 <= i < available.len() && (#[trigger] available[i]).name == name
        }),
{
    reveal_strlit(", ");
    assert(", "@ =~= seq![',', ' ']);
    let known = descriptions(available);
    let names = asked.map_values(|mirror: Mirror| mirror.name);
    let f = |name: Seq<char>| !known.contains_key(name);
    views::lemma_filtered(names, f);
    lemma_described(available, asked[k].name);
    lemma_described(available, name);
    assert(names[k] == asked[k].name);
    assert(names.contains(asked[k].name));
    assert(names.contains(name) <==> exists|i: int|
        0 <= i < asked.len() && (#[trigger] asked[i]).name == name) by {
        if names.contains(name) {
            let i = choose|i: int| 0 <= i < names.len() && names[i] == name;
            assert(asked[i].name == name);
        }
        if exists|i: int| 0 <= i < asked.len() && (#[trigger] asked[i]).name == name {
            let i = choose|i: int| 0 <= i < asked.len() && (#[trigger] asked[i]).name == name;
            assert(names[i] == name);
        }
    }
    assert(unknown_names(asked, known).contains(asked[k].name));
    let all = available.map_values(|wiki: Info| wiki.name);
    text::lemma_sorted_set(all);
    if all.contains(name) {
        let i = choose|i: int| 0 <= i < all.len() && all[i] == name;
        assert(available[i].name == name);
    }
    if exists|i: int| 0 <= i < available.len() && (#[trigger] available[i]).name == name {
        let i = choose|i: int| 0 <= i < available.len() && (#[trigger] available[i]).name == name;
        assert(all[i] == name);
    }
}

} // verus!
