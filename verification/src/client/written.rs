//! What is written of mirrors is read back.

use vstd::prelude::*;

use crate::client::agent_setup;
use crate::client::client_mirror;
use crate::client::client_mirror::{ClientMirror, Info, Mirror};
use crate::client::Fault;
use crate::names;
use crate::text;
use crate::views;

verus! {

/// A mirror that can be written: its wiki has a name, and its path is a mirror path without a
/// comma and without white space at its ends.
pub open spec fn can_be_written(mirror: Mirror) -> bool {
    &&& names::wiki_name(mirror.name)
    &&& names::local_path_check(mirror.local_path) is Ok
    &&& !mirror.local_path.contains(',')
    &&& !text::is_white(mirror.local_path[0])
    &&& !text::is_white(mirror.local_path.last())
}

/// Whether no two of the mirrors share a name or a path.
pub open spec fn are_apart(mirrors: Seq<Mirror>) -> bool {
    forall|i: int, j: int|
        0 <= i < j < mirrors.len() ==> (#[trigger] mirrors[i]).name != (#[trigger] mirrors[j]).name
            && mirrors[i].local_path != mirrors[j].local_path
}

/// Mirrors of which nothing but name and path is known.
pub open spec fn plain(mirrors: Seq<Mirror>) -> Seq<Mirror> {
    mirrors.map_values(|mirror: Mirror| ClientMirror { description: None, ..mirror })
}

spec fn specs_of(mirrors: Seq<Mirror>) -> Seq<Seq<char>> {
    mirrors.map_values(|mirror: Mirror| client_mirror::spec_of(mirror))
}

proof fn lemma_kept_by_trim(s: Seq<char>)
    requires
        s.len() > 0,
        !text::is_white(s[0]),
        !text::is_white(s.last()),
    ensures
        text::trim(s) == s,
{
}

proof fn lemma_written(mirror: Mirror)
    requires
        can_be_written(mirror),
    ensures
        client_mirror::spec_of(mirror).len() > 0,
        !client_mirror::spec_of(mirror).contains(','),
        text::trim(client_mirror::spec_of(mirror)) == client_mirror::spec_of(mirror),
        client_mirror::mirror_of(client_mirror::spec_of(mirror)) == Ok::<_, Fault>(
            ClientMirror { description: None, ..mirror },
        ),
{
    let name = mirror.name;
    let path = mirror.local_path;
    let spec = client_mirror::spec_of(mirror);
    reveal_strlit(":");
    lemma_kept_by_trim(name);
    assert forall|i: int| 0 <= i < name.len() implies #[trigger] name[i] != ':' && name[i]
        != ',' by {
        assert(names::is_slug_char(name[i]));
    }
    if path == names::wiki_path_of(name) {
        text::lemma_first_of(spec, ':', spec.len() as int);
    } else {
        assert(spec == name + ":"@ + path);
        let n = name.len() as int;
        assert(spec[n] == ':');
        assert forall|k: int| 0 <= k < n implies spec[k] != ':' by {
            assert(spec[k] == name[k]);
        }
        text::lemma_first_of(spec, ':', n);
        assert(spec.take(n) =~= name);
        assert(spec.skip(n + 1) =~= path);
        lemma_kept_by_trim(path);
        assert(spec.last() == path.last());
        assert(spec[0] == name[0]);
        lemma_kept_by_trim(spec);
        assert forall|i: int| 0 <= i < spec.len() implies #[trigger] spec[i] != ',' by {
            if i < n {
                assert(spec[i] == name[i]);
            } else if i > n {
                assert(spec[i] == path[i - n - 1]);
            }
        }
    }
}

proof fn lemma_split_joined(parts: Seq<Seq<char>>, sep: char)
    requires
        parts.len() > 0,
        forall|i: int| 0 <= i < parts.len() ==> !(#[trigger] parts[i]).contains(sep),
    ensures
        text::split(text::join(parts, seq![sep]), sep) == parts,
    decreases parts.len(),
{
    let last = parts.last();
    assert(parts[parts.len() - 1] == last);
    text::lemma_split_without(last, sep);
    if parts.len() == 1 {
        assert(parts =~= seq![last]);
    } else {
        let before = parts.drop_last();
        assert forall|i: int| 0 <= i < before.len() implies !(#[trigger] before[i]).contains(sep) by {
            assert(before[i] == parts[i]);
        }
        lemma_split_joined(before, sep);
        text::lemma_split_around(text::join(before, seq![sep]), last, sep);
        assert(before + seq![last] =~= parts);
    }
}

proof fn lemma_all_kept(pieces: Seq<Seq<char>>)
    requires
        forall|i: int| 0 <= i < pieces.len() ==> (#[trigger] pieces[i]).len() > 0,
    ensures
        text::nonempty(pieces) == pieces,
    decreases pieces.len(),
{
    reveal(Seq::filter);
    if pieces.len() > 0 {
        let before = pieces.drop_last();
        assert forall|i: int| 0 <= i < before.len() implies (#[trigger] before[i]).len() > 0 by {
            assert(before[i] == pieces[i]);
        }
        lemma_all_kept(before);
        assert(pieces[pieces.len() - 1] == pieces.last());
        assert(before.push(pieces.last()) =~= pieces);
    } else {
        assert(pieces =~= Seq::empty());
    }
}

proof fn lemma_read_all(mirrors: Seq<Mirror>)
    requires
        are_apart(mirrors),
        forall|i: int| 0 <= i < mirrors.len() ==> can_be_written(#[trigger] mirrors[i]),
    ensures
        client_mirror::mirrors_of(specs_of(mirrors)) == Ok::<_, Fault>(plain(mirrors)),
    decreases mirrors.len(),
{
    let specs = specs_of(mirrors);
    if mirrors.len() > 0 {
        let before = mirrors.drop_last();
        let last = mirrors.last();
        assert forall|i: int| 0 <= i < before.len() implies can_be_written(
            #[trigger] before[i],
        ) by {
            assert(before[i] == mirrors[i]);
        }
        lemma_read_all(before);
        assert(mirrors[mirrors.len() - 1] == last);
        lemma_written(last);
        assert(specs.drop_last() =~= specs_of(before));
        let read = plain(before);
        let one = ClientMirror { description: None, ..last };
        assert forall|i: int| 0 <= i < read.len() implies (#[trigger] read[i]).name != one.name
            && read[i].local_path != one.local_path by {
            assert(before[i] == mirrors[i]);
            assert(mirrors[i].name != mirrors[mirrors.len() - 1].name);
        }
        assert(read.push(one) =~= plain(mirrors));
    } else {
        assert(specs =~= Seq::empty());
        assert(plain(mirrors) =~= Seq::empty());
    }
}

/// Mirrors that can be written and share no name and no path are read back as they were, up to
/// their descriptions, from the list in which they are written.
pub proof fn written_mirrors_are_read_back(mirrors: Seq<Mirror>)
    requires
        mirrors.len() > 0,
        are_apart(mirrors),
        forall|i: int| 0 <= i < mirrors.len() ==> can_be_written(#[trigger] mirrors[i]),
    ensures
        client_mirror::wikis_of(agent_setup::spec_list(mirrors)) == Ok::<_, Fault>(plain(mirrors)),
{
    let specs = specs_of(mirrors);
    assert forall|i: int| 0 <= i < specs.len() implies (#[trigger] specs[i]).len() > 0
        && !specs[i].contains(',') && text::trim(specs[i]) == specs[i] by {
        lemma_written(mirrors[i]);
    }
    lemma_split_joined(specs, ',');
    let raw = agent_setup::spec_list(mirrors);
    assert(raw == text::join(specs, seq![',']));
    assert(text::split(raw, ',').map_values(|part: Seq<char>| text::trim(part)) =~= specs);
    lemma_all_kept(specs);
    lemma_read_all(mirrors);
}

proof fn lemma_pieces_hold_no_separator(s: Seq<char>, sep: char, i: int)
    requires
        0 <= i < text::split(s, sep).len(),
    ensures
        !text::split(s, sep)[i].contains(sep),
    decreases s.len(),
{
    if s.len() > 0 {
        let before = text::split(s.drop_last(), sep);
        text::lemma_split_where_len(s.drop_last(), text::is_char(sep));
        if i < before.len() {
            lemma_pieces_hold_no_separator(s.drop_last(), sep, i);
        }
        if s.last() != sep && i == before.len() - 1 {
            let piece = before.last().push(s.last());
            assert(text::split(s, sep)[i] == piece);
            if piece.contains(sep) {
                let k = choose|k: int| 0 <= k < piece.len() && piece[k] == sep;
                assert(before.last()[k] == sep);
            }
        }
    }
}

proof fn lemma_read_spec(spec: Seq<char>)
    requires
        !spec.contains(','),
    ensures
        client_mirror::mirror_of(spec) matches Ok(mirror) ==> can_be_written(mirror)
            && mirror.description is None,
{
    if let Ok(mirror) = client_mirror::mirror_of(spec) {
        match text::cut_at(spec, ':') {
            Some((_, rest)) => {
                text::lemma_trim_ends(rest);
                if mirror.local_path.contains(',') {
                    assert(rest.contains(','));
                    let k = choose|k: int| 0 <= k < rest.len() && rest[k] == ',';
                    assert(spec[spec.len() - rest.len() + k] == ',');
                }
            },
            None => {
                names::derived_path_is_valid(mirror.name);
                let path = mirror.local_path;
                reveal_strlit("default");
                reveal_strlit("wiki");
                reveal_strlit("wiki-");
                if mirror.name != "default"@ {
                    assert(path.last() == mirror.name.last());
                }
                assert forall|i: int| 0 <= i < path.len() implies #[trigger] path[i] != ',' by {
                    if i >= 5 {
                        assert(path[i] == mirror.name[i - 5]);
                    }
                }
            },
        }
    }
}

proof fn lemma_read_specs(specs: Seq<Seq<char>>, mirrors: Seq<Mirror>)
    requires
        client_mirror::mirrors_of(specs) == Ok::<_, Fault>(mirrors),
        forall|i: int| 0 <= i < specs.len() ==> !(#[trigger] specs[i]).contains(','),
    ensures
        are_apart(mirrors),
        forall|i: int|
            0 <= i < mirrors.len() ==> can_be_written(#[trigger] mirrors[i])
                && mirrors[i].description is None,
    decreases specs.len(),
{
    if specs.len() > 0 {
        let before = specs.drop_last();
        assert forall|i: int| 0 <= i < before.len() implies !(#[trigger] before[i]).contains(
            ',',
        ) by {
            assert(before[i] == specs[i]);
        }
        let read = client_mirror::mirrors_of(before)->Ok_0;
        lemma_read_specs(before, read);
        assert(specs[specs.len() - 1] == specs.last());
        lemma_read_spec(specs.last());
        let one = client_mirror::mirror_of(specs.last())->Ok_0;
        assert(mirrors == read.push(one));
        assert forall|i: int, j: int| 0 <= i < j < mirrors.len() implies (
        #[trigger] mirrors[i]).name != (#[trigger] mirrors[j]).name && mirrors[i].local_path
            != mirrors[j].local_path by {
            assert(mirrors[i] == read[i]);
            if j < read.len() {
                assert(mirrors[j] == read[j]);
            }
        }
    }
}

proof fn lemma_parts_hold_no_comma(raws: Seq<Seq<char>>)
    ensures
        forall|i: int|
            0 <= i < client_mirror::all_parts(raws).len() ==> !(
            #[trigger] client_mirror::all_parts(raws)[i]).contains(','),
    decreases raws.len(),
{
    if raws.len() > 0 {
        let before = client_mirror::all_parts(raws.drop_last());
        let raw = raws.last();
        let more = client_mirror::list_parts(raw);
        let pieces = text::split(raw, ',');
        let trims = pieces.map_values(|part: Seq<char>| text::trim(part));
        lemma_parts_hold_no_comma(raws.drop_last());
        assert forall|i: int| 0 <= i < more.len() implies !(#[trigger] more[i]).contains(',') by {
            views::lemma_filtered(trims, |p: Seq<char>| p.len() > 0);
            assert(more.contains(more[i]));
            let k = choose|k: int| 0 <= k < trims.len() && trims[k] == more[i];
            lemma_pieces_hold_no_separator(raw, ',', k);
            text::lemma_trim_ends(pieces[k]);
        }
        let all = client_mirror::all_parts(raws);
        assert(all == before + more);
        assert forall|i: int| 0 <= i < all.len() implies !(#[trigger] all[i]).contains(',') by {
            if i < before.len() {
                assert(all[i] == before[i]);
            } else {
                assert(all[i] == more[i - before.len()]);
            }
        }
    }
}

/// The mirrors that are read from lists can be written, and share no name and no path.
pub proof fn read_mirrors_can_be_written(raws: Seq<Seq<char>>, mirrors: Seq<Mirror>)
    requires
        client_mirror::mirrors_of(client_mirror::all_parts(raws)) == Ok::<_, Fault>(mirrors),
    ensures
        are_apart(mirrors),
        forall|i: int|
            0 <= i < mirrors.len() ==> can_be_written(#[trigger] mirrors[i])
                && mirrors[i].description is None,
{
    lemma_parts_hold_no_comma(raws);
    lemma_read_specs(client_mirror::all_parts(raws), mirrors);
}

proof fn lemma_described(asked: Seq<Mirror>, known: Map<Seq<char>, Seq<char>>)
    requires
        client_mirror::unknown_names(asked, known).len() == 0,
    ensures
        client_mirror::described(asked, known).len() == asked.len(),
        forall|i: int|
            0 <= i < asked.len() ==> (#[trigger] client_mirror::described(asked, known)[i])
                == (ClientMirror { description: Some(known[asked[i].name]), ..asked[i] }),
    decreases asked.len(),
{
    reveal(Seq::filter);
    if asked.len() > 0 {
        let names = asked.map_values(|mirror: Mirror| mirror.name);
        let before = asked.drop_last();
        assert(names.drop_last() =~= before.map_values(|mirror: Mirror| mirror.name));
        assert(names.last() == asked.last().name);
        lemma_described(before, known);
        let first = client_mirror::described(before, known);
        assert forall|i: int| 0 <= i < asked.len() implies (
        #[trigger] client_mirror::described(asked, known)[i]) == (ClientMirror {
            description: Some(known[asked[i].name]),
            ..asked[i]
        }) by {
            if i < before.len() {
                assert(client_mirror::described(asked, known)[i] == first[i]);
            }
        }
    }
}

/// A client that is set up with the wikis that it asked for reads from its settings the mirrors
/// that it asked for.
pub proof fn setup_gives_the_mirrors_asked_for(
    available: Seq<Info>,
    requested: Seq<Seq<char>>,
    asked: Seq<Mirror>,
    selected: Seq<Mirror>,
)
    requires
        client_mirror::mirrors_of(client_mirror::all_parts(requested)) == Ok::<_, Fault>(asked),
        asked.len() > 0,
        client_mirror::selection(available, requested) == Ok::<_, Fault>(selected),
    ensures
        client_mirror::wikis_of(agent_setup::spec_list(selected)) == Ok::<_, Fault>(asked),
{
    let known = client_mirror::descriptions(available);
    read_mirrors_can_be_written(requested, asked);
    lemma_described(asked, known);
    assert forall|i: int| 0 <= i < selected.len() implies can_be_written(
        #[trigger] selected[i],
    ) by {
        assert(can_be_written(asked[i]));
    }
    assert forall|i: int, j: int| 0 <= i < j < selected.len() implies (
    #[trigger] selected[i]).name != (#[trigger] selected[j]).name && selected[i].local_path
        != selected[j].local_path by {
        assert(asked[i].name != asked[j].name);
    }
    written_mirrors_are_read_back(selected);
    assert(plain(selected) =~= asked);
}

} // verus!
