//! Wiki names, the paths derived from them, and the paths a client may choose for a mirror.

use vstd::prelude::*;

use crate::text;
use crate::views;

verus! {

/// A research question, with the mirror path that wikilinks in the answer should point into.
#[derive(Debug)]
pub struct ResearchRequest {
    pub question: String,
    pub local_path: Option<String>,
}

/// The answer to a research question.
#[derive(Debug, Clone)]
pub struct ResearchResponse {
    pub answer: String,
}

/// The wikis that a server offers.
#[derive(Debug, Clone, PartialEq, Eq)]
pub struct ListWikisResponse {
    pub wikis: Vec<WikiInfo>,
}

/// What a client is told of a wiki.
#[derive(Debug, Clone, PartialEq, Eq)]
pub struct WikiInfo<S = String> {
    pub name: S,
    pub description: S,
}

impl DeepView for WikiInfo<String> {
    type V = WikiInfo<Seq<char>>;

    open spec fn deep_view(&self) -> WikiInfo<Seq<char>> {
        WikiInfo { name: self.name@, description: self.description@ }
    }
}

/// The path under which a server lists its wikis.
pub const WIKI_LIST_PATH: &'static str = "/wiki";

/// A lowercase ASCII letter or an ASCII digit.
pub open spec fn is_slug_end(c: char) -> bool {
    ('a' <= c && c <= 'z') || ('0' <= c && c <= '9')
}

/// A character that a wiki name may hold.
pub open spec fn is_slug_char(c: char) -> bool {
    is_slug_end(c) || c == '-'
}

/// A wiki name: lowercase letters, digits and hyphens, with a letter or digit at both ends.
pub open spec fn wiki_name(s: Seq<char>) -> bool {
    &&& s.len() > 0
    &&& is_slug_end(s[0])
    &&& is_slug_end(s.last())
    &&& forall|i: int| 0 <= i < s.len() ==> is_slug_char(#[trigger] s[i])
}

fn slug_end(c: char) -> (res: bool)
    ensures
        res == is_slug_end(c),
{
    ('a' <= c && c <= 'z') || ('0' <= c && c <= '9')
}

/// Whether a text is a wiki name.
pub fn is_valid_wiki_name(name: &str) -> (res: bool)
    ensures
        res == wiki_name(name@),
{
    let cs = text::chars(name);
    let n: usize = cs.len();
    if n == 0 {
        return false;
    }
    if !slug_end(cs[0]) || !slug_end(cs[n - 1]) {
        return false;
    }
    let mut i: usize = 0;
    while i < n
        invariant
            n == cs@.len(),
            cs@ == name@,
            i <= n,
            forall|k: int| 0 <= k < i ==> is_slug_char(#[trigger] name@[k]),
        decreases n - i,
    {
        if !slug_end(cs[i]) && cs[i] != '-' {
            assert(!is_slug_char(name@[i as int]));
            return false;
        }
        i = i + 1;
    }
    true
}

/// The directory of a wiki repository, and of its mirror where the client names none.
pub open spec fn wiki_path_of(name: Seq<char>) -> Seq<char> {
    if name == "default"@ {
        "wiki"@
    } else {
        "wiki-"@ + name
    }
}

/// The directory name that belongs to a wiki name.
pub fn derived_wiki_path(wiki: &str) -> (res: String)
    ensures
        res@ == wiki_path_of(wiki@),
{
    if text::same(wiki, "default") {
        "wiki".to_string()
    } else {
        "wiki-".to_string().concat(wiki)
    }
}

/// The URL prefix of a wiki.
pub open spec fn base_path_of(name: Seq<char>) -> Seq<char> {
    WIKI_LIST_PATH@ + "/"@ + name
}

/// The URL prefix that selects a wiki.
pub fn wiki_base_path(wiki: &str) -> (res: String)
    ensures
        res@ == base_path_of(wiki@),
{
    WIKI_LIST_PATH.to_string().concat("/").concat(wiki)
}

/// Why a mirror path was refused.
#[derive(Debug, Clone, PartialEq, Eq)]
#[non_exhaustive]
pub enum LocalPathError<S = String> {
    Empty,
    Absolute(S),
    Backslash(S),
    Colon(S),
    EmptyComponent(S),
    DotComponent(S),
}

impl DeepView for LocalPathError<String> {
    type V = LocalPathError<Seq<char>>;

    open spec fn deep_view(&self) -> LocalPathError<Seq<char>> {
        match self {
            LocalPathError::Empty => LocalPathError::Empty,
            LocalPathError::Absolute(p) => LocalPathError::Absolute(p@),
            LocalPathError::Backslash(p) => LocalPathError::Backslash(p@),
            LocalPathError::Colon(p) => LocalPathError::Colon(p@),
            LocalPathError::EmptyComponent(p) => LocalPathError::EmptyComponent(p@),
            LocalPathError::DotComponent(p) => LocalPathError::DotComponent(p@),
        }
    }
}

impl LocalPathError<Seq<char>> {
    /// What the error says.
    pub open spec fn says(self) -> Seq<char> {
        match self {
            LocalPathError::Empty => "local_path must not be empty"@,
            LocalPathError::Absolute(p) => "local_path must be relative: '"@ + p + "'"@,
            LocalPathError::Backslash(p) => "local_path must use '/' separators: '"@ + p + "'"@,
            LocalPathError::Colon(p) => "local_path must not contain ':': '"@ + p + "'"@,
            LocalPathError::EmptyComponent(p) => "local_path must not contain empty components: '"@
                + p + "'"@,
            LocalPathError::DotComponent(p) =>
                "local_path must not contain '.' or '..' components: '"@ + p + "'"@,
        }
    }
}

impl LocalPathError {
    /// The message of the error.
    pub fn message(&self) -> (res: String)
        ensures
            res@ == self.deep_view().says(),
    {
        match self {
            LocalPathError::Empty => "local_path must not be empty".to_string(),
            LocalPathError::Absolute(p) => "local_path must be relative: '".to_string().concat(
                p.as_str(),
            ).concat("'"),
            LocalPathError::Backslash(p) => "local_path must use '/' separators: '".to_string().concat(
                p.as_str(),
            ).concat("'"),
            LocalPathError::Colon(p) => "local_path must not contain ':': '".to_string().concat(
                p.as_str(),
            ).concat("'"),
            LocalPathError::EmptyComponent(p) =>
                "local_path must not contain empty components: '".to_string().concat(
                p.as_str(),
            ).concat("'"),
            LocalPathError::DotComponent(p) =>
                "local_path must not contain '.' or '..' components: '".to_string().concat(
                p.as_str(),
            ).concat("'"),
        }
    }
}

/// One of the components `.` and `..`.
pub open spec fn is_dot_component(c: Seq<char>) -> bool {
    c == seq!['.'] || c == seq!['.', '.']
}

/// The fault of the first component of `parts` that has one.
pub open spec fn component_check(parts: Seq<Seq<char>>, path: Seq<char>) -> Result<
    (),
    LocalPathError<Seq<char>>,
>
    decreases parts.len(),
{
    if parts.len() == 0 {
        Ok(())
    } else if parts[0].len() == 0 {
        Err(LocalPathError::EmptyComponent(path))
    } else if is_dot_component(parts[0]) {
        Err(LocalPathError::DotComponent(path))
    } else {
        component_check(parts.drop_first(), path)
    }
}

/// The check of a mirror path: it is relative, uses `/` alone, holds no `:`, and each of its
/// components is a proper name.
pub open spec fn local_path_check(path: Seq<char>) -> Result<(), LocalPathError<Seq<char>>> {
    if path.len() == 0 {
        Err(LocalPathError::Empty)
    } else if path[0] == '/' {
        Err(LocalPathError::Absolute(path))
    } else if path.contains('\\') {
        Err(LocalPathError::Backslash(path))
    } else if path.contains(':') {
        Err(LocalPathError::Colon(path))
    } else {
        component_check(text::split(path, '/'), path)
    }
}

fn dot_component(c: &str) -> (res: bool)
    ensures
        res == is_dot_component(c@),
{
    proof {
        reveal_strlit(".");
        reveal_strlit("..");
        assert("."@ =~= seq!['.']);
        assert(".."@ =~= seq!['.', '.']);
    }
    text::same(c, ".") || text::same(c, "..")
}

/// Accepts the portable relative paths that a mirror may have.
pub fn validate_local_path(path: &str) -> (res: Result<(), LocalPathError>)
    ensures
        views::outcome(res) == local_path_check(path@),
{
    if path.is_empty() {
        return Err(LocalPathError::Empty);
    }
    if path.get_char(0) == '/' {
        return Err(LocalPathError::Absolute(path.to_string()));
    }
    if text::has_char(path, '\\') {
        return Err(LocalPathError::Backslash(path.to_string()));
    }
    if text::has_char(path, ':') {
        return Err(LocalPathError::Colon(path.to_string()));
    }
    let parts = text::pieces(path, '/');
    let n: usize = parts.len();
    let ghost all = text::split(path@, '/');
    let mut i: usize = 0;
    assert(all.skip(0) =~= all);
    while i < n
        invariant
            n == parts@.len(),
            parts.deep_view() == all,
            i <= n,
            local_path_check(path@) == component_check(all, path@),
            component_check(all, path@) == component_check(all.skip(i as int), path@),
        decreases n - i,
    {
        assert(parts.deep_view()[i as int] == parts@[i as int]@);
        assert(all.skip(i as int).drop_first() =~= all.skip(i + 1));
        if parts[i].as_str().is_empty() {
            return Err(LocalPathError::EmptyComponent(path.to_string()));
        }
        if dot_component(parts[i].as_str()) {
            return Err(LocalPathError::DotComponent(path.to_string()));
        }
        i = i + 1;
    }
    Ok(())
}

proof fn lemma_component_check(parts: Seq<Seq<char>>, path: Seq<char>)
    ensures
        component_check(parts, path) is Ok <==> forall|i: int|
            0 <= i < parts.len() ==> (#[trigger] parts[i]).len() > 0 && !is_dot_component(parts[i]),
    decreases parts.len(),
{
    if parts.len() > 0 {
        lemma_component_check(parts.drop_first(), path);
        let rest = parts.drop_first();
        assert forall|i: int| 0 < i < parts.len() implies #[trigger] parts[i] == rest[i - 1] by {}
        if component_check(parts, path) is Ok {
            assert forall|i: int| 0 <= i < parts.len() implies (#[trigger] parts[i]).len() > 0
                && !is_dot_component(parts[i]) by {
                if i > 0 {
                    assert(parts[i] == rest[i - 1]);
                }
            }
        } else if !(parts[0].len() == 0 || is_dot_component(parts[0])) {
            let j = choose|j: int|
                0 <= j < rest.len() && !((#[trigger] rest[j]).len() > 0 && !is_dot_component(
                    rest[j],
                ));
            assert(parts[j + 1] == rest[j]);
        }
    }
}

/// An accepted mirror path stays below the directory it is taken from: it is not absolute, and
/// every component between slashes is a name other than `.` and `..`. It is accepted exactly
/// where that holds and neither `\` nor `:` occurs.
pub proof fn local_path_stays_inside(path: Seq<char>)
    ensures
        local_path_check(path) is Ok <==> {
            &&& path.len() > 0
            &&& path[0] != '/'
            &&& !path.contains('\\')
            &&& !path.contains(':')
            &&& forall|i: int|
                0 <= i < text::split(path, '/').len() ==> (#[trigger] text::split(path, '/')[i]).len()
                    > 0 && !is_dot_component(text::split(path, '/')[i])
        },
{
    lemma_component_check(text::split(path, '/'), path);
}

/// The path derived from a wiki name is an acceptable mirror path.
pub proof fn derived_path_is_valid(name: Seq<char>)
    requires
        wiki_name(name),
    ensures
        local_path_check(wiki_path_of(name)) is Ok,
{
    reveal_strlit("wiki");
    reveal_strlit("wiki-");
    let p = wiki_path_of(name);
    assert forall|i: int| 0 <= i < p.len() implies p[i] != '/' && p[i] != '\\' && p[i] != ':' by {
        if p.len() > 4 && i >= 5 {
            assert(p[i] == name[i - 5]);
        }
    }
    text::lemma_split_without(p, '/');
    lemma_component_check(text::split(p, '/'), p);
    assert(p.len() >= 4);
    assert(text::split(p, '/')[0] == p);
}

/// Different wikis have different repositories, mirrors and base paths.
pub proof fn derived_paths_are_distinct(a: Seq<char>, b: Seq<char>)
    requires
        a != b,
    ensures
        wiki_path_of(a) != wiki_path_of(b),
        base_path_of(a) != base_path_of(b),
{
    reveal_strlit("wiki");
    reveal_strlit("wiki-");
    let pre = WIKI_LIST_PATH@ + "/"@;
    if base_path_of(a) == base_path_of(b) {
        assert(a =~= base_path_of(a).skip(pre.len() as int));
        assert(b =~= base_path_of(b).skip(pre.len() as int));
    }
    if wiki_path_of(a) == wiki_path_of(b) {
        if a != "default"@ && b != "default"@ {
            assert(a =~= wiki_path_of(a).skip(5));
            assert(b =~= wiki_path_of(b).skip(5));
        } else if a == "default"@ {
            assert(wiki_path_of(b)[4] == '-');
            assert(wiki_path_of(a).len() == 4);
        } else {
            assert(wiki_path_of(a)[4] == '-');
            assert(wiki_path_of(b).len() == 4);
        }
    }
}

/// Wiki names are made of lowercase ASCII letters, digits and hyphens, and a hyphen stands at
/// neither end.
pub proof fn names_are_slugs(s: Seq<char>)
    ensures
        wiki_name(s) <==> s.len() > 0 && s[0] != '-' && s[s.len() - 1] != '-' && forall|i: int|
            0 <= i < s.len() ==> 'a' <= (#[trigger] s[i]) <= 'z' || '0' <= s[i] <= '9' || s[i]
                == '-',
{
    if s.len() > 0 && forall|i: int|
        0 <= i < s.len() ==> 'a' <= (#[trigger] s[i]) <= 'z' || '0' <= s[i] <= '9' || s[i]
            == '-' {
        assert(s[0] == s[0] && s[s.len() - 1] == s.last());
    }
    if wiki_name(s) {
        assert forall|i: int| 0 <= i < s.len() implies 'a' <= (#[trigger] s[i]) <= 'z' || '0'
            <= s[i] <= '9' || s[i] == '-' by {
            assert(is_slug_char(s[i]));
        }
    }
}

/// The wikis of a server lie below one path, each under its name. The wiki that is meant where none
/// is named has a directory of its own, any other has its name in that of its directory.
pub proof fn wikis_have_their_paths(name: Seq<char>)
    ensures
        base_path_of(name) == "/wiki/"@ + name,
        WIKI_LIST_PATH@ == "/wiki"@,
        wiki_path_of("default"@) == "wiki"@,
        name != "default"@ ==> wiki_path_of(name) == "wiki-"@ + name,
{
    reveal_strlit("/wiki/");
    reveal_strlit("/wiki");
    reveal_strlit("/");
    assert("/wiki/"@ =~= "/wiki"@ + "/"@);
}

proof fn lemma_components_are_told(parts: Seq<Seq<char>>, path: Seq<char>)
    ensures
        component_check(parts, path) matches Err(e) ==> e is EmptyComponent || e is DotComponent,
    decreases parts.len(),
{
    if parts.len() > 0 {
        lemma_components_are_told(parts.drop_first(), path);
    }
}

proof fn lemma_checked_before(before: Seq<Seq<char>>, behind: Seq<Seq<char>>, path: Seq<char>)
    requires
        component_check(before, path) is Ok,
    ensures
        component_check(before + behind, path) == component_check(behind, path),
    decreases before.len(),
{
    if before.len() == 0 {
        assert(before + behind =~= behind);
    } else {
        assert((before + behind)[0] == before[0]);
        assert((before + behind).drop_first() =~= before.drop_first() + behind);
        lemma_checked_before(before.drop_first(), behind, path);
    }
}

/// What is wrong with a mirror path is told in this order: that it is empty, is absolute, holds a
/// backslash, or holds a colon; then, for the first component that is none, that it is empty or
/// consists of dots.
pub proof fn mirror_paths_are_refused_in_order(
    path: Seq<char>,
    before: Seq<char>,
    part: Seq<char>,
    behind: Seq<char>,
)
    requires
        local_path_check(before) is Ok,
        !behind.contains('\\'),
        !behind.contains(':'),
        part == Seq::<char>::empty() || part == "."@ || part == ".."@,
    ensures
        local_path_check(path) == Err::<(), _>(LocalPathError::<Seq<char>>::Empty)
            <==> path.len() == 0,
        local_path_check("/"@ + path) == Err::<(), _>(LocalPathError::Absolute("/"@ + path)),
        path.len() > 0 && path[0] != '/' && path.contains('\\') ==> local_path_check(path) == Err::<
            (),
            _,
        >(LocalPathError::Backslash(path)),
        path.len() > 0 && path[0] != '/' && !path.contains('\\') && path.contains(':')
            ==> local_path_check(path) == Err::<(), _>(LocalPathError::Colon(path)),
        ({
            let whole = before + "/"@ + part + "/"@ + behind;
            local_path_check(whole) == Err::<(), _>(
                if part.len() == 0 {
                    LocalPathError::EmptyComponent(whole)
                } else {
                    LocalPathError::DotComponent(whole)
                },
            )
        }),
{
    reveal_strlit("/");
    reveal_strlit(".");
    reveal_strlit("..");
    assert("/"@ =~= seq!['/']);
    assert("."@ =~= seq!['.']);
    assert(".."@ =~= seq!['.', '.']);
    assert(("/"@ + path)[0] == '/');
    lemma_components_are_told(text::split(path, '/'), path);
    let whole = before + "/"@ + part + "/"@ + behind;
    assert(whole[0] == before[0]);
    assert forall|c: char| c != '/' && c != '.' && !before.contains(c) && !behind.contains(
        c,
    ) implies !whole.contains(c) by {
        if whole.contains(c) {
            let k = choose|k: int| 0 <= k < whole.len() && whole[k] == c;
            let n = before.len() as int;
            let m = part.len() as int;
            if k < n {
                assert(before[k] == c);
            } else if k > n + m + 1 {
                assert(behind[k - n - m - 2] == c);
            } else if n < k < n + m + 1 {
                assert(part[k - n - 1] == c);
            }
        }
    }
    text::lemma_split_around(before + "/"@ + part, behind, '/');
    text::lemma_split_around(before, part, '/');
    text::lemma_split_without(part, '/');
    assert(text::split(whole, '/') =~= text::split(before, '/') + (seq![part] + text::split(
        behind,
        '/',
    )));
    lemma_component_check(text::split(before, '/'), before);
    lemma_component_check(text::split(before, '/'), whole);
    lemma_checked_before(
        text::split(before, '/'),
        seq![part] + text::split(behind, '/'),
        whole,
    );
    assert((seq![part] + text::split(behind, '/'))[0] == part);
}

/// What is said of a mirror path that is refused.
pub proof fn refused_mirror_paths_are_told(path: Seq<char>)
    ensures
        LocalPathError::<Seq<char>>::Empty.says() == "local_path must not be empty"@,
        LocalPathError::Absolute(path).says() == "local_path must be relative: '"@ + path + "'"@,
        LocalPathError::Backslash(path).says() == "local_path must use '/' separators: '"@ + path
            + "'"@,
        LocalPathError::Colon(path).says() == "local_path must not contain ':': '"@ + path + "'"@,
        LocalPathError::EmptyComponent(path).says()
            == "local_path must not contain empty components: '"@ + path + "'"@,
        LocalPathError::DotComponent(path).says()
            == "local_path must not contain '.' or '..' components: '"@ + path + "'"@,
{
}

} // verus!
