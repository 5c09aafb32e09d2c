//! File system paths as texts, with `/` between components.

use vstd::prelude::*;

use crate::text;

verus! {

/// Whether the path starts at the root directory.
pub open spec fn is_absolute(path: Seq<char>) -> bool {
    path.len() > 0 && path[0] == '/'
}

/// Whether the path starts at the root directory.
pub fn absolute(path: &str) -> (res: bool)
    ensures
        res == is_absolute(path@),
{
    !path.is_empty() && path.get_char(0) == '/'
}

/// `path` taken from the directory `base`: an absolute path stands for itself.
pub open spec fn join_path(base: Seq<char>, path: Seq<char>) -> Seq<char> {
    if is_absolute(path) || base.len() == 0 {
        path
    } else if base.last() == '/' {
        base + path
    } else {
        base + seq!['/'] + path
    }
}

/// A path taken from a directory.
pub fn join(base: &str, path: &str) -> (res: String)
    ensures
        res@ == join_path(base@, path@),
{
    if absolute(path) || base.is_empty() {
        return path.to_string();
    }
    let n: usize = base.unicode_len();
    let mut out = base.to_string();
    if base.get_char(n - 1) != '/' {
        out.push('/');
        assert(out@ =~= base@ + seq!['/']);
    }
    out.append(path);
    out
}

/// A component that names an entry, or `..`.
pub open spec fn is_step(part: Seq<char>) -> bool {
    part.len() > 0 && part != seq!['.']
}

/// The components of a path: the root or the current directory at its start, and then every name
/// and every `..`; other `.` and empty components do not count.
pub open spec fn components(path: Seq<char>) -> Seq<Seq<char>> {
    let parts = text::split(path, '/');
    (if is_absolute(path) {
        seq![seq!['/']]
    } else if parts[0] == seq!['.'] {
        seq![seq!['.']]
    } else {
        Seq::<Seq<char>>::empty()
    }) + parts.filter(|p: Seq<char>| is_step(p))
}

fn step(part: &str) -> (res: bool)
    ensures
        res == is_step(part@),
{
    proof {
        reveal_strlit(".");
        assert("."@ =~= seq!['.']);
    }
    !part.is_empty() && !text::same(part, ".")
}

/// The components of a path.
pub fn component_list(path: &str) -> (res: Vec<String>)
    ensures
        res.deep_view() == components(path@),
{
    let parts = text::pieces(path, '/');
    let n: usize = parts.len();
    let ghost all = text::split(path@, '/');
    let mut out: Vec<String> = Vec::new();
    proof {
        reveal_strlit(".");
        reveal_strlit("/");
        assert("."@ =~= seq!['.']);
        assert("/"@ =~= seq!['/']);
        assert(parts.deep_view()[0] == parts@[0]@);
        assert(out.deep_view() =~= Seq::<Seq<char>>::empty());
    }
    if absolute(path) {
        out.push("/".to_string());
        assert(out.deep_view() =~= seq![seq!['/']]);
    } else if text::same(parts[0].as_str(), ".") {
        out.push(".".to_string());
        assert(out.deep_view() =~= seq![seq!['.']]);
    }
    let ghost head = out.deep_view();
    let ghost f = |p: Seq<char>| is_step(p);
    let mut i: usize = 0;
    proof {
        reveal(Seq::filter);
        assert(all.take(0) =~= Seq::<Seq<char>>::empty());
        assert(head + all.take(0).filter(f) =~= head);
    }
    while i < n
        invariant
            n == parts@.len(),
            parts.deep_view() == all,
            i <= n,
            f == (|p: Seq<char>| is_step(p)),
            out.deep_view() == head + all.take(i as int).filter(f),
        decreases n - i,
    {
        proof {
            reveal(Seq::filter);
            assert(parts.deep_view()[i as int] == parts@[i as int]@);
            assert(all.take(i + 1).drop_last() =~= all.take(i as int));
            assert(all.take(i + 1).last() == all[i as int]);
        }
        let ghost before = out;
        if step(parts[i].as_str()) {
            out.push(parts[i].clone());
            assert(out.deep_view() =~= before.deep_view().push(all[i as int]));
            assert(out.deep_view() =~= head + all.take(i + 1).filter(f));
        }
        i = i + 1;
    }
    assert(all.take(n as int) =~= all);
    out
}

/// Whether the components of `path` begin with those of `base`.
pub open spec fn lies_in(path: Seq<char>, base: Seq<char>) -> bool {
    components(base).is_prefix_of(components(path))
}

/// Whether a path is a directory or lies below it.
pub fn starts_with(path: &str, base: &str) -> (res: bool)
    ensures
        res == lies_in(path@, base@),
{
    let p = component_list(path);
    let b = component_list(base);
    if b.len() > p.len() {
        assert(p.deep_view().len() < b.deep_view().len());
        return false;
    }
    let n: usize = b.len();
    let mut i: usize = 0;
    while i < n
        invariant
            n == b@.len(),
            n <= p@.len(),
            p.deep_view() == components(path@),
            b.deep_view() == components(base@),
            i <= n,
            forall|k: int| 0 <= k < i ==> p@[k]@ == b@[k]@,
        decreases n - i,
    {
        if !text::same(p[i].as_str(), b[i].as_str()) {
            proof {
                assert(p.deep_view()[i as int] == p@[i as int]@);
                assert(b.deep_view()[i as int] == b@[i as int]@);
                assert(components(path@).take(n as int)[i as int] != components(base@)[i as int]);
            }
            return false;
        }
        i = i + 1;
    }
    assert(components(base@) =~= components(path@).take(n as int));
    true
}

/// The path without the separators and the `.` components at its end.
pub open spec fn strip_tail(path: Seq<char>) -> Seq<char>
    decreases path.len(),
{
    if path.len() > 1 && path.last() == '/' {
        strip_tail(path.drop_last())
    } else if path.len() > 1 && path.last() == '.' && path[path.len() - 2] == '/' {
        strip_tail(path.drop_last())
    } else {
        path
    }
}

fn stripped(cs: &Vec<char>, end: usize) -> (res: usize)
    requires
        end <= cs@.len(),
    ensures
        res <= end,
        strip_tail(cs@.take(end as int)) == cs@.take(res as int),
{
    let mut j: usize = end;
    while j > 1 && (cs[j - 1] == '/' || (cs[j - 1] == '.' && cs[j - 2] == '/'))
        invariant
            j <= end <= cs@.len(),
            strip_tail(cs@.take(end as int)) == strip_tail(cs@.take(j as int)),
        decreases j,
    {
        assert(cs@.take(j as int).drop_last() =~= cs@.take(j - 1));
        assert(cs@.take(j as int).last() == cs@[j - 1]);
        assert(cs@.take(j as int)[j - 2] == cs@[j - 2]);
        j = j - 1;
    }
    proof {
        if j > 1 {
            assert(cs@.take(j as int).last() == cs@[j - 1]);
            assert(cs@.take(j as int)[j - 2] == cs@[j - 2]);
        }
    }
    j
}

/// How many characters of `path` lie before its last component.
pub open spec fn last_start(path: Seq<char>) -> nat
    decreases path.len(),
{
    if path.len() == 0 || path.last() == '/' {
        path.len()
    } else {
        last_start(path.drop_last())
    }
}

fn last_begin(cs: &Vec<char>, end: usize) -> (res: usize)
    requires
        end <= cs@.len(),
    ensures
        res <= end,
        res == last_start(cs@.take(end as int)),
{
    let mut j: usize = end;
    while j > 0 && cs[j - 1] != '/'
        invariant
            j <= end <= cs@.len(),
            last_start(cs@.take(end as int)) == last_start(cs@.take(j as int)),
        decreases j,
    {
        assert(cs@.take(j as int).drop_last() =~= cs@.take(j - 1));
        assert(cs@.take(j as int).last() == cs@[j - 1]);
        j = j - 1;
    }
    proof {
        if j > 0 {
            assert(cs@.take(j as int).last() == cs@[j - 1]);
        }
    }
    j
}

/// The directory that holds the path; the root and the empty path have none.
pub open spec fn parent_of(path: Seq<char>) -> Option<Seq<char>> {
    let t = strip_tail(path);
    if t.len() == 0 || t == seq!['/'] {
        None
    } else {
        Some(strip_tail(t.take(last_start(t) as int)))
    }
}

/// The directory that holds a path.
pub fn parent(path: &str) -> (res: Option<String>)
    ensures
        res.deep_view() == parent_of(path@),
{
    let cs = text::chars(path);
    let end: usize = cs.len();
    assert(cs@.take(end as int) =~= path@);
    let t: usize = stripped(&cs, end);
    let ghost tail = cs@.take(t as int);
    if t == 0 {
        return None;
    }
    if t == 1 && cs[0] == '/' {
        assert(tail =~= seq!['/']);
        return None;
    }
    proof {
        if t == 1 {
            assert(tail[0] != '/');
        }
    }
    let k: usize = last_begin(&cs, t);
    assert(tail.take(k as int) =~= cs@.take(k as int));
    let r: usize = stripped(&cs, k);
    assert(cs@.subrange(0, r as int) =~= cs@.take(r as int));
    Some(text::text_of(vstd::slice::slice_subrange(cs.as_slice(), 0, r)))
}

/// The last component of a path, where that is a name.
pub open spec fn file_name_of(path: Seq<char>) -> Option<Seq<char>> {
    let t = strip_tail(path);
    let name = t.skip(last_start(t) as int);
    if name.len() == 0 || name == seq!['.'] || name == seq!['.', '.'] {
        None
    } else {
        Some(name)
    }
}

/// The last component of a path.
pub fn file_name(path: &str) -> (res: Option<String>)
    ensures
        res.deep_view() == file_name_of(path@),
{
    let cs = text::chars(path);
    let end: usize = cs.len();
    assert(cs@.take(end as int) =~= path@);
    let t: usize = stripped(&cs, end);
    let k: usize = last_begin(&cs, t);
    assert(cs@.take(t as int).skip(k as int) =~= cs@.subrange(k as int, t as int));
    let name = text::text_of(vstd::slice::slice_subrange(cs.as_slice(), k, t));
    proof {
        reveal_strlit(".");
        reveal_strlit("..");
        assert("."@ =~= seq!['.']);
        assert(".."@ =~= seq!['.', '.']);
    }
    if name.as_str().is_empty() || text::same(name.as_str(), ".") || text::same(
        name.as_str(),
        "..",
    ) {
        None
    } else {
        Some(name)
    }
}

/// Where the extension of a file name starts: its last `.`, unless that is its first character.
pub open spec fn dot_of(name: Seq<char>) -> Option<nat>
    decreases name.len(),
{
    if name.len() <= 1 {
        None
    } else if name.last() == '.' {
        Some((name.len() - 1) as nat)
    } else {
        dot_of(name.drop_last())
    }
}

fn dot(cs: &Vec<char>) -> (res: Option<usize>)
    ensures
        match res {
            Some(i) => dot_of(cs@) == Some(i as nat) && 0 < i < cs@.len(),
            None => dot_of(cs@) is None,
        },
{
    let mut j: usize = cs.len();
    assert(cs@.take(j as int) =~= cs@);
    while j > 1
        invariant
            j <= cs@.len(),
            dot_of(cs@.take(j as int)) == dot_of(cs@),
        decreases j,
    {
        assert(cs@.take(j as int).last() == cs@[j - 1]);
        if cs[j - 1] == '.' {
            return Some(j - 1);
        }
        assert(cs@.take(j as int).drop_last() =~= cs@.take(j - 1));
        j = j - 1;
    }
    None
}

/// The extension of a file name, without its dot.
pub open spec fn extension_of(name: Seq<char>) -> Option<Seq<char>> {
    match dot_of(name) {
        Some(i) => Some(name.skip(i as int + 1)),
        None => None,
    }
}

/// A file name without its extension.
pub open spec fn stem_of(name: Seq<char>) -> Seq<char> {
    match dot_of(name) {
        Some(i) => name.take(i as int),
        None => name,
    }
}

/// The extension of a file name.
pub fn extension(name: &str) -> (res: Option<String>)
    ensures
        res.deep_view() == extension_of(name@),
{
    let cs = text::chars(name);
    match dot(&cs) {
        Some(i) => {
            let n: usize = cs.len();
            assert(cs@.subrange(i + 1, n as int) =~= cs@.skip(i + 1));
            Some(text::text_of(vstd::slice::slice_subrange(cs.as_slice(), i + 1, n)))
        },
        None => None,
    }
}

/// A file name without its extension.
pub fn stem(name: &str) -> (res: String)
    ensures
        res@ == stem_of(name@),
{
    let cs = text::chars(name);
    match dot(&cs) {
        Some(i) => {
            assert(cs@.subrange(0, i as int) =~= cs@.take(i as int));
            text::text_of(vstd::slice::slice_subrange(cs.as_slice(), 0, i))
        },
        None => name.to_string(),
    }
}

/// Whether a path could be one that the file system resolved another to: absolute, and without a
/// separator at its end unless it is the root.
pub open spec fn is_canonical(path: Seq<char>) -> bool {
    is_absolute(path) && (path.len() == 1 || path.last() != '/')
}

/// The components of a relative path below a directory are those of the directory and then the
/// steps of the path.
pub proof fn lemma_components_below(base: Seq<char>, rel: Seq<char>)
    requires
        is_canonical(base),
        !is_absolute(rel),
    ensures
        components(join_path(base, rel)) == components(base) + text::split(rel, '/').filter(
            |p: Seq<char>| is_step(p),
        ),
        lies_in(join_path(base, rel), base),
{
    let f = |p: Seq<char>| is_step(p);
    let whole = join_path(base, rel);
    let empty = Seq::<char>::empty();
    let behind = text::split(rel, '/');
    assert(is_absolute(whole));
    if base.len() == 1 {
        assert(base =~= seq!['/']);
        assert(whole =~= empty + seq!['/'] + rel);
        text::lemma_split_around(empty, rel, '/');
        assert(base =~= empty + seq!['/'] + empty);
        text::lemma_split_around(empty, empty, '/');
        Seq::filter_distributes_over_add(text::split(empty, '/'), behind, f);
        Seq::filter_distributes_over_add(text::split(empty, '/'), text::split(empty, '/'), f);
        reveal(Seq::filter);
        let none = text::split(empty, '/');
        assert(none =~= seq![empty]);
        assert(none.drop_last() =~= Seq::empty());
        assert(Seq::<Seq<char>>::empty().filter(f) =~= Seq::empty());
        assert(!f(none.last()));
        assert(none.filter(f) =~= Seq::empty());
        assert(text::split(whole, '/').filter(f) =~= behind.filter(f));
        assert(text::split(base, '/').filter(f) =~= Seq::empty());
    } else {
        text::lemma_split_around(base, rel, '/');
        Seq::filter_distributes_over_add(text::split(base, '/'), behind, f);
    }
    assert(components(whole) =~= components(base) + behind.filter(f));
    assert(components(whole).take(components(base).len() as int) =~= components(base));
}

/// Two relative paths below a directory are the same only where the paths are.
pub proof fn lemma_join_distinct(base: Seq<char>, a: Seq<char>, b: Seq<char>)
    requires
        !is_absolute(a),
        !is_absolute(b),
        join_path(base, a) == join_path(base, b),
    ensures
        a == b,
{
    let stem = if base.len() == 0 || base.last() == '/' {
        base
    } else {
        base + seq!['/']
    };
    assert(join_path(base, a) =~= stem + a);
    assert(join_path(base, b) =~= stem + b);
    assert((stem + a).skip(stem.len() as int) =~= a);
    assert((stem + b).skip(stem.len() as int) =~= b);
}

/// A path taken from a directory stands behind it, with one `/` between them. An absolute path
/// stands for itself, and so does a path that is taken from nowhere.
pub proof fn paths_are_taken_from_directories(dir: Seq<char>, path: Seq<char>)
    ensures
        join_path(dir, "/"@ + path) == "/"@ + path,
        join_path(Seq::empty(), path) == path,
        is_absolute("/"@ + path),
        !path.contains('/') ==> !is_absolute(path),
        (path.len() > 0 && path[0] != '/') ==> join_path(dir + "/"@, path) == dir + "/"@ + path,
        (path.len() > 0 && path[0] != '/' && dir.len() > 0 && dir.last() != '/') ==> join_path(
            dir,
            path,
        ) == dir + "/"@ + path,
{
    reveal_strlit("/");
    assert("/"@ =~= seq!['/']);
    assert(("/"@ + path)[0] == '/');
    assert((dir + "/"@).last() == '/');
    if is_absolute(path) {
        assert(path.contains(path[0]));
    }
}

proof fn lemma_last_start(before: Seq<char>, name: Seq<char>)
    requires
        !name.contains('/'),
        before.len() > 0,
        before.last() == '/',
    ensures
        last_start(before + name) == before.len(),
    decreases name.len(),
{
    if name.len() == 0 {
        assert(before + name =~= before);
    } else {
        let all = before + name;
        assert(all.last() == name.last());
        assert(name.contains(name.last()));
        assert(all.drop_last() =~= before + name.drop_last());
        assert forall|c: char| name.drop_last().contains(c) implies name.contains(c) by {
            let k = choose|k: int| 0 <= k < name.drop_last().len() && name.drop_last()[k] == c;
            assert(name[k] == c);
        }
        lemma_last_start(before, name.drop_last());
    }
}

/// An entry of a directory has its own name, whatever the directory, and the directory holds it.
pub proof fn entries_have_their_names(dir: Seq<char>, name: Seq<char>)
    requires
        name.len() > 0,
        !name.contains('/'),
        name != "."@,
        name != ".."@,
    ensures
        file_name_of(dir + "/"@ + name) == Some(name),
        file_name_of(dir + "/"@ + name + "/"@) == Some(name),
        file_name_of(dir + "/.."@) is None,
        (dir.len() > 0 && dir.last() != '/' && dir.last() != '.') ==> parent_of(dir + "/"@ + name)
            == Some(dir),
        parent_of("/"@ + name) == Some("/"@),
        parent_of("/"@) is None,
        parent_of(Seq::empty()) is None,
{
    reveal_strlit("/");
    reveal_strlit(".");
    reveal_strlit("..");
    reveal_strlit("/..");
    assert("/"@ =~= seq!['/']);
    assert("."@ =~= seq!['.']);
    assert(".."@ =~= seq!['.', '.']);
    assert("/.."@ =~= seq!['/', '.', '.']);
    lemma_named(dir, name);
    let up = dir + "/.."@;
    assert(up =~= dir + "/"@ + ".."@);
    assert(up.last() == '.' && up[up.len() - 2] == '.');
    assert(strip_tail(up) == up);
    lemma_last_start(dir + "/"@, ".."@);
    assert(up.skip(dir.len() as int + 1) =~= ".."@);
    let path = dir + "/"@ + name;
    assert((path + "/"@).last() == '/');
    assert((path + "/"@).drop_last() =~= path);
    assert(path.take(dir.len() as int + 1) =~= dir + "/"@);
    if dir.len() > 0 && dir.last() != '/' && dir.last() != '.' {
        assert((dir + "/"@).drop_last() =~= dir);
        assert(strip_tail(dir) == dir);
        assert(strip_tail(dir + "/"@) == dir);
    }
    let empty = Seq::<char>::empty();
    lemma_named(empty, name);
    assert(empty + "/"@ + name =~= "/"@ + name);
    assert(("/"@ + name).take(1) =~= "/"@);
    assert(("/"@ + name).len() > 1);
    assert(strip_tail("/"@) == "/"@);
}

proof fn lemma_named(dir: Seq<char>, name: Seq<char>)
    requires
        name.len() > 0,
        !name.contains('/'),
        name != seq!['.'],
        name != seq!['.', '.'],
    ensures
        strip_tail(dir + "/"@ + name) == dir + "/"@ + name,
        last_start(dir + "/"@ + name) == dir.len() + 1,
        file_name_of(dir + "/"@ + name) == Some(name),
{
    reveal_strlit("/");
    assert("/"@ =~= seq!['/']);
    let path = dir + "/"@ + name;
    assert(path.last() == name.last());
    assert(name.contains(name.last()));
    if name.len() == 1 {
        assert(name =~= seq![name[0]]);
    } else {
        assert(path[path.len() - 2] == name[name.len() - 2]);
        assert(name.contains(name[name.len() - 2]));
    }
    assert(strip_tail(path) == path);
    lemma_last_start(dir + "/"@, name);
    assert(path.skip(dir.len() as int + 1) =~= name);
}

proof fn lemma_dot_of(stem: Seq<char>, ext: Seq<char>)
    requires
        stem.len() > 0,
        !ext.contains('.'),
    ensures
        dot_of(stem + seq!['.'] + ext) == Some(stem.len()),
    decreases ext.len(),
{
    let name = stem + seq!['.'] + ext;
    if ext.len() == 0 {
        assert(name.last() == '.');
    } else {
        assert(name.last() == ext.last());
        assert(ext.contains(ext.last()));
        assert(name.drop_last() =~= stem + seq!['.'] + ext.drop_last());
        assert forall|c: char| ext.drop_last().contains(c) implies ext.contains(c) by {
            let k = choose|k: int| 0 <= k < ext.drop_last().len() && ext.drop_last()[k] == c;
            assert(ext[k] == c);
        }
        lemma_dot_of(stem, ext.drop_last());
    }
}

proof fn lemma_no_dot(name: Seq<char>)
    requires
        forall|k: int| 1 <= k < name.len() ==> name[k] != '.',
    ensures
        dot_of(name) is None,
    decreases name.len(),
{
    if name.len() > 1 {
        lemma_no_dot(name.drop_last());
    }
}

/// A file name ends with the extension behind its last dot, and what stands before that dot is its
/// stem. A name without a dot is its own stem, also one that only starts with a dot.
pub proof fn names_end_with_their_extension(stem: Seq<char>, ext: Seq<char>)
    requires
        stem.len() > 0,
        !ext.contains('.'),
    ensures
        stem_of(stem + "."@ + ext) == stem,
        extension_of(stem + "."@ + ext) == Some(ext),
        stem_of(ext) == ext,
        extension_of(ext) is None,
        stem_of("."@ + ext) == "."@ + ext,
        extension_of("."@ + ext) is None,
{
    reveal_strlit(".");
    assert("."@ =~= seq!['.']);
    let name = stem + "."@ + ext;
    lemma_dot_of(stem, ext);
    assert(name.take(stem.len() as int) =~= stem);
    assert(name.skip(stem.len() as int + 1) =~= ext);
    assert forall|k: int| 0 <= k < ext.len() implies ext[k] != '.' by {
        assert(ext.contains(ext[k]));
    }
    lemma_no_dot(ext);
    lemma_no_dot("."@ + ext);
}

/// A file has the name that its path ends with, and of that the stem and the extension.
pub proof fn files_have_their_names(dir: Seq<char>, stem: Seq<char>, ext: Seq<char>)
    requires
        stem.len() > 0,
        !stem.contains('/'),
        ext.len() > 0,
        !ext.contains('/'),
        !ext.contains('.'),
    ensures
        file_name_of(dir + "/"@ + (stem + "."@ + ext)) == Some(stem + "."@ + ext),
        stem_of(stem + "."@ + ext) == stem,
        extension_of(stem + "."@ + ext) == Some(ext),
{
    reveal_strlit(".");
    assert("."@ =~= seq!['.']);
    let name = stem + "."@ + ext;
    assert(ext.contains(ext.last()));
    assert(name.last() == ext.last());
    assert forall|k: int| 0 <= k < name.len() implies name[k] != '/' by {
        if k < stem.len() {
            assert(stem.contains(stem[k]));
        } else if k > stem.len() {
            assert(ext.contains(ext[k - stem.len() - 1]));
        }
    }
    lemma_named(dir, name);
    names_end_with_their_extension(stem, ext);
}

/// The components of a path are the names between its slashes: below a directory an entry adds its
/// name, `.` and further slashes add nothing, and an absolute path begins with the root.
pub proof fn components_are_the_names(dir: Seq<char>, name: Seq<char>)
    requires
        dir.len() > 0,
        name.len() > 0,
        !name.contains('/'),
        name != "."@,
    ensures
        components(dir + "/"@ + name) == components(dir).push(name),
        components(dir + "/"@) == components(dir),
        components(dir + "/."@) == components(dir),
        components(name) == seq![name],
        components("/"@) == seq!["/"@],
        lies_in(dir + "/"@ + name, dir),
        lies_in(dir, dir),
        !lies_in(dir, dir + "/"@ + name),
{
    reveal_strlit("/");
    reveal_strlit(".");
    reveal_strlit("/.");
    assert("/"@ =~= seq!['/']);
    assert("."@ =~= seq!['.']);
    assert("/."@ =~= seq!['/', '.']);
    let f = |p: Seq<char>| is_step(p);
    let empty = Seq::<char>::empty();
    lemma_step_behind(dir, name);
    lemma_step_behind(dir, empty);
    lemma_step_behind(dir, "."@);
    assert(dir + "/"@ + empty =~= dir + "/"@);
    assert(dir + "/"@ + "."@ =~= dir + "/."@);
    text::lemma_split_without(name, '/');
    lemma_filter_one(name);
    assert(name.contains(name[0]));
    assert(components(name) =~= seq![name]);
    let root = "/"@;
    assert(root =~= empty + seq!['/'] + empty);
    text::lemma_split_around(empty, empty, '/');
    text::lemma_split_without(empty, '/');
    Seq::filter_distributes_over_add(text::split(empty, '/'), text::split(empty, '/'), f);
    lemma_filter_one(empty);
    assert(components(root) =~= seq![root]);
    let longer = components(dir).push(name);
    assert(longer.take(components(dir).len() as int) =~= components(dir));
    assert(components(dir).take(components(dir).len() as int) =~= components(dir));
}

proof fn lemma_filter_one(part: Seq<char>)
    ensures
        seq![part].filter(|p: Seq<char>| is_step(p)) == (if is_step(part) {
            seq![part]
        } else {
            Seq::empty()
        }),
{
    let f = |p: Seq<char>| is_step(p);
    reveal(Seq::filter);
    assert(seq![part].drop_last() =~= Seq::empty());
    assert(Seq::<Seq<char>>::empty().filter(f) =~= Seq::empty());
    assert(Seq::<Seq<char>>::empty().push(part) =~= seq![part]);
}

proof fn lemma_step_behind(dir: Seq<char>, part: Seq<char>)
    requires
        dir.len() > 0,
        !part.contains('/'),
    ensures
        components(dir + "/"@ + part) == (if is_step(part) {
            components(dir).push(part)
        } else {
            components(dir)
        }),
{
    reveal_strlit("/");
    assert("/"@ =~= seq!['/']);
    let f = |p: Seq<char>| is_step(p);
    let whole = dir + "/"@ + part;
    text::lemma_split_around(dir, part, '/');
    text::lemma_split_without(part, '/');
    text::lemma_split_where_len(dir, text::is_char('/'));
    assert(whole =~= dir + seq!['/'] + part);
    Seq::filter_distributes_over_add(text::split(dir, '/'), seq![part], f);
    lemma_filter_one(part);
    assert(whole[0] == dir[0]);
    assert(text::split(whole, '/')[0] == text::split(dir, '/')[0]);
    if is_step(part) {
        assert(components(whole) =~= components(dir).push(part));
    } else {
        assert(components(whole) =~= components(dir));
    }
}

} // verus!
