//! Wiki links in answers: `[[page]]` and `[[page|text]]` become Markdown links to the wiki's pages.

use vstd::hash_map::StringHashMap;
use vstd::prelude::*;

use crate::paths;
use crate::sync::tree;
use crate::sync::tree::{File, Listing, WikiFile};
use crate::text;
use crate::views;

verus! {

/// The regular expression of a wiki link. Its group is what stands between the brackets.
pub const WIKILINK_PATTERN: &'static str = r"\[\[([^\]]+)\]\]";

/// A text in lower case.
pub uninterp spec fn lowercase(s: Seq<char>) -> Seq<char>;

/// The standard library's `str::to_lowercase`, named [`lowercase`]. The mapping of characters is
/// Unicode's and is left unsaid.
#[verifier::external_body]
fn lowercase_text(s: &str) -> (res: String)
    ensures
        res@ == lowercase(s@),
{
    s.to_lowercase()
}

/// A page of a wiki: the key by which links name it, and its path in the wiki.
pub struct Page {
    pub key: Seq<char>,
    pub path: Seq<char>,
}

/// What a link leads to.
#[derive(Debug, PartialEq, Eq)]
pub enum LinkTarget<S = String> {
    Resolved(S),
    Ambiguous,
    Missing,
}

impl DeepView for LinkTarget<String> {
    type V = LinkTarget<Seq<char>>;

    open spec fn deep_view(&self) -> LinkTarget<Seq<char>> {
        match self {
            LinkTarget::Resolved(path) => LinkTarget::Resolved(path@),
            LinkTarget::Ambiguous => LinkTarget::Ambiguous,
            LinkTarget::Missing => LinkTarget::Missing,
        }
    }
}

/// The pages with a key.
pub open spec fn pages_with(pages: Seq<Page>, key: Seq<char>) -> Seq<Page> {
    pages.filter(|page: Page| page.key == key)
}

/// What a link with a key leads to: the only page with that key.
pub open spec fn target_of(pages: Seq<Page>, key: Seq<char>) -> LinkTarget<Seq<char>> {
    let found = pages_with(pages, key);
    if found.len() == 0 {
        LinkTarget::Missing
    } else if found.len() == 1 {
        LinkTarget::Resolved(found[0].path)
    } else {
        LinkTarget::Ambiguous
    }
}

/// What is known of a key: its only page, or that it has several.
#[derive(Debug, PartialEq, Eq)]
enum PageEntry {
    Unique(String),
    Ambiguous,
}

spec fn entry_target(map: Map<Seq<char>, PageEntry>, key: Seq<char>) -> LinkTarget<Seq<char>> {
    if !map.contains_key(key) {
        LinkTarget::Missing
    } else {
        match map[key] {
            PageEntry::Unique(path) => LinkTarget::Resolved(path@),
            PageEntry::Ambiguous => LinkTarget::Ambiguous,
        }
    }
}

/// The pages of a wiki by their keys. Its view is the pages, in the order in which they were added.
pub struct WikiLinkIndex {
    page_map: StringHashMap<PageEntry>,
    pages: Ghost<Seq<Page>>,
}

impl View for WikiLinkIndex {
    type V = Seq<Page>;

    closed spec fn view(&self) -> Seq<Page> {
        self.pages@
    }
}

proof fn lemma_pages_push(pages: Seq<Page>, page: Page, key: Seq<char>)
    ensures
        pages_with(pages.push(page), key) == (if page.key == key {
            pages_with(pages, key).push(page)
        } else {
            pages_with(pages, key)
        }),
{
    reveal(Seq::filter);
    assert(pages.push(page).drop_last() =~= pages);
    assert(pages.push(page).last() == page);
}

impl WikiLinkIndex {
    #[verifier::type_invariant]
    spec fn wf(self) -> bool {
        forall|key: Seq<char>| #[trigger]
            entry_target(self.page_map@, key) == target_of(self.pages@, key)
    }

    /// The index of no pages.
    pub fn new() -> (res: Self)
        ensures
            res@ == Seq::<Page>::empty(),
    {
        let page_map: StringHashMap<PageEntry> = StringHashMap::new();
        let ghost pages = Seq::<Page>::empty();
        proof {
            reveal(Seq::filter);
        }
        WikiLinkIndex { page_map, pages: Ghost(pages) }
    }

    /// The index with one page more.
    pub fn with_page(self, key: String, path: String) -> (res: Self)
        ensures
            res@ == self@.push(Page { key: key@, path: path@ }),
    {
        proof {
            use_type_invariant(&self);
        }
        let WikiLinkIndex { page_map, pages } = self;
        let mut page_map = page_map;
        let ghost page = Page { key: key@, path: path@ };
        let ghost before = page_map@;
        proof {
            assert(entry_target(before, key@) == target_of(pages@, key@));
        }
        let known = page_map.contains_key(key.as_str());
        if known {
            page_map.insert(key, PageEntry::Ambiguous);
        } else {
            page_map.insert(key, PageEntry::Unique(path));
        }
        proof {
            assert forall|k: Seq<char>| #[trigger]
                entry_target(page_map@, k) == target_of(pages@.push(page), k) by {
                lemma_pages_push(pages@, page, k);
                assert(entry_target(before, k) == target_of(pages@, k));
            }
        }
        WikiLinkIndex { page_map, pages: Ghost(pages@.push(page)) }
    }

    /// What a link with a key leads to.
    pub fn lookup(&self, key: &str) -> (res: LinkTarget)
        ensures
            res.deep_view() == target_of(self@, key@),
    {
        proof {
            use_type_invariant(self);
            assert(entry_target(self.page_map@, key@) == target_of(self.pages@, key@));
        }
        match self.page_map.get(key) {
            Some(PageEntry::Unique(path)) => LinkTarget::Resolved(path.clone()),
            Some(PageEntry::Ambiguous) => LinkTarget::Ambiguous,
            None => LinkTarget::Missing,
        }
    }

    /// What a link to a page leads to, whatever case the page is written in.
    pub fn resolve(&self, page: &str) -> (res: LinkTarget)
        ensures
            res.deep_view() == target_of(self@, lowercase(page@)),
    {
        let key = lowercase_text(page);
        self.lookup(key.as_str())
    }
}

/// The key of a file of a wiki: its name without the extension, in lower case.
pub open spec fn page_of(file: File) -> Option<Page> {
    match paths::file_name_of(file.absolute_path) {
        Some(name) => Some(Page { key: lowercase(paths::stem_of(name)), path: file.path }),
        None => None,
    }
}

/// The pages of files.
pub open spec fn pages_of(files: Seq<File>) -> Seq<Page>
    decreases files.len(),
{
    if files.len() == 0 {
        Seq::empty()
    } else {
        match page_of(files.last()) {
            Some(page) => pages_of(files.drop_last()).push(page),
            None => pages_of(files.drop_last()),
        }
    }
}

/// Why a wiki's pages could not be listed.
pub open spec fn missing_dir(dir: Seq<char>) -> Seq<char> {
    "wiki directory '"@ + dir + "' not found"@
}

/// The pages of a wiki, or why they could not be listed.
pub open spec fn wiki_pages(dir: Seq<char>, found: Option<Listing>) -> Result<
    Seq<Page>,
    Seq<char>,
> {
    match found {
        None => Err(missing_dir(dir)),
        Some(listing) => match tree::tree_pages(dir, Some(listing)) {
            Ok(files) => Ok(pages_of(files)),
            Err(e) => Err(e.says()),
        },
    }
}

fn index_files(files: Vec<WikiFile>) -> (res: WikiLinkIndex)
    ensures
        res@ == pages_of(files.deep_view()),
{
    let ghost all = files.deep_view();
    let n: usize = files.len();
    let mut index = WikiLinkIndex::new();
    let mut i: usize = 0;
    assert(all.take(0) =~= Seq::empty());
    while i < n
        invariant
            n == files@.len(),
            i <= n,
            all == files.deep_view(),
            index@ == pages_of(all.take(i as int)),
        decreases n - i,
    {
        proof {
            assert(all.take(i + 1).drop_last() =~= all.take(i as int));
            assert(all.take(i + 1).last() == files@[i as int].deep_view());
        }
        match paths::file_name(files[i].absolute_path.as_str()) {
            Some(name) => {
                let key = lowercase_text(paths::stem(name.as_str()).as_str());
                index = index.with_page(key, files[i].path.clone());
            },
            None => {},
        }
        i = i + 1;
    }
    assert(all.take(n as int) =~= all);
    index
}

/// What stands between the brackets of a link: a page, and the text to show for it.
pub struct WikiLink<S = String> {
    pub page: S,
    pub display: S,
}

impl DeepView for WikiLink<String> {
    type V = WikiLink<Seq<char>>;

    open spec fn deep_view(&self) -> WikiLink<Seq<char>> {
        WikiLink { page: self.page@, display: self.display@ }
    }
}

/// The link that a text stands for: up to the first `|` the page, behind it the text to show; a
/// link without `|` shows the page.
pub open spec fn link_of(inner: Seq<char>) -> WikiLink<Seq<char>> {
    match text::cut_at(inner, '|') {
        Some((page, display)) => WikiLink { page, display },
        None => WikiLink { page: inner, display: inner },
    }
}

impl WikiLink {
    /// The link that a text stands for.
    pub fn parse(inner: &str) -> (res: Self)
        ensures
            res.deep_view() == link_of(inner@),
    {
        match text::cut(inner, '|') {
            Some((page, display)) => WikiLink { page, display },
            None => WikiLink { page: inner.to_string(), display: inner.to_string() },
        }
    }
}

/// The Markdown link for a text between brackets: to the page if it is known, else to nowhere.
pub open spec fn markdown_link(pages: Seq<Page>, prefix: Seq<char>, inner: Seq<char>) -> Seq<char> {
    let link = link_of(inner);
    match target_of(pages, lowercase(link.page)) {
        LinkTarget::Resolved(path) => "["@ + link.display + "]("@ + prefix + "/"@ + path + ")"@,
        LinkTarget::Ambiguous | LinkTarget::Missing => "["@ + link.display + "]()"@,
    }
}

/// Where a link that starts at `i` ends, if one does: two opening brackets, at least one character
/// that is no closing bracket, and behind the last of those two closing ones.
pub open spec fn link_end(s: Seq<char>, i: int) -> Option<int> {
    if 0 <= i && i + 2 <= s.len() && s[i] == '[' && s[i + 1] == '[' {
        let j = i + 2 + text::first_of(s.skip(i + 2), ']');
        if j > i + 2 && j + 1 < s.len() && s[j + 1] == ']' {
            Some(j)
        } else {
            None
        }
    } else {
        None
    }
}

/// The text with every link replaced by what a function makes of what stands between its brackets;
/// links are taken from the left and do not overlap.
pub open spec fn with_links(s: Seq<char>, i: int, make: spec_fn(Seq<char>) -> Seq<char>) -> Seq<
    char,
>
    decreases s.len() - i,
{
    if i < 0 || i >= s.len() {
        Seq::empty()
    } else {
        match link_end(s, i) {
            Some(j) => if j + 2 > i {
                make(s.subrange(i + 2, j)) + with_links(s, j + 2, make)
            } else {
                Seq::empty()
            },
            None => seq![s[i]] + with_links(s, i + 1, make),
        }
    }
}

/// A text with its wiki links as Markdown links.
pub open spec fn rendered(pages: Seq<Page>, text: Seq<char>, prefix: Seq<char>) -> Seq<char> {
    with_links(text, 0, |inner: Seq<char>| markdown_link(pages, prefix, inner))
}

/// Renders wiki links in answers that an agent gave.
pub struct WikiLinkRenderer {
    index: WikiLinkIndex,
}

impl View for WikiLinkRenderer {
    type V = Seq<Page>;

    closed spec fn view(&self) -> Seq<Page> {
        self.index@
    }
}

/// `Regex::new` and `Regex::replace_all` of the crate `regex`, with the pattern of a wiki link: the
/// matches are found from the left and do not overlap, and each is replaced by what the renderer
/// makes of its group.
#[verifier::external_body]
fn replace_links(pattern: &str, text: &str, renderer: &WikiLinkRenderer, prefix: &str) -> (res:
    String)
    requires
        pattern@ == WIKILINK_PATTERN@,
    ensures
        res@ == rendered(renderer@, text@, prefix@),
{
    regex::Regex::new(pattern).unwrap().replace_all(
        text,
        |caps: &regex::Captures| renderer.render_link(&caps[1], prefix),
    ).into_owned()
}

impl WikiLinkRenderer {
    /// The renderer of the pages of an index.
    pub fn new(index: WikiLinkIndex) -> (res: Self)
        ensures
            res@ == index@,
    {
        WikiLinkRenderer { index }
    }

    /// The renderer of the pages of a wiki, or why they could not be listed.
    pub fn from_wiki_dir(wiki_dir: &str, found: &Option<Listing>) -> (res: Result<Self, String>)
        ensures
            match wiki_pages(wiki_dir@, *found) {
                Ok(pages) => res matches Ok(renderer) && renderer@ == pages,
                Err(reason) => res matches Err(e) && e@ == reason,
            },
    {
        match found {
            None => Err(
                "wiki directory '".to_string().concat(wiki_dir).concat("' not found"),
            ),
            Some(_) => match tree::walk_markdown_files(wiki_dir, found) {
                Ok(files) => Ok(WikiLinkRenderer { index: index_files(files) }),
                Err(e) => Err(e.message()),
            },
        }
    }

    /// The Markdown link for a text between brackets.
    pub fn render_link(&self, inner: &str, link_prefix: &str) -> (res: String)
        ensures
            res@ == markdown_link(self@, link_prefix@, inner@),
    {
        let link = WikiLink::parse(inner);
        match self.index.resolve(link.page.as_str()) {
            LinkTarget::Resolved(path) => "[".to_string().concat(link.display.as_str()).concat(
                "](",
            ).concat(link_prefix).concat("/").concat(path.as_str()).concat(")"),
            LinkTarget::Ambiguous | LinkTarget::Missing => "[".to_string().concat(
                link.display.as_str(),
            ).concat("]()"),
        }
    }

    /// A text with its wiki links as Markdown links.
    pub fn render_markdown_links(&self, text: &str, link_prefix: &str) -> (res: String)
        ensures
            res@ == rendered(self@, text@, link_prefix@),
    {
        replace_links(WIKILINK_PATTERN, text, self, link_prefix)
    }
}

/// A text with its wiki links as Markdown links, or as it is where the pages could not be listed.
pub open spec fn rewritten(
    text: Seq<char>,
    dir: Seq<char>,
    found: Option<Listing>,
    prefix: Seq<char>,
) -> Seq<char> {
    match wiki_pages(dir, found) {
        Ok(pages) => rendered(pages, text, prefix),
        Err(_) => text,
    }
}

/// A text with its wiki links as Markdown links, or as it is where the pages could not be listed.
pub fn rewrite_wikilinks(
    text: &str,
    wiki_dir: &str,
    found: &Option<Listing>,
    link_prefix: &str,
) -> (res: String)
    ensures
        res@ == rewritten(text@, wiki_dir@, *found, link_prefix@),
{
    match WikiLinkRenderer::from_wiki_dir(wiki_dir, found) {
        Ok(renderer) => renderer.render_markdown_links(text, link_prefix),
        Err(_) => text.to_string(),
    }
}

proof fn lemma_no_links(s: Seq<char>, i: int, make: spec_fn(Seq<char>) -> Seq<char>)
    requires
        0 <= i <= s.len(),
        forall|k: int| i <= k < s.len() ==> link_end(s, k) is None,
    ensures
        with_links(s, i, make) == s.skip(i),
    decreases s.len() - i,
{
    if i < s.len() {
        lemma_no_links(s, i + 1, make);
        assert(seq![s[i]] + s.skip(i + 1) =~= s.skip(i));
    } else {
        assert(s.skip(i) =~= Seq::empty());
    }
}

/// A text without links stays as it is.
pub proof fn text_without_links_is_kept(pages: Seq<Page>, text: Seq<char>, prefix: Seq<char>)
    requires
        forall|i: int| link_end(text, i) is None,
    ensures
        rendered(pages, text, prefix) == text,
{
    lemma_no_links(text, 0, |inner: Seq<char>| markdown_link(pages, prefix, inner));
    assert(text.skip(0) =~= text);
}

/// A link to a page whose key several pages have leads nowhere, whichever pages come first.
pub proof fn shared_keys_lead_nowhere(pages: Seq<Page>, i: int, j: int)
    requires
        0 <= i < j < pages.len(),
        pages[i].key == pages[j].key,
    ensures
        target_of(pages, pages[i].key) == LinkTarget::<Seq<char>>::Ambiguous,
    decreases pages.len(),
{
    let key = pages[i].key;
    let before = pages.drop_last();
    assert(before.push(pages.last()) =~= pages);
    lemma_pages_push(before, pages.last(), key);
    if j < before.len() {
        assert(before[i] == pages[i] && before[j] == pages[j]);
        shared_keys_lead_nowhere(before, i, j);
    } else {
        let f = |page: Page| page.key == key;
        views::lemma_filtered(before, f);
        assert(before[i] == pages[i]);
        assert(before.contains(before[i]));
        assert(pages_with(before, key).contains(before[i]));
        assert(pages[j] == pages.last());
    }
}

/// A link to a page whose key no other page has leads to that page.
pub proof fn single_key_leads_to_its_page(pages: Seq<Page>, i: int)
    requires
        0 <= i < pages.len(),
        forall|j: int| 0 <= j < pages.len() && j != i ==> #[trigger] pages[j].key != pages[i].key,
    ensures
        target_of(pages, pages[i].key) == LinkTarget::Resolved(pages[i].path),
    decreases pages.len(),
{
    let key = pages[i].key;
    let f = |page: Page| page.key == key;
    let before = pages.drop_last();
    assert(before.push(pages.last()) =~= pages);
    lemma_pages_push(before, pages.last(), key);
    if i < before.len() {
        assert forall|j: int| 0 <= j < before.len() && j != i implies #[trigger] before[j].key
            != before[i].key by {
            assert(before[j] == pages[j]);
        }
        single_key_leads_to_its_page(before, i);
        assert(pages[pages.len() - 1] == pages.last());
    } else {
        views::lemma_filtered(before, f);
        if pages_with(before, key).len() > 0 {
            let page = pages_with(before, key)[0];
            assert(pages_with(before, key).contains(page));
            let k = choose|k: int| 0 <= k < before.len() && before[k] == page;
            assert(pages[k].key == key);
        }
        assert(pages_with(before, key) =~= Seq::empty());
    }
}

/// A link to a page whose key no other page has leads to the file of that page, wherever in the
/// wiki it lies: the text to show stands in brackets, and behind it in parentheses the prefix, a
/// slash and the path of the file. Without a text of its own a link shows the page as it names it.
pub proof fn links_lead_to_their_pages(
    pages: Seq<Page>,
    i: int,
    prefix: Seq<char>,
    name: Seq<char>,
    shown: Seq<char>,
)
    requires
        0 <= i < pages.len(),
        forall|j: int| 0 <= j < pages.len() && j != i ==> #[trigger] pages[j].key != pages[i].key,
        lowercase(name) == pages[i].key,
        !name.contains('|'),
    ensures
        markdown_link(pages, prefix, name) == "["@ + name + "]("@ + prefix + "/"@ + pages[i].path
            + ")"@,
        markdown_link(pages, prefix, name + "|"@ + shown) == "["@ + shown + "]("@ + prefix + "/"@
            + pages[i].path + ")"@,
{
    single_key_leads_to_its_page(pages, i);
    lemma_links_read(name, shown);
}

/// A link to a page that the wiki lacks, or that several of its files could be, shows its text and
/// leads nowhere.
pub proof fn other_links_lead_nowhere(
    pages: Seq<Page>,
    prefix: Seq<char>,
    name: Seq<char>,
    shown: Seq<char>,
)
    requires
        !name.contains('|'),
        (forall|j: int| 0 <= j < pages.len() ==> #[trigger] pages[j].key != lowercase(name))
            || exists|i: int, j: int|
            0 <= i < j < pages.len() && #[trigger] pages[i].key == lowercase(name)
                && #[trigger] pages[j].key == lowercase(name),
    ensures
        markdown_link(pages, prefix, name) == "["@ + name + "]()"@,
        markdown_link(pages, prefix, name + "|"@ + shown) == "["@ + shown + "]()"@,
{
    let key = lowercase(name);
    lemma_links_read(name, shown);
    if exists|i: int, j: int|
        0 <= i < j < pages.len() && #[trigger] pages[i].key == key && #[trigger] pages[j].key
            == key {
        let (i, j) = choose|i: int, j: int|
            0 <= i < j < pages.len() && #[trigger] pages[i].key == key && #[trigger] pages[j].key
                == key;
        shared_keys_lead_nowhere(pages, i, j);
    } else {
        let f = |page: Page| page.key == key;
        views::lemma_filtered(pages, f);
        if pages_with(pages, key).len() > 0 {
            let page = pages_with(pages, key)[0];
            assert(pages_with(pages, key).contains(page));
            let k = choose|k: int| 0 <= k < pages.len() && pages[k] == page;
            assert(pages[k].key == key);
        }
    }
}

proof fn lemma_links_read(name: Seq<char>, shown: Seq<char>)
    requires
        !name.contains('|'),
    ensures
        link_of(name) == (WikiLink { page: name, display: name }),
        link_of(name + "|"@ + shown) == (WikiLink { page: name, display: shown }),
{
    reveal_strlit("|");
    assert("|"@ =~= seq!['|']);
    text::texts_are_cut_at_the_first(name, '|', shown);
}

proof fn lemma_links_behind(s: Seq<char>, k: int, i: int, make: spec_fn(Seq<char>) -> Seq<char>)
    requires
        0 <= k <= i,
        k <= s.len(),
    ensures
        with_links(s, i, make) == with_links(s.skip(k), i - k, make),
    decreases s.len() - i,
{
    let t = s.skip(k);
    if i < s.len() {
        if i + 2 <= s.len() {
            assert(t.skip(i - k + 2) =~= s.skip(i + 2));
        }
        match link_end(s, i) {
            Some(j) => {
                assert(link_end(t, i - k) == Some(j - k));
                assert(t.subrange(i - k + 2, j - k) =~= s.subrange(i + 2, j));
                lemma_links_behind(s, k, j + 2, make);
            },
            None => {
                assert(link_end(t, i - k) is None);
                lemma_links_behind(s, k, i + 1, make);
            },
        }
    }
}

proof fn lemma_links_after(
    before: Seq<char>,
    rest: Seq<char>,
    i: int,
    make: spec_fn(Seq<char>) -> Seq<char>,
)
    requires
        0 <= i <= before.len(),
        !before.contains('['),
    ensures
        with_links(before + rest, i, make) == before.skip(i) + with_links(rest, 0, make),
    decreases before.len() - i,
{
    let s = before + rest;
    if i < before.len() {
        assert(s[i] == before[i]);
        assert(before.contains(before[i]));
        lemma_links_after(before, rest, i + 1, make);
        assert(before.skip(i) =~= seq![before[i]] + before.skip(i + 1));
        assert(with_links(s, i, make) =~= before.skip(i) + with_links(rest, 0, make));
    } else {
        lemma_links_behind(s, i, i, make);
        assert(s.skip(i) =~= rest);
        assert(before.skip(i) =~= Seq::empty());
        assert(Seq::<char>::empty() + with_links(rest, 0, make) =~= with_links(rest, 0, make));
    }
}

/// Links are replaced where they stand: what stands before a link stays as it is, the brackets and
/// what is between them become the Markdown link, and what follows is rendered in the same way.
pub proof fn links_are_replaced_in_place(
    pages: Seq<Page>,
    before: Seq<char>,
    inner: Seq<char>,
    rest: Seq<char>,
    prefix: Seq<char>,
)
    requires
        !before.contains('['),
        inner.len() > 0,
        !inner.contains(']'),
    ensures
        rendered(pages, before + "[["@ + inner + "]]"@ + rest, prefix) == before + markdown_link(
            pages,
            prefix,
            inner,
        ) + rendered(pages, rest, prefix),
{
    let make = |inner: Seq<char>| markdown_link(pages, prefix, inner);
    reveal_strlit("[[");
    reveal_strlit("]]");
    let s = "[["@ + inner + "]]"@ + rest;
    assert("[["@ =~= seq!['[', '[']);
    assert("]]"@ =~= seq![']', ']']);
    assert(before + "[["@ + inner + "]]"@ + rest =~= before + s);
    lemma_links_after(before, s, 0, make);
    assert(before.skip(0) =~= before);
    let j = 2 + inner.len() as int;
    assert(s.skip(2) =~= inner + seq![']'] + (seq![']'] + rest));
    text::lemma_first_of(s.skip(2), ']', inner.len() as int);
    assert(link_end(s, 0) == Some(j));
    assert(s.subrange(2, j) =~= inner);
    lemma_links_behind(s, j + 2, j + 2, make);
    assert(s.skip(j + 2) =~= rest);
    assert(before + (make(inner) + with_links(rest, 0, make)) =~= before + make(inner) + with_links(
        rest,
        0,
        make,
    ));
}

/// A text in which nowhere two brackets open, or nowhere two close, stays as it is.
pub proof fn unbracketed_text_is_kept(pages: Seq<Page>, text: Seq<char>, prefix: Seq<char>)
    requires
        (forall|i: int| 0 <= i && i + 1 < text.len() && text[i] == '[' ==> #[trigger] text[i + 1] != '[') || (
        forall|i: int| 0 <= i && i + 1 < text.len() && text[i] == ']' ==> #[trigger] text[i + 1] != ']'),
    ensures
        rendered(pages, text, prefix) == text,
{
    assert forall|i: int| link_end(text, i) is None by {
        if link_end(text, i) is Some {
            let from = text.skip(i + 2);
            let j = i + 2 + text::first_of(from, ']');
            text::lemma_first_is(from, ']');
            assert(from[j - i - 2] == text[j]);
        }
    }
    text_without_links_is_kept(pages, text, prefix);
}

/// Brackets with nothing between them are no link.
pub proof fn empty_brackets_are_kept(
    pages: Seq<Page>,
    before: Seq<char>,
    rest: Seq<char>,
    prefix: Seq<char>,
)
    requires
        !before.contains('['),
    ensures
        rendered(pages, before + "[[]]"@ + rest, prefix) == before + "[[]]"@ + rendered(
            pages,
            rest,
            prefix,
        ),
{
    let make = |inner: Seq<char>| markdown_link(pages, prefix, inner);
    reveal_strlit("[[]]");
    let s = "[[]]"@ + rest;
    assert("[[]]"@ =~= seq!['[', '[', ']', ']']);
    assert(before + "[[]]"@ + rest =~= before + s);
    lemma_links_after(before, s, 0, make);
    assert(before.skip(0) =~= before);
    assert(s.skip(2)[0] == ']');
    text::lemma_first_of(s.skip(2), ']', 0);
    assert(link_end(s, 0) is None);
    assert(link_end(s, 1) is None);
    assert(link_end(s, 2) is None);
    assert(link_end(s, 3) is None);
    lemma_links_behind(s, 4, 4, make);
    assert(s.skip(4) =~= rest);
    let last = with_links(s, 4, make);
    assert(with_links(s, 3, make) == seq![s[3]] + last);
    assert(with_links(s, 2, make) == seq![s[2]] + with_links(s, 3, make));
    assert(with_links(s, 1, make) == seq![s[1]] + with_links(s, 2, make));
    assert(with_links(s, 0, make) == seq![s[0]] + with_links(s, 1, make));
    assert(with_links(s, 0, make) =~= "[[]]"@ + last);
    assert(before + ("[[]]"@ + last) =~= before + "[[]]"@ + last);
}

/// Every file of a wiki is a page, known by the name of the file up to its extension, in lower
/// case. The page is the file's path in the wiki.
pub proof fn files_are_pages(
    files: Seq<File>,
    dir: Seq<char>,
    stem: Seq<char>,
    path: Seq<char>,
)
    requires
        stem.len() > 0,
        !stem.contains('/'),
    ensures
        pages_of(files.push(File { path, absolute_path: dir + "/"@ + stem + ".md"@ })) == pages_of(
            files,
        ).push(Page { key: lowercase(stem), path }),
        pages_of(Seq::empty()) == Seq::<Page>::empty(),
{
    let file = File { path, absolute_path: dir + "/"@ + stem + ".md"@ };
    reveal_strlit(".md");
    reveal_strlit(".");
    reveal_strlit("md");
    assert("md"@ =~= seq!['m', 'd']);
    paths::files_have_their_names(dir, stem, "md"@);
    assert(".md"@ =~= "."@ + "md"@);
    assert(file.absolute_path =~= dir + "/"@ + (stem + "."@ + "md"@));
    assert(files.push(file).drop_last() =~= files);
}

/// An answer whose wiki cannot be listed stays as it is; otherwise its links lead to the pages that
/// the listing found.
pub proof fn answers_link_to_what_was_found(
    text: Seq<char>,
    dir: Seq<char>,
    found: Option<Listing>,
    prefix: Seq<char>,
)
    ensures
        found is None || tree::tree_pages(dir, found) is Err ==> rewritten(text, dir, found, prefix)
            == text,
        found is Some && tree::tree_pages(dir, found) is Ok ==> rewritten(text, dir, found, prefix)
            == rendered(pages_of(tree::tree_pages(dir, found)->Ok_0), text, prefix),
{
}

/// Why a wiki whose directory is missing has no pages.
pub proof fn missing_wikis_are_told(dir: Seq<char>)
    ensures
        wiki_pages(dir, None) == Err::<Seq<Page>, _>("wiki directory '"@ + dir + "' not found"@),
{
}

} // verus!
