//! Text operations on Unicode strings, stated over sequences of characters.

use vstd::prelude::*;

verus! {

/// The standard library's `String::push`: the character is appended at the end.
pub assume_specification[ String::push ](s: &mut String, c: char)
    ensures
        final(s)@ == old(s)@.push(c),
;

/// What `{:?}` shows of a string: the string in double quotes, with escapes.
pub uninterp spec fn quoted(s: Seq<char>) -> Seq<char>;

/// The standard library's `Debug` form of a string, named [`quoted`].
#[verifier::external_body]
pub(crate) fn quoted_text(s: &str) -> (res: String)
    ensures
        res@ == quoted(s@),
{
    format!("{s:?}")
}

/// What the bytes say as UTF-8, with U+FFFD in place of what is no UTF-8.
pub uninterp spec fn lossy(bytes: Seq<u8>) -> Seq<char>;

/// The standard library's `String::from_utf8_lossy`, named [`lossy`]. Valid UTF-8 is decoded as it
/// stands; how many replacement characters stand for a run of other bytes is left unsaid.
#[verifier::external_body]
pub(crate) fn lossy_text(bytes: &Vec<u8>) -> (res: String)
    ensures
        res@ == lossy(bytes@),
        vstd::utf8::valid_utf8(bytes@) ==> res@ == vstd::utf8::decode_utf8(bytes@),
{
    String::from_utf8_lossy(bytes).into_owned()
}

/// A character with the Unicode property `White_Space`.
pub open spec fn is_white(c: char) -> bool {
    ||| 0x9 <= c as u32 <= 0xd
    ||| c as u32 == 0x20
    ||| c as u32 == 0x85
    ||| c as u32 == 0xa0
    ||| c as u32 == 0x1680
    ||| 0x2000 <= c as u32 <= 0x200a
    ||| c as u32 == 0x2028
    ||| c as u32 == 0x2029
    ||| c as u32 == 0x202f
    ||| c as u32 == 0x205f
    ||| c as u32 == 0x3000
}

/// `s` without its leading white space.
pub open spec fn trim_start(s: Seq<char>) -> Seq<char>
    decreases s.len(),
{
    if s.len() > 0 && is_white(s[0]) {
        trim_start(s.drop_first())
    } else {
        s
    }
}

/// `s` without its trailing white space.
pub open spec fn trim_end(s: Seq<char>) -> Seq<char>
    decreases s.len(),
{
    if s.len() > 0 && is_white(s.last()) {
        trim_end(s.drop_last())
    } else {
        s
    }
}

/// `s` without white space on either side.
pub open spec fn trim(s: Seq<char>) -> Seq<char> {
    trim_end(trim_start(s))
}

/// Whether `s` holds nothing but white space.
pub open spec fn is_blank(s: Seq<char>) -> bool {
    forall|i: int| 0 <= i < s.len() ==> is_white(#[trigger] s[i])
}

/// The pieces of `s` between the characters that satisfy `sep`, empty pieces included.
pub open spec fn split_where(s: Seq<char>, sep: spec_fn(char) -> bool) -> Seq<Seq<char>>
    decreases s.len(),
{
    if s.len() == 0 {
        seq![Seq::<char>::empty()]
    } else {
        let pieces = split_where(s.drop_last(), sep);
        if sep(s.last()) {
            pieces.push(Seq::<char>::empty())
        } else {
            pieces.drop_last().push(pieces.last().push(s.last()))
        }
    }
}

/// The predicate of being the character `c`.
pub open spec fn is_char(c: char) -> spec_fn(char) -> bool {
    |x: char| x == c
}

/// The pieces of `s` between the occurrences of `sep`, empty pieces included.
pub open spec fn split(s: Seq<char>, sep: char) -> Seq<Seq<char>> {
    split_where(s, is_char(sep))
}

/// The pieces that hold at least one character, in order.
pub open spec fn nonempty(pieces: Seq<Seq<char>>) -> Seq<Seq<char>> {
    pieces.filter(|p: Seq<char>| p.len() > 0)
}

/// The maximal runs of characters that are not white space, in order.
pub open spec fn words(s: Seq<char>) -> Seq<Seq<char>> {
    nonempty(split_where(s, |c: char| is_white(c)))
}

/// `s` without one carriage return at its end.
pub open spec fn strip_cr(s: Seq<char>) -> Seq<char> {
    if s.len() > 0 && s.last() == '\r' {
        s.drop_last()
    } else {
        s
    }
}

/// The lines of `s`. A line ends in a line feed, or in a carriage return and a line feed; the
/// ending is no part of the line, and the last line may do without one.
pub open spec fn lines(s: Seq<char>) -> Seq<Seq<char>> {
    let pieces = split(s, '\n');
    let ended = pieces.drop_last().map_values(|p: Seq<char>| strip_cr(p));
    if pieces.last().len() == 0 {
        ended
    } else {
        ended.push(pieces.last())
    }
}

/// The parts one after another, with `sep` between neighbours.
pub open spec fn join(parts: Seq<Seq<char>>, sep: Seq<char>) -> Seq<char>
    decreases parts.len(),
{
    if parts.len() == 0 {
        Seq::empty()
    } else if parts.len() == 1 {
        parts[0]
    } else {
        join(parts.drop_last(), sep) + sep + parts.last()
    }
}

/// `s` with all white space between words made a single blank and none at the ends.
pub open spec fn compact(s: Seq<char>) -> Seq<char> {
    join(words(s), seq![' '])
}

/// Whether `pat` occurs in `s` at position `i`.
pub open spec fn occurs_at(s: Seq<char>, pat: Seq<char>, i: int) -> bool {
    0 <= i && i + pat.len() <= s.len() && s.subrange(i, i + pat.len()) == pat
}

/// Whether `pat` occurs somewhere in `s`.
pub open spec fn contains(s: Seq<char>, pat: Seq<char>) -> bool {
    exists|i: int| occurs_at(s, pat, i)
}

/// `s` with every occurrence of `pat` replaced, from left to right and without overlap.
pub open spec fn replace(s: Seq<char>, pat: Seq<char>, with: Seq<char>) -> Seq<char>
    decreases s.len(),
{
    if pat.len() == 0 || s.len() < pat.len() {
        s
    } else if occurs_at(s, pat, 0) {
        with + replace(s.skip(pat.len() as int), pat, with)
    } else {
        seq![s[0]] + replace(s.drop_first(), pat, with)
    }
}

/// `s` without the copies of `c` at its end.
pub open spec fn trim_end_char(s: Seq<char>, c: char) -> Seq<char>
    decreases s.len(),
{
    if s.len() > 0 && s.last() == c {
        trim_end_char(s.drop_last(), c)
    } else {
        s
    }
}

/// The character of the decimal digit `d`.
pub open spec fn digit(d: int) -> char {
    (0x30 + d) as char
}

/// `n` in decimal notation.
pub open spec fn decimal(n: nat) -> Seq<char>
    decreases n,
{
    if n < 10 {
        seq![digit(n as int)]
    } else {
        decimal(n / 10).push(digit((n % 10) as int))
    }
}

/// `n` in decimal notation, with a minus sign where it is negative.
pub open spec fn decimal_int(n: int) -> Seq<char> {
    if n < 0 {
        seq!['-'] + decimal((-n) as nat)
    } else {
        decimal(n as nat)
    }
}

/// The characters of a string.
pub fn chars(s: &str) -> (res: Vec<char>)
    ensures
        res@ == s@,
{
    let mut out: Vec<char> = Vec::new();
    for c in it: s.chars()
        invariant
            out@ == it.seq().take(it.index() as int),
            it.seq() == s@,
    {
        out.push(c);
    }
    out
}

/// The string of a run of characters.
pub fn text_of(run: &[char]) -> (res: String)
    ensures
        res@ == run@,
{
    let mut out = String::new();
    let n: usize = run.len();
    let mut i: usize = 0;
    while i < n
        invariant
            n == run@.len(),
            i <= n,
            out@ == run@.take(i as int),
        decreases n - i,
    {
        out.push(run[i]);
        i = i + 1;
    }
    assert(run@.take(n as int) == run@);
    out
}

/// Whether two strings are equal.
pub fn same(a: &str, b: &str) -> (res: bool)
    ensures
        res == (a@ == b@),
{
    a.to_string() == b.to_string()
}

/// Whether a character has the Unicode property `White_Space`.
pub fn is_white_space(c: char) -> (res: bool)
    ensures
        res == is_white(c),
{
    let u: u32 = c as u32;
    (0x9 <= u && u <= 0xd) || u == 0x20 || u == 0x85 || u == 0xa0 || u == 0x1680 || (0x2000 <= u
        && u <= 0x200a) || u == 0x2028 || u == 0x2029 || u == 0x202f || u == 0x205f || u == 0x3000
}

proof fn lemma_trim_start_skip(s: Seq<char>, i: int)
    requires
        0 <= i <= s.len(),
        forall|k: int| 0 <= k < i ==> is_white(#[trigger] s[k]),
    ensures
        trim_start(s) == trim_start(s.skip(i)),
    decreases i,
{
    if i > 0 {
        assert forall|k: int| 0 <= k < i - 1 implies is_white(#[trigger] s.drop_first()[k]) by {
            assert(s.drop_first()[k] == s[k + 1]);
        }
        assert(is_white(s[0]));
        lemma_trim_start_skip(s.drop_first(), i - 1);
        assert(s.drop_first().skip(i - 1) =~= s.skip(i));
    } else {
        assert(s.skip(0) =~= s);
    }
}

proof fn lemma_trim_end_take(s: Seq<char>, j: int)
    requires
        0 <= j <= s.len(),
        forall|k: int| j <= k < s.len() ==> is_white(#[trigger] s[k]),
    ensures
        trim_end(s) == trim_end(s.take(j)),
    decreases s.len() - j,
{
    if j < s.len() {
        assert(is_white(s[s.len() - 1]));
        assert forall|k: int| j <= k < s.drop_last().len() implies is_white(
            #[trigger] s.drop_last()[k],
        ) by {
            assert(s.drop_last()[k] == s[k]);
        }
        lemma_trim_end_take(s.drop_last(), j);
        assert(s.drop_last().take(j) =~= s.take(j));
    } else {
        assert(s.take(j) =~= s);
    }
}

/// The trimmed text is empty exactly where the text is blank.
pub proof fn lemma_trim_blank(s: Seq<char>)
    ensures
        trim(s).len() == 0 <==> is_blank(s),
    decreases s.len(),
{
    if is_blank(s) {
        lemma_trim_start_skip(s, s.len() as int);
        assert(s.skip(s.len() as int) =~= Seq::<char>::empty());
    } else {
        let i = choose|i: int| 0 <= i < s.len() && !is_white(#[trigger] s[i]);
        lemma_trim_start_keeps(s, i);
    }
}

proof fn lemma_trim_start_keeps(s: Seq<char>, i: int)
    requires
        0 <= i < s.len(),
        !is_white(s[i]),
    ensures
        trim(s).len() > 0,
    decreases s.len(),
{
    if is_white(s[0]) {
        assert(s.drop_first()[i - 1] == s[i]);
        lemma_trim_start_keeps(s.drop_first(), i - 1);
    } else {
        lemma_trim_end_keeps(s, i);
    }
}

proof fn lemma_trim_end_keeps(s: Seq<char>, i: int)
    requires
        0 <= i < s.len(),
        !is_white(s[i]),
    ensures
        trim_end(s).len() > 0,
    decreases s.len(),
{
    if is_white(s.last()) {
        assert(s.drop_last()[i] == s[i]);
        lemma_trim_end_keeps(s.drop_last(), i);
    }
}

/// Trimming a trimmed text changes nothing.
pub proof fn lemma_trim_idempotent(s: Seq<char>)
    ensures
        trim(trim(s)) == trim(s),
{
    let a = trim_start(s);
    lemma_trim_start_head(s);
    lemma_trim_end_last(a);
    if trim(s).len() > 0 {
        lemma_trim_end_prefix(a);
        assert(trim(s)[0] == a[0]);
    }
}

proof fn lemma_trim_start_head(s: Seq<char>)
    ensures
        trim_start(s).len() > 0 ==> !is_white(trim_start(s)[0]),
    decreases s.len(),
{
    if s.len() > 0 && is_white(s[0]) {
        lemma_trim_start_head(s.drop_first());
    }
}

proof fn lemma_trim_end_last(s: Seq<char>)
    ensures
        trim_end(s).len() > 0 ==> !is_white(trim_end(s).last()),
    decreases s.len(),
{
    if s.len() > 0 && is_white(s.last()) {
        lemma_trim_end_last(s.drop_last());
    }
}

proof fn lemma_trim_end_prefix(s: Seq<char>)
    ensures
        trim_end(s).len() <= s.len(),
        trim_end(s) == s.take(trim_end(s).len() as int),
    decreases s.len(),
{
    if s.len() > 0 && is_white(s.last()) {
        lemma_trim_end_prefix(s.drop_last());
        assert(s.drop_last().take(trim_end(s).len() as int) =~= s.take(trim_end(s).len() as int));
    } else {
        assert(s.take(s.len() as int) =~= s);
    }
}

proof fn lemma_trim_start_suffix(s: Seq<char>)
    ensures
        trim_start(s).len() <= s.len(),
        trim_start(s) == s.skip(s.len() - trim_start(s).len()),
    decreases s.len(),
{
    if s.len() > 0 && is_white(s[0]) {
        lemma_trim_start_suffix(s.drop_first());
        let n = trim_start(s).len();
        assert(s.drop_first().skip(s.len() - 1 - n) =~= s.skip(s.len() - n));
    } else {
        assert(s.skip(0) =~= s);
    }
}

/// A trimmed text holds no character that the text does not hold, and no white space at its ends.
pub proof fn lemma_trim_ends(s: Seq<char>)
    ensures
        forall|c: char| trim(s).contains(c) ==> s.contains(c),
        trim(s).len() > 0 ==> !is_white(trim(s)[0]) && !is_white(trim(s).last()),
{
    let a = trim_start(s);
    lemma_trim_start_suffix(s);
    lemma_trim_start_head(s);
    lemma_trim_end_prefix(a);
    lemma_trim_end_last(a);
    assert forall|c: char| trim(s).contains(c) implies s.contains(c) by {
        let k = choose|k: int| 0 <= k < trim(s).len() && trim(s)[k] == c;
        assert(s[s.len() - a.len() + k] == c);
    }
}

/// The text without white space on either side.
pub fn trimmed(s: &str) -> (res: String)
    ensures
        res@ == trim(s@),
{
    let cs = chars(s);
    let n: usize = cs.len();
    let mut i: usize = 0;
    while i < n && is_white_space(cs[i])
        invariant
            n == cs@.len(),
            i <= n,
            forall|k: int| 0 <= k < i ==> is_white(#[trigger] cs@[k]),
        decreases n - i,
    {
        i = i + 1;
    }
    let mut j: usize = n;
    while i < j && is_white_space(cs[j - 1])
        invariant
            n == cs@.len(),
            i <= j <= n,
            forall|k: int| j <= k < n ==> is_white(#[trigger] cs@[k]),
        decreases j,
    {
        j = j - 1;
    }
    proof {
        lemma_trim_start_skip(cs@, i as int);
        let a = cs@.skip(i as int);
        assert(trim_start(a) == a);
        assert forall|k: int| j - i <= k < a.len() implies is_white(#[trigger] a[k]) by {
            assert(a[k] == cs@[k + i]);
        }
        lemma_trim_end_take(a, j - i);
        let b = a.take(j - i);
        assert(b =~= cs@.subrange(i as int, j as int));
        if b.len() > 0 {
            assert(b.last() == cs@[j - 1]);
        }
        assert(trim_end(b) == b);
    }
    text_of(vstd::slice::slice_subrange(cs.as_slice(), i, j))
}

/// Whether the text holds nothing but white space.
pub fn blank(s: &str) -> (res: bool)
    ensures
        res == is_blank(s@),
        res == (trim(s@).len() == 0),
{
    let cs = chars(s);
    let n: usize = cs.len();
    let mut i: usize = 0;
    proof {
        lemma_trim_blank(s@);
    }
    while i < n
        invariant
            n == cs@.len(),
            cs@ == s@,
            i <= n,
            forall|k: int| 0 <= k < i ==> is_white(#[trigger] cs@[k]),
            trim(s@).len() == 0 <==> is_blank(s@),
        decreases n - i,
    {
        if !is_white_space(cs[i]) {
            assert(!is_white(s@[i as int]));
            return false;
        }
        i = i + 1;
    }
    true
}

/// A text without the separator is its only piece.
pub proof fn lemma_split_without(s: Seq<char>, sep: char)
    requires
        !s.contains(sep),
    ensures
        split(s, sep) == seq![s],
    decreases s.len(),
{
    if s.len() > 0 {
        assert(!s.drop_last().contains(sep)) by {
            assert forall|i: int| 0 <= i < s.drop_last().len() implies s.drop_last()[i] != sep by {
                assert(s.drop_last()[i] == s[i]);
            }
        }
        lemma_split_without(s.drop_last(), sep);
        assert(s.last() == s[s.len() - 1]);
        assert(s.drop_last().push(s.last()) =~= s);
        assert(split(s, sep) =~= seq![s]);
    } else {
        assert(s =~= Seq::<char>::empty());
    }
}

/// Splitting yields at least one piece.
pub proof fn lemma_split_where_len(s: Seq<char>, sep: spec_fn(char) -> bool)
    ensures
        split_where(s, sep).len() >= 1,
    decreases s.len(),
{
    if s.len() > 0 {
        lemma_split_where_len(s.drop_last(), sep);
    }
}

/// The pieces of a text between the occurrences of a character.
pub fn pieces(s: &str, sep: char) -> (res: Vec<String>)
    ensures
        res.deep_view() == split(s@, sep),
        res@.len() >= 1,
{
    let cs = chars(s);
    let n: usize = cs.len();
    let mut i: usize = 0;
    let mut done: Vec<String> = Vec::new();
    let mut cur = String::new();
    proof {
        assert(cs@.take(0) =~= Seq::<char>::empty());
        assert(done.deep_view().push(cur@) =~= split(cs@.take(0), sep));
    }
    while i < n
        invariant
            n == cs@.len(),
            cs@ == s@,
            i <= n,
            done.deep_view().push(cur@) == split(cs@.take(i as int), sep),
        decreases n - i,
    {
        let ghost before = cs@.take(i as int);
        let ghost after = cs@.take(i + 1);
        assert(after.drop_last() =~= before);
        assert(after.last() == cs@[i as int]);
        let ghost old_done = done;
        if cs[i] == sep {
            done.push(cur);
            assert(done.deep_view() =~= old_done.deep_view().push(cur@));
            cur = String::new();
        } else {
            cur.push(cs[i]);
        }
        assert(done.deep_view().push(cur@) =~= split(after, sep));
        i = i + 1;
    }
    assert(cs@.take(n as int) =~= s@);
    let ghost old_done = done;
    done.push(cur);
    assert(done.deep_view() =~= old_done.deep_view().push(cur@));
    done
}

proof fn lemma_nonempty_push(pieces: Seq<Seq<char>>, p: Seq<char>)
    ensures
        nonempty(pieces.push(p)) == (if p.len() > 0 {
            nonempty(pieces).push(p)
        } else {
            nonempty(pieces)
        }),
{
    reveal(Seq::filter);
    assert(pieces.push(p).drop_last() =~= pieces);
}

/// The maximal runs of characters that are not white space.
pub fn word_list(s: &str) -> (res: Vec<String>)
    ensures
        res.deep_view() == words(s@),
{
    let cs = chars(s);
    let n: usize = cs.len();
    let mut i: usize = 0;
    let mut done: Vec<String> = Vec::new();
    let mut cur = String::new();
    let ghost white = |c: char| is_white(c);
    let ghost mut all: Seq<Seq<char>> = Seq::empty();
    proof {
        assert(cs@.take(0) =~= Seq::<char>::empty());
        assert(all.push(cur@) =~= split_where(cs@.take(0), white));
        reveal(Seq::filter);
        assert(done.deep_view() =~= nonempty(all));
    }
    while i < n
        invariant
            n == cs@.len(),
            cs@ == s@,
            i <= n,
            white == (|c: char| is_white(c)),
            all.push(cur@) == split_where(cs@.take(i as int), white),
            done.deep_view() == nonempty(all),
        decreases n - i,
    {
        let ghost before = cs@.take(i as int);
        let ghost after = cs@.take(i + 1);
        assert(after.drop_last() =~= before);
        assert(after.last() == cs@[i as int]);
        let ghost old_done = done;
        if is_white_space(cs[i]) {
            proof {
                lemma_nonempty_push(all, cur@);
                all = all.push(cur@);
            }
            if !cur.as_str().is_empty() {
                done.push(cur);
                assert(done.deep_view() =~= old_done.deep_view().push(cur@));
                cur = String::new();
            } else {
                assert(cur@ =~= Seq::<char>::empty());
            }
        } else {
            cur.push(cs[i]);
        }
        assert(all.push(cur@) =~= split_where(after, white));
        i = i + 1;
    }
    assert(cs@.take(n as int) =~= s@);
    proof {
        lemma_nonempty_push(all, cur@);
    }
    let ghost old_done = done;
    if !cur.as_str().is_empty() {
        done.push(cur);
        assert(done.deep_view() =~= old_done.deep_view().push(cur@));
    }
    done
}

/// The text without one carriage return at its end.
fn without_cr(s: &str) -> (res: String)
    ensures
        res@ == strip_cr(s@),
{
    let cs = chars(s);
    let n: usize = cs.len();
    if n > 0 && cs[n - 1] == '\r' {
        assert(cs@.subrange(0, n - 1) =~= s@.drop_last());
        text_of(vstd::slice::slice_subrange(cs.as_slice(), 0, n - 1))
    } else {
        text_of(cs.as_slice())
    }
}

/// The lines of a text, without their endings.
pub fn line_list(s: &str) -> (res: Vec<String>)
    ensures
        res.deep_view() == lines(s@),
{
    let ps = pieces(s, '\n');
    let n: usize = ps.len();
    let ghost all = split(s@, '\n');
    let mut out: Vec<String> = Vec::new();
    let mut i: usize = 0;
    while i + 1 < n
        invariant
            n == ps@.len(),
            n >= 1,
            i < n,
            ps.deep_view() == all,
            out@.len() == i,
            out.deep_view() =~= all.take(i as int).map_values(|p: Seq<char>| strip_cr(p)),
        decreases n - i,
    {
        assert(ps.deep_view()[i as int] == ps@[i as int]@);
        let ghost old_out = out;
        out.push(without_cr(ps[i].as_str()));
        assert(out.deep_view() =~= old_out.deep_view().push(strip_cr(all[i as int])));
        i = i + 1;
    }
    assert(all.take(n - 1) =~= all.drop_last());
    assert(ps.deep_view()[n - 1] == ps@[n - 1]@);
    if !ps[n - 1].as_str().is_empty() {
        let ghost old_out = out;
        out.push(ps[n - 1].clone());
        assert(out.deep_view() =~= old_out.deep_view().push(all.last()));
    }
    out
}

/// The parts one after another, with a separator between neighbours.
pub fn joined(parts: &Vec<String>, sep: &str) -> (res: String)
    ensures
        res@ == join(parts.deep_view(), sep@),
{
    let mut out = String::new();
    let n: usize = parts.len();
    let mut i: usize = 0;
    while i < n
        invariant
            n == parts@.len(),
            i <= n,
            out@ == join(parts.deep_view().take(i as int), sep@),
        decreases n - i,
    {
        let ghost before = parts.deep_view().take(i as int);
        let ghost after = parts.deep_view().take(i + 1);
        assert(after.drop_last() =~= before);
        assert(after.last() == parts@[i as int]@);
        if i > 0 {
            out.append(sep);
            out.append(parts[i].as_str());
        } else {
            out.append(parts[i].as_str());
            assert(out@ =~= parts@[0]@);
        }
        i = i + 1;
    }
    assert(parts.deep_view().take(n as int) =~= parts.deep_view());
    out
}

/// The text with all white space between words made a single blank and none at the ends.
pub fn compacted(s: &str) -> (res: String)
    ensures
        res@ == compact(s@),
{
    proof {
        reveal_strlit(" ");
        assert(" "@ =~= seq![' ']);
    }
    joined(&word_list(s), " ")
}

fn occurs(s: &Vec<char>, pat: &Vec<char>, i: usize) -> (res: bool)
    ensures
        res == occurs_at(s@, pat@, i as int),
{
    let n: usize = s.len();
    let m: usize = pat.len();
    if i > n || n - i < m {
        return false;
    }
    let mut k: usize = 0;
    while k < m
        invariant
            n == s@.len(),
            m == pat@.len(),
            i + m <= n,
            k <= m,
            forall|j: int| 0 <= j < k ==> s@[i + j] == pat@[j],
        decreases m - k,
    {
        if s[i + k] != pat[k] {
            assert(s@.subrange(i as int, i + m)[k as int] != pat@[k as int]);
            return false;
        }
        k = k + 1;
    }
    assert(s@.subrange(i as int, i + m) =~= pat@);
    true
}

/// Whether one text occurs in another.
pub fn has(s: &str, pat: &str) -> (res: bool)
    ensures
        res == contains(s@, pat@),
{
    let cs = chars(s);
    let ps = chars(pat);
    let n: usize = cs.len();
    let mut i: usize = 0;
    loop
        invariant
            n == cs@.len(),
            cs@ == s@,
            ps@ == pat@,
            i <= n,
            forall|k: int| 0 <= k < i ==> !occurs_at(s@, pat@, k),
        decreases n - i,
    {
        if occurs(&cs, &ps, i) {
            return true;
        }
        if i == n {
            return false;
        }
        i = i + 1;
    }
}

/// Whether a character occurs in a text.
pub fn has_char(s: &str, c: char) -> (res: bool)
    ensures
        res == s@.contains(c),
{
    let cs = chars(s);
    let n: usize = cs.len();
    let mut i: usize = 0;
    while i < n
        invariant
            n == cs@.len(),
            cs@ == s@,
            i <= n,
            forall|k: int| 0 <= k < i ==> s@[k] != c,
        decreases n - i,
    {
        if cs[i] == c {
            assert(s@[i as int] == c);
            return true;
        }
        i = i + 1;
    }
    false
}

/// Whether a text begins with another.
pub fn begins_with(s: &str, pat: &str) -> (res: bool)
    ensures
        res == pat@.is_prefix_of(s@),
{
    let cs = chars(s);
    let ps = chars(pat);
    let res = occurs(&cs, &ps, 0);
    proof {
        if pat@.len() <= s@.len() {
            assert(s@.subrange(0, pat@.len() as int) =~= s@.take(pat@.len() as int));
        }
        if pat@.is_prefix_of(s@) {
            assert(pat@ =~= s@.subrange(0, pat@.len() as int));
        }
        if occurs_at(s@, pat@, 0) {
            assert(pat@.is_prefix_of(s@));
        }
    }
    res
}

/// The text with every occurrence of `pat` replaced, from left to right and without overlap.
pub fn replaced(s: &str, pat: &str, with: &str) -> (res: String)
    ensures
        res@ == replace(s@, pat@, with@),
{
    let cs = chars(s);
    let ps = chars(pat);
    let n: usize = cs.len();
    let m: usize = ps.len();
    if m == 0 {
        return s.to_string();
    }
    let mut out = String::new();
    let mut i: usize = 0;
    assert(s@.skip(0) =~= s@);
    while i < n
        invariant
            n == cs@.len(),
            m == ps@.len(),
            m > 0,
            cs@ == s@,
            ps@ == pat@,
            i <= n,
            out@ + replace(s@.skip(i as int), pat@, with@) == replace(s@, pat@, with@),
        decreases n - i,
    {
        let ghost rest = s@.skip(i as int);
        let ghost old_out = out@;
        if occurs(&cs, &ps, i) {
            proof {
                assert(rest.subrange(0, m as int) =~= s@.subrange(i as int, i + m));
                assert(rest.skip(m as int) =~= s@.skip(i + m));
            }
            out.append(with);
            assert(out@ + replace(s@.skip(i + m), pat@, with@) =~= old_out + (with@ + replace(
                rest.skip(m as int),
                pat@,
                with@,
            )));
            i = i + m;
        } else {
            proof {
                if rest.len() >= m {
                    assert(rest.subrange(0, m as int) =~= s@.subrange(i as int, i + m));
                    assert(rest.drop_first() =~= s@.skip(i + 1));
                } else {
                    assert(rest =~= seq![s@[i as int]] + s@.skip(i + 1));
                    assert(replace(s@.skip(i + 1), pat@, with@) == s@.skip(i + 1));
                }
                assert(replace(rest, pat@, with@) =~= seq![s@[i as int]] + replace(
                    s@.skip(i + 1),
                    pat@,
                    with@,
                ));
            }
            out.push(cs[i]);
            assert(out@ + replace(s@.skip(i + 1), pat@, with@) =~= old_out + replace(
                rest,
                pat@,
                with@,
            ));
            i = i + 1;
        }
    }
    proof {
        assert(s@.skip(n as int) =~= Seq::<char>::empty());
        assert(out@ + Seq::<char>::empty() =~= out@);
    }
    out
}

/// Replacing in a text that does not hold the pattern changes nothing.
pub proof fn lemma_replace_absent(s: Seq<char>, pat: Seq<char>, with: Seq<char>)
    requires
        !contains(s, pat),
    ensures
        replace(s, pat, with) == s,
    decreases s.len(),
{
    if pat.len() > 0 && s.len() >= pat.len() {
        assert(!occurs_at(s, pat, 0));
        assert forall|i: int| !occurs_at(s.drop_first(), pat, i) by {
            if occurs_at(s.drop_first(), pat, i) {
                assert(s.subrange(i + 1, i + 1 + pat.len()) =~= s.drop_first().subrange(
                    i,
                    i + pat.len(),
                ));
                assert(occurs_at(s, pat, i + 1));
            }
        }
        lemma_replace_absent(s.drop_first(), pat, with);
        assert(seq![s[0]] + s.drop_first() =~= s);
    }
}

/// The text without the copies of a character at its end.
pub fn without_trailing(s: &str, c: char) -> (res: String)
    ensures
        res@ == trim_end_char(s@, c),
{
    let cs = chars(s);
    let mut j: usize = cs.len();
    assert(cs@.take(j as int) =~= s@);
    while j > 0 && cs[j - 1] == c
        invariant
            cs@ == s@,
            j <= cs@.len(),
            trim_end_char(cs@.take(j as int), c) == trim_end_char(s@, c),
        decreases j,
    {
        assert(cs@.take(j as int).drop_last() =~= cs@.take(j - 1));
        j = j - 1;
    }
    assert(cs@.subrange(0, j as int) =~= cs@.take(j as int));
    text_of(vstd::slice::slice_subrange(cs.as_slice(), 0, j))
}

/// A number in decimal notation.
pub fn decimal_text(n: u64) -> (res: String)
    ensures
        res@ == decimal(n as nat),
    decreases n,
{
    let mut out = if n < 10 {
        String::new()
    } else {
        decimal_text(n / 10)
    };
    let d: u8 = (n % 10) as u8;
    let c: char = (0x30u8 + d) as char;
    out.push(c);
    assert(n < 10 ==> out@ =~= decimal(n as nat));
    out
}

/// A signed number in decimal notation.
pub fn decimal_int_text(n: i32) -> (res: String)
    ensures
        res@ == decimal_int(n as int),
{
    if n < 0 {
        let mut out = String::new();
        out.push('-');
        let m: u64 = (-(n as i64)) as u64;
        out.append(decimal_text(m).as_str());
        assert(out@ =~= decimal_int(n as int));
        out
    } else {
        decimal_text(n as u64)
    }
}

/// The pieces around a separator are those before it and those behind it.
pub proof fn lemma_split_around(a: Seq<char>, b: Seq<char>, sep: char)
    ensures
        split(a + seq![sep] + b, sep) == split(a, sep) + split(b, sep),
    decreases b.len(),
{
    let f = is_char(sep);
    let whole = a + seq![sep] + b;
    if b.len() == 0 {
        assert(whole.drop_last() =~= a);
        assert(split(whole, sep) =~= split(a, sep).push(Seq::<char>::empty()));
        assert(split(b, sep) =~= seq![Seq::<char>::empty()]);
    } else {
        lemma_split_around(a, b.drop_last(), sep);
        lemma_split_where_len(b.drop_last(), f);
        assert(whole.drop_last() =~= a + seq![sep] + b.drop_last());
        assert(whole.last() == b.last());
        let before = split(a, sep);
        let behind = split(b.drop_last(), sep);
        if f(b.last()) {
            assert((before + behind).push(Seq::<char>::empty()) =~= before + behind.push(
                Seq::<char>::empty(),
            ));
        } else {
            assert((before + behind).last() == behind.last());
            assert((before + behind).drop_last().push(behind.last().push(b.last())) =~= before
                + behind.drop_last().push(behind.last().push(b.last())));
        }
    }
}

/// Where a character first occurs in a text, or the text's length.
pub open spec fn first_of(s: Seq<char>, c: char) -> nat
    decreases s.len(),
{
    if s.len() == 0 || s[0] == c {
        0
    } else {
        1 + first_of(s.drop_first(), c)
    }
}

/// The parts of a text before and behind the first occurrence of a character.
pub open spec fn cut_at(s: Seq<char>, c: char) -> Option<(Seq<char>, Seq<char>)> {
    let i = first_of(s, c) as int;
    if i < s.len() {
        Some((s.take(i), s.skip(i + 1)))
    } else {
        None
    }
}

/// The first occurrence of a character is where it stands and does not stand before.
pub proof fn lemma_first_of(s: Seq<char>, c: char, i: int)
    requires
        0 <= i <= s.len(),
        forall|k: int| 0 <= k < i ==> s[k] != c,
        i == s.len() || s[i] == c,
    ensures
        first_of(s, c) == i,
    decreases i,
{
    if i > 0 {
        lemma_first_of(s.drop_first(), c, i - 1);
    }
}

/// The parts of a text before and behind the first occurrence of a character.
pub fn cut(s: &str, c: char) -> (res: Option<(String, String)>)
    ensures
        match res {
            Some((before, behind)) => cut_at(s@, c) == Some((before@, behind@)),
            None => cut_at(s@, c) is None,
        },
{
    let cs = chars(s);
    let n: usize = cs.len();
    let mut i: usize = 0;
    while i < n && cs[i] != c
        invariant
            n == cs@.len(),
            i <= n,
            forall|k: int| 0 <= k < i ==> cs@[k] != c,
        decreases n - i,
    {
        i = i + 1;
    }
    proof {
        lemma_first_of(s@, c, i as int);
    }
    if i < n {
        assert(cs@.subrange(0, i as int) =~= s@.take(i as int));
        assert(cs@.subrange(i + 1, n as int) =~= s@.skip(i + 1));
        Some(
            (
                text_of(vstd::slice::slice_subrange(cs.as_slice(), 0, i)),
                text_of(vstd::slice::slice_subrange(cs.as_slice(), i + 1, n)),
            ),
        )
    } else {
        None
    }
}

/// Whether a text comes before another in the order of their characters.
pub open spec fn precedes(a: Seq<char>, b: Seq<char>) -> bool
    decreases a.len(),
{
    if b.len() == 0 {
        false
    } else if a.len() == 0 {
        true
    } else if a[0] != b[0] {
        a[0] < b[0]
    } else {
        precedes(a.drop_first(), b.drop_first())
    }
}

/// Whether a text comes before another.
pub fn comes_before(a: &str, b: &str) -> (res: bool)
    ensures
        res == precedes(a@, b@),
{
    let x = chars(a);
    let y = chars(b);
    let n: usize = x.len();
    let m: usize = y.len();
    let mut i: usize = 0;
    assert(a@.skip(0) =~= a@ && b@.skip(0) =~= b@);
    while i < n && i < m && x[i] == y[i]
        invariant
            n == x@.len(),
            m == y@.len(),
            x@ == a@,
            y@ == b@,
            i <= n,
            i <= m,
            precedes(a@, b@) == precedes(a@.skip(i as int), b@.skip(i as int)),
        decreases n - i,
    {
        assert(a@.skip(i as int).drop_first() =~= a@.skip(i + 1));
        assert(b@.skip(i as int).drop_first() =~= b@.skip(i + 1));
        i = i + 1;
    }
    if i >= m {
        false
    } else if i >= n {
        true
    } else {
        x[i] < y[i]
    }
}

/// Of two different texts one comes before the other.
pub proof fn lemma_precedes_total(a: Seq<char>, b: Seq<char>)
    ensures
        precedes(a, b) || precedes(b, a) || a == b,
        !(precedes(a, b) && precedes(b, a)),
        precedes(a, b) ==> a != b,
    decreases a.len(),
{
    if a.len() > 0 && b.len() > 0 && a[0] == b[0] {
        lemma_precedes_total(a.drop_first(), b.drop_first());
        if a.drop_first() == b.drop_first() {
            assert(a =~= seq![a[0]] + a.drop_first());
            assert(b =~= seq![b[0]] + b.drop_first());
        }
    } else if a.len() == 0 && b.len() == 0 {
        assert(a =~= b);
    }
}

/// A text that comes before one that comes before a third comes before the third.
pub proof fn lemma_precedes_transitive(a: Seq<char>, b: Seq<char>, c: Seq<char>)
    requires
        precedes(a, b),
        precedes(b, c),
    ensures
        precedes(a, c),
    decreases a.len(),
{
    if a.len() > 0 && b.len() > 0 && c.len() > 0 && a[0] == b[0] && b[0] == c[0] {
        lemma_precedes_transitive(a.drop_first(), b.drop_first(), c.drop_first());
    }
}

/// The texts in their order with one more in its place, unless it is among them.
pub open spec fn inserted(sorted: Seq<Seq<char>>, s: Seq<char>) -> Seq<Seq<char>>
    decreases sorted.len(),
{
    if sorted.len() == 0 {
        seq![s]
    } else if sorted.last() == s {
        sorted
    } else if precedes(sorted.last(), s) {
        sorted.push(s)
    } else {
        inserted(sorted.drop_last(), s).push(sorted.last())
    }
}

/// The texts in their order, each once.
pub open spec fn sorted_set(texts: Seq<Seq<char>>) -> Seq<Seq<char>>
    decreases texts.len(),
{
    if texts.len() == 0 {
        Seq::empty()
    } else {
        inserted(sorted_set(texts.drop_last()), texts.last())
    }
}

/// Whether texts stand in their order, each once.
pub open spec fn is_sorted_set(texts: Seq<Seq<char>>) -> bool {
    forall|i: int, j: int| 0 <= i < j < texts.len() ==> precedes(#[trigger] texts[i], #[trigger] texts[j])
}

proof fn lemma_inserted(sorted: Seq<Seq<char>>, s: Seq<char>)
    requires
        is_sorted_set(sorted),
    ensures
        is_sorted_set(inserted(sorted, s)),
        forall|x: Seq<char>| #[trigger]
            inserted(sorted, s).contains(x) <==> sorted.contains(x) || x == s,
    decreases sorted.len(),
{
    let all = inserted(sorted, s);
    if sorted.len() == 0 {
        assert(all[0] == s);
    } else if sorted.last() == s {
        assert(sorted[sorted.len() - 1] == s);
    } else if precedes(sorted.last(), s) {
        assert forall|i: int, j: int| 0 <= i < j < all.len() implies precedes(
            #[trigger] all[i],
            #[trigger] all[j],
        ) by {
            if j == sorted.len() && i < sorted.len() - 1 {
                assert(precedes(sorted[i], sorted[sorted.len() - 1]));
                lemma_precedes_transitive(sorted[i], sorted.last(), s);
            }
        }
        assert forall|x: Seq<char>| #[trigger] all.contains(x) <==> sorted.contains(x) || x == s by {
            if sorted.contains(x) {
                let k = choose|k: int| 0 <= k < sorted.len() && sorted[k] == x;
                assert(all[k] == x);
            }
            assert(all[sorted.len() as int] == s);
        }
    } else {
        let before = sorted.drop_last();
        let last = sorted.last();
        assert(is_sorted_set(before)) by {
            assert forall|i: int, j: int| 0 <= i < j < before.len() implies precedes(
                #[trigger] before[i],
                #[trigger] before[j],
            ) by {
                assert(precedes(sorted[i], sorted[j]));
            }
        }
        lemma_inserted(before, s);
        lemma_precedes_total(last, s);
        let head = inserted(before, s);
        assert forall|i: int, j: int| 0 <= i < j < all.len() implies precedes(
            #[trigger] all[i],
            #[trigger] all[j],
        ) by {
            assert(head.contains(all[i]));
            if j < head.len() {
                assert(all[i] == head[i] && all[j] == head[j]);
            } else if all[i] != s {
                assert(before.contains(all[i]));
                let k = choose|k: int| 0 <= k < before.len() && before[k] == all[i];
                assert(precedes(sorted[k], sorted[sorted.len() - 1]));
            }
        }
        assert forall|x: Seq<char>| #[trigger] all.contains(x) <==> sorted.contains(x) || x == s by {
            if all.contains(x) {
                let k = choose|k: int| 0 <= k < all.len() && all[k] == x;
                if k < head.len() {
                    assert(head[k] == x);
                    assert(head.contains(x));
                    if x != s {
                        let l = choose|l: int| 0 <= l < before.len() && before[l] == x;
                        assert(sorted[l] == x);
                    }
                } else {
                    assert(sorted[sorted.len() - 1] == x);
                }
            }
            if sorted.contains(x) || x == s {
                if sorted.contains(x) && x == last {
                    assert(all[head.len() as int] == x);
                } else {
                    if sorted.contains(x) {
                        let l = choose|l: int| 0 <= l < sorted.len() && sorted[l] == x;
                        assert(before[l] == x);
                    }
                    assert(head.contains(x));
                    let k = choose|k: int| 0 <= k < head.len() && head[k] == x;
                    assert(all[k] == x);
                }
            }
        }
    }
}

/// The texts in their order are those texts, each once.
pub proof fn lemma_sorted_set(texts: Seq<Seq<char>>)
    ensures
        is_sorted_set(sorted_set(texts)),
        forall|x: Seq<char>| #[trigger] sorted_set(texts).contains(x) <==> texts.contains(x),
    decreases texts.len(),
{
    if texts.len() > 0 {
        let before = texts.drop_last();
        lemma_sorted_set(before);
        lemma_inserted(sorted_set(before), texts.last());
        assert forall|x: Seq<char>| #[trigger]
            sorted_set(texts).contains(x) <==> texts.contains(x) by {
            if texts.contains(x) {
                let k = choose|k: int| 0 <= k < texts.len() && texts[k] == x;
                if k < before.len() {
                    assert(before[k] == x);
                }
            }
            if before.contains(x) {
                let k = choose|k: int| 0 <= k < before.len() && before[k] == x;
                assert(texts[k] == x);
            }
            assert(texts[texts.len() - 1] == texts.last());
        }
    }
}

fn insert_sorted(sorted: &mut Vec<String>, s: String)
    ensures
        final(sorted).deep_view() == inserted(old(sorted).deep_view(), s@),
{
    let ghost all = sorted.deep_view();
    let mut i: usize = sorted.len();
    let ghost n = i as int;
    assert(all.take(n) =~= all);
    assert(inserted(all, s@) =~= inserted(all.take(n), s@) + all.skip(n));
    while i > 0
        invariant
            sorted.deep_view() == all,
            i <= sorted@.len(),
            sorted@.len() == all.len(),
            inserted(all, s@) == inserted(all.take(i as int), s@) + all.skip(i as int),
            all == old(sorted).deep_view(),
        ensures
            i == 0 || (all[i - 1] != s@ && precedes(all[i - 1], s@)),
        decreases i,
    {
        let ghost head = all.take(i as int);
        assert(head.last() == sorted@[i - 1]@);
        assert(head.drop_last() =~= all.take(i - 1));
        if same(sorted[i - 1].as_str(), s.as_str()) {
            assert(head + all.skip(i as int) =~= all);
            return;
        }
        if comes_before(sorted[i - 1].as_str(), s.as_str()) {
            break ;
        }
        assert((inserted(all.take(i - 1), s@).push(head.last()) + all.skip(i as int)) =~= inserted(
            all.take(i - 1),
            s@,
        ) + all.skip(i - 1));
        i = i - 1;
    }
    assert(inserted(all, s@) == all.take(i as int).push(s@) + all.skip(i as int)) by {
        if i == 0 {
            assert(all.take(0) =~= Seq::empty());
            assert(seq![s@] =~= all.take(0).push(s@));
        } else {
            assert(all.take(i as int).last() == all[i - 1]);
        }
    }
    let ghost shown = s@;
    sorted.insert(i, s);
    assert(sorted.deep_view() =~= all.take(i as int).push(shown) + all.skip(i as int));
}

/// The texts in their order, each once.
pub fn sorted_list(texts: &Vec<String>) -> (res: Vec<String>)
    ensures
        res.deep_view() == sorted_set(texts.deep_view()),
{
    let ghost all = texts.deep_view();
    let n: usize = texts.len();
    let mut out: Vec<String> = Vec::new();
    let mut i: usize = 0;
    assert(all.take(0) =~= Seq::empty());
    assert(out.deep_view() =~= Seq::empty());
    while i < n
        invariant
            n == texts@.len(),
            i <= n,
            all == texts.deep_view(),
            out.deep_view() == sorted_set(all.take(i as int)),
        decreases n - i,
    {
        assert(all.take(i + 1).drop_last() =~= all.take(i as int));
        assert(all.take(i + 1).last() == texts@[i as int]@);
        insert_sorted(&mut out, texts[i].clone());
        i = i + 1;
    }
    assert(all.take(n as int) =~= all);
    out
}

/// The first line of a text stands before its first line feed, without a carriage return at its end.
pub proof fn lemma_lines_first(line: Seq<char>, rest: Seq<char>)
    requires
        !line.contains('\n'),
    ensures
        lines(line + seq!['\n'] + rest) == seq![strip_cr(line)] + lines(rest),
{
    lemma_split_around(line, rest, '\n');
    lemma_split_without(line, '\n');
    lemma_split_where_len(rest, is_char('\n'));
    let pieces = split(rest, '\n');
    let whole = split(line + seq!['\n'] + rest, '\n');
    let f = |p: Seq<char>| strip_cr(p);
    assert(whole =~= seq![line] + pieces);
    assert(whole.last() == pieces.last());
    assert(whole.drop_last() =~= seq![line] + pieces.drop_last());
    assert(whole.drop_last().map_values(f) =~= seq![strip_cr(line)]
        + pieces.drop_last().map_values(f));
    assert(lines(line + seq!['\n'] + rest) =~= seq![strip_cr(line)] + lines(rest));
}

/// The characters that count as white space are those that Unicode counts so.
pub proof fn white_space_is_unicodes(c: char)
    ensures
        is_white(c) <==> seq![
            '\t',
            '\n',
            '\u{b}',
            '\u{c}',
            '\r',
            ' ',
            '\u{85}',
            '\u{a0}',
            '\u{1680}',
            '\u{2000}',
            '\u{2001}',
            '\u{2002}',
            '\u{2003}',
            '\u{2004}',
            '\u{2005}',
            '\u{2006}',
            '\u{2007}',
            '\u{2008}',
            '\u{2009}',
            '\u{200a}',
            '\u{2028}',
            '\u{2029}',
            '\u{202f}',
            '\u{205f}',
            '\u{3000}',
        ].contains(c),
{
    let all = seq![
        '\t',
        '\n',
        '\u{b}',
        '\u{c}',
        '\r',
        ' ',
        '\u{85}',
        '\u{a0}',
        '\u{1680}',
        '\u{2000}',
        '\u{2001}',
        '\u{2002}',
        '\u{2003}',
        '\u{2004}',
        '\u{2005}',
        '\u{2006}',
        '\u{2007}',
        '\u{2008}',
        '\u{2009}',
        '\u{200a}',
        '\u{2028}',
        '\u{2029}',
        '\u{202f}',
        '\u{205f}',
        '\u{3000}',
    ];
    if is_white(c) {
        let n = c as u32;
        let i: int = if n <= 0xd {
            n - 9
        } else if n == 0x20 {
            5
        } else if n == 0x85 {
            6
        } else if n == 0xa0 {
            7
        } else if n == 0x1680 {
            8
        } else if n <= 0x200a {
            9 + (n - 0x2000)
        } else if n == 0x2028 {
            20
        } else if n == 0x2029 {
            21
        } else if n == 0x202f {
            22
        } else if n == 0x205f {
            23
        } else {
            24
        };
        assert(all[i] == c);
    }
}

/// Trimming takes the white space off both ends, and nothing else.
pub proof fn trimming_takes_off_the_ends(before: Seq<char>, middle: Seq<char>, after: Seq<char>)
    requires
        forall|i: int| 0 <= i < before.len() ==> is_white(#[trigger] before[i]),
        forall|i: int| 0 <= i < after.len() ==> is_white(#[trigger] after[i]),
        middle.len() > 0 ==> !is_white(middle[0]) && !is_white(middle.last()),
    ensures
        trim(before + middle + after) == middle,
        is_blank(before + middle + after) <==> middle.len() == 0,
{
    let whole = before + middle + after;
    assert forall|k: int| 0 <= k < before.len() implies is_white(#[trigger] whole[k]) by {
        assert(whole[k] == before[k]);
    }
    lemma_trim_start_skip(whole, before.len() as int);
    assert(whole.skip(before.len() as int) =~= middle + after);
    if middle.len() > 0 {
        assert((middle + after)[0] == middle[0]);
        let rest = middle + after;
        assert forall|k: int| middle.len() <= k < rest.len() implies is_white(#[trigger] rest[k]) by {
            assert(rest[k] == after[k - middle.len()]);
        }
        lemma_trim_end_take(rest, middle.len() as int);
        assert(rest.take(middle.len() as int) =~= middle);
        assert(whole[before.len() as int] == middle[0]);
    } else {
        assert(middle + after =~= after);
        lemma_trim_start_skip(after, after.len() as int);
        assert(after.skip(after.len() as int) =~= Seq::<char>::empty());
        assert(middle =~= Seq::<char>::empty());
        assert forall|k: int| 0 <= k < whole.len() implies is_white(#[trigger] whole[k]) by {
            if k >= before.len() {
                assert(whole[k] == after[k - before.len()]);
            }
        }
    }
}

/// The white space that trimming takes off.
proof fn lemma_trimmed_ends(s: Seq<char>) -> (ends: (Seq<char>, Seq<char>))
    ensures
        s == ends.0 + trim(s) + ends.1,
        is_blank(ends.0),
        is_blank(ends.1),
    decreases s.len(),
{
    if is_blank(s) {
        lemma_trim_blank(s);
        assert(s + trim(s) + Seq::empty() =~= s);
        (s, Seq::empty())
    } else if is_white(s[0]) {
        let rest = s.drop_first();
        if is_blank(rest) {
            assert(forall|i: int| 0 < i < s.len() ==> s[i] == rest[i - 1]);
            assert(is_blank(s));
        }
        let ends = lemma_trimmed_ends(rest);
        let first = seq![s[0]] + ends.0;
        assert(trim(s) == trim(rest));
        assert(s =~= seq![s[0]] + rest);
        assert(seq![s[0]] + (ends.0 + trim(rest) + ends.1) =~= first + trim(rest) + ends.1);
        assert forall|i: int| 0 <= i < first.len() implies is_white(#[trigger] first[i]) by {
            if i > 0 {
                assert(first[i] == ends.0[i - 1]);
            }
        }
        (first, ends.1)
    } else {
        lemma_trim_end_prefix(s);
        let n = trim_end(s).len() as int;
        lemma_trim_end_rest(s);
        assert(s =~= Seq::empty() + trim(s) + s.skip(n));
        (Seq::empty(), s.skip(n))
    }
}

proof fn lemma_trim_end_rest(s: Seq<char>)
    ensures
        trim_end(s).len() <= s.len(),
        is_blank(s.skip(trim_end(s).len() as int)),
    decreases s.len(),
{
    if s.len() > 0 && is_white(s.last()) {
        lemma_trim_end_rest(s.drop_last());
        let n = trim_end(s).len() as int;
        let rest = s.skip(n);
        assert forall|i: int| 0 <= i < rest.len() implies is_white(#[trigger] rest[i]) by {
            if n + i < s.len() - 1 {
                assert(s.drop_last().skip(n)[i] == rest[i]);
            }
        }
    }
}

/// A carriage return at the end of a text is white space that trimming takes off.
pub proof fn lemma_trim_strip_cr(s: Seq<char>)
    ensures
        trim(strip_cr(s)) == trim(s),
{
    if s.len() > 0 && s.last() == '\r' {
        let t = s.drop_last();
        let ends = lemma_trimmed_ends(t);
        lemma_trim_ends(t);
        let after = ends.1.push('\r');
        assert(s =~= t.push('\r'));
        assert((ends.0 + trim(t) + ends.1).push('\r') =~= ends.0 + trim(t) + after);
        assert forall|i: int| 0 <= i < after.len() implies is_white(#[trigger] after[i]) by {
            if i < ends.1.len() {
                assert(after[i] == ends.1[i]);
            }
        }
        trimming_takes_off_the_ends(ends.0, trim(t), after);
    }
}

/// The pieces of a text between separators are those that it was joined from.
pub proof fn splitting_undoes_joining(parts: Seq<Seq<char>>, sep: char)
    requires
        parts.len() > 0,
        forall|i: int| 0 <= i < parts.len() ==> !(#[trigger] parts[i]).contains(sep),
    ensures
        split(join(parts, seq![sep]), sep) == parts,
    decreases parts.len(),
{
    let last = parts.last();
    assert(parts[parts.len() - 1] == last);
    lemma_split_without(last, sep);
    if parts.len() == 1 {
        assert(parts =~= seq![last]);
    } else {
        let before = parts.drop_last();
        assert forall|i: int| 0 <= i < before.len() implies !(#[trigger] before[i]).contains(sep) by {
            assert(before[i] == parts[i]);
        }
        splitting_undoes_joining(before, sep);
        lemma_split_around(join(before, seq![sep]), last, sep);
        assert(before + seq![last] =~= parts);
    }
}

/// Joined parts stand one after another, with the separator between neighbours and nowhere else.
pub proof fn joined_parts_stand_in_their_order(
    parts: Seq<Seq<char>>,
    part: Seq<char>,
    sep: Seq<char>,
)
    ensures
        join(Seq::empty(), sep) == Seq::<char>::empty(),
        join(seq![part], sep) == part,
        parts.len() > 0 ==> join(parts.push(part), sep) == join(parts, sep) + sep + part,
{
    assert(parts.push(part).drop_last() =~= parts);
}

/// The last line of a text may do without a line feed; a text that is empty has no lines.
pub proof fn last_lines_need_no_end(line: Seq<char>)
    requires
        !line.contains('\n'),
    ensures
        line.len() > 0 ==> lines(line) == seq![line],
        lines(Seq::empty()) == Seq::<Seq<char>>::empty(),
{
    lemma_split_without(line, '\n');
    let none = Seq::<char>::empty();
    assert(split(none, '\n') =~= seq![none]);
    let f = |p: Seq<char>| strip_cr(p);
    assert(seq![line].drop_last().map_values(f) =~= Seq::empty());
    assert(seq![none].drop_last().map_values(f) =~= Seq::empty());
    if line.len() > 0 {
        assert(lines(line) =~= seq![line]);
    }
}

/// The words of a text stand between white space: a word is followed by white space, and then by the
/// words of the rest.
pub proof fn words_stand_between_white_space(word: Seq<char>, white: char, rest: Seq<char>)
    requires
        forall|i: int| 0 <= i < word.len() ==> !is_white(#[trigger] word[i]),
        is_white(white),
    ensures
        word.len() > 0 ==> words(word) == seq![word],
        words(word + seq![white] + rest) == (if word.len() == 0 {
            words(rest)
        } else {
            seq![word] + words(rest)
        }),
{
    let f = |c: char| is_white(c);
    let g = |p: Seq<char>| p.len() > 0;
    lemma_split_where_none(word, f);
    lemma_split_where_around(word, white, rest, f);
    let one = seq![word];
    let none = Seq::<Seq<char>>::empty();
    Seq::filter_distributes_over_add(one, split_where(rest, f), g);
    reveal(Seq::filter);
    assert(one.drop_last() =~= none);
    assert(none.filter(g) =~= none);
    assert(one.filter(g) =~= (if word.len() == 0 { none } else { one }));
    assert(none + words(rest) =~= words(rest));
}

proof fn lemma_split_where_none(s: Seq<char>, sep: spec_fn(char) -> bool)
    requires
        forall|i: int| 0 <= i < s.len() ==> !sep(#[trigger] s[i]),
    ensures
        split_where(s, sep) == seq![s],
    decreases s.len(),
{
    if s.len() > 0 {
        let before = s.drop_last();
        assert forall|i: int| 0 <= i < before.len() implies !sep(#[trigger] before[i]) by {
            assert(before[i] == s[i]);
        }
        lemma_split_where_none(before, sep);
        assert(!sep(s[s.len() - 1]));
        assert(before.push(s.last()) =~= s);
        assert(split_where(s, sep) =~= seq![s]);
    } else {
        assert(s =~= Seq::<char>::empty());
    }
}

proof fn lemma_split_where_around(
    a: Seq<char>,
    c: char,
    b: Seq<char>,
    sep: spec_fn(char) -> bool,
)
    requires
        sep(c),
    ensures
        split_where(a + seq![c] + b, sep) == split_where(a, sep) + split_where(b, sep),
    decreases b.len(),
{
    let whole = a + seq![c] + b;
    if b.len() == 0 {
        assert(whole.drop_last() =~= a);
        assert(whole.last() == c);
        assert(split_where(b, sep) =~= seq![Seq::<char>::empty()]);
        assert(split_where(whole, sep) =~= split_where(a, sep).push(Seq::<char>::empty()));
    } else {
        let before = b.drop_last();
        lemma_split_where_around(a, c, before, sep);
        lemma_split_where_len(before, sep);
        assert(whole.drop_last() =~= a + seq![c] + before);
        assert(whole.last() == b.last());
        assert(split_where(whole, sep) =~= split_where(a, sep) + split_where(b, sep));
    }
}

/// A compacted text is its words with a single blank between them.
pub proof fn compacted_words_are_a_blank_apart(s: Seq<char>)
    ensures
        compact(s) == join(words(s), seq![' ']),
        forall|i: int, k: int|
            0 <= i < words(s).len() && 0 <= k < words(s)[i].len() ==> !is_white(
                #[trigger] words(s)[i][k],
            ),
{
    let f = |c: char| is_white(c);
    let g = |p: Seq<char>| p.len() > 0;
    let pieces = split_where(s, f);
    crate::views::lemma_filtered(pieces, g);
    assert forall|i: int, k: int| 0 <= i < words(s).len() && 0 <= k < words(s)[i].len() implies !is_white(
        #[trigger] words(s)[i][k],
    ) by {
        assert(words(s).contains(words(s)[i]));
        let j = choose|j: int| 0 <= j < pieces.len() && pieces[j] == words(s)[i];
        lemma_pieces_without(s, f, j, k);
    }
}

proof fn lemma_pieces_without(s: Seq<char>, sep: spec_fn(char) -> bool, j: int, k: int)
    requires
        0 <= j < split_where(s, sep).len(),
        0 <= k < split_where(s, sep)[j].len(),
    ensures
        !sep(split_where(s, sep)[j][k]),
    decreases s.len(),
{
    if s.len() > 0 {
        let before = split_where(s.drop_last(), sep);
        lemma_split_where_len(s.drop_last(), sep);
        if sep(s.last()) {
            if j < before.len() {
                lemma_pieces_without(s.drop_last(), sep, j, k);
            }
        } else if j < before.len() - 1 {
            lemma_pieces_without(s.drop_last(), sep, j, k);
        } else if k < before.last().len() {
            assert(before[before.len() - 1] == before.last());
            lemma_pieces_without(s.drop_last(), sep, j, k);
        }
    }
}

/// A text holds another exactly where it is made of something before it, it, and something behind.
pub proof fn contained_texts_stand_somewhere(s: Seq<char>, pat: Seq<char>)
    ensures
        contains(s, pat) <==> exists|a: Seq<char>, b: Seq<char>| s == #[trigger] (a + pat + b),
{
    if contains(s, pat) {
        let i = choose|i: int| occurs_at(s, pat, i);
        let a = s.take(i);
        let b = s.skip(i + pat.len());
        assert(s.subrange(i, i + pat.len()) == pat);
        assert(s =~= a + pat + b);
    }
    if exists|a: Seq<char>, b: Seq<char>| s == #[trigger] (a + pat + b) {
        let (a, b) = choose|a: Seq<char>, b: Seq<char>| s == #[trigger] (a + pat + b);
        assert(s.subrange(a.len() as int, a.len() as int + pat.len()) =~= pat);
        assert(occurs_at(s, pat, a.len() as int));
    }
}

/// The first occurrence of a pattern is replaced where it stands: what is before it stays, and in
/// what is behind it the pattern is replaced in the same way.
pub proof fn first_occurrence_is_replaced(
    before: Seq<char>,
    pat: Seq<char>,
    behind: Seq<char>,
    with: Seq<char>,
)
    requires
        pat.len() > 0,
        forall|i: int| 0 <= i < before.len() ==> !#[trigger] occurs_at(before + pat + behind, pat, i),
    ensures
        replace(before + pat + behind, pat, with) == before + with + replace(behind, pat, with),
    decreases before.len(),
{
    let whole = before + pat + behind;
    if before.len() == 0 {
        assert(whole.subrange(0, pat.len() as int) =~= pat);
        assert(occurs_at(whole, pat, 0));
        assert(whole.skip(pat.len() as int) =~= behind);
        assert(before + with + replace(behind, pat, with) =~= with + replace(behind, pat, with));
    } else {
        let rest = before.drop_first();
        let tail = rest + pat + behind;
        assert(whole.drop_first() =~= tail);
        assert forall|i: int| 0 <= i < rest.len() implies !#[trigger] occurs_at(tail, pat, i) by {
            if occurs_at(tail, pat, i) {
                assert(whole.subrange(i + 1, i + 1 + pat.len()) =~= tail.subrange(i, i + pat.len()));
                assert(occurs_at(whole, pat, i + 1));
            }
        }
        first_occurrence_is_replaced(rest, pat, behind, with);
        assert(!occurs_at(whole, pat, 0));
        assert(seq![whole[0]] + (rest + with + replace(behind, pat, with)) =~= before + with
            + replace(behind, pat, with));
    }
}

/// The number that decimal digits stand for.
pub open spec fn number_of(digits: Seq<char>) -> int
    decreases digits.len(),
{
    if digits.len() == 0 {
        0
    } else {
        10 * number_of(digits.drop_last()) + (digits.last() as u32 - '0' as u32)
    }
}

/// A number in decimal notation is made of digits, without a zero in front unless it is zero, and
/// stands for itself.
pub proof fn decimals_stand_for_their_numbers(n: nat)
    ensures
        decimal(n).len() > 0,
        forall|i: int| 0 <= i < decimal(n).len() ==> '0' <= #[trigger] decimal(n)[i] <= '9',
        decimal(n).len() > 1 ==> decimal(n)[0] != '0',
        number_of(decimal(n)) == n,
    decreases n,
{
    reveal_with_fuel(number_of, 2);
    if n < 10 {
        assert(decimal(n).drop_last() =~= Seq::<char>::empty());
    } else {
        let before = decimal(n / 10);
        decimals_stand_for_their_numbers(n / 10);
        assert(decimal(n).drop_last() =~= before);
        assert forall|i: int| 0 <= i < decimal(n).len() implies '0' <= #[trigger] decimal(n)[i]
            <= '9' by {
            if i < before.len() {
                assert(decimal(n)[i] == before[i]);
            }
        }
        assert(decimal(n)[0] == before[0]);
        if before.len() == 1 {
            reveal_with_fuel(number_of, 3);
            assert(before.drop_last() =~= Seq::<char>::empty());
        }
    }
}

/// A text is cut at the first occurrence of a character, and not at all where it does not occur.
pub proof fn texts_are_cut_at_the_first(a: Seq<char>, c: char, b: Seq<char>)
    requires
        !a.contains(c),
    ensures
        cut_at(a + seq![c] + b, c) == Some((a, b)),
        cut_at(a, c) is None,
{
    let whole = a + seq![c] + b;
    assert forall|k: int| 0 <= k < a.len() implies whole[k] != c by {
        assert(whole[k] == a[k]);
    }
    lemma_first_of(whole, c, a.len() as int);
    lemma_first_of(a, c, a.len() as int);
    assert(whole.take(a.len() as int) =~= a);
    assert(whole.skip(a.len() as int + 1) =~= b);
}

/// The copies of a character at the end of a text go, all of them and nothing else.
pub proof fn trailing_copies_go(s: Seq<char>, c: char)
    ensures
        trim_end_char(s.push(c), c) == trim_end_char(s, c),
        s.len() == 0 || s.last() != c ==> trim_end_char(s, c) == s,
{
    assert(s.push(c).drop_last() =~= s);
}

/// The first occurrence of a character is one, and the characters before it are others.
pub proof fn lemma_first_is(s: Seq<char>, c: char)
    ensures
        first_of(s, c) <= s.len(),
        first_of(s, c) < s.len() ==> s[first_of(s, c) as int] == c,
        forall|k: int| 0 <= k < first_of(s, c) ==> s[k] != c,
    decreases s.len(),
{
    if s.len() > 0 && s[0] != c {
        lemma_first_is(s.drop_first(), c);
        assert forall|k: int| 0 <= k < first_of(s, c) implies s[k] != c by {
            if k > 0 {
                assert(s.drop_first()[k - 1] == s[k]);
            }
        }
    }
}

/// A pattern that occurs once, and whose first character occurs nowhere else, is replaced there.
pub proof fn lemma_replace_one(
    before: Seq<char>,
    pat: Seq<char>,
    behind: Seq<char>,
    with: Seq<char>,
)
    requires
        pat.len() > 0,
        !before.contains(pat[0]),
        !behind.contains(pat[0]),
    ensures
        replace(before + pat + behind, pat, with) == before + with + behind,
{
    let whole = before + pat + behind;
    assert forall|i: int| 0 <= i < before.len() implies !#[trigger] occurs_at(whole, pat, i) by {
        if occurs_at(whole, pat, i) {
            assert(whole.subrange(i, i + pat.len())[0] == before[i]);
            assert(before.contains(before[i]));
        }
    }
    first_occurrence_is_replaced(before, pat, behind, with);
    assert forall|i: int| !occurs_at(behind, pat, i) by {
        if occurs_at(behind, pat, i) {
            assert(behind.subrange(i, i + pat.len())[0] == behind[i]);
            assert(behind.contains(behind[i]));
        }
    }
    lemma_replace_absent(behind, pat, with);
}

} // verus!
