//! Text primitives over Unicode scalar values, with the meaning std gives them.

use vstd::prelude::*;

verus! {

broadcast use vstd::string::group_string_axioms;

/// The characters of `s`, in order.
pub fn chars_of(s: &str) -> (v: Vec<char>)
    ensures
        v@ == s@,
{
    let mut v: Vec<char> = Vec::new();
    for c in it: s.chars()
        invariant
            it.seq() == s@,
            v@ == it.seq().take(it.index() as int),
    {
        v.push(c);
    }
    v
}

/// `std`'s `FromIterator<&char> for String`, through `Iterator::collect`: the
/// string made of the given characters, in order.
#[verifier::external_body]
pub(crate) fn string_from_chars(chars: &[char]) -> (s: String)
    ensures
        s@ == chars@,
{
    chars.iter().collect()
}

/// The characters with the Unicode `White_Space` property, which is what
/// `char::is_whitespace` tests and what `str::trim` and `str::split_whitespace`
/// cut at.
pub open spec fn is_whitespace(c: char) -> bool {
    let u = c as u32;
    ||| 0x9 <= u <= 0xd
    ||| u == 0x20
    ||| u == 0x85
    ||| u == 0xa0
    ||| u == 0x1680
    ||| 0x2000 <= u <= 0x200a
    ||| u == 0x2028
    ||| u == 0x2029
    ||| u == 0x202f
    ||| u == 0x205f
    ||| u == 0x3000
}

pub fn char_is_whitespace(c: char) -> (b: bool)
    ensures
        b == is_whitespace(c),
{
    let u = c as u32;
    (0x9 <= u && u <= 0xd) || u == 0x20 || u == 0x85 || u == 0xa0 || u == 0x1680 || (0x2000 <= u
        && u <= 0x200a) || u == 0x2028 || u == 0x2029 || u == 0x202f || u == 0x205f || u == 0x3000
}

/// What a text is cut at: one given character, or any whitespace character.
#[derive(Clone, Copy, PartialEq, Eq)]
pub enum Sep {
    Char(char),
    Whitespace,
}

impl Sep {
    pub open spec fn spec_matches(self, c: char) -> bool {
        match self {
            Sep::Char(d) => c == d,
            Sep::Whitespace => is_whitespace(c),
        }
    }

    pub fn matches(&self, c: char) -> (b: bool)
        ensures
            b == self.spec_matches(c),
    {
        match self {
            Sep::Char(d) => c == *d,
            Sep::Whitespace => char_is_whitespace(c),
        }
    }
}

/// The pieces between separators, empty ones included: `str::split`.
/// The text with no separator in it is one piece.
pub open spec fn pieces(s: Seq<char>, sep: Sep) -> Seq<Seq<char>>
    decreases s.len(),
{
    if s.len() == 0 {
        seq![Seq::<char>::empty()]
    } else {
        let prev = pieces(s.drop_last(), sep);
        if sep.spec_matches(s.last()) {
            prev.push(Seq::<char>::empty())
        } else {
            prev.update(prev.len() - 1, prev.last().push(s.last()))
        }
    }
}

pub proof fn lemma_pieces_nonempty(s: Seq<char>, sep: Sep)
    ensures
        pieces(s, sep).len() >= 1,
    decreases s.len(),
{
    if s.len() > 0 {
        lemma_pieces_nonempty(s.drop_last(), sep);
    }
}

/// A text with `k` characters has at most `k + 1` pieces.
pub proof fn lemma_pieces_len(s: Seq<char>, sep: Sep)
    ensures
        pieces(s, sep).len() <= s.len() + 1,
    decreases s.len(),
{
    if s.len() > 0 {
        lemma_pieces_len(s.drop_last(), sep);
        lemma_pieces_nonempty(s.drop_last(), sep);
    }
}

/// A text with `k` characters has at most `k + 1` lines.
pub proof fn lemma_lines_len(s: Seq<char>)
    ensures
        lines(s).len() <= s.len() + 1,
{
    lemma_pieces_len(s, Sep::Char('\n'));
    lemma_pieces_nonempty(s, Sep::Char('\n'));
}

pub open spec fn nonempty() -> spec_fn(Seq<char>) -> bool {
    |p: Seq<char>| p.len() > 0
}

/// The maximal runs of non-whitespace characters: `str::split_whitespace`.
pub open spec fn words(s: Seq<char>) -> Seq<Seq<char>> {
    pieces(s, Sep::Whitespace).filter(nonempty())
}

pub open spec fn strip_cr(p: Seq<char>) -> Seq<char> {
    if p.len() > 0 && p.last() == '\r' {
        p.drop_last()
    } else {
        p
    }
}

/// The lines of a text, as `str::lines` gives them: cut at each `\n`; a line
/// that a `\n` ends loses one `\r` before it; an empty last piece (the text is
/// empty or ends with `\n`) is no line.
pub open spec fn lines(s: Seq<char>) -> Seq<Seq<char>> {
    let p = pieces(s, Sep::Char('\n'));
    let k = p.len() - 1;
    let ended = Seq::new(k as nat, |i: int| strip_cr(p[i]));
    if p[k].len() == 0 {
        ended
    } else {
        ended.push(p[k])
    }
}

/// The views of a sequence of character vectors.
pub open spec fn views(v: Seq<Vec<char>>) -> Seq<Seq<char>> {
    v.map_values(|p: Vec<char>| p@)
}

pub proof fn lemma_views_push(v: Seq<Vec<char>>, x: Vec<char>)
    ensures
        views(v.push(x)) == views(v).push(x@),
{
    assert(views(v.push(x)) =~= views(v).push(x@));
}

/// `str::split` with a character, or with `char::is_whitespace`.
pub fn split_chars(s: &Vec<char>, sep: Sep) -> (out: Vec<Vec<char>>)
    ensures
        views(out@) == pieces(s@, sep),
{
    let mut done: Vec<Vec<char>> = Vec::new();
    let mut cur: Vec<char> = Vec::new();
    let mut i: usize = 0;
    proof {
        assert(s@.take(0) =~= Seq::<char>::empty());
        assert(views(done@).push(cur@) =~= seq![Seq::<char>::empty()]);
    }
    while i < s.len()
        invariant
            i <= s.len(),
            views(done@).push(cur@) == pieces(s@.take(i as int), sep),
        decreases s.len() - i,
    {
        let c = s[i];
        proof {
            assert(s@.take(i + 1).drop_last() =~= s@.take(i as int));
            lemma_pieces_nonempty(s@.take(i as int), sep);
        }
        if sep.matches(c) {
            let ghost old_done = done@;
            let ghost old_cur = cur@;
            done.push(cur);
            cur = Vec::new();
            proof {
                lemma_views_push(old_done, done@.last());
                assert(views(done@).push(cur@) =~= views(old_done).push(old_cur).push(
                    Seq::<char>::empty(),
                ));
            }
        } else {
            let ghost old_cur = cur@;
            cur.push(c);
            proof {
                let prev = views(done@).push(old_cur);
                assert(views(done@).push(cur@) =~= prev.update(prev.len() - 1, prev.last().push(c)));
            }
        }
        i += 1;
    }
    proof {
        assert(s@.take(s.len() as int) =~= s@);
    }
    let ghost before = done@;
    done.push(cur);
    proof {
        lemma_views_push(before, done@.last());
    }
    done
}

/// `str::split_whitespace`.
pub fn split_words(s: &Vec<char>) -> (out: Vec<Vec<char>>)
    ensures
        views(out@) == words(s@),
{
    let all = split_chars(s, Sep::Whitespace);
    let mut out: Vec<Vec<char>> = Vec::new();
    let mut i: usize = 0;
    while i < all.len()
        invariant
            i <= all.len(),
            views(all@) == pieces(s@, Sep::Whitespace),
            views(out@) == views(all@).take(i as int).filter(nonempty()),
        decreases all.len() - i,
    {
        let ghost before = out@;
        proof {
            assert(views(all@).take(i + 1) =~= views(all@).take(i as int).push(views(all@)[i as int]));
            views(all@).take(i as int).lemma_filter_push(views(all@)[i as int], nonempty());
        }
        if all[i].len() > 0 {
            out.push(all[i].clone());
            proof {
                lemma_views_push(before, out@.last());
            }
        }
        i += 1;
    }
    proof {
        assert(views(all@).take(all.len() as int) =~= views(all@));
    }
    out
}

/// `str::lines`.
pub fn split_lines(s: &Vec<char>) -> (out: Vec<Vec<char>>)
    ensures
        views(out@) == lines(s@),
{
    let all = split_chars(s, Sep::Char('\n'));
    proof {
        lemma_pieces_nonempty(s@, Sep::Char('\n'));
    }
    let k = all.len() - 1;
    let mut out: Vec<Vec<char>> = Vec::new();
    let mut i: usize = 0;
    while i < k
        invariant
            i <= k,
            k == all.len() - 1,
            views(all@) == pieces(s@, Sep::Char('\n')),
            views(out@) == Seq::new(i as nat, |j: int| strip_cr(views(all@)[j])),
        decreases k - i,
    {
        let ghost before = out@;
        let piece = &all[i];
        let n = piece.len();
        let mut line: Vec<char> = piece.clone();
        if n > 0 && piece[n - 1] == '\r' {
            line.pop();
        }
        proof {
            assert(line@ =~= strip_cr(views(all@)[i as int]));
        }
        out.push(line);
        proof {
            lemma_views_push(before, out@.last());
            assert(views(out@) =~= Seq::new((i + 1) as nat, |j: int| strip_cr(views(all@)[j])));
        }
        i += 1;
    }
    if all[k].len() > 0 {
        let ghost before = out@;
        out.push(all[k].clone());
        proof {
            lemma_views_push(before, out@.last());
        }
    }
    out
}

pub open spec fn trim_start(s: Seq<char>) -> Seq<char>
    decreases s.len(),
{
    if s.len() > 0 && is_whitespace(s[0]) {
        trim_start(s.drop_first())
    } else {
        s
    }
}

pub open spec fn trim_end(s: Seq<char>) -> Seq<char>
    decreases s.len(),
{
    if s.len() > 0 && is_whitespace(s.last()) {
        trim_end(s.drop_last())
    } else {
        s
    }
}

/// `str::trim`: the text without its leading and trailing whitespace.
pub open spec fn trimmed(s: Seq<char>) -> Seq<char> {
    trim_end(trim_start(s))
}

/// The characters of `v` from `from` up to `to`.
pub fn sub_chars(v: &Vec<char>, from: usize, to: usize) -> (out: Vec<char>)
    requires
        from <= to <= v.len(),
    ensures
        out@ == v@.subrange(from as int, to as int),
{
    let mut out: Vec<char> = Vec::new();
    let mut i = from;
    while i < to
        invariant
            from <= i <= to <= v.len(),
            out@ == v@.subrange(from as int, i as int),
        decreases to - i,
    {
        out.push(v[i]);
        proof {
            assert(out@ =~= v@.subrange(from as int, i + 1));
        }
        i += 1;
    }
    out
}

/// `str::trim` on characters.
pub fn trim_chars(s: &Vec<char>) -> (out: Vec<char>)
    ensures
        out@ == trimmed(s@),
{
    let mut a: usize = 0;
    proof {
        assert(s@.skip(0) =~= s@);
    }
    while a < s.len() && char_is_whitespace(s[a])
        invariant
            a <= s.len(),
            trim_start(s@.skip(a as int)) == trim_start(s@),
        decreases s.len() - a,
    {
        proof {
            assert(s@.skip(a as int).drop_first() =~= s@.skip(a + 1));
        }
        a += 1;
    }
    let ghost t = s@.skip(a as int);
    proof {
        assert(trim_start(s@) == t);
        assert(t.take(t.len() as int) =~= t);
    }
    let mut b: usize = s.len();
    while b > a && char_is_whitespace(s[b - 1])
        invariant
            a <= b <= s.len(),
            t == s@.skip(a as int),
            trim_end(t.take(b - a)) == trim_end(t),
        decreases b - a,
    {
        proof {
            assert(t.take(b - a).drop_last() =~= t.take(b - 1 - a));
        }
        b -= 1;
    }
    let out = sub_chars(s, a, b);
    proof {
        assert(out@ =~= t.take(b - a));
    }
    out
}

/// `str::trim`.
pub fn trim(s: &str) -> (out: String)
    ensures
        out@ == trimmed(s@),
{
    let v = chars_of(s);
    let t = trim_chars(&v);
    string_from_chars(t.as_slice())
}

/// `str::starts_with` with a text pattern.
pub fn starts_with(s: &Vec<char>, prefix: &Vec<char>) -> (b: bool)
    ensures
        b == prefix@.is_prefix_of(s@),
{
    if prefix.len() > s.len() {
        return false;
    }
    let mut i: usize = 0;
    while i < prefix.len()
        invariant
            i <= prefix.len() <= s.len(),
            forall|j: int| 0 <= j < i ==> prefix@[j] == s@[j],
        decreases prefix.len() - i,
    {
        if prefix[i] != s[i] {
            return false;
        }
        i += 1;
    }
    proof {
        assert(prefix@ =~= s@.subrange(0, prefix@.len() as int));
    }
    true
}

/// `p` stands in `s` at index `i`.
pub open spec fn occurs_at(s: Seq<char>, p: Seq<char>, i: int) -> bool {
    &&& 0 <= i
    &&& i + p.len() <= s.len()
    &&& s.subrange(i, i + p.len()) == p
}

/// `str::contains` with a text pattern.
pub open spec fn contains(s: Seq<char>, p: Seq<char>) -> bool {
    exists|i: int| occurs_at(s, p, i)
}

/// `p` stands in `s` at `i` and nowhere before.
pub open spec fn first_occurrence(s: Seq<char>, p: Seq<char>, i: int) -> bool {
    &&& occurs_at(s, p, i)
    &&& forall|j: int| 0 <= j < i ==> !occurs_at(s, p, j)
}

fn occurs_here(s: &Vec<char>, p: &Vec<char>, i: usize) -> (b: bool)
    requires
        i + p.len() <= s.len(),
    ensures
        b == occurs_at(s@, p@, i as int),
{
    let mut k: usize = 0;
    while k < p.len()
        invariant
            k <= p.len(),
            i + p.len() <= s.len(),
            forall|j: int| 0 <= j < k ==> p@[j] == s@[i + j],
        decreases p.len() - k,
    {
        if p[k] != s[i + k] {
            proof {
                assert(s@.subrange(i as int, i + p.len())[k as int] != p@[k as int]);
            }
            return false;
        }
        k += 1;
    }
    proof {
        assert(s@.subrange(i as int, i + p.len()) =~= p@);
    }
    true
}

/// Whether `p` stands in `s` at index `i`.
pub fn occurs_at_index(s: &Vec<char>, p: &Vec<char>, i: usize) -> (b: bool)
    ensures
        b == occurs_at(s@, p@, i as int),
{
    if i > s.len() || p.len() > s.len() - i {
        return false;
    }
    occurs_here(s, p, i)
}

/// `str::trim_start_matches` with a text pattern: the text without all the
/// copies of `p` that it starts with, one after the other.
pub open spec fn strip_prefixes(s: Seq<char>, p: Seq<char>) -> Seq<char>
    decreases s.len(),
{
    if p.len() > 0 && p.is_prefix_of(s) {
        strip_prefixes(s.skip(p.len() as int), p)
    } else {
        s
    }
}

/// `str::trim_start_matches` with a text pattern.
pub fn trim_start_matches(s: &Vec<char>, p: &Vec<char>) -> (out: Vec<char>)
    ensures
        out@ == strip_prefixes(s@, p@),
{
    if p.len() == 0 {
        return s.clone();
    }
    let mut a: usize = 0;
    proof {
        assert(s@.skip(0) =~= s@);
    }
    while occurs_at_index(s, p, a)
        invariant
            a <= s.len(),
            p.len() > 0,
            strip_prefixes(s@.skip(a as int), p@) == strip_prefixes(s@, p@),
        decreases s.len() - a,
    {
        proof {
            assert(s@.skip(a as int).subrange(0, p@.len() as int) =~= s@.subrange(
                a as int,
                a + p@.len(),
            ));
            assert(s@.skip(a as int).skip(p@.len() as int) =~= s@.skip(a + p@.len()));
        }
        a = a + p.len();
    }
    proof {
        if p@.is_prefix_of(s@.skip(a as int)) {
            assert(s@.skip(a as int).subrange(0, p@.len() as int) =~= s@.subrange(
                a as int,
                a + p@.len(),
            ));
        }
    }
    sub_chars(s, a, s.len())
}

/// The first index at which `p` stands in `s`, if any.
pub fn find(s: &Vec<char>, p: &Vec<char>) -> (r: Option<usize>)
    ensures
        r matches Some(i) ==> first_occurrence(s@, p@, i as int),
        r is None ==> !contains(s@, p@),
{
    if p.len() > s.len() {
        return None;
    }
    if p.len() == 0 {
        proof {
            assert(s@.subrange(0, 0) =~= p@);
        }
        return Some(0);
    }
    let last = s.len() - p.len();
    let mut i: usize = 0;
    while i <= last
        invariant
            1 <= p.len() <= s.len(),
            last == s.len() - p.len(),
            i <= last + 1,
            forall|j: int| 0 <= j < i ==> !occurs_at(s@, p@, j),
        decreases last + 1 - i,
    {
        if occurs_here(s, p, i) {
            return Some(i);
        }
        i += 1;
    }
    None
}

/// `str::contains` with a text pattern.
pub fn contains_chars(s: &Vec<char>, p: &Vec<char>) -> (b: bool)
    ensures
        b == contains(s@, p@),
{
    match find(s, p) {
        Some(_) => true,
        None => false,
    }
}

/// `str::split_once` with a text pattern: the text before the first
/// occurrence of `p` and the text after it.
pub open spec fn split_once(s: Seq<char>, p: Seq<char>) -> Option<(Seq<char>, Seq<char>)> {
    if exists|i: int| first_occurrence(s, p, i) {
        let i = choose|i: int| first_occurrence(s, p, i);
        Some((s.take(i), s.skip(i + p.len())))
    } else {
        None
    }
}

pub proof fn lemma_first_occurrence_unique(s: Seq<char>, p: Seq<char>, i: int, j: int)
    requires
        first_occurrence(s, p, i),
        first_occurrence(s, p, j),
    ensures
        i == j,
{
}

/// `str::split_once` with a text pattern.
pub fn split_once_chars(s: &Vec<char>, p: &Vec<char>) -> (r: Option<(Vec<char>, Vec<char>)>)
    ensures
        match r {
            Some((a, b)) => split_once(s@, p@) == Some((a@, b@)),
            None => split_once(s@, p@) is None,
        },
{
    match find(s, p) {
        Some(i) => {
            let a = sub_chars(s, 0, i);
            let b = sub_chars(s, i + p.len(), s.len());
            proof {
                let c = choose|k: int| first_occurrence(s@, p@, k);
                lemma_first_occurrence_unique(s@, p@, i as int, c);
                assert(a@ =~= s@.take(i as int));
                assert(b@ =~= s@.skip(i + p.len()));
            }
            Some((a, b))
        },
        None => {
            proof {
                assert(!exists|i: int| first_occurrence(s@, p@, i));
            }
            None
        },
    }
}

/// The name of what `str::to_lowercase` gives for a text: the Unicode
/// lowercase mapping of each of its characters, one after the other.
pub uninterp spec fn lowercase(s: Seq<char>) -> Seq<char>;

/// `str::to_lowercase`. Its result is named, not stated: the Unicode case
/// tables it follows are not written out here.
#[verifier::external_body]
pub(crate) fn to_lowercase(s: &str) -> (r: String)
    ensures
        r@ == lowercase(s@),
{
    s.to_lowercase()
}

/// Whether two character vectors hold the same text.
pub fn chars_equal(a: &Vec<char>, b: &Vec<char>) -> (r: bool)
    ensures
        r == (a@ == b@),
{
    if a.len() != b.len() {
        return false;
    }
    let mut i: usize = 0;
    while i < a.len()
        invariant
            i <= a.len() == b.len(),
            forall|j: int| 0 <= j < i ==> a@[j] == b@[j],
        decreases a.len() - i,
    {
        if a[i] != b[i] {
            return false;
        }
        i += 1;
    }
    proof {
        assert(a@ =~= b@);
    }
    true
}

/// `v` followed by `w`.
pub fn concat_chars(v: &Vec<char>, w: &Vec<char>) -> (out: Vec<char>)
    ensures
        out@ == v@ + w@,
{
    let mut out = v.clone();
    let mut i: usize = 0;
    proof {
        assert(out@ =~= v@ + w@.take(0));
    }
    while i < w.len()
        invariant
            i <= w.len(),
            out@ == v@ + w@.take(i as int),
        decreases w.len() - i,
    {
        out.push(w[i]);
        proof {
            assert(out@ =~= v@ + w@.take(i + 1));
        }
        i += 1;
    }
    proof {
        assert(w@.take(w.len() as int) =~= w@);
    }
    out
}

/// The text of `v`.
pub fn text_of(v: &Vec<char>) -> (s: String)
    ensures
        s@ == v@,
{
    string_from_chars(v.as_slice())
}

/// The texts of a sequence of character vectors.
pub fn texts_of(v: &Vec<Vec<char>>) -> (out: Vec<String>)
    ensures
        out@.map_values(|s: String| s@) == views(v@),
{
    let mut out: Vec<String> = Vec::new();
    let mut i: usize = 0;
    while i < v.len()
        invariant
            i <= v.len(),
            out@.map_values(|s: String| s@) == views(v@).take(i as int),
        decreases v.len() - i,
    {
        let ghost before = out@;
        let t = text_of(&v[i]);
        out.push(t);
        proof {
            assert(out@ == before.push(t));
            assert(out@.map_values(|s: String| s@) =~= before.map_values(|s: String| s@).push(t@));
            assert(views(v@).take(i + 1) =~= views(v@).take(i as int).push(v@[i as int]@));
        }
        i += 1;
    }
    proof {
        assert(views(v@).take(v.len() as int) =~= views(v@));
    }
    out
}

} // verus!
