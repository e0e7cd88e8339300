//! Character-level text operations: whitespace, trimming, splitting and
//! substring search over the characters of a string.

use vstd::prelude::*;
use vstd::string::StrSliceExecFns;
use vstd::utf8::is_ascii_chars;

verus! {

/// The Unicode `White_Space` property, which is what `char::is_whitespace` tests.
pub open spec fn is_space(c: char) -> bool {
    let u = c as u32;
    ||| (0x9 <= u && u <= 0xd)
    ||| u == 0x20
    ||| u == 0x85
    ||| u == 0xa0
    ||| u == 0x1680
    ||| (0x2000 <= u && u <= 0x200a)
    ||| u == 0x2028
    ||| u == 0x2029
    ||| u == 0x202f
    ||| u == 0x205f
    ||| u == 0x3000
}

/// Whether `c` is white space.
pub fn is_space_char(c: char) -> (res: bool)
    ensures
        res == is_space(c),
{
    let u = c as u32;
    (0x9 <= u && u <= 0xd) || u == 0x20 || u == 0x85 || u == 0xa0 || u == 0x1680 || (0x2000
        <= u && u <= 0x200a) || u == 0x2028 || u == 0x2029 || u == 0x202f || u == 0x205f || u
        == 0x3000
}

/// The lowercase form of `s`, as `str::to_lowercase` maps it: each
/// character by its Unicode lowercase mapping, with the final-sigma rule.
pub uninterp spec fn lowercase(s: Seq<char>) -> Seq<char>;

/// `c` with an ASCII capital letter made small.
pub open spec fn ascii_lower_char(c: char) -> char {
    if 65 <= (c as u32) && (c as u32) <= 90 {
        ((c as u32) + 32) as char
    } else {
        c
    }
}

/// `c` with an ASCII small letter made capital.
pub open spec fn ascii_upper_char(c: char) -> char {
    if 97 <= (c as u32) && (c as u32) <= 122 {
        ((c as u32) - 32) as char
    } else {
        c
    }
}

/// `s` with its ASCII capital letters made small.
pub open spec fn ascii_lower(s: Seq<char>) -> Seq<char> {
    s.map_values(|c: char| ascii_lower_char(c))
}

/// `s` with its ASCII small letters made capital.
pub open spec fn ascii_upper(s: Seq<char>) -> Seq<char> {
    s.map_values(|c: char| ascii_upper_char(c))
}

/// Lowercasing folds case: lowercasing a text, or the text in capitals,
/// gives the same as lowercasing the text itself, and keeps it ASCII.
pub proof fn lemma_ascii_lower_folds(s: Seq<char>)
    requires
        is_ascii_chars(s),
    ensures
        ascii_lower(ascii_lower(s)) == ascii_lower(s),
        ascii_lower(ascii_upper(s)) == ascii_lower(s),
        is_ascii_chars(ascii_lower(s)),
        is_ascii_chars(ascii_upper(s)),
{
    assert(ascii_lower(ascii_lower(s)) =~= ascii_lower(s));
    assert(ascii_lower(ascii_upper(s)) =~= ascii_lower(s));
}

/// `s` in lowercase, from `str::to_lowercase`. On ASCII text the Unicode
/// lowercase mapping only makes the capitals `A`-`Z` small.
#[verifier::external_body]
pub(crate) fn to_lowercase(s: &str) -> (r: String)
    ensures
        r@ == lowercase(s@),
        is_ascii_chars(s@) ==> r@ == ascii_lower(s@),
{
    s.to_lowercase()
}

/// The characters of `s`, in order.
pub fn chars_of(s: &str) -> (v: Vec<char>)
    ensures
        v@ == s@,
{
    broadcast use vstd::string::group_string_axioms;

    let mut v: Vec<char> = Vec::new();
    for c in it: s.chars()
        invariant
            v@ == it.seq().take(it.index()),
    {
        v.push(c);
    }
    v
}

/// `s` without its leading white space.
pub open spec fn trim_start(s: Seq<char>) -> Seq<char>
    decreases s.len(),
{
    if s.len() > 0 && is_space(s[0]) {
        trim_start(s.drop_first())
    } else {
        s
    }
}

/// `s` without its trailing white space.
pub open spec fn trim_end(s: Seq<char>) -> Seq<char>
    decreases s.len(),
{
    if s.len() > 0 && is_space(s.last()) {
        trim_end(s.drop_last())
    } else {
        s
    }
}

/// `s` without leading and trailing white space, as `str::trim` gives it.
pub open spec fn trim(s: Seq<char>) -> Seq<char> {
    trim_end(trim_start(s))
}

/// The bounds, within `lo..hi`, of the characters of `v[lo..hi]` that
/// `trim` keeps.
pub fn trim_range(v: &Vec<char>, lo: usize, hi: usize) -> (r: (usize, usize))
    requires
        lo <= hi <= v.len(),
    ensures
        lo <= r.0 <= r.1 <= hi,
        v@.subrange(r.0 as int, r.1 as int) == trim(v@.subrange(lo as int, hi as int)),
{
    let mut a = lo;
    while a < hi && is_space_char(v[a])
        invariant
            lo <= a <= hi <= v.len(),
            trim_start(v@.subrange(lo as int, hi as int)) == trim_start(
                v@.subrange(a as int, hi as int),
            ),
        decreases hi - a,
    {
        assert(v@.subrange(a as int, hi as int).drop_first() =~= v@.subrange(
            a + 1,
            hi as int,
        ));
        a = a + 1;
    }
    let mut b = hi;
    while b > a && is_space_char(v[b - 1])
        invariant
            lo <= a <= b <= hi <= v.len(),
            trim_start(v@.subrange(lo as int, hi as int)) == v@.subrange(a as int, hi as int),
            trim_end(v@.subrange(a as int, hi as int)) == trim_end(
                v@.subrange(a as int, b as int),
            ),
        decreases b - a,
    {
        assert(v@.subrange(a as int, b as int).drop_last() =~= v@.subrange(
            a as int,
            b - 1,
        ));
        b = b - 1;
    }
    (a, b)
}

/// The pieces of `s[start..]` cut at the occurrences of the non-empty
/// separator `sep`, scanning left to right from position `pos` (with
/// `start <= pos`), as `str::split` yields them: each occurrence found is
/// skipped whole, and the scan resumes right after it.
pub open spec fn split_from(s: Seq<char>, sep: Seq<char>, start: int, pos: int) -> Seq<Seq<char>>
    decreases s.len() - pos,
{
    if sep.len() == 0 || pos < 0 || pos + sep.len() > s.len() {
        seq![s.subrange(start, s.len() as int)]
    } else if s.subrange(pos, pos + sep.len()) == sep {
        seq![s.subrange(start, pos)] + split_from(s, sep, pos + sep.len(), pos + sep.len())
    } else {
        split_from(s, sep, start, pos + 1)
    }
}

/// The pieces of `s` between the occurrences of `sep`, as `s.split(sep)`
/// yields them. An empty separator matches at every character boundary, so
/// the pieces are an empty string, each character, and an empty string.
pub open spec fn split_pieces(s: Seq<char>, sep: Seq<char>) -> Seq<Seq<char>> {
    if sep.len() == 0 {
        seq![Seq::<char>::empty()] + s.map_values(|c: char| seq![c]) + seq![Seq::<char>::empty()]
    } else {
        split_from(s, sep, 0, 0)
    }
}

/// Each piece trimmed, and the pieces that are then empty left out.
pub open spec fn trimmed_nonempty(pieces: Seq<Seq<char>>) -> Seq<Seq<char>>
    decreases pieces.len(),
{
    if pieces.len() == 0 {
        Seq::empty()
    } else {
        let t = trim(pieces[0]);
        let rest = trimmed_nonempty(pieces.drop_first());
        if t.len() > 0 {
            seq![t] + rest
        } else {
            rest
        }
    }
}

/// The tags of a tag list: the list trimmed, cut at every `sep`, each piece
/// trimmed, and empty pieces dropped.
pub open spec fn tag_list(text: Seq<char>, sep: Seq<char>) -> Seq<Seq<char>> {
    trimmed_nonempty(split_pieces(trim(text), sep))
}

/// `trimmed_nonempty` distributes over concatenation.
pub proof fn lemma_trimmed_nonempty_concat(a: Seq<Seq<char>>, b: Seq<Seq<char>>)
    ensures
        trimmed_nonempty(a + b) == trimmed_nonempty(a) + trimmed_nonempty(b),
    decreases a.len(),
{
    if a.len() == 0 {
        assert(a + b =~= b);
    } else {
        lemma_trimmed_nonempty_concat(a.drop_first(), b);
        assert((a + b).drop_first() =~= a.drop_first() + b);
        assert((a + b)[0] == a[0]);
        let t = trim(a[0]);
        if t.len() > 0 {
            assert(seq![t] + (trimmed_nonempty(a.drop_first()) + trimmed_nonempty(b)) =~= (seq![
                t,
            ] + trimmed_nonempty(a.drop_first())) + trimmed_nonempty(b));
        }
    }
}

/// A single piece keeps its trimmed text, if that is not empty.
pub proof fn lemma_trimmed_nonempty_single(piece: Seq<char>)
    ensures
        trimmed_nonempty(seq![piece]) == keep_trimmed(piece),
{
    reveal_with_fuel(trimmed_nonempty, 2);
    assert(seq![piece].drop_first() =~= Seq::<Seq<char>>::empty());
    assert(seq![piece][0] == piece);
    if trim(piece).len() > 0 {
        assert(seq![trim(piece)] + Seq::<Seq<char>>::empty() =~= seq![trim(piece)]);
    }
}

/// A tag as the tag lists give it: not empty, and neither starting nor
/// ending with white space.
pub open spec fn is_clean_tag(t: Seq<char>) -> bool {
    t.len() > 0 && !is_space(t[0]) && !is_space(t.last())
}

proof fn lemma_trim_start_first(s: Seq<char>)
    ensures
        trim_start(s).len() > 0 ==> !is_space(trim_start(s)[0]),
    decreases s.len(),
{
    if s.len() > 0 && is_space(s[0]) {
        lemma_trim_start_first(s.drop_first());
    }
}

proof fn lemma_trim_end_prefix(u: Seq<char>)
    ensures
        trim_end(u).len() <= u.len(),
        trim_end(u) =~= u.take(trim_end(u).len() as int),
        trim_end(u).len() > 0 ==> !is_space(trim_end(u).last()),
    decreases u.len(),
{
    if u.len() > 0 && is_space(u.last()) {
        lemma_trim_end_prefix(u.drop_last());
        assert(u.drop_last().take(trim_end(u).len() as int) =~= u.take(trim_end(u).len() as int));
    } else {
        assert(u.take(u.len() as int) =~= u);
    }
}

/// A trimmed text, when not empty, neither starts nor ends with white space.
pub proof fn lemma_trim_clean(s: Seq<char>)
    ensures
        trim(s).len() > 0 ==> is_clean_tag(trim(s)),
{
    lemma_trim_start_first(s);
    lemma_trim_end_prefix(trim_start(s));
    if trim(s).len() > 0 {
        assert(trim(s)[0] == trim_start(s)[0]);
    }
}

/// Every piece that `trimmed_nonempty` keeps is a clean tag.
pub proof fn lemma_trimmed_nonempty_clean(pieces: Seq<Seq<char>>, k: int)
    requires
        0 <= k < trimmed_nonempty(pieces).len(),
    ensures
        is_clean_tag(trimmed_nonempty(pieces)[k]),
    decreases pieces.len(),
{
    let t = trim(pieces[0]);
    let rest = trimmed_nonempty(pieces.drop_first());
    lemma_trim_clean(pieces[0]);
    if t.len() > 0 {
        if k > 0 {
            assert((seq![t] + rest)[k] == rest[k - 1]);
            lemma_trimmed_nonempty_clean(pieces.drop_first(), k - 1);
        }
    } else {
        lemma_trimmed_nonempty_clean(pieces.drop_first(), k);
    }
}

/// Every tag of a tag list is a clean tag: not empty, and trimmed.
pub proof fn lemma_tags_are_clean(text: Seq<char>, sep: Seq<char>, k: int)
    requires
        0 <= k < tag_list(text, sep).len(),
    ensures
        is_clean_tag(tag_list(text, sep)[k]),
{
    lemma_trimmed_nonempty_clean(split_pieces(trim(text), sep), k);
}

/// Whether `needle` occurs in `hay` at position `i`.
pub open spec fn occurs_at(hay: Seq<char>, needle: Seq<char>, i: int) -> bool {
    0 <= i && i + needle.len() <= hay.len() && hay.subrange(i, i + needle.len()) == needle
}

/// Whether `needle` occurs anywhere in `hay`, as `str::contains` tests.
pub open spec fn contains_text(hay: Seq<char>, needle: Seq<char>) -> bool {
    exists|i: int| occurs_at(hay, needle, i)
}

/// Whether `needle` occurs in `hay` at position `i`.
pub fn occurs_at_exec(hay: &Vec<char>, needle: &Vec<char>, i: usize) -> (res: bool)
    ensures
        res == occurs_at(hay@, needle@, i as int),
{
    if i > hay.len() || needle.len() > hay.len() - i {
        return false;
    }
    let mut k: usize = 0;
    while k < needle.len()
        invariant
            i + needle.len() <= hay.len(),
            k <= needle.len(),
            forall|j: int| 0 <= j < k ==> hay@[i + j] == needle@[j],
        decreases needle.len() - k,
    {
        if hay[i + k] != needle[k] {
            assert(hay@.subrange(i as int, i + needle.len())[k as int] != needle@[k as int]);
            return false;
        }
        k = k + 1;
    }
    assert(hay@.subrange(i as int, i + needle.len()) =~= needle@);
    true
}

/// Whether `needle` occurs anywhere in `hay`.
pub fn contains_exec(hay: &Vec<char>, needle: &Vec<char>) -> (res: bool)
    ensures
        res == contains_text(hay@, needle@),
{
    let mut i: usize = 0;
    while i < hay.len()
        invariant
            i <= hay.len(),
            forall|j: int| 0 <= j < i ==> !occurs_at(hay@, needle@, j),
        decreases hay.len() - i,
    {
        if occurs_at_exec(hay, needle, i) {
            return true;
        }
        i = i + 1;
    }
    if occurs_at_exec(hay, needle, i) {
        return true;
    }
    assert forall|j: int| !occurs_at(hay@, needle@, j) by {
        if j > i {
            assert(j + needle@.len() > hay@.len());
        }
    }
    false
}

/// Keeps `trim(piece)` if it is not empty.
pub open spec fn keep_trimmed(piece: Seq<char>) -> Seq<Seq<char>> {
    if trim(piece).len() > 0 {
        seq![trim(piece)]
    } else {
        Seq::empty()
    }
}

/// Appends to `tags` the characters `chars[a..b]` of `src`, trimmed, unless
/// they are then empty.
fn push_trimmed(tags: &mut Vec<String>, src: &str, chars: &Vec<char>, a: usize, b: usize)
    requires
        chars@ == src@,
        a <= b <= chars.len(),
    ensures
        final(tags).deep_view() == old(tags).deep_view() + keep_trimmed(
            chars@.subrange(a as int, b as int),
        ),
{
    let (x, y) = trim_range(chars, a, b);
    if x < y {
        let piece: String = src.substring_char(x, y).to_owned();
        let ghost before = tags.deep_view();
        tags.push(piece);
        assert(tags.deep_view() =~= before + seq![trim(chars@.subrange(a as int, b as int))]);
    } else {
        assert(keep_trimmed(chars@.subrange(a as int, b as int)) =~= Seq::<Seq<char>>::empty());
        assert(tags.deep_view() =~= old(tags).deep_view() + Seq::<Seq<char>>::empty());
    }
}

/// The tags of a tag list `text` whose tags are separated by `sep`, as
/// `text.trim().split(sep)` with each piece trimmed and empty pieces dropped.
pub fn parse_tags(text: &str, sep: &str) -> (tags: Vec<String>)
    ensures
        tags.deep_view() == tag_list(text@, sep@),
{
    let g = chars_of(text);
    let (lo, hi) = trim_range(&g, 0, g.len());
    assert(g@.subrange(0, g.len() as int) =~= g@);
    let trimmed: &str = text.substring_char(lo, hi);
    let t = chars_of(trimmed);
    let s = chars_of(sep);
    let mut tags: Vec<String> = Vec::new();
    assert(tags.deep_view() =~= Seq::<Seq<char>>::empty());
    if s.len() == 0 {
        let ghost singles = t@.map_values(|c: char| seq![c]);
        let mut i: usize = 0;
        while i < t.len()
            invariant
                i <= t.len(),
                t@ == trimmed@,
                singles == t@.map_values(|c: char| seq![c]),
                tags.deep_view() == trimmed_nonempty(singles.take(i as int)),
            decreases t.len() - i,
        {
            proof {
                assert(singles.take(i + 1) =~= singles.take(i as int) + seq![seq![t@[i as int]]]);
                lemma_trimmed_nonempty_concat(singles.take(i as int), seq![seq![t@[i as int]]]);
                assert(t@.subrange(i as int, i + 1) =~= seq![t@[i as int]]);
                lemma_trimmed_nonempty_single(seq![t@[i as int]]);
            }
            push_trimmed(&mut tags, trimmed, &t, i, i + 1);
            i = i + 1;
        }
        proof {
            let e = seq![Seq::<char>::empty()];
            assert(singles.take(t@.len() as int) =~= singles);
            lemma_trimmed_nonempty_concat(e + singles, e);
            lemma_trimmed_nonempty_concat(e, singles);
            assert(trim_start(Seq::<char>::empty()) == Seq::<char>::empty());
            lemma_trimmed_nonempty_single(Seq::<char>::empty());
            assert(trimmed_nonempty(e) =~= Seq::<Seq<char>>::empty());
            assert(split_pieces(trimmed@, sep@) == e + singles + e);
        }
    } else {
        let mut start: usize = 0;
        let mut pos: usize = 0;
        while pos <= t.len() && s.len() <= t.len() - pos
            invariant
                start <= pos <= t.len(),
                s@.len() > 0,
                t@ == trimmed@,
                tags.deep_view() + trimmed_nonempty(split_from(t@, s@, start as int, pos as int))
                    == trimmed_nonempty(split_from(t@, s@, 0, 0)),
            decreases t.len() - pos,
        {
            if occurs_at_exec(&t, &s, pos) {
                let ghost before = tags.deep_view();
                let ghost rest = split_from(t@, s@, (pos + s.len()) as int, (pos + s.len()) as int);
                proof {
                    let piece = t@.subrange(start as int, pos as int);
                    assert(split_from(t@, s@, start as int, pos as int) == seq![piece] + rest);
                    assert((seq![piece] + rest)[0] == piece);
                    assert((seq![piece] + rest).drop_first() =~= rest);
                    assert(trimmed_nonempty(seq![piece] + rest) =~= keep_trimmed(piece)
                        + trimmed_nonempty(rest));
                }
                push_trimmed(&mut tags, trimmed, &t, start, pos);
                assert(tags.deep_view() + trimmed_nonempty(rest) =~= before + (keep_trimmed(
                    t@.subrange(start as int, pos as int),
                ) + trimmed_nonempty(rest)));
                pos = pos + s.len();
                start = pos;
            } else {
                pos = pos + 1;
            }
        }
        proof {
            let piece = t@.subrange(start as int, t@.len() as int);
            assert(split_from(t@, s@, start as int, pos as int) == seq![piece]);
            lemma_trimmed_nonempty_single(piece);
        }
        push_trimmed(&mut tags, trimmed, &t, start, t.len());
    }
    tags
}

} // verus!
