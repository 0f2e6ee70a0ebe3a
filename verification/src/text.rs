//! Operations on text, specified over sequences of characters.
//!
//! Every function here takes and returns string slices and is described by a
//! spec function on `Seq<char>`, the view of a string. Positions are counted
//! in characters, never in bytes.

use vstd::prelude::*;
use vstd::string::*;

verus! {

/// The characters with the Unicode property `White_Space`.
pub open spec fn is_whitespace(c: char) -> bool {
    let n = c as u32;
    ||| 0x09 <= n <= 0x0D
    ||| n == 0x20
    ||| n == 0x85
    ||| n == 0xA0
    ||| n == 0x1680
    ||| 0x2000 <= n <= 0x200A
    ||| n == 0x2028
    ||| n == 0x2029
    ||| n == 0x202F
    ||| n == 0x205F
    ||| n == 0x3000
}

/// `pat` stands in `s` at position `i`.
pub open spec fn matches_at(s: Seq<char>, pat: Seq<char>, i: int) -> bool {
    &&& 0 <= i
    &&& i + pat.len() <= s.len()
    &&& s.subrange(i, i + pat.len()) == pat
}

/// `i` is the leftmost position at which `pat` stands in `s`.
pub open spec fn is_first_match(s: Seq<char>, pat: Seq<char>, i: int) -> bool {
    &&& matches_at(s, pat, i)
    &&& forall|j: int| 0 <= j < i ==> !matches_at(s, pat, j)
}

/// `i` is the rightmost position at which `pat` stands in `s`.
pub open spec fn is_last_match(s: Seq<char>, pat: Seq<char>, i: int) -> bool {
    &&& matches_at(s, pat, i)
    &&& forall|j: int| i < j ==> !matches_at(s, pat, j)
}

/// The leftmost position of `pat` in `s`, if it occurs at all.
pub open spec fn find(s: Seq<char>, pat: Seq<char>) -> Option<int> {
    if exists|i: int| is_first_match(s, pat, i) {
        Some(choose|i: int| is_first_match(s, pat, i))
    } else {
        None
    }
}

/// The rightmost position of `pat` in `s`, if it occurs at all.
pub open spec fn rfind(s: Seq<char>, pat: Seq<char>) -> Option<int> {
    if exists|i: int| is_last_match(s, pat, i) {
        Some(choose|i: int| is_last_match(s, pat, i))
    } else {
        None
    }
}

/// The text before and after the leftmost `pat`.
pub open spec fn spec_split_once(s: Seq<char>, pat: Seq<char>) -> Option<(Seq<char>, Seq<char>)> {
    match find(s, pat) {
        Some(i) => Some((s.take(i), s.skip(i + pat.len()))),
        None => None,
    }
}

/// The text before and after the rightmost `pat`.
pub open spec fn spec_rsplit_once(s: Seq<char>, pat: Seq<char>) -> Option<(Seq<char>, Seq<char>)> {
    match rfind(s, pat) {
        Some(i) => Some((s.take(i), s.skip(i + pat.len()))),
        None => None,
    }
}

/// The pieces of `s` between successive occurrences of `pat`, taken from the
/// left. A text without `pat` is one piece; an empty `pat` separates nothing.
pub open spec fn spec_split(s: Seq<char>, pat: Seq<char>) -> Seq<Seq<char>>
    decreases s.len(),
{
    match find(s, pat) {
        Some(i) if pat.len() > 0 && 0 <= i && i + pat.len() <= s.len() => seq![s.take(i)]
            + spec_split(s.skip(i + pat.len()), pat),
        _ => seq![s],
    }
}

/// The length of the longest prefix of `s` that holds no white space.
pub open spec fn word_len(s: Seq<char>) -> int
    decreases s.len(),
{
    if s.len() == 0 || is_whitespace(s[0]) {
        0
    } else {
        1 + word_len(s.drop_first())
    }
}

/// The maximal runs of characters of `s` that are not white space, in order.
pub open spec fn words(s: Seq<char>) -> Seq<Seq<char>>
    decreases s.len(),
    via words_decreases
{
    if s.len() == 0 {
        Seq::empty()
    } else if is_whitespace(s[0]) {
        words(s.drop_first())
    } else {
        seq![s.take(word_len(s))] + words(s.skip(word_len(s)))
    }
}

#[via_fn]
proof fn words_decreases(s: Seq<char>) {
    lemma_word_len_bounds(s);
}

/// A word is no longer than its text, and not empty where the text starts
/// with a character that is not white space.
pub proof fn lemma_word_len_bounds(s: Seq<char>)
    ensures
        0 <= word_len(s) <= s.len(),
        s.len() > 0 && !is_whitespace(s[0]) ==> word_len(s) >= 1,
    decreases s.len(),
{
    if s.len() > 0 && !is_whitespace(s[0]) {
        lemma_word_len_bounds(s.drop_first());
    }
}

/// `s` without its leading white space.
pub open spec fn trim_start(s: Seq<char>) -> Seq<char>
    decreases s.len(),
{
    if s.len() > 0 && is_whitespace(s[0]) {
        trim_start(s.drop_first())
    } else {
        s
    }
}

/// `s` without its trailing white space.
pub open spec fn trim_end(s: Seq<char>) -> Seq<char>
    decreases s.len(),
{
    if s.len() > 0 && is_whitespace(s.last()) {
        trim_end(s.drop_last())
    } else {
        s
    }
}

/// `s` without its leading and trailing white space.
pub open spec fn spec_trim(s: Seq<char>) -> Seq<char> {
    trim_end(trim_start(s))
}

/// The views of a sequence of string slices.
pub open spec fn views(v: Seq<&str>) -> Seq<Seq<char>> {
    v.map_values(|s: &str| s@)
}

/// Whether `c` is white space.
pub fn char_is_whitespace(c: char) -> (r: bool)
    ensures
        r == is_whitespace(c),
{
    let n: u32 = c as u32;
    (0x09 <= n && n <= 0x0D) || n == 0x20 || n == 0x85 || n == 0xA0 || n == 0x1680 || (0x2000 <= n
        && n <= 0x200A) || n == 0x2028 || n == 0x2029 || n == 0x202F || n == 0x205F || n == 0x3000
}

/// The characters of `s`, one element each.
pub fn chars_of(s: &str) -> (v: Vec<char>)
    ensures
        v@ == s@,
{
    broadcast use vstd::string::group_string_axioms;

    let mut v: Vec<char> = Vec::new();
    for c in it: s.chars()
        invariant
            it.seq() == s@,
            v@ == it.seq().take(it.index()),
    {
        v.push(c);
    }
    v
}

/// Whether `pat` stands in `hay` at position `i`.
fn chars_match_at(hay: &Vec<char>, pat: &Vec<char>, i: usize) -> (r: bool)
    ensures
        r == matches_at(hay@, pat@, i as int),
{
    if pat.len() > hay.len() || i > hay.len() - pat.len() {
        return false;
    }
    let mut k: usize = 0;
    while k < pat.len()
        invariant
            k <= pat.len(),
            i + pat.len() <= hay.len(),
            forall|j: int| 0 <= j < k ==> hay@[i + j] == pat@[j],
        decreases pat.len() - k,
    {
        if hay[i + k] != pat[k] {
            proof {
                assert(hay@.subrange(i as int, i + pat@.len())[k as int] == hay@[i + k]);
            }
            return false;
        }
        k += 1;
    }
    proof {
        assert(hay@.subrange(i as int, i + pat@.len()) =~= pat@);
    }
    true
}

/// The leftmost position of `pat` in `hay` at or after `from`.
fn chars_find(hay: &Vec<char>, from: usize, pat: &Vec<char>) -> (r: Option<usize>)
    requires
        from <= hay.len(),
    ensures
        match r {
            Some(i) => from <= i && i + pat.len() <= hay.len() && find(hay@.skip(from as int), pat@)
                == Some(i - from),
            None => find(hay@.skip(from as int), pat@) is None,
        },
{
    let ghost rest = hay@.skip(from as int);
    let mut i: usize = from;
    loop
        invariant
            from <= i <= hay.len(),
            rest == hay@.skip(from as int),
            forall|j: int| 0 <= j < i - from ==> !matches_at(rest, pat@, j),
        decreases hay.len() - i,
    {
        proof {
            lemma_matches_at_skip(hay@, from as int, pat@, i - from);
        }
        if chars_match_at(hay, pat, i) {
            proof {
                assert(is_first_match(rest, pat@, i - from));
                lemma_first_match_unique(rest, pat@, i - from);
            }
            return Some(i);
        }
        if i == hay.len() {
            proof {
                assert forall|j: int| !is_first_match(rest, pat@, j) by {
                    if is_first_match(rest, pat@, j) {
                        assert(matches_at(rest, pat@, j));
                    }
                }
            }
            return None;
        }
        i += 1;
    }
}

/// The rightmost position of `pat` in `hay`.
fn chars_rfind(hay: &Vec<char>, pat: &Vec<char>) -> (r: Option<usize>)
    ensures
        match r {
            Some(i) => i + pat.len() <= hay.len() && rfind(hay@, pat@) == Some(i as int),
            None => rfind(hay@, pat@) is None,
        },
{
    let mut i: usize = hay.len();
    loop
        invariant
            i <= hay.len(),
            forall|j: int| i < j ==> !matches_at(hay@, pat@, j),
        decreases i,
    {
        if chars_match_at(hay, pat, i) {
            proof {
                assert(is_last_match(hay@, pat@, i as int));
                lemma_last_match_unique(hay@, pat@, i as int);
            }
            return Some(i);
        }
        if i == 0 {
            proof {
                assert forall|j: int| !is_last_match(hay@, pat@, j) by {
                    if is_last_match(hay@, pat@, j) {
                        assert(matches_at(hay@, pat@, j));
                    }
                }
            }
            return None;
        }
        i -= 1;
    }
}

/// Where `pat` stands at some position, it has a leftmost position, no
/// further right.
pub proof fn lemma_match_has_first(s: Seq<char>, pat: Seq<char>, j: int)
    requires
        matches_at(s, pat, j),
    ensures
        exists|i: int| 0 <= i <= j && is_first_match(s, pat, i),
    decreases j,
{
    if exists|k: int| 0 <= k < j && matches_at(s, pat, k) {
        let k = choose|k: int| 0 <= k < j && matches_at(s, pat, k);
        lemma_match_has_first(s, pat, k);
        let i = choose|i: int| 0 <= i <= k && is_first_match(s, pat, i);
        assert(0 <= i <= j && is_first_match(s, pat, i));
    } else {
        assert(is_first_match(s, pat, j));
    }
}

/// What `find` answers: the leftmost match, or that there is no match.
pub proof fn lemma_find(s: Seq<char>, pat: Seq<char>)
    ensures
        match find(s, pat) {
            Some(i) => is_first_match(s, pat, i),
            None => forall|j: int| !matches_at(s, pat, j),
        },
{
    if find(s, pat) is None {
        assert forall|j: int| !matches_at(s, pat, j) by {
            if matches_at(s, pat, j) {
                lemma_match_has_first(s, pat, j);
            }
        }
    }
}

/// A match in the text after position `from` is a match in the whole text,
/// `from` places further on.
pub proof fn lemma_matches_at_skip(s: Seq<char>, from: int, pat: Seq<char>, j: int)
    requires
        0 <= from <= s.len(),
        0 <= j,
    ensures
        matches_at(s.skip(from), pat, j) == matches_at(s, pat, from + j),
{
    if j + pat.len() <= s.len() - from {
        assert(s.skip(from).subrange(j, j + pat.len()) =~= s.subrange(
            from + j,
            from + j + pat.len(),
        ));
    }
}

/// A leftmost match is the one that `find` names.
pub proof fn lemma_first_match_unique(s: Seq<char>, pat: Seq<char>, i: int)
    requires
        is_first_match(s, pat, i),
    ensures
        find(s, pat) == Some(i),
{
    let j = choose|j: int| is_first_match(s, pat, j);
    assert(is_first_match(s, pat, j));
    if j < i {
        assert(!matches_at(s, pat, j));
    } else if i < j {
        assert(!matches_at(s, pat, i));
    }
}

/// A rightmost match is the one that `rfind` names.
pub proof fn lemma_last_match_unique(s: Seq<char>, pat: Seq<char>, i: int)
    requires
        is_last_match(s, pat, i),
    ensures
        rfind(s, pat) == Some(i),
{
    let j = choose|j: int| is_last_match(s, pat, j);
    assert(is_last_match(s, pat, j));
    if j < i {
        assert(!matches_at(s, pat, i));
    } else if i < j {
        assert(!matches_at(s, pat, j));
    }
}

/// Whether two string slices hold the same characters.
pub fn str_eq(a: &str, b: &str) -> (r: bool)
    ensures
        r == (a@ == b@),
{
    let x = chars_of(a);
    let y = chars_of(b);
    if x.len() != y.len() {
        return false;
    }
    let mut k: usize = 0;
    while k < x.len()
        invariant
            k <= x.len(),
            x.len() == y.len(),
            x@ == a@,
            y@ == b@,
            forall|j: int| 0 <= j < k ==> x@[j] == y@[j],
        decreases x.len() - k,
    {
        if x[k] != y[k] {
            assert(x@[k as int] != y@[k as int]);
            return false;
        }
        k += 1;
    }
    proof {
        assert(x@ =~= y@);
    }
    true
}

/// Whether `s` begins with `prefix`.
pub fn starts_with(s: &str, prefix: &str) -> (r: bool)
    ensures
        r == matches_at(s@, prefix@, 0),
{
    let hay = chars_of(s);
    let pat = chars_of(prefix);
    chars_match_at(&hay, &pat, 0)
}

/// The text of `s` after `prefix`, where `s` begins with it.
pub fn strip_prefix<'a>(s: &'a str, prefix: &str) -> (r: Option<&'a str>)
    ensures
        match r {
            Some(rest) => matches_at(s@, prefix@, 0) && rest@ == s@.skip(prefix@.len() as int),
            None => !matches_at(s@, prefix@, 0),
        },
{
    let hay = chars_of(s);
    let pat = chars_of(prefix);
    if chars_match_at(&hay, &pat, 0) {
        Some(s.substring_char(pat.len(), hay.len()))
    } else {
        None
    }
}

/// Cuts `s` at the leftmost `pat`.
pub fn split_once<'a>(s: &'a str, pat: &str) -> (r: Option<(&'a str, &'a str)>)
    ensures
        match r {
            Some((head, tail)) => spec_split_once(s@, pat@) == Some((head@, tail@)),
            None => spec_split_once(s@, pat@) is None,
        },
{
    let hay = chars_of(s);
    let p = chars_of(pat);
    proof {
        assert(hay@.skip(0) =~= hay@);
    }
    match chars_find(&hay, 0, &p) {
        Some(i) => {
            let head = s.substring_char(0, i);
            let tail = s.substring_char(i + p.len(), hay.len());
            Some((head, tail))
        },
        None => None,
    }
}

/// Cuts `s` at the rightmost `pat`.
pub fn rsplit_once<'a>(s: &'a str, pat: &str) -> (r: Option<(&'a str, &'a str)>)
    ensures
        match r {
            Some((head, tail)) => spec_rsplit_once(s@, pat@) == Some((head@, tail@)),
            None => spec_rsplit_once(s@, pat@) is None,
        },
{
    let hay = chars_of(s);
    let p = chars_of(pat);
    match chars_rfind(&hay, &p) {
        Some(i) => {
            let head = s.substring_char(0, i);
            let tail = s.substring_char(i + p.len(), hay.len());
            Some((head, tail))
        },
        None => None,
    }
}

/// The pieces of `s` between the occurrences of `pat`.
pub fn split<'a>(s: &'a str, pat: &str) -> (r: Vec<&'a str>)
    ensures
        views(r@) == spec_split(s@, pat@),
{
    let hay = chars_of(s);
    let p = chars_of(pat);
    let mut out: Vec<&'a str> = Vec::new();
    if p.len() == 0 {
        out.push(s);
        proof {
            assert(views(out@) =~= seq![s@]);
        }
        return out;
    }
    let mut pos: usize = 0;
    proof {
        assert(s@.skip(0) =~= s@);
        assert(views(out@) + spec_split(s@, pat@) =~= spec_split(s@, pat@));
    }
    loop
        invariant
            pos <= hay.len(),
            hay@ == s@,
            p@ == pat@,
            p.len() > 0,
            spec_split(s@, pat@) == views(out@) + spec_split(s@.skip(pos as int), pat@),
        decreases hay.len() - pos,
    {
        let ghost rest = s@.skip(pos as int);
        let ghost before = views(out@);
        match chars_find(&hay, pos, &p) {
            Some(i) => {
                let piece = s.substring_char(pos, i);
                out.push(piece);
                proof {
                    assert(rest.take(i - pos) =~= s@.subrange(pos as int, i as int));
                    assert(rest.skip(i - pos + p.len()) =~= s@.skip(i + p.len()));
                    assert(views(out@) =~= before.push(piece@));
                    assert(before + (seq![piece@] + spec_split(s@.skip(i + p.len()), pat@))
                        =~= before.push(piece@) + spec_split(s@.skip(i + p.len()), pat@));
                }
                pos = i + p.len();
            },
            None => {
                let piece = s.substring_char(pos, hay.len());
                out.push(piece);
                proof {
                    assert(piece@ =~= rest);
                    assert(views(out@) =~= before.push(piece@));
                    assert(before + seq![rest] =~= before.push(piece@));
                }
                return out;
            },
        }
    }
}

/// The words of `s`: its maximal runs of characters that are not white space.
pub fn split_whitespace<'a>(s: &'a str) -> (r: Vec<&'a str>)
    ensures
        views(r@) == words(s@),
{
    let hay = chars_of(s);
    let mut out: Vec<&'a str> = Vec::new();
    let mut i: usize = 0;
    proof {
        assert(s@.skip(0) =~= s@);
        assert(views(out@) + words(s@) =~= words(s@));
    }
    while i < hay.len()
        invariant
            i <= hay.len(),
            hay@ == s@,
            words(s@) == views(out@) + words(s@.skip(i as int)),
        decreases hay.len() - i,
    {
        let ghost rest = s@.skip(i as int);
        if char_is_whitespace(hay[i]) {
            proof {
                assert(rest.drop_first() =~= s@.skip(i + 1));
            }
            i += 1;
        } else {
            let mut j: usize = i + 1;
            proof {
                assert(rest.drop_first() =~= s@.skip(i + 1));
            }
            while j < hay.len() && !char_is_whitespace(hay[j])
                invariant
                    i < j <= hay.len(),
                    hay@ == s@,
                    word_len(s@.skip(i as int)) == (j - i) + word_len(s@.skip(j as int)),
                decreases hay.len() - j,
            {
                proof {
                    assert(s@.skip(j as int).drop_first() =~= s@.skip(j + 1));
                }
                j += 1;
            }
            let piece = s.substring_char(i, j);
            let ghost before = views(out@);
            out.push(piece);
            proof {
                assert(word_len(s@.skip(j as int)) == 0);
                assert(rest.take(j - i) =~= piece@);
                assert(rest.skip(j - i) =~= s@.skip(j as int));
                assert(views(out@) =~= before.push(piece@));
                assert(before + (seq![piece@] + words(s@.skip(j as int))) =~= before.push(piece@)
                    + words(s@.skip(j as int)));
            }
            i = j;
        }
    }
    proof {
        assert(views(out@) + Seq::<Seq<char>>::empty() =~= views(out@));
    }
    out
}

/// `s` without the white space at its two ends.
pub fn trim<'a>(s: &'a str) -> (r: &'a str)
    ensures
        r@ == spec_trim(s@),
{
    let hay = chars_of(s);
    let mut a: usize = 0;
    proof {
        assert(s@.skip(0) =~= s@);
    }
    while a < hay.len() && char_is_whitespace(hay[a])
        invariant
            a <= hay.len(),
            hay@ == s@,
            trim_start(s@) == trim_start(s@.skip(a as int)),
        decreases hay.len() - a,
    {
        proof {
            assert(s@.skip(a as int).drop_first() =~= s@.skip(a + 1));
        }
        a += 1;
    }
    let mut b: usize = hay.len();
    proof {
        assert(s@.subrange(a as int, b as int) =~= s@.skip(a as int));
    }
    while b > a && char_is_whitespace(hay[b - 1])
        invariant
            a <= b <= hay.len(),
            hay@ == s@,
            spec_trim(s@) == trim_end(s@.subrange(a as int, b as int)),
        decreases b,
    {
        proof {
            assert(s@.subrange(a as int, b as int).drop_last() =~= s@.subrange(a as int, b - 1));
        }
        b -= 1;
    }
    s.substring_char(a, b)
}

} // verus!
