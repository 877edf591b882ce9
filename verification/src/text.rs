//! Character-level text helpers shared by the parsers and renderers.
//!
//! Strings are modelled by their view, the sequence of their chars.
use vstd::prelude::*;
use vstd::string::*;

verus! {

broadcast use vstd::seq_lib::group_seq_properties;

// ---------------------------------------------------------------------
// What std computes on chars and strings.
// ---------------------------------------------------------------------
/// Whether `c` has the Unicode `White_Space` property, the test that
/// `char::is_whitespace` makes.
#[verifier::opaque]
pub open spec fn is_white_space(c: char) -> bool {
    let n = c as u32;
    ||| 0x09 <= n <= 0x0d
    ||| n == 0x20
    ||| n == 0x85
    ||| n == 0xa0
    ||| n == 0x1680
    ||| 0x2000 <= n <= 0x200a
    ||| n == 0x2028
    ||| n == 0x2029
    ||| n == 0x202f
    ||| n == 0x205f
    ||| n == 0x3000
}

/// Whether `c` is Unicode white space.
pub fn char_is_whitespace(c: char) -> (r: bool)
    ensures
        r == is_white_space(c),
{
    reveal(is_white_space);
    let n = c as u32;
    (0x09 <= n && n <= 0x0d) || n == 0x20 || n == 0x85 || n == 0xa0 || n == 0x1680 || (0x2000 <= n
        && n <= 0x200a) || n == 0x2028 || n == 0x2029 || n == 0x202f || n == 0x205f || n == 0x3000
}

/// The Unicode lowercase form of a text (what `str::to_lowercase` returns).
pub uninterp spec fn lowercase(s: Seq<char>) -> Seq<char>;

/// Calls `str::to_lowercase`, which maps every char to its Unicode lowercase
/// form. The contract names the result `lowercase(s@)`: it claims only that
/// the result is a function of the chars of `s`.
#[verifier::external_body]
pub(crate) fn to_lowercase(s: &str) -> (r: String)
    ensures
        r@ == lowercase(s@),
{
    s.to_lowercase()
}

/// Calls `String::push`. The contract claims that the string afterwards is
/// the one before with `c` appended.
#[verifier::external_body]
pub(crate) fn push_char(s: &mut String, c: char)
    ensures
        final(s)@ == old(s)@.push(c),
{
    s.push(c);
}

// ---------------------------------------------------------------------
// Conversions between strings and char vectors.
// ---------------------------------------------------------------------
/// The chars of `s`, in order.
pub fn chars_of(s: &str) -> (r: Vec<char>)
    ensures
        r@ == s@,
{
    let mut out: Vec<char> = Vec::new();
    for c in it: s.chars()
        invariant
            out@ == it.seq().take(it.index() as int),
    {
        out.push(c);
    }
    out
}

/// The string made of the chars `cs[from..to]`.
pub fn string_of_range(cs: &Vec<char>, from: usize, to: usize) -> (r: String)
    requires
        from <= to <= cs.len(),
    ensures
        r@ == cs@.subrange(from as int, to as int),
{
    let mut out = String::new();
    let mut i = from;
    while i < to
        invariant
            from <= i <= to <= cs.len(),
            out@ == cs@.subrange(from as int, i as int),
        decreases to - i,
    {
        push_char(&mut out, cs[i]);
        assert(cs@.subrange(from as int, i + 1) =~= cs@.subrange(from as int, i as int).push(cs@[i as int]));
        i = i + 1;
    }
    out
}

/// The string made of all the chars of `cs`.
pub fn string_of(cs: &Vec<char>) -> (r: String)
    ensures
        r@ == cs@,
{
    let r = string_of_range(cs, 0, cs.len());
    assert(cs@.subrange(0, cs@.len() as int) =~= cs@);
    r
}

/// Appends `t` at the end of `s`.
pub fn append_str(s: &mut String, t: &str)
    ensures
        final(s)@ == old(s)@ + t@,
{
    s.append(t);
}

/// A copy of `s` as an owned string.
pub fn owned(s: &str) -> (r: String)
    ensures
        r@ == s@,
{
    String::from_str(s)
}

// ---------------------------------------------------------------------
// Prefixes, occurrences and splitting.
// ---------------------------------------------------------------------
/// `s` begins with `p`.
pub open spec fn has_prefix(s: Seq<char>, p: Seq<char>) -> bool {
    p.len() <= s.len() && s.subrange(0, p.len() as int) == p
}

/// `p` occurs in `s` at position `i`.
pub open spec fn occurs_at(s: Seq<char>, p: Seq<char>, i: int) -> bool {
    0 <= i && i + p.len() <= s.len() && s.subrange(i, i + p.len()) == p
}

/// `p` occurs somewhere in `s`.
pub open spec fn contains_text(s: Seq<char>, p: Seq<char>) -> bool {
    exists|i: int| occurs_at(s, p, i)
}

/// The position of the first occurrence of `p` in `s` at or after `i`, if any.
pub open spec fn first_occurrence_from(s: Seq<char>, p: Seq<char>, i: int) -> Option<int>
    decreases s.len() + 1 - i,
{
    if i < 0 || i + p.len() > s.len() {
        None
    } else if occurs_at(s, p, i) {
        Some(i)
    } else {
        first_occurrence_from(s, p, i + 1)
    }
}

/// The position of the first occurrence of `p` in `s`, if any.
pub open spec fn first_occurrence(s: Seq<char>, p: Seq<char>) -> Option<int> {
    first_occurrence_from(s, p, 0)
}

pub proof fn lemma_first_occurrence_from(s: Seq<char>, p: Seq<char>, i: int)
    requires
        0 <= i,
    ensures
        match first_occurrence_from(s, p, i) {
            Some(k) => i <= k && occurs_at(s, p, k) && forall|j: int| i <= j < k ==> !occurs_at(s, p, j),
            None => forall|j: int| i <= j ==> !occurs_at(s, p, j),
        },
    decreases s.len() + 1 - i,
{
    if i + p.len() > s.len() {
    } else if occurs_at(s, p, i) {
    } else {
        lemma_first_occurrence_from(s, p, i + 1);
    }
}

/// Whether `s` begins with `p`.
pub fn starts_with(s: &Vec<char>, p: &Vec<char>) -> (r: bool)
    ensures
        r == has_prefix(s@, p@),
{
    if p.len() > s.len() {
        return false;
    }
    let mut i: usize = 0;
    while i < p.len()
        invariant
            p.len() <= s.len(),
            i <= p.len(),
            forall|j: int| 0 <= j < i ==> s@[j] == p@[j],
        decreases p.len() - i,
    {
        if s[i] != p[i] {
            assert(s@.subrange(0, p@.len() as int)[i as int] != p@[i as int]);
            return false;
        }
        i = i + 1;
    }
    assert(s@.subrange(0, p@.len() as int) =~= p@);
    true
}

/// Whether `p` occurs in `s` at position `i`.
pub fn occurs_at_exec(s: &Vec<char>, p: &Vec<char>, i: usize) -> (r: bool)
    ensures
        r == occurs_at(s@, p@, i as int),
{
    if i > s.len() || p.len() > s.len() - i {
        return false;
    }
    let mut j: usize = 0;
    while j < p.len()
        invariant
            i + p.len() <= s.len(),
            j <= p.len(),
            forall|k: int| 0 <= k < j ==> s@[i + k] == p@[k],
        decreases p.len() - j,
    {
        if s[i + j] != p[j] {
            assert(s@.subrange(i as int, i + p@.len())[j as int] != p@[j as int]);
            return false;
        }
        j = j + 1;
    }
    assert(s@.subrange(i as int, i + p@.len()) =~= p@);
    true
}

/// The position of the first occurrence of `p` in `s` at or after `start`.
pub fn find_from(s: &Vec<char>, p: &Vec<char>, start: usize) -> (r: Option<usize>)
    ensures
        r matches Some(k) ==> first_occurrence_from(s@, p@, start as int) == Some(k as int),
        r is None ==> first_occurrence_from(s@, p@, start as int) is None,
{
    let mut i: usize = start;
    if i > s.len() {
        return None;
    }
    while i <= s.len()
        invariant
            start <= i <= s.len() + 1,
            first_occurrence_from(s@, p@, start as int) == first_occurrence_from(s@, p@, i as int),
        decreases s.len() + 1 - i,
    {
        if occurs_at_exec(s, p, i) {
            return Some(i);
        }
        if p.len() > s.len() - i {
            return None;
        }
        assert(i < s.len()) by {
            if i == s.len() {
                assert(s@.subrange(i as int, i as int) =~= p@);
            }
        }
        i = i + 1;
    }
    None
}

/// The position of the first occurrence of `p` in `s`.
pub fn find(s: &Vec<char>, p: &Vec<char>) -> (r: Option<usize>)
    ensures
        r matches Some(k) ==> first_occurrence(s@, p@) == Some(k as int),
        r is None ==> first_occurrence(s@, p@) is None,
{
    find_from(s, p, 0)
}

/// Whether `p` occurs anywhere in `s`.
pub fn contains(s: &Vec<char>, p: &Vec<char>) -> (r: bool)
    ensures
        r == contains_text(s@, p@),
{
    let f = find(s, p);
    proof {
        lemma_first_occurrence_from(s@, p@, 0);
    }
    f.is_some()
}

// ---------------------------------------------------------------------
// Trimming white space.
// ---------------------------------------------------------------------
/// `s` without its leading white space.
pub open spec fn trim_start(s: Seq<char>) -> Seq<char>
    decreases s.len(),
{
    if s.len() > 0 && is_white_space(s[0]) {
        trim_start(s.drop_first())
    } else {
        s
    }
}

/// `s` without its trailing white space.
pub open spec fn trim_end(s: Seq<char>) -> Seq<char>
    decreases s.len(),
{
    if s.len() > 0 && is_white_space(s.last()) {
        trim_end(s.drop_last())
    } else {
        s
    }
}

/// `s` without leading and trailing white space (what `str::trim` returns).
pub open spec fn trim(s: Seq<char>) -> Seq<char> {
    trim_end(trim_start(s))
}

proof fn lemma_trim_start_skip(s: Seq<char>, i: int)
    requires
        0 <= i <= s.len(),
        forall|j: int| 0 <= j < i ==> is_white_space(s[j]),
    ensures
        trim_start(s) == trim_start(s.skip(i)),
    decreases i,
{
    if i > 0 {
        assert(s.drop_first().skip(i - 1) =~= s.skip(i));
        lemma_trim_start_skip(s.drop_first(), i - 1);
    } else {
        assert(s.skip(0) =~= s);
    }
}

proof fn lemma_trim_end_take(s: Seq<char>, i: int)
    requires
        0 <= i <= s.len(),
        forall|j: int| i <= j < s.len() ==> is_white_space(s[j]),
    ensures
        trim_end(s) == trim_end(s.take(i)),
    decreases s.len() - i,
{
    if i < s.len() {
        assert(s.drop_last().take(i) =~= s.take(i));
        lemma_trim_end_take(s.drop_last(), i);
    } else {
        assert(s.take(i) =~= s);
    }
}

/// The chars of `s` without leading and trailing white space.
pub fn trim_chars(s: &Vec<char>) -> (r: Vec<char>)
    ensures
        r@ == trim(s@),
{
    let mut lo: usize = 0;
    while lo < s.len() && char_is_whitespace(s[lo])
        invariant
            lo <= s.len(),
            forall|j: int| 0 <= j < lo ==> is_white_space(s@[j]),
        decreases s.len() - lo,
    {
        lo = lo + 1;
    }
    proof {
        lemma_trim_start_skip(s@, lo as int);
    }
    let mut hi: usize = s.len();
    while hi > lo && char_is_whitespace(s[hi - 1])
        invariant
            lo <= hi <= s.len(),
            forall|j: int| hi <= j < s.len() ==> is_white_space(s@[j]),
        decreases hi,
    {
        hi = hi - 1;
    }
    let ghost t = s@.skip(lo as int);
    proof {
        assert forall|j: int| hi - lo <= j < t.len() implies is_white_space(t[j]) by {
            assert(t[j] == s@[lo + j]);
        }
        lemma_trim_end_take(t, hi - lo);
        assert(t.len() == 0 || !is_white_space(t[0]) || hi > lo);
        if hi == lo {
            // Either nothing is left or all is white space; trim_start ends there.
            assert(t.take(0) =~= Seq::<char>::empty());
        }
    }
    let mut out: Vec<char> = Vec::new();
    let mut i = lo;
    while i < hi
        invariant
            lo <= i <= hi <= s.len(),
            out@ == s@.subrange(lo as int, i as int),
        decreases hi - i,
    {
        out.push(s[i]);
        i = i + 1;
    }
    assert(out@ =~= t.take(hi - lo));
    proof {
        if hi == lo && t.len() > 0 {
            // All of t is white space, and trim_start of s already dropped none of it:
            // lo stopped at a non-white char or at the end, so t is empty here.
            assert(lo == s.len() || !is_white_space(s@[lo as int]));
            assert(t[0] == s@[lo as int]);
        }
    }
    out
}

/// `s` with leading and trailing white space removed.
pub fn trim_str(s: &str) -> (r: String)
    ensures
        r@ == trim(s@),
{
    let cs = chars_of(s);
    let t = trim_chars(&cs);
    string_of(&t)
}


/// Whether `a` and `b` hold the same chars.
pub fn chars_eq(a: &Vec<char>, b: &Vec<char>) -> (r: bool)
    ensures
        r == (a@ == b@),
{
    if a.len() != b.len() {
        return false;
    }
    let mut i: usize = 0;
    while i < a.len()
        invariant
            a.len() == b.len(),
            i <= a.len(),
            forall|j: int| 0 <= j < i ==> a@[j] == b@[j],
        decreases a.len() - i,
    {
        if a[i] != b[i] {
            return false;
        }
        i = i + 1;
    }
    assert(a@ =~= b@);
    true
}

proof fn lemma_first_occurrence_shift(s: Seq<char>, p: Seq<char>, i: int, j: int)
    requires
        0 <= i <= s.len(),
        0 <= j,
    ensures
        first_occurrence_from(s.skip(i), p, j) == (match first_occurrence_from(s, p, i + j) {
            Some(k) => Some(k - i),
            None => None,
        }),
    decreases s.len() + 1 - (i + j),
{
    let t = s.skip(i);
    if j + p.len() > t.len() {
    } else {
        assert(t.subrange(j, j + p.len()) =~= s.subrange(i + j, i + j + p.len()));
        if occurs_at(s, p, i + j) {
        } else {
            lemma_first_occurrence_shift(s, p, i, j + 1);
        }
    }
}

/// The pieces of `s` between the non-overlapping occurrences of `p`, taken
/// from the left (what `str::split` yields for a non-empty pattern).
pub open spec fn split_pattern(s: Seq<char>, p: Seq<char>) -> Seq<Seq<char>>
    decreases s.len(),
{
    if p.len() == 0 {
        seq![s]
    } else {
        match first_occurrence(s, p) {
            Some(i) => {
                proof {
                    lemma_first_occurrence_from(s, p, 0);
                }
                if 0 <= i && i + p.len() <= s.len() {
                    seq![s.take(i)] + split_pattern(s.skip(i + p.len()), p)
                } else {
                    seq![s]
                }
            },
            None => seq![s],
        }
    }
}

/// The views of a vector of strings.
pub open spec fn views(v: Seq<String>) -> Seq<Seq<char>> {
    v.map_values(|x: String| x@)
}

/// The pieces of `s` between the occurrences of the non-empty pattern `p`.
pub fn split_by(s: &Vec<char>, p: &Vec<char>) -> (r: Vec<String>)
    requires
        p.len() > 0,
    ensures
        views(r@) == split_pattern(s@, p@),
{
    let mut out: Vec<String> = Vec::new();
    let mut i: usize = 0;
    loop
        invariant
            p@.len() > 0,
            i <= s.len(),
            split_pattern(s@, p@) == views(out@) + split_pattern(s@.skip(i as int), p@),
        decreases s.len() - i,
    {
        let f = find_from(s, p, i);
        proof {
            lemma_first_occurrence_shift(s@, p@, i as int, 0);
            lemma_first_occurrence_from(s@, p@, i as int);
        }
        match f {
            Some(k) => {
                let piece = string_of_range(s, i, k);
                let ghost t = s@.skip(i as int);
                proof {
                    assert(first_occurrence(t, p@) == Some(k - i));
                    assert(t.take(k - i) =~= s@.subrange(i as int, k as int));
                    assert(t.skip(k - i + p@.len()) =~= s@.skip(k + p@.len()));
                }
                let ghost before = out@;
                out.push(piece);
                proof {
                    assert(views(out@) =~= views(before).push(piece@));
                }
                i = k + p.len();
                proof {
                    assert(split_pattern(s@, p@) == views(out@) + split_pattern(s@.skip(i as int), p@));
                }
            },
            None => {
                let piece = string_of_range(s, i, s.len());
                let ghost t = s@.skip(i as int);
                assert(t =~= s@.subrange(i as int, s@.len() as int));
                let ghost before = out@;
                out.push(piece);
                assert(views(out@) =~= views(before).push(piece@));
                return out;
            },
        }
    }
}

/// A line without one trailing carriage return.
pub open spec fn strip_cr(l: Seq<char>) -> Seq<char> {
    if l.len() > 0 && l.last() == '\r' {
        l.drop_last()
    } else {
        l
    }
}

/// The lines of `s` (what `str::lines` yields): the pieces between `\n`s, a
/// `\r` before a `\n` dropped, and no empty last piece after a final `\n`.
pub open spec fn lines(s: Seq<char>) -> Seq<Seq<char>> {
    let segs = split_pattern(s, seq!['\n']);
    let body = segs.drop_last().map_values(|l: Seq<char>| strip_cr(l));
    if segs.last().len() == 0 {
        body
    } else {
        body.push(segs.last())
    }
}

proof fn lemma_split_pattern_nonempty(s: Seq<char>, p: Seq<char>)
    ensures
        split_pattern(s, p).len() >= 1,
    decreases s.len(),
{
    if p.len() > 0 {
        lemma_first_occurrence_from(s, p, 0);
        match first_occurrence(s, p) {
            Some(i) => {
                if 0 <= i && i + p.len() <= s.len() {
                    lemma_split_pattern_nonempty(s.skip(i + p.len()), p);
                }
            },
            None => {},
        }
    }
}

/// The chars of `l` without one trailing carriage return.
fn strip_cr_exec(l: &String) -> (r: String)
    ensures
        r@ == strip_cr(l@),
{
    let cs = chars_of(l.as_str());
    if cs.len() > 0 && cs[cs.len() - 1] == '\r' {
        let r = string_of_range(&cs, 0, cs.len() - 1);
        assert(cs@.subrange(0, cs@.len() - 1) =~= cs@.drop_last());
        r
    } else {
        string_of(&cs)
    }
}

/// The lines of `s`, as `str::lines` yields them.
pub fn lines_of(s: &Vec<char>) -> (r: Vec<String>)
    ensures
        views(r@) == lines(s@),
{
    let nl = vec!['\n'];
    assert(nl@ =~= seq!['\n']);
    let segs = split_by(s, &nl);
    proof {
        lemma_split_pattern_nonempty(s@, nl@);
    }
    let n = segs.len();
    let mut out: Vec<String> = Vec::new();
    let mut i: usize = 0;
    while i + 1 < n
        invariant
            n == segs@.len(),
            n >= 1,
            i + 1 <= n,
            views(segs@) == split_pattern(s@, seq!['\n']),
            views(out@) == split_pattern(s@, seq!['\n']).drop_last().take(i as int).map_values(
                |l: Seq<char>| strip_cr(l),
            ),
        decreases n - i,
    {
        let line = strip_cr_exec(&segs[i]);
        out.push(line);
        proof {
            let segv = split_pattern(s@, seq!['\n']);
            assert(segv[i as int] == segs@[i as int]@);
            assert(segv.drop_last().take(i + 1).map_values(|l: Seq<char>| strip_cr(l)) =~= segv.drop_last().take(
                i as int,
            ).map_values(|l: Seq<char>| strip_cr(l)).push(strip_cr(segv[i as int])));
            assert(views(out@) =~= views(out@.drop_last()).push(line@));
        }
        i = i + 1;
    }
    let ghost segv = split_pattern(s@, seq!['\n']);
    assert(segv.drop_last().take(i as int) =~= segv.drop_last());
    assert(segv.last() == segs@[n - 1]@);
    if segs[n - 1].as_str().is_empty() {
        out
    } else {
        let last = segs[n - 1].clone();
        out.push(last);
        assert(views(out@) =~= views(out@.drop_last()).push(last@));
        out
    }
}


/// The longest prefix of `s` without white space.
pub open spec fn word_prefix(s: Seq<char>) -> Seq<char>
    decreases s.len(),
{
    if s.len() == 0 || is_white_space(s[0]) {
        seq![]
    } else {
        seq![s[0]] + word_prefix(s.drop_first())
    }
}

pub proof fn lemma_word_prefix_len(s: Seq<char>)
    ensures
        word_prefix(s).len() <= s.len(),
        s.len() > 0 && !is_white_space(s[0]) ==> word_prefix(s).len() >= 1,
    decreases s.len(),
{
    if s.len() > 0 && !is_white_space(s[0]) {
        lemma_word_prefix_len(s.drop_first());
    }
}

/// The maximal runs of non-white-space chars of `s`, in order (what
/// `str::split_whitespace` yields).
pub open spec fn words(s: Seq<char>) -> Seq<Seq<char>>
    decreases s.len(),
{
    if s.len() == 0 {
        seq![]
    } else if is_white_space(s[0]) {
        words(s.drop_first())
    } else {
        proof {
            lemma_word_prefix_len(s);
        }
        let w = word_prefix(s);
        if 1 <= w.len() <= s.len() {
            seq![w] + words(s.skip(w.len() as int))
        } else {
            seq![]
        }
    }
}

proof fn lemma_word_prefix_range(s: Seq<char>, i: int, j: int)
    requires
        0 <= i <= j <= s.len(),
        forall|k: int| i <= k < j ==> !is_white_space(s[k]),
        j == s.len() || is_white_space(s[j]),
    ensures
        word_prefix(s.skip(i)) == s.subrange(i, j),
    decreases j - i,
{
    if i < j {
        lemma_word_prefix_range(s, i + 1, j);
        assert(s.skip(i).drop_first() =~= s.skip(i + 1));
        assert(s.subrange(i, j) =~= seq![s[i]] + s.subrange(i + 1, j));
    } else {
        assert(s.subrange(i, j) =~= Seq::<char>::empty());
    }
}

proof fn lemma_words_skip_space(s: Seq<char>, i: int)
    requires
        0 <= i < s.len(),
        is_white_space(s[i]),
    ensures
        words(s.skip(i)) == words(s.skip(i + 1)),
{
    assert(s.skip(i).drop_first() =~= s.skip(i + 1));
}

proof fn lemma_words_take_word(s: Seq<char>, i: int, j: int)
    requires
        0 <= i < j <= s.len(),
        forall|k: int| i <= k < j ==> !is_white_space(s[k]),
        j == s.len() || is_white_space(s[j]),
    ensures
        words(s.skip(i)) == seq![s.subrange(i, j)] + words(s.skip(j)),
{
    lemma_word_prefix_range(s, i, j);
    assert(s.skip(i).skip(j - i) =~= s.skip(j));
    assert(s.skip(i)[0] == s[i]);
}

/// The white-space separated words of `s`, as `str::split_whitespace` yields them.
pub fn words_of(s: &Vec<char>) -> (r: Vec<String>)
    ensures
        views(r@) == words(s@),
{
    let mut out: Vec<String> = Vec::new();
    let mut i: usize = 0;
    assert(s@.skip(0) =~= s@);
    while i < s.len()
        invariant
            i <= s.len(),
            words(s@) == views(out@) + words(s@.skip(i as int)),
        decreases s.len() - i,
    {
        if char_is_whitespace(s[i]) {
            proof {
                lemma_words_skip_space(s@, i as int);
            }
            i = i + 1;
        } else {
            let mut j = i + 1;
            while j < s.len() && !char_is_whitespace(s[j])
                invariant
                    i < j <= s.len(),
                    forall|k: int| i <= k < j ==> !is_white_space(s@[k]),
                decreases s.len() - j,
            {
                j = j + 1;
            }
            proof {
                lemma_words_take_word(s@, i as int, j as int);
            }
            let w = string_of_range(s, i, j);
            let ghost before = out@;
            out.push(w);
            assert(views(out@) =~= views(before).push(w@));
            i = j;
        }
    }
    assert(s@.skip(i as int) =~= Seq::<char>::empty());
    assert(views(out@) + words(s@.skip(i as int)) =~= views(out@));
    out
}

/// The words of the text `s`.
pub fn split_whitespace(s: &str) -> (r: Vec<String>)
    ensures
        views(r@) == words(s@),
{
    let cs = chars_of(s);
    words_of(&cs)
}

/// What follows the last `c` in `s`, or all of `s` when it holds no `c`
/// (the first piece that `str::rsplit` yields).
pub open spec fn after_last(s: Seq<char>, c: char) -> Seq<char>
    decreases s.len(),
{
    if s.len() == 0 {
        s
    } else if s.last() == c {
        seq![]
    } else {
        after_last(s.drop_last(), c).push(s.last())
    }
}

/// What follows the last `c` in `s`.
pub fn after_last_exec(s: &Vec<char>, c: char) -> (r: Vec<char>)
    ensures
        r@ == after_last(s@, c),
{
    let mut start = s.len();
    while start > 0 && s[start - 1] != c
        invariant
            start <= s.len(),
            after_last(s@, c) == after_last(s@.take(start as int), c) + s@.skip(start as int),
        decreases start,
    {
        assert(s@.take(start as int).drop_last() =~= s@.take(start - 1));
        assert(s@.skip(start - 1) =~= seq![s@[start - 1]] + s@.skip(start as int));
        start = start - 1;
    }
    if start > 0 {
        assert(s@.take(start as int).last() == c);
    } else {
        assert(s@.take(0) =~= Seq::<char>::empty());
    }
    let mut out: Vec<char> = Vec::new();
    let mut i = start;
    while i < s.len()
        invariant
            start <= i <= s.len(),
            out@ == s@.subrange(start as int, i as int),
        decreases s.len() - i,
    {
        out.push(s[i]);
        i = i + 1;
    }
    assert(out@ =~= s@.skip(start as int));
    assert(after_last(s@, c) =~= out@);
    out
}

/// The parts joined with `sep` between neighbours (what `[String]::join`
/// returns).
pub open spec fn join(parts: Seq<Seq<char>>, sep: Seq<char>) -> Seq<char>
    decreases parts.len(),
{
    if parts.len() == 0 {
        seq![]
    } else if parts.len() == 1 {
        parts[0]
    } else {
        join(parts.drop_last(), sep) + sep + parts.last()
    }
}

/// The strings of `parts` joined with `sep` between neighbours, as chars.
pub fn join_chars(parts: &Vec<String>, sep: &str) -> (r: Vec<char>)
    ensures
        r@ == join(views(parts@), sep@),
{
    let mut out = String::new();
    let mut i: usize = 0;
    while i < parts.len()
        invariant
            i <= parts@.len(),
            out@ == join(views(parts@).take(i as int), sep@),
        decreases parts.len() - i,
    {
        if i > 0 {
            append_str(&mut out, sep);
        }
        append_str(&mut out, parts[i].as_str());
        proof {
            let v = views(parts@);
            assert(v.take(i + 1).drop_last() =~= v.take(i as int));
            if i == 0 {
                assert(v.take(1) =~= seq![v[0]]);
            }
        }
        i = i + 1;
    }
    assert(views(parts@).take(parts@.len() as int) =~= views(parts@));
    chars_of(out.as_str())
}

} // verus!
