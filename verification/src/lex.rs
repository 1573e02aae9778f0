//! Splitting source text into lines and words, and trimming white space, over characters.
use vstd::prelude::*;
use crate::text::push_char;

verus! {

/// Whether `c` is white space in the Unicode sense (`char::is_whitespace`).
pub open spec fn is_ws(c: char) -> bool {
    ('\u{9}' <= c && c <= '\u{d}') || c == ' ' || c == '\u{85}' || c == '\u{a0}' || c == '\u{1680}'
        || ('\u{2000}' <= c && c <= '\u{200a}') || c == '\u{2028}' || c == '\u{2029}' || c == '\u{202f}'
        || c == '\u{205f}' || c == '\u{3000}'
}

/// Whether `c` is white space in the Unicode sense.
pub fn is_whitespace(c: char) -> (b: bool)
    ensures
        b == is_ws(c),
{
    ('\u{9}' <= c && c <= '\u{d}') || c == ' ' || c == '\u{85}' || c == '\u{a0}' || c == '\u{1680}'
        || ('\u{2000}' <= c && c <= '\u{200a}') || c == '\u{2028}' || c == '\u{2029}' || c == '\u{202f}'
        || c == '\u{205f}' || c == '\u{3000}'
}

/// `s` without leading white space.
pub open spec fn trim_start(s: Seq<char>) -> Seq<char>
    decreases s.len(),
{
    if s.len() > 0 && is_ws(s[0]) { trim_start(s.drop_first()) } else { s }
}

/// `s` without trailing white space.
pub open spec fn trim_end(s: Seq<char>) -> Seq<char>
    decreases s.len(),
{
    if s.len() > 0 && is_ws(s.last()) { trim_end(s.drop_last()) } else { s }
}

/// `s` without leading and trailing white space.
pub open spec fn trim(s: Seq<char>) -> Seq<char> {
    trim_end(trim_start(s))
}

/// The number of leading characters of `s` that are not white space.
pub open spec fn word_len(s: Seq<char>) -> nat
    decreases s.len(),
{
    if s.len() == 0 || is_ws(s[0]) { 0 } else { 1 + word_len(s.drop_first()) }
}

/// The first white-space-separated word of `s` and what follows it, if `s` has a word.
pub open spec fn next_word(s: Seq<char>) -> Option<(Seq<char>, Seq<char>)> {
    let t = trim_start(s);
    if t.len() == 0 {
        None
    } else {
        Some((t.take(word_len(t) as int), t.skip(word_len(t) as int)))
    }
}

/// Whether `w` is one word: not empty, and without white space.
pub open spec fn is_word(w: Seq<char>) -> bool {
    w.len() > 0 && forall|i: int| 0 <= i < w.len() ==> !is_ws(#[trigger] w[i])
}

proof fn lemma_word_len_concat(w: Seq<char>, rest: Seq<char>)
    requires
        forall|i: int| 0 <= i < w.len() ==> !is_ws(#[trigger] w[i]),
        rest.len() == 0 || is_ws(rest[0]),
    ensures
        word_len(w + rest) == w.len(),
    decreases w.len(),
{
    if w.len() == 0 {
        assert(w + rest =~= rest);
    } else {
        assert((w + rest).drop_first() =~= w.drop_first() + rest);
        assert(!is_ws(w[0]));
        assert forall|i: int| 0 <= i < w.drop_first().len() implies !is_ws(#[trigger] w.drop_first()[i]) by {
            assert(w.drop_first()[i] == w[i + 1]);
        }
        lemma_word_len_concat(w.drop_first(), rest);
    }
}

/// A word followed by nothing or by white space is the first word.
pub proof fn lemma_next_word_of_word(w: Seq<char>, rest: Seq<char>)
    requires
        is_word(w),
        rest.len() == 0 || is_ws(rest[0]),
    ensures
        next_word(w + rest) == Some((w, rest)),
{
    let s = w + rest;
    assert(s[0] == w[0]);
    assert(!is_ws(s[0]));
    assert(trim_start(s) == s);
    lemma_word_len_concat(w, rest);
    assert(s.take(w.len() as int) =~= w);
    assert(s.skip(w.len() as int) =~= rest);
}

/// Nothing holds no word.
pub proof fn lemma_next_word_empty()
    ensures
        next_word(Seq::<char>::empty()) is None,
{
}

/// A leading space does not change what the first word is.
pub proof fn lemma_next_word_after_space(x: Seq<char>)
    ensures
        next_word(seq![' '] + x) == next_word(x),
{
    assert((seq![' '] + x).drop_first() =~= x);
    assert(trim_start(seq![' '] + x) == trim_start(x));
}

/// The position of the first `//` in `s`, if any.
pub open spec fn find_comment(s: Seq<char>) -> Option<nat>
    decreases s.len(),
{
    if s.len() < 2 {
        None
    } else if s[0] == '/' && s[1] == '/' {
        Some(0)
    } else {
        match find_comment(s.drop_first()) {
            Some(i) => Some(i + 1),
            None => None,
        }
    }
}

/// `s` up to its first `//`.
pub open spec fn strip_comment(s: Seq<char>) -> Seq<char> {
    match find_comment(s) {
        Some(i) => s.take(i as int),
        None => s,
    }
}

/// A comment runs from the first `//` to the end of the line: what is left of `s` is the part
/// before the first `//`, and all of `s` when it has none.
pub proof fn lemma_strip_comment(s: Seq<char>)
    ensures
        ({
            let r = strip_comment(s);
            &&& r.len() <= s.len()
            &&& r == s.take(r.len() as int)
            &&& forall|i: int| 0 <= i < r.len() && i + 1 < s.len() ==> !(#[trigger] s[i] == '/' && s[i + 1] == '/')
            &&& r.len() < s.len() ==> r.len() + 1 < s.len() && s[r.len() as int] == '/' && s[r.len() as int + 1] == '/'
        }),
{
    lemma_find_comment(s);
    if find_comment(s) is None {
        assert(s.take(s.len() as int) =~= s);
    }
}

/// Where `find_comment` points, and that no `//` comes before it.
proof fn lemma_find_comment(s: Seq<char>)
    ensures
        find_comment(s) matches Some(k) ==> k + 1 < s.len() && s[k as int] == '/' && s[k as int + 1] == '/'
            && forall|i: int| 0 <= i < k ==> !(#[trigger] s[i] == '/' && s[i + 1] == '/'),
        find_comment(s) is None ==> forall|i: int| 0 <= i && i + 1 < s.len() ==> !(#[trigger] s[i] == '/' && s[i + 1] == '/'),
    decreases s.len(),
{
    if s.len() >= 2 && !(s[0] == '/' && s[1] == '/') {
        let t = s.drop_first();
        lemma_find_comment(t);
        assert forall|i: int| 0 <= i && i + 1 < s.len() && (find_comment(s) matches Some(k) ==> i < k)
            implies !(#[trigger] s[i] == '/' && s[i + 1] == '/') by {
            if i > 0 {
                assert(s[i] == t[i - 1] && s[i + 1] == t[i]);
            }
        }
    }
}

/// The position of the first line feed in `s`, if any.
pub open spec fn find_newline(s: Seq<char>) -> Option<nat>
    decreases s.len(),
{
    if s.len() == 0 {
        None
    } else if s[0] == '\n' {
        Some(0)
    } else {
        match find_newline(s.drop_first()) {
            Some(i) => Some(i + 1),
            None => None,
        }
    }
}

/// A line feed found is inside `s`.
pub proof fn lemma_find_newline(s: Seq<char>)
    ensures
        find_newline(s) matches Some(i) ==> i < s.len() && s[i as int] == '\n',
    decreases s.len(),
{
    if s.len() > 0 && s[0] != '\n' {
        lemma_find_newline(s.drop_first());
    }
}

/// Trimmed text is empty or starts with a character that is not white space.
pub proof fn lemma_trim_start(s: Seq<char>)
    ensures
        trim_start(s).len() == 0 || !is_ws(trim_start(s)[0]),
        trim_start(s).len() <= s.len(),
    decreases s.len(),
{
    if s.len() > 0 && is_ws(s[0]) {
        lemma_trim_start(s.drop_first());
    }
}

/// The lines of `s`: the pieces between line feeds, without a last empty piece.
///
/// A carriage return before a line feed stays in its line; every caller trims lines,
/// which removes it.
pub open spec fn lines(s: Seq<char>) -> Seq<Seq<char>>
    decreases s.len(),
{
    if s.len() == 0 {
        seq![]
    } else {
        match find_newline(s) {
            None => seq![s],
            Some(i) => {
                proof { lemma_find_newline(s); }
                seq![s.take(i as int)] + lines(s.skip(i + 1 as int))
            },
        }
    }
}

/// There are no more lines than characters.
pub proof fn lemma_lines_len(s: Seq<char>)
    ensures
        lines(s).len() <= s.len(),
    decreases s.len(),
{
    if s.len() > 0 {
        lemma_find_newline(s);
        if let Some(i) = find_newline(s) {
            lemma_lines_len(s.skip(i + 1 as int));
        }
    }
}

/// The characters of `s`.
pub fn chars_of(s: &str) -> (v: Vec<char>)
    ensures
        v@ == s@,
{
    let mut v: Vec<char> = Vec::new();
    for c in it: s.chars()
        invariant
            v@ == it.seq().take(it.index() as int),
            it.seq() == s@,
    {
        v.push(c);
        proof { assert(v@ =~= it.seq().take(it.index() + 1)); }
    }
    proof { assert(v@ =~= s@); }
    v
}

/// The string of the characters `v[lo..hi]`.
pub fn string_of(v: &[char], lo: usize, hi: usize) -> (r: String)
    requires
        lo <= hi <= v@.len(),
    ensures
        r@ == v@.subrange(lo as int, hi as int),
{
    let mut r = String::new();
    let mut i = lo;
    while i < hi
        invariant
            lo <= i <= hi <= v@.len(),
            r@ == v@.subrange(lo as int, i as int),
        decreases hi - i,
    {
        push_char(&mut r, v[i]);
        i += 1;
        proof { assert(r@ =~= v@.subrange(lo as int, i as int)); }
    }
    r
}

/// The window `v[lo..hi]` without leading white space: its new start.
pub fn skip_ws(v: &[char], lo: usize, hi: usize) -> (r: usize)
    requires
        lo <= hi <= v@.len(),
    ensures
        lo <= r <= hi,
        v@.subrange(r as int, hi as int) == trim_start(v@.subrange(lo as int, hi as int)),
{
    let mut i = lo;
    while i < hi && is_whitespace(v[i])
        invariant
            lo <= i <= hi <= v@.len(),
            trim_start(v@.subrange(i as int, hi as int)) == trim_start(v@.subrange(lo as int, hi as int)),
        decreases hi - i,
    {
        proof { assert(v@.subrange(i as int, hi as int).drop_first() =~= v@.subrange(i + 1, hi as int)); }
        i += 1;
    }
    proof {
        let t = v@.subrange(i as int, hi as int);
        assert(t.len() == 0 || !is_ws(t[0]));
    }
    i
}

/// The window `v[lo..hi]` without trailing white space: its new end.
pub fn skip_ws_back(v: &[char], lo: usize, hi: usize) -> (r: usize)
    requires
        lo <= hi <= v@.len(),
    ensures
        lo <= r <= hi,
        v@.subrange(lo as int, r as int) == trim_end(v@.subrange(lo as int, hi as int)),
{
    let mut j = hi;
    while j > lo && is_whitespace(v[j - 1])
        invariant
            lo <= j <= hi <= v@.len(),
            trim_end(v@.subrange(lo as int, j as int)) == trim_end(v@.subrange(lo as int, hi as int)),
        decreases j - lo,
    {
        proof { assert(v@.subrange(lo as int, j as int).drop_last() =~= v@.subrange(lo as int, j - 1)); }
        j -= 1;
    }
    proof {
        let t = v@.subrange(lo as int, j as int);
        assert(t.len() == 0 || !is_ws(t.last()));
    }
    j
}

/// The end of the first word of the window `v[lo..hi]`, which starts at `lo`.
pub fn word_end(v: &[char], lo: usize, hi: usize) -> (r: usize)
    requires
        lo <= hi <= v@.len(),
    ensures
        lo <= r <= hi,
        r - lo == word_len(v@.subrange(lo as int, hi as int)),
{
    let mut i = lo;
    while i < hi && !is_whitespace(v[i])
        invariant
            lo <= i <= hi <= v@.len(),
            (i - lo) + word_len(v@.subrange(i as int, hi as int)) == word_len(v@.subrange(lo as int, hi as int)),
        decreases hi - i,
    {
        proof { assert(v@.subrange(i as int, hi as int).drop_first() =~= v@.subrange(i + 1, hi as int)); }
        i += 1;
    }
    i
}

/// The first word of the window `v[lo..hi]`, as its bounds, if there is one.
pub fn find_word(v: &[char], lo: usize, hi: usize) -> (r: Option<(usize, usize)>)
    requires
        lo <= hi <= v@.len(),
    ensures
        match next_word(v@.subrange(lo as int, hi as int)) {
            None => r is None,
            Some((w, rest)) => r matches Some((a, b)) && lo <= a < b <= hi && w == v@.subrange(a as int, b as int)
                && rest == v@.subrange(b as int, hi as int),
        },
{
    let a = skip_ws(v, lo, hi);
    if a == hi {
        return None;
    }
    let b = word_end(v, a, hi);
    proof {
        let t = v@.subrange(a as int, hi as int);
        assert(t.take(word_len(t) as int) =~= v@.subrange(a as int, b as int));
        assert(t.skip(word_len(t) as int) =~= v@.subrange(b as int, hi as int));
        lemma_trim_start(v@.subrange(lo as int, hi as int));
        assert(!is_ws(t[0]));
    }
    Some((a, b))
}

/// The end of the window `v[lo..hi]` cut at its first `//`.
pub fn comment_cut(v: &[char], lo: usize, hi: usize) -> (r: usize)
    requires
        lo <= hi <= v@.len(),
    ensures
        lo <= r <= hi,
        v@.subrange(lo as int, r as int) == strip_comment(v@.subrange(lo as int, hi as int)),
{
    let mut i = lo;
    while hi - i >= 2
        invariant
            lo <= i <= hi <= v@.len(),
            find_comment(v@.subrange(lo as int, hi as int)) == match find_comment(v@.subrange(i as int, hi as int)) {
                Some(k) => Some((k + (i - lo)) as nat),
                None => None,
            },
        decreases hi - i,
    {
        if v[i] == '/' && v[i + 1] == '/' {
            proof {
                assert(find_comment(v@.subrange(i as int, hi as int)) == Some(0nat));
                assert(v@.subrange(lo as int, hi as int).take(i - lo) =~= v@.subrange(lo as int, i as int));
            }
            return i;
        }
        proof { assert(v@.subrange(i as int, hi as int).drop_first() =~= v@.subrange(i + 1, hi as int)); }
        i += 1;
    }
    proof { assert(find_comment(v@.subrange(i as int, hi as int)) is None); }
    hi
}

/// The bounds of the lines of `v`, in order.
pub fn line_bounds(v: &[char]) -> (r: Vec<(usize, usize)>)
    ensures
        r@.len() == lines(v@).len(),
        forall|k: int| #![trigger r@[k]] 0 <= k < r@.len() ==> {
            &&& r@[k].0 <= r@[k].1 && r@[k].1 <= v@.len()
            &&& lines(v@)[k] == v@.subrange(r@[k].0 as int, r@[k].1 as int)
        },
{
    let mut r: Vec<(usize, usize)> = Vec::new();
    let mut start: usize = 0;
    let mut i: usize = 0;
    let ghost mut done: Seq<Seq<char>> = seq![];
    proof {
        assert(v@.skip(0) =~= v@);
        assert(v@.subrange(0, v@.len() as int) =~= v@);
    }
    while i < v.len()
        invariant
            start <= i <= v@.len(),
            lines(v@) == done + lines(v@.skip(start as int)),
            find_newline(v@.skip(start as int)) == match find_newline(v@.subrange(i as int, v@.len() as int)) {
                Some(k) => Some((k + (i - start)) as nat),
                None => None,
            },
            r@.len() == done.len(),
            forall|k: int| #![trigger r@[k]] 0 <= k < r@.len() ==> {
                &&& r@[k].0 <= r@[k].1 && r@[k].1 <= v@.len()
                &&& done[k] == v@.subrange(r@[k].0 as int, r@[k].1 as int)
            },
        decreases v@.len() - i,
    {
        let ghost old_r = r@;
        let ghost old_done = done;
        if v[i] == '\n' {
            proof {
                let t = v@.skip(start as int);
                assert(find_newline(v@.subrange(i as int, v@.len() as int)) == Some(0nat));
                assert(t.len() > 0);
                assert(t.take(i - start) =~= v@.subrange(start as int, i as int));
                assert(t.skip(i - start + 1) =~= v@.skip(i + 1));
                assert(lines(t) == seq![t.take(i - start)] + lines(t.skip(i - start + 1)));
                done = done.push(v@.subrange(start as int, i as int));
                assert(lines(v@) =~= done + lines(v@.skip(i + 1)));
                assert(v@.skip(i + 1) =~= v@.subrange(i + 1, v@.len() as int));
            }
            r.push((start, i));
            proof {
                assert forall|k: int| 0 <= k < r@.len() implies {
                    &&& #[trigger] r@[k].0 <= r@[k].1 && r@[k].1 <= v@.len()
                    &&& done[k] == v@.subrange(r@[k].0 as int, r@[k].1 as int)
                } by {
                    if k < r@.len() - 1 {
                        assert(r@[k] == old_r[k]);
                        assert(done[k] == old_done[k]);
                        assert(old_r[k].0 <= old_r[k].1);
                    } else {
                        assert(r@[k] == (start, i));
                    }
                }
            }
            start = i + 1;
        } else {
            proof {
                assert(v@.subrange(i as int, v@.len() as int).drop_first() =~= v@.subrange(i + 1, v@.len() as int));
                assert(r@ == old_r);
                assert(done == old_done);
            }
        }
        i += 1;
    }
    proof {
        assert(find_newline(v@.subrange(i as int, v@.len() as int)) is None);
    }
    let ghost old_r = r@;
    let ghost old_done = done;
    if start < v.len() {
        proof {
            let t = v@.skip(start as int);
            assert(lines(t) == seq![t]);
            assert(t =~= v@.subrange(start as int, v@.len() as int));
            done = done.push(t);
            assert(lines(v@) =~= done);
        }
        r.push((start, v.len()));
        proof {
            assert forall|k: int| 0 <= k < r@.len() implies {
                &&& #[trigger] r@[k].0 <= r@[k].1 && r@[k].1 <= v@.len()
                &&& done[k] == v@.subrange(r@[k].0 as int, r@[k].1 as int)
            } by {
                if k < r@.len() - 1 {
                    assert(r@[k] == old_r[k]);
                    assert(done[k] == old_done[k]);
                }
            }
        }
    } else {
        proof {
            assert(v@.skip(start as int).len() == 0);
            assert(lines(v@) =~= done);
        }
    }
    r
}

} // verus!
