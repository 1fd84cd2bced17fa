//! Character-level helpers over `&str`, each proved against a spec function on
//! the string's view.

use vstd::prelude::*;
use vstd::string::*;

verus! {

/// The characters of `s`, in order.
pub fn chars_of(s: &str) -> (r: Vec<char>)
    ensures
        r@ == s@,
{
    let n = s.unicode_len();
    let mut r: Vec<char> = Vec::new();
    let mut i: usize = 0;
    while i < n
        invariant
            n == s@.len(),
            i <= n,
            r@ == s@.subrange(0, i as int),
        decreases n - i,
    {
        r.push(s.get_char(i));
        i = i + 1;
        assert(r@ =~= s@.subrange(0, i as int));
    }
    assert(r@ =~= s@);
    r
}

/// First position at or after `from` where `c` occurs, or `s.len()` when none does.
pub open spec fn index_of(s: Seq<char>, c: char, from: int) -> int
    decreases s.len() - from,
{
    if from >= s.len() {
        s.len() as int
    } else if from >= 0 && s[from] == c {
        from
    } else {
        index_of(s, c, from + 1)
    }
}

pub proof fn lemma_index_of_bounds(s: Seq<char>, c: char, from: int)
    requires
        0 <= from,
    ensures
        from <= index_of(s, c, from) || (from > s.len() && index_of(s, c, from) == s.len()),
        index_of(s, c, from) <= s.len(),
        index_of(s, c, from) < s.len() ==> s[index_of(s, c, from)] == c,
    decreases s.len() - from,
{
    if from < s.len() && s[from] != c {
        lemma_index_of_bounds(s, c, from + 1);
    }
}

/// `index_of` finds the first occurrence, or `s.len()` when there is none.
pub proof fn lemma_index_of_first(s: Seq<char>, c: char, from: int, k: int)
    requires
        0 <= from <= k <= s.len(),
        k < s.len() ==> s[k] == c,
        forall|j: int| from <= j < k ==> s[j] != c,
    ensures
        index_of(s, c, from) == k,
    decreases k - from,
{
    if from < k {
        lemma_index_of_first(s, c, from + 1, k);
    }
}

/// Position of the first `c` in `v` at or after `from`, or `v.len()`.
pub fn find_char(v: &Vec<char>, c: char, from: usize) -> (r: usize)
    requires
        from <= v@.len(),
    ensures
        r as int == index_of(v@, c, from as int),
{
    let mut i = from;
    while i < v.len()
        invariant
            from <= i <= v@.len(),
            index_of(v@, c, from as int) == index_of(v@, c, i as int),
        decreases v@.len() - i,
    {
        if v[i] == c {
            return i;
        }
        i = i + 1;
    }
    i
}

} // verus!

verus! {

/// Unicode `White_Space`, the set of characters that `str::trim` removes.
pub open spec fn is_white_space(c: char) -> bool {
    ('\u{9}' <= c && c <= '\u{d}') || c == ' ' || c == '\u{85}' || c == '\u{a0}' || c
        == '\u{1680}' || ('\u{2000}' <= c && c <= '\u{200a}') || c == '\u{2028}' || c
        == '\u{2029}' || c == '\u{202f}' || c == '\u{205f}' || c == '\u{3000}'
}

/// First position at or after `from` that holds no white space, or `s.len()`.
pub open spec fn content_start(s: Seq<char>, from: int) -> int
    decreases s.len() - from,
{
    if from >= s.len() {
        s.len() as int
    } else if from >= 0 && !is_white_space(s[from]) {
        from
    } else {
        content_start(s, from + 1)
    }
}

/// One past the last position before `to` that holds no white space, or 0.
pub open spec fn content_end(s: Seq<char>, to: int) -> int
    decreases to,
{
    if to <= 0 {
        0
    } else if to <= s.len() && !is_white_space(s[to - 1]) {
        to
    } else {
        content_end(s, to - 1)
    }
}

/// `s` without its leading and trailing white space.
pub open spec fn trimmed(s: Seq<char>) -> Seq<char> {
    let a = content_start(s, 0);
    let b = content_end(s, s.len() as int);
    if a < b {
        s.subrange(a, b)
    } else {
        Seq::empty()
    }
}

pub fn is_white_space_char(c: char) -> (r: bool)
    ensures
        r == is_white_space(c),
{
    ('\u{9}' <= c && c <= '\u{d}') || c == ' ' || c == '\u{85}' || c == '\u{a0}' || c
        == '\u{1680}' || ('\u{2000}' <= c && c <= '\u{200a}') || c == '\u{2028}' || c
        == '\u{2029}' || c == '\u{202f}' || c == '\u{205f}' || c == '\u{3000}'
}

/// Where trimming starts and ends lies within `s`.
pub proof fn lemma_content_bounds(s: Seq<char>)
    ensures
        0 <= content_start(s, 0) <= s.len(),
        0 <= content_end(s, s.len() as int) <= s.len(),
{
    lemma_content_start_bounds(s, 0);
    lemma_content_end_bounds(s, s.len() as int);
}

proof fn lemma_content_start_bounds(s: Seq<char>, from: int)
    requires
        0 <= from,
    ensures
        content_start(s, from) <= s.len(),
        from <= s.len() ==> from <= content_start(s, from),
    decreases s.len() - from,
{
    if from < s.len() && is_white_space(s[from]) {
        lemma_content_start_bounds(s, from + 1);
    }
}

/// `content_end` lies within `s`, at or before where it starts looking.
pub proof fn lemma_content_end_bounds(s: Seq<char>, to: int)
    requires
        to <= s.len(),
    ensures
        0 <= content_end(s, to) <= s.len(),
        0 <= to ==> content_end(s, to) <= to,
    decreases to,
{
    if to > 0 && is_white_space(s[to - 1]) {
        lemma_content_end_bounds(s, to - 1);
    }
}

/// `s` with leading and trailing white space removed, as `str::trim` does.
pub fn trim_text(s: &str) -> (r: &str)
    ensures
        r@ == trimmed(s@),
{
    let v = chars_of(s);
    let n = v.len();
    let mut a: usize = 0;
    while a < n && is_white_space_char(v[a])
        invariant
            a <= n == v@.len(),
            v@ == s@,
            content_start(v@, 0) == content_start(v@, a as int),
        decreases n - a,
    {
        a = a + 1;
    }
    let mut b: usize = n;
    while b > 0 && is_white_space_char(v[b - 1])
        invariant
            b <= n == v@.len(),
            v@ == s@,
            content_end(v@, n as int) == content_end(v@, b as int),
        decreases b,
    {
        b = b - 1;
    }
    if a < b {
        s.substring_char(a, b)
    } else {
        proof {
            lemma_content_bounds(s@);
        }
        assert(trimmed(s@) =~= s@.subrange(0, 0));
        s.substring_char(0, 0)
    }
}


/// First position at or after `from` that holds white space, or `s.len()`.
pub open spec fn space_index(s: Seq<char>, from: int) -> int
    decreases s.len() - from,
{
    if from >= s.len() {
        s.len() as int
    } else if from >= 0 && is_white_space(s[from]) {
        from
    } else {
        space_index(s, from + 1)
    }
}

/// The maximal runs of characters other than white space in `s` from position
/// `from` on, in order; `str::split_whitespace` yields the same words.
pub open spec fn words_from(s: Seq<char>, from: int) -> Seq<Seq<char>>
    decreases s.len() - from,
{
    let a = content_start(s, from);
    let b = space_index(s, a);
    if from < 0 || from > s.len() || a < 0 || a >= s.len() || b <= from || b > s.len() {
        Seq::empty()
    } else {
        seq![s.subrange(a, b)] + words_from(s, b)
    }
}

/// The words of `s`.
pub open spec fn words(s: Seq<char>) -> Seq<Seq<char>> {
    words_from(s, 0)
}

/// `ws` joined with one space between neighbours.
pub open spec fn joined_with_spaces(ws: Seq<Seq<char>>) -> Seq<char>
    decreases ws.len(),
{
    if ws.len() == 0 {
        Seq::empty()
    } else if ws.len() == 1 {
        ws[0]
    } else {
        joined_with_spaces(ws.drop_last()) + seq![' '] + ws.last()
    }
}

proof fn lemma_space_index_bounds(s: Seq<char>, from: int)
    requires
        0 <= from <= s.len(),
    ensures
        from <= space_index(s, from) <= s.len(),
        forall|k: int| from <= k < space_index(s, from) ==> !is_white_space(#[trigger] s[k]),
    decreases s.len() - from,
{
    if from < s.len() && !is_white_space(s[from]) {
        lemma_space_index_bounds(s, from + 1);
    }
}

/// The words of `s`, as `str::split_whitespace` yields them.
pub fn split_words(s: &str) -> (r: Vec<String>)
    ensures
        r@.len() == words(s@).len(),
        forall|i: int| 0 <= i < r@.len() ==> (#[trigger] r@[i])@ == words(s@)[i],
{
    let v = chars_of(s);
    let n = v.len();
    let mut r: Vec<String> = Vec::new();
    let ghost mut done: Seq<Seq<char>> = Seq::empty();
    let mut pos: usize = 0;
    let mut finished = false;
    assert(done + words_from(s@, 0) =~= words_from(s@, 0));
    while !finished
        invariant
            pos <= n == v@.len(),
            v@ == s@,
            r@.len() == done.len(),
            forall|i: int| 0 <= i < r@.len() ==> (#[trigger] r@[i])@ == done[i],
            finished ==> done == words(s@),
            !finished ==> done + words_from(s@, pos as int) == words(s@),
        decreases n - pos + (if finished { 0int } else { 1int }),
    {
        let mut a = pos;
        while a < n && is_white_space_char(v[a])
            invariant
                pos <= a <= n == v@.len(),
                content_start(v@, pos as int) == content_start(v@, a as int),
            decreases n - a,
        {
            a = a + 1;
        }
        if a >= n {
            finished = true;
            assert(done + Seq::<Seq<char>>::empty() =~= done);
        } else {
            let mut b = a;
            while b < n && !is_white_space_char(v[b])
                invariant
                    a <= b <= n == v@.len(),
                    space_index(v@, a as int) == space_index(v@, b as int),
                decreases n - b,
            {
                b = b + 1;
            }
            proof {
                lemma_space_index_bounds(v@, a as int);
            }
            let w = s.substring_char(a, b).to_string();
            r.push(w);
            proof {
                let x = seq![s@.subrange(a as int, b as int)];
                assert(done + (x + words_from(s@, b as int)) =~= (done + x) + words_from(
                    s@,
                    b as int,
                ));
                done = done + x;
            }
            pos = b;
        }
    }
    r
}

/// `ws` joined with one space between neighbours, as `[&str]::join(" ")` does.
pub fn join_with_spaces(ws: &[String]) -> (r: String)
    ensures
        r@ == joined_with_spaces(ws@.map_values(|w: String| w@)),
{
    let ghost views = ws@.map_values(|w: String| w@);
    let mut out = String::new();
    let mut k: usize = 0;
    proof {
        reveal_strlit(" ");
    }
    while k < ws.len()
        invariant
            k <= ws@.len(),
            views == ws@.map_values(|w: String| w@),
            " "@ == seq![' '],
            out@ == joined_with_spaces(views.subrange(0, k as int)),
        decreases ws@.len() - k,
    {
        proof {
            assert(views.subrange(0, k + 1).drop_last() =~= views.subrange(0, k as int));
        }
        if k > 0 {
            out.append(" ");
        }
        out.append(ws[k].as_str());
        k = k + 1;
        proof {
            if k == 1 {
                assert(out@ =~= joined_with_spaces(views.subrange(0, k as int)));
            }
        }
    }
    assert(views.subrange(0, ws@.len() as int) =~= views);
    out
}


/// `s` holds `pat` at position `i`.
pub open spec fn occurs_at(s: Seq<char>, pat: Seq<char>, i: int) -> bool {
    0 <= i && i + pat.len() <= s.len() && s.subrange(i, i + pat.len()) == pat
}

/// `s` holds `pat` somewhere.
pub open spec fn holds(s: Seq<char>, pat: Seq<char>) -> bool {
    exists|i: int| #[trigger] occurs_at(s, pat, i)
}

/// `s` from position `i` on, with each occurrence of the non-empty `pat`, found
/// left to right, replaced by `rep`.
pub open spec fn replaced_from(s: Seq<char>, pat: Seq<char>, rep: Seq<char>, i: int) -> Seq<char>
    decreases s.len() - i,
{
    if i < 0 || i >= s.len() {
        Seq::empty()
    } else if pat.len() > 0 && occurs_at(s, pat, i) {
        rep + replaced_from(s, pat, rep, i + pat.len())
    } else {
        seq![s[i]] + replaced_from(s, pat, rep, i + 1)
    }
}

fn occurs_at_exec(v: &Vec<char>, p: &Vec<char>, i: usize) -> (r: bool)
    ensures
        r == occurs_at(v@, p@, i as int),
{
    let vlen = v.len();
    if i > vlen || vlen - i < p.len() {
        return false;
    }
    let mut k: usize = 0;
    while k < p.len()
        invariant
            i + p@.len() <= v@.len() == vlen,
            k <= p@.len(),
            forall|m: int| 0 <= m < k ==> v@[i + m] == p@[m],
        decreases p@.len() - k,
    {
        if v[i + k] != p[k] {
            assert(v@.subrange(i as int, i + p@.len())[k as int] != p@[k as int]);
            return false;
        }
        k = k + 1;
    }
    assert(v@.subrange(i as int, i + p@.len()) =~= p@);
    true
}

/// Whether `s` holds `pat`, as `str::contains` says.
pub fn contains_text(s: &str, pat: &str) -> (r: bool)
    ensures
        r == holds(s@, pat@),
{
    let v = chars_of(s);
    let p = chars_of(pat);
    let mut i: usize = 0;
    while i < v.len()
        invariant
            i <= v@.len(),
            v@ == s@,
            p@ == pat@,
            forall|j: int| 0 <= j < i ==> !occurs_at(v@, p@, j),
        decreases v@.len() - i,
    {
        if occurs_at_exec(&v, &p, i) {
            return true;
        }
        i = i + 1;
    }
    if occurs_at_exec(&v, &p, i) {
        return true;
    }
    assert forall|j: int| !occurs_at(s@, pat@, j) by {
        if 0 <= j < i {
        }
    }
    false
}

/// `s` with each occurrence of the non-empty `pat`, found left to right, replaced
/// by `rep`, as `str::replace` does.
pub(crate) fn replace_text(s: &str, pat: &str, rep: &str) -> (r: String)
    requires
        pat@.len() > 0,
    ensures
        r@ == replaced_from(s@, pat@, rep@, 0),
{
    let v = chars_of(s);
    let p = chars_of(pat);
    let n = v.len();
    let m = p.len();
    let mut out = String::new();
    let mut start: usize = 0;
    let mut i: usize = 0;
    while i < n
        invariant
            n == v@.len(),
            m == p@.len() > 0,
            v@ == s@,
            p@ == pat@,
            start <= i <= n,
            out@ + s@.subrange(start as int, i as int) + replaced_from(s@, pat@, rep@, i as int)
                == replaced_from(s@, pat@, rep@, 0),
        decreases n - i,
    {
        if occurs_at_exec(&v, &p, i) {
            let chunk = s.substring_char(start, i);
            out.append(chunk);
            out.append(rep);
            proof {
                let j = i + m;
                assert(s@.subrange(j, j) =~= Seq::<char>::empty());
                assert(out@ + s@.subrange(j, j) + replaced_from(s@, pat@, rep@, j) =~= out@
                    + replaced_from(s@, pat@, rep@, j));
            }
            i = i + m;
            start = i;
        } else {
            proof {
                let a = s@.subrange(start as int, i as int);
                assert(s@.subrange(start as int, i + 1) =~= a + seq![s@[i as int]]);
                assert(out@ + a + (seq![s@[i as int]] + replaced_from(s@, pat@, rep@, i + 1))
                    =~= out@ + (a + seq![s@[i as int]]) + replaced_from(s@, pat@, rep@, i + 1));
            }
            i = i + 1;
        }
    }
    let rest = s.substring_char(start, n);
    out.append(rest);
    proof {
        assert(replaced_from(s@, pat@, rep@, i as int) =~= Seq::<char>::empty());
        assert(out@ =~= replaced_from(s@, pat@, rep@, 0));
    }
    out
}

/// Whether `a` and `b` hold the same characters.
pub fn same_text(a: &str, b: &str) -> (r: bool)
    ensures
        r == (a@ == b@),
{
    let x = chars_of(a);
    let y = chars_of(b);
    if x.len() != y.len() {
        return false;
    }
    let mut i: usize = 0;
    while i < x.len()
        invariant
            x@ == a@,
            y@ == b@,
            x@.len() == y@.len(),
            i <= x@.len(),
            forall|j: int| 0 <= j < i ==> x@[j] == y@[j],
        decreases x@.len() - i,
    {
        if x[i] != y[i] {
            return false;
        }
        i = i + 1;
    }
    assert(x@ =~= y@);
    true
}

} // verus!
