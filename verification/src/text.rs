//! Character sequences: the model of all text in this library, and the
//! executable operations on it.
//!
//! A text is a `Seq<char>`. Executable code holds it as `Vec<char>`, and
//! meets `str` and `String` only at the two conversions below.

use vstd::prelude::*;

verus! {

/// `String::push` appends one character to the end of the string.
pub assume_specification[ String::push ](s: &mut String, c: char)
    ensures
        final(s)@ == old(s)@.push(c),
;

/// The characters of `s`, in order.
pub fn chars_of(s: &str) -> (v: Vec<char>)
    ensures
        v@ == s@,
{
    let mut v: Vec<char> = Vec::new();
    let it = s.chars();
    for c in iter: it
        invariant
            v@ == s@.take(iter.index@),
            iter.seq() == s@,
    {
        v.push(c);
    }
    v
}

/// The string whose characters are those of `v`.
pub fn string_of(v: &Vec<char>) -> (s: String)
    ensures
        s@ == v@,
{
    let mut s = String::new();
    let mut i: usize = 0;
    while i < v.len()
        invariant
            i <= v.len(),
            s@ == v@.take(i as int),
        decreases v.len() - i,
    {
        s.push(v[i]);
        i += 1;
        assert(v@.take(i as int) == v@.take(i - 1).push(v@[i - 1]));
    }
    s
}

/// The characters with the Unicode property White_Space.
pub open spec fn is_ws(c: char) -> bool {
    let n = c as u32;
    ||| 0x09 <= n <= 0x0D
    ||| n == 0x20
    ||| n == 0x85
    ||| n == 0xA0
    ||| n == 0x1680
    ||| 0x2000 <= n <= 0x200A
    ||| n == 0x2028
    ||| n == 0x2029
    ||| n == 0x202F
    ||| n == 0x205F
    ||| n == 0x3000
}

pub fn is_whitespace(c: char) -> (r: bool)
    ensures
        r == is_ws(c),
{
    let n: u32 = c as u32;
    (0x09 <= n && n <= 0x0D) || n == 0x20 || n == 0x85 || n == 0xA0 || n == 0x1680 || (0x2000 <= n
        && n <= 0x200A) || n == 0x2028 || n == 0x2029 || n == 0x202F || n == 0x205F || n == 0x3000
}

/// The ASCII letter in lower case; any other character unchanged.
pub open spec fn lower_char(c: char) -> char {
    if 'A' <= c <= 'Z' {
        ((c as u32) + 32) as char
    } else {
        c
    }
}

/// The ASCII letter in lower case; any other character unchanged.
pub fn to_lower_char(c: char) -> (r: char)
    ensures
        r == lower_char(c),
{
    if 'A' <= c && c <= 'Z' {
        let b: u8 = c as u8;
        (b + 32) as char
    } else {
        c
    }
}

/// The text in ASCII lower case, character by character.
pub open spec fn lower(s: Seq<char>) -> Seq<char> {
    Seq::new(s.len(), |i: int| lower_char(s[i]))
}

pub fn to_lower(v: &Vec<char>) -> (r: Vec<char>)
    ensures
        r@ == lower(v@),
{
    let mut r: Vec<char> = Vec::new();
    let mut i: usize = 0;
    while i < v.len()
        invariant
            i <= v.len(),
            r@ == lower(v@.take(i as int)),
        decreases v.len() - i,
    {
        r.push(to_lower_char(v[i]));
        i += 1;
        assert(r@ =~= lower(v@.take(i as int)));
    }
    assert(v@.take(v.len() as int) == v@);
    r
}

/// The views of a sequence of character vectors.
pub open spec fn rows(v: Seq<Vec<char>>) -> Seq<Seq<char>> {
    Seq::new(v.len(), |i: int| v[i]@)
}

/// The views of a sequence of strings.
pub open spec fn strs(v: Seq<String>) -> Seq<Seq<char>> {
    Seq::new(v.len(), |i: int| v[i]@)
}

/// The texts of files given as pairs of path and content.
pub open spec fn pair_views(files: Seq<(String, String)>) -> Seq<(Seq<char>, Seq<char>)> {
    Seq::new(files.len(), |i: int| (files[i].0@, files[i].1@))
}

pub proof fn lemma_rows_push(v: Seq<Vec<char>>, x: Vec<char>)
    ensures
        rows(v.push(x)) == rows(v).push(x@),
{
    assert(rows(v.push(x)) =~= rows(v).push(x@));
}

pub proof fn lemma_strs_push(v: Seq<String>, x: String)
    ensures
        strs(v.push(x)) == strs(v).push(x@),
{
    assert(strs(v.push(x)) =~= strs(v).push(x@));
}

/// The characters of `v` from `i` up to `j`.
pub fn subvec(v: &Vec<char>, i: usize, j: usize) -> (r: Vec<char>)
    requires
        i <= j <= v.len(),
    ensures
        r@ == v@.subrange(i as int, j as int),
{
    let mut r: Vec<char> = Vec::new();
    let mut k: usize = i;
    while k < j
        invariant
            i <= k <= j <= v.len(),
            r@ == v@.subrange(i as int, k as int),
        decreases j - k,
    {
        r.push(v[k]);
        k += 1;
        assert(r@ =~= v@.subrange(i as int, k as int));
    }
    r
}

/// Appends the characters of `src` to `dst`.
pub fn append(dst: &mut Vec<char>, src: &Vec<char>)
    ensures
        final(dst)@ == old(dst)@ + src@,
{
    let mut k: usize = 0;
    while k < src.len()
        invariant
            k <= src.len(),
            dst@ == old(dst)@ + src@.take(k as int),
        decreases src.len() - k,
    {
        dst.push(src[k]);
        k += 1;
        assert(dst@ =~= old(dst)@ + src@.take(k as int));
    }
    assert(src@.take(src.len() as int) == src@);
}

/// Appends the characters of `src` to `dst`.
pub fn append_str(dst: &mut Vec<char>, src: &str)
    ensures
        final(dst)@ == old(dst)@ + src@,
{
    let v = chars_of(src);
    append(dst, &v);
}

pub fn vec_eq(a: &Vec<char>, b: &Vec<char>) -> (r: bool)
    ensures
        r == (a@ == b@),
{
    if a.len() != b.len() {
        return false;
    }
    let mut k: usize = 0;
    while k < a.len()
        invariant
            k <= a.len(),
            a.len() == b.len(),
            forall|j: int| 0 <= j < k ==> a@[j] == b@[j],
        decreases a.len() - k,
    {
        if a[k] != b[k] {
            return false;
        }
        k += 1;
    }
    assert(a@ =~= b@);
    true
}

/// `n` lies in `h` at position `i`.
pub open spec fn matches_at(h: Seq<char>, n: Seq<char>, i: int) -> bool {
    0 <= i && i + n.len() <= h.len() && h.subrange(i, i + n.len()) == n
}

pub fn is_match_at(h: &Vec<char>, n: &Vec<char>, i: usize) -> (r: bool)
    ensures
        r == matches_at(h@, n@, i as int),
{
    if i > h.len() || n.len() > h.len() - i {
        return false;
    }
    let mut k: usize = 0;
    while k < n.len()
        invariant
            k <= n.len(),
            i + n.len() <= h.len(),
            forall|j: int| 0 <= j < k ==> h@[i + j] == n@[j],
        decreases n.len() - k,
    {
        if h[i + k] != n[k] {
            assert(h@.subrange(i as int, i + n.len())[k as int] != n@[k as int]);
            return false;
        }
        k += 1;
    }
    assert(h@.subrange(i as int, i + n.len()) =~= n@);
    true
}

/// `p` is a prefix of `s`.
pub open spec fn has_prefix(s: Seq<char>, p: Seq<char>) -> bool {
    matches_at(s, p, 0)
}

/// `p` is a suffix of `s`.
pub open spec fn has_suffix(s: Seq<char>, p: Seq<char>) -> bool {
    matches_at(s, p, s.len() - p.len())
}

pub fn starts_with(s: &Vec<char>, p: &Vec<char>) -> (r: bool)
    ensures
        r == has_prefix(s@, p@),
{
    is_match_at(s, p, 0)
}

pub fn ends_with(s: &Vec<char>, p: &Vec<char>) -> (r: bool)
    ensures
        r == has_suffix(s@, p@),
{
    if p.len() > s.len() {
        return false;
    }
    is_match_at(s, p, s.len() - p.len())
}

/// The first position at or after `from` where `n` lies in `h`.
pub open spec fn find_from(h: Seq<char>, n: Seq<char>, from: int) -> Option<int>
    decreases h.len() + 1 - from,
{
    if from < 0 || from + n.len() > h.len() {
        None
    } else if matches_at(h, n, from) {
        Some(from)
    } else {
        find_from(h, n, from + 1)
    }
}

/// The first position where `n` lies in `h`.
pub open spec fn find(h: Seq<char>, n: Seq<char>) -> Option<int> {
    find_from(h, n, 0)
}

/// `n` lies somewhere in `h`.
pub open spec fn contains(h: Seq<char>, n: Seq<char>) -> bool {
    find(h, n) is Some
}

/// What `find_from` returns is the least matching position from `from` on.
pub proof fn lemma_find_from(h: Seq<char>, n: Seq<char>, from: int)
    requires
        0 <= from,
    ensures
        match find_from(h, n, from) {
            Some(i) => from <= i && matches_at(h, n, i) && forall|j: int|
                from <= j < i ==> !matches_at(h, n, j),
            None => forall|j: int| from <= j ==> !matches_at(h, n, j),
        },
    decreases h.len() + 1 - from,
{
    if from + n.len() > h.len() {
    } else if matches_at(h, n, from) {
    } else {
        lemma_find_from(h, n, from + 1);
    }
}

/// The view of an optional position.
pub open spec fn pos_view(r: Option<usize>) -> Option<int> {
    match r {
        Some(i) => Some(i as int),
        None => None,
    }
}

pub fn find_in_from(h: &Vec<char>, n: &Vec<char>, from: usize) -> (r: Option<usize>)
    ensures
        pos_view(r) == find_from(h@, n@, from as int),
        r matches Some(i) ==> from <= i && i + n.len() <= h.len(),
{
    if n.len() > h.len() || from > h.len() - n.len() {
        return None;
    }
    let last: usize = h.len() - n.len();
    let mut pos: usize = from;
    while pos <= last
        invariant
            from <= pos <= last,
            last == h.len() - n.len(),
            find_from(h@, n@, from as int) == find_from(h@, n@, pos as int),
        decreases last - pos,
    {
        if is_match_at(h, n, pos) {
            return Some(pos);
        }
        if pos == last {
            assert(find_from(h@, n@, pos + 1) is None);
            return None;
        }
        pos += 1;
    }
    None
}

pub fn find_in(h: &Vec<char>, n: &Vec<char>) -> (r: Option<usize>)
    ensures
        pos_view(r) == find(h@, n@),
        r matches Some(i) ==> i + n.len() <= h.len(),
{
    find_in_from(h, n, 0)
}

pub fn contains_text(h: &Vec<char>, n: &Vec<char>) -> (r: bool)
    ensures
        r == contains(h@, n@),
{
    find_in(h, n).is_some()
}

/// `h` with its first occurrence of `n` replaced by `r`; `h` itself where
/// `n` does not occur.
pub open spec fn replace_first(h: Seq<char>, n: Seq<char>, r: Seq<char>) -> Seq<char> {
    match find(h, n) {
        Some(i) => h.take(i) + r + h.skip(i + n.len()),
        None => h,
    }
}

pub fn replace_first_in(h: &Vec<char>, n: &Vec<char>, r: &Vec<char>) -> (out: Vec<char>)
    ensures
        out@ == replace_first(h@, n@, r@),
{
    match find_in(h, n) {
        Some(i) => {
            let mut out = subvec(h, 0, i);
            append(&mut out, r);
            let tail = subvec(h, i + n.len(), h.len());
            append(&mut out, &tail);
            out
        },
        None => {
            let out = subvec(h, 0, h.len());
            assert(h@.subrange(0, h.len() as int) == h@);
            out
        },
    }
}

/// The text without its leading white space.
pub open spec fn trim_start(s: Seq<char>) -> Seq<char>
    decreases s.len(),
{
    if s.len() > 0 && is_ws(s[0]) {
        trim_start(s.drop_first())
    } else {
        s
    }
}

/// The text without its trailing white space.
pub open spec fn trim_end(s: Seq<char>) -> Seq<char>
    decreases s.len(),
{
    if s.len() > 0 && is_ws(s.last()) {
        trim_end(s.drop_last())
    } else {
        s
    }
}

/// The text without leading and trailing white space.
pub open spec fn trim(s: Seq<char>) -> Seq<char> {
    trim_end(trim_start(s))
}

/// The first position at or after `from` that holds no white space.
pub fn skip_ws(v: &Vec<char>, from: usize) -> (i: usize)
    requires
        from <= v.len(),
    ensures
        from <= i <= v.len(),
        v@.skip(i as int) == trim_start(v@.skip(from as int)),
{
    let mut i: usize = from;
    while i < v.len() && is_whitespace(v[i])
        invariant
            from <= i <= v.len(),
            trim_start(v@.skip(i as int)) == trim_start(v@.skip(from as int)),
        decreases v.len() - i,
    {
        assert(v@.skip(i as int).drop_first() == v@.skip(i + 1));
        i += 1;
    }
    i
}

/// The end of the text between `from` and `to` once its trailing white space
/// is cut off.
pub fn skip_ws_back(v: &Vec<char>, from: usize, to: usize) -> (j: usize)
    requires
        from <= to <= v.len(),
    ensures
        from <= j <= to,
        v@.subrange(from as int, j as int) == trim_end(v@.subrange(from as int, to as int)),
{
    let mut j: usize = to;
    while j > from && is_whitespace(v[j - 1])
        invariant
            from <= j <= to <= v.len(),
            trim_end(v@.subrange(from as int, j as int)) == trim_end(
                v@.subrange(from as int, to as int),
            ),
        decreases j,
    {
        assert(v@.subrange(from as int, j as int).drop_last() == v@.subrange(
            from as int,
            j - 1,
        ));
        j -= 1;
    }
    j
}

pub fn trim_of(v: &Vec<char>) -> (r: Vec<char>)
    ensures
        r@ == trim(v@),
{
    let i = skip_ws(v, 0);
    assert(v@.skip(0) == v@);
    let j = skip_ws_back(v, i, v.len());
    assert(v@.subrange(i as int, v.len() as int) == v@.skip(i as int));
    subvec(v, i, j)
}

/// The first position of `c` in `s`, or the length of `s` where `c` does
/// not occur.
pub open spec fn index_of(s: Seq<char>, c: char) -> int
    decreases s.len(),
{
    if s.len() == 0 || s[0] == c {
        0
    } else {
        1 + index_of(s.drop_first(), c)
    }
}

pub proof fn lemma_index_of(s: Seq<char>, c: char, i: int)
    requires
        0 <= i <= s.len(),
        forall|j: int| 0 <= j < i ==> s[j] != c,
        i == s.len() || s[i] == c,
    ensures
        index_of(s, c) == i,
    decreases s.len(),
{
    if i > 0 {
        lemma_index_of(s.drop_first(), c, i - 1);
    }
}

pub proof fn lemma_index_of_bounds(s: Seq<char>, c: char)
    ensures
        0 <= index_of(s, c) <= s.len(),
        forall|j: int| 0 <= j < index_of(s, c) ==> s[j] != c,
        index_of(s, c) < s.len() ==> s[index_of(s, c)] == c,
    decreases s.len(),
{
    if s.len() == 0 || s[0] == c {
    } else {
        lemma_index_of_bounds(s.drop_first(), c);
        let k = index_of(s.drop_first(), c);
        assert forall|j: int| 0 <= j < 1 + k implies s[j] != c by {
            if j > 0 {
                assert(s.drop_first()[j - 1] == s[j]);
            }
        }
        if 1 + k < s.len() {
            assert(s.drop_first()[k] == s[1 + k]);
        }
    }
}

/// The first position of `c` at or after `from`, or the length of `v`.
pub fn index_of_from(v: &Vec<char>, c: char, from: usize) -> (i: usize)
    requires
        from <= v.len(),
    ensures
        from <= i <= v.len(),
        i - from == index_of(v@.skip(from as int), c),
{
    let mut i: usize = from;
    while i < v.len() && v[i] != c
        invariant
            from <= i <= v.len(),
            forall|j: int| from <= j < i ==> v@[j] != c,
        decreases v.len() - i,
    {
        i += 1;
    }
    proof {
        lemma_index_of(v@.skip(from as int), c, i - from);
    }
    i
}

/// The line without the carriage return that ends it, if one does.
pub open spec fn strip_cr(s: Seq<char>) -> Seq<char> {
    if s.len() > 0 && s.last() == '\r' {
        s.drop_last()
    } else {
        s
    }
}

/// The lines of a text. A line ends at a line feed, or at a carriage return
/// directly before one; neither belongs to the line. What follows the last
/// line feed is a line if it is not empty.
pub open spec fn lines(s: Seq<char>) -> Seq<Seq<char>>
    decreases s.len(),
{
    if s.len() == 0 {
        Seq::empty()
    } else {
        let i = index_of(s, '\n');
        if 0 <= i < s.len() {
            seq![strip_cr(s.take(i))] + lines(s.skip(i + 1))
        } else {
            seq![s]
        }
    }
}

pub fn lines_of(v: &Vec<char>) -> (out: Vec<Vec<char>>)
    ensures
        rows(out@) == lines(v@),
{
    let mut out: Vec<Vec<char>> = Vec::new();
    let mut pos: usize = 0;
    assert(v@.skip(0) == v@);
    assert(rows(out@) =~= Seq::<Seq<char>>::empty());
    while pos < v.len()
        invariant
            pos <= v.len(),
            lines(v@) == rows(out@) + lines(v@.skip(pos as int)),
        decreases v.len() - pos,
    {
        let nl = index_of_from(v, '\n', pos);
        let ghost rest = v@.skip(pos as int);
        let ghost before = out@;
        if nl < v.len() {
            let end: usize = if nl > pos && v[nl - 1] == '\r' {
                nl - 1
            } else {
                nl
            };
            let line = subvec(v, pos, end);
            proof {
                assert(rest.take(nl - pos) == v@.subrange(pos as int, nl as int));
                assert(line@ == strip_cr(rest.take(nl - pos)));
                assert(rest.skip(nl - pos + 1) == v@.skip(nl + 1));
                lemma_rows_push(before, line);
            }
            out.push(line);
            pos = nl + 1;
            assert(lines(v@) == rows(out@) + lines(v@.skip(pos as int))) by {
                assert(lines(rest) == seq![line@] + lines(v@.skip(pos as int)));
                assert(rows(before).push(line@) + lines(v@.skip(pos as int)) =~= rows(before) + (
                seq![line@] + lines(v@.skip(pos as int))));
            }
        } else {
            let line = subvec(v, pos, v.len());
            proof {
                assert(v@.subrange(pos as int, v.len() as int) == rest);
                assert(lines(rest) == seq![rest]);
                lemma_rows_push(before, line);
                assert(lines(v@.skip(v.len() as int)) =~= Seq::<Seq<char>>::empty());
                assert(rows(before).push(line@) =~= rows(before) + seq![rest]);
            }
            out.push(line);
            pos = v.len();
        }
    }
    assert(lines(v@.skip(v.len() as int)) =~= Seq::<Seq<char>>::empty());
    assert(rows(out@) + Seq::<Seq<char>>::empty() =~= rows(out@));
    out
}

/// The position in the text where its line `k` starts, counted in
/// characters from 0: behind the line feed that ends line `k - 1`. For a
/// `k` past the last line it is the position behind the last line.
pub open spec fn line_start(s: Seq<char>, k: int) -> int
    decreases s.len(),
{
    if k <= 0 || s.len() == 0 {
        0
    } else {
        let i = index_of(s, '\n');
        if 0 <= i < s.len() {
            i + 1 + line_start(s.skip(i + 1), k - 1)
        } else {
            s.len() as int
        }
    }
}

/// The position in the text where its line `k` ends: before the line feed,
/// or the carriage return and line feed, that ends it.
pub open spec fn line_end(s: Seq<char>, k: int) -> int {
    line_start(s, k) + lines(s)[k].len()
}

/// A line lies within the text, it is the text between its start and its
/// end, and the next line starts behind its end.
pub proof fn lemma_line_bounds(s: Seq<char>, k: int)
    requires
        0 <= k < lines(s).len(),
    ensures
        0 <= line_start(s, k) <= line_end(s, k) <= s.len(),
        lines(s)[k] == s.subrange(line_start(s, k), line_end(s, k)),
        line_end(s, k) <= line_start(s, k + 1) <= s.len(),
    decreases s.len(),
{
    lemma_index_of_bounds(s, '\n');
    let i = index_of(s, '\n');
    if 0 <= i < s.len() {
        let rest = s.skip(i + 1);
        let first = strip_cr(s.take(i));
        assert(lines(s) =~= seq![first] + lines(rest));
        if k == 0 {
            assert(lines(s)[0] == first);
            assert(first =~= s.subrange(0, first.len() as int));
            assert(line_start(s, 1) == i + 1 + line_start(rest, 0));
        } else {
            assert(lines(s)[k] == lines(rest)[k - 1]);
            lemma_line_bounds(rest, k - 1);
            let a = line_start(rest, k - 1);
            let b = line_end(rest, k - 1);
            assert(rest.subrange(a, b) =~= s.subrange(i + 1 + a, i + 1 + b));
            assert(line_start(s, k + 1) == i + 1 + line_start(rest, k));
        }
    } else {
        assert(lines(s) =~= seq![s]);
        assert(s.subrange(0, s.len() as int) =~= s);
    }
}

/// A later line starts no earlier.
pub proof fn lemma_line_start_monotone(s: Seq<char>, a: int, b: int)
    requires
        0 <= a <= b,
    ensures
        0 <= line_start(s, a) <= line_start(s, b) <= s.len(),
    decreases s.len(),
{
    lemma_index_of_bounds(s, '\n');
    let i = index_of(s, '\n');
    if s.len() > 0 && 0 <= i < s.len() {
        if a > 0 {
            lemma_line_start_monotone(s.skip(i + 1), a - 1, b - 1);
        } else if b > 0 {
            lemma_line_start_monotone(s.skip(i + 1), 0, b - 1);
        }
    }
}

/// The position where line `k` of the text starts.
pub fn line_start_of(v: &Vec<char>, k: usize) -> (r: usize)
    ensures
        r == line_start(v@, k as int),
        r <= v.len(),
{
    let mut pos: usize = 0;
    let mut n: usize = 0;
    assert(v@.skip(0) == v@);
    while n < k && pos < v.len()
        invariant
            pos <= v.len(),
            n <= k,
            line_start(v@, k as int) == pos + line_start(v@.skip(pos as int), k - n),
        decreases v.len() - pos,
    {
        let nl = index_of_from(v, '\n', pos);
        if nl < v.len() {
            assert(v@.skip(pos as int).skip(nl - pos + 1) == v@.skip(nl + 1));
            pos = nl + 1;
            n += 1;
        } else {
            return v.len();
        }
    }
    pos
}

/// The parts in order, with `sep` between each two.
pub open spec fn join(parts: Seq<Seq<char>>, sep: Seq<char>) -> Seq<char>
    decreases parts.len(),
{
    if parts.len() == 0 {
        Seq::empty()
    } else if parts.len() == 1 {
        parts[0]
    } else {
        join(parts.drop_last(), sep) + sep + parts.last()
    }
}

pub fn join_of(parts: &Vec<Vec<char>>, sep: &Vec<char>) -> (r: Vec<char>)
    ensures
        r@ == join(rows(parts@), sep@),
{
    let mut r: Vec<char> = Vec::new();
    let mut i: usize = 0;
    while i < parts.len()
        invariant
            i <= parts.len(),
            r@ == join(rows(parts@).take(i as int), sep@),
        decreases parts.len() - i,
    {
        let ghost prev = rows(parts@).take(i as int);
        let ghost next = rows(parts@).take(i + 1);
        assert(next.drop_last() == prev);
        assert(next.last() == parts@[i as int]@);
        if i > 0 {
            append(&mut r, sep);
        } else {
            assert(r@ + parts@[i as int]@ == parts@[i as int]@);
        }
        append(&mut r, &parts[i]);
        i += 1;
    }
    assert(rows(parts@).take(parts.len() as int) == rows(parts@));
    r
}

/// The words of a text while the word `cur` is being read: the maximal runs
/// of characters that are not white space.
pub open spec fn words_from(s: Seq<char>, cur: Seq<char>) -> Seq<Seq<char>>
    decreases s.len(),
{
    let done = if cur.len() == 0 {
        Seq::<Seq<char>>::empty()
    } else {
        seq![cur]
    };
    if s.len() == 0 {
        done
    } else if is_ws(s[0]) {
        done + words_from(s.drop_first(), Seq::empty())
    } else {
        words_from(s.drop_first(), cur.push(s[0]))
    }
}

/// The words of a text: its maximal runs of characters that are not white
/// space, in order.
pub open spec fn words(s: Seq<char>) -> Seq<Seq<char>> {
    words_from(s, Seq::empty())
}

pub fn words_of(v: &Vec<char>) -> (out: Vec<Vec<char>>)
    ensures
        rows(out@) == words(v@),
{
    let mut out: Vec<Vec<char>> = Vec::new();
    let mut cur: Vec<char> = Vec::new();
    let mut i: usize = 0;
    assert(v@.skip(0) == v@);
    assert(rows(out@) =~= Seq::<Seq<char>>::empty());
    while i < v.len()
        invariant
            i <= v.len(),
            words(v@) == rows(out@) + words_from(v@.skip(i as int), cur@),
        decreases v.len() - i,
    {
        let ghost rest = v@.skip(i as int);
        let ghost before = out@;
        let ghost word = cur@;
        assert(rest.drop_first() == v@.skip(i + 1));
        assert(rest.len() > 0 && rest[0] == v@[i as int]);
        if is_whitespace(v[i]) {
            if cur.len() > 0 {
                proof {
                    assert(words_from(rest, word) == seq![word] + words_from(
                        v@.skip(i + 1),
                        Seq::empty(),
                    ));
                    lemma_rows_push(before, cur);
                    assert(rows(before).push(cur@) + words_from(v@.skip(i + 1), Seq::empty())
                        =~= rows(before) + (seq![cur@] + words_from(
                        v@.skip(i + 1),
                        Seq::empty(),
                    )));
                }
                out.push(cur);
                cur = Vec::new();
            } else {
                assert(word =~= Seq::<char>::empty());
                assert(words_from(rest, word) == Seq::<Seq<char>>::empty() + words_from(
                    v@.skip(i + 1),
                    Seq::empty(),
                ));
                assert(Seq::<Seq<char>>::empty() + words_from(v@.skip(i + 1), Seq::empty())
                    =~= words_from(v@.skip(i + 1), Seq::empty()));
            }
        } else {
            cur.push(v[i]);
            assert(words_from(rest, word) == words_from(v@.skip(i + 1), word.push(rest[0])));
        }
        i += 1;
    }
    assert(v@.skip(v.len() as int).len() == 0);
    if cur.len() > 0 {
        proof {
            lemma_rows_push(out@, cur);
            assert(rows(out@).push(cur@) =~= rows(out@) + seq![cur@]);
        }
        out.push(cur);
    } else {
        assert(rows(out@) + Seq::<Seq<char>>::empty() =~= rows(out@));
    }
    out
}

/// The words of a text, with one space between each two.
pub open spec fn collapse(s: Seq<char>) -> Seq<char> {
    join(words(s), seq![' '])
}

pub fn collapse_of(v: &Vec<char>) -> (r: Vec<char>)
    ensures
        r@ == collapse(v@),
{
    let w = words_of(v);
    let mut sep: Vec<char> = Vec::new();
    sep.push(' ');
    assert(sep@ =~= seq![' ']);
    join_of(&w, &sep)
}

/// The first `n` characters of `s`, or all of `s` where it has fewer.
pub open spec fn prefix(s: Seq<char>, n: int) -> Seq<char> {
    if n >= s.len() {
        s
    } else if n <= 0 {
        Seq::empty()
    } else {
        s.take(n)
    }
}

pub fn prefix_of(v: &Vec<char>, n: usize) -> (r: Vec<char>)
    ensures
        r@ == prefix(v@, n as int),
{
    if n >= v.len() {
        assert(v@.subrange(0, v.len() as int) == v@);
        subvec(v, 0, v.len())
    } else {
        assert(v@.subrange(0, 0) =~= Seq::<char>::empty());
        subvec(v, 0, n)
    }
}

/// The number of bytes that a character takes in UTF-8.
pub open spec fn char_width(c: char) -> nat {
    let n = c as u32;
    if n < 0x80 {
        1
    } else if n < 0x800 {
        2
    } else if n < 0x10000 {
        3
    } else {
        4
    }
}

/// The number of bytes that a text takes in UTF-8.
pub open spec fn byte_len(s: Seq<char>) -> nat
    decreases s.len(),
{
    if s.len() == 0 {
        0
    } else {
        byte_len(s.drop_last()) + char_width(s.last())
    }
}

pub proof fn lemma_byte_len_add(a: Seq<char>, b: Seq<char>)
    ensures
        byte_len(a + b) == byte_len(a) + byte_len(b),
    decreases b.len(),
{
    if b.len() == 0 {
        assert(a + b =~= a);
    } else {
        assert((a + b).drop_last() =~= a + b.drop_last());
        lemma_byte_len_add(a, b.drop_last());
    }
}

pub proof fn lemma_byte_len_split(s: Seq<char>, i: int)
    requires
        0 <= i <= s.len(),
    ensures
        byte_len(s) == byte_len(s.take(i)) + byte_len(s.skip(i)),
{
    assert(s =~= s.take(i) + s.skip(i));
    lemma_byte_len_add(s.take(i), s.skip(i));
}

pub fn width_of(c: char) -> (r: usize)
    ensures
        r == char_width(c),
{
    let n: u32 = c as u32;
    if n < 0x80 {
        1
    } else if n < 0x800 {
        2
    } else if n < 0x10000 {
        3
    } else {
        4
    }
}

/// The number of bytes that `v` takes in UTF-8.
pub fn byte_len_of(v: &Vec<char>) -> (r: usize)
    requires
        byte_len(v@) <= usize::MAX,
    ensures
        r == byte_len(v@),
{
    let mut r: usize = 0;
    let mut i: usize = 0;
    while i < v.len()
        invariant
            i <= v.len(),
            r == byte_len(v@.take(i as int)),
            byte_len(v@) <= usize::MAX,
        decreases v.len() - i,
    {
        proof {
            assert(v@.take(i + 1).drop_last() == v@.take(i as int));
            lemma_byte_len_split(v@, i + 1);
        }
        r += width_of(v[i]);
        i += 1;
    }
    assert(v@.take(v.len() as int) == v@);
    r
}

/// The decimal digit `d`.
pub open spec fn digit(d: nat) -> char {
    if d == 0 {
        '0'
    } else if d == 1 {
        '1'
    } else if d == 2 {
        '2'
    } else if d == 3 {
        '3'
    } else if d == 4 {
        '4'
    } else if d == 5 {
        '5'
    } else if d == 6 {
        '6'
    } else if d == 7 {
        '7'
    } else if d == 8 {
        '8'
    } else {
        '9'
    }
}

/// The number in decimal digits, without leading zeros.
pub open spec fn decimal(n: nat) -> Seq<char>
    decreases n,
{
    if n < 10 {
        seq![digit(n)]
    } else {
        decimal(n / 10).push(digit(n % 10))
    }
}

fn digit_of(d: u64) -> (c: char)
    requires
        d < 10,
    ensures
        c == digit(d as nat),
{
    if d == 0 {
        '0'
    } else if d == 1 {
        '1'
    } else if d == 2 {
        '2'
    } else if d == 3 {
        '3'
    } else if d == 4 {
        '4'
    } else if d == 5 {
        '5'
    } else if d == 6 {
        '6'
    } else if d == 7 {
        '7'
    } else if d == 8 {
        '8'
    } else {
        '9'
    }
}

/// Appends the decimal digits of `n` to `dst`.
pub fn append_number(dst: &mut Vec<char>, n: u64)
    ensures
        final(dst)@ == old(dst)@ + decimal(n as nat),
    decreases n,
{
    if n < 10 {
        dst.push(digit_of(n));
        assert(dst@ =~= old(dst)@ + decimal(n as nat));
    } else {
        append_number(dst, n / 10);
        dst.push(digit_of(n % 10));
        assert(dst@ =~= old(dst)@ + decimal(n as nat));
    }
}

/// Appends the decimal digits of `n` to `dst`.
pub fn append_decimal(dst: &mut Vec<char>, n: usize)
    ensures
        final(dst)@ == old(dst)@ + decimal(n as nat),
{
    append_number(dst, n as u64);
}

/// A text as `str`'s `Debug` writes it: in double quotes, with the
/// characters escaped that `Debug` escapes.
pub uninterp spec fn debug_quoted(s: Seq<char>) -> Seq<char>;

/// `<str as Debug>::fmt`, through `format!`: the text in double quotes, with
/// escapes. The result is only named.
#[verifier::external_body]
pub(crate) fn quoted(s: &str) -> (r: String)
    ensures
        r@ == debug_quoted(s@),
{
    format!("{:?}", s)
}

/// The text in lower case, every letter that has a lower case changed to
/// it, as `str::to_lowercase` gives it; the number of characters may change.
pub uninterp spec fn lowercased(s: Seq<char>) -> Seq<char>;

/// `str::to_lowercase`. The result is only named.
#[verifier::external_body]
pub(crate) fn to_lowercase(s: &str) -> (r: String)
    ensures
        r@ == lowercased(s@),
{
    s.to_lowercase()
}

/// Whether two strings hold the same text.
pub fn same_text(a: &str, b: &str) -> (r: bool)
    ensures
        r == (a@ == b@),
{
    vec_eq(&chars_of(a), &chars_of(b))
}

/// The order of texts: character by character, by code point; a proper
/// prefix comes first.
pub open spec fn lex_less(a: Seq<char>, b: Seq<char>) -> bool
    decreases a.len(),
{
    if b.len() == 0 {
        false
    } else if a.len() == 0 {
        true
    } else if a[0] != b[0] {
        (a[0] as u32) < (b[0] as u32)
    } else {
        lex_less(a.drop_first(), b.drop_first())
    }
}

pub fn is_lex_less(a: &Vec<char>, b: &Vec<char>) -> (r: bool)
    ensures
        r == lex_less(a@, b@),
{
    let mut i: usize = 0;
    assert(a@.skip(0) == a@ && b@.skip(0) == b@);
    while i < a.len() && i < b.len()
        invariant
            i <= a.len(),
            i <= b.len(),
            lex_less(a@, b@) == lex_less(a@.skip(i as int), b@.skip(i as int)),
        decreases a.len() - i,
    {
        assert(a@.skip(i as int).drop_first() == a@.skip(i + 1));
        assert(b@.skip(i as int).drop_first() == b@.skip(i + 1));
        if a[i] != b[i] {
            return (a[i] as u32) < (b[i] as u32);
        }
        i += 1;
    }
    i < b.len()
}

/// The ascending sequence `s` with `x` put behind the items that are not
/// greater.
pub open spec fn with_text(s: Seq<Seq<char>>, x: Seq<char>) -> Seq<Seq<char>>
    decreases s.len(),
{
    if s.len() == 0 {
        seq![x]
    } else if lex_less(x, s[0]) {
        seq![x] + s
    } else {
        seq![s[0]] + with_text(s.drop_first(), x)
    }
}

/// The texts in ascending order; equal texts stay as many as they are.
pub open spec fn sorted_texts(s: Seq<Seq<char>>) -> Seq<Seq<char>>
    decreases s.len(),
{
    if s.len() == 0 {
        Seq::empty()
    } else {
        with_text(sorted_texts(s.drop_last()), s.last())
    }
}

fn insert_text(v: &mut Vec<Vec<char>>, x: Vec<char>)
    ensures
        rows(final(v)@) == with_text(rows(old(v)@), x@),
{
    let ghost all = rows(v@);
    let mut p: usize = 0;
    assert(all.skip(0) == all);
    assert(all.take(0) + with_text(all, x@) =~= with_text(all, x@));
    while p < v.len()
        invariant
            p <= v.len(),
            v@ == old(v)@,
            all == rows(v@),
            with_text(all, x@) == all.take(p as int) + with_text(all.skip(p as int), x@),
        decreases v.len() - p,
    {
        let ghost tail = all.skip(p as int);
        assert(tail[0] == v@[p as int]@);
        assert(tail.drop_first() == all.skip(p + 1));
        if is_lex_less(&x, &v[p]) {
            v.insert(p, x);
            assert(rows(v@) =~= all.take(p as int) + (seq![x@] + tail));
            return ;
        }
        assert(all.take(p as int) + (seq![tail[0]] + with_text(all.skip(p + 1), x@))
            =~= all.take(p + 1) + with_text(all.skip(p + 1), x@));
        p += 1;
    }
    assert(all.skip(v.len() as int) =~= Seq::<Seq<char>>::empty());
    v.push(x);
    assert(rows(v@) =~= all.take(all.len() as int) + seq![x@]);
}

/// The strings in ascending order.
pub fn sort_strings(items: &[String]) -> (r: Vec<String>)
    ensures
        strs(r@) == sorted_texts(strs(items@)),
{
    let mut sorted: Vec<Vec<char>> = Vec::new();
    let mut i: usize = 0;
    assert(rows(sorted@) =~= sorted_texts(strs(items@).take(0)));
    while i < items.len()
        invariant
            i <= items.len(),
            rows(sorted@) == sorted_texts(strs(items@).take(i as int)),
        decreases items.len() - i,
    {
        assert(strs(items@).take(i + 1).drop_last() == strs(items@).take(i as int));
        assert(strs(items@).take(i + 1).last() == items@[i as int]@);
        insert_text(&mut sorted, chars_of(items[i].as_str()));
        i += 1;
    }
    assert(strs(items@).take(items.len() as int) == strs(items@));
    let mut r: Vec<String> = Vec::new();
    let mut k: usize = 0;
    assert(strs(r@) =~= rows(sorted@).take(0));
    while k < sorted.len()
        invariant
            k <= sorted.len(),
            strs(r@) == rows(sorted@).take(k as int),
        decreases sorted.len() - k,
    {
        let t = string_of(&sorted[k]);
        proof {
            lemma_strs_push(r@, t);
            assert(strs(r@).push(t@) =~= rows(sorted@).take(k + 1));
        }
        r.push(t);
        k += 1;
    }
    assert(rows(sorted@).take(sorted.len() as int) == rows(sorted@));
    r
}

/// The text from `from` on, with `r` for each occurrence of `n`, found
/// from left to right, none overlapping another. With an empty `n` the
/// text stays as it is.
pub open spec fn replace_all(h: Seq<char>, n: Seq<char>, r: Seq<char>, from: int) -> Seq<char>
    decreases h.len() - from,
{
    if from < 0 || from > h.len() || n.len() == 0 {
        h.skip(from)
    } else {
        match find_from(h, n, from) {
            Some(p) => {
                proof {
                    lemma_find_from(h, n, from);
                }
                h.subrange(from, p) + r + replace_all(h, n, r, p + n.len())
            },
            None => h.skip(from),
        }
    }
}

/// The text with `r` for each occurrence of `n`.
pub fn replace_all_in(h: &Vec<char>, n: &Vec<char>, r: &Vec<char>) -> (out: Vec<char>)
    requires
        n.len() > 0,
    ensures
        out@ == replace_all(h@, n@, r@, 0),
{
    let mut out: Vec<char> = Vec::new();
    let mut from: usize = 0;
    loop
        invariant
            from <= h.len(),
            n.len() > 0,
            replace_all(h@, n@, r@, 0) == out@ + replace_all(h@, n@, r@, from as int),
        decreases h.len() - from,
    {
        proof {
            lemma_find_from(h@, n@, from as int);
        }
        match find_in_from(h, n, from) {
            Some(p) => {
                let ghost before = out@;
                let part = subvec(h, from, p);
                append(&mut out, &part);
                append(&mut out, r);
                assert(out@ + replace_all(h@, n@, r@, p + n.len()) =~= before + (h@.subrange(
                    from as int,
                    p as int,
                ) + r@ + replace_all(h@, n@, r@, p + n.len())));
                from = p + n.len();
            },
            None => {
                let rest = subvec(h, from, h.len());
                append(&mut out, &rest);
                assert(h@.subrange(from as int, h.len() as int) == h@.skip(from as int));
                return out;
            },
        }
    }
}

/// The parts of a text between the occurrences of `c`; there is always
/// at least one.
pub open spec fn split_at(s: Seq<char>, c: char) -> Seq<Seq<char>>
    decreases s.len(),
{
    let i = index_of(s, c);
    if 0 <= i < s.len() {
        seq![s.take(i)] + split_at(s.skip(i + 1), c)
    } else {
        seq![s]
    }
}

pub fn split_of(v: &Vec<char>, c: char) -> (out: Vec<Vec<char>>)
    ensures
        rows(out@) == split_at(v@, c),
        out@.len() > 0,
{
    let mut out: Vec<Vec<char>> = Vec::new();
    let mut pos: usize = 0;
    assert(v@.skip(0) == v@);
    assert(rows(out@) =~= Seq::<Seq<char>>::empty());
    loop
        invariant
            pos <= v.len(),
            split_at(v@, c) == rows(out@) + split_at(v@.skip(pos as int), c),
        decreases v.len() - pos,
    {
        let at = index_of_from(v, c, pos);
        let ghost rest = v@.skip(pos as int);
        let ghost before = out@;
        let part = subvec(v, pos, at);
        proof {
            assert(rest.take(at - pos) =~= v@.subrange(pos as int, at as int));
            lemma_rows_push(before, part);
        }
        out.push(part);
        if at < v.len() {
            proof {
                assert(rest.skip(at - pos + 1) =~= v@.skip(at + 1));
                assert(rows(before).push(part@) + split_at(v@.skip(at + 1), c) =~= rows(before)
                    + (seq![part@] + split_at(v@.skip(at + 1), c)));
            }
            pos = at + 1;
        } else {
            proof {
                assert(rest.take(at - pos) =~= rest);
                assert(rows(before).push(part@) =~= rows(before) + seq![rest]);
            }
            return out;
        }
    }
}

} // verus!
