//! Character-level text handling: the model of a string is the sequence of
//! its characters, `Seq<char>`, and every operation below is stated over it.
use vstd::prelude::*;

verus! {

broadcast use vstd::string::group_string_axioms;

// ---------------------------------------------------------------------------
// Specifications
// ---------------------------------------------------------------------------

/// `p` occurs in `s` starting at character index `i`.
pub open spec fn occurs_at(s: Seq<char>, p: Seq<char>, i: int) -> bool {
    0 <= i && i + p.len() <= s.len() && s.subrange(i, i + p.len()) == p
}

/// `s` begins with `p`.
pub open spec fn has_prefix(s: Seq<char>, p: Seq<char>) -> bool {
    occurs_at(s, p, 0)
}

/// The first index at or after `i` where `p` occurs in `s`.
pub open spec fn find_from(s: Seq<char>, p: Seq<char>, i: int) -> Option<int>
    decreases s.len() + 1 - i,
{
    if i < 0 || i + p.len() > s.len() {
        None
    } else if occurs_at(s, p, i) {
        Some(i)
    } else {
        find_from(s, p, i + 1)
    }
}

/// The first index where `p` occurs in `s` (what `str::find` reports, counted in characters).
pub open spec fn find_first(s: Seq<char>, p: Seq<char>) -> Option<int> {
    find_from(s, p, 0)
}

/// `p` occurs somewhere in `s`.
pub open spec fn contains_seq(s: Seq<char>, p: Seq<char>) -> bool {
    find_first(s, p) is Some
}

/// The first index of the character `c` in `s`.
pub open spec fn find_char(s: Seq<char>, c: char) -> Option<int> {
    find_first(s, seq![c])
}

/// Left-to-right replacement of every non-overlapping occurrence of the
/// non-empty pattern `p` by `r` (the behaviour of `str::replace`).
pub open spec fn replace_all(s: Seq<char>, p: Seq<char>, r: Seq<char>) -> Seq<char>
    decreases s.len(),
{
    if s.len() == 0 || p.len() == 0 {
        s
    } else if has_prefix(s, p) {
        r + replace_all(s.skip(p.len() as int), p, r)
    } else {
        seq![s[0]] + replace_all(s.skip(1), p, r)
    }
}

/// A character in the ASCII range.
pub open spec fn is_ascii_char(c: char) -> bool {
    (c as u32) < 128
}

/// `s` with every non-ASCII character removed.
pub open spec fn ascii_only(s: Seq<char>) -> Seq<char>
    decreases s.len(),
{
    if s.len() == 0 {
        s
    } else if is_ascii_char(s.last()) {
        ascii_only(s.drop_last()).push(s.last())
    } else {
        ascii_only(s.drop_last())
    }
}

/// The pieces of `s` between the occurrences of `sep` (the behaviour of `str::split`
/// with a one-character pattern): always at least one piece.
pub open spec fn split_on(s: Seq<char>, sep: char) -> Seq<Seq<char>>
    decreases s.len(),
{
    if s.len() == 0 {
        seq![Seq::<char>::empty()]
    } else {
        let r = split_on(s.drop_last(), sep);
        if s.last() == sep {
            r.push(Seq::<char>::empty())
        } else {
            r.update(r.len() - 1, r.last().push(s.last()))
        }
    }
}

/// The pieces joined back together with `sep` between consecutive pieces.
pub open spec fn join_with(pieces: Seq<Seq<char>>, sep: char) -> Seq<char>
    decreases pieces.len(),
{
    if pieces.len() == 0 {
        Seq::<char>::empty()
    } else if pieces.len() == 1 {
        pieces[0]
    } else {
        join_with(pieces.drop_last(), sep).push(sep) + pieces.last()
    }
}

/// Number of bytes of the UTF-8 encoding of `c`.
pub open spec fn utf8_width(c: char) -> int {
    let u = c as u32;
    if u < 0x80 {
        1
    } else if u < 0x800 {
        2
    } else if u < 0x10000 {
        3
    } else {
        4
    }
}

/// Number of bytes of the UTF-8 encoding of `s`.
pub open spec fn utf8_len(s: Seq<char>) -> int
    decreases s.len(),
{
    if s.len() == 0 {
        0
    } else {
        utf8_len(s.drop_last()) + utf8_width(s.last())
    }
}

/// The character index at which byte offset `b` falls on a character boundary
/// of `s`, if it does (byte offsets that cut a character, or lie past the end,
/// have none).
pub open spec fn char_index_of_byte(s: Seq<char>, b: int) -> Option<int>
    decreases s.len(),
{
    if b == 0 {
        Some(0)
    } else if b < 0 || s.len() == 0 || utf8_width(s[0]) > b {
        None
    } else {
        match char_index_of_byte(s.skip(1), b - utf8_width(s[0])) {
            Some(k) => Some(k + 1),
            None => None,
        }
    }
}

/// The character sequences held by a list of character vectors.
pub open spec fn views(v: Seq<Vec<char>>) -> Seq<Seq<char>> {
    Seq::new(v.len(), |i: int| v[i]@)
}

/// An `Option<usize>` read as an `Option<int>`.
pub open spec fn opt_int(o: Option<usize>) -> Option<int> {
    match o {
        Some(k) => Some(k as int),
        None => None,
    }
}

// ---------------------------------------------------------------------------
// Lemmas
// ---------------------------------------------------------------------------

/// What `find_from` returns is the first occurrence at or after `i`.
pub proof fn lemma_find_from(s: Seq<char>, p: Seq<char>, i: int)
    requires
        0 <= i,
    ensures
        find_from(s, p, i) matches Some(k) ==> i <= k && occurs_at(s, p, k) && forall|j: int|
            i <= j < k ==> !occurs_at(s, p, j),
        find_from(s, p, i) is None ==> forall|j: int| i <= j ==> !occurs_at(s, p, j),
    decreases s.len() + 1 - i,
{
    if i + p.len() > s.len() {
    } else if occurs_at(s, p, i) {
    } else {
        lemma_find_from(s, p, i + 1);
    }
}

/// `ascii_only` keeps only ASCII characters and never lengthens.
pub proof fn lemma_ascii_only(s: Seq<char>)
    ensures
        ascii_only(s).len() <= s.len(),
        forall|i: int| 0 <= i < ascii_only(s).len() ==> is_ascii_char(#[trigger] ascii_only(s)[i]),
    decreases s.len(),
{
    if s.len() > 0 {
        lemma_ascii_only(s.drop_last());
    }
}

/// Removing every occurrence of a pattern never lengthens a text.
pub proof fn lemma_remove_all_shorter(s: Seq<char>, p: Seq<char>)
    ensures
        replace_all(s, p, Seq::<char>::empty()).len() <= s.len(),
    decreases s.len(),
{
    if s.len() == 0 || p.len() == 0 {
    } else if has_prefix(s, p) {
        lemma_remove_all_shorter(s.skip(p.len() as int), p);
        assert(Seq::<char>::empty() + replace_all(s.skip(p.len() as int), p, Seq::<char>::empty())
            == replace_all(s.skip(p.len() as int), p, Seq::<char>::empty()));
    } else {
        lemma_remove_all_shorter(s.skip(1), p);
    }
}

/// Removing a pattern without shortening the text removes nothing: the pattern
/// does not occur in the text, which comes back as it was.
pub proof fn lemma_remove_same_len(s: Seq<char>, p: Seq<char>)
    requires
        p.len() > 0,
        replace_all(s, p, Seq::<char>::empty()).len() == s.len(),
    ensures
        replace_all(s, p, Seq::<char>::empty()) == s,
        forall|i: int| !occurs_at(s, p, i),
    decreases s.len(),
{
    if s.len() == 0 {
    } else if has_prefix(s, p) {
        lemma_remove_all_shorter(s.skip(p.len() as int), p);
        assert(Seq::<char>::empty() + replace_all(s.skip(p.len() as int), p, Seq::<char>::empty())
            == replace_all(s.skip(p.len() as int), p, Seq::<char>::empty()));
    } else {
        lemma_remove_same_len(s.skip(1), p);
        assert(seq![s[0]] + s.skip(1) == s);
        assert forall|i: int| !occurs_at(s, p, i) by {
            if i > 0 && occurs_at(s, p, i) {
                assert(s.skip(1).subrange(i - 1, i - 1 + p.len()) =~= s.subrange(i, i + p.len()));
                assert(occurs_at(s.skip(1), p, i - 1));
            }
        }
    }
}

/// A text in which the first character of the pattern never occurs is left as it is.
pub proof fn lemma_replace_absent(s: Seq<char>, p: Seq<char>, r: Seq<char>)
    requires
        p.len() > 0,
        forall|i: int| 0 <= i < s.len() ==> s[i] != p[0],
    ensures
        replace_all(s, p, r) == s,
    decreases s.len(),
{
    if s.len() > 0 {
        if has_prefix(s, p) {
            assert(s.subrange(0, p.len() as int)[0] == s[0]);
        }
        lemma_replace_absent(s.skip(1), p, r);
        assert(seq![s[0]] + s.skip(1) == s);
    }
}

/// Removing every occurrence of the one-character pattern `c` leaves no `c`.
pub proof fn lemma_replace_removes_char(s: Seq<char>, c: char)
    ensures
        forall|i: int| 0 <= i < replace_all(s, seq![c], Seq::<char>::empty()).len()
            ==> #[trigger] replace_all(s, seq![c], Seq::<char>::empty())[i] != c,
    decreases s.len(),
{
    if s.len() > 0 {
        lemma_replace_removes_char(s.skip(1), c);
        let rest = replace_all(s.skip(1), seq![c], Seq::<char>::empty());
        if has_prefix(s, seq![c]) {
            assert(Seq::<char>::empty() + rest == rest);
        } else {
            assert(s.subrange(0, 1) =~= seq![s[0]]);
            assert(s[0] != c);
        }
    }
}


/// Removing the non-ASCII characters of two joined texts removes them from each.
pub proof fn lemma_ascii_only_concat(a: Seq<char>, b: Seq<char>)
    ensures
        ascii_only(a + b) == ascii_only(a) + ascii_only(b),
    decreases b.len(),
{
    if b.len() == 0 {
        assert(a + b =~= a);
        assert(ascii_only(a) + ascii_only(b) =~= ascii_only(a));
    } else {
        assert((a + b).drop_last() =~= a + b.drop_last());
        assert((a + b).last() == b.last());
        lemma_ascii_only_concat(a, b.drop_last());
        assert((ascii_only(a) + ascii_only(b.drop_last())).push(b.last()) =~= ascii_only(a)
            + ascii_only(b.drop_last()).push(b.last()));
    }
}

/// A text of ASCII characters has nothing to remove.
pub proof fn lemma_ascii_only_all_ascii(s: Seq<char>)
    requires
        all_ascii(s),
    ensures
        ascii_only(s) == s,
    decreases s.len(),
{
    if s.len() > 0 {
        assert(all_ascii(s.drop_last())) by {
            assert forall|i: int| 0 <= i < s.drop_last().len() implies is_ascii_char(
                #[trigger] s.drop_last()[i],
            ) by {
                assert(s.drop_last()[i] == s[i]);
            }
        }
        lemma_ascii_only_all_ascii(s.drop_last());
        assert(is_ascii_char(s[s.len() - 1]));
        assert(s.drop_last().push(s.last()) =~= s);
    }
}

/// A sequence of ASCII characters.
pub open spec fn all_ascii(p: Seq<char>) -> bool {
    forall|i: int| 0 <= i < p.len() ==> is_ascii_char(#[trigger] p[i])
}

/// Removing the non-ASCII characters keeps an ASCII suffix at the end.
proof fn lemma_ascii_only_suffix(s: Seq<char>, p: Seq<char>)
    requires
        all_ascii(p),
        p.len() <= s.len(),
        s.skip(s.len() - p.len()) == p,
    ensures
        p.len() <= ascii_only(s).len(),
        ascii_only(s).skip(ascii_only(s).len() - p.len()) == p,
    decreases p.len(),
{
    if p.len() == 0 {
        lemma_ascii_only(s);
        assert(ascii_only(s).skip(ascii_only(s).len() as int) =~= p);
    } else {
        let q = p.drop_last();
        assert(s.last() == p.last()) by {
            assert(s.skip(s.len() - p.len())[p.len() - 1] == s.last());
        }
        assert(is_ascii_char(p[p.len() - 1]));
        assert(s.drop_last().skip(s.drop_last().len() - q.len()) =~= q) by {
            assert forall|k: int| 0 <= k < q.len() implies s.drop_last().skip(
                s.drop_last().len() - q.len(),
            )[k] == q[k] by {
                assert(s.skip(s.len() - p.len())[k] == p[k]);
            }
        }
        assert(all_ascii(q)) by {
            assert forall|k: int| 0 <= k < q.len() implies is_ascii_char(#[trigger] q[k]) by {
                assert(q[k] == p[k]);
            }
        }
        lemma_ascii_only_suffix(s.drop_last(), q);
        let a = ascii_only(s.drop_last());
        assert(ascii_only(s) == a.push(s.last()));
        assert(a.push(s.last()).skip(a.len() + 1 - p.len()) =~= p) by {
            assert forall|k: int| 0 <= k < p.len() implies a.push(s.last()).skip(
                a.len() + 1 - p.len(),
            )[k] == p[k] by {
                if k < p.len() - 1 {
                    assert(a.skip(a.len() - q.len())[k] == q[k]);
                }
            }
        }
    }
}

/// Removing the non-ASCII characters of a prefix gives a prefix of the result.
proof fn lemma_ascii_only_prefix(s: Seq<char>, k: int)
    requires
        0 <= k <= s.len(),
    ensures
        ascii_only(s.take(k)).len() <= ascii_only(s).len(),
        ascii_only(s).take(ascii_only(s.take(k)).len() as int) == ascii_only(s.take(k)),
    decreases s.len() - k,
{
    if k == s.len() {
        assert(s.take(k) == s);
        assert(ascii_only(s).take(ascii_only(s).len() as int) =~= ascii_only(s));
    } else {
        lemma_ascii_only_prefix(s, k + 1);
        assert(s.take(k + 1).drop_last() =~= s.take(k));
        let a = ascii_only(s.take(k));
        let b = ascii_only(s.take(k + 1));
        assert(b == a || b == a.push(s[k]));
        assert(ascii_only(s).take(a.len() as int) =~= a) by {
            assert forall|j: int| 0 <= j < a.len() implies ascii_only(s).take(a.len() as int)[j]
                == a[j] by {
                assert(ascii_only(s).take(b.len() as int)[j] == b[j]);
            }
        }
    }
}

/// An ASCII pattern that occurs in a text still occurs once the non-ASCII
/// characters are removed.
pub proof fn lemma_ascii_pattern_survives(s: Seq<char>, p: Seq<char>, i: int)
    requires
        all_ascii(p),
        occurs_at(s, p, i),
    ensures
        find_first(ascii_only(s), p) is Some,
{
    let e = i + p.len();
    let t = s.take(e);
    assert(t.skip(t.len() - p.len()) =~= s.subrange(i, e));
    lemma_ascii_only_suffix(t, p);
    lemma_ascii_only_prefix(s, e);
    let a = ascii_only(t);
    let j = a.len() - p.len();
    assert(ascii_only(s).subrange(j, j + p.len()) =~= p) by {
        assert forall|k: int| 0 <= k < p.len() implies ascii_only(s).subrange(j, j + p.len())[k]
            == p[k] by {
            assert(ascii_only(s).take(a.len() as int)[j + k] == a[j + k]);
            assert(a.skip(j)[k] == p[k]);
        }
    }
    assert(occurs_at(ascii_only(s), p, j));
    lemma_find_from(ascii_only(s), p, 0);
}

// ---------------------------------------------------------------------------
// Executable operations
// ---------------------------------------------------------------------------

/// `String::push` from std: appends one character at the end of the string.
#[verifier::external_body]
fn push_char(s: &mut String, c: char)
    ensures
        final(s)@ == old(s)@.push(c),
{
    s.push(c)
}

/// The characters of a string slice, in order.
pub fn chars_of(s: &str) -> (v: Vec<char>)
    ensures
        v@ == s@,
{
    let mut v: Vec<char> = Vec::new();
    for c in it: s.chars()
        invariant
            v@ == it.seq().take(it.index() as int),
    {
        v.push(c);
    }
    v
}

/// The string made of the given characters, in order.
pub fn string_of(v: &Vec<char>) -> (s: String)
    ensures
        s@ == v@,
{
    let mut s = String::new();
    let n = v.len();
    for i in 0..n
        invariant
            n == v@.len(),
            s@ == v@.take(i as int),
    {
        push_char(&mut s, v[i]);
        assert(v@.take(i + 1) == v@.take(i as int).push(v@[i as int]));
    }
    assert(v@.take(n as int) == v@);
    s
}

/// Appends the characters of `r` to `out`.
pub fn append_chars(out: &mut Vec<char>, r: &Vec<char>)
    ensures
        final(out)@ == old(out)@ + r@,
{
    let n = r.len();
    let ghost start = out@;
    for i in 0..n
        invariant
            n == r@.len(),
            out@ == start + r@.take(i as int),
    {
        out.push(r[i]);
        assert(r@.take(i + 1) == r@.take(i as int).push(r@[i as int]));
    }
    assert(r@.take(n as int) == r@);
}

/// Appends the characters of `r` to `out`.
pub fn append_str(out: &mut Vec<char>, r: &str)
    ensures
        final(out)@ == old(out)@ + r@,
{
    let v = chars_of(r);
    append_chars(out, &v);
}

/// Whether two character sequences are equal.
pub fn chars_eq(a: &Vec<char>, b: &Vec<char>) -> (r: bool)
    ensures
        r == (a@ == b@),
{
    if a.len() != b.len() {
        return false;
    }
    let n = a.len();
    for i in 0..n
        invariant
            n == a@.len(),
            n == b@.len(),
            forall|j: int| 0 <= j < i ==> a@[j] == b@[j],
    {
        if a[i] != b[i] {
            return false;
        }
    }
    assert(a@ =~= b@);
    true
}

/// Whether `p` occurs in `s` at index `i`.
pub fn occurs_at_exec(s: &Vec<char>, p: &Vec<char>, i: usize) -> (r: bool)
    ensures
        r == occurs_at(s@, p@, i as int),
{
    let n = s.len();
    let m = p.len();
    if i > n || m > n - i {
        return false;
    }
    for j in 0..m
        invariant
            n == s@.len(),
            m == p@.len(),
            i + m <= n,
            forall|k: int| 0 <= k < j ==> s@[i + k] == p@[k],
    {
        if s[i + j] != p[j] {
            assert(s@.subrange(i as int, i + m)[j as int] == s@[i + j]);
            return false;
        }
    }
    assert(s@.subrange(i as int, i + m) =~= p@);
    true
}

/// Whether `s` begins with `p`.
pub fn has_prefix_exec(s: &Vec<char>, p: &Vec<char>) -> (r: bool)
    ensures
        r == has_prefix(s@, p@),
{
    occurs_at_exec(s, p, 0)
}

/// The first index where `p` occurs in `s`.
pub fn find_exec(s: &Vec<char>, p: &Vec<char>) -> (r: Option<usize>)
    ensures
        opt_int(r) == find_first(s@, p@),
{
    let n = s.len();
    let m = p.len();
    if m > n {
        return None;
    }
    if m == 0 {
        assert(s@.subrange(0, 0) =~= p@);
        return Some(0);
    }
    let mut i: usize = 0;
    while i <= n - m
        invariant
            n == s@.len(),
            m == p@.len(),
            0 < m <= n,
            i <= n - m + 1,
            find_from(s@, p@, 0) == find_from(s@, p@, i as int),
        decreases n - m + 1 - i,
    {
        if occurs_at_exec(s, p, i) {
            return Some(i);
        }
        i = i + 1;
    }
    None
}

/// The first index of the character `c` in `s`.
pub fn find_char_exec(s: &Vec<char>, c: char) -> (r: Option<usize>)
    ensures
        opt_int(r) == find_char(s@, c),
{
    let mut p: Vec<char> = Vec::new();
    p.push(c);
    assert(p@ == seq![c]);
    find_exec(s, &p)
}

/// Every non-overlapping occurrence of `p` in `s`, left to right, replaced by `r`.
pub fn replace_exec(s: &Vec<char>, p: &Vec<char>, r: &Vec<char>) -> (out: Vec<char>)
    requires
        p@.len() > 0,
    ensures
        out@ == replace_all(s@, p@, r@),
{
    let n = s.len();
    let m = p.len();
    let mut out: Vec<char> = Vec::new();
    let mut i: usize = 0;
    assert(s@.skip(0) =~= s@);
    assert(out@ + s@ =~= s@);
    while i < n
        invariant
            n == s@.len(),
            m == p@.len(),
            m > 0,
            i <= n,
            out@ + replace_all(s@.skip(i as int), p@, r@) == replace_all(s@, p@, r@),
        decreases n - i,
    {
        let ghost rest = s@.skip(i as int);
        if occurs_at_exec(s, p, i) {
            assert(rest.subrange(0, m as int) =~= s@.subrange(i as int, i + m));
            assert(rest.skip(m as int) =~= s@.skip(i + m));
            append_chars(&mut out, r);
            i = i + m;
        } else {
            assert(!has_prefix(rest, p@)) by {
                if has_prefix(rest, p@) {
                    assert(rest.subrange(0, m as int) =~= s@.subrange(i as int, i + m));
                }
            }
            assert(rest.skip(1) =~= s@.skip(i + 1));
            assert(rest[0] == s@[i as int]);
            out.push(s[i]);
            i = i + 1;
        }
    }
    assert(s@.skip(n as int) =~= Seq::<char>::empty());
    assert(out@ + Seq::<char>::empty() == out@);
    out
}

/// `s` with every non-ASCII character removed.
pub fn ascii_only_exec(s: &Vec<char>) -> (out: Vec<char>)
    ensures
        out@ == ascii_only(s@),
{
    let n = s.len();
    let mut out: Vec<char> = Vec::new();
    for i in 0..n
        invariant
            n == s@.len(),
            out@ == ascii_only(s@.take(i as int)),
    {
        let c = s[i];
        assert(s@.take(i + 1).drop_last() == s@.take(i as int));
        assert(s@.take(i + 1).last() == c);
        if (c as u32) < 128 {
            out.push(c);
        }
    }
    assert(s@.take(n as int) == s@);
    out
}

/// The pieces of `s` between the occurrences of `sep`.
pub fn split_exec(s: &Vec<char>, sep: char) -> (out: Vec<Vec<char>>)
    ensures
        views(out@) == split_on(s@, sep),
{
    let n = s.len();
    let mut done: Vec<Vec<char>> = Vec::new();
    let mut cur: Vec<char> = Vec::new();
    assert(views(done@).push(cur@) =~= seq![Seq::<char>::empty()]);
    assert(s@.take(0) =~= Seq::<char>::empty());
    for i in 0..n
        invariant
            n == s@.len(),
            views(done@).push(cur@) == split_on(s@.take(i as int), sep),
    {
        let c = s[i];
        let ghost before = views(done@).push(cur@);
        assert(s@.take(i + 1).drop_last() == s@.take(i as int));
        assert(s@.take(i + 1).last() == c);
        if c == sep {
            let piece = cur;
            done.push(piece);
            cur = Vec::new();
            assert(views(done@) =~= before);
            assert(views(done@).push(cur@) =~= before.push(Seq::<char>::empty()));
        } else {
            cur.push(c);
            assert(views(done@).push(cur@) =~= before.update(
                before.len() - 1,
                before.last().push(c),
            ));
        }
    }
    assert(s@.take(n as int) == s@);
    let ghost before = views(done@).push(cur@);
    done.push(cur);
    assert(views(done@) =~= before);
    done
}

/// Whether the word `w` is one of `words`.
pub fn contains_word(words: &Vec<Vec<char>>, w: &Vec<char>) -> (r: bool)
    ensures
        r == views(words@).contains(w@),
{
    let n = words.len();
    for i in 0..n
        invariant
            n == views(words@).len(),
            forall|j: int| 0 <= j < i ==> views(words@)[j] != w@,
    {
        if chars_eq(&words[i], w) {
            assert(views(words@)[i as int] == w@);
            return true;
        }
        assert(views(words@)[i as int] == words@[i as int]@);
    }
    assert(!views(words@).contains(w@)) by {
        if views(words@).contains(w@) {
            let j = choose|j: int| 0 <= j < views(words@).len() && views(words@)[j] == w@;
            assert(views(words@)[j] != w@);
        }
    }
    false
}

/// Whether the word given as a string slice is one of `words`.
pub fn contains_word_str(words: &Vec<Vec<char>>, w: &str) -> (r: bool)
    ensures
        r == views(words@).contains(w@),
{
    let wv = chars_of(w);
    contains_word(words, &wv)
}

/// The pieces from index `from` on, joined back together with `sep`.
pub fn join_from(pieces: &Vec<Vec<char>>, from: usize, sep: char) -> (out: Vec<char>)
    requires
        from <= pieces@.len(),
    ensures
        out@ == join_with(views(pieces@).skip(from as int), sep),
{
    let n = pieces.len();
    let mut out: Vec<char> = Vec::new();
    let mut i: usize = from;
    while i < n
        invariant
            n == views(pieces@).len(),
            from <= i <= n,
            out@ == join_with(views(pieces@).subrange(from as int, i as int), sep),
        decreases n - i,
    {
        let ghost sub = views(pieces@).subrange(from as int, i + 1);
        assert(sub.drop_last() =~= views(pieces@).subrange(from as int, i as int));
        assert(sub.last() == pieces[i as int]@);
        if i > from {
            out.push(sep);
        } else {
            assert(sub.len() == 1);
        }
        append_chars(&mut out, &pieces[i]);
        i = i + 1;
    }
    assert(views(pieces@).subrange(from as int, n as int) =~= views(pieces@).skip(
        from as int,
    ));
    out
}

/// Number of bytes in the UTF-8 encoding of `c`.
pub fn utf8_width_exec(c: char) -> (w: usize)
    ensures
        w == utf8_width(c),
{
    let u = c as u32;
    if u < 0x80 {
        1
    } else if u < 0x800 {
        2
    } else if u < 0x10000 {
        3
    } else {
        4
    }
}

/// The character index at which byte offset `b` of `s` falls on a character boundary.
pub fn char_index_of_byte_exec(s: &Vec<char>, b: usize) -> (r: Option<usize>)
    ensures
        opt_int(r) == char_index_of_byte(s@, b as int),
{
    let n = s.len();
    let mut i: usize = 0;
    let mut left: usize = b;
    assert(s@.skip(0) =~= s@);
    while i < n && left > 0
        invariant
            n == s@.len(),
            i <= n,
            left <= b,
            char_index_of_byte(s@, b as int) == match char_index_of_byte(
                s@.skip(i as int),
                left as int,
            ) {
                Some(k) => Some(k + i),
                None => None,
            },
        decreases n - i,
    {
        let w = utf8_width_exec(s[i]);
        assert(s@.skip(i as int)[0] == s@[i as int]);
        assert(s@.skip(i as int).skip(1) =~= s@.skip(i + 1));
        if w > left {
            return None;
        }
        left = left - w;
        i = i + 1;
    }
    if left == 0 {
        Some(i)
    } else {
        assert(s@.skip(i as int).len() == 0);
        None
    }
}

/// Whether the UTF-8 encoding of `s` is longer than `k` bytes.
pub fn utf8_longer_than(s: &Vec<char>, k: usize) -> (r: bool)
    ensures
        r == (utf8_len(s@) > k),
{
    let n = s.len();
    let mut total: usize = 0;
    let mut i: usize = 0;
    assert(s@.take(0) =~= Seq::<char>::empty());
    assert forall|j: int| 0 <= j <= n implies utf8_len(s@.take(j)) >= 0 by {
        lemma_utf8_len_monotone(s@, 0, j);
    }
    while i < n
        invariant
            n == s@.len(),
            i <= n,
            total <= k,
            total == utf8_len(s@.take(i as int)),
            forall|j: int| i <= j <= n ==> utf8_len(s@.take(j)) >= total,
        decreases n - i,
    {
        assert(s@.take(i + 1).drop_last() == s@.take(i as int));
        let w = utf8_width_exec(s[i]);
        if w > k - total {
            proof {
                lemma_utf8_len_monotone(s@, i + 1, n as int);
                assert(s@.take(n as int) == s@);
            }
            return true;
        }
        total = total + w;
        i = i + 1;
        proof {
            assert forall|j: int| i <= j <= n implies utf8_len(s@.take(j)) >= total by {
                lemma_utf8_len_monotone(s@, i as int, j);
            }
        }
    }
    assert(s@.take(n as int) == s@);
    false
}

/// A byte offset that falls on a character boundary lies within the text, at a
/// character index no larger than the offset.
pub proof fn lemma_char_index_bounds(s: Seq<char>, b: int)
    ensures
        char_index_of_byte(s, b) matches Some(k) ==> 0 <= k <= b && k <= s.len(),
    decreases s.len(),
{
    if b == 0 || b < 0 || s.len() == 0 || utf8_width(s[0]) > b {
    } else {
        lemma_char_index_bounds(s.skip(1), b - utf8_width(s[0]));
    }
}

/// The characters of `v` from index `from` up to (not including) `to`.
pub fn copy_range(v: &Vec<char>, from: usize, to: usize) -> (out: Vec<char>)
    requires
        from <= to <= v@.len(),
    ensures
        out@ == v@.subrange(from as int, to as int),
{
    let mut out: Vec<char> = Vec::new();
    for i in from..to
        invariant
            to <= v@.len(),
            out@ == v@.subrange(from as int, i as int),
    {
        out.push(v[i]);
        assert(v@.subrange(from as int, i + 1) == v@.subrange(from as int, i as int).push(
            v@[i as int],
        ));
    }
    out
}

/// UTF-8 length grows with the prefix taken.
pub proof fn lemma_utf8_len_monotone(s: Seq<char>, i: int, j: int)
    requires
        0 <= i <= j <= s.len(),
    ensures
        utf8_len(s.take(i)) <= utf8_len(s.take(j)),
    decreases j - i,
{
    if i < j {
        lemma_utf8_len_monotone(s, i, j - 1);
        assert(s.take(j).drop_last() == s.take(j - 1));
    }
}

} // verus!
