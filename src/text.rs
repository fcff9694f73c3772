//! Character-level views of kernel interface text: splitting into lines,
//! whitespace-separated words and separator-delimited pieces.
use vstd::prelude::*;

verus! {

/// The characters that `char::is_whitespace` accepts (Unicode White_Space).
pub open spec fn is_space(c: char) -> bool {
    c == ' ' || c == '\t' || c == '\n' || c == '\x0B' || c == '\x0C' || c == '\r' || c == '\u{85}'
        || c == '\u{A0}' || c == '\u{1680}' || ('\u{2000}' <= c && c <= '\u{200A}') || c
        == '\u{2028}' || c == '\u{2029}' || c == '\u{202F}' || c == '\u{205F}' || c == '\u{3000}'
}

/// The pieces of `s` between occurrences of `sep`, as `str::split(sep)` yields them:
/// always at least one piece, empty pieces included.
pub open spec fn split_on(s: Seq<char>, sep: char) -> Seq<Seq<char>>
    decreases s.len(),
{
    if s.len() == 0 {
        seq![Seq::empty()]
    } else {
        let prev = split_on(s.drop_last(), sep);
        if s.last() == sep {
            prev.push(Seq::empty())
        } else {
            prev.update(prev.len() - 1, prev.last().push(s.last()))
        }
    }
}

/// The pieces of `s` between whitespace characters, empty pieces included.
pub open spec fn split_space(s: Seq<char>) -> Seq<Seq<char>>
    decreases s.len(),
{
    if s.len() == 0 {
        seq![Seq::empty()]
    } else {
        let prev = split_space(s.drop_last());
        if is_space(s.last()) {
            prev.push(Seq::empty())
        } else {
            prev.update(prev.len() - 1, prev.last().push(s.last()))
        }
    }
}

/// The words of `s`, as `str::split_whitespace` yields them: the maximal runs of
/// non-whitespace characters, in order.
pub open spec fn words(s: Seq<char>) -> Seq<Seq<char>> {
    split_space(s).filter(|p: Seq<char>| p.len() > 0)
}

/// The first line of `s`: everything before the first newline.
pub open spec fn first_line(s: Seq<char>) -> Seq<char> {
    split_on(s, '\n')[0]
}

/// `s` cut at its first `c`: the text before it and the text after it, as
/// `str::splitn(2, c)` yields them when `c` occurs.
pub open spec fn split_once(s: Seq<char>, c: char) -> Option<(Seq<char>, Seq<char>)>
    decreases s.len(),
{
    if s.len() == 0 {
        None
    } else if s[0] == c {
        Some((Seq::empty(), s.drop_first()))
    } else {
        match split_once(s.drop_first(), c) {
            Some((a, b)) => Some((seq![s[0]] + a, b)),
            None => None,
        }
    }
}

pub proof fn lemma_split_once_at(s: Seq<char>, c: char, i: int)
    requires
        0 <= i < s.len(),
        s[i] == c,
        forall|j: int| 0 <= j < i ==> s[j] != c,
    ensures
        split_once(s, c) == Some((s.subrange(0, i), s.subrange(i + 1, s.len() as int))),
    decreases i,
{
    if i == 0 {
        assert(s.subrange(0, 0) =~= Seq::<char>::empty());
        assert(s.subrange(1, s.len() as int) =~= s.drop_first());
    } else {
        let t = s.drop_first();
        lemma_split_once_at(t, c, i - 1);
        assert(seq![s[0]] + t.subrange(0, i - 1) =~= s.subrange(0, i));
        assert(t.subrange(i, t.len() as int) =~= s.subrange(i + 1, s.len() as int));
    }
}

pub proof fn lemma_split_once_none(s: Seq<char>, c: char)
    requires
        forall|j: int| 0 <= j < s.len() ==> s[j] != c,
    ensures
        split_once(s, c) is None,
    decreases s.len(),
{
    if s.len() > 0 {
        lemma_split_once_none(s.drop_first(), c);
    }
}

/// The pieces joined with single spaces between them.
pub open spec fn join_words(ts: Seq<Seq<char>>) -> Seq<char>
    decreases ts.len(),
{
    if ts.len() == 0 {
        Seq::empty()
    } else if ts.len() == 1 {
        ts[0]
    } else {
        join_words(ts.drop_last()) + seq![' '] + ts.last()
    }
}

/// `s` without one trailing newline, if it ends with one.
pub open spec fn chomp(s: Seq<char>) -> Seq<char> {
    if s.len() > 0 && s.last() == '\n' {
        s.drop_last()
    } else {
        s
    }
}

/// The views of a sequence of strings.
pub open spec fn texts(v: Seq<String>) -> Seq<Seq<char>> {
    v.map_values(|p: String| p@)
}

pub proof fn lemma_split_on_nonempty(s: Seq<char>, sep: char)
    ensures
        split_on(s, sep).len() >= 1,
    decreases s.len(),
{
    if s.len() > 0 {
        lemma_split_on_nonempty(s.drop_last(), sep);
    }
}

/// Text without `sep` is one piece.
pub proof fn lemma_split_on_absent(s: Seq<char>, sep: char)
    requires
        forall|i: int| 0 <= i < s.len() ==> s[i] != sep,
    ensures
        split_on(s, sep) == seq![s],
    decreases s.len(),
{
    if s.len() == 0 {
        assert(s =~= Seq::<char>::empty());
    } else {
        lemma_split_on_absent(s.drop_last(), sep);
        assert(s.drop_last().push(s.last()) =~= s);
        assert(s.last() != sep);
        let prev = split_on(s.drop_last(), sep);
        assert(prev.update(0, prev.last().push(s.last())) =~= seq![s]);
    }
}

/// Appending text without whitespace extends the last piece.
pub proof fn lemma_split_space_extend(p: Seq<char>, b: Seq<char>)
    requires
        forall|i: int| 0 <= i < b.len() ==> !is_space(b[i]),
    ensures
        split_space(p + b) == split_space(p).update(
            split_space(p).len() - 1,
            split_space(p).last() + b,
        ),
    decreases b.len(),
{
    lemma_split_space_nonempty(p);
    if b.len() == 0 {
        assert(p + b =~= p);
        assert(split_space(p).last() + b =~= split_space(p).last());
        assert(split_space(p).update(split_space(p).len() - 1, split_space(p).last())
            =~= split_space(p));
    } else {
        let c = b.last();
        lemma_split_space_extend(p, b.drop_last());
        assert((p + b).drop_last() =~= p + b.drop_last());
        assert((p + b).last() == c);
        assert(split_space(p).last() + b.drop_last() + seq![c] =~= split_space(p).last() + b);
        let q = split_space(p + b.drop_last());
        assert(!is_space(c));
        assert(q.len() == split_space(p).len());
        assert(q.last() == split_space(p).last() + b.drop_last());
        assert(q.last().push(c) =~= split_space(p).last() + b);
        assert(q.update(q.len() - 1, q.last().push(c)) =~= split_space(p).update(
            split_space(p).len() - 1,
            split_space(p).last() + b,
        ));
    }
}

/// The words of two runs of non-whitespace text joined by a space are the two runs.
pub proof fn lemma_words_pair(a: Seq<char>, b: Seq<char>)
    requires
        a.len() > 0,
        b.len() > 0,
        forall|i: int| 0 <= i < a.len() ==> !is_space(a[i]),
        forall|i: int| 0 <= i < b.len() ==> !is_space(b[i]),
    ensures
        words(a + seq![' '] + b) == seq![a, b],
{
    let e = Seq::<char>::empty();
    lemma_split_space_extend(e, a);
    assert(e + a =~= a);
    assert(split_space(e) =~= seq![e]);
    assert(e + a =~= a);
    assert(split_space(a) =~= seq![a]);
    let a1 = a + seq![' '];
    assert(a1.drop_last() =~= a);
    assert(split_space(a1) =~= seq![a, e]);
    lemma_split_space_extend(a1, b);
    assert(e + b =~= b);
    assert(split_space(a1 + b) =~= seq![a, b]);
    lemma_words_of_pieces(seq![a, b]);
    assert(seq![a, b].drop_last() =~= seq![a]);
    lemma_words_of_pieces(seq![a]);
    lemma_words_of_pieces(Seq::empty());
    assert(seq![a].drop_last() =~= Seq::<Seq<char>>::empty());
}

/// The words of a run of non-whitespace text are that run.
pub proof fn lemma_words_single(a: Seq<char>)
    requires
        a.len() > 0,
        forall|i: int| 0 <= i < a.len() ==> !is_space(a[i]),
    ensures
        words(a) == seq![a],
{
    let e = Seq::<char>::empty();
    lemma_split_space_extend(e, a);
    assert(e + a =~= a);
    assert(split_space(e) =~= seq![e]);
    assert(split_space(a) =~= seq![a]);
    lemma_words_of_pieces(seq![a]);
    lemma_words_of_pieces(Seq::empty());
    assert(seq![a].drop_last() =~= Seq::<Seq<char>>::empty());
}

proof fn lemma_words_of_pieces(ps: Seq<Seq<char>>)
    ensures
        ps.len() == 0 ==> ps.filter(|p: Seq<char>| p.len() > 0) == ps,
        ps.len() > 0 && ps.last().len() > 0 ==> ps.filter(|p: Seq<char>| p.len() > 0)
            == ps.drop_last().filter(|p: Seq<char>| p.len() > 0).push(ps.last()),
{
    reveal(Seq::filter);
}

pub proof fn lemma_split_space_nonempty(s: Seq<char>)
    ensures
        split_space(s).len() >= 1,
    decreases s.len(),
{
    if s.len() > 0 {
        lemma_split_space_nonempty(s.drop_last());
    }
}

/// Whether `c` is whitespace.
pub fn is_space_char(c: char) -> (r: bool)
    ensures
        r == is_space(c),
{
    c == ' ' || c == '\t' || c == '\n' || c == '\x0B' || c == '\x0C' || c == '\r' || c == '\u{85}'
        || c == '\u{A0}' || c == '\u{1680}' || ('\u{2000}' <= c && c <= '\u{200A}') || c
        == '\u{2028}' || c == '\u{2029}' || c == '\u{202F}' || c == '\u{205F}' || c == '\u{3000}'
}

/// Splits `s` at every `sep`.
pub fn split_char(s: &str, sep: char) -> (r: Vec<String>)
    ensures
        texts(r@) == split_on(s@, sep),
{
    let n = s.unicode_len();
    let mut out: Vec<String> = Vec::new();
    let mut start: usize = 0;
    let mut i: usize = 0;
    proof {
        assert(s@.subrange(0, 0) =~= Seq::<char>::empty());
        assert(texts(out@) =~= Seq::<Seq<char>>::empty());
        assert(texts(out@).push(s@.subrange(0, 0)) =~= split_on(s@.subrange(0, 0), sep));
    }
    while i < n
        invariant
            n == s@.len(),
            start <= i <= n,
            texts(out@).push(s@.subrange(start as int, i as int)) == split_on(
                s@.subrange(0, i as int),
                sep,
            ),
        decreases n - i,
    {
        let c = s.get_char(i);
        proof {
            let t = s@.subrange(0, i as int + 1);
            assert(t.drop_last() =~= s@.subrange(0, i as int));
            assert(t.last() == c);
            lemma_split_on_nonempty(s@.subrange(0, i as int), sep);
        }
        if c == sep {
            let piece = String::from_str(s.substring_char(start, i));
            proof {
                assert(texts(out@.push(piece)) =~= texts(out@).push(piece@));
            }
            out.push(piece);
            start = i + 1;
            proof {
                assert(s@.subrange(start as int, start as int) =~= Seq::<char>::empty());
            }
        } else {
            proof {
                assert(s@.subrange(start as int, i as int + 1) =~= s@.subrange(
                    start as int,
                    i as int,
                ).push(c));
                let prev = texts(out@).push(s@.subrange(start as int, i as int));
                assert(prev.update(prev.len() - 1, prev.last().push(c)) =~= texts(out@).push(
                    s@.subrange(start as int, i as int + 1),
                ));
            }
        }
        i = i + 1;
    }
    let last = String::from_str(s.substring_char(start, n));
    proof {
        assert(texts(out@.push(last)) =~= texts(out@).push(last@));
        assert(s@.subrange(0, n as int) =~= s@);
    }
    out.push(last);
    out
}

/// Splits `s` into its whitespace-separated words.
pub fn split_words(s: &str) -> (r: Vec<String>)
    ensures
        texts(r@) == words(s@),
{
    let n = s.unicode_len();
    let mut out: Vec<String> = Vec::new();
    let mut start: usize = 0;
    let mut i: usize = 0;
    let ghost mut pieces: Seq<Seq<char>> = Seq::empty();
    proof {
        reveal(Seq::filter);
        assert(s@.subrange(0, 0) =~= Seq::<char>::empty());
        assert(texts(out@) =~= Seq::<Seq<char>>::empty());
        assert(pieces.push(s@.subrange(0, 0)) =~= split_space(s@.subrange(0, 0)));
        assert(texts(out@) =~= pieces.filter(|p: Seq<char>| p.len() > 0));
    }
    while i < n
        invariant
            n == s@.len(),
            start <= i <= n,
            pieces.push(s@.subrange(start as int, i as int)) == split_space(
                s@.subrange(0, i as int),
            ),
            texts(out@) == pieces.filter(|p: Seq<char>| p.len() > 0),
        decreases n - i,
    {
        let c = s.get_char(i);
        proof {
            let t = s@.subrange(0, i as int + 1);
            assert(t.drop_last() =~= s@.subrange(0, i as int));
            assert(t.last() == c);
            lemma_split_space_nonempty(s@.subrange(0, i as int));
        }
        if is_space_char(c) {
            let ghost piece_v = s@.subrange(start as int, i as int);
            proof {
                reveal(Seq::filter);
                assert(pieces.push(piece_v).drop_last() =~= pieces);
            }
            if start < i {
                let piece = String::from_str(s.substring_char(start, i));
                proof {
                    assert(texts(out@.push(piece)) =~= texts(out@).push(piece@));
                }
                out.push(piece);
            }
            proof {
                pieces = pieces.push(piece_v);
            }
            start = i + 1;
            proof {
                assert(s@.subrange(start as int, start as int) =~= Seq::<char>::empty());
            }
        } else {
            proof {
                assert(s@.subrange(start as int, i as int + 1) =~= s@.subrange(
                    start as int,
                    i as int,
                ).push(c));
                let prev = pieces.push(s@.subrange(start as int, i as int));
                assert(prev.update(prev.len() - 1, prev.last().push(c)) =~= pieces.push(
                    s@.subrange(start as int, i as int + 1),
                ));
            }
        }
        i = i + 1;
    }
    let ghost last_v = s@.subrange(start as int, n as int);
    proof {
        reveal(Seq::filter);
        assert(pieces.push(last_v).drop_last() =~= pieces);
        assert(s@.subrange(0, n as int) =~= s@);
    }
    if start < n {
        let last = String::from_str(s.substring_char(start, n));
        proof {
            assert(texts(out@.push(last)) =~= texts(out@).push(last@));
        }
        out.push(last);
    }
    out
}

/// Cuts `s` at its first `c`.
pub fn split_once_char(s: &str, c: char) -> (r: Option<(String, String)>)
    ensures
        match r {
            Some((a, b)) => split_once(s@, c) == Some((a@, b@)),
            None => split_once(s@, c) is None,
        },
{
    let n = s.unicode_len();
    let mut i: usize = 0;
    while i < n
        invariant
            n == s@.len(),
            i <= n,
            forall|j: int| 0 <= j < i ==> s@[j] != c,
        decreases n - i,
    {
        if s.get_char(i) == c {
            proof {
                lemma_split_once_at(s@, c, i as int);
            }
            let a = String::from_str(s.substring_char(0, i));
            let b = String::from_str(s.substring_char(i + 1, n));
            return Some((a, b));
        }
        i = i + 1;
    }
    proof {
        lemma_split_once_none(s@, c);
    }
    None
}

/// Joins the pieces with single spaces between them.
pub fn join_with_spaces(ts: &Vec<String>) -> (r: String)
    ensures
        r@ == join_words(texts(ts@)),
{
    let mut acc = String::new();
    let mut i: usize = 0;
    while i < ts.len()
        invariant
            i <= ts@.len(),
            acc@ == join_words(texts(ts@).subrange(0, i as int)),
        decreases ts@.len() - i,
    {
        let ghost pre = texts(ts@).subrange(0, i as int + 1);
        assert(pre.drop_last() =~= texts(ts@).subrange(0, i as int));
        assert(pre.last() == ts@[i as int]@);
        let ghost before = acc@;
        if i > 0 {
            proof {
                reveal_strlit(" ");
                assert(" "@ =~= seq![' ']);
            }
            acc.append(" ");
        } else {
            assert(acc@ =~= Seq::<char>::empty());
        }
        acc.append(ts[i].as_str());
        proof {
            if i == 0 {
                assert(acc@ =~= pre[0]);
            } else {
                assert(acc@ =~= join_words(pre.drop_last()) + seq![' '] + pre.last());
            }
        }
        i = i + 1;
    }
    assert(texts(ts@).subrange(0, i as int) =~= texts(ts@));
    acc
}

/// `s` without one trailing newline, if it ends with one.
pub fn chomp_str<'a>(s: &'a str) -> (r: &'a str)
    ensures
        r@ == chomp(s@),
{
    let n = s.unicode_len();
    if n > 0 && s.get_char(n - 1) == '\n' {
        proof {
            assert(s@.drop_last() =~= s@.subrange(0, n - 1));
        }
        s.substring_char(0, n - 1)
    } else {
        s
    }
}

/// Whether two texts are equal.
pub fn same_text(a: &str, b: &str) -> (r: bool)
    ensures
        r == (a@ == b@),
{
    let n = a.unicode_len();
    let m = b.unicode_len();
    if n != m {
        return false;
    }
    let mut i: usize = 0;
    while i < n
        invariant
            n == a@.len(),
            m == b@.len(),
            n == m,
            i <= n,
            a@.subrange(0, i as int) == b@.subrange(0, i as int),
        decreases n - i,
    {
        if a.get_char(i) != b.get_char(i) {
            assert(a@[i as int] != b@[i as int]);
            return false;
        }
        assert(a@.subrange(0, i as int + 1) =~= a@.subrange(0, i as int).push(a@[i as int]));
        assert(b@.subrange(0, i as int + 1) =~= b@.subrange(0, i as int).push(b@[i as int]));
        i = i + 1;
    }
    assert(a@ =~= a@.subrange(0, n as int));
    assert(b@ =~= b@.subrange(0, n as int));
    true
}

} // verus!
