//! Cutting text into pieces: on a separator, into lines, into words; and
//! joining pieces again.

use crate::text::{char_is_space, from_chars, is_space, push_all, push_str, slice, to_chars};
use vstd::prelude::*;

verus! {

/// The views of a list of texts.
pub open spec fn rows(v: Seq<Vec<char>>) -> Seq<Seq<char>> {
    Seq::new(v.len(), |i: int| v[i]@)
}

pub proof fn lemma_rows_push(v: Seq<Vec<char>>, x: Vec<char>)
    ensures
        rows(v.push(x)) == rows(v).push(x@),
{
    assert(rows(v.push(x)) =~= rows(v).push(x@));
}

/// The views of a list of strings.
pub open spec fn texts(v: Seq<String>) -> Seq<Seq<char>> {
    Seq::new(v.len(), |i: int| v[i]@)
}

/// The views of a list of string slices.
pub open spec fn slices(v: Seq<&str>) -> Seq<Seq<char>> {
    Seq::new(v.len(), |i: int| v[i]@)
}

/// Appends a line to a list of lines.
pub fn push_row(list: &mut Vec<Vec<char>>, line: Vec<char>)
    ensures
        rows(final(list)@) == rows(old(list)@).push(line@),
        final(list)@.len() == old(list)@.len() + 1,
{
    proof {
        lemma_rows_push(list@, line);
    }
    list.push(line);
}

/// Appends the lines of `tail` to `list`.
pub fn append_rows(list: &mut Vec<Vec<char>>, tail: Vec<Vec<char>>)
    ensures
        rows(final(list)@) == rows(old(list)@) + rows(tail@),
{
    let mut tail = tail;
    let ghost added = tail@;
    list.append(&mut tail);
    assert(rows(list@) =~= rows(old(list)@) + rows(added));
}

/// Each text as a string.
pub fn to_strings(list: &Vec<Vec<char>>) -> (r: Vec<String>)
    ensures
        texts(r@) == rows(list@),
{
    let mut out: Vec<String> = Vec::new();
    let mut i: usize = 0;
    while i < list.len()
        invariant
            i <= list.len(),
            texts(out@) =~= rows(list@).subrange(0, i as int),
        decreases list.len() - i,
    {
        let ghost before = texts(out@);
        let item = from_chars(&list[i]);
        out.push(item);
        assert(texts(out@) =~= before.push(list@[i as int]@));
        assert(rows(list@).subrange(0, i + 1) =~= rows(list@).subrange(0, i as int).push(
            list@[i as int]@,
        ));
        i += 1;
    }
    assert(rows(list@).subrange(0, list@.len() as int) =~= rows(list@));
    out
}

/// A copy of a list of strings.
pub fn copy_strings(list: &Vec<String>) -> (r: Vec<String>)
    ensures
        texts(r@) == texts(list@),
        r@.len() == list@.len(),
{
    let mut out: Vec<String> = Vec::new();
    let mut i: usize = 0;
    while i < list.len()
        invariant
            i <= list.len(),
            out@.len() == i,
            texts(out@) =~= texts(list@).subrange(0, i as int),
        decreases list.len() - i,
    {
        let ghost before = texts(out@);
        let item = list[i].clone();
        out.push(item);
        assert(texts(out@) =~= before.push(list@[i as int]@));
        assert(texts(list@).subrange(0, i + 1) =~= texts(list@).subrange(0, i as int).push(
            list@[i as int]@,
        ));
        i += 1;
    }
    assert(texts(list@).subrange(0, list@.len() as int) =~= texts(list@));
    out
}

/// Each string as a text.
pub fn from_strings(list: &Vec<String>) -> (r: Vec<Vec<char>>)
    ensures
        rows(r@) == texts(list@),
{
    let mut out: Vec<Vec<char>> = Vec::new();
    let mut i: usize = 0;
    while i < list.len()
        invariant
            i <= list.len(),
            rows(out@) =~= texts(list@).subrange(0, i as int),
        decreases list.len() - i,
    {
        let ghost before = rows(out@);
        let item = to_chars(list[i].as_str());
        out.push(item);
        assert(rows(out@) =~= before.push(list@[i as int]@));
        assert(texts(list@).subrange(0, i + 1) =~= texts(list@).subrange(0, i as int).push(
            list@[i as int]@,
        ));
        i += 1;
    }
    assert(texts(list@).subrange(0, list@.len() as int) =~= texts(list@));
    out
}

/// One more element filtered and mapped: the step of a scan.
pub proof fn lemma_filter_map_step<A, B>(s: Seq<A>, i: int, f: spec_fn(A) -> Option<B>)
    requires
        0 <= i < s.len(),
    ensures
        s.subrange(0, i + 1).filter_map(f) == match f(s[i]) {
            Some(x) => s.subrange(0, i).filter_map(f).push(x),
            None => s.subrange(0, i).filter_map(f),
        },
{
    let after = s.subrange(0, i + 1);
    assert(after.drop_last() =~= s.subrange(0, i));
    assert(after.last() == s[i]);
    match f(s[i]) {
        Some(x) => {
            assert(s.subrange(0, i).filter_map(f) + seq![x] =~= s.subrange(0, i).filter_map(f).push(
                x,
            ));
        },
        None => {},
    }
}

// ---------------------------------------------------------------------------
// Splitting on a character
// ---------------------------------------------------------------------------

/// The pieces of `s` between occurrences of `sep`. There is always at least
/// one piece; `n` separators give `n + 1` pieces, some of which may be empty.
pub open spec fn split_on(s: Seq<char>, sep: char) -> Seq<Seq<char>>
    decreases s.len(),
{
    if s.len() == 0 {
        seq![Seq::<char>::empty()]
    } else {
        let init = split_on(s.drop_last(), sep);
        if s.last() == sep {
            init.push(Seq::<char>::empty())
        } else {
            init.drop_last().push(init.last().push(s.last()))
        }
    }
}

/// The pieces joined with `sep` between them.
pub open spec fn join_with(pieces: Seq<Seq<char>>, sep: Seq<char>) -> Seq<char>
    decreases pieces.len(),
{
    if pieces.len() == 0 {
        Seq::<char>::empty()
    } else if pieces.len() == 1 {
        pieces[0]
    } else {
        join_with(pieces.drop_last(), sep) + sep + pieces.last()
    }
}

/// Splitting gives at least one piece, no piece holds the separator, and
/// joining the pieces with the separator gives the text back.
pub proof fn lemma_split_on_laws(s: Seq<char>, sep: char)
    ensures
        split_on(s, sep).len() >= 1,
        forall|i: int| 0 <= i < split_on(s, sep).len() ==> !(#[trigger] split_on(s, sep)[i]).contains(sep),
        join_with(split_on(s, sep), seq![sep]) == s,
    decreases s.len(),
{
    if s.len() == 0 {
        let p = split_on(s, sep);
        assert(p[0] =~= Seq::<char>::empty());
        assert(join_with(p, seq![sep]) =~= s);
    } else {
        let t = s.drop_last();
        lemma_split_on_laws(t, sep);
        let init = split_on(t, sep);
        let p = split_on(s, sep);
        if s.last() == sep {
            assert(p.drop_last() =~= init);
            assert(join_with(p, seq![sep]) =~= s);
            assert forall|i: int| 0 <= i < p.len() implies !(#[trigger] p[i]).contains(sep) by {
                if i < init.len() {
                    assert(p[i] == init[i]);
                }
            }
        } else {
            let tail = init.last().push(s.last());
            assert forall|i: int| 0 <= i < p.len() implies !(#[trigger] p[i]).contains(sep) by {
                if i < init.len() - 1 {
                    assert(p[i] == init[i]);
                } else {
                    assert(p[i] == tail);
                    assert(!init.last().contains(sep));
                    if tail.contains(sep) {
                        let k = choose|k: int| 0 <= k < tail.len() && tail[k] == sep;
                        if k < init.last().len() {
                            assert(init.last()[k] == sep);
                        }
                    }
                }
            }
            if init.len() == 1 {
                assert(join_with(init, seq![sep]) == init[0]);
                assert(p[0] == tail);
                assert(join_with(p, seq![sep]) =~= s);
            } else {
                let head = join_with(init.drop_last(), seq![sep]);
                assert(p.drop_last() =~= init.drop_last());
                assert(p.last() == tail);
                assert(join_with(init, seq![sep]) == head + seq![sep] + init.last());
                assert(join_with(p, seq![sep]) == head + seq![sep] + tail);
                assert(head + seq![sep] + tail =~= (head + seq![sep] + init.last()).push(s.last()));
                assert(t.push(s.last()) =~= s);
            }
        }
    }
}

/// A text without the separator is its own single piece.
pub proof fn lemma_split_on_plain(s: Seq<char>, sep: char)
    requires
        !s.contains(sep),
    ensures
        split_on(s, sep) == seq![s],
    decreases s.len(),
{
    if s.len() == 0 {
        assert(s =~= Seq::<char>::empty());
        assert(split_on(s, sep) =~= seq![s]);
    } else {
        let t = s.drop_last();
        assert(!t.contains(sep)) by {
            if t.contains(sep) {
                let k = choose|k: int| 0 <= k < t.len() && t[k] == sep;
                assert(s[k] == sep);
            }
        }
        lemma_split_on_plain(t, sep);
        assert(s.last() != sep) by {
            assert(s[s.len() - 1] == s.last());
        }
        assert(t.push(s.last()) =~= s);
        assert(split_on(s, sep) =~= seq![s]);
    }
}

/// Two texts without the separator, put together around one separator, split
/// into exactly those two.
pub proof fn lemma_split_on_pair(a: Seq<char>, b: Seq<char>, sep: char)
    requires
        !a.contains(sep),
        !b.contains(sep),
    ensures
        split_on(a + seq![sep] + b, sep) == seq![a, b],
    decreases b.len(),
{
    let s = a + seq![sep] + b;
    if b.len() == 0 {
        assert(s.drop_last() =~= a);
        assert(s.last() == sep);
        assert(b =~= Seq::<char>::empty());
        lemma_split_on_plain(a, sep);
        assert(split_on(s, sep) == seq![a].push(Seq::<char>::empty()));
        assert(split_on(s, sep) =~= seq![a, b]);
    } else {
        let bt = b.drop_last();
        assert(!bt.contains(sep)) by {
            if bt.contains(sep) {
                let k = choose|k: int| 0 <= k < bt.len() && bt[k] == sep;
                assert(b[k] == sep);
            }
        }
        lemma_split_on_pair(a, bt, sep);
        assert(s.drop_last() =~= a + seq![sep] + bt);
        assert(s.last() == b.last());
        assert(b.last() != sep) by {
            assert(b[b.len() - 1] == b.last());
        }
        assert(bt.push(b.last()) =~= b);
        assert(split_on(s, sep) =~= seq![a, b]);
    }
}

/// The pieces of `v` between occurrences of `sep`.
pub fn split(v: &Vec<char>, sep: char) -> (r: Vec<Vec<char>>)
    ensures
        rows(r@) == split_on(v@, sep),
        r@.len() >= 1,
{
    let mut pieces: Vec<Vec<char>> = Vec::new();
    let mut cur: Vec<char> = Vec::new();
    let mut i: usize = 0;
    assert(v@.subrange(0, 0) =~= Seq::<char>::empty());
    assert(rows(pieces@).push(cur@) =~= seq![Seq::<char>::empty()]);
    while i < v.len()
        invariant
            i <= v.len(),
            rows(pieces@).push(cur@) == split_on(v@.subrange(0, i as int), sep),
        decreases v.len() - i,
    {
        let ghost before = v@.subrange(0, i as int);
        let ghost after = v@.subrange(0, i + 1);
        assert(after.drop_last() =~= before);
        assert(after.last() == v@[i as int]);
        let ghost old_rows = rows(pieces@);
        let ghost old_cur = cur@;
        assert(split_on(before, sep).last() == old_cur);
        assert(split_on(before, sep).drop_last() =~= old_rows);
        if v[i] == sep {
            proof {
                lemma_rows_push(pieces@, cur);
            }
            pieces.push(cur);
            cur = Vec::new();
        } else {
            cur.push(v[i]);
        }
        i += 1;
    }
    assert(v@.subrange(0, v@.len() as int) =~= v@);
    proof {
        lemma_rows_push(pieces@, cur);
    }
    pieces.push(cur);
    pieces
}

// ---------------------------------------------------------------------------
// Lines
// ---------------------------------------------------------------------------

/// `s` without one trailing carriage return.
pub open spec fn strip_cr(s: Seq<char>) -> Seq<char> {
    if s.len() > 0 && s.last() == '\r' {
        s.drop_last()
    } else {
        s
    }
}

/// The state of a scan for lines: the lines closed so far and the open one.
pub open spec fn line_scan(s: Seq<char>) -> (Seq<Seq<char>>, Seq<char>)
    decreases s.len(),
{
    if s.len() == 0 {
        (Seq::<Seq<char>>::empty(), Seq::<char>::empty())
    } else {
        let (done, cur) = line_scan(s.drop_last());
        if s.last() == '\n' {
            (done.push(strip_cr(cur)), Seq::<char>::empty())
        } else {
            (done, cur.push(s.last()))
        }
    }
}

/// The lines of `s`: a line ends at `\n`, which is dropped together with a
/// carriage return just before it; text after the last `\n` is a line if it
/// is not empty.
pub open spec fn lines_of(s: Seq<char>) -> Seq<Seq<char>> {
    let (done, cur) = line_scan(s);
    if cur.len() > 0 {
        done.push(cur)
    } else {
        done
    }
}

/// The lines of `v`.
pub fn lines(v: &Vec<char>) -> (r: Vec<Vec<char>>)
    ensures
        rows(r@) == lines_of(v@),
{
    let mut done: Vec<Vec<char>> = Vec::new();
    let mut cur: Vec<char> = Vec::new();
    let mut i: usize = 0;
    assert(v@.subrange(0, 0) =~= Seq::<char>::empty());
    assert(rows(done@) =~= Seq::<Seq<char>>::empty());
    while i < v.len()
        invariant
            i <= v.len(),
            (rows(done@), cur@) == line_scan(v@.subrange(0, i as int)),
        decreases v.len() - i,
    {
        let ghost before = v@.subrange(0, i as int);
        let ghost after = v@.subrange(0, i + 1);
        assert(after.drop_last() =~= before);
        assert(after.last() == v@[i as int]);
        if v[i] == '\n' {
            let n = cur.len();
            let line = if n > 0 && cur[n - 1] == '\r' {
                slice(&cur, 0, n - 1)
            } else {
                cur
            };
            assert(line@ =~= strip_cr(line_scan(before).1));
            proof {
                lemma_rows_push(done@, line);
            }
            done.push(line);
            cur = Vec::new();
        } else {
            cur.push(v[i]);
        }
        i += 1;
    }
    assert(v@.subrange(0, v@.len() as int) =~= v@);
    if cur.len() > 0 {
        proof {
            lemma_rows_push(done@, cur);
        }
        done.push(cur);
    }
    done
}

// ---------------------------------------------------------------------------
// Words
// ---------------------------------------------------------------------------

/// The state of a scan for words: the words closed so far and the open one.
pub open spec fn word_scan(s: Seq<char>) -> (Seq<Seq<char>>, Seq<char>)
    decreases s.len(),
{
    if s.len() == 0 {
        (Seq::<Seq<char>>::empty(), Seq::<char>::empty())
    } else {
        let (done, cur) = word_scan(s.drop_last());
        if is_space(s.last()) {
            if cur.len() > 0 {
                (done.push(cur), Seq::<char>::empty())
            } else {
                (done, cur)
            }
        } else {
            (done, cur.push(s.last()))
        }
    }
}

/// The words of `s`: the longest runs of characters that are not blank.
pub open spec fn words_of(s: Seq<char>) -> Seq<Seq<char>> {
    let (done, cur) = word_scan(s);
    if cur.len() > 0 {
        done.push(cur)
    } else {
        done
    }
}

/// The words of `v`.
pub fn words(v: &Vec<char>) -> (r: Vec<Vec<char>>)
    ensures
        rows(r@) == words_of(v@),
{
    let mut done: Vec<Vec<char>> = Vec::new();
    let mut cur: Vec<char> = Vec::new();
    let mut i: usize = 0;
    assert(v@.subrange(0, 0) =~= Seq::<char>::empty());
    assert(rows(done@) =~= Seq::<Seq<char>>::empty());
    while i < v.len()
        invariant
            i <= v.len(),
            (rows(done@), cur@) == word_scan(v@.subrange(0, i as int)),
        decreases v.len() - i,
    {
        let ghost before = v@.subrange(0, i as int);
        let ghost after = v@.subrange(0, i + 1);
        assert(after.drop_last() =~= before);
        assert(after.last() == v@[i as int]);
        if char_is_space(v[i]) {
            if cur.len() > 0 {
                proof {
                    lemma_rows_push(done@, cur);
                }
                done.push(cur);
                cur = Vec::new();
            }
        } else {
            cur.push(v[i]);
        }
        i += 1;
    }
    assert(v@.subrange(0, v@.len() as int) =~= v@);
    if cur.len() > 0 {
        proof {
            lemma_rows_push(done@, cur);
        }
        done.push(cur);
    }
    done
}

// ---------------------------------------------------------------------------
// Joining
// ---------------------------------------------------------------------------

/// The pieces joined with `sep` between them.
pub fn join(pieces: &Vec<Vec<char>>, sep: &str) -> (r: Vec<char>)
    ensures
        r@ == join_with(rows(pieces@), sep@),
{
    let mut out: Vec<char> = Vec::new();
    let mut i: usize = 0;
    while i < pieces.len()
        invariant
            i <= pieces.len(),
            out@ == join_with(rows(pieces@).subrange(0, i as int), sep@),
        decreases pieces.len() - i,
    {
        let ghost before = rows(pieces@).subrange(0, i as int);
        let ghost after = rows(pieces@).subrange(0, i + 1);
        assert(after.drop_last() =~= before);
        assert(after.last() == pieces@[i as int]@);
        if i > 0 {
            push_str(&mut out, sep);
        }
        push_all(&mut out, &pieces[i]);
        proof {
            if i == 0 {
                assert(after[0] == pieces@[0]@);
                assert(out@ =~= after[0]);
            }
        }
        i += 1;
    }
    assert(rows(pieces@).subrange(0, pieces@.len() as int) =~= rows(pieces@));
    out
}

} // verus!
