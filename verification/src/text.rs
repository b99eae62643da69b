//! Text helpers over the character view of strings: splitting on a separator,
//! dropping a one-byte suffix, and decimal rendering of integers.

use vstd::prelude::*;

verus! {

broadcast use vstd::string::group_string_axioms;

/// The character views of a sequence of owned strings.
pub open spec fn views(v: Seq<String>) -> Seq<Seq<char>> {
    v.map_values(|p: String| p@)
}

/// The pieces of `s` between occurrences of `sep`, as `str::split` with a
/// `char` pattern yields them: there is always at least one piece, and two
/// separators in a row, or a separator at an end, give an empty piece.
pub open spec fn split_on(s: Seq<char>, sep: char) -> Seq<Seq<char>>
    decreases s.len(),
{
    if s.len() == 0 {
        seq![Seq::<char>::empty()]
    } else {
        let init = split_on(s.drop_last(), sep);
        if s.last() == sep {
            init.push(Seq::<char>::empty())
        } else {
            init.update(init.len() - 1, init.last().push(s.last()))
        }
    }
}

/// Joining pieces back together with the separator between them.
pub open spec fn join_with(pieces: Seq<Seq<char>>, sep: char) -> Seq<char>
    decreases pieces.len(),
{
    if pieces.len() == 0 {
        Seq::<char>::empty()
    } else if pieces.len() == 1 {
        pieces[0]
    } else {
        join_with(pieces.drop_last(), sep).push(sep) + pieces.last()
    }
}

/// `split_on` never yields an empty list of pieces.
pub proof fn lemma_split_on_nonempty(s: Seq<char>, sep: char)
    ensures
        split_on(s, sep).len() >= 1,
    decreases s.len(),
{
    if s.len() > 0 {
        lemma_split_on_nonempty(s.drop_last(), sep);
    }
}

/// Splitting on a separator and joining the pieces back with it gives back
/// the text unchanged, and no piece holds the separator.
pub proof fn lemma_split_join(s: Seq<char>, sep: char)
    ensures
        join_with(split_on(s, sep), sep) == s,
        forall|k: int, j: int|
            0 <= k < split_on(s, sep).len() && 0 <= j < split_on(s, sep)[k].len()
                ==> split_on(s, sep)[k][j] != sep,
    decreases s.len(),
{
    if s.len() > 0 {
        let t = s.drop_last();
        lemma_split_join(t, sep);
        lemma_split_on_nonempty(t, sep);
        let init = split_on(t, sep);
        if s.last() == sep {
            let p = init.push(Seq::<char>::empty());
            assert(p.drop_last() == init);
            assert(join_with(p, sep) == join_with(init, sep).push(sep) + Seq::<char>::empty());
            assert(s == t.push(sep));
        } else {
            let p = init.update(init.len() - 1, init.last().push(s.last()));
            if init.len() == 1 {
                assert(join_with(p, sep) == p[0]);
                assert(s == t.push(s.last()));
            } else {
                assert(p.drop_last() == init.drop_last());
                assert(join_with(init, sep) == join_with(init.drop_last(), sep).push(sep)
                    + init.last());
                assert(join_with(p, sep) == join_with(init.drop_last(), sep).push(sep) + p.last());
                assert(s == t.push(s.last()));
                assert(join_with(init.drop_last(), sep).push(sep) + init.last().push(s.last())
                    == (join_with(init.drop_last(), sep).push(sep) + init.last()).push(s.last()));
            }
        }
    }
}

/// Splits `s` on every occurrence of `sep`.
pub fn split_text(s: &str, sep: char) -> (r: Vec<String>)
    ensures
        views(r@) == split_on(s@, sep),
{
    let n: usize = s.unicode_len();
    let mut pieces: Vec<String> = Vec::new();
    let mut start: usize = 0;
    let mut i: usize = 0;
    assert(s@.take(0) == Seq::<char>::empty());
    while i < n
        invariant
            n == s@.len(),
            start <= i <= n,
            views(pieces@).push(s@.subrange(start as int, i as int)) == split_on(
                s@.take(i as int),
                sep,
            ),
        decreases n - i,
    {
        let c: char = s.get_char(i);
        let ghost before = views(pieces@);
        assert(s@.take(i + 1).drop_last() == s@.take(i as int));
        assert(s@.take(i + 1).last() == c);
        if c == sep {
            let piece: String = s.substring_char(start, i).to_owned();
            pieces.push(piece);
            assert(views(pieces@) == before.push(s@.subrange(start as int, i as int)));
            start = i + 1;
            assert(s@.subrange(start as int, i + 1) == Seq::<char>::empty());
        } else {
            let ghost prev = before.push(s@.subrange(start as int, i as int));
            assert(s@.subrange(start as int, i + 1) == s@.subrange(start as int, i as int).push(c));
            assert(prev.update(prev.len() - 1, prev.last().push(c)) == before.push(
                s@.subrange(start as int, i + 1),
            ));
        }
        i = i + 1;
    }
    let last: String = s.substring_char(start, n).to_owned();
    pieces.push(last);
    assert(s@.take(n as int) == s@);
    pieces
}

/// Whether `s` is non-empty and its last character is encoded in one byte,
/// so that cutting the last byte off leaves valid text.
pub open spec fn has_one_byte_last(s: Seq<char>) -> bool {
    s.len() > 0 && (s.last() as u32) < 0x80
}

/// Whether the last character of `s` can be cut off by byte length.
pub fn one_byte_last(s: &str) -> (r: bool)
    ensures
        r == has_one_byte_last(s@),
{
    let n: usize = s.unicode_len();
    if n == 0 {
        false
    } else {
        let c: char = s.get_char(n - 1);
        (c as u32) < 0x80
    }
}

/// `s` without its last character, which must be a one-byte character.
pub fn drop_last_char(s: &str) -> (r: String)
    requires
        has_one_byte_last(s@),
    ensures
        r@ == s@.drop_last(),
{
    let n: usize = s.unicode_len();
    s.substring_char(0, n - 1).to_owned()
}

} // verus!
