//! Text as sequences of characters: searching in it and splitting it.

use vstd::prelude::*;

verus! {

/// The offset at which `sep` stands first in `s`.
pub open spec fn first_occurrence(s: Seq<char>, sep: Seq<char>) -> Option<nat>
    decreases s.len(),
{
    if s.len() == 0 || s.len() < sep.len() {
        None
    } else if s.take(sep.len() as int) == sep {
        Some(0)
    } else {
        match first_occurrence(s.skip(1), sep) {
            Some(i) => Some(i + 1),
            None => None,
        }
    }
}

/// The pieces of `s` between the occurrences of `sep`, found from the left and not
/// overlapping.
pub open spec fn split(s: Seq<char>, sep: Seq<char>) -> Seq<Seq<char>>
    decreases s.len(),
{
    match first_occurrence(s, sep) {
        Some(i) if sep.len() > 0 && i + sep.len() <= s.len() => seq![s.take(i as int)] + split(
            s.skip((i + sep.len()) as int),
            sep,
        ),
        _ => seq![s],
    }
}

/// `s` without the occurrences of `sep` that [`split`] finds.
pub open spec fn without(s: Seq<char>, sep: Seq<char>) -> Seq<char> {
    split(s, sep).flatten()
}

/// The ASCII codes of some characters.
pub open spec fn ascii(s: Seq<char>) -> Seq<u8> {
    s.map_values(|c: char| c as u8)
}

/// The characters of a text.
pub fn chars_of(text: &str) -> (chars: Vec<char>)
    ensures
        chars@ == text@,
{
    let mut chars: Vec<char> = Vec::new();
    for c in iter: text.chars()
        invariant
            chars@ == iter.seq().take(iter.index() as int),
            iter.seq() == text@,
    {
        chars.push(c);
        assert(iter.seq().take(iter.index() as int).push(c) == iter.seq().take(iter.index() + 1));
    }
    assert(text@.take(text@.len() as int) == text@);
    chars
}

/// The text made of some characters.
pub fn text_of(chars: &Vec<char>) -> (text: String)
    ensures
        text@ == chars@,
{
    let mut text = String::new();
    let mut i: usize = 0;
    while i < chars.len()
        invariant
            i <= chars@.len(),
            text@ == chars@.take(i as int),
        decreases chars@.len() - i,
    {
        text.push(chars[i]);
        assert(chars@.take(i as int).push(chars@[i as int]) == chars@.take(i + 1));
        i += 1;
    }
    assert(chars@.take(i as int) == chars@);
    text
}

/// Whether `sep` stands at offset `at` of `s`.
fn stands_at(s: &Vec<char>, at: usize, sep: &Vec<char>) -> (found: bool)
    requires
        at + sep@.len() <= s@.len(),
    ensures
        found == (s@.skip(at as int).take(sep@.len() as int) == sep@),
{
    let mut k: usize = 0;
    while k < sep.len()
        invariant
            k <= sep@.len(),
            at + sep@.len() <= s@.len(),
            forall|j: int| 0 <= j < k ==> s@[at + j] == sep@[j],
        decreases sep@.len() - k,
    {
        assert(at + k < s.len());
        if s[at + k] != sep[k] {
            assert(s@.skip(at as int).take(sep@.len() as int)[k as int] != sep@[k as int]);
            return false;
        }
        k += 1;
    }
    assert(s@.skip(at as int).take(sep@.len() as int) == sep@);
    true
}

/// The offset of the first `sep` in `s` at or after `from`.
fn find(s: &Vec<char>, from: usize, sep: &Vec<char>) -> (at: Option<usize>)
    requires
        from <= s@.len(),
        sep@.len() > 0,
    ensures
        match at {
            Some(i) => from <= i && i + sep@.len() <= s@.len() && first_occurrence(
                s@.skip(from as int),
                sep@,
            ) == Some((i - from) as nat),
            None => first_occurrence(s@.skip(from as int), sep@) is None,
        },
{
    let mut i: usize = from;
    while s.len() - i >= sep.len()
        invariant
            from <= i <= s@.len(),
            sep@.len() > 0,
            first_occurrence(s@.skip(from as int), sep@) == match first_occurrence(
                s@.skip(i as int),
                sep@,
            ) {
                Some(k) => Some((k + (i - from)) as nat),
                None => None,
            },
        decreases s@.len() - i,
    {
        if stands_at(s, i, sep) {
            return Some(i);
        }
        assert(s@.skip(i as int).skip(1) == s@.skip(i + 1));
        i += 1;
    }
    None
}

/// Splits `s` at every `sep`, as [`split`] says.
pub fn split_at_all(s: &Vec<char>, sep: &Vec<char>) -> (pieces: Vec<Vec<char>>)
    requires
        sep@.len() > 0,
    ensures
        pieces.deep_view() == split(s@, sep@),
{
    let mut pieces: Vec<Vec<char>> = Vec::new();
    let mut pos: usize = 0;
    assert(s@.skip(0) == s@);
    assert(pieces.deep_view() + split(s@, sep@) == split(s@, sep@));
    loop
        invariant
            pos <= s@.len(),
            sep@.len() > 0,
            pieces.deep_view() + split(s@.skip(pos as int), sep@) == split(s@, sep@),
        decreases s@.len() - pos,
    {
        let ghost before = pieces.deep_view();
        match find(s, pos, sep) {
            Some(at) => {
                let piece = part(s, pos, at);
                assert(piece.deep_view() == piece@);
                assert(piece@ == s@.skip(pos as int).take(at - pos));
                pieces.push(piece);
                assert(pieces.deep_view() == before.push(piece@));
                assert(at + sep.len() <= s.len());
                let next: usize = at + sep.len();
                assert(s@.skip(pos as int).skip(next - pos) == s@.skip(next as int));
                assert(before.push(piece@) + split(s@.skip(next as int), sep@) == before + (
                seq![piece@] + split(s@.skip(next as int), sep@)));
                pos = next;
            },
            None => {
                let piece = part(s, pos, s.len());
                assert(piece.deep_view() == piece@);
                assert(piece@ == s@.skip(pos as int));
                pieces.push(piece);
                assert(pieces.deep_view() == before.push(piece@));
                assert(before.push(piece@) == before + seq![piece@]);
                return pieces;
            },
        }
    }
}

/// The characters of `s` from `from` up to `to`.
fn part(s: &Vec<char>, from: usize, to: usize) -> (piece: Vec<char>)
    requires
        from <= to <= s@.len(),
    ensures
        piece@ == s@.subrange(from as int, to as int),
{
    let mut piece: Vec<char> = Vec::new();
    let mut i: usize = from;
    while i < to
        invariant
            from <= i <= to <= s@.len(),
            piece@ == s@.subrange(from as int, i as int),
        decreases to - i,
    {
        piece.push(s[i]);
        assert(s@.subrange(from as int, i as int).push(s@[i as int]) == s@.subrange(
            from as int,
            i + 1,
        ));
        i += 1;
    }
    piece
}

/// Removes every `sep` from `s`, as [`without`] says.
pub fn remove_all(s: &Vec<char>, sep: &Vec<char>) -> (rest: Vec<char>)
    requires
        sep@.len() > 0,
    ensures
        rest@ == without(s@, sep@),
{
    let pieces = split_at_all(s, sep);
    let ghost whole = pieces.deep_view();
    let mut rest: Vec<char> = Vec::new();
    let mut i: usize = 0;
    assert(whole.skip(0) == whole);
    while i < pieces.len()
        invariant
            i <= pieces@.len(),
            whole == pieces.deep_view(),
            rest@ + whole.skip(i as int).flatten() == whole.flatten(),
        decreases pieces@.len() - i,
    {
        let ghost before = rest@;
        let piece = &pieces[i];
        assert(whole[i as int] == piece@);
        let mut k: usize = 0;
        while k < piece.len()
            invariant
                k <= piece@.len(),
                rest@ == before + piece@.take(k as int),
            decreases piece@.len() - k,
        {
            rest.push(piece[k]);
            assert(piece@.take(k as int).push(piece@[k as int]) == piece@.take(k + 1));
            k += 1;
        }
        assert(piece@.take(k as int) == piece@);
        assert(whole.skip(i as int).drop_first() == whole.skip(i + 1));
        assert(before + piece@ + whole.skip(i + 1).flatten() == before + (piece@ + whole.skip(
            i + 1,
        ).flatten()));
        i += 1;
    }
    assert(whole.skip(i as int) == Seq::<Seq<char>>::empty());
    rest
}

} // verus!
