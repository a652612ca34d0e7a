//! Cutting text at a separator character.
//!
//! A text of `n` separators has `n + 1` pieces, some of which may be empty:
//! the empty text is one empty piece, and a text that ends in a separator
//! ends in an empty piece.

use vstd::prelude::*;

verus! {

/// The pieces of `text` between the occurrences of `sep`, in order.
///
/// Defined by the last character: a separator opens a new, empty piece, and
/// any other character joins the piece that is open.
pub open spec fn pieces(text: Seq<char>, sep: char) -> Seq<Seq<char>>
    decreases text.len(),
{
    if text.len() == 0 {
        seq![Seq::<char>::empty()]
    } else {
        let before = pieces(text.drop_last(), sep);
        if text.last() == sep {
            before.push(Seq::<char>::empty())
        } else {
            before.drop_last().push(before.last().push(text.last()))
        }
    }
}

/// How often `sep` occurs in `text`.
pub open spec fn occurrences(text: Seq<char>, sep: char) -> nat
    decreases text.len(),
{
    if text.len() == 0 {
        0
    } else if text.last() == sep {
        occurrences(text.drop_last(), sep) + 1
    } else {
        occurrences(text.drop_last(), sep)
    }
}

/// The pieces put together again, with `sep` between neighbours.
pub open spec fn joined(parts: Seq<Seq<char>>, sep: char) -> Seq<char>
    decreases parts.len(),
{
    if parts.len() == 0 {
        Seq::<char>::empty()
    } else if parts.len() == 1 {
        parts[0]
    } else {
        joined(parts.drop_last(), sep).push(sep) + parts.last()
    }
}

/// The texts that a list of character vectors holds.
pub open spec fn texts_of(parts: Seq<Vec<char>>) -> Seq<Seq<char>> {
    parts.map_values(|p: Vec<char>| p@)
}

/// A text has one piece more than it has separators; so it has at least one.
pub proof fn lemma_pieces_len(text: Seq<char>, sep: char)
    ensures
        pieces(text, sep).len() == occurrences(text, sep) + 1,
        pieces(text, sep).len() <= text.len() + 1,
    decreases text.len(),
{
    if text.len() > 0 {
        lemma_pieces_len(text.drop_last(), sep);
    }
}

/// A text that holds the separator holds it at least once.
pub proof fn lemma_occurrences_of_held(text: Seq<char>, sep: char, at: int)
    requires
        0 <= at < text.len(),
        text[at] == sep,
    ensures
        occurrences(text, sep) >= 1,
    decreases text.len(),
{
    if at < text.len() - 1 {
        lemma_occurrences_of_held(text.drop_last(), sep, at);
    }
}

/// No piece holds the separator.
pub proof fn lemma_pieces_hold_no_separator(text: Seq<char>, sep: char)
    ensures
        forall|i: int, j: int|
            0 <= i < pieces(text, sep).len() && 0 <= j < pieces(text, sep)[i].len()
                ==> pieces(text, sep)[i][j] != sep,
    decreases text.len(),
{
    if text.len() > 0 {
        lemma_pieces_len(text.drop_last(), sep);
        lemma_pieces_hold_no_separator(text.drop_last(), sep);
    }
}

/// Joining the pieces of a text with the separator gives the text back.
pub proof fn lemma_joined_pieces(text: Seq<char>, sep: char)
    ensures
        joined(pieces(text, sep), sep) == text,
    decreases text.len(),
{
    if text.len() > 0 {
        let shorter = text.drop_last();
        let before = pieces(shorter, sep);
        lemma_pieces_len(shorter, sep);
        lemma_joined_pieces(shorter, sep);
        if text.last() == sep {
            let now = before.push(Seq::<char>::empty());
            assert(now.drop_last() == before);
            assert(joined(now, sep) == joined(before, sep).push(sep) + Seq::<char>::empty());
            assert(joined(now, sep) == shorter.push(sep));
        } else {
            let c = text.last();
            let now = before.drop_last().push(before.last().push(c));
            assert(now.drop_last() == before.drop_last());
            if before.len() == 1 {
                assert(joined(now, sep) == before[0].push(c));
            } else {
                let lead = joined(before.drop_last(), sep).push(sep);
                assert(joined(now, sep) == lead + before.last().push(c));
                assert(joined(before, sep) == lead + before.last());
                assert(joined(now, sep) == joined(before, sep).push(c));
            }
        }
        assert(text == shorter.push(text.last()));
    }
}

/// A text without the separator is its own single piece.
pub proof fn lemma_pieces_without_separator(text: Seq<char>, sep: char)
    requires
        forall|j: int| 0 <= j < text.len() ==> text[j] != sep,
    ensures
        pieces(text, sep) == seq![text],
    decreases text.len(),
{
    if text.len() == 0 {
        assert(text == Seq::<char>::empty());
    } else {
        let shorter = text.drop_last();
        lemma_pieces_without_separator(shorter, sep);
        assert(shorter.push(text.last()) == text);
        assert(seq![shorter].last() == shorter);
        assert(seq![shorter].drop_last().push(text) == seq![text]);
    }
}

/// The first piece of a text ends at its first separator, and the other
/// pieces are those of what follows that separator.
pub proof fn lemma_pieces_at_first_separator(text: Seq<char>, sep: char, at: int)
    requires
        0 <= at < text.len(),
        text[at] == sep,
        forall|j: int| 0 <= j < at ==> text[j] != sep,
    ensures
        pieces(text, sep) == seq![text.take(at)] + pieces(text.skip(at + 1), sep),
    decreases text.len(),
{
    let shorter = text.drop_last();
    let c = text.last();
    let head = seq![text.take(at)];
    if at == text.len() - 1 {
        lemma_pieces_without_separator(shorter, sep);
        assert(text.take(at) == shorter);
        assert(text.skip(at + 1) == Seq::<char>::empty());
        assert(seq![shorter].push(Seq::<char>::empty()) == head + seq![Seq::<char>::empty()]);
    } else {
        let rest = shorter.skip(at + 1);
        let tail = pieces(rest, sep);
        lemma_pieces_at_first_separator(shorter, sep, at);
        lemma_pieces_len(rest, sep);
        assert(shorter.take(at) == text.take(at));
        assert(text.skip(at + 1) == rest.push(c));
        assert(rest.push(c).drop_last() == rest);
        assert(pieces(shorter, sep) == head + tail);
        if c == sep {
            assert((head + tail).push(Seq::<char>::empty()) == head + tail.push(
                Seq::<char>::empty(),
            ));
        } else {
            assert((head + tail).drop_last() == head + tail.drop_last());
            assert((head + tail).last() == tail.last());
            assert((head + tail.drop_last()).push(tail.last().push(c)) == head
                + tail.drop_last().push(tail.last().push(c)));
        }
    }
}

/// The characters of `text`, one by one.
pub fn chars_of(text: &str) -> (chars: Vec<char>)
    ensures
        chars@ == text@,
{
    let mut chars: Vec<char> = Vec::new();
    let source = text.chars();
    for c in it: source
        invariant
            it.seq() == text@,
            chars@ == text@.take(it.index()),
    {
        chars.push(c);
    }
    chars
}

/// Cuts `text` at every `sep`.
pub fn split(text: &[char], sep: char) -> (parts: Vec<Vec<char>>)
    ensures
        texts_of(parts@) == pieces(text@, sep),
        parts@.len() == pieces(text@, sep).len(),
{
    let mut done: Vec<Vec<char>> = Vec::new();
    let mut open: Vec<char> = Vec::new();
    let mut i: usize = 0;
    while i < text.len()
        invariant
            i <= text.len(),
            texts_of(done@).push(open@) == pieces(text@.take(i as int), sep),
        decreases text.len() - i,
    {
        let c = text[i];
        proof {
            assert(text@.take(i + 1).drop_last() == text@.take(i as int));
            assert(text@.take(i + 1).last() == c);
            let before = texts_of(done@).push(open@);
            assert(before.drop_last() == texts_of(done@));
            if c == sep {
                assert(texts_of(done@.push(open)) == before);
            }
        }
        if c == sep {
            done.push(open);
            open = Vec::new();
        } else {
            open.push(c);
        }
        i += 1;
    }
    proof {
        assert(text@.take(i as int) == text@);
        assert(texts_of(done@.push(open)) == texts_of(done@).push(open@));
    }
    done.push(open);
    assert(texts_of(done@).len() == done@.len());
    done
}

} // verus!
