//! Replacing ranges of a text and keeping everything between them.

use vstd::prelude::*;

verus! {

/// The replacement of the bytes of a text from `start` up to `end`.
pub struct Splice {
    pub start: int,
    pub end: int,
    pub with: Seq<u8>,
}

/// Where the last of some replacements ends, or the start of the text
/// where there is none.
pub open spec fn splices_end(splices: Seq<Splice>) -> int {
    if splices.len() == 0 {
        0
    } else {
        splices.last().end
    }
}

/// Whether replacements lie inside a text of the given length, one after
/// the other, none reaching into the next.
pub open spec fn splices_ordered(len: int, splices: Seq<Splice>) -> bool
    decreases splices.len(),
{
    splices.len() == 0 || {
        &&& splices_ordered(len, splices.drop_last())
        &&& splices_end(splices.drop_last()) <= splices.last().start <= splices.last().end <= len
    }
}

/// The output up to the end of the last replacement: before each
/// replacement, the bytes of the text since the one before it.
pub open spec fn spliced_prefix(text: Seq<u8>, splices: Seq<Splice>) -> Seq<u8>
    decreases splices.len(),
{
    if splices.len() == 0 {
        Seq::<u8>::empty()
    } else {
        spliced_prefix(text, splices.drop_last()) + text.subrange(
            splices_end(splices.drop_last()),
            splices.last().start,
        ) + splices.last().with
    }
}

/// The text with every replacement made: the bytes before the first, each
/// replacement followed by the bytes up to the next, and the bytes after
/// the last.
pub open spec fn spliced(text: Seq<u8>, splices: Seq<Splice>) -> Seq<u8> {
    spliced_prefix(text, splices) + text.subrange(splices_end(splices), text.len() as int)
}

/// A text without replacements stays as it is.
pub proof fn lemma_spliced_nothing(text: Seq<u8>)
    ensures
        spliced(text, Seq::<Splice>::empty()) == text,
{
    assert(text.subrange(0, text.len() as int) == text);
    assert(Seq::<u8>::empty() + text == text);
}

/// Replacing every range by the bytes that it holds changes nothing.
pub proof fn lemma_spliced_identity(text: Seq<u8>, splices: Seq<Splice>)
    requires
        splices_ordered(text.len() as int, splices),
        forall|i: int|
            0 <= i < splices.len() ==> (#[trigger] splices[i]).with == text.subrange(
                splices[i].start,
                splices[i].end,
            ),
    ensures
        0 <= splices_end(splices) <= text.len(),
        spliced_prefix(text, splices) == text.subrange(0, splices_end(splices)),
        spliced(text, splices) == text,
    decreases splices.len(),
{
    if splices.len() == 0 {
        assert(text.subrange(0, 0) == Seq::<u8>::empty());
    } else {
        let before = splices.drop_last();
        assert forall|i: int| 0 <= i < before.len() implies (#[trigger] before[i]).with
            == text.subrange(before[i].start, before[i].end) by {
            assert(before[i] == splices[i]);
        }
        lemma_spliced_identity(text, before);
        let last = splices.last();
        assert(text.subrange(0, splices_end(before)) + text.subrange(
            splices_end(before),
            last.start,
        ) + text.subrange(last.start, last.end) == text.subrange(0, last.end));
    }
    assert(text.subrange(0, splices_end(splices)) + text.subrange(
        splices_end(splices),
        text.len() as int,
    ) == text);
}

/// Replacements that are in order stay so when the last is left out, and
/// the last of them ends inside the text.
pub proof fn lemma_splices_ordered_end(len: int, splices: Seq<Splice>)
    requires
        splices_ordered(len, splices),
        0 <= len,
    ensures
        0 <= splices_end(splices) <= len,
    decreases splices.len(),
{
    if splices.len() > 0 {
        lemma_splices_ordered_end(len, splices.drop_last());
    }
}

} // verus!
