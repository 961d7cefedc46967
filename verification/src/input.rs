//! Lines of input.

use vstd::prelude::*;
use vstd::slice::slice_subrange;

verus! {

/// The byte that ends a line.
pub const LINE_FEED: u8 = 0x0a;

/// A line of input, with and without the byte that ends it.
pub struct Line<'a> {
    full: &'a [u8],
    content: &'a [u8],
}

/// A line without the line feed at its end, if it has one.
pub open spec fn line_content(full: Seq<u8>) -> Seq<u8> {
    if full.len() > 0 && full.last() == LINE_FEED {
        full.drop_last()
    } else {
        full
    }
}

impl<'a> Line<'a> {
    /// The bytes of the line with the byte that ends it.
    pub closed spec fn spec_full(&self) -> Seq<u8> {
        self.full@
    }

    /// The bytes of the line without the byte that ends it.
    pub closed spec fn spec_content(&self) -> Seq<u8> {
        self.content@
    }

    /// A line from the bytes of a whole line.
    pub fn new(full: &'a [u8]) -> (r: Line<'a>)
        ensures
            r.spec_full() == full@,
            r.spec_content() == line_content(full@),
    {
        let n = full.len();
        let content = if n > 0 && full[n - 1] == LINE_FEED {
            slice_subrange(full, 0, n - 1)
        } else {
            full
        };
        Line { full, content }
    }

    /// The line with the byte that ends it, if it has one.
    pub fn full(&self) -> (r: &'a [u8])
        ensures
            r@ == self.spec_full(),
    {
        self.full
    }

    /// The line without the byte that ends it.
    pub fn content(&self) -> (r: &'a [u8])
        ensures
            r@ == self.spec_content(),
    {
        self.content
    }
}

} // verus!
