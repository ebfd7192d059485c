//! Source positions.

use vstd::prelude::*;
use vstd::string::StringSliceAdditionalSpecFns;
use vstd::utf8::{decode_utf8, encode_utf8_decode_utf8, is_char_boundary};

verus! {

/// A half-open byte range `[start, end)` into the source text.
#[derive(Clone, Copy, Debug, PartialEq, Eq, Structural)]
pub struct Span {
    pub start: u32,
    pub end: u32,
}

impl Span {
    /// The sentinel span carried by nodes that a pass has synthesized.
    pub open spec fn spec_synthesized() -> Span {
        Span { start: 0, end: 0 }
    }

    /// Builds the span `[start, end)`.
    pub fn new(start: u32, end: u32) -> (span: Span)
        ensures
            span.start == start,
            span.end == end,
    {
        Span { start, end }
    }

    /// The sentinel span carried by nodes that a pass has synthesized.
    pub fn synthesized() -> (span: Span)
        ensures
            span == Span::spec_synthesized(),
    {
        Span { start: 0, end: 0 }
    }

    /// Number of bytes covered; an inverted span covers none.
    pub open spec fn spec_size(self) -> nat {
        if self.end >= self.start {
            (self.end - self.start) as nat
        } else {
            0
        }
    }

    /// Number of bytes covered; an inverted span covers none.
    pub fn size(&self) -> (n: u32)
        ensures
            n == self.spec_size(),
    {
        if self.end >= self.start {
            self.end - self.start
        } else {
            0
        }
    }

    /// Whether the span lies within `text` and both its ends fall between
    /// characters.
    pub open spec fn fits(self, text: &str) -> bool {
        &&& self.start <= self.end
        &&& self.end <= text.spec_bytes().len()
        &&& is_char_boundary(text.spec_bytes(), self.start as int)
        &&& is_char_boundary(
            text.spec_bytes().subrange(self.start as int, text.spec_bytes().len() as int),
            self.end - self.start,
        )
    }

    /// The characters that the bytes of `text` from `start` up to `end`
    /// encode.
    pub open spec fn spec_source_text(self, text: &str) -> Seq<char> {
        decode_utf8(text.spec_bytes().subrange(self.start as int, self.end as int))
    }

    /// The part of `text` that the span covers, or `None` when the span
    /// does not fit the text.
    pub fn source_text<'a>(&self, text: &'a str) -> (part: Option<&'a str>)
        ensures
            part is Some == self.fits(text),
            part is Some ==> part.unwrap()@ == self.spec_source_text(text),
    {
        if self.start > self.end {
            return None;
        }
        let start = self.start as usize;
        let end = self.end as usize;
        if end > text.as_bytes().len() {
            return None;
        }
        if !text.is_char_boundary(start) {
            return None;
        }
        let (_, tail) = text.split_at(start);
        if !tail.is_char_boundary(end - start) {
            return None;
        }
        let (part, _) = tail.split_at(end - start);
        proof {
            assert(part.spec_bytes() =~= text.spec_bytes().subrange(start as int, end as int));
            encode_utf8_decode_utf8(part@);
        }
        Some(part)
    }

    /// Whether this is the sentinel span of a synthesized node.
    pub fn is_synthesized(&self) -> (b: bool)
        ensures
            b == (*self == Span::spec_synthesized()),
    {
        self.start == 0 && self.end == 0
    }
}

} // verus!
