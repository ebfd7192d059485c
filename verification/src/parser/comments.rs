//! Comments and the whitespace they stand in.

use crate::ast::kind::AstKind;
use crate::span::Span;
use vstd::prelude::*;

verus! {

/// How a comment is written.
#[derive(Debug, Clone, Copy, PartialEq, Eq, Structural)]
pub enum CommentKind {
    /// `// ..`
    SingleLine,
    /// `/* .. */`
    MultiLine,
}

/// One comment of the source text.
#[derive(Debug, Clone, Copy, PartialEq, Eq, Structural)]
pub struct Comment {
    pub kind: CommentKind,
    /// The text of the comment, without its delimiters.
    pub span: Span,
}

impl Comment {
    /// A comment of the given kind covering `span`.
    pub fn new(kind: CommentKind, span: Span) -> (comment: Comment)
        ensures
            comment == (Comment { kind, span }),
    {
        Comment { kind, span }
    }
}

/// A stretch of the source text between two tokens, with the comments
/// that stand in it and the nodes around it.
#[derive(Debug)]
pub struct CommentWhitespace<'a> {
    pub start: u32,
    pub end: u32,
    pub comments: Vec<Comment>,
    /// The node that ends just before the stretch.
    pub leading_node: Option<AstKind<'a>>,
    /// The node that begins just after the stretch.
    pub trailing_node: Option<AstKind<'a>>,
    /// The innermost node that holds the whole stretch.
    pub containing_node: Option<AstKind<'a>>,
}

impl<'a> CommentWhitespace<'a> {
    /// The stretch `[start, end)` with its comments, before any node has
    /// been attached to it.
    pub fn new(start: u32, end: u32, comments: Vec<Comment>) -> (whitespace: CommentWhitespace<'a>)
        ensures
            whitespace.start == start,
            whitespace.end == end,
            whitespace.comments == comments,
            whitespace.leading_node is None,
            whitespace.trailing_node is None,
            whitespace.containing_node is None,
    {
        CommentWhitespace {
            start,
            end,
            comments,
            leading_node: None,
            trailing_node: None,
            containing_node: None,
        }
    }
}

} // verus!
