//! Regular expression transform.
//!
//! A regular expression literal that uses a feature the target cannot
//! parse is rewritten into a call of the `RegExp` constructor on the
//! pattern's text and flags, so that the output stays syntactically valid
//! everywhere. A polyfill then decides at run time.
//!
//! The features, each behind its own option: the sticky (`y`), unicode
//! (`u`), dot-all (`s`), match-indices (`d`) and set-notation (`v`) flags;
//! lookbehind assertions `(?<=x)` and `(?<!x)`; named capture groups
//! `(?<name>x)`; unicode property escapes `\p{..}` and `\P{..}`.

use crate::ast::nodes::{
    Alternative, Argument, Expression, LookAroundAssertionKind, NewExpression, Pattern, RegExpFlags,
    RegExpLiteral, RegExpPattern, StringLiteral, Term,
};
use crate::span::Span;
use crate::syntax::{NodeId, ReferenceFlags, ReferenceId};
use crate::text::{chars_of, escape_backslashes, escaped_backslashes};
use crate::transformer::context::TransformCtx;
use crate::ast::nodes::{Program, Statement};
use crate::traverse::context::{TraverseCtx, TraverseModel, Visit};
use crate::traverse::hooks::Traverse;
use vstd::prelude::*;

verus! {

/// Which regular expression features the target lacks.
#[derive(Debug, Clone, Copy, PartialEq, Eq, Structural)]
pub struct RegExpOptions {
    /// Rewrite literals with the `y` flag.
    pub sticky_flag: bool,
    /// Rewrite literals with the `u` flag.
    pub unicode_flag: bool,
    /// Rewrite literals with the `s` flag.
    pub dot_all_flag: bool,
    /// Rewrite literals with a lookbehind assertion.
    pub look_behind_assertions: bool,
    /// Rewrite literals with a named capture group.
    pub named_capture_groups: bool,
    /// Rewrite literals with a unicode property escape.
    pub unicode_property_escapes: bool,
    /// Rewrite literals with the `d` flag.
    pub match_indices: bool,
    /// Rewrite literals with the `v` flag.
    pub set_notation: bool,
}

impl Default for RegExpOptions {
    /// No feature is taken to be lacking.
    fn default() -> (options: RegExpOptions)
        ensures
            options == (RegExpOptions {
                sticky_flag: false,
                unicode_flag: false,
                dot_all_flag: false,
                look_behind_assertions: false,
                named_capture_groups: false,
                unicode_property_escapes: false,
                match_indices: false,
                set_notation: false,
            }),
    {
        RegExpOptions {
            sticky_flag: false,
            unicode_flag: false,
            dot_all_flag: false,
            look_behind_assertions: false,
            named_capture_groups: false,
            unicode_property_escapes: false,
            match_indices: false,
            set_notation: false,
        }
    }
}

/// The regular expression transform.
pub struct RegExp<'a> {
    ctx: TransformCtx<'a>,
    options: RegExpOptions,
}

/// Whether `c` occurs in `text` at position `from` or later.
pub open spec fn occurs_from(text: Seq<char>, from: int, c: char) -> bool {
    exists|i: int| from <= i < text.len() && 0 <= i && text[i] == c
}

/// Where scanning resumes after a character class that opened just
/// before `from`: behind its closing `]`, or at the end of the text when
/// it never closes. A backslash inside the class takes the next
/// character with it.
pub open spec fn after_class(text: Seq<char>, from: int) -> int
    decreases text.len() - from,
{
    if from < 0 || from >= text.len() {
        text.len() as int
    } else if text[from] == ']' {
        from + 1
    } else if text[from] == '\\' {
        if from + 2 <= text.len() {
            after_class(text, from + 2)
        } else {
            text.len() as int
        }
    } else {
        after_class(text, from + 1)
    }
}

/// Whether the raw pattern `text`, read from position `from` with
/// `depth` groups open, shows syntax that the options call unsupported.
///
/// The scan goes left to right. A character class `[..]` is skipped. At
/// `(?<` a lookbehind (`(?<=`, `(?<!`) is unsupported syntax when
/// lookbehinds are; anything else is taken for a named group, which is
/// unsupported syntax, when named groups are, if a `>` follows somewhere.
/// A `)` that closes no group is unsupported syntax. With unicode property
/// escapes unsupported and the `u` flag set, `\p` or `\P` followed by `{`
/// is unsupported syntax if a `}` follows somewhere.
pub open spec fn raw_unsupported(
    options: RegExpOptions,
    unicode: bool,
    text: Seq<char>,
    from: int,
    depth: nat,
) -> bool
    decreases text.len() - from,
{
    if from < 0 || from >= text.len() {
        false
    } else if text[from] == '[' {
        let resume = after_class(text, from + 1);
        if from < resume <= text.len() {
            raw_unsupported(options, unicode, text, resume, depth)
        } else {
            false
        }
    } else if text[from] == '(' {
        if from + 1 < text.len() && text[from + 1] == '?' {
            if from + 2 < text.len() && text[from + 2] == '<' {
                if options.look_behind_assertions && from + 3 < text.len() && (text[from + 3] == '!'
                    || text[from + 3] == '=') {
                    true
                } else if options.named_capture_groups {
                    occurs_from(text, from + 3, '>')
                } else {
                    raw_unsupported(options, unicode, text, from + 3, depth + 1)
                }
            } else {
                raw_unsupported(options, unicode, text, from + 2, depth + 1)
            }
        } else {
            raw_unsupported(options, unicode, text, from + 1, depth + 1)
        }
    } else if text[from] == ')' {
        if depth == 0 {
            true
        } else {
            raw_unsupported(options, unicode, text, from + 1, (depth - 1) as nat)
        }
    } else if text[from] == '\\' {
        if options.unicode_property_escapes && unicode && from + 1 < text.len() && (text[from + 1]
            == 'p' || text[from + 1] == 'P') {
            if from + 2 < text.len() && text[from + 2] == '{' {
                occurs_from(text, from + 3, '}')
            } else if from + 3 <= text.len() {
                raw_unsupported(options, unicode, text, from + 3, depth)
            } else {
                false
            }
        } else {
            raw_unsupported(options, unicode, text, from + 1, depth)
        }
    } else {
        raw_unsupported(options, unicode, text, from + 1, depth)
    }
}

/// Whether the options call the term unsupported.
pub open spec fn term_unsupported(options: RegExpOptions, term: Term) -> bool {
    match term {
        Term::CapturingGroup => options.named_capture_groups,
        Term::UnicodePropertyEscape => options.unicode_property_escapes,
        Term::LookAroundAssertion(kind) => options.look_behind_assertions && (kind
            == LookAroundAssertionKind::Lookbehind || kind
            == LookAroundAssertionKind::NegativeLookbehind),
        Term::Other => false,
    }
}

/// Whether the alternative holds a term that the options call
/// unsupported.
pub open spec fn alternative_unsupported(options: RegExpOptions, alternative: Alternative) -> bool {
    exists|j: int|
        0 <= j < alternative.terms@.len() && term_unsupported(
            options,
            #[trigger] alternative.terms@[j],
        )
}

/// Whether `expression` is the constructor call `new RegExp(pattern,
/// flags)` with both arguments string literals, every node of it at
/// `span`, and the callee the use `reference` of the name `RegExp`.
pub open spec fn is_regexp_constructor_call(
    expression: Expression,
    span: Span,
    pattern: Seq<char>,
    flags: Seq<char>,
    reference: ReferenceId,
) -> bool {
    &&& expression matches Expression::NewExpression(call)
    &&& call.span == span
    &&& call.callee matches Expression::Identifier(callee)
    &&& callee.span == span
    &&& callee.name@ == "RegExp"@
    &&& callee.reference_id == Some(reference)
    &&& call.arguments@.len() == 2
    &&& call.arguments@[0] matches Argument::Expression(Expression::StringLiteral(first))
    &&& first.span == span
    &&& first.value@ == pattern
    &&& call.arguments@[1] matches Argument::Expression(Expression::StringLiteral(second))
    &&& second.span == span
    &&& second.value@ == flags
}

/// Whether the character `c` occurs in `text` at position `from` or
/// later.
fn contains_from(text: &Vec<char>, from: usize, c: char) -> (found: bool)
    ensures
        found == occurs_from(text@, from as int, c),
{
    let mut i: usize = from;
    while i < text.len()
        invariant
            from <= i,
            forall|j: int| from <= j < i && j < text@.len() ==> text@[j] != c,
        decreases text.len() - i,
    {
        if text[i] == c {
            return true;
        }
        i += 1;
    }
    false
}

/// Where scanning resumes after a character class that opened just
/// before `from`.
fn skip_class(text: &Vec<char>, from: usize) -> (resume: usize)
    requires
        from <= text.len(),
    ensures
        resume == after_class(text@, from as int),
        from <= resume <= text.len(),
{
    let mut i: usize = from;
    while i < text.len()
        invariant
            from <= i <= text.len(),
            after_class(text@, from as int) == after_class(text@, i as int),
        decreases text.len() - i,
    {
        let c = text[i];
        if c == ']' {
            return i + 1;
        }
        if c == '\\' {
            if i + 1 < text.len() {
                i += 2;
            } else {
                return text.len();
            }
        } else {
            i += 1;
        }
    }
    i
}

impl<'a> RegExp<'a> {
    /// The transform for a unit, with the features that its target lacks.
    pub fn new(options: RegExpOptions, ctx: TransformCtx<'a>) -> (pass: RegExp<'a>)
        ensures
            pass.options() == options,
            pass.ctx() == ctx,
    {
        RegExp { ctx, options }
    }

    /// The features taken to be lacking.
    pub closed spec fn options(&self) -> RegExpOptions {
        self.options
    }

    /// The shared state of the unit.
    pub closed spec fn ctx(&self) -> TransformCtx<'a> {
        self.ctx
    }

    /// Whether these flags alone make the literal one to rewrite.
    pub open spec fn flags_unsupported(options: RegExpOptions, flags: RegExpFlags) -> bool {
        ||| flags.global
        ||| flags.ignore_case
        ||| flags.multiline
        ||| flags.dot_all && options.dot_all_flag
        ||| flags.sticky && options.sticky_flag
        ||| flags.unicode && options.unicode_flag
        ||| flags.has_indices && options.match_indices
        ||| flags.unicode_sets && options.set_notation
    }

    /// Whether the parsed pattern holds, at the top level of one of its
    /// alternatives, a term that the options call unsupported.
    pub open spec fn pattern_unsupported(options: RegExpOptions, pattern: Pattern) -> bool {
        exists|i: int|
            0 <= i < pattern.alternatives@.len() && alternative_unsupported(
                options,
                #[trigger] pattern.alternatives@[i],
            )
    }

    /// The text that goes to the constructor in place of the literal's
    /// pattern, where the literal is one to rewrite: it has unsupported
    /// flags, or its pattern shows unsupported syntax. An unparsed pattern
    /// gives its own text; a parsed one gives the part of the source text
    /// that it covers. A pattern found wrong at parsing is never
    /// rewritten, nor is a parsed pattern whose span does not fit the
    /// source text.
    pub open spec fn rewrite_source(&self, literal: RegExpLiteral) -> Option<Seq<char>> {
        let by_flags = Self::flags_unsupported(self.options(), literal.regex.flags);
        match literal.regex.pattern {
            RegExpPattern::Raw(raw) => if by_flags || raw_unsupported(
                self.options(),
                literal.regex.flags.unicode,
                raw.text@,
                0,
                0,
            ) {
                Some(raw.text@)
            } else {
                None
            },
            RegExpPattern::Pattern(pattern) => if (by_flags || Self::pattern_unsupported(
                self.options(),
                *pattern,
            )) && pattern.span.fits(self.ctx().source_text) {
                Some(pattern.span.spec_source_text(self.ctx().source_text))
            } else {
                None
            },
            RegExpPattern::Invalid(_) => None,
        }
    }

    /// The text that goes to the constructor in place of the literal's
    /// pattern, where the literal is one to rewrite.
    pub fn pattern_to_rewrite<'b>(
        &self,
        literal: &'b RegExpLiteral,
    ) -> (source: Option<&'b str>) where
        'a: 'b,

        ensures
            source is Some == self.rewrite_source(*literal) is Some,
            source is Some ==> source.unwrap()@ == self.rewrite_source(*literal).unwrap(),
    {
        let flags = literal.regex.flags;
        let by_flags = self.has_unsupported_regular_expression_flags(flags);
        match &literal.regex.pattern {
            RegExpPattern::Raw(raw) => {
                if by_flags || self.has_unsupported_regex_syntax_raw(raw.text.as_str(), flags) {
                    Some(raw.text.as_str())
                } else {
                    None
                }
            },
            RegExpPattern::Pattern(pattern) => {
                if by_flags || self.has_unsupported_regular_expression_pattern(pattern) {
                    pattern.span.source_text(self.ctx.source_text)
                } else {
                    None
                }
            },
            RegExpPattern::Invalid(_) => None,
        }
    }

    /// Whether the literal's flags alone make it one to rewrite.
    pub fn has_unsupported_regular_expression_flags(
        &self,
        flags: RegExpFlags,
    ) -> (unsupported: bool)
        ensures
            unsupported == Self::flags_unsupported(self.options(), flags),
    {
        flags.global || flags.ignore_case || flags.multiline || (flags.dot_all
            && self.options.dot_all_flag) || (flags.sticky && self.options.sticky_flag) || (
        flags.unicode && self.options.unicode_flag) || (flags.has_indices
            && self.options.match_indices) || (flags.unicode_sets && self.options.set_notation)
    }

    /// Whether a parsed pattern uses unsupported syntax.
    pub fn has_unsupported_regular_expression_pattern(
        &self,
        pattern: &Pattern,
    ) -> (unsupported: bool)
        ensures
            unsupported == Self::pattern_unsupported(self.options(), *pattern),
    {
        let options = self.options;
        if !(options.named_capture_groups || options.unicode_property_escapes
            || options.look_behind_assertions) {
            return false;
        }
        let mut i: usize = 0;
        while i < pattern.alternatives.len()
            invariant
                i <= pattern.alternatives.len(),
                options == self.options(),
                forall|k: int|
                    0 <= k < i ==> !alternative_unsupported(
                        options,
                        #[trigger] pattern.alternatives@[k],
                    ),
            decreases pattern.alternatives.len() - i,
        {
            let alternative = &pattern.alternatives[i];
            let mut j: usize = 0;
            while j < alternative.terms.len()
                invariant
                    j <= alternative.terms.len(),
                    i < pattern.alternatives.len(),
                    options == self.options(),
                    *alternative == pattern.alternatives@[i as int],
                    forall|k: int|
                        0 <= k < j ==> !term_unsupported(options, #[trigger] alternative.terms@[k]),
                decreases alternative.terms.len() - j,
            {
                let unsupported = match alternative.terms[j] {
                    Term::CapturingGroup => options.named_capture_groups,
                    Term::UnicodePropertyEscape => options.unicode_property_escapes,
                    Term::LookAroundAssertion(kind) => options.look_behind_assertions
                        && match kind {
                        LookAroundAssertionKind::Lookbehind => true,
                        LookAroundAssertionKind::NegativeLookbehind => true,
                        _ => false,
                    },
                    Term::Other => false,
                };
                if unsupported {
                    assert(term_unsupported(options, alternative.terms@[j as int]));
                    assert(alternative_unsupported(options, pattern.alternatives@[i as int]));
                    return true;
                }
                j += 1;
            }
            i += 1;
        }
        false
    }

    /// Whether an unparsed pattern uses unsupported syntax.
    pub fn has_unsupported_regex_syntax_raw(
        &self,
        pattern: &str,
        flags: RegExpFlags,
    ) -> (unsupported: bool)
        ensures
            unsupported == raw_unsupported(self.options(), flags.unicode, pattern@, 0, 0),
    {
        let options = self.options;
        let unicode = flags.unicode;
        let text = chars_of(pattern);
        let n = text.len();
        let mut depth: usize = 0;
        let mut i: usize = 0;
        while i < n
            invariant
                n == text.len(),
                text@ == pattern@,
                options == self.options(),
                unicode == flags.unicode,
                i <= n,
                depth <= i,
                raw_unsupported(options, unicode, text@, 0, 0) == raw_unsupported(
                    options,
                    unicode,
                    text@,
                    i as int,
                    depth as nat,
                ),
            decreases n - i,
        {
            let c = text[i];
            if c == '[' {
                i = skip_class(&text, i + 1);
            } else if c == '(' {
                if i + 1 < n && text[i + 1] == '?' {
                    if i + 2 < n && text[i + 2] == '<' {
                        if options.look_behind_assertions && i + 3 < n && (text[i + 3] == '!'
                            || text[i + 3] == '=') {
                            return true;
                        } else if options.named_capture_groups {
                            return contains_from(&text, i + 3, '>');
                        }
                        i += 3;
                    } else {
                        i += 2;
                    }
                } else {
                    i += 1;
                }
                depth += 1;
            } else if c == ')' {
                if depth == 0 {
                    return true;
                }
                depth -= 1;
                i += 1;
            } else if c == '\\' {
                if options.unicode_property_escapes && unicode && i + 1 < n && (text[i + 1] == 'p'
                    || text[i + 1] == 'P') {
                    if i + 2 < n && text[i + 2] == '{' {
                        return contains_from(&text, i + 3, '}');
                    }
                    if n - i >= 3 {
                        i += 3;
                    } else {
                        i = n;
                    }
                } else {
                    i += 1;
                }
            } else {
                i += 1;
            }
        }
        false
    }
}

impl<'a> RegExp<'a> {
    /// What the rewriting of [`RegExp::rewrite`] makes of `before`, in a
    /// context that was `ctx`: the expression `after` and the context
    /// `after_ctx`.
    pub open spec fn rewrites(
        &self,
        before: Expression,
        ctx: TraverseModel,
        after: Expression,
        after_ctx: TraverseModel,
    ) -> bool {
        match before {
            Expression::RegExpLiteral(literal) => match self.rewrite_source(*literal) {
                Some(source) => {
                    &&& is_regexp_constructor_call(
                        after,
                        literal.span,
                        escaped_backslashes(source),
                        literal.regex.flags.spec_text(),
                        ReferenceId(ctx.scoping.references.len() as usize),
                    )
                    &&& after_ctx == (TraverseModel {
                        scoping: ctx.scoping.with_reference(
                            NodeId::spec_dummy(),
                            ctx.scoping.lookup(ctx.current_scope(), "RegExp"@),
                            ReferenceFlags::Read,
                        ),
                        ..ctx
                    })
                },
                None => after == before && after_ctx == ctx,
            },
            _ => after == before && after_ctx == ctx,
        }
    }

    /// Rewrites a regular expression literal that the target cannot parse
    /// into `new RegExp(pattern, flags)`.
    ///
    /// The pattern argument is the pattern's text with its backslashes
    /// doubled; the flags argument is the flags as written. The callee
    /// is a new read of the name `RegExp`, resolved from the current
    /// scope and registered in the tables. Every other expression, and
    /// every literal that needs no rewriting, is left as it is, and so
    /// are the tables.
    pub fn rewrite(&self, expression: &mut Expression, ctx: &mut TraverseCtx)
        requires
            old(ctx).wf(),
        ensures
            final(ctx).wf(),
            final(ctx)@.scoping.extends(old(ctx)@.scoping),
            self.rewrites(*old(expression), old(ctx)@, *final(expression), final(ctx)@),
    {
        let parts = match &*expression {
            Expression::RegExpLiteral(literal) => match self.pattern_to_rewrite(literal) {
                Some(source) => Some(
                    (literal.span, escape_backslashes(source), literal.regex.flags.text()),
                ),
                None => None,
            },
            _ => None,
        };
        match parts {
            Some((span, pattern, flags)) => {
                let callee = ctx.create_reference_in_current_scope(
                    span,
                    "RegExp".to_owned(),
                    ReferenceFlags::Read,
                );
                let mut arguments: Vec<Argument> = Vec::new();
                arguments.push(
                    Argument::Expression(
                        Expression::StringLiteral(Box::new(StringLiteral { span, value: pattern })),
                    ),
                );
                arguments.push(
                    Argument::Expression(
                        Expression::StringLiteral(Box::new(StringLiteral { span, value: flags })),
                    ),
                );
                *expression = Expression::NewExpression(
                    Box::new(
                        NewExpression {
                            span,
                            callee: Expression::Identifier(Box::new(callee)),
                            arguments,
                        },
                    ),
                );
            },
            None => {},
        }
    }
}

impl<'a> Traverse for RegExp<'a> {
    /// The transform keeps no record of the walk.
    open spec fn inv(&self, trail: Seq<Visit>) -> bool {
        true
    }

    /// The transform rewrites.
    open spec fn observes(&self) -> bool {
        false
    }

    fn enter_program(&mut self, program: &mut Program<'_>, ctx: &mut TraverseCtx) {
    }

    fn exit_program(&mut self, program: &mut Program<'_>, ctx: &mut TraverseCtx) {
    }

    fn enter_statement(&mut self, statement: &mut Statement, ctx: &mut TraverseCtx) {
    }

    fn exit_statement(&mut self, statement: &mut Statement, ctx: &mut TraverseCtx) {
    }

    fn exit_expression(&mut self, expression: &mut Expression, ctx: &mut TraverseCtx) {
    }

    /// Rewrites the expression as [`RegExp::rewrite`] does.
    fn enter_expression(&mut self, expression: &mut Expression, ctx: &mut TraverseCtx)
        ensures
            *final(self) == *old(self),
            old(self).rewrites(*old(expression), old(ctx)@, *final(expression), final(ctx)@),
    {
        self.rewrite(expression, ctx);
    }
}

} // verus!
