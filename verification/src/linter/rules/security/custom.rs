//! A secret scanner that users define: a name, a message, bounds on the
//! length of what can be a secret, and a regular expression that a
//! secret matches.
//!
//! The regular expression is compiled and run by the `regex` crate. The
//! verifier does not look inside a compiled expression: the text it was
//! compiled from goes by the name [`regex_source`], what it matches by the
//! name [`regex_matches`], and the two operations below are taken on
//! trust.

use regex::Regex;
use vstd::prelude::*;

verus! {

/// A compiled regular expression of the `regex` crate, opaque to the
/// verifier.
#[verifier::external_type_specification]
#[verifier::external_body]
pub struct ExRegex(Regex);

/// What a compiled regular expression was compiled from, and so what
/// decides what it matches. For an expression that `Regex::new` compiled
/// this is the pattern text.
pub uninterp spec fn regex_source(expression: Regex) -> Seq<char>;

/// Whether the regular expression compiled from `source` matches
/// somewhere in `haystack`.
pub uninterp spec fn regex_matches(source: Seq<char>, haystack: Seq<char>) -> bool;

/// `Regex::new`: compiles `pattern`. `None` when the pattern is not a
/// regular expression, or compiles to more than the size limit allows.
#[verifier::external_body]
fn compile(pattern: &str) -> (compiled: Option<Regex>)
    ensures
        compiled is Some ==> regex_source(compiled.unwrap()) == pattern@,
{
    Regex::new(pattern).ok()
}

/// `Regex::is_match`: whether the expression matches somewhere in
/// `haystack`.
#[verifier::external_body]
fn is_match(expression: &Regex, haystack: &str) -> (found: bool)
    ensures
        found == regex_matches(regex_source(*expression), haystack@),
{
    expression.is_match(haystack)
}

/// Why a scanner could not be made.
#[derive(Debug, Clone, Copy, PartialEq, Eq, Structural)]
pub enum CustomSecretError {
    /// The least length is zero.
    ZeroMinLen,
    /// The greatest length is zero.
    ZeroMaxLen,
    /// The pattern did not compile.
    InvalidPattern,
}

/// A secret scanner that a user has defined.
pub struct CustomSecret {
    rule_name: String,
    message: String,
    min_len: u32,
    max_len: Option<u32>,
    pattern: Regex,
}

impl CustomSecret {
    /// The name that findings of the scanner go by.
    pub closed spec fn spec_rule_name(&self) -> Seq<char> {
        self.rule_name@
    }

    /// What findings of the scanner say.
    pub closed spec fn spec_message(&self) -> Seq<char> {
        self.message@
    }

    /// The least length of a secret.
    pub closed spec fn spec_min_len(&self) -> u32 {
        self.min_len
    }

    /// The greatest length of a secret, where there is one.
    pub closed spec fn spec_max_len(&self) -> Option<u32> {
        self.max_len
    }

    /// The text of the regular expression that a secret matches.
    pub closed spec fn spec_pattern(&self) -> Seq<char> {
        regex_source(self.pattern)
    }

    /// Neither length is zero.
    pub open spec fn wf(&self) -> bool {
        &&& self.spec_min_len() >= 1
        &&& self.spec_max_len() is Some ==> self.spec_max_len().unwrap() >= 1
    }

    /// What making a scanner gives, once the pattern has been through
    /// compilation: an error if a length is zero, the least length being
    /// looked at first; else an error if the pattern did not compile;
    /// else the scanner.
    pub open spec fn made_from(
        made: Result<CustomSecret, CustomSecretError>,
        rule_name: Seq<char>,
        message: Seq<char>,
        min_len: u32,
        max_len: Option<u32>,
        compiled: Option<Regex>,
    ) -> bool {
        if min_len == 0 {
            made matches Err(CustomSecretError::ZeroMinLen)
        } else if max_len == Some(0u32) {
            made matches Err(CustomSecretError::ZeroMaxLen)
        } else {
            match compiled {
                None => made matches Err(CustomSecretError::InvalidPattern),
                Some(expression) => {
                    &&& made matches Ok(secret)
                    &&& secret.wf()
                    &&& secret.spec_rule_name() == rule_name
                    &&& secret.spec_message() == message
                    &&& secret.spec_min_len() == min_len
                    &&& secret.spec_max_len() == max_len
                    &&& secret.spec_pattern() == regex_source(expression)
                },
            }
        }
    }

    /// A scanner for secrets that match the compiled pattern, where
    /// there is one.
    pub fn from_compiled(
        rule_name: String,
        message: String,
        min_len: u32,
        max_len: Option<u32>,
        compiled: Option<Regex>,
    ) -> (made: Result<CustomSecret, CustomSecretError>)
        ensures
            Self::made_from(made, rule_name@, message@, min_len, max_len, compiled),
    {
        if min_len == 0 {
            return Err(CustomSecretError::ZeroMinLen);
        }
        match max_len {
            Some(max) => {
                if max == 0 {
                    return Err(CustomSecretError::ZeroMaxLen);
                }
            },
            None => {},
        }
        match compiled {
            Some(pattern) => Ok(CustomSecret { rule_name, message, min_len, max_len, pattern }),
            None => Err(CustomSecretError::InvalidPattern),
        }
    }

    /// A scanner for secrets that match `pattern`.
    ///
    /// Fails if a length is zero or `pattern` does not compile; the
    /// lengths are looked at first. A scanner that is made matches what
    /// `pattern` matches.
    pub fn new(
        rule_name: String,
        message: String,
        min_len: u32,
        max_len: Option<u32>,
        pattern: &str,
    ) -> (made: Result<CustomSecret, CustomSecretError>)
        ensures
            min_len == 0 <==> made matches Err(CustomSecretError::ZeroMinLen),
            min_len != 0 && max_len == Some(0u32) <==> made matches Err(
                CustomSecretError::ZeroMaxLen,
            ),
            made matches Ok(secret) ==> {
                &&& secret.wf()
                &&& secret.spec_rule_name() == rule_name@
                &&& secret.spec_message() == message@
                &&& secret.spec_min_len() == min_len
                &&& secret.spec_max_len() == max_len
                &&& secret.spec_pattern() == pattern@
            },
    {
        Self::from_compiled(rule_name, message, min_len, max_len, compile(pattern))
    }

    /// The name that findings of the scanner go by.
    pub fn rule_name(&self) -> (name: &str)
        ensures
            name@ == self.spec_rule_name(),
    {
        self.rule_name.as_str()
    }

    /// What findings of the scanner say.
    pub fn message(&self) -> (message: &str)
        ensures
            message@ == self.spec_message(),
    {
        self.message.as_str()
    }

    /// The least length of a secret.
    pub fn min_len(&self) -> (len: u32)
        ensures
            len == self.spec_min_len(),
    {
        self.min_len
    }

    /// The greatest length of a secret, where there is one.
    pub fn max_len(&self) -> (len: Option<u32>)
        ensures
            len == self.spec_max_len(),
    {
        self.max_len
    }

    /// Whether `candidate` is a secret of this scanner: the scanner's
    /// regular expression matches somewhere in it.
    pub fn detect(&self, candidate: &str) -> (found: bool)
        ensures
            found == regex_matches(self.spec_pattern(), candidate@),
    {
        is_match(&self.pattern, candidate)
    }
}

} // verus!
