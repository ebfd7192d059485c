//! Small helpers over string contents.

use vstd::prelude::*;

verus! {

/// The characters of `s`, in order.
pub fn chars_of(s: &str) -> (chars: Vec<char>)
    ensures
        chars@ == s@,
{
    broadcast use vstd::string::axiom_spec_iter;

    let mut chars: Vec<char> = Vec::new();
    for c in it: s.chars()
        invariant
            it.seq() == s@,
            chars@ == s@.take(it.index() as int),
    {
        chars.push(c);
        proof {
            let i = it.index() as int;
            assert(s@.take(i).push(s@[i]) == s@.take(i + 1));
        }
    }
    proof {
        assert(s@.take(s@.len() as int) == s@);
    }
    chars
}

/// `str`'s `==` from the standard library: two strings are equal exactly
/// when they hold the same characters in the same order.
pub assume_specification[ <str as PartialEq>::eq ](a: &str, b: &str) -> (equal: bool)
    ensures
        equal == (a@ == b@),
;

/// `String::push` from the standard library: appends one character.
#[verifier::external_body]
pub(crate) fn push_char(s: &mut String, c: char)
    ensures
        final(s)@ == old(s)@.push(c),
{
    s.push(c)
}

/// `text` with every backslash doubled.
pub open spec fn escaped_backslashes(text: Seq<char>) -> Seq<char>
    decreases text.len(),
{
    if text.len() == 0 {
        Seq::empty()
    } else if text.last() == '\\' {
        escaped_backslashes(text.drop_last()).push('\\').push('\\')
    } else {
        escaped_backslashes(text.drop_last()).push(text.last())
    }
}

/// `text` with every backslash doubled, so that it reads as itself inside
/// a string literal.
pub fn escape_backslashes(text: &str) -> (escaped: String)
    ensures
        escaped@ == escaped_backslashes(text@),
{
    let chars = chars_of(text);
    let mut escaped = String::new();
    let mut i: usize = 0;
    while i < chars.len()
        invariant
            i <= chars.len(),
            chars@ == text@,
            escaped@ == escaped_backslashes(chars@.take(i as int)),
        decreases chars.len() - i,
    {
        let c = chars[i];
        proof {
            assert(chars@.take(i + 1).drop_last() == chars@.take(i as int));
            assert(chars@.take(i + 1).last() == c);
        }
        if c == '\\' {
            push_char(&mut escaped, '\\');
        }
        push_char(&mut escaped, c);
        i += 1;
    }
    proof {
        assert(chars@.take(i as int) == chars@);
    }
    escaped
}

} // verus!
