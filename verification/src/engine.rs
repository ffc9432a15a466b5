//! The regular-expression engine. The `regex` crate does the matching; this
//! file states what the library takes from it without proof.

use vstd::prelude::*;

verus! {

/// The characters that have a meaning of their own in a pattern.
pub open spec fn is_meta_char(c: char) -> bool {
    ||| c == '\\'
    ||| c == '.'
    ||| c == '+'
    ||| c == '*'
    ||| c == '?'
    ||| c == '('
    ||| c == ')'
    ||| c == '|'
    ||| c == '['
    ||| c == ']'
    ||| c == '{'
    ||| c == '}'
    ||| c == '^'
    ||| c == '$'
    ||| c == '#'
    ||| c == '&'
    ||| c == '-'
    ||| c == '~'
}

/// `s` with a backslash before each character that has a meaning of its own
/// in a pattern.
pub open spec fn escaped(s: Seq<char>) -> Seq<char>
    decreases s.len(),
{
    if s.len() == 0 {
        Seq::empty()
    } else if is_meta_char(s.last()) {
        escaped(s.drop_last()).push('\\').push(s.last())
    } else {
        escaped(s.drop_last()).push(s.last())
    }
}

/// What compiling `pattern` reports: `None` if it compiles, else the text of
/// the error.
pub uninterp spec fn regex_compile_error(pattern: Seq<char>) -> Option<Seq<char>>;

/// Whether `pattern`, which compiles, matches somewhere in `text`.
pub uninterp spec fn regex_is_match(pattern: Seq<char>, text: Seq<char>) -> bool;

/// The matches of `pattern`, which compiles, in `text`, from left to right and
/// without overlap. Each match lists its groups: first the whole match, then
/// the groups in the order of their opening parentheses, `None` for a group
/// that took no part.
pub uninterp spec fn regex_captures(pattern: Seq<char>, text: Seq<char>) -> Seq<
    Seq<Option<Seq<char>>>,
>;

/// Whether `pattern` compiles.
pub open spec fn regex_valid(pattern: Seq<char>) -> bool {
    regex_compile_error(pattern) is None
}

/// `regex::escape`: the text comes back with a backslash before each
/// character listed in `is_meta_char` and is otherwise unchanged.
#[verifier::external_body]
pub(crate) fn escape_pattern(text: &str) -> (r: String)
    ensures
        r@ == escaped(text@),
{
    regex::escape(text)
}

/// `regex::Regex::new`, kept for its verdict only: `None` when the pattern
/// compiles, else the error as the crate prints it. The verdict depends on
/// the pattern alone.
#[verifier::external_body]
pub(crate) fn pattern_error(pattern: &str) -> (r: Option<String>)
    ensures
        r.deep_view() == regex_compile_error(pattern@),
{
    regex::Regex::new(pattern).err().map(|e| e.to_string())
}

/// `regex::Regex::is_match` on the compiled `pattern`: `None` when the
/// pattern does not compile, else whether it matches somewhere in `text`,
/// which depends on the two texts alone.
#[verifier::external_body]
pub(crate) fn pattern_is_match(pattern: &str, text: &str) -> (r: Option<bool>)
    ensures
        r is Some <==> regex_valid(pattern@),
        r matches Some(b) ==> b == regex_is_match(pattern@, text@),
{
    regex::Regex::new(pattern).ok().map(|re| re.is_match(text))
}

/// `regex::Regex::captures_iter` on the compiled `pattern`: `None` when the
/// pattern does not compile, else every match in `text` with the text of
/// each of its groups, which depends on the two texts alone.
#[verifier::external_body]
pub(crate) fn pattern_captures(pattern: &str, text: &str) -> (r: Option<Vec<Vec<Option<String>>>>)
    ensures
        r is Some <==> regex_valid(pattern@),
        r matches Some(all) ==> all.deep_view() == regex_captures(pattern@, text@),
{
    let re = regex::Regex::new(pattern).ok()?;
    Some(
        re.captures_iter(text).map(
            |found| found.iter().map(|group| group.map(|m| m.as_str().to_string())).collect(),
        ).collect(),
    )
}

} // verus!
