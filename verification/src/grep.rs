//! The content filter: a search text, or a regular expression between
//! slashes, compiled into a matcher for file contents.

use crate::engine::{
    escape_pattern, escaped, pattern_error, pattern_is_match, regex_compile_error, regex_is_match,
    regex_valid,
};
use crate::error::{ScanError, ScanErrorModel};
use crate::text::{chars_of, trim, trimmed};
use vstd::pervasive::unreached;
use vstd::prelude::*;

verus! {

/// Whether `t` is a pattern written between two slashes.
pub open spec fn is_slash_delimited(t: Seq<char>) -> bool {
    t.len() >= 2 && t[0] == '/' && t.last() == '/'
}

/// The regular expression that stands for the filter text `pattern`: what is
/// between the slashes if the trimmed text is written between slashes, else
/// the trimmed text taken literally, whatever the case of its letters.
pub open spec fn grep_source(pattern: Seq<char>) -> Seq<char> {
    let t = trimmed(pattern);
    if is_slash_delimited(t) {
        t.subrange(1, t.len() - 1)
    } else {
        "(?i)"@ + escaped(t)
    }
}

/// The error that reports that `pattern` gives no matcher.
pub open spec fn grep_failure(pattern: Seq<char>, detail: Seq<char>) -> ScanErrorModel {
    if is_slash_delimited(trimmed(pattern)) {
        ScanErrorModel::InvalidRegex { detail }
    } else {
        ScanErrorModel::InvalidGrep { detail }
    }
}

/// A compiled content filter.
#[derive(Debug)]
pub struct GrepFilter {
    source: String,
}

impl GrepFilter {
    #[verifier::type_invariant]
    spec fn compiles(self) -> bool {
        regex_valid(self.source@)
    }

    /// The regular expression that this filter applies.
    pub closed spec fn source(&self) -> Seq<char> {
        self.source@
    }

    /// The regular expression that this filter applies.
    pub fn source_text(&self) -> (s: &str)
        ensures
            s@ == self.source(),
            regex_valid(self.source()),
    {
        proof {
            use_type_invariant(self);
        }
        self.source.as_str()
    }

    /// Whether the filter matches somewhere in `text`.
    pub fn is_match(&self, text: &str) -> (b: bool)
        ensures
            b == regex_is_match(self.source(), text@),
    {
        proof {
            use_type_invariant(self);
        }
        match pattern_is_match(self.source.as_str(), text) {
            Some(b) => b,
            None => unreached(),
        }
    }
}

/// Whether the trimmed filter text `t` is written between two slashes.
pub fn slash_delimited(t: &str) -> (b: bool)
    ensures
        b == is_slash_delimited(t@),
{
    let v = chars_of(t);
    v.len() >= 2 && v[0] == '/' && v[v.len() - 1] == '/'
}

/// The regular expression that stands for the filter text `pattern`.
pub fn grep_source_text(pattern: &str) -> (src: String)
    ensures
        src@ == grep_source(pattern@),
{
    let t = trim(pattern);
    if slash_delimited(t) {
        let n = t.unicode_len();
        t.substring_char(1, n - 1).to_owned()
    } else {
        let mut src = String::new();
        src.append("(?i)");
        let quoted = escape_pattern(t);
        src.append(quoted.as_str());
        src
    }
}

/// Compiles the filter text `pattern`. It succeeds exactly when the engine
/// accepts the regular expression that stands for the text.
pub fn compile_grep(pattern: &str) -> (r: Result<GrepFilter, ScanError>)
    ensures
        match r {
            Ok(filter) => regex_valid(grep_source(pattern@)) && filter.source() == grep_source(
                pattern@,
            ),
            Err(e) => regex_compile_error(grep_source(pattern@)) matches Some(detail) && e@
                == grep_failure(pattern@, detail),
        },
{
    let source = grep_source_text(pattern);
    match pattern_error(source.as_str()) {
        None => Ok(GrepFilter { source }),
        Some(detail) => {
            if slash_delimited(trim(pattern)) {
                Err(ScanError::InvalidRegex { detail })
            } else {
                Err(ScanError::InvalidGrep { detail })
            }
        },
    }
}

} // verus!
