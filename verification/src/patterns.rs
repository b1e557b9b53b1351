//! Regular expressions, compiled and searched by the `regex` crate.
//!
//! What a search finds is named (`regex_captures`), not restated: the
//! engine's semantics, Unicode classes included, take far more than a few
//! lines. The functions of the library that search take what a search found
//! as plain values and are verified for every such value.

use vstd::prelude::*;

verus! {

/// A compiled regular expression of the `regex` crate.
#[verifier::external_type_specification]
#[verifier::external_body]
pub struct ExRegex(regex::Regex);

/// Whether `regex::Regex::new` accepts the pattern (syntax and size limit).
pub uninterp spec fn regex_accepts(pattern: Seq<char>) -> bool;

/// What `regex::Regex::captures` finds in `text` for the compiled
/// `pattern`: `None` where there is no match, else one entry per capture
/// group (the whole match first), `None` for a group that took no part.
pub uninterp spec fn regex_captures(pattern: Seq<char>, text: Seq<char>) -> Option<
    Seq<Option<Seq<char>>>,
>;

/// The characters that `regex::escape` puts a backslash before.
pub open spec fn is_regex_meta(c: char) -> bool {
    ||| c == '\\'
    ||| c == '.'
    ||| c == '+'
    ||| c == '*'
    ||| c == '?'
    ||| c == '('
    ||| c == ')'
    ||| c == '|'
    ||| c == '['
    ||| c == ']'
    ||| c == '{'
    ||| c == '}'
    ||| c == '^'
    ||| c == '$'
    ||| c == '#'
    ||| c == '&'
    ||| c == '-'
    ||| c == '~'
}

/// `s` with a backslash before each meta character: a pattern that matches
/// `s` literally.
pub open spec fn regex_escape(s: Seq<char>) -> Seq<char>
    decreases s.len(),
{
    if s.len() == 0 {
        seq![]
    } else {
        regex_escape(s.drop_last()) + (if is_regex_meta(s.last()) {
            seq!['\\', s.last()]
        } else {
            seq![s.last()]
        })
    }
}

/// `regex::escape`: walks the characters of `text` and writes each one,
/// preceded by a backslash where it is a meta character. The contract
/// states exactly that.
#[verifier::external_body]
pub(crate) fn escape_text(text: &str) -> (r: String)
    ensures
        r@ == regex_escape(text@),
{
    regex::escape(text)
}

/// `regex::Regex::new`: compiles `pattern`, `None` where the crate reports
/// an error (the error itself is dropped). The contract says only that it
/// succeeds exactly where the named predicate `regex_accepts` holds; what
/// the compiled expression does is named by `regex_captures`.
#[verifier::external_body]
fn compile_regex(pattern: &str) -> (r: Option<regex::Regex>)
    ensures
        r is Some <==> regex_accepts(pattern@),
{
    regex::Regex::new(pattern).ok()
}

/// A regular expression together with the pattern it was compiled from.
/// The only constructor is `Pattern::compile`, so `compiled` is always the
/// compilation of `source`.
pub struct Pattern {
    source: String,
    compiled: regex::Regex,
}

impl View for Pattern {
    type V = Seq<char>;

    /// The pattern text.
    closed spec fn view(&self) -> Seq<char> {
        self.source@
    }
}

/// `regex::Regex::captures`: searches `text` with `p`, and hands back the
/// text of each capture group. The contract names the result
/// (`regex_captures` of the pattern and the text); it rests on `p.compiled`
/// being the compilation of `p.source`, which `Pattern::compile` ensures.
#[verifier::external_body]
pub(crate) fn captures_in(p: &Pattern, text: &str) -> (r: Option<Vec<Option<String>>>)
    ensures
        r.deep_view() == regex_captures(p@, text@),
{
    p.compiled.captures(text).map(
        |caps| caps.iter().map(|m| m.map(|m| m.as_str().to_string())).collect(),
    )
}

impl Pattern {
    /// Compiles `source`; `None` where the `regex` crate refuses it.
    pub fn compile(source: &str) -> (r: Option<Pattern>)
        ensures
            r is Some <==> regex_accepts(source@),
            r matches Some(p) ==> p@ == source@,
    {
        match compile_regex(source) {
            Some(compiled) => Some(Pattern { source: source.to_string(), compiled }),
            None => None,
        }
    }
}

} // verus!
