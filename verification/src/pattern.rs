//! Regular expressions, as the `regex` crate matches them.

use vstd::prelude::*;
use crate::text::{is_decimal, is_decimal_text};

verus! {

/// The error that `regex` gives for a pattern it does not compile.
#[verifier::external_type_specification]
#[verifier::external_body]
pub struct ExRegexError(regex::Error);

/// Whether `regex::Regex::new` compiles the pattern.
pub uninterp spec fn regex_compiles(pattern: Seq<char>) -> bool;

/// What `regex::Regex::captures` finds in the text for the compiled pattern:
/// `None` where the pattern matches nowhere, else the groups of the leftmost
/// match, group 0 being the whole match and a group that took no part being
/// `None`.
pub uninterp spec fn regex_captures(pattern: Seq<char>, text: Seq<char>) -> Option<
    Seq<Option<Seq<char>>>,
>;

/// The groups of a match as mathematical values.
pub open spec fn groups_view(groups: Seq<Option<String>>) -> Seq<Option<Seq<char>>> {
    crate::text::optional_texts(groups)
}

/// The outcome of a search as a mathematical value.
pub open spec fn captures_view(found: Option<Vec<Option<String>>>) -> Option<
    Seq<Option<Seq<char>>>,
> {
    match found {
        Some(groups) => Some(groups_view(groups@)),
        None => None,
    }
}

/// Compiles `pattern` with `regex::Regex::new` and searches `text` with
/// `regex::Regex::captures`. Trusted: the error comes exactly for the
/// patterns that `Regex::new` refuses, and a result is what `captures`
/// finds, each group copied out as a string. Nothing is claimed about which
/// patterns compile or what a pattern matches.
#[verifier::external_body]
pub(crate) fn captures(pattern: &str, text: &str) -> (r: Result<
    Option<Vec<Option<String>>>,
    regex::Error,
>)
    ensures
        r is Ok <==> regex_compiles(pattern@),
        r matches Ok(found) ==> captures_view(found) == regex_captures(pattern@, text@),
{
    let re = regex::Regex::new(pattern)?;
    Ok(re.captures(text).map(|c| c.iter().map(|g| g.map(|m| m.as_str().to_string())).collect()))
}

/// Whether the first `n` groups after group 0 are all there.
pub open spec fn has_groups(groups: Seq<Option<Seq<char>>>, n: int) -> bool {
    &&& groups.len() > n
    &&& forall|i: int| 1 <= i <= n ==> (#[trigger] groups[i]) is Some
}

/// The text of group `i` of a match, where there is such a group and it took
/// part in the match.
pub fn group_text(groups: &Vec<Option<String>>, i: usize) -> (out: Option<String>)
    ensures
        match out {
            Some(text) => i < groups@.len() && groups_view(groups@)[i as int] == Some(text@),
            None => i >= groups@.len() || groups_view(groups@)[i as int] is None,
        },
{
    if i >= groups.len() {
        return None;
    }
    match &groups[i] {
        Some(text) => Some(text.clone()),
        None => None,
    }
}

/// Why a text that a pattern should match gives no reading.
#[derive(Clone, Copy, Debug, PartialEq, Eq, Structural)]
pub enum MatchError {
    /// A pattern was refused when it was compiled.
    BadPattern,
    /// The text does not match the pattern, or no line of it holds a
    /// reading that is needed.
    NoMatch,
    /// The pattern matched without all of its values.
    MissingGroup,
    /// A value that the pattern found is no decimal value.
    BadValue,
}

/// What a pattern with one value finds in a text: the value where the
/// pattern matches, `None` where it does not. A pattern that does not
/// compile, one that matches without its value, and a value that is no
/// decimal value are errors.
pub open spec fn single_capture(pattern: Seq<char>, text: Seq<char>) -> Result<
    Option<Seq<char>>,
    MatchError,
> {
    if !regex_compiles(pattern) {
        Err(MatchError::BadPattern)
    } else {
        match regex_captures(pattern, text) {
            None => Ok(None),
            Some(groups) => match group_value(groups, 1) {
                Ok(value) => Ok(Some(value)),
                Err(e) => Err(e),
            },
        }
    }
}

/// The decimal value that group `i` of a match holds. A group that is not
/// there, or took no part in the match, and a text that is no decimal value
/// are errors.
pub open spec fn group_value(groups: Seq<Option<Seq<char>>>, i: int) -> Result<
    Seq<char>,
    MatchError,
> {
    if !(0 <= i < groups.len()) || groups[i] is None {
        Err(MatchError::MissingGroup)
    } else if !is_decimal_text(groups[i]->0) {
        Err(MatchError::BadValue)
    } else {
        Ok(groups[i]->0)
    }
}

/// Takes the decimal value of group `i` out of the groups of a match.
pub fn value_from_groups(groups: &Vec<Option<String>>, i: usize) -> (out: Result<
    String,
    MatchError,
>)
    ensures
        match out {
            Ok(value) => group_value(groups_view(groups@), i as int) == Ok::<
                Seq<char>,
                MatchError,
            >(value@) && is_decimal_text(value@),
            Err(e) => group_value(groups_view(groups@), i as int) == Err::<Seq<char>, MatchError>(
                e,
            ),
        },
{
    match group_text(groups, i) {
        None => Err(MatchError::MissingGroup),
        Some(value) => {
            if is_decimal(value.as_str()) {
                Ok(value)
            } else {
                Err(MatchError::BadValue)
            }
        },
    }
}

/// Searches a text with a pattern that has one decimal value.
pub fn capture_one(pattern: &str, text: &str) -> (out: Result<Option<String>, MatchError>)
    ensures
        match out {
            Ok(Some(value)) => single_capture(pattern@, text@) == Ok::<
                Option<Seq<char>>,
                MatchError,
            >(Some(value@)),
            Ok(None) => single_capture(pattern@, text@) == Ok::<Option<Seq<char>>, MatchError>(
                None,
            ),
            Err(e) => single_capture(pattern@, text@) == Err::<Option<Seq<char>>, MatchError>(e),
        },
{
    let found = match captures(pattern, text) {
        Ok(found) => found,
        Err(_) => return Err(MatchError::BadPattern),
    };
    match found {
        None => Ok(None),
        Some(groups) => match value_from_groups(&groups, 1) {
            Ok(value) => Ok(Some(value)),
            Err(e) => Err(e),
        },
    }
}

} // verus!
