//! Regular expressions, compiled once and matched against text.

use regex::{Regex, RegexBuilder};
use vstd::prelude::*;

verus! {

/// `regex::Regex`, a compiled regular expression: it is carried through
/// and nothing is known of what is in it.
#[verifier::external_type_specification]
#[verifier::external_body]
pub struct ExRegex(regex::Regex);

/// `regex::Error`, the reason why a pattern did not compile: it is carried
/// through and nothing is known of what is in it.
#[verifier::external_type_specification]
#[verifier::external_body]
pub struct ExRegexError(regex::Error);

/// The largest size, in bytes, that a compiled pattern may have.
pub const PATTERN_SIZE_LIMIT: usize = 262_144;

/// Why a pattern could not be compiled.
#[derive(Debug, PartialEq, Eq)]
pub enum PatternError {
    /// The pattern is no regular expression.
    Syntax {
        /// What is wrong with it.
        message: String,
    },
    /// The compiled pattern would be larger than the limit.
    TooBig {
        /// The limit in bytes.
        limit: usize,
    },
}

/// The byte ranges of the groups of one match: the whole match first, then
/// each capture group, `None` for a group that took no part.
pub type Captures = Vec<Option<(usize, usize)>>;

/// The mathematical content of [`Captures`].
pub type CapturesView = Seq<Option<(usize, usize)>>;

/// What `Regex::captures_iter` finds: the successive matches of the pattern
/// with the source `pattern` in `haystack` that do not overlap, each with the
/// byte ranges of its groups.
pub uninterp spec fn regex_captures(pattern: Seq<char>, haystack: Seq<char>) -> Seq<CapturesView>;

/// What `Regex::is_match` says: whether the pattern with the source
/// `pattern` matches somewhere in `haystack`.
pub uninterp spec fn regex_is_match(pattern: Seq<char>, haystack: Seq<char>) -> bool;

/// A regex pattern for text replacement.
///
/// A pattern is made by [`Pattern::new`] alone, so the compiled form always
/// belongs to the source that stands beside it.
#[derive(Debug)]
pub struct Pattern {
    source: String,
    regex: Regex,
}

impl View for Pattern {
    type V = Seq<char>;

    closed spec fn view(&self) -> Seq<char> {
        self.source@
    }
}

impl DeepView for Pattern {
    type V = Seq<char>;

    open spec fn deep_view(&self) -> Seq<char> {
        self@
    }
}

/// Calls `RegexBuilder::new(source)`, `size_limit(limit)` and `build()`: the
/// compiled pattern, or the error of the regex crate. Nothing is claimed of
/// which of the two comes back.
#[verifier::external_body]
fn compile(source: &str, limit: usize) -> Result<Regex, regex::Error> {
    RegexBuilder::new(source).size_limit(limit).build()
}

/// Tells the variants of `regex::Error` apart and moves their fields into
/// the library's own error. Nothing is claimed of the result.
#[verifier::external_body]
fn describe(error: regex::Error) -> PatternError {
    match error {
        regex::Error::Syntax(message) => PatternError::Syntax { message },
        regex::Error::CompiledTooBig(limit) => PatternError::TooBig { limit },
        other => PatternError::Syntax { message: other.to_string() },
    }
}

/// Calls `Regex::captures_iter` and, for each match, `Captures::iter`,
/// `Match::start` and `Match::end`, and hands the byte ranges out as plain
/// values. The result is the one that the regex crate gives for the source
/// of the pattern and the haystack.
#[verifier::external_body]
pub(crate) fn captures_iter(pattern: &Pattern, haystack: &str) -> (r: Vec<Captures>)
    ensures
        r.deep_view() == regex_captures(pattern@, haystack@),
{
    pattern.regex.captures_iter(haystack).map(
        |found| found.iter().map(|group| group.map(|m| (m.start(), m.end()))).collect(),
    ).collect()
}

/// Calls `Regex::is_match`. The result is the one that the regex crate gives
/// for the source of the pattern and the haystack.
#[verifier::external_body]
pub(crate) fn is_match(pattern: &Pattern, haystack: &str) -> (r: bool)
    ensures
        r == regex_is_match(pattern@, haystack@),
{
    pattern.regex.is_match(haystack)
}

/// What becomes of the answer of the regex crate to the request to compile
/// `source`: a pattern with that source, or the error in the library's form.
fn from_compiled(source: &str, compiled: Result<Regex, regex::Error>) -> (r: Result<
    Pattern,
    PatternError,
>)
    ensures
        compiled is Ok <==> r is Ok,
        r matches Ok(pattern) ==> pattern@ == source@,
{
    match compiled {
        Ok(regex) => Ok(Pattern { source: source.to_owned(), regex }),
        Err(error) => Err(describe(error)),
    }
}

impl Pattern {
    /// Compiles `source`. Whether a source compiles is for the regex crate to
    /// say; a pattern that comes back has `source` as its source. A compiled
    /// pattern larger than [`PATTERN_SIZE_LIMIT`] is refused.
    pub fn new(source: &str) -> (r: Result<Pattern, PatternError>)
        ensures
            r matches Ok(pattern) ==> pattern@ == source@,
    {
        from_compiled(source, compile(source, PATTERN_SIZE_LIMIT))
    }

    /// The source of the pattern.
    pub fn as_str(&self) -> (r: &str)
        ensures
            r@ == self@,
    {
        self.source.as_str()
    }
}

/// The pattern that finds email addresses.
pub const EMAIL_PATTERN: &'static str =
    r"\b[a-zA-Z0-9.!#$%&'*+/=?^_`{|}~-]+@[a-zA-Z0-9-]+(?:\.[a-zA-Z0-9-]+)*\b";

/// The pattern that finds IPv4 addresses.
pub const IPV4_PATTERN: &'static str =
    r"\b(?:(?:25[0-5]|2[0-4][0-9]|[01]?[0-9][0-9]?)\.){3}(?:25[0-5]|2[0-4][0-9]|[01]?[0-9][0-9]?)\b";

/// The pattern that finds IPv6 addresses.
pub const IPV6_PATTERN: &'static str =
    r"(?i)(?:[0-9a-f]{1,4}:){7}[0-9a-f]{1,4}|(?:[0-9a-f]{1,4}:){1,6}:[0-9a-f]{1,4}|(?:[0-9a-f]{1,4}:){1,5}(?::[0-9a-f]{1,4}){1,2}|(?:[0-9a-f]{1,4}:){1,4}(?::[0-9a-f]{1,4}){1,3}|(?:[0-9a-f]{1,4}:){1,3}(?::[0-9a-f]{1,4}){1,4}|(?:[0-9a-f]{1,4}:){1,2}(?::[0-9a-f]{1,4}){1,5}|[0-9a-f]{1,4}:(?::[0-9a-f]{1,4}){1,6}|(?:[0-9a-f]{1,4}:){1,7}:|:(?:(?::[0-9a-f]{1,4}){1,7}|:)";

/// The pattern that finds credit card numbers. It is permissive: the groups
/// of digits may be set apart by `-` or by a space.
pub const CREDITCARD_PATTERN: &'static str = r"\d{4}[- ]?\d{4,6}[- ]?\d{4,5}(?:[- ]?\d{4})";

/// The mathematical content of [`Detectors`]: the sources of its patterns.
pub struct DetectorsView {
    pub email: Seq<char>,
    pub ipv4: Seq<char>,
    pub ipv6: Seq<char>,
    pub creditcard: Seq<char>,
}

impl DetectorsView {
    /// The sources of the built-in detectors.
    pub open spec fn standard() -> DetectorsView {
        DetectorsView {
            email: EMAIL_PATTERN@,
            ipv4: IPV4_PATTERN@,
            ipv6: IPV6_PATTERN@,
            creditcard: CREDITCARD_PATTERN@,
        }
    }
}

/// The compiled patterns of the built-in detectors.
#[derive(Debug)]
pub struct Detectors {
    email: Pattern,
    ipv4: Pattern,
    ipv6: Pattern,
    creditcard: Pattern,
}

impl View for Detectors {
    type V = DetectorsView;

    closed spec fn view(&self) -> DetectorsView {
        DetectorsView {
            email: self.email@,
            ipv4: self.ipv4@,
            ipv6: self.ipv6@,
            creditcard: self.creditcard@,
        }
    }
}

/// The error of the first of four attempts to compile that failed.
pub open spec fn first_error(
    email: Result<Pattern, PatternError>,
    ipv4: Result<Pattern, PatternError>,
    ipv6: Result<Pattern, PatternError>,
    creditcard: Result<Pattern, PatternError>,
) -> Option<PatternError> {
    match (email, ipv4, ipv6, creditcard) {
        (Err(error), _, _, _) => Some(error),
        (_, Err(error), _, _) => Some(error),
        (_, _, Err(error), _) => Some(error),
        (_, _, _, Err(error)) => Some(error),
        _ => None,
    }
}

/// What becomes of the four attempts to compile the sources of the
/// detectors: the detectors where all four compiled, or else the error of the
/// first that did not.
fn from_patterns(
    email: Result<Pattern, PatternError>,
    ipv4: Result<Pattern, PatternError>,
    ipv6: Result<Pattern, PatternError>,
    creditcard: Result<Pattern, PatternError>,
) -> (r: Result<Detectors, PatternError>)
    requires
        email matches Ok(pattern) ==> pattern@ == EMAIL_PATTERN@,
        ipv4 matches Ok(pattern) ==> pattern@ == IPV4_PATTERN@,
        ipv6 matches Ok(pattern) ==> pattern@ == IPV6_PATTERN@,
        creditcard matches Ok(pattern) ==> pattern@ == CREDITCARD_PATTERN@,
    ensures
        match first_error(email, ipv4, ipv6, creditcard) {
            Some(error) => r == Err::<Detectors, PatternError>(error),
            None => r is Ok && r->Ok_0@ == DetectorsView::standard(),
        },
{
    let email = match email {
        Ok(pattern) => pattern,
        Err(error) => {
            return Err(error);
        },
    };
    let ipv4 = match ipv4 {
        Ok(pattern) => pattern,
        Err(error) => {
            return Err(error);
        },
    };
    let ipv6 = match ipv6 {
        Ok(pattern) => pattern,
        Err(error) => {
            return Err(error);
        },
    };
    let creditcard = match creditcard {
        Ok(pattern) => pattern,
        Err(error) => {
            return Err(error);
        },
    };
    Ok(Detectors { email, ipv4, ipv6, creditcard })
}

impl Detectors {
    #[verifier::type_invariant]
    spec fn sources_hold(self) -> bool {
        &&& self.email@ == EMAIL_PATTERN@
        &&& self.ipv4@ == IPV4_PATTERN@
        &&& self.ipv6@ == IPV6_PATTERN@
        &&& self.creditcard@ == CREDITCARD_PATTERN@
    }

    /// Compiles the four detectors. The regex crate says whether a pattern
    /// compiles: where all four do, the detectors hold them, each with the
    /// source of its constant; the error of the first that does not is
    /// returned.
    pub fn new() -> (r: Result<Detectors, PatternError>)
        ensures
            r matches Ok(detectors) ==> detectors@ == DetectorsView::standard(),
    {
        from_patterns(
            Pattern::new(EMAIL_PATTERN),
            Pattern::new(IPV4_PATTERN),
            Pattern::new(IPV6_PATTERN),
            Pattern::new(CREDITCARD_PATTERN),
        )
    }

    /// The detector of email addresses.
    pub fn email(&self) -> (r: &Pattern)
        ensures
            r@ == self@.email,
            r@ == EMAIL_PATTERN@,
    {
        proof {
            use_type_invariant(self);
        }
        &self.email
    }

    /// The detector of IPv4 addresses.
    pub fn ipv4(&self) -> (r: &Pattern)
        ensures
            r@ == self@.ipv4,
            r@ == IPV4_PATTERN@,
    {
        proof {
            use_type_invariant(self);
        }
        &self.ipv4
    }

    /// The detector of IPv6 addresses.
    pub fn ipv6(&self) -> (r: &Pattern)
        ensures
            r@ == self@.ipv6,
            r@ == IPV6_PATTERN@,
    {
        proof {
            use_type_invariant(self);
        }
        &self.ipv6
    }

    /// The detector of credit card numbers.
    pub fn creditcard(&self) -> (r: &Pattern)
        ensures
            r@ == self@.creditcard,
            r@ == CREDITCARD_PATTERN@,
    {
        proof {
            use_type_invariant(self);
        }
        &self.creditcard
    }
}

} // verus!
