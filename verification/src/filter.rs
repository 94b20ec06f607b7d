//! The two regular expressions that choose among the paths of a directory.

use regex::Regex;
use vstd::prelude::*;

use crate::error::{ErrorKind, Failure};

verus! {

/// `regex::Regex`, a compiled regular expression.
#[verifier::external_type_specification]
#[verifier::external_body]
pub struct ExRegex(Regex);

/// `regex::Error`, why a pattern could not be compiled.
#[verifier::external_type_specification]
#[verifier::external_body]
pub struct ExRegexError(regex::Error);

/// The texts in which the expression finds a match.
pub uninterp spec fn matched_texts(expression: Regex) -> Set<Seq<char>>;

/// The texts in which the pattern, read in verbose mode, finds a match, or why it does not
/// compile. The limit on the size of a compiled pattern is counted in bytes, hence the width
/// of a machine word.
pub uninterp spec fn verbose_pattern(pattern: Seq<char>, word_bits: u32) -> Result<
    Set<Seq<char>>,
    regex::Error,
>;

/// `regex::RegexBuilder::build`, asked to ignore the whitespace in the pattern: which texts the
/// expression matches, or which error there is, depends on the pattern and the width of a
/// machine word alone.
#[verifier::external_body]
fn build_verbose(pattern: &str) -> (built: Result<Regex, regex::Error>)
    ensures
        match built {
            Ok(expression) => verbose_pattern(pattern@, usize::BITS) == Ok::<_, regex::Error>(
                matched_texts(expression),
            ),
            Err(error) => verbose_pattern(pattern@, usize::BITS) == Err::<Set<Seq<char>>, _>(error),
        },
{
    regex::RegexBuilder::new(pattern).ignore_whitespace(true).build()
}

/// `regex::Regex::is_match`: whether the text is one in which the expression finds a match.
#[verifier::external_body]
fn finds_match(expression: &Regex, text: &str) -> (found: bool)
    ensures
        found == matched_texts(*expression).contains(text@),
{
    expression.is_match(text)
}

/// Which paths are kept out, and which files are let in.
pub ghost struct Rules {
    pub excluded: Set<Seq<char>>,
    pub included: Set<Seq<char>>,
}

/// The expressions in use. Where `exclusion` is `None` no path is excluded, and where `inclusion`
/// is `None` every file is included.
#[derive(Debug, Clone)]
pub struct Filters {
    pub exclusion: Option<Regex>,
    pub inclusion: Option<Regex>,
}

impl Filters {
    /// What the two expressions mean for paths.
    pub open spec fn rules(self) -> Rules {
        Rules {
            excluded: match self.exclusion {
                Some(expression) => matched_texts(expression),
                None => Set::empty(),
            },
            included: match self.inclusion {
                Some(expression) => matched_texts(expression),
                None => Set::full(),
            },
        }
    }

    /// Whether the path is kept out.
    pub fn excludes(&self, path: &str) -> (excluded: bool)
        ensures
            excluded == self.rules().excluded.contains(path@),
    {
        match &self.exclusion {
            Some(expression) => finds_match(expression, path),
            None => false,
        }
    }

    /// Whether a file of that path is let in.
    pub fn includes(&self, path: &str) -> (included: bool)
        ensures
            included == self.rules().included.contains(path@),
    {
        match &self.inclusion {
            Some(expression) => finds_match(expression, path),
            None => true,
        }
    }
}

/// What became of a configured pattern.
pub enum Compiled {
    /// No pattern is configured.
    Unset,
    /// The pattern is empty, and selects nothing by itself.
    Empty,
    Valid(Regex),
    Invalid(regex::Error),
}

/// The outcome that a configured pattern leads to.
pub open spec fn compiles_to(pattern: Option<Seq<char>>, compiled: Compiled) -> bool {
    match pattern {
        None => compiled is Unset,
        Some(pattern) => if pattern.len() == 0 {
            compiled is Empty
        } else {
            match verbose_pattern(pattern, usize::BITS) {
                Ok(texts) => compiled is Valid && matched_texts(compiled->Valid_0) == texts,
                Err(error) => compiled == Compiled::Invalid(error),
            }
        },
    }
}

/// Compiles a configured pattern.
pub fn compile(pattern: &Option<String>) -> (compiled: Compiled)
    ensures
        compiles_to(pattern.deep_view(), compiled),
{
    match pattern {
        None => Compiled::Unset,
        Some(pattern) => if pattern.as_str().is_empty() {
            Compiled::Empty
        } else {
            match build_verbose(pattern.as_str()) {
                Ok(expression) => Compiled::Valid(expression),
                Err(error) => Compiled::Invalid(error),
            }
        },
    }
}

/// The expression to use, if any.
pub open spec fn expression_in(compiled: Compiled) -> Option<Regex> {
    match compiled {
        Compiled::Valid(expression) => Some(expression),
        _ => None,
    }
}

/// What stands in the way of using both patterns. `exclusion` is looked at first.
pub open spec fn obstacle(exclusion: Compiled, inclusion: Compiled) -> Option<
    Failure<regex::Error>,
> {
    match exclusion {
        Compiled::Unset => Some(Failure { kind: ErrorKind::NoExclude, cause: None }),
        Compiled::Invalid(error) => Some(
            Failure { kind: ErrorKind::InvalidExclude, cause: Some(error) },
        ),
        _ => match inclusion {
            Compiled::Unset => Some(Failure { kind: ErrorKind::NoInclude, cause: None }),
            Compiled::Invalid(error) => Some(
                Failure { kind: ErrorKind::InvalidInclude, cause: Some(error) },
            ),
            _ => None,
        },
    }
}

/// Puts the two expressions together.
pub fn combine(exclusion: Compiled, inclusion: Compiled) -> (filters: Result<
    Filters,
    Failure<regex::Error>,
>)
    ensures
        match filters {
            Ok(filters) => {
                &&& obstacle(exclusion, inclusion) is None
                &&& filters.exclusion == expression_in(exclusion)
                &&& filters.inclusion == expression_in(inclusion)
            },
            Err(failure) => obstacle(exclusion, inclusion) == Some(failure),
        },
{
    let exclusion = match exclusion {
        Compiled::Unset => return Err(Failure::plain(ErrorKind::NoExclude)),
        Compiled::Invalid(error) => return Err(
            Failure::caused_by(ErrorKind::InvalidExclude, error),
        ),
        Compiled::Empty => None,
        Compiled::Valid(expression) => Some(expression),
    };
    let inclusion = match inclusion {
        Compiled::Unset => return Err(Failure::plain(ErrorKind::NoInclude)),
        Compiled::Invalid(error) => return Err(
            Failure::caused_by(ErrorKind::InvalidInclude, error),
        ),
        Compiled::Empty => None,
        Compiled::Valid(expression) => Some(expression),
    };
    Ok(Filters { exclusion, inclusion })
}

/// The paths that a configured pattern selects. An empty one stands for `if_empty`.
pub open spec fn selected(pattern: Seq<char>, if_empty: Set<Seq<char>>) -> Result<
    Set<Seq<char>>,
    regex::Error,
> {
    if pattern.len() == 0 {
        Ok(if_empty)
    } else {
        verbose_pattern(pattern, usize::BITS)
    }
}

/// What two configured patterns mean for paths: an empty exclusion excludes no path, and an
/// empty inclusion includes every file.
pub open spec fn configured_rules(
    exclusion: Option<Seq<char>>,
    inclusion: Option<Seq<char>>,
) -> Result<Rules, Failure<regex::Error>> {
    match exclusion {
        None => Err(Failure { kind: ErrorKind::NoExclude, cause: None }),
        Some(exclusion) => match selected(exclusion, Set::empty()) {
            Err(error) => Err(Failure { kind: ErrorKind::InvalidExclude, cause: Some(error) }),
            Ok(excluded) => match inclusion {
                None => Err(Failure { kind: ErrorKind::NoInclude, cause: None }),
                Some(inclusion) => match selected(inclusion, Set::full()) {
                    Err(error) => Err(
                        Failure { kind: ErrorKind::InvalidInclude, cause: Some(error) },
                    ),
                    Ok(included) => Ok(Rules { excluded, included }),
                },
            },
        },
    }
}

/// Builds the filters from two configured patterns.
pub fn build_filters(exclusion: &Option<String>, inclusion: &Option<String>) -> (filters: Result<
    Filters,
    Failure<regex::Error>,
>)
    ensures
        match filters {
            Ok(filters) => configured_rules(exclusion.deep_view(), inclusion.deep_view()) == Ok::<
                _,
                Failure<regex::Error>,
            >(filters.rules()),
            Err(failure) => configured_rules(exclusion.deep_view(), inclusion.deep_view()) == Err::<
                Rules,
                _,
            >(failure),
        },
{
    combine(compile(exclusion), compile(inclusion))
}

/// An empty exclusion excludes no path.
pub proof fn empty_exclusion_excludes_nothing(inclusion: Option<Seq<char>>, path: Seq<char>)
    ensures
        configured_rules(Some(seq![]), inclusion) matches Ok(rules)
            ==> !rules.excluded.contains(path),
{
}

/// An empty inclusion includes every file, and is always valid.
pub proof fn empty_inclusion_includes_everything(exclusion: Option<Seq<char>>, path: Seq<char>)
    ensures
        configured_rules(exclusion, Some(seq![])) matches Ok(rules)
            ==> rules.included.contains(path),
        configured_rules(exclusion, Some(seq![])) matches Err(failure) ==> failure.kind
            == ErrorKind::NoExclude || failure.kind == ErrorKind::InvalidExclude,
{
}

/// A path is excluded exactly if there is an exclusion that finds a match in it, and a file is
/// included unless there is an inclusion that finds none.
pub proof fn rules_follow_the_expressions(filters: Filters, path: Seq<char>)
    ensures
        filters.exclusion matches Some(expression) ==> (filters.rules().excluded.contains(path)
            <==> matched_texts(expression).contains(path)),
        filters.exclusion is None ==> !filters.rules().excluded.contains(path),
        filters.inclusion matches Some(expression) ==> (filters.rules().included.contains(path)
            <==> matched_texts(expression).contains(path)),
        filters.inclusion is None ==> filters.rules().included.contains(path),
{
}

/// Two patterns that compile decide, each for itself: the first which paths are excluded, the
/// second which files are included.
pub proof fn valid_patterns_decide(
    exclusion: Seq<char>,
    inclusion: Seq<char>,
    out: Set<Seq<char>>,
    within: Set<Seq<char>>,
)
    requires
        exclusion.len() > 0,
        inclusion.len() > 0,
        verbose_pattern(exclusion, usize::BITS) == Ok::<_, regex::Error>(out),
        verbose_pattern(inclusion, usize::BITS) == Ok::<_, regex::Error>(within),
    ensures
        configured_rules(Some(exclusion), Some(inclusion)) matches Ok(rules) && rules.excluded
            == out && rules.included == within,
        configured_rules(Some(seq![]), Some(inclusion)) matches Ok(rules) && rules.excluded
            == Set::<Seq<char>>::empty() && rules.included == within,
        configured_rules(Some(exclusion), Some(seq![])) matches Ok(rules) && rules.excluded == out
            && rules.included == Set::<Seq<char>>::full(),
        configured_rules(Some(seq![]), Some(seq![])) matches Ok(rules) && rules.excluded
            == Set::<Seq<char>>::empty() && rules.included == Set::<Seq<char>>::full(),
{
}

/// Patterns are refused for a missing exclusion, then for an invalid one, then for a missing
/// inclusion, then for an invalid one, and for nothing else.
pub proof fn patterns_that_are_refused(exclusion: Option<Seq<char>>, inclusion: Option<Seq<char>>)
    ensures
        ({
            let rules = configured_rules(exclusion, inclusion);
            let bad_exclusion = exclusion is Some && exclusion->0.len() > 0 && verbose_pattern(
                exclusion->0,
                usize::BITS,
            ) is Err;
            let bad_inclusion = inclusion is Some && inclusion->0.len() > 0 && verbose_pattern(
                inclusion->0,
                usize::BITS,
            ) is Err;
            &&& exclusion is None ==> rules == Err::<Rules, _>(
                Failure::<regex::Error> { kind: ErrorKind::NoExclude, cause: None },
            )
            &&& bad_exclusion ==> rules == Err::<Rules, _>(
                Failure {
                    kind: ErrorKind::InvalidExclude,
                    cause: Some(verbose_pattern(exclusion->0, usize::BITS)->Err_0),
                },
            )
            &&& exclusion is Some && !bad_exclusion && inclusion is None ==> rules == Err::<
                Rules,
                _,
            >(Failure::<regex::Error> { kind: ErrorKind::NoInclude, cause: None })
            &&& exclusion is Some && !bad_exclusion && bad_inclusion ==> rules == Err::<Rules, _>(
                Failure {
                    kind: ErrorKind::InvalidInclude,
                    cause: Some(verbose_pattern(inclusion->0, usize::BITS)->Err_0),
                },
            )
            &&& exclusion is Some && !bad_exclusion && inclusion is Some && !bad_inclusion
                ==> rules is Ok
        }),
{
}

/// What is compiled from a pattern finds a match in exactly the texts that the pattern does.
pub proof fn compiled_patterns_mean_the_same(pattern: Option<Seq<char>>, compiled: Compiled)
    requires
        compiles_to(pattern, compiled),
    ensures
        compiled is Unset <==> pattern is None,
        compiled is Empty <==> pattern is Some && pattern->0.len() == 0,
        compiled matches Compiled::Valid(expression) ==> pattern is Some && verbose_pattern(
            pattern->0,
            usize::BITS,
        ) == Ok::<_, regex::Error>(matched_texts(expression)),
        compiled matches Compiled::Invalid(error) ==> pattern is Some && verbose_pattern(
            pattern->0,
            usize::BITS,
        ) == Err::<Set<Seq<char>>, _>(error),
{
}

/// Two compiled patterns can be put together unless one is missing or invalid, and each is
/// used as it is.
pub proof fn compiled_patterns_are_used(exclusion: Compiled, inclusion: Compiled)
    ensures
        obstacle(exclusion, inclusion) is None <==> !(exclusion is Unset || exclusion is Invalid
            || inclusion is Unset || inclusion is Invalid),
        exclusion is Unset ==> obstacle(exclusion, inclusion) == Some(
            Failure::<regex::Error> { kind: ErrorKind::NoExclude, cause: None },
        ),
        exclusion matches Compiled::Invalid(error) ==> obstacle(exclusion, inclusion) == Some(
            Failure { kind: ErrorKind::InvalidExclude, cause: Some(error) },
        ),
        !(exclusion is Unset || exclusion is Invalid) && inclusion is Unset ==> obstacle(
            exclusion,
            inclusion,
        ) == Some(Failure::<regex::Error> { kind: ErrorKind::NoInclude, cause: None }),
        !(exclusion is Unset || exclusion is Invalid) && inclusion is Invalid ==> obstacle(
            exclusion,
            inclusion,
        ) == Some(
            Failure { kind: ErrorKind::InvalidInclude, cause: Some(inclusion->Invalid_0) },
        ),
        exclusion matches Compiled::Valid(expression) ==> expression_in(exclusion) == Some(
            expression,
        ),
        !(exclusion is Valid) ==> expression_in(exclusion) is None,
{
}

} // verus!
