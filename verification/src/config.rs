//! The configuration, from the command line and from a file.

use vstd::prelude::*;

use crate::text::parse_number;
#[allow(unused_imports)]
use crate::text::number_in;

verus! {

/// The exclusion on the command line where none is given.
pub const DEFAULT_EXCLUDE: &'static str =
    r"/(\.eggs|\.git|\.hg|\.mypy_cache|\.nox|\.tox|\.venv|_build|buck-out|build|dist)/";

/// The inclusion on the command line where none is given.
pub const DEFAULT_INCLUDE: &'static str = r"\.pyi?$";

/// How Black is to format, as far as it is configured.
#[derive(Debug)]
pub struct BlackConfig {
    pub exclude: Option<String>,
    pub include_pattern: Option<String>,
    pub line_length: Option<u64>,
    pub target_version: Option<Vec<String>>,
    pub skip_string_normalization: Option<bool>,
    pub pyi: Option<bool>,
    pub fast: Option<bool>,
}

/// A `BlackConfig`, with its texts as characters.
#[verifier::ext_equal]
pub ghost struct BlackConfigView {
    pub exclude: Option<Seq<char>>,
    pub include_pattern: Option<Seq<char>>,
    pub line_length: Option<u64>,
    pub target_version: Option<Seq<Seq<char>>>,
    pub skip_string_normalization: Option<bool>,
    pub pyi: Option<bool>,
    pub fast: Option<bool>,
}

impl View for BlackConfig {
    type V = BlackConfigView;

    open spec fn view(&self) -> BlackConfigView {
        BlackConfigView {
            exclude: self.exclude.deep_view(),
            include_pattern: self.include_pattern.deep_view(),
            line_length: self.line_length,
            target_version: self.target_version.deep_view(),
            skip_string_normalization: self.skip_string_normalization,
            pyi: self.pyi,
            fast: self.fast,
        }
    }
}

/// The configuration in which nothing is set.
pub open spec fn unset() -> BlackConfigView {
    BlackConfigView {
        exclude: None,
        include_pattern: None,
        line_length: None,
        target_version: None,
        skip_string_normalization: None,
        pyi: None,
        fast: None,
    }
}

impl Default for BlackConfig {
    fn default() -> (config: Self)
        ensures
            config@ == unset(),
    {
        BlackConfig {
            exclude: None,
            include_pattern: None,
            line_length: None,
            target_version: None,
            skip_string_normalization: None,
            pyi: None,
            fast: None,
        }
    }
}

/// How the client itself is to behave.
#[derive(Debug)]
pub struct BlaccConfig {
    pub url: String,
    pub quiet: bool,
    pub verbosity: usize,
    pub srcs: Vec<String>,
}

/// What was given on the command line.
#[derive(Debug)]
pub struct Options {
    pub url: String,
    pub quiet: bool,
    /// How often more output was asked for.
    pub verbosity: u64,
    pub srcs: Option<Vec<String>>,
    pub exclude: Option<String>,
    pub include_pattern: Option<String>,
    pub line_length: Option<String>,
    pub target_version: Option<Vec<String>>,
    pub skip_string_normalization: bool,
    /// Whether sanity checks are to be skipped.
    pub fast: bool,
    /// Whether sanity checks are to be run.
    pub safe: bool,
}

/// Whether Black knows the Python version by that name.
pub open spec fn known_version(name: Seq<char>) -> bool {
    ||| name == "py27"@
    ||| name == "py33"@
    ||| name == "py34"@
    ||| name == "py35"@
    ||| name == "py36"@
    ||| name == "py37"@
    ||| name == "py38"@
}

/// Tells whether Black knows the Python version by that name.
pub fn is_known_version(name: &String) -> (known: bool)
    ensures
        known == known_version(name@),
{
    *name == "py27".to_owned() || *name == "py33".to_owned() || *name == "py34".to_owned()
        || *name == "py35".to_owned() || *name == "py36".to_owned() || *name == "py37".to_owned()
        || *name == "py38".to_owned()
}

impl Options {
    /// Whether the line length, if it is given, is a number, every target version is one that
    /// Black knows, and sanity checks are not both skipped and run.
    pub open spec fn valid(self) -> bool {
        &&& self.line_length matches Some(length) ==> number_in(length@) is Some
        &&& self.target_version matches Some(versions) ==> forall|i: int|
            0 <= i < versions.len() ==> known_version(#[trigger] versions[i]@)
        &&& !(self.fast && self.safe)
    }

    /// Tells whether the options are valid.
    pub fn is_valid(&self) -> (valid: bool)
        ensures
            valid == self.valid(),
    {
        if let Some(length) = &self.line_length {
            if parse_number(length.as_str()).is_none() {
                return false;
            }
        }
        if let Some(versions) = &self.target_version {
            for i in 0..versions.len()
                invariant
                    self.target_version == Some(*versions),
                    forall|k: int| 0 <= k < i ==> known_version(#[trigger] versions[k]@),
            {
                if !is_known_version(&versions[i]) {
                    assert(!known_version(self.target_version->0[i as int]@));
                    return false;
                }
            }
        }
        !(self.fast && self.safe)
    }
}

/// The pattern to use: the one given on the command line, unless that is the default and the
/// file configures one.
pub open spec fn chosen_pattern(
    given: Option<Seq<char>>,
    default: Seq<char>,
    configured: Option<Seq<char>>,
) -> Option<Seq<char>> {
    match given {
        Some(pattern) => if pattern != default || configured is None {
            given
        } else {
            configured
        },
        None => configured,
    }
}

/// The configuration of the file, overridden by the command line.
pub open spec fn overridden(file: BlackConfigView, options: Options) -> BlackConfigView {
    BlackConfigView {
        exclude: chosen_pattern(options.exclude.deep_view(), DEFAULT_EXCLUDE@, file.exclude),
        include_pattern: chosen_pattern(
            options.include_pattern.deep_view(),
            DEFAULT_INCLUDE@,
            file.include_pattern,
        ),
        line_length: match options.line_length {
            Some(length) => number_in(length@),
            None => file.line_length,
        },
        target_version: match options.target_version {
            Some(versions) => Some(versions.deep_view()),
            None => file.target_version,
        },
        skip_string_normalization: if options.skip_string_normalization {
            Some(true)
        } else {
            file.skip_string_normalization
        },
        pyi: file.pyi,
        fast: if options.fast {
            Some(true)
        } else if options.safe {
            Some(false)
        } else {
            file.fast
        },
    }
}

/// Chooses between a pattern given on the command line and one configured in the file.
fn choose_pattern(given: Option<String>, default: &str, configured: Option<String>) -> (chosen:
    Option<String>)
    ensures
        chosen.deep_view() == chosen_pattern(given.deep_view(), default@, configured.deep_view()),
{
    match given {
        Some(pattern) => if configured.is_none() || !(pattern == default.to_owned()) {
            Some(pattern)
        } else {
            configured
        },
        None => configured,
    }
}

/// Puts the configuration together from the command line and from the configuration in the
/// file, if one is named.
pub fn make_config(options: Options, file: Option<BlackConfig>) -> (configs: (
    BlaccConfig,
    BlackConfig,
))
    requires
        options.valid(),
    ensures
        configs.0.url@ == options.url@,
        configs.0.quiet == options.quiet,
        configs.0.verbosity == options.verbosity as usize,
        configs.0.srcs.deep_view() == match options.srcs {
            Some(srcs) => srcs.deep_view(),
            None => seq![],
        },
        configs.1@ == overridden(
            match file {
                Some(config) => config@,
                None => unset(),
            },
            options,
        ),
        options.line_length matches Some(length) ==> configs.1.line_length == number_in(length@),
        options.target_version is Some ==> configs.1.target_version == options.target_version,
        options.skip_string_normalization ==> configs.1.skip_string_normalization == Some(true),
        options.fast ==> configs.1.fast == Some(true),
        options.safe ==> configs.1.fast == Some(false),
{
    let mut config = match file {
        Some(config) => config,
        None => BlackConfig::default(),
    };
    config.exclude = choose_pattern(options.exclude, DEFAULT_EXCLUDE, config.exclude);
    config.include_pattern =
    choose_pattern(options.include_pattern, DEFAULT_INCLUDE, config.include_pattern);
    if let Some(length) = &options.line_length {
        config.line_length = parse_number(length.as_str());
    }
    if options.target_version.is_some() {
        config.target_version = options.target_version;
    }
    if options.skip_string_normalization {
        config.skip_string_normalization = Some(true);
    }
    if options.fast {
        config.fast = Some(true);
    } else if options.safe {
        config.fast = Some(false);
    }
    let srcs = match options.srcs {
        Some(srcs) => srcs,
        None => Vec::new(),
    };
    let blacc = BlaccConfig {
        url: options.url,
        quiet: options.quiet,
        verbosity: options.verbosity as usize,
        srcs,
    };
    (blacc, config)
}

/// A pattern on the command line that is not the default is used, whatever the file says.
pub proof fn explicit_pattern_is_used(
    pattern: Seq<char>,
    default: Seq<char>,
    configured: Option<Seq<char>>,
)
    requires
        pattern != default,
    ensures
        chosen_pattern(Some(pattern), default, configured) == Some(pattern),
{
}

/// A pattern in the file is used where the command line gives none, or the default.
pub proof fn configured_pattern_beats_the_default(
    given: Option<Seq<char>>,
    default: Seq<char>,
    pattern: Seq<char>,
)
    requires
        given is None || given == Some(default),
    ensures
        chosen_pattern(given, default, Some(pattern)) == Some(pattern),
{
}

/// Where the command line gives both patterns, be it the defaults, both are set in the end.
pub proof fn given_patterns_are_set(file: BlackConfigView, options: Options)
    requires
        options.exclude is Some,
        options.include_pattern is Some,
    ensures
        overridden(file, options).exclude is Some,
        overridden(file, options).include_pattern is Some,
{
}

/// Whether sanity checks are run is up to the command line, where it says so.
pub proof fn sanity_checks_follow_the_command_line(file: BlackConfigView, options: Options)
    requires
        options.valid(),
    ensures
        options.fast ==> overridden(file, options).fast == Some(true),
        options.safe ==> overridden(file, options).fast == Some(false),
{
}

/// What the command line does not mention stays as the file has it.
pub proof fn unmentioned_settings_stay(file: BlackConfigView, options: Options)
    ensures
        options.exclude is None ==> overridden(file, options).exclude == file.exclude,
        options.include_pattern is None ==> overridden(file, options).include_pattern
            == file.include_pattern,
        options.line_length is None ==> overridden(file, options).line_length == file.line_length,
        options.target_version is None ==> overridden(file, options).target_version
            == file.target_version,
        !options.skip_string_normalization ==> overridden(file, options).skip_string_normalization
            == file.skip_string_normalization,
        overridden(file, options).pyi == file.pyi,
        !options.fast && !options.safe ==> overridden(file, options).fast == file.fast,
{
}

/// The view of a configuration shows each setting.
pub proof fn the_view_shows_every_setting(config: BlackConfig)
    ensures
        config.exclude matches Some(pattern) ==> config@.exclude == Some(pattern@),
        config.exclude is None ==> config@.exclude is None,
        config.include_pattern matches Some(pattern) ==> config@.include_pattern == Some(pattern@),
        config.include_pattern is None ==> config@.include_pattern is None,
        config@.line_length == config.line_length,
        config.target_version matches Some(versions) ==> {
            &&& config@.target_version matches Some(names)
            &&& names.len() == versions.len()
            &&& forall|i: int| 0 <= i < versions.len() ==> #[trigger] names[i] == versions[i]@
        },
        config.target_version is None ==> config@.target_version is None,
        config@.skip_string_normalization == config.skip_string_normalization,
        config@.pyi == config.pyi,
        config@.fast == config.fast,
{
}

/// In the configuration in which nothing is set, no setting is.
pub proof fn nothing_is_set_by_default()
    ensures
        unset().exclude is None,
        unset().include_pattern is None,
        unset().line_length is None,
        unset().target_version is None,
        unset().skip_string_normalization is None,
        unset().pyi is None,
        unset().fast is None,
{
}

/// Whatever the file says, an option that is given decides its setting: a number given as
/// the line length is the line length, the target versions given are the target versions,
/// and the flags set what they name.
pub proof fn given_options_decide(file: BlackConfigView, options: Options)
    requires
        options.valid(),
    ensures
        options.line_length matches Some(length) ==> {
            &&& number_in(length@) matches Some(n)
            &&& overridden(file, options).line_length == Some(n)
        },
        options.target_version matches Some(versions) ==> {
            &&& overridden(file, options).target_version matches Some(names)
            &&& names.len() == versions.len()
            &&& forall|i: int| 0 <= i < versions.len() ==> #[trigger] names[i] == versions[i]@
        },
        options.skip_string_normalization ==> overridden(file, options).skip_string_normalization
            == Some(true),
        options.fast ==> overridden(file, options).fast == Some(true),
        options.safe ==> overridden(file, options).fast == Some(false),
{
}

/// An exclusion on the command line that is not the default is used whatever the file says.
/// Otherwise the file's is used, and where the file has none, what the command line gives.
pub proof fn exclusion_of_the_command_line_and_the_file(file: BlackConfigView, options: Options)
    ensures
        options.exclude matches Some(pattern) ==> pattern@ != DEFAULT_EXCLUDE@ ==> overridden(
            file,
            options,
        ).exclude == Some(pattern@),
        options.exclude matches Some(pattern) ==> pattern@ == DEFAULT_EXCLUDE@ ==> file.exclude
            is Some ==> overridden(file, options).exclude == file.exclude,
        options.exclude matches Some(pattern) ==> file.exclude is None ==> overridden(
            file,
            options,
        ).exclude == Some(pattern@),
        options.exclude is None ==> overridden(file, options).exclude == file.exclude,
{
}

/// An inclusion on the command line that is not the default is used whatever the file says.
/// Otherwise the file's is used, and where the file has none, what the command line gives.
pub proof fn inclusion_of_the_command_line_and_the_file(file: BlackConfigView, options: Options)
    ensures
        options.include_pattern matches Some(pattern) ==> pattern@ != DEFAULT_INCLUDE@
            ==> overridden(file, options).include_pattern == Some(pattern@),
        options.include_pattern matches Some(pattern) ==> pattern@ == DEFAULT_INCLUDE@
            ==> file.include_pattern is Some ==> overridden(file, options).include_pattern
            == file.include_pattern,
        options.include_pattern matches Some(pattern) ==> file.include_pattern is None
            ==> overridden(file, options).include_pattern == Some(pattern@),
        options.include_pattern is None ==> overridden(file, options).include_pattern
            == file.include_pattern,
{
}

/// Two files make no difference to a setting that the command line decides.
pub proof fn files_do_not_matter_for_given_options(
    one: BlackConfigView,
    other: BlackConfigView,
    options: Options,
)
    ensures
        options.exclude matches Some(pattern) ==> pattern@ != DEFAULT_EXCLUDE@ ==> overridden(
            one,
            options,
        ).exclude == overridden(other, options).exclude,
        options.include_pattern matches Some(pattern) ==> pattern@ != DEFAULT_INCLUDE@
            ==> overridden(one, options).include_pattern == overridden(
            other,
            options,
        ).include_pattern,
        options.line_length is Some ==> overridden(one, options).line_length == overridden(
            other,
            options,
        ).line_length,
        options.target_version is Some ==> overridden(one, options).target_version == overridden(
            other,
            options,
        ).target_version,
        options.skip_string_normalization ==> overridden(one, options).skip_string_normalization
            == overridden(other, options).skip_string_normalization,
        options.fast || options.safe ==> overridden(one, options).fast == overridden(
            other,
            options,
        ).fast,
{
}

/// Where the file configures no pattern, what the command line gives is used.
pub proof fn unconfigured_pattern_is_as_given(given: Option<Seq<char>>, default: Seq<char>)
    ensures
        chosen_pattern(given, default, None) == given,
{
}

/// The known versions are `py27` and `py33` to `py38`.
pub proof fn known_versions_by_digits(name: Seq<char>)
    ensures
        known_version(name) <==> {
            &&& name.len() == 4
            &&& name[0] == 'p'
            &&& name[1] == 'y'
            &&& (name[2] == '2' && name[3] == '7') || (name[2] == '3' && '3' <= name[3] <= '8')
        },
{
    reveal_strlit("py27");
    reveal_strlit("py33");
    reveal_strlit("py34");
    reveal_strlit("py35");
    reveal_strlit("py36");
    reveal_strlit("py37");
    reveal_strlit("py38");
    if name.len() == 4 {
        assert(name == seq![name[0], name[1], name[2], name[3]]);
        assert("py27"@ == seq!['p', 'y', '2', '7']);
        assert("py33"@ == seq!['p', 'y', '3', '3']);
        assert("py34"@ == seq!['p', 'y', '3', '4']);
        assert("py35"@ == seq!['p', 'y', '3', '5']);
        assert("py36"@ == seq!['p', 'y', '3', '6']);
        assert("py37"@ == seq!['p', 'y', '3', '7']);
        assert("py38"@ == seq!['p', 'y', '3', '8']);
    }
}

/// Options are turned down for a line length that is no number, a version that is not known,
/// or both flags for sanity checks, and for nothing else.
pub proof fn what_makes_options_invalid(options: Options)
    ensures
        !options.valid() <==> {
            ||| options.line_length is Some && number_in(options.line_length->0@) is None
            ||| options.target_version is Some && exists|i: int|
                0 <= i < options.target_version->0.len() && !known_version(
                    #[trigger] options.target_version->0[i]@,
                )
            ||| options.fast && options.safe
        },
{
}

} // verus!
