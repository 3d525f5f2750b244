//! The run's configuration, as the command line gives it.

use crate::text::same_text;
use glob::Pattern;
use glob::PatternError;
use vstd::prelude::*;
use vstd::string::StringExecFns;

verus! {

/// A compiled glob pattern. Its contents are not visible to the verifier.
#[verifier::external_type_specification]
#[verifier::external_body]
pub struct ExPattern(glob::Pattern);

/// Why a glob pattern did not compile. Its contents are not visible to the
/// verifier.
#[verifier::external_type_specification]
#[verifier::external_body]
pub struct ExPatternError(glob::PatternError);

/// Which of the versions that the report offers a dependency is moved to.
#[derive(PartialEq, Eq, Debug, Clone, Copy, Structural)]
pub enum UpgradeStyle {
    /// The newest version published, whatever the declared range.
    Latest,
    /// The newest version inside the declared range.
    Wanted,
}

/// Where an output stream of the install step goes.
#[derive(PartialEq, Eq, Debug, Clone, Copy, Structural)]
pub enum OutputMethod {
    /// The stream is discarded.
    Null,
    /// The stream is the one of the calling process.
    Inherit,
}

/// The switches of the command line.
#[derive(Debug, Default)]
pub struct Args {
    /// Move dependencies to the latest version, major changes included.
    pub latest: bool,
    /// Move to the latest patch version only.
    pub patch: bool,
    /// Hand `--legacy-peer-deps` to the install step.
    pub legacy_peer_deps: bool,
    /// Show what the install step prints.
    pub verbose: bool,
    /// List what would be moved, and move nothing.
    pub dry_run: bool,
    /// Move only the dependencies whose name matches this glob pattern.
    pub include_glob: Option<String>,
}

/// The configuration of one run.
#[derive(Debug)]
pub struct Config {
    /// Arguments handed to the install step after the install directives.
    pub additional_install_args: Vec<String>,
    /// The name of the directory of the project that is being updated, where known.
    pub current_dir_name: Option<String>,
    /// The pattern that a dependency's name has to match, if any.
    pub include_glob: Option<Pattern>,
    /// Whether the run only lists what it would do.
    pub is_dry_run: bool,
    /// Whether the run moves to patch versions only.
    pub is_patch_mode: bool,
    /// Where the install step's error stream goes.
    pub stderr_method: OutputMethod,
    /// Where the install step's output stream goes.
    pub stdout_method: OutputMethod,
    /// Which version dependencies are moved to.
    pub upgrade_style: UpgradeStyle,
}

/// What a `Config` holds, with strings as character sequences.
pub struct ConfigView {
    pub additional_install_args: Seq<Seq<char>>,
    pub current_dir_name: Option<Seq<char>>,
    pub include_glob: Option<Pattern>,
    pub is_dry_run: bool,
    pub is_patch_mode: bool,
    pub stderr_method: OutputMethod,
    pub stdout_method: OutputMethod,
    pub upgrade_style: UpgradeStyle,
}

impl View for Config {
    type V = ConfigView;

    open spec fn view(&self) -> ConfigView {
        ConfigView {
            additional_install_args: self.additional_install_args.deep_view(),
            current_dir_name: self.current_dir_name.deep_view(),
            include_glob: self.include_glob,
            is_dry_run: self.is_dry_run,
            is_patch_mode: self.is_patch_mode,
            stderr_method: self.stderr_method,
            stdout_method: self.stdout_method,
            upgrade_style: self.upgrade_style,
        }
    }
}

/// The configuration that the switches `args` ask for, in the project
/// directory `current_dir_name` and with the name filter `include_glob`.
pub open spec fn configured(
    args: Args,
    current_dir_name: Option<Seq<char>>,
    include_glob: Option<Pattern>,
) -> ConfigView {
    ConfigView {
        additional_install_args: if args.legacy_peer_deps {
            seq!["--legacy-peer-deps"@]
        } else {
            Seq::empty()
        },
        current_dir_name,
        include_glob,
        is_dry_run: args.dry_run,
        is_patch_mode: args.patch,
        stderr_method: if args.verbose {
            OutputMethod::Inherit
        } else {
            OutputMethod::Null
        },
        stdout_method: if args.verbose {
            OutputMethod::Inherit
        } else {
            OutputMethod::Null
        },
        upgrade_style: if args.latest {
            UpgradeStyle::Latest
        } else {
            UpgradeStyle::Wanted
        },
    }
}

/// The text that a compiled pattern was compiled from: what
/// `glob::Pattern::as_str` gives.
pub uninterp spec fn pattern_text(pattern: Pattern) -> Seq<char>;

/// Whether `pattern` holds no opening bracket and no two stars in a row.
/// Such a pattern is made of plain characters, `?` and single `*` alone.
pub open spec fn is_plain_glob(pattern: Seq<char>) -> bool {
    &&& !pattern.contains('[')
    &&& forall|i: int|
        0 <= i < pattern.len() - 1 ==> !(#[trigger] pattern[i] == '*' && pattern[i + 1] == '*')
}

/// Calls `glob::Pattern::new`, which compiles a glob pattern. A pattern
/// that compiled holds the text it was compiled from, and a pattern
/// without a bracket and without two stars in a row always compiles. Of
/// any other pattern nothing is claimed: whether `**` is accepted depends
/// on what the platform takes for a path separator.
#[verifier::external_body]
fn compile_glob(pattern: &str) -> (compiled: Result<Pattern, PatternError>)
    ensures
        compiled matches Ok(found) ==> pattern_text(found) == pattern@,
        is_plain_glob(pattern@) ==> compiled is Ok,
{
    Pattern::new(pattern)
}

/// Whether `filter` can be the name filter of a run that was given the
/// pattern `given`: none where none was given; else the compiled form of
/// that pattern, or none where the pattern did not compile, which a plain
/// pattern always does.
pub open spec fn is_filter_for(filter: Option<Pattern>, given: Option<Seq<char>>) -> bool {
    match given {
        Some(text) => match filter {
            Some(found) => pattern_text(found) == text,
            None => !is_plain_glob(text),
        },
        None => filter is None,
    }
}

/// Calls `glob::Pattern::matches`, which says whether `name` as a whole
/// matches the pattern. Nothing is claimed of the answer: what `**` matches
/// depends on what the platform takes for a path separator.
#[verifier::external_body]
pub(crate) fn glob_matches(pattern: &Pattern, name: &str) -> (matches: bool) {
    pattern.matches(name)
}

/// Whether two compiled patterns are equal: what the `==` of
/// `glob::Pattern` gives, which compares all that the patterns hold.
pub uninterp spec fn pattern_eq(a: Pattern, b: Pattern) -> bool;

/// Calls the `==` of `glob::Pattern`.
#[verifier::external_body]
fn same_pattern(a: &Pattern, b: &Pattern) -> (r: bool)
    ensures
        r == pattern_eq(*a, *b),
{
    a == b
}

/// The name filter that a compilation leaves: the pattern where it
/// compiled, none where it did not.
pub fn include_filter(compiled: Result<Pattern, PatternError>) -> (filter: Option<Pattern>)
    ensures
        filter == match compiled {
            Ok(pattern) => Some(pattern),
            Err(_) => None::<Pattern>,
        },
{
    match compiled {
        Ok(pattern) => Some(pattern),
        Err(_) => None,
    }
}

/// Whether two lists hold the same strings in the same order.
fn same_strings(a: &Vec<String>, b: &Vec<String>) -> (r: bool)
    ensures
        r == (a.deep_view() == b.deep_view()),
{
    if a.len() != b.len() {
        assert(a.deep_view().len() == a.len() && b.deep_view().len() == b.len());
        return false;
    }
    let mut i: usize = 0;
    while i < a.len()
        invariant
            i <= a.len() == b.len(),
            forall|j: int| 0 <= j < i ==> a@[j]@ == b@[j]@,
        decreases a.len() - i,
    {
        if a[i] != b[i] {
            assert(a.deep_view()[i as int] == a@[i as int]@);
            assert(b.deep_view()[i as int] == b@[i as int]@);
            return false;
        }
        i = i + 1;
    }
    assert(a.deep_view() =~= b.deep_view());
    true
}

/// Whether `word` is the switch written `long` or `short`.
pub open spec fn is_switch(word: Seq<char>, long: Seq<char>, short: Seq<char>) -> bool {
    word == long || word == short
}

/// Whether one of `flags` is the switch written `long` or `short`.
pub open spec fn has_flag(flags: Seq<Seq<char>>, long: Seq<char>, short: Seq<char>) -> bool {
    exists|i: int| 0 <= i < flags.len() && is_switch(#[trigger] flags[i], long, short)
}

/// The extra install arguments that the words `flags` ask for: one
/// `--legacy-peer-deps` for each word that is that switch.
pub open spec fn legacy_arguments(flags: Seq<Seq<char>>) -> Seq<Seq<char>>
    decreases flags.len(),
{
    if flags.len() == 0 {
        Seq::empty()
    } else if is_switch(flags.last(), "--legacy-peer-deps"@, "-lpd"@) {
        legacy_arguments(flags.drop_last()).push("--legacy-peer-deps"@)
    } else {
        legacy_arguments(flags.drop_last())
    }
}

/// The configuration that the words `flags` of a command line ask for,
/// where the words are read one by one and a word that is no switch is
/// passed over. The project directory is unknown and there is no name
/// filter.
pub open spec fn configured_by_flags(flags: Seq<Seq<char>>) -> ConfigView {
    ConfigView {
        additional_install_args: legacy_arguments(flags),
        current_dir_name: None,
        include_glob: None,
        is_dry_run: false,
        is_patch_mode: false,
        stderr_method: if has_flag(flags, "--verbose"@, "-vb"@) {
            OutputMethod::Inherit
        } else {
            OutputMethod::Null
        },
        stdout_method: if has_flag(flags, "--verbose"@, "-vb"@) {
            OutputMethod::Inherit
        } else {
            OutputMethod::Null
        },
        upgrade_style: if has_flag(flags, "--latest"@, "-l"@) {
            UpgradeStyle::Latest
        } else {
            UpgradeStyle::Wanted
        },
    }
}

/// A switch is among the first `i + 1` words where it is among the first
/// `i` or is the word at `i`.
proof fn lemma_has_flag_step(words: Seq<Seq<char>>, i: int, long: Seq<char>, short: Seq<char>)
    requires
        0 <= i < words.len(),
    ensures
        has_flag(words.take(i + 1), long, short) == (has_flag(words.take(i), long, short)
            || is_switch(words[i], long, short)),
{
    let before = words.take(i);
    let upto = words.take(i + 1);
    if has_flag(upto, long, short) {
        let k = choose|k: int| 0 <= k < upto.len() && is_switch(#[trigger] upto[k], long, short);
        if k < i {
            assert(before[k] == upto[k]);
        }
    }
    if has_flag(before, long, short) {
        let k = choose|k: int|
            0 <= k < before.len() && is_switch(#[trigger] before[k], long, short);
        assert(upto[k] == before[k]);
    }
    if is_switch(words[i], long, short) {
        assert(upto[i] == words[i]);
    }
}

impl Config {
    /// The configuration that the switches ask for, for a project in the
    /// directory named `current_dir_name`.
    ///
    /// The name filter is the given pattern compiled. A pattern that does
    /// not compile leaves the run without a name filter, as if none had
    /// been given.
    pub fn new_from_args(args: Args, current_dir_name: Option<String>) -> (config: Config)
        ensures
            config@ == configured(args, current_dir_name.deep_view(), config.include_glob),
            is_filter_for(config.include_glob, args.include_glob.deep_view()),
    {
        let include_glob = match &args.include_glob {
            Some(pattern) => include_filter(compile_glob(pattern.as_str())),
            None => None,
        };
        Self::with_filter(args, current_dir_name, include_glob)
    }

    /// The configuration that the words of a command line ask for. The
    /// switches are `--latest` (`-l`), `--legacy-peer-deps` (`-lpd`) and
    /// `--verbose` (`-vb`); any other word is passed over. Each
    /// `--legacy-peer-deps` is handed on to the install step.
    pub fn new_from_flags(flags: Vec<String>) -> (config: Config)
        ensures
            config@ == configured_by_flags(flags.deep_view()),
    {
        let mut stderr_method = OutputMethod::Null;
        let mut additional_install_args: Vec<String> = Vec::new();
        let mut upgrade_style = UpgradeStyle::Wanted;
        let mut stdout_method = OutputMethod::Null;
        let ghost words = flags.deep_view();
        let mut i: usize = 0;
        assert(words.take(0) =~= Seq::<Seq<char>>::empty());
        assert(additional_install_args.deep_view() =~= legacy_arguments(words.take(0)));
        while i < flags.len()
            invariant
                i <= flags.len(),
                words == flags.deep_view(),
                additional_install_args.deep_view() == legacy_arguments(words.take(i as int)),
                (upgrade_style == UpgradeStyle::Latest) == has_flag(
                    words.take(i as int),
                    "--latest"@,
                    "-l"@,
                ),
                upgrade_style == UpgradeStyle::Latest || upgrade_style == UpgradeStyle::Wanted,
                (stdout_method == OutputMethod::Inherit) == has_flag(
                    words.take(i as int),
                    "--verbose"@,
                    "-vb"@,
                ),
                stderr_method == stdout_method,
            decreases flags.len() - i,
        {
            let arg = flags[i].as_str();
            let ghost before = additional_install_args.deep_view();
            proof {
                assert(words[i as int] == arg@);
                assert(words.take(i + 1).drop_last() =~= words.take(i as int));
                assert(words.take(i + 1).last() == words[i as int]);
                lemma_has_flag_step(words, i as int, "--latest"@, "-l"@);
                lemma_has_flag_step(words, i as int, "--verbose"@, "-vb"@);
            }
            if same_text(arg, "--latest") || same_text(arg, "-l") {
                upgrade_style = UpgradeStyle::Latest;
            }
            if same_text(arg, "--legacy-peer-deps") || same_text(arg, "-lpd") {
                additional_install_args.push(String::from_str("--legacy-peer-deps"));
                assert(additional_install_args.deep_view() =~= before.push(
                    "--legacy-peer-deps"@,
                ));
            }
            if same_text(arg, "--verbose") || same_text(arg, "-vb") {
                stdout_method = OutputMethod::Inherit;
                stderr_method = OutputMethod::Inherit;
            }
            i = i + 1;
        }
        assert(words.take(flags.len() as int) =~= words);
        Config {
            additional_install_args,
            current_dir_name: None,
            include_glob: None,
            is_dry_run: false,
            is_patch_mode: false,
            stderr_method,
            stdout_method,
            upgrade_style,
        }
    }

    /// The configuration that the switches ask for, with the name filter
    /// `include_glob` in place of the one that the switches name.
    pub fn with_filter(
        args: Args,
        current_dir_name: Option<String>,
        include_glob: Option<Pattern>,
    ) -> (config: Config)
        ensures
            config@ == configured(args, current_dir_name.deep_view(), include_glob),
    {
        let mut additional_install_args: Vec<String> = Vec::new();
        let mut stderr_method = OutputMethod::Null;
        let mut stdout_method = OutputMethod::Null;
        let mut upgrade_style = UpgradeStyle::Wanted;
        if args.latest {
            upgrade_style = UpgradeStyle::Latest;
        }
        if args.verbose {
            stdout_method = OutputMethod::Inherit;
            stderr_method = OutputMethod::Inherit;
        }
        if args.legacy_peer_deps {
            additional_install_args.push(String::from_str("--legacy-peer-deps"));
        }
        let config = Config {
            additional_install_args,
            current_dir_name,
            include_glob,
            is_dry_run: args.dry_run,
            is_patch_mode: args.patch,
            stderr_method,
            stdout_method,
            upgrade_style,
        };
        assert(config@.additional_install_args =~= configured(
            args,
            current_dir_name.deep_view(),
            include_glob,
        ).additional_install_args);
        config
    }
}

/// Two configurations are equal where they hold the same install
/// arguments, directory name, dry-run and patch-mode switches and upgrade
/// style, and have name filters that `glob` calls equal, or none. Where
/// the output streams go does not tell two configurations apart.
impl PartialEq for Config {
    fn eq(&self, other: &Self) -> (r: bool) {
        let a = same_strings(&self.additional_install_args, &other.additional_install_args);
        let cdr = match (&self.current_dir_name, &other.current_dir_name) {
            (Some(x), Some(y)) => same_text(x.as_str(), y.as_str()),
            (None, None) => true,
            _ => false,
        };
        let dr = self.is_dry_run == other.is_dry_run;
        let pm = self.is_patch_mode == other.is_patch_mode;
        let u = self.upgrade_style == other.upgrade_style;
        let i = match (&self.include_glob, &other.include_glob) {
            (Some(x), Some(y)) => same_pattern(x, y),
            (None, None) => true,
            _ => false,
        };
        a && cdr && dr && pm && u && i
    }
}

impl vstd::std_specs::cmp::PartialEqSpecImpl for Config {
    open spec fn obeys_eq_spec() -> bool {
        true
    }

    open spec fn eq_spec(&self, other: &Self) -> bool {
        &&& self@.additional_install_args == other@.additional_install_args
        &&& self@.current_dir_name == other@.current_dir_name
        &&& self.is_dry_run == other.is_dry_run
        &&& self.is_patch_mode == other.is_patch_mode
        &&& self.upgrade_style == other.upgrade_style
        &&& match (self.include_glob, other.include_glob) {
            (Some(a), Some(b)) => pattern_eq(a, b),
            (None, None) => true,
            _ => false,
        }
    }
}

} // verus!
