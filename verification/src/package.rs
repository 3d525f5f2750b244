//! A dependency that the report calls outdated, and what is done about it.

use crate::npm_cmd::PackageValue;
use crate::npm_cmd::PackageValueView;
use crate::record::parse_line;
use crate::record::record_of;
use crate::utility::Config;
use crate::utility::UpgradeStyle;
use vstd::prelude::*;
use vstd::string::StringExecFns;

verus! {

/// The input could not be read as an entry of the outdated report.
#[derive(Clone, Debug, PartialEq, Eq, Structural)]
pub struct ParseError;

impl ParseError {
    /// The words that describe the error.
    pub fn message(&self) -> (r: String)
        ensures
            r@ == "Unable to parse input"@,
    {
        String::from_str("Unable to parse input")
    }
}

/// How far an upgrade reaches.
#[derive(Clone, Copy, Debug, PartialEq, Eq, Structural)]
pub enum UpgradeType {
    /// The target lies inside the version range that the project declares.
    Safe,
    /// The target lies outside that range and may break the project.
    Major,
}

/// An outdated dependency, with what the run does about it.
#[derive(Debug, PartialEq, Eq)]
pub struct Package {
    /// The version that is installed, or `MISSING`.
    pub current_version: String,
    /// What the install step is handed: the name, `@`, the target version.
    pub install_cmd: String,
    /// The name of the directory whose project depends on the package.
    pub install_dir_name: String,
    /// The newest version published.
    pub latest_version: String,
    /// The dependency's name, with its scope where it has one.
    pub name: String,
    /// Whether the run leaves the dependency as it is.
    pub skip: bool,
    /// How far the upgrade reaches.
    pub upgrade_type: UpgradeType,
    /// The newest version inside the declared range.
    pub wanted_version: String,
}

/// What a `Package` holds, with strings as character sequences.
pub struct PackageView {
    pub current_version: Seq<char>,
    pub install_cmd: Seq<char>,
    pub install_dir_name: Seq<char>,
    pub latest_version: Seq<char>,
    pub name: Seq<char>,
    pub skip: bool,
    pub upgrade_type: UpgradeType,
    pub wanted_version: Seq<char>,
}

impl View for Package {
    type V = PackageView;

    open spec fn view(&self) -> PackageView {
        PackageView {
            current_version: self.current_version@,
            install_cmd: self.install_cmd@,
            install_dir_name: self.install_dir_name@,
            latest_version: self.latest_version@,
            name: self.name@,
            skip: self.skip,
            upgrade_type: self.upgrade_type,
            wanted_version: self.wanted_version@,
        }
    }
}

impl DeepView for Package {
    type V = PackageView;

    open spec fn deep_view(&self) -> PackageView {
        self@
    }
}

/// The version that a dependency is moved to.
pub open spec fn target_version(style: UpgradeStyle, value: PackageValueView) -> Seq<char> {
    match style {
        UpgradeStyle::Latest => value.latest,
        UpgradeStyle::Wanted => value.wanted,
    }
}

/// What the install step is handed for a dependency: `name@target`.
pub open spec fn install_directive(name: Seq<char>, target: Seq<char>) -> Seq<char> {
    name + seq!['@'] + target
}

/// How far the upgrade reaches. Moving to the wanted version stays inside
/// the declared range. Moving to the latest version stays inside it only
/// where the latest version is the wanted one.
pub open spec fn severity(style: UpgradeStyle, value: PackageValueView) -> UpgradeType {
    match style {
        UpgradeStyle::Wanted => UpgradeType::Safe,
        UpgradeStyle::Latest => if value.wanted == value.latest {
            UpgradeType::Safe
        } else {
            UpgradeType::Major
        },
    }
}

/// Whether the dependency belongs to another project of the workspace than
/// the one in `project_dir`. An unknown project directory matches nothing.
pub open spec fn is_workspace_dependency(
    value: PackageValueView,
    project_dir: Option<Seq<char>>,
) -> bool {
    project_dir != Some(value.dependent)
}

/// Whether the dependency is left as it is: the target version is
/// installed already, or the dependency belongs to another project.
pub open spec fn should_skip(
    style: UpgradeStyle,
    value: PackageValueView,
    project_dir: Option<Seq<char>>,
) -> bool {
    value.current == target_version(style, value) || is_workspace_dependency(value, project_dir)
}

/// The package that the report entry `value` for the dependency `name`
/// makes under the given policy.
pub open spec fn classified(
    name: Seq<char>,
    value: PackageValueView,
    style: UpgradeStyle,
    project_dir: Option<Seq<char>>,
) -> PackageView {
    PackageView {
        current_version: value.current,
        install_cmd: install_directive(name, target_version(style, value)),
        install_dir_name: value.dependent,
        latest_version: value.latest,
        name,
        skip: should_skip(style, value, project_dir),
        upgrade_type: severity(style, value),
        wanted_version: value.wanted,
    }
}

/// Classification is a function of the record and the policy: two
/// packages made of the same name and entry under the same policy hold
/// the same.
pub proof fn lemma_classification_is_a_function(
    first: Package,
    second: Package,
    name: Seq<char>,
    value: PackageValueView,
    style: UpgradeStyle,
    project_dir: Option<Seq<char>>,
)
    requires
        first@ == classified(name, value, style, project_dir),
        second@ == classified(name, value, style, project_dir),
    ensures
        first@ == second@,
        first.skip == second.skip,
        first.upgrade_type == second.upgrade_type,
{
}

/// The skip rule. A dependency whose target version is installed is
/// skipped, whatever its directory. One that belongs to another directory
/// than the project's, or whose project directory is unknown, is skipped,
/// whatever its versions. One in the project's own directory with another
/// version installed than the target is not.
pub proof fn lemma_skip_rule(
    name: Seq<char>,
    value: PackageValueView,
    style: UpgradeStyle,
    project_dir: Option<Seq<char>>,
)
    ensures
        value.current == target_version(style, value) ==> classified(
            name,
            value,
            style,
            project_dir,
        ).skip,
        project_dir != Some(value.dependent) ==> classified(name, value, style, project_dir).skip,
        project_dir is None ==> classified(name, value, style, project_dir).skip,
        value.current != target_version(style, value) && project_dir == Some(value.dependent)
            ==> !classified(name, value, style, project_dir).skip,
{
}

/// The severity rule. Moving to the wanted version is always safe. Moving
/// to the latest version is safe where it is the wanted one, and major
/// where it is not.
pub proof fn lemma_severity_rule(
    name: Seq<char>,
    value: PackageValueView,
    project_dir: Option<Seq<char>>,
)
    ensures
        classified(name, value, UpgradeStyle::Wanted, project_dir).upgrade_type
            == UpgradeType::Safe,
        value.wanted == value.latest ==> classified(
            name,
            value,
            UpgradeStyle::Latest,
            project_dir,
        ).upgrade_type == UpgradeType::Safe,
        value.wanted != value.latest ==> classified(
            name,
            value,
            UpgradeStyle::Latest,
            project_dir,
        ).upgrade_type == UpgradeType::Major,
{
}

/// The install directive names the target version: it is the name, one
/// `@`, and the wanted or the latest version as the policy says.
pub proof fn lemma_install_directive(
    name: Seq<char>,
    value: PackageValueView,
    project_dir: Option<Seq<char>>,
)
    ensures
        classified(name, value, UpgradeStyle::Wanted, project_dir).install_cmd == name + seq!['@']
            + value.wanted,
        classified(name, value, UpgradeStyle::Latest, project_dir).install_cmd == name + seq!['@']
            + value.latest,
{
}

impl Package {
    /// Makes the package of a structured report entry. An empty name is an
    /// error, and the only one.
    pub fn new(package_name: String, package_value: &PackageValue, config: &Config) -> (r: Result<
        Package,
        ParseError,
    >)
        ensures
            match r {
                Ok(package) => package_name@.len() > 0 && package@ == classified(
                    package_name@,
                    package_value@,
                    config.upgrade_style,
                    config.current_dir_name.deep_view(),
                ),
                Err(_) => package_name@.len() == 0,
            },
    {
        if package_name.as_str().is_empty() {
            return Err(ParseError);
        }
        Ok(Self::classify(package_name, package_value, config))
    }

    /// Makes the package of one line of the report. The line is an error
    /// exactly where it describes no record.
    pub fn from_line(line: &str, config: &Config) -> (r: Result<Package, ParseError>)
        ensures
            match record_of(line@) {
                Some(record) => r matches Ok(package) && package@ == classified(
                    record.0,
                    record.1,
                    config.upgrade_style,
                    config.current_dir_name.deep_view(),
                ),
                None => r is Err,
            },
    {
        match parse_line(line) {
            Ok(record) => Ok(Self::classify(record.0, &record.1, config)),
            Err(e) => Err(e),
        }
    }

    /// Decides what is done about the dependency `name` with the report
    /// entry `value`.
    pub fn classify(name: String, value: &PackageValue, config: &Config) -> (package: Package)
        ensures
            package@ == classified(
                name@,
                value@,
                config.upgrade_style,
                config.current_dir_name.deep_view(),
            ),
    {
        let wanted_version = value.wanted.clone();
        let current_version = value.current.clone();
        let latest_version = value.latest.clone();
        let install_dir_name = value.dependent.clone();
        let upgrade_string = match config.upgrade_style {
            UpgradeStyle::Latest => latest_version.clone(),
            UpgradeStyle::Wanted => wanted_version.clone(),
        };
        proof {
            reveal_strlit("@");
        }
        let install_cmd = name.clone().concat("@").concat(upgrade_string.as_str());
        assert(install_cmd@ =~= install_directive(name@, upgrade_string@));
        let is_probably_workspace_dep = match &config.current_dir_name {
            Some(dir) => install_dir_name != *dir,
            None => true,
        };
        let skip = current_version == upgrade_string || is_probably_workspace_dep;
        let upgrade_type = match config.upgrade_style {
            UpgradeStyle::Wanted => UpgradeType::Safe,
            UpgradeStyle::Latest => {
                if wanted_version == latest_version {
                    UpgradeType::Safe
                } else {
                    UpgradeType::Major
                }
            },
        };
        Package {
            current_version,
            install_cmd,
            install_dir_name,
            latest_version,
            name,
            skip,
            upgrade_type,
            wanted_version,
        }
    }
}

} // verus!
