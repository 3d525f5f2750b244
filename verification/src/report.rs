//! From the text of the outdated report to the arguments of the install
//! step: which packages the run updates, and what the installer is handed
//! for them.

use crate::package::classified;
use crate::package::Package;
use crate::package::PackageView;
use crate::record::record_of;
use crate::text::after_field;
use crate::text::field;
use crate::text::field_end;
use crate::text::lemma_position;
use crate::text::to_chars;
use crate::utility::glob_matches;
use crate::utility::Config;
use crate::utility::UpgradeStyle;
use vstd::prelude::*;
use vstd::string::StrSliceExecFns;

verus! {

/// The packages that the report `text` describes under the given policy,
/// in the order of its lines. A line ends at a line feed or at the end of
/// the text, and a line that is no record stands for no package.
pub open spec fn report_packages(
    text: Seq<char>,
    style: UpgradeStyle,
    project_dir: Option<Seq<char>>,
) -> Seq<PackageView>
    decreases text.len(),
{
    if text.len() == 0 {
        Seq::empty()
    } else {
        let here = line_packages(field(text, '\n'), style, project_dir);
        match after_field(text, '\n') {
            Some(rest) => {
                proof {
                    lemma_position(text, '\n');
                }
                here + report_packages(rest, style, project_dir)
            },
            None => here,
        }
    }
}

/// The package that `line` describes, or none where it is no record.
pub open spec fn line_packages(
    line: Seq<char>,
    style: UpgradeStyle,
    project_dir: Option<Seq<char>>,
) -> Seq<PackageView> {
    match record_of(line) {
        Some(record) => seq![classified(record.0, record.1, style, project_dir)],
        None => Seq::empty(),
    }
}

/// Whether the run updates a package: it is not skipped, and the name
/// filter has not refused its name. `name_matches` is the filter's answer,
/// `None` where the run has no filter.
pub open spec fn is_selected(package: PackageView, name_matches: Option<bool>) -> bool {
    !package.skip && name_matches != Some(false)
}

/// The packages among `packages` that the run updates, in order, where
/// `answers` holds the name filter's answer for each.
pub open spec fn selected_of(
    packages: Seq<PackageView>,
    answers: Seq<Option<bool>>,
) -> Seq<PackageView>
    recommends
        answers.len() == packages.len(),
    decreases packages.len(),
{
    if packages.len() == 0 {
        Seq::empty()
    } else {
        let before = selected_of(packages.drop_last(), answers.drop_last());
        if is_selected(packages.last(), answers.last()) {
            before.push(packages.last())
        } else {
            before
        }
    }
}

/// Whether `answers` can be the answers of a run's name filter for
/// `count` packages: one for each, given exactly where the run has a
/// filter.
pub open spec fn are_answers(answers: Seq<Option<bool>>, count: nat, filtered: bool) -> bool {
    &&& answers.len() == count
    &&& forall|i: int| 0 <= i < answers.len() ==> (#[trigger] answers[i] is Some) == filtered
}

/// Whether `selected` is what a run selects from `packages`, for some
/// answers of its name filter.
pub open spec fn is_selection(
    selected: Seq<PackageView>,
    packages: Seq<PackageView>,
    filtered: bool,
) -> bool {
    exists|answers: Seq<Option<bool>>| #[trigger]
        are_answers(answers, packages.len(), filtered) && selected == selected_of(
            packages,
            answers,
        )
}

/// The install directives of `packages`, in order.
pub open spec fn directives_of(packages: Seq<PackageView>) -> Seq<Seq<char>> {
    Seq::new(packages.len(), |i: int| packages[i].install_cmd)
}

/// Every selected package is one of the given packages and is not
/// skipped, and no more are selected than given.
pub proof fn lemma_selected_are_wanted(packages: Seq<PackageView>, answers: Seq<Option<bool>>)
    requires
        answers.len() == packages.len(),
    ensures
        selected_of(packages, answers).len() <= packages.len(),
        forall|i: int|
            0 <= i < selected_of(packages, answers).len() ==> !(#[trigger] selected_of(
                packages,
                answers,
            )[i]).skip && packages.contains(selected_of(packages, answers)[i]),
    decreases packages.len(),
{
    if packages.len() > 0 {
        lemma_selected_are_wanted(packages.drop_last(), answers.drop_last());
        let before = selected_of(packages.drop_last(), answers.drop_last());
        let all = selected_of(packages, answers);
        assert forall|i: int| 0 <= i < all.len() implies !(#[trigger] all[i]).skip
            && packages.contains(all[i]) by {
            if i < before.len() {
                assert(all[i] == before[i]);
                assert(packages.drop_last().contains(before[i]));
                let j = choose|j: int|
                    0 <= j < packages.drop_last().len() && packages.drop_last()[j] == before[i];
                assert(packages[j] == before[i]);
            } else {
                assert(all[i] == packages.last());
                assert(packages[packages.len() - 1] == all[i]);
            }
        }
    }
}

/// Without a name filter a run selects exactly the packages that are not
/// skipped.
pub proof fn lemma_selection_without_filter(
    selected: Seq<PackageView>,
    packages: Seq<PackageView>,
)
    requires
        is_selection(selected, packages, false),
    ensures
        selected == packages.filter(|package: PackageView| !package.skip),
{
    let answers = choose|answers: Seq<Option<bool>>| #[trigger]
        are_answers(answers, packages.len(), false) && selected == selected_of(packages, answers);
    lemma_unfiltered(packages, answers);
}

/// Where no answer is given, the selected packages are those that are
/// not skipped.
proof fn lemma_unfiltered(packages: Seq<PackageView>, answers: Seq<Option<bool>>)
    requires
        are_answers(answers, packages.len(), false),
    ensures
        selected_of(packages, answers) == packages.filter(|package: PackageView| !package.skip),
    decreases packages.len(),
{
    reveal(Seq::filter);
    if packages.len() > 0 {
        assert(answers.last() is Some == false);
        assert forall|i: int| 0 <= i < answers.drop_last().len() implies (
        #[trigger] answers.drop_last()[i] is Some) == false by {
            assert(answers.drop_last()[i] == answers[i]);
        }
        lemma_unfiltered(packages.drop_last(), answers.drop_last());
    }
}

/// Whether the run updates `package`, given the name filter's answer for
/// its name.
pub fn is_selected_package(package: &Package, name_matches: Option<bool>) -> (r: bool)
    ensures
        r == is_selected(package@, name_matches),
{
    if package.skip {
        return false;
    }
    match name_matches {
        Some(matches) => matches,
        None => true,
    }
}

/// The packages that the run updates, in the order of the report's lines:
/// those that the report describes, that are not skipped, and whose names
/// the run's name filter does not refuse.
pub fn packages_to_update(report: &str, config: &Config) -> (selected: Vec<Package>)
    ensures
        is_selection(
            selected.deep_view(),
            report_packages(report@, config.upgrade_style, config.current_dir_name.deep_view()),
            config.include_glob is Some,
        ),
{
    let chars = to_chars(report);
    let n = chars.len();
    let ghost style = config.upgrade_style;
    let ghost dir = config.current_dir_name.deep_view();
    let ghost filtered = config.include_glob is Some;
    let ghost mut seen: Seq<PackageView> = Seq::empty();
    let ghost mut answers: Seq<Option<bool>> = Seq::empty();
    let mut selected: Vec<Package> = Vec::new();
    let mut start: usize = 0;
    assert(chars@.skip(0) =~= report@);
    assert(selected.deep_view() =~= selected_of(seen, answers));
    while start < n
        invariant
            start <= n == chars.len(),
            chars@ == report@,
            style == config.upgrade_style,
            dir == config.current_dir_name.deep_view(),
            filtered == (config.include_glob is Some),
            report_packages(report@, style, dir) == seen + report_packages(
                chars@.skip(start as int),
                style,
                dir,
            ),
            are_answers(answers, seen.len(), filtered),
            selected.deep_view() == selected_of(seen, answers),
        decreases n - start,
    {
        let end = field_end(&chars, start, '\n');
        let line = report.substring_char(start, end);
        let ghost rest = chars@.skip(start as int);
        let ghost prior_seen = seen;
        let ghost prior_answers = answers;
        let ghost prior_selected = selected.deep_view();
        match Package::from_line(line, config) {
            Ok(package) => {
                let name_matches = match &config.include_glob {
                    Some(pattern) => Some(glob_matches(pattern, package.name.as_str())),
                    None => None,
                };
                proof {
                    seen = seen.push(package@);
                    answers = answers.push(name_matches);
                    assert(seen.drop_last() =~= prior_seen);
                    assert(answers.drop_last() =~= prior_answers);
                    assert(seen =~= prior_seen + line_packages(field(rest, '\n'), style, dir));
                }
                if is_selected_package(&package, name_matches) {
                    selected.push(package);
                    assert(selected.deep_view() =~= prior_selected.push(package@));
                } else {
                    assert(selected.deep_view() =~= prior_selected);
                }
            },
            Err(_) => {
                assert(seen =~= prior_seen + line_packages(field(rest, '\n'), style, dir));
            },
        }
        proof {
            let here = line_packages(field(rest, '\n'), style, dir);
            if end < n {
                assert(report_packages(rest, style, dir) == here + report_packages(
                    chars@.skip(end + 1),
                    style,
                    dir,
                ));
                assert(prior_seen + (here + report_packages(chars@.skip(end + 1), style, dir))
                    =~= (prior_seen + here) + report_packages(chars@.skip(end + 1), style, dir));
            } else {
                assert(report_packages(rest, style, dir) == here);
                assert(chars@.skip(n as int) =~= Seq::<char>::empty());
                assert(prior_seen + here =~= (prior_seen + here) + Seq::<PackageView>::empty());
            }
        }
        start = if end < n {
            end + 1
        } else {
            n
        };
    }
    proof {
        assert(chars@.skip(n as int) =~= Seq::<char>::empty());
        assert(report_packages(report@, style, dir) =~= seen);
    }
    selected
}

/// What the install step is handed after its verb: the install directive
/// of each package, in order, and then the extra arguments of the
/// configuration as they are.
pub fn install_arguments(packages: &Vec<Package>, config: &Config) -> (arguments: Vec<String>)
    ensures
        arguments.deep_view() == directives_of(packages.deep_view())
            + config@.additional_install_args,
{
    let mut arguments: Vec<String> = Vec::new();
    let mut i: usize = 0;
    assert(arguments.deep_view() =~= directives_of(packages.deep_view()).take(0));
    while i < packages.len()
        invariant
            i <= packages.len(),
            arguments.deep_view() == directives_of(packages.deep_view()).take(i as int),
        decreases packages.len() - i,
    {
        let ghost before = arguments.deep_view();
        arguments.push(packages[i].install_cmd.clone());
        assert(arguments.deep_view() =~= before.push(packages@[i as int].install_cmd@));
        assert(arguments.deep_view() =~= directives_of(packages.deep_view()).take(i + 1));
        i = i + 1;
    }
    let ghost directives = directives_of(packages.deep_view());
    assert(directives.take(packages.len() as int) =~= directives);
    let extra = &config.additional_install_args;
    let mut j: usize = 0;
    assert(arguments.deep_view() =~= directives + extra.deep_view().take(0));
    while j < extra.len()
        invariant
            j <= extra.len(),
            arguments.deep_view() == directives + extra.deep_view().take(j as int),
        decreases extra.len() - j,
    {
        let ghost before = arguments.deep_view();
        arguments.push(extra[j].clone());
        assert(arguments.deep_view() =~= before.push(extra@[j as int]@));
        assert(arguments.deep_view() =~= directives + extra.deep_view().take(j + 1));
        j = j + 1;
    }
    assert(extra.deep_view().take(extra.len() as int) =~= extra.deep_view());
    arguments
}

} // verus!
