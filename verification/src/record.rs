//! The line format of the outdated report. One line describes one
//! dependency:
//!
//! `location:name@wanted:name@current:name@latest:directory`
//!
//! The grammar is stated over character sequences, field by field; the
//! executable parser is proved to compute exactly what it says.

use crate::npm_cmd::PackageValue;
use crate::npm_cmd::PackageValueView;
use crate::package::ParseError;
use crate::text::after_field;
use crate::text::blank;
use crate::text::field;
use crate::text::field_end;
use crate::text::fields;
use crate::text::is_blank;
use crate::text::joined;
use crate::text::lemma_blank_trimmed;
use crate::text::lemma_field_of_joined;
use crate::text::lemma_field_without_sep;
use crate::text::lemma_fields;
use crate::text::lemma_joined_fields;
use crate::text::lemma_position;
use crate::text::position;
use crate::text::same_text;
use crate::text::to_chars;
use crate::text::trim_range;
use crate::text::trimmed;
use crate::text::white_space;
use vstd::prelude::*;
use vstd::string::StrSliceExecFns;
use vstd::string::StringExecFns;

verus! {

/// What stands in place of `name@version` for a package that is declared
/// and not installed.
pub open spec fn missing() -> Seq<char> {
    "MISSING"@
}

/// The name and the version that a segment of the form `name@version`
/// holds, or `None` where it holds none.
///
/// A segment that is `MISSING` as a whole gives that word as its version,
/// with an empty name. In any other segment a leading `@` belongs to the
/// name (a scoped package, `@scope/name`); the name ends at the next `@`,
/// the version at the one after that or at the end of the segment, and
/// neither may be blank.
pub open spec fn name_and_version(segment: Seq<char>) -> Option<(Seq<char>, Seq<char>)> {
    if segment == missing() {
        Some((Seq::empty(), segment))
    } else {
        let scoped = segment.len() > 0 && segment.first() == '@';
        let body = if scoped {
            segment.drop_first()
        } else {
            segment
        };
        match after_field(body, '@') {
            None => None,
            Some(rest) => {
                let name = field(body, '@');
                let version = field(rest, '@');
                if blank(name) || blank(version) {
                    None
                } else if scoped {
                    Some((seq!['@'] + name, version))
                } else {
                    Some((name, version))
                }
            },
        }
    }
}

/// The colon-delimited parts of a line.
pub struct LineFields {
    /// Where the package is installed.
    pub location: Seq<char>,
    /// The segment that holds the wanted version.
    pub wanted: Seq<char>,
    /// The segment that holds the current version.
    pub current: Seq<char>,
    /// The segment that holds the latest version.
    pub latest: Seq<char>,
    /// What follows the three version segments, colons included; empty
    /// where nothing follows.
    pub rest: Seq<char>,
}

/// Whether the location of `line` is a path with a drive letter, such as
/// `D:\project\node_modules\x`: the first colon is followed by a backslash.
/// The location then runs up to the second colon.
pub open spec fn has_drive_prefix(line: Seq<char>) -> bool {
    match after_field(line, ':') {
        Some(rest) => rest.len() > 0 && rest.first() == '\\',
        None => false,
    }
}

/// What follows the location of `line` and the colon that ends it; `None`
/// where the line ends with its location.
pub open spec fn after_location(line: Seq<char>) -> Option<Seq<char>> {
    match after_field(line, ':') {
        Some(rest) => if has_drive_prefix(line) {
            after_field(rest, ':')
        } else {
            Some(rest)
        },
        None => None,
    }
}

/// The location that `line` begins with.
pub open spec fn location_of(line: Seq<char>) -> Seq<char> {
    match after_field(line, ':') {
        Some(rest) => if has_drive_prefix(line) {
            field(line, ':') + seq![':'] + field(rest, ':')
        } else {
            field(line, ':')
        },
        None => line,
    }
}

/// The parts of `line`, or `None` where it has fewer than the four that a
/// record needs: the location and the three version segments.
pub open spec fn line_fields(line: Seq<char>) -> Option<LineFields> {
    match after_location(line) {
        None => None,
        Some(from_wanted) => match after_field(from_wanted, ':') {
            None => None,
            Some(from_current) => match after_field(from_current, ':') {
                None => None,
                Some(from_latest) => Some(
                    LineFields {
                        location: location_of(line),
                        wanted: field(from_wanted, ':'),
                        current: field(from_current, ':'),
                        latest: field(from_latest, ':'),
                        rest: match after_field(from_latest, ':') {
                            Some(rest) => rest,
                            None => Seq::empty(),
                        },
                    },
                ),
            },
        },
    }
}

/// The record that `line` describes: the dependency's name and its report
/// entry, or `None` where the line is no record.
///
/// The name is the one of the wanted segment. The directory is what
/// follows the version segments, without the white space around it.
pub open spec fn record_of(line: Seq<char>) -> Option<(Seq<char>, PackageValueView)> {
    match line_fields(line) {
        None => None,
        Some(fields) => match (
            name_and_version(fields.wanted),
            name_and_version(fields.current),
            name_and_version(fields.latest),
        ) {
            (Some(wanted), Some(current), Some(latest)) => Some(
                (
                    wanted.0,
                    PackageValueView {
                        current: current.1,
                        wanted: wanted.1,
                        latest: latest.1,
                        dependent: trimmed(fields.rest),
                        location: fields.location,
                    },
                ),
            ),
            _ => None,
        },
    }
}

/// The parts of a line are its colon-delimited fields: the location is
/// the first field, or the first two with their colon where the line has a
/// drive prefix; the three fields after it are the version segments; and
/// the fields after those, with their colons, are the rest. A line with
/// fewer fields than the location and the three segments take has no
/// parts.
pub proof fn lemma_line_fields_are_fields(line: Seq<char>)
    ensures
        ({
            let all = fields(line, ':');
            let first = if has_drive_prefix(line) {
                2int
            } else {
                1int
            };
            match line_fields(line) {
                Some(parts) => {
                    &&& all.len() >= first + 3
                    &&& parts.location == joined(all.take(first), ':')
                    &&& parts.wanted == all[first]
                    &&& parts.current == all[first + 1]
                    &&& parts.latest == all[first + 2]
                    &&& parts.rest == joined(all.skip(first + 3), ':')
                },
                None => all.len() < first + 3,
            }
        }),
        has_drive_prefix(line) <==> fields(line, ':').len() > 1 && fields(line, ':')[1].len() > 0
            && fields(line, ':')[1].first() == '\\',
{
    let all = fields(line, ':');
    lemma_fields(line, ':');
    lemma_position(line, ':');
    match after_field(line, ':') {
        None => {},
        Some(after_first) => {
            lemma_fields(after_first, ':');
            lemma_position(after_first, ':');
            assert(all[1] == fields(after_first, ':')[0]);
            if after_first.len() > 0 && after_first.first() == '\\' {
                assert(position(after_first, ':') > 0);
                assert(field(after_first, ':').first() == after_first.first());
            } else if after_first.len() > 0 {
                if position(after_first, ':') > 0 {
                    assert(field(after_first, ':').first() == after_first.first());
                }
            }
            let first = if has_drive_prefix(line) {
                2int
            } else {
                1int
            };
            assert(joined(all.take(first), ':') == location_of(line)) by {
                if has_drive_prefix(line) {
                    let two = all.take(2);
                    assert(two.drop_first() =~= seq![all[1]]);
                    assert(joined(two.drop_first(), ':') == all[1]);
                    assert(two.first() == all[0]);
                } else {
                    assert(all.take(1).first() == all[0]);
                }
            }
            match after_location(line) {
                None => {
                    assert(all.len() == 2);
                },
                Some(from_wanted) => {
                    assert(all.skip(first) =~= fields(from_wanted, ':')) by {
                        if has_drive_prefix(line) {
                            assert(all.drop_first().drop_first() =~= all.skip(2));
                        } else {
                            assert(all.drop_first() =~= all.skip(1));
                        }
                    }
                    lemma_rest_fields(all, first, from_wanted);
                    match after_field(from_wanted, ':') {
                        None => {},
                        Some(from_current) => {
                            lemma_rest_fields(all, first + 1, from_current);
                            match after_field(from_current, ':') {
                                None => {},
                                Some(from_latest) => {
                                    lemma_rest_fields(all, first + 2, from_latest);
                                    match after_field(from_latest, ':') {
                                        None => {
                                            assert(all.skip(first + 3) =~= Seq::<
                                                Seq<char>,
                                            >::empty());
                                        },
                                        Some(rest) => {
                                            lemma_joined_fields(rest, ':');
                                        },
                                    }
                                },
                            }
                        },
                    }
                },
            }
        },
    }
}

/// Where the fields of `all` from `at` on are those of `text`, the field
/// at `at` is the first of `text`, and the fields after it are those of
/// what follows it in `text`, or none.
proof fn lemma_rest_fields(all: Seq<Seq<char>>, at: int, text: Seq<char>)
    requires
        0 <= at <= all.len(),
        all.skip(at) == fields(text, ':'),
    ensures
        at < all.len(),
        all[at] == field(text, ':'),
        match after_field(text, ':') {
            Some(rest) => all.skip(at + 1) == fields(rest, ':'),
            None => all.len() == at + 1,
        },
{
    lemma_fields(text, ':');
    assert(all.skip(at).first() == all[at]);
    assert(all.skip(at).drop_first() =~= all.skip(at + 1));
}

/// The segment that carries `version` for the dependency `name`.
pub open spec fn segment_of(name: Seq<char>, version: Seq<char>) -> Seq<char> {
    name + seq!['@'] + version
}

/// The line that the report writes for a record.
pub open spec fn line_of(
    location: Seq<char>,
    name: Seq<char>,
    value: PackageValueView,
) -> Seq<char> {
    location + seq![':'] + segment_of(name, value.wanted) + seq![':'] + segment_of(
        name,
        value.current,
    ) + seq![':'] + segment_of(name, value.latest) + seq![':'] + value.dependent
}

/// Whether `text` can stand in a segment as it is: it is not blank and
/// holds neither of the two separators.
pub open spec fn is_plain(text: Seq<char>) -> bool {
    !blank(text) && !text.contains('@') && !text.contains(':')
}

/// Whether `name` can be written into a line and read back: what follows
/// its scope sign, if it has one, is plain, and it does not begin with the
/// backslash that marks a drive prefix.
pub open spec fn is_wire_name(name: Seq<char>) -> bool {
    &&& name.len() > 0
    &&& name.first() != '\\'
    &&& is_plain(
        if name.first() == '@' {
            name.drop_first()
        } else {
            name
        },
    )
}

/// The word `MISSING` holds no separator.
pub proof fn lemma_missing_is_plain()
    ensures
        missing().len() == 7,
        !missing().contains('@'),
        !missing().contains(':'),
{
    reveal_strlit("MISSING");
    let m = missing();
    assert forall|i: int| 0 <= i < m.len() implies m[i] != '@' && m[i] != ':' by {
        if i == 0 {
        } else if i == 1 {
        } else if i == 2 {
        } else if i == 3 {
        } else if i == 4 {
        } else if i == 5 {
        } else {
        }
    }
}

/// A segment that is `MISSING` as a whole is read as that version, with
/// an empty name.
pub proof fn lemma_missing_segment()
    ensures
        name_and_version(missing()) == Some((Seq::<char>::empty(), missing())),
{
}

/// Reading the segment written for a name and a version gives both back.
pub proof fn lemma_segment_round_trip(name: Seq<char>, version: Seq<char>)
    requires
        is_wire_name(name),
        is_plain(version),
    ensures
        name_and_version(segment_of(name, version)) == Some((name, version)),
        !segment_of(name, version).contains(':'),
        segment_of(name, version).first() == name.first(),
{
    let segment = segment_of(name, version);
    lemma_missing_is_plain();
    assert(segment[name.len() as int] == '@');
    assert(segment != missing()) by {
        if segment == missing() {
            assert(missing().contains(segment[name.len() as int]));
        }
    }
    let scoped = name.first() == '@';
    let stem = if scoped {
        name.drop_first()
    } else {
        name
    };
    let body = if scoped {
        segment.drop_first()
    } else {
        segment
    };
    assert(segment.first() == name.first());
    assert(body =~= stem + seq!['@'] + version);
    lemma_field_of_joined(stem, '@', version);
    lemma_field_without_sep(version, '@');
    if scoped {
        assert(seq!['@'] + stem =~= name);
    }
    assert forall|i: int| 0 <= i < segment.len() implies segment[i] != ':' by {
        if i < name.len() {
            if scoped && i == 0 {
            } else if scoped {
                assert(stem.contains(stem[i - 1]));
            } else {
                assert(stem.contains(stem[i]));
            }
        } else if i > name.len() {
            assert(version.contains(version[i - name.len() - 1]));
        }
    }
}

/// Writing a record as a line and reading the line gives the record back:
/// the name, the three versions, the directory and the location.
///
/// The location holds no colon, the name and the versions can stand in a
/// segment, and the directory has no white space around it (it may hold
/// colons).
pub proof fn lemma_round_trip(location: Seq<char>, name: Seq<char>, value: PackageValueView)
    requires
        !location.contains(':'),
        is_wire_name(name),
        is_plain(value.wanted),
        is_plain(value.current),
        is_plain(value.latest),
        trimmed(value.dependent) == value.dependent,
        value.location == location,
    ensures
        record_of(line_of(location, name, value)) == Some((name, value)),
{
    let line = line_of(location, name, value);
    let wanted = segment_of(name, value.wanted);
    let current = segment_of(name, value.current);
    let latest = segment_of(name, value.latest);
    let from_latest = latest + seq![':'] + value.dependent;
    let from_current = current + seq![':'] + from_latest;
    let from_wanted = wanted + seq![':'] + from_current;
    lemma_segment_round_trip(name, value.wanted);
    lemma_segment_round_trip(name, value.current);
    lemma_segment_round_trip(name, value.latest);
    assert(line =~= location + seq![':'] + from_wanted);
    lemma_field_of_joined(location, ':', from_wanted);
    assert(from_wanted.first() == wanted.first());
    assert(!has_drive_prefix(line));
    lemma_field_of_joined(wanted, ':', from_current);
    lemma_field_of_joined(current, ':', from_latest);
    lemma_field_of_joined(latest, ':', value.dependent);
    let fields = line_fields(line)->0;
    assert(fields.rest == value.dependent);
    assert((record_of(line)->0).1 =~= value);
}

/// A line whose location is a path with a drive letter, `drive:\path`, is
/// read like any other: the location runs up to the second colon.
pub proof fn lemma_round_trip_with_drive(
    drive: Seq<char>,
    path: Seq<char>,
    name: Seq<char>,
    value: PackageValueView,
)
    requires
        !drive.contains(':'),
        !path.contains(':'),
        path.len() > 0,
        path.first() == '\\',
        is_wire_name(name),
        is_plain(value.wanted),
        is_plain(value.current),
        is_plain(value.latest),
        trimmed(value.dependent) == value.dependent,
        value.location == drive + seq![':'] + path,
    ensures
        record_of(line_of(value.location, name, value)) == Some((name, value)),
{
    let line = line_of(value.location, name, value);
    let wanted = segment_of(name, value.wanted);
    let current = segment_of(name, value.current);
    let latest = segment_of(name, value.latest);
    let from_latest = latest + seq![':'] + value.dependent;
    let from_current = current + seq![':'] + from_latest;
    let from_wanted = wanted + seq![':'] + from_current;
    let from_path = path + seq![':'] + from_wanted;
    lemma_segment_round_trip(name, value.wanted);
    lemma_segment_round_trip(name, value.current);
    lemma_segment_round_trip(name, value.latest);
    assert(line =~= drive + seq![':'] + from_path);
    lemma_field_of_joined(drive, ':', from_path);
    assert(from_path.first() == '\\');
    assert(has_drive_prefix(line));
    lemma_field_of_joined(path, ':', from_wanted);
    lemma_field_of_joined(wanted, ':', from_current);
    lemma_field_of_joined(current, ':', from_latest);
    lemma_field_of_joined(latest, ':', value.dependent);
    let fields = line_fields(line)->0;
    assert(fields.rest == value.dependent);
    assert((record_of(line)->0).1 =~= value);
}

/// What is read from a segment is never blank: but for the `MISSING`
/// segment, with its empty name, something is left of the name and of the
/// version when the white space around them is taken away.
pub proof fn lemma_parts_are_not_blank(segment: Seq<char>)
    requires
        name_and_version(segment) is Some,
        segment != missing(),
    ensures
        trimmed((name_and_version(segment)->0).0).len() > 0,
        trimmed((name_and_version(segment)->0).1).len() > 0,
{
    let pair = name_and_version(segment)->0;
    lemma_blank_trimmed(pair.0);
    lemma_blank_trimmed(pair.1);
    if segment.len() > 0 && segment.first() == '@' {
        assert(pair.0[0] == '@');
        assert(!white_space('@'));
    }
}

/// A scoped name keeps its scope sign: a segment that begins with `@` and
/// can be read gives a name that begins with `@`, followed by what stands
/// before the next `@`, which is not blank.
pub proof fn lemma_scope_is_kept(segment: Seq<char>)
    requires
        segment.len() > 0,
        segment.first() == '@',
        name_and_version(segment) is Some,
    ensures
        ({
            let name = (name_and_version(segment)->0).0;
            &&& name.len() > 1
            &&& name.first() == '@'
            &&& name.drop_first() == field(segment.drop_first(), '@')
            &&& !name.drop_first().contains('@')
            &&& !blank(name.drop_first())
        }),
{
    lemma_missing_is_plain();
    reveal_strlit("MISSING");
    assert(segment != missing());
    let body = segment.drop_first();
    let stem = field(body, '@');
    let name = (name_and_version(segment)->0).0;
    assert(name == seq!['@'] + stem);
    assert(name.drop_first() =~= stem);
    lemma_position(body, '@');
    if stem.contains('@') {
        let i = choose|i: int| 0 <= i < stem.len() && stem[i] == '@';
        assert(body[i] == '@');
    }
}

/// The name of a record whose wanted segment begins with `@` begins with
/// `@`.
pub proof fn lemma_scoped_record(line: Seq<char>)
    requires
        record_of(line) is Some,
        line_fields(line)->0.wanted.len() > 0,
        line_fields(line)->0.wanted.first() == '@',
    ensures
        (record_of(line)->0).0.len() > 1,
        (record_of(line)->0).0.first() == '@',
{
    lemma_scope_is_kept(line_fields(line)->0.wanted);
}

/// A current-version segment that is `MISSING` never makes a line fail:
/// the line is a record exactly where its other two version segments can
/// be read, and its current version is then `MISSING`.
pub proof fn lemma_missing_current(line: Seq<char>)
    requires
        line_fields(line) is Some,
        line_fields(line)->0.current == missing(),
    ensures
        record_of(line) is Some <==> name_and_version(line_fields(line)->0.wanted) is Some
            && name_and_version(line_fields(line)->0.latest) is Some,
        record_of(line) is Some ==> (record_of(line)->0).1.current == missing(),
{
}

/// An empty line is no record.
pub proof fn lemma_empty_line()
    ensures
        record_of(Seq::<char>::empty()) is None,
{
}

/// The value that `opt` holds, or the parse error where it holds none.
pub fn val_or_err<T>(opt: Option<T>) -> (r: Result<T, ParseError>)
    ensures
        match opt {
            Some(val) => r == Ok::<T, ParseError>(val),
            None => r is Err,
        },
{
    if let Some(val) = opt {
        Ok(val)
    } else {
        Err(ParseError)
    }
}

/// Reads a segment of the form `name@version`. An absent segment is an
/// error.
pub fn split_name_and_version(src: Option<&str>) -> (r: Result<(String, String), ParseError>)
    ensures
        match src {
            Some(segment) => match name_and_version(segment@) {
                Some(pair) => r matches Ok(found) && found.0@ == pair.0 && found.1@ == pair.1,
                None => r is Err,
            },
            None => r is Err,
        },
{
    let src = match val_or_err(src) {
        Ok(segment) => segment,
        Err(e) => {
            return Err(e);
        },
    };
    if same_text(src, "MISSING") {
        return Ok((String::new(), String::from_str(src)));
    }
    let chars = to_chars(src);
    let is_scoped_package = chars.len() > 0 && chars[0] == '@';
    let start: usize = if is_scoped_package {
        1
    } else {
        0
    };
    let ghost body = chars@.skip(start as int);
    assert(is_scoped_package ==> body =~= src@.drop_first());
    assert(!is_scoped_package ==> body =~= src@);
    let name_end = field_end(&chars, start, '@');
    if name_end >= chars.len() {
        return Err(ParseError);
    }
    let version_start = name_end + 1;
    let version_end = field_end(&chars, version_start, '@');
    if is_blank(&chars, start, name_end) || is_blank(&chars, version_start, version_end) {
        return Err(ParseError);
    }
    let name = src.substring_char(start, name_end);
    let version = src.substring_char(version_start, version_end);
    if is_scoped_package {
        proof {
            reveal_strlit("@");
        }
        let scoped_name = String::from_str("@").concat(name);
        assert(scoped_name@ =~= seq!['@'] + name@);
        Ok((scoped_name, String::from_str(version)))
    } else {
        Ok((String::from_str(name), String::from_str(version)))
    }
}

/// Where the location of a line ends: the index of the colon that ends
/// it, or `None` where the line ends with its location.
fn location_end(chars: &Vec<char>) -> (r: Option<usize>)
    ensures
        match r {
            Some(end) => end < chars.len() && after_location(chars@) == Some(
                chars@.skip(end + 1),
            ) && location_of(chars@) == chars@.subrange(0, end as int),
            None => after_location(chars@) is None,
        },
{
    let n = chars.len();
    assert(chars@.skip(0) =~= chars@);
    let first_colon = field_end(chars, 0, ':');
    if first_colon >= n {
        return None;
    }
    if first_colon + 1 < n && chars[first_colon + 1] == '\\' {
        let second_colon = field_end(chars, first_colon + 1, ':');
        assert(chars@.subrange(0, second_colon as int) =~= chars@.subrange(0, first_colon as int)
            + seq![':'] + chars@.subrange(first_colon + 1, second_colon as int));
        if second_colon >= n {
            return None;
        }
        Some(second_colon)
    } else {
        Some(first_colon)
    }
}

/// The index ranges of the parts of a line.
struct LineRanges {
    location_end: usize,
    wanted: (usize, usize),
    current: (usize, usize),
    latest: (usize, usize),
    directory: (usize, usize),
}

impl LineRanges {
    /// Whether the ranges lie in a line of `len` characters.
    spec fn fits(self, len: nat) -> bool {
        &&& self.location_end <= len
        &&& self.wanted.0 <= self.wanted.1 <= len
        &&& self.current.0 <= self.current.1 <= len
        &&& self.latest.0 <= self.latest.1 <= len
        &&& self.directory.0 <= self.directory.1 <= len
    }

    /// Whether the ranges are those of the parts `fields` of `line`, the
    /// directory without the white space around it.
    spec fn marks(self, line: Seq<char>, fields: LineFields) -> bool {
        &&& self.fits(line.len())
        &&& line.subrange(0, self.location_end as int) == fields.location
        &&& line.subrange(self.wanted.0 as int, self.wanted.1 as int) == fields.wanted
        &&& line.subrange(self.current.0 as int, self.current.1 as int) == fields.current
        &&& line.subrange(self.latest.0 as int, self.latest.1 as int) == fields.latest
        &&& line.subrange(self.directory.0 as int, self.directory.1 as int) == trimmed(
            fields.rest,
        )
    }
}

/// Finds the parts of a line.
fn line_ranges(chars: &Vec<char>) -> (r: Option<LineRanges>)
    ensures
        match r {
            Some(ranges) => line_fields(chars@) is Some && ranges.marks(
                chars@,
                line_fields(chars@)->0,
            ),
            None => line_fields(chars@) is None,
        },
{
    let n = chars.len();
    let location_end = match location_end(chars) {
        Some(end) => end,
        None => {
            return None;
        },
    };
    let wanted_start = location_end + 1;
    let wanted_end = field_end(chars, wanted_start, ':');
    if wanted_end >= n {
        return None;
    }
    let current_start = wanted_end + 1;
    let current_end = field_end(chars, current_start, ':');
    if current_end >= n {
        return None;
    }
    let latest_start = current_end + 1;
    let latest_end = field_end(chars, latest_start, ':');
    let directory = if latest_end < n {
        assert(chars@.skip(latest_end + 1) =~= chars@.subrange(latest_end + 1, n as int));
        trim_range(chars, latest_end + 1, n)
    } else {
        assert(chars@.subrange(n as int, n as int) =~= Seq::<char>::empty());
        (n, n)
    };
    Some(
        LineRanges {
            location_end,
            wanted: (wanted_start, wanted_end),
            current: (current_start, current_end),
            latest: (latest_start, latest_end),
            directory,
        },
    )
}

/// Reads one line of the report.
pub fn parse_line(line: &str) -> (r: Result<(String, PackageValue), ParseError>)
    ensures
        match record_of(line@) {
            Some(record) => r matches Ok(found) && found.0@ == record.0 && found.1@ == record.1,
            None => r is Err,
        },
{
    let chars = to_chars(line);
    let ranges = match line_ranges(&chars) {
        Some(ranges) => ranges,
        None => {
            return Err(ParseError);
        },
    };
    let (name, wanted_version) = match split_name_and_version(
        Some(line.substring_char(ranges.wanted.0, ranges.wanted.1)),
    ) {
        Ok(pair) => pair,
        Err(e) => {
            return Err(e);
        },
    };
    let (_, current_version) = match split_name_and_version(
        Some(line.substring_char(ranges.current.0, ranges.current.1)),
    ) {
        Ok(pair) => pair,
        Err(e) => {
            return Err(e);
        },
    };
    let (_, latest_version) = match split_name_and_version(
        Some(line.substring_char(ranges.latest.0, ranges.latest.1)),
    ) {
        Ok(pair) => pair,
        Err(e) => {
            return Err(e);
        },
    };
    let value = PackageValue {
        current: current_version,
        wanted: wanted_version,
        latest: latest_version,
        dependent: String::from_str(line.substring_char(ranges.directory.0, ranges.directory.1)),
        location: String::from_str(line.substring_char(0, ranges.location_end)),
    };
    Ok((name, value))
}

} // verus!
