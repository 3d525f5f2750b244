//! What the package manager reports of a dependency, and the version
//! requirements of a manifest.

use crate::json::as_object;
use crate::json::as_text;
use crate::json::copy_of;
use crate::json::entries;
use crate::json::error_text;
use crate::json::insert_member;
use crate::json::json_object;
use crate::json::json_parsed;
use crate::json::json_rendered;
use crate::json::json_text;
use crate::json::map_members;
use crate::json::member;
use crate::json::new_map;
use crate::json::object_value;
use crate::json::parse_json;
use crate::json::render_json;
use crate::json::set_member;
use crate::json::text_value;
use serde_json::Value;
use vstd::prelude::*;
use vstd::string::StrSliceExecFns;
use vstd::string::StringExecFns;

verus! {

/// One entry of the outdated report in its structured form. The
/// dependency's name is the key that the entry stands under.
#[derive(Clone, Debug, Default, PartialEq, Eq)]
pub struct PackageValue {
    /// The version that is installed, or `MISSING`.
    pub current: String,
    /// The newest version inside the declared range.
    pub wanted: String,
    /// The newest version published.
    pub latest: String,
    /// The name of the directory whose project depends on the package.
    pub dependent: String,
    /// Where the package is installed.
    pub location: String,
}

/// What a `PackageValue` holds, with strings as character sequences.
pub struct PackageValueView {
    pub current: Seq<char>,
    pub wanted: Seq<char>,
    pub latest: Seq<char>,
    pub dependent: Seq<char>,
    pub location: Seq<char>,
}

impl View for PackageValue {
    type V = PackageValueView;

    open spec fn view(&self) -> PackageValueView {
        PackageValueView {
            current: self.current@,
            wanted: self.wanted@,
            latest: self.latest@,
            dependent: self.dependent@,
            location: self.location@,
        }
    }
}

/// The requirement `version` narrowed to patch releases: a leading caret
/// gives way to a tilde, and anything else gets the tilde in front.
pub open spec fn tilde_prefixed(version: Seq<char>) -> Seq<char> {
    if version.len() > 0 && version.first() == '^' {
        seq!['~'] + version.drop_first()
    } else {
        seq!['~'] + version
    }
}

/// Narrows a version requirement to patch releases.
pub fn prefix_with_tilde(pkg_version: &str) -> (r: String)
    ensures
        r@ == tilde_prefixed(pkg_version@),
{
    proof {
        reveal_strlit("~");
    }
    let tilde = String::from_str("~");
    assert(tilde@ =~= seq!['~']);
    let n = pkg_version.unicode_len();
    if n > 0 && pkg_version.get_char(0) == '^' {
        let rest = pkg_version.substring_char(1, n);
        assert(rest@ =~= pkg_version@.drop_first());
        tilde.concat(rest)
    } else {
        tilde.concat(pkg_version)
    }
}

/// The members of the section of `manifest` named `section`: `manifest`
/// is an object, and its member of that name is an object too. `None`
/// where it has no such section.
pub open spec fn section_of(manifest: Value, section: Seq<char>) -> Option<Map<Seq<char>, Value>> {
    match json_object(manifest) {
        Some(top) => if map_members(top).contains_key(section) {
            match json_object(map_members(top)[section]) {
                Some(deps) => Some(map_members(deps)),
                None => None,
            }
        } else {
            None
        },
        None => None,
    }
}

/// Whether `after` is the value `before` narrowed: a string holds the
/// narrowed requirement, and a value of any other kind is as it was.
pub open spec fn is_narrowed_value(before: Value, after: Value) -> bool {
    match json_text(before) {
        Some(version) => json_text(after) == Some(tilde_prefixed(version)),
        None => after == before,
    }
}

/// Whether `after` is the section `before` with every version requirement
/// narrowed: the same names, each with its value narrowed.
pub open spec fn is_narrowed(before: Map<Seq<char>, Value>, after: Map<Seq<char>, Value>) -> bool {
    &&& forall|name: Seq<char>| after.contains_key(name) <==> before.contains_key(name)
    &&& forall|name: Seq<char>| #[trigger]
        before.contains_key(name) ==> is_narrowed_value(before[name], after[name])
}

/// Whether `after` is the manifest `before` with the requirements of one
/// section narrowed. A manifest without that section is left as it is; in
/// one that has it, only that member changes.
pub open spec fn is_narrowed_in(before: Value, section: Seq<char>, after: Value) -> bool {
    match section_of(before, section) {
        Some(deps) => {
            &&& json_object(after) is Some
            &&& map_members(json_object(after)->0).dom() == map_members(
                json_object(before)->0,
            ).dom()
            &&& forall|name: Seq<char>|
                name != section && #[trigger] map_members(json_object(before)->0).contains_key(
                    name,
                ) ==> map_members(json_object(after)->0)[name] == map_members(
                    json_object(before)->0,
                )[name]
            &&& section_of(after, section) is Some
            &&& is_narrowed(deps, section_of(after, section)->0)
        },
        None => after == before,
    }
}

/// Narrows a requirement where the value is one: a string gets its tilde,
/// a value of any other kind is copied.
pub fn narrowed_value(value: &Value) -> (narrowed: Value)
    ensures
        is_narrowed_value(*value, narrowed),
{
    match as_text(value) {
        Some(version) => text_value(prefix_with_tilde(version)),
        None => copy_of(value),
    }
}

/// The section that holds the members of `deps`, each narrowed.
fn narrowed_section(deps: &serde_json::Map<String, Value>) -> (new_deps: serde_json::Map<
    String,
    Value,
>)
    ensures
        is_narrowed(map_members(*deps), map_members(new_deps)),
{
    let all = entries(deps);
    let ghost before = map_members(*deps);
    let mut new_deps = new_map();
    let mut i: usize = 0;
    while i < all.len()
        invariant
            i <= all.len(),
            forall|j: int|
                0 <= j < all.len() ==> before.contains_key((#[trigger] all[j]).0@)
                    && before[all[j].0@] == *all[j].1,
            forall|name: Seq<char>|
                map_members(new_deps).contains_key(name) <==> exists|j: int|
                    0 <= j < i && (#[trigger] all[j]).0@ == name,
            forall|name: Seq<char>| #[trigger]
                map_members(new_deps).contains_key(name) ==> is_narrowed_value(
                    before[name],
                    map_members(new_deps)[name],
                ),
        decreases all.len() - i,
    {
        let (key, val) = all[i];
        let new_val = narrowed_value(val);
        let ghost prior = map_members(new_deps);
        insert_member(&mut new_deps, key.clone(), new_val);
        assert forall|name: Seq<char>|
            map_members(new_deps).contains_key(name) <==> exists|j: int|
                0 <= j < i + 1 && (#[trigger] all[j]).0@ == name by {
            if map_members(new_deps).contains_key(name) {
                if name == key@ {
                    assert(all[i as int].0@ == name);
                } else {
                    assert(prior.contains_key(name));
                    let j = choose|j: int| 0 <= j < i && (#[trigger] all[j]).0@ == name;
                    assert(0 <= j < i + 1 && all[j].0@ == name);
                }
            }
            if exists|j: int| 0 <= j < i + 1 && (#[trigger] all[j]).0@ == name {
                let j = choose|j: int| 0 <= j < i + 1 && (#[trigger] all[j]).0@ == name;
                if j < i {
                    assert(prior.contains_key(name));
                }
            }
        }
        i = i + 1;
    }
    assert forall|name: Seq<char>|
        map_members(new_deps).contains_key(name) <==> before.contains_key(name) by {
        if map_members(new_deps).contains_key(name) {
            let j = choose|j: int| 0 <= j < i && (#[trigger] all[j]).0@ == name;
            assert(before.contains_key(all[j].0@));
        }
    }
    new_deps
}

/// Narrows every version requirement in the section `dep_section` of the
/// manifest `obj` to patch releases.
pub fn prefix_all_entries_with_tilde(obj: &mut Value, dep_section: &str)
    ensures
        is_narrowed_in(*old(obj), dep_section@, *final(obj)),
{
    let new_deps = match member(obj, dep_section) {
        Some(section) => match as_object(section) {
            Some(deps) => narrowed_section(deps),
            None => {
                return ;
            },
        },
        None => {
            return ;
        },
    };
    let ghost top = map_members(json_object(*old(obj))->0);
    let section_value = object_value(new_deps);
    set_member(obj, dep_section, section_value);
    proof {
        let after = map_members(json_object(*obj)->0);
        assert(after == top.insert(dep_section@, section_value));
        assert(after.dom() =~= top.dom());
    }
}

/// Why a manifest could not be rewritten, with the message of the JSON
/// reader or writer that failed.
#[derive(Clone, Debug, PartialEq, Eq)]
pub enum PatchError {
    /// The manifest is not JSON.
    Parse(String),
    /// The rewritten manifest could not be written as JSON.
    Render(String),
}

impl PatchError {
    /// The message of the reader or writer that failed.
    pub fn message(&self) -> (r: String)
        ensures
            r@ == match *self {
                PatchError::Parse(text) => text@,
                PatchError::Render(text) => text@,
            },
    {
        match self {
            PatchError::Parse(text) => text.clone(),
            PatchError::Render(text) => text.clone(),
        }
    }
}

/// Whether `after` is the manifest `before` for patch mode: the
/// requirements of its dependencies are narrowed, then those of its
/// development dependencies.
pub open spec fn is_patched(before: Value, after: Value) -> bool {
    exists|middle: Value|
        #[trigger] is_narrowed_in(before, "dependencies"@, middle) && is_narrowed_in(
            middle,
            "devDependencies"@,
            after,
        )
}

/// Narrows the requirements of both dependency sections of a manifest.
pub fn narrow_requirements(manifest: &mut Value)
    ensures
        is_patched(*old(manifest), *final(manifest)),
{
    prefix_all_entries_with_tilde(manifest, "dependencies");
    let ghost middle = *manifest;
    prefix_all_entries_with_tilde(manifest, "devDependencies");
    assert(is_narrowed_in(*old(manifest), "dependencies"@, middle));
}

/// The text of the manifest that patch mode installs from in place of
/// `manifest`: the same JSON with the requirements of both dependency
/// sections narrowed.
///
/// A text that is not JSON gives `PatchError::Parse` with the reader's
/// message. Any other text gives the JSON of its rewritten value, or
/// `PatchError::Render` with the writer's message where that value cannot
/// be written.
pub fn patched_manifest(manifest: &str) -> (r: Result<String, PatchError>)
    ensures
        is_patching(json_parsed(manifest@), r),
{
    let mut value = match parse_json(manifest) {
        Ok(value) => value,
        Err(error) => {
            return Err(PatchError::Parse(error_text(&error)));
        },
    };
    let ghost before = value;
    narrow_requirements(&mut value);
    let r = written(render_json(&value));
    assert(json_parsed(manifest@) == Some(before));
    assert(is_patched(before, value) && rendering(r, json_rendered(value)));
    r
}

/// Whether `r` is what the rewriting returns for a manifest that reads as
/// `parsed`: the parse error where it is not JSON, and otherwise the
/// rendering of a patched value.
pub open spec fn is_patching(parsed: Option<Value>, r: Result<String, PatchError>) -> bool {
    match parsed {
        None => r matches Err(PatchError::Parse(_)),
        Some(before) => is_rendering_of_patched(before, r),
    }
}

/// Whether `r` is the rendering of some patched form of `before`.
pub open spec fn is_rendering_of_patched(before: Value, r: Result<String, PatchError>) -> bool {
    exists|after: Value| #[trigger]
        is_patched(before, after) && rendering(r, json_rendered(after))
}

/// Whether `r` is what the rewriting returns for a value whose JSON text
/// is `text`, or that has none.
pub open spec fn rendering(r: Result<String, PatchError>, text: Option<Seq<char>>) -> bool {
    match text {
        Some(text) => r matches Ok(s) && s@ == text,
        None => r matches Err(PatchError::Render(_)),
    }
}

/// The outcome of writing a manifest, with the library's error in place
/// of the one of the JSON writer. The error keeps the writer's message.
pub fn written(rendered: Result<String, serde_json::Error>) -> (r: Result<String, PatchError>)
    ensures
        match rendered {
            Ok(text) => r == Ok::<String, PatchError>(text),
            Err(_) => r matches Err(PatchError::Render(_)),
        },
{
    match rendered {
        Ok(text) => Ok(text),
        Err(error) => Err(PatchError::Render(error_text(&error))),
    }
}

} // verus!
