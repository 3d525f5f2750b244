//! Finds out which dependencies of an npm project to update, and how.
//!
//! The package manager reports the outdated dependencies of a project one
//! per line. `record` states the format of such a line and reads it;
//! `package` decides for each dependency which version it is moved to,
//! whether that may break the project, and whether the run leaves it alone;
//! `report` goes from the whole report to the arguments of the install
//! step. `utility` holds the configuration of a run, `npm_cmd` the
//! structured form of a report entry and the rewriting of a manifest for
//! patch mode, `json` what that rewriting takes on trust from `serde_json`,
//! and `text` the character sequences that all of it is stated over.

pub mod json;
pub mod npm_cmd;
pub mod package;
pub mod record;
pub mod report;
pub mod text;
pub mod utility;
