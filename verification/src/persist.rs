//! Persisting: the collision policy and the plans for the two write
//! operations. The library computes the full destination path and
//! decides whether writing is allowed; performing the write or rename
//! is the host's part.

use vstd::prelude::*;
use crate::errors::RuleError;
use crate::paths::join_spec;
use crate::paths::join_path;
use crate::paths::parent_dir_spec;
use crate::paths::parent_of;
use crate::resolve::name_resolvable;
use crate::resolve::resolved_name_spec;
use crate::resolve::first_unresolved;
use crate::resolve::extension_value;
use crate::resolve::resolve_file_name;
use crate::selection::Selection;
use crate::selection::lookup_string_spec;
use crate::session::Session;
use crate::session::session_parent;
use crate::session::resolve_destination_directory;
use crate::template::extract_spec;

verus! {

/// Where and under what name a save will write.
#[derive(Debug)]
pub struct SavePlan {
    pub file_name: String,
    pub directory: String,
    pub full_path: String,
}

/// The non-destructive write policy: a destination that already
/// exists is never overwritten, it is reported instead.
pub fn persist_decision(file_name: &str, destination_exists: bool) -> (r: Result<(), RuleError>)
    ensures
        destination_exists ==> (r matches Err(e) && e matches RuleError::FileAlreadyExists(n)
            && n@ == file_name@),
        !destination_exists ==> r == Ok::<(), RuleError>(()),
{
    if destination_exists {
        Err(RuleError::FileAlreadyExists(file_name.to_owned()))
    } else {
        Ok(())
    }
}

/// The template a selection carries under its reserved `rule` key.
pub open spec fn selection_rule(sel: Selection) -> Option<Seq<char>> {
    lookup_string_spec(sel.entries@, "rule"@)
}

/// Plans a save: resolves the file name from the selection's `rule`
/// template, resolves the destination directory, and joins the two.
///
/// The name is resolved first, so a selection problem is reported
/// before the destination is looked at; the only failure after a
/// resolvable name is an unavailable desktop.
pub fn plan_save(session: &Session, selection: &Selection, save_to_desktop: bool) -> (r: Result<
    SavePlan,
    RuleError,
>)
    ensures
        match r {
            Ok(p) => {
                &&& selection_rule(*selection) is Some
                &&& name_resolvable(selection_rule(*selection)->0, selection.entries@)
                &&& p.file_name@ == resolved_name_spec(
                    selection_rule(*selection)->0,
                    selection.entries@,
                )
                &&& p.full_path@ == join_spec(p.directory@, p.file_name@)
                &&& (!save_to_desktop && session_parent(*session) is Some) ==> p.directory@
                    == session_parent(*session)->0
            },
            Err(e) => match e {
                RuleError::MissingSelectionValue(t) => {
                    ||| (selection_rule(*selection) is None && t@ == "rule"@)
                    ||| (selection_rule(*selection) is Some && first_unresolved(
                        extract_spec(selection_rule(*selection)->0),
                        selection.entries@,
                    ) == Some(t@))
                },
                RuleError::MissingExtension => {
                    &&& selection_rule(*selection) is Some
                    &&& first_unresolved(
                        extract_spec(selection_rule(*selection)->0),
                        selection.entries@,
                    ) is None
                    &&& extension_value(selection.entries@) is None
                },
                RuleError::DesktopDirUnavailable => {
                    &&& selection_rule(*selection) is Some
                    &&& name_resolvable(selection_rule(*selection)->0, selection.entries@)
                    &&& (save_to_desktop || session_parent(*session) is None)
                },
                _ => false,
            },
        },
{
    let rule = match selection.get_string("rule") {
        Some(rl) => rl.clone(),
        None => {
            return Err(RuleError::MissingSelectionValue("rule".to_owned()));
        },
    };
    let name = match resolve_file_name(rule.as_str(), selection) {
        Ok(n) => n,
        Err(e) => {
            return Err(e);
        },
    };
    let dir = match resolve_destination_directory(session, save_to_desktop) {
        Ok(d) => d,
        Err(e) => {
            return Err(e);
        },
    };
    let full = join_path(dir.as_str(), name.as_str());
    Ok(SavePlan { file_name: name, directory: dir, full_path: full })
}

/// The path a rename moves the existing file to: the new name beside
/// the old one, or the bare name when the old path determines no
/// parent.
pub open spec fn rename_target_spec(existing: Seq<char>, name: Seq<char>) -> Seq<char> {
    match parent_dir_spec(existing) {
        Some(d) => join_spec(d, name),
        None => name,
    }
}

/// Plans a rename-in-place: resolves the new name from the selection's
/// `rule` template and places it in the existing file's directory.
///
/// Unlike a save, a rename checks no collision; that asymmetry is the
/// observed policy of the legacy rename path.
pub fn plan_rename(existing_path: &str, selection: &Selection) -> (r: Result<String, RuleError>)
    ensures
        match r {
            Ok(target) => {
                &&& selection_rule(*selection) is Some
                &&& name_resolvable(selection_rule(*selection)->0, selection.entries@)
                &&& target@ == rename_target_spec(
                    existing_path@,
                    resolved_name_spec(selection_rule(*selection)->0, selection.entries@),
                )
            },
            Err(e) => match e {
                RuleError::MissingSelectionValue(t) => {
                    ||| (selection_rule(*selection) is None && t@ == "rule"@)
                    ||| (selection_rule(*selection) is Some && first_unresolved(
                        extract_spec(selection_rule(*selection)->0),
                        selection.entries@,
                    ) == Some(t@))
                },
                RuleError::MissingExtension => {
                    &&& selection_rule(*selection) is Some
                    &&& first_unresolved(
                        extract_spec(selection_rule(*selection)->0),
                        selection.entries@,
                    ) is None
                    &&& extension_value(selection.entries@) is None
                },
                _ => false,
            },
        },
{
    let rule = match selection.get_string("rule") {
        Some(rl) => rl.clone(),
        None => {
            return Err(RuleError::MissingSelectionValue("rule".to_owned()));
        },
    };
    let name = match resolve_file_name(rule.as_str(), selection) {
        Ok(n) => n,
        Err(e) => {
            return Err(e);
        },
    };
    match parent_of(existing_path) {
        Some(d) => Ok(join_path(d.as_str(), name.as_str())),
        None => Ok(name),
    }
}

} // verus!
