//! Session state and destination choice. The session remembers the
//! path of the most recently loaded rule document; a save that is not
//! directed at the desktop lands beside that document, and falls back
//! to the desktop when no such place can be determined.

use vstd::prelude::*;
use crate::errors::RuleError;
use crate::paths::has_config_extension;
use crate::paths::extension_spec;
use crate::paths::parent_dir_spec;
use crate::paths::parent_of;
use crate::selection::RuleDocument;
use crate::template::extract_spec;
use crate::template::extract_tokens;

verus! {

/// The process-scoped memory of the last successfully loaded rule
/// document. It starts empty and is overwritten by every successful
/// load; only the latest document is remembered.
pub struct Session {
    pub last_loaded: Option<String>,
}

/// The parent directory of the last loaded document, if a document was
/// loaded and its path determines one.
pub open spec fn session_parent(s: Session) -> Option<Seq<char>> {
    match s.last_loaded {
        Some(p) => parent_dir_spec(p@),
        None => None,
    }
}

impl Session {
    /// A fresh session: no document has been loaded.
    pub fn new() -> (r: Session)
        ensures
            r.last_loaded is None,
    {
        Session { last_loaded: None }
    }
}

/// What a successful load returns: the template and its tokens in
/// order of first appearance.
#[derive(Debug)]
pub struct LoadedRule {
    pub rule: String,
    pub keys: Vec<String>,
}

/// Validates a rule document against its source path and records the
/// path in the session.
///
/// Fails with `InvalidExtension`, leaving the session untouched, when
/// the path does not end in the configuration extension; otherwise
/// remembers the path and returns the template with its tokens.
pub fn load_rule_document(session: &mut Session, path: &str, doc: &RuleDocument) -> (r: Result<
    LoadedRule,
    RuleError,
>)
    ensures
        match r {
            Ok(lr) => {
                &&& extension_spec(path@) == Some("json"@)
                &&& lr.rule@ == doc.rule@
                &&& lr.keys.deep_view() == extract_spec(doc.rule@)
                &&& final(session).last_loaded matches Some(p) && p@ == path@
            },
            Err(e) => {
                &&& e == RuleError::InvalidExtension
                &&& extension_spec(path@) != Some("json"@)
                &&& *final(session) == *old(session)
            },
        },
{
    if !has_config_extension(path) {
        return Err(RuleError::InvalidExtension);
    }
    session.last_loaded = Some(path.to_owned());
    Ok(LoadedRule { rule: doc.rule.clone(), keys: extract_tokens(doc.rule.as_str()) })
}

/// Relies on dirs::desktop_dir: the desktop directory of the current
/// user, if the platform defines one and its path is unicode. The
/// result depends on the environment, so nothing is promised of it.
#[verifier::external_body]
fn desktop_dir_string() -> Option<String> {
    dirs::desktop_dir().and_then(|p| p.to_str().map(|s| s.to_string()))
}

/// The destination-directory decision, taken on plain values: the
/// desktop when asked for it, else the directory of the last loaded
/// document, else the desktop again; an unavailable desktop fails
/// exactly where it is needed.
pub fn choose_destination(save_to_desktop: bool, session: &Session, desktop: Option<String>) -> (r:
    Result<String, RuleError>)
    ensures
        (save_to_desktop || session_parent(*session) is None) ==> r == (match desktop {
            Some(d) => Ok::<String, RuleError>(d),
            None => Err::<String, RuleError>(RuleError::DesktopDirUnavailable),
        }),
        (!save_to_desktop && session_parent(*session) is Some) ==> (r matches Ok(o) && o@
            == session_parent(*session)->0),
{
    if save_to_desktop {
        match desktop {
            Some(d) => Ok(d),
            None => Err(RuleError::DesktopDirUnavailable),
        }
    } else {
        let parent = match &session.last_loaded {
            Some(p) => parent_of(p.as_str()),
            None => None,
        };
        match parent {
            Some(d) => Ok(d),
            None => match desktop {
                Some(d) => Ok(d),
                None => Err(RuleError::DesktopDirUnavailable),
            },
        }
    }
}

/// Resolves the destination directory for a save: the desktop when
/// `save_to_desktop` is set, else the directory of the last loaded
/// document, falling back to the desktop; the only possible failure is
/// an unavailable desktop.
pub fn resolve_destination_directory(session: &Session, save_to_desktop: bool) -> (r: Result<
    String,
    RuleError,
>)
    ensures
        (!save_to_desktop && session_parent(*session) is Some) ==> (r matches Ok(o) && o@
            == session_parent(*session)->0),
        r matches Err(e) ==> e == RuleError::DesktopDirUnavailable && (save_to_desktop
            || session_parent(*session) is None),
{
    let needs_desktop = save_to_desktop || match &session.last_loaded {
        Some(p) => parent_of(p.as_str()).is_none(),
        None => true,
    };
    let desktop = if needs_desktop {
        desktop_dir_string()
    } else {
        None
    };
    choose_destination(save_to_desktop, session, desktop)
}

} // verus!
