//! Filename-generation and file-persistence rules for a desktop renaming tool.
//!
//! A naming rule is a template string with `{token}` placeholders. The
//! library extracts the tokens, substitutes user-chosen values, appends an
//! extension, decides where the resulting file belongs, and refuses to
//! overwrite an existing file. All file-system work is left to the caller;
//! the library computes names, paths and decisions, and proves them right.

pub mod errors;
pub mod laws;
pub mod paths;
pub mod persist;
pub mod resolve;
pub mod session;
pub mod selection;
pub mod template;
pub mod text;

pub use errors::RuleError;
pub use selection::RuleDocument;
pub use selection::Selection;
pub use selection::TokenValue;
pub use resolve::resolve_file_name;
pub use persist::SavePlan;
pub use persist::persist_decision;
pub use persist::plan_save;
pub use persist::plan_rename;
pub use session::Session;
pub use session::LoadedRule;
pub use session::load_rule_document;
pub use session::choose_destination;
pub use session::resolve_destination_directory;
pub use template::extract_tokens;
