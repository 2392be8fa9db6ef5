// Managing symbolic links from system paths into a repository of configuration files.
//
// `resolve` maps a logical path to its place in the repository and on the system, `link`
// decides each step of creating, removing and importing a link, `listing` reads managed links
// back, and `config` holds the configuration every command runs with.
pub mod config;
pub mod escalate;
pub mod link;
pub mod listing;
pub mod prompt;
pub mod resolve;
pub mod text;

pub use config::{Config, ConfigError};
pub use escalate::{escalated_exit_code, escalation_args};
pub use link::{Action, Entry, Occupant, Operation, OsFailure, Outcome};
pub use listing::{link_subpath, list, logical_path};
pub use prompt::parse_answer;
pub use resolve::{
    config_path, locate, needs_hostname, resolve, system_path, ResolveError, Resolved,
};
