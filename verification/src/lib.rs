pub mod argsource;
pub mod dispatch;
pub mod errors;
pub mod expand;
pub mod path;
pub mod request;
pub mod strutil;

pub use argsource::{
    expand_argfile_path, is_argfile_comment, reattach_marker, strip_argfile_comments,
};
pub use dispatch::{
    get_shell_and_flag, initial_strategy, list_separator, next_dispatch, spawn_plan, ChildExit,
    DispatchStep, DispatchStrategy, Platform, SpawnOutcome,
};
pub use errors::TenvError;
pub use expand::ResolvedEnv;
pub use path::{build_search_path, join_components, split_path_string};
pub use request::{parse_key_val, CommandArgs};
