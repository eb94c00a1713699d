//! Interactive picker for the scripts declared in a project manifest: builds
//! the sorted command list, filters it, and drives the selection state machine.

pub mod command_list;
pub mod filter;
pub mod manifest;
pub mod picker;
pub mod selection;
pub mod text;

pub use command_list::sort_command_list;
pub use filter::filter_commands;
pub use manifest::{
    build_command_list, get_package_manager_prefix, is_npm_used, is_pnpm_used, is_yarn_used,
    package_manager_prefix, CommandPrefix, ManifestError, PackageJson,
};
pub use picker::{Action, Key, Mode, Picker, Row};
