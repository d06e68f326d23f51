//! Library behind a small desktop launcher for the Typora editor.
//!
//! The library holds the launcher's decision logic: the single
//! configuration value (the editor's executable path), the on-disk
//! record that persists it, the search order used to auto-detect an
//! installation, and the commands and error messages that the launcher
//! hands to the operating system. The surrounding binary performs the
//! actual process spawning, registry reads and file access, and feeds
//! their outcomes to the functions here.

use vstd::prelude::*;

pub mod codec;
pub mod launch;
pub mod locate;
pub mod store;

pub use codec::encode_store;
pub use codec::parse_store;
pub use launch::Platform;
pub use launch::SpawnPlan;
pub use launch::launch_typora_command;
pub use launch::launch_typora_outcome;
pub use launch::open_url_outcome;
pub use launch::url_spawn_plan;
pub use locate::auto_detect_typora_path;
pub use locate::fixed_candidates;
pub use locate::registry_choice;
pub use locate::registry_dir_join;
pub use store::ConfigStore;
pub use store::store_access_error;
pub use store::store_save_error;

verus! {

} // verus!
