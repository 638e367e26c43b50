//! Two-way synchronization of file system locations, with conflicts settled
//! by modification time alone.
//!
//! The crate holds the decisions of the synchronization engine: which
//! strategy applies to two paths, how walked entries become relative paths
//! and which of them the merge of two trees visits, what happens to each
//! visited entry, how the error policy's answers steer the run, and the
//! exact file system steps that settle a conflict. Reading the file system
//! and performing the steps is left to the caller.
pub mod paths;
pub mod plan;
pub mod policy;
pub mod reconcile;
pub mod time;
pub mod walk;

pub use paths::{
    is_mac_app, is_part_of_mac_app, path_has_extension, trim_base_path, BUNDLE_EXTENSION,
};
pub use plan::{
    newer_side, plan_copy_dir, plan_copy_to_missing, plan_dirs_replace, plan_file_merge,
    plan_file_with_dir, Step, TreeEntry,
};
pub use policy::{after_scan_error, after_step_error, ErrorHandlingType, Flow};
pub use reconcile::{classify, decide_entry, locate, EntryAction, EntryKind, Strategy};
pub use time::{latest_modification_time, Timestamp};
pub use walk::{entry_from_walk, is_visited, RelativeEntry, Side, WalkItem, WalkOutcome};
