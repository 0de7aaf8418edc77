//! The replace/rollback engine of a self-updater: which entries of an install
//! root belong to the managed installation, where each one moves during an
//! update or a recovery, how archive entries map into the root, what the
//! manifest records, and how a run reacts to each stage's outcome. The
//! filesystem, network and archive work is done by the caller, which hands
//! in what it listed or read and carries out what comes back.
use vstd::prelude::*;

pub mod api;
pub mod archive;
pub mod args;
pub mod error;
pub mod manifest;
pub mod model;
pub mod options;
pub mod stages;
pub mod update;

pub use api::resource_urls;
pub use archive::{entry_target, extract_plan, EntryTarget, ExtractionPlan};
pub use args::{get_args, Args, ArgsError};
pub use error::{ErrorKind, UpdateError};
pub use manifest::{load_files_ref, save_files_ref, SavedManifest};
pub use options::{join_path, Options};
pub use stages::{
    contains_name, decimal_string, move_to_old, move_to_unknown, moves_between,
    recover_from_old, Move, QuarantinePlan,
};
pub use update::{Action, Stage, UpdateRun};

verus! {

} // verus!
