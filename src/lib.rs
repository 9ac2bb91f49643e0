//! Detection of migration statements that re-create tables over existing views.
//!
//! The library tokenizes SQL statements, matches `create`/`alter table` templates
//! against them, splits migration files into statements, extracts view names from
//! migration sources and selects the migration directories to work on.  Directory
//! walking and file access are left to the caller, which hands plain values in.

use vstd::prelude::*;

pub mod classify;
pub mod matching;
pub mod statements;
pub mod text;
pub mod tree;
pub mod views;

pub use classify::{filter_sql_string, find_table_stmt, operation_stmt_template, stmt_targets_view};
pub use matching::includes_sub_vec;
pub use statements::{get_stmt_blocks, split_stmt_string};
pub use tree::{
    get_latest_migration_file_path, get_migration_directory, is_migration_dir, is_sql_file,
    FsEntry, ScanError,
};
pub use views::{extract_view_name, get_views, ViewError, ViewScan};

verus! {

} // verus!
