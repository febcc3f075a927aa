use std::path::PathBuf;
use vstd::prelude::*;

verus! {

/// `std::path::PathBuf`, carried through the library as an opaque value.
#[verifier::external_type_specification]
#[verifier::external_body]
pub struct ExPathBuf(PathBuf);

/// Calls `Path::join`, the path of `name` inside `base`.  Nothing is stated
/// of the result: the separator it inserts depends on the platform.
#[verifier::external_body]
fn path_join(base: &PathBuf, name: &str) -> (r: PathBuf) {
    base.join(name)
}

/// Where the application keeps its files: the data directory, the database
/// in it, and the directories of backups, exports and import reports.
#[derive(Debug)]
pub struct AppPaths {
    pub data_dir: PathBuf,
    pub database_path: PathBuf,
    pub backup_dir: PathBuf,
    pub export_dir: PathBuf,
    pub import_report_dir: PathBuf,
}

impl AppPaths {
    /// The layout under `data_dir`: `aster.sqlite`, `backups`, `exports` and
    /// `import-reports`.
    pub fn from_data_dir(data_dir: PathBuf) -> (r: AppPaths)
        ensures
            r.data_dir == data_dir,
    {
        let database_path = path_join(&data_dir, "aster.sqlite");
        let backup_dir = path_join(&data_dir, "backups");
        let export_dir = path_join(&data_dir, "exports");
        let import_report_dir = path_join(&data_dir, "import-reports");
        AppPaths { data_dir, database_path, backup_dir, export_dir, import_report_dir }
    }
}

} // verus!
