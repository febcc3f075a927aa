use vstd::prelude::*;
use vstd::string::*;

use crate::text::opt_str_view;

verus! {

/// A row of the backup journal, as it is written.
pub struct NewBackupRecord<'a> {
    pub id: &'a str,
    pub backup_file: &'a str,
    pub backup_type: &'a str,
    pub app_version: &'a str,
    pub schema_version: i64,
    pub host_name: &'a str,
    pub os: &'a str,
    pub database_size: u64,
    pub sha256: &'a str,
    pub status: &'a str,
    pub error_message: Option<&'a str>,
}

/// A backup that finished: the journal row without status or error.
pub struct SuccessfulBackupRecord<'a> {
    pub id: &'a str,
    pub backup_file: &'a str,
    pub backup_type: &'a str,
    pub app_version: &'a str,
    pub schema_version: i64,
    pub host_name: &'a str,
    pub os: &'a str,
    pub database_size: u64,
    pub sha256: &'a str,
}

/// The journal row of a backup that finished: its fields as given, with
/// status `success` and no error message.
pub fn successful_backup_row<'a>(record: SuccessfulBackupRecord<'a>) -> (r: NewBackupRecord<'a>)
    ensures
        r.id@ == record.id@,
        r.backup_file@ == record.backup_file@,
        r.backup_type@ == record.backup_type@,
        r.app_version@ == record.app_version@,
        r.schema_version == record.schema_version,
        r.host_name@ == record.host_name@,
        r.os@ == record.os@,
        r.database_size == record.database_size,
        r.sha256@ == record.sha256@,
        r.status@ == "success"@,
        opt_str_view(r.error_message) is None,
{
    NewBackupRecord {
        id: record.id,
        backup_file: record.backup_file,
        backup_type: record.backup_type,
        app_version: record.app_version,
        schema_version: record.schema_version,
        host_name: record.host_name,
        os: record.os,
        database_size: record.database_size,
        sha256: record.sha256,
        status: "success",
        error_message: None,
    }
}

} // verus!
