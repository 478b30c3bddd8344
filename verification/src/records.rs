//! Plain record types of the surrounding application's storage and settings
//! layers. That layer itself (persistence, queries) is I/O and lives outside
//! the library; only the data shapes and the default settings are here.

use vstd::prelude::*;
use vstd::string::*;

verus! {

/// One stored patient row.
#[derive(Debug)]
pub struct PatientRecord {
    pub id: i32,
    pub admission_no: String,
    pub national_id: Option<String>,
    pub firstname: String,
    pub lastname: String,
    pub contact_person: Option<String>,
    pub telephone_1: Option<String>,
    pub telephone_2: Option<String>,
    pub classification: String,
    pub doctor: Option<String>,
}

/// One admission as submitted for storage. The `reference` and
/// `cancer_tests` fields carry pre-encoded text.
#[derive(Debug)]
pub struct AdmissionData {
    pub admission_no: String,
    pub doctor_in_charge: String,
    pub technician: Option<String>,
    pub diabetes_test: Option<i32>,
    pub reference: String,
    pub cancer_tests: String,
}

/// The application's settings.
#[derive(Debug)]
pub struct AppSettings {
    pub theme: String,
    pub baud_rate_default: u32,
    pub auto_connect_enabled: bool,
    pub default_doctor_name: String,
    pub log_level: String,
    pub log_file_location: String,
    pub sqlite_file_path: String,
}

/// The settings used when none have been stored yet.
pub fn default_settings() -> (r: AppSettings)
    ensures
        r.theme@ == "system"@,
        r.baud_rate_default == 9600u32,
        r.auto_connect_enabled,
        r.default_doctor_name@.len() == 0,
        r.log_level@ == "info"@,
        r.log_file_location@.len() == 0,
        r.sqlite_file_path@.len() == 0,
{
    AppSettings {
        theme: String::from_str("system"),
        baud_rate_default: 9600,
        auto_connect_enabled: true,
        default_doctor_name: String::new(),
        log_level: String::from_str("info"),
        log_file_location: String::new(),
        sqlite_file_path: String::new(),
    }
}

} // verus!
