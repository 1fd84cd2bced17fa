use cursor_switcher::system::{
    braced_upper, storage_entries, update_registry_machine_guid, Database, Logger, MachineIdGenerator,
    MachineIdResetter, PathDetector,
};
use std::path::{Path, PathBuf};

#[test]
fn test_generate_machine_ids() {
    let ids = MachineIdGenerator::generate().unwrap();

    // Validate that all IDs are non-empty
    assert!(!ids.machine_id.is_empty());
    assert!(!ids.mac_machine_id.is_empty());
    assert!(!ids.dev_device_id.is_empty());
    assert!(!ids.sqm_id.is_empty());

    // Validate UUID format (basic check)
    assert!(ids.machine_id.contains('-'));
    assert!(ids.mac_machine_id.contains('-'));
    assert!(ids.dev_device_id.contains('-'));

    // Validate sqm_id has braces and is uppercase
    assert!(ids.sqm_id.starts_with('{'));
    assert!(ids.sqm_id.ends_with('}'));
    assert_eq!(ids.sqm_id, ids.sqm_id.to_uppercase());
}

#[test]
fn test_generate_unique_ids() {
    let ids1 = MachineIdGenerator::generate().unwrap();
    let ids2 = MachineIdGenerator::generate().unwrap();

    // Each generation should produce unique IDs
    assert_ne!(ids1.machine_id, ids2.machine_id);
    assert_ne!(ids1.mac_machine_id, ids2.mac_machine_id);
    assert_ne!(ids1.dev_device_id, ids2.dev_device_id);
    assert_ne!(ids1.sqm_id, ids2.sqm_id);
}

#[test]
fn machine_ids_have_uuid_shape() {
    let ids = MachineIdGenerator::generate().unwrap();
    assert_eq!(ids.machine_id.len(), 36);
    assert_eq!(ids.sqm_id.len(), 38);
    assert_eq!(ids.machine_id, ids.machine_id.to_lowercase());
    assert_ne!(ids.sqm_id[1..37].to_string(), ids.sqm_id[1..37].to_lowercase());
}

#[test]
fn editor_file_paths() {
    let base = Path::new("/home/u/.config/Cursor/User/globalStorage");
    assert_eq!(PathDetector::get_db_path(base), base.join("state.vscdb"));
    assert_eq!(PathDetector::get_storage_path(base), base.join("storage.json"));
}

#[test]
fn logger_path_is_app_log() {
    let logger = Logger::new(PathBuf::from("/tmp/logs"));
    assert_eq!(logger.get_log_path(), PathBuf::from("/tmp/logs/app.log"));
}

#[test]
fn stores_keep_their_paths() {
    assert_eq!(Database::new(PathBuf::from("a.db")).path(), &PathBuf::from("a.db"));
    assert_eq!(MachineIdResetter::new(PathBuf::from("/b")).base_path(), &PathBuf::from("/b"));
}

#[test]
fn storage_entries_name_the_telemetry_keys() {
    let ids = MachineIdGenerator::generate().unwrap();
    let e = storage_entries(&ids);
    assert_eq!(e.len(), 4);
    assert_eq!(e[0], ("telemetry.machineId".to_string(), ids.machine_id.clone()));
    assert_eq!(e[1], ("telemetry.macMachineId".to_string(), ids.mac_machine_id.clone()));
    assert_eq!(e[2], ("telemetry.devDeviceId".to_string(), ids.dev_device_id.clone()));
    assert_eq!(e[3], ("telemetry.sqmId".to_string(), ids.sqm_id.clone()));
}

#[test]
fn registry_update_is_a_no_op_here() {
    assert!(update_registry_machine_guid().is_ok());
}

#[test]
fn sqm_id_form_is_braced_upper_case() {
    assert_eq!(braced_upper("0f3a-bc"), "{0F3A-BC}");
    assert_eq!(braced_upper(""), "{}");
}
