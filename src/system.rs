//! The local collaborators of the editor: where its files are, and the handles of
//! the stores that the application reads and writes.

use vstd::prelude::*;
use vstd::string::*;
use std::path::{Path, PathBuf};
use vstd::slice::slice_subrange;
use crate::codec::{new_uuid, time_stamp_now, to_upper_case, upper_case_of, LOG_TIME_FORMAT};
use crate::text::{
    contains_text, holds, join_with_spaces, joined_with_spaces, replace_text, replaced_from,
    split_words, trim_text, trimmed, words,
};
use crate::types::{LogEntry, MachineIds};

verus! {

#[verifier::external_type_specification]
#[verifier::external_body]
pub struct ExPathBuf(PathBuf);

#[verifier::external_type_specification]
#[verifier::external_body]
pub struct ExPath(Path);

/// The path that `Path::join` makes of `base` and the relative name `name`.
pub uninterp spec fn joined_path(base: &Path, name: Seq<char>) -> PathBuf;

/// Relies on `Path::join`, which depends on its arguments alone.
#[verifier::external_body]
fn join_path(base: &Path, name: &str) -> (r: PathBuf)
    ensures
        r == joined_path(base, name@),
{
    base.join(name)
}

/// Relies on `PathBuf::as_path`: the path that a `PathBuf` holds.
#[verifier::external_body]
fn as_path(p: &PathBuf) -> (r: &Path)
    ensures
        r == path_of(p),
{
    p.as_path()
}

/// The borrowed path that `p` holds.
pub uninterp spec fn path_of(p: &PathBuf) -> &Path;

/// Relies on `PathBuf::clone`, which gives an equal path.
#[verifier::external_body]
fn clone_path(p: &PathBuf) -> (r: PathBuf)
    ensures
        r == *p,
{
    p.clone()
}

/// Locates the editor's files.
pub struct PathDetector;

impl PathDetector {
    /// The editor's key-value database under its storage directory `base_path`.
    pub fn get_db_path(base_path: &Path) -> (r: PathBuf)
        ensures
            r == joined_path(base_path, "state.vscdb"@),
    {
        join_path(base_path, "state.vscdb")
    }

    /// The editor's settings file under its storage directory `base_path`.
    pub fn get_storage_path(base_path: &Path) -> (r: PathBuf)
        ensures
            r == joined_path(base_path, "storage.json"@),
    {
        join_path(base_path, "storage.json")
    }
}

/// The editor's key-value database that holds the signed-in account.
pub struct Database {
    path: PathBuf,
}

impl Database {
    pub closed spec fn path_view(&self) -> PathBuf {
        self.path
    }

    pub fn new(db_path: PathBuf) -> (r: Database)
        ensures
            r.path_view() == db_path,
    {
        Database { path: db_path }
    }

    /// Where the database lies.
    pub fn path(&self) -> (r: &PathBuf)
        ensures
            *r == self.path_view(),
    {
        &self.path
    }
}

/// The application's log file, `app.log` in a log directory.
pub struct Logger {
    log_path: PathBuf,
}

impl Logger {
    pub closed spec fn log_path_view(&self) -> PathBuf {
        self.log_path
    }

    pub fn new(log_dir: PathBuf) -> (r: Logger)
        ensures
            r.log_path_view() == joined_path(path_of(&log_dir), "app.log"@),
    {
        let dir = as_path(&log_dir);
        Logger { log_path: join_path(dir, "app.log") }
    }

    /// The log file's path.
    pub fn get_log_path(&self) -> (r: PathBuf)
        ensures
            r == self.log_path_view(),
    {
        clone_path(&self.log_path)
    }

    /// Reads one log line, `<timestamp> <level> <message...>` with words separated
    /// by any white space. A non-blank line with fewer than three words is kept
    /// whole as an `INFO` message stamped with the time now (empty when the clock
    /// cannot be read); a blank line gives nothing.
    pub fn parse_log_line(&self, line: &str) -> (r: Option<LogEntry>)
        ensures
            words(line@).len() >= 3 ==> (r matches Some(e) && e.timestamp@ == words(line@)[0]
                && e.level@ == words(line@)[1] && e.message@ == joined_with_spaces(
                words(line@).subrange(2, words(line@).len() as int),
            )),
            words(line@).len() < 3 && trimmed(line@).len() > 0 ==> (r matches Some(e)
                && e.level@ == "INFO"@ && e.message@ == line@),
            words(line@).len() < 3 && trimmed(line@).len() == 0 ==> r is None,
    {
        let ws = split_words(line);
        if ws.len() >= 3 {
            let rest = slice_subrange(ws.as_slice(), 2, ws.len());
            let message = join_with_spaces(rest);
            proof {
                assert(rest@.map_values(|w: String| w@) =~= words(line@).subrange(
                    2,
                    words(line@).len() as int,
                ));
            }
            Some(
                LogEntry {
                    timestamp: ws[0].clone(),
                    level: ws[1].clone(),
                    message,
                },
            )
        } else if !trim_text(line).is_empty() {
            Some(
                LogEntry {
                    timestamp: time_stamp_now(LOG_TIME_FORMAT),
                    level: "INFO".to_string(),
                    message: line.to_string(),
                },
            )
        } else {
            None
        }
    }
}

/// Replaces the identifiers by which the editor recognises the machine, under its
/// storage directory.
pub struct MachineIdResetter {
    base_path: PathBuf,
}

impl MachineIdResetter {
    pub closed spec fn base_path_view(&self) -> PathBuf {
        self.base_path
    }

    pub fn new(base_path: PathBuf) -> (r: MachineIdResetter)
        ensures
            r.base_path_view() == base_path,
    {
        MachineIdResetter { base_path }
    }

    /// The storage directory.
    pub fn base_path(&self) -> (r: &PathBuf)
        ensures
            *r == self.base_path_view(),
    {
        &self.base_path
    }
}

/// The keys of the settings file that hold the machine identifiers, each with the
/// value to store.
pub fn storage_entries(ids: &MachineIds) -> (r: Vec<(String, String)>)
    ensures
        r@.len() == 4,
        r@[0].0@ == "telemetry.machineId"@ && r@[0].1 == ids.machine_id,
        r@[1].0@ == "telemetry.macMachineId"@ && r@[1].1 == ids.mac_machine_id,
        r@[2].0@ == "telemetry.devDeviceId"@ && r@[2].1 == ids.dev_device_id,
        r@[3].0@ == "telemetry.sqmId"@ && r@[3].1 == ids.sqm_id,
{
    let mut r: Vec<(String, String)> = Vec::new();
    r.push(("telemetry.machineId".to_string(), ids.machine_id.clone()));
    r.push(("telemetry.macMachineId".to_string(), ids.mac_machine_id.clone()));
    r.push(("telemetry.devDeviceId".to_string(), ids.dev_device_id.clone()));
    r.push(("telemetry.sqmId".to_string(), ids.sqm_id.clone()));
    r
}

/// The command by which the editor reads the hardware UUID on macOS.
pub const MACOS_HARDWARE_ID_COMMAND: &'static str = "ioreg -rd1 -c IOPlatformExpertDevice";

/// The command that prints a fresh random UUID in its place.
pub const MACOS_RANDOM_ID_COMMAND: &'static str =
    r#"UUID=$(uuidgen | tr '[:upper:]' '[:lower:]');echo \"IOPlatformUUID = \"$UUID\";"#;

/// The registry queries by which versions of the editor read the machine GUID on
/// Windows.
pub const WINDOWS_GUID_QUERY_V5: &'static str =
    r#"${v5[s$()]}\\REG.exe QUERY HKEY_LOCAL_MACHINE\\SOFTWARE\\Microsoft\\Cryptography /v MachineGuid"#;

pub const WINDOWS_GUID_QUERY_U5: &'static str =
    r#"${u5[bM()]}\\REG.exe QUERY HKEY_LOCAL_MACHINE\\SOFTWARE\\Microsoft\\Cryptography /v MachineGuid"#;

/// The command that prints a fresh random GUID in their place.
pub const WINDOWS_RANDOM_GUID_COMMAND: &'static str =
    r#"powershell -Command "[guid]::NewGuid().ToString().ToLower()""#;

/// The editor's main script with every hardware UUID read replaced by a random
/// one (macOS).
pub fn patch_main_js_macos(content: &str) -> (r: String)
    ensures
        r@ == replaced_from(content@, MACOS_HARDWARE_ID_COMMAND@, MACOS_RANDOM_ID_COMMAND@, 0),
{
    proof {
        reveal_strlit("ioreg -rd1 -c IOPlatformExpertDevice");
    }
    replace_text(content, MACOS_HARDWARE_ID_COMMAND, MACOS_RANDOM_ID_COMMAND)
}

/// The editor's main script with every machine GUID query of the first known form
/// that it holds replaced by a random GUID (Windows), and whether one was found.
pub fn patch_main_js_windows(content: &str) -> (r: (String, bool))
    ensures
        holds(content@, WINDOWS_GUID_QUERY_V5@) ==> r.1 && r.0@ == replaced_from(
            content@,
            WINDOWS_GUID_QUERY_V5@,
            WINDOWS_RANDOM_GUID_COMMAND@,
            0,
        ),
        !holds(content@, WINDOWS_GUID_QUERY_V5@) && holds(content@, WINDOWS_GUID_QUERY_U5@) ==> r.1
            && r.0@ == replaced_from(content@, WINDOWS_GUID_QUERY_U5@, WINDOWS_RANDOM_GUID_COMMAND@, 0),
        !holds(content@, WINDOWS_GUID_QUERY_V5@) && !holds(content@, WINDOWS_GUID_QUERY_U5@) ==> !r.1
            && r.0@ == content@,
{
    proof {
        reveal_strlit(
            r#"${v5[s$()]}\\REG.exe QUERY HKEY_LOCAL_MACHINE\\SOFTWARE\\Microsoft\\Cryptography /v MachineGuid"#,
        );
        reveal_strlit(
            r#"${u5[bM()]}\\REG.exe QUERY HKEY_LOCAL_MACHINE\\SOFTWARE\\Microsoft\\Cryptography /v MachineGuid"#,
        );
    }
    if contains_text(content, WINDOWS_GUID_QUERY_V5) {
        (replace_text(content, WINDOWS_GUID_QUERY_V5, WINDOWS_RANDOM_GUID_COMMAND), true)
    } else if contains_text(content, WINDOWS_GUID_QUERY_U5) {
        (replace_text(content, WINDOWS_GUID_QUERY_U5, WINDOWS_RANDOM_GUID_COMMAND), true)
    } else {
        (content.to_string(), false)
    }
}

/// Whether a patched script holds the replacement command.
pub fn holds_command(content: &str, command: &str) -> (r: bool)
    ensures
        r == holds(content@, command@),
{
    contains_text(content, command)
}

/// Stops and starts the editor.
pub struct ProcessManager;

/// `id` in upper case between braces, the form of the telemetry `sqmId`.
pub fn braced_upper(id: &str) -> (r: String)
    ensures
        r@ == seq!['{'] + upper_case_of(id@) + seq!['}'],
{
    let upper = to_upper_case(id);
    let mut r = "{".to_string();
    r.append(upper.as_str());
    r.append("}");
    proof {
        reveal_strlit("{");
        reveal_strlit("}");
    }
    r
}

/// Makes fresh machine identifiers.
pub struct MachineIdGenerator;

impl MachineIdGenerator {
    /// Three fresh random identifiers in hyphenated form, and a fourth in upper
    /// case between braces; `None` when the operating system's random source fails.
    pub fn generate() -> (r: Option<MachineIds>)
        ensures
            r matches Some(ids) ==> {
                &&& ids.machine_id@.len() == 36 && ids.machine_id@[8] == '-'
                &&& ids.mac_machine_id@.len() == 36 && ids.mac_machine_id@[8] == '-'
                &&& ids.dev_device_id@.len() == 36 && ids.dev_device_id@[8] == '-'
                &&& exists|u: Seq<char>|
                    u.len() == 36 && u[8] == '-' && ids.sqm_id@ == seq!['{'] + upper_case_of(u)
                        + seq!['}']
            },
    {
        let machine_id = match new_uuid() {
            Some(u) => u,
            None => return None,
        };
        let mac_machine_id = match new_uuid() {
            Some(u) => u,
            None => return None,
        };
        let dev_device_id = match new_uuid() {
            Some(u) => u,
            None => return None,
        };
        let u = match new_uuid() {
            Some(u) => u,
            None => return None,
        };
        let sqm_id = braced_upper(u.as_str());
        Some(MachineIds { machine_id, mac_machine_id, dev_device_id, sqm_id })
    }
}

/// The registry holds no machine identifier off Windows: nothing to replace.
pub fn update_registry_machine_guid() -> (r: Result<(), String>)
    ensures
        r is Ok,
{
    Ok(())
}

} // verus!
