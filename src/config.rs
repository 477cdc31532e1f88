//! Settings of a run: where files go, the archive account, the reader
//! devices and the two fandom tables.

use vstd::prelude::*;

verus! {

/// A reader device that receives files over a remote file-transfer session.
#[derive(Clone, Debug)]
pub struct Device {
    pub name: String,
    pub ip: String,
    pub port: u16,
    pub username: String,
    pub password: String,
    /// Root folder on the device under which files are filed.
    pub download_folder: String,
    pub uses_koreader: Option<bool>,
}

/// The settings of a run.
///
/// `fandom_map` renames raw fandom tags to canonical names, and
/// `fandom_filter` lists, for a canonical name, the names that it suppresses.
/// In both tables the first entry for a name is the one that counts.
#[derive(Clone, Debug)]
pub struct Config {
    pub download_path: String,
    pub ao3_username: Option<String>,
    pub ao3_password: Option<String>,
    pub devices: Vec<Device>,
    pub fandom_map: Vec<(String, String)>,
    pub fandom_filter: Vec<(String, Vec<String>)>,
}

} // verus!
