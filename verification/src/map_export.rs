//! The files a player's map export is written as.
use vstd::prelude::*;

verus! {

/// File name of the text export.
pub const STARMAP_TEXT_FILE_NAME: &'static str = "starmap.txt";
/// File name of the CSV grid export.
pub const STARMAP_CSV_FILE_NAME: &'static str = "starmap.csv";
/// File name of the CSV world list export.
pub const STARMAP_DETAILS_CSV_FILE_NAME: &'static str = "starmap-DETAILS.csv";

/// One file of a map export: its fixed name and its contents.
#[derive(Debug, Clone, PartialEq, Eq)]
pub struct PlayerMapExportFile {
    pub name: &'static str,
    pub contents: String,
}

/// The three renderings of a player's map.
#[derive(Debug, Clone, PartialEq, Eq)]
pub struct PlayerMapExportData {
    pub ascii_export: String,
    pub csv_export: String,
    pub csv_details_export: String,
}

impl PlayerMapExportData {
    /// The export as files: the text map, the CSV grid and the CSV world
    /// list, under their fixed names, in that order.
    pub fn fixed_named_files(&self) -> (r: Vec<PlayerMapExportFile>)
        ensures
            r@.len() == 3,
            r@[0].name@ == STARMAP_TEXT_FILE_NAME@,
            r@[0].contents@ == self.ascii_export@,
            r@[1].name@ == STARMAP_CSV_FILE_NAME@,
            r@[1].contents@ == self.csv_export@,
            r@[2].name@ == STARMAP_DETAILS_CSV_FILE_NAME@,
            r@[2].contents@ == self.csv_details_export@,
    {
        vec![
            PlayerMapExportFile {
                name: STARMAP_TEXT_FILE_NAME,
                contents: self.ascii_export.clone(),
            },
            PlayerMapExportFile { name: STARMAP_CSV_FILE_NAME, contents: self.csv_export.clone() },
            PlayerMapExportFile {
                name: STARMAP_DETAILS_CSV_FILE_NAME,
                contents: self.csv_details_export.clone(),
            },
        ]
    }
}

} // verus!
