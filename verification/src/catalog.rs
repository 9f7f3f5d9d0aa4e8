//! The catalogue of region files: which entries of a directory are region
//! files, and which region each of them holds.

use vstd::prelude::*;
use crate::coords::Coords;
use crate::text::{extension, extension_of, parse_i64, parse_i64_spec, str_eq};

verus! {

/// The extension of a region file, without the dot.
pub const REGION_EXTENSION: &'static str = "mca";

/// The pattern of a region file's name: `r.`, the region's `x`, a dot, its
/// `z`, and `.mca`, with white space allowed before and after. The two
/// numbers are the capture groups 1 and 2.
pub const REGION_PATTERN: &'static str = r"^\s*r\.(-?\d+)\.(-?\d+)\.mca\s*$";

/// What a regular expression finds in a text, as the `regex` crate defines
/// it: `None` where `pattern` is no valid expression or does not match
/// `text`; else one entry for each capture group of the leftmost match,
/// group 0 (the whole match) first, each holding the text that the group
/// matched or `None` where the group took no part.
pub uninterp spec fn regex_captures(pattern: Seq<char>, text: Seq<char>) -> Option<
    Seq<Option<Seq<char>>>,
>;

/// The capture groups as sequences of characters.
pub open spec fn groups_view(groups: Option<Vec<Option<String>>>) -> Option<
    Seq<Option<Seq<char>>>,
> {
    match groups {
        None => None,
        Some(found) => Some(
            found@.map_values(
                |group: Option<String>|
                    match group {
                        None => None,
                        Some(text) => Some(text@),
                    },
            ),
        ),
    }
}

/// `Regex::new` and `Regex::captures` of the `regex` crate: compiles
/// `pattern` and searches `text` for its leftmost match. The result depends
/// on the two strings alone and is known here only by the name
/// `regex_captures`; the groups are handed out as owned strings, in the order
/// of `Captures::iter`.
#[verifier::external_body]
pub(crate) fn captures(pattern: &str, text: &str) -> (groups: Option<Vec<Option<String>>>)
    ensures
        groups_view(groups) == regex_captures(pattern@, text@),
{
    let rx = regex::Regex::new(pattern).ok()?;
    let found = rx.captures(text)?;
    Some(found.iter().map(|m| m.map(|m| m.as_str().to_owned())).collect())
}

/// The region that capture groups name: groups 1 and 2 must both have taken
/// part in the match and must each be the numeral of an `i64`.
pub open spec fn coords_of_groups(groups: Option<Seq<Option<Seq<char>>>>) -> Option<Coords> {
    match groups {
        None => None,
        Some(found) => {
            if found.len() < 3 {
                None
            } else {
                match (found[1], found[2]) {
                    (Some(x), Some(z)) => match (parse_i64_spec(x), parse_i64_spec(z)) {
                        (Ok(x), Ok(z)) => Some(Coords { x, z }),
                        _ => None,
                    },
                    _ => None,
                }
            }
        },
    }
}

/// The region named by a file name, as far as the name follows the pattern
/// of region files.
pub open spec fn parse_coords_spec(name: Seq<char>) -> Option<Coords> {
    coords_of_groups(regex_captures(REGION_PATTERN@, name))
}

/// Reads the coordinates of a region from the capture groups of a matched
/// file name.
pub fn coords_from_captures(groups: &Option<Vec<Option<String>>>) -> (coords: Option<Coords>)
    ensures
        coords == coords_of_groups(groups_view(*groups)),
{
    match groups {
        None => None,
        Some(found) => {
            if found.len() < 3 {
                return None;
            }
            match (&found[1], &found[2]) {
                (Some(x), Some(z)) => {
                    match (parse_i64(x.as_str()), parse_i64(z.as_str())) {
                        (Ok(x), Ok(z)) => Some(Coords { x, z }),
                        _ => None,
                    }
                },
                _ => None,
            }
        },
    }
}

/// Reads the coordinates of a region from the name of its file.
pub fn parse_coords(string: &str) -> (coords: Option<Coords>)
    ensures
        coords == parse_coords_spec(string@),
{
    let groups = captures(REGION_PATTERN, string);
    coords_from_captures(&groups)
}

/// One entry of a directory, as far as the catalogue looks at it.
#[derive(Debug, Clone)]
pub struct DirEntryInfo {
    /// Whether the entry is a regular file.
    pub is_file: bool,
    /// The last component of the entry's path.
    pub file_name: String,
}

/// Whether an entry is a regular file with the extension of region files.
pub open spec fn is_region_entry(is_file: bool, file_name: Seq<char>) -> bool {
    is_file && extension_of(file_name) == Some(REGION_EXTENSION@)
}

/// The name of the entry if it is a regular file with the extension of
/// region files.
pub fn entry_is_region_file(entry: &DirEntryInfo) -> (name: Option<String>)
    ensures
        name is Some <==> is_region_entry(entry.is_file, entry.file_name@),
        name is Some ==> name->0@ == entry.file_name@,
{
    if !entry.is_file {
        return None;
    }
    match extension(entry.file_name.as_str()) {
        None => None,
        Some(ext) => {
            if str_eq(ext.as_str(), REGION_EXTENSION) {
                Some(entry.file_name.clone())
            } else {
                None
            }
        },
    }
}

/// A region file found in a directory: its name and the region it holds,
/// which is read from the name.
#[derive(Debug, Clone)]
pub struct RegionFile {
    pub file_name: String,
    pub coords: Coords,
}

impl View for RegionFile {
    type V = (Seq<char>, Coords);

    open spec fn view(&self) -> (Seq<char>, Coords) {
        (self.file_name@, self.coords)
    }
}

/// The names and regions of `files`, in order.
pub open spec fn file_views(files: Seq<RegionFile>) -> Seq<(Seq<char>, Coords)> {
    files.map_values(|file: RegionFile| file@)
}

/// What the catalogue makes of one entry.
#[derive(Debug, Clone)]
pub enum Scanned {
    /// No regular file, or not with the extension of region files.
    NotRegionFile,
    /// A file with the extension of region files whose name does not give a
    /// region; it holds the name.
    InvalidName(String),
    /// A region file.
    Region(RegionFile),
}

/// The region file that an entry is, if it is one.
pub open spec fn listed(entry: DirEntryInfo) -> Option<(Seq<char>, Coords)> {
    if is_region_entry(entry.is_file, entry.file_name@) {
        match parse_coords_spec(entry.file_name@) {
            Some(coords) => Some((entry.file_name@, coords)),
            None => None,
        }
    } else {
        None
    }
}

/// The name of an entry that has the extension of region files but whose
/// name gives no region.
pub open spec fn rejected(entry: DirEntryInfo) -> Option<Seq<char>> {
    if is_region_entry(entry.is_file, entry.file_name@) && parse_coords_spec(entry.file_name@)
        is None {
        Some(entry.file_name@)
    } else {
        None
    }
}

/// The region files among `entries`, in the order of the entries.
pub open spec fn catalog_files(entries: Seq<DirEntryInfo>) -> Seq<(Seq<char>, Coords)> {
    entries.filter_map(|entry: DirEntryInfo| listed(entry))
}

/// The names among `entries` that have the extension of region files but
/// give no region, in the order of the entries.
pub open spec fn catalog_rejects(entries: Seq<DirEntryInfo>) -> Seq<Seq<char>> {
    entries.filter_map(|entry: DirEntryInfo| rejected(entry))
}

/// The names of `names`, each as a sequence of characters.
pub open spec fn name_views(names: Seq<String>) -> Seq<Seq<char>> {
    names.map_values(|name: String| name@)
}

/// Classifies one entry of a directory.
pub fn scan_entry(entry: &DirEntryInfo) -> (scanned: Scanned)
    ensures
        match scanned {
            Scanned::NotRegionFile => listed(*entry) is None && rejected(*entry) is None,
            Scanned::InvalidName(name) => rejected(*entry) == Some(name@),
            Scanned::Region(file) => listed(*entry) == Some(file@),
        },
{
    match entry_is_region_file(entry) {
        None => Scanned::NotRegionFile,
        Some(file_name) => match parse_coords(file_name.as_str()) {
            None => Scanned::InvalidName(file_name),
            Some(coords) => Scanned::Region(RegionFile { file_name, coords }),
        },
    }
}

/// The region files of a directory and the names that were turned away.
#[derive(Debug)]
pub struct Catalog {
    /// The region files, in the order of the directory's entries.
    pub files: Vec<RegionFile>,
    /// The names with the extension of region files that give no region.
    pub invalid: Vec<String>,
}

/// Lists the region files among the entries of a directory. Entries that
/// are no regular files or have another extension are passed over; a name
/// with the right extension that gives no region is reported and left out.
pub fn catalog(entries: &Vec<DirEntryInfo>) -> (found: Catalog)
    ensures
        file_views(found.files@) == catalog_files(entries@),
        name_views(found.invalid@) == catalog_rejects(entries@),
{
    let mut files: Vec<RegionFile> = Vec::new();
    let mut invalid: Vec<String> = Vec::new();
    let mut i: usize = 0;
    while i < entries.len()
        invariant
            i <= entries.len(),
            file_views(files@) =~= catalog_files(entries@.take(i as int)),
            name_views(invalid@) =~= catalog_rejects(entries@.take(i as int)),
        decreases entries.len() - i,
    {
        proof {
            assert(entries@.take(i + 1).drop_last() =~= entries@.take(i as int));
            assert(entries@.take(i + 1).last() == entries@[i as int]);
        }
        match scan_entry(&entries[i]) {
            Scanned::NotRegionFile => {},
            Scanned::InvalidName(name) => {
                invalid.push(name);
            },
            Scanned::Region(file) => {
                files.push(file);
            },
        }
        i += 1;
    }
    assert(entries@.take(entries.len() as int) =~= entries@);
    Catalog { files, invalid }
}

} // verus!
