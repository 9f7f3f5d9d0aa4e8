//! Which files of a server's plugins directory are cleared before a sync.

use vstd::prelude::*;
use crate::catalog::DirEntryInfo;
use crate::text::{extension, extension_of, lowercase_of, str_eq, to_lowercase};

verus! {

/// The extension of a plugin's file, without the dot.
pub const JAR_EXTENSION: &'static str = "jar";

/// Whether an entry is a plugin: a regular file whose extension, in lower
/// case, is `jar`.
pub open spec fn is_plugin_entry(is_file: bool, file_name: Seq<char>) -> bool {
    is_file && extension_of(file_name) is Some && lowercase_of(extension_of(file_name)->0)
        == JAR_EXTENSION@
}

/// Whether an entry of a plugins directory is removed when the directory is
/// cleared.
pub fn is_plugin_jar(entry: &DirEntryInfo) -> (yes: bool)
    ensures
        yes == is_plugin_entry(entry.is_file, entry.file_name@),
{
    if !entry.is_file {
        return false;
    }
    match extension(entry.file_name.as_str()) {
        None => false,
        Some(ext) => {
            let lower = to_lowercase(ext.as_str());
            str_eq(lower.as_str(), JAR_EXTENSION)
        },
    }
}

} // verus!
