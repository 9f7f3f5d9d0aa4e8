//! The files that a new server starts with.

use vstd::prelude::*;
use vstd::string::StringExecFns;
use crate::arg_types::server_property::{line_of, property_pairs};
use crate::arg_types::ServerProperty;
use crate::text::{decimal, push_decimal, str_eq, text_views};

verus! {

/// The file that accepts the licence, and what it holds.
pub const EULA_FILE: &'static str = "eula.txt";

pub const EULA_TEXT: &'static str = "eula=true\n";

/// The file that lists the operators.
pub const OPS_FILE: &'static str = "ops.txt";

/// The file that lists the players on the white list.
pub const WHITE_LIST_FILE: &'static str = "whitelist.txt";

/// The file that holds the server's properties.
pub const PROPERTIES_FILE: &'static str = "server.properties";

/// The name of the directory that holds plugins.
pub const PLUGINS_DIR: &'static str = "plugins";

/// The lines in a row, each closed by a line feed.
pub open spec fn lines_of(lines: Seq<Seq<char>>) -> Seq<char>
    decreases lines.len(),
{
    if lines.len() == 0 {
        Seq::empty()
    } else {
        lines_of(lines.drop_last()) + lines.last() + seq!['\n']
    }
}

/// Writes the names one to a line.
pub fn name_lines(names: &Vec<String>) -> (text: String)
    ensures
        text@ == lines_of(text_views(names@)),
{
    let ghost views = text_views(names@);
    let mut text = String::new();
    let mut i: usize = 0;
    assert(views.take(0) =~= Seq::empty());
    proof {
        reveal_strlit("\n");
    }
    while i < names.len()
        invariant
            i <= names.len(),
            views == text_views(names@),
            "\n"@ =~= seq!['\n'],
            text@ == lines_of(views.take(i as int)),
        decreases names.len() - i,
    {
        proof {
            assert(views.take(i + 1).drop_last() =~= views.take(i as int));
            assert(views.take(i + 1).last() == names@[i as int]@);
        }
        text.append(names[i].as_str());
        text.append("\n");
        i += 1;
    }
    assert(views.take(names.len() as int) =~= views);
    text
}

/// The lines of the properties, each as `key=value`.
pub open spec fn property_lines(properties: Seq<ServerProperty>) -> Seq<Seq<char>> {
    property_pairs(properties).map_values(|pair: (Seq<char>, Seq<char>)| line_of(pair))
}

/// Writes the properties one to a line, each as `key=value`.
pub fn properties_text(properties: &Vec<ServerProperty>) -> (text: String)
    ensures
        text@ == lines_of(property_lines(properties@)),
{
    let ghost lines = property_lines(properties@);
    let mut text = String::new();
    let mut i: usize = 0;
    assert(lines.take(0) =~= Seq::empty());
    proof {
        reveal_strlit("\n");
    }
    while i < properties.len()
        invariant
            i <= properties.len(),
            lines == property_lines(properties@),
            "\n"@ =~= seq!['\n'],
            text@ == lines_of(lines.take(i as int)),
        decreases properties.len() - i,
    {
        proof {
            assert(lines.take(i + 1).drop_last() =~= lines.take(i as int));
            assert(lines.take(i + 1).last() == line_of(properties@[i as int].pair()));
        }
        text.append(properties[i].to_string().as_str());
        text.append("\n");
        i += 1;
    }
    assert(lines.take(properties.len() as int) =~= lines);
    text
}

/// The properties file of a server: the seed, the message, the port, twice,
/// and then the lines that the user added.
pub fn server_properties_text(level_seed: &str, motd: &str, port: u16, extra: &str) -> (text:
    String)
    ensures
        text@ == "level-seed="@ + level_seed@ + "\nmotd="@ + motd@ + "\nquery.port="@ + decimal(
            port as nat,
        ) + "\nserver-port="@ + decimal(port as nat) + "\n"@ + extra@,
{
    let mut text = String::from_str("level-seed=");
    text.append(level_seed);
    text.append("\nmotd=");
    text.append(motd);
    text.append("\nquery.port=");
    push_decimal(&mut text, port as u64);
    text.append("\nserver-port=");
    push_decimal(&mut text, port as u64);
    text.append("\n");
    text.append(extra);
    text
}

/// Whether a directory to sync goes into a server's plugins directory: one
/// whose last component is `plugins`. Any other goes into the server's own
/// directory.
pub fn is_plugins_dir(file_name: Option<&str>) -> (yes: bool)
    ensures
        yes == (file_name is Some && file_name->0@ == PLUGINS_DIR@),
{
    match file_name {
        Some(name) => str_eq(name, PLUGINS_DIR),
        None => false,
    }
}

} // verus!
