//! Settings as they come from the configuration file and from the command
//! line, and the rules by which the two are merged.

use vstd::prelude::*;
use vstd::string::StringExecFns;
use crate::arg_types::server_property::{
    line_of, map_to_properties, pair_views, parse_property, property_pairs, sorted, table_of,
    PropertyFault, PropertyMap,
};
use crate::arg_types::{JarType, ServerMemory, ServerProperty, ServerPropertyError};
use crate::catalog::name_views;
use crate::text::{lowercase_of, to_lowercase};

verus! {

/// The `world_management` table of the configuration file.
#[derive(Debug)]
pub struct WorldManagementConfig {
    pub world_diameter: Option<u32>,
    pub slice_width: Option<u32>,
    pub avoid_slicing_origin: Option<bool>,
    pub origin_radius: Option<u32>,
}

impl Default for WorldManagementConfig {
    fn default() -> (config: Self)
        ensures
            config.world_diameter is None,
            config.slice_width is None,
            config.avoid_slicing_origin is None,
            config.origin_radius is None,
    {
        WorldManagementConfig {
            world_diameter: None,
            slice_width: None,
            avoid_slicing_origin: None,
            origin_radius: None,
        }
    }
}

/// The partition settings after the merge, each still possibly missing.
#[derive(Debug)]
pub struct WorldManagementArgs {
    pub world_diameter: Option<u32>,
    pub slice_width: Option<u32>,
    pub avoid_slicing_origin: Option<bool>,
    pub origin_radius: Option<u32>,
    pub combined_directory: Option<String>,
}

/// `first` where it is given, else `second`.
pub open spec fn or_else<T>(first: Option<T>, second: Option<T>) -> Option<T> {
    if first is Some {
        first
    } else {
        second
    }
}

/// Merges the partition settings: a value from the command line wins over
/// the one from the configuration file. The directory of the combined world
/// comes from the command line alone.
pub fn world_management_args(
    config: WorldManagementConfig,
    world_diameter: Option<u32>,
    slice_width: Option<u32>,
    avoid_slicing_origin: Option<bool>,
    origin_radius: Option<u32>,
    combined_directory: Option<String>,
) -> (args: WorldManagementArgs)
    ensures
        args.world_diameter == or_else(world_diameter, config.world_diameter),
        args.slice_width == or_else(slice_width, config.slice_width),
        args.avoid_slicing_origin == or_else(avoid_slicing_origin, config.avoid_slicing_origin),
        args.origin_radius == or_else(origin_radius, config.origin_radius),
        args.combined_directory == combined_directory,
{
    WorldManagementArgs {
        world_diameter: if world_diameter.is_some() {
            world_diameter
        } else {
            config.world_diameter
        },
        slice_width: if slice_width.is_some() {
            slice_width
        } else {
            config.slice_width
        },
        avoid_slicing_origin: if avoid_slicing_origin.is_some() {
            avoid_slicing_origin
        } else {
            config.avoid_slicing_origin
        },
        origin_radius: if origin_radius.is_some() {
            origin_radius
        } else {
            config.origin_radius
        },
        combined_directory,
    }
}

/// The `global` table of the configuration file.
#[derive(Debug)]
pub struct GlobalConfig {
    pub jar_type: Option<JarType>,
    pub jar_version: Option<String>,
    pub server_count: Option<u8>,
    pub start_port: Option<u16>,
    pub level_name: Option<String>,
    pub directory_template: Option<String>,
    pub sync_dirs: Option<Vec<String>>,
    pub timeout_secs: Option<u8>,
}

impl Default for GlobalConfig {
    fn default() -> (config: Self)
        ensures
            config.jar_type is None,
            config.jar_version is None,
            config.server_count is None,
            config.start_port is None,
            config.level_name is None,
            config.directory_template is None,
            config.sync_dirs is None,
            config.timeout_secs is None,
    {
        GlobalConfig {
            jar_type: None,
            jar_version: None,
            server_count: None,
            start_port: None,
            level_name: None,
            directory_template: None,
            sync_dirs: None,
            timeout_secs: None,
        }
    }
}

/// The `init` table of the configuration file. The server properties are
/// held as keys and values, in the order of the keys.
#[derive(Debug)]
pub struct InitConfig {
    pub level_seed: Option<String>,
    pub ops: Option<Vec<String>>,
    pub white_list: Option<Vec<String>>,
    pub server_properties: Option<Vec<(String, String)>>,
}

impl Default for InitConfig {
    fn default() -> (config: Self)
        ensures
            config.level_seed is None,
            config.ops is None,
            config.white_list is None,
            config.server_properties is None,
    {
        InitConfig { level_seed: None, ops: None, white_list: None, server_properties: None }
    }
}

/// The `start` table of the configuration file.
#[derive(Debug)]
pub struct StartConfig {
    pub max_memory: Option<ServerMemory>,
    pub use_aikar_flags: Option<bool>,
    pub jvm_args: Option<String>,
}

impl Default for StartConfig {
    fn default() -> (config: Self)
        ensures
            config.max_memory is None,
            config.use_aikar_flags is None,
            config.jvm_args is None,
    {
        StartConfig { max_memory: None, use_aikar_flags: None, jvm_args: None }
    }
}

/// The configuration file as a whole.
#[derive(Debug)]
pub struct Config {
    pub global: Option<GlobalConfig>,
    pub init: Option<InitConfig>,
    pub start: Option<StartConfig>,
    pub world_management: Option<WorldManagementConfig>,
}

impl Default for Config {
    fn default() -> (config: Self)
        ensures
            config.global is None,
            config.init is None,
            config.start is None,
            config.world_management is None,
    {
        Config { global: None, init: None, start: None, world_management: None }
    }
}

/// The settings of the command line that hold for every command.
#[derive(Debug)]
pub struct GlobalOptions {
    pub jar_type: Option<JarType>,
    pub jar_version: Option<String>,
    pub server_count: Option<u8>,
    pub start_port: Option<u16>,
    pub level_name: Option<String>,
    pub directory_template: Option<String>,
    pub sync_dirs: Vec<String>,
    pub timeout_secs: Option<u8>,
}

/// The settings that hold for every command, after the merge.
#[derive(Debug)]
pub struct GlobalArgs {
    pub jar_type: JarType,
    pub jar_version: String,
    pub server_count: u8,
    pub start_port: u16,
    pub level_name: String,
    pub directory_template: String,
    pub sync_dirs: Vec<String>,
    pub timeout_secs: u8,
}

/// The number of servers where none is given.
pub const DEFAULT_SERVER_COUNT: u8 = 2;

/// The first port where none is given.
pub const DEFAULT_START_PORT: u16 = 25565;

/// The seconds to wait for a server to stop where none are given.
pub const DEFAULT_TIMEOUT_SECS: u8 = 10;

/// The name of the world where none is given.
pub const DEFAULT_LEVEL_NAME: &'static str = "world";

/// The template of the servers' directories where none is given.
pub const DEFAULT_DIRECTORY_TEMPLATE: &'static str = "Mammoth Server";

/// The directory to sync where none is given.
pub const DEFAULT_SYNC_DIR: &'static str = "./plugins";

/// The value of `first` where it is given, else that of `second`, else
/// `default`.
pub open spec fn value_or<T>(first: Option<T>, second: Option<T>, default: T) -> T {
    match or_else(first, second) {
        Some(value) => value,
        None => default,
    }
}

/// The text of `first` where it is given, else that of `second`, else
/// `default`.
pub open spec fn text_or(first: Option<String>, second: Option<String>, default: Seq<char>) -> Seq<
    char,
> {
    match or_else(first, second) {
        Some(text) => text@,
        None => default,
    }
}

/// `first` where it is given, else `second`, else the text `default`.
fn pick_text(first: Option<String>, second: Option<String>, default: &str) -> (text: String)
    ensures
        text@ == text_or(first, second, default@),
{
    match first {
        Some(text) => text,
        None => match second {
            Some(text) => text,
            None => String::from_str(default),
        },
    }
}

/// Merges the settings that hold for every command: a value from the
/// command line wins over the one from the configuration file, and where
/// neither gives one the default stands. The directories to sync come from
/// the command line if it names any.
pub fn global_args(config: GlobalConfig, args: GlobalOptions) -> (merged: GlobalArgs)
    ensures
        merged.jar_type == value_or(args.jar_type, config.jar_type, JarType::Paper),
        merged.jar_version@ == text_or(args.jar_version, config.jar_version, Seq::empty()),
        merged.server_count == value_or(
            args.server_count,
            config.server_count,
            DEFAULT_SERVER_COUNT,
        ),
        merged.start_port == value_or(args.start_port, config.start_port, DEFAULT_START_PORT),
        merged.level_name@ == text_or(args.level_name, config.level_name, DEFAULT_LEVEL_NAME@),
        merged.directory_template@ == text_or(
            args.directory_template,
            config.directory_template,
            DEFAULT_DIRECTORY_TEMPLATE@,
        ),
        name_views(merged.sync_dirs@) == if args.sync_dirs.len() > 0 {
            name_views(args.sync_dirs@)
        } else {
            match config.sync_dirs {
                Some(dirs) => name_views(dirs@),
                None => seq![DEFAULT_SYNC_DIR@],
            }
        },
        merged.timeout_secs == value_or(
            args.timeout_secs,
            config.timeout_secs,
            DEFAULT_TIMEOUT_SECS,
        ),
{
    let sync_dirs = if args.sync_dirs.len() == 0 {
        match config.sync_dirs {
            Some(dirs) => dirs,
            None => {
                let mut dirs: Vec<String> = Vec::new();
                dirs.push(String::from_str(DEFAULT_SYNC_DIR));
                assert(name_views(dirs@) =~= seq![DEFAULT_SYNC_DIR@]);
                dirs
            },
        }
    } else {
        args.sync_dirs
    };
    let jar_version = pick_text(args.jar_version, config.jar_version, "");
    proof {
        reveal_strlit("");
        assert(""@ =~= Seq::<char>::empty());
    }
    GlobalArgs {
        jar_type: match args.jar_type {
            Some(kind) => kind,
            None => match config.jar_type {
                Some(kind) => kind,
                None => JarType::Paper,
            },
        },
        jar_version,
        server_count: match args.server_count {
            Some(count) => count,
            None => match config.server_count {
                Some(count) => count,
                None => DEFAULT_SERVER_COUNT,
            },
        },
        start_port: match args.start_port {
            Some(port) => port,
            None => match config.start_port {
                Some(port) => port,
                None => DEFAULT_START_PORT,
            },
        },
        level_name: pick_text(args.level_name, config.level_name, DEFAULT_LEVEL_NAME),
        directory_template: pick_text(
            args.directory_template,
            config.directory_template,
            DEFAULT_DIRECTORY_TEMPLATE,
        ),
        sync_dirs,
        timeout_secs: match args.timeout_secs {
            Some(secs) => secs,
            None => match config.timeout_secs {
                Some(secs) => secs,
                None => DEFAULT_TIMEOUT_SECS,
            },
        },
    }
}

/// The settings of the `start` command after the merge.
#[derive(Debug)]
pub struct StartArgs {
    pub max_memory: ServerMemory,
    pub use_aikar_flags: bool,
    pub jvm_args: Option<String>,
}

/// Merges the settings of the `start` command: a value from the command
/// line wins over the one from the configuration file. Without either the
/// memory is one gibibyte, written `1G`, and the flags are off.
pub fn start_args(
    config: StartConfig,
    max_memory: Option<ServerMemory>,
    use_aikar_flags: Option<bool>,
    jvm_args: Option<String>,
) -> (args: StartArgs)
    ensures
        match or_else(max_memory, config.max_memory) {
            Some(memory) => args.max_memory == memory,
            None => args.max_memory.text() == "1G"@ && args.max_memory.size() == 1_073_741_824,
        },
        args.use_aikar_flags == value_or(use_aikar_flags, config.use_aikar_flags, false),
        args.jvm_args == or_else(jvm_args, config.jvm_args),
{
    let max_memory = match max_memory {
        Some(memory) => memory,
        None => match config.max_memory {
            Some(memory) => memory,
            None => {
                proof {
                    reveal_strlit("1G");
                    reveal_strlit("G");
                    assert(crate::text::decimal(1) + "G"@ =~= "1G"@);
                }
                ServerMemory::gibibytes(1)
            },
        },
    };
    StartArgs {
        max_memory,
        use_aikar_flags: match use_aikar_flags {
            Some(flag) => flag,
            None => match config.use_aikar_flags {
                Some(flag) => flag,
                None => false,
            },
        },
        jvm_args: if jvm_args.is_some() {
            jvm_args
        } else {
            config.jvm_args
        },
    }
}

/// The settings of the `init` command after the merge.
#[derive(Debug)]
pub struct InitArgs {
    pub level_seed: String,
    /// The operators, each once.
    pub ops: Vec<String>,
    /// The players on the white list, each once.
    pub white_list: Vec<String>,
    pub server_properties: Vec<ServerProperty>,
}

/// Whether `merged` holds the names of `first` and `second`, each once.
pub open spec fn is_union(
    merged: Seq<Seq<char>>,
    first: Seq<Seq<char>>,
    second: Seq<Seq<char>>,
) -> bool {
    &&& merged.no_duplicates()
    &&& forall|name: Seq<char>| #[trigger]
        merged.contains(name) <==> first.contains(name) || second.contains(name)
}

/// The names of `names`, or none where there is no list.
pub open spec fn names_or_none(names: Option<Vec<String>>) -> Seq<Seq<char>> {
    match names {
        Some(names) => name_views(names@),
        None => Seq::empty(),
    }
}

/// Whether `names` holds `name`.
fn has_name(names: &Vec<String>, name: &String) -> (found: bool)
    ensures
        found == name_views(names@).contains(name@),
{
    let mut i: usize = 0;
    while i < names.len()
        invariant
            i <= names.len(),
            forall|j: int| 0 <= j < i ==> name_views(names@)[j] != name@,
        decreases names.len() - i,
    {
        if names[i] == *name {
            assert(name_views(names@)[i as int] == name@);
            return true;
        }
        i += 1;
    }
    false
}

/// Adds to `merged` the names of `more` that it does not hold yet.
fn add_names(merged: &mut Vec<String>, more: &Vec<String>)
    requires
        name_views(old(merged)@).no_duplicates(),
    ensures
        is_union(name_views(final(merged)@), name_views(old(merged)@), name_views(more@)),
{
    let ghost start = name_views(merged@);
    let ghost added = name_views(more@);
    let mut i: usize = 0;
    assert(added.take(0) =~= Seq::empty());
    while i < more.len()
        invariant
            i <= more.len(),
            added == name_views(more@),
            is_union(name_views(merged@), start, added.take(i as int)),
        decreases more.len() - i,
    {
        let ghost before = name_views(merged@);
        let ghost name = added[i as int];
        if !has_name(merged, &more[i]) {
            merged.push(more[i].clone());
            assert(name_views(merged@) =~= before.push(name));
        }
        proof {
            let after = name_views(merged@);
            let shorter = added.take(i as int);
            let longer = added.take(i + 1);
            assert(longer =~= shorter.push(name));
            assert forall|other: Seq<char>| #[trigger]
                after.contains(other) <==> start.contains(other) || longer.contains(other) by {
                if after.contains(other) && other != name {
                    let k = choose|k: int| 0 <= k < after.len() && after[k] == other;
                    assert(before[k] == other);
                    assert(before.contains(other));
                    if shorter.contains(other) {
                        let m = choose|m: int| 0 <= m < shorter.len() && shorter[m] == other;
                        assert(longer[m] == other);
                    }
                }
                if other == name {
                    assert(longer[i as int] == name);
                    if !before.contains(name) {
                        assert(after[before.len() as int] == name);
                    } else {
                        let k = choose|k: int| 0 <= k < before.len() && before[k] == name;
                        assert(after[k] == name);
                    }
                }
                if start.contains(other) || shorter.contains(other) {
                    assert(before.contains(other));
                    let k = choose|k: int| 0 <= k < before.len() && before[k] == other;
                    assert(after[k] == other);
                }
                if longer.contains(other) && other != name {
                    let m = choose|m: int| 0 <= m < longer.len() && longer[m] == other;
                    assert(shorter[m] == other);
                    assert(shorter.contains(other));
                }
            }
        }
        i += 1;
    }
    assert(added.take(more.len() as int) =~= added);
}

/// The names of `first` and `second`, each once.
pub fn merge_names(first: Option<Vec<String>>, second: Vec<String>) -> (merged: Vec<String>)
    ensures
        is_union(name_views(merged@), names_or_none(first), name_views(second@)),
{
    let mut merged: Vec<String> = Vec::new();
    assert(name_views(merged@) =~= Seq::empty());
    let ghost from_first = names_or_none(first);
    match first {
        Some(names) => {
            add_names(&mut merged, &names);
        },
        None => {},
    }
    let ghost middle = name_views(merged@);
    assert(forall|name: Seq<char>| #[trigger] middle.contains(name) <==> from_first.contains(name));
    add_names(&mut merged, &second);
    merged
}

/// The pairs with their keys in lower case.
pub open spec fn lower_keys(pairs: Seq<(Seq<char>, Seq<char>)>) -> Seq<(Seq<char>, Seq<char>)> {
    pairs.map_values(|pair: (Seq<char>, Seq<char>)| (lowercase_of(pair.0), pair.1))
}

/// The table of server properties for the `init` command: the properties
/// of the configuration file with their keys in lower case, then those of
/// the command line, which win, and last `white-list=true` where there is
/// a white list.
pub open spec fn init_table(
    config_pairs: Option<Vec<(String, String)>>,
    arg_pairs: Seq<(Seq<char>, Seq<char>)>,
    white_listed: bool,
) -> Map<Seq<char>, Seq<char>> {
    let base = match config_pairs {
        Some(pairs) => table_of(lower_keys(pair_views(pairs@))),
        None => Map::empty(),
    };
    let merged = base.union_prefer_right(table_of(arg_pairs));
    if white_listed {
        merged.insert("white-list"@, "true"@)
    } else {
        merged
    }
}

/// Builds the table of server properties for the `init` command.
pub fn init_properties(
    config_properties: Option<Vec<(String, String)>>,
    server_properties: Vec<ServerProperty>,
    white_listed: bool,
) -> (table: PropertyMap)
    ensures
        table@ == init_table(config_properties, property_pairs(server_properties@), white_listed),
{
    let mut table = PropertyMap::new();
    match &config_properties {
        Some(pairs) => {
            let ghost lowered = lower_keys(pair_views(pairs@));
            let mut i: usize = 0;
            while i < pairs.len()
                invariant
                    i <= pairs.len(),
                    lowered == lower_keys(pair_views(pairs@)),
                    table@ == table_of(lowered.take(i as int)),
                decreases pairs.len() - i,
            {
                proof {
                    assert(lowered.take(i + 1).drop_last() =~= lowered.take(i as int));
                }
                table.insert(to_lowercase(pairs[i].0.as_str()), pairs[i].1.clone());
                i += 1;
            }
            assert(lowered.take(pairs.len() as int) =~= lowered);
        },
        None => {},
    }
    let ghost base = table@;
    let ghost given = property_pairs(server_properties@);
    let mut i: usize = 0;
    assert(base.union_prefer_right(table_of(given.take(0))) =~= base);
    while i < server_properties.len()
        invariant
            i <= server_properties.len(),
            given == property_pairs(server_properties@),
            table@ == base.union_prefer_right(table_of(given.take(i as int))),
        decreases server_properties.len() - i,
    {
        proof {
            assert(given.take(i + 1).drop_last() =~= given.take(i as int));
            assert(given.take(i + 1).last() == server_properties@[i as int].pair());
            let so_far = table_of(given.take(i as int));
            let pair = server_properties@[i as int].pair();
            assert(base.union_prefer_right(so_far).insert(pair.0, pair.1)
                =~= base.union_prefer_right(so_far.insert(pair.0, pair.1)));
        }
        table.insert(
            server_properties[i].key_str().clone(),
            server_properties[i].value_str().clone(),
        );
        i += 1;
    }
    assert(given.take(server_properties.len() as int) =~= given);
    if white_listed {
        table.insert(String::from_str("white-list"), String::from_str("true"));
    }
    table
}

/// Merges the settings of the `init` command. The seed of the command line
/// wins over that of the configuration file; the operators and the white
/// list are those of both; the server properties are those of
/// `init_table`, read in the order of their keys, and the first of them
/// that is refused as a property ends the merge with its fault.
pub fn init_args(
    config: InitConfig,
    level_seed: Option<String>,
    ops: Vec<String>,
    white_list: Vec<String>,
    server_properties: Vec<ServerProperty>,
) -> (merged: Result<InitArgs, ServerPropertyError>)
    ensures
        exists|pairs: Seq<(Seq<char>, Seq<char>)>|
            {
                &&& sorted(pairs)
                &&& #[trigger] table_of(pairs) == init_table(
                    config.server_properties,
                    property_pairs(server_properties@),
                    names_or_none(config.white_list).len() > 0 || white_list.len() > 0,
                )
                &&& match merged {
                    Ok(args) => {
                        &&& args.level_seed@ == text_or(level_seed, config.level_seed, Seq::empty())
                        &&& is_union(
                            name_views(args.ops@),
                            names_or_none(config.ops),
                            name_views(ops@),
                        )
                        &&& is_union(
                            name_views(args.white_list@),
                            names_or_none(config.white_list),
                            name_views(white_list@),
                        )
                        &&& args.server_properties.len() == pairs.len()
                        &&& forall|i: int|
                            0 <= i < pairs.len() ==> parse_property(line_of(pairs[i])) == Ok::<
                                (Seq<char>, Seq<char>),
                                PropertyFault,
                            >(#[trigger] args.server_properties[i].pair())
                    },
                    Err(error) => exists|at: int|
                        {
                            &&& 0 <= at < pairs.len()
                            &&& #[trigger] parse_property(line_of(pairs[at])) == Err::<
                                (Seq<char>, Seq<char>),
                                PropertyFault,
                            >(error@)
                            &&& forall|i: int|
                                0 <= i < at ==> #[trigger] parse_property(line_of(pairs[i])) is Ok
                        },
                }
            },
{
    let ghost config_white = names_or_none(config.white_list);
    let ghost given = name_views(white_list@);
    let ops = merge_names(config.ops, ops);
    let white_list = merge_names(config.white_list, white_list);
    let white_listed = white_list.len() > 0;
    proof {
        let merged_names = name_views(white_list@);
        if config_white.len() > 0 {
            assert(config_white.contains(config_white[0]));
            assert(merged_names.contains(config_white[0]));
        }
        if given.len() > 0 {
            assert(given.contains(given[0]));
            assert(merged_names.contains(given[0]));
        }
        if merged_names.len() > 0 {
            assert(merged_names.contains(merged_names[0]));
        }
    }
    let table = init_properties(config.server_properties, server_properties, white_listed);
    let ghost pairs = table.pairs();
    let _ = table.entries();
    let level_seed = pick_text(level_seed, config.level_seed, "");
    proof {
        reveal_strlit("");
        assert(""@ =~= Seq::<char>::empty());
    }
    match map_to_properties(&table) {
        Err(error) => Err(error),
        Ok(server_properties) => Ok(InitArgs { level_seed, ops, white_list, server_properties }),
    }
}

} // verus!
