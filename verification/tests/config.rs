use provisioner::arg_types::{JarType, ServerMemory, ServerProperty, ServerPropertyError};
use provisioner::config::{
    global_args, init_args, init_properties, merge_names, start_args, world_management_args,
    Config, GlobalConfig, GlobalOptions, InitConfig, StartConfig, WorldManagementConfig,
    DEFAULT_DIRECTORY_TEMPLATE, DEFAULT_LEVEL_NAME, DEFAULT_SERVER_COUNT, DEFAULT_START_PORT,
    DEFAULT_SYNC_DIR, DEFAULT_TIMEOUT_SECS,
};

fn no_options() -> GlobalOptions {
    GlobalOptions {
        jar_type: None,
        jar_version: None,
        server_count: None,
        start_port: None,
        level_name: None,
        directory_template: None,
        sync_dirs: vec![],
        timeout_secs: None,
    }
}

fn names(list: &[&str]) -> Vec<String> {
    list.iter().map(|s| String::from(*s)).collect()
}

#[test]
fn empty_configuration() {
    let config = Config::default();
    assert!(config.global.is_none());
    assert!(config.init.is_none());
    assert!(config.start.is_none());
    assert!(config.world_management.is_none());
    let global = GlobalConfig::default();
    assert!(global.jar_type.is_none() && global.jar_version.is_none());
    assert!(global.server_count.is_none() && global.start_port.is_none());
    assert!(global.level_name.is_none() && global.directory_template.is_none());
    assert!(global.sync_dirs.is_none() && global.timeout_secs.is_none());
    let init = InitConfig::default();
    assert!(init.level_seed.is_none() && init.ops.is_none());
    assert!(init.white_list.is_none() && init.server_properties.is_none());
    let start = StartConfig::default();
    assert!(start.max_memory.is_none() && start.use_aikar_flags.is_none());
    assert!(start.jvm_args.is_none());
    let world = WorldManagementConfig::default();
    assert!(world.world_diameter.is_none() && world.slice_width.is_none());
    assert!(world.avoid_slicing_origin.is_none() && world.origin_radius.is_none());
}

#[test]
fn global_defaults() {
    let merged = global_args(GlobalConfig::default(), no_options());
    assert_eq!(merged.jar_type, JarType::Paper);
    assert_eq!(merged.jar_version, "");
    assert_eq!(merged.server_count, 2);
    assert_eq!(merged.start_port, 25565);
    assert_eq!(merged.level_name, "world");
    assert_eq!(merged.directory_template, "Mammoth Server");
    assert_eq!(merged.sync_dirs, vec!["./plugins"]);
    assert_eq!(merged.timeout_secs, 10);
    assert_eq!(DEFAULT_SERVER_COUNT, 2);
    assert_eq!(DEFAULT_START_PORT, 25565);
    assert_eq!(DEFAULT_TIMEOUT_SECS, 10);
    assert_eq!(DEFAULT_LEVEL_NAME, "world");
    assert_eq!(DEFAULT_DIRECTORY_TEMPLATE, "Mammoth Server");
    assert_eq!(DEFAULT_SYNC_DIR, "./plugins");
}

#[test]
fn global_values_of_the_file() {
    let config = GlobalConfig {
        jar_type: Some(JarType::Pufferfish),
        jar_version: Some(String::from("1.18.2")),
        server_count: Some(4),
        start_port: Some(30000),
        level_name: Some(String::from("earth")),
        directory_template: Some(String::from("Shard")),
        sync_dirs: Some(names(&["plugins", "config"])),
        timeout_secs: Some(30),
    };
    let merged = global_args(config, no_options());
    assert_eq!(merged.jar_type, JarType::Pufferfish);
    assert_eq!(merged.jar_version, "1.18.2");
    assert_eq!(merged.server_count, 4);
    assert_eq!(merged.start_port, 30000);
    assert_eq!(merged.level_name, "earth");
    assert_eq!(merged.directory_template, "Shard");
    assert_eq!(merged.sync_dirs, vec!["plugins", "config"]);
    assert_eq!(merged.timeout_secs, 30);
}

#[test]
fn global_values_of_the_command_line_win() {
    let config = GlobalConfig {
        jar_type: Some(JarType::Pufferfish),
        jar_version: Some(String::from("1.18.2")),
        server_count: Some(4),
        start_port: Some(30000),
        level_name: Some(String::from("earth")),
        directory_template: Some(String::from("Shard")),
        sync_dirs: Some(names(&["plugins", "config"])),
        timeout_secs: Some(30),
    };
    let options = GlobalOptions {
        jar_type: Some(JarType::Paper),
        jar_version: Some(String::from("1.19")),
        server_count: Some(0),
        start_port: Some(1),
        level_name: Some(String::from("moon")),
        directory_template: Some(String::from("Node")),
        sync_dirs: names(&["datapacks"]),
        timeout_secs: Some(0),
    };
    let merged = global_args(config, options);
    assert_eq!(merged.jar_type, JarType::Paper);
    assert_eq!(merged.jar_version, "1.19");
    assert_eq!(merged.server_count, 0);
    assert_eq!(merged.start_port, 1);
    assert_eq!(merged.level_name, "moon");
    assert_eq!(merged.directory_template, "Node");
    assert_eq!(merged.sync_dirs, vec!["datapacks"]);
    assert_eq!(merged.timeout_secs, 0);
}

#[test]
fn start_defaults() {
    let args = start_args(StartConfig::default(), None, None, None);
    assert_eq!(args.max_memory.to_string(), "1G");
    assert_eq!(args.max_memory.bytes(), 1073741824);
    assert!(!args.use_aikar_flags);
    assert_eq!(args.jvm_args, None);
}

#[test]
fn start_merge() {
    let config = StartConfig {
        max_memory: Some(ServerMemory::from_str("2G").unwrap()),
        use_aikar_flags: Some(true),
        jvm_args: Some(String::from("-Dfile=config")),
    };
    let args = start_args(config, None, None, None);
    assert_eq!(args.max_memory.to_string(), "2G");
    assert!(args.use_aikar_flags);
    assert_eq!(args.jvm_args, Some(String::from("-Dfile=config")));
    let config = StartConfig {
        max_memory: Some(ServerMemory::from_str("2G").unwrap()),
        use_aikar_flags: Some(true),
        jvm_args: Some(String::from("-Dfile=config")),
    };
    let args = start_args(
        config,
        Some(ServerMemory::from_str("512m").unwrap()),
        Some(false),
        Some(String::from("-Dline=args")),
    );
    assert_eq!(args.max_memory.to_string(), "512m");
    assert_eq!(args.max_memory.bytes(), 536870912);
    assert!(!args.use_aikar_flags);
    assert_eq!(args.jvm_args, Some(String::from("-Dline=args")));
}

#[test]
fn world_management_merge() {
    let config = WorldManagementConfig {
        world_diameter: Some(4096),
        slice_width: None,
        avoid_slicing_origin: Some(true),
        origin_radius: None,
    };
    let args = world_management_args(
        config,
        Some(2048),
        Some(512),
        None,
        None,
        Some(String::from("combined")),
    );
    assert_eq!(args.world_diameter, Some(2048));
    assert_eq!(args.slice_width, Some(512));
    assert_eq!(args.avoid_slicing_origin, Some(true));
    assert_eq!(args.origin_radius, None);
    assert_eq!(args.combined_directory, Some(String::from("combined")));
    let args = world_management_args(WorldManagementConfig::default(), None, None, None, None, None);
    assert_eq!(args.world_diameter, None);
    assert_eq!(args.slice_width, None);
    assert_eq!(args.avoid_slicing_origin, None);
    assert_eq!(args.origin_radius, None);
    assert_eq!(args.combined_directory, None);
}

#[test]
fn names_are_merged_without_repeats() {
    let merged = merge_names(Some(names(&["ann", "bob", "ann"])), names(&["cy", "bob", "dee"]));
    let mut found = merged.clone();
    found.sort();
    assert_eq!(found, vec!["ann", "bob", "cy", "dee"]);
    assert_eq!(merged.len(), 4);
    assert_eq!(merge_names(None, vec![]), Vec::<String>::new());
    assert_eq!(merge_names(None, names(&["x", "x"])), vec!["x"]);
}

#[test]
fn init_table_of_properties() {
    let config_properties = Some(vec![
        (String::from("Difficulty"), String::from("easy")),
        (String::from("PVP"), String::from("true")),
        (String::from("pvp"), String::from("false")),
    ]);
    let given = vec![
        ServerProperty::from_str("difficulty=hard").unwrap(),
        ServerProperty::from_str("View-Distance=8").unwrap(),
    ];
    let table = init_properties(config_properties, given, false);
    let entries: Vec<(&str, &str)> =
        table.entries().iter().map(|(k, v)| (k.as_str(), v.as_str())).collect();
    assert_eq!(
        entries,
        vec![("View-Distance", "8"), ("difficulty", "hard"), ("pvp", "false")]
    );
    let table = init_properties(None, vec![], true);
    let entries: Vec<(&str, &str)> =
        table.entries().iter().map(|(k, v)| (k.as_str(), v.as_str())).collect();
    assert_eq!(entries, vec![("white-list", "true")]);
}

#[test]
fn init_merge() {
    let config = InitConfig {
        level_seed: Some(String::from("file-seed")),
        ops: Some(names(&["ann"])),
        white_list: None,
        server_properties: Some(vec![(String::from("PVP"), String::from("true"))]),
    };
    let args = init_args(
        config,
        None,
        names(&["bob", "ann"]),
        vec![],
        vec![ServerProperty::from_str("difficulty=hard").unwrap()],
    )
    .unwrap();
    assert_eq!(args.level_seed, "file-seed");
    let mut ops = args.ops.clone();
    ops.sort();
    assert_eq!(ops, vec!["ann", "bob"]);
    assert!(args.white_list.is_empty());
    let lines: Vec<String> = args.server_properties.iter().map(|p| p.to_string()).collect();
    assert_eq!(lines, vec!["difficulty=hard", "pvp=true"]);

    let args = init_args(InitConfig::default(), Some(String::from("s")), vec![], vec![], vec![])
        .unwrap();
    assert_eq!(args.level_seed, "s");
    assert!(args.ops.is_empty());
    assert!(args.server_properties.is_empty());
    let args = init_args(InitConfig::default(), None, vec![], vec![], vec![]).unwrap();
    assert_eq!(args.level_seed, "");
}

#[test]
fn init_refuses_reserved_keys_of_the_file() {
    let config = InitConfig {
        level_seed: None,
        ops: None,
        white_list: None,
        server_properties: Some(vec![(String::from("MOTD"), String::from("hello"))]),
    };
    match init_args(config, None, vec![], vec![], vec![]) {
        Err(ServerPropertyError::DisallowedProperty(key)) => assert_eq!(key, "motd"),
        other => panic!("{:?}", other),
    }
}

#[test]
fn init_with_a_white_list_enters_a_reserved_key() {
    let result = init_args(InitConfig::default(), None, vec![], names(&["ann"]), vec![]);
    match result {
        Err(ServerPropertyError::DisallowedProperty(key)) => assert_eq!(key, "white-list"),
        other => panic!("{:?}", other),
    }
}
