use provisioner::arg_types::ServerProperty;
use provisioner::catalog::DirEntryInfo;
use provisioner::cmd_init::{
    is_plugins_dir, name_lines, properties_text, server_properties_text, EULA_FILE, EULA_TEXT,
    OPS_FILE, PLUGINS_DIR, PROPERTIES_FILE, WHITE_LIST_FILE,
};
use provisioner::cmd_reset_world::WORLD_DIRECTORIES;
use provisioner::cmd_sync::{is_plugin_jar, JAR_EXTENSION};

#[test]
fn fixed_files() {
    assert_eq!(EULA_FILE, "eula.txt");
    assert_eq!(EULA_TEXT, "eula=true\n");
    assert_eq!(OPS_FILE, "ops.txt");
    assert_eq!(WHITE_LIST_FILE, "whitelist.txt");
    assert_eq!(PROPERTIES_FILE, "server.properties");
    assert_eq!(PLUGINS_DIR, "plugins");
    assert_eq!(JAR_EXTENSION, "jar");
    assert_eq!(WORLD_DIRECTORIES, ["world", "world_nether", "world_the_end"]);
}

#[test]
fn names_one_to_a_line() {
    assert_eq!(name_lines(&vec![]), "");
    assert_eq!(name_lines(&vec![String::from("ann")]), "ann\n");
    assert_eq!(name_lines(&vec![String::from("ann"), String::from("bob")]), "ann\nbob\n");
}

#[test]
fn properties_one_to_a_line() {
    assert_eq!(properties_text(&vec![]), "");
    let properties = vec![
        ServerProperty::from_str("difficulty=hard").unwrap(),
        ServerProperty::from_str("pvp=").unwrap(),
    ];
    assert_eq!(properties_text(&properties), "difficulty=hard\npvp=\n");
}

#[test]
fn properties_file() {
    assert_eq!(
        server_properties_text("12345", "Mammoth Server 1", 25565, "difficulty=hard\n"),
        "level-seed=12345\nmotd=Mammoth Server 1\nquery.port=25565\nserver-port=25565\ndifficulty=hard\n"
    );
    assert_eq!(
        server_properties_text("", "", 0, ""),
        "level-seed=\nmotd=\nquery.port=0\nserver-port=0\n"
    );
}

#[test]
fn plugins_directory() {
    assert!(is_plugins_dir(Some("plugins")));
    assert!(!is_plugins_dir(Some("Plugins")));
    assert!(!is_plugins_dir(Some("config")));
    assert!(!is_plugins_dir(None));
}

#[test]
fn plugin_files() {
    let entry = |is_file: bool, name: &str| DirEntryInfo { is_file, file_name: String::from(name) };
    assert!(is_plugin_jar(&entry(true, "worldedit.jar")));
    assert!(is_plugin_jar(&entry(true, "WorldEdit.JAR")));
    assert!(is_plugin_jar(&entry(true, "a.b.Jar")));
    assert!(!is_plugin_jar(&entry(false, "worldedit.jar")));
    assert!(!is_plugin_jar(&entry(true, "worldedit.jar.bak")));
    assert!(!is_plugin_jar(&entry(true, "jar")));
    assert!(!is_plugin_jar(&entry(true, ".jar")));
    assert!(!is_plugin_jar(&entry(true, "config.yml")));
}
