use game_server_utils::backup::{
    backup_file_name, current_local_time, format_stamp, get_newest_file, Timestamp,
};
use game_server_utils::config::{expand, expand_home, join_path, Cod4, Config, CsGo, Factorio,
    Garrys, Terraria};
use game_server_utils::lifecycle::{backup_directory, backup_file, Step};

fn stamp() -> Timestamp {
    Timestamp { year: 2024, month: 3, day: 7, hour: 9, minute: 5 }
}

fn config(instance: Option<&str>) -> Config {
    Config {
        game_name: String::from("terraria"),
        instance: instance.map(String::from),
        game_file_root: String::from("/srv/games"),
        backup_file_root: String::from("/var/lib/backup/games"),
        temp_file_root: String::from("/srv/tmp"),
        default_config_root: String::from("/srv/templates"),
        default_password: String::from("hunter2"),
        admin_steam_id: String::from("7656119"),
        cs_go: CsGo { login_token: String::from("token") },
        garrys: Garrys { steam_web_api_key: String::from("key") },
        terraria: Terraria {
            port: 7777,
            world_file: String::from("/srv/worlds/Atlantis.wld"),
            world_name: String::from("Atlantis"),
        },
    }
}

#[test]
fn format_stamp_renders_the_pattern() {
    assert_eq!(format_stamp(&stamp()), "2024-03-07_09-05");
    let midnight = Timestamp { year: 999, month: 12, day: 31, hour: 0, minute: 0 };
    assert_eq!(format_stamp(&midnight), "0999-12-31_00-00");
}

#[test]
fn format_stamp_renders_years_before_zero() {
    let ancient = Timestamp { year: -44, month: 3, day: 15, hour: 12, minute: 0 };
    assert_eq!(format_stamp(&ancient), "-0044-03-15_12-00");
}

#[test]
fn backup_file_name_is_stamped() {
    assert_eq!(backup_file_name("Atlantis", &stamp(), "wld"), "Atlantis_2024-03-07_09-05.wld");
    assert_eq!(
        backup_file_name("minecraft-world1", &stamp(), "tar.zst"),
        "minecraft-world1_2024-03-07_09-05.tar.zst"
    );
}

#[test]
fn backup_directory_builds_the_tar_steps() {
    let (dest, steps) = backup_directory(
        &String::from("/srv/games/minecraft"),
        &String::from("/var/lib/backup"),
        &String::from("minecraft"),
        &stamp(),
    );
    assert_eq!(dest, "/var/lib/backup/minecraft_2024-03-07_09-05.tar.zst");
    assert_eq!(steps.len(), 2);
    assert!(matches!(&steps[0], Step::RemoveFile { path } if path == &dest));
    assert!(matches!(&steps[1], Step::RunCommand { command }
        if command.command == "tar -I zstd -cvf /var/lib/backup/minecraft_2024-03-07_09-05.tar.zst /srv/games/minecraft"));
}

#[test]
fn backup_file_builds_the_copy_steps() {
    let (dest, steps) = backup_file(
        &String::from("/srv/worlds/Atlantis.wld"),
        &String::from("/var/lib/backup"),
        &String::from("Atlantis"),
        &String::from("wld"),
        &stamp(),
    );
    assert_eq!(dest, "/var/lib/backup/Atlantis_2024-03-07_09-05.wld");
    assert!(matches!(&steps[0], Step::RemoveFile { path } if path == &dest));
    assert!(matches!(&steps[1], Step::CopyFile { source, dest: d }
        if source == "/srv/worlds/Atlantis.wld" && d == &dest));
}

#[test]
fn get_newest_file_picks_the_latest_modification() {
    assert_eq!(get_newest_file(&Vec::new()), None);
    let entries = vec![
        (String::from("old.zip"), 5),
        (String::from("newest.zip"), 9),
        (String::from("tied.zip"), 9),
        (String::from("middle.zip"), 7),
    ];
    // ties keep the first entry that reached the maximum
    assert_eq!(get_newest_file(&entries), Some(String::from("newest.zip")));
    let single = vec![(String::from("only.zip"), 0)];
    assert_eq!(get_newest_file(&single), Some(String::from("only.zip")));
}

#[test]
fn current_local_time_fields_are_in_range() {
    let t = current_local_time();
    assert!((1..=12).contains(&t.month));
    assert!((1..=31).contains(&t.day));
    assert!(t.hour <= 23);
    assert!(t.minute <= 59);
    assert!(t.year >= 1970);
}

#[test]
fn expand_leaves_plain_paths_alone() {
    assert_eq!(expand(&String::from("/srv/games")), "/srv/games");
    assert_eq!(expand_home("relative/path"), "relative/path");
    // a user-form tilde is not expanded
    assert_eq!(expand_home("~nobody/path"), "~nobody/path");
}

#[test]
fn expand_replaces_a_leading_tilde() {
    let expanded = expand_home("~/game_servers");
    assert!(!expanded.starts_with("~/"));
    assert!(expanded.ends_with("/game_servers"));
}

#[test]
fn join_path_inserts_a_single_separator() {
    assert_eq!(join_path("a", "b"), "a/b");
    assert_eq!(join_path("a/", "b"), "a/b");
    assert_eq!(join_path("", "b"), "b");
    assert_eq!(join_path("/srv/games/", "terraria"), "/srv/games/terraria");
}

#[test]
fn session_name_appends_the_instance() {
    assert_eq!(config(None).session_name(), "terraria");
    let mut c = config(Some("world1"));
    c.game_name = String::from("minecraft");
    assert_eq!(c.session_name(), "minecraft-world1");
}

#[test]
fn game_subpath_joins_the_instance() {
    assert_eq!(config(None).game_subpath(), "terraria");
    let mut c = config(Some("world1"));
    c.game_name = String::from("minecraft");
    assert_eq!(c.game_subpath(), "minecraft/world1");
}

#[test]
fn derived_directories_join_root_and_subpath() {
    let c = config(None);
    assert_eq!(c.game_root(), "/srv/games");
    assert_eq!(c.game_dir(), "/srv/games/terraria");
    assert_eq!(c.game_dir_str(), "/srv/games/terraria");
    assert_eq!(c.backup_root(), "/var/lib/backup/games");
    assert_eq!(c.backup_dir(), "/var/lib/backup/games/terraria");
    assert_eq!(c.backup_dir_str(), "/var/lib/backup/games/terraria");
    assert_eq!(c.temp_root(), "/srv/tmp");
    assert_eq!(c.temp_dir(), "/srv/tmp/terraria");
    assert_eq!(c.temp_dir_str(), "/srv/tmp/terraria");
    assert_eq!(c.default_config_dir(), "/srv/templates");
}

#[test]
fn sub_config_paths_are_expanded() {
    let c = config(None);
    assert_eq!(c.terraria.world_path(), "/srv/worlds/Atlantis.wld");
    let cod = Cod4 {
        default_config: String::from("/srv/cod4/default.cfg"),
        promod_config: String::from("/srv/cod4/promod.cfg"),
    };
    assert_eq!(cod.default_config_path(), "/srv/cod4/default.cfg");
    assert_eq!(cod.promod_config_path(), "/srv/cod4/promod.cfg");
    let factorio = Factorio { server_config_file: String::from("/srv/factorio/server.json") };
    assert_eq!(factorio.server_config(), "/srv/factorio/server.json");
}
