use cs2_server::addons::{
    addons_dir, backup_dir, is_remote_source, maps_dir, path_join, plugin_archive_file_name,
    resolve_plugin_source, server_cfg_path, url_file_name,
};
use cs2_server::errors::CoreError;

#[test]
fn remote_sources_are_recognized() {
    assert!(is_remote_source("http://example.com/map.bsp"));
    assert!(is_remote_source("https://example.com/map.bsp"));
    assert!(!is_remote_source("/local/map.bsp"));
    assert!(!is_remote_source("ftp://example.com/map.bsp"));
    assert!(!is_remote_source(""));
}

#[test]
fn url_file_name_takes_last_segment() {
    assert_eq!(url_file_name("http://x/maps/de_custom.bsp"), "de_custom.bsp");
    assert_eq!(url_file_name("plainname"), "plainname");
    assert_eq!(url_file_name("http://x/dir/"), "");
}

#[test]
fn known_plugins_resolve_to_recorded_urls() {
    assert_eq!(
        resolve_plugin_source("sourcemod").unwrap(),
        "https://sm.alliedmods.net/smdrop/1.11/sourcemod-1.11.0-git6936-linux.tar.gz"
    );
    assert_eq!(
        resolve_plugin_source("metamod").unwrap(),
        "https://mms.alliedmods.net/mmsdrop/1.11/mmsource-1.11.0-git1148-linux.tar.gz"
    );
    assert_eq!(
        resolve_plugin_source("steamworks").unwrap(),
        "https://github.com/KyleSanderson/SteamWorks/releases/download/1.2.3c/package-lin.tgz"
    );
}

#[test]
fn direct_urls_pass_through_and_unknown_names_fail() {
    assert_eq!(
        resolve_plugin_source("https://example.com/plugin.tgz").unwrap(),
        "https://example.com/plugin.tgz"
    );
    assert_eq!(
        resolve_plugin_source("dhooks"),
        Err(CoreError::NotFound)
    );
}

#[test]
fn plugin_storage_names() {
    assert_eq!(
        plugin_archive_file_name("sourcemod", "https://x/sm.tar.gz"),
        "sourcemod.tar.gz"
    );
    assert_eq!(
        plugin_archive_file_name("steamworks", "https://x/package-lin.tgz"),
        "steamworks.tar.gz"
    );
    assert_eq!(
        plugin_archive_file_name("thing", "https://x/thing.zip"),
        "thing"
    );
}

#[test]
fn instance_directory_layout() {
    assert_eq!(maps_dir("/srv/a"), "/srv/a/game/csgo/maps");
    assert_eq!(addons_dir("/srv/a"), "/srv/a/game/csgo/addons");
    assert_eq!(server_cfg_path("/srv/a"), "/srv/a/server.cfg");
    assert_eq!(backup_dir("/srv/a", "b1"), "/srv/a/backups/b1");
    assert_eq!(path_join("/srv/a/game/csgo/maps", "x.bsp"), "/srv/a/game/csgo/maps/x.bsp");
}
