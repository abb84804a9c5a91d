use cs2_server::errors::CoreError;
use cs2_server::server_config::ServerConfig;
use cs2_server::strutil::parse_u32;

#[test]
fn default_values() {
    let c = ServerConfig::default();
    assert_eq!(c.hostname, "CS2 Server");
    assert_eq!(c.rcon_password, "changeme");
    assert_eq!(c.sv_password, "");
    assert_eq!(c.maxplayers, 10);
    assert_eq!(c.map, "de_dust2");
    assert_eq!(c.game_mode, "0");
    assert_eq!(c.game_type, "0");
}

#[test]
fn set_recognized_keys() {
    let mut c = ServerConfig::default();
    assert!(c.set("hostname", "My Server").is_ok());
    assert!(c.set("rcon_password", "secret").is_ok());
    assert!(c.set("sv_password", "join").is_ok());
    assert!(c.set("maxplayers", "32").is_ok());
    assert!(c.set("map", "de_inferno").is_ok());
    assert!(c.set("game_mode", "1").is_ok());
    assert!(c.set("game_type", "2").is_ok());
    assert_eq!(c.hostname, "My Server");
    assert_eq!(c.rcon_password, "secret");
    assert_eq!(c.sv_password, "join");
    assert_eq!(c.maxplayers, 32);
    assert_eq!(c.map, "de_inferno");
    assert_eq!(c.game_mode, "1");
    assert_eq!(c.game_type, "2");
}

#[test]
fn set_unknown_key_fails() {
    let mut c = ServerConfig::default();
    assert_eq!(c.set("tickrate", "128"), Err(CoreError::UnknownKey));
    assert_eq!(c.maxplayers, 10);
}

#[test]
fn set_maxplayers_rejects_non_numeric() {
    let mut c = ServerConfig::default();
    assert_eq!(c.set("maxplayers", "abc"), Err(CoreError::InvalidValue));
    assert_eq!(c.maxplayers, 10);
}

#[test]
fn set_maxplayers_survives_save_then_load() {
    let mut c = ServerConfig::default();
    assert!(c.set("maxplayers", "20").is_ok());
    let text = c.to_cfg_string();
    let reloaded = ServerConfig::parse_from_cfg(&text).unwrap();
    assert_eq!(reloaded.maxplayers, 20);
}

#[test]
fn rendered_text_exact() {
    let c = ServerConfig::default();
    let expected = "// CS2 Server Configuration\n\
                    hostname \"CS2 Server\"\n\
                    rcon_password \"changeme\"\n\
                    sv_password \"\"\n\
                    maxplayers 10\n\
                    map de_dust2\n\
                    game_mode 0\n\
                    game_type 0\n";
    assert_eq!(c.to_cfg_string(), expected);
}

#[test]
fn save_then_load_is_lossless() {
    let mut c = ServerConfig::default();
    assert!(c.set("hostname", "Community Server #1").is_ok());
    assert!(c.set("sv_password", "letmein").is_ok());
    assert!(c.set("maxplayers", "24").is_ok());
    assert!(c.set("map", "de_nuke").is_ok());
    let text = c.to_cfg_string();
    let reloaded = ServerConfig::parse_from_cfg(&text).unwrap();
    assert_eq!(reloaded, c);
}

#[test]
fn parse_line_quoted() {
    let kv = ServerConfig::parse_cfg_line("hostname \"My CS2 Server\"").unwrap();
    assert_eq!(kv.0, "hostname");
    assert_eq!(kv.1, "My CS2 Server");
}

#[test]
fn parse_line_quoted_empty_value() {
    let kv = ServerConfig::parse_cfg_line("sv_password \"\"").unwrap();
    assert_eq!(kv.0, "sv_password");
    assert_eq!(kv.1, "");
}

#[test]
fn parse_line_unquoted() {
    let kv = ServerConfig::parse_cfg_line("  maxplayers   20  ").unwrap();
    assert_eq!(kv.0, "maxplayers");
    assert_eq!(kv.1, "20");
}

#[test]
fn parse_line_single_token_is_none() {
    assert!(ServerConfig::parse_cfg_line("maxplayers").is_none());
    assert!(ServerConfig::parse_cfg_line("   ").is_none());
}

#[test]
fn parse_line_unterminated_quote_is_none() {
    assert!(ServerConfig::parse_cfg_line("hostname \"oops").is_none());
}

#[test]
fn parse_full_config_with_comments_and_blanks() {
    let text = "// header comment\n\
                \n\
                hostname \"A B C\"\n\
                maxplayers 12\n\
                   // indented comment\n\
                map de_train\n";
    let c = ServerConfig::parse_from_cfg(text).unwrap();
    assert_eq!(c.hostname, "A B C");
    assert_eq!(c.maxplayers, 12);
    assert_eq!(c.map, "de_train");
    assert_eq!(c.rcon_password, "changeme");
}

#[test]
fn parse_full_config_unknown_key_fails() {
    let text = "hostname \"x\"\ntickrate 128\n";
    assert_eq!(
        ServerConfig::parse_from_cfg(text),
        Err(CoreError::UnknownKey)
    );
}

#[test]
fn parse_full_config_bad_maxplayers_fails() {
    let text = "maxplayers many\n";
    assert_eq!(
        ServerConfig::parse_from_cfg(text),
        Err(CoreError::InvalidValue)
    );
}

#[test]
fn parse_line_takes_second_token_only() {
    let kv = ServerConfig::parse_cfg_line("map de_dust2 trailing words").unwrap();
    assert_eq!(kv.0, "map");
    assert_eq!(kv.1, "de_dust2");
}

#[test]
fn parse_line_quoted_ignores_text_after_quote() {
    let kv = ServerConfig::parse_cfg_line("hostname \"A\" // inline note").unwrap();
    assert_eq!(kv.0, "hostname");
    assert_eq!(kv.1, "A");
}

#[test]
fn parse_line_quoted_key_is_trimmed() {
    let kv = ServerConfig::parse_cfg_line("   rcon_password   \"p w\"").unwrap();
    assert_eq!(kv.0, "rcon_password");
    assert_eq!(kv.1, "p w");
}

#[test]
fn parse_u32_handles_edges() {
    assert_eq!(parse_u32("0"), Some(0));
    assert_eq!(parse_u32("20"), Some(20));
    assert_eq!(parse_u32("+7"), Some(7));
    assert_eq!(parse_u32("0020"), Some(20));
    assert_eq!(parse_u32("4294967295"), Some(u32::MAX));
    assert_eq!(parse_u32("4294967296"), None);
    assert_eq!(parse_u32(""), None);
    assert_eq!(parse_u32("+"), None);
    assert_eq!(parse_u32("-1"), None);
    assert_eq!(parse_u32("1 2"), None);
}
