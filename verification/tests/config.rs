use clobber::config::{config_path, data_dir_path, BotConfig, Config, HomeserverConfig};
use clobber::login::device_display_name;
use clobber::text::{str_eq, str_starts_with};

#[test]
fn test_config_path_preference() {
    assert_eq!(config_path(true, true), "clobber.toml");
    assert_eq!(config_path(true, false), "clobber.toml");
    assert_eq!(config_path(false, true), "/etc/clobber/clobber.toml");
    assert_eq!(config_path(false, false), "clobber.toml");
}

#[test]
fn test_data_dir_preference() {
    assert_eq!(data_dir_path(true, true), "data");
    assert_eq!(data_dir_path(false, true), "/var/lib/clobber");
    assert_eq!(data_dir_path(false, false), "data");
}

#[test]
fn test_config_fields() {
    let config = Config {
        homeserver: HomeserverConfig {
            url: String::from("https://home.tld"),
        },
        bot: BotConfig {
            command_prefix: String::from("?"),
            allow_invites: vec![String::from("@admin:home.tld")],
        },
    };
    assert_eq!(config.homeserver.url, "https://home.tld");
    assert_eq!(config.bot.command_prefix, "?");
    assert_eq!(config.bot.allow_invites, vec!["@admin:home.tld"]);
}

#[test]
fn test_device_display_name() {
    assert_eq!(device_display_name("vzN2gq"), "Clobber_vzN2gq");
    assert_eq!(device_display_name(""), "Clobber_");
}

#[test]
fn test_text_helpers() {
    assert!(str_eq("abc", "abc"));
    assert!(!str_eq("abc", "abd"));
    assert!(!str_eq("abc", "ab"));
    assert!(str_starts_with("?ban", "?"));
    assert!(str_starts_with("abc", ""));
    assert!(!str_starts_with("abc", "b"));
    assert!(!str_starts_with("a", "abc"));
}
