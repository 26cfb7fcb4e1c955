use trunk_core::agent;
use trunk_core::package::{CompiledPackage, PackageTitle};
use trunk_core::text::{i64_to_string, parse_bool, parse_i64, parse_u16, parse_u64, u64_to_string};
use trunk_core::errors::Error;
use trunk_core::manager;

#[test]
fn manager_config_defaults() {
    let config = manager::Config::default();
    assert_eq!(config.registry.path, "/trunk/charon/registry");
    assert_eq!(config.systemd_root.as_deref(), Some("/etc/systemd/system"));
    assert_eq!(config.charon_path.as_deref(), Some("/usr/bin/charon"));
    assert!(!config.debug());

    let registry = config.registry();
    assert_eq!(registry.path(), "/trunk/charon/registry");
    assert!(registry.load("anything", "0.0.1").is_err());

    let with_debug = manager::Config {
        debug: Some(true),
        ..manager::Config::default()
    };
    assert!(with_debug.debug());

    let client = manager::Client::new("/run/charon.sock".to_string());
    assert_eq!(client.socket, "/run/charon.sock");
    let server = manager::Server::new(manager::Config::default());
    assert_eq!(server.config.registry.path, "/trunk/charon/registry");
}

#[test]
fn agent_config_defaults() {
    let config = agent::Config::default();
    assert_eq!(config.zfs.pool, "trunk");
    let pool = config.zfs.controller();
    assert_eq!(pool.name, "trunk");

    let server = agent::Server::new_with_config(None);
    assert_eq!(server.config.zfs.pool, "trunk");
    let custom = agent::Server::new_with_config(Some(agent::Config {
        socket: "/run/buckle.sock".to_string(),
        zfs: agent::ZFSConfig {
            pool: "tank".to_string(),
        },
        log_level: agent::LogLevel::Debug,
    }));
    assert_eq!(custom.config.zfs.pool, "tank");

    let client = agent::Client::new("/run/buckle.sock".to_string());
    assert_eq!(client.socket, "/run/buckle.sock");
}

#[test]
fn error_messages() {
    let e = Error::NoMatch("greeting".to_string());
    assert_eq!(e.message(), "no response matches prompt 'greeting'");
    assert!(Error::NoMoreMigrations.message().len() > 0);
    assert!(Error::Coerce("zap".to_string()).message().contains("zap"));
    assert!(Error::NotFound("a".to_string(), "b".to_string())
        .message()
        .contains("a/b"));
}

#[test]
fn manager_unit_wiring() {
    let config = manager::Config {
        buckle_socket: "/run/buckle.sock".to_string(),
        ..manager::Config::default()
    };
    let package = CompiledPackage {
        title: PackageTitle {
            name: "plex".into(),
            version: "0.0.1".into(),
        },
        ..Default::default()
    };
    let unit = package.systemd_unit(&config);
    assert_eq!(unit.buckle_socket, "/run/buckle.sock");
    assert_eq!(unit.buckle().socket, "/run/buckle.sock");
    assert_eq!(unit.filename(), "/etc/systemd/system/plex-0.0.1.service");
}

#[test]
fn decimal_text_round_trips() {
    assert_eq!(u64_to_string(0), "0");
    assert_eq!(u64_to_string(104857600), "104857600");
    assert_eq!(u64_to_string(u64::MAX), "18446744073709551615");
    assert_eq!(i64_to_string(-20), "-20");
    assert_eq!(i64_to_string(i64::MIN), "-9223372036854775808");
    assert_eq!(parse_u64("104857600"), Some(104857600));
    assert_eq!(parse_u64("+42"), Some(42));
    assert_eq!(parse_u64("18446744073709551616"), None);
    assert_eq!(parse_u64(""), None);
    assert_eq!(parse_u64("12x"), None);
    assert_eq!(parse_u16("65535"), Some(65535));
    assert_eq!(parse_u16("65536"), None);
    assert_eq!(parse_i64("-9223372036854775808"), Some(i64::MIN));
    assert_eq!(parse_i64("-9223372036854775809"), None);
    assert_eq!(parse_i64("20"), Some(20));
    assert_eq!(parse_bool("true"), Some(true));
    assert_eq!(parse_bool("false"), Some(false));
    assert_eq!(parse_bool("TRUE"), None);
}
