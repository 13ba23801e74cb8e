use configparser::ini::Ini;
use dmarc_analyzer::config::{Config, ConfigError, Opt};

#[test]
fn test_merge_config_options() {
    // default settings
    let mut cf_file = Ini::new();
    cf_file.set("account", "user", Some(String::from("foo")));
    cf_file.set("account", "password", Some(String::from("bar")));
    cf_file.set("account", "server", Some(String::from("testserver.com")));
    let args = Opt {
        config: None,
        db_path: None,
        server: None,
        port: None,
        user: None,
        password: None,
        store_folder: None,
    };
    assert_eq!(
        Config {
            db_path: String::from("data.db"),
            server: String::from("testserver.com"),
            port: 993,
            user: String::from("foo"),
            password: String::from("bar"),
            store_folder: String::from("processed"),
        },
        Config::merge_config_options(&cf_file, &args)
    );

    // all config file
    cf_file.set("global", "db_path", Some(String::from("mydata.db")));
    cf_file.set("account", "store_folder", Some(String::from("finished")));
    cf_file.set("account", "port", Some(String::from("123")));
    assert_eq!(
        Config {
            db_path: String::from("mydata.db"),
            server: String::from("testserver.com"),
            port: 123,
            user: String::from("foo"),
            password: String::from("bar"),
            store_folder: String::from("finished"),
        },
        Config::merge_config_options(&cf_file, &args)
    );

    // all args
    let allargs = Opt {
        config: None,
        db_path: Some(String::from("foobar.db")),
        server: Some(String::from("newserver.foo")),
        port: Some(888 as u16),
        user: Some(String::from("newuser")),
        password: Some(String::from("newpassword")),
        store_folder: Some(String::from("newstorefolder")),
    };
    assert_eq!(
        Config {
            db_path: String::from("foobar.db"),
            server: String::from("newserver.foo"),
            port: 888,
            user: String::from("newuser"),
            password: String::from("newpassword"),
            store_folder: String::from("newstorefolder"),
        },
        Config::merge_config_options(&cf_file, &allargs)
    );
}

#[test]
fn config_port_wraps_into_sixteen_bits() {
    let mut cf_file = Ini::new();
    cf_file.set("account", "user", Some(String::from("u")));
    cf_file.set("account", "password", Some(String::from("p")));
    cf_file.set("account", "server", Some(String::from("s")));
    cf_file.set("account", "port", Some(String::from("65537")));
    let args = Opt {
        config: None,
        db_path: None,
        server: None,
        port: None,
        user: None,
        password: None,
        store_folder: None,
    };
    assert_eq!(Config::merge_config_options(&cf_file, &args).port, 1);
}

#[test]
fn config_keys_are_case_insensitive() {
    let mut cf_file = Ini::new();
    cf_file.set("Account", "User", Some(String::from("u")));
    cf_file.set("account", "password", Some(String::from("p")));
    cf_file.set("account", "server", Some(String::from("s")));
    let args = Opt {
        config: None,
        db_path: None,
        server: None,
        port: None,
        user: None,
        password: None,
        store_folder: None,
    };
    assert_eq!(Config::merge_config_options(&cf_file, &args).user, "u");
}

fn no_args() -> Opt {
    Opt { config: None, db_path: None, server: None, port: None, user: None, password: None, store_folder: None }
}

#[test]
fn config_try_merge_reports_missing_settings() {
    let mut cf_file = Ini::new();
    assert_eq!(Config::try_merge_config_options(&cf_file, &no_args()), Err(ConfigError::NoServer));
    cf_file.set("account", "server", Some(String::from("s")));
    cf_file.set("account", "port", Some(String::from("imap")));
    assert_eq!(Config::try_merge_config_options(&cf_file, &no_args()), Err(ConfigError::BadPort));
    let mut with_port = no_args();
    with_port.port = Some(143);
    assert_eq!(Config::try_merge_config_options(&cf_file, &with_port), Err(ConfigError::NoUser));
    cf_file.set("account", "port", Some(String::from("143")));
    cf_file.set("account", "user", Some(String::from("u")));
    assert_eq!(Config::try_merge_config_options(&cf_file, &no_args()), Err(ConfigError::NoPassword));
    cf_file.set("account", "password", Some(String::from("p")));
    let c = Config::try_merge_config_options(&cf_file, &no_args()).unwrap();
    assert_eq!(c, Config::merge_config_options(&cf_file, &no_args()));
    assert_eq!(c.port, 143);
    assert_eq!(c.db_path, "data.db");
}
