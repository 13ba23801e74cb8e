//! Connection and storage settings, merged from the command line and the
//! configuration file.
use vstd::prelude::*;
use vstd::string::StringExecFns;
use configparser::ini::Ini;

verus! {

#[verifier::external_type_specification]
#[verifier::external_body]
pub struct ExIni(Ini);

/// What `Ini::get` returns, for each section and key it finds a value for.
pub uninterp spec fn ini_values(ini: Ini) -> Map<(Seq<char>, Seq<char>), Seq<char>>;

/// What `Ini::getuint` returns, for each section and key it finds a value
/// for: the number, or `None` where the value is not one.
pub uninterp spec fn ini_uints(ini: Ini) -> Map<(Seq<char>, Seq<char>), Option<u64>>;

/// Relies on configparser's `Ini::get`: the value of `key` in `section`, if any.
#[verifier::external_body]
fn ini_get(ini: &Ini, section: &str, key: &str) -> (r: Option<String>)
    ensures
        r is Some <==> ini_values(*ini).contains_key((section@, key@)),
        r matches Some(v) ==> v@ == ini_values(*ini)[(section@, key@)],
{
    ini.get(section, key)
}

/// Relies on configparser's `Ini::getuint`: the value of `key` in `section`
/// as an unsigned number, nothing where there is no value, an error where
/// it is not a number.
#[verifier::external_body]
fn ini_getuint(ini: &Ini, section: &str, key: &str) -> (r: Result<Option<u64>, String>)
    ensures
        match r {
            Ok(Some(n)) => ini_uints(*ini).contains_key((section@, key@)) && ini_uints(*ini)[(
                section@,
                key@,
            )] == Some(n),
            Ok(None) => !ini_uints(*ini).contains_key((section@, key@)),
            Err(_) => ini_uints(*ini).contains_key((section@, key@)) && ini_uints(*ini)[(
                section@,
                key@,
            )] is None,
        },
{
    ini.getuint(section, key)
}

/// Settings given on the command line; each one left out falls back to the
/// configuration file.
#[derive(Debug, Clone, PartialEq)]
pub struct Opt {
    pub config: Option<String>,
    pub db_path: Option<String>,
    pub user: Option<String>,
    pub password: Option<String>,
    pub server: Option<String>,
    pub port: Option<u16>,
    pub store_folder: Option<String>,
}

/// The settings the program runs with.
#[derive(Debug, Clone, PartialEq)]
pub struct Config {
    pub db_path: String,
    pub server: String,
    pub port: u16,
    pub user: String,
    pub password: String,
    pub store_folder: String,
}

/// A command-line setting, else the file's value, else `default`.
pub open spec fn setting(arg: Option<String>, ini: Ini, section: Seq<char>, key: Seq<char>, default: Seq<char>) -> Seq<char> {
    match arg {
        Some(a) => a@,
        None => if ini_values(ini).contains_key((section, key)) {
            ini_values(ini)[(section, key)]
        } else {
            default
        },
    }
}

/// Whether a required setting is given on the command line or in the file.
pub open spec fn given(arg: Option<String>, ini: Ini, section: Seq<char>, key: Seq<char>) -> bool {
    arg is Some || ini_values(ini).contains_key((section, key))
}

/// The port: from the command line, else the file's number taken modulo
/// 2^16, else 993.
pub open spec fn port_setting(arg: Option<u16>, ini: Ini) -> u16 {
    match arg {
        Some(p) => p,
        None => if ini_uints(ini).contains_key(("account"@, "port"@)) {
            (ini_uints(ini)[("account"@, "port"@)]->Some_0 % 65536) as u16
        } else {
            993
        },
    }
}

fn setting_or(arg: &Option<String>, ini: &Ini, section: &str, key: &str, default: &str) -> (r: String)
    ensures
        r@ == setting(*arg, *ini, section@, key@, default@),
{
    match arg {
        Some(a) => a.clone(),
        None => match ini_get(ini, section, key) {
            Some(v) => v,
            None => String::from_str(default),
        },
    }
}

/// Whether `c` is the merge of `args` with `ini`: a command-line setting
/// wins over the file's, and the file's over the default.
pub open spec fn merged(c: Config, ini: Ini, args: Opt) -> bool {
    &&& c.db_path@ == setting(args.db_path, ini, "global"@, "db_path"@, "data.db"@)
    &&& c.server@ == setting(args.server, ini, "account"@, "server"@, seq![])
    &&& c.port == port_setting(args.port, ini)
    &&& c.user@ == setting(args.user, ini, "account"@, "user"@, seq![])
    &&& c.password@ == setting(args.password, ini, "account"@, "password"@, seq![])
    &&& c.store_folder@ == setting(args.store_folder, ini, "account"@, "store_folder"@, "processed"@)
}

/// Why the settings cannot be merged.
#[derive(Debug, Clone, Copy, PartialEq, Eq, Structural)]
pub enum ConfigError {
    /// No server on the command line or in the file.
    NoServer,
    /// The file's port is not a number.
    BadPort,
    /// No user on the command line or in the file.
    NoUser,
    /// No password on the command line or in the file.
    NoPassword,
}

/// The first setting, in the order server, port, user, password, that
/// keeps the merge from being made.
pub open spec fn config_error(ini: Ini, args: Opt) -> Option<ConfigError> {
    if !given(args.server, ini, "account"@, "server"@) {
        Some(ConfigError::NoServer)
    } else if args.port is None && ini_uints(ini).contains_key(("account"@, "port"@)) && ini_uints(
        ini,
    )[("account"@, "port"@)] is None {
        Some(ConfigError::BadPort)
    } else if !given(args.user, ini, "account"@, "user"@) {
        Some(ConfigError::NoUser)
    } else if !given(args.password, ini, "account"@, "password"@) {
        Some(ConfigError::NoPassword)
    } else {
        None
    }
}

impl Config {
    /// Merges the command-line settings with the configuration file, or
    /// says which required setting is missing or unreadable; see
    /// `config_error` and `merged`.
    pub fn try_merge_config_options(config_file: &Ini, args: &Opt) -> (r: Result<Self, ConfigError>)
        ensures
            match config_error(*config_file, *args) {
                Some(e) => r == Err::<Config, ConfigError>(e),
                None => r matches Ok(c) && merged(c, *config_file, *args),
            },
    {
        if args.server.is_none() && ini_get(config_file, "account", "server").is_none() {
            return Err(ConfigError::NoServer);
        }
        if args.port.is_none() {
            if ini_getuint(config_file, "account", "port").is_err() {
                return Err(ConfigError::BadPort);
            }
        }
        if args.user.is_none() && ini_get(config_file, "account", "user").is_none() {
            return Err(ConfigError::NoUser);
        }
        if args.password.is_none() && ini_get(config_file, "account", "password").is_none() {
            return Err(ConfigError::NoPassword);
        }
        Ok(Self::merge_config_options(config_file, args))
    }

    /// Merges the command-line settings with the configuration file: a
    /// setting given on the command line wins. The database path defaults
    /// to `data.db`, the port to 993 and the store folder to `processed`;
    /// the server, user and password have no default.
    pub fn merge_config_options(config_file: &Ini, args: &Opt) -> (r: Self)
        requires
            given(args.server, *config_file, "account"@, "server"@),
            given(args.user, *config_file, "account"@, "user"@),
            given(args.password, *config_file, "account"@, "password"@),
            args.port is None && ini_uints(*config_file).contains_key(("account"@, "port"@))
                ==> ini_uints(*config_file)[("account"@, "port"@)] is Some,
        ensures
            merged(r, *config_file, *args),
    {
        let db_path = setting_or(&args.db_path, config_file, "global", "db_path", "data.db");
        let server = setting_or(&args.server, config_file, "account", "server", "");
        let user = setting_or(&args.user, config_file, "account", "user", "");
        let password = setting_or(&args.password, config_file, "account", "password", "");
        let store_folder = setting_or(
            &args.store_folder,
            config_file,
            "account",
            "store_folder",
            "processed",
        );
        let port = match args.port {
            Some(p) => p,
            None => match ini_getuint(config_file, "account", "port") {
                Ok(Some(n)) => (n % 65536) as u16,
                Ok(None) => 993,
                Err(_) => 993,
            },
        };
        proof {
            reveal_strlit("");
        }
        Config { db_path, server, port, user, password, store_folder }
    }
}

} // verus!
