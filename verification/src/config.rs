//! Settings of a connection to a Vault server.
//!
//! Each setting can be given in three places: in the process environment, in the
//! link's values under a lower-case key, and there under an upper-case key. The
//! caller looks the places up and hands over what it found; this module decides
//! which place wins, fills in the defaults and reads the values.

use vstd::prelude::*;
use vstd::string::*;

use crate::text::{
    comma_list, decimal_u64, parse_u64, split_comma_list,
};

verus! {

/// The address at which a Vault server is expected where none is given.
pub const DEFAULT_VAULT_ADDR: &'static str = "http://127.0.0.1:8200";

/// The mount point that is used where none is given.
pub const DEFAULT_VAULT_MOUNT: &'static str = "secret";

/// The seconds between two refreshes of a token where the setting cannot be read
/// as a number: twelve hours.
pub const TOKEN_REFRESH_INTERVAL_SECS: u64 = 43200;

/// One setting, as found in the places where it can be given.
#[derive(Debug)]
pub struct Setting {
    /// The value in the process environment.
    pub env: Option<String>,
    /// The value in the link's values under the lower-case key.
    pub lower: Option<String>,
    /// The value in the link's values under the upper-case key.
    pub upper: Option<String>,
}

/// The mathematical value of a [`Setting`].
pub struct SettingView {
    pub env: Option<Seq<char>>,
    pub lower: Option<Seq<char>>,
    pub upper: Option<Seq<char>>,
}

impl View for Setting {
    type V = SettingView;

    open spec fn view(&self) -> SettingView {
        SettingView {
            env: self.env.deep_view(),
            lower: self.lower.deep_view(),
            upper: self.upper.deep_view(),
        }
    }
}

impl SettingView {
    /// The value that counts: the environment's, else the one under the
    /// lower-case key, else the one under the upper-case key.
    pub open spec fn chosen(self) -> Option<Seq<char>> {
        if self.env is Some {
            self.env
        } else if self.lower is Some {
            self.lower
        } else {
            self.upper
        }
    }
}

impl Setting {
    /// Picks the value that counts.
    pub fn pick(self) -> (value: Option<String>)
        ensures
            value.deep_view() == self@.chosen(),
    {
        match self.env {
            Some(value) => Some(value),
            None => match self.lower {
                Some(value) => Some(value),
                None => self.upper,
            },
        }
    }
}

/// All the settings of a connection, as found.
#[derive(Debug)]
pub struct Settings {
    /// `VAULT_ADDR`, `addr`, `ADDR`.
    pub addr: Setting,
    /// `VAULT_TOKEN`, `token`, `TOKEN`.
    pub token: Setting,
    /// `VAULT_MOUNT`, `mount`, `MOUNT`.
    pub mount: Setting,
    /// `VAULT_CERTS`, `certs`, `CERTS`.
    pub certs: Setting,
    /// `VAULT_TOKEN_INCREMENT_TTL`, `token_increment_ttl`, `TOKEN_INCREMENT_TTL`.
    pub token_increment_ttl: Setting,
    /// `VAULT_TOKEN_REFRESH_INTERVAL`, `token_refresh_interval`,
    /// `TOKEN_REFRESH_INTERVAL`.
    pub token_refresh_interval: Setting,
}

/// The mathematical value of [`Settings`].
pub struct SettingsView {
    pub addr: SettingView,
    pub token: SettingView,
    pub mount: SettingView,
    pub certs: SettingView,
    pub token_increment_ttl: SettingView,
    pub token_refresh_interval: SettingView,
}

impl View for Settings {
    type V = SettingsView;

    open spec fn view(&self) -> SettingsView {
        SettingsView {
            addr: self.addr@,
            token: self.token@,
            mount: self.mount@,
            certs: self.certs@,
            token_increment_ttl: self.token_increment_ttl@,
            token_refresh_interval: self.token_refresh_interval@,
        }
    }
}

/// Configuration of a connection to a Vault server.
#[derive(Debug)]
pub struct Config {
    /// Token for connecting to the server.
    pub token: String,
    /// Address of the server, in the normal form of a URL.
    pub addr: String,
    /// Mount point.
    pub mount: String,
    /// Paths of the files that hold the certificates of the authorities to trust.
    pub certs: Vec<String>,
    /// Time by which a token is renewed.
    pub token_increment_ttl: Option<String>,
    /// Seconds between two refreshes of a token.
    pub token_refresh_interval: Option<u64>,
}

/// The mathematical value of a [`Config`].
pub struct ConfigView {
    pub token: Seq<char>,
    pub addr: Seq<char>,
    pub mount: Seq<char>,
    pub certs: Seq<Seq<char>>,
    pub token_increment_ttl: Option<Seq<char>>,
    pub token_refresh_interval: Option<u64>,
}

impl View for Config {
    type V = ConfigView;

    open spec fn view(&self) -> ConfigView {
        ConfigView {
            token: self.token@,
            addr: self.addr@,
            mount: self.mount@,
            certs: self.certs.deep_view(),
            token_increment_ttl: self.token_increment_ttl.deep_view(),
            token_refresh_interval: self.token_refresh_interval,
        }
    }
}

/// Why no configuration could be made of the settings.
#[derive(Clone, Copy, Debug, PartialEq, Eq, Structural)]
pub enum ConfigError {
    /// No token is given in any place.
    MissingToken,
    /// The address given is no URL, and neither is the default address.
    InvalidDefaultAddr,
}

/// What `url::Url::parse` makes of a text: the URL in its normal form, or `None`
/// where it reports an error.
pub uninterp spec fn url_parse(text: Seq<char>) -> Option<Seq<char>>;

/// Calls `url::Url::parse` and hands back the text of the URL that it made. The
/// contract claims only that the outcome is a function of the text.
#[verifier::external_body]
pub(crate) fn parse_url(text: &str) -> (address: Option<String>)
    ensures
        address.deep_view() == url_parse(text@),
{
    match url::Url::parse(text) {
        Ok(url) => Some(String::from(url)),
        Err(_) => None,
    }
}

/// The address of the server: the one given if it is a URL, else the default one;
/// the default one too where none is given. `None` where not even the default is
/// a URL.
pub open spec fn address_of(given: Option<Seq<char>>) -> Option<Seq<char>> {
    let text = match given {
        Some(text) => text,
        None => DEFAULT_VAULT_ADDR@,
    };
    match url_parse(text) {
        Some(address) => Some(address),
        None => url_parse(DEFAULT_VAULT_ADDR@),
    }
}

/// The mount point: the one given, else the default one.
pub open spec fn mount_of(given: Option<Seq<char>>) -> Seq<char> {
    match given {
        Some(text) => text,
        None => DEFAULT_VAULT_MOUNT@,
    }
}

/// The certificate files: the pieces of the comma list given, else none.
pub open spec fn certs_of(given: Option<Seq<char>>) -> Seq<Seq<char>> {
    match given {
        Some(text) => comma_list(text),
        None => Seq::empty(),
    }
}

/// The seconds between two refreshes: the number given, the default where what is
/// given is no number, and none where nothing is given.
pub open spec fn refresh_interval_of(given: Option<Seq<char>>) -> Option<u64> {
    match given {
        Some(text) => Some(
            match decimal_u64(text) {
                Some(secs) => secs,
                None => TOKEN_REFRESH_INTERVAL_SECS,
            },
        ),
        None => None,
    }
}

/// The configuration that the settings make, or why they make none.
pub open spec fn config_of(values: SettingsView) -> Result<ConfigView, ConfigError> {
    match address_of(values.addr.chosen()) {
        None => Err(ConfigError::InvalidDefaultAddr),
        Some(addr) => match values.token.chosen() {
            None => Err(ConfigError::MissingToken),
            Some(token) => Ok(
                ConfigView {
                    token,
                    addr,
                    mount: mount_of(values.mount.chosen()),
                    certs: certs_of(values.certs.chosen()),
                    token_increment_ttl: values.token_increment_ttl.chosen(),
                    token_refresh_interval: refresh_interval_of(
                        values.token_refresh_interval.chosen(),
                    ),
                },
            ),
        },
    }
}

/// The mathematical value of what [`Config::from_values`] gives.
pub open spec fn loaded_view(loaded: Result<Config, ConfigError>) -> Result<
    ConfigView,
    ConfigError,
> {
    match loaded {
        Ok(config) => Ok(config@),
        Err(error) => Err(error),
    }
}

/// Settles the address of the server.
pub fn resolve_address(given: Option<String>) -> (address: Option<String>)
    ensures
        address.deep_view() == address_of(given.deep_view()),
{
    let first = match &given {
        Some(text) => parse_url(text.as_str()),
        None => parse_url(DEFAULT_VAULT_ADDR),
    };
    match first {
        Some(address) => Some(address),
        None => parse_url(DEFAULT_VAULT_ADDR),
    }
}

/// Settles the seconds between two refreshes of a token.
pub fn resolve_refresh_interval(given: Option<String>) -> (secs: Option<u64>)
    ensures
        secs == refresh_interval_of(given.deep_view()),
{
    match given {
        Some(text) => match parse_u64(text.as_str()) {
            Some(secs) => Some(secs),
            None => Some(TOKEN_REFRESH_INTERVAL_SECS),
        },
        None => None,
    }
}

impl Config {
    /// Makes the configuration out of the settings as they were found.
    ///
    /// For each setting the environment wins over the link's values, and there the
    /// lower-case key over the upper-case key. A token must be given. An address
    /// that is no URL is replaced by the default address, a refresh interval that
    /// is no number by the default interval.
    pub fn from_values(values: Settings) -> (loaded: Result<Config, ConfigError>)
        ensures
            loaded_view(loaded) == config_of(values@),
    {
        let addr = match resolve_address(values.addr.pick()) {
            Some(addr) => addr,
            None => {
                return Err(ConfigError::InvalidDefaultAddr);
            },
        };
        let token = match values.token.pick() {
            Some(token) => token,
            None => {
                return Err(ConfigError::MissingToken);
            },
        };
        let mount = match values.mount.pick() {
            Some(mount) => mount,
            None => String::from_str(DEFAULT_VAULT_MOUNT),
        };
        let certs = match values.certs.pick() {
            Some(text) => split_comma_list(text.as_str()),
            None => Vec::new(),
        };
        let token_increment_ttl = values.token_increment_ttl.pick();
        let token_refresh_interval = resolve_refresh_interval(
            values.token_refresh_interval.pick(),
        );
        let config = Config { token, addr, mount, certs, token_increment_ttl, token_refresh_interval };
        assert(config@.certs =~= certs_of(values@.certs.chosen()));
        Ok(config)
    }
}

} // verus!
