//! The settings of the proxy process.

use crate::text::{decimal, decimal_string};
use vstd::prelude::*;
use vstd::std_specs::convert::FromSpecImpl;
use vstd::string::*;

verus! {

/// The settings as they are given on the command line.
#[derive(Debug, Clone, PartialEq, Eq)]
pub struct CliArgs {
    /// Proxy server listening address
    pub host: String,
    /// Proxy server listening port
    pub port: u16,
    /// Database file path (supports relative and absolute paths)
    pub db_path: String,
    /// Request timeout in seconds
    pub timeout: u64,
    /// Log level (trace, debug, info, warn, error)
    pub log_level: String,
}

/// The settings the proxy runs with.
#[derive(Debug, Clone, PartialEq, Eq)]
pub struct Config {
    /// Proxy server listening address
    pub host: String,
    /// Proxy server listening port
    pub port: u16,
    /// Database file path
    pub db_path: String,
    /// Request timeout in seconds
    pub request_timeout: u64,
}

/// Whether `config` holds the settings that apply where none are given:
/// every address, port 8080, the database beside the process, 30 seconds.
pub open spec fn is_default_config(config: Config) -> bool {
    &&& config.host@ == "0.0.0.0"@
    &&& config.port == 8080
    &&& config.db_path@ == "./sessions.db"@
    &&& config.request_timeout == 30
}

/// The connection string of the database at `db_path`: `sqlite://` before an
/// absolute path, `sqlite:` before a relative one.
pub open spec fn database_url_of(db_path: Seq<char>, absolute: bool) -> Seq<char> {
    if absolute {
        "sqlite://"@ + db_path
    } else {
        "sqlite:"@ + db_path
    }
}

/// The address to listen on: the host, a colon, and the port in decimal.
pub open spec fn bind_address_of(host: Seq<char>, port: u16) -> Seq<char> {
    host + seq![':'] + decimal(port as nat)
}

/// Calls std's `Path::is_absolute` on `path`. What counts as absolute is the
/// platform's rule, so the contract claims nothing of the answer.
#[verifier::external_body]
fn is_absolute_path(path: &str) -> bool {
    std::path::Path::new(path).is_absolute()
}

/// The connection string of the database at `db_path`, given whether the
/// path is absolute.
pub fn database_url_for(db_path: &str, absolute: bool) -> (url: String)
    ensures
        url@ == database_url_of(db_path@, absolute),
{
    if absolute {
        String::from_str("sqlite://").concat(db_path)
    } else {
        String::from_str("sqlite:").concat(db_path)
    }
}

impl Default for Config {
    fn default() -> (config: Config)
        ensures
            is_default_config(config),
    {
        Config {
            host: String::from_str("0.0.0.0"),
            port: 8080,
            db_path: String::from_str("./sessions.db"),
            request_timeout: 30,
        }
    }
}

impl Config {
    /// Create a new configuration
    pub fn new() -> (config: Config)
        ensures
            is_default_config(config),
    {
        Config::default()
    }

    /// Set listening address
    pub fn with_host(self, host: &str) -> (config: Config)
        ensures
            config.host@ == host@,
            config.port == self.port,
            config.db_path == self.db_path,
            config.request_timeout == self.request_timeout,
    {
        Config {
            host: String::from_str(host),
            port: self.port,
            db_path: self.db_path,
            request_timeout: self.request_timeout,
        }
    }

    /// Set listening port
    pub fn with_port(self, port: u16) -> (config: Config)
        ensures
            config.host == self.host,
            config.port == port,
            config.db_path == self.db_path,
            config.request_timeout == self.request_timeout,
    {
        Config {
            host: self.host,
            port,
            db_path: self.db_path,
            request_timeout: self.request_timeout,
        }
    }

    /// Set database path (supports relative and absolute paths)
    pub fn with_db_path(self, path: &str) -> (config: Config)
        ensures
            config.host == self.host,
            config.port == self.port,
            config.db_path@ == path@,
            config.request_timeout == self.request_timeout,
    {
        Config {
            host: self.host,
            port: self.port,
            db_path: String::from_str(path),
            request_timeout: self.request_timeout,
        }
    }

    /// Set request timeout
    pub fn with_timeout(self, timeout: u64) -> (config: Config)
        ensures
            config.host == self.host,
            config.port == self.port,
            config.db_path == self.db_path,
            config.request_timeout == timeout,
    {
        Config {
            host: self.host,
            port: self.port,
            db_path: self.db_path,
            request_timeout: timeout,
        }
    }

    /// Get database connection string
    ///
    /// The path is written after `sqlite://` where the platform takes it for
    /// absolute and after `sqlite:` where it does not.
    pub fn database_url(&self) -> (url: String)
        ensures
            url@ == database_url_of(self.db_path@, true) || url@ == database_url_of(
                self.db_path@,
                false,
            ),
    {
        let absolute = is_absolute_path(self.db_path.as_str());
        database_url_for(self.db_path.as_str(), absolute)
    }

    /// Get server bind address
    pub fn bind_address(&self) -> (address: String)
        ensures
            address@ == bind_address_of(self.host@, self.port),
    {
        let port = decimal_string(self.port as u64);
        let address = self.host.clone().concat(":").concat(port.as_str());
        proof {
            reveal_strlit(":");
            assert(":"@ =~= seq![':']);
        }
        address
    }
}

impl From<CliArgs> for Config {
    fn from(args: CliArgs) -> (config: Config) {
        Config {
            host: args.host,
            port: args.port,
            db_path: args.db_path,
            request_timeout: args.timeout,
        }
    }
}

impl FromSpecImpl<CliArgs> for Config {
    open spec fn obeys_from_spec() -> bool {
        true
    }

    open spec fn from_spec(args: CliArgs) -> Config {
        Config {
            host: args.host,
            port: args.port,
            db_path: args.db_path,
            request_timeout: args.timeout,
        }
    }
}

} // verus!
