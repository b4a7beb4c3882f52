//! The configuration: its defaults, the file it is kept in, and what overrides it.

use std::path::PathBuf;
use vstd::prelude::*;
use vstd::string::*;

verus! {

/// `std::path::PathBuf`, the path of a file or directory. Nothing is said of what it holds.
#[verifier::external_type_specification]
#[verifier::external_body]
pub struct ExPathBuf(PathBuf);

/// `Clone::clone` of `std::path::PathBuf`: the copy is the same path.
pub assume_specification[ <PathBuf as Clone>::clone ](path: &PathBuf) -> (r: PathBuf)
    ensures
        r == *path,
;

/// The configuration of the ticker.
#[derive(Debug)]
pub struct Config {
    /// The OpenKJ data directory. Searched for where it is not set.
    pub data_dir: Option<PathBuf>,
    pub server: ServerConfig,
    pub ticker: TickerConfig,
}

/// Where the web server listens.
#[derive(Debug)]
pub struct ServerConfig {
    pub port: u16,
    pub bind_address: String,
}

/// What the ticker shows, and how often it looks.
#[derive(Debug)]
pub struct TickerConfig {
    /// How many singers to show in the ticker, after the current one and the next.
    pub singer_count: usize,
    /// How often to poll the database, in milliseconds.
    pub poll_interval_ms: u64,
}

impl Clone for ServerConfig {
    fn clone(&self) -> (r: Self)
        ensures
            r == *self,
    {
        ServerConfig { port: self.port, bind_address: self.bind_address.clone() }
    }
}

impl Clone for TickerConfig {
    fn clone(&self) -> (r: Self)
        ensures
            r == *self,
    {
        TickerConfig {
            singer_count: self.singer_count,
            poll_interval_ms: self.poll_interval_ms,
        }
    }
}

impl Clone for Config {
    fn clone(&self) -> (r: Self)
        ensures
            r == *self,
    {
        Config {
            data_dir: self.data_dir.clone(),
            server: self.server.clone(),
            ticker: self.ticker.clone(),
        }
    }
}

/// What a `ServerConfig` stands for.
#[verifier::ext_equal]
pub struct ServerView {
    pub port: u16,
    pub bind_address: Seq<char>,
}

/// What a `Config` stands for.
#[verifier::ext_equal]
pub struct ConfigView {
    pub data_dir: Option<PathBuf>,
    pub server: ServerView,
    pub ticker: TickerConfig,
}

impl View for ServerConfig {
    type V = ServerView;

    open spec fn view(&self) -> ServerView {
        ServerView { port: self.port, bind_address: self.bind_address@ }
    }
}

impl View for Config {
    type V = ConfigView;

    open spec fn view(&self) -> ConfigView {
        ConfigView { data_dir: self.data_dir, server: self.server@, ticker: self.ticker }
    }
}

impl ServerView {
    /// The server settings that apply where none are given.
    pub open spec fn defaults() -> ServerView {
        ServerView { port: 8080, bind_address: "0.0.0.0"@ }
    }
}

/// The ticker settings that apply where none are given.
pub open spec fn ticker_defaults() -> TickerConfig {
    TickerConfig { singer_count: 8, poll_interval_ms: 1500 }
}

impl ConfigView {
    /// The configuration of a first start.
    pub open spec fn defaults() -> ConfigView {
        ConfigView {
            data_dir: None,
            server: ServerView::defaults(),
            ticker: ticker_defaults(),
        }
    }
}

/// The port to listen on where none is given.
pub fn default_port() -> (r: u16)
    ensures
        r == 8080,
{
    8080
}

/// The address to listen on where none is given: every interface.
pub fn default_bind() -> (r: String)
    ensures
        r@ == "0.0.0.0"@,
{
    "0.0.0.0".to_owned()
}

/// How many singers to show where no number is given.
pub fn default_singer_count() -> (r: usize)
    ensures
        r == 8,
{
    8
}

/// How often to poll where no interval is given, in milliseconds.
pub fn default_poll_interval() -> (r: u64)
    ensures
        r == 1500,
{
    1500
}

impl Default for ServerConfig {
    fn default() -> (r: Self)
        ensures
            r@ == ServerView::defaults(),
    {
        ServerConfig { port: default_port(), bind_address: default_bind() }
    }
}

impl Default for TickerConfig {
    fn default() -> (r: Self)
        ensures
            r == ticker_defaults(),
    {
        TickerConfig {
            singer_count: default_singer_count(),
            poll_interval_ms: default_poll_interval(),
        }
    }
}

/// The settings that a configuration file spells out. What it leaves out is absent.
#[derive(Debug)]
pub struct ConfigFile {
    pub data_dir: Option<PathBuf>,
    pub server: Option<ServerSection>,
    pub ticker: Option<TickerSection>,
}

/// The `server` section of a configuration file.
#[derive(Debug)]
pub struct ServerSection {
    pub port: Option<u16>,
    pub bind_address: Option<String>,
}

/// The `ticker` section of a configuration file.
#[derive(Debug)]
pub struct TickerSection {
    pub singer_count: Option<usize>,
    pub poll_interval_ms: Option<u64>,
}

impl ServerSection {
    /// The section with every absent setting at its default.
    pub open spec fn filled(self) -> ServerView {
        ServerView {
            port: match self.port {
                Some(port) => port,
                None => ServerView::defaults().port,
            },
            bind_address: match self.bind_address {
                Some(address) => address@,
                None => ServerView::defaults().bind_address,
            },
        }
    }
}

impl TickerSection {
    /// The section with every absent setting at its default.
    pub open spec fn filled(self) -> TickerConfig {
        TickerConfig {
            singer_count: match self.singer_count {
                Some(count) => count,
                None => ticker_defaults().singer_count,
            },
            poll_interval_ms: match self.poll_interval_ms {
                Some(interval) => interval,
                None => ticker_defaults().poll_interval_ms,
            },
        }
    }
}

impl ConfigFile {
    /// The configuration that the file describes: what it leaves out is at its default.
    pub open spec fn filled(self) -> ConfigView {
        ConfigView {
            data_dir: self.data_dir,
            server: match self.server {
                Some(section) => section.filled(),
                None => ServerView::defaults(),
            },
            ticker: match self.ticker {
                Some(section) => section.filled(),
                None => ticker_defaults(),
            },
        }
    }
}

/// What was found at the path of the configuration file.
#[derive(Debug)]
pub enum StoredConfig {
    /// There is no file.
    Missing,
    /// There is a file that cannot be read.
    Unreadable,
    /// There is a file that is not a configuration.
    Malformed,
    /// There is a configuration.
    Found(ConfigFile),
}

/// Why no configuration could be loaded.
#[derive(Debug, Clone, Copy, PartialEq, Eq, Structural)]
pub enum LoadError {
    Read,
    Parse,
}

/// A loaded configuration.
#[derive(Debug)]
pub struct Loaded {
    pub config: Config,
    /// Whether the configuration is new, and has to be saved before it is used.
    pub created: bool,
}

impl LoadError {
    /// What to say of the failure to load the file at `path`.
    pub fn message(&self, path: &str) -> (r: String)
        ensures
            r@ == match *self {
                LoadError::Read => "Failed to read config: "@ + path@,
                LoadError::Parse => "Failed to parse config: "@ + path@,
            },
    {
        let mut r = match self {
            LoadError::Read => "Failed to read config: ".to_owned(),
            LoadError::Parse => "Failed to parse config: ".to_owned(),
        };
        r.append(path);
        r
    }
}

/// The comment that opens a configuration file.
pub const CONFIG_PREAMBLE: &'static str = "# openkj-ticker configuration\n\
    # Set data_dir to override auto-discovery.\n\
    # Example: data_dir = \"/home/user/.local/share/OpenKJ2\"\n\n";

impl Config {
    /// The configuration that a file describes: what it leaves out is at its default.
    pub fn from_file(file: ConfigFile) -> (r: Config)
        ensures
            r@ == file.filled(),
            r.data_dir == file.data_dir,
            file.server matches Some(section) ==> {
                &&& section.port matches Some(port) ==> r.server.port == port
                &&& section.bind_address matches Some(address) ==> r.server.bind_address@
                    == address@
            },
            file.ticker matches Some(section) ==> {
                &&& section.singer_count matches Some(count) ==> r.ticker.singer_count == count
                &&& section.poll_interval_ms matches Some(interval) ==> r.ticker.poll_interval_ms
                    == interval
            },
    {
        let server = match file.server {
            Some(section) => ServerConfig {
                port: match section.port {
                    Some(port) => port,
                    None => default_port(),
                },
                bind_address: match section.bind_address {
                    Some(address) => address,
                    None => default_bind(),
                },
            },
            None => ServerConfig::default(),
        };
        let ticker = match file.ticker {
            Some(section) => TickerConfig {
                singer_count: match section.singer_count {
                    Some(count) => count,
                    None => default_singer_count(),
                },
                poll_interval_ms: match section.poll_interval_ms {
                    Some(interval) => interval,
                    None => default_poll_interval(),
                },
            },
            None => TickerConfig::default(),
        };
        Config { data_dir: file.data_dir, server, ticker }
    }

    /// Loads the configuration from what is stored, or makes one with every setting at its
    /// default where nothing is stored.
    pub fn load_or_create(stored: StoredConfig) -> (r: Result<Loaded, LoadError>)
        ensures
            match (stored, r) {
                (StoredConfig::Missing, Ok(loaded)) => loaded.created && loaded.config@
                    == ConfigView::defaults(),
                (StoredConfig::Unreadable, Err(error)) => error == LoadError::Read,
                (StoredConfig::Malformed, Err(error)) => error == LoadError::Parse,
                (StoredConfig::Found(file), Ok(loaded)) => !loaded.created && loaded.config@
                    == file.filled(),
                _ => false,
            },
    {
        match stored {
            StoredConfig::Missing => {
                let config = Config {
                    data_dir: None,
                    server: ServerConfig::default(),
                    ticker: TickerConfig::default(),
                };
                Ok(Loaded { config, created: true })
            },
            StoredConfig::Unreadable => Err(LoadError::Read),
            StoredConfig::Malformed => Err(LoadError::Parse),
            StoredConfig::Found(file) => Ok(
                Loaded { config: Config::from_file(file), created: false },
            ),
        }
    }

    /// What to store of the configuration: every setting, spelled out.
    pub fn save(&self) -> (r: ConfigFile)
        ensures
            r.data_dir == self.data_dir,
            r.server matches Some(section) && section.port == Some(self.server.port)
                && section.bind_address.deep_view() == Some(self.server.bind_address@),
            r.ticker == Some(
                (TickerSection {
                    singer_count: Some(self.ticker.singer_count),
                    poll_interval_ms: Some(self.ticker.poll_interval_ms),
                }),
            ),
            r.filled() == self@,
    {
        ConfigFile {
            data_dir: self.data_dir.clone(),
            server: Some(
                ServerSection {
                    port: Some(self.server.port),
                    bind_address: Some(self.server.bind_address.clone()),
                },
            ),
            ticker: Some(
                TickerSection {
                    singer_count: Some(self.ticker.singer_count),
                    poll_interval_ms: Some(self.ticker.poll_interval_ms),
                },
            ),
        }
    }

    /// The text of a configuration file whose settings are written out as `body`.
    pub fn file_text(body: &str) -> (r: String)
        ensures
            r@ == CONFIG_PREAMBLE@ + body@,
    {
        let mut text = CONFIG_PREAMBLE.to_owned();
        text.append(body);
        text
    }
}

/// What the command line says in place of the configuration file.
#[derive(Debug)]
pub struct Overrides {
    pub data_dir: Option<PathBuf>,
    pub port: Option<u16>,
    pub singer_count: Option<usize>,
}

impl ConfigView {
    /// The configuration under `overrides`: what they give stands, what they leave out stays.
    pub open spec fn overridden(self, overrides: Overrides) -> ConfigView {
        ConfigView {
            data_dir: match overrides.data_dir {
                Some(dir) => Some(dir),
                None => self.data_dir,
            },
            server: ServerView {
                port: match overrides.port {
                    Some(port) => port,
                    None => self.server.port,
                },
                bind_address: self.server.bind_address,
            },
            ticker: TickerConfig {
                singer_count: match overrides.singer_count {
                    Some(count) => count,
                    None => self.ticker.singer_count,
                },
                poll_interval_ms: self.ticker.poll_interval_ms,
            },
        }
    }

    /// The configuration after a search for the data directory that gave `found`: a directory
    /// that is set already stays.
    pub open spec fn adopting(self, found: Option<PathBuf>) -> ConfigView {
        ConfigView {
            data_dir: if self.data_dir is Some {
                self.data_dir
            } else {
                found
            },
            ..self
        }
    }
}

impl Config {
    /// Lets the command line override the configuration.
    pub fn override_with(&mut self, overrides: Overrides)
        ensures
            final(self)@ == old(self)@.overridden(overrides),
            final(self).data_dir == (match overrides.data_dir {
                Some(dir) => Some(dir),
                None => old(self).data_dir,
            }),
            final(self).server.port == (match overrides.port {
                Some(port) => port,
                None => old(self).server.port,
            }),
            final(self).server.bind_address == old(self).server.bind_address,
            final(self).ticker.singer_count == (match overrides.singer_count {
                Some(count) => count,
                None => old(self).ticker.singer_count,
            }),
            final(self).ticker.poll_interval_ms == old(self).ticker.poll_interval_ms,
    {
        if let Some(dir) = overrides.data_dir {
            self.data_dir = Some(dir);
        }
        if let Some(port) = overrides.port {
            self.server.port = port;
        }
        if let Some(count) = overrides.singer_count {
            self.ticker.singer_count = count;
        }
    }

    /// Whether the data directory has to be searched for.
    pub fn needs_data_dir(&self) -> (r: bool)
        ensures
            r == (self.data_dir is None),
    {
        self.data_dir.is_none()
    }

    /// Takes the outcome of a search for the data directory. A directory that is set already
    /// stays. Says whether the configuration changed, so that it has to be saved.
    pub fn adopt_data_dir(&mut self, found: Option<PathBuf>) -> (changed: bool)
        ensures
            changed == (old(self).data_dir is None && found is Some),
            final(self)@ == old(self)@.adopting(found),
            final(self).data_dir == (if changed {
                found
            } else {
                old(self).data_dir
            }),
            final(self).server == old(self).server,
            final(self).ticker == old(self).ticker,
    {
        if self.data_dir.is_none() && found.is_some() {
            self.data_dir = found;
            true
        } else {
            false
        }
    }
}

/// In the text of a configuration file, everything before the settings is comment: each line
/// that starts there is empty or starts with `#`, and the settings start on a line of their own.
pub proof fn law_preamble_is_comment(body: Seq<char>, i: int)
    requires
        0 <= i < CONFIG_PREAMBLE@.len(),
    ensures
        ({
            let text = CONFIG_PREAMBLE@ + body;
            &&& i == 0 || text[i - 1] == '\n' ==> text[i] == '#' || text[i] == '\n'
            &&& text[CONFIG_PREAMBLE@.len() - 1] == '\n'
        }),
{
    reveal_strlit(
        "# openkj-ticker configuration\n\
    # Set data_dir to override auto-discovery.\n\
    # Example: data_dir = \"/home/user/.local/share/OpenKJ2\"\n\n",
    );
}

/// What the command line gives holds whatever the configuration file said, and whatever a search
/// for the data directory finds.
pub proof fn law_command_line_wins(
    config: ConfigView,
    overrides: Overrides,
    found: Option<PathBuf>,
)
    ensures
        ({
            let result = config.overridden(overrides).adopting(found);
            &&& overrides.data_dir is Some ==> result.data_dir == overrides.data_dir
            &&& overrides.port matches Some(port) ==> result.server.port == port
            &&& overrides.singer_count matches Some(count) ==> result.ticker.singer_count == count
        }),
{
}

/// What the command line leaves out stays as the configuration file has it, but for a data
/// directory that neither gives, which is the one found.
pub proof fn law_file_stands_where_the_command_line_is_silent(
    config: ConfigView,
    overrides: Overrides,
    found: Option<PathBuf>,
)
    ensures
        ({
            let result = config.overridden(overrides).adopting(found);
            &&& result.server.bind_address == config.server.bind_address
            &&& result.ticker.poll_interval_ms == config.ticker.poll_interval_ms
            &&& overrides.port is None ==> result.server.port == config.server.port
            &&& overrides.singer_count is None ==> result.ticker.singer_count
                == config.ticker.singer_count
            &&& overrides.data_dir is None && config.data_dir is Some ==> result.data_dir
                == config.data_dir
            &&& overrides.data_dir is None && config.data_dir is None ==> result.data_dir == found
        }),
{
}

/// A file that spells nothing out describes the configuration of a first start, and so does one
/// whose sections are empty.
pub proof fn law_empty_file_gives_defaults(file: ConfigFile)
    requires
        file.data_dir is None,
        file.server matches Some(section) ==> section.port is None && section.bind_address is None,
        file.ticker matches Some(section) ==> section.singer_count is None
            && section.poll_interval_ms is None,
    ensures
        file.filled() == ConfigView::defaults(),
{
}

/// What a file spells out stands, setting by setting, whatever else it leaves out.
pub proof fn law_file_settings_stand_one_by_one(file: ConfigFile)
    ensures
        file.filled().data_dir == file.data_dir,
        file.server matches Some(section) ==> (section.port matches Some(port)
            ==> file.filled().server.port == port),
        file.server matches Some(section) ==> (section.bind_address matches Some(address)
            ==> file.filled().server.bind_address == address@),
        file.ticker matches Some(section) ==> (section.singer_count matches Some(count)
            ==> file.filled().ticker.singer_count == count),
        file.ticker matches Some(section) ==> (section.poll_interval_ms matches Some(interval)
            ==> file.filled().ticker.poll_interval_ms == interval),
{
}

/// What a file leaves out is at its default, setting by setting, whatever else it spells out; a
/// section that is left out leaves out all its settings.
pub proof fn law_absent_settings_default_one_by_one(file: ConfigFile)
    ensures
        !(file.server matches Some(section) && section.port is Some) ==> file.filled().server.port
            == 8080,
        !(file.server matches Some(section) && section.bind_address is Some)
            ==> file.filled().server.bind_address == "0.0.0.0"@,
        !(file.ticker matches Some(section) && section.singer_count is Some)
            ==> file.filled().ticker.singer_count == 8,
        !(file.ticker matches Some(section) && section.poll_interval_ms is Some)
            ==> file.filled().ticker.poll_interval_ms == 1500,
{
}

/// Settings do not reach into each other: two files that agree on a setting describe
/// configurations that agree on it, however they differ in the others.
pub proof fn law_settings_do_not_reach_into_each_other(a: ConfigFile, b: ConfigFile)
    ensures
        a.data_dir == b.data_dir ==> a.filled().data_dir == b.filled().data_dir,
        a.server == b.server ==> a.filled().server == b.filled().server,
        a.ticker == b.ticker ==> a.filled().ticker == b.filled().ticker,
        a.server matches Some(x) ==> (b.server matches Some(y) ==> {
            &&& x.port == y.port ==> a.filled().server.port == b.filled().server.port
            &&& x.bind_address == y.bind_address ==> a.filled().server.bind_address
                == b.filled().server.bind_address
        }),
        a.ticker matches Some(x) ==> (b.ticker matches Some(y) ==> {
            &&& x.singer_count == y.singer_count ==> a.filled().ticker.singer_count
                == b.filled().ticker.singer_count
            &&& x.poll_interval_ms == y.poll_interval_ms ==> a.filled().ticker.poll_interval_ms
                == b.filled().ticker.poll_interval_ms
        }),
{
}

/// Each override reaches its own setting only, and a search for the data directory reaches only a
/// directory that is not set.
pub proof fn law_overrides_reach_their_own_setting(
    config: ConfigView,
    overrides: Overrides,
    found: Option<PathBuf>,
)
    ensures
        config.overridden(overrides).data_dir == match overrides.data_dir {
            Some(dir) => Some(dir),
            None => config.data_dir,
        },
        config.overridden(overrides).server.port == match overrides.port {
            Some(port) => port,
            None => config.server.port,
        },
        config.overridden(overrides).server.bind_address == config.server.bind_address,
        config.overridden(overrides).ticker.singer_count == match overrides.singer_count {
            Some(count) => count,
            None => config.ticker.singer_count,
        },
        config.overridden(overrides).ticker.poll_interval_ms == config.ticker.poll_interval_ms,
        config.data_dir is Some ==> config.adopting(found) == config,
        config.data_dir is None ==> config.adopting(found).data_dir == found,
        config.adopting(found).server == config.server,
        config.adopting(found).ticker == config.ticker,
{
}

/// The configuration of a first start.
pub proof fn law_first_start_configuration()
    ensures
        ConfigView::defaults().data_dir is None,
        ConfigView::defaults().server.port == 8080,
        ConfigView::defaults().server.bind_address == "0.0.0.0"@,
        ConfigView::defaults().ticker.singer_count == 8,
        ConfigView::defaults().ticker.poll_interval_ms == 1500,
{
}

/// The view of a configuration holds each of its settings, and nothing in place of it.
pub proof fn law_view_of_a_configuration(config: Config)
    ensures
        config@.data_dir == config.data_dir,
        config@.server.port == config.server.port,
        config@.server.bind_address == config.server.bind_address@,
        config@.ticker.singer_count == config.ticker.singer_count,
        config@.ticker.poll_interval_ms == config.ticker.poll_interval_ms,
{
}

} // verus!
