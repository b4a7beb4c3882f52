use openkj_ticker::config::{
    default_bind, default_poll_interval, default_port, default_singer_count, Config, ConfigFile,
    LoadError, Overrides, ServerConfig, ServerSection, StoredConfig, TickerConfig, TickerSection,
    CONFIG_PREAMBLE,
};
use openkj_ticker::discovery::{
    build_candidates, candidates_below, discover_data_dir, search_among, Candidates, Platform,
};
use std::path::PathBuf;

fn empty_file() -> ConfigFile {
    ConfigFile { data_dir: None, server: None, ticker: None }
}

fn is_default(config: &Config) -> bool {
    config.data_dir.is_none()
        && config.server.port == 8080
        && config.server.bind_address == "0.0.0.0"
        && config.ticker.singer_count == 8
        && config.ticker.poll_interval_ms == 1500
}

#[test]
fn defaults() {
    assert_eq!(default_port(), 8080);
    assert_eq!(default_bind(), "0.0.0.0");
    assert_eq!(default_singer_count(), 8);
    assert_eq!(default_poll_interval(), 1500);
    assert_eq!(ServerConfig::default().port, 8080);
    assert_eq!(ServerConfig::default().bind_address, "0.0.0.0");
    assert_eq!(TickerConfig::default().singer_count, 8);
    assert_eq!(TickerConfig::default().poll_interval_ms, 1500);
}

#[test]
fn missing_file_creates_defaults() {
    let loaded = Config::load_or_create(StoredConfig::Missing).unwrap();
    assert!(loaded.created);
    assert!(is_default(&loaded.config));
}

#[test]
fn bad_files_are_refused() {
    assert_eq!(Config::load_or_create(StoredConfig::Unreadable).unwrap_err(), LoadError::Read);
    assert_eq!(Config::load_or_create(StoredConfig::Malformed).unwrap_err(), LoadError::Parse);
    assert_eq!(LoadError::Read.message("x.toml"), "Failed to read config: x.toml");
    assert_eq!(LoadError::Parse.message("x.toml"), "Failed to parse config: x.toml");
}

#[test]
fn what_a_file_leaves_out_is_default() {
    let loaded = Config::load_or_create(StoredConfig::Found(empty_file())).unwrap();
    assert!(!loaded.created);
    assert!(is_default(&loaded.config));
    let config = Config::from_file(ConfigFile {
        data_dir: Some(PathBuf::from("/d")),
        server: Some(ServerSection { port: Some(9), bind_address: None }),
        ticker: Some(TickerSection { singer_count: None, poll_interval_ms: Some(10) }),
    });
    assert_eq!(config.data_dir, Some(PathBuf::from("/d")));
    assert_eq!(config.server.port, 9);
    assert_eq!(config.server.bind_address, "0.0.0.0");
    assert_eq!(config.ticker.singer_count, 8);
    assert_eq!(config.ticker.poll_interval_ms, 10);
}

#[test]
fn saved_config_loads_back() {
    let config = Config {
        data_dir: Some(PathBuf::from("/a/b")),
        server: ServerConfig { port: 1, bind_address: "::1".to_string() },
        ticker: TickerConfig { singer_count: 2, poll_interval_ms: 3 },
    };
    assert_eq!(config.clone().data_dir, config.data_dir);
    assert_eq!(config.clone().server.bind_address, "::1");
    assert_eq!(config.clone().ticker.singer_count, 2);
    let back = Config::from_file(config.save());
    assert_eq!(back.data_dir, config.data_dir);
    assert_eq!(back.server.port, 1);
    assert_eq!(back.server.bind_address, "::1");
    assert_eq!(back.ticker.singer_count, 2);
    assert_eq!(back.ticker.poll_interval_ms, 3);
}

#[test]
fn file_opens_with_a_comment() {
    let text = Config::file_text("[server]\nport = 1\n");
    assert_eq!(
        text,
        "# openkj-ticker configuration\n# Set data_dir to override auto-discovery.\n\
         # Example: data_dir = \"/home/user/.local/share/OpenKJ2\"\n\n[server]\nport = 1\n"
    );
    assert!(CONFIG_PREAMBLE.lines().all(|line| line.is_empty() || line.starts_with('#')));
    let table: toml::Table = text.parse().unwrap();
    assert_eq!(table["server"]["port"].as_integer(), Some(1));
}

#[test]
fn command_line_wins() {
    let mut config = Config::from_file(empty_file());
    config.override_with(Overrides {
        data_dir: Some(PathBuf::from("/cli")),
        port: Some(99),
        singer_count: None,
    });
    assert_eq!(config.data_dir, Some(PathBuf::from("/cli")));
    assert_eq!(config.server.port, 99);
    assert_eq!(config.server.bind_address, "0.0.0.0");
    assert_eq!(config.ticker.singer_count, 8);
    assert!(!config.needs_data_dir());
    assert!(!config.adopt_data_dir(Some(PathBuf::from("/found"))));
    assert_eq!(config.data_dir, Some(PathBuf::from("/cli")));
    config.override_with(Overrides { data_dir: None, port: None, singer_count: Some(4) });
    assert_eq!(config.server.port, 99);
    assert_eq!(config.ticker.singer_count, 4);
}

#[test]
fn found_directory_is_adopted() {
    let mut config = Config::from_file(empty_file());
    assert!(config.needs_data_dir());
    assert!(!config.adopt_data_dir(None));
    assert!(config.needs_data_dir());
    assert!(config.adopt_data_dir(Some(PathBuf::from("/found"))));
    assert_eq!(config.data_dir, Some(PathBuf::from("/found")));
}

#[test]
fn candidates_in_order() {
    let c = candidates_below(Some(PathBuf::from("/share"))).unwrap();
    assert_eq!(c.base, PathBuf::from("/share"));
    assert_eq!(
        c.below,
        vec![vec!["OpenKJ2"], vec!["OpenKJ2", "OpenKJ2"], vec!["OpenKJ2-unstable"], vec!["OpenKJ"]]
    );
    assert!(candidates_below(None).is_none());
}

#[test]
fn candidates_lie_below_the_user_data_directory() {
    for platform in [Platform::Linux, Platform::MacOs, Platform::Windows] {
        let c = build_candidates(platform);
        assert_eq!(c.map(|c| c.base), dirs::data_dir());
    }
    assert!(build_candidates(Platform::Other).is_none());
}

/// Searches two candidates and one nested candidate with these paths there, and gives the paths
/// that were asked for too.
fn discover(there: &[&str]) -> (Option<String>, Vec<String>) {
    let candidates = Candidates {
        base: PathBuf::from("/share"),
        below: vec![
            vec!["a".to_string()],
            vec!["a".to_string(), "b".to_string()],
            vec!["c".to_string()],
        ],
    };
    let mut asked = Vec::new();
    let mut search = search_among(candidates);
    while let Some(location) = search.request() {
        assert_eq!(location.base, PathBuf::from("/share"));
        let path = location.below.join("/");
        search = search.step(there.contains(&path.as_str()));
        asked.push(path);
    }
    let found = search.finish().unwrap().map(|location| {
        assert_eq!(location.base, PathBuf::from("/share"));
        location.below.join("/")
    });
    (found, asked)
}

#[test]
fn directory_in_use_is_preferred() {
    let (found, _) = discover(&["a", "a/b", "a/b/openkj2.ini", "c", "c/openkj.sqlite"]);
    assert_eq!(found.as_deref(), Some("a/b"));
    let (found, _) = discover(&["a", "c", "c/openkj.sqlite"]);
    assert_eq!(found.as_deref(), Some("c"));
    let (found, asked) = discover(&["a/openkj.sqlite"]);
    assert_eq!(found.as_deref(), Some("a"));
    assert_eq!(asked, vec!["a/openkj.sqlite"]);
}

#[test]
fn existing_directory_is_the_fallback() {
    let (found, asked) = discover(&["a/b", "c"]);
    assert_eq!(found.as_deref(), Some("a/b"));
    assert_eq!(
        asked,
        vec![
            "a/openkj.sqlite",
            "a/openkj2.ini",
            "a/b/openkj.sqlite",
            "a/b/openkj2.ini",
            "c/openkj.sqlite",
            "c/openkj2.ini",
            "a",
            "a/b",
        ]
    );
}

#[test]
fn search_may_find_nothing() {
    let (found, asked) = discover(&[]);
    assert_eq!(found, None);
    assert_eq!(asked.len(), 9);
    let none = Candidates { base: PathBuf::from("/share"), below: vec![] };
    let search = search_among(none);
    assert!(search.request().is_none());
    assert!(search.finish().unwrap().is_none());
}

#[test]
fn unfinished_search_has_no_outcome() {
    let search = search_among(candidates_below(Some(PathBuf::from("/s"))).unwrap());
    assert!(search.finish().is_none());
}

#[test]
fn search_starts_below_the_user_data_directory() {
    for platform in [Platform::Linux, Platform::MacOs, Platform::Windows] {
        let first = discover_data_dir(platform).map(|search| search.request().unwrap());
        assert_eq!(first.as_ref().map(|location| location.base.clone()), dirs::data_dir());
        if let Some(location) = first {
            assert_eq!(location.below, vec!["OpenKJ2", "openkj.sqlite"]);
        }
    }
    assert!(discover_data_dir(Platform::Other).is_none());
}
