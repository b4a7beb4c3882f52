use openkj_ticker::config::{Config, ConfigFile, ServerConfig};
use openkj_ticker::db::KaraokeState;
use openkj_ticker::query::{query_state, QueryError, Reply};
use openkj_ticker::server::{listen_address, poll_plan, startup_info, ApiBody, Board};
use std::path::PathBuf;

fn state(singer_count: usize) -> KaraokeState {
    query_state(singer_count).step(Reply::DatabaseFound(false)).finish().unwrap().unwrap()
}

#[test]
fn api_is_not_ready_before_the_first_state() {
    let mut board = Board::new();
    board.record(Err(QueryError::Open));
    let reply = board.api_state();
    assert_eq!(reply.code, 503);
    match reply.body {
        ApiBody::NotReady { status, message } => {
            assert_eq!(status, "not_ready");
            assert_eq!(message, "OpenKJ data not yet loaded or data directory not found");
        }
        ApiBody::State(_) => panic!("no state was recorded"),
    }
}

#[test]
fn board_shows_the_last_success() {
    let mut board = Board::new();
    board.record(Ok(state(1)));
    board.record(Ok(state(2)));
    board.record(Err(QueryError::BusyTimeout));
    let reply = board.api_state();
    assert_eq!(reply.code, 200);
    match reply.body {
        ApiBody::State(shown) => assert_eq!(shown.singer_count, 2),
        ApiBody::NotReady { .. } => panic!("a state was recorded"),
    }
}

#[test]
fn listen_address_joins_address_and_port() {
    let server = ServerConfig { port: 8080, bind_address: "127.0.0.1".to_string() };
    assert_eq!(listen_address(&server), "127.0.0.1:8080");
}

#[test]
fn polling_needs_a_data_directory() {
    let mut config = Config::from_file(ConfigFile { data_dir: None, server: None, ticker: None });
    assert!(poll_plan(&config).is_none());
    config.adopt_data_dir(Some(PathBuf::from("/data")));
    let plan = poll_plan(&config).unwrap();
    assert_eq!(plan.data_dir, PathBuf::from("/data"));
    assert_eq!(plan.interval_ms, 1500);
    assert_eq!(plan.singer_count, 8);
}

#[test]
fn startup_notice_names_the_addresses() {
    let lines = startup_info(65535, Some("10.0.0.7".to_string()));
    assert_eq!(
        lines,
        vec![
            "",
            "openkj-ticker is running",
            "────────────────────────────────────────────────",
            "  Dashboard :  http://localhost:65535/",
            "  OBS Ticker:  http://localhost:65535/ticker",
            "  JSON API  :  http://localhost:65535/api/state",
            "",
            "  From other machines on your network:",
            "  Dashboard :  http://10.0.0.7:65535/",
            "  OBS Ticker:  http://10.0.0.7:65535/ticker",
            "────────────────────────────────────────────────",
            "Press Ctrl+C to stop.",
            "",
        ]
    );
    let lines = startup_info(80, None);
    assert_eq!(lines[8], "  Dashboard :  http://<your-machine-ip>:80/");
}
