//! What the web server shows: the latest state, the answers of the JSON API, and the addresses.

use std::path::PathBuf;
use vstd::prelude::*;
use vstd::string::*;

use crate::config::{Config, ServerConfig};
use crate::db::{KaraokeState, StateView};
use crate::number::decimal_text;
use crate::query::QueryError;

verus! {

/// Where the dashboard is served.
pub const LIST_ROUTE: &'static str = "/";

/// Where the ticker page is served.
pub const TICKER_ROUTE: &'static str = "/ticker";

/// Where the state is served as JSON.
pub const STATE_ROUTE: &'static str = "/api/state";

/// The latest state that a poll of the database gave.
#[derive(Debug)]
pub struct Board {
    latest: Option<KaraokeState>,
}

impl View for Board {
    type V = Option<StateView>;

    closed spec fn view(&self) -> Option<StateView> {
        self.latest.deep_view()
    }
}

/// What a board shows after a poll: the new state, or what it showed before where the poll
/// failed.
pub open spec fn shown_after(
    shown: Option<StateView>,
    poll: Result<StateView, QueryError>,
) -> Option<StateView> {
    match poll {
        Ok(state) => Some(state),
        Err(_) => shown,
    }
}

/// What a new board shows after `polls`.
pub open spec fn shown_after_all(polls: Seq<Result<StateView, QueryError>>) -> Option<StateView>
    decreases polls.len(),
{
    if polls.len() == 0 {
        None
    } else {
        shown_after(shown_after_all(polls.drop_last()), polls.last())
    }
}

/// The answer of the JSON API.
#[derive(Debug)]
pub struct ApiReply {
    /// The HTTP status code.
    pub code: u16,
    pub body: ApiBody,
}

/// The body of an API answer.
#[derive(Debug)]
pub enum ApiBody {
    State(KaraokeState),
    NotReady { status: String, message: String },
}

impl Board {
    /// A board before the first poll.
    pub fn new() -> (r: Board)
        ensures
            r@ is None,
    {
        Board { latest: None }
    }

    /// Takes the outcome of a poll. A poll that failed leaves the board as it is.
    pub fn record(&mut self, poll: Result<KaraokeState, QueryError>)
        ensures
            final(self)@ == shown_after(
                old(self)@,
                match poll {
                    Ok(state) => Ok(state.deep_view()),
                    Err(error) => Err(error),
                },
            ),
            poll matches Ok(state) ==> final(self)@ == Some(state.deep_view()),
            poll is Err ==> final(self)@ == old(self)@,
    {
        if let Ok(state) = poll {
            self.latest = Some(state);
        }
    }

    /// Answers a request for the state: the latest state, or that there is none yet.
    pub fn api_state(&self) -> (r: ApiReply)
        ensures
            match (self@, r.body) {
                (Some(view), ApiBody::State(state)) => r.code == 200 && state.deep_view() == view,
                (None, ApiBody::NotReady { status, message }) => r.code == 503 && status@
                    == "not_ready"@ && message@
                    == "OpenKJ data not yet loaded or data directory not found"@,
                _ => false,
            },
    {
        match &self.latest {
            Some(state) => ApiReply { code: 200, body: ApiBody::State(state.clone()) },
            None => ApiReply {
                code: 503,
                body: ApiBody::NotReady {
                    status: "not_ready".to_owned(),
                    message: "OpenKJ data not yet loaded or data directory not found".to_owned(),
                },
            },
        }
    }
}

/// A board shows the state of the last poll that succeeded, and none only where no poll has:
/// once the API has answered with a state, it never again says that there is none.
pub proof fn law_board_shows_last_success(polls: Seq<Result<StateView, QueryError>>)
    ensures
        match shown_after_all(polls) {
            Some(state) => exists|k: int|
                0 <= k < polls.len() && #[trigger] polls[k] == Ok::<_, QueryError>(state) && (
                forall|j: int| k < j < polls.len() ==> polls[j] is Err),
            None => forall|j: int| 0 <= j < polls.len() ==> polls[j] is Err,
        },
    decreases polls.len(),
{
    if polls.len() > 0 {
        let front = polls.drop_last();
        let n = front.len() as int;
        law_board_shows_last_success(front);
        assert(polls[n] == polls.last());
        match polls.last() {
            Ok(state) => {},
            Err(_) => {
                assert forall|j: int| 0 <= j < n implies polls[j] == front[j] by {}
                if let Some(state) = shown_after_all(front) {
                    let k = choose|k: int|
                        0 <= k < front.len() && #[trigger] front[k] == Ok::<_, QueryError>(state)
                            && (forall|j: int| k < j < front.len() ==> front[j] is Err);
                    assert(polls[k] == Ok::<_, QueryError>(state));
                    assert forall|j: int| k < j < polls.len() implies polls[j] is Err by {
                        if j < n {
                            assert(front[j] is Err);
                        }
                    }
                } else {
                    assert forall|j: int| 0 <= j < polls.len() implies polls[j] is Err by {
                        if j < n {
                            assert(front[j] is Err);
                        }
                    }
                }
            },
        }
    }
}

/// The address to listen on, as text: the bind address and the port.
pub fn listen_address(server: &ServerConfig) -> (r: String)
    ensures
        r@ == server.bind_address@ + ":"@ + crate::number::decimal(server.port as nat),
{
    let mut text = server.bind_address.clone();
    text.append(":");
    text.append(decimal_text(server.port as u64).as_str());
    text
}

/// How the database is polled.
#[derive(Debug)]
pub struct PollPlan {
    pub data_dir: PathBuf,
    pub interval_ms: u64,
    pub singer_count: usize,
}

/// How to poll the database under `config`; not at all where no data directory is known.
pub fn poll_plan(config: &Config) -> (r: Option<PollPlan>)
    ensures
        r == match config.data_dir {
            Some(data_dir) => Some(
                (PollPlan {
                    data_dir,
                    interval_ms: config.ticker.poll_interval_ms,
                    singer_count: config.ticker.singer_count,
                }),
            ),
            None => None,
        },
{
    match &config.data_dir {
        Some(data_dir) => Some(
            PollPlan {
                data_dir: data_dir.clone(),
                interval_ms: config.ticker.poll_interval_ms,
                singer_count: config.ticker.singer_count,
            },
        ),
        None => None,
    }
}

/// One line of the startup notice: a label, then the address of `route` on `host`.
pub open spec fn link_line(
    label: Seq<char>,
    host: Seq<char>,
    port: u16,
    route: Seq<char>,
) -> Seq<char> {
    label + "http://"@ + host + ":"@ + crate::number::decimal(port as nat) + route
}

fn write_link_line(label: &str, host: &str, port: u16, route: &str) -> (r: String)
    ensures
        r@ == link_line(label@, host@, port, route@),
{
    let mut line = label.to_owned();
    line.append("http://");
    line.append(host);
    line.append(":");
    line.append(decimal_text(port as u64).as_str());
    line.append(route);
    line
}

/// The lines of the startup notice. `host` is how other machines reach this one.
pub open spec fn startup_notice(port: u16, host: Seq<char>) -> Seq<Seq<char>> {
    seq![
        ""@,
        "openkj-ticker is running"@,
        "────────────────────────────────────────────────"@,
        link_line("  Dashboard :  "@, "localhost"@, port, LIST_ROUTE@),
        link_line("  OBS Ticker:  "@, "localhost"@, port, TICKER_ROUTE@),
        link_line("  JSON API  :  "@, "localhost"@, port, STATE_ROUTE@),
        ""@,
        "  From other machines on your network:"@,
        link_line("  Dashboard :  "@, host, port, LIST_ROUTE@),
        link_line("  OBS Ticker:  "@, host, port, TICKER_ROUTE@),
        "────────────────────────────────────────────────"@,
        "Press Ctrl+C to stop."@,
        ""@,
    ]
}

/// The lines to print at startup. A placeholder stands for a local address that is not
/// known.
pub fn startup_info(port: u16, local_ip: Option<String>) -> (r: Vec<String>)
    ensures
        r.deep_view() == startup_notice(
            port,
            match local_ip {
                Some(ip) => ip@,
                None => "<your-machine-ip>"@,
            },
        ),
{
    let host = match local_ip {
        Some(ip) => ip,
        None => "<your-machine-ip>".to_owned(),
    };
    let lines = vec![
        "".to_owned(),
        "openkj-ticker is running".to_owned(),
        "────────────────────────────────────────────────".to_owned(),
        write_link_line("  Dashboard :  ", "localhost", port, LIST_ROUTE),
        write_link_line("  OBS Ticker:  ", "localhost", port, TICKER_ROUTE),
        write_link_line("  JSON API  :  ", "localhost", port, STATE_ROUTE),
        "".to_owned(),
        "  From other machines on your network:".to_owned(),
        write_link_line("  Dashboard :  ", host.as_str(), port, LIST_ROUTE),
        write_link_line("  OBS Ticker:  ", host.as_str(), port, TICKER_ROUTE),
        "────────────────────────────────────────────────".to_owned(),
        "Press Ctrl+C to stop.".to_owned(),
        "".to_owned(),
    ];
    assert(lines.deep_view() =~= startup_notice(port, host@));
    lines
}

/// The startup notice, line by line: the addresses of the dashboard, the ticker and the state on
/// this machine, then those of the dashboard and the ticker for other machines.
pub proof fn law_startup_notice_names_every_address(port: u16, host: Seq<char>)
    ensures
        ({
            let notice = startup_notice(port, host);
            let number = crate::number::decimal(port as nat);
            &&& notice.len() == 13
            &&& notice[0] == ""@
            &&& notice[1] == "openkj-ticker is running"@
            &&& notice[2] == "────────────────────────────────────────────────"@
            &&& notice[3] == "  Dashboard :  "@ + "http://"@ + "localhost"@ + ":"@ + number + "/"@
            &&& notice[4] == "  OBS Ticker:  "@ + "http://"@ + "localhost"@ + ":"@ + number
                + "/ticker"@
            &&& notice[5] == "  JSON API  :  "@ + "http://"@ + "localhost"@ + ":"@ + number
                + "/api/state"@
            &&& notice[6] == ""@
            &&& notice[7] == "  From other machines on your network:"@
            &&& notice[8] == "  Dashboard :  "@ + "http://"@ + host + ":"@ + number + "/"@
            &&& notice[9] == "  OBS Ticker:  "@ + "http://"@ + host + ":"@ + number + "/ticker"@
            &&& notice[10] == notice[2]
            &&& notice[11] == "Press Ctrl+C to stop."@
            &&& notice[12] == ""@
        }),
{
}

/// A poll that succeeds is shown, whatever was shown before; one that fails changes nothing.
pub proof fn law_poll_is_shown_or_changes_nothing(
    shown: Option<StateView>,
    state: StateView,
    error: QueryError,
)
    ensures
        shown_after(shown, Ok(state)) == Some(state),
        shown_after(shown, Err(error)) == shown,
{
}

} // verus!
