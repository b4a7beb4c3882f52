use openkj_ticker::db::{find_current, next_up, KaraokeState, Singer};
use openkj_ticker::query::{query_state, QueryError, Reply, Request, StateQuery};

fn singer(name: &str) -> Singer {
    Singer {
        name: name.to_string(),
        next_song_artist: None,
        next_song_title: None,
        is_current: false,
    }
}

fn names(state: &KaraokeState) -> Vec<&str> {
    state.rotation.iter().map(|s| s.name.as_str()).collect()
}

/// Takes a query to the point where it asks for the rotation.
fn at_rotation(settings: &str) -> StateQuery {
    let q = query_state(8)
        .step(Reply::DatabaseFound(true))
        .step(Reply::DatabaseOpened(true))
        .step(Reply::BusyTimeoutSet(true))
        .step(Reply::Settings(vec![Some(settings.to_string()), None, None]));
    assert!(matches!(q.request(), Some(Request::LoadRotation)));
    q
}

fn three() -> Vec<Option<(i64, String)>> {
    vec![
        Some((11, "Ann".to_string())),
        None,
        Some((22, "Bob".to_string())),
        Some((33, "Cy".to_string())),
    ]
}

/// Takes a query of three singers to the end of their queues.
fn after_queues(settings: &str) -> StateQuery {
    let mut q = at_rotation(settings).step(Reply::Rotation(three()));
    for id in [11i64, 22, 33] {
        assert!(matches!(q.request(), Some(Request::FirstSong { singer_id }) if singer_id == id));
        let song = if id == 22 {
            Some((Some("Abba".to_string()), Some("Waterloo".to_string())))
        } else {
            None
        };
        q = q.step(Reply::FirstSong(song));
    }
    q
}

#[test]
fn missing_database_is_reported() {
    let q = query_state(5);
    assert!(matches!(q.request(), Some(Request::FindDatabase { file: "openkj.sqlite" })));
    let state = q.step(Reply::DatabaseFound(false)).finish().unwrap().unwrap();
    assert_eq!(state.status, "database_not_found");
    assert_eq!(state.singer_count, 5);
    assert!(state.current_singer.is_none());
    assert!(state.next_up.is_none());
    assert!(state.rotation.is_empty());
    assert!(!state.is_playing);
}

#[test]
fn failures_end_the_query() {
    let opened = || query_state(1).step(Reply::DatabaseFound(true));
    let q = opened();
    assert!(matches!(q.request(), Some(Request::OpenDatabase { file: "openkj.sqlite" })));
    assert_eq!(q.step(Reply::DatabaseOpened(false)).finish().unwrap().unwrap_err(), QueryError::Open);
    let q = opened().step(Reply::DatabaseOpened(true));
    assert!(matches!(q.request(), Some(Request::SetBusyTimeout { milliseconds: 500 })));
    assert_eq!(
        q.step(Reply::BusyTimeoutSet(false)).finish().unwrap().unwrap_err(),
        QueryError::BusyTimeout
    );
    assert_eq!(
        at_rotation("").step(Reply::RotationNotPrepared).finish().unwrap().unwrap_err(),
        QueryError::PrepareRotation
    );
    assert_eq!(
        at_rotation("").step(Reply::RotationNotRun).finish().unwrap().unwrap_err(),
        QueryError::RunRotation
    );
}

#[test]
fn failures_have_their_context() {
    assert_eq!(QueryError::Open.context().as_deref(), Some("Failed to open OpenKJ database"));
    assert_eq!(
        QueryError::PrepareRotation.context().as_deref(),
        Some("Failed to prepare rotation query")
    );
    assert_eq!(QueryError::BusyTimeout.context(), None);
    assert_eq!(QueryError::RunRotation.context(), None);
}

#[test]
fn reply_to_another_request_changes_nothing() {
    let q = query_state(1).step(Reply::Unplayed(Some(3)));
    assert!(matches!(q.request(), Some(Request::FindDatabase { file: "openkj.sqlite" })));
    assert!(q.finish().is_none());
}

#[test]
fn ended_query_stays() {
    let q = query_state(1).step(Reply::DatabaseFound(false)).step(Reply::DatabaseFound(true));
    assert!(q.request().is_none());
    assert_eq!(q.finish().unwrap().unwrap().status, "database_not_found");
}

#[test]
fn playing_song_of_the_current_singer() {
    let q = after_queues("currentRotationPosition=22");
    assert!(matches!(q.request(), Some(Request::HistorySinger { name }) if name == "Bob"));
    let q = q.step(Reply::HistorySinger(Some(7)));
    assert!(matches!(q.request(), Some(Request::RecentSong { history_id: 7 })));
    let q = q.step(Reply::RecentSong(Some("/songs/w.zip".to_string())));
    assert!(matches!(
        q.request(),
        Some(Request::CountUnplayed { filepath, singer_id: 22 }) if filepath == "/songs/w.zip"
    ));
    let state = q.step(Reply::Unplayed(Some(1))).finish().unwrap().unwrap();
    assert!(state.is_playing);
    assert_eq!(state.status, "ok");
    assert_eq!(state.singer_count, 8);
    assert_eq!(names(&state), vec!["Ann", "Bob", "Cy"]);
    let current = state.current_singer.unwrap();
    assert_eq!(current.name, "Bob");
    assert!(current.is_current);
    assert_eq!(current.next_song_artist.as_deref(), Some("Abba"));
    assert_eq!(current.next_song_title.as_deref(), Some("Waterloo"));
    assert_eq!(state.next_up.unwrap().name, "Cy");
    let marks: Vec<bool> = state.rotation.iter().map(|s| s.is_current).collect();
    assert_eq!(marks, vec![false, true, false]);
}

#[test]
fn nothing_plays_without_a_trace_in_the_history() {
    let start = || after_queues("currentRotationPosition=33");
    let state = start().step(Reply::HistorySinger(None)).finish().unwrap().unwrap();
    assert!(!state.is_playing);
    assert_eq!(state.current_singer.unwrap().name, "Cy");
    assert_eq!(state.next_up.unwrap().name, "Ann");
    let state = start()
        .step(Reply::HistorySinger(Some(1)))
        .step(Reply::RecentSong(None))
        .finish()
        .unwrap()
        .unwrap();
    assert!(!state.is_playing);
    for count in [None, Some(0), Some(-1)] {
        let state = start()
            .step(Reply::HistorySinger(Some(1)))
            .step(Reply::RecentSong(Some("f".to_string())))
            .step(Reply::Unplayed(count))
            .finish()
            .unwrap()
            .unwrap();
        assert!(!state.is_playing);
    }
}

#[test]
fn without_a_current_singer_the_first_is_up() {
    for settings in ["", "currentRotationPosition=99"] {
        let state = after_queues(settings).finish().unwrap().unwrap();
        assert!(state.current_singer.is_none());
        assert!(!state.is_playing);
        assert_eq!(state.next_up.unwrap().name, "Ann");
        assert!(state.rotation.iter().all(|s| !s.is_current));
    }
}

#[test]
fn empty_rotation_is_done_at_once() {
    let state = at_rotation("currentRotationPosition=1")
        .step(Reply::Rotation(vec![None]))
        .finish()
        .unwrap()
        .unwrap();
    assert!(state.rotation.is_empty());
    assert!(state.next_up.is_none());
    assert_eq!(state.status, "ok");
}

#[test]
fn last_row_with_the_current_id_is_current() {
    let rows = vec![(1, "A".to_string()), (2, "B".to_string()), (1, "C".to_string())];
    assert_eq!(find_current(&rows, Some(1)), Some(2));
    assert_eq!(find_current(&rows, Some(2)), Some(1));
    assert_eq!(find_current(&rows, Some(3)), None);
    assert_eq!(find_current(&rows, None), None);
}

#[test]
fn turn_passes_round() {
    let rotation = vec![singer("A"), singer("B"), singer("C")];
    assert_eq!(next_up(&rotation, Some(0)).unwrap().name, "B");
    assert_eq!(next_up(&rotation, Some(2)).unwrap().name, "A");
    assert_eq!(next_up(&rotation, None).unwrap().name, "A");
}

#[test]
fn someone_is_up_next_unless_alone() {
    assert!(next_up(&vec![singer("A")], Some(0)).is_none());
    assert_eq!(next_up(&vec![singer("A")], None).unwrap().name, "A");
    assert!(next_up(&Vec::new(), None).is_none());
}

fn setup() -> rusqlite::Connection {
    let conn = rusqlite::Connection::open_in_memory().unwrap();
    conn.execute_batch(
        "CREATE TABLE rotationSingers (singerid INTEGER PRIMARY KEY, name TEXT, position INTEGER);
         CREATE TABLE dbSongs (songid INTEGER PRIMARY KEY, artist TEXT, title TEXT, path TEXT);
         CREATE TABLE queueSongs (qsongid INTEGER PRIMARY KEY, singer INT, song INT, played INT, position INT);
         CREATE TABLE historySingers (id INTEGER PRIMARY KEY, name TEXT);
         CREATE TABLE historySongs (id INTEGER PRIMARY KEY, historySinger INT, filepath TEXT, lastplay INT);
         INSERT INTO rotationSingers VALUES (5, 'Eve', 1), (4, 'Dan', 0), (6, NULL, 2);
         INSERT INTO dbSongs VALUES (1, 'Abba', 'Waterloo', '/w'), (2, NULL, 'Hey Jude', '/h'), (3, 'X', 'Y', '/x');
         INSERT INTO queueSongs VALUES (1, 5, 1, 1, 0), (2, 5, 2, 0, 2), (3, 5, 3, 0, 1);
         INSERT INTO historySingers VALUES (70, 'Eve');
         INSERT INTO historySongs VALUES (1, 70, '/w', 100), (2, 70, '/h', 200);",
    )
    .unwrap();
    conn
}

/// Drives a query with a real database and these settings.
fn drive(conn: &rusqlite::Connection, settings: &str) -> KaraokeState {
    let mut q = query_state(3);
    while let Some(request) = q.request() {
        let sql = request.sql().unwrap_or("");
        let reply = match request {
            Request::FindDatabase { .. } => Reply::DatabaseFound(true),
            Request::OpenDatabase { .. } => Reply::DatabaseOpened(true),
            Request::SetBusyTimeout { .. } => Reply::BusyTimeoutSet(true),
            Request::ReadSettings { files } => Reply::Settings(
                files
                    .iter()
                    .map(|file| (file == "openkj2.ini").then_some(settings.to_string()))
                    .collect(),
            ),
            Request::LoadRotation => {
                let mut stmt = conn.prepare(sql).unwrap();
                let rows = stmt
                    .query_map([], |row| Ok((row.get(0)?, row.get(1)?)))
                    .unwrap()
                    .map(|row| row.ok())
                    .collect();
                Reply::Rotation(rows)
            }
            Request::FirstSong { singer_id } => Reply::FirstSong(
                conn.query_row(sql, [singer_id], |row| Ok((row.get(0)?, row.get(1)?))).ok(),
            ),
            Request::HistorySinger { name } => {
                Reply::HistorySinger(conn.query_row(sql, [name], |row| row.get(0)).ok())
            }
            Request::RecentSong { history_id } => {
                Reply::RecentSong(conn.query_row(sql, [history_id], |row| row.get(0)).ok())
            }
            Request::CountUnplayed { filepath, singer_id } => {
                Reply::Unplayed(conn.query_row(sql, (filepath, singer_id), |row| row.get(0)).ok())
            }
        };
        q = q.step(reply);
    }
    q.finish().unwrap().unwrap()
}

#[test]
fn statements_run_on_a_database() {
    let conn = setup();
    let state = drive(&conn, "[General]\ncurrentRotationPosition=5\n");
    assert_eq!(names(&state), vec!["Dan", "Eve"]);
    assert!(state.is_playing);
    assert_eq!(state.singer_count, 3);
    let eve = state.current_singer.unwrap();
    assert_eq!(eve.next_song_artist.as_deref(), Some("X"));
    assert_eq!(eve.next_song_title.as_deref(), Some("Y"));
    assert_eq!(state.next_up.unwrap().name, "Dan");
    conn.execute_batch("UPDATE queueSongs SET played = 1 WHERE song = 2").unwrap();
    assert!(!drive(&conn, "currentRotationPosition=5").is_playing);
    let state = drive(&conn, "currentRotationPosition=4");
    assert!(!state.is_playing);
    assert_eq!(state.next_up.unwrap().name, "Eve");
    assert_eq!(state.current_singer.unwrap().next_song_title, None);
}
