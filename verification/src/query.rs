//! The query that reads the karaoke state, as a machine of requests and replies.
//!
//! A `StateQuery` says what it needs to know next (`request`) and takes the answer (`step`),
//! until it is done or has failed. Whoever drives it looks the answers up in the data directory
//! and its database.

use vstd::prelude::*;

use crate::db::{
    build_missing_state, build_rotation, build_state, find_current, read_current_singer_id,
    settings_files, KaraokeState, Singer, SingerView, Song, SongView, StateView,
};

verus! {

/// The database file in the data directory.
pub const DATABASE_FILE: &'static str = "openkj.sqlite";

/// How long to wait for the database's write lock, in milliseconds.
pub const BUSY_TIMEOUT_MS: u64 = 500;

/// All singers in rotation order: id and name.
pub const ROTATION_SQL: &'static str = "SELECT singerid, name FROM rotationSingers ORDER BY position";

/// The first unplayed song in a singer's queue: artist and title.
pub const FIRST_SONG_SQL: &'static str = "SELECT d.artist, d.title \
     FROM dbsongs d \
     JOIN queuesongs q ON d.songid = q.song \
     WHERE q.singer = ?1 AND q.played = 0 \
     ORDER BY q.position \
     LIMIT 1";

/// The id under which a singer's name stands in the history.
pub const HISTORY_SINGER_SQL: &'static str = "SELECT id FROM historySingers WHERE name = ?1 LIMIT 1";

/// The file of the song that a singer started most recently.
pub const RECENT_SONG_SQL: &'static str = "SELECT filepath FROM historySongs \
     WHERE historySinger = ?1 ORDER BY lastplay DESC LIMIT 1";

/// How often a file stands unplayed in a singer's queue.
pub const UNPLAYED_SQL: &'static str = "SELECT COUNT(*) FROM dbSongs d \
     JOIN queueSongs q ON q.song = d.songid \
     WHERE d.path = ?1 AND q.singer = ?2 AND q.played = 0";

/// Why a query came to nothing.
#[derive(Debug, Clone, Copy, PartialEq, Eq, Structural)]
pub enum QueryError {
    /// The database could not be opened.
    Open,
    /// The database did not take the lock timeout.
    BusyTimeout,
    /// The rotation statement could not be prepared.
    PrepareRotation,
    /// The rotation statement could not be run.
    RunRotation,
}

impl QueryError {
    /// What to say of the failure, before the database's own words. The database's words stand
    /// alone where the timeout was refused or the rotation statement would not run.
    pub fn context(&self) -> (r: Option<String>)
        ensures
            r.deep_view() == match *self {
                QueryError::Open => Some("Failed to open OpenKJ database"@),
                QueryError::PrepareRotation => Some("Failed to prepare rotation query"@),
                QueryError::BusyTimeout => None,
                QueryError::RunRotation => None,
            },
    {
        match self {
            QueryError::Open => Some("Failed to open OpenKJ database".to_owned()),
            QueryError::PrepareRotation => Some("Failed to prepare rotation query".to_owned()),
            QueryError::BusyTimeout => None,
            QueryError::RunRotation => None,
        }
    }
}

/// What a query needs to know next.
#[derive(Debug)]
pub enum Request {
    /// Is there this file in the data directory?
    FindDatabase { file: &'static str },
    /// Open this file of the data directory as a database, for reading only.
    OpenDatabase { file: &'static str },
    /// Have the database wait this long for a lock.
    SetBusyTimeout { milliseconds: u64 },
    /// Read these files of the data directory.
    ReadSettings { files: Vec<String> },
    /// Run `ROTATION_SQL`.
    LoadRotation,
    /// Run `FIRST_SONG_SQL` for this singer.
    FirstSong { singer_id: i64 },
    /// Run `HISTORY_SINGER_SQL` for this name.
    HistorySinger { name: String },
    /// Run `RECENT_SONG_SQL` for this history id.
    RecentSong { history_id: i64 },
    /// Run `UNPLAYED_SQL` for this file and singer.
    CountUnplayed { filepath: String, singer_id: i64 },
}

/// What a `Request` stands for.
#[verifier::ext_equal]
pub enum RequestView {
    FindDatabase { file: Seq<char> },
    OpenDatabase { file: Seq<char> },
    SetBusyTimeout { milliseconds: u64 },
    ReadSettings { files: Seq<Seq<char>> },
    LoadRotation,
    FirstSong { singer_id: i64 },
    HistorySinger { name: Seq<char> },
    RecentSong { history_id: i64 },
    CountUnplayed { filepath: Seq<char>, singer_id: i64 },
}

impl DeepView for Request {
    type V = RequestView;

    open spec fn deep_view(&self) -> RequestView {
        match *self {
            Request::FindDatabase { file } => RequestView::FindDatabase { file: file@ },
            Request::OpenDatabase { file } => RequestView::OpenDatabase { file: file@ },
            Request::SetBusyTimeout { milliseconds } => RequestView::SetBusyTimeout {
                milliseconds,
            },
            Request::ReadSettings { files } => RequestView::ReadSettings {
                files: files.deep_view(),
            },
            Request::LoadRotation => RequestView::LoadRotation,
            Request::FirstSong { singer_id } => RequestView::FirstSong { singer_id },
            Request::HistorySinger { name } => RequestView::HistorySinger { name: name@ },
            Request::RecentSong { history_id } => RequestView::RecentSong { history_id },
            Request::CountUnplayed { filepath, singer_id } => RequestView::CountUnplayed {
                filepath: filepath@,
                singer_id,
            },
        }
    }
}

impl Request {
    /// The SQL statement that answers the request, where it is one for the database.
    pub fn sql(&self) -> (r: Option<&'static str>)
        ensures
            r == match *self {
                Request::LoadRotation => Some(ROTATION_SQL),
                Request::FirstSong { .. } => Some(FIRST_SONG_SQL),
                Request::HistorySinger { .. } => Some(HISTORY_SINGER_SQL),
                Request::RecentSong { .. } => Some(RECENT_SONG_SQL),
                Request::CountUnplayed { .. } => Some(UNPLAYED_SQL),
                _ => None,
            },
    {
        match self {
            Request::LoadRotation => Some(ROTATION_SQL),
            Request::FirstSong { .. } => Some(FIRST_SONG_SQL),
            Request::HistorySinger { .. } => Some(HISTORY_SINGER_SQL),
            Request::RecentSong { .. } => Some(RECENT_SONG_SQL),
            Request::CountUnplayed { .. } => Some(UNPLAYED_SQL),
            _ => None,
        }
    }
}

/// The answer to a request.
#[derive(Debug)]
pub enum Reply {
    /// Whether the database file is there.
    DatabaseFound(bool),
    /// Whether the database could be opened.
    DatabaseOpened(bool),
    /// Whether the lock timeout was taken.
    BusyTimeoutSet(bool),
    /// For each settings file asked for, in order, its text, or nothing where it cannot be read.
    Settings(Vec<Option<String>>),
    /// The rotation rows in order: id and name, or nothing where a row cannot be read.
    Rotation(Vec<Option<(i64, String)>>),
    /// The rotation statement could not be prepared.
    RotationNotPrepared,
    /// The rotation statement could not be run.
    RotationNotRun,
    /// The song found, or nothing where none was found or it cannot be read.
    FirstSong(Option<Song>),
    /// The history id found, or nothing where none was found or it cannot be read.
    HistorySinger(Option<i64>),
    /// The file found, or nothing where none was found or it cannot be read.
    RecentSong(Option<String>),
    /// The count, or nothing where it could not be taken.
    Unplayed(Option<i64>),
}

/// What a `Reply` stands for.
pub enum ReplyView {
    DatabaseFound(bool),
    DatabaseOpened(bool),
    BusyTimeoutSet(bool),
    Settings(Seq<Option<Seq<char>>>),
    Rotation(Seq<Option<(i64, Seq<char>)>>),
    RotationNotPrepared,
    RotationNotRun,
    FirstSong(Option<SongView>),
    HistorySinger(Option<i64>),
    RecentSong(Option<Seq<char>>),
    Unplayed(Option<i64>),
}

impl DeepView for Reply {
    type V = ReplyView;

    open spec fn deep_view(&self) -> ReplyView {
        match *self {
            Reply::DatabaseFound(found) => ReplyView::DatabaseFound(found),
            Reply::DatabaseOpened(opened) => ReplyView::DatabaseOpened(opened),
            Reply::BusyTimeoutSet(set) => ReplyView::BusyTimeoutSet(set),
            Reply::Settings(files) => ReplyView::Settings(files.deep_view()),
            Reply::Rotation(rows) => ReplyView::Rotation(rows.deep_view()),
            Reply::RotationNotPrepared => ReplyView::RotationNotPrepared,
            Reply::RotationNotRun => ReplyView::RotationNotRun,
            Reply::FirstSong(song) => ReplyView::FirstSong(song.deep_view()),
            Reply::HistorySinger(id) => ReplyView::HistorySinger(id),
            Reply::RecentSong(filepath) => ReplyView::RecentSong(filepath.deep_view()),
            Reply::Unplayed(count) => ReplyView::Unplayed(count),
        }
    }
}

/// How far a query has come, with what it has learned so far.
#[derive(Debug)]
enum Stage {
    FindDatabase,
    OpenDatabase,
    SetBusyTimeout,
    ReadSettings,
    LoadRotation { current_id: Option<i64> },
    ReadQueues { current_id: Option<i64>, rows: Vec<(i64, String)>, songs: Vec<Song> },
    FindHistory { rotation: Vec<Singer>, current: usize, singer_id: i64 },
    ReadHistory { rotation: Vec<Singer>, current: usize, singer_id: i64, history_id: i64 },
    CountUnplayed { rotation: Vec<Singer>, current: usize, singer_id: i64, filepath: String },
    Done { state: KaraokeState },
    Failed { error: QueryError },
}

/// How far a query has come, with what it has learned so far.
#[verifier::ext_equal]
pub enum StageView {
    FindDatabase,
    OpenDatabase,
    SetBusyTimeout,
    ReadSettings,
    LoadRotation { current_id: Option<i64> },
    ReadQueues { current_id: Option<i64>, rows: Seq<(i64, Seq<char>)>, songs: Seq<SongView> },
    FindHistory { rotation: Seq<SingerView>, current: int, singer_id: i64 },
    ReadHistory { rotation: Seq<SingerView>, current: int, singer_id: i64, history_id: i64 },
    CountUnplayed {
        rotation: Seq<SingerView>,
        current: int,
        singer_id: i64,
        filepath: Seq<char>,
    },
    Done { state: StateView },
    Failed { error: QueryError },
}

impl DeepView for Stage {
    type V = StageView;

    closed spec fn deep_view(&self) -> StageView {
        match *self {
            Stage::FindDatabase => StageView::FindDatabase,
            Stage::OpenDatabase => StageView::OpenDatabase,
            Stage::SetBusyTimeout => StageView::SetBusyTimeout,
            Stage::ReadSettings => StageView::ReadSettings,
            Stage::LoadRotation { current_id } => StageView::LoadRotation { current_id },
            Stage::ReadQueues { current_id, rows, songs } => StageView::ReadQueues {
                current_id,
                rows: rows.deep_view(),
                songs: songs.deep_view(),
            },
            Stage::FindHistory { rotation, current, singer_id } => StageView::FindHistory {
                rotation: rotation.deep_view(),
                current: current as int,
                singer_id,
            },
            Stage::ReadHistory { rotation, current, singer_id, history_id } =>
            StageView::ReadHistory {
                rotation: rotation.deep_view(),
                current: current as int,
                singer_id,
                history_id,
            },
            Stage::CountUnplayed { rotation, current, singer_id, filepath } =>
            StageView::CountUnplayed {
                rotation: rotation.deep_view(),
                current: current as int,
                singer_id,
                filepath: filepath@,
            },
            Stage::Done { state } => StageView::Done { state: state.deep_view() },
            Stage::Failed { error } => StageView::Failed { error },
        }
    }
}

/// A query under way.
#[derive(Debug)]
pub struct StateQuery {
    singer_count: usize,
    stage: Stage,
}

/// What a `StateQuery` stands for.
#[verifier::ext_equal]
pub struct QueryView {
    pub singer_count: usize,
    pub stage: StageView,
}

impl View for StateQuery {
    type V = QueryView;

    closed spec fn view(&self) -> QueryView {
        QueryView { singer_count: self.singer_count, stage: self.stage.deep_view() }
    }
}

/// The rows that could be read, in order.
pub open spec fn readable<T>(rows: Seq<Option<T>>) -> Seq<T>
    decreases rows.len(),
{
    if rows.len() == 0 {
        seq![]
    } else {
        match rows.last() {
            Some(row) => readable(rows.drop_last()).push(row),
            None => readable(rows.drop_last()),
        }
    }
}

/// A song that was not found has no known artist and title.
pub open spec fn song_or_unknown(song: Option<SongView>) -> SongView {
    match song {
        Some(song) => song,
        None => (None, None),
    }
}

/// The stage of a query that knows the next songs of the first `songs.len()` singers.
pub open spec fn queue_stage(
    singer_count: usize,
    current_id: Option<i64>,
    rows: Seq<(i64, Seq<char>)>,
    songs: Seq<SongView>,
) -> StageView {
    if songs.len() < rows.len() {
        StageView::ReadQueues { current_id, rows, songs }
    } else {
        let rotation = crate::db::rotation_of(rows, songs, current_id);
        match (crate::db::current_position(rows, current_id), current_id) {
            (Some(current), Some(singer_id)) => StageView::FindHistory {
                rotation,
                current,
                singer_id,
            },
            _ => done(singer_count, rotation, None, false),
        }
    }
}

/// The last stage of a query that succeeds.
pub open spec fn done(
    singer_count: usize,
    rotation: Seq<SingerView>,
    current: Option<int>,
    is_playing: bool,
) -> StageView {
    StageView::Done { state: crate::db::state_of(rotation, current, is_playing, singer_count) }
}

impl QueryView {
    /// A query that has learned nothing yet.
    pub open spec fn start(singer_count: usize) -> QueryView {
        QueryView { singer_count, stage: StageView::FindDatabase }
    }

    /// What the query needs to know next; nothing once it has ended.
    pub open spec fn request(self) -> Option<RequestView> {
        match self.stage {
            StageView::FindDatabase => Some(RequestView::FindDatabase { file: DATABASE_FILE@ }),
            StageView::OpenDatabase => Some(RequestView::OpenDatabase { file: DATABASE_FILE@ }),
            StageView::SetBusyTimeout => Some(
                RequestView::SetBusyTimeout { milliseconds: BUSY_TIMEOUT_MS },
            ),
            StageView::ReadSettings => Some(
                RequestView::ReadSettings { files: crate::db::settings_names() },
            ),
            StageView::LoadRotation { .. } => Some(RequestView::LoadRotation),
            StageView::ReadQueues { rows, songs, .. } => Some(
                RequestView::FirstSong { singer_id: rows[songs.len() as int].0 },
            ),
            StageView::FindHistory { rotation, current, .. } => Some(
                RequestView::HistorySinger { name: rotation[current].name },
            ),
            StageView::ReadHistory { history_id, .. } => Some(
                RequestView::RecentSong { history_id },
            ),
            StageView::CountUnplayed { filepath, singer_id, .. } => Some(
                RequestView::CountUnplayed { filepath, singer_id },
            ),
            StageView::Done { .. } => None,
            StageView::Failed { .. } => None,
        }
    }

    /// How the query ended; nothing while it is under way.
    pub open spec fn outcome(self) -> Option<Result<StateView, QueryError>> {
        match self.stage {
            StageView::Done { state } => Some(Ok(state)),
            StageView::Failed { error } => Some(Err(error)),
            _ => None,
        }
    }

    /// The stage that follows on `reply`. A reply to something else than what was asked changes
    /// nothing.
    pub open spec fn next_stage(self, reply: ReplyView) -> StageView {
        let n = self.singer_count;
        match (self.stage, reply) {
            (StageView::FindDatabase, ReplyView::DatabaseFound(found)) => if found {
                StageView::OpenDatabase
            } else {
                StageView::Done { state: crate::db::missing_state(n) }
            },
            (StageView::OpenDatabase, ReplyView::DatabaseOpened(opened)) => if opened {
                StageView::SetBusyTimeout
            } else {
                StageView::Failed { error: QueryError::Open }
            },
            (StageView::SetBusyTimeout, ReplyView::BusyTimeoutSet(set)) => if set {
                StageView::ReadSettings
            } else {
                StageView::Failed { error: QueryError::BusyTimeout }
            },
            (StageView::ReadSettings, ReplyView::Settings(files)) => StageView::LoadRotation {
                current_id: crate::db::position_in_files(files),
            },
            (StageView::LoadRotation { current_id }, ReplyView::Rotation(rows)) => queue_stage(
                n,
                current_id,
                readable(rows),
                seq![],
            ),
            (StageView::LoadRotation { .. }, ReplyView::RotationNotPrepared) => StageView::Failed {
                error: QueryError::PrepareRotation,
            },
            (StageView::LoadRotation { .. }, ReplyView::RotationNotRun) => StageView::Failed {
                error: QueryError::RunRotation,
            },
            (
                StageView::ReadQueues { current_id, rows, songs },
                ReplyView::FirstSong(song),
            ) => queue_stage(n, current_id, rows, songs.push(song_or_unknown(song))),
            (
                StageView::FindHistory { rotation, current, singer_id },
                ReplyView::HistorySinger(id),
            ) => match id {
                Some(history_id) => StageView::ReadHistory {
                    rotation,
                    current,
                    singer_id,
                    history_id,
                },
                None => done(n, rotation, Some(current), false),
            },
            (
                StageView::ReadHistory { rotation, current, singer_id, .. },
                ReplyView::RecentSong(file),
            ) => match file {
                Some(filepath) => StageView::CountUnplayed {
                    rotation,
                    current,
                    singer_id,
                    filepath,
                },
                None => done(n, rotation, Some(current), false),
            },
            (
                StageView::CountUnplayed { rotation, current, .. },
                ReplyView::Unplayed(count),
            ) => done(n, rotation, Some(current), count matches Some(c) && c > 0),
            _ => self.stage,
        }
    }

    /// The query after `reply`.
    pub open spec fn after(self, reply: ReplyView) -> QueryView {
        QueryView { singer_count: self.singer_count, stage: self.next_stage(reply) }
    }
}

/// Keeps the rows that could be read.
fn keep_readable(rows: Vec<Option<(i64, String)>>) -> (r: Vec<(i64, String)>)
    ensures
        r.deep_view() == readable(rows.deep_view()),
{
    let mut out: Vec<(i64, String)> = Vec::new();
    let mut i: usize = 0;
    assert(rows.deep_view().take(0) =~= seq![]);
    assert(out.deep_view() =~= seq![]);
    while i < rows.len()
        invariant
            i <= rows@.len(),
            out.deep_view() == readable(rows.deep_view().take(i as int)),
        decreases rows@.len() - i,
    {
        let ghost before = out.deep_view();
        assert(rows.deep_view().take(i + 1).drop_last() =~= rows.deep_view().take(i as int));
        assert(rows.deep_view().take(i + 1).last() == rows@[i as int].deep_view());
        if let Some(row) = &rows[i] {
            let name = row.1.clone();
            out.push((row.0, name));
            assert(out.deep_view() =~= before.push((row.0, name@)));
        }
        i = i + 1;
    }
    assert(rows.deep_view().take(i as int) =~= rows.deep_view());
    out
}

/// The stage of a query that knows the next songs of the first `songs.len()` singers.
fn enter_queue_stage(
    singer_count: usize,
    current_id: Option<i64>,
    rows: Vec<(i64, String)>,
    songs: Vec<Song>,
) -> (r: Stage)
    requires
        songs@.len() <= rows@.len(),
    ensures
        r.deep_view() == queue_stage(
            singer_count,
            current_id,
            rows.deep_view(),
            songs.deep_view(),
        ),
        r.consistent(),
{
    if songs.len() < rows.len() {
        return Stage::ReadQueues { current_id, rows, songs };
    }
    let rotation = build_rotation(&rows, &songs, current_id);
    let current = find_current(&rows, current_id);
    match (current, current_id) {
        (Some(current), Some(singer_id)) => Stage::FindHistory { rotation, current, singer_id },
        _ => Stage::Done { state: build_state(rotation, None, false, singer_count) },
    }
}

impl Stage {
    /// Positions lie inside what they point into.
    spec fn consistent(self) -> bool {
        match self {
            Stage::ReadQueues { rows, songs, .. } => songs@.len() < rows@.len(),
            Stage::FindHistory { rotation, current, .. } => current < rotation@.len(),
            Stage::ReadHistory { rotation, current, .. } => current < rotation@.len(),
            Stage::CountUnplayed { rotation, current, .. } => current < rotation@.len(),
            _ => true,
        }
    }
}

impl StateQuery {
    #[verifier::type_invariant]
    spec fn consistent(self) -> bool {
        self.stage.consistent()
    }

    /// What the query needs to know next; nothing once it has ended.
    pub fn request(&self) -> (r: Option<Request>)
        ensures
            r.deep_view() == self@.request(),
    {
        proof {
            use_type_invariant(self);
        }
        match &self.stage {
            Stage::FindDatabase => Some(Request::FindDatabase { file: DATABASE_FILE }),
            Stage::OpenDatabase => Some(Request::OpenDatabase { file: DATABASE_FILE }),
            Stage::SetBusyTimeout => Some(
                Request::SetBusyTimeout { milliseconds: BUSY_TIMEOUT_MS },
            ),
            Stage::ReadSettings => Some(Request::ReadSettings { files: settings_files() }),
            Stage::LoadRotation { .. } => Some(Request::LoadRotation),
            Stage::ReadQueues { rows, songs, .. } => {
                let k: usize = songs.len();
                assert(rows.deep_view()[k as int] == rows@[k as int].deep_view());
                Some(Request::FirstSong { singer_id: rows[k].0 })
            },
            Stage::FindHistory { rotation, current, .. } => Some(
                Request::HistorySinger { name: rotation[*current].name.clone() },
            ),
            Stage::ReadHistory { history_id, .. } => Some(
                Request::RecentSong { history_id: *history_id },
            ),
            Stage::CountUnplayed { filepath, singer_id, .. } => Some(
                Request::CountUnplayed { filepath: filepath.clone(), singer_id: *singer_id },
            ),
            Stage::Done { .. } => None,
            Stage::Failed { .. } => None,
        }
    }

    /// Takes the answer to the pending request. A reply to something else changes nothing.
    pub fn step(self, reply: Reply) -> (r: StateQuery)
        ensures
            r@ == self@.after(reply.deep_view()),
    {
        proof {
            use_type_invariant(&self);
        }
        let singer_count: usize = self.singer_count;
        let stage = match (self.stage, reply) {
            (Stage::FindDatabase, Reply::DatabaseFound(found)) => if found {
                Stage::OpenDatabase
            } else {
                Stage::Done { state: build_missing_state(singer_count) }
            },
            (Stage::OpenDatabase, Reply::DatabaseOpened(opened)) => if opened {
                Stage::SetBusyTimeout
            } else {
                Stage::Failed { error: QueryError::Open }
            },
            (Stage::SetBusyTimeout, Reply::BusyTimeoutSet(set)) => if set {
                Stage::ReadSettings
            } else {
                Stage::Failed { error: QueryError::BusyTimeout }
            },
            (Stage::ReadSettings, Reply::Settings(files)) => Stage::LoadRotation {
                current_id: read_current_singer_id(&files),
            },
            (Stage::LoadRotation { current_id }, Reply::Rotation(rows)) => {
                let songs: Vec<Song> = Vec::new();
                assert(songs.deep_view() =~= seq![]);
                enter_queue_stage(singer_count, current_id, keep_readable(rows), songs)
            },
            (Stage::LoadRotation { .. }, Reply::RotationNotPrepared) => Stage::Failed {
                error: QueryError::PrepareRotation,
            },
            (Stage::LoadRotation { .. }, Reply::RotationNotRun) => Stage::Failed {
                error: QueryError::RunRotation,
            },
            (Stage::ReadQueues { current_id, rows, songs }, Reply::FirstSong(song)) => {
                let mut songs = songs;
                let ghost before = songs.deep_view();
                let next: Song = match song {
                    Some(song) => song,
                    None => (None, None),
                };
                songs.push(next);
                assert(songs.deep_view() =~= before.push(next.deep_view()));
                enter_queue_stage(singer_count, current_id, rows, songs)
            },
            (Stage::FindHistory { rotation, current, singer_id }, Reply::HistorySinger(id)) => {
                match id {
                    Some(history_id) => Stage::ReadHistory {
                        rotation,
                        current,
                        singer_id,
                        history_id,
                    },
                    None => Stage::Done {
                        state: build_state(rotation, Some(current), false, singer_count),
                    },
                }
            },
            (
                Stage::ReadHistory { rotation, current, singer_id, .. },
                Reply::RecentSong(file),
            ) => match file {
                Some(filepath) => Stage::CountUnplayed { rotation, current, singer_id, filepath },
                None => Stage::Done {
                    state: build_state(rotation, Some(current), false, singer_count),
                },
            },
            (Stage::CountUnplayed { rotation, current, .. }, Reply::Unplayed(count)) => {
                let is_playing: bool = match count {
                    Some(c) => c > 0,
                    None => false,
                };
                Stage::Done {
                    state: build_state(rotation, Some(current), is_playing, singer_count),
                }
            },
            (stage, _) => stage,
        };
        StateQuery { singer_count, stage }
    }

    /// How the query ended; nothing while it is under way.
    pub fn finish(self) -> (r: Option<Result<KaraokeState, QueryError>>)
        ensures
            match (r, self@.outcome()) {
                (Some(Ok(state)), Some(Ok(view))) => state.deep_view() == view,
                (Some(Err(error)), Some(Err(view))) => error == view,
                (None, None) => true,
                _ => false,
            },
    {
        match self.stage {
            Stage::Done { state } => Some(Ok(state)),
            Stage::Failed { error } => Some(Err(error)),
            _ => None,
        }
    }
}

/// Starts a query of the karaoke state. `singer_count` is passed through to the state.
pub fn query_state(singer_count: usize) -> (r: StateQuery)
    ensures
        r@ == QueryView::start(singer_count),
{
    StateQuery { singer_count, stage: Stage::FindDatabase }
}

/// What the rotation statement gives.
pub enum RotationView {
    Rows(Seq<Option<(i64, Seq<char>)>>),
    NotPrepared,
    NotRun,
}

/// A data directory and its database at rest: one answer to every question a query can ask.
pub struct World {
    pub database_found: bool,
    pub database_opened: bool,
    pub busy_timeout_set: bool,
    pub settings: Seq<Option<Seq<char>>>,
    pub rotation: RotationView,
    pub first_song: spec_fn(i64) -> Option<SongView>,
    pub history_singer: spec_fn(Seq<char>) -> Option<i64>,
    pub recent_song: spec_fn(i64) -> Option<Seq<char>>,
    pub unplayed: spec_fn(Seq<char>, i64) -> Option<i64>,
}

impl World {
    /// The answer to a request.
    pub open spec fn answer(self, request: RequestView) -> ReplyView {
        match request {
            RequestView::FindDatabase { .. } => ReplyView::DatabaseFound(self.database_found),
            RequestView::OpenDatabase { .. } => ReplyView::DatabaseOpened(self.database_opened),
            RequestView::SetBusyTimeout { .. } => ReplyView::BusyTimeoutSet(self.busy_timeout_set),
            RequestView::ReadSettings { .. } => ReplyView::Settings(self.settings),
            RequestView::LoadRotation => match self.rotation {
                RotationView::Rows(rows) => ReplyView::Rotation(rows),
                RotationView::NotPrepared => ReplyView::RotationNotPrepared,
                RotationView::NotRun => ReplyView::RotationNotRun,
            },
            RequestView::FirstSong { singer_id } => ReplyView::FirstSong(
                (self.first_song)(singer_id),
            ),
            RequestView::HistorySinger { name } => ReplyView::HistorySinger(
                (self.history_singer)(name),
            ),
            RequestView::RecentSong { history_id } => ReplyView::RecentSong(
                (self.recent_song)(history_id),
            ),
            RequestView::CountUnplayed { filepath, singer_id } => ReplyView::Unplayed(
                (self.unplayed)(filepath, singer_id),
            ),
        }
    }

    /// The id of the current singer, as the settings files record it.
    pub open spec fn current_id(self) -> Option<i64> {
        crate::db::position_in_files(self.settings)
    }

    /// The next songs of the singers of `rows`.
    pub open spec fn songs(self, rows: Seq<(i64, Seq<char>)>) -> Seq<SongView> {
        Seq::new(rows.len(), |i: int| song_or_unknown((self.first_song)(rows[i].0)))
    }

    /// Whether the song that the singer called `name` started most recently still stands
    /// unplayed in the queue of the singer with id `singer_id`.
    pub open spec fn playing(self, name: Seq<char>, singer_id: i64) -> bool {
        (self.history_singer)(name) matches Some(history_id) && (self.recent_song)(
            history_id,
        ) matches Some(filepath) && (self.unplayed)(filepath, singer_id) matches Some(count)
            && count > 0
    }

    /// The state of a rotation with these rows.
    pub open spec fn state(self, rows: Seq<(i64, Seq<char>)>, singer_count: usize) -> StateView {
        let rotation = crate::db::rotation_of(rows, self.songs(rows), self.current_id());
        match crate::db::current_position(rows, self.current_id()) {
            Some(current) => crate::db::state_of(
                rotation,
                Some(current),
                self.playing(rows[current].1, rows[current].0),
                singer_count,
            ),
            None => crate::db::state_of(rotation, None, false, singer_count),
        }
    }

    /// What a query of this world comes to.
    pub open spec fn result(self, singer_count: usize) -> Result<StateView, QueryError> {
        if !self.database_found {
            Ok(crate::db::missing_state(singer_count))
        } else if !self.database_opened {
            Err(QueryError::Open)
        } else if !self.busy_timeout_set {
            Err(QueryError::BusyTimeout)
        } else {
            match self.rotation {
                RotationView::Rows(rows) => Ok(self.state(readable(rows), singer_count)),
                RotationView::NotPrepared => Err(QueryError::PrepareRotation),
                RotationView::NotRun => Err(QueryError::RunRotation),
            }
        }
    }

    /// How a query ends that is answered from this world from here on.
    pub open spec fn drive(self, query: QueryView) -> Option<Result<StateView, QueryError>>
        decreases query.rank(), query.queues_left(),
    {
        match query.request() {
            Some(request) => self.drive(query.after(self.answer(request))),
            None => query.outcome(),
        }
    }
}

impl QueryView {
    /// How many kinds of request may still come.
    pub open spec fn rank(self) -> nat {
        match self.stage {
            StageView::FindDatabase => 9,
            StageView::OpenDatabase => 8,
            StageView::SetBusyTimeout => 7,
            StageView::ReadSettings => 6,
            StageView::LoadRotation { .. } => 5,
            StageView::ReadQueues { .. } => 4,
            StageView::FindHistory { .. } => 3,
            StageView::ReadHistory { .. } => 2,
            StageView::CountUnplayed { .. } => 1,
            StageView::Done { .. } => 0,
            StageView::Failed { .. } => 0,
        }
    }

    /// How many queues are still to be read.
    pub open spec fn queues_left(self) -> int {
        match self.stage {
            StageView::ReadQueues { rows, songs, .. } => rows.len() - songs.len(),
            _ => 0,
        }
    }
}

proof fn lemma_drive_queues(
    world: World,
    singer_count: usize,
    rows: Seq<(i64, Seq<char>)>,
    songs: Seq<SongView>,
)
    requires
        songs.len() <= rows.len(),
        songs == world.songs(rows).take(songs.len() as int),
    ensures
        world.drive(
            QueryView {
                singer_count,
                stage: queue_stage(singer_count, world.current_id(), rows, songs),
            },
        ) == Some(Ok::<_, QueryError>(world.state(rows, singer_count))),
    decreases rows.len() - songs.len(),
{
    let id = world.current_id();
    let query = QueryView { singer_count, stage: queue_stage(singer_count, id, rows, songs) };
    if songs.len() < rows.len() {
        let k = songs.len() as int;
        let more = songs.push(song_or_unknown((world.first_song)(rows[k].0)));
        assert(more =~= world.songs(rows).take(k + 1));
        lemma_drive_queues(world, singer_count, rows, more);
    } else {
        assert(songs =~= world.songs(rows));
        let ids = rows.map_values(|row: (i64, Seq<char>)| row.0);
        if let Some(singer_id) = id {
            ids.index_of_last_ensures(singer_id);
            if let Some(current) = ids.index_of_last(singer_id) {
                assert(rows[current].0 == singer_id);
                reveal_with_fuel(World::drive, 4);
            }
        }
    }
}

/// A query answered from a data directory at rest ends, and ends with the state that the
/// directory and its database record.
pub proof fn law_query_reports_the_world(world: World, singer_count: usize)
    ensures
        world.drive(QueryView::start(singer_count)) == Some(world.result(singer_count)),
{
    reveal_with_fuel(World::drive, 6);
    if let RotationView::Rows(rows) = world.rotation {
        let none: Seq<SongView> = seq![];
        assert(none =~= world.songs(readable(rows)).take(0));
        lemma_drive_queues(world, singer_count, readable(rows), none);
    }
}

/// A state that a query reports passes the display limit through, says `database_not_found`
/// exactly where there is no database, and holds one entry for each readable row, in order and
/// under the row's name.
pub proof fn law_reported_state(world: World, singer_count: usize)
    requires
        world.result(singer_count) is Ok,
    ensures
        ({
            let state = world.result(singer_count)->Ok_0;
            &&& state.singer_count == singer_count
            &&& state.status == "ok"@ || state.status == "database_not_found"@
            &&& state.status == "database_not_found"@ <==> !world.database_found
            &&& !world.database_found ==> state.rotation.len() == 0
            &&& world.database_found ==> world.rotation is Rows && state.rotation.len()
                == readable(world.rotation->Rows_0).len() && (forall|i: int|
                0 <= i < state.rotation.len() ==> (#[trigger] state.rotation[i]).name == readable(
                    world.rotation->Rows_0,
                )[i].1)
        }),
{
    reveal_strlit("ok");
    reveal_strlit("database_not_found");
    assert("ok"@.len() != "database_not_found"@.len());
}

/// The current singer is a marked entry of the rotation, and there is one exactly where the
/// rotation has a marked entry. Whoever is up next is an entry of the rotation too. A song plays
/// only while somebody is the current singer.
pub proof fn law_current_singer_is_marked(world: World, singer_count: usize)
    requires
        world.result(singer_count) is Ok,
    ensures
        ({
            let state = world.result(singer_count)->Ok_0;
            &&& state.current_singer matches Some(singer) ==> singer.is_current
                && state.rotation.contains(singer)
            &&& state.current_singer is Some <==> (exists|i: int|
                0 <= i < state.rotation.len() && (#[trigger] state.rotation[i]).is_current)
            &&& state.next_up matches Some(singer) ==> state.rotation.contains(singer)
            &&& state.is_playing ==> state.current_singer is Some
        }),
{
    let state = world.result(singer_count)->Ok_0;
    if world.database_found {
        let rows = readable(world.rotation->Rows_0);
        let ids = rows.map_values(|row: (i64, Seq<char>)| row.0);
        match world.current_id() {
            Some(id) => {
                ids.index_of_last_ensures(id);
                match ids.index_of_last(id) {
                    Some(current) => {
                        assert(ids[current] == rows[current].0);
                        assert(state.rotation[current].is_current);
                    },
                    None => {
                        assert forall|i: int| 0 <= i < state.rotation.len() implies !(
                        #[trigger] state.rotation[i]).is_current by {
                            assert(ids[i] == rows[i].0);
                            assert(ids.contains(ids[i]));
                        }
                    },
                }
            },
            None => {
                assert forall|i: int| 0 <= i < state.rotation.len() implies !(
                #[trigger] state.rotation[i]).is_current by {}
            },
        }
    }
}

/// Once a query has ended, nothing that is said to it changes it.
pub proof fn law_ended_query_stays(query: QueryView, reply: ReplyView)
    requires
        query.outcome() is Some,
    ensures
        query.after(reply) == query,
{
}

/// Every row that can be read is kept, once and in its place, and nothing else is: the readable
/// rows of two lists in a row are those of the one, then those of the other; a row that can be
/// read is kept as it is, and one that cannot is left out.
pub proof fn law_readable_rows_are_kept_in_order<T>(a: Seq<Option<T>>, b: Seq<Option<T>>, row: T)
    ensures
        readable(a + b) == readable(a) + readable(b),
        readable(seq![Some(row)]) == seq![row],
        readable(seq![None::<T>]) == Seq::<T>::empty(),
        readable(Seq::<Option<T>>::empty()) == Seq::<T>::empty(),
    decreases b.len(),
{
    let empty = Seq::<Option<T>>::empty();
    assert(seq![Some(row)].drop_last() =~= empty);
    assert(seq![None::<T>].drop_last() =~= empty);
    assert(readable(empty) =~= Seq::<T>::empty());
    assert(readable(seq![Some(row)]) =~= seq![row]);
    if b.len() == 0 {
        assert(a + b =~= a);
        assert(readable(a) + readable(b) =~= readable(a));
    } else {
        law_readable_rows_are_kept_in_order(a, b.drop_last(), row);
        assert((a + b).drop_last() =~= a + b.drop_last());
        assert((a + b).last() == b.last());
        assert(readable(a + b) =~= readable(a) + readable(b));
    }
}

/// Where every row can be read, every row is kept: the same rows, as many, in the same order.
pub proof fn law_all_rows_are_kept_where_all_are_readable<T>(rows: Seq<T>)
    ensures
        readable(rows.map_values(|row: T| Some(row))) == rows,
    decreases rows.len(),
{
    let f = |row: T| Some(row);
    if rows.len() > 0 {
        law_all_rows_are_kept_where_all_are_readable(rows.drop_last());
        assert(rows.map_values(f).drop_last() =~= rows.drop_last().map_values(f));
        assert(rows.map_values(f).last() == Some(rows.last()));
        assert(rows.drop_last().push(rows.last()) =~= rows);
    } else {
        assert(readable(rows.map_values(f)) =~= rows);
    }
}

/// As many rows are kept as can be read.
pub proof fn law_as_many_rows_as_are_readable<T>(rows: Seq<Option<T>>)
    ensures
        readable(rows).len() == rows.filter(|row: Option<T>| row is Some).len(),
    decreases rows.len(),
{
    reveal(Seq::filter);
    if rows.len() > 0 {
        law_as_many_rows_as_are_readable(rows.drop_last());
    }
}

/// A query fails exactly where a step of it fails, with the error of the first step that does;
/// without a database file it does not fail.
pub proof fn law_query_fails_where_a_step_fails(world: World, singer_count: usize)
    ensures
        ({
            let outcome = world.drive(QueryView::start(singer_count));
            &&& outcome is Some
            &&& !world.database_found ==> outcome->0 is Ok
            &&& world.database_found && !world.database_opened ==> outcome->0 == Err::<
                StateView,
                _,
            >(QueryError::Open)
            &&& world.database_found && world.database_opened && !world.busy_timeout_set
                ==> outcome->0 == Err::<StateView, _>(QueryError::BusyTimeout)
            &&& world.database_found && world.database_opened && world.busy_timeout_set ==> (
            match world.rotation {
                RotationView::NotPrepared => outcome->0 == Err::<StateView, _>(
                    QueryError::PrepareRotation,
                ),
                RotationView::NotRun => outcome->0 == Err::<StateView, _>(QueryError::RunRotation),
                RotationView::Rows(_) => outcome->0 is Ok,
            })
        }),
{
    law_query_reports_the_world(world, singer_count);
}

/// Without a database file the state is empty: nobody sings, nobody is up next, nothing plays, and
/// the status says why.
pub proof fn law_state_without_a_database(world: World, singer_count: usize)
    requires
        !world.database_found,
    ensures
        world.drive(QueryView::start(singer_count)) matches Some(Ok(state)) && state.current_singer
            is None && state.next_up is None && state.rotation.len() == 0 && !state.is_playing
            && state.singer_count == singer_count && state.status == "database_not_found"@,
{
    law_query_reports_the_world(world, singer_count);
}

/// The rotation of a state has one entry for each readable row, in order. Each has the row's name
/// and, whoever is current, the artist and the title of the song that is first in the queue of
/// the row's singer, as far as they are known; and it is marked exactly where the row's id is the
/// one that the settings record. The display limit is passed through, and the status is `ok`.
pub proof fn law_rotation_shows_every_singer(world: World, singer_count: usize)
    requires
        world.database_found,
    ensures
        world.drive(QueryView::start(singer_count)) matches Some(Ok(state)) ==> {
            &&& world.rotation is Rows
            &&& state.singer_count == singer_count
            &&& state.status == "ok"@
            &&& state.rotation.len() == readable(world.rotation->Rows_0).len()
            &&& forall|i: int|
                #![trigger state.rotation[i]]
                0 <= i < state.rotation.len() ==> {
                    let (id, name) = readable(world.rotation->Rows_0)[i];
                    &&& state.rotation[i].name == name
                    &&& state.rotation[i].next_song_artist == match (world.first_song)(id) {
                        Some(song) => song.0,
                        None => None,
                    }
                    &&& state.rotation[i].next_song_title == match (world.first_song)(id) {
                        Some(song) => song.1,
                        None => None,
                    }
                    &&& state.rotation[i].is_current <==> crate::db::position_in_files(
                        world.settings,
                    ) == Some(id)
                }
        },
{
    law_query_reports_the_world(world, singer_count);
}

/// The current singer is the entry of the last row that has the id which the settings record, and
/// there is one exactly where a row has it. Up next is the entry after that, or the first after
/// the last; without a current singer, the first.
pub proof fn law_current_and_next_singer(world: World, singer_count: usize)
    requires
        world.database_found,
    ensures
        world.drive(QueryView::start(singer_count)) matches Some(Ok(state)) ==> {
            let rows = readable(world.rotation->Rows_0);
            let id = crate::db::position_in_files(world.settings);
            let n = state.rotation.len() as int;
            &&& (state.current_singer is None <==> forall|j: int|
                0 <= j < rows.len() ==> id != Some((#[trigger] rows[j]).0))
            &&& state.current_singer is None ==> state.next_up == if n > 0 {
                Some(state.rotation[0])
            } else {
                None
            }
            &&& forall|p: int|
                0 <= p < rows.len() && id == Some((#[trigger] rows[p]).0) && (forall|j: int|
                    p < j < rows.len() ==> id != Some((#[trigger] rows[j]).0)) ==> {
                    &&& state.current_singer == Some(state.rotation[p])
                    &&& state.next_up == if p + 1 < n {
                        Some(state.rotation[p + 1])
                    } else if n > 1 {
                        Some(state.rotation[0])
                    } else {
                        None
                    }
                }
        },
{
    law_query_reports_the_world(world, singer_count);
    if world.drive(QueryView::start(singer_count))->0 is Ok {
        let rows = readable(world.rotation->Rows_0);
        let id = crate::db::position_in_files(world.settings);
        crate::db::law_current_row_is_the_last_with_the_id(rows, id);
        let state = world.drive(QueryView::start(singer_count))->0->Ok_0;
        assert forall|p: int|
            0 <= p < rows.len() && id == Some((#[trigger] rows[p]).0) && (forall|j: int|
                p < j < rows.len() ==> id != Some(
                    (#[trigger] rows[j]).0,
                )) implies crate::db::current_position(rows, id) == Some(p) by {
            let q = crate::db::current_position(rows, id)->0;
            assert(crate::db::current_position(rows, id) is Some);
            if q < p {
                assert(id != Some(rows[p].0));
            } else if p < q {
                assert(id != Some(rows[q].0));
            }
        }
    }
}

/// A song plays exactly where there is a current singer whose name stands in the history, who has
/// started a song, and in whose queue the file of the song started most recently stands unplayed.
pub proof fn law_playing_means_recent_song_is_unplayed(world: World, singer_count: usize)
    requires
        world.database_found,
    ensures
        world.drive(QueryView::start(singer_count)) matches Some(Ok(state)) ==> (state.is_playing
            <==> (state.current_singer matches Some(singer) && crate::db::position_in_files(
            world.settings,
        ) matches Some(singer_id) && (world.history_singer)(singer.name) matches Some(history_id)
            && (world.recent_song)(history_id) matches Some(filepath) && (world.unplayed)(
            filepath,
            singer_id,
        ) matches Some(count) && count > 0)),
{
    law_query_reports_the_world(world, singer_count);
    if world.drive(QueryView::start(singer_count))->0 is Ok {
        crate::db::law_current_row_is_the_last_with_the_id(
            readable(world.rotation->Rows_0),
            crate::db::position_in_files(world.settings),
        );
    }
}

/// A reply is taken only as the answer to what was asked: any other leaves the query as it is.
pub proof fn law_only_the_answer_asked_for_counts(query: QueryView, reply: ReplyView)
    requires
        !(query.request() matches Some(request) && match (request, reply) {
            (RequestView::FindDatabase { .. }, ReplyView::DatabaseFound(_)) => true,
            (RequestView::OpenDatabase { .. }, ReplyView::DatabaseOpened(_)) => true,
            (RequestView::SetBusyTimeout { .. }, ReplyView::BusyTimeoutSet(_)) => true,
            (RequestView::ReadSettings { .. }, ReplyView::Settings(_)) => true,
            (RequestView::LoadRotation, ReplyView::Rotation(_)) => true,
            (RequestView::LoadRotation, ReplyView::RotationNotPrepared) => true,
            (RequestView::LoadRotation, ReplyView::RotationNotRun) => true,
            (RequestView::FirstSong { .. }, ReplyView::FirstSong(_)) => true,
            (RequestView::HistorySinger { .. }, ReplyView::HistorySinger(_)) => true,
            (RequestView::RecentSong { .. }, ReplyView::RecentSong(_)) => true,
            (RequestView::CountUnplayed { .. }, ReplyView::Unplayed(_)) => true,
            _ => false,
        }),
    ensures
        query.after(reply) == query,
{
}

/// The view of a reply holds what the reply holds, and nothing in place of it.
pub proof fn law_view_of_a_reply(reply: Reply)
    ensures
        match (reply, reply.deep_view()) {
            (Reply::DatabaseFound(a), ReplyView::DatabaseFound(b)) => a == b,
            (Reply::DatabaseOpened(a), ReplyView::DatabaseOpened(b)) => a == b,
            (Reply::BusyTimeoutSet(a), ReplyView::BusyTimeoutSet(b)) => a == b,
            (Reply::Settings(a), ReplyView::Settings(b)) => a@.len() == b.len() && (forall|i: int|
                #![trigger b[i]]
                0 <= i < b.len() ==> match (a@[i], b[i]) {
                    (Some(x), Some(y)) => x@ == y,
                    (None, None) => true,
                    _ => false,
                }),
            (Reply::Rotation(a), ReplyView::Rotation(b)) => a@.len() == b.len() && (forall|i: int|
                #![trigger b[i]]
                0 <= i < b.len() ==> match (a@[i], b[i]) {
                    (Some(x), Some(y)) => x.0 == y.0 && x.1@ == y.1,
                    (None, None) => true,
                    _ => false,
                }),
            (Reply::RotationNotPrepared, ReplyView::RotationNotPrepared) => true,
            (Reply::RotationNotRun, ReplyView::RotationNotRun) => true,
            (Reply::FirstSong(Some(a)), ReplyView::FirstSong(Some(b))) => b.0 == (match a.0 {
                Some(artist) => Some(artist@),
                None => None,
            }) && b.1 == (match a.1 {
                Some(title) => Some(title@),
                None => None,
            }),
            (Reply::FirstSong(None), ReplyView::FirstSong(None)) => true,
            (Reply::HistorySinger(a), ReplyView::HistorySinger(b)) => a == b,
            (Reply::RecentSong(Some(a)), ReplyView::RecentSong(Some(b))) => a@ == b,
            (Reply::RecentSong(None), ReplyView::RecentSong(None)) => true,
            (Reply::Unplayed(a), ReplyView::Unplayed(b)) => a == b,
            _ => false,
        },
{
}

/// The view of a request holds what the request holds, and nothing in place of it.
pub proof fn law_view_of_a_request(request: Request)
    ensures
        match (request, request.deep_view()) {
            (
                Request::FindDatabase { file: a },
                RequestView::FindDatabase { file: b },
            ) => a@ == b,
            (
                Request::OpenDatabase { file: a },
                RequestView::OpenDatabase { file: b },
            ) => a@ == b,
            (
                Request::SetBusyTimeout { milliseconds: a },
                RequestView::SetBusyTimeout { milliseconds: b },
            ) => a == b,
            (
                Request::ReadSettings { files: a },
                RequestView::ReadSettings { files: b },
            ) => a@.len() == b.len() && (forall|i: int|
                0 <= i < b.len() ==> a@[i]@ == #[trigger] b[i]),
            (Request::LoadRotation, RequestView::LoadRotation) => true,
            (
                Request::FirstSong { singer_id: a },
                RequestView::FirstSong { singer_id: b },
            ) => a == b,
            (
                Request::HistorySinger { name: a },
                RequestView::HistorySinger { name: b },
            ) => a@ == b,
            (
                Request::RecentSong { history_id: a },
                RequestView::RecentSong { history_id: b },
            ) => a == b,
            (
                Request::CountUnplayed { filepath: a, singer_id: c },
                RequestView::CountUnplayed { filepath: b, singer_id: d },
            ) => a@ == b && c == d,
            _ => false,
        },
{
}

/// A world answers a request out of what it holds for just that request.
pub proof fn law_world_answers_what_it_holds(world: World, request: RequestView)
    ensures
        match (request, world.answer(request)) {
            (
                RequestView::FindDatabase { .. },
                ReplyView::DatabaseFound(found),
            ) => found == world.database_found,
            (
                RequestView::OpenDatabase { .. },
                ReplyView::DatabaseOpened(opened),
            ) => opened == world.database_opened,
            (
                RequestView::SetBusyTimeout { .. },
                ReplyView::BusyTimeoutSet(set),
            ) => set == world.busy_timeout_set,
            (RequestView::ReadSettings { .. }, ReplyView::Settings(files)) => files
                == world.settings,
            (RequestView::LoadRotation, ReplyView::Rotation(rows)) => world.rotation
                == RotationView::Rows(rows),
            (RequestView::LoadRotation, ReplyView::RotationNotPrepared) => world.rotation
                == RotationView::NotPrepared,
            (RequestView::LoadRotation, ReplyView::RotationNotRun) => world.rotation
                == RotationView::NotRun,
            (RequestView::FirstSong { singer_id }, ReplyView::FirstSong(song)) => song == (
            world.first_song)(singer_id),
            (RequestView::HistorySinger { name }, ReplyView::HistorySinger(id)) => id == (
            world.history_singer)(name),
            (RequestView::RecentSong { history_id }, ReplyView::RecentSong(file)) => file == (
            world.recent_song)(history_id),
            (
                RequestView::CountUnplayed { filepath, singer_id },
                ReplyView::Unplayed(count),
            ) => count == (world.unplayed)(filepath, singer_id),
            _ => false,
        },
{
}

/// Each request for the database is answered by its own statement: the rotation by position, the
/// unplayed song that is first in the one singer's queue, the name in the history, the song that
/// was started last, and the count of the file, unplayed, in the one singer's queue.
pub proof fn law_statements()
    ensures
        ROTATION_SQL@ == "SELECT singerid, name FROM rotationSingers ORDER BY position"@,
        FIRST_SONG_SQL@
            == "SELECT d.artist, d.title FROM dbsongs d JOIN queuesongs q ON d.songid = q.song WHERE q.singer = ?1 AND q.played = 0 ORDER BY q.position LIMIT 1"@,
        HISTORY_SINGER_SQL@ == "SELECT id FROM historySingers WHERE name = ?1 LIMIT 1"@,
        RECENT_SONG_SQL@
            == "SELECT filepath FROM historySongs WHERE historySinger = ?1 ORDER BY lastplay DESC LIMIT 1"@,
        UNPLAYED_SQL@
            == "SELECT COUNT(*) FROM dbSongs d JOIN queueSongs q ON q.song = d.songid WHERE d.path = ?1 AND q.singer = ?2 AND q.played = 0"@,
{
}

} // verus!
