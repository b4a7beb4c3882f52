//! The search for the data directory below the user's own data directory.
//!
//! A `Discovery` names the next path to look for (`request`) and is told whether it is there
//! (`step`), until it has settled on a directory or has none left.

use std::path::PathBuf;
use vstd::prelude::*;

use crate::query::DATABASE_FILE;

verus! {

/// The settings file that marks a data directory in use. The database marks one too.
pub const MARKER_SETTINGS_FILE: &'static str = "openkj2.ini";

/// The operating system that the ticker runs on.
#[derive(Debug, Clone, Copy, PartialEq, Eq, Structural)]
pub enum Platform {
    MacOs,
    Linux,
    Windows,
    Other,
}

/// The place reached from `base` by descending through the names of `below`.
#[derive(Debug)]
pub struct Location {
    pub base: PathBuf,
    pub below: Vec<String>,
}

/// Directories to look at, each given by the names that lead to it from `base`, the likeliest
/// first.
#[derive(Debug)]
pub struct Candidates {
    pub base: PathBuf,
    pub below: Vec<Vec<String>>,
}

/// The places below the user's data directory where the data may lie, the likeliest first.
pub open spec fn candidate_names() -> Seq<Seq<Seq<char>>> {
    seq![
        seq!["OpenKJ2"@],
        seq!["OpenKJ2"@, "OpenKJ2"@],
        seq!["OpenKJ2-unstable"@],
        seq!["OpenKJ"@],
    ]
}

/// `dirs::data_dir`: the user's data directory, or nothing where the system knows none. What it
/// is depends on the user's environment; nothing is said of it.
pub assume_specification[ dirs::data_dir ]() -> (r: Option<PathBuf>)
;

/// The names that lead to the candidates.
fn candidate_paths() -> (r: Vec<Vec<String>>)
    ensures
        r.deep_view() == candidate_names(),
{
    let first = vec!["OpenKJ2".to_owned()];
    let second = vec!["OpenKJ2".to_owned(), "OpenKJ2".to_owned()];
    let third = vec!["OpenKJ2-unstable".to_owned()];
    let fourth = vec!["OpenKJ".to_owned()];
    assert(first.deep_view() =~= seq!["OpenKJ2"@]);
    assert(second.deep_view() =~= seq!["OpenKJ2"@, "OpenKJ2"@]);
    assert(third.deep_view() =~= seq!["OpenKJ2-unstable"@]);
    assert(fourth.deep_view() =~= seq!["OpenKJ"@]);
    let r = vec![first, second, third, fourth];
    assert(r.deep_view() =~= candidate_names());
    r
}

/// Whether `candidates` are those below `data_dir`, the user's data directory: none where the
/// system knows none.
pub open spec fn lie_below(candidates: Option<Candidates>, data_dir: Option<PathBuf>) -> bool {
    match (data_dir, candidates) {
        (Some(base), Some(candidates)) => candidates.base == base && candidates.below.deep_view()
            == candidate_names(),
        (None, None) => true,
        _ => false,
    }
}

/// The candidates below `data_dir`, the user's data directory; none where the system knows none.
pub fn candidates_below(data_dir: Option<PathBuf>) -> (r: Option<Candidates>)
    ensures
        lie_below(r, data_dir),
        r is Some <==> data_dir is Some,
        r matches Some(candidates) ==> data_dir == Some(candidates.base)
            && candidates.below.deep_view() == candidate_names(),
{
    match data_dir {
        Some(base) => Some(Candidates { base, below: candidate_paths() }),
        None => None,
    }
}

/// The candidates on `platform`: on the three that are known, those below the data directory
/// that `dirs::data_dir` reports, and elsewhere none. Which directory it reports, if any, is up
/// to the user's environment.
pub fn build_candidates(platform: Platform) -> (r: Option<Candidates>)
    ensures
        platform is Other ==> r is None,
        platform !is Other ==> exists|data_dir: Option<PathBuf>|
            #[trigger] call_ensures(dirs::data_dir, (), data_dir) && lie_below(r, data_dir),
        r matches Some(candidates) ==> candidates.below.deep_view() == candidate_names(),
{
    match platform {
        Platform::MacOs | Platform::Linux | Platform::Windows => {
            let data_dir = dirs::data_dir();
            candidates_below(data_dir)
        },
        Platform::Other => None,
    }
}

/// How far a search has come. The number is the position of a candidate.
#[derive(Debug, Clone, Copy)]
enum Stage {
    /// Does the candidate hold the database?
    Database(usize),
    /// Does the candidate hold the settings file?
    Settings(usize),
    /// Is the candidate there at all?
    Existing(usize),
    /// The candidate is the data directory.
    Found(usize),
    /// No candidate is.
    NotFound,
}

/// How far a search has come. The number is the position of a candidate.
pub enum StageView {
    Database(int),
    Settings(int),
    Existing(int),
    Found(int),
    NotFound,
}

/// A search under way.
#[derive(Debug)]
pub struct Discovery {
    candidates: Candidates,
    stage: Stage,
}

/// What a `Discovery` stands for.
#[verifier::ext_equal]
pub struct DiscoveryView {
    pub base: PathBuf,
    pub below: Seq<Seq<Seq<char>>>,
    pub stage: StageView,
}

impl Stage {
    spec fn as_view(self) -> StageView {
        match self {
            Stage::Database(k) => StageView::Database(k as int),
            Stage::Settings(k) => StageView::Settings(k as int),
            Stage::Existing(k) => StageView::Existing(k as int),
            Stage::Found(k) => StageView::Found(k as int),
            Stage::NotFound => StageView::NotFound,
        }
    }
}

impl View for Discovery {
    type V = DiscoveryView;

    closed spec fn view(&self) -> DiscoveryView {
        DiscoveryView {
            base: self.candidates.base,
            below: self.candidates.below.deep_view(),
            stage: self.stage.as_view(),
        }
    }
}

impl DiscoveryView {
    /// A search that has looked at nothing yet.
    pub open spec fn start(base: PathBuf, below: Seq<Seq<Seq<char>>>) -> DiscoveryView {
        DiscoveryView {
            base,
            below,
            stage: if below.len() > 0 {
                StageView::Database(0)
            } else {
                StageView::NotFound
            },
        }
    }

    /// The path below the base to look for next; nothing once the search has ended.
    pub open spec fn request(self) -> Option<Seq<Seq<char>>> {
        match self.stage {
            StageView::Database(k) => Some(self.below[k].push(DATABASE_FILE@)),
            StageView::Settings(k) => Some(self.below[k].push(MARKER_SETTINGS_FILE@)),
            StageView::Existing(k) => Some(self.below[k]),
            StageView::Found(_) => None,
            StageView::NotFound => None,
        }
    }

    /// The search once it is known whether the path that it named is there. Every candidate is
    /// asked for its files before any is asked whether it is there at all.
    pub open spec fn after(self, is_there: bool) -> DiscoveryView {
        let stage = match self.stage {
            StageView::Database(k) => if is_there {
                StageView::Found(k)
            } else {
                StageView::Settings(k)
            },
            StageView::Settings(k) => if is_there {
                StageView::Found(k)
            } else if k + 1 < self.below.len() {
                StageView::Database(k + 1)
            } else {
                StageView::Existing(0)
            },
            StageView::Existing(k) => if is_there {
                StageView::Found(k)
            } else if k + 1 < self.below.len() {
                StageView::Existing(k + 1)
            } else {
                StageView::NotFound
            },
            StageView::Found(k) => StageView::Found(k),
            StageView::NotFound => StageView::NotFound,
        };
        DiscoveryView { stage, ..self }
    }

    /// The names that lead to the directory found, or that there is none; nothing while the
    /// search is under way.
    pub open spec fn outcome(self) -> Option<Option<Seq<Seq<char>>>> {
        match self.stage {
            StageView::Found(k) => Some(Some(self.below[k])),
            StageView::NotFound => Some(None),
            _ => None,
        }
    }

    /// How many rounds over the candidates are left.
    pub open spec fn rounds_left(self) -> nat {
        match self.stage {
            StageView::Database(_) => 2,
            StageView::Settings(_) => 2,
            StageView::Existing(_) => 1,
            _ => 0,
        }
    }

    /// How many questions are left in this round.
    pub open spec fn questions_left(self) -> int {
        match self.stage {
            StageView::Database(k) => 2 * (self.below.len() - k),
            StageView::Settings(k) => 2 * (self.below.len() - k) - 1,
            StageView::Existing(k) => self.below.len() - k,
            _ => 0,
        }
    }

    /// Whether the position that the search stands at is that of a candidate.
    pub open spec fn in_bounds(self) -> bool {
        match self.stage {
            StageView::Database(k) => 0 <= k < self.below.len(),
            StageView::Settings(k) => 0 <= k < self.below.len(),
            StageView::Existing(k) => 0 <= k < self.below.len(),
            StageView::Found(k) => 0 <= k < self.below.len(),
            StageView::NotFound => true,
        }
    }
}

/// The path of `names` with one name more.
fn extended(names: &Vec<String>, name: &str) -> (r: Vec<String>)
    ensures
        r.deep_view() == names.deep_view().push(name@),
{
    let mut path = names.clone();
    path.push(name.to_owned());
    assert(path.deep_view() =~= names.deep_view().push(name@));
    path
}

impl Discovery {
    #[verifier::type_invariant]
    spec fn consistent(self) -> bool {
        self@.in_bounds()
    }

    /// The path below the base directory to look for next; nothing once the search has ended.
    pub fn request(&self) -> (r: Option<Location>)
        ensures
            match (r, self@.request()) {
                (Some(location), Some(below)) => location.base == self@.base
                    && location.below.deep_view() == below,
                (None, None) => true,
                _ => false,
            },
    {
        proof {
            use_type_invariant(self);
        }
        let all = &self.candidates.below;
        let below: Vec<String> = match self.stage {
            Stage::Database(k) => extended(&all[k], DATABASE_FILE),
            Stage::Settings(k) => extended(&all[k], MARKER_SETTINGS_FILE),
            Stage::Existing(k) => {
                let path = all[k].clone();
                assert(path.deep_view() =~= all@[k as int].deep_view());
                path
            },
            Stage::Found(_) => {
                return None;
            },
            Stage::NotFound => {
                return None;
            },
        };
        Some(Location { base: self.candidates.base.clone(), below })
    }

    /// Takes the answer whether the path that was named is there.
    pub fn step(self, is_there: bool) -> (r: Discovery)
        ensures
            r@ == self@.after(is_there),
    {
        proof {
            use_type_invariant(&self);
        }
        let Discovery { candidates, stage } = self;
        let n: usize = candidates.below.len();
        let next = match stage {
            Stage::Database(k) => if is_there {
                Stage::Found(k)
            } else {
                Stage::Settings(k)
            },
            Stage::Settings(k) => if is_there {
                Stage::Found(k)
            } else if k < n - 1 {
                Stage::Database(k + 1)
            } else {
                Stage::Existing(0)
            },
            Stage::Existing(k) => if is_there {
                Stage::Found(k)
            } else if k < n - 1 {
                Stage::Existing(k + 1)
            } else {
                Stage::NotFound
            },
            Stage::Found(k) => Stage::Found(k),
            Stage::NotFound => Stage::NotFound,
        };
        Discovery { candidates, stage: next }
    }

    /// The directory found, or that there is none; nothing while the search is under way.
    pub fn finish(self) -> (r: Option<Option<Location>>)
        ensures
            match (r, self@.outcome()) {
                (Some(Some(location)), Some(Some(below))) => location.base == self@.base
                    && location.below.deep_view() == below,
                (Some(None), Some(None)) => true,
                (None, None) => true,
                _ => false,
            },
    {
        proof {
            use_type_invariant(&self);
        }
        match self.stage {
            Stage::Found(k) => {
                let below = self.candidates.below[k].clone();
                assert(below.deep_view() =~= self.candidates.below@[k as int].deep_view());
                Some(Some(Location { base: self.candidates.base, below }))
            },
            Stage::NotFound => Some(None),
            _ => None,
        }
    }
}

/// Starts the search for the data directory among `candidates`: the first that holds the
/// database or the settings file, else the first that is there.
pub fn search_among(candidates: Candidates) -> (r: Discovery)
    ensures
        r@ == DiscoveryView::start(candidates.base, candidates.below.deep_view()),
{
    if candidates.below.len() > 0 {
        Discovery { candidates, stage: Stage::Database(0) }
    } else {
        Discovery { candidates, stage: Stage::NotFound }
    }
}

/// Starts the search for the data directory on `platform`, among the candidates below the
/// directory that `dirs::data_dir` reports. There is nothing to search where it reports none, or
/// where the platform is not known.
pub fn discover_data_dir(platform: Platform) -> (r: Option<Discovery>)
    ensures
        platform is Other ==> r is None,
        platform !is Other ==> exists|data_dir: Option<PathBuf>|
            #[trigger] call_ensures(dirs::data_dir, (), data_dir) && match (data_dir, r) {
                (Some(base), Some(search)) => search@ == DiscoveryView::start(
                    base,
                    candidate_names(),
                ),
                (None, None) => true,
                _ => false,
            },
{
    match build_candidates(platform) {
        Some(candidates) => Some(search_among(candidates)),
        None => None,
    }
}

/// Whether a candidate has been in use: it holds the database or the settings file. `there`
/// says which paths below the base are there.
pub open spec fn in_use(candidate: Seq<Seq<char>>, there: spec_fn(Seq<Seq<char>>) -> bool) -> bool {
    there(candidate.push(DATABASE_FILE@)) || there(candidate.push(MARKER_SETTINGS_FILE@))
}

/// The first of `candidates` that has been in use.
pub open spec fn first_in_use(
    candidates: Seq<Seq<Seq<char>>>,
    there: spec_fn(Seq<Seq<char>>) -> bool,
) -> Option<Seq<Seq<char>>>
    decreases candidates.len(),
{
    if candidates.len() == 0 {
        None
    } else if in_use(candidates.first(), there) {
        Some(candidates.first())
    } else {
        first_in_use(candidates.drop_first(), there)
    }
}

/// The first of `candidates` that is there.
pub open spec fn first_existing(
    candidates: Seq<Seq<Seq<char>>>,
    there: spec_fn(Seq<Seq<char>>) -> bool,
) -> Option<Seq<Seq<char>>>
    decreases candidates.len(),
{
    if candidates.len() == 0 {
        None
    } else if there(candidates.first()) {
        Some(candidates.first())
    } else {
        first_existing(candidates.drop_first(), there)
    }
}

/// The candidate to take: the first that has been in use, else the first that is there.
pub open spec fn chosen(
    candidates: Seq<Seq<Seq<char>>>,
    there: spec_fn(Seq<Seq<char>>) -> bool,
) -> Option<Seq<Seq<char>>> {
    match first_in_use(candidates, there) {
        Some(below) => Some(below),
        None => first_existing(candidates, there),
    }
}

/// How a search ends that is told from here on which paths are there.
pub open spec fn drive(
    search: DiscoveryView,
    there: spec_fn(Seq<Seq<char>>) -> bool,
) -> Option<Option<Seq<Seq<char>>>>
    decreases search.rounds_left(), search.questions_left(),
    when search.in_bounds()
{
    match search.request() {
        Some(path) => drive(search.after(there(path)), there),
        None => search.outcome(),
    }
}

proof fn lemma_drive_existing(
    search: DiscoveryView,
    k: int,
    there: spec_fn(Seq<Seq<char>>) -> bool,
)
    requires
        search.in_bounds(),
        search.stage == StageView::Existing(k),
    ensures
        drive(search, there) == Some(first_existing(search.below.skip(k), there)),
    decreases search.below.len() - k,
{
    let rest = search.below.skip(k);
    assert(rest.drop_first() =~= search.below.skip(k + 1));
    let next = search.after(there(search.below[k]));
    if there(search.below[k]) {
        assert(drive(next, there) == next.outcome());
    } else if k + 1 < search.below.len() {
        lemma_drive_existing(next, k + 1, there);
    } else {
        assert(drive(next, there) == next.outcome());
        assert(rest.drop_first() =~= seq![]);
        assert(first_existing(rest.drop_first(), there) is None);
    }
}

proof fn lemma_drive_in_use(search: DiscoveryView, k: int, there: spec_fn(Seq<Seq<char>>) -> bool)
    requires
        search.in_bounds(),
        search.stage == StageView::Database(k),
    ensures
        drive(search, there) == Some(
            match first_in_use(search.below.skip(k), there) {
                Some(below) => Some(below),
                None => first_existing(search.below, there),
            },
        ),
    decreases search.below.len() - k,
{
    let rest = search.below.skip(k);
    assert(rest.drop_first() =~= search.below.skip(k + 1));
    let second = search.after(there(search.below[k].push(DATABASE_FILE@)));
    if there(search.below[k].push(DATABASE_FILE@)) {
        assert(drive(second, there) == second.outcome());
    } else {
        let third = second.after(there(search.below[k].push(MARKER_SETTINGS_FILE@)));
        assert(drive(search, there) == drive(second, there));
        assert(drive(second, there) == drive(third, there));
        if there(search.below[k].push(MARKER_SETTINGS_FILE@)) {
            assert(drive(third, there) == third.outcome());
        } else if k + 1 < search.below.len() {
            lemma_drive_in_use(third, k + 1, there);
        } else {
            lemma_drive_existing(third, 0, there);
            assert(search.below.skip(0) =~= search.below);
            assert(rest.drop_first() =~= seq![]);
            assert(first_in_use(rest.drop_first(), there) is None);
        }
    }
}

/// A search ends, and ends with the candidate to take.
pub proof fn law_search_finds_the_chosen(
    base: PathBuf,
    candidates: Seq<Seq<Seq<char>>>,
    there: spec_fn(Seq<Seq<char>>) -> bool,
)
    ensures
        drive(DiscoveryView::start(base, candidates), there) == Some(chosen(candidates, there)),
{
    let search = DiscoveryView::start(base, candidates);
    if candidates.len() > 0 {
        lemma_drive_in_use(search, 0, there);
        assert(candidates.skip(0) =~= candidates);
    } else {
        assert(drive(search, there) == search.outcome());
    }
}

proof fn lemma_first_in_use(
    candidates: Seq<Seq<Seq<char>>>,
    there: spec_fn(Seq<Seq<char>>) -> bool,
)
    ensures
        match first_in_use(candidates, there) {
            Some(below) => exists|k: int|
                0 <= k < candidates.len() && #[trigger] candidates[k] == below && in_use(
                    candidates[k],
                    there,
                ) && (forall|j: int| 0 <= j < k ==> !in_use(#[trigger] candidates[j], there)),
            None => forall|j: int|
                0 <= j < candidates.len() ==> !in_use(#[trigger] candidates[j], there),
        },
    decreases candidates.len(),
{
    if candidates.len() > 0 {
        if in_use(candidates.first(), there) {
            assert(candidates[0] == candidates.first());
        } else {
            let rest = candidates.drop_first();
            lemma_first_in_use(rest, there);
            assert(forall|j: int|
                0 < j < candidates.len() ==> #[trigger] candidates[j] == rest[j - 1]);
            if let Some(below) = first_in_use(rest, there) {
                let k = choose|k: int|
                    0 <= k < rest.len() && #[trigger] rest[k] == below && in_use(rest[k], there)
                        && (forall|j: int| 0 <= j < k ==> !in_use(#[trigger] rest[j], there));
                assert(candidates[k + 1] == rest[k]);
            }
        }
    }
}

proof fn lemma_first_existing(
    candidates: Seq<Seq<Seq<char>>>,
    there: spec_fn(Seq<Seq<char>>) -> bool,
)
    ensures
        match first_existing(candidates, there) {
            Some(below) => exists|k: int|
                0 <= k < candidates.len() && #[trigger] candidates[k] == below && there(
                    candidates[k],
                ) && (forall|j: int| 0 <= j < k ==> !there(#[trigger] candidates[j])),
            None => forall|j: int| 0 <= j < candidates.len() ==> !there(#[trigger] candidates[j]),
        },
    decreases candidates.len(),
{
    if candidates.len() > 0 {
        if there(candidates.first()) {
            assert(candidates[0] == candidates.first());
        } else {
            let rest = candidates.drop_first();
            lemma_first_existing(rest, there);
            assert(forall|j: int|
                0 < j < candidates.len() ==> #[trigger] candidates[j] == rest[j - 1]);
            if let Some(below) = first_existing(rest, there) {
                let k = choose|k: int|
                    0 <= k < rest.len() && #[trigger] rest[k] == below && there(rest[k]) && (
                    forall|j: int| 0 <= j < k ==> !there(#[trigger] rest[j]));
                assert(candidates[k + 1] == rest[k]);
            }
        }
    }
}

/// A directory that has been in use is preferred to one that is only there, whatever their order;
/// among equals the earlier candidate is taken; and the search fails only where no candidate has
/// been in use or is there.
pub proof fn law_directory_in_use_is_preferred(
    candidates: Seq<Seq<Seq<char>>>,
    there: spec_fn(Seq<Seq<char>>) -> bool,
)
    ensures
        match chosen(candidates, there) {
            Some(below) => exists|k: int|
                0 <= k < candidates.len() && #[trigger] candidates[k] == below && if (exists|j: int|
                    0 <= j < candidates.len() && in_use(#[trigger] candidates[j], there)) {
                    in_use(below, there) && (forall|j: int|
                        0 <= j < k ==> !in_use(#[trigger] candidates[j], there))
                } else {
                    there(below) && (forall|j: int|
                        0 <= j < k ==> !there(#[trigger] candidates[j]))
                },
            None => forall|j: int|
                0 <= j < candidates.len() ==> !in_use(#[trigger] candidates[j], there) && !there(
                    candidates[j],
                ),
        },
{
    lemma_first_in_use(candidates, there);
    lemma_first_existing(candidates, there);
}

/// A search ends with the first candidate that has the database or the settings file in it; where
/// none has, with the first candidate that is there; and with none where none is.
pub proof fn law_search_outcome(
    base: PathBuf,
    candidates: Seq<Seq<Seq<char>>>,
    there: spec_fn(Seq<Seq<char>>) -> bool,
)
    ensures
        ({
            let outcome = drive(DiscoveryView::start(base, candidates), there);
            &&& outcome is Some
            &&& forall|k: int|
                0 <= k < candidates.len() && (there((#[trigger] candidates[k]).push("openkj.sqlite"@))
                    || there(candidates[k].push("openkj2.ini"@))) && (forall|j: int|
                    0 <= j < k ==> !there((#[trigger] candidates[j]).push("openkj.sqlite"@))
                        && !there(candidates[j].push("openkj2.ini"@))) ==> outcome == Some(
                    Some(candidates[k]),
                )
            &&& (forall|j: int|
                0 <= j < candidates.len() ==> !there(
                    (#[trigger] candidates[j]).push("openkj.sqlite"@),
                ) && !there(candidates[j].push("openkj2.ini"@))) ==> {
                &&& forall|k: int|
                    0 <= k < candidates.len() && there(#[trigger] candidates[k]) && (forall|j: int|
                        0 <= j < k ==> !there(#[trigger] candidates[j])) ==> outcome == Some(
                        Some(candidates[k]),
                    )
                &&& (forall|j: int| 0 <= j < candidates.len() ==> !there(#[trigger] candidates[j]))
                    ==> outcome == Some(None::<Seq<Seq<char>>>)
            }
        }),
{
    law_search_finds_the_chosen(base, candidates, there);
    lemma_first_in_use(candidates, there);
    lemma_first_existing(candidates, there);
    let outcome = drive(DiscoveryView::start(base, candidates), there);
    assert forall|k: int|
        0 <= k < candidates.len() && (there((#[trigger] candidates[k]).push("openkj.sqlite"@))
            || there(candidates[k].push("openkj2.ini"@))) && (forall|j: int|
            0 <= j < k ==> !there((#[trigger] candidates[j]).push("openkj.sqlite"@)) && !there(
                candidates[j].push("openkj2.ini"@),
            )) implies outcome == Some(Some(candidates[k])) by {
        assert(in_use(candidates[k], there));
        let below = first_in_use(candidates, there)->0;
        let q = choose|q: int|
            0 <= q < candidates.len() && #[trigger] candidates[q] == below && in_use(
                candidates[q],
                there,
            ) && (forall|j: int| 0 <= j < q ==> !in_use(#[trigger] candidates[j], there));
        if q < k {
            assert(in_use(candidates[q], there));
        } else if k < q {
            assert(!in_use(candidates[k], there));
        }
    }
    if forall|j: int|
        0 <= j < candidates.len() ==> !there((#[trigger] candidates[j]).push("openkj.sqlite"@))
            && !there(candidates[j].push("openkj2.ini"@)) {
        assert(first_in_use(candidates, there) is None) by {
            if let Some(below) = first_in_use(candidates, there) {
                let q = choose|q: int|
                    0 <= q < candidates.len() && #[trigger] candidates[q] == below && in_use(
                        candidates[q],
                        there,
                    ) && (forall|j: int| 0 <= j < q ==> !in_use(#[trigger] candidates[j], there));
                assert(in_use(candidates[q], there));
            }
        }
        assert forall|k: int|
            0 <= k < candidates.len() && there(#[trigger] candidates[k]) && (forall|j: int|
                0 <= j < k ==> !there(#[trigger] candidates[j])) implies outcome == Some(
            Some(candidates[k]),
        ) by {
            let below = first_existing(candidates, there)->0;
            let q = choose|q: int|
                0 <= q < candidates.len() && #[trigger] candidates[q] == below && there(
                    candidates[q],
                ) && (forall|j: int| 0 <= j < q ==> !there(#[trigger] candidates[j]));
            if q < k {
                assert(there(candidates[q]));
            } else if k < q {
                assert(!there(candidates[k]));
            }
        }
    }
}

/// A search stays with its candidates and its base directory from start to end, asks only for
/// paths that lie in a candidate or are one, and finds only a candidate.
pub proof fn law_search_stays_below_its_base(search: DiscoveryView, is_there: bool)
    requires
        search.in_bounds(),
    ensures
        search.after(is_there).base == search.base,
        search.after(is_there).below == search.below,
        search.after(is_there).in_bounds(),
        search.request() matches Some(path) ==> exists|k: int|
            0 <= k < search.below.len() && (path == #[trigger] search.below[k] || path
                == search.below[k].push("openkj.sqlite"@) || path == search.below[k].push(
                "openkj2.ini"@,
            )),
        search.outcome() matches Some(Some(found)) ==> search.below.contains(found),
        search.request() is None <==> search.outcome() is Some,
{
    match search.stage {
        StageView::Database(k) => {
            assert(search.request() == Some(search.below[k].push("openkj.sqlite"@)));
        },
        StageView::Settings(k) => {
            assert(search.request() == Some(search.below[k].push("openkj2.ini"@)));
        },
        _ => {},
    }
}

} // verus!
