//! The check that runs before a library is scanned: the library must exist
//! in the database and on disk, and every series must sit directly inside
//! the library's directory; series found elsewhere have their paths, and the
//! paths of their media, rewritten to the library's directory.

use vstd::prelude::*;

use crate::model::{Library, LibraryView, Series, SeriesView, series_views};
use crate::paths::{optional_view, parent_of, parent_outcome, same_path, same_path_outcome};
use crate::series_map::string_views;
use vstd::string::StringExecFns;

verus! {

/// An error answered to the client of the server.
#[derive(Debug)]
pub enum ApiError {
    NotFound(String),
    InternalServerError(String),
}

/// What was found of a series' directory: its parent directory, if the
/// path has one, and whether that parent is the library's directory.
pub struct ParentCheck {
    pub parent: Option<String>,
    pub matches_library: bool,
}

/// Some series' path has no parent directory.
pub open spec fn has_missing_parent(checks: Seq<ParentCheck>) -> bool {
    exists|i: int| 0 <= i < checks.len() && (#[trigger] checks[i]).parent is None
}

/// The check found the parent directory `p`, and it is not the library's
/// directory.
pub open spec fn marks_invalid(c: ParentCheck, p: Seq<char>) -> bool {
    &&& !c.matches_library
    &&& c.parent matches Some(q) && q@ == p
}

/// `p` is the parent directory of some series, and it is not the library's
/// directory.
pub open spec fn is_invalid_parent(checks: Seq<ParentCheck>, p: Seq<char>) -> bool {
    exists|i: int| 0 <= i < checks.len() && marks_invalid(#[trigger] checks[i], p)
}

/// Whether `list` holds a string equal to `s`.
fn list_contains(list: &Vec<String>, s: &String) -> (res: bool)
    ensures
        res == string_views(list@).contains(s@),
{
    let mut i: usize = 0;
    while i < list.len()
        invariant
            i <= list.len(),
            forall|j: int| 0 <= j < i ==> list@[j]@ != s@,
        decreases list.len() - i,
    {
        if list[i] == *s {
            assert(string_views(list@)[i as int] == s@);
            return true;
        }
        i = i + 1;
    }
    assert forall|j: int| 0 <= j < string_views(list@).len() implies string_views(list@)[j] != s@ by {
        assert(list@[j]@ != s@);
    }
    false
}

/// The parent directories of series that lie outside the library's
/// directory, each listed once; `None` when some series' path has no parent
/// directory.
pub fn invalid_parents(checks: &Vec<ParentCheck>) -> (res: Option<Vec<String>>)
    ensures
        res is None <==> has_missing_parent(checks@),
        res matches Some(v) ==> {
            &&& string_views(v@).no_duplicates()
            &&& forall|p: Seq<char>| #[trigger] string_views(v@).contains(p) <==> is_invalid_parent(checks@, p)
        },
{
    let mut found: Vec<String> = Vec::new();
    let mut i: usize = 0;
    while i < checks.len()
        invariant
            i <= checks.len(),
            forall|j: int| 0 <= j < i ==> (#[trigger] checks@[j]).parent is Some,
            string_views(found@).no_duplicates(),
            forall|p: Seq<char>| #[trigger] string_views(found@).contains(p) <==> is_invalid_parent(checks@.take(i as int), p),
        decreases checks.len() - i,
    {
        let check = &checks[i];
        proof {
            assert forall|p: Seq<char>| #[trigger] is_invalid_parent(checks@.take(i + 1), p) <==>
                (is_invalid_parent(checks@.take(i as int), p) || marks_invalid(*check, p)) by {
                if is_invalid_parent(checks@.take(i + 1), p) {
                    let j = choose|j: int| 0 <= j < checks@.take(i + 1).len() && marks_invalid(#[trigger] checks@.take(i + 1)[j], p);
                    if j < i {
                        assert(checks@.take(i as int)[j] == checks@.take(i + 1)[j]);
                    }
                }
                if is_invalid_parent(checks@.take(i as int), p) {
                    let j = choose|j: int| 0 <= j < checks@.take(i as int).len() && marks_invalid(#[trigger] checks@.take(i as int)[j], p);
                    assert(checks@.take(i + 1)[j] == checks@.take(i as int)[j]);
                }
                if marks_invalid(*check, p) {
                    assert(checks@.take(i + 1)[i as int] == *check);
                }
            }
        }
        match &check.parent {
            None => {
                assert(checks@[i as int].parent is None);
                return None;
            },
            Some(parent) => {
                if !check.matches_library && !list_contains(&found, parent) {
                    let ghost before = string_views(found@);
                    found.push(parent.clone());
                    proof {
                        assert(string_views(found@) =~= before.push(parent@));
                        assert forall|p: Seq<char>| #[trigger] string_views(found@).contains(p) <==> (before.contains(p) || p == parent@) by {
                            broadcast use vstd::seq_lib::lemma_seq_contains_after_push;
                        }
                        assert forall|a: int, b: int| 0 <= a < string_views(found@).len() && 0 <= b < string_views(found@).len() && a != b implies string_views(found@)[a] != string_views(found@)[b] by {
                            if a == before.len() as int {
                                assert(before.contains(before[b]));
                            } else if b == before.len() as int {
                                assert(before.contains(before[a]));
                            }
                        }
                    }
                }
            },
        }
        i = i + 1;
    }
    proof {
        assert(checks@.take(checks@.len() as int) =~= checks@);
    }
    Some(found)
}

/// `s` between double quotes.
pub open spec fn quoted(s: Seq<char>) -> Seq<char> {
    "\""@ + s + "\""@
}

/// The strings, each between double quotes, separated by commas.
pub open spec fn join_quoted(ids: Seq<Seq<char>>) -> Seq<char>
    decreases ids.len(),
{
    if ids.len() == 0 {
        Seq::empty()
    } else if ids.len() == 1 {
        quoted(ids[0])
    } else {
        join_quoted(ids.drop_last()) + ","@ + quoted(ids.last())
    }
}

/// The SQL statement that moves the media of the given series from
/// `invalid_path` to `correct_base`.
pub open spec fn media_update_query(
    invalid_path: Seq<char>,
    correct_base: Seq<char>,
    series_ids: Seq<Seq<char>>,
) -> Seq<char> {
    "UPDATE media SET path=REPLACE(path, \""@ + invalid_path + "\", \""@ + correct_base
        + "\") WHERE seriesId in ("@ + join_quoted(series_ids) + ")"@
}

/// The SQL statement that replaces `invalid_path` by `correct_base` in the
/// paths of the media of the series with the given ids.
pub fn media_path_update_query(invalid_path: &str, correct_base: &str, series_ids: &Vec<String>) -> (res: String)
    ensures
        res@ == media_update_query(invalid_path@, correct_base@, string_views(series_ids@)),
{
    let mut q = String::from_str("UPDATE media SET path=REPLACE(path, \"");
    q.append(invalid_path);
    q.append("\", \"");
    q.append(correct_base);
    q.append("\") WHERE seriesId in (");
    let ghost head = q@;
    let ghost ids = string_views(series_ids@);
    let mut i: usize = 0;
    assert(ids.take(0) =~= Seq::<Seq<char>>::empty());
    while i < series_ids.len()
        invariant
            i <= series_ids.len(),
            ids == string_views(series_ids@),
            q@ == head + join_quoted(ids.take(i as int)),
        decreases series_ids.len() - i,
    {
        proof {
            assert(ids.take(i + 1).drop_last() =~= ids.take(i as int));
            assert(ids.take(i + 1).last() == series_ids@[i as int]@);
        }
        if i > 0 {
            q.append(",");
        }
        q.append("\"");
        q.append(series_ids[i].as_str());
        q.append("\"");
        proof {
            if i == 0 {
                assert(ids.take(1).len() == 1);
                assert(q@ =~= head + join_quoted(ids.take(1)));
            } else {
                assert(q@ =~= head + join_quoted(ids.take(i + 1)));
            }
        }
        i = i + 1;
    }
    q.append(")");
    assert(ids.take(ids.len() as int) =~= ids);
    assert(q@ =~= media_update_query(invalid_path@, correct_base@, ids));
    q
}

/// What a parent lookup may give for `path` against the library's
/// directory `library_path`, on every platform: no parent, or a proper
/// prefix of the path; the library's directory only when a parent was
/// found, and always when the parent is spelled exactly as the library's
/// directory.
pub open spec fn plausible_check(c: ParentCheck, path: Seq<char>, library_path: Seq<char>) -> bool {
    &&& c.parent matches Some(p) ==> p@.len() < path.len() && p@ == path.subrange(0, p@.len() as int)
    &&& c.matches_library ==> c.parent is Some
    &&& c.parent matches Some(p) ==> (p@ == library_path ==> c.matches_library)
}

/// The check records a parent lookup of `path` and, when a parent was
/// found, its comparison with `library_path`.
pub open spec fn check_from_lookups(c: ParentCheck, path: Seq<char>, library_path: Seq<char>) -> bool {
    &&& parent_outcome(path, optional_view(c.parent))
    &&& match c.parent {
        Some(p) => same_path_outcome(p@, library_path, c.matches_library),
        None => !c.matches_library,
    }
}

/// Looks up, for each series path, its parent directory and whether that
/// is the library's directory `library_path`.
pub fn survey_series_parents(library_path: &str, series_paths: &Vec<String>) -> (res: Vec<ParentCheck>)
    ensures
        res@.len() == series_paths@.len(),
        forall|i: int| 0 <= i < res@.len() ==> check_from_lookups(#[trigger] res@[i], series_paths@[i]@, library_path@),
        forall|i: int| 0 <= i < res@.len() ==> plausible_check(#[trigger] res@[i], series_paths@[i]@, library_path@),
{
    let mut checks: Vec<ParentCheck> = Vec::new();
    let mut i: usize = 0;
    while i < series_paths.len()
        invariant
            i <= series_paths.len(),
            checks@.len() == i,
            forall|j: int| 0 <= j < i ==> plausible_check(#[trigger] checks@[j], series_paths@[j]@, library_path@),
            forall|j: int| 0 <= j < i ==> check_from_lookups(#[trigger] checks@[j], series_paths@[j]@, library_path@),
        decreases series_paths.len() - i,
    {
        let parent = parent_of(series_paths[i].as_str());
        let matches_library = match &parent {
            Some(p) => same_path(p.as_str(), library_path),
            None => false,
        };
        checks.push(ParentCheck { parent, matches_library });
        i = i + 1;
    }
    checks
}

/// The paths of the series, in order.
fn series_paths(series: &Vec<Series>) -> (res: Vec<String>)
    ensures
        string_views(res@) == series_views(series@).map_values(|s: SeriesView| s.path),
{
    let mut paths: Vec<String> = Vec::new();
    let mut i: usize = 0;
    while i < series.len()
        invariant
            i <= series.len(),
            paths@.len() == i,
            forall|j: int| 0 <= j < i ==> #[trigger] paths@[j]@ == series@[j].path@,
        decreases series.len() - i,
    {
        paths.push(series[i].path.clone());
        i = i + 1;
    }
    assert(string_views(paths@) =~= series_views(series@).map_values(|s: SeriesView| s.path));
    paths
}

/// The ids of the series, in order.
fn series_ids(series: &Vec<Series>) -> (res: Vec<String>)
    ensures
        string_views(res@) == series_views(series@).map_values(|s: SeriesView| s.id),
{
    let mut ids: Vec<String> = Vec::new();
    let mut i: usize = 0;
    while i < series.len()
        invariant
            i <= series.len(),
            ids@.len() == i,
            forall|j: int| 0 <= j < i ==> #[trigger] ids@[j]@ == series@[j].id@,
        decreases series.len() - i,
    {
        ids.push(series[i].id.clone());
        i = i + 1;
    }
    assert(string_views(ids@) =~= series_views(series@).map_values(|s: SeriesView| s.id));
    ids
}

/// Why a precheck cannot go on; the caller stops there.
#[derive(Debug)]
pub enum PrecheckFault {
    /// The library was found without its series.
    SeriesNotLoaded,
    /// The path of a series has no parent directory.
    SeriesWithoutParent,
    /// The library was not found again once its paths were rewritten.
    LibraryVanished,
}

/// What the caller of a precheck reports back after doing an action.
pub enum PrecheckEvent {
    /// The precheck starts.
    Begin,
    /// The library at the checked path was looked up in the database.
    LibraryFound(Option<Library>),
    /// Whether the library's directory exists on disk.
    PathChecked(bool),
    /// The parent directories of the library's series, in the order of the
    /// series.
    SeriesSurveyed(Vec<ParentCheck>),
    /// The library was marked as missing in the database.
    MarkedMissing,
    /// The paths of the last rewrite were updated in the database.
    PathsRewritten,
    /// The database operation of the last action failed.
    Failed(ApiError),
}

/// What the caller of a precheck is to do next.
pub enum PrecheckAction {
    /// Look the library at `path` up in the database, with its series and
    /// their media.
    FindLibrary { path: String },
    /// Check whether `path` exists on disk.
    CheckPathExists { path: String },
    /// Mark the library as missing in the database.
    MarkLibraryMissing { library: Library },
    /// Look up the parent directory of each series path against the
    /// library's directory (see [`survey_series_parents`]).
    SurveySeries { library_path: String, series_paths: Vec<String> },
    /// Replace `invalid_path` by `correct_base` in the paths of the series
    /// of the library with id `library_id`, then run `media_query`.
    RewritePaths { invalid_path: String, correct_base: String, library_id: String, media_query: String },
    /// Stop: the precheck cannot go on.
    Fail(PrecheckFault),
    /// The precheck is over, with this result.
    Finish(Result<Library, ApiError>),
}

/// Where a precheck stands.
pub enum PrecheckStage {
    Start,
    FindingLibrary,
    CheckingPath,
    MarkingMissing,
    Surveying,
    Rewriting,
    Refetching,
    Done,
}

/// The rewrites that a precheck performs: the series of library
/// `library_id` that lie in `invalid_paths` are moved to `correct_base`;
/// `current` is the one under way.
pub struct RewritePlan {
    pub library_id: Seq<char>,
    pub correct_base: Seq<char>,
    pub series_ids: Seq<Seq<char>>,
    pub invalid_paths: Seq<Seq<char>>,
    pub current: int,
}

enum PrecheckState {
    Start,
    FindingLibrary,
    CheckingPath { library: Library },
    MarkingMissing,
    Surveying { library: Library },
    Rewriting {
        library_id: String,
        correct_base: String,
        series_ids: Vec<String>,
        invalid_paths: Vec<String>,
        current: usize,
    },
    Refetching,
    Done,
}

/// The events that a precheck accepts at each stage.
pub open spec fn accepts(stage: PrecheckStage, event: PrecheckEvent) -> bool {
    match stage {
        PrecheckStage::Start => event is Begin,
        PrecheckStage::FindingLibrary => event is LibraryFound || event is Failed,
        PrecheckStage::CheckingPath => event is PathChecked,
        PrecheckStage::MarkingMissing => event is MarkedMissing || event is Failed,
        PrecheckStage::Surveying => event is SeriesSurveyed,
        PrecheckStage::Rewriting => event is PathsRewritten || event is Failed,
        PrecheckStage::Refetching => event is LibraryFound || event is Failed,
        PrecheckStage::Done => false,
    }
}

/// `action` performs the rewrite under way in `plan`.
pub open spec fn performs_rewrite(plan: RewritePlan, action: PrecheckAction) -> bool {
    action matches PrecheckAction::RewritePaths { invalid_path, correct_base, library_id, media_query }
        && invalid_path@ == plan.invalid_paths[plan.current]
        && correct_base@ == plan.correct_base
        && library_id@ == plan.library_id
        && media_query@ == media_update_query(invalid_path@, correct_base@, plan.series_ids)
}

/// The outcome of a precheck once the library's directory was found on
/// disk and the parent directories of its series were looked up as
/// `checks`.
pub open spec fn survey_outcome(
    lib: LibraryView,
    checks: Seq<ParentCheck>,
    next: Precheck,
    action: PrecheckAction,
) -> bool {
    &&& lib.series is Some
    &&& checks.len() == lib.series->0.len()
    &&& if has_missing_parent(checks) {
        &&& next.stage() is Done
        &&& action matches PrecheckAction::Fail(PrecheckFault::SeriesWithoutParent)
    } else if forall|p: Seq<char>| !is_invalid_parent(checks, p) {
        &&& next.stage() is Done
        &&& action matches PrecheckAction::Finish(Ok(l)) && l@ == lib
    } else {
        let plan = next.rewrite_plan();
        &&& next.stage() is Rewriting
        &&& plan.library_id == lib.id
        &&& plan.correct_base == lib.path
        &&& plan.series_ids == lib.series->0.map_values(|s: SeriesView| s.id)
        &&& plan.invalid_paths.no_duplicates()
        &&& forall|p: Seq<char>| #[trigger] plan.invalid_paths.contains(p) <==> is_invalid_parent(checks, p)
        &&& plan.current == 0
        &&& performs_rewrite(plan, action)
    }
}

/// The check run before a library at a given path is scanned, as a state
/// machine: each call of `step` takes the result of the last action and
/// gives the next action.
pub struct Precheck {
    path: String,
    state: PrecheckState,
}

impl Precheck {
    /// Where the precheck stands.
    pub closed spec fn stage(&self) -> PrecheckStage {
        match self.state {
            PrecheckState::Start => PrecheckStage::Start,
            PrecheckState::FindingLibrary => PrecheckStage::FindingLibrary,
            PrecheckState::CheckingPath { .. } => PrecheckStage::CheckingPath,
            PrecheckState::MarkingMissing => PrecheckStage::MarkingMissing,
            PrecheckState::Surveying { .. } => PrecheckStage::Surveying,
            PrecheckState::Rewriting { .. } => PrecheckStage::Rewriting,
            PrecheckState::Refetching => PrecheckStage::Refetching,
            PrecheckState::Done => PrecheckStage::Done,
        }
    }

    /// The path of the library being checked.
    pub closed spec fn spec_path(&self) -> Seq<char> {
        self.path@
    }

    /// The library found, while its directory and the parent directories
    /// of its series are being checked.
    pub closed spec fn held_library(&self) -> LibraryView {
        match self.state {
            PrecheckState::CheckingPath { library } => library@,
            PrecheckState::Surveying { library } => library@,
            _ => arbitrary(),
        }
    }

    /// The rewrites, while they are under way.
    pub closed spec fn rewrite_plan(&self) -> RewritePlan {
        match self.state {
            PrecheckState::Rewriting { library_id, correct_base, series_ids, invalid_paths, current } => RewritePlan {
                library_id: library_id@,
                correct_base: correct_base@,
                series_ids: string_views(series_ids@),
                invalid_paths: string_views(invalid_paths@),
                current: current as int,
            },
            _ => arbitrary(),
        }
    }

    /// A rewrite under way is one of the planned ones, and the series of a
    /// library being surveyed were loaded.
    pub closed spec fn wf(&self) -> bool {
        match self.state {
            PrecheckState::Rewriting { invalid_paths, current, .. } => current < invalid_paths@.len(),
            PrecheckState::Surveying { library } => library@.series is Some,
            _ => true,
        }
    }

    /// A precheck of the library at `path`, not started yet.
    pub fn new(path: String) -> (res: Precheck)
        ensures
            res.wf(),
            res.stage() is Start,
            res.spec_path() == path@,
    {
        Precheck { path, state: PrecheckState::Start }
    }

    /// Whether the precheck is over.
    pub fn is_done(&self) -> (res: bool)
        ensures
            res == self.stage() is Done,
    {
        match self.state {
            PrecheckState::Done => true,
            _ => false,
        }
    }

    /// The action for the rewrite under way.
    fn rewrite_action(
        library_id: &String,
        correct_base: &String,
        series_ids: &Vec<String>,
        invalid_paths: &Vec<String>,
        current: usize,
    ) -> (res: PrecheckAction)
        requires
            current < invalid_paths@.len(),
        ensures
            performs_rewrite(
                RewritePlan {
                    library_id: library_id@,
                    correct_base: correct_base@,
                    series_ids: string_views(series_ids@),
                    invalid_paths: string_views(invalid_paths@),
                    current: current as int,
                },
                res,
            ),
    {
        let invalid_path = invalid_paths[current].clone();
        let media_query = media_path_update_query(invalid_path.as_str(), correct_base.as_str(), series_ids);
        PrecheckAction::RewritePaths {
            invalid_path,
            correct_base: correct_base.clone(),
            library_id: library_id.clone(),
            media_query,
        }
    }

    /// The precheck of the library at `path` once its directory was found
    /// on disk and the parent directories of its series were looked up as
    /// `checks`.
    pub fn after_survey(path: String, library: Library, checks: &Vec<ParentCheck>) -> (res: (Precheck, PrecheckAction))
        requires
            library@.series is Some,
            checks@.len() == library@.series->0.len(),
        ensures
            res.0.wf(),
            res.0.spec_path() == path@,
            survey_outcome(library@, checks@, res.0, res.1),
            rewrites_misplaced(checks@, res.0, res.1),
            finishes_only_in_place(library@, checks@, res.1),
    {
        let ghost lib = library@;
        let ids = match &library.series {
            Some(list) => series_ids(list),
            None => Vec::new(),
        };
        let res = match invalid_parents(checks) {
                None => {
                    let next = Precheck { path, state: PrecheckState::Done };
                    let action = PrecheckAction::Fail(PrecheckFault::SeriesWithoutParent);
                    (next, action)
                },
                Some(invalid_paths) => {
                    if invalid_paths.len() == 0 {
                        let next = Precheck { path, state: PrecheckState::Done };
                        proof {
                            assert forall|p: Seq<char>| !is_invalid_parent(checks@, p) by {
                                if is_invalid_parent(checks@, p) {
                                    assert(string_views(invalid_paths@).contains(p));
                                }
                            }
                        }
                        let action = PrecheckAction::Finish(Ok(library));
                        (next, action)
                    } else {
                        let library_id = library.id.clone();
                        let correct_base = library.path.clone();
                        let action = Self::rewrite_action(&library_id, &correct_base, &ids, &invalid_paths, 0);
                        let next = Precheck {
                            path,
                            state: PrecheckState::Rewriting {
                                library_id,
                                correct_base,
                                series_ids: ids,
                                invalid_paths,
                                current: 0,
                            },
                        };
                        proof {
                            assert(next.rewrite_plan().invalid_paths.contains(next.rewrite_plan().invalid_paths[0]));
                            assert(!(forall|p: Seq<char>| !is_invalid_parent(checks@, p)));
                        }
                        (next, action)
                    }
                },
            }
;
        proof {
            law_misplaced_series_are_rewritten(lib, checks@, res.0, res.1);
        }
        res
    }

    /// Takes the result of the last action and gives the next action.
    pub fn step(self, event: PrecheckEvent) -> (res: (Precheck, PrecheckAction))
        requires
            self.wf(),
            accepts(self.stage(), event),
            self.stage() is Surveying ==> (event matches PrecheckEvent::SeriesSurveyed(checks)
                ==> checks@.len() == self.held_library().series->0.len()),
        ensures
            res.0.wf(),
            res.0.spec_path() == self.spec_path(),
            self.stage() is Start ==> {
                &&& res.0.stage() is FindingLibrary
                &&& res.1 matches PrecheckAction::FindLibrary { path } && path@ == self.spec_path()
            },
            self.stage() is FindingLibrary ==> (event matches PrecheckEvent::LibraryFound(found) ==> match found {
                None => {
                    &&& res.0.stage() is Done
                    &&& res.1 matches PrecheckAction::Finish(Err(ApiError::NotFound(m)))
                    &&& m@ == "Library not found: "@ + self.spec_path()
                },
                Some(lib) => {
                    &&& res.0.stage() is CheckingPath
                    &&& res.0.held_library() == lib@
                    &&& res.1 matches PrecheckAction::CheckPathExists { path } && path@ == self.spec_path()
                },
            }),
            self.stage() is CheckingPath ==> (event matches PrecheckEvent::PathChecked(exists) ==> if exists {
                &&& (self.held_library().series is None ==> {
                    &&& res.0.stage() is Done
                    &&& res.1 matches PrecheckAction::Fail(PrecheckFault::SeriesNotLoaded)
                })
                &&& (self.held_library().series is Some ==> {
                    &&& res.0.stage() is Surveying
                    &&& res.0.held_library() == self.held_library()
                    &&& res.1 matches PrecheckAction::SurveySeries { library_path, series_paths }
                        && library_path@ == self.held_library().path
                        && string_views(series_paths@) == self.held_library().series->0.map_values(
                        |s: SeriesView| s.path,
                    )
                })
            } else {
                &&& res.0.stage() is MarkingMissing
                &&& res.1 matches PrecheckAction::MarkLibraryMissing { library } && library@ == self.held_library()
            }),
            self.stage() is Surveying ==> (event matches PrecheckEvent::SeriesSurveyed(checks) ==> {
                &&& survey_outcome(self.held_library(), checks@, res.0, res.1)
                &&& rewrites_misplaced(checks@, res.0, res.1)
                &&& finishes_only_in_place(self.held_library(), checks@, res.1)
            }),
            self.stage() is MarkingMissing && event is MarkedMissing ==> {
                &&& res.0.stage() is Done
                &&& res.1 matches PrecheckAction::Finish(Err(ApiError::InternalServerError(m)))
                &&& m@ == "Library path does not exist in fs: "@ + self.spec_path()
            },
            self.stage() is Rewriting && event is PathsRewritten ==> {
                let plan = self.rewrite_plan();
                if plan.current + 1 < plan.invalid_paths.len() {
                    &&& res.0.stage() is Rewriting
                    &&& res.0.rewrite_plan() == RewritePlan { current: plan.current + 1, ..plan }
                    &&& performs_rewrite(res.0.rewrite_plan(), res.1)
                } else {
                    &&& res.0.stage() is Refetching
                    &&& res.1 matches PrecheckAction::FindLibrary { path } && path@ == self.spec_path()
                }
            },
            self.stage() is Refetching ==> (event matches PrecheckEvent::LibraryFound(found) ==> {
                &&& res.0.stage() is Done
                &&& match found {
                    None => res.1 matches PrecheckAction::Fail(PrecheckFault::LibraryVanished),
                    Some(lib) => res.1 matches PrecheckAction::Finish(Ok(l)) && l@ == lib@,
                }
            }),
            event matches PrecheckEvent::Failed(e) ==> {
                &&& res.0.stage() is Done
                &&& res.1 == PrecheckAction::Finish(Err(e))
            },
    {
        let Precheck { path, state } = self;
        match event {
            PrecheckEvent::Failed(e) => {
                (Precheck { path, state: PrecheckState::Done }, PrecheckAction::Finish(Err(e)))
            },
            PrecheckEvent::Begin => {
                let action = PrecheckAction::FindLibrary { path: path.clone() };
                (Precheck { path, state: PrecheckState::FindingLibrary }, action)
            },
            PrecheckEvent::LibraryFound(found) => match state {
                PrecheckState::FindingLibrary => match found {
                    None => {
                        let mut m = String::from_str("Library not found: ");
                        m.append(path.as_str());
                        (Precheck { path, state: PrecheckState::Done }, PrecheckAction::Finish(Err(ApiError::NotFound(m))))
                    },
                    Some(library) => {
                        let action = PrecheckAction::CheckPathExists { path: path.clone() };
                        (Precheck { path, state: PrecheckState::CheckingPath { library } }, action)
                    },
                },
                _ => match found {
                    None => (Precheck { path, state: PrecheckState::Done }, PrecheckAction::Fail(PrecheckFault::LibraryVanished)),
                    Some(library) => (Precheck { path, state: PrecheckState::Done }, PrecheckAction::Finish(Ok(library))),
                },
            },
            PrecheckEvent::PathChecked(exists) => match state {
                PrecheckState::CheckingPath { library } => {
                    if exists {
                        let series_paths = match &library.series {
                            Some(list) => series_paths(list),
                            None => {
                                return (
                                    Precheck { path, state: PrecheckState::Done },
                                    PrecheckAction::Fail(PrecheckFault::SeriesNotLoaded),
                                );
                            },
                        };
                        let action = PrecheckAction::SurveySeries { library_path: library.path.clone(), series_paths };
                        (Precheck { path, state: PrecheckState::Surveying { library } }, action)
                    } else {
                        (Precheck { path, state: PrecheckState::MarkingMissing }, PrecheckAction::MarkLibraryMissing { library })
                    }
                },
                _ => (Precheck { path, state: PrecheckState::Done }, PrecheckAction::Fail(PrecheckFault::SeriesNotLoaded)),
            },
            PrecheckEvent::SeriesSurveyed(checks) => match state {
                PrecheckState::Surveying { library } => Self::after_survey(path, library, &checks),
                _ => (Precheck { path, state: PrecheckState::Done }, PrecheckAction::Fail(PrecheckFault::SeriesNotLoaded)),
            },
            PrecheckEvent::MarkedMissing => {
                let mut m = String::from_str("Library path does not exist in fs: ");
                m.append(path.as_str());
                (Precheck { path, state: PrecheckState::Done }, PrecheckAction::Finish(Err(ApiError::InternalServerError(m))))
            },
            PrecheckEvent::PathsRewritten => match state {
                PrecheckState::Rewriting { library_id, correct_base, series_ids, invalid_paths, current } => {
                    assert(current < invalid_paths@.len());
                    if invalid_paths.len() - current > 1 {
                        let action = Self::rewrite_action(&library_id, &correct_base, &series_ids, &invalid_paths, current + 1);
                        let next = Precheck {
                            path,
                            state: PrecheckState::Rewriting {
                                library_id,
                                correct_base,
                                series_ids,
                                invalid_paths,
                                current: current + 1,
                            },
                        };
                        (next, action)
                    } else {
                        let action = PrecheckAction::FindLibrary { path: path.clone() };
                        (Precheck { path, state: PrecheckState::Refetching }, action)
                    }
                },
                _ => (Precheck { path, state: PrecheckState::Done }, PrecheckAction::Fail(PrecheckFault::LibraryVanished)),
            },
        }
    }
}

/// The rewrites of a precheck touch only the checked library: each one
/// names the library's id, moves paths to the library's directory, and
/// restricts the media update to the library's series.
pub proof fn law_rewrites_stay_in_library(
    lib: LibraryView,
    checks: Seq<ParentCheck>,
    next: Precheck,
    action: PrecheckAction,
)
    requires
        survey_outcome(lib, checks, next, action),
        action is RewritePaths,
    ensures
        action matches PrecheckAction::RewritePaths { invalid_path, correct_base, library_id, media_query } && {
            &&& library_id@ == lib.id
            &&& correct_base@ == lib.path
            &&& media_query@ == media_update_query(
                invalid_path@,
                lib.path,
                lib.series->0.map_values(|s: SeriesView| s.id),
            )
        },
{
}

/// A library whose series all sit in its directory passes the precheck
/// unchanged, with no rewrite.
pub proof fn law_library_in_place_passes(
    lib: LibraryView,
    checks: Seq<ParentCheck>,
    next: Precheck,
    action: PrecheckAction,
)
    requires
        survey_outcome(lib, checks, next, action),
        forall|i: int| 0 <= i < checks.len() ==> (#[trigger] checks[i]).parent is Some && checks[i].matches_library,
    ensures
        next.stage() is Done,
        action matches PrecheckAction::Finish(Ok(l)) && l@ == lib,
{
    assert(!has_missing_parent(checks));
    assert forall|p: Seq<char>| !is_invalid_parent(checks, p) by {
        if is_invalid_parent(checks, p) {
            let i = choose|i: int| 0 <= i < checks.len() && marks_invalid(#[trigger] checks[i], p);
        }
    }
}

/// When every series has a parent directory and some series' parent is not
/// the library's directory, the precheck goes on to rewrite: its next stage
/// is `Rewriting`, and the rewrite under way moves one such parent.
pub open spec fn rewrites_misplaced(checks: Seq<ParentCheck>, next: Precheck, action: PrecheckAction) -> bool {
    (forall|i: int| 0 <= i < checks.len() ==> (#[trigger] checks[i]).parent is Some) && (exists|i: int|
        0 <= i < checks.len() && !(#[trigger] checks[i]).matches_library) ==> {
        &&& next.stage() is Rewriting
        &&& action matches PrecheckAction::RewritePaths { invalid_path, .. } && exists|i: int|
            0 <= i < checks.len() && marks_invalid(#[trigger] checks[i], invalid_path@)
    }
}

/// The precheck finishes after the survey only with the library itself,
/// unchanged, and only when every series' parent is the library's
/// directory; and when every series' parent is, it does finish so.
pub open spec fn finishes_only_in_place(lib: LibraryView, checks: Seq<ParentCheck>, action: PrecheckAction) -> bool {
    &&& action is Finish ==> finishes_with(lib, action) && all_in_place(checks)
    &&& all_in_place(checks) ==> finishes_with(lib, action)
}

/// Every series' parent was found and is the library's directory.
pub open spec fn all_in_place(checks: Seq<ParentCheck>) -> bool {
    forall|i: int| 0 <= i < checks.len() ==> (#[trigger] checks[i]).parent is Some && checks[i].matches_library
}

/// The action finishes the precheck with the library `lib`, unchanged.
pub open spec fn finishes_with(lib: LibraryView, action: PrecheckAction) -> bool {
    action matches PrecheckAction::Finish(Ok(l)) && l@ == lib
}

/// Misplaced series are rewritten, never passed over: after the survey,
/// the precheck finishes (with the library unchanged) exactly when every
/// series sits in the library's directory; when every series has a parent
/// and some parent is elsewhere, it rewrites one of those parents.
pub proof fn law_misplaced_series_are_rewritten(
    lib: LibraryView,
    checks: Seq<ParentCheck>,
    next: Precheck,
    action: PrecheckAction,
)
    requires
        survey_outcome(lib, checks, next, action),
    ensures
        rewrites_misplaced(checks, next, action),
        finishes_only_in_place(lib, checks, action),
{
    if (forall|i: int| 0 <= i < checks.len() ==> (#[trigger] checks[i]).parent is Some) && (exists|i: int|
        0 <= i < checks.len() && !(#[trigger] checks[i]).matches_library) {
        let i = choose|i: int| 0 <= i < checks.len() && !(#[trigger] checks[i]).matches_library;
        assert(checks[i].parent is Some);
        let q = checks[i].parent->0@;
        assert(marks_invalid(checks[i], q));
        assert(is_invalid_parent(checks, q));
        assert(!has_missing_parent(checks));
        let plan = next.rewrite_plan();
        assert(plan.invalid_paths.contains(q));
        assert(plan.invalid_paths.len() > 0);
        assert(plan.invalid_paths.contains(plan.invalid_paths[0]));
        let p0 = plan.invalid_paths[0];
        assert(is_invalid_parent(checks, p0));
        let j = choose|j: int| 0 <= j < checks.len() && marks_invalid(#[trigger] checks[j], p0);
        assert(marks_invalid(checks[j], p0));
    }
    if action is Finish {
        assert(!has_missing_parent(checks));
        assert forall|i: int| 0 <= i < checks.len() implies (#[trigger] checks[i]).parent is Some && checks[i].matches_library by {
            assert(checks[i].parent is Some);
            if !checks[i].matches_library {
                assert(marks_invalid(checks[i], checks[i].parent->0@));
                assert(is_invalid_parent(checks, checks[i].parent->0@));
            }
        }
    }
    if all_in_place(checks) {
        assert(!has_missing_parent(checks));
        assert forall|p: Seq<char>| !is_invalid_parent(checks, p) by {
            if is_invalid_parent(checks, p) {
                let i = choose|i: int| 0 <= i < checks.len() && marks_invalid(#[trigger] checks[i], p);
            }
        }
    }
}

} // verus!
