//! The bookkeeping of a library scan: indexes of the series and media known
//! to the database, and the decisions taken for each filesystem entry that a
//! scan meets.

use vstd::prelude::*;
use vstd::hash_map::StringHashMap;

use crate::model::{Library, LibraryView, Media, MediaView, Series, SeriesView, media_views, series_views};
use crate::series_map::SeriesMap;
use crate::paths::{debug_outcome, debug_path};
use crate::text::holds_path;
use vstd::string::StringExecFns;

verus! {

/// Series keyed by path; a later series with the same path replaces an
/// earlier one.
pub open spec fn index_series(list: Seq<SeriesView>) -> Map<Seq<char>, SeriesView>
    decreases list.len(),
{
    if list.len() == 0 {
        Map::empty()
    } else {
        index_series(list.drop_last()).insert(list.last().path, list.last())
    }
}

/// Media keyed by path; a later media file with the same path replaces an
/// earlier one.
pub open spec fn index_media(list: Seq<MediaView>) -> Map<Seq<char>, MediaView>
    decreases list.len(),
{
    if list.len() == 0 {
        Map::empty()
    } else {
        index_media(list.drop_last()).insert(list.last().path, list.last())
    }
}

/// The media of a series, keyed by path (empty when they were not loaded).
pub open spec fn series_media_index(s: SeriesView) -> Map<Seq<char>, MediaView> {
    match s.media {
        Some(m) => index_media(m),
        None => Map::empty(),
    }
}

/// All media of a list of series, keyed by path, taken series by series in
/// order.
pub open spec fn index_all_media(list: Seq<SeriesView>) -> Map<Seq<char>, MediaView>
    decreases list.len(),
{
    if list.len() == 0 {
        Map::empty()
    } else {
        index_all_media(list.drop_last()).union_prefer_right(series_media_index(list.last()))
    }
}

/// The library's series were loaded, each with its media.
pub open spec fn library_is_loaded(lib: LibraryView) -> bool {
    &&& lib.series is Some
    &&& forall|i: int|
        0 <= i < lib.series->0.len() ==> (#[trigger] lib.series->0[i]).media is Some
}

/// The indexes that a scanner builds from a library, with the library's id
/// and path.
struct LibraryIndex {
    library_id: String,
    library_path: String,
    series_map: SeriesMap,
    media_map: StringHashMap<Media>,
}

/// Every media file sits under its own path.
pub open spec fn media_keys_are_paths(m: Map<Seq<char>, Media>) -> bool {
    forall|k: Seq<char>| #[trigger] m.contains_key(k) ==> m[k].path@ == k
}

/// The values of a media map, by their views.
pub open spec fn media_map_view(m: Map<Seq<char>, Media>) -> Map<Seq<char>, MediaView> {
    m.map_values(|x: Media| x@)
}

proof fn lemma_take_last<A>(s: Seq<A>, i: int)
    requires
        0 <= i < s.len(),
    ensures
        s.take(i + 1).drop_last() == s.take(i),
        s.take(i + 1).last() == s[i],
{
    assert(s.take(i + 1).drop_last() =~= s.take(i));
}

/// Builds the series and media indexes of a library.
fn index_library(library: Library) -> (res: LibraryIndex)
    requires
        library_is_loaded(library@),
    ensures
        res.series_map.wf(),
        res.series_map@ == index_series(library@.series->0),
        media_map_view(res.media_map@) == index_all_media(library@.series->0),
        media_keys_are_paths(res.media_map@),
        res.library_id@ == library@.id,
        res.library_path@ == library@.path,
{
    let ghost lib = library@;
    let Library { id, path, series } = library;
    let series_list = match series {
        Some(list) => list,
        None => Vec::new(),
    };
    let ghost all = series_views(series_list@);
    assert(all == lib.series->0);
    let mut series_map = SeriesMap::new();
    let mut media_map: StringHashMap<Media> = StringHashMap::new();
    assert(media_map_view(media_map@) =~= Map::<Seq<char>, MediaView>::empty());
    assert(all.take(0) =~= Seq::<SeriesView>::empty());
    for s in iter: series_list
        invariant
            iter.seq() == series_list@,
            all == series_views(series_list@),
            library_is_loaded(lib),
            all == lib.series->0,
            series_map.wf(),
            series_map@ == index_series(all.take(iter.index() as int)),
            media_map_view(media_map@) == index_all_media(all.take(iter.index() as int)),
            media_keys_are_paths(media_map@),
    {
        let ghost i = iter.index() as int;
        let ghost before = media_map_view(media_map@);
        proof {
            lemma_take_last(all, i);
            assert(all[i] == s@);
            assert(lib.series->0[i].media is Some);
        }
        match &s.media {
            Some(list) => {
                let mut j: usize = 0;
                assert(media_views(list@).take(0) =~= Seq::<MediaView>::empty());
                while j < list.len()
                    invariant
                        j <= list.len(),
                        media_keys_are_paths(media_map@),
                        media_map_view(media_map@) == before.union_prefer_right(
                            index_media(media_views(list@).take(j as int)),
                        ),
                    decreases list.len() - j,
                {
                    let m = list[j].clone();
                    let ghost mv = m@;
                    let ghost prev = media_map@;
                    let k = m.path.clone();
                    media_map.insert(k, m);
                    proof {
                        lemma_take_last(media_views(list@), j as int);
                        assert(media_views(list@)[j as int] == mv);
                        assert(media_map_view(media_map@) =~= media_map_view(prev).insert(mv.path, mv));
                        assert(media_map_view(media_map@) =~= before.union_prefer_right(
                            index_media(media_views(list@).take(j + 1)),
                        ));
                    }
                    j = j + 1;
                }
                proof {
                    assert(media_views(list@).take(list@.len() as int) =~= media_views(list@));
                }
            },
            None => {},
        }
        proof {
            assert(series_media_index(s@) == series_media_index(all[i]));
            assert(media_map_view(media_map@) =~= index_all_media(all.take(i + 1)));
        }
        series_map.insert(s);
        proof {
            assert(series_map@ =~= index_series(all.take(i + 1)));
        }
    }
    proof {
        assert(all.take(all.len() as int) =~= all);
    }
    LibraryIndex { library_id: id, library_path: path, series_map, media_map }
}

/// Indexing series by path: a path is indexed exactly when some series has
/// it, and the series found under it is the last one with that path.
pub proof fn law_series_found_by_path(list: Seq<SeriesView>, p: Seq<char>)
    ensures
        index_series(list).contains_key(p) <==> exists|i: int| 0 <= i < list.len() && (#[trigger] list[i]).path == p,
        index_series(list).contains_key(p) ==> exists|i: int|
            0 <= i < list.len() && (#[trigger] list[i]).path == p && index_series(list)[p] == list[i]
                && forall|j: int| i < j < list.len() ==> (#[trigger] list[j]).path != p,
    decreases list.len(),
{
    if list.len() > 0 {
        let rest = list.drop_last();
        law_series_found_by_path(rest, p);
        if list.last().path == p {
            assert(list[list.len() - 1].path == p);
        } else {
            if index_series(rest).contains_key(p) {
                let i = choose|i: int|
                    0 <= i < rest.len() && (#[trigger] rest[i]).path == p && index_series(rest)[p] == rest[i]
                        && forall|j: int| i < j < rest.len() ==> (#[trigger] rest[j]).path != p;
                assert(list[i] == rest[i]);
                assert forall|j: int| i < j < list.len() implies (#[trigger] list[j]).path != p by {
                    if j < rest.len() {
                        assert(list[j] == rest[j]);
                    }
                }
            }
            if exists|i: int| 0 <= i < list.len() && (#[trigger] list[i]).path == p {
                let i = choose|i: int| 0 <= i < list.len() && (#[trigger] list[i]).path == p;
                assert(i < rest.len());
                assert(rest[i] == list[i]);
            }
        }
    }
}

/// Indexing media by path: a path is indexed exactly when some media file
/// of some series has it.
pub proof fn law_media_found_by_path(list: Seq<SeriesView>, p: Seq<char>)
    ensures
        index_all_media(list).contains_key(p) <==> exists|i: int|
            0 <= i < list.len() && #[trigger] series_media_index(list[i]).contains_key(p),
    decreases list.len(),
{
    if list.len() > 0 {
        let rest = list.drop_last();
        law_media_found_by_path(rest, p);
        if exists|i: int| 0 <= i < list.len() && #[trigger] series_media_index(list[i]).contains_key(p) {
            let i = choose|i: int| 0 <= i < list.len() && #[trigger] series_media_index(list[i]).contains_key(p);
            if i < rest.len() {
                assert(rest[i] == list[i]);
            }
        }
        if index_all_media(rest).contains_key(p) {
            let i = choose|i: int| 0 <= i < rest.len() && #[trigger] series_media_index(rest[i]).contains_key(p);
            assert(rest[i] == list[i]);
        }
        if series_media_index(list.last()).contains_key(p) {
            assert(list[list.len() - 1] == list.last());
        }
    }
}

/// A media index built from a list of media files: a path is indexed
/// exactly when some file of the list has it.
pub proof fn law_media_list_found_by_path(list: Seq<MediaView>, p: Seq<char>)
    ensures
        index_media(list).contains_key(p) <==> exists|i: int| 0 <= i < list.len() && (#[trigger] list[i]).path == p,
    decreases list.len(),
{
    if list.len() > 0 {
        let rest = list.drop_last();
        law_media_list_found_by_path(rest, p);
        if exists|i: int| 0 <= i < list.len() && (#[trigger] list[i]).path == p {
            let i = choose|i: int| 0 <= i < list.len() && (#[trigger] list[i]).path == p;
            if i < rest.len() {
                assert(rest[i] == list[i]);
            }
        }
        if index_media(rest).contains_key(p) {
            let i = choose|i: int| 0 <= i < rest.len() && (#[trigger] rest[i]).path == p;
            assert(rest[i] == list[i]);
        }
        assert(list[list.len() - 1] == list.last());
    }
}

/// Some media file of some series of `list` has the path `p`, and `m` is one
/// such file.
pub open spec fn media_file_at(list: Seq<SeriesView>, p: Seq<char>, m: MediaView) -> bool {
    exists|i: int, j: int|
        0 <= i < list.len() && list[i].media is Some && 0 <= j < list[i].media->0.len()
            && #[trigger] list[i].media->0[j] == m && m.path == p
}

/// Some series of `list` has the path `p`, and `s` is one such series.
pub open spec fn series_at(list: Seq<SeriesView>, p: Seq<char>, s: SeriesView) -> bool {
    exists|i: int| 0 <= i < list.len() && #[trigger] list[i] == s && s.path == p
}

proof fn lemma_index_media_values(list: Seq<MediaView>, p: Seq<char>)
    ensures
        index_media(list).contains_key(p) <==> exists|j: int| 0 <= j < list.len() && (#[trigger] list[j]).path == p,
        index_media(list).contains_key(p) ==> exists|j: int|
            0 <= j < list.len() && (#[trigger] list[j]).path == p && list[j] == index_media(list)[p],
    decreases list.len(),
{
    law_media_list_found_by_path(list, p);
    if list.len() > 0 {
        let rest = list.drop_last();
        lemma_index_media_values(rest, p);
        if list.last().path == p {
            assert(list[list.len() - 1] == list.last());
        } else if index_media(rest).contains_key(p) {
            let j = choose|j: int| 0 <= j < rest.len() && (#[trigger] rest[j]).path == p && rest[j] == index_media(rest)[p];
            assert(list[j] == rest[j]);
        }
    }
}

/// Every media file of every series is indexed, whatever its path: a path
/// is indexed exactly when some media file of some series has it, and what
/// is found under it is such a file.
pub proof fn law_every_media_file_is_indexed(list: Seq<SeriesView>, p: Seq<char>)
    ensures
        index_all_media(list).contains_key(p) <==> exists|m: MediaView| #[trigger] media_file_at(list, p, m),
        index_all_media(list).contains_key(p) ==> media_file_at(list, p, index_all_media(list)[p]),
    decreases list.len(),
{
    if list.len() > 0 {
        let rest = list.drop_last();
        let last = list.last();
        law_every_media_file_is_indexed(rest, p);
        assert(list[list.len() - 1] == last);
        match last.media {
            Some(ms) => {
                lemma_index_media_values(ms, p);
                if index_media(ms).contains_key(p) {
                    let j = choose|j: int| 0 <= j < ms.len() && (#[trigger] ms[j]).path == p && ms[j] == index_media(ms)[p];
                    assert(list[list.len() - 1].media->0[j] == ms[j]);
                    assert(media_file_at(list, p, ms[j]));
                } else if index_all_media(rest).contains_key(p) {
                    let m = index_all_media(rest)[p];
                    let (i, j) = choose|i: int, j: int|
                        0 <= i < rest.len() && rest[i].media is Some && 0 <= j < rest[i].media->0.len()
                            && #[trigger] rest[i].media->0[j] == m && m.path == p;
                    assert(list[i] == rest[i]);
                    assert(media_file_at(list, p, m));
                }
            },
            None => {
                if index_all_media(rest).contains_key(p) {
                    let m = index_all_media(rest)[p];
                    let (i, j) = choose|i: int, j: int|
                        0 <= i < rest.len() && rest[i].media is Some && 0 <= j < rest[i].media->0.len()
                            && #[trigger] rest[i].media->0[j] == m && m.path == p;
                    assert(list[i] == rest[i]);
                    assert(media_file_at(list, p, m));
                }
            },
        }
        if exists|m: MediaView| #[trigger] media_file_at(list, p, m) {
            let m = choose|m: MediaView| #[trigger] media_file_at(list, p, m);
            let (i, j) = choose|i: int, j: int|
                0 <= i < list.len() && list[i].media is Some && 0 <= j < list[i].media->0.len()
                    && #[trigger] list[i].media->0[j] == m && m.path == p;
            if i < rest.len() {
                assert(rest[i] == list[i]);
                assert(media_file_at(rest, p, m));
            } else {
                assert(list[i] == last);
                lemma_index_media_values(last.media->0, p);
                assert(last.media->0[j].path == p);
            }
        }
    }
}

/// Every series is indexed by its path: a path is indexed exactly when some
/// series has it, and what is found under it is such a series.
pub proof fn law_every_series_is_indexed(list: Seq<SeriesView>, p: Seq<char>)
    ensures
        index_series(list).contains_key(p) <==> exists|s: SeriesView| #[trigger] series_at(list, p, s),
        index_series(list).contains_key(p) ==> series_at(list, p, index_series(list)[p]),
{
    law_series_found_by_path(list, p);
    if index_series(list).contains_key(p) {
        let i = choose|i: int|
            0 <= i < list.len() && (#[trigger] list[i]).path == p && index_series(list)[p] == list[i]
                && forall|j: int| i < j < list.len() ==> (#[trigger] list[j]).path != p;
        assert(series_at(list, p, list[i]));
    }
    if exists|s: SeriesView| #[trigger] series_at(list, p, s) {
        let s = choose|s: SeriesView| #[trigger] series_at(list, p, s);
        let i = choose|i: int| 0 <= i < list.len() && #[trigger] list[i] == s && s.path == p;
        assert(list[i].path == p);
    }
}

/// The indexes of a library's series and media, for every path at once.
proof fn lemma_library_indexes(list: Seq<SeriesView>)
    ensures
        forall|p: Seq<char>| #[trigger] index_series(list).contains_key(p) <==> exists|s: SeriesView|
            #[trigger] series_at(list, p, s),
        forall|p: Seq<char>| #[trigger] index_series(list).contains_key(p) ==> series_at(list, p, index_series(list)[p]),
        forall|p: Seq<char>| #[trigger] index_all_media(list).contains_key(p) <==> exists|m: MediaView|
            #[trigger] media_file_at(list, p, m),
        forall|p: Seq<char>| #[trigger] index_all_media(list).contains_key(p) ==> media_file_at(
            list,
            p,
            index_all_media(list)[p],
        ),
{
    assert forall|p: Seq<char>| #[trigger] index_series(list).contains_key(p) <==> exists|s: SeriesView|
        #[trigger] series_at(list, p, s) by {
        law_every_series_is_indexed(list, p);
    }
    assert forall|p: Seq<char>| #[trigger] index_series(list).contains_key(p) implies series_at(list, p, index_series(list)[p]) by {
        law_every_series_is_indexed(list, p);
    }
    assert forall|p: Seq<char>| #[trigger] index_all_media(list).contains_key(p) <==> exists|m: MediaView|
        #[trigger] media_file_at(list, p, m) by {
        law_every_media_file_is_indexed(list, p);
    }
    assert forall|p: Seq<char>| #[trigger] index_all_media(list).contains_key(p) implies media_file_at(list, p, index_all_media(list)[p]) by {
        law_every_media_file_is_indexed(list, p);
    }
}

/// What a scan records is found again: after a record is added to an index
/// under its path, it is found under that path, and every other path finds
/// what it found before.
pub proof fn law_recorded_is_found<V>(before: Map<Seq<char>, V>, after: Map<Seq<char>, V>, path: Seq<char>, v: V)
    requires
        after == before.insert(path, v),
    ensures
        after.contains_key(path),
        after[path] == v,
        forall|k: Seq<char>| before.contains_key(k) ==> #[trigger] after.contains_key(k),
        forall|k: Seq<char>| k != path ==> (#[trigger] after.contains_key(k) <==> before.contains_key(k)),
        forall|k: Seq<char>| k != path && before.contains_key(k) ==> #[trigger] after[k] == before[k],
{
}

/// Some known series' directory holds `path`.
pub open spec fn has_series_for(index: Map<Seq<char>, SeriesView>, path: Seq<char>) -> bool {
    exists|k: Seq<char>| #[trigger] index.contains_key(k) && holds_path(k, path)
}

/// The known series at `k` is the series of `path`: its directory holds
/// `path`, and no known series' directory that holds `path` is deeper.
pub open spec fn is_series_of(index: Map<Seq<char>, SeriesView>, path: Seq<char>, k: Seq<char>) -> bool {
    &&& index.contains_key(k)
    &&& holds_path(k, path)
    &&& forall|k2: Seq<char>| #[trigger] index.contains_key(k2) && holds_path(k2, path) ==> k2.len() <= k.len()
}

/// A media file under a known series' directory has a series: for a known
/// series at `k` and any rest, whatever characters it holds, `k`, a
/// separator and the rest is held by some known series.
pub proof fn law_media_under_a_series_has_a_series(index: Map<Seq<char>, SeriesView>, k: Seq<char>, rest: Seq<char>)
    requires
        index.contains_key(k),
    ensures
        has_series_for(index, k + seq!['/'] + rest),
{
    crate::text::law_directory_holds_what_is_under_it(k, rest);
}

/// A path has at most one series: two known series that both qualify as
/// the series of `path` are the same.
pub proof fn law_series_of_path_is_unique(index: Map<Seq<char>, SeriesView>, path: Seq<char>, a: Seq<char>, b: Seq<char>)
    requires
        is_series_of(index, path, a),
        is_series_of(index, path, b),
    ensures
        a == b,
{
    assert(a.len() == b.len());
    assert(a =~= path.subrange(0, a.len() as int));
    assert(b =~= path.subrange(0, b.len() as int));
}

/// An event that a scan reports to the clients of the server.
pub enum ClientEvent {
    /// Progress of a job: `current` entries handled out of `size`.
    JobProgress { runner_id: String, current: u64, size: u64, message: Option<String> },
    /// A series was added to the database.
    CreatedSeries(Series),
    /// A media file was added to the database.
    CreatedMedia(Media),
}

/// The ids of the series and media that a scan has met so far, each mapped
/// to `true`.
pub struct ScanVisits {
    visited_series: StringHashMap<bool>,
    visited_media: StringHashMap<bool>,
}

impl ScanVisits {
    /// Visited series ids.
    pub closed spec fn series(&self) -> Map<Seq<char>, bool> {
        self.visited_series@
    }

    /// Visited media ids.
    pub closed spec fn media(&self) -> Map<Seq<char>, bool> {
        self.visited_media@
    }

    /// Nothing visited yet.
    pub fn new() -> (res: Self)
        ensures
            res.series() == Map::<Seq<char>, bool>::empty(),
            res.media() == Map::<Seq<char>, bool>::empty(),
    {
        ScanVisits { visited_series: StringHashMap::new(), visited_media: StringHashMap::new() }
    }

    /// Whether the series with this id was met.
    pub fn series_visited(&self, id: &str) -> (res: bool)
        ensures
            res == self.series().contains_key(id@),
    {
        self.visited_series.contains_key(id)
    }

    /// Whether the media file with this id was met.
    pub fn media_visited(&self, id: &str) -> (res: bool)
        ensures
            res == self.media().contains_key(id@),
    {
        self.visited_media.contains_key(id)
    }
}

/// What is known of a filesystem entry once its path has been looked up
/// among the series.
pub enum EntryCheck {
    /// A directory that is no known series: whether it holds media decides.
    UnknownDirectory,
    /// The path of a known series, now recorded as visited.
    KnownSeries,
    /// Any other entry: whether it is to be ignored decides.
    OtherEntry,
}

/// What a scan does with a filesystem entry.
pub enum EntryDecision {
    /// A directory without media: nothing to do.
    SkipEmptyDirectory,
    /// A directory with media: a new series is to be inserted for it.
    CreateSeries,
    /// A file that scans ignore.
    SkipIgnored,
    /// A known media file, now recorded as visited.
    KnownMedia,
    /// A new media file, to be inserted into the series with this id.
    CreateMedia { series_id: String },
    /// A new media file inside no known series.
    NoSeriesForMedia,
}

/// The facts about a filesystem entry that a scan's decision for it rests
/// on: its path, whether it is a directory, whether (as a directory) it
/// holds media, and whether (as a file) scans ignore it.
pub struct EntryFacts {
    pub path: Seq<char>,
    pub is_dir: bool,
    pub has_media: bool,
    pub ignored: bool,
}

/// What a scan does with an entry.
pub enum EntryOutcome {
    SkipEmptyDirectory,
    CreateSeries,
    KnownSeries,
    SkipIgnored,
    KnownMedia,
    CreateMedia,
    NoSeriesForMedia,
}

/// What a scan does with the entry `e` when the known series and media are
/// `series` and `media`: the decisions of [`LibraryScanner::inspect_entry`],
/// [`directory_decision`] and [`LibraryScanner::unlisted_entry_decision`],
/// taken in turn.
pub open spec fn entry_outcome(
    series: Map<Seq<char>, SeriesView>,
    media: Map<Seq<char>, MediaView>,
    e: EntryFacts,
) -> EntryOutcome {
    if e.is_dir && !series.contains_key(e.path) {
        if e.has_media {
            EntryOutcome::CreateSeries
        } else {
            EntryOutcome::SkipEmptyDirectory
        }
    } else if series.contains_key(e.path) {
        EntryOutcome::KnownSeries
    } else if e.ignored {
        EntryOutcome::SkipIgnored
    } else if media.contains_key(e.path) {
        EntryOutcome::KnownMedia
    } else if has_series_for(series, e.path) {
        EntryOutcome::CreateMedia
    } else {
        EntryOutcome::NoSeriesForMedia
    }
}

/// The outcome that a decision stands for.
pub open spec fn decision_outcome(d: EntryDecision) -> EntryOutcome {
    match d {
        EntryDecision::SkipEmptyDirectory => EntryOutcome::SkipEmptyDirectory,
        EntryDecision::CreateSeries => EntryOutcome::CreateSeries,
        EntryDecision::SkipIgnored => EntryOutcome::SkipIgnored,
        EntryDecision::KnownMedia => EntryOutcome::KnownMedia,
        EntryDecision::CreateMedia { .. } => EntryOutcome::CreateMedia,
        EntryDecision::NoSeriesForMedia => EntryOutcome::NoSeriesForMedia,
    }
}

/// The outcome adds nothing to the database.
pub open spec fn creates_nothing(o: EntryOutcome) -> bool {
    o is SkipEmptyDirectory || o is KnownSeries || o is SkipIgnored || o is KnownMedia
}

/// A second scan creates nothing: when an entry is met again with the same
/// facts, against indexes that hold everything held when the first scan
/// met it (a scan only adds to them) and, if the first scan created a
/// series or a media file for it, a record under the entry's path, the
/// second scan's outcome for it creates nothing. (An entry for which the
/// first scan found no series stopped that scan.)
pub proof fn law_second_scan_creates_nothing(
    first_series: Map<Seq<char>, SeriesView>,
    first_media: Map<Seq<char>, MediaView>,
    later_series: Map<Seq<char>, SeriesView>,
    later_media: Map<Seq<char>, MediaView>,
    e: EntryFacts,
)
    requires
        forall|k: Seq<char>| first_series.contains_key(k) ==> #[trigger] later_series.contains_key(k),
        forall|k: Seq<char>| first_media.contains_key(k) ==> #[trigger] later_media.contains_key(k),
        entry_outcome(first_series, first_media, e) is CreateSeries ==> later_series.contains_key(e.path),
        entry_outcome(first_series, first_media, e) is CreateMedia ==> later_media.contains_key(e.path),
        !(entry_outcome(first_series, first_media, e) is NoSeriesForMedia),
    ensures
        creates_nothing(entry_outcome(later_series, later_media, e)),
{
}

/// The decision for a directory that is no known series.
pub fn directory_decision(has_media: bool) -> (res: EntryDecision)
    ensures
        has_media ==> res is CreateSeries,
        !has_media ==> res is SkipEmptyDirectory,
        forall|series: Map<Seq<char>, SeriesView>, media: Map<Seq<char>, MediaView>, e: EntryFacts|
            e.is_dir && !series.contains_key(e.path) && e.has_media == has_media ==> decision_outcome(res)
                == #[trigger] entry_outcome(series, media, e),
{
    if !has_media {
        EntryDecision::SkipEmptyDirectory
    } else {
        EntryDecision::CreateSeries
    }
}

/// Scans a library: walks its directory and brings the series and media of
/// the database in line with what it finds.
pub struct LibraryScanner {
    runner: (String, u64),
    library_id: String,
    library_path: String,
    series_map: SeriesMap,
    media_map: StringHashMap<Media>,
}

impl LibraryScanner {
    /// The indexes are consistent: every series and media file sits under
    /// its own path.
    pub closed spec fn wf(&self) -> bool {
        &&& self.series_map.wf()
        &&& media_keys_are_paths(self.media_map@)
    }

    /// The known series, keyed by path.
    pub closed spec fn series_index(&self) -> Map<Seq<char>, SeriesView> {
        self.series_map@
    }

    /// The known media files, keyed by path.
    pub closed spec fn media_index(&self) -> Map<Seq<char>, MediaView> {
        media_map_view(self.media_map@)
    }

    /// The id of the job that runs the scan.
    pub closed spec fn runner_id(&self) -> Seq<char> {
        self.runner.0@
    }

    /// The number of entries that the job expects to handle.
    pub closed spec fn runner_size(&self) -> u64 {
        self.runner.1
    }

    /// The id of the scanned library.
    pub closed spec fn spec_library_id(&self) -> Seq<char> {
        self.library_id@
    }

    /// The path of the scanned library.
    pub closed spec fn spec_library_path(&self) -> Seq<char> {
        self.library_path@
    }

    /// A scanner for `library`, whose series must have been loaded with
    /// their media; `runner` names the job and the number of entries it
    /// expects.
    pub fn new(library: Library, runner: (String, u64)) -> (res: LibraryScanner)
        requires
            library_is_loaded(library@),
        ensures
            res.wf(),
            res.series_index() == index_series(library@.series->0),
            res.media_index() == index_all_media(library@.series->0),
            forall|p: Seq<char>| #[trigger] res.series_index().contains_key(p) <==> exists|s: SeriesView|
                #[trigger] series_at(library@.series->0, p, s),
            forall|p: Seq<char>| #[trigger] res.series_index().contains_key(p) ==> series_at(
                library@.series->0,
                p,
                res.series_index()[p],
            ),
            forall|p: Seq<char>| #[trigger] res.media_index().contains_key(p) <==> exists|m: MediaView|
                #[trigger] media_file_at(library@.series->0, p, m),
            forall|p: Seq<char>| #[trigger] res.media_index().contains_key(p) ==> media_file_at(
                library@.series->0,
                p,
                res.media_index()[p],
            ),
            res.spec_library_id() == library@.id,
            res.spec_library_path() == library@.path,
            res.runner_id() == runner.0@,
            res.runner_size() == runner.1,
    {
        let ghost list = library@.series->0;
        let idx = index_library(library);
        proof {
            lemma_library_indexes(list);
        }
        LibraryScanner {
            runner,
            library_id: idx.library_id,
            library_path: idx.library_path,
            series_map: idx.series_map,
            media_map: idx.media_map,
        }
    }

    /// A series or media file found under a path has that path.
    pub proof fn law_found_under_own_path(&self, k: Seq<char>)
        requires
            self.wf(),
        ensures
            self.series_index().contains_key(k) ==> self.series_index()[k].path == k,
            self.media_index().contains_key(k) ==> self.media_index()[k].path == k,
    {
        if self.series_map@.contains_key(k) {
            self.series_map.lemma_keys_are_paths(k);
        }
    }

    /// The path of the scanned library.
    pub fn library_path(&self) -> (res: &str)
        ensures
            res@ == self.spec_library_path(),
    {
        self.library_path.as_str()
    }

    /// The id of the scanned library.
    pub fn library_id(&self) -> (res: &str)
        ensures
            res@ == self.spec_library_id(),
    {
        self.library_id.as_str()
    }

    /// The known series at `path`.
    pub fn get_series(&self, path: &str) -> (res: Option<&Series>)
        requires
            self.wf(),
        ensures
            match res {
                Some(s) => self.series_index().contains_key(path@) && s@ == self.series_index()[path@],
                None => !self.series_index().contains_key(path@),
            },
    {
        self.series_map.get(path)
    }

    /// The known media file at `path`.
    pub fn get_media_by_path(&self, path: &str) -> (res: Option<&Media>)
        requires
            self.wf(),
        ensures
            match res {
                Some(m) => self.media_index().contains_key(path@) && m@ == self.media_index()[path@],
                None => !self.media_index().contains_key(path@),
            },
    {
        self.media_map.get(path)
    }

    /// The id of the series of a media file at `path`: the known series
    /// whose directory holds `path` most closely. `None` when no known
    /// series' directory holds it.
    pub fn get_series_id(&self, path: &str) -> (res: Option<String>)
        requires
            self.wf(),
        ensures
            forall|k: Seq<char>|
                #[trigger] self.series_index().contains_key(k) && k.len() < path@.len() && path@.subrange(0, k.len() as int)
                    == k && path@[k.len() as int] == '/' ==> res is Some,
            res is None <==> !has_series_for(self.series_index(), path@),
            res matches Some(id) ==> exists|k: Seq<char>|
                #[trigger] is_series_of(self.series_index(), path@, k) && self.series_index()[k].id == id@,
    {
        let res = self.series_map.find_holder(path);
        proof {
            if res is Some {
                let k = choose|k: Seq<char>|
                    #[trigger] self.series_map@.contains_key(k) && holds_path(k, path@) && self.series_map@[k].id == res->0@
                        && forall|k2: Seq<char>| #[trigger] self.series_map@.contains_key(k2) && holds_path(k2, path@) ==> k2.len() <= k.len();
                assert(is_series_of(self.series_index(), path@, k));
            }
        }
        res
    }

    /// The progress event for the `index`-th (from 0) entry that the scan
    /// meets, whose path is shown as `shown_path`.
    pub fn analyzing_event(&self, index: usize, shown_path: &str) -> (res: ClientEvent)
        requires
            index < usize::MAX,
        ensures
            res matches ClientEvent::JobProgress { runner_id, current, size, message } && {
                &&& runner_id@ == self.runner_id()
                &&& current == index + 1
                &&& size == self.runner_size()
                &&& message matches Some(m) && m@ == "Analyzing "@ + shown_path@
            },
    {
        let mut message = String::from_str("Analyzing ");
        message.append(shown_path);
        ClientEvent::JobProgress {
            runner_id: self.runner.0.clone(),
            current: (index + 1) as u64,
            size: self.runner.1,
            message: Some(message),
        }
    }

    /// The progress event for the entry at `path`, the `index`-th (from 0)
    /// that the scan meets: [`LibraryScanner::analyzing_event`] with the
    /// path shown by std's `Debug` rendering of a path (an outcome of that
    /// rendering; its escapes depend on the platform).
    pub fn progress_event(&self, index: usize, path: &str) -> (res: ClientEvent)
        requires
            index < usize::MAX,
        ensures
            res matches ClientEvent::JobProgress { runner_id, current, size, message } && {
                &&& runner_id@ == self.runner_id()
                &&& current == index + 1
                &&& size == self.runner_size()
                &&& message matches Some(m) && exists|shown: Seq<char>|
                    #[trigger] debug_outcome(path@, shown) && m@ == "Analyzing "@ + shown
            },
    {
        let shown = debug_path(path);
        let res = self.analyzing_event(index, shown.as_str());
        assert(debug_outcome(path@, shown@));
        res
    }

    /// Looks `path` up among the known series. A known series is recorded
    /// as visited.
    pub fn inspect_entry(&self, visits: &mut ScanVisits, path: &str, is_dir: bool) -> (res: EntryCheck)
        requires
            self.wf(),
        ensures
            res is KnownSeries ==> forall|media: Map<Seq<char>, MediaView>, e: EntryFacts|
                e.path == path@ && e.is_dir == is_dir ==> #[trigger] entry_outcome(self.series_index(), media, e)
                    is KnownSeries,
            final(visits).media() == old(visits).media(),
            is_dir && !self.series_index().contains_key(path@) ==> {
                &&& res is UnknownDirectory
                &&& final(visits).series() == old(visits).series()
            },
            self.series_index().contains_key(path@) ==> {
                &&& res is KnownSeries
                &&& final(visits).series() == old(visits).series().insert(
                    self.series_index()[path@].id,
                    true,
                )
            },
            !is_dir && !self.series_index().contains_key(path@) ==> {
                &&& res is OtherEntry
                &&& final(visits).series() == old(visits).series()
            },
    {
        let series = self.get_series(path);
        let series_exists = series.is_some();
        if is_dir && !series_exists {
            return EntryCheck::UnknownDirectory;
        }
        match series {
            Some(s) => {
                visits.visited_series.insert(s.id.clone(), true);
                EntryCheck::KnownSeries
            },
            None => EntryCheck::OtherEntry,
        }
    }

    /// The decision for an entry that is no known series and no directory
    /// to be checked for media. A known media file is recorded as visited.
    pub fn unlisted_entry_decision(&self, visits: &mut ScanVisits, path: &str, ignored: bool) -> (res: EntryDecision)
        requires
            self.wf(),
        ensures
            !self.series_index().contains_key(path@) ==> decision_outcome(res) == entry_outcome(
                self.series_index(),
                self.media_index(),
                EntryFacts { path: path@, is_dir: false, has_media: false, ignored },
            ),
            final(visits).series() == old(visits).series(),
            ignored ==> res is SkipIgnored && final(visits).media() == old(visits).media(),
            !ignored && self.media_index().contains_key(path@) ==> {
                &&& res is KnownMedia
                &&& final(visits).media() == old(visits).media().insert(
                    self.media_index()[path@].id,
                    true,
                )
            },
            !ignored && !self.media_index().contains_key(path@) ==> {
                &&& final(visits).media() == old(visits).media()
                &&& (res is NoSeriesForMedia <==> !has_series_for(self.series_index(), path@))
                &&& (res matches EntryDecision::CreateMedia { series_id } ==> exists|k: Seq<char>|
                    #[trigger] is_series_of(self.series_index(), path@, k) && self.series_index()[k].id == series_id@)
                &&& (res is NoSeriesForMedia || res is CreateMedia)
            },
    {
        if ignored {
            return EntryDecision::SkipIgnored;
        }
        match self.get_media_by_path(path) {
            Some(m) => {
                visits.visited_media.insert(m.id.clone(), true);
                EntryDecision::KnownMedia
            },
            None => match self.get_series_id(path) {
                Some(series_id) => EntryDecision::CreateMedia { series_id },
                None => EntryDecision::NoSeriesForMedia,
            },
        }
    }

    /// Records a series that was just inserted into the database: it is
    /// visited and known from now on. Returns the event that announces it.
    pub fn record_created_series(&mut self, visits: &mut ScanVisits, series: Series) -> (res: ClientEvent)
        requires
            old(self).wf(),
        ensures
            final(self).wf(),
            res matches ClientEvent::CreatedSeries(s) && s@ == series@,
            final(visits).series() == old(visits).series().insert(series.id@, true),
            final(visits).media() == old(visits).media(),
            final(self).series_index() == old(self).series_index().insert(series.path@, series@),
            final(self).media_index() == old(self).media_index(),
            final(self).runner_id() == old(self).runner_id(),
            final(self).runner_size() == old(self).runner_size(),
            final(self).spec_library_id() == old(self).spec_library_id(),
            final(self).spec_library_path() == old(self).spec_library_path(),
    {
        let event = ClientEvent::CreatedSeries(series.clone());
        visits.visited_series.insert(series.id.clone(), true);
        self.series_map.insert(series);
        event
    }

    /// Records a media file that was just inserted into the database: it is
    /// known and visited from now on. Returns the event that announces it.
    pub fn record_created_media(&mut self, visits: &mut ScanVisits, media: Media) -> (res: ClientEvent)
        requires
            old(self).wf(),
        ensures
            final(self).wf(),
            res matches ClientEvent::CreatedMedia(m) && m@ == media@,
            final(visits).media() == old(visits).media().insert(media.id@, true),
            final(visits).series() == old(visits).series(),
            final(self).media_index() == old(self).media_index().insert(media.path@, media@),
            final(self).series_index() == old(self).series_index(),
            final(self).runner_id() == old(self).runner_id(),
            final(self).runner_size() == old(self).runner_size(),
            final(self).spec_library_id() == old(self).spec_library_id(),
            final(self).spec_library_path() == old(self).spec_library_path(),
    {
        let event = ClientEvent::CreatedMedia(media.clone());
        let id = media.id.clone();
        let ghost mv = media@;
        let key = media.path.clone();
        self.media_map.insert(key, media);
        visits.visited_media.insert(id, true);
        assert(self.media_index() =~= old(self).media_index().insert(mv.path, mv));
        event
    }
}

/// A scanner that hands the entries of a library to concurrent tasks; it
/// starts from the same indexes as [`LibraryScanner`].
pub struct ParallelLibraryScanner {
    runner: (String, u64),
    library_id: String,
    library_path: String,
    series_map: SeriesMap,
    media_map: StringHashMap<Media>,
}

impl ParallelLibraryScanner {
    /// The indexes are consistent: every series and media file sits under
    /// its own path.
    pub closed spec fn wf(&self) -> bool {
        &&& self.series_map.wf()
        &&& media_keys_are_paths(self.media_map@)
    }

    /// The known series, keyed by path.
    pub closed spec fn series_index(&self) -> Map<Seq<char>, SeriesView> {
        self.series_map@
    }

    /// The known media files, keyed by path.
    pub closed spec fn media_index(&self) -> Map<Seq<char>, MediaView> {
        media_map_view(self.media_map@)
    }

    /// The id of the job that runs the scan.
    pub closed spec fn runner_id(&self) -> Seq<char> {
        self.runner.0@
    }

    /// The number of entries that the job expects to handle.
    pub closed spec fn runner_size(&self) -> u64 {
        self.runner.1
    }

    /// The id of the scanned library.
    pub closed spec fn spec_library_id(&self) -> Seq<char> {
        self.library_id@
    }

    /// The path of the scanned library.
    pub closed spec fn spec_library_path(&self) -> Seq<char> {
        self.library_path@
    }

    /// A scanner for `library`, whose series must have been loaded with
    /// their media; `runner` names the job and the number of entries it
    /// expects.
    pub fn new(library: Library, runner: (String, u64)) -> (res: ParallelLibraryScanner)
        requires
            library_is_loaded(library@),
        ensures
            res.wf(),
            res.series_index() == index_series(library@.series->0),
            res.media_index() == index_all_media(library@.series->0),
            forall|p: Seq<char>| #[trigger] res.series_index().contains_key(p) <==> exists|s: SeriesView|
                #[trigger] series_at(library@.series->0, p, s),
            forall|p: Seq<char>| #[trigger] res.series_index().contains_key(p) ==> series_at(
                library@.series->0,
                p,
                res.series_index()[p],
            ),
            forall|p: Seq<char>| #[trigger] res.media_index().contains_key(p) <==> exists|m: MediaView|
                #[trigger] media_file_at(library@.series->0, p, m),
            forall|p: Seq<char>| #[trigger] res.media_index().contains_key(p) ==> media_file_at(
                library@.series->0,
                p,
                res.media_index()[p],
            ),
            res.spec_library_id() == library@.id,
            res.spec_library_path() == library@.path,
            res.runner_id() == runner.0@,
            res.runner_size() == runner.1,
    {
        let ghost list = library@.series->0;
        let idx = index_library(library);
        proof {
            lemma_library_indexes(list);
        }
        ParallelLibraryScanner {
            runner,
            library_id: idx.library_id,
            library_path: idx.library_path,
            series_map: idx.series_map,
            media_map: idx.media_map,
        }
    }

    /// The path of the scanned library.
    pub fn library_path(&self) -> (res: &str)
        ensures
            res@ == self.spec_library_path(),
    {
        self.library_path.as_str()
    }
}

} // verus!
