use stump_core::library_scanner::{
    directory_decision, ClientEvent, EntryCheck, EntryDecision, LibraryScanner, ParallelLibraryScanner, ScanVisits,
};
use stump_core::model::{Library, Media, Series};

fn media(id: &str, path: &str) -> Media {
    Media { id: id.to_string(), path: path.to_string() }
}

fn series(id: &str, path: &str, media: Vec<Media>) -> Series {
    Series { id: id.to_string(), path: path.to_string(), media: Some(media) }
}

fn sample_library() -> Library {
    Library {
        id: "lib1".to_string(),
        path: "/comics".to_string(),
        series: Some(vec![
            series("s1", "/comics/Batman", vec![media("m1", "/comics/Batman/1.cbz"), media("m2", "/comics/Batman/2.cbz")]),
            series("s2", "/comics/Saga", vec![media("m3", "/comics/Saga/1.cbz")]),
        ]),
    }
}

fn runner() -> (String, u64) {
    ("job-7".to_string(), 42)
}

#[test]
fn new_indexes_series_by_path() {
    let scanner = LibraryScanner::new(sample_library(), runner());
    assert_eq!(scanner.get_series("/comics/Batman").map(|s| s.id.clone()), Some("s1".to_string()));
    assert_eq!(scanner.get_series("/comics/Saga").map(|s| s.id.clone()), Some("s2".to_string()));
    assert!(scanner.get_series("/comics/Other").is_none());
    assert_eq!(scanner.library_path(), "/comics");
    assert_eq!(scanner.library_id(), "lib1");
}

#[test]
fn new_indexes_media_by_path() {
    let scanner = LibraryScanner::new(sample_library(), runner());
    assert_eq!(scanner.get_media_by_path("/comics/Batman/2.cbz").map(|m| m.id.clone()), Some("m2".to_string()));
    assert_eq!(scanner.get_media_by_path("/comics/Saga/1.cbz").map(|m| m.id.clone()), Some("m3".to_string()));
    assert!(scanner.get_media_by_path("/comics/Saga/2.cbz").is_none());
}

#[test]
fn later_series_with_same_path_wins() {
    let lib = Library {
        id: "lib1".to_string(),
        path: "/c".to_string(),
        series: Some(vec![series("old", "/c/X", vec![]), series("new", "/c/X", vec![])]),
    };
    let scanner = LibraryScanner::new(lib, runner());
    assert_eq!(scanner.get_series("/c/X").map(|s| s.id.clone()), Some("new".to_string()));
}

#[test]
fn series_id_is_the_closest_holding_series() {
    let lib = Library {
        id: "lib1".to_string(),
        path: "/lib".to_string(),
        series: Some(vec![series("a", "/lib/A", vec![]), series("ab", "/lib/AB", vec![]), series("ab2", "/lib/AB/Two", vec![])]),
    };
    let scanner = LibraryScanner::new(lib, runner());
    assert_eq!(scanner.get_series_id("/lib/AB/1.cbz"), Some("ab".to_string()));
    assert_eq!(scanner.get_series_id("/lib/A/1.cbz"), Some("a".to_string()));
    assert_eq!(scanner.get_series_id("/lib/AB/Two/1.cbz"), Some("ab2".to_string()));
    assert_eq!(scanner.get_series_id("/lib/ABC/1.cbz"), None);
}

#[test]
fn analyzing_event_message() {
    let scanner = LibraryScanner::new(sample_library(), runner());
    match scanner.analyzing_event(4, "<shown>") {
        ClientEvent::JobProgress { runner_id, current, size, message } => {
            assert_eq!(runner_id, "job-7");
            assert_eq!(current, 5);
            assert_eq!(size, 42);
            assert_eq!(message, Some("Analyzing <shown>".to_string()));
        },
        _ => panic!("expected a progress event"),
    }
}

#[test]
fn series_id_of_new_media() {
    let scanner = LibraryScanner::new(sample_library(), runner());
    assert_eq!(scanner.get_series_id("/comics/Saga/3.cbz"), Some("s2".to_string()));
    assert_eq!(scanner.get_series_id("/elsewhere/3.cbz"), None);
}

#[test]
fn progress_event_counts_from_one() {
    let scanner = LibraryScanner::new(sample_library(), runner());
    match scanner.progress_event(0, "/comics/Batman") {
        ClientEvent::JobProgress { runner_id, current, size, message } => {
            assert_eq!(runner_id, "job-7");
            assert_eq!(current, 1);
            assert_eq!(size, 42);
            assert_eq!(message, Some("Analyzing \"/comics/Batman\"".to_string()));
        },
        _ => panic!("expected a progress event"),
    }
    match scanner.progress_event(9, "/comics") {
        ClientEvent::JobProgress { current, .. } => assert_eq!(current, 10),
        _ => panic!("expected a progress event"),
    }
}

#[test]
fn known_series_is_visited() {
    let scanner = LibraryScanner::new(sample_library(), runner());
    let mut visits = ScanVisits::new();
    assert!(matches!(scanner.inspect_entry(&mut visits, "/comics/Saga", true), EntryCheck::KnownSeries));
    assert!(visits.series_visited("s2"));
    assert!(!visits.series_visited("s1"));
}

#[test]
fn unknown_directory_needs_media_check() {
    let scanner = LibraryScanner::new(sample_library(), runner());
    let mut visits = ScanVisits::new();
    assert!(matches!(scanner.inspect_entry(&mut visits, "/comics/New", true), EntryCheck::UnknownDirectory));
    assert!(matches!(directory_decision(false), EntryDecision::SkipEmptyDirectory));
    assert!(matches!(directory_decision(true), EntryDecision::CreateSeries));
}

#[test]
fn file_entry_needs_ignore_check() {
    let scanner = LibraryScanner::new(sample_library(), runner());
    let mut visits = ScanVisits::new();
    assert!(matches!(scanner.inspect_entry(&mut visits, "/comics/Saga/2.cbz", false), EntryCheck::OtherEntry));
}

#[test]
fn ignored_file_is_skipped() {
    let scanner = LibraryScanner::new(sample_library(), runner());
    let mut visits = ScanVisits::new();
    assert!(matches!(scanner.unlisted_entry_decision(&mut visits, "/comics/Saga/.DS_Store", true), EntryDecision::SkipIgnored));
    assert!(!visits.media_visited("m3"));
}

#[test]
fn known_media_is_visited() {
    let scanner = LibraryScanner::new(sample_library(), runner());
    let mut visits = ScanVisits::new();
    assert!(matches!(scanner.unlisted_entry_decision(&mut visits, "/comics/Saga/1.cbz", false), EntryDecision::KnownMedia));
    assert!(visits.media_visited("m3"));
}

#[test]
fn new_media_goes_to_its_series() {
    let scanner = LibraryScanner::new(sample_library(), runner());
    let mut visits = ScanVisits::new();
    match scanner.unlisted_entry_decision(&mut visits, "/comics/Batman/3.cbz", false) {
        EntryDecision::CreateMedia { series_id } => assert_eq!(series_id, "s1"),
        _ => panic!("expected a new media file"),
    }
}

#[test]
fn new_media_outside_series() {
    let scanner = LibraryScanner::new(sample_library(), runner());
    let mut visits = ScanVisits::new();
    assert!(matches!(scanner.unlisted_entry_decision(&mut visits, "/comics/loose.cbz", false), EntryDecision::NoSeriesForMedia));
}

#[test]
fn created_series_is_found_again() {
    let mut scanner = LibraryScanner::new(sample_library(), runner());
    let mut visits = ScanVisits::new();
    let event = scanner.record_created_series(&mut visits, series("s9", "/comics/Fables", vec![]));
    match event {
        ClientEvent::CreatedSeries(s) => assert_eq!(s.id, "s9"),
        _ => panic!("expected a series event"),
    }
    assert!(visits.series_visited("s9"));
    assert_eq!(scanner.get_series("/comics/Fables").map(|s| s.id.clone()), Some("s9".to_string()));
    assert_eq!(scanner.get_series_id("/comics/Fables/1.cbz"), Some("s9".to_string()));
    assert!(matches!(scanner.inspect_entry(&mut visits, "/comics/Fables", true), EntryCheck::KnownSeries));
}

#[test]
fn created_media_is_found_again() {
    let mut scanner = LibraryScanner::new(sample_library(), runner());
    let mut visits = ScanVisits::new();
    let event = scanner.record_created_media(&mut visits, media("m9", "/comics/Saga/9.cbz"));
    match event {
        ClientEvent::CreatedMedia(m) => assert_eq!(m.path, "/comics/Saga/9.cbz"),
        _ => panic!("expected a media event"),
    }
    assert!(visits.media_visited("m9"));
    assert_eq!(scanner.get_media_by_path("/comics/Saga/9.cbz").map(|m| m.id.clone()), Some("m9".to_string()));
}

#[test]
fn parallel_scanner_starts_from_library() {
    let scanner = ParallelLibraryScanner::new(sample_library(), runner());
    assert_eq!(scanner.library_path(), "/comics");
}

#[test]
fn series_clone_keeps_media() {
    let s = series("s1", "/c/A", vec![media("m1", "/c/A/1.cbz")]);
    let c = s.clone();
    assert_eq!(c.id, "s1");
    assert_eq!(c.media.unwrap()[0].path, "/c/A/1.cbz");
}
