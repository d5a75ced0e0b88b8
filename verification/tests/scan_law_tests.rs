use stump_core::library_scanner::{EntryCheck, EntryDecision, LibraryScanner, ScanVisits};
use stump_core::model::{Library, Media, Series};

/// Runs the scanner's decisions over the entries (path, is_dir, has_media,
/// ignored), recording what is created, and returns how many records were
/// created.
fn scan_once(scanner: &mut LibraryScanner, entries: &[(&str, bool, bool, bool)], next_id: &mut u32) -> usize {
    let mut visits = ScanVisits::new();
    let mut created = 0;
    for (i, (path, is_dir, has_media, ignored)) in entries.iter().enumerate() {
        let _ = scanner.progress_event(i, path);
        let decision = match scanner.inspect_entry(&mut visits, path, *is_dir) {
            EntryCheck::KnownSeries => continue,
            EntryCheck::UnknownDirectory => stump_core::library_scanner::directory_decision(*has_media),
            EntryCheck::OtherEntry => scanner.unlisted_entry_decision(&mut visits, path, *ignored),
        };
        match decision {
            EntryDecision::CreateSeries => {
                *next_id += 1;
                let s = Series { id: format!("s{}", next_id), path: path.to_string(), media: Some(vec![]) };
                let _ = scanner.record_created_series(&mut visits, s);
                created += 1;
            },
            EntryDecision::CreateMedia { .. } => {
                *next_id += 1;
                let m = Media { id: format!("m{}", next_id), path: path.to_string() };
                let _ = scanner.record_created_media(&mut visits, m);
                created += 1;
            },
            EntryDecision::NoSeriesForMedia => panic!("no series"),
            _ => {},
        }
    }
    created
}

#[test]
fn second_scan_creates_nothing() {
    let lib = Library { id: "lib".to_string(), path: "/lib".to_string(), series: Some(vec![]) };
    let mut scanner = LibraryScanner::new(lib, ("job".to_string(), 7));
    let entries = [
        ("/lib", true, false, false),
        ("/lib/A", true, true, false),
        ("/lib/A/1.cbz", false, false, false),
        ("/lib/A/.hidden", false, false, true),
        ("/lib/Empty", true, false, false),
        ("/lib/A/2.cbz", false, false, false),
    ];
    let mut next_id = 0;
    assert_eq!(scan_once(&mut scanner, &entries, &mut next_id), 3);
    assert_eq!(scan_once(&mut scanner, &entries, &mut next_id), 0);
    assert_eq!(scanner.get_series("/lib/A").map(|s| s.id.clone()), Some("s1".to_string()));
}
