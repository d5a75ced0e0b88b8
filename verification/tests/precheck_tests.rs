use stump_core::model::{Library, Series};
use stump_core::precheck::{
    invalid_parents, media_path_update_query, survey_series_parents, ApiError, ParentCheck, Precheck, PrecheckAction,
    PrecheckEvent, PrecheckFault,
};

/// Reports the path check and performs the parent survey that the
/// precheck asks for.
fn after_path_check(p: Precheck) -> (Precheck, PrecheckAction) {
    let (p, action) = p.step(PrecheckEvent::PathChecked(true));
    match action {
        PrecheckAction::SurveySeries { library_path, series_paths } => {
            let checks = survey_series_parents(&library_path, &series_paths);
            assert_eq!(checks.len(), series_paths.len());
            p.step(PrecheckEvent::SeriesSurveyed(checks))
        },
        other => (p, other),
    }
}

fn series(id: &str, path: &str) -> Series {
    Series { id: id.to_string(), path: path.to_string(), media: Some(vec![]) }
}

fn library(series_list: Vec<Series>) -> Library {
    Library { id: "lib1".to_string(), path: "/comics".to_string(), series: Some(series_list) }
}

fn started(path: &str) -> Precheck {
    let (p, action) = Precheck::new(path.to_string()).step(PrecheckEvent::Begin);
    match action {
        PrecheckAction::FindLibrary { path: p2 } => assert_eq!(p2, path),
        _ => panic!("expected a lookup"),
    }
    p
}

#[test]
fn missing_library_is_not_found() {
    let (p, action) = started("/comics").step(PrecheckEvent::LibraryFound(None));
    assert!(p.is_done());
    match action {
        PrecheckAction::Finish(Err(ApiError::NotFound(m))) => assert_eq!(m, "Library not found: /comics"),
        _ => panic!("expected not found"),
    }
}

#[test]
fn missing_directory_marks_library_missing() {
    let (p, action) = started("/comics").step(PrecheckEvent::LibraryFound(Some(library(vec![]))));
    match action {
        PrecheckAction::CheckPathExists { path } => assert_eq!(path, "/comics"),
        _ => panic!("expected a path check"),
    }
    let (p, action) = p.step(PrecheckEvent::PathChecked(false));
    match action {
        PrecheckAction::MarkLibraryMissing { library } => assert_eq!(library.id, "lib1"),
        _ => panic!("expected the library to be marked"),
    }
    let (p, action) = p.step(PrecheckEvent::MarkedMissing);
    assert!(p.is_done());
    match action {
        PrecheckAction::Finish(Err(ApiError::InternalServerError(m))) => {
            assert_eq!(m, "Library path does not exist in fs: /comics")
        },
        _ => panic!("expected an internal error"),
    }
}

#[test]
fn series_in_place_pass() {
    let lib = library(vec![series("s1", "/comics/Batman"), series("s2", "/comics/Saga")]);
    let (p, _) = started("/comics").step(PrecheckEvent::LibraryFound(Some(lib)));
    let (p, action) = after_path_check(p);
    assert!(p.is_done());
    match action {
        PrecheckAction::Finish(Ok(l)) => assert_eq!(l.series.unwrap().len(), 2),
        _ => panic!("expected success"),
    }
}

#[test]
fn misplaced_series_are_rewritten_then_refetched() {
    let lib = library(vec![
        series("s1", "/old/Batman"),
        series("s2", "/comics/Saga"),
        series("s3", "/old/Fables"),
        series("s4", "/older/Y"),
    ]);
    let (p, _) = started("/comics").step(PrecheckEvent::LibraryFound(Some(lib)));
    let (p, action) = after_path_check(p);
    match action {
        PrecheckAction::RewritePaths { invalid_path, correct_base, library_id, media_query } => {
            assert_eq!(invalid_path, "/old");
            assert_eq!(correct_base, "/comics");
            assert_eq!(library_id, "lib1");
            assert_eq!(
                media_query,
                "UPDATE media SET path=REPLACE(path, \"/old\", \"/comics\") WHERE seriesId in (\"s1\",\"s2\",\"s3\",\"s4\")"
            );
        },
        _ => panic!("expected a rewrite"),
    }
    let (p, action) = p.step(PrecheckEvent::PathsRewritten);
    match action {
        PrecheckAction::RewritePaths { invalid_path, .. } => assert_eq!(invalid_path, "/older"),
        _ => panic!("expected a second rewrite"),
    }
    let (p, action) = p.step(PrecheckEvent::PathsRewritten);
    match action {
        PrecheckAction::FindLibrary { path } => assert_eq!(path, "/comics"),
        _ => panic!("expected a refetch"),
    }
    let fixed = library(vec![series("s1", "/comics/Batman")]);
    let (p, action) = p.step(PrecheckEvent::LibraryFound(Some(fixed)));
    assert!(p.is_done());
    match action {
        PrecheckAction::Finish(Ok(l)) => assert_eq!(l.series.unwrap()[0].path, "/comics/Batman"),
        _ => panic!("expected success"),
    }
}

#[test]
fn vanished_library_after_rewrite_stops() {
    let lib = library(vec![series("s1", "/old/Batman")]);
    let (p, _) = started("/comics").step(PrecheckEvent::LibraryFound(Some(lib)));
    let (p, _) = after_path_check(p);
    let (p, _) = p.step(PrecheckEvent::PathsRewritten);
    let (_, action) = p.step(PrecheckEvent::LibraryFound(None));
    assert!(matches!(action, PrecheckAction::Fail(PrecheckFault::LibraryVanished)));
}

#[test]
fn database_failure_ends_precheck() {
    let (p, action) = started("/comics").step(PrecheckEvent::Failed(ApiError::InternalServerError("db down".to_string())));
    assert!(p.is_done());
    match action {
        PrecheckAction::Finish(Err(ApiError::InternalServerError(m))) => assert_eq!(m, "db down"),
        _ => panic!("expected the failure"),
    }
}

#[test]
fn series_at_root_has_no_parent() {
    let lib = library(vec![series("s1", "/")]);
    let (p, _) = started("/comics").step(PrecheckEvent::LibraryFound(Some(lib)));
    let (_, action) = after_path_check(p);
    assert!(matches!(action, PrecheckAction::Fail(PrecheckFault::SeriesWithoutParent)));
}

#[test]
fn series_not_loaded_stops() {
    let lib = Library { id: "lib1".to_string(), path: "/comics".to_string(), series: None };
    let (p, _) = started("/comics").step(PrecheckEvent::LibraryFound(Some(lib)));
    let (_, action) = p.step(PrecheckEvent::PathChecked(true));
    assert!(matches!(action, PrecheckAction::Fail(PrecheckFault::SeriesNotLoaded)));
}

fn check(parent: Option<&str>, matches_library: bool) -> ParentCheck {
    ParentCheck { parent: parent.map(|p| p.to_string()), matches_library }
}

#[test]
fn invalid_parents_are_listed_once() {
    let checks = vec![check(Some("/a"), false), check(Some("/lib"), true), check(Some("/a"), false), check(Some("/b"), false)];
    assert_eq!(invalid_parents(&checks), Some(vec!["/a".to_string(), "/b".to_string()]));
}

#[test]
fn no_invalid_parents() {
    let checks = vec![check(Some("/lib"), true), check(Some("/lib"), true)];
    assert_eq!(invalid_parents(&checks), Some(vec![]));
}

#[test]
fn missing_parent_is_reported() {
    let checks = vec![check(Some("/a"), false), check(None, false)];
    assert_eq!(invalid_parents(&checks), None);
}

#[test]
fn media_query_without_series() {
    assert_eq!(
        media_path_update_query("/x", "/y", &vec![]),
        "UPDATE media SET path=REPLACE(path, \"/x\", \"/y\") WHERE seriesId in ()"
    );
}

#[test]
fn media_query_with_one_series() {
    assert_eq!(
        media_path_update_query("/x", "/y", &vec!["id1".to_string()]),
        "UPDATE media SET path=REPLACE(path, \"/x\", \"/y\") WHERE seriesId in (\"id1\")"
    );
}

#[test]
fn survey_asks_for_every_series_path() {
    let lib = library(vec![series("s1", "/old/A"), series("s2", "/comics/B")]);
    let (p, _) = started("/comics").step(PrecheckEvent::LibraryFound(Some(lib)));
    let (_, action) = p.step(PrecheckEvent::PathChecked(true));
    match action {
        PrecheckAction::SurveySeries { library_path, series_paths } => {
            assert_eq!(library_path, "/comics");
            assert_eq!(series_paths, vec!["/old/A".to_string(), "/comics/B".to_string()]);
        },
        _ => panic!("expected a survey"),
    }
}

#[test]
fn survey_finds_parents() {
    let checks = survey_series_parents("/comics", &vec!["/comics/A".to_string(), "/old/B".to_string(), "/".to_string()]);
    assert_eq!(checks[0].parent, Some("/comics".to_string()));
    assert!(checks[0].matches_library);
    assert_eq!(checks[1].parent, Some("/old".to_string()));
    assert!(!checks[1].matches_library);
    assert_eq!(checks[2].parent, None);
    assert!(!checks[2].matches_library);
}

#[test]
fn after_survey_with_given_checks() {
    let lib = library(vec![series("s1", "/x/A"), series("s2", "/comics/B")]);
    let checks = vec![check(Some("/x"), false), check(Some("/comics"), true)];
    let (p, action) = Precheck::after_survey("/comics".to_string(), lib, &checks);
    assert!(!p.is_done());
    match action {
        PrecheckAction::RewritePaths { invalid_path, library_id, .. } => {
            assert_eq!(invalid_path, "/x");
            assert_eq!(library_id, "lib1");
        },
        _ => panic!("expected a rewrite"),
    }
}
