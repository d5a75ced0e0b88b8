use stump_core::text::{chars_of, dir_holds_path};

#[test]
fn directory_holds_nested_path() {
    assert!(dir_holds_path("/comics/Saga", "/comics/Saga/1.cbz"));
    assert!(dir_holds_path("/comics", "/comics/Saga/1.cbz"));
    assert!(dir_holds_path("/comics/", "/comics/Saga"));
    assert!(dir_holds_path("C:\\comics", "C:\\comics\\a.cbz"));
}

#[test]
fn directory_does_not_hold_sibling_or_itself() {
    assert!(!dir_holds_path("/comics/A", "/comics/AB/1.cbz"));
    assert!(!dir_holds_path("/comics/A", "/comics/A"));
    assert!(!dir_holds_path("/comics/A/1", "/comics/A/1.cbz"));
    assert!(!dir_holds_path("/x", "/y/x/1.cbz"));
}

#[test]
fn chars_in_order() {
    assert_eq!(chars_of("añb"), vec!['a', 'ñ', 'b']);
}

#[test]
fn chars_of_empty() {
    assert_eq!(chars_of(""), Vec::<char>::new());
}
