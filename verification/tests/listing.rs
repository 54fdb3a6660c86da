use fsutil::{ls, LsEntry, LsKind, UtilError};

fn file(path: &str) -> LsEntry {
    LsEntry {
        path: path.to_owned(),
        kind: LsKind::File,
    }
}

fn dir(path: &str, children: &[&str]) -> LsEntry {
    LsEntry {
        path: path.to_owned(),
        kind: LsKind::Dir(children.iter().map(|c| (*c).to_owned()).collect()),
    }
}

fn missing(path: &str) -> LsEntry {
    LsEntry {
        path: path.to_owned(),
        kind: LsKind::Missing,
    }
}

#[test]
fn ls_of_nothing_is_empty() {
    assert_eq!(ls(&vec![]).unwrap(), Vec::<String>::new());
}

#[test]
fn ls_lists_files_and_directory_children_in_order() {
    let items = vec![
        file("/a.txt"),
        dir("/d", &["/d/x", "/d/y"]),
        file("/b.txt"),
    ];
    assert_eq!(
        ls(&items).unwrap(),
        vec![
            "/a.txt".to_owned(),
            "/d/x".to_owned(),
            "/d/y".to_owned(),
            "/b.txt".to_owned()
        ]
    );
}

#[test]
fn ls_empty_directory_contributes_nothing() {
    let items = vec![dir("/empty", &[]), file("/a")];
    assert_eq!(ls(&items).unwrap(), vec!["/a".to_owned()]);
}

#[test]
fn ls_reports_the_first_missing_target() {
    let items = vec![file("/a"), missing("/gone"), missing("/also-gone")];
    match ls(&items) {
        Err(UtilError::MissingEntry(p)) => assert_eq!(p, "/gone"),
        _ => panic!("expected a missing-entry failure"),
    }
}

#[test]
fn ls_missing_error_description_names_the_path() {
    let e = ls(&vec![missing("/gone")]).unwrap_err();
    assert_eq!(e.describe(), "ls item does not exist: /gone");
}
