use fsutil::LexPath;

fn path(absolute: bool, comps: &[&str]) -> LexPath {
    let mut v: Vec<String> = Vec::new();
    for c in comps {
        v.push((*c).to_owned());
    }
    LexPath::from_parts(absolute, v)
}

#[test]
fn normalize_resolves_parent() {
    let p = path(false, &["a", "..", "b"]);
    let n = p.normalize();
    assert!(!n.absolute);
    assert_eq!(n.comps, vec!["b".to_owned()]);
}

#[test]
fn normalize_drops_cur_dir() {
    let p = path(true, &["x", ".", "y"]);
    assert_eq!(p.normalize().render(), "/x/y");
}

#[test]
fn normalize_parent_past_root_is_noop() {
    let p = path(true, &["..", "..", "x"]);
    assert_eq!(p.normalize().render(), "/x");
}

#[test]
fn abs_of_relative_equals_abs_of_cwd_joined() {
    let cwd = path(true, &["home", "u"]);
    let left = path(false, &["a", "..", "b"]).abs_with(&cwd);
    let right = cwd.abs_with(&cwd).join(&path(false, &["b"]));
    assert_eq!(left.render(), right.render());
    assert_eq!(left.render(), "/home/u/b");
}

#[test]
fn abs_of_absolute_ignores_cwd() {
    let cwd = path(true, &["home", "u"]);
    let p = path(true, &["x", ".", "y"]).abs_with(&cwd);
    assert_eq!(p.render(), "/x/y");
}

#[test]
fn render_empty_paths() {
    assert_eq!(path(true, &[]).render(), "/");
    assert_eq!(LexPath::empty().render(), "");
}

#[test]
fn join_appends_components() {
    let d = path(true, &["d"]);
    let r = d.join(&path(false, &["sub", "c.txt"]));
    assert_eq!(r.render(), "/d/sub/c.txt");
}

#[test]
fn strip_prefix_removes_root() {
    let root = path(true, &["src"]);
    let file = path(true, &["src", "sub", "c.txt"]);
    let rel = file.strip_prefix(&root).unwrap();
    assert!(!rel.absolute);
    assert_eq!(rel.render(), "sub/c.txt");
}

#[test]
fn strip_prefix_rejects_outsider() {
    let root = path(true, &["src"]);
    assert!(path(true, &["other", "a.txt"]).strip_prefix(&root).is_none());
    assert!(path(false, &["src", "a.txt"]).strip_prefix(&root).is_none());
}

#[test]
fn strip_prefix_of_itself_is_empty() {
    let root = path(true, &["s", "a.txt"]);
    let rel = root.strip_prefix(&root).unwrap();
    assert_eq!(rel.comps.len(), 0);
}

#[test]
fn push_appends_one_component() {
    let mut p = path(false, &["a"]);
    p.push("b".to_owned());
    assert_eq!(p.render(), "a/b");
}
