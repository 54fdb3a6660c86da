use fsutil::{Copier, CopierBuilder, LexPath, UtilError, WalkEntry};

fn path(absolute: bool, comps: &[&str]) -> LexPath {
    let mut v: Vec<String> = Vec::new();
    for c in comps {
        v.push((*c).to_owned());
    }
    LexPath::from_parts(absolute, v)
}

fn entry(comps: &[&str], is_file: bool) -> WalkEntry {
    WalkEntry {
        path: path(true, comps),
        is_file,
    }
}

fn tree_copier(inc: &[&str], exc: &[&str]) -> Copier {
    let mut b = CopierBuilder::new(path(true, &["dst"])).add(path(true, &["src"]));
    for p in inc {
        b = b.ipat((*p).to_owned());
    }
    for p in exc {
        b = b.epat((*p).to_owned());
    }
    b.build()
}

fn tree_entries() -> Vec<WalkEntry> {
    vec![
        entry(&["src"], false),
        entry(&["src", "a.txt"], true),
        entry(&["src", "b.log"], true),
        entry(&["src", "sub"], false),
        entry(&["src", "sub", "c.txt"], true),
    ]
}

fn targets(c: &Copier, entries: &Vec<WalkEntry>) -> Vec<String> {
    let root = path(true, &["src"]);
    let acts = c.plan_source(&root, entries).unwrap();
    acts.iter().map(|a| a.to.render()).collect()
}

#[test]
fn builder_accumulates_configuration() {
    let c = tree_copier(&["*.txt"], &["*.log"]);
    assert_eq!(c.src.len(), 1);
    assert_eq!(c.src[0].render(), "/src");
    assert_eq!(c.dst.render(), "/dst");
    assert_eq!(c.includes, vec!["*.txt".to_owned()]);
    assert_eq!(c.excludes, vec!["*.log".to_owned()]);
}

#[test]
fn epat_feeds_the_exclude_set() {
    let c = CopierBuilder::new(path(true, &["d"]))
        .epat("*.log".to_owned())
        .build();
    assert!(c.includes.is_empty());
    assert_eq!(c.excludes, vec!["*.log".to_owned()]);
}

#[test]
fn include_pattern_plans_matching_files_only() {
    let c = tree_copier(&["*.txt"], &[]);
    assert_eq!(
        targets(&c, &tree_entries()),
        vec!["/dst/a.txt".to_owned(), "/dst/sub/c.txt".to_owned()]
    );
}

#[test]
fn exclude_pattern_drops_matching_files() {
    let c = tree_copier(&[], &["*.log"]);
    assert_eq!(
        targets(&c, &tree_entries()),
        vec!["/dst/a.txt".to_owned(), "/dst/sub/c.txt".to_owned()]
    );
}

#[test]
fn no_patterns_plan_every_file() {
    let c = tree_copier(&[], &[]);
    assert_eq!(
        targets(&c, &tree_entries()),
        vec![
            "/dst/a.txt".to_owned(),
            "/dst/b.log".to_owned(),
            "/dst/sub/c.txt".to_owned()
        ]
    );
}

#[test]
fn plan_records_sources_beside_targets() {
    let c = tree_copier(&["*.txt"], &[]);
    let root = path(true, &["src"]);
    let acts = c.plan_source(&root, &tree_entries()).unwrap();
    assert_eq!(acts.len(), 2);
    assert_eq!(acts[0].from.render(), "/src/a.txt");
    assert_eq!(acts[0].to.render(), "/dst/a.txt");
    assert_eq!(acts[1].from.render(), "/src/sub/c.txt");
    assert_eq!(acts[1].to.render(), "/dst/sub/c.txt");
}

#[test]
fn planning_twice_gives_the_same_plan() {
    let c = tree_copier(&["*.txt"], &[]);
    let entries = tree_entries();
    assert_eq!(targets(&c, &entries), targets(&c, &entries));
}

#[test]
fn single_file_source_copies_to_destination_itself() {
    let root = path(true, &["s", "a.txt"]);
    let c = CopierBuilder::new(path(true, &["d", "renamed.txt"]))
        .add(path(true, &["s", "a.txt"]))
        .build();
    assert!(!c.should_create_dst(true));
    let acts = c
        .plan_source(&root, &vec![entry(&["s", "a.txt"], true)])
        .unwrap();
    assert_eq!(acts.len(), 1);
    assert_eq!(acts[0].to.render(), "/d/renamed.txt");
}

#[test]
fn destination_precreation_policy() {
    let one = CopierBuilder::new(path(true, &["d"]))
        .add(path(true, &["s"]))
        .build();
    assert!(one.should_create_dst(false));
    assert!(!one.should_create_dst(true));
    let two = CopierBuilder::new(path(true, &["d"]))
        .add(path(true, &["s1"]))
        .add(path(true, &["s2", "f.txt"]))
        .build();
    assert!(two.should_create_dst(true));
    let none = CopierBuilder::new(path(true, &["d"])).build();
    assert!(!none.should_create_dst(false));
}

#[test]
fn selected_relative_entry_outside_root_is_an_error() {
    let c = tree_copier(&[], &[]);
    let root = path(true, &["src"]);
    let stray = WalkEntry {
        path: path(false, &["a.txt"]),
        is_file: true,
    };
    let r = c.plan_source(&root, &vec![stray]);
    match r {
        Err(UtilError::PrefixMismatch(p)) => assert_eq!(p, "a.txt"),
        _ => panic!("expected a prefix mismatch"),
    }
    assert!(c
        .plan_entry(&root, &entry(&["src", "a.txt"], true))
        .is_ok());
}

#[test]
fn build_clones_the_accumulated_copier() {
    let b = CopierBuilder::new(path(true, &["d"])).add(path(true, &["s"]));
    let c1 = b.build();
    let c2 = b.build();
    assert_eq!(c1.src[0].render(), c2.src[0].render());
    assert_eq!(c1.dst.render(), c2.dst.render());
}
