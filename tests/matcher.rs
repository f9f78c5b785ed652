use rfind::entry::File;
use rfind::matcher::FileMatcher;
use rfind::pattern::Pattern;
use rfind::walk::Child;

fn entry(path: &str, is_dir: bool, uid: u32, gid: u32, perms: u32) -> File {
    File::new(path.to_string(), is_dir, uid, gid, perms).unwrap()
}

fn names(v: &[File]) -> Vec<String> {
    v.iter().map(|f| f.name().clone()).collect()
}

// root/{sub (uid 0)/{b.txt (uid 1000)}, a.txt (uid 1000)}
fn scenario() -> Vec<Child> {
    vec![
        Child::Found(
            entry("root/sub", true, 0, 0, 0o755),
            vec![Child::Found(entry("root/sub/b.txt", false, 1000, 100, 0o644), Vec::new())],
        ),
        Child::Found(entry("root/a.txt", false, 1000, 100, 0o600), Vec::new()),
    ]
}

#[test]
fn scenario_order_and_uid_filter() {
    let mut m = FileMatcher::from_dir(&scenario(), false, None);
    assert_eq!(names(&m.matches()), vec!["sub", "b.txt", "a.txt"]);
    m.set_uid(Some(1000));
    assert_eq!(names(&m.matches()), vec!["b.txt", "a.txt"]);
}

#[test]
fn no_predicates_returns_everything() {
    let m = FileMatcher::from_dir(&scenario(), true, None);
    assert_eq!(names(&m.matches()), vec!["b.txt", "sub", "a.txt"]);
}

#[test]
fn directories_only() {
    let mut m = FileMatcher::from_dir(&scenario(), false, None);
    m.set_ftype(Some('d'));
    let r = m.matches();
    assert_eq!(names(&r), vec!["sub"]);
    assert!(r.iter().all(|f| f.is_dir()));
}

#[test]
fn files_only() {
    let mut m = FileMatcher::from_dir(&scenario(), false, None);
    m.set_ftype(Some('f'));
    assert_eq!(names(&m.matches()), vec!["b.txt", "a.txt"]);
}

#[test]
fn set_then_clear_restores_output() {
    let mut m = FileMatcher::from_dir(&scenario(), false, None);
    let before = names(&m.matches());
    m.set_uid(Some(0));
    assert_eq!(names(&m.matches()), vec!["sub"]);
    m.set_uid(None);
    assert_eq!(names(&m.matches()), before);
    m.set_npattern(Some(Pattern::new("*.rs")));
    assert!(m.matches().is_empty());
    m.set_npattern(None);
    assert_eq!(names(&m.matches()), before);
}

#[test]
fn gid_and_perms_are_exact() {
    let mut m = FileMatcher::from_dir(&scenario(), false, None);
    m.set_gid(Some(100));
    assert_eq!(names(&m.matches()), vec!["b.txt", "a.txt"]);
    m.set_perms(Some(0o600));
    assert_eq!(names(&m.matches()), vec!["a.txt"]);
    m.set_perms(Some(0o601));
    assert!(m.matches().is_empty());
}

#[test]
fn name_pattern_filters_names() {
    let mut m = FileMatcher::from_dir(&scenario(), false, None);
    m.set_npattern(Some(Pattern::new("a.*")));
    assert_eq!(names(&m.matches()), vec!["a.txt"]);
}

#[test]
fn path_pattern_is_applied_to_the_name() {
    let mut m = FileMatcher::from_dir(&scenario(), false, None);
    m.set_ppattern(Some(Pattern::new("root/*")));
    assert!(m.matches().is_empty());
    m.set_ppattern(Some(Pattern::new("*.txt")));
    assert_eq!(names(&m.matches()), vec!["b.txt", "a.txt"]);
}

#[test]
fn predicates_combine() {
    let mut m = FileMatcher::from_dir(&scenario(), false, None);
    m.set_uid(Some(1000));
    m.set_npattern(Some(Pattern::new("b*")));
    assert_eq!(names(&m.matches()), vec!["b.txt"]);
}

#[test]
fn unreadable_child_does_not_fail_construction() {
    let mut cs = scenario();
    cs.insert(1, Child::Unreadable);
    let m = FileMatcher::from_dir(&cs, false, None);
    assert_eq!(names(&m.matches()), vec!["sub", "b.txt", "a.txt"]);
}

#[test]
fn depth_limit_applies_to_construction() {
    let m = FileMatcher::from_dir(&scenario(), false, Some(0));
    assert_eq!(names(&m.matches()), vec!["sub", "a.txt"]);
}
