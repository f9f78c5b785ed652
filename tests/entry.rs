use rfind::entry::File;

#[test]
fn name_is_last_component() {
    let f = File::new("root/sub/a.txt".to_string(), false, 1000, 100, 0o644).unwrap();
    assert_eq!(f.name(), "a.txt");
    assert_eq!(f.path(), "root/sub/a.txt");
    assert!(!f.is_dir());
    assert_eq!(f.uid(), 1000);
    assert_eq!(f.gid(), 100);
    assert_eq!(f.perms(), 0o644);
}

#[test]
fn name_without_slash_is_whole_path() {
    let f = File::new("notes".to_string(), true, 0, 0, 0o755).unwrap();
    assert_eq!(f.name(), "notes");
    assert!(f.is_dir());
}

#[test]
fn empty_last_component_is_refused() {
    assert!(File::new("root/sub/".to_string(), true, 0, 0, 0).is_none());
    assert!(File::new(String::new(), false, 0, 0, 0).is_none());
}

#[test]
fn perms_keep_low_twelve_bits() {
    let f = File::new("x/run".to_string(), false, 0, 0, 0o104755).unwrap();
    assert_eq!(f.perms(), 0o4755);
    let g = File::new("x/dir".to_string(), true, 0, 0, 0o40777).unwrap();
    assert_eq!(g.perms(), 0o777);
}

#[test]
fn clone_keeps_every_field() {
    let f = File::new("a/b".to_string(), false, 5, 6, 0o600).unwrap();
    let g = f.clone();
    assert_eq!(g.name(), "b");
    assert_eq!(g.path(), "a/b");
    assert_eq!((g.uid(), g.gid(), g.perms(), g.is_dir()), (5, 6, 0o600, false));
}
