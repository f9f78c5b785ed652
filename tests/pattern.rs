use rfind::pattern::Pattern;

#[test]
fn star_matches_any_run() {
    let p = Pattern::new("*.txt");
    assert!(p.matches("a.txt"));
    assert!(p.matches(".txt"));
    assert!(!p.matches("a.txt.bak"));
    assert!(!p.matches("a.rs"));
}

#[test]
fn question_mark_matches_one_char() {
    let p = Pattern::new("?.rs");
    assert!(p.matches("a.rs"));
    assert!(!p.matches("ab.rs"));
    assert!(!p.matches(".rs"));
}

#[test]
fn literal_pattern_matches_itself_only() {
    let p = Pattern::new("main.rs");
    assert!(p.matches("main.rs"));
    assert!(!p.matches("main.r"));
    assert!(!p.matches("xmain.rs"));
}

#[test]
fn empty_pattern_matches_empty_only() {
    let p = Pattern::new("");
    assert!(p.matches(""));
    assert!(!p.matches("a"));
    assert!(Pattern::new("*").matches(""));
}

#[test]
fn several_stars_backtrack() {
    let p = Pattern::new("a*b*c");
    assert!(p.matches("abc"));
    assert!(p.matches("axxbyybzc"));
    assert!(!p.matches("axxbyy"));
    assert!(!p.matches("bac"));
}

#[test]
fn non_ascii_names() {
    let p = Pattern::new("é?*");
    assert!(p.matches("éñ"));
    assert!(p.matches("éñü.txt"));
    assert!(!p.matches("é"));
}

#[test]
fn clone_matches_the_same() {
    let p = Pattern::new("*.c");
    let q = p.clone();
    assert!(q.matches("x.c"));
    assert!(!q.matches("x.h"));
}
