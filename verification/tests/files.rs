use qstudio::files::{node_or_descendant_contains, sorted_refs, visible_by_filter, Fs, SortMode};

fn file(name: &str) -> Fs {
    Fs::File { name: name.to_string(), path: format!("/p/{}", name), modified: None, size: Some(1) }
}

fn folder(name: &str, children: Vec<Fs>) -> Fs {
    Fs::Folder { name: name.to_string(), path: format!("/p/{}", name), modified: Some(0), children }
}

#[test]
fn names_match_without_regard_to_case() {
    let readme = file("README.md");
    assert!(node_or_descendant_contains(&readme, "read"));
    assert!(node_or_descendant_contains(&readme, "e.m"));
    assert!(!node_or_descendant_contains(&readme, "READ"));
    assert!(node_or_descendant_contains(&file("ÄBC.qql"), "äb"));
}

#[test]
fn folders_match_through_their_contents() {
    let tree = folder("src", vec![folder("deep", vec![file("spread.qql")]), file("main.rs")]);
    assert!(node_or_descendant_contains(&tree, "spread"));
    assert!(!node_or_descendant_contains(&tree, "missing"));
    assert!(visible_by_filter(&tree, false, "  SPREAD "));
}

#[test]
fn hidden_names_need_show_hidden() {
    let git = folder(".git", vec![file("HEAD")]);
    assert!(!visible_by_filter(&git, false, ""));
    assert!(visible_by_filter(&git, true, ""));
    assert!(visible_by_filter(&git, true, "head"));
    assert!(!visible_by_filter(&git, true, "tail"));
}

#[test]
fn blank_filter_shows_everything() {
    assert!(visible_by_filter(&file("a"), false, " \t\n"));
    assert!(visible_by_filter(&file("a"), false, ""));
}

fn timed(name: &str, modified: Option<i128>) -> Fs {
    Fs::File { name: name.to_string(), path: format!("/p/{}", name), modified, size: None }
}

fn names(v: &[&Fs]) -> Vec<String> {
    v.iter()
        .map(|n| match n {
            Fs::Folder { name, .. } => name.clone(),
            Fs::File { name, .. } => name.clone(),
        })
        .collect()
}

#[test]
fn folders_first_then_names_without_case() {
    let (b, a_dir, c, z_dir) = (file("b.txt"), folder("A", vec![]), file("C.txt"), folder("z", vec![]));
    let out = sorted_refs(SortMode::FoldersFirst, vec![&b, &z_dir, &c, &a_dir]);
    assert_eq!(names(&out), vec!["A", "z", "b.txt", "C.txt"]);
}

#[test]
fn names_ascending_and_descending() {
    let (x, y, z) = (file("beta"), file("Alpha"), file("alphabet"));
    let up = sorted_refs(SortMode::NameAsc, vec![&x, &y, &z]);
    assert_eq!(names(&up), vec!["Alpha", "alphabet", "beta"]);
    let down = sorted_refs(SortMode::NameDesc, vec![&x, &y, &z]);
    assert_eq!(names(&down), vec!["beta", "alphabet", "Alpha"]);
}

#[test]
fn modification_times_in_both_directions() {
    let (old, new, none) = (timed("old", Some(10)), timed("new", Some(99)), timed("none", None));
    let newest = sorted_refs(SortMode::ModifiedNewest, vec![&old, &none, &new]);
    assert_eq!(names(&newest), vec!["new", "old", "none"]);
    let oldest = sorted_refs(SortMode::ModifiedOldest, vec![&old, &none, &new]);
    assert_eq!(names(&oldest), vec!["none", "old", "new"]);
}

#[test]
fn equal_entries_keep_their_order() {
    let (p, q, r) = (timed("p", Some(5)), timed("q", Some(5)), timed("r", Some(1)));
    let out = sorted_refs(SortMode::ModifiedOldest, vec![&q, &p, &r]);
    assert_eq!(names(&out), vec!["r", "q", "p"]);
    let (s1, s2) = (file("Same"), file("same"));
    let same = sorted_refs(SortMode::NameAsc, vec![&s1, &s2]);
    assert_eq!(names(&same), vec!["Same", "same"]);
    assert!(sorted_refs(SortMode::NameAsc, vec![]).is_empty());
}
