use qstudio::files::{Fs, SortMode};
use qstudio::folder_tree::{FileCmd, FolderTree};

#[test]
fn a_new_tree_selects_nothing() {
    let t = FolderTree::new();
    assert!(t.selection.is_empty());
    assert!(t.last_clicked.is_none() && t.renaming.is_none());
    assert_eq!(t.sort_mode, SortMode::FoldersFirst);
    assert!(!t.show_hidden);
    assert_eq!(t.single_selected_path(), None);
}

#[test]
fn clicks_select_and_additive_clicks_toggle() {
    let mut t = FolderTree::new();
    t.toggle_select("/p/a".into(), false);
    assert_eq!(t.single_selected_path(), Some("/p/a".to_string()));
    assert_eq!(t.last_clicked.as_deref(), Some("/p/a"));
    t.toggle_select("/p/b".into(), true);
    assert!(t.is_selected("/p/a") && t.is_selected("/p/b"));
    assert_eq!(t.single_selected_path(), None);
    t.toggle_select("/p/a".into(), true);
    assert!(!t.is_selected("/p/a"));
    assert_eq!(t.single_selected_path(), Some("/p/b".to_string()));
    t.toggle_select("/p/b".into(), true);
    assert!(t.selection.is_empty());
    assert!(t.last_clicked.is_none());
    t.toggle_select("/p/c".into(), true);
    t.toggle_select("/p/d".into(), false);
    assert_eq!(t.selection, vec!["/p/d".to_string()]);
}

#[test]
fn ensure_selected_keeps_a_selection_that_holds_the_path() {
    let mut t = FolderTree::new();
    t.toggle_select("/x".into(), false);
    t.toggle_select("/y".into(), true);
    t.ensure_selected("/y".into());
    assert!(t.is_selected("/x") && t.is_selected("/y"));
    t.ensure_selected("/z".into());
    assert_eq!(t.selection, vec!["/z".to_string()]);
}

#[test]
fn renaming_gives_a_command_only_for_a_new_name() {
    let mut t = FolderTree::new();
    t.start_rename("/proj/old.qql".into());
    assert_eq!(t.renaming.as_deref(), Some("/proj/old.qql"));
    assert_eq!(t.rename_buf, "old.qql");
    assert!(t.commit_rename_if_any().is_none());
    assert!(t.renaming.is_none());

    t.start_rename("/proj/old.qql".into());
    t.rename_buf = "   ".into();
    assert!(t.commit_rename_if_any().is_none());

    t.start_rename("/proj/old.qql".into());
    t.rename_buf = "new.qql".into();
    match t.commit_rename_if_any() {
        Some(FileCmd::Rename { from, new_name }) => {
            assert_eq!(from, "/proj/old.qql");
            assert_eq!(new_name, "new.qql");
        }
        other => panic!("unexpected command {:?}", other),
    }
    assert!(t.rename_buf.is_empty());
    assert!(t.commit_rename_if_any().is_none());
}

#[test]
fn finishing_a_rename_compares_with_the_current_name() {
    let mut t = FolderTree::new();
    t.begin_rename("/a/b".into(), None);
    assert_eq!(t.rename_buf, "");
    t.rename_buf = "b".into();
    assert!(matches!(t.finish_rename("/a/b".into(), None), Some(FileCmd::Rename { .. })));
    t.begin_rename("/a/b".into(), Some("b".into()));
    assert!(t.finish_rename("/a/b".into(), Some("b".into())).is_none());
    t.start_rename("/a/b".into());
    t.cancel_rename();
    assert!(t.renaming.is_none() && t.rename_buf.is_empty());
}

#[test]
fn the_tree_filters_and_orders_with_its_own_settings() {
    let file = |n: &str| Fs::File { name: n.to_string(), path: format!("/{n}"), modified: None, size: None };
    let (hidden, b, a) = (file(".env"), file("b.qql"), file("A.qql"));
    let mut t = FolderTree::new();
    assert!(!t.visible_by_filter(&hidden));
    t.show_hidden = true;
    assert!(t.visible_by_filter(&hidden));
    t.filter_text = " B.Q ".into();
    assert!(t.visible_by_filter(&b) && !t.visible_by_filter(&a));
    t.sort_mode = SortMode::NameDesc;
    let out = t.sorted_refs(vec![&a, &b]);
    assert!(matches!(out[0], Fs::File { name, .. } if name == "b.qql"));
}

#[test]
fn the_current_name_is_the_last_component() {
    let mut t = FolderTree::new();
    t.start_rename("proj/sub/./".into());
    assert_eq!(t.rename_buf, "sub");
    t.start_rename("/".into());
    assert_eq!(t.rename_buf, "");
    t.start_rename("proj/..".into());
    assert_eq!(t.rename_buf, "");
    t.rename_buf = "x".into();
    assert!(matches!(t.commit_rename_if_any(), Some(FileCmd::Rename { ref new_name, .. }) if new_name == "x"));
    t.start_rename("proj//notes.md".into());
    assert_eq!(t.rename_buf, "notes.md");
    t.rename_buf = " notes.md".into();
    assert!(t.commit_rename_if_any().is_some());
}
