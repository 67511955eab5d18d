use blogsite::assets::{asset_action, clean_action, is_excluded_asset_name, AssetAction, CleanAction, EntryKind};

#[test]
fn html_files_and_marker_are_left_out() {
    assert_eq!(asset_action(EntryKind::File, "index.html"), AssetAction::Skip);
    assert_eq!(asset_action(EntryKind::File, "article.html"), AssetAction::Skip);
    assert_eq!(asset_action(EntryKind::File, "a.b.html"), AssetAction::Skip);
    assert_eq!(asset_action(EntryKind::File, ".DS_Store"), AssetAction::Skip);
}

#[test]
fn other_files_are_copied() {
    assert_eq!(asset_action(EntryKind::File, "style.css"), AssetAction::Copy);
    assert_eq!(asset_action(EntryKind::File, "logo.png"), AssetAction::Copy);
    assert_eq!(asset_action(EntryKind::File, "page.htm"), AssetAction::Copy);
    assert_eq!(asset_action(EntryKind::File, "page.HTML"), AssetAction::Copy);
    assert_eq!(asset_action(EntryKind::File, "html"), AssetAction::Copy);
    assert_eq!(asset_action(EntryKind::File, ".html"), AssetAction::Copy);
    assert_eq!(asset_action(EntryKind::File, "x.DS_Store"), AssetAction::Copy);
    assert_eq!(asset_action(EntryKind::File, "html.js"), AssetAction::Copy);
}

#[test]
fn directories_are_descended() {
    assert_eq!(asset_action(EntryKind::Dir, "css"), AssetAction::Descend);
    assert_eq!(asset_action(EntryKind::Dir, "old.html"), AssetAction::Descend);
    assert_eq!(asset_action(EntryKind::Dir, ".DS_Store"), AssetAction::Descend);
}

#[test]
fn links_are_left_out() {
    assert_eq!(asset_action(EntryKind::Other, "style.css"), AssetAction::Skip);
}

#[test]
fn exclusion_rule() {
    assert!(is_excluded_asset_name("a.html"));
    assert!(is_excluded_asset_name(".DS_Store"));
    assert!(!is_excluded_asset_name(".html"));
    assert!(!is_excluded_asset_name(""));
    assert!(!is_excluded_asset_name("a.css"));
}

#[test]
fn clean_removes_everything() {
    assert_eq!(clean_action(EntryKind::Dir), CleanAction::ClearAndRemoveDir);
    assert_eq!(clean_action(EntryKind::File), CleanAction::RemoveFile);
    assert_eq!(clean_action(EntryKind::Other), CleanAction::RemoveFile);
}
