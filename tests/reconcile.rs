use keep_keeping::{
    classify, decide_entry, locate, EntryAction, EntryKind, RelativeEntry, Side, Strategy,
};

#[test]
fn classify_two_directories() {
    let s = classify("/a", EntryKind::Directory, "/b", EntryKind::Directory);
    assert_eq!(s, Strategy::MergeDirs);
}

#[test]
fn classify_bundles() {
    let s1 = classify("/a/X.app", EntryKind::Directory, "/b/X", EntryKind::Directory);
    let s2 = classify("/a/X", EntryKind::Directory, "/b/X.app", EntryKind::Directory);
    assert_eq!(s1, Strategy::ReplaceDirs);
    assert_eq!(s2, Strategy::ReplaceDirs);
}

#[test]
fn classify_files_and_mixed() {
    assert_eq!(classify("/a", EntryKind::File, "/b", EntryKind::File), Strategy::MergeFiles);
    assert_eq!(
        classify("/a", EntryKind::Directory, "/b", EntryKind::File),
        Strategy::FileWithDir { file: Side::Right }
    );
    assert_eq!(
        classify("/a", EntryKind::File, "/b", EntryKind::Directory),
        Strategy::FileWithDir { file: Side::Left }
    );
}

#[test]
fn missing_entry_is_propagated() {
    // Root A holds sub/file.txt, root B nothing: the walk of A yields "sub"
    // before "sub/file.txt".
    assert_eq!(decide_entry("A/sub", EntryKind::Directory, EntryKind::Missing), EntryAction::CreateDir);
    assert_eq!(
        decide_entry("A/sub/file.txt", EntryKind::File, EntryKind::Missing),
        EntryAction::CopyToMissing
    );
}

#[test]
fn decide_entry_files_and_mixed() {
    assert_eq!(decide_entry("A/f", EntryKind::File, EntryKind::File), EntryAction::MergeFiles);
    assert_eq!(
        decide_entry("A/f", EntryKind::File, EntryKind::Directory),
        EntryAction::FileWithDir { file_in_origin: true }
    );
    assert_eq!(
        decide_entry("A/d", EntryKind::Directory, EntryKind::File),
        EntryAction::FileWithDir { file_in_origin: false }
    );
    assert_eq!(decide_entry("A/d", EntryKind::Directory, EntryKind::Directory), EntryAction::Nothing);
}

#[test]
fn decide_entry_bundles() {
    assert_eq!(
        decide_entry("A/App.app", EntryKind::Directory, EntryKind::Directory),
        EntryAction::ReplaceBundle
    );
    assert_eq!(
        decide_entry("A/App.app/Contents", EntryKind::Directory, EntryKind::Directory),
        EntryAction::Nothing
    );
    assert_eq!(
        decide_entry("A/App.app/Contents/Info.plist", EntryKind::File, EntryKind::File),
        EntryAction::Nothing
    );
    assert_eq!(
        decide_entry("A/App.app/new.txt", EntryKind::File, EntryKind::Missing),
        EntryAction::CopyToMissing
    );
}

#[test]
fn decide_entry_gone_from_origin() {
    assert_eq!(decide_entry("A/x", EntryKind::Missing, EntryKind::Missing), EntryAction::Nothing);
    assert_eq!(decide_entry("A/x", EntryKind::Missing, EntryKind::File), EntryAction::Nothing);
}

#[test]
fn locate_joins_both_roots() {
    let entry = RelativeEntry { origin: Side::Left, path: String::from("sub/f"), is_symlink: false };
    assert_eq!(locate("/l", "/r", &entry), (String::from("/l/sub/f"), String::from("/r/sub/f")));
    let entry = RelativeEntry { origin: Side::Right, path: String::from("g"), is_symlink: false };
    assert_eq!(locate("/l", "/r", &entry), (String::from("/r/g"), String::from("/l/g")));
}
