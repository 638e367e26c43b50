use keep_keeping::{
    newer_side, plan_copy_dir, plan_copy_to_missing, plan_dirs_replace, plan_file_merge,
    plan_file_with_dir, Side, Step, Timestamp, TreeEntry,
};

fn at(seconds: i64) -> Timestamp {
    Timestamp { seconds, nanos: 0 }
}

fn s(text: &str) -> String {
    String::from(text)
}

fn entry(path: &str, is_dir: bool, seconds: i64) -> TreeEntry {
    TreeEntry { path: s(path), is_dir, modified: at(seconds) }
}

#[test]
fn newer_side_of_times() {
    assert_eq!(newer_side(at(2), at(1)), Some(Side::Left));
    assert_eq!(newer_side(at(1), at(2)), Some(Side::Right));
    assert_eq!(newer_side(at(1), at(1)), None);
}

#[test]
fn file_merge_newer_wins() {
    // fileA has time 10 (content "A"), fileB time 20 (content "B"): B is
    // copied over A and both end with time 20.
    let steps = plan_file_merge("A/f", at(10), "B/f", at(20));
    assert_eq!(
        steps,
        vec![
            Step::CreateParentDirs(s("A/f")),
            Step::CopyFile { from: s("B/f"), to: s("A/f") },
            Step::SetTime { path: s("A/f"), time: at(20) },
            Step::SetTime { path: s("B/f"), time: at(20) },
        ]
    );
}

#[test]
fn file_merge_same_either_way() {
    let one = plan_file_merge("A/f", at(10), "B/f", at(20));
    let two = plan_file_merge("B/f", at(20), "A/f", at(10));
    assert_eq!(one, two);
}

#[test]
fn file_merge_equal_times_is_nothing() {
    assert!(plan_file_merge("A/f", at(20), "B/f", at(20)).is_empty());
}

#[test]
fn copy_dir_stamps_everything() {
    let entries = vec![entry("d", true, 1), entry("d/f", false, 2)];
    let steps = plan_copy_dir("S", "T", &entries, at(9));
    assert_eq!(
        steps,
        vec![
            Step::CreateDir(s("T/d")),
            Step::SetTime { path: s("T/d"), time: at(9) },
            Step::CopyFile { from: s("S/d/f"), to: s("T/d/f") },
            Step::SetTime { path: s("T/d/f"), time: at(9) },
            Step::SetTime { path: s("T"), time: at(9) },
        ]
    );
}

#[test]
fn copy_dir_of_empty_directory() {
    assert_eq!(plan_copy_dir("S", "T", &Vec::new(), at(3)), vec![Step::SetTime { path: s("T"), time: at(3) }]);
}

#[test]
fn file_newer_than_directory_replaces_it() {
    let entries = vec![entry("a", false, 5), entry("b", false, 7)];
    let steps = plan_file_with_dir("L/x", at(8), "R/x", &entries);
    assert_eq!(
        steps,
        vec![
            Step::RemoveDirAll(s("R/x")),
            Step::CopyFile { from: s("L/x"), to: s("R/x") },
            Step::SetTime { path: s("R/x"), time: at(8) },
        ]
    );
}

#[test]
fn directory_newer_than_file_replaces_it() {
    let entries = vec![entry("a", false, 5), entry("b", false, 7)];
    let steps = plan_file_with_dir("L/x", at(7), "R/x", &entries);
    assert_eq!(
        steps,
        vec![
            Step::RemoveFile(s("L/x")),
            Step::CreateDir(s("L/x")),
            Step::CopyFile { from: s("R/x/a"), to: s("L/x/a") },
            Step::SetTime { path: s("L/x/a"), time: at(7) },
            Step::CopyFile { from: s("R/x/b"), to: s("L/x/b") },
            Step::SetTime { path: s("L/x/b"), time: at(7) },
            Step::SetTime { path: s("L/x"), time: at(7) },
        ]
    );
}

#[test]
fn file_with_empty_directory() {
    // An empty directory's watermark is the epoch: a file after it wins.
    let steps = plan_file_with_dir("L/x", at(1), "R/x", &Vec::new());
    assert_eq!(steps[0], Step::RemoveDirAll(s("R/x")));
    let steps = plan_file_with_dir("L/x", at(-1), "R/x", &Vec::new());
    assert_eq!(
        steps,
        vec![
            Step::RemoveFile(s("L/x")),
            Step::CreateDir(s("L/x")),
            Step::SetTime { path: s("L/x"), time: at(0) },
        ]
    );
}

#[test]
fn bundle_replaced_whole() {
    // A/App.app has its own time 5, B/App.app 3: B's bundle is replaced by a
    // copy of A's, everything in it stamped 5.
    let entries = vec![entry("Contents", true, 1), entry("Contents/Info.plist", false, 2)];
    let steps = plan_dirs_replace("A/App.app", at(5), "B/App.app", at(3), &entries);
    assert_eq!(
        steps,
        vec![
            Step::RemoveDirAll(s("B/App.app")),
            Step::CreateDir(s("B/App.app")),
            Step::CreateDir(s("B/App.app/Contents")),
            Step::SetTime { path: s("B/App.app/Contents"), time: at(5) },
            Step::CopyFile {
                from: s("A/App.app/Contents/Info.plist"),
                to: s("B/App.app/Contents/Info.plist"),
            },
            Step::SetTime { path: s("B/App.app/Contents/Info.plist"), time: at(5) },
            Step::SetTime { path: s("B/App.app"), time: at(5) },
        ]
    );
    let swapped = plan_dirs_replace("B/App.app", at(3), "A/App.app", at(5), &entries);
    assert_eq!(steps, swapped);
}

#[test]
fn bundles_with_equal_times_stay() {
    let entries = vec![entry("Contents", true, 1)];
    assert!(plan_dirs_replace("A/App.app", at(5), "B/App.app", at(5), &entries).is_empty());
}

#[test]
fn copy_to_missing_steps() {
    assert_eq!(
        plan_copy_to_missing("A/sub/file.txt", "B/sub/file.txt", false),
        vec![
            Step::CreateParentDirs(s("B/sub/file.txt")),
            Step::CopyFile { from: s("A/sub/file.txt"), to: s("B/sub/file.txt") },
        ]
    );
    assert_eq!(plan_copy_to_missing("A/sub", "B/sub", true), vec![Step::CreateDir(s("B/sub"))]);
}
