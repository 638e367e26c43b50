use keep_keeping::{
    entry_from_walk, is_visited, ErrorHandlingType, RelativeEntry, Side, WalkItem, WalkOutcome,
};

fn found(path: &str) -> WalkItem {
    WalkItem::Found { path: String::from(path), is_symlink: false }
}

#[test]
fn walk_entry_becomes_relative() {
    let outcome = entry_from_walk("/a/root", Side::Left, found("/a/root/sub/file.txt"));
    assert_eq!(
        outcome,
        WalkOutcome::Visit(RelativeEntry {
            origin: Side::Left,
            path: String::from("sub/file.txt"),
            is_symlink: false,
        })
    );
}

#[test]
fn walk_entry_keeps_symlink_flag_and_origin() {
    let item = WalkItem::Found { path: String::from("/b/link"), is_symlink: true };
    let outcome = entry_from_walk("/b", Side::Right, item);
    assert_eq!(
        outcome,
        WalkOutcome::Visit(RelativeEntry {
            origin: Side::Right,
            path: String::from("link"),
            is_symlink: true,
        })
    );
}

#[test]
fn undecodable_entry_is_left_out() {
    assert_eq!(entry_from_walk("/a", Side::Left, WalkItem::Undecodable), WalkOutcome::Omit);
    assert_eq!(entry_from_walk("/a", Side::Right, WalkItem::Undecodable), WalkOutcome::Omit);
}

#[test]
fn entry_outside_root_is_left_out() {
    assert_eq!(entry_from_walk("/a/root", Side::Left, found("/b/x")), WalkOutcome::Omit);
}

#[test]
fn failed_walk_step_follows_policy() {
    let fail = entry_from_walk("/a", Side::Left, WalkItem::Failed(ErrorHandlingType::Fail));
    let skip = entry_from_walk("/a", Side::Left, WalkItem::Failed(ErrorHandlingType::Skip));
    let ignore = entry_from_walk("/a", Side::Left, WalkItem::Failed(ErrorHandlingType::Ignore));
    assert_eq!(fail, WalkOutcome::Abort);
    assert_eq!(skip, WalkOutcome::Abandon);
    assert_eq!(ignore, WalkOutcome::Omit);
}

#[test]
fn path_on_both_sides_is_visited_once() {
    // "shared" is found by both walks; the left walk visits it, and the
    // right walk finds it under the left root and passes it by.
    let left = entry_from_walk("/l", Side::Left, found("/l/shared"));
    let right = entry_from_walk("/r", Side::Right, found("/r/shared"));
    match (left, right) {
        (WalkOutcome::Visit(l), WalkOutcome::Visit(r)) => {
            assert_eq!(l.path, r.path);
            assert!(is_visited(l.origin, true));
            assert!(!is_visited(r.origin, true));
        }
        _ => panic!("both entries lie under their roots"),
    }
    assert!(is_visited(Side::Right, false));
}
