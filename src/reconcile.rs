use vstd::prelude::*;

use crate::paths::{
    has_bundle_ancestor, has_extension, is_bundle, is_mac_app, is_part_of_mac_app, join_path,
    joined, path_has_extension, BUNDLE_EXTENSION,
};
use crate::walk::{RelativeEntry, Side};

verus! {

/// What a path holds on disk when it is inspected.
#[derive(Clone, Copy, PartialEq, Eq, Structural, Debug)]
pub enum EntryKind {
    File,
    Directory,
    Missing,
}

/// How two paths given to the synchronization are reconciled.
#[derive(Clone, Copy, PartialEq, Eq, Structural, Debug)]
pub enum Strategy {
    /// Two files: the newer one is copied over the older one.
    MergeFiles,
    /// A file and a directory; `file` says which of the two paths is the file.
    FileWithDir { file: Side },
    /// Two directories, one of them a bundle: the newer replaces the older.
    ReplaceDirs,
    /// Two plain directories: their trees are merged entry by entry.
    MergeDirs,
}

pub open spec fn strategy(
    path1: Seq<char>,
    kind1: EntryKind,
    path2: Seq<char>,
    kind2: EntryKind,
) -> Strategy {
    if kind1 == EntryKind::Directory {
        if kind2 == EntryKind::Directory {
            if has_extension(path1, BUNDLE_EXTENSION@) || has_extension(path2, BUNDLE_EXTENSION@) {
                Strategy::ReplaceDirs
            } else {
                Strategy::MergeDirs
            }
        } else {
            Strategy::FileWithDir { file: Side::Right }
        }
    } else if kind2 == EntryKind::File {
        Strategy::MergeFiles
    } else {
        Strategy::FileWithDir { file: Side::Left }
    }
}

/// Picks the strategy for two paths from what they hold on disk.
pub fn classify(path1: &str, kind1: EntryKind, path2: &str, kind2: EntryKind) -> (r: Strategy)
    ensures
        r == strategy(path1@, kind1, path2@, kind2),
{
    if kind1 == EntryKind::Directory {
        if kind2 == EntryKind::Directory {
            if path_has_extension(path1, BUNDLE_EXTENSION) || path_has_extension(
                path2,
                BUNDLE_EXTENSION,
            ) {
                Strategy::ReplaceDirs
            } else {
                Strategy::MergeDirs
            }
        } else {
            Strategy::FileWithDir { file: Side::Right }
        }
    } else if kind2 == EntryKind::File {
        Strategy::MergeFiles
    } else {
        Strategy::FileWithDir { file: Side::Left }
    }
}

pub open spec fn mirrored(s: Strategy) -> Strategy {
    match s {
        Strategy::FileWithDir { file } => Strategy::FileWithDir { file: file.opposite() },
        _ => s,
    }
}

/// Swapping the two paths, each a file or a directory, picks the same
/// strategy, with the file of a file and a directory still the file.
pub proof fn lemma_strategy_symmetric(
    path1: Seq<char>,
    kind1: EntryKind,
    path2: Seq<char>,
    kind2: EntryKind,
)
    requires
        kind1 != EntryKind::Missing,
        kind2 != EntryKind::Missing,
    ensures
        strategy(path2, kind2, path1, kind1) == mirrored(strategy(path1, kind1, path2, kind2)),
{
}

/// What the merge of two trees does with one visited entry. The entry lies
/// at `path_in_origin` under the root it was found under, and at
/// `path_in_other` under the other root.
#[derive(Clone, Copy, PartialEq, Eq, Structural, Debug)]
pub enum EntryAction {
    /// Nothing to do: already settled, or both sides are plain directories
    /// whose children are visited on their own.
    Nothing,
    /// The file is missing on the other side: copy it there.
    CopyToMissing,
    /// The directory is missing on the other side: create it there, empty.
    CreateDir,
    /// Files on both sides: settle them by modification time.
    MergeFiles,
    /// A file on one side and a directory on the other; `file_in_origin`
    /// says whether the file is the visited one.
    FileWithDir { file_in_origin: bool },
    /// Directories on both sides, the visited one a bundle: the newer
    /// replaces the older whole.
    ReplaceBundle,
}

pub open spec fn entry_action(
    path_in_origin: Seq<char>,
    origin: EntryKind,
    other: EntryKind,
) -> EntryAction {
    if has_bundle_ancestor(path_in_origin) && other != EntryKind::Missing {
        EntryAction::Nothing
    } else {
        match origin {
            EntryKind::File => match other {
                EntryKind::File => EntryAction::MergeFiles,
                EntryKind::Directory => EntryAction::FileWithDir { file_in_origin: true },
                EntryKind::Missing => EntryAction::CopyToMissing,
            },
            EntryKind::Directory => match other {
                EntryKind::Missing => EntryAction::CreateDir,
                EntryKind::File => EntryAction::FileWithDir { file_in_origin: false },
                EntryKind::Directory => if is_bundle(path_in_origin, true) {
                    EntryAction::ReplaceBundle
                } else {
                    EntryAction::Nothing
                },
            },
            EntryKind::Missing => EntryAction::Nothing,
        }
    }
}

/// Decides what to do with a visited entry from what its two locations hold
/// now. An entry inside a bundle that exists on both sides was settled with
/// the bundle; an entry that has gone from where it was found is left alone.
pub fn decide_entry(path_in_origin: &str, origin: EntryKind, other: EntryKind) -> (r: EntryAction)
    ensures
        r == entry_action(path_in_origin@, origin, other),
{
    if other != EntryKind::Missing && is_part_of_mac_app(path_in_origin) {
        return EntryAction::Nothing;
    }
    match origin {
        EntryKind::File => match other {
            EntryKind::File => EntryAction::MergeFiles,
            EntryKind::Directory => EntryAction::FileWithDir { file_in_origin: true },
            EntryKind::Missing => EntryAction::CopyToMissing,
        },
        EntryKind::Directory => match other {
            EntryKind::Missing => EntryAction::CreateDir,
            EntryKind::File => EntryAction::FileWithDir { file_in_origin: false },
            EntryKind::Directory => if is_mac_app(path_in_origin, true) {
                EntryAction::ReplaceBundle
            } else {
                EntryAction::Nothing
            },
        },
        EntryKind::Missing => EntryAction::Nothing,
    }
}

/// Where a visited entry lies: first under the root it was found under, then
/// under the other root.
pub fn locate(left_root: &str, right_root: &str, entry: &RelativeEntry) -> (r: (String, String))
    ensures
        entry.origin == Side::Left ==> r.0@ == joined(left_root@, entry.path@) && r.1@ == joined(
            right_root@,
            entry.path@,
        ),
        entry.origin == Side::Right ==> r.0@ == joined(right_root@, entry.path@) && r.1@
            == joined(left_root@, entry.path@),
{
    let in_left = join_path(left_root, entry.path.as_str());
    let in_right = join_path(right_root, entry.path.as_str());
    match entry.origin {
        Side::Left => (in_left, in_right),
        Side::Right => (in_right, in_left),
    }
}

} // verus!
