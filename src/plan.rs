use vstd::prelude::*;

use crate::paths::{join_path, joined};
use crate::time::{later, latest, latest_modification_time, max_time, Timestamp};
use crate::walk::Side;

verus! {

/// One file system operation, to be performed by the caller in order.
#[derive(Debug, PartialEq, Eq)]
pub enum Step {
    /// Create the missing directories above `path`.
    CreateParentDirs(String),
    /// Create the directory `path`, whose parent exists.
    CreateDir(String),
    /// Copy the content of the file `from` to `to`.
    CopyFile { from: String, to: String },
    /// Set the access and modification times of `path` to `time`.
    SetTime { path: String, time: Timestamp },
    /// Remove the directory `path` and everything under it.
    RemoveDirAll(String),
    /// Remove the file `path`.
    RemoveFile(String),
}

/// A step with its paths as text.
pub enum StepView {
    CreateParentDirs(Seq<char>),
    CreateDir(Seq<char>),
    CopyFile { from: Seq<char>, to: Seq<char> },
    SetTime { path: Seq<char>, time: Timestamp },
    RemoveDirAll(Seq<char>),
    RemoveFile(Seq<char>),
}

impl View for Step {
    type V = StepView;

    open spec fn view(&self) -> StepView {
        match self {
            Step::CreateParentDirs(p) => StepView::CreateParentDirs(p@),
            Step::CreateDir(p) => StepView::CreateDir(p@),
            Step::CopyFile { from, to } => StepView::CopyFile { from: from@, to: to@ },
            Step::SetTime { path, time } => StepView::SetTime { path: path@, time: *time },
            Step::RemoveDirAll(p) => StepView::RemoveDirAll(p@),
            Step::RemoveFile(p) => StepView::RemoveFile(p@),
        }
    }
}

pub open spec fn steps_view(steps: Seq<Step>) -> Seq<StepView> {
    steps.map_values(|s: Step| s@)
}

/// An entry found under a directory that is to be copied: its path relative
/// to that directory, whether it is a directory, and its modification time.
#[derive(Debug, PartialEq, Eq)]
pub struct TreeEntry {
    pub path: String,
    pub is_dir: bool,
    pub modified: Timestamp,
}

/// Which of two times is the newer, if they differ.
pub open spec fn newer(time1: Timestamp, time2: Timestamp) -> Option<Side> {
    if later(time1, time2) {
        Some(Side::Left)
    } else if later(time2, time1) {
        Some(Side::Right)
    } else {
        None
    }
}

/// Tells which of two times is the newer: `Left` for the first, `Right` for
/// the second, none when they are equal.
pub fn newer_side(time1: Timestamp, time2: Timestamp) -> (r: Option<Side>)
    ensures
        r == newer(time1, time2),
{
    if time1.is_later_than(&time2) {
        Some(Side::Left)
    } else if time2.is_later_than(&time1) {
        Some(Side::Right)
    } else {
        None
    }
}

/// Copying a newer file over an older one, then giving both the newer time.
pub open spec fn settle_steps(source: Seq<char>, target: Seq<char>, time: Timestamp) -> Seq<StepView> {
    seq![
        StepView::CreateParentDirs(target),
        StepView::CopyFile { from: source, to: target },
        StepView::SetTime { path: target, time },
        StepView::SetTime { path: source, time },
    ]
}

pub open spec fn file_merge_steps(
    path1: Seq<char>,
    time1: Timestamp,
    path2: Seq<char>,
    time2: Timestamp,
) -> Seq<StepView> {
    match newer(time1, time2) {
        Some(Side::Left) => settle_steps(path1, path2, time1),
        Some(Side::Right) => settle_steps(path2, path1, time2),
        None => Seq::empty(),
    }
}

/// The two steps that bring one entry of a copied tree to the target.
pub open spec fn entry_copy_steps(
    source: Seq<char>,
    target: Seq<char>,
    entry: TreeEntry,
    time: Timestamp,
) -> Seq<StepView> {
    let to = joined(target, entry.path@);
    seq![
        if entry.is_dir {
            StepView::CreateDir(to)
        } else {
            StepView::CopyFile { from: joined(source, entry.path@), to }
        },
        StepView::SetTime { path: to, time },
    ]
}

pub open spec fn copy_body(
    source: Seq<char>,
    target: Seq<char>,
    entries: Seq<TreeEntry>,
    time: Timestamp,
) -> Seq<StepView>
    decreases entries.len(),
{
    if entries.len() == 0 {
        Seq::empty()
    } else {
        copy_body(source, target, entries.drop_last(), time) + entry_copy_steps(
            source,
            target,
            entries.last(),
            time,
        )
    }
}

/// Copying every listed entry of `source` into the existing directory
/// `target`, stamping each copy, and then `target` itself, with `time`.
pub open spec fn copy_dir_steps(
    source: Seq<char>,
    target: Seq<char>,
    entries: Seq<TreeEntry>,
    time: Timestamp,
) -> Seq<StepView> {
    copy_body(source, target, entries, time).push(StepView::SetTime { path: target, time })
}

pub open spec fn entry_times(entries: Seq<TreeEntry>) -> Seq<Timestamp> {
    entries.map_values(|e: TreeEntry| e.modified)
}

pub open spec fn file_with_dir_steps(
    file: Seq<char>,
    file_time: Timestamp,
    dir: Seq<char>,
    entries: Seq<TreeEntry>,
) -> Seq<StepView> {
    let watermark = latest(entry_times(entries));
    if later(file_time, watermark) {
        seq![
            StepView::RemoveDirAll(dir),
            StepView::CopyFile { from: file, to: dir },
            StepView::SetTime { path: dir, time: file_time },
        ]
    } else {
        seq![StepView::RemoveFile(file), StepView::CreateDir(file)] + copy_dir_steps(
            dir,
            file,
            entries,
            watermark,
        )
    }
}

/// Replacing the directory `target` whole by a copy of `source`.
pub open spec fn replace_steps(
    source: Seq<char>,
    target: Seq<char>,
    entries: Seq<TreeEntry>,
    time: Timestamp,
) -> Seq<StepView> {
    seq![StepView::RemoveDirAll(target), StepView::CreateDir(target)] + copy_dir_steps(
        source,
        target,
        entries,
        time,
    )
}

pub open spec fn dirs_replace_steps(
    dir1: Seq<char>,
    time1: Timestamp,
    dir2: Seq<char>,
    time2: Timestamp,
    newer_entries: Seq<TreeEntry>,
) -> Seq<StepView> {
    match newer(time1, time2) {
        Some(Side::Left) => replace_steps(dir1, dir2, newer_entries, time1),
        Some(Side::Right) => replace_steps(dir2, dir1, newer_entries, time2),
        None => Seq::empty(),
    }
}

pub open spec fn copy_to_missing_steps(from: Seq<char>, to: Seq<char>, is_dir: bool) -> Seq<StepView> {
    if is_dir {
        seq![StepView::CreateDir(to)]
    } else {
        seq![StepView::CreateParentDirs(to), StepView::CopyFile { from, to }]
    }
}

proof fn lemma_view_push(steps: Seq<Step>, s: Step)
    ensures
        steps_view(steps.push(s)) == steps_view(steps).push(s@),
{
    assert(steps_view(steps.push(s)) =~= steps_view(steps).push(s@));
}

fn push_step(steps: &mut Vec<Step>, s: Step)
    ensures
        steps_view(final(steps)@) == steps_view(old(steps)@).push(s@),
{
    proof {
        lemma_view_push(old(steps)@, s);
    }
    steps.push(s);
}

fn path_copy(p: &String) -> (r: String)
    ensures
        r@ == p@,
{
    p.as_str().to_owned()
}

/// Appends the steps that copy the listed entries of `source` into `target`.
fn append_copy_steps(
    steps: &mut Vec<Step>,
    source: &str,
    target: &str,
    entries: &Vec<TreeEntry>,
    time: Timestamp,
)
    ensures
        steps_view(final(steps)@) == steps_view(old(steps)@) + copy_dir_steps(
            source@,
            target@,
            entries@,
            time,
        ),
{
    let ghost start = steps_view(steps@);
    let mut i: usize = 0;
    while i < entries.len()
        invariant
            i <= entries@.len(),
            steps_view(steps@) == start + copy_body(source@, target@, entries@.subrange(0, i as int), time),
        decreases entries@.len() - i,
    {
        let e = &entries[i];
        let to = join_path(target, e.path.as_str());
        let first = if e.is_dir {
            Step::CreateDir(path_copy(&to))
        } else {
            Step::CopyFile { from: join_path(source, e.path.as_str()), to: path_copy(&to) }
        };
        push_step(steps, first);
        push_step(steps, Step::SetTime { path: to, time });
        assert(entries@.subrange(0, i + 1).drop_last() == entries@.subrange(0, i as int));
        assert(entries@.subrange(0, i + 1).last() == entries@[i as int]);
        assert(steps_view(steps@) =~= start + copy_body(source@, target@, entries@.subrange(0, i + 1), time));
        i = i + 1;
    }
    assert(entries@.subrange(0, i as int) == entries@);
    push_step(steps, Step::SetTime { path: target.to_owned(), time });
    assert(steps_view(steps@) =~= start + copy_dir_steps(source@, target@, entries@, time));
}

/// The steps that copy the listed entries of the directory `source` into the
/// existing directory `target`, each copy and then `target` stamped with
/// `time`. A listed directory is created, a listed file copied.
pub fn plan_copy_dir(source: &str, target: &str, entries: &Vec<TreeEntry>, time: Timestamp) -> (r:
    Vec<Step>)
    ensures
        steps_view(r@) == copy_dir_steps(source@, target@, entries@, time),
{
    let mut steps: Vec<Step> = Vec::new();
    assert(steps_view(steps@) =~= Seq::empty());
    append_copy_steps(&mut steps, source, target, entries, time);
    assert(steps_view(steps@) =~= copy_dir_steps(source@, target@, entries@, time));
    steps
}

/// The steps that settle two files at the same relative path: none when their
/// times are equal, else the newer is copied over the older and both get the
/// newer time.
pub fn plan_file_merge(path1: &str, time1: Timestamp, path2: &str, time2: Timestamp) -> (r: Vec<Step>)
    ensures
        steps_view(r@) == file_merge_steps(path1@, time1, path2@, time2),
{
    let (source, target, time) = match newer_side(time1, time2) {
        Some(Side::Left) => (path1, path2, time1),
        Some(Side::Right) => (path2, path1, time2),
        None => {
            let none: Vec<Step> = Vec::new();
            assert(steps_view(none@) =~= Seq::empty());
            return none;
        },
    };
    let mut steps: Vec<Step> = Vec::new();
    assert(steps_view(steps@) =~= Seq::empty());
    push_step(&mut steps, Step::CreateParentDirs(target.to_owned()));
    push_step(&mut steps, Step::CopyFile { from: source.to_owned(), to: target.to_owned() });
    push_step(&mut steps, Step::SetTime { path: target.to_owned(), time });
    push_step(&mut steps, Step::SetTime { path: source.to_owned(), time });
    assert(steps_view(steps@) =~= settle_steps(source@, target@, time));
    steps
}

/// The steps that settle a file against a directory at the same relative
/// path. The directory's watermark is the latest time among the listed
/// entries under it. A file newer than that replaces the directory and keeps
/// its own time; otherwise the directory replaces the file, with every copied
/// entry and the new directory stamped with the watermark.
pub fn plan_file_with_dir(
    file: &str,
    file_time: Timestamp,
    dir: &str,
    entries: &Vec<TreeEntry>,
) -> (r: Vec<Step>)
    ensures
        steps_view(r@) == file_with_dir_steps(file@, file_time, dir@, entries@),
{
    let mut times: Vec<Timestamp> = Vec::new();
    let mut i: usize = 0;
    while i < entries.len()
        invariant
            i <= entries@.len(),
            times@ == entry_times(entries@.subrange(0, i as int)),
        decreases entries@.len() - i,
    {
        times.push(entries[i].modified);
        i = i + 1;
        assert(times@ =~= entry_times(entries@.subrange(0, i as int)));
    }
    assert(entries@.subrange(0, i as int) == entries@);
    let watermark = latest_modification_time(&times);
    let mut steps: Vec<Step> = Vec::new();
    assert(steps_view(steps@) =~= Seq::empty());
    if file_time.is_later_than(&watermark) {
        push_step(&mut steps, Step::RemoveDirAll(dir.to_owned()));
        push_step(&mut steps, Step::CopyFile { from: file.to_owned(), to: dir.to_owned() });
        push_step(&mut steps, Step::SetTime { path: dir.to_owned(), time: file_time });
    } else {
        push_step(&mut steps, Step::RemoveFile(file.to_owned()));
        push_step(&mut steps, Step::CreateDir(file.to_owned()));
        append_copy_steps(&mut steps, dir, file, entries, watermark);
    }
    assert(steps_view(steps@) =~= file_with_dir_steps(file@, file_time, dir@, entries@));
    steps
}

/// The steps that settle two directories of which one is a bundle, from their
/// own modification times: none when equal, else the older is removed and
/// replaced by a copy of the newer, whose entries `newer_entries` lists, with
/// everything in the copy stamped with the newer time.
pub fn plan_dirs_replace(
    dir1: &str,
    time1: Timestamp,
    dir2: &str,
    time2: Timestamp,
    newer_entries: &Vec<TreeEntry>,
) -> (r: Vec<Step>)
    ensures
        steps_view(r@) == dirs_replace_steps(dir1@, time1, dir2@, time2, newer_entries@),
{
    let (source, target, time) = match newer_side(time1, time2) {
        Some(Side::Left) => (dir1, dir2, time1),
        Some(Side::Right) => (dir2, dir1, time2),
        None => {
            let none: Vec<Step> = Vec::new();
            assert(steps_view(none@) =~= Seq::empty());
            return none;
        },
    };
    let mut steps: Vec<Step> = Vec::new();
    assert(steps_view(steps@) =~= Seq::empty());
    push_step(&mut steps, Step::RemoveDirAll(target.to_owned()));
    push_step(&mut steps, Step::CreateDir(target.to_owned()));
    append_copy_steps(&mut steps, source, target, newer_entries, time);
    assert(steps_view(steps@) =~= replace_steps(source@, target@, newer_entries@, time));
    steps
}

/// The steps that bring an entry to the other side, where it is missing: a
/// directory is created empty; a file is copied, after the directories above
/// it. The copy keeps the time the file system gives it.
pub fn plan_copy_to_missing(from: &str, to: &str, is_dir: bool) -> (r: Vec<Step>)
    ensures
        steps_view(r@) == copy_to_missing_steps(from@, to@, is_dir),
{
    let mut steps: Vec<Step> = Vec::new();
    assert(steps_view(steps@) =~= Seq::empty());
    if is_dir {
        push_step(&mut steps, Step::CreateDir(to.to_owned()));
    } else {
        push_step(&mut steps, Step::CreateParentDirs(to.to_owned()));
        push_step(&mut steps, Step::CopyFile { from: from.to_owned(), to: to.to_owned() });
    }
    assert(steps_view(steps@) =~= copy_to_missing_steps(from@, to@, is_dir));
    steps
}

proof fn lemma_copy_body(
    source: Seq<char>,
    target: Seq<char>,
    entries: Seq<TreeEntry>,
    time: Timestamp,
)
    ensures
        copy_body(source, target, entries, time).len() == 2 * entries.len(),
        forall|i: int|
            0 <= i < entries.len() ==> #[trigger] copy_body(source, target, entries, time)[2 * i]
                == entry_copy_steps(source, target, entries[i], time)[0],
        forall|i: int|
            0 <= i < entries.len() ==> #[trigger] copy_body(source, target, entries, time)[2 * i
                + 1] == entry_copy_steps(source, target, entries[i], time)[1],
    decreases entries.len(),
{
    if entries.len() > 0 {
        let init = entries.drop_last();
        lemma_copy_body(source, target, init, time);
        let body = copy_body(source, target, entries, time);
        let prev = copy_body(source, target, init, time);
        let last = entry_copy_steps(source, target, entries.last(), time);
        assert(body == prev + last);
        assert forall|i: int| 0 <= i < entries.len() implies #[trigger] body[2 * i]
            == entry_copy_steps(source, target, entries[i], time)[0] && body[2 * i + 1]
            == entry_copy_steps(source, target, entries[i], time)[1] by {
            if i < init.len() {
                assert(init[i] == entries[i]);
                assert(prev[2 * i] == entry_copy_steps(source, target, init[i], time)[0]);
                assert(prev[2 * i + 1] == entry_copy_steps(source, target, init[i], time)[1]);
                assert(body[2 * i] == prev[2 * i]);
                assert(body[2 * i + 1] == prev[2 * i + 1]);
            } else {
                assert(entries[i] == entries.last());
                assert(body[2 * i] == last[0]);
                assert(body[2 * i + 1] == last[1]);
            }
        }
        assert forall|i: int| 0 <= i < entries.len() implies #[trigger] body[2 * i + 1]
            == entry_copy_steps(source, target, entries[i], time)[1] by {
            assert(body[2 * i] == entry_copy_steps(source, target, entries[i], time)[0]);
        }
    }
}

/// Settling two files gives the same steps whichever of them is named first.
pub proof fn lemma_file_merge_order_independent(
    path1: Seq<char>,
    time1: Timestamp,
    path2: Seq<char>,
    time2: Timestamp,
)
    ensures
        file_merge_steps(path1, time1, path2, time2) == file_merge_steps(path2, time2, path1, time1),
{
}

/// Settling two files is done once: two files with equal times need no step,
/// and two files with different times both end stamped with the later time,
/// after which they need no step.
pub proof fn lemma_file_merge_fixed_point(
    path1: Seq<char>,
    time1: Timestamp,
    path2: Seq<char>,
    time2: Timestamp,
)
    ensures
        file_merge_steps(path1, time1, path2, time2).len() == 0 <==> time1 == time2,
        time1 != time2 ==> file_merge_steps(path1, time1, path2, time2).contains(
            StepView::SetTime { path: path1, time: max_time(time1, time2) },
        ) && file_merge_steps(path1, time1, path2, time2).contains(
            StepView::SetTime { path: path2, time: max_time(time1, time2) },
        ),
{
    if time1 != time2 {
        let m = max_time(time1, time2);
        let s = file_merge_steps(path1, time1, path2, time2);
        if later(time1, time2) {
            assert(s[3] == StepView::SetTime { path: path1, time: m });
            assert(s[2] == StepView::SetTime { path: path2, time: m });
        } else {
            assert(s[2] == StepView::SetTime { path: path1, time: m });
            assert(s[3] == StepView::SetTime { path: path2, time: m });
        }
    }
}

/// Settling two bundles gives the same steps whichever of them is named
/// first, given the listing of the newer one.
pub proof fn lemma_dirs_replace_order_independent(
    dir1: Seq<char>,
    time1: Timestamp,
    dir2: Seq<char>,
    time2: Timestamp,
    newer_entries: Seq<TreeEntry>,
)
    ensures
        dirs_replace_steps(dir1, time1, dir2, time2, newer_entries) == dirs_replace_steps(
            dir2,
            time2,
            dir1,
            time1,
            newer_entries,
        ),
{
}

/// The time a step stamps, if it stamps one.
pub open spec fn stamped_time(step: StepView) -> Option<Timestamp> {
    match step {
        StepView::SetTime { time, .. } => Some(time),
        _ => None,
    }
}

/// A bundle is replaced whole: when the first directory is newer, the second
/// is removed and created anew, each listed entry is brought into it and
/// stamped with the first directory's time, and the second directory itself
/// is stamped last with that time; no step stamps another time. Once both
/// carry that time, nothing is done.
pub proof fn lemma_bundle_replace_stamps(
    dir1: Seq<char>,
    time1: Timestamp,
    dir2: Seq<char>,
    time2: Timestamp,
    entries: Seq<TreeEntry>,
)
    requires
        later(time1, time2),
    ensures
        dirs_replace_steps(dir1, time1, dir2, time2, entries) == seq![
            StepView::RemoveDirAll(dir2),
            StepView::CreateDir(dir2),
        ] + copy_dir_steps(dir1, dir2, entries, time1),
        copy_dir_steps(dir1, dir2, entries, time1).len() == 2 * entries.len() + 1,
        forall|i: int|
            0 <= i < entries.len() ==> #[trigger] copy_dir_steps(dir1, dir2, entries, time1)[2 * i]
                == entry_copy_steps(dir1, dir2, entries[i], time1)[0],
        forall|i: int|
            0 <= i < entries.len() ==> #[trigger] copy_dir_steps(dir1, dir2, entries, time1)[2 * i
                + 1] == entry_copy_steps(dir1, dir2, entries[i], time1)[1],
        copy_dir_steps(dir1, dir2, entries, time1).last() == (StepView::SetTime {
            path: dir2,
            time: time1,
        }),
        forall|k: int|
            0 <= k < dirs_replace_steps(dir1, time1, dir2, time2, entries).len() ==> (
            #[trigger] stamped_time(dirs_replace_steps(dir1, time1, dir2, time2, entries)[k]))
                is None || stamped_time(dirs_replace_steps(dir1, time1, dir2, time2, entries)[k])
                == Some(time1),
        dirs_replace_steps(dir1, time1, dir2, time1, entries).len() == 0,
{
    lemma_copy_body(dir1, dir2, entries, time1);
    let body = copy_body(dir1, dir2, entries, time1);
    let c = copy_dir_steps(dir1, dir2, entries, time1);
    let s = dirs_replace_steps(dir1, time1, dir2, time2, entries);
    assert forall|i: int| 0 <= i < entries.len() implies #[trigger] c[2 * i] == body[2 * i] && c[2
        * i + 1] == body[2 * i + 1] by {
        assert(body[2 * i] == entry_copy_steps(dir1, dir2, entries[i], time1)[0]);
    }
    assert forall|i: int| 0 <= i < entries.len() implies #[trigger] c[2 * i + 1]
        == entry_copy_steps(dir1, dir2, entries[i], time1)[1] by {
        assert(body[2 * i] == entry_copy_steps(dir1, dir2, entries[i], time1)[0]);
    }
    assert forall|k: int| 0 <= k < s.len() implies (#[trigger] stamped_time(s[k])) is None
        || stamped_time(s[k]) == Some(time1) by {
        if 2 <= k < s.len() - 1 {
            let i = (k - 2) / 2;
            assert(0 <= i < entries.len());
            assert(body[2 * i] == entry_copy_steps(dir1, dir2, entries[i], time1)[0]);
            if k % 2 == 0 {
                assert(s[k] == body[2 * i]);
            } else {
                assert(s[k] == body[2 * i + 1]);
            }
        }
    }
}

} // verus!
