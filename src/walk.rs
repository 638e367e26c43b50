use vstd::prelude::*;

use crate::paths::{relative_path, trim_base_path};
use crate::policy::{scan_flow, ErrorHandlingType, Flow};

verus! {

/// One of the two roots being synchronized.
#[derive(Clone, Copy, PartialEq, Eq, Structural, Debug)]
pub enum Side {
    Left,
    Right,
}

impl Side {
    pub open spec fn opposite(self) -> Side {
        match self {
            Side::Left => Side::Right,
            Side::Right => Side::Left,
        }
    }
}

/// What a walk of a directory tree produced at one step, as the caller saw it.
#[derive(Debug, PartialEq, Eq)]
pub enum WalkItem {
    /// An entry whose path is text.
    Found { path: String, is_symlink: bool },
    /// An entry whose path cannot be read as text.
    Undecodable,
    /// The step failed; the error policy answered with this decision.
    Failed(ErrorHandlingType),
}

/// An entry of a tree, named by its path relative to the root it was found
/// under.
#[derive(Debug, PartialEq, Eq)]
pub struct RelativeEntry {
    pub origin: Side,
    pub path: String,
    pub is_symlink: bool,
}

/// What becomes of one walk step.
#[derive(Debug, PartialEq, Eq)]
pub enum WalkOutcome {
    /// The entry is to be visited.
    Visit(RelativeEntry),
    /// The step yields nothing; the walk goes on.
    Omit,
    /// The walk, and the work that needed it, is given up as done.
    Abandon,
    /// The whole synchronization stops with a failure.
    Abort,
}

/// Turns one step of a walk under `root` into an entry to visit. An entry
/// that is not text, or that does not lie under `root`, is left out without
/// consulting the error policy; a failed step goes as the policy decided.
pub fn entry_from_walk(root: &str, origin: Side, item: WalkItem) -> (r: WalkOutcome)
    ensures
        match item {
            WalkItem::Failed(d) => match scan_flow(d) {
                Flow::Continue => r is Omit,
                Flow::Abandon => r is Abandon,
                Flow::Abort => r is Abort,
            },
            WalkItem::Undecodable => r is Omit,
            WalkItem::Found { path, is_symlink } => match relative_path(root@, path@) {
                Some(rel) => r matches WalkOutcome::Visit(e) && e.origin == origin && e.path@ == rel
                    && e.is_symlink == is_symlink,
                None => r is Omit,
            },
        },
{
    match item {
        WalkItem::Failed(d) => match crate::policy::after_scan_error(d) {
            Flow::Continue => WalkOutcome::Omit,
            Flow::Abandon => WalkOutcome::Abandon,
            Flow::Abort => WalkOutcome::Abort,
        },
        WalkItem::Undecodable => WalkOutcome::Omit,
        WalkItem::Found { path, is_symlink } => match trim_base_path(root, path.as_str()) {
            Some(rel) => WalkOutcome::Visit(RelativeEntry { origin, path: rel, is_symlink }),
            None => WalkOutcome::Omit,
        },
    }
}

/// Whether an entry is visited by the merge: every entry of the left walk
/// is, and an entry of the right walk only when its path does not exist under
/// the left root (it was, or will be, settled from there).
pub open spec fn visited(origin: Side, exists_under_left: bool) -> bool {
    origin == Side::Left || !exists_under_left
}

/// Whether the merge visits an entry found under the root `origin`, given
/// whether its path exists under the left root when it is reached.
pub fn is_visited(origin: Side, exists_under_left: bool) -> (r: bool)
    ensures
        r == visited(origin, exists_under_left),
{
    match origin {
        Side::Left => true,
        Side::Right => !exists_under_left,
    }
}

/// The right walk's paths that the merge visits, in walk order.
pub open spec fn right_visits(right: Seq<Seq<char>>, under_left: Set<Seq<char>>) -> Seq<Seq<char>>
    decreases right.len(),
{
    if right.len() == 0 {
        Seq::empty()
    } else {
        let rest = right_visits(right.drop_last(), under_left);
        if visited(Side::Right, under_left.contains(right.last())) {
            rest.push(right.last())
        } else {
            rest
        }
    }
}

/// The merge's visits, each with the root it is made from: the left walk in
/// order, then what the right walk adds.
pub open spec fn visit_order(
    left: Seq<Seq<char>>,
    right: Seq<Seq<char>>,
    under_left: Set<Seq<char>>,
) -> Seq<(Side, Seq<char>)> {
    left.map_values(|p: Seq<char>| (Side::Left, p)) + right_visits(right, under_left).map_values(
        |p: Seq<char>| (Side::Right, p),
    )
}

proof fn lemma_right_visits(right: Seq<Seq<char>>, under_left: Set<Seq<char>>)
    ensures
        forall|p: Seq<char>| #[trigger]
            right_visits(right, under_left).contains(p) <==> (right.contains(p)
                && !under_left.contains(p)),
        right.no_duplicates() ==> right_visits(right, under_left).no_duplicates(),
    decreases right.len(),
{
    if right.len() > 0 {
        let init = right.drop_last();
        lemma_right_visits(init, under_left);
        assert forall|p: Seq<char>| right.contains(p) <==> (init.contains(p) || p == right.last()) by {
            if right.contains(p) {
                let i = choose|i: int| 0 <= i < right.len() && right[i] == p;
                if i < right.len() - 1 {
                    assert(init[i] == p);
                }
            }
            if init.contains(p) {
                let i = choose|i: int| 0 <= i < init.len() && init[i] == p;
                assert(right[i] == p);
            }
            if p == right.last() {
                assert(right[right.len() - 1] == p);
            }
        }
        let rest = right_visits(init, under_left);
        assert forall|p: Seq<char>| #[trigger]
            right_visits(right, under_left).contains(p) <==> (right.contains(p)
                && !under_left.contains(p)) by {
            if !under_left.contains(right.last()) {
                assert(rest.push(right.last()).contains(p) <==> (rest.contains(p) || p
                    == right.last())) by {
                    if rest.push(right.last()).contains(p) {
                        let i = choose|i: int|
                            0 <= i < rest.len() + 1 && rest.push(right.last())[i] == p;
                        if i < rest.len() {
                            assert(rest[i] == p);
                        }
                    }
                    if rest.contains(p) {
                        let i = choose|i: int| 0 <= i < rest.len() && rest[i] == p;
                        assert(rest.push(right.last())[i] == p);
                    }
                    if p == right.last() {
                        assert(rest.push(right.last())[rest.len() as int] == p);
                    }
                }
            }
        }
        if right.no_duplicates() {
            assert(init.no_duplicates()) by {
                assert forall|i: int, j: int|
                    0 <= i < init.len() && 0 <= j < init.len() && i != j implies init[i]
                    != init[j] by {
                    assert(init[i] == right[i] && init[j] == right[j]);
                }
            }
            assert(!init.contains(right.last())) by {
                if init.contains(right.last()) {
                    let i = choose|i: int| 0 <= i < init.len() && init[i] == right.last();
                    assert(right[i] == right[right.len() - 1]);
                }
            }
            if !under_left.contains(right.last()) {
                let v = rest.push(right.last());
                assert forall|i: int, j: int|
                    0 <= i < v.len() && 0 <= j < v.len() && i != j implies v[i] != v[j] by {
                    if i == rest.len() {
                        assert(rest.contains(v[j]));
                    } else if j == rest.len() {
                        assert(rest.contains(v[i]));
                    }
                }
            }
        }
    }
}

/// No double visit: when each walk yields a path at most once, and every
/// path of the left walk exists under the left root, the merge visits no
/// relative path twice. A path of the left walk is visited from the left
/// root, and a path that only the right walk yields from the right root.
pub proof fn lemma_no_double_visit(
    left: Seq<Seq<char>>,
    right: Seq<Seq<char>>,
    under_left: Set<Seq<char>>,
)
    requires
        left.no_duplicates(),
        right.no_duplicates(),
        forall|p: Seq<char>| #[trigger] left.contains(p) ==> under_left.contains(p),
    ensures
        forall|i: int, j: int|
            0 <= i < j < visit_order(left, right, under_left).len() ==> (#[trigger] visit_order(
                left,
                right,
                under_left,
            )[i]).1 != (#[trigger] visit_order(left, right, under_left)[j]).1,
        forall|p: Seq<char>| #[trigger]
            left.contains(p) ==> visit_order(left, right, under_left).contains((Side::Left, p)),
        forall|p: Seq<char>| #[trigger]
            right.contains(p) && !under_left.contains(p) ==> visit_order(
                left,
                right,
                under_left,
            ).contains((Side::Right, p)),
{
    lemma_right_visits(right, under_left);
    let rv = right_visits(right, under_left);
    let lm = left.map_values(|p: Seq<char>| (Side::Left, p));
    let rm = rv.map_values(|p: Seq<char>| (Side::Right, p));
    let v = visit_order(left, right, under_left);
    assert(v == lm + rm);
    assert forall|i: int, j: int| 0 <= i < j < v.len() implies (#[trigger] v[i]).1 != (
    #[trigger] v[j]).1 by {
        if j < left.len() {
            assert(v[i].1 == left[i] && v[j].1 == left[j]);
        } else if i < left.len() {
            assert(v[i].1 == left[i]);
            assert(v[j].1 == rv[j - left.len()]);
            assert(left.contains(left[i]));
            assert(rv.contains(rv[j - left.len()]));
        } else {
            assert(v[i].1 == rv[i - left.len()] && v[j].1 == rv[j - left.len()]);
        }
    }
    assert forall|p: Seq<char>| #[trigger] left.contains(p) implies v.contains((Side::Left, p)) by {
        let i = choose|i: int| 0 <= i < left.len() && left[i] == p;
        assert(v[i] == (Side::Left, p));
    }
    assert forall|p: Seq<char>| #[trigger]
        right.contains(p) && !under_left.contains(p) implies v.contains((Side::Right, p)) by {
        assert(rv.contains(p));
        let i = choose|i: int| 0 <= i < rv.len() && rv[i] == p;
        assert(v[left.len() + i] == (Side::Right, p));
    }
}

} // verus!
