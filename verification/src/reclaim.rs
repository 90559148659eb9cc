//! Deleting a log, and reclaiming the directories that it leaves empty.
//! The library decides each step; its caller lists and removes.

use vstd::prelude::*;
use crate::backend::TreeKind;
use crate::error::{fails_with, must_exist, CatalogError};
use crate::paths::{directory, directory_of, file_name, file_name_of};
use crate::text::{same_text, texts};

verus! {

/// The names of the roots of the two trees. Reclaiming does not go on to
/// a directory of such a name.
pub open spec fn is_anchor(name: Seq<char>) -> bool {
    name == TreeKind::Sessions.root_part() || name == TreeKind::Projects.root_part()
}

/// Whether reclaiming goes on to the directory `dir` once a directory in
/// it was removed: `dir` has a name, and it is not that of a root.
pub open spec fn may_reclaim(dir: Seq<char>) -> bool {
    match file_name_of(dir) {
        Some(name) => !is_anchor(name),
        None => false,
    }
}

/// Whether the directory `dir` may be removed once it is empty: it has a
/// name, whatever it is, and it is none of the roots `roots`.
pub open spec fn removable(dir: Seq<char>, roots: Seq<Seq<char>>) -> bool {
    file_name_of(dir) is Some && !roots.contains(dir)
}

/// What was found out of the directory that reclaiming is at.
#[derive(Clone, Copy, Debug, PartialEq, Eq, Structural)]
pub enum ReclaimEvent {
    /// It could not be listed.
    Unlistable,
    /// It was listed and holds this many entries.
    Listed(usize),
    /// It is empty and could not be removed.
    NotRemoved,
    /// It was removed.
    Removed,
}

/// What reclaiming does next.
#[derive(Clone, Debug, PartialEq, Eq)]
pub enum ReclaimAction {
    /// Nothing more.
    Stop,
    /// List this directory, and report `Listed` or `Unlistable`.
    Inspect(String),
    /// Remove this directory, and report `Removed` or `NotRemoved`.
    Remove(String),
}

/// A `ReclaimAction` with its directory as a sequence of characters.
pub enum ActionView {
    Stop,
    Inspect(Seq<char>),
    Remove(Seq<char>),
}

impl View for ReclaimAction {
    type V = ActionView;

    open spec fn view(&self) -> ActionView {
        match self {
            ReclaimAction::Stop => ActionView::Stop,
            ReclaimAction::Inspect(dir) => ActionView::Inspect(dir@),
            ReclaimAction::Remove(dir) => ActionView::Remove(dir@),
        }
    }
}

/// What reclaiming does after `event` was found out of the directory
/// `dir`, where `roots` are the roots of the trees. At a root, and at a
/// directory without a name, it does nothing: such a directory is never
/// removed. At any other directory, one that cannot be listed or holds
/// something ends it, and an empty one is removed, whatever its name; one
/// that cannot be removed ends it, and after one that was removed the
/// directory that held it is looked at, unless that is a root, has no
/// name or has the name of a root.
pub open spec fn next_action(dir: Seq<char>, event: ReclaimEvent, roots: Seq<Seq<char>>)
    -> ActionView {
    if !removable(dir, roots) {
        ActionView::Stop
    } else {
        match event {
            ReclaimEvent::Unlistable => ActionView::Stop,
            ReclaimEvent::Listed(entries) => if entries == 0 {
                ActionView::Remove(dir)
            } else {
                ActionView::Stop
            },
            ReclaimEvent::NotRemoved => ActionView::Stop,
            ReclaimEvent::Removed => match directory_of(dir) {
                Some(above) => if may_reclaim(above) && !roots.contains(above) {
                    ActionView::Inspect(above)
                } else {
                    ActionView::Stop
                },
                None => ActionView::Stop,
            },
        }
    }
}

/// Whether `name` is the name of the root of one of the two trees.
pub fn is_root_name(name: &str) -> (r: bool)
    ensures
        r == is_anchor(name@),
{
    same_text(name, TreeKind::Sessions.root_name()) || same_text(
        name,
        TreeKind::Projects.root_name(),
    )
}

/// Whether reclaiming goes on to the directory `dir` once a directory in
/// it was removed.
pub fn can_reclaim(dir: &str) -> (r: bool)
    ensures
        r == may_reclaim(dir@),
{
    match file_name(dir) {
        Some(name) => !is_root_name(name.as_str()),
        None => false,
    }
}

/// Whether `dir` is one of the roots `roots`.
pub fn is_root(dir: &str, roots: &Vec<String>) -> (r: bool)
    ensures
        r == texts(roots@).contains(dir@),
{
    let mut i: usize = 0;
    while i < roots.len()
        invariant
            i <= roots.len(),
            forall|j: int| 0 <= j < i ==> texts(roots@)[j] != dir@,
        decreases roots.len() - i,
    {
        if same_text(roots[i].as_str(), dir) {
            assert(texts(roots@)[i as int] == dir@);
            return true;
        }
        i = i + 1;
    }
    false
}

/// Whether the directory `dir` may be removed once it is empty.
pub fn can_remove(dir: &str, roots: &Vec<String>) -> (r: bool)
    ensures
        r == removable(dir@, texts(roots@)),
{
    match file_name(dir) {
        Some(_) => !is_root(dir, roots),
        None => false,
    }
}

/// One step of reclaiming empty directories: what to do after `event` was
/// found out of the directory `dir`, where `roots` are the roots of the
/// trees as they were resolved. Reclaiming begins with the action that
/// `delete_conversation` hands back, and goes from action to event to
/// action until it is told to stop. It tells to remove every empty
/// directory it is at, whatever its name, and never a root.
pub fn cleanup_empty_directories(dir: &str, event: ReclaimEvent, roots: &Vec<String>) -> (action:
    ReclaimAction)
    ensures
        action@ == next_action(dir@, event, texts(roots@)),
{
    if !can_remove(dir, roots) {
        return ReclaimAction::Stop;
    }
    match event {
        ReclaimEvent::Unlistable => ReclaimAction::Stop,
        ReclaimEvent::Listed(entries) => if entries == 0 {
            ReclaimAction::Remove(dir.to_owned())
        } else {
            ReclaimAction::Stop
        },
        ReclaimEvent::NotRemoved => ReclaimAction::Stop,
        ReclaimEvent::Removed => match directory(dir) {
            Some(above) => if can_reclaim(above.as_str()) && !is_root(above.as_str(), roots) {
                ReclaimAction::Inspect(above)
            } else {
                ReclaimAction::Stop
            },
            None => ReclaimAction::Stop,
        },
    }
}

/// What is done first after the file at `path` was removed: the directory
/// that held it is looked at, unless it is a root or has no name.
pub open spec fn first_action(path: Seq<char>, roots: Seq<Seq<char>>) -> ActionView {
    match directory_of(path) {
        Some(dir) => if removable(dir, roots) {
            ActionView::Inspect(dir)
        } else {
            ActionView::Stop
        },
        None => ActionView::Stop,
    }
}

/// Decides the deletion of the log at `file_path`, where `exists` says
/// whether there is such a file and `roots` are the roots of the trees as
/// they were resolved. A file that does not exist is a failure, and
/// nothing is to be done. Otherwise the file is to be removed, and
/// reclaiming begins with the action that is handed back. A log that lay
/// in a root leaves nothing to reclaim.
pub fn delete_conversation(file_path: &str, exists: bool, roots: &Vec<String>) -> (r: Result<
    ReclaimAction,
    CatalogError,
>)
    ensures
        !exists ==> fails_with(r, CatalogError::NotFound),
        exists ==> (r matches Ok(action) && action@ == first_action(file_path@, texts(roots@))),
{
    match must_exist(exists) {
        Ok(()) => match directory(file_path) {
            Some(dir) => if can_remove(dir.as_str(), roots) {
                Ok(ReclaimAction::Inspect(dir))
            } else {
                Ok(ReclaimAction::Stop)
            },
            None => Ok(ReclaimAction::Stop),
        },
        Err(e) => Err(e),
    }
}

/// The directories that reclaiming looks at from `dir` upwards where each
/// of them is empty and can be removed, in order: `dir` itself, then the
/// directory that held it, and so on. None where `dir` is a root or has no
/// name.
pub open spec fn reclaim_chain(dir: Seq<char>, roots: Seq<Seq<char>>) -> Seq<Seq<char>>
    decreases dir.len(),
{
    if !removable(dir, roots) {
        Seq::empty()
    } else {
        match next_action(dir, ReclaimEvent::Removed, roots) {
            ActionView::Inspect(above) => seq![dir] + reclaim_chain(above, roots),
            _ => seq![dir],
        }
    }
}

/// The directories that reclaiming looks at after the file at `path` was
/// removed, where each of them is empty and can be removed.
pub open spec fn reclaim_plan(path: Seq<char>, roots: Seq<Seq<char>>) -> Seq<Seq<char>> {
    match first_action(path, roots) {
        ActionView::Inspect(dir) => reclaim_chain(dir, roots),
        _ => Seq::empty(),
    }
}

/// The directory that an action is about, if it is about one.
pub open spec fn target_of(action: ActionView) -> Option<Seq<char>> {
    match action {
        ActionView::Stop => None,
        ActionView::Inspect(dir) => Some(dir),
        ActionView::Remove(dir) => Some(dir),
    }
}

/// A root is never removed, nor looked at: whatever directory a step of
/// reclaiming, or the deletion of a log, tells to list or to remove is
/// none of the roots, and has a name.
pub proof fn law_roots_are_never_touched(
    dir: Seq<char>,
    event: ReclaimEvent,
    path: Seq<char>,
    roots: Seq<Seq<char>>,
)
    ensures
        target_of(next_action(dir, event, roots)) matches Some(target) ==> removable(
            target,
            roots,
        ),
        target_of(first_action(path, roots)) matches Some(target) ==> removable(target, roots),
{
}

/// Every empty directory that reclaiming is at is removed, whatever its
/// name, unless it is a root or has no name; and nothing else is removed.
pub proof fn law_empty_directories_are_removed(
    dir: Seq<char>,
    event: ReclaimEvent,
    roots: Seq<Seq<char>>,
)
    ensures
        removable(dir, roots) ==> next_action(dir, ReclaimEvent::Listed(0), roots)
            == ActionView::Remove(dir),
        next_action(dir, event, roots) is Remove <==> (event == ReclaimEvent::Listed(0)
            && removable(dir, roots)),
        next_action(dir, event, roots) is Remove ==> next_action(dir, event, roots)
            == ActionView::Remove(dir),
{
}

/// Reclaiming goes upwards only after a removal, only to the directory
/// that held the removed one, and not to a directory that has the name of
/// a root.
pub proof fn law_reclaiming_goes_upwards(dir: Seq<char>, event: ReclaimEvent, roots: Seq<Seq<char>>)
    ensures
        next_action(dir, event, roots) matches ActionView::Inspect(above) ==> event
            == ReclaimEvent::Removed && directory_of(dir) == Some(above) && may_reclaim(above),
{
}

/// No directory of the chain, the first included, is a root, and each has
/// a name.
pub proof fn law_roots_are_kept(dir: Seq<char>, roots: Seq<Seq<char>>, i: int)
    requires
        0 <= i < reclaim_chain(dir, roots).len(),
    ensures
        removable(reclaim_chain(dir, roots)[i], roots),
    decreases dir.len(),
{
    if removable(dir, roots) {
        match next_action(dir, ReclaimEvent::Removed, roots) {
            ActionView::Inspect(above) => {
                if i > 0 {
                    assert(reclaim_chain(dir, roots)[i] == reclaim_chain(above, roots)[i - 1]);
                    law_roots_are_kept(above, roots, i - 1);
                }
            },
            _ => {},
        }
    }
}

/// After a log was deleted that lay in a root, there is nothing to
/// reclaim: the root stays, empty or not.
pub proof fn law_root_is_not_reclaimed(file: Seq<char>, root: Seq<char>, roots: Seq<Seq<char>>)
    requires
        directory_of(file) == Some(root),
        roots.contains(root),
    ensures
        first_action(file, roots) == ActionView::Stop,
        reclaim_plan(file, roots) == Seq::<Seq<char>>::empty(),
{
}

/// After a log was deleted from a directory that lies in a root, that
/// directory is the one directory that reclaiming looks at, whatever its
/// name; the root is not touched.
pub proof fn law_project_directory_is_reclaimed(
    file: Seq<char>,
    project: Seq<char>,
    root: Seq<char>,
    roots: Seq<Seq<char>>,
)
    requires
        directory_of(file) == Some(project),
        directory_of(project) == Some(root),
        roots.contains(root),
        removable(project, roots),
    ensures
        first_action(file, roots) == ActionView::Inspect(project),
        next_action(project, ReclaimEvent::Listed(0), roots) == ActionView::Remove(project),
        next_action(project, ReclaimEvent::Removed, roots) == ActionView::Stop,
        reclaim_plan(file, roots) == seq![project],
{
}

/// After a log was deleted from a day directory that lies in a month
/// directory of a year directory of a root, the day, the month and the
/// year are the directories that reclaiming looks at, in this order; the
/// root is not touched. This holds where month and year have names that
/// are not those of a root.
pub proof fn law_dated_directories_are_reclaimed(
    file: Seq<char>,
    day: Seq<char>,
    month: Seq<char>,
    year: Seq<char>,
    root: Seq<char>,
    roots: Seq<Seq<char>>,
)
    requires
        directory_of(file) == Some(day),
        directory_of(day) == Some(month),
        directory_of(month) == Some(year),
        directory_of(year) == Some(root),
        roots.contains(root),
        removable(day, roots),
        removable(month, roots),
        removable(year, roots),
        may_reclaim(month),
        may_reclaim(year),
    ensures
        reclaim_plan(file, roots) == seq![day, month, year],
{
    assert(reclaim_chain(year, roots) == seq![year]);
    assert(reclaim_chain(month, roots) =~= seq![month, year]);
    assert(reclaim_chain(day, roots) =~= seq![day, month, year]);
}

} // verus!
