//! A model of the disk, for stating what planning and settling a link does to
//! it. Nothing here runs: the model says what a look at a path shows and what
//! an operation changes, and the laws below are proved of it.

use crate::command::{action_ops, link_action, settled_store, unlink_action, ActionView};
use crate::fs::{FsOpView, ProbeView};
use crate::paths::{is_absolute_path, joined, needs_absolute_form, path_parent, path_starts_with};
use crate::zombies::{entry_verdict, SweepView, Verdict, ZombieError};
use vstd::prelude::*;

verus! {

/// What stands at one path.
pub ghost enum Node {
    Dir,
    File { bytes: Seq<u8> },
    Link { value: Seq<char> },
}

/// The disk: what stands at each path at which something stands.
pub type Disk = Map<Seq<char>, Node>;

/// How many links in a row are followed before a path counts as leading
/// nowhere.
pub open spec fn link_limit() -> nat {
    40
}

/// The path that a link at `at` with the value `value` leads to: the value
/// itself where it is absolute, else the value seen from the link's
/// directory.
pub open spec fn link_destination(at: Seq<char>, value: Seq<char>) -> Seq<char> {
    if is_absolute_path(value) {
        value
    } else {
        match path_parent(at) {
            Some(dir) => joined(dir, value),
            None => value,
        }
    }
}

/// The path that `path` leads to once links are followed, at most `fuel` of
/// them: `None` where it leads nowhere.
pub open spec fn resolve(disk: Disk, path: Seq<char>, fuel: nat) -> Option<Seq<char>>
    decreases fuel,
{
    if !disk.dom().contains(path) {
        None
    } else {
        match disk[path] {
            Node::Link { value } => if fuel == 0 {
                None
            } else {
                resolve(disk, link_destination(path, value), (fuel - 1) as nat)
            },
            _ => Some(path),
        }
    }
}

/// The path that `path` leads to.
pub open spec fn canonical(disk: Disk, path: Seq<char>) -> Option<Seq<char>> {
    resolve(disk, path, link_limit())
}

/// Whether `path` stands directly in the directory `dir`.
pub open spec fn is_child(disk: Disk, dir: Seq<char>, path: Seq<char>) -> bool {
    disk.dom().contains(path) && path != dir && path_parent(path) == Some(dir)
}

/// Whether `list` names exactly what stands in `dir`.
pub open spec fn lists(disk: Disk, dir: Seq<char>, list: Seq<Seq<char>>) -> bool {
    forall|path: Seq<char>| list.contains(path) <==> is_child(disk, dir, path)
}

/// Whether nothing stands in `dir`.
pub open spec fn childless(disk: Disk, dir: Seq<char>) -> bool {
    forall|path: Seq<char>| !is_child(disk, dir, path)
}

/// A listing of `dir`.
pub open spec fn listing(disk: Disk, dir: Seq<char>) -> Seq<Seq<char>> {
    choose|list: Seq<Seq<char>>| lists(disk, dir, list)
}

/// What a look at `path` shows.
pub open spec fn look(disk: Disk, path: Seq<char>) -> ProbeView {
    let end = canonical(disk, path);
    let is_symlink = disk.dom().contains(path) && disk[path] is Link;
    let is_dir = end.is_some() && disk[end.unwrap()] is Dir;
    ProbeView {
        exists: Some(end.is_some()),
        is_dir,
        is_symlink,
        canonical: end,
        link_value: if is_symlink {
            Some(disk[path]->value)
        } else {
            None
        },
        link_value_exists: is_symlink && canonical(disk, link_destination(path, disk[path]->value)).is_some(),
        entries: if is_dir {
            Some(listing(disk, end.unwrap()))
        } else {
            None
        },
    }
}

/// The disk after one operation, or `None` where the operation fails.
/// Copying a file onto itself empties it.
pub open spec fn run_op(disk: Disk, op: FsOpView) -> Option<Disk> {
    match op {
        FsOpView::CreateDirAll { path } => match canonical(disk, path) {
            Some(end) => if disk[end] is Dir {
                Some(disk)
            } else {
                None
            },
            None => if disk.dom().contains(path) {
                None
            } else {
                Some(disk.insert(path, Node::Dir))
            },
        },
        FsOpView::Symlink { source, target } => if disk.dom().contains(target) {
            None
        } else {
            Some(disk.insert(target, Node::Link { value: source }))
        },
        FsOpView::RemoveFile { path } => if disk.dom().contains(path) && !(disk[path] is Dir) {
            Some(disk.remove(path))
        } else {
            None
        },
        FsOpView::RemoveDir { path } => if disk.dom().contains(path) && disk[path] is Dir && childless(disk, path) {
            Some(disk.remove(path))
        } else {
            None
        },
        FsOpView::Copy { from, to } => match canonical(disk, from) {
            Some(origin) => match disk[origin] {
                Node::File { bytes } => {
                    let place = match canonical(disk, to) {
                        Some(end) => Some(end),
                        None => if disk.dom().contains(to) {
                            None
                        } else {
                            Some(to)
                        },
                    };
                    match place {
                        Some(end) => if disk.dom().contains(end) && disk[end] is Dir {
                            None
                        } else if end == origin {
                            Some(disk.insert(end, Node::File { bytes: Seq::empty() }))
                        } else {
                            Some(disk.insert(end, Node::File { bytes }))
                        },
                        None => None,
                    }
                },
                _ => None,
            },
            None => None,
        },
    }
}

/// The disk after the operations were run in order up to the first that
/// fails, and whether none failed.
pub open spec fn run_ops(disk: Disk, ops: Seq<FsOpView>) -> (Disk, bool)
    decreases ops.len(),
{
    if ops.len() == 0 {
        (disk, true)
    } else {
        match run_op(disk, ops[0]) {
            Some(next) => run_ops(next, ops.skip(1)),
            None => (disk, false),
        }
    }
}

/// Disk and store after one link was installed: the target is looked at, the
/// action is chosen, its operations are run and the store is settled.
pub open spec fn install(
    disk: Disk,
    store: Map<Seq<char>, Seq<char>>,
    source: Seq<char>,
    target: Seq<char>,
    adopt: bool,
    dry_run: bool,
    cwd: Seq<char>,
) -> (Disk, Map<Seq<char>, Seq<char>>) {
    let action = link_action(adopt, source, look(disk, source).is_dir, look(disk, target), cwd);
    let (after, succeeded) = run_ops(disk, action_ops(action, source, target, dry_run));
    (after, settled_store(store, action, source, target, dry_run, succeeded))
}

/// Disk and store after one link was removed. Where the target cannot be
/// judged, both stay as they are.
pub open spec fn uninstall(
    disk: Disk,
    store: Map<Seq<char>, Seq<char>>,
    source: Seq<char>,
    target: Seq<char>,
    dry_run: bool,
) -> (Disk, Map<Seq<char>, Seq<char>>) {
    match unlink_action(source, look(disk, target)) {
        Ok(action) => {
            let (after, succeeded) = run_ops(disk, action_ops(action, source, target, dry_run));
            (after, settled_store(store, action, source, target, dry_run, succeeded))
        },
        Err(_) => (disk, store),
    }
}

/// What running one, two or three operations comes to.
pub(crate) proof fn lemma_run_few(disk: Disk, a: FsOpView, b: FsOpView, c: FsOpView)
    ensures
        run_ops(disk, Seq::empty()) == (disk, true),
        run_ops(disk, seq![a]) == match run_op(disk, a) {
            Some(d) => (d, true),
            None => (disk, false),
        },
        run_ops(disk, seq![a, b]) == match run_op(disk, a) {
            Some(d) => run_ops(d, seq![b]),
            None => (disk, false),
        },
        run_ops(disk, seq![a, b, c]) == match run_op(disk, a) {
            Some(d) => run_ops(d, seq![b, c]),
            None => (disk, false),
        },
{
    reveal_with_fuel(run_ops, 2);
    assert(seq![a].skip(1) =~= Seq::empty());
    assert(seq![a, b].skip(1) =~= seq![b]);
    assert(seq![a, b, c].skip(1) =~= seq![b, c]);
}

/// A path at which a file or a directory stands leads to itself.
pub(crate) proof fn lemma_stands_for_itself(disk: Disk, path: Seq<char>, fuel: nat)
    requires
        disk.dom().contains(path),
        !(disk[path] is Link),
    ensures
        resolve(disk, path, fuel) == Some(path),
{
}

/// A link to a file or directory leads there.
pub(crate) proof fn lemma_link_leads(disk: Disk, at: Seq<char>, to: Seq<char>)
    requires
        disk.dom().contains(at),
        disk[at] == (Node::Link { value: to }),
        is_absolute_path(to),
        disk.dom().contains(to),
        !(disk[to] is Link),
    ensures
        canonical(disk, at) == Some(to),
{
    reveal_with_fuel(resolve, 3);
    lemma_stands_for_itself(disk, to, (link_limit() - 1) as nat);
}

/// A dry run changes neither the disk nor the store, whatever stands where.
pub proof fn lemma_dry_run_changes_nothing(
    disk: Disk,
    store: Map<Seq<char>, Seq<char>>,
    source: Seq<char>,
    target: Seq<char>,
    adopt: bool,
    cwd: Seq<char>,
)
    ensures
        install(disk, store, source, target, adopt, true, cwd) == (disk, store),
        uninstall(disk, store, source, target, true) == (disk, store),
{
}

/// Installing a link a second time changes nothing more: the disk and the
/// store are after the second time what they were after the first. The
/// source is a file or a directory of the package under its absolute path in
/// plain form, and is not itself the target.
pub proof fn lemma_install_twice(
    disk: Disk,
    store: Map<Seq<char>, Seq<char>>,
    source: Seq<char>,
    target: Seq<char>,
    adopt: bool,
    dry_run: bool,
    cwd: Seq<char>,
)
    requires
        disk.dom().contains(source),
        !(disk[source] is Link),
        is_absolute_path(source),
        !needs_absolute_form(source, cwd),
        source != target,
    ensures
        ({
            let once = install(disk, store, source, target, adopt, dry_run, cwd);
            install(once.0, once.1, source, target, adopt, dry_run, cwd) == once
        }),
{
    let seen = look(disk, target);
    let source_is_dir = look(disk, source).is_dir;
    let action = link_action(adopt, source, source_is_dir, seen, cwd);
    let ops = action_ops(action, source, target, dry_run);
    let once = install(disk, store, source, target, adopt, dry_run, cwd);
    let made = Node::Link { value: source };
    lemma_stands_for_itself(disk, source, link_limit());
    let a = FsOpView::RemoveFile { path: target };
    let b = FsOpView::Symlink { source, target };
    lemma_run_few(disk, a, b, b);
    lemma_run_few(disk, b, b, b);
    if dry_run {
    } else {
        match action {
            ActionView::CreateDirectory => {
                let op = FsOpView::CreateDirAll { path: target };
                lemma_run_few(disk, op, op, op);
                assert(canonical(disk, target).is_none());
                if disk.dom().contains(target) {
                    assert(once == (disk, store));
                } else {
                    let after = disk.insert(target, Node::Dir);
                    assert(once.0 == after);
                    lemma_stands_for_itself(after, target, link_limit());
                    lemma_stands_for_itself(after, source, link_limit());
                    assert(look(after, target).exists == Some(true));
                    assert(look(after, source).is_dir);
                    lemma_run_few(after, op, op, op);
                    assert(once.1.insert(target, source) =~= once.1);
                }
            },
            ActionView::CreateLink => {
                assert(!disk.dom().contains(target)) by {
                    if disk.dom().contains(target) && !(disk[target] is Link) {
                        lemma_stands_for_itself(disk, target, link_limit());
                    }
                }
                let after = disk.insert(target, made);
                assert(once.0 == after);
                lemma_stands_for_itself(after, source, link_limit());
                lemma_link_leads(after, target, source);
                lemma_run_few(after, b, b, b);
                assert(once.1.insert(target, source) =~= once.1);
            },
            ActionView::NormalizeLink => {
                let gone = disk.remove(target);
                let after = gone.insert(target, made);
                lemma_run_few(gone, b, b, b);
                assert(once.0 == after);
                lemma_stands_for_itself(after, source, link_limit());
                lemma_link_leads(after, target, source);
                lemma_run_few(after, b, b, b);
                assert(once.1.insert(target, source) =~= once.1);
            },
            ActionView::Adopt { from } => {
                let copy = FsOpView::Copy { from, to: source };
                lemma_run_few(disk, copy, a, b);
                lemma_resolve_end(disk, target, link_limit());
                lemma_resolve_end(disk, from, link_limit());
                match run_op(disk, copy) {
                    None => {
                        assert(once == (disk, store));
                    },
                    Some(copied) => {
                        lemma_run_few(copied, a, b, b);
                        assert(copied.dom().contains(target));
                        assert(copied[target] == disk[target]);
                        assert(!(disk[target] is Dir)) by {
                            if disk[target] is Dir {
                                lemma_stands_for_itself(disk, target, link_limit());
                            }
                        }
                        let gone = copied.remove(target);
                        lemma_run_few(gone, b, b, b);
                        let after = gone.insert(target, made);
                        assert(once.0 == after);
                        lemma_stands_for_itself(after, source, link_limit());
                        lemma_link_leads(after, target, source);
                        lemma_run_few(after, b, b, b);
                        assert(once.1.insert(target, source) =~= once.1);
                    },
                }
            },
            ActionView::KeepDirectory | ActionView::KeepLink => {
                assert(once.0 == disk);
                assert(once.1.insert(target, source) =~= once.1);
            },
            _ => {
                assert(once == (disk, store));
            },
        }
    }
}

/// Where a path leads, a file or a directory stands, and from there the path
/// leads no further.
proof fn lemma_resolve_end(disk: Disk, path: Seq<char>, fuel: nat)
    ensures
        match resolve(disk, path, fuel) {
            Some(end) => disk.dom().contains(end) && !(disk[end] is Link) && resolve(disk, end, link_limit())
                == Some(end),
            None => true,
        },
    decreases fuel,
{
    if disk.dom().contains(path) {
        match disk[path] {
            Node::Link { value } => {
                if fuel > 0 {
                    lemma_resolve_end(disk, link_destination(path, value), (fuel - 1) as nat);
                }
            },
            _ => {
                lemma_stands_for_itself(disk, path, link_limit());
            },
        }
    }
}

/// What stands at the target is none of the tool's making and is not taken
/// over: nothing stands there or below; or a directory that holds something;
/// or, with adoption off, a file or a link that does not lead to the source.
pub open spec fn stays_foreign(disk: Disk, source: Seq<char>, target: Seq<char>, adopt: bool) -> bool {
    if !disk.dom().contains(target) {
        childless(disk, target)
    } else {
        match disk[target] {
            Node::Dir => !childless(disk, target),
            Node::File { .. } => !adopt,
            Node::Link { .. } => !adopt && canonical(disk, target) != Some(source),
        }
    }
}

/// Installing a link and then removing it leaves the disk as it was, and with
/// nothing at the target before, the target is unmanaged afterwards. This is
/// said of a target at which nothing of the tool's making stood and nothing
/// was adopted: an empty directory that was there before is removed like one
/// that the tool made, and an adopted file has become a link.
pub proof fn lemma_install_then_uninstall(
    disk: Disk,
    store: Map<Seq<char>, Seq<char>>,
    source: Seq<char>,
    target: Seq<char>,
    adopt: bool,
    cwd: Seq<char>,
)
    requires
        disk.dom().contains(source),
        !(disk[source] is Link),
        is_absolute_path(source),
        source != target,
        stays_foreign(disk, source, target, adopt),
    ensures
        ({
            let made = install(disk, store, source, target, adopt, false, cwd);
            let undone = uninstall(made.0, made.1, source, target, false);
            &&& undone.0 == disk
            &&& !disk.dom().contains(target) ==> undone.1 == store.remove(target)
        }),
{
    let made = install(disk, store, source, target, adopt, false, cwd);
    let undone = uninstall(made.0, made.1, source, target, false);
    let seen = look(disk, target);
    let action = link_action(adopt, source, look(disk, source).is_dir, seen, cwd);
    let link = FsOpView::Symlink { source, target };
    let mkdir = FsOpView::CreateDirAll { path: target };
    let rmdir = FsOpView::RemoveDir { path: target };
    let rm = FsOpView::RemoveFile { path: target };
    lemma_stands_for_itself(disk, source, link_limit());
    lemma_resolve_end(disk, target, link_limit());
    lemma_run_few(disk, link, link, link);
    lemma_run_few(disk, mkdir, mkdir, mkdir);
    if !disk.dom().contains(target) {
        if look(disk, source).is_dir {
            let after = disk.insert(target, Node::Dir);
            assert(made.0 == after);
            lemma_stands_for_itself(after, target, link_limit());
            assert(childless(after, target)) by {
                assert forall|path: Seq<char>| !is_child(after, target, path) by {
                    assert(!is_child(disk, target, path));
                }
            }
            assert(lists(after, target, Seq::empty()));
            let list = listing(after, target);
            assert(list.len() == 0) by {
                if list.len() > 0 {
                    assert(list.contains(list[0]));
                }
            }
            lemma_run_few(after, rmdir, rmdir, rmdir);
            assert(after.remove(target) =~= disk);
            assert(store.insert(target, source).remove(target) =~= store.remove(target));
        } else {
            let after = disk.insert(target, Node::Link { value: source });
            assert(made.0 == after);
            lemma_stands_for_itself(after, source, link_limit());
            lemma_link_leads(after, target, source);
            lemma_run_few(after, rm, rm, rm);
            assert(after.remove(target) =~= disk);
            assert(store.insert(target, source).remove(target) =~= store.remove(target));
        }
    } else {
        match disk[target] {
            Node::Dir => {
                lemma_stands_for_itself(disk, target, link_limit());
                let copy = FsOpView::Copy { from: target, to: source };
                lemma_run_few(disk, copy, rm, link);
                assert(made.0 == disk);
                lemma_run_few(disk, rmdir, rmdir, rmdir);
            },
            Node::File { .. } => {
                lemma_stands_for_itself(disk, target, link_limit());
                assert(made.0 == disk);
            },
            Node::Link { value } => {
                assert(made.0 == disk);
                lemma_run_few(disk, rmdir, rmdir, rmdir);
                if value == source {
                    lemma_link_leads(disk, target, source);
                }
            },
        }
    }
}

/// Installing a link never empties its source by copying the file onto
/// itself: afterwards the source holds what it held, or, after an adoption,
/// what the other file held that the target led to.
pub proof fn lemma_source_is_never_emptied(
    disk: Disk,
    store: Map<Seq<char>, Seq<char>>,
    source: Seq<char>,
    target: Seq<char>,
    adopt: bool,
    dry_run: bool,
    cwd: Seq<char>,
)
    requires
        disk.dom().contains(source),
        disk[source] is File,
    ensures
        ({
            let after = install(disk, store, source, target, adopt, dry_run, cwd).0;
            &&& after.dom().contains(source)
            &&& canonical(disk, target) == Some(source) ==> after[source] == disk[source]
            &&& after[source] == disk[source] || (adopt && canonical(disk, target).is_some() && canonical(
                disk,
                target,
            ).unwrap() != source && after[source] == disk[canonical(disk, target).unwrap()])
        }),
{
    let action = link_action(adopt, source, look(disk, source).is_dir, look(disk, target), cwd);
    let link = FsOpView::Symlink { source, target };
    let rm = FsOpView::RemoveFile { path: target };
    lemma_stands_for_itself(disk, source, link_limit());
    lemma_resolve_end(disk, target, link_limit());
    lemma_run_few(disk, link, link, link);
    lemma_run_few(disk, rm, link, link);
    if !dry_run {
        match action {
            ActionView::NormalizeLink => {
                lemma_run_few(disk.remove(target), link, link, link);
            },
            ActionView::Adopt { from } => {
                let copy = FsOpView::Copy { from, to: source };
                lemma_run_few(disk, copy, rm, link);
                lemma_resolve_end(disk, from, link_limit());
                match run_op(disk, copy) {
                    Some(copied) => {
                        lemma_run_few(copied, rm, link, link);
                        match run_op(copied, rm) {
                            Some(gone) => {
                                lemma_run_few(gone, link, link, link);
                            },
                            None => {},
                        }
                    },
                    None => {},
                }
            },
            _ => {},
        }
    }
}

/// A file at the target that is no link stays as it is when a link is
/// installed without adoption: the disk is unchanged, so the file keeps its
/// bytes and does not become a link.
pub proof fn lemma_conflict_leaves_file(
    disk: Disk,
    store: Map<Seq<char>, Seq<char>>,
    source: Seq<char>,
    target: Seq<char>,
    dry_run: bool,
    cwd: Seq<char>,
)
    requires
        disk.dom().contains(target),
        disk[target] is File,
    ensures
        install(disk, store, source, target, false, dry_run, cwd).0 == disk,
        !look(disk, source).is_dir ==> install(disk, store, source, target, false, dry_run, cwd) == (disk, store),
{
    lemma_stands_for_itself(disk, target, link_limit());
}

/// What a look at a managed link says of its entry: with nothing left at its
/// source inside the package it is stale, with a file or directory at its
/// source it is live; and where nothing stands at the managed path, the entry
/// is out of date.
pub proof fn lemma_verdict_of_link(disk: Disk, package: Seq<char>, source: Seq<char>, target: Seq<char>)
    requires
        is_absolute_path(source),
        source != target,
    ensures
        disk.dom().contains(target) && disk[target] == (Node::Link { value: source }) && !disk.dom().contains(source)
            && path_starts_with(source, package) ==> entry_verdict(package, look(disk, target)) == Ok::<
            Verdict,
            ZombieError,
        >(Verdict::Zombie),
        disk.dom().contains(target) && disk[target] == (Node::Link { value: source }) && disk.dom().contains(source)
            && !(disk[source] is Link) ==> entry_verdict(package, look(disk, target)) == Ok::<
            Verdict,
            ZombieError,
        >(Verdict::Live),
        !disk.dom().contains(target) ==> entry_verdict(package, look(disk, target)) == Ok::<Verdict, ZombieError>(
            Verdict::Forgotten,
        ),
{
    reveal_with_fuel(resolve, 3);
    if disk.dom().contains(source) && !(disk[source] is Link) {
        lemma_stands_for_itself(disk, source, (link_limit() - 1) as nat);
    }
}

/// A stale link is swept away, and the directory above it with it, if and
/// only if that directory is managed and holds nothing else. Said of a sweep
/// that comes to its last managed path, `target`, where a link to `source`
/// stands while nothing is left at `source` inside the package; `dir` is the
/// directory above, not queued before, which holds `rest` besides the link.
/// The sweep asks for the link to be removed and retires it. Then it looks
/// at `dir`: a managed `dir` with nothing in `rest` is removed and retired; a
/// `dir` that is not managed, or that still holds something, stays on disk
/// and in the store.
pub proof fn lemma_stale_link_and_its_directory(
    disk: Disk,
    store: Map<Seq<char>, Seq<char>>,
    sweep: SweepView,
    source: Seq<char>,
    target: Seq<char>,
    dir: Seq<char>,
    rest: Seq<Seq<char>>,
)
    requires
        !sweep.dry_run,
        sweep.next + 1 == sweep.pending.len(),
        sweep.pending[sweep.next as int] == target,
        sweep.head == sweep.queue.len(),
        !sweep.queue.contains(dir),
        disk.dom().contains(target),
        disk[target] == (Node::Link { value: source }),
        is_absolute_path(source),
        !disk.dom().contains(source),
        path_starts_with(source, sweep.package),
        path_parent(target) == Some(dir),
        dir != target,
        disk.dom().contains(dir),
        disk[dir] is Dir,
        lists(disk.remove(target), dir, rest),
    ensures
        ({
            let first = look(disk, target);
            let swept = sweep.step(store, first);
            let disk1 = run_ops(disk, sweep.step_ops(store, first)).0;
            let store1 = sweep.step_store(store, first);
            let second = look(disk1, dir);
            let disk2 = run_ops(disk1, swept.step_ops(store1, second)).0;
            let store2 = swept.step_store(store1, second);
            &&& disk1 == disk.remove(target)
            &&& store1 == store.remove(target)
            &&& swept.current() == Some(dir)
            &&& if store.dom().contains(dir) && rest.len() == 0 {
                disk2 == disk.remove(target).remove(dir) && store2 == store.remove(target).remove(dir)
            } else {
                disk2 == disk1 && store2 == store1
            }
        }),
{
    let first = look(disk, target);
    lemma_verdict_of_link(disk, sweep.package, source, target);
    let rm = FsOpView::RemoveFile { path: target };
    lemma_run_few(disk, rm, rm, rm);
    let swept = sweep.step(store, first);
    let disk1 = disk.remove(target);
    let store1 = store.remove(target);
    assert(swept.queue == sweep.queue.push(dir));
    lemma_stands_for_itself(disk1, dir, link_limit());
    let second = look(disk1, dir);
    let found = listing(disk1, dir);
    assert(lists(disk1, dir, found));
    if rest.len() == 0 {
        assert(childless(disk1, dir)) by {
            assert forall|path: Seq<char>| !is_child(disk1, dir, path) by {
                if is_child(disk1, dir, path) {
                    assert(rest.contains(path));
                }
            }
        }
        if found.len() > 0 {
            assert(found.contains(found[0]));
        }
        let rmdir = FsOpView::RemoveDir { path: dir };
        lemma_run_few(disk1, rmdir, rmdir, rmdir);
    } else {
        assert(rest.contains(rest[0]));
        assert(found.contains(rest[0]));
    }
    lemma_run_few(disk1, rm, rm, rm);
}

} // verus!
