//! Laws of whole plans on the model of the disk: what installing every link
//! of a package does where nothing of the package stands in the target tree
//! yet, and what installing again or removing does after that.

use crate::fs::FsOpView;
use crate::model::{childless, install, is_child, lemma_link_leads, lemma_run_few, lemma_stands_for_itself, link_limit, listing, lists, look, uninstall, Disk, Node};
use crate::paths::{is_absolute_path, needs_absolute_form, path_parent};
use vstd::prelude::*;

verus! {

/// A plan: the source and the target of each link, in working order.
pub type Links = Seq<(Seq<char>, Seq<char>)>;

/// Disk and store after the first `count` links of a plan were installed, one
/// after the other.
pub open spec fn install_first(
    disk: Disk,
    store: Map<Seq<char>, Seq<char>>,
    links: Links,
    count: int,
    adopt: bool,
    cwd: Seq<char>,
) -> (Disk, Map<Seq<char>, Seq<char>>)
    decreases count,
{
    if count <= 0 || count > links.len() {
        (disk, store)
    } else {
        let before = install_first(disk, store, links, count - 1, adopt, cwd);
        install(before.0, before.1, links[count - 1].0, links[count - 1].1, adopt, false, cwd)
    }
}

/// Disk and store after the links of a plan from `from` on were removed, the
/// last one first.
pub open spec fn uninstall_from(disk: Disk, store: Map<Seq<char>, Seq<char>>, links: Links, from: int) -> (
    Disk,
    Map<Seq<char>, Seq<char>>,
)
    decreases links.len() - from,
{
    if from < 0 || from >= links.len() {
        (disk, store)
    } else {
        let before = uninstall_from(disk, store, links, from + 1);
        uninstall(before.0, before.1, links[from].0, links[from].1, false)
    }
}

/// Nothing of the plan stands in the target tree yet: each source is a file
/// or a directory under its absolute path in plain form; nothing stands at
/// or in any target; no target is a source or comes twice.
pub open spec fn fresh(disk: Disk, links: Links, cwd: Seq<char>) -> bool {
    &&& forall|i: int|
        0 <= i < links.len() ==> {
            &&& disk.dom().contains((#[trigger] links[i]).0)
            &&& !(disk[links[i].0] is Link)
            &&& is_absolute_path(links[i].0)
            &&& !needs_absolute_form(links[i].0, cwd)
            &&& !disk.dom().contains(links[i].1)
            &&& childless(disk, links[i].1)
        }
    &&& forall|i: int, j: int|
        0 <= i < links.len() && 0 <= j < links.len() ==> (#[trigger] links[i]).1 != (#[trigger] links[j]).0
    &&& forall|i: int, j: int|
        0 <= i < links.len() && 0 <= j < links.len() && i != j ==> (#[trigger] links[i]).1 != (#[trigger] links[j]).1
}

/// Each directory comes in the plan before what stands in it.
pub open spec fn parents_first(links: Links) -> bool {
    forall|i: int, j: int|
        0 <= i < links.len() && 0 <= j < links.len() && path_parent((#[trigger] links[j]).1) == Some(
            (#[trigger] links[i]).1,
        ) && i != j ==> i < j
}

/// What installing a link makes at its target: a directory for a directory,
/// a link to the source for a file.
pub open spec fn made_node(disk: Disk, source: Seq<char>) -> Node {
    if disk[source] is Dir {
        Node::Dir
    } else {
        Node::Link { value: source }
    }
}

/// The disk with what the first `count` links make.
pub open spec fn made(disk: Disk, links: Links, count: int) -> Disk
    decreases count,
{
    if count <= 0 || count > links.len() {
        disk
    } else {
        made(disk, links, count - 1).insert(links[count - 1].1, made_node(disk, links[count - 1].0))
    }
}

/// The store with the first `count` links recorded.
pub open spec fn recorded(store: Map<Seq<char>, Seq<char>>, links: Links, count: int) -> Map<Seq<char>, Seq<char>>
    decreases count,
{
    if count <= 0 || count > links.len() {
        store
    } else {
        recorded(store, links, count - 1).insert(links[count - 1].1, links[count - 1].0)
    }
}

/// What `made` holds: the targets of the first `count` links with what was
/// made there, and everything else as it was.
proof fn lemma_made(disk: Disk, links: Links, count: int, cwd: Seq<char>)
    requires
        fresh(disk, links, cwd),
        0 <= count <= links.len(),
    ensures
        forall|i: int|
            0 <= i < count ==> made(disk, links, count).dom().contains((#[trigger] links[i]).1) && made(
                disk,
                links,
                count,
            )[links[i].1] == made_node(disk, links[i].0),
        forall|path: Seq<char>|
            (forall|i: int| 0 <= i < count ==> (#[trigger] links[i]).1 != path) ==> (#[trigger] made(
                disk,
                links,
                count,
            ).dom().contains(path)) == disk.dom().contains(path),
        forall|path: Seq<char>|
            disk.dom().contains(path) ==> made(disk, links, count).dom().contains(path) && #[trigger] made(
                disk,
                links,
                count,
            )[path] == disk[path],
    decreases count,
{
    if count > 0 {
        lemma_made(disk, links, count - 1, cwd);
        let last = links[count - 1];
        assert forall|path: Seq<char>| disk.dom().contains(path) implies made(disk, links, count).dom().contains(path)
            && #[trigger] made(disk, links, count)[path] == disk[path] by {
            assert(path != last.1);
        }
        assert forall|path: Seq<char>|
            (forall|i: int| 0 <= i < count ==> (#[trigger] links[i]).1 != path) implies (#[trigger] made(
            disk,
            links,
            count,
        ).dom().contains(path)) == disk.dom().contains(path) by {
            assert(links[count - 1].1 != path);
            assert(forall|i: int| 0 <= i < count - 1 ==> (#[trigger] links[i]).1 != path);
        }
    }
}

/// What `recorded` holds: each of the first `count` targets with its source,
/// and everything else as it was.
proof fn lemma_recorded(store: Map<Seq<char>, Seq<char>>, disk: Disk, links: Links, count: int, cwd: Seq<char>)
    requires
        fresh(disk, links, cwd),
        0 <= count <= links.len(),
    ensures
        forall|i: int|
            0 <= i < count ==> recorded(store, links, count).dom().contains((#[trigger] links[i]).1) && recorded(
                store,
                links,
                count,
            )[links[i].1] == links[i].0,
        forall|path: Seq<char>|
            (forall|i: int| 0 <= i < count ==> (#[trigger] links[i]).1 != path) ==> {
                &&& (#[trigger] recorded(store, links, count).dom().contains(path)) == store.dom().contains(path)
                &&& store.dom().contains(path) ==> recorded(store, links, count)[path] == store[path]
            },
    decreases count,
{
    if count > 0 {
        lemma_recorded(store, disk, links, count - 1, cwd);
        assert forall|path: Seq<char>|
            (forall|i: int| 0 <= i < count ==> (#[trigger] links[i]).1 != path) implies {
            &&& (#[trigger] recorded(store, links, count).dom().contains(path)) == store.dom().contains(path)
            &&& store.dom().contains(path) ==> recorded(store, links, count)[path] == store[path]
        } by {
            assert(links[count - 1].1 != path);
            assert(forall|i: int| 0 <= i < count - 1 ==> (#[trigger] links[i]).1 != path);
            let earlier = recorded(store, links, count - 1);
            assert(earlier.dom().contains(path) == store.dom().contains(path));
        }
    }
}

/// Installing a plan where nothing of it stands yet makes a directory for
/// each directory and a link for each file, and records each target.
pub proof fn lemma_install_fresh(
    disk: Disk,
    store: Map<Seq<char>, Seq<char>>,
    links: Links,
    count: int,
    adopt: bool,
    cwd: Seq<char>,
)
    requires
        fresh(disk, links, cwd),
        0 <= count <= links.len(),
    ensures
        install_first(disk, store, links, count, adopt, cwd) == (
            made(disk, links, count),
            recorded(store, links, count),
        ),
    decreases count,
{
    if count > 0 {
        lemma_install_fresh(disk, store, links, count - 1, adopt, cwd);
        lemma_made(disk, links, count - 1, cwd);
        let before = made(disk, links, count - 1);
        let (source, target) = links[count - 1];
        assert(links[count - 1].1 == target && links[count - 1].0 == source);
        assert(!before.dom().contains(target));
        assert(before.dom().contains(source) && before[source] == disk[source]);
        lemma_stands_for_itself(before, source, link_limit());
        let mkdir = FsOpView::CreateDirAll { path: target };
        let link = FsOpView::Symlink { source, target };
        lemma_run_few(before, mkdir, mkdir, mkdir);
        lemma_run_few(before, link, link, link);
    }
}

/// Installing a plan a second time changes nothing more, where nothing of it
/// stood in the target tree before the first time: disk and store are after
/// the second time what they were after the first.
pub proof fn lemma_install_plan_twice(
    disk: Disk,
    store: Map<Seq<char>, Seq<char>>,
    links: Links,
    adopt: bool,
    cwd: Seq<char>,
)
    requires
        fresh(disk, links, cwd),
    ensures
        ({
            let once = install_first(disk, store, links, links.len() as int, adopt, cwd);
            install_first(once.0, once.1, links, links.len() as int, adopt, cwd) == once
        }),
{
    lemma_install_fresh(disk, store, links, links.len() as int, adopt, cwd);
    lemma_install_again(disk, store, links, links.len() as int, adopt, cwd);
}

/// The first `count` links installed again, after the whole plan was.
proof fn lemma_install_again(
    disk: Disk,
    store: Map<Seq<char>, Seq<char>>,
    links: Links,
    count: int,
    adopt: bool,
    cwd: Seq<char>,
)
    requires
        fresh(disk, links, cwd),
        0 <= count <= links.len(),
    ensures
        install_first(
            made(disk, links, links.len() as int),
            recorded(store, links, links.len() as int),
            links,
            count,
            adopt,
            cwd,
        ) == (made(disk, links, links.len() as int), recorded(store, links, links.len() as int)),
    decreases count,
{
    if count > 0 {
        let n: int = links.len() as int;
        lemma_install_again(disk, store, links, count - 1, adopt, cwd);
        lemma_made(disk, links, n, cwd);
        lemma_recorded(store, disk, links, n, cwd);
        let all = made(disk, links, n);
        let kept = recorded(store, links, n);
        let (source, target) = links[count - 1];
        assert(links[count - 1].1 == target && links[count - 1].0 == source);
        assert(all.dom().contains(source) && all[source] == disk[source]);
        assert(all.dom().contains(target) && all[target] == made_node(disk, source));
        lemma_stands_for_itself(all, source, link_limit());
        if disk[source] is Dir {
            lemma_stands_for_itself(all, target, link_limit());
        } else {
            lemma_link_leads(all, target, source);
        }
        assert(kept.insert(target, source) =~= kept);
    }
}

/// Installing a plan and then removing it, the last link first, leaves the
/// disk as it was: no link and no directory of the plan is left behind. This
/// is said of a plan of which nothing stood in the target tree before, and in
/// which each directory comes before what stands in it. Where no target was
/// managed before, the store is as it was, too.
pub proof fn lemma_install_then_uninstall_plan(
    disk: Disk,
    store: Map<Seq<char>, Seq<char>>,
    links: Links,
    adopt: bool,
    cwd: Seq<char>,
)
    requires
        fresh(disk, links, cwd),
        parents_first(links),
    ensures
        ({
            let made = install_first(disk, store, links, links.len() as int, adopt, cwd);
            let undone = uninstall_from(made.0, made.1, links, 0);
            &&& undone.0 == disk
            &&& (forall|i: int| 0 <= i < links.len() ==> !store.dom().contains((#[trigger] links[i]).1)) ==> undone.1
                == store
        }),
{
    lemma_install_fresh(disk, store, links, links.len() as int, adopt, cwd);
    lemma_uninstall_back(disk, store, links, 0, cwd);
}

/// The links from `from` on removed again, after the whole plan was
/// installed.
proof fn lemma_uninstall_back(disk: Disk, store: Map<Seq<char>, Seq<char>>, links: Links, from: int, cwd: Seq<char>)
    requires
        fresh(disk, links, cwd),
        parents_first(links),
        0 <= from <= links.len(),
    ensures
        ({
            let undone = uninstall_from(
                made(disk, links, links.len() as int),
                recorded(store, links, links.len() as int),
                links,
                from,
            );
            &&& undone.0 == made(disk, links, from)
            &&& (forall|i: int| 0 <= i < links.len() ==> !store.dom().contains((#[trigger] links[i]).1)) ==> undone.1
                == recorded(store, links, from)
        }),
    decreases links.len() - from,
{
    let n: int = links.len() as int;
    if from < n {
        lemma_uninstall_back(disk, store, links, from + 1, cwd);
        lemma_made(disk, links, from + 1, cwd);
        lemma_made(disk, links, from, cwd);
        lemma_recorded(store, disk, links, from, cwd);
        let before = uninstall_from(made(disk, links, n), recorded(store, links, n), links, from + 1);
        let here = made(disk, links, from + 1);
        assert(before.0 == here);
        let (source, target) = links[from];
        assert(links[from].1 == target && links[from].0 == source);
        assert(here.dom().contains(source) && here[source] == disk[source]);
        assert(here.dom().contains(target) && here[target] == made_node(disk, source));
        lemma_stands_for_itself(here, source, link_limit());
        let rm = FsOpView::RemoveFile { path: target };
        let rmdir = FsOpView::RemoveDir { path: target };
        lemma_run_few(here, rm, rm, rm);
        lemma_run_few(here, rmdir, rmdir, rmdir);
        if disk[source] is Dir {
            lemma_stands_for_itself(here, target, link_limit());
            assert(childless(here, target)) by {
                assert forall|path: Seq<char>| !is_child(here, target, path) by {
                    if is_child(here, target, path) {
                        assert(!is_child(disk, target, path));
                        assert(!disk.dom().contains(path));
                        if forall|i: int| 0 <= i < from + 1 ==> (#[trigger] links[i]).1 != path {
                            assert(here.dom().contains(path) == disk.dom().contains(path));
                        } else {
                            let i = choose|i: int| 0 <= i < from + 1 && (#[trigger] links[i]).1 == path;
                            assert(path_parent(links[i].1) == Some(links[from].1));
                        }
                    }
                }
            }
            assert(lists(here, target, Seq::empty()));
            let found = listing(here, target);
            if found.len() > 0 {
                assert(found.contains(found[0]));
            }
        } else {
            lemma_link_leads(here, target, source);
        }
        assert(!made(disk, links, from).dom().contains(target));
        assert(here.remove(target) =~= made(disk, links, from));
        if forall|i: int| 0 <= i < links.len() ==> !store.dom().contains((#[trigger] links[i]).1) {
            assert(!recorded(store, links, from).dom().contains(target));
            assert(recorded(store, links, from + 1).remove(target) =~= recorded(store, links, from));
        }
    } else {
        assert(made(disk, links, n) == made(disk, links, from));
    }
}

} // verus!
