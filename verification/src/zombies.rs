use crate::fs::{ops_view, FsOp, FsOpView, Probe, ProbeView};
use crate::options::{strings_view, Options};
use crate::paths::{absolutize_from, absolutized, is_absolute, is_absolute_path, parent, path_parent, path_starts_with, starts_with};
use crate::store::Store;
use vstd::prelude::*;

verus! {

/// Why the sweep for stale entries had to stop.
#[derive(Debug, Clone, Copy, PartialEq, Eq, Structural)]
pub enum ZombieError {
    /// The target directory has no absolute form, as with a working
    /// directory that is not absolute.
    NoAbsoluteTarget,
    /// The package has no canonical path.
    NoCanonicalPackage,
    /// Whether a managed path exists could not be told.
    CannotCheck,
    /// A broken link at a managed path could not be read.
    CannotReadLink,
}

/// What a look at a managed path says of its entry.
#[derive(Debug, Clone, Copy, PartialEq, Eq, Structural)]
pub enum Verdict {
    /// The path leads somewhere: the entry stays.
    Live,
    /// Nothing stands at the path: the entry is out of date and is retired.
    Forgotten,
    /// A broken link into the package stands at the path: link and entry go.
    Zombie,
    /// A broken link stands at the path that is not a stale one of the
    /// package: it stays.
    Foreign,
}

/// The verdict on a managed path of the package at `package`.
pub open spec fn entry_verdict(package: Seq<char>, seen: ProbeView) -> Result<Verdict, ZombieError> {
    match seen.exists {
        None => Err(ZombieError::CannotCheck),
        Some(true) => Ok(Verdict::Live),
        Some(false) => if !seen.is_symlink {
            Ok(Verdict::Forgotten)
        } else {
            match seen.link_value {
                None => Err(ZombieError::CannotReadLink),
                Some(dest) => if path_starts_with(dest, package) && !seen.link_value_exists {
                    Ok(Verdict::Zombie)
                } else {
                    Ok(Verdict::Foreign)
                },
            }
        },
    }
}

/// The absolute form of the target directory, seen from the working
/// directory `cwd`, which has to be absolute itself.
pub open spec fn target_root(target: Seq<char>, cwd: Seq<char>) -> Option<Seq<char>> {
    if is_absolute_path(cwd) {
        absolutized(target, cwd)
    } else {
        None
    }
}

/// The managed paths, in the order of the store, that lie under `root` and
/// were made for something under `package`.
pub open spec fn selected(pairs: Seq<(Seq<char>, Seq<char>)>, root: Seq<char>, package: Seq<char>) -> Seq<Seq<char>>
    decreases pairs.len(),
{
    if pairs.len() == 0 {
        Seq::empty()
    } else {
        let rest = selected(pairs.drop_last(), root, package);
        let last = pairs.last();
        if path_starts_with(last.0, root) && path_starts_with(last.1, package) {
            rest.push(last.0)
        } else {
            rest
        }
    }
}

/// The queue with the directory above `path` added, unless `path` has none or
/// it was queued before.
pub open spec fn enqueue_parent(queue: Seq<Seq<char>>, path: Seq<char>) -> Seq<Seq<char>> {
    match path_parent(path) {
        Some(dir) => if queue.contains(dir) {
            queue
        } else {
            queue.push(dir)
        },
        None => queue,
    }
}

/// Whether each of `entries` is among `cleaned`.
pub open spec fn all_cleaned(entries: Seq<Seq<char>>, cleaned: Seq<Seq<char>>) -> bool {
    forall|i: int| 0 <= i < entries.len() ==> cleaned.contains(#[trigger] entries[i])
}

/// A sweep in the terms of the contracts.
pub ghost struct SweepView {
    /// Whether nothing is to be changed.
    pub dry_run: bool,
    /// The canonical path of the package.
    pub package: Seq<char>,
    /// The managed paths that the sweep looks at.
    pub pending: Seq<Seq<char>>,
    /// How many of them it has looked at.
    pub next: nat,
    /// Every directory that was queued, in the order of queueing.
    pub queue: Seq<Seq<char>>,
    /// How many of them it has looked at.
    pub head: nat,
    /// In a dry run, the paths that a real run would have removed.
    pub cleaned: Seq<Seq<char>>,
}

impl SweepView {
    /// The path that the sweep wants looked at next: the managed paths first,
    /// then the queued directories; `None` once it is done.
    pub open spec fn current(self) -> Option<Seq<char>> {
        if self.next < self.pending.len() {
            Some(self.pending[self.next as int])
        } else if self.head < self.queue.len() {
            Some(self.queue[self.head as int])
        } else {
            None
        }
    }

    /// Whether the step on `seen` stops the sweep, and why.
    pub open spec fn step_error(self, seen: ProbeView) -> Option<ZombieError> {
        if self.next < self.pending.len() {
            match entry_verdict(self.package, seen) {
                Err(e) => Some(e),
                Ok(_) => None,
            }
        } else {
            None
        }
    }

    /// Whether the queued directory that is looked at goes: it is managed,
    /// and it is empty, or in a dry run holds only what would be removed.
    pub open spec fn directory_goes(self, store: Map<Seq<char>, Seq<char>>, seen: ProbeView) -> bool {
        &&& self.next >= self.pending.len()
        &&& self.head < self.queue.len()
        &&& store.dom().contains(self.queue[self.head as int])
        &&& match seen.entries {
            Some(entries) => if self.dry_run {
                all_cleaned(entries, self.cleaned)
            } else {
                entries.len() == 0
            },
            None => false,
        }
    }

    /// The sweep after the step on `seen`, which shows what stands at
    /// `current()`.
    pub open spec fn step(self, store: Map<Seq<char>, Seq<char>>, seen: ProbeView) -> SweepView {
        if self.next < self.pending.len() {
            let path = self.pending[self.next as int];
            match entry_verdict(self.package, seen) {
                Err(_) => self,
                Ok(Verdict::Zombie) => SweepView {
                    next: self.next + 1,
                    queue: enqueue_parent(self.queue, path),
                    cleaned: if self.dry_run {
                        self.cleaned.push(path)
                    } else {
                        self.cleaned
                    },
                    ..self
                },
                Ok(Verdict::Forgotten) => SweepView {
                    next: self.next + 1,
                    queue: enqueue_parent(self.queue, path),
                    ..self
                },
                Ok(_) => SweepView { next: self.next + 1, ..self },
            }
        } else if self.head < self.queue.len() {
            let dir = self.queue[self.head as int];
            if self.directory_goes(store, seen) {
                SweepView {
                    head: self.head + 1,
                    queue: enqueue_parent(self.queue, dir),
                    cleaned: if self.dry_run {
                        self.cleaned.push(dir)
                    } else {
                        self.cleaned
                    },
                    ..self
                }
            } else {
                SweepView { head: self.head + 1, ..self }
            }
        } else {
            self
        }
    }

    /// The store after the step on `seen`. A dry run leaves it as it is.
    pub open spec fn step_store(self, store: Map<Seq<char>, Seq<char>>, seen: ProbeView) -> Map<Seq<char>, Seq<char>> {
        if self.dry_run {
            store
        } else if self.next < self.pending.len() {
            match entry_verdict(self.package, seen) {
                Ok(Verdict::Zombie) | Ok(Verdict::Forgotten) => store.remove(self.pending[self.next as int]),
                _ => store,
            }
        } else if self.directory_goes(store, seen) {
            store.remove(self.queue[self.head as int])
        } else {
            store
        }
    }

    /// The operations that the step on `seen` asks for. A dry run asks for
    /// none.
    pub open spec fn step_ops(self, store: Map<Seq<char>, Seq<char>>, seen: ProbeView) -> Seq<FsOpView> {
        if self.dry_run {
            Seq::empty()
        } else if self.next < self.pending.len() {
            match entry_verdict(self.package, seen) {
                Ok(Verdict::Zombie) => seq![FsOpView::RemoveFile { path: self.pending[self.next as int] }],
                _ => Seq::empty(),
            }
        } else if self.directory_goes(store, seen) {
            seq![FsOpView::RemoveDir { path: self.queue[self.head as int] }]
        } else {
            Seq::empty()
        }
    }
}

/// Whether `path` is among `list`.
pub fn contains_path(list: &Vec<String>, path: &String) -> (found: bool)
    ensures
        found == strings_view(list@).contains(path@),
{
    let mut i: usize = 0;
    while i < list.len()
        invariant
            i <= list.len(),
            forall|j: int| 0 <= j < i ==> strings_view(list@)[j] != path@,
        decreases list.len() - i,
    {
        if list[i] == *path {
            assert(strings_view(list@)[i as int] == path@);
            return true;
        }
        i += 1;
    }
    false
}

/// Whether each of `entries` is among `cleaned`.
pub fn all_in(entries: &Vec<String>, cleaned: &Vec<String>) -> (all: bool)
    ensures
        all == all_cleaned(strings_view(entries@), strings_view(cleaned@)),
{
    let mut i: usize = 0;
    while i < entries.len()
        invariant
            i <= entries.len(),
            forall|j: int| 0 <= j < i ==> strings_view(cleaned@).contains(#[trigger] strings_view(entries@)[j]),
        decreases entries.len() - i,
    {
        if !contains_path(cleaned, &entries[i]) {
            assert(!strings_view(cleaned@).contains(strings_view(entries@)[i as int]));
            return false;
        }
        i += 1;
    }
    true
}

/// The verdict on a managed path of the package at `package`, from what a
/// look at the path showed.
pub fn judge_entry(package: &String, seen: &Probe) -> (verdict: Result<Verdict, ZombieError>)
    ensures
        verdict == entry_verdict(package@, seen@),
{
    match seen.exists {
        None => Err(ZombieError::CannotCheck),
        Some(true) => Ok(Verdict::Live),
        Some(false) => {
            if !seen.is_symlink {
                return Ok(Verdict::Forgotten);
            }
            match &seen.link_value {
                None => Err(ZombieError::CannotReadLink),
                Some(dest) => if starts_with(dest.as_str(), package.as_str()) && !seen.link_value_exists {
                    Ok(Verdict::Zombie)
                } else {
                    Ok(Verdict::Foreign)
                },
            }
        },
    }
}

/// The search of the store for what a package left behind: links whose file
/// is gone from the package, and the managed directories that empty out once
/// those links go. It looks at one path at a time: the caller looks at
/// `current()`, hands what it saw to `step`, and carries out what `step`
/// answers with, until `current()` is `None`.
pub struct ZombieSweep {
    dry_run: bool,
    package: String,
    pending: Vec<String>,
    next: usize,
    queue: Vec<String>,
    head: usize,
    cleaned: Vec<String>,
}

impl View for ZombieSweep {
    type V = SweepView;

    closed spec fn view(&self) -> SweepView {
        SweepView {
            dry_run: self.dry_run,
            package: self.package@,
            pending: strings_view(self.pending@),
            next: self.next as nat,
            queue: strings_view(self.queue@),
            head: self.head as nat,
            cleaned: strings_view(self.cleaned@),
        }
    }
}

impl ZombieSweep {
    /// The counters do not run past their lists.
    pub closed spec fn wf(&self) -> bool {
        &&& self.next <= self.pending@.len()
        &&& self.head <= self.queue@.len()
    }

    /// The path to look at next, or `None` once the sweep is done.
    pub fn current(&self) -> (path: Option<String>)
        requires
            self.wf(),
        ensures
            match path {
                Some(p) => self@.current() == Some(p@),
                None => self@.current().is_none(),
            },
    {
        if self.next < self.pending.len() {
            Some(self.pending[self.next].clone())
        } else if self.head < self.queue.len() {
            Some(self.queue[self.head].clone())
        } else {
            None
        }
    }

    /// In a dry run, the paths that a real run would have removed so far.
    pub fn would_remove(&self) -> (paths: Vec<String>)
        ensures
            strings_view(paths@) == self@.cleaned,
    {
        crate::options::clone_strings(&self.cleaned)
    }

    /// Queues the directory above `path`, once.
    fn enqueue_parent_of(&mut self, path: &String)
        requires
            old(self).wf(),
        ensures
            final(self).wf(),
            final(self)@ == (SweepView { queue: enqueue_parent(old(self)@.queue, path@), ..old(self)@ }),
    {
        match parent(path.as_str()) {
            Some(dir) => {
                if !contains_path(&self.queue, &dir) {
                    let ghost before = strings_view(self.queue@);
                    self.queue.push(dir);
                    assert(strings_view(self.queue@) =~= before.push(dir@));
                }
            },
            None => {},
        }
    }

    /// Takes what a look at `current()` showed, moves on by one path and
    /// answers with the operations to carry out. A stale link is removed and
    /// retired, a managed path at which nothing stands is retired, and in
    /// both cases the directory above is queued; a queued directory is
    /// removed and retired only if it is managed and empty, and then the one
    /// above it is queued.
    /// A dry run changes neither disk nor store and notes instead what would
    /// go. An error leaves everything as it was.
    pub fn step(&mut self, seen: &Probe, store: &mut Store) -> (ops: Result<Vec<FsOp>, ZombieError>)
        requires
            old(self).wf(),
            old(store).wf(),
        ensures
            final(self).wf(),
            final(store).wf(),
            match ops {
                Ok(list) => {
                    &&& old(self)@.step_error(seen@).is_none()
                    &&& ops_view(list@) == old(self)@.step_ops(old(store)@, seen@)
                    &&& list@.len() == old(self)@.step_ops(old(store)@, seen@).len()
                    &&& final(self)@ == old(self)@.step(old(store)@, seen@)
                    &&& final(store)@ == old(self)@.step_store(old(store)@, seen@)
                },
                Err(e) => {
                    &&& old(self)@.step_error(seen@) == Some(e)
                    &&& final(self)@ == old(self)@
                    &&& final(store)@ == old(store)@
                },
            },
    {
        let mut list: Vec<FsOp> = Vec::new();
        if self.next < self.pending.len() {
            let path = self.pending[self.next].clone();
            let verdict = match judge_entry(&self.package, seen) {
                Ok(v) => v,
                Err(e) => {
                    return Err(e);
                },
            };
            self.next = self.next + 1;
            match verdict {
                Verdict::Zombie => {
                    self.enqueue_parent_of(&path);
                    if self.dry_run {
                        let ghost before = strings_view(self.cleaned@);
                        self.cleaned.push(path);
                        assert(strings_view(self.cleaned@) =~= before.push(path@));
                    } else {
                        store.remove(&path);
                        list.push(FsOp::RemoveFile { path });
                    }
                },
                Verdict::Forgotten => {
                    self.enqueue_parent_of(&path);
                    if !self.dry_run {
                        store.remove(&path);
                    }
                },
                _ => {},
            }
        } else if self.head < self.queue.len() {
            let dir = self.queue[self.head].clone();
            self.head = self.head + 1;
            let goes = store.contains_key(&dir) && match &seen.entries {
                Some(entries) => if self.dry_run {
                    all_in(entries, &self.cleaned)
                } else {
                    entries.len() == 0
                },
                None => false,
            };
            if goes {
                self.enqueue_parent_of(&dir);
                if self.dry_run {
                    let ghost before = strings_view(self.cleaned@);
                    self.cleaned.push(dir);
                    assert(strings_view(self.cleaned@) =~= before.push(dir@));
                } else {
                    store.remove(&dir);
                    list.push(FsOp::RemoveDir { path: dir });
                }
            }
        }
        assert(ops_view(list@) =~= old(self)@.step_ops(old(store)@, seen@));
        Ok(list)
    }
}

/// Starts the sweep for what the package at `package` left behind under
/// `target`. `package` is the canonical path of the package, `None` where it
/// has none; `target` is made absolute from the working directory `cwd`. The
/// sweep will look at each managed path under the target that was made for
/// something under the package. Fails exactly where the target has no
/// absolute form or the package no canonical path.
pub fn check_zombies(package: &Option<String>, target: &str, cwd: &str, options: &Options, store: &Store) -> (sweep:
    Result<ZombieSweep, ZombieError>)
    requires
        store.wf(),
    ensures
        match sweep {
            Ok(s) => {
                &&& s.wf()
                &&& target_root(target@, cwd@).is_some()
                &&& package.is_some()
                &&& s@ == (SweepView {
                    dry_run: options.dry_run,
                    package: package.unwrap()@,
                    pending: selected(store.pairs(), target_root(target@, cwd@).unwrap(), package.unwrap()@),
                    next: 0,
                    queue: Seq::empty(),
                    head: 0,
                    cleaned: Seq::empty(),
                })
            },
            Err(ZombieError::NoAbsoluteTarget) => target_root(target@, cwd@).is_none(),
            Err(ZombieError::NoCanonicalPackage) => target_root(target@, cwd@).is_some() && package.is_none(),
            Err(_) => false,
        },
{
    if !is_absolute(cwd) {
        return Err(ZombieError::NoAbsoluteTarget);
    }
    let root = match absolutize_from(target, cwd) {
        Some(root) => root,
        None => {
            return Err(ZombieError::NoAbsoluteTarget);
        },
    };
    let package = match package {
        Some(p) => p.clone(),
        None => {
            return Err(ZombieError::NoCanonicalPackage);
        },
    };
    let keys = store.keys();
    let mut pending: Vec<String> = Vec::new();
    let mut i: usize = 0;
    while i < keys.len()
        invariant
            store.wf(),
            i <= keys.len(),
            keys@.len() == store.pairs().len(),
            forall|j: int| 0 <= j < keys@.len() ==> (#[trigger] keys@[j])@ == store.pairs()[j].0,
            forall|j: int| 0 <= j < keys@.len() ==> store@.dom().contains((#[trigger] keys@[j])@),
            strings_view(pending@) == selected(store.pairs().take(i as int), root@, package@),
        decreases keys.len() - i,
    {
        let key = &keys[i];
        proof {
            assert(store.pairs().take(i + 1).drop_last() =~= store.pairs().take(i as int));
            assert(store.pairs().take(i + 1).last() == store.pairs()[i as int]);
            store.lemma_pair_value(i as int);
        }
        let under_package = match store.get(key) {
            Some(source) => starts_with(source.as_str(), package.as_str()),
            None => false,
        };
        if starts_with(key.as_str(), root.as_str()) && under_package {
            let ghost before = strings_view(pending@);
            pending.push(key.clone());
            assert(strings_view(pending@) =~= before.push(key@));
        }
        i += 1;
    }
    assert(store.pairs().take(i as int) =~= store.pairs());
    let sweep = ZombieSweep {
        dry_run: options.dry_run,
        package,
        pending,
        next: 0,
        queue: Vec::new(),
        head: 0,
        cleaned: Vec::new(),
    };
    assert(sweep@.queue =~= Seq::empty());
    assert(sweep@.cleaned =~= Seq::empty());
    Ok(sweep)
}

/// Whether the sweep has come to its queued directories and has one to look
/// at.
pub open spec fn at_directory(sweep: SweepView) -> bool {
    sweep.next >= sweep.pending.len() && sweep.head < sweep.queue.len()
}

/// One step of the sweep removes nothing that it should not. It asks for at
/// most one operation, on the path that was looked at: a link goes only as a
/// stale link of the package, a directory only if it is managed and empty.
/// The store loses at most that path. A directory that is not managed, or
/// that still holds something, stays on disk and in the store. A dry run
/// asks for nothing and leaves the store alone, and then a directory counts
/// as gone only if everything in it would be gone.
pub proof fn lemma_step_is_careful(sweep: SweepView, store: Map<Seq<char>, Seq<char>>, seen: ProbeView)
    ensures
        sweep.step_ops(store, seen).len() <= 1,
        forall|i: int|
            0 <= i < sweep.step_ops(store, seen).len() ==> match #[trigger] sweep.step_ops(store, seen)[i] {
                FsOpView::RemoveFile { path } => sweep.current() == Some(path) && !at_directory(sweep)
                    && entry_verdict(sweep.package, seen) == Ok::<Verdict, ZombieError>(Verdict::Zombie),
                FsOpView::RemoveDir { path } => sweep.current() == Some(path) && at_directory(sweep)
                    && store.dom().contains(path) && seen.entries.is_some() && seen.entries.unwrap().len() == 0,
                _ => false,
            },
        sweep.step_store(store, seen) == store || (sweep.current().is_some() && sweep.step_store(store, seen)
            == store.remove(sweep.current().unwrap())),
        sweep.dry_run ==> sweep.step_ops(store, seen).len() == 0 && sweep.step_store(store, seen) == store,
        at_directory(sweep) && !store.dom().contains(sweep.queue[sweep.head as int]) ==> {
            &&& sweep.step_ops(store, seen).len() == 0
            &&& sweep.step_store(store, seen) == store
            &&& sweep.step(store, seen).cleaned == sweep.cleaned
        },
        at_directory(sweep) && !sweep.dry_run && seen.entries.is_some() && seen.entries.unwrap().len() > 0 ==> {
            &&& sweep.step_ops(store, seen).len() == 0
            &&& sweep.step_store(store, seen) == store
        },
        at_directory(sweep) && sweep.dry_run && seen.entries.is_some() && !all_cleaned(
            seen.entries.unwrap(),
            sweep.cleaned,
        ) ==> sweep.step(store, seen).cleaned == sweep.cleaned,
{
}

/// No directory is looked at twice: the queue never holds one twice, and
/// each step that has a path to look at and does not fail moves on by one.
pub proof fn lemma_directories_once(sweep: SweepView, store: Map<Seq<char>, Seq<char>>, seen: ProbeView)
    requires
        sweep.queue.no_duplicates(),
    ensures
        sweep.step(store, seen).queue.no_duplicates(),
        sweep.current().is_some() && sweep.step_error(seen).is_none() ==> sweep.step(store, seen).next + sweep.step(
            store,
            seen,
        ).head == sweep.next + sweep.head + 1,
        sweep.queue.is_prefix_of(sweep.step(store, seen).queue),
{
    let after = sweep.step(store, seen).queue;
    if after != sweep.queue {
        let dir = after.last();
        assert(after == sweep.queue.push(dir));
        assert(!sweep.queue.contains(dir));
        assert forall|i: int, j: int| 0 <= i < after.len() && 0 <= j < after.len() && i != j implies after[i]
            != after[j] by {
            if i < sweep.queue.len() && j < sweep.queue.len() {
                assert(sweep.queue[i] != sweep.queue[j]);
            } else if i < sweep.queue.len() {
                assert(sweep.queue.contains(sweep.queue[i]));
            } else {
                assert(sweep.queue.contains(sweep.queue[j]));
            }
        }
    }
}

} // verus!
