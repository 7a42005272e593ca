use crate::command::{action_ops, classify_link, classify_unlink, link_action, operations, record, settled_store, unlink_action, Action, ActionView, Job, PackageError, UnlinkError};
use crate::fs::{ops_view, FsOp, FsOpView, Probe, ProbeView};
use crate::link::Link;
use crate::model::{install, look, run_ops, uninstall, Disk};
use crate::options::Options;
use crate::plan::{get_paths, planned, walk_index, walk_view, PlanError, Walked, WalkedView};
use crate::store::Store;
use crate::zombies::{check_zombies, selected, target_root, SweepView, ZombieError, ZombieSweep};
use vstd::prelude::*;

verus! {

/// What the processing of a package asks of the caller next.
#[derive(Debug, Clone)]
pub enum Request {
    /// Walk the package below its root, each directory before what it holds,
    /// and hand what the walk came by to `walked`.
    Walk { package: String },
    /// Look at this managed path or queued directory and hand the look to
    /// `seen`; the source does not matter.
    Look { path: String },
    /// Look at the target of this link, find out whether its source is a
    /// directory, and hand both to `seen`.
    LookAtLink { source: String, target: String },
    /// Say through `ran` how the operations of the last link went.
    Report,
    /// Nothing: the package is done.
    Finished,
}

/// A `Request` in the terms of the contracts.
pub ghost enum RequestView {
    Walk { package: Seq<char> },
    Look { path: Seq<char> },
    LookAtLink { source: Seq<char>, target: Seq<char> },
    Report,
    Finished,
}

impl View for Request {
    type V = RequestView;

    open spec fn view(&self) -> RequestView {
        match self {
            Request::Walk { package } => RequestView::Walk { package: package@ },
            Request::Look { path } => RequestView::Look { path: path@ },
            Request::LookAtLink { source, target } => RequestView::LookAtLink { source: source@, target: target@ },
            Request::Report => RequestView::Report,
            Request::Finished => RequestView::Finished,
        }
    }
}

/// The links of a plan as pairs of source and target.
pub open spec fn links_view(links: Seq<Link>) -> Seq<(Seq<char>, Seq<char>)> {
    Seq::new(links.len(), |i: int| (links[i].source@, links[i].target@))
}

/// The processing of a package in the terms of the contracts.
pub ghost struct RunView {
    pub dry_run: bool,
    pub adopt: bool,
    pub uninstall: bool,
    pub map_dots: bool,
    /// The package as named.
    pub package: Seq<char>,
    /// The target directory.
    pub target: Seq<char>,
    pub cwd: Seq<char>,
    /// The sweep for what the package left behind, which runs first.
    pub sweep: SweepView,
    /// Whether the plan was made.
    pub planned: bool,
    /// The plan: source and target of each link, in working order.
    pub links: Seq<(Seq<char>, Seq<char>)>,
    /// How many links are done.
    pub at: nat,
    /// The action of the link at `at` whose operations are being run.
    pub awaiting: Option<ActionView>,
}

impl RunView {
    /// Whether the sweep still has a path to look at.
    pub open spec fn sweeping(self) -> bool {
        self.sweep.current().is_some()
    }

    /// Whether the sweep is over and the plan is still to be made.
    pub open spec fn planning(self) -> bool {
        !self.sweeping() && !self.planned
    }

    /// Whether the link at `at` waits for a look at its target.
    pub open spec fn linking(self) -> bool {
        !self.sweeping() && self.planned && self.at < self.links.len() && self.awaiting.is_none()
    }

    /// Whether the link at `at` waits for the report on its operations.
    pub open spec fn reporting(self) -> bool {
        !self.sweeping() && self.planned && self.at < self.links.len() && self.awaiting.is_some()
    }

    /// Whether `links` is the plan that `walk` gives: a link for each walked
    /// place, in the order of the walk when installing and in the opposite
    /// order when removing.
    pub open spec fn plans(self, walk: Seq<WalkedView>, links: Seq<(Seq<char>, Seq<char>)>) -> bool {
        &&& links.len() == walk.len()
        &&& forall|i: int|
            0 <= i < links.len() ==> planned(
                self.package,
                self.target,
                self.cwd,
                self.map_dots,
                walk[walk_index(walk.len() as int, i, self.uninstall)],
            ) == Ok::<(Seq<char>, Seq<char>), PlanError>(#[trigger] links[i])
    }

    /// Whether `error` is that of the first walked place that gives no link.
    pub open spec fn plan_fails(self, walk: Seq<WalkedView>, error: PlanError) -> bool {
        exists|k: int|
            {
                &&& 0 <= k < walk.len()
                &&& planned(self.package, self.target, self.cwd, self.map_dots, #[trigger] walk[k]) == Err::<
                    (Seq<char>, Seq<char>),
                    PlanError,
                >(error)
                &&& forall|j: int|
                    0 <= j < k ==> planned(self.package, self.target, self.cwd, self.map_dots, #[trigger] walk[j]).is_ok()
            }
    }

    /// What is asked of the caller: the sweep comes first, then the walk for
    /// the plan, then the links in the order of the plan, each with a look
    /// and then a report.
    pub open spec fn request(self) -> RequestView {
        if self.sweeping() {
            RequestView::Look { path: self.sweep.current().unwrap() }
        } else if !self.planned {
            RequestView::Walk { package: self.package }
        } else if self.at < self.links.len() {
            if self.awaiting.is_some() {
                RequestView::Report
            } else {
                RequestView::LookAtLink { source: self.links[self.at as int].0, target: self.links[self.at as int].1 }
            }
        } else {
            RequestView::Finished
        }
    }

    /// The action for the link at `at`, given a look at its target.
    pub open spec fn link_verdict(self, seen: ProbeView, source_is_dir: bool) -> Result<ActionView, UnlinkError> {
        if self.uninstall {
            unlink_action(self.links[self.at as int].0, seen)
        } else {
            Ok(link_action(self.adopt, self.links[self.at as int].0, source_is_dir, seen, self.cwd))
        }
    }

    /// Whether a look stops the package, and why.
    pub open spec fn seen_error(self, seen: ProbeView, source_is_dir: bool) -> Option<PackageError> {
        if self.sweeping() {
            match self.sweep.step_error(seen) {
                Some(e) => Some(PackageError::Zombies(e)),
                None => None,
            }
        } else if self.linking() {
            match self.link_verdict(seen, source_is_dir) {
                Err(e) => Some(PackageError::Unlink(e)),
                Ok(_) => None,
            }
        } else {
            None
        }
    }

    /// The operations that a look leads to.
    pub open spec fn seen_ops(self, store: Map<Seq<char>, Seq<char>>, seen: ProbeView, source_is_dir: bool) -> Seq<
        FsOpView,
    > {
        if self.sweeping() {
            self.sweep.step_ops(store, seen)
        } else if self.linking() {
            match self.link_verdict(seen, source_is_dir) {
                Ok(action) => action_ops(
                    action,
                    self.links[self.at as int].0,
                    self.links[self.at as int].1,
                    self.dry_run,
                ),
                Err(_) => Seq::empty(),
            }
        } else {
            Seq::empty()
        }
    }

    /// The processing after a look.
    pub open spec fn seen(self, store: Map<Seq<char>, Seq<char>>, seen: ProbeView, source_is_dir: bool) -> RunView {
        if self.sweeping() {
            RunView { sweep: self.sweep.step(store, seen), ..self }
        } else if self.linking() {
            match self.link_verdict(seen, source_is_dir) {
                Ok(action) => RunView { awaiting: Some(action), ..self },
                Err(_) => self,
            }
        } else {
            self
        }
    }

    /// The store after a look: only the sweep changes it then.
    pub open spec fn seen_store(self, store: Map<Seq<char>, Seq<char>>, seen: ProbeView) -> Map<Seq<char>, Seq<char>> {
        if self.sweeping() {
            self.sweep.step_store(store, seen)
        } else {
            store
        }
    }

    /// The processing after a report: the link is done.
    pub open spec fn ran(self) -> RunView {
        if self.reporting() {
            RunView { at: self.at + 1, awaiting: None, ..self }
        } else {
            self
        }
    }

    /// The store after a report on the link at `at`.
    pub open spec fn ran_store(self, store: Map<Seq<char>, Seq<char>>, succeeded: bool) -> Map<Seq<char>, Seq<char>> {
        if self.reporting() {
            settled_store(
                store,
                self.awaiting.unwrap(),
                self.links[self.at as int].0,
                self.links[self.at as int].1,
                self.dry_run,
                succeeded,
            )
        } else {
            store
        }
    }
}

/// The processing of one package: first the sweep for what the package left
/// behind, then the plan, then its links in the order of the plan. The caller
/// does what `request` asks: it looks and calls `seen`, carries out the
/// operations that `seen` answers with, walks the package and calls
/// `walked`, and after the operations of a link calls `ran`.
pub struct PackageRun {
    dry_run: bool,
    adopt: bool,
    uninstall: bool,
    map_dots: bool,
    package: String,
    target: String,
    cwd: String,
    sweep: ZombieSweep,
    planned: bool,
    links: Vec<Link>,
    at: usize,
    awaiting: Option<Action>,
}

impl View for PackageRun {
    type V = RunView;

    closed spec fn view(&self) -> RunView {
        RunView {
            dry_run: self.dry_run,
            adopt: self.adopt,
            uninstall: self.uninstall,
            map_dots: self.map_dots,
            package: self.package@,
            target: self.target@,
            cwd: self.cwd@,
            sweep: self.sweep@,
            planned: self.planned,
            links: links_view(self.links@),
            at: self.at as nat,
            awaiting: match self.awaiting {
                Some(a) => Some(a@),
                None => None,
            },
        }
    }
}

impl PackageRun {
    /// The sweep is in order, the counter does not run past the plan, and no
    /// link is at hand before there is a plan.
    pub closed spec fn wf(&self) -> bool {
        &&& self.sweep.wf()
        &&& self.at <= self.links@.len()
        &&& !self.planned ==> self.at == 0 && self.awaiting.is_none()
    }

    /// Sets out the processing of the package of `job` and starts the sweep
    /// over the store. `package` is the canonical path of the package,
    /// `None` where it has none; `cwd` is the working directory. Fails
    /// exactly where the sweep cannot start.
    pub fn start(options: &Options, job: &Job, cwd: &str, package: &Option<String>, store: &Store) -> (run: Result<
        PackageRun,
        PackageError,
    >)
        requires
            store.wf(),
        ensures
            match run {
                Ok(r) => {
                    &&& r.wf()
                    &&& target_root(job.target@, cwd@).is_some()
                    &&& package.is_some()
                    &&& r@ == (RunView {
                        dry_run: options.dry_run,
                        adopt: options.adopt,
                        uninstall: job.uninstall,
                        map_dots: job.map_dots,
                        package: job.package@,
                        target: job.target@,
                        cwd: cwd@,
                        sweep: SweepView {
                            dry_run: options.dry_run,
                            package: package.unwrap()@,
                            pending: selected(
                                store.pairs(),
                                target_root(job.target@, cwd@).unwrap(),
                                package.unwrap()@,
                            ),
                            next: 0,
                            queue: Seq::empty(),
                            head: 0,
                            cleaned: Seq::empty(),
                        },
                        planned: false,
                        links: Seq::empty(),
                        at: 0,
                        awaiting: None,
                    })
                },
                Err(PackageError::Zombies(ZombieError::NoAbsoluteTarget)) => target_root(job.target@, cwd@).is_none(),
                Err(PackageError::Zombies(ZombieError::NoCanonicalPackage)) => target_root(
                    job.target@,
                    cwd@,
                ).is_some() && package.is_none(),
                Err(_) => false,
            },
    {
        let sweep = match check_zombies(package, job.target.as_str(), cwd, options, store) {
            Ok(sweep) => sweep,
            Err(e) => {
                return Err(PackageError::Zombies(e));
            },
        };
        let run = PackageRun {
            dry_run: options.dry_run,
            adopt: options.adopt,
            uninstall: job.uninstall,
            map_dots: job.map_dots,
            package: job.package.clone(),
            target: job.target.clone(),
            cwd: String::from_str(cwd),
            sweep,
            planned: false,
            links: Vec::new(),
            at: 0,
            awaiting: None,
        };
        assert(run@.links =~= Seq::empty());
        Ok(run)
    }

    /// What the caller is to do next.
    pub fn request(&self) -> (request: Request)
        requires
            self.wf(),
        ensures
            request@ == self@.request(),
    {
        match self.sweep.current() {
            Some(path) => Request::Look { path },
            None => {
                if !self.planned {
                    Request::Walk { package: self.package.clone() }
                } else if self.at < self.links.len() {
                    if self.awaiting.is_some() {
                        Request::Report
                    } else {
                        let link = &self.links[self.at];
                        Request::LookAtLink { source: link.source.clone(), target: link.target.clone() }
                    }
                } else {
                    Request::Finished
                }
            },
        }
    }

    /// Takes what the walk of the package came by and makes the plan. Either
    /// every walked place gives a link, or the package fails with the error
    /// of the first place that gives none, and nothing of a plan is ever
    /// applied. Where no walk was asked for, nothing happens.
    pub fn walked(&mut self, walk: &Vec<Walked>) -> (done: Result<(), PackageError>)
        requires
            old(self).wf(),
        ensures
            final(self).wf(),
            match done {
                Ok(_) => if old(self)@.planning() {
                    &&& old(self)@.plans(walk_view(walk@), final(self)@.links)
                    &&& final(self)@ == (RunView { planned: true, links: final(self)@.links, ..old(self)@ })
                } else {
                    final(self)@ == old(self)@
                },
                Err(PackageError::Plan(e)) => {
                    &&& old(self)@.planning()
                    &&& old(self)@.plan_fails(walk_view(walk@), e)
                    &&& final(self)@ == old(self)@
                },
                Err(_) => false,
            },
    {
        if self.sweep.current().is_some() || self.planned {
            return Ok(());
        }
        match get_paths(
            self.package.as_str(),
            self.target.as_str(),
            self.cwd.as_str(),
            walk,
            self.map_dots,
            self.uninstall,
        ) {
            Ok(links) => {
                proof {
                    let view = links_view(links@);
                    assert forall|i: int| 0 <= i < view.len() implies planned(
                        self.package@,
                        self.target@,
                        self.cwd@,
                        self.map_dots,
                        walk_view(walk@)[walk_index(walk@.len() as int, i, self.uninstall)],
                    ) == Ok::<(Seq<char>, Seq<char>), PlanError>(#[trigger] view[i]) by {
                        assert(view[i] == (links@[i].source@, links@[i].target@));
                    }
                }
                self.links = links;
                self.planned = true;
                Ok(())
            },
            Err(e) => {
                proof {
                    let k = choose|k: int|
                        {
                            &&& 0 <= k < walk@.len()
                            &&& planned(self.package@, self.target@, self.cwd@, self.map_dots, (#[trigger] walk@[k])@)
                                == Err::<(Seq<char>, Seq<char>), PlanError>(e)
                            &&& forall|j: int|
                                0 <= j < k ==> planned(
                                    self.package@,
                                    self.target@,
                                    self.cwd@,
                                    self.map_dots,
                                    (#[trigger] walk@[j])@,
                                ).is_ok()
                        };
                    assert(walk_view(walk@)[k] == walk@[k]@);
                    assert forall|j: int| 0 <= j < k implies planned(
                        self.package@,
                        self.target@,
                        self.cwd@,
                        self.map_dots,
                        #[trigger] walk_view(walk@)[j],
                    ).is_ok() by {
                        assert(walk_view(walk@)[j] == walk@[j]@);
                    }
                }
                Err(PackageError::Plan(e))
            },
        }
    }

    /// Takes the look that was asked for and answers with the operations to
    /// carry out. During the sweep this is one step of it. For a link it is
    /// the choice of its action, which then awaits the report; the store is
    /// not touched before that. An error stops the package and leaves
    /// everything as it was. Where no look was asked for, nothing happens.
    pub fn seen(&mut self, seen: &Probe, source_is_dir: bool, store: &mut Store) -> (ops: Result<
        Vec<FsOp>,
        PackageError,
    >)
        requires
            old(self).wf(),
            old(store).wf(),
        ensures
            final(self).wf(),
            final(store).wf(),
            match ops {
                Ok(list) => {
                    &&& old(self)@.seen_error(seen@, source_is_dir).is_none()
                    &&& ops_view(list@) == old(self)@.seen_ops(old(store)@, seen@, source_is_dir)
                    &&& list@.len() == old(self)@.seen_ops(old(store)@, seen@, source_is_dir).len()
                    &&& final(self)@ == old(self)@.seen(old(store)@, seen@, source_is_dir)
                    &&& final(store)@ == old(self)@.seen_store(old(store)@, seen@)
                },
                Err(e) => {
                    &&& old(self)@.seen_error(seen@, source_is_dir) == Some(e)
                    &&& final(self)@ == old(self)@
                    &&& final(store)@ == old(store)@
                },
            },
    {
        if self.sweep.current().is_some() {
            return match self.sweep.step(seen, store) {
                Ok(list) => Ok(list),
                Err(e) => Err(PackageError::Zombies(e)),
            };
        }
        if self.planned && self.at < self.links.len() && self.awaiting.is_none() {
            let link = &self.links[self.at];
            let action = if self.uninstall {
                match classify_unlink(link, seen) {
                    Ok(action) => action,
                    Err(e) => {
                        return Err(PackageError::Unlink(e));
                    },
                }
            } else {
                classify_link(self.adopt, link, source_is_dir, seen, self.cwd.as_str())
            };
            let list = operations(&action, link, self.dry_run);
            self.awaiting = Some(action);
            return Ok(list);
        }
        let list: Vec<FsOp> = Vec::new();
        assert(ops_view(list@) =~= Seq::empty());
        Ok(list)
    }

    /// Takes the report on the operations of the link at hand, brings the
    /// store up to date and moves on to the next link. Where no report was
    /// asked for, nothing happens.
    pub fn ran(&mut self, succeeded: bool, store: &mut Store)
        requires
            old(self).wf(),
            old(store).wf(),
        ensures
            final(self).wf(),
            final(store).wf(),
            final(self)@ == old(self)@.ran(),
            final(store)@ == old(self)@.ran_store(old(store)@, succeeded),
            old(self)@.dry_run ==> final(store)@ == old(store)@,
    {
        if self.sweep.current().is_none() && self.planned && self.at < self.links.len() {
            match &self.awaiting {
                Some(action) => {
                    record(self.dry_run, &self.links[self.at], action, succeeded, store);
                    self.at = self.at + 1;
                    self.awaiting = None;
                },
                None => {},
            }
        }
    }
}

/// Processing a package in a dry run asks for no operation and leaves the
/// store as it is, whatever is seen and reported.
pub proof fn lemma_dry_run_is_inert(
    run: RunView,
    store: Map<Seq<char>, Seq<char>>,
    seen: ProbeView,
    source_is_dir: bool,
    succeeded: bool,
)
    requires
        run.dry_run,
        run.sweep.dry_run,
    ensures
        run.seen_ops(store, seen, source_is_dir).len() == 0,
        run.seen_store(store, seen) == store,
        run.ran_store(store, succeeded) == store,
{
}

/// One link's turn in the processing of a package does to the disk and the
/// store what installing the link does, or removing it where the package is
/// removed: the look at its target, the operations that `seen` answers with,
/// run up to the first that fails, and the report. After it the next link is
/// at hand.
pub proof fn lemma_turn_of_a_link(run: RunView, disk: Disk, store: Map<Seq<char>, Seq<char>>)
    requires
        run.linking(),
        run.uninstall ==> unlink_action(run.links[run.at as int].0, look(disk, run.links[run.at as int].1)).is_ok(),
    ensures
        ({
            let (source, target) = run.links[run.at as int];
            let shown = look(disk, target);
            let source_is_dir = look(disk, source).is_dir;
            let (after, succeeded) = run_ops(disk, run.seen_ops(store, shown, source_is_dir));
            let looked = run.seen(store, shown, source_is_dir);
            let kept = looked.ran_store(run.seen_store(store, shown), succeeded);
            &&& run.seen_error(shown, source_is_dir).is_none()
            &&& looked.reporting()
            &&& looked.ran().at == run.at + 1
            &&& looked.ran().awaiting.is_none()
            &&& (after, kept) == if run.uninstall {
                uninstall(disk, store, source, target, run.dry_run)
            } else {
                install(disk, store, source, target, run.adopt, run.dry_run, run.cwd)
            }
        }),
{
}

} // verus!
