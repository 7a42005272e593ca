use crate::fs::{ops_view, FsOp, FsOpView, Probe, ProbeView};
use crate::link::Link;
use crate::options::{expand, Command, Options};
use crate::paths::{needs_absolute, needs_absolute_form};
use crate::plan::PlanError;
use crate::store::Store;
use crate::zombies::ZombieError;
use vstd::prelude::*;

verus! {

/// What one planned link needs, given what stands at its target.
#[derive(Debug, Clone)]
pub enum Action {
    /// The directory is there: it only has to be recorded.
    KeepDirectory,
    /// The directory is missing and has to be made.
    CreateDirectory,
    /// Nothing stands at the target: the link has to be made.
    CreateLink,
    /// The link is there and leads to the source.
    KeepLink,
    /// The link leads to the source but holds a relative path: it is made
    /// anew with the absolute one.
    NormalizeLink,
    /// Something else stands at the target and is taken into the package:
    /// the file that the target leads to is copied over the source, and the
    /// target gives way to a link.
    Adopt { from: String },
    /// The target already leads to the source by another way. Copying would
    /// empty the file, so everything stays as it is.
    SameFile,
    /// Something else stands at the target and stays there.
    Conflict,
    /// The empty directory at the target is removed.
    RemoveDirectory,
    /// The link at the target holds the source and is removed.
    RemoveLink,
    /// What stands at the target is not to be removed.
    Leave,
}

/// An `Action` in the terms of the contracts.
pub ghost enum ActionView {
    KeepDirectory,
    CreateDirectory,
    CreateLink,
    KeepLink,
    NormalizeLink,
    Adopt { from: Seq<char> },
    SameFile,
    Conflict,
    RemoveDirectory,
    RemoveLink,
    Leave,
}

impl View for Action {
    type V = ActionView;

    open spec fn view(&self) -> ActionView {
        match self {
            Action::KeepDirectory => ActionView::KeepDirectory,
            Action::CreateDirectory => ActionView::CreateDirectory,
            Action::CreateLink => ActionView::CreateLink,
            Action::KeepLink => ActionView::KeepLink,
            Action::NormalizeLink => ActionView::NormalizeLink,
            Action::Adopt { from } => ActionView::Adopt { from: from@ },
            Action::SameFile => ActionView::SameFile,
            Action::Conflict => ActionView::Conflict,
            Action::RemoveDirectory => ActionView::RemoveDirectory,
            Action::RemoveLink => ActionView::RemoveLink,
            Action::Leave => ActionView::Leave,
        }
    }
}

/// An action together with the operations that carry it out, in order. The
/// caller stops at the first operation that fails.
#[derive(Debug, Clone)]
pub struct Plan {
    pub action: Action,
    pub ops: Vec<FsOp>,
}

/// Why a target could not be judged for removal.
#[derive(Debug, Clone, Copy, PartialEq, Eq, Structural)]
pub enum UnlinkError {
    /// The directory at the target could not be listed.
    UnreadableDirectory,
    /// The link at the target could not be read.
    UnreadableLink,
}

/// Why a package could not be processed.
#[derive(Debug, Clone)]
pub enum PackageError {
    /// The target directory names a variable that could not be looked up.
    Expand { variable: String },
    /// The package has no plan.
    Plan(PlanError),
    /// The sweep for stale entries had to stop.
    Zombies(ZombieError),
    /// A target could not be judged for removal.
    Unlink(UnlinkError),
}

/// Ties an error to the package that it stopped.
pub fn package_error(package: &str, err: PackageError) -> (tied: (String, PackageError))
    ensures
        tied.0@ == package@,
        tied.1 == err,
{
    (String::from_str(package), err)
}

/// What installing a link needs. For a directory of the package: the target
/// is kept if something is there, made if not. For a file, in this order:
/// nothing at the target, the link is made; a link that resolves to the
/// source is kept, or made anew where what it holds is not an absolute path
/// in its plain form; with adoption on, whatever else is there and can be
/// resolved is adopted, unless it resolves to the source itself; all else is
/// a conflict.
pub open spec fn link_action(
    adopt: bool,
    source: Seq<char>,
    source_is_dir: bool,
    target: ProbeView,
    cwd: Seq<char>,
) -> ActionView {
    let exists = target.exists == Some(true);
    if source_is_dir {
        if exists {
            ActionView::KeepDirectory
        } else {
            ActionView::CreateDirectory
        }
    } else if !exists && !target.is_symlink {
        ActionView::CreateLink
    } else if target.is_symlink && target.canonical == Some(source) {
        match target.link_value {
            Some(value) => if needs_absolute_form(value, cwd) {
                ActionView::NormalizeLink
            } else {
                ActionView::KeepLink
            },
            None => ActionView::KeepLink,
        }
    } else if adopt && exists {
        match target.canonical {
            Some(resolved) => if resolved == source {
                ActionView::SameFile
            } else {
                ActionView::Adopt { from: resolved }
            },
            None => ActionView::Conflict,
        }
    } else {
        ActionView::Conflict
    }
}

/// What removing a link needs: an empty directory goes, a link that holds
/// the source goes, all else stays.
pub open spec fn unlink_action(source: Seq<char>, target: ProbeView) -> Result<ActionView, UnlinkError> {
    if target.is_dir {
        match target.entries {
            Some(entries) => if entries.len() == 0 {
                Ok(ActionView::RemoveDirectory)
            } else {
                Ok(ActionView::Leave)
            },
            None => Err(UnlinkError::UnreadableDirectory),
        }
    } else if target.is_symlink {
        match target.link_value {
            Some(value) => if value == source {
                Ok(ActionView::RemoveLink)
            } else {
                Ok(ActionView::Leave)
            },
            None => Err(UnlinkError::UnreadableLink),
        }
    } else {
        Ok(ActionView::Leave)
    }
}

/// The operations that carry an action out. A dry run has none. Adoption
/// copies first, so that the target is only removed once its bytes are safe.
pub open spec fn action_ops(action: ActionView, source: Seq<char>, target: Seq<char>, dry_run: bool) -> Seq<FsOpView> {
    if dry_run {
        Seq::empty()
    } else {
        match action {
            ActionView::CreateDirectory => seq![FsOpView::CreateDirAll { path: target }],
            ActionView::CreateLink => seq![FsOpView::Symlink { source, target }],
            ActionView::NormalizeLink => seq![
                FsOpView::RemoveFile { path: target },
                FsOpView::Symlink { source, target },
            ],
            ActionView::Adopt { from } => seq![
                FsOpView::Copy { from, to: source },
                FsOpView::RemoveFile { path: target },
                FsOpView::Symlink { source, target },
            ],
            ActionView::RemoveDirectory => seq![FsOpView::RemoveDir { path: target }],
            ActionView::RemoveLink => seq![FsOpView::RemoveFile { path: target }],
            _ => Seq::empty(),
        }
    }
}

/// The store after an action: a path that is found in order, or was made, is
/// recorded; one that was removed is retired; a dry run, a failure, a
/// conflict change nothing.
pub open spec fn settled_store(
    store: Map<Seq<char>, Seq<char>>,
    action: ActionView,
    source: Seq<char>,
    target: Seq<char>,
    dry_run: bool,
    succeeded: bool,
) -> Map<Seq<char>, Seq<char>> {
    if dry_run {
        store
    } else {
        match action {
            ActionView::KeepDirectory | ActionView::KeepLink | ActionView::NormalizeLink => store.insert(
                target,
                source,
            ),
            ActionView::CreateDirectory | ActionView::CreateLink | ActionView::Adopt { .. } => if succeeded {
                store.insert(target, source)
            } else {
                store
            },
            ActionView::RemoveDirectory | ActionView::RemoveLink => if succeeded {
                store.remove(target)
            } else {
                store
            },
            ActionView::SameFile | ActionView::Conflict | ActionView::Leave => store,
        }
    }
}

/// Decides what installing `link` needs, from whether its source is a
/// directory and from what a look at its target showed. `cwd` is the working
/// directory, from which the absolute form of a link's value is taken.
pub fn classify_link(adopt: bool, link: &Link, source_is_dir: bool, target: &Probe, cwd: &str) -> (action: Action)
    ensures
        action@ == link_action(adopt, link.source@, source_is_dir, target@, cwd@),
{
    let exists = match target.exists {
        Some(e) => e,
        None => false,
    };
    if source_is_dir {
        return if exists {
            Action::KeepDirectory
        } else {
            Action::CreateDirectory
        };
    }
    if !exists && !target.is_symlink {
        return Action::CreateLink;
    }
    let resolves_to_source = match &target.canonical {
        Some(resolved) => *resolved == link.source,
        None => false,
    };
    if target.is_symlink && resolves_to_source {
        return match &target.link_value {
            Some(value) => if needs_absolute(value, cwd) {
                Action::NormalizeLink
            } else {
                Action::KeepLink
            },
            None => Action::KeepLink,
        };
    }
    if adopt && exists {
        return match &target.canonical {
            Some(resolved) => if resolves_to_source {
                Action::SameFile
            } else {
                Action::Adopt { from: resolved.clone() }
            },
            None => Action::Conflict,
        };
    }
    Action::Conflict
}

/// Decides what removing `link` needs, from what a look at its target showed.
pub fn classify_unlink(link: &Link, target: &Probe) -> (action: Result<Action, UnlinkError>)
    ensures
        match action {
            Ok(a) => unlink_action(link.source@, target@) == Ok::<ActionView, UnlinkError>(a@),
            Err(e) => unlink_action(link.source@, target@) == Err::<ActionView, UnlinkError>(e),
        },
{
    if target.is_dir {
        match &target.entries {
            Some(entries) => if entries.len() == 0 {
                Ok(Action::RemoveDirectory)
            } else {
                Ok(Action::Leave)
            },
            None => Err(UnlinkError::UnreadableDirectory),
        }
    } else if target.is_symlink {
        match &target.link_value {
            Some(value) => if *value == link.source {
                Ok(Action::RemoveLink)
            } else {
                Ok(Action::Leave)
            },
            None => Err(UnlinkError::UnreadableLink),
        }
    } else {
        Ok(Action::Leave)
    }
}

/// The operations that carry `action` out for `link`.
pub fn operations(action: &Action, link: &Link, dry_run: bool) -> (ops: Vec<FsOp>)
    ensures
        ops_view(ops@) == action_ops(action@, link.source@, link.target@, dry_run),
        ops@.len() == action_ops(action@, link.source@, link.target@, dry_run).len(),
        forall|i: int|
            0 <= i < ops@.len() ==> (#[trigger] ops@[i])@ == action_ops(
                action@,
                link.source@,
                link.target@,
                dry_run,
            )[i],
{
    let mut ops: Vec<FsOp> = Vec::new();
    if !dry_run {
        match action {
            Action::CreateDirectory => {
                ops.push(FsOp::CreateDirAll { path: link.target.clone() });
            },
            Action::CreateLink => {
                ops.push(FsOp::Symlink { source: link.source.clone(), target: link.target.clone() });
            },
            Action::NormalizeLink => {
                ops.push(FsOp::RemoveFile { path: link.target.clone() });
                ops.push(FsOp::Symlink { source: link.source.clone(), target: link.target.clone() });
            },
            Action::Adopt { from } => {
                ops.push(FsOp::Copy { from: from.clone(), to: link.source.clone() });
                ops.push(FsOp::RemoveFile { path: link.target.clone() });
                ops.push(FsOp::Symlink { source: link.source.clone(), target: link.target.clone() });
            },
            Action::RemoveDirectory => {
                ops.push(FsOp::RemoveDir { path: link.target.clone() });
            },
            Action::RemoveLink => {
                ops.push(FsOp::RemoveFile { path: link.target.clone() });
            },
            _ => {},
        }
    }
    assert(ops_view(ops@) =~= action_ops(action@, link.source@, link.target@, dry_run));
    ops
}

/// Plans the installation of one link: the action that its target calls for
/// and the operations that carry it out. An unrelated file at the target is
/// never touched without adoption, the source is never copied onto itself,
/// and a dry run asks for no operation.
pub fn do_link(options: &Options, link: &Link, source_is_dir: bool, target: &Probe, cwd: &str) -> (plan: Plan)
    ensures
        plan.action@ == link_action(options.adopt, link.source@, source_is_dir, target@, cwd@),
        ops_view(plan.ops@) == action_ops(plan.action@, link.source@, link.target@, options.dry_run),
        plan.ops@.len() == action_ops(plan.action@, link.source@, link.target@, options.dry_run).len(),
        options.dry_run ==> plan.ops@.len() == 0,
        plan.action@ == ActionView::Conflict ==> plan.ops@.len() == 0,
        forall|i: int|
            0 <= i < plan.ops@.len() ==> (#[trigger] plan.ops@[i])@ != (FsOpView::Copy {
                from: link.source@,
                to: link.source@,
            }),
{
    let action = classify_link(options.adopt, link, source_is_dir, target, cwd);
    let ops = operations(&action, link, options.dry_run);
    proof {
        assert forall|i: int| 0 <= i < ops@.len() implies (#[trigger] ops@[i])@ != (FsOpView::Copy {
            from: link.source@,
            to: link.source@,
        }) by {
            assert(ops@[i]@ == action_ops(action@, link.source@, link.target@, options.dry_run)[i]);
        }
    }
    Plan { action, ops }
}

/// Plans the removal of one link: an empty directory or a link that holds
/// the source is removed, anything else is left. Fails exactly where a
/// directory cannot be listed or a link cannot be read.
pub fn do_unlink(options: &Options, link: &Link, target: &Probe) -> (plan: Result<Plan, UnlinkError>)
    ensures
        match plan {
            Ok(p) => {
                &&& unlink_action(link.source@, target@) == Ok::<ActionView, UnlinkError>(p.action@)
                &&& ops_view(p.ops@) == action_ops(p.action@, link.source@, link.target@, options.dry_run)
                &&& p.ops@.len() == action_ops(p.action@, link.source@, link.target@, options.dry_run).len()
                &&& options.dry_run ==> p.ops@.len() == 0
            },
            Err(e) => unlink_action(link.source@, target@) == Err::<ActionView, UnlinkError>(e),
        },
{
    match classify_unlink(link, target) {
        Ok(action) => {
            let ops = operations(&action, link, options.dry_run);
            Ok(Plan { action, ops })
        },
        Err(e) => Err(e),
    }
}

/// Brings the store up to date once the operations of `action` were run:
/// `succeeded` says that none of them failed.
pub fn settle(options: &Options, link: &Link, action: &Action, succeeded: bool, store: &mut Store)
    requires
        old(store).wf(),
    ensures
        final(store).wf(),
        final(store)@ == settled_store(
            old(store)@,
            action@,
            link.source@,
            link.target@,
            options.dry_run,
            succeeded,
        ),
        options.dry_run ==> final(store)@ == old(store)@,
{
    record(options.dry_run, link, action, succeeded, store)
}

/// Brings the store up to date for `action` on `link`: a path that was found
/// in order or made is recorded, one that was removed is retired, and a dry
/// run records nothing.
pub fn record(dry_run: bool, link: &Link, action: &Action, succeeded: bool, store: &mut Store)
    requires
        old(store).wf(),
    ensures
        final(store).wf(),
        final(store)@ == settled_store(old(store)@, action@, link.source@, link.target@, dry_run, succeeded),
{
    if dry_run {
        return ;
    }
    match action {
        Action::KeepDirectory | Action::KeepLink | Action::NormalizeLink => {
            store.insert(link.target.clone(), link.source.clone());
        },
        Action::CreateDirectory | Action::CreateLink | Action::Adopt { .. } => {
            if succeeded {
                store.insert(link.target.clone(), link.source.clone());
            }
        },
        Action::RemoveDirectory | Action::RemoveLink => {
            if succeeded {
                store.remove(&link.target);
            }
        },
        Action::SameFile | Action::Conflict | Action::Leave => {},
    }
}

/// What is to be done for one package: where its links go and in which
/// direction the work runs.
#[derive(Debug, Clone)]
pub struct Job {
    /// The package as named.
    pub package: String,
    /// The target directory, expanded.
    pub target: String,
    /// Whether `dot-` segments are mapped in target paths.
    pub map_dots: bool,
    /// Whether the package is removed: its plan then runs from the leaves up.
    pub uninstall: bool,
}

/// Whether the command removes packages.
pub fn uninstalls(command: Command) -> (yes: bool)
    ensures
        yes == (command == Command::Unlink),
{
    match command {
        Command::Link => false,
        Command::Unlink => true,
    }
}

/// Whether `job` is the job of `package` under `options`, with `target` as
/// the expanded target directory.
pub open spec fn job_of(job: Job, options: Options, package: Seq<char>, target: Seq<char>) -> bool {
    &&& job.package@ == package
    &&& job.target@ == target
    &&& job.map_dots == options.dotfiles
    &&& job.uninstall == (options.command == Command::Unlink)
}

/// The job of one package, given how the expansion of the target directory
/// went: the job with the expanded target, or the package tied to the
/// variable that could not be looked up.
pub fn prepare(options: &Options, package: &String, expanded: Result<String, String>) -> (job: Result<
    Job,
    (String, PackageError),
>)
    ensures
        match (expanded, job) {
            (Ok(target), Ok(j)) => job_of(j, *options, package@, target@),
            (Err(variable), Err((p, PackageError::Expand { variable: v }))) => p@ == package@ && v@ == variable@,
            _ => false,
        },
{
    match expanded {
        Ok(target) => Ok(
            Job {
                package: package.clone(),
                target,
                map_dots: options.dotfiles,
                uninstall: uninstalls(options.command),
            },
        ),
        Err(variable) => Err(package_error(package.as_str(), PackageError::Expand { variable })),
    }
}

/// Sets out the work of one run: for each package, in the order given, its
/// job, or the package tied to the reason why its target directory could not
/// be expanded. The expansion goes by the variables that the process was
/// started with, so which of the two a package gets is not for the library
/// to say; one package's failure never stands in the way of the next.
pub fn process_packages(options: &Options) -> (jobs: Vec<Result<Job, (String, PackageError)>>)
    ensures
        jobs@.len() == options.packages@.len(),
        forall|i: int|
            0 <= i < jobs@.len() ==> match #[trigger] jobs@[i] {
                Ok(j) => job_of(j, *options, options.packages@[i]@, j.target@),
                Err((p, PackageError::Expand { .. })) => p@ == options.packages@[i]@,
                Err(_) => false,
            },
{
    let mut jobs: Vec<Result<Job, (String, PackageError)>> = Vec::new();
    let mut i: usize = 0;
    while i < options.packages.len()
        invariant
            i <= options.packages@.len(),
            jobs@.len() == i,
            forall|k: int|
                0 <= k < i ==> match #[trigger] jobs@[k] {
                    Ok(j) => job_of(j, *options, options.packages@[k]@, j.target@),
                    Err((p, PackageError::Expand { .. })) => p@ == options.packages@[k]@,
                    Err(_) => false,
                },
        decreases options.packages@.len() - i,
    {
        let expanded = expand(options.target.as_str());
        let job = prepare(options, &options.packages[i], expanded);
        jobs.push(job);
        i += 1;
    }
    jobs
}

} // verus!
