use crate::link::Link;
use crate::paths::{absolutize_from, absolutized, dots_mapped, is_absolute, is_absolute_path, join, joined, map_path_dots, path_strip_prefix, strip_prefix};
use vstd::prelude::*;

verus! {

/// One place that a walk of a package came by.
#[derive(Debug, Clone)]
pub enum Walked {
    /// An entry of the package: its path as walked, and the same path with
    /// every link resolved, where that could be done.
    Found { path: String, canonical: Option<String> },
    /// A place that could not be read.
    Failed,
}

/// A `Walked` in the terms of the contracts.
pub ghost enum WalkedView {
    Found { path: Seq<char>, canonical: Option<Seq<char>> },
    Failed,
}

impl View for Walked {
    type V = WalkedView;

    open spec fn view(&self) -> WalkedView {
        match self {
            Walked::Found { path, canonical } => WalkedView::Found {
                path: path@,
                canonical: match canonical {
                    Some(c) => Some(c@),
                    None => None,
                },
            },
            Walked::Failed => WalkedView::Failed,
        }
    }
}

/// Why a package has no plan.
#[derive(Debug, Clone, Copy, PartialEq, Eq, Structural)]
pub enum PlanError {
    /// The walk came by a place that it could not read.
    Unreadable,
    /// An entry does not lie under the package.
    Outside,
    /// A target has no absolute form, as with a working directory that is not
    /// absolute.
    NoAbsolutePath,
    /// An entry has no canonical path.
    NoCanonicalPath,
}

/// The source and the target that one walked place stands for. The target is
/// the entry's path below the package, adjoined to the target directory and
/// made absolute, with its `dot-` segments mapped where `map_dots` asks for
/// it; the source is the entry's canonical path and is never mapped.
pub open spec fn planned(
    package: Seq<char>,
    target: Seq<char>,
    cwd: Seq<char>,
    map_dots: bool,
    walked: WalkedView,
) -> Result<(Seq<char>, Seq<char>), PlanError> {
    match walked {
        WalkedView::Failed => Err(PlanError::Unreadable),
        WalkedView::Found { path, canonical } => match path_strip_prefix(path, package) {
            None => Err(PlanError::Outside),
            Some(below) => if !is_absolute_path(cwd) {
                Err(PlanError::NoAbsolutePath)
            } else {
                match (absolutized(joined(target, below), cwd), canonical) {
                    (None, _) => Err(PlanError::NoAbsolutePath),
                    (Some(_), None) => Err(PlanError::NoCanonicalPath),
                    (Some(raw), Some(source)) => Ok(
                        (
                            source,
                            if map_dots {
                                dots_mapped(raw)
                            } else {
                                raw
                            },
                        ),
                    ),
                }
            },
        },
    }
}

/// The place in the walk that the link at `at` of a plan of `len` links
/// stands for: the same place when installing, the mirrored one when
/// removing.
pub open spec fn walk_index(len: int, at: int, uninstall: bool) -> int {
    if uninstall {
        len - 1 - at
    } else {
        at
    }
}

/// The walked places as they stand in the contracts.
pub open spec fn walk_view(walk: Seq<Walked>) -> Seq<WalkedView> {
    Seq::new(walk.len(), |i: int| walk[i]@)
}

/// The link that one walked place stands for.
pub fn plan_entry(package: &str, target: &str, cwd: &str, map_dots: bool, walked: &Walked) -> (link: Result<
    Link,
    PlanError,
>)
    ensures
        match link {
            Ok(l) => planned(package@, target@, cwd@, map_dots, walked@) == Ok::<
                (Seq<char>, Seq<char>),
                PlanError,
            >((l.source@, l.target@)),
            Err(e) => planned(package@, target@, cwd@, map_dots, walked@) == Err::<
                (Seq<char>, Seq<char>),
                PlanError,
            >(e),
        },
{
    match walked {
        Walked::Failed => Err(PlanError::Unreadable),
        Walked::Found { path, canonical } => {
            let below = match strip_prefix(path.as_str(), package) {
                Some(below) => below,
                None => {
                    return Err(PlanError::Outside);
                },
            };
            if !is_absolute(cwd) {
                return Err(PlanError::NoAbsolutePath);
            }
            let adjoined = join(target, below.as_str());
            let raw = match absolutize_from(adjoined.as_str(), cwd) {
                Some(raw) => raw,
                None => {
                    return Err(PlanError::NoAbsolutePath);
                },
            };
            let mapped = if map_dots {
                map_path_dots(raw.as_str())
            } else {
                raw
            };
            match canonical {
                Some(source) => Ok(Link::new(source.clone(), mapped)),
                None => Err(PlanError::NoCanonicalPath),
            }
        },
    }
}

/// The links that a package implies, one for each place of `walk`, which
/// holds what a walk of the package below its root came by, each directory
/// before what it holds. When installing, the links keep that order, so that
/// a directory is made before anything is linked into it. When removing
/// (`uninstall`), they come in the opposite order, so that a directory is
/// empty by the time its own turn comes. Either every place gives a link, or
/// the error of the first place that gives none is returned and no plan.
pub fn get_paths(package: &str, target: &str, cwd: &str, walk: &Vec<Walked>, map_dots: bool, uninstall: bool) -> (links:
    Result<Vec<Link>, PlanError>)
    ensures
        match links {
            Ok(list) => {
                &&& list@.len() == walk@.len()
                &&& forall|i: int|
                    0 <= i < list@.len() ==> planned(
                        package@,
                        target@,
                        cwd@,
                        map_dots,
                        walk@[walk_index(walk@.len() as int, i, uninstall)]@,
                    ) == Ok::<(Seq<char>, Seq<char>), PlanError>(
                        ((#[trigger] list@[i]).source@, list@[i].target@),
                    )
            },
            Err(e) => exists|k: int|
                {
                    &&& 0 <= k < walk@.len()
                    &&& planned(package@, target@, cwd@, map_dots, (#[trigger] walk@[k])@) == Err::<
                        (Seq<char>, Seq<char>),
                        PlanError,
                    >(e)
                    &&& forall|j: int|
                        0 <= j < k ==> planned(package@, target@, cwd@, map_dots, (#[trigger] walk@[j])@).is_ok()
                },
        },
{
    let n: usize = walk.len();
    let mut forward: Vec<Link> = Vec::new();
    let mut i: usize = 0;
    while i < n
        invariant
            n == walk@.len(),
            i <= n,
            forward@.len() == i,
            forall|j: int|
                0 <= j < i ==> planned(package@, target@, cwd@, map_dots, (#[trigger] walk@[j])@) == Ok::<
                    (Seq<char>, Seq<char>),
                    PlanError,
                >((forward@[j].source@, forward@[j].target@)),
        decreases n - i,
    {
        match plan_entry(package, target, cwd, map_dots, &walk[i]) {
            Ok(link) => {
                forward.push(link);
            },
            Err(e) => {
                assert(planned(package@, target@, cwd@, map_dots, walk@[i as int]@) == Err::<
                    (Seq<char>, Seq<char>),
                    PlanError,
                >(e));
                return Err(e);
            },
        }
        i += 1;
    }
    if !uninstall {
        return Ok(forward);
    }
    let mut backward: Vec<Link> = Vec::new();
    let mut k: usize = 0;
    while k < n
        invariant
            n == walk@.len(),
            forward@.len() == n,
            k <= n,
            backward@.len() == k,
            forall|j: int|
                0 <= j < n ==> planned(package@, target@, cwd@, map_dots, (#[trigger] walk@[j])@) == Ok::<
                    (Seq<char>, Seq<char>),
                    PlanError,
                >((forward@[j].source@, forward@[j].target@)),
            forall|j: int|
                0 <= j < k ==> (#[trigger] backward@[j]).source@ == forward@[n - 1 - j].source@ && backward@[j].target@
                    == forward@[n - 1 - j].target@,
        decreases n - k,
    {
        let from = &forward[n - 1 - k];
        backward.push(Link::new(from.source.clone(), from.target.clone()));
        k += 1;
    }
    proof {
        assert forall|i: int| 0 <= i < backward@.len() implies planned(
            package@,
            target@,
            cwd@,
            map_dots,
            walk@[walk_index(walk@.len() as int, i, uninstall)]@,
        ) == Ok::<(Seq<char>, Seq<char>), PlanError>(((#[trigger] backward@[i]).source@, backward@[i].target@)) by {
            let j = n - 1 - i;
            assert(planned(package@, target@, cwd@, map_dots, walk@[j]@) == Ok::<
                (Seq<char>, Seq<char>),
                PlanError,
            >((forward@[j].source@, forward@[j].target@)));
        }
    }
    Ok(backward)
}

} // verus!
