use crate::options::strings_view;
use vstd::prelude::*;

verus! {

/// What one look at a path shows. The caller takes the look; the library
/// decides on what it shows.
#[derive(Debug, Clone)]
pub struct Probe {
    /// Whether the path leads to something, following links; `None` where
    /// that could not be told.
    pub exists: Option<bool>,
    /// Whether the path leads to a directory, following links.
    pub is_dir: bool,
    /// Whether a symbolic link stands at the path itself.
    pub is_symlink: bool,
    /// The path with every link in it resolved, where that can be done.
    pub canonical: Option<String>,
    /// What the symbolic link at the path holds, where one can be read.
    pub link_value: Option<String>,
    /// Whether what `link_value` names exists.
    pub link_value_exists: bool,
    /// The paths of what the directory at the path holds, where it can be
    /// listed.
    pub entries: Option<Vec<String>>,
}

/// A `Probe` in the terms of the contracts.
pub ghost struct ProbeView {
    pub exists: Option<bool>,
    pub is_dir: bool,
    pub is_symlink: bool,
    pub canonical: Option<Seq<char>>,
    pub link_value: Option<Seq<char>>,
    pub link_value_exists: bool,
    pub entries: Option<Seq<Seq<char>>>,
}

impl View for Probe {
    type V = ProbeView;

    open spec fn view(&self) -> ProbeView {
        ProbeView {
            exists: self.exists,
            is_dir: self.is_dir,
            is_symlink: self.is_symlink,
            canonical: match self.canonical {
                Some(c) => Some(c@),
                None => None,
            },
            link_value: match self.link_value {
                Some(v) => Some(v@),
                None => None,
            },
            link_value_exists: self.link_value_exists,
            entries: match self.entries {
                Some(e) => Some(strings_view(e@)),
                None => None,
            },
        }
    }
}

impl Probe {
    /// What a look at a path shows where nothing stands.
    pub fn absent() -> (probe: Probe)
        ensures
            probe@ == (ProbeView {
                exists: Some(false),
                is_dir: false,
                is_symlink: false,
                canonical: None,
                link_value: None,
                link_value_exists: false,
                entries: None,
            }),
    {
        Probe {
            exists: Some(false),
            is_dir: false,
            is_symlink: false,
            canonical: None,
            link_value: None,
            link_value_exists: false,
            entries: None,
        }
    }
}

/// One change to the disk that the caller is asked to make.
#[derive(Debug, Clone)]
pub enum FsOp {
    /// Make the directory and the missing ones above it.
    CreateDirAll { path: String },
    /// Make a symbolic link at `target` that holds `source`.
    Symlink { source: String, target: String },
    /// Remove the file or the link at the path, not what a link leads to.
    RemoveFile { path: String },
    /// Remove the empty directory.
    RemoveDir { path: String },
    /// Copy the bytes of `from` over `to`.
    Copy { from: String, to: String },
}

/// An `FsOp` in the terms of the contracts.
pub ghost enum FsOpView {
    CreateDirAll { path: Seq<char> },
    Symlink { source: Seq<char>, target: Seq<char> },
    RemoveFile { path: Seq<char> },
    RemoveDir { path: Seq<char> },
    Copy { from: Seq<char>, to: Seq<char> },
}

impl View for FsOp {
    type V = FsOpView;

    open spec fn view(&self) -> FsOpView {
        match self {
            FsOp::CreateDirAll { path } => FsOpView::CreateDirAll { path: path@ },
            FsOp::Symlink { source, target } => FsOpView::Symlink { source: source@, target: target@ },
            FsOp::RemoveFile { path } => FsOpView::RemoveFile { path: path@ },
            FsOp::RemoveDir { path } => FsOpView::RemoveDir { path: path@ },
            FsOp::Copy { from, to } => FsOpView::Copy { from: from@, to: to@ },
        }
    }
}

/// A list of operations in the terms of the contracts.
pub open spec fn ops_view(ops: Seq<FsOp>) -> Seq<FsOpView> {
    Seq::new(ops.len(), |i: int| ops[i]@)
}

} // verus!
