use vstd::prelude::*;

verus! {

/// The source and target of one planned link.
#[derive(Debug, Clone)]
pub struct Link {
    /// The file or directory inside the package that the link points to.
    pub source: String,
    /// The path in the target tree at which the link, or the directory, is made.
    pub target: String,
}

impl Default for Link {
    /// A link with empty paths.
    fn default() -> (link: Link)
        ensures
            link.source@.len() == 0,
            link.target@.len() == 0,
    {
        Link { source: String::new(), target: String::new() }
    }
}

impl Link {
    pub fn new(source: String, target: String) -> (link: Link)
        ensures
            link.source@ == source@,
            link.target@ == target@,
    {
        Link { source, target }
    }
}

} // verus!
