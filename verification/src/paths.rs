use path_absolutize::Absolutize;
use std::path::Path;
use vstd::prelude::*;

verus! {

/// Whether `std::path::Path::starts_with` holds of a path and a base: the
/// base's components are the first components of the path.
pub uninterp spec fn path_starts_with(path: Seq<char>, base: Seq<char>) -> bool;

/// What `std::path::Path::strip_prefix` leaves of a path below a base, where
/// the path starts with the base.
pub uninterp spec fn path_strip_prefix(path: Seq<char>, base: Seq<char>) -> Option<Seq<char>>;

/// What `std::path::Path::parent` gives: the path without its last component,
/// where it has one to drop.
pub uninterp spec fn path_parent(path: Seq<char>) -> Option<Seq<char>>;

/// What `path_absolutize::Absolutize::absolutize_from` makes of a path seen
/// from a working directory: the absolute path without `.` and `..`, or
/// `None` where it gives an error.
pub uninterp spec fn absolutized(path: Seq<char>, cwd: Seq<char>) -> Option<Seq<char>>;

/// A path that begins at the root.
pub open spec fn is_absolute_path(path: Seq<char>) -> bool {
    path.len() > 0 && path[0] == '/'
}

/// `rel` adjoined to `base`: an absolute `rel` stands for itself, and a
/// separator comes between the two where `base` does not end in one.
pub open spec fn joined(base: Seq<char>, rel: Seq<char>) -> Seq<char> {
    if is_absolute_path(rel) {
        rel
    } else if base.len() == 0 || base.last() == '/' {
        base + rel
    } else {
        base + seq!['/'] + rel
    }
}

/// Whether a link that holds `value` is to be made anew with an absolute
/// path: seen from the working directory `cwd`, the absolute form of the
/// value is not the value itself. Where the working directory is itself not
/// absolute, so that no absolute form can be had, a relative value is.
pub open spec fn needs_absolute_form(value: Seq<char>, cwd: Seq<char>) -> bool {
    if is_absolute_path(cwd) {
        absolutized(value, cwd) != Some(value)
    } else {
        !is_absolute_path(value)
    }
}

/// Whether `dot-` stands in `path` at `at`.
pub open spec fn dot_prefix_at(path: Seq<char>, at: int) -> bool {
    &&& 0 <= at
    &&& at + 4 <= path.len()
    &&& path[at] == 'd'
    &&& path[at + 1] == 'o'
    &&& path[at + 2] == 't'
    &&& path[at + 3] == '-'
}

/// Whether a path segment begins at `at`.
pub open spec fn segment_start(path: Seq<char>, at: int) -> bool {
    at == 0 || (0 < at <= path.len() && path[at - 1] == '/')
}

/// The rest of `path` from `at` on, with `.` in place of each `dot-` that
/// begins a segment.
pub open spec fn dots_mapped_from(path: Seq<char>, at: int) -> Seq<char>
    decreases path.len() - at,
{
    if at < 0 || at >= path.len() {
        Seq::empty()
    } else if segment_start(path, at) && dot_prefix_at(path, at) {
        seq!['.'] + dots_mapped_from(path, at + 4)
    } else {
        seq![path[at]] + dots_mapped_from(path, at + 1)
    }
}

/// `path` with `.` in place of each `dot-` that begins a segment.
pub open spec fn dots_mapped(path: Seq<char>) -> Seq<char> {
    dots_mapped_from(path, 0)
}

/// Calls `std::path::Path::starts_with`, which compares whole components.
#[verifier::external_body]
pub(crate) fn starts_with(path: &str, base: &str) -> (yes: bool)
    ensures
        yes == path_starts_with(path@, base@),
{
    Path::new(path).starts_with(Path::new(base))
}

/// Calls `std::path::Path::strip_prefix`; its error, which carries nothing,
/// becomes `None`.
#[verifier::external_body]
pub(crate) fn strip_prefix(path: &str, base: &str) -> (rest: Option<String>)
    ensures
        match rest {
            Some(r) => path_strip_prefix(path@, base@) == Some(r@),
            None => path_strip_prefix(path@, base@).is_none(),
        },
{
    match Path::new(path).strip_prefix(Path::new(base)) {
        Ok(rest) => Some(rest.to_string_lossy().into_owned()),
        Err(_) => None,
    }
}

/// Calls `std::path::Path::parent`.
#[verifier::external_body]
pub(crate) fn parent(path: &str) -> (up: Option<String>)
    ensures
        match up {
            Some(p) => path_parent(path@) == Some(p@),
            None => path_parent(path@).is_none(),
        },
{
    Path::new(path).parent().map(|p| p.to_string_lossy().into_owned())
}

/// Calls `path_absolutize::Absolutize::absolutize_from`; its error becomes
/// `None`. The working directory has to begin at the root: from a relative
/// one a path that climbs with `..` can leave it with nothing to put
/// together.
#[verifier::external_body]
pub(crate) fn absolutize_from(path: &str, cwd: &str) -> (abs: Option<String>)
    requires
        is_absolute_path(cwd@),
    ensures
        match abs {
            Some(a) => absolutized(path@, cwd@) == Some(a@),
            None => absolutized(path@, cwd@).is_none(),
        },
{
    match Path::new(path).absolutize_from(Path::new(cwd)) {
        Ok(abs) => Some(abs.to_string_lossy().into_owned()),
        Err(_) => None,
    }
}

/// Whether `path` begins at the root.
pub fn is_absolute(path: &str) -> (yes: bool)
    ensures
        yes == is_absolute_path(path@),
{
    path.unicode_len() > 0 && path.get_char(0) == '/'
}

/// Whether a link that holds `value` is to be made anew with an absolute
/// path.
pub fn needs_absolute(value: &String, cwd: &str) -> (yes: bool)
    ensures
        yes == needs_absolute_form(value@, cwd@),
{
    if is_absolute(cwd) {
        match absolutize_from(value.as_str(), cwd) {
            Some(abs) => abs != *value,
            None => true,
        }
    } else {
        !is_absolute(value.as_str())
    }
}

/// Adjoins `rel` to `base`.
pub fn join(base: &str, rel: &str) -> (path: String)
    ensures
        path@ == joined(base@, rel@),
{
    if is_absolute(rel) {
        return String::from_str(rel);
    }
    let n: usize = base.unicode_len();
    let mut path = String::from_str(base);
    if n > 0 && base.get_char(n - 1) != '/' {
        proof {
            reveal_strlit("/");
            assert("/"@ =~= seq!['/']);
        }
        path.append("/");
    }
    path.append(rel);
    path
}

/// Rewrites `dot-` at the start of each path segment to `.`.
pub fn map_path_dots(path: &str) -> (mapped: String)
    ensures
        mapped@ == dots_mapped(path@),
{
    let n: usize = path.unicode_len();
    let mut mapped = String::new();
    let mut at: usize = 0;
    let mut at_start = true;
    while at < n
        invariant
            n == path@.len(),
            at <= n,
            at_start == segment_start(path@, at as int),
            mapped@ + dots_mapped_from(path@, at as int) == dots_mapped(path@),
        decreases n - at,
    {
        if at_start && n - at >= 4 && path.get_char(at) == 'd' && path.get_char(at + 1) == 'o'
            && path.get_char(at + 2) == 't' && path.get_char(at + 3) == '-' {
            proof {
                reveal_strlit(".");
                assert("."@ =~= seq!['.']);
                assert(mapped@ + seq!['.'] + dots_mapped_from(path@, at + 4) =~= mapped@
                    + dots_mapped_from(path@, at as int));
            }
            mapped.append(".");
            at += 4;
            at_start = false;
        } else {
            let piece = path.substring_char(at, at + 1);
            proof {
                assert(piece@ =~= seq![path@[at as int]]);
                assert(mapped@ + piece@ + dots_mapped_from(path@, at + 1) =~= mapped@
                    + dots_mapped_from(path@, at as int));
            }
            at_start = path.get_char(at) == '/';
            mapped.append(piece);
            at += 1;
        }
    }
    assert(mapped@ + dots_mapped_from(path@, at as int) =~= mapped@);
    mapped
}

/// Within a segment, past its first character, nothing is rewritten.
proof fn lemma_rest_of_segment(path: Seq<char>, at: int)
    requires
        0 < at <= path.len(),
        forall|i: int| at - 1 <= i < path.len() ==> path[i] != '/',
    ensures
        dots_mapped_from(path, at) == path.subrange(at, path.len() as int),
    decreases path.len() - at,
{
    if at < path.len() {
        lemma_rest_of_segment(path, at + 1);
        assert(seq![path[at]] + path.subrange(at + 1, path.len() as int) =~= path.subrange(at, path.len() as int));
    } else {
        assert(path.subrange(at, path.len() as int) =~= Seq::empty());
    }
}

/// A name that begins with `dot-` is mapped to the same name with `.` in
/// place of `dot-`, and only that: `dot-bashrc` becomes `.bashrc`.
pub proof fn lemma_dot_name(name: Seq<char>)
    requires
        !name.contains('/'),
    ensures
        dots_mapped(seq!['d', 'o', 't', '-'] + name) == seq!['.'] + name,
{
    let path = seq!['d', 'o', 't', '-'] + name;
    assert forall|i: int| 3 <= i < path.len() implies path[i] != '/' by {
        if i >= 4 {
            assert(name.contains(name[i - 4]));
        }
    }
    lemma_rest_of_segment(path, 4);
    assert(path.subrange(4, path.len() as int) =~= name);
}

/// A path in which no segment begins with `dot-` is mapped to itself.
pub proof fn lemma_plain_path(path: Seq<char>)
    requires
        forall|i: int| 0 <= i < path.len() && segment_start(path, i) ==> !dot_prefix_at(path, i),
    ensures
        dots_mapped(path) == path,
{
    lemma_plain_from(path, 0);
    assert(path.subrange(0, path.len() as int) =~= path);
}

/// Where no segment begins with `dot-`, nothing is rewritten.
proof fn lemma_plain_from(path: Seq<char>, at: int)
    requires
        0 <= at <= path.len(),
        forall|i: int| 0 <= i < path.len() && segment_start(path, i) ==> !dot_prefix_at(path, i),
    ensures
        dots_mapped_from(path, at) == path.subrange(at, path.len() as int),
    decreases path.len() - at,
{
    if at < path.len() {
        lemma_plain_from(path, at + 1);
        assert(seq![path[at]] + path.subrange(at + 1, path.len() as int) =~= path.subrange(at, path.len() as int));
    } else {
        assert(path.subrange(at, path.len() as int) =~= Seq::empty());
    }
}

} // verus!
