//! Moving between directories below the root directory given at start.

use vstd::prelude::*;
use vstd::string::StringExecFns;
use crate::files::{file_name_of, path_file_name};

verus! {

/// The parent of a path as std's `Path::parent` finds it, where there is one.
pub uninterp spec fn path_parent(path: Seq<char>) -> Option<Seq<char>>;

/// Whether path `a` is not before path `b` in std's `Path` order (component by
/// component).
pub uninterp spec fn path_not_before(a: Seq<char>, b: Seq<char>) -> bool;

/// What is left of `path` after the leading components of `base`, as std's
/// `Path::strip_prefix` finds it; none when `base` does not lead `path`.
pub uninterp spec fn path_relative(path: Seq<char>, base: Seq<char>) -> Option<Seq<char>>;

/// Trusted: `std::path::Path::parent`, converted to a `String`. Its result is
/// named `path_parent`, a function of the path alone.
#[verifier::external_body]
fn parent_of(path: &str) -> (r: Option<String>)
    ensures
        r is Some <==> path_parent(path@) is Some,
        r matches Some(p) ==> path_parent(path@) == Some(p@),
{
    match std::path::Path::new(path).parent() {
        Some(p) => match p.to_str() {
            Some(s) => Some(s.to_string()),
            None => None,
        },
        None => None,
    }
}

/// Trusted: `>=` on `std::path::Path`. Its result is named
/// `path_not_before`, a function of the two paths alone.
#[verifier::external_body]
fn not_before(a: &str, b: &str) -> (r: bool)
    ensures
        r == path_not_before(a@, b@),
{
    std::path::Path::new(a) >= std::path::Path::new(b)
}

/// Trusted: `std::path::Path::strip_prefix`, converted to a `String`. Its
/// result is named `path_relative`, a function of the two paths alone.
#[verifier::external_body]
fn relative_to(path: &str, base: &str) -> (r: Option<String>)
    ensures
        r is Some <==> path_relative(path@, base@) is Some,
        r matches Some(p) ==> path_relative(path@, base@) == Some(p@),
{
    match std::path::Path::new(path).strip_prefix(base) {
        Ok(p) => match p.to_str() {
            Some(s) => Some(s.to_string()),
            None => None,
        },
        Err(_) => None,
    }
}

/// The name of a directory, or empty when its path has no last component.
pub open spec fn dir_name_or_empty(path: Seq<char>) -> Seq<char> {
    match path_file_name(path) {
        Some(n) => n,
        None => Seq::empty(),
    }
}

/// Where going up leads from `current`: its parent, unless it has none or
/// the parent comes before `root` in path order; with the name of the
/// directory left, to select it again.
pub fn navigate_up_target(current: &str, root: &str) -> (r: Option<(String, String)>)
    ensures
        r is Some <==> (path_parent(current@) matches Some(p) && path_not_before(p, root@)),
        r matches Some(target) ==> path_parent(current@) == Some(target.0@) && target.1@
            == dir_name_or_empty(current@),
{
    match parent_of(current) {
        Some(parent) => {
            if not_before(parent.as_str(), root) {
                let old_dir_name = match file_name_of(current) {
                    Some(n) => n,
                    None => String::new(),
                };
                Some((parent, old_dir_name))
            } else {
                None
            }
        },
        None => None,
    }
}

/// The folder mark and a space.
pub open spec fn folder_prefix() -> Seq<char> {
    seq!['\u{1F4C1}', ' ']
}

/// The header's directory text: the path below the root, "ルート" at the root,
/// the full path when it is not below the root.
pub open spec fn directory_display_spec(current: Seq<char>, root: Seq<char>) -> Seq<char> {
    match path_relative(current, root) {
        Some(rel) => if rel.len() == 0 {
            folder_prefix() + seq!['ル', 'ー', 'ト']
        } else {
            folder_prefix() + rel
        },
        None => folder_prefix() + current,
    }
}

/// The text naming the current directory, relative to the root.
pub fn current_directory_display(current: &str, root: &str) -> (r: String)
    ensures
        r@ == directory_display_spec(current@, root@),
{
    proof {
        reveal_strlit("\u{1F4C1} ");
        reveal_strlit("\u{1F4C1} ルート");
    }
    match relative_to(current, root) {
        Some(rel) => {
            if rel.as_str().is_empty() {
                "\u{1F4C1} ルート".to_owned()
            } else {
                let mut s = "\u{1F4C1} ".to_owned();
                s.append(rel.as_str());
                s
            }
        },
        None => {
            let mut s = "\u{1F4C1} ".to_owned();
            s.append(current);
            s
        },
    }
}

/// `p` is a prefix of `q`.
pub open spec fn is_prefix_of(p: Seq<Seq<char>>, q: Seq<Seq<char>>) -> bool {
    p.len() <= q.len() && q.subrange(0, p.len() as int) == p
}

/// `components` reads each path as its sequence of components, such that
/// `Path::parent` drops the last component and a path whose components are a
/// proper prefix of another's comes before it in path order.
pub open spec fn component_reading(components: spec_fn(Seq<char>) -> Seq<Seq<char>>) -> bool {
    &&& forall|p: Seq<char>, q: Seq<char>|
        #![trigger path_parent(p), components(q)]
        path_parent(p) == Some(q) ==> components(p).len() > 0 && components(q)
            == components(p).drop_last()
    &&& forall|a: Seq<char>, b: Seq<char>|
        #![trigger path_not_before(a, b)]
        components(a).len() < components(b).len() && is_prefix_of(components(a), components(b))
            ==> !path_not_before(a, b)
}

/// The directory `dir` is `root` or lies below it, under the reading
/// `components`.
pub open spec fn within_root(
    components: spec_fn(Seq<char>) -> Seq<Seq<char>>,
    dir: Seq<char>,
    root: Seq<char>,
) -> bool {
    is_prefix_of(components(root), components(dir))
}

/// Going up never leaves the root directory. Read each path as its sequence
/// of components through `components`, such that `Path::parent` drops the
/// last component and a path whose components are a proper prefix of
/// another's comes before it in path order (the component-wise reading of
/// paths). Then, from a directory at or below `root`, going up (which
/// `navigate_up_target` does exactly when the parent is not before the root)
/// leads to a directory at or below `root`; and from `root` itself it does
/// not happen.
pub proof fn law_up_stays_within_root(
    components: spec_fn(Seq<char>) -> Seq<Seq<char>>,
    current: Seq<char>,
    root: Seq<char>,
)
    requires
        component_reading(components),
        is_prefix_of(components(root), components(current)),
    ensures
        forall|t: Seq<char>|
            path_parent(current) == Some(t) && #[trigger] path_not_before(t, root)
                ==> is_prefix_of(components(root), components(t)),
        forall|t: Seq<char>|
            path_parent(current) == Some(t) && components(current) == components(root)
                ==> !(#[trigger] path_not_before(t, root)),
{
    if let Some(t) = path_parent(current) {
        let c = components(current);
        let r = components(root);
        let ct = components(t);
        assert(ct == c.drop_last());
        if ct.len() < r.len() {
            assert(ct.len() == c.len() - 1);
            assert(is_prefix_of(ct, r)) by {
                assert(r.subrange(0, ct.len() as int) =~= c.subrange(0, ct.len() as int));
                assert(c.subrange(0, ct.len() as int) =~= ct);
            }
            assert(!path_not_before(t, root));
        } else {
            assert(ct.subrange(0, r.len() as int) =~= c.subrange(0, r.len() as int));
        }
    }
}

} // verus!
