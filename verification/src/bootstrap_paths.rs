//! Path decisions of the bootstrap archive: which requested root a skill
//! lies under, and what a symbolic link inside an archived tree points to.
//! Paths here are canonical absolute Unix paths, as `std::fs::canonicalize`
//! gives them: `/`-separated, no `.` or `..` parts, no trailing `/` but
//! the root's own.

use vstd::prelude::*;
use crate::e2b_bootstrap::E2bBootstrapBuildError;
use crate::session_record::E2B_REMOTE_SKILLS_ROOT;
use crate::strmap::str_equal;
use crate::text::{chars_of, decimal, has_prefix, push_decimal, push_str, str_starts_with, string_of_range};

verus! {

/// Whether canonical `path` is `base` or lies under it, whole components
/// compared (what `Path::starts_with` gives on canonical paths).
pub open spec fn under(path: Seq<char>, base: Seq<char>) -> bool {
    ||| path == base
    ||| base == seq!['/'] && path.len() > 0 && path[0] == '/'
    ||| path.len() > base.len() && has_prefix(path, base) && path[base.len() as int] == '/'
}

/// The part of `path` below `base` (what `Path::strip_prefix` gives on
/// canonical paths), empty when they are equal.
pub open spec fn below(path: Seq<char>, base: Seq<char>) -> Seq<char> {
    if path == base {
        Seq::empty()
    } else if base == seq!['/'] {
        path.subrange(1, path.len() as int)
    } else {
        path.subrange(base.len() + 1int, path.len() as int)
    }
}

/// `dir` joined with the relative path `rel` (`Path::join`): a `/` goes
/// between them unless `dir` is empty or ends with one.
pub open spec fn join_rel(dir: Seq<char>, rel: Seq<char>) -> Seq<char> {
    if dir.len() > 0 && dir.last() != '/' { dir + seq!['/'] + rel } else { dir + rel }
}

/// Whether canonical `path` lies at or under canonical `base`.
pub fn path_under(path: &str, base: &str) -> (r: bool)
    ensures
        r == under(path@, base@),
{
    if str_equal(path, base) {
        return true;
    }
    let p = chars_of(path);
    let b = chars_of(base);
    if b.len() == 1 && b[0] == '/' {
        assert(base@ =~= seq!['/']);
        return p.len() > 0 && p[0] == '/';
    }
    proof {
        if base@ == seq!['/'] {
            assert(b@.len() == 1 && b@[0] == '/');
        }
    }
    if p.len() > b.len() && str_starts_with(path, base) {
        p[b.len()] == '/'
    } else {
        false
    }
}

/// The part of `path` below `base`, where `path` lies at or under `base`.
pub fn path_below(path: &str, base: &str) -> (r: String)
    requires
        under(path@, base@),
    ensures
        r@ == below(path@, base@),
{
    if str_equal(path, base) {
        return String::new();
    }
    let p = chars_of(path);
    let b = chars_of(base);
    if b.len() == 1 && b[0] == '/' {
        assert(base@ =~= seq!['/']);
        return string_of_range(&p, 1, p.len());
    }
    proof {
        if base@ == seq!['/'] {
            assert(b@.len() == 1 && b@[0] == '/');
        }
    }
    string_of_range(&p, b.len() + 1, p.len())
}

/// `dir` joined with the relative path `rel`.
pub fn join_relative(dir: &str, rel: &str) -> (s: String)
    ensures
        s@ == join_rel(dir@, rel@),
{
    let d = chars_of(dir);
    let mut s = String::from_str(dir);
    if d.len() > 0 && d[d.len() - 1] != '/' {
        push_str(&mut s, "/");
        proof { reveal_strlit("/"); }
    }
    push_str(&mut s, rel);
    proof {
        reveal_strlit("/");
        assert(s@ =~= join_rel(dir@, rel@));
    }
    s
}

/// The first requested root that a skill's canonical directory lies under.
pub open spec fn first_root_under(source: Seq<char>, roots: Seq<Seq<char>>, i: int) -> bool {
    &&& 0 <= i < roots.len()
    &&& under(source, roots[i])
    &&& forall|j: int| 0 <= j < i ==> !under(source, #[trigger] roots[j])
}

/// The position of the first root in `roots` that the skill directory
/// `source` lies under; a skill under none of them is an invalid path.
pub fn skill_root_index(skill_name: &str, source: &str, roots: &Vec<String>) -> (r: Result<usize, E2bBootstrapBuildError>)
    ensures
        r matches Ok(i) ==> first_root_under(source@, roots@.map_values(|s: String| s@), i as int),
        r is Err <==> forall|j: int| 0 <= j < roots@.len() ==> !under(source@, #[trigger] roots@[j]@),
        r matches Err(e) ==> (e matches E2bBootstrapBuildError::InvalidPath { message }
            && message@ == "skill '"@ + skill_name@ + "' resolved outside all requested roots: "@ + source@),
{
    let n = roots.len();
    let mut i: usize = 0;
    while i < n
        invariant
            n == roots@.len(),
            i <= n,
            forall|j: int| 0 <= j < i ==> !under(source@, #[trigger] roots@[j]@),
        decreases n - i,
    {
        if path_under(source, roots[i].as_str()) {
            let ghost rv = roots@.map_values(|s: String| s@);
            assert forall|j: int| 0 <= j < i implies !under(source@, #[trigger] rv[j]) by {
                assert(rv[j] == roots@[j]@);
            }
            return Ok(i);
        }
        i = i + 1;
    }
    let mut message = String::from_str("skill '");
    push_str(&mut message, skill_name);
    push_str(&mut message, "' resolved outside all requested roots: ");
    push_str(&mut message, source);
    Err(E2bBootstrapBuildError::InvalidPath { message })
}

/// Where the skill root at `index` is placed in the sandbox.
pub fn remote_skill_root(index: u64) -> (s: String)
    ensures
        s@ == E2B_REMOTE_SKILLS_ROOT@ + "/"@ + decimal(index as nat),
{
    let mut s = String::from_str(E2B_REMOTE_SKILLS_ROOT);
    push_str(&mut s, "/");
    push_decimal(&mut s, index);
    s
}

/// Where each of `count` skill roots is placed in the sandbox, in order.
pub fn remote_skill_roots(count: usize) -> (v: Vec<String>)
    ensures
        v.len() == count,
        forall|i: int| 0 <= i < count ==> #[trigger] v@[i]@ == E2B_REMOTE_SKILLS_ROOT@ + "/"@ + decimal(i as nat),
{
    let mut v: Vec<String> = Vec::new();
    let mut i: usize = 0;
    while i < count
        invariant
            i <= count,
            v.len() == i,
            forall|j: int| 0 <= j < i ==> #[trigger] v@[j]@ == E2B_REMOTE_SKILLS_ROOT@ + "/"@ + decimal(j as nat),
        decreases count - i,
    {
        v.push(remote_skill_root(i as u64));
        i = i + 1;
    }
    v
}

/// Whether a link target is an absolute Unix path.
pub open spec fn is_absolute(p: Seq<char>) -> bool {
    p.len() > 0 && p[0] == '/'
}

/// What an archived symbolic link points to. `raw_target` is the link's
/// own text, `resolved` its canonical target. A link whose target leaves
/// `source_root` is refused; an absolute link is rewritten to the same place
/// under `remote_root`; a relative one is kept as it is.
pub open spec fn symlink_target_spec(source_root: Seq<char>, remote_root: Seq<char>, raw_target: Seq<char>,
    resolved: Seq<char>) -> Option<Seq<char>> {
    if !under(resolved, source_root) {
        None
    } else if is_absolute(raw_target) {
        Some(join_rel(remote_root, below(resolved, source_root)))
    } else {
        Some(raw_target)
    }
}

/// The link name an archived symbolic link gets, or the error for a link
/// that escapes the tree's root (`source` names the link in the message).
pub fn symlink_archive_target(source_root: &str, remote_root: &str, source: &str, raw_target: &str, resolved: &str)
    -> (r: Result<String, E2bBootstrapBuildError>)
    ensures
        match symlink_target_spec(source_root@, remote_root@, raw_target@, resolved@) {
            Some(t) => r matches Ok(s) && s@ == t,
            None => r matches Err(E2bBootstrapBuildError::InvalidPath { message })
                && message@ == "symbolic link escapes input root: "@ + source@ + " -> "@ + raw_target@,
        },
{
    if !path_under(resolved, source_root) {
        let mut message = String::from_str("symbolic link escapes input root: ");
        push_str(&mut message, source);
        push_str(&mut message, " -> ");
        push_str(&mut message, raw_target);
        return Err(E2bBootstrapBuildError::InvalidPath { message });
    }
    let t = chars_of(raw_target);
    if t.len() > 0 && t[0] == '/' {
        let rel = path_below(resolved, source_root);
        Ok(join_relative(remote_root, rel.as_str()))
    } else {
        Ok(String::from_str(raw_target))
    }
}

/// A link kept inside the tree never points outside it: whatever target is
/// accepted is the link's own relative text or lies under the remote root.
pub proof fn law_accepted_links_stay_inside(source_root: Seq<char>, remote_root: Seq<char>, raw_target: Seq<char>,
    resolved: Seq<char>)
    requires
        symlink_target_spec(source_root, remote_root, raw_target, resolved) is Some,
        remote_root.len() > 0,
    ensures
        under(resolved, source_root),
        is_absolute(raw_target) ==> has_prefix(symlink_target_spec(source_root, remote_root, raw_target, resolved)->0,
            remote_root),
{
    if is_absolute(raw_target) {
        let t = join_rel(remote_root, below(resolved, source_root));
        assert(t.subrange(0, remote_root.len() as int) =~= remote_root);
    }
}

} // verus!
