//! Absolute sandbox paths: lexical normalisation (`.` and empty parts
//! dropped, `..` leaving a directory, never above the root) and the
//! resolution of a user path against the home directory or a base directory.

use vstd::prelude::*;
use crate::text::{chars_of, has_prefix, join, push_char, push_str, string_of};

verus! {

/// How far a command got before its output stream broke.
#[derive(Debug, Clone, Copy, PartialEq, Eq, Structural)]
pub enum ExecutionState {
    RunningOrCompleted,
}

/// Errors of operations on a sandbox, as plain values.
#[derive(Debug, Clone)]
pub enum OperationError {
    InvalidPath { message: String },
    NotFound { path: String },
    PermissionDenied { path: String },
    Unsupported { message: String },
    Transport { message: String },
    ExecutionFailed { message: String },
    AlreadyExists { path: String },
    NotFile { path: String },
    ExecutionInterrupted { message: String, stdout: Vec<u8>, stderr: Vec<u8>, state: ExecutionState },
}

/// The `/`-separated parts of `s`, read from the left; `"/a//b"` has the
/// parts ``, `a`, ``, `b`.
pub open spec fn split_slash(s: Seq<char>) -> Seq<Seq<char>>
    decreases s.len(),
{
    if s.len() == 0 {
        seq![Seq::empty()]
    } else {
        let p = split_slash(s.drop_last());
        if s.last() == '/' {
            p.push(Seq::empty())
        } else {
            p.update(p.len() - 1, p.last().push(s.last()))
        }
    }
}

/// Whether a part names a directory entry (not empty, `.` or `..`, no `/`).
pub open spec fn is_clean_part(p: Seq<char>) -> bool {
    p.len() > 0 && p != "."@ && p != ".."@ && !p.contains('/')
}

/// One part applied to the directory stack: empty and `.` parts change
/// nothing, `..` leaves the last directory (there is none above the root),
/// any other part enters it.
pub open spec fn apply_part(stack: Option<Seq<Seq<char>>>, part: Seq<char>) -> Option<Seq<Seq<char>>> {
    match stack {
        None => None,
        Some(st) => if part.len() == 0 || part == "."@ {
            Some(st)
        } else if part == ".."@ {
            if st.len() == 0 { None } else { Some(st.drop_last()) }
        } else {
            Some(st.push(part))
        },
    }
}

/// The directory stack that `parts` lead to from the root, if they stay
/// inside it.
pub open spec fn fold_parts(parts: Seq<Seq<char>>) -> Option<Seq<Seq<char>>>
    decreases parts.len(),
{
    if parts.len() == 0 {
        Some(Seq::empty())
    } else {
        apply_part(fold_parts(parts.drop_last()), parts.last())
    }
}

/// The absolute path text of a directory stack.
pub open spec fn render_dirs(stack: Seq<Seq<char>>) -> Seq<char> {
    "/"@ + join(stack, "/"@)
}

/// Whether `p` is absolute (begins with `/`).
pub open spec fn is_absolute(p: Seq<char>) -> bool {
    p.len() > 0 && p[0] == '/'
}

/// The normal form of `p`, or `None` where it leaves the root; `p` absolute.
pub open spec fn normal_form(p: Seq<char>) -> Option<Seq<char>> {
    match fold_parts(split_slash(p)) {
        Some(st) => Some(render_dirs(st)),
        None => None,
    }
}

/// What normalising `p` gives: the normal form, or the message of the
/// `InvalidPath` error.
pub open spec fn normalize_outcome(p: Seq<char>) -> Result<Seq<char>, Seq<char>> {
    if !is_absolute(p) {
        Err("path must be absolute: "@ + p)
    } else {
        match normal_form(p) {
            Some(q) => Ok(q),
            None => Err("path escapes root: "@ + p),
        }
    }
}

pub open spec fn path_result_view(r: Result<String, OperationError>) -> Result<Seq<char>, Seq<char>> {
    match r {
        Ok(s) => Ok(s@),
        Err(OperationError::InvalidPath { message }) => Err(message@),
        Err(_) => Err(Seq::empty()),
    }
}

pub open spec fn dirs_view(v: Seq<Vec<char>>) -> Seq<Seq<char>> {
    v.map_values(|x: Vec<char>| x@)
}

/// Normalise an absolute sandbox path; a relative path, or one whose `..`
/// parts climb above the root, is an `InvalidPath` error.
pub fn normalize_backend_path(path: &str) -> (r: Result<String, OperationError>)
    ensures
        r is Ok || r matches Err(OperationError::InvalidPath { .. }),
        path_result_view(r) == normalize_outcome(path@),
{
    let chars = chars_of(path);
    let n = chars.len();
    if n == 0 || chars[0] != '/' {
        let mut message = String::from_str("path must be absolute: ");
        push_str(&mut message, path);
        return Err(OperationError::InvalidPath { message });
    }
    proof {
        reveal_strlit(".");
        reveal_strlit("..");
    }
    let mut stack: Vec<Vec<char>> = Vec::new();
    let mut cur: Vec<char> = Vec::new();
    let mut inside = true;
    let mut i: usize = 0;
    assert(chars@.take(0) =~= Seq::<char>::empty());
    while i < n
        invariant
            n == chars@.len(),
            i <= n,
            split_slash(chars@.take(i as int)).len() >= 1,
            cur@ == split_slash(chars@.take(i as int)).last(),
            fold_parts(split_slash(chars@.take(i as int)).drop_last())
                == (if inside { Some(dirs_view(stack@)) } else { None::<Seq<Seq<char>>> }),
            ".."@.len() == 2 && ".."@[0] == '.' && ".."@[1] == '.' && "."@.len() == 1 && "."@[0] == '.',
        decreases n - i,
    {
        let ghost parts = split_slash(chars@.take(i as int));
        assert(chars@.take(i + 1).drop_last() =~= chars@.take(i as int));
        assert(chars@.take(i + 1).last() == chars@[i as int]);
        let c = chars[i];
        if c == '/' {
            assert(split_slash(chars@.take(i + 1)).drop_last() =~= parts);
            assert(parts =~= parts.drop_last().push(parts.last()));
            apply_finished_part(&mut stack, &mut inside, cur);
            cur = Vec::new();
        } else {
            assert(split_slash(chars@.take(i + 1)).drop_last() =~= parts.drop_last());
            cur.push(c);
        }
        i = i + 1;
    }
    assert(chars@.take(n as int) =~= chars@);
    let ghost parts = split_slash(chars@);
    assert(parts =~= parts.drop_last().push(parts.last()));
    apply_finished_part(&mut stack, &mut inside, cur);
    if !inside {
        let mut message = String::from_str("path escapes root: ");
        push_str(&mut message, path);
        return Err(OperationError::InvalidPath { message });
    }
    Ok(render_stack(&stack))
}

/// Apply one finished part to the stack being built.
fn apply_finished_part(stack: &mut Vec<Vec<char>>, inside: &mut bool, part: Vec<char>)
    requires
        ".."@.len() == 2 && ".."@[0] == '.' && ".."@[1] == '.' && "."@.len() == 1 && "."@[0] == '.',
    ensures
        (if *final(inside) { Some(dirs_view(final(stack)@)) } else { None::<Seq<Seq<char>>> })
            == apply_part(if *old(inside) { Some(dirs_view(old(stack)@)) } else { None::<Seq<Seq<char>>> }, part@),
{
    if !*inside {
        return;
    }
    let len = part.len();
    if len == 0 {
        return;
    }
    if len == 1 && part[0] == '.' {
        assert(part@ =~= "."@);
        return;
    }
    if len == 2 && part[0] == '.' && part[1] == '.' {
        assert(part@ =~= ".."@);
        if stack.len() == 0 {
            *inside = false;
        } else {
            stack.pop();
            assert(dirs_view(stack@) =~= dirs_view(old(stack)@).drop_last());
        }
        return;
    }
    assert(part@ != "."@ && part@ != ".."@);
    stack.push(part);
    assert(dirs_view(stack@) =~= dirs_view(old(stack)@).push(part@));
}

/// The text `/` followed by the directories joined by `/`.
fn render_stack(stack: &Vec<Vec<char>>) -> (s: String)
    ensures
        s@ == render_dirs(dirs_view(stack@)),
{
    let mut s = String::from_str("/");
    proof {
        reveal_strlit("/");
    }
    let n = stack.len();
    let mut k: usize = 0;
    assert(dirs_view(stack@).take(0) =~= Seq::<Seq<char>>::empty());
    while k < n
        invariant
            n == stack@.len(),
            k <= n,
            "/"@ == seq!['/'],
            s@ == "/"@ + join(dirs_view(stack@).take(k as int), "/"@),
        decreases n - k,
    {
        let ghost d = dirs_view(stack@);
        assert(d.take(k + 1).drop_last() =~= d.take(k as int));
        assert(d.take(k + 1).last() == stack@[k as int]@);
        if k > 0 {
            push_char(&mut s, '/');
        }
        let part = string_of(stack[k].as_slice());
        push_str(&mut s, part.as_str());
        proof {
            if k == 0 {
                assert(d.take(1).len() == 1);
            }
        }
        assert(s@ =~= "/"@ + join(d.take(k + 1), "/"@));
        k = k + 1;
    }
    assert(dirs_view(stack@).take(n as int) =~= dirs_view(stack@));
    s
}

} // verus!
