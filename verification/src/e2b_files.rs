//! File operations of an E2B sandbox, as decisions on what the sandbox
//! reported: writes that must create, the scripts that move and create
//! paths, what an exported file is called, and how a script's exit is read.

use vstd::prelude::*;
use vstd::utf8::{decode_utf8, valid_utf8};
use crate::backend_labels::{PathKind, PathStat};
use crate::backend_path::OperationError;
use crate::e2b_backend::{shell_quote, shell_quote_spec};
use crate::text::{chars_of, push_str, string_of_range, trim, trim_chars, string_of};

verus! {

/// How a write treats an existing file.
#[derive(Debug, Clone, Copy, PartialEq, Eq, Structural)]
pub enum WriteMode {
    /// The file must not exist yet.
    Create,
    /// Replace the file in place.
    Overwrite,
    /// Upload beside the file, then move it over the file.
    AtomicOverwrite,
}

/// A write in `Create` mode is refused when the path exists already.
pub fn write_precheck(mode: WriteMode, stat: PathStat, path: &str) -> (r: Result<(), OperationError>)
    ensures
        (mode == WriteMode::Create && stat.exists) ==> (r matches Err(OperationError::AlreadyExists { path: p }) && p@ == path@),
        !(mode == WriteMode::Create && stat.exists) ==> r is Ok,
{
    if mode == WriteMode::Create && stat.exists {
        return Err(OperationError::AlreadyExists { path: String::from_str(path) });
    }
    Ok(())
}

/// The script that moves an uploaded temporary file over `destination`,
/// creating its directory first.
pub fn atomic_move_script(temp: &str, destination: &str) -> (s: String)
    ensures
        s@ == "parent=$(dirname "@ + shell_quote_spec(destination@) + ") && mkdir -p \"$parent\" && mv -f "@
            + shell_quote_spec(temp@) + " "@ + shell_quote_spec(destination@),
{
    let dest = shell_quote(destination);
    let mut s = String::from_str("parent=$(dirname ");
    push_str(&mut s, dest.as_str());
    push_str(&mut s, ") && mkdir -p \"$parent\" && mv -f ");
    let t = shell_quote(temp);
    push_str(&mut s, t.as_str());
    push_str(&mut s, " ");
    push_str(&mut s, dest.as_str());
    s
}

/// The script that creates `path` and its parents.
pub fn mkdir_script(path: &str) -> (s: String)
    ensures
        s@ == "mkdir -p "@ + shell_quote_spec(path@),
{
    let mut s = String::from_str("mkdir -p ");
    let q = shell_quote(path);
    push_str(&mut s, q.as_str());
    s
}

/// The script that creates a new sandbox's workspace and temporary roots.
pub fn remote_roots_script(workspace_root: &str, temp_root: &str) -> (s: String)
    ensures
        s@ == "mkdir -p "@ + shell_quote_spec(workspace_root@) + " "@ + shell_quote_spec(temp_root@),
{
    let mut s = String::from_str("mkdir -p ");
    let w = shell_quote(workspace_root);
    push_str(&mut s, w.as_str());
    push_str(&mut s, " ");
    let t = shell_quote(temp_root);
    push_str(&mut s, t.as_str());
    s
}

/// The part of `path` after its last `/` (all of it when it has none).
pub open spec fn last_segment(path: Seq<char>) -> Seq<char>
    decreases path.len(),
{
    if path.len() == 0 {
        Seq::empty()
    } else if path.last() == '/' {
        Seq::empty()
    } else {
        last_segment(path.drop_last()).push(path.last())
    }
}

/// The name an exported file is given: the preferred one, else the last
/// segment of its path.
pub fn export_file_name(path: &str, preferred_name: Option<String>) -> (s: String)
    ensures
        s@ == (match preferred_name { Some(n) => n@, None => last_segment(path@) }),
{
    match preferred_name {
        Some(n) => n,
        None => {
            let v = chars_of(path);
            let mut start: usize = v.len();
            assert(v@.take(v@.len() as int) =~= v@);
            assert(v@.subrange(v@.len() as int, v@.len() as int) =~= Seq::<char>::empty());
            assert(last_segment(v@) + Seq::<char>::empty() =~= last_segment(v@));
            while start > 0 && v[start - 1] != '/'
                invariant
                    v@ == path@,
                    start <= v@.len(),
                    last_segment(path@) == last_segment(v@.take(start as int)) + v@.subrange(start as int, v@.len() as int),
                decreases start,
            {
                assert(v@.take(start as int).drop_last() =~= v@.take(start - 1));
                assert(v@.subrange(start - 1, v@.len() as int) =~= seq![v@[start - 1]] + v@.subrange(start as int, v@.len() as int));
                assert(last_segment(v@.take(start as int)) == last_segment(v@.take(start - 1)).push(v@[start - 1]));
                start = start - 1;
            }
            proof {
                if start > 0 {
                    assert(v@.take(start as int).last() == '/');
                }
                assert(last_segment(v@.take(start as int)) =~= Seq::<char>::empty());
            }
            string_of_range(&v, start, v.len())
        },
    }
}

/// Only an existing regular file can be exported.
pub fn export_precheck(stat: PathStat, path: &str) -> (r: Result<(), OperationError>)
    ensures
        !stat.exists ==> (r matches Err(OperationError::NotFound { path: p }) && p@ == path@),
        stat.exists && stat.kind != Some(PathKind::File) ==> (r matches Err(OperationError::NotFile { path: p }) && p@ == path@),
        stat.exists && stat.kind == Some(PathKind::File) ==> r is Ok,
{
    if !stat.exists {
        return Err(OperationError::NotFound { path: String::from_str(path) });
    }
    match stat.kind {
        Some(PathKind::File) => Ok(()),
        _ => Err(OperationError::NotFile { path: String::from_str(path) }),
    }
}

/// What `String::from_utf8_lossy` makes of `bytes`: a function of the bytes
/// alone.
pub uninterp spec fn utf8_lossy_text(bytes: Seq<u8>) -> Seq<char>;

/// `String::from_utf8_lossy`. Claimed: the text is `utf8_lossy_text` of the
/// bytes, and valid UTF-8 is decoded as it is. How invalid sequences are
/// replaced (by U+FFFD) is left to the name.
#[verifier::external_body]
fn utf8_lossy(bytes: &[u8]) -> (s: String)
    ensures
        s@ == utf8_lossy_text(bytes@),
        valid_utf8(bytes@) ==> s@ == decode_utf8(bytes@),
{
    String::from_utf8_lossy(bytes).to_string()
}

/// How a sandbox script's exit is read: success is exit code 0; anything
/// else fails with the script's error output as text.
pub fn script_exit(exit_code: Option<i32>, stderr: &[u8]) -> (r: Result<(), OperationError>)
    ensures
        exit_code == Some(0i32) ==> r is Ok,
        exit_code != Some(0i32) ==> (r matches Err(OperationError::ExecutionFailed { message })
            && message@ == utf8_lossy_text(stderr@)
            && (valid_utf8(stderr@) ==> message@ == decode_utf8(stderr@))),
{
    if exit_code == Some(0i32) {
        return Ok(());
    }
    Err(OperationError::ExecutionFailed { message: utf8_lossy(stderr) })
}

/// The temporary path a creation script printed: its output, trimmed, once
/// it exited with 0.
pub fn temp_path_from_output(exit_code: Option<i32>, stdout: &[u8], stderr: &[u8]) -> (r: Result<String, OperationError>)
    ensures
        exit_code != Some(0i32) ==> (r matches Err(OperationError::ExecutionFailed { message })
            && message@ == utf8_lossy_text(stderr@)
            && (valid_utf8(stderr@) ==> message@ == decode_utf8(stderr@))),
        exit_code == Some(0i32) ==> (r matches Ok(p) && p@ == trim(utf8_lossy_text(stdout@))
            && (valid_utf8(stdout@) ==> p@ == trim(decode_utf8(stdout@)))),
{
    script_exit(exit_code, stderr)?;
    let text = utf8_lossy(stdout);
    Ok(temp_path_from_text(text.as_str()))
}

/// The temporary path in a creation script's decoded output: the output
/// with surrounding whitespace removed.
pub fn temp_path_from_text(output: &str) -> (p: String)
    ensures
        p@ == trim(output@),
{
    let chars = chars_of(output);
    let trimmed = trim_chars(&chars);
    string_of(trimmed.as_slice())
}

} // verus!
