//! The command surface: the operations the view layer invokes, each a direct
//! adapter over one registry operation or one boundary computation.
//!
//! A path is used as an identity key exactly as the caller supplies it;
//! normalizing it to a canonical form first (resolving relative segments and
//! symlinks) is deliberately left to the caller, so two spellings of the
//! same location are two keys here.

use vstd::prelude::*;
use crate::registry::OpenFileRegistry;

verus! {

/// Identifying information for a chosen file, as handed to the view layer.
pub struct FileInfo {
    pub path: String,
    pub name: String,
}

/// Process-wide shared state: the open-file registry. Constructed once,
/// empty, at startup, and handed to every command invocation.
pub struct AppState {
    pub open_files: OpenFileRegistry,
}

impl AppState {
    /// Startup state: a well-formed registry with nothing open.
    pub fn new() -> (r: Self)
        ensures
            r.open_files.wf(),
            r.open_files.open_set() =~= Set::<Seq<char>>::empty(),
    {
        AppState { open_files: OpenFileRegistry::new() }
    }
}

/// Launch-time file arguments. None are supplied through this surface yet,
/// so the answer is always the empty sequence; the shell handles its own
/// argument vector.
pub fn get_cli_args() -> (r: Result<Vec<String>, String>)
    ensures
        r matches Ok(args) && args@.len() == 0,
{
    Ok(Vec::new())
}

/// Pure query: is a window already considered open for `path`? Exclusive
/// access to the state is given by the borrow, so the query itself cannot
/// fail; a shell that shares the state through a lock reports its own access
/// failure before ever reaching this point.
pub fn check_file_already_open(path: String, state: &AppState) -> (r: Result<bool, String>)
    ensures
        r matches Ok(b) && b == state.open_files.open_set().contains(path@),
{
    Ok(state.open_files.is_open(&path))
}

/// Mark `path` open. Idempotent, and never fails once exclusive access to
/// the state is held: the new registry is the old one with `path`'s key
/// inserted, and every other key is untouched.
pub fn register_file_open(path: String, state: &mut AppState) -> (r: Result<(), String>)
    requires
        old(state).open_files.wf(),
    ensures
        r matches Ok(u) && u == (),
        final(state).open_files.wf(),
        final(state).open_files.open_set() =~= old(state).open_files.open_set().insert(path@),
{
    state.open_files.register(&path);
    Ok(())
}

/// Remove the open marking for `path`. Idempotent, and never fails once
/// exclusive access to the state is held: the new registry is the old one
/// with `path`'s key removed, and every other key is untouched.
pub fn unregister_file_open(path: String, state: &mut AppState) -> (r: Result<(), String>)
    requires
        old(state).open_files.wf(),
    ensures
        r matches Ok(u) && u == (),
        final(state).open_files.wf(),
        final(state).open_files.open_set() =~= old(state).open_files.open_set().remove(path@),
{
    state.open_files.unregister(&path);
    Ok(())
}

/// Request that the window already owning `path` be brought to the
/// foreground. Cross-window activation is explicitly unsupported in this
/// design: the request is acknowledged and nothing else happens. It neither
/// consults nor mutates the registry, and it always succeeds.
pub fn activate_existing_window(_path: String) -> (r: Result<(), String>)
    ensures
        r matches Ok(u) && u == (),
{
    Ok(())
}

/// Boundary contract for the file-choosing dialog: the user's cancellation
/// is a normal outcome, never an error, and a chosen path is passed through
/// unchanged.
pub fn dialog_outcome(choice: Option<String>) -> (r: Result<Option<String>, String>)
    ensures
        choice matches Some(p) ==> (r matches Ok(c) && c matches Some(q) && q@ == p@),
        choice is None ==> (r matches Ok(c) && c is None),
{
    Ok(choice)
}

/// The user-visible description of a failed read: it names the offending
/// path and carries the underlying cause.
pub fn read_failure_message(path: &String, cause: &String) -> (r: String)
    ensures
        r@ == "Failed to read file "@ + path@ + ": "@ + cause@,
{
    let mut msg: String = "Failed to read file ".to_owned();
    msg.append(path.as_str());
    msg.append(": ");
    msg.append(cause.as_str());
    msg
}

/// Outcome of reading a file, computed from the raw result the shell got
/// from disk: contents pass through unchanged on success (an empty file is a
/// success, not an error), and a failure is reported with a message naming
/// the path and the cause. No failure is ever swallowed.
pub fn read_file_outcome(path: &String, read: Result<String, String>) -> (r: Result<String, String>)
    ensures
        read matches Ok(c) ==> r matches Ok(rc) && rc@ == c@,
        read matches Err(e) ==> r matches Err(m) && m@ == "Failed to read file "@ + path@ + ": "@
            + e@,
{
    match read {
        Ok(content) => Ok(content),
        Err(cause) => Err(read_failure_message(path, &cause)),
    }
}

} // verus!
