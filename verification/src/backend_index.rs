//! Finding the backend a checkpoint request is about, from an explicit
//! backend id or the backend bound to a session.

use vstd::prelude::*;
use crate::backend_base::BackendError;
use crate::strmap::{str_equal, StrMap};
use crate::text::{chars_of, push_str, trim, trim_chars};

verus! {

pub open spec fn non_blank_str(o: Option<&str>) -> Option<Seq<char>> {
    match o {
        Some(s) => if trim(s@).len() > 0 { Some(s@) } else { None },
        None => None,
    }
}

/// Why no backend can be found for a checkpoint, with the error's text.
pub enum TargetFault {
    Invalid(Seq<char>),
    Conflict(Seq<char>),
    UnknownSession(Seq<char>),
}

/// The backend a checkpoint is taken of, given the session index.
pub open spec fn checkpoint_target(index: Map<Seq<char>, Seq<char>>, backend_id: Option<Seq<char>>, session_id: Option<Seq<char>>)
    -> Result<Seq<char>, TargetFault> {
    match session_id {
        Some(s) if !index.contains_key(s) => Err(TargetFault::UnknownSession("session:"@ + s)),
        _ => {
            let by_session = match session_id { Some(s) => Some(index[s]), None => None };
            match (backend_id, by_session) {
                (Some(b), Some(t)) => if b != t {
                    Err(TargetFault::Conflict("backend_id "@ + b + " does not match session_id backend "@ + t))
                } else {
                    Ok(b)
                },
                (Some(b), None) => Ok(b),
                (None, Some(t)) => Ok(t),
                (None, None) => Err(TargetFault::Invalid("checkpoint requires backend_id or session_id"@)),
            }
        },
    }
}

/// The backend id a checkpoint request is about: the explicit backend id
/// (when not blank) or the backend bound to the session (when the session
/// id is not blank); both must agree. An unknown session is not found (as
/// `session:<id>`), disagreement is a conflict, neither an invalid request.
pub fn resolve_checkpoint_backend_id(session_index: &StrMap<String>, backend_id: Option<&str>, session_id: Option<&str>)
    -> (r: Result<String, BackendError>)
    requires
        session_index.wf(),
    ensures
        ({
            let t = checkpoint_target(session_index@.map_values(|v: String| v@), non_blank_str(backend_id), non_blank_str(session_id));
            &&& t matches Ok(b) ==> (r matches Ok(s) && s@ == b)
            &&& t matches Err(TargetFault::Invalid(m)) ==> (r matches Err(BackendError::InvalidRequest { message }) && message@ == m)
            &&& t matches Err(TargetFault::Conflict(m)) ==> (r matches Err(BackendError::Conflict { message }) && message@ == m)
            &&& t matches Err(TargetFault::UnknownSession(m)) ==> (r matches Err(BackendError::NotFound { backend_id: id }) && id@ == m)
        }),
{
    let by_backend: Option<String> = match backend_id {
        Some(b) => {
            let chars = chars_of(b);
            if trim_chars(&chars).len() > 0 { Some(String::from_str(b)) } else { None }
        },
        None => None,
    };
    let by_session: Option<String> = match session_id {
        Some(s) => {
            let chars = chars_of(s);
            if trim_chars(&chars).len() > 0 {
                match session_index.get(s) {
                    Some(bound) => Some(String::from_str(bound.as_str())),
                    None => {
                        let mut id = String::from_str("session:");
                        push_str(&mut id, s);
                        return Err(BackendError::NotFound { backend_id: id });
                    },
                }
            } else {
                None
            }
        },
        None => None,
    };
    match (by_backend, by_session) {
        (Some(b), Some(t)) => {
            if !str_equal(b.as_str(), t.as_str()) {
                let mut message = String::from_str("backend_id ");
                push_str(&mut message, b.as_str());
                push_str(&mut message, " does not match session_id backend ");
                push_str(&mut message, t.as_str());
                Err(BackendError::Conflict { message })
            } else {
                Ok(b)
            }
        },
        (Some(b), None) => Ok(b),
        (None, Some(t)) => Ok(t),
        (None, None) => Err(BackendError::InvalidRequest { message: String::from_str("checkpoint requires backend_id or session_id") }),
    }
}

} // verus!
