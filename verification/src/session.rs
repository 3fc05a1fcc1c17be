//! The session id recorded on audit lines.
use vstd::prelude::*;
use crate::audit::{is_off_token, is_off_value, is_uuid_v4_text, new_trace_id};
use crate::text::{opt_str_view, owned, trim, trimmed};

verus! {

/// The session id that the value of `AGENTLITE_SESSION_ID` fixes, if it fixes one: its
/// trimmed text, unless that is empty, `disabled` or `0`.
pub open spec fn session_override(env_value: Option<Seq<char>>) -> Option<Seq<char>> {
    match env_value {
        Some(v) => if is_off_value(trimmed(v)) {
            None
        } else {
            Some(trimmed(v))
        },
        None => None,
    }
}

/// The session id: the one that `AGENTLITE_SESSION_ID` (given as `env_value`) fixes, else a
/// new random UUID.
pub fn resolve_session_id(env_value: Option<&str>) -> (res: String)
    ensures
        match session_override(opt_str_view(env_value)) {
            Some(id) => res@ == id,
            None => is_uuid_v4_text(res@),
        },
{
    if let Some(v) = env_value {
        let t = trim(v);
        if !is_off_token(t) {
            return owned(t);
        }
    }
    new_trace_id()
}

/// A value that names a log path also fixes the session id, with the same text, and a value
/// that switches the log off leaves the session id to chance: both read the value alike.
pub proof fn lemma_session_and_log_read_alike(env_value: Option<Seq<char>>)
    ensures
        env_value is Some ==> match crate::audit::audit_setting_spec(env_value) {
            Some(Some(p)) => session_override(env_value) == Some(p),
            _ => session_override(env_value) is None,
        },
{
}

} // verus!
