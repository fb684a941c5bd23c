use vstd::prelude::*;

verus! {

/// Why a settings request is refused.
#[derive(Debug, PartialEq, Eq)]
pub enum SettingsError {
    /// No index with this uid exists.
    IndexNotFound(String),
    /// The body could not be turned into a settings update; holds the reason.
    BadRequest(String),
}

/// Fails with `IndexNotFound(uid)` when no index was opened for `uid`.
pub fn require_index<I>(index: Option<I>, uid: &String) -> (res: Result<I, SettingsError>)
    ensures
        match index {
            Some(i) => res == Ok::<I, SettingsError>(i),
            None => res == Err::<I, SettingsError>(SettingsError::IndexNotFound(*uid)),
        },
{
    match index {
        Some(i) => Ok(i),
        None => Err(SettingsError::IndexNotFound(uid.clone())),
    }
}

} // verus!
