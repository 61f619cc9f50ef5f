//! Tenant and machine identity helpers.

use vstd::prelude::*;

verus! {

/// Identity of the machine the application runs on, as reported by the
/// platform collaborators (machine id probe, hostname, build metadata).
/// The probes themselves live outside the verified core.
#[derive(Debug, PartialEq)]
pub struct MachineInfo {
    pub machine_id: String,
    pub platform: String,
    pub hostname: String,
    pub app_version: String,
}

impl Clone for MachineInfo {
    fn clone(&self) -> (r: Self)
        ensures
            r == *self,
    {
        MachineInfo {
            machine_id: self.machine_id.clone(),
            platform: self.platform.clone(),
            hostname: self.hostname.clone(),
            app_version: self.app_version.clone(),
        }
    }
}

/// The current user id as far as the core can know it on its own: the
/// identity always arrives from the caller, so this is always `None`.
pub fn get_current_user_id() -> (r: Option<String>)
    ensures
        r is None,
{
    None
}

/// Validates that a caller supplied a non-empty user id, handing the id
/// back on success and the canonical error message otherwise.
pub fn require_user_id(user_id: Option<String>) -> (r: Result<String, String>)
    ensures
        match r {
            Ok(s) => user_id == Some(s) && s@.len() > 0,
            Err(m) => {
                &&& match user_id {
                    Some(u) => u@.len() == 0,
                    None => true,
                }
                &&& m@ == "User ID is required. Please log in."@
            },
        },
{
    match user_id {
        Some(id) => {
            if !id.as_str().is_empty() {
                Ok(id)
            } else {
                Err("User ID is required. Please log in.".to_owned())
            }
        },
        None => Err("User ID is required. Please log in.".to_owned()),
    }
}

} // verus!
