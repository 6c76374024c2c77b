//! Listing configs together with whether each one runs.
use crate::configs_manager::{listed_core_tag, ConfigsManager};
use crate::status::{Code, Status};
use crate::subprocesses_control::{running_in, SubprocessesController};
use vstd::prelude::*;

verus! {

/// A config as the listing service reports it.
#[derive(Debug)]
pub struct ConfigState {
    pub config_id: String,
    pub core_tag: String,
    pub running: bool,
}

/// The configs whose files `listing` names, with their core tags and whether
/// each one runs.
pub fn list_configs(
    manager: &ConfigsManager,
    controller: &SubprocessesController,
    listing: Option<Vec<String>>,
) -> (r: Result<Vec<ConfigState>, Status>)
    ensures
        listing is None ==> (r matches Err(e) && e.code == Code::Internal && e.message@
            == "Backend storage directory is inaccessible"@),
        listing matches Some(names) ==> (r matches Ok(states) && states.len() == names.len()
            && forall|i: int|
            0 <= i < names.len() ==> {
                &&& (#[trigger] states[i]).config_id@ == names[i]@
                &&& states[i].core_tag@ == listed_core_tag(manager.core_tags(), names[i]@)
                &&& states[i].running == running_in(controller.processes(), names[i]@)
            }),
{
    let entries = manager.list(listing)?;
    let mut states: Vec<ConfigState> = Vec::new();
    let mut i: usize = 0;
    while i < entries.len()
        invariant
            i <= entries@.len(),
            states@.len() == i,
            forall|j: int|
                0 <= j < i ==> {
                    &&& (#[trigger] states@[j]).config_id@ == entries@[j].config_id@
                    &&& states@[j].core_tag@ == entries@[j].core_tag@
                    &&& states@[j].running == running_in(controller.processes(), entries@[j].config_id@)
                },
        decreases entries@.len() - i,
    {
        let e = &entries[i];
        let running = controller.is_running(e.config_id.as_str());
        states.push(ConfigState { config_id: e.config_id.clone(), core_tag: e.core_tag.clone(), running });
        i = i + 1;
    }
    Ok(states)
}

} // verus!
