//! Restarting and stopping the single core process.
use super::{config_not_found, config_not_found_message};
use crate::config::model::command_view;
use crate::flat_configs::ConfigsManager;
use crate::paths::join;
use crate::status::{Code, Status};
use crate::subprocess_control::{single_core_args, SubprocessController};
use crate::subprocesses_control::CommandPlan;
use vstd::prelude::*;

verus! {

/// What a restart does: signal the process that ran, if one did, then start
/// the core on the config.
#[derive(Debug)]
pub struct RestartPlan {
    pub stop_first: Option<u32>,
    pub command: CommandPlan,
}

/// Decides a restart once it is known whether the config's file exists. A
/// config without a file is refused and nothing changes; otherwise the
/// running process, if any, is given up to be stopped.
pub fn restart_when(
    controller: &mut SubprocessController,
    manager: &ConfigsManager,
    config_id: &str,
    file_found: bool,
) -> (r: Result<RestartPlan, Status>)
    ensures
        !file_found ==> (r matches Err(e) && e.code == Code::NotFound && e.message@
            == config_not_found_message(config_id@)) && final(controller).process() == old(
            controller,
        ).process(),
        file_found ==> (r matches Ok(plan) && plan.stop_first == old(controller).process()
            && plan.command.program@ == old(controller).command() && command_view(plan.command.args)
            == single_core_args(join(manager.directory(), config_id@))
            && !plan.command.config_on_stdin && final(controller).process() is None),
        final(controller).command() == old(controller).command(),
{
    if !file_found {
        return Err(config_not_found(config_id));
    }
    let path = manager.config_path(config_id);
    let stop_first = if controller.is_running() {
        Some(controller.stop())
    } else {
        None
    };
    let command = controller.start(path.as_str());
    Ok(RestartPlan { stop_first, command })
}

/// Decides a restart of config `config_id`.
pub fn restart(controller: &mut SubprocessController, manager: &ConfigsManager, config_id: &str) -> (r: Result<RestartPlan, Status>)
    ensures
        r matches Err(e) ==> e.code == Code::NotFound && e.message@ == config_not_found_message(config_id@)
            && final(controller).process() == old(controller).process(),
        r matches Ok(plan) ==> plan.stop_first == old(controller).process()
            && plan.command.program@ == old(controller).command() && command_view(plan.command.args)
            == single_core_args(join(manager.directory(), config_id@))
            && final(controller).process() is None,
        final(controller).command() == old(controller).command(),
{
    let found = manager.get_path(config_id).is_some();
    restart_when(controller, manager, config_id, found)
}

/// Decides a stop: gives up the running process, if any, to be signalled.
pub fn stop(controller: &mut SubprocessController) -> (r: Option<u32>)
    ensures
        r == old(controller).process(),
        final(controller).process() is None,
        final(controller).command() == old(controller).command(),
{
    if controller.is_running() {
        Some(controller.stop())
    } else {
        None
    }
}

/// Whether the core process runs, as the state service reports it.
pub fn get_state(controller: &SubprocessController) -> (r: bool)
    ensures
        r == controller.process() is Some,
{
    controller.is_running()
}

} // verus!
