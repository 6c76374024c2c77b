//! Starting and stopping configs, and following their logs.
use super::{config_not_found, config_not_found_message};
use crate::configs_manager::ConfigsManager;
use crate::paths::{join, lemma_file_name_of_join};
use crate::status::{Code, Status};
use crate::subprocesses_control::{
    path_in_args, planned_args, planned_program, running_in, start_decision, CommandPlan,
    SubprocessesController,
};
use crate::config::model::command_view;
use vstd::prelude::*;

verus! {

/// What a request to start config `config_id` is answered with, given whether
/// its file was found: the name the config's process is kept under, or why not.
pub open spec fn start_request_decision(
    controller: SubprocessesController,
    manager: ConfigsManager,
    config_id: Seq<char>,
    file_found: bool,
) -> Result<Seq<char>, (Code, Seq<char>)> {
    if !file_found {
        Err((Code::NotFound, config_not_found_message(config_id)))
    } else if !manager.core_tags().contains_key(config_id) {
        Err((Code::Internal, "Metadata not found"@))
    } else {
        start_decision(
            controller.cores(),
            controller.processes(),
            join(manager.directory(), config_id),
            manager.core_tags()[config_id],
        )
    }
}

/// What a request to stop config `config_id` is answered with, given whether
/// its file was found: the process to signal, or why not.
pub open spec fn stop_request_decision(
    controller: SubprocessesController,
    config_id: Seq<char>,
    file_found: bool,
) -> Result<u32, (Code, Seq<char>)> {
    if !file_found {
        Err((Code::NotFound, config_not_found_message(config_id)))
    } else if !running_in(controller.processes(), config_id) {
        Err((Code::FailedPrecondition, "Config is already down"@))
    } else {
        Ok(controller.processes()[config_id]->Some_0)
    }
}

/// A start's outcome seen as the name or the refusal's code and message.
pub open spec fn start_outcome(r: Result<(String, CommandPlan), Status>) -> Result<Seq<char>, (Code, Seq<char>)> {
    match r {
        Ok(ok) => Ok(ok.0@),
        Err(e) => Err((e.code, e.message@)),
    }
}

/// A stop's outcome seen as the process or the refusal's code and message.
pub open spec fn stop_outcome(r: Result<u32, Status>) -> Result<u32, (Code, Seq<char>)> {
    match r {
        Ok(pid) => Ok(pid),
        Err(e) => Err((e.code, e.message@)),
    }
}

/// The command line of a start that goes ahead: that of the config's core.
pub open spec fn plan_matches(manager: ConfigsManager, controller: SubprocessesController, config_id: Seq<char>, plan: CommandPlan) -> bool {
    let command = controller.cores()[manager.core_tags()[config_id]];
    let path = join(manager.directory(), config_id);
    &&& plan.program@ == planned_program(command)
    &&& command_view(plan.args) == planned_args(command, path)
    &&& plan.config_on_stdin == !path_in_args(command)
}

/// A config whose id is a plain name (no separator, not empty, `.` or `..`)
/// is started under that very id, the one that stopping it and following
/// its logs look it up by.
pub proof fn law_started_under_its_id(
    controller: SubprocessesController,
    manager: ConfigsManager,
    config_id: Seq<char>,
)
    requires
        !config_id.contains('/'),
        config_id.len() > 0,
        config_id != seq!['.'],
        config_id != seq!['.', '.'],
    ensures
        start_request_decision(controller, manager, config_id, true) matches Ok(name) ==> name
            == config_id,
{
    lemma_file_name_of_join(manager.directory(), config_id);
}

/// Restarting or stopping a config that is down is refused: it must run first.
pub proof fn law_stop_needs_running(controller: SubprocessesController, config_id: Seq<char>)
    requires
        !running_in(controller.processes(), config_id),
    ensures
        stop_request_decision(controller, config_id, true) == Err::<u32, (Code, Seq<char>)>(
            (Code::FailedPrecondition, "Config is already down"@),
        ),
{
}

/// A config without a file is answered as not found, whether it is started
/// or stopped.
pub proof fn law_missing_file_not_found(
    controller: SubprocessesController,
    manager: ConfigsManager,
    config_id: Seq<char>,
)
    ensures
        start_request_decision(controller, manager, config_id, false) == Err::<
            Seq<char>,
            (Code, Seq<char>),
        >((Code::NotFound, config_not_found_message(config_id))),
        stop_request_decision(controller, config_id, false) == Err::<u32, (Code, Seq<char>)>(
            (Code::NotFound, config_not_found_message(config_id)),
        ),
{
}

/// Restarting a running config whose id is a plain name starts it again:
/// once the stop has been recorded, a start with its file present goes
/// ahead under the same id, provided its metadata names a known core.
pub proof fn law_restart_starts_again(
    before: SubprocessesController,
    after: SubprocessesController,
    manager: ConfigsManager,
    config_id: Seq<char>,
)
    requires
        !config_id.contains('/'),
        config_id.len() > 0,
        config_id != seq!['.'],
        config_id != seq!['.', '.'],
        stop_request_decision(before, config_id, true) is Ok,
        after.processes() == before.processes().insert(config_id, None),
        after.cores() == before.cores(),
        manager.core_tags().contains_key(config_id),
        before.cores().contains_key(manager.core_tags()[config_id]),
    ensures
        start_request_decision(after, manager, config_id, true) == Ok::<Seq<char>, (Code, Seq<char>)>(
            config_id,
        ),
{
    lemma_file_name_of_join(manager.directory(), config_id);
}

/// A stop that goes ahead signals the very process recorded for that config,
/// and goes ahead exactly when the config's file is there and that process
/// has not been waited for.
pub proof fn law_stop_signals_own_process(
    controller: SubprocessesController,
    config_id: Seq<char>,
    file_found: bool,
    pid: u32,
)
    ensures
        stop_request_decision(controller, config_id, file_found) == Ok::<u32, (Code, Seq<char>)>(pid)
            <==> (file_found && controller.processes().contains_key(config_id)
            && controller.processes()[config_id] == Some(pid)),
{
}

/// Decides a start request once it is known whether the config's file exists.
pub fn start_when(
    controller: &SubprocessesController,
    manager: &ConfigsManager,
    config_id: &str,
    file_found: bool,
) -> (r: Result<(String, CommandPlan), Status>)
    ensures
        start_outcome(r) == start_request_decision(*controller, *manager, config_id@, file_found),
        r matches Ok(ok) ==> plan_matches(*manager, *controller, config_id@, ok.1),
{
    if !file_found {
        return Err(config_not_found(config_id));
    }
    let path = manager.config_path(config_id);
    let core_tag = match manager.get_metadata(config_id) {
        Some(metadata) => &metadata.core_tag,
        None => {
            return Err(Status::internal("Metadata not found"));
        },
    };
    controller.start(path.as_str(), core_tag.as_str())
}

/// Decides a request to start config `config_id`: gives the name its process
/// is to be kept under and the command line to spawn, or the refusal.
pub fn start(controller: &SubprocessesController, manager: &ConfigsManager, config_id: &str) -> (r: Result<(String, CommandPlan), Status>)
    ensures
        start_outcome(r) == start_request_decision(*controller, *manager, config_id@, true)
            || start_outcome(r) == start_request_decision(*controller, *manager, config_id@, false),
        r matches Ok(ok) ==> plan_matches(*manager, *controller, config_id@, ok.1),
{
    let found = manager.get_path(config_id).is_some();
    start_when(controller, manager, config_id, found)
}

/// Decides a stop request once it is known whether the config's file exists.
pub fn stop_when(
    controller: &SubprocessesController,
    manager: &ConfigsManager,
    config_id: &str,
    file_found: bool,
) -> (r: Result<u32, Status>)
    ensures
        stop_outcome(r) == stop_request_decision(*controller, config_id@, file_found),
{
    if !file_found {
        return Err(config_not_found(config_id));
    }
    if !controller.is_running(config_id) {
        return Err(Status::failed_precondition("Config is already down"));
    }
    controller.stop(config_id)
}

/// Decides a request to stop config `config_id`: gives the process to signal,
/// or the refusal. What signalling and waiting give is not part of the answer.
pub fn stop(controller: &SubprocessesController, manager: &ConfigsManager, config_id: &str) -> (r: Result<u32, Status>)
    ensures
        stop_outcome(r) == stop_request_decision(*controller, config_id@, true)
            || stop_outcome(r) == stop_request_decision(*controller, config_id@, false),
{
    let found = manager.get_path(config_id).is_some();
    stop_when(controller, manager, config_id, found)
}

/// Decides a request to follow the logs of config `config_id`: only a config
/// with a process has them.
pub fn receive_log(controller: &SubprocessesController, config_id: &str) -> (r: Result<(), Status>)
    ensures
        r is Ok <==> controller.processes().contains_key(config_id@),
        r matches Err(e) ==> e.code == Code::NotFound && e.message@ == "Config stdout not found"@,
{
    if controller.has_process(config_id) {
        Ok(())
    } else {
        Err(Status::not_found("Config stdout not found"))
    }
}

} // verus!
