//! A single core process, started with `<command> -c <config> run`.
use crate::config::model::command_view;
use crate::subprocesses_control::CommandPlan;
use vstd::prelude::*;

verus! {

pub struct SubprocessController {
    command: String,
    /// The id of the process while there is one.
    process: Option<u32>,
}

/// The words that start the core on the config at `config`.
pub open spec fn single_core_args(config: Seq<char>) -> Seq<Seq<char>> {
    seq!["-c"@, config, "run"@]
}

impl SubprocessController {
    pub closed spec fn command(&self) -> Seq<char> {
        self.command@
    }

    /// The id of the process, when there is one.
    pub closed spec fn process(&self) -> Option<u32> {
        self.process
    }

    pub fn new(command: String) -> (r: Self)
        ensures
            r.command() == command@,
            r.process() is None,
    {
        SubprocessController { command, process: None }
    }

    pub fn is_running(&self) -> (r: bool)
        ensures
            r == self.process() is Some,
    {
        self.process.is_some()
    }

    /// The command line that starts the core on the config at `config`.
    pub fn start(&self, config: &str) -> (r: CommandPlan)
        ensures
            r.program@ == self.command(),
            command_view(r.args) == single_core_args(config@),
            !r.config_on_stdin,
    {
        let mut args: Vec<String> = Vec::new();
        args.push("-c".to_string());
        args.push(config.to_string());
        args.push("run".to_string());
        assert(command_view(args) =~= single_core_args(config@));
        CommandPlan { program: self.command.clone(), args, config_on_stdin: false }
    }

    /// Records the process that was spawned, by the id it reported; it
    /// replaces any earlier one.
    pub fn record_start(&mut self, pid: Option<u32>)
        ensures
            final(self).process() == pid,
            final(self).command() == old(self).command(),
    {
        self.process = pid;
    }

    /// Gives up the running process, to be signalled and waited for.
    pub fn stop(&mut self) -> (r: u32)
        requires
            old(self).process() is Some,
        ensures
            old(self).process() == Some(r),
            final(self).process() is None,
            final(self).command() == old(self).command(),
    {
        let pid = self.process.unwrap();
        self.process = None;
        pid
    }
}

} // verus!
