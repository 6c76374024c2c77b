//! The cores that run configs, one process per config. Spawning, signalling
//! and waiting are done by the caller; this keeps which process belongs to
//! which config, decides whether a start or a stop may go ahead, and builds
//! the command line a core is started with.
use crate::config::model::command_view;
use crate::paths::{file_name, path_file_name};
use crate::status::{Code, Status};
use crate::str_map::{sorted_keys, StrMap};
use crate::text::{debug_form, placeholder, replace_all, replace_placeholder, seq_contains, str_debug_form};
use vstd::prelude::*;

verus! {

/// How to start a core for one config.
#[derive(Debug)]
pub struct CommandPlan {
    pub program: String,
    pub args: Vec<String>,
    /// Whether the config file is fed to the core's standard input, which is
    /// the case when no argument takes its path.
    pub config_on_stdin: bool,
}

/// The program of a start command: its first word, or nothing.
pub open spec fn planned_program(command: Seq<Seq<char>>) -> Seq<char> {
    if command.len() > 0 {
        command[0]
    } else {
        Seq::empty()
    }
}

/// The arguments of a start command, with `%c` replaced by the config path.
pub open spec fn planned_args(command: Seq<Seq<char>>, config_path: Seq<char>) -> Seq<Seq<char>> {
    if command.len() > 0 {
        command.skip(1).map_values(|a: Seq<char>| replace_all(a, placeholder(), config_path))
    } else {
        Seq::empty()
    }
}

/// Whether some argument of a start command takes the config path.
pub open spec fn path_in_args(command: Seq<Seq<char>>) -> bool {
    exists|i: int| 1 <= i < command.len() && seq_contains(#[trigger] command[i], placeholder())
}

/// The command line that starts core `command` on the config at `config_path`.
pub fn parse_command(command: &Vec<String>, config_path: &str) -> (r: CommandPlan)
    ensures
        r.program@ == planned_program(command_view(*command)),
        command_view(r.args) == planned_args(command_view(*command), config_path@),
        r.config_on_stdin == !path_in_args(command_view(*command)),
{
    let ghost cv = command_view(*command);
    let n = command.len();
    if n == 0 {
        let args: Vec<String> = Vec::new();
        assert(command_view(args) =~= Seq::<Seq<char>>::empty());
        return CommandPlan { program: String::new(), args, config_on_stdin: true };
    }
    let program = command[0].clone();
    let mut args: Vec<String> = Vec::new();
    let mut replaced = false;
    let mut i: usize = 1;
    while i < n
        invariant
            n == command@.len(),
            cv == command_view(*command),
            1 <= i <= n,
            command_view(args) == cv.subrange(1, i as int).map_values(
                |a: Seq<char>| replace_all(a, placeholder(), config_path@),
            ),
            replaced == exists|j: int| 1 <= j < i && seq_contains(#[trigger] cv[j], placeholder()),
        decreases n - i,
    {
        let ghost before = args@;
        let (arg, found) = replace_placeholder(command[i].as_str(), config_path);
        assert(cv[i as int] == command@[i as int]@);
        args.push(arg);
        assert(command_view(args) =~= before.map_values(|s: String| s@).push(arg@));
        assert(cv.subrange(1, i + 1) =~= cv.subrange(1, i as int).push(cv[i as int]));
        assert(command_view(args) =~= cv.subrange(1, i + 1).map_values(
            |a: Seq<char>| replace_all(a, placeholder(), config_path@),
        ));
        if found {
            replaced = true;
        }
        i = i + 1;
    }
    assert(cv.subrange(1, n as int) =~= cv.skip(1));
    CommandPlan { program, args, config_on_stdin: !replaced }
}

/// The process that runs a config, as far as the rules look at it: its id
/// while it runs, none once it has been waited for.
#[derive(Debug, Clone, Copy, PartialEq, Eq, Structural)]
pub struct Subprocess {
    pub pid: Option<u32>,
}

pub struct SubprocessesController {
    /// Core name to the command that starts it.
    cores: StrMap<Vec<String>>,
    /// Config id to the process that runs it.
    running_configs: StrMap<Subprocess>,
}

/// A config is running when it has a process that has not been waited for.
pub open spec fn running_in(procs: Map<Seq<char>, Option<u32>>, config: Seq<char>) -> bool {
    procs.contains_key(config) && procs[config] is Some
}

/// What starting the config at `config_path` on core `core_tag` is answered
/// with: the config's name and the command line, or why not.
pub open spec fn start_decision(
    cores: Map<Seq<char>, Seq<Seq<char>>>,
    procs: Map<Seq<char>, Option<u32>>,
    config_path: Seq<char>,
    core_tag: Seq<char>,
) -> Result<Seq<char>, (Code, Seq<char>)> {
    match file_name(config_path) {
        None => Err((Code::NotFound, "Invalid config path"@)),
        Some(name) => if running_in(procs, name) {
            Err((Code::FailedPrecondition, "The config is already running"@))
        } else if !cores.contains_key(core_tag) {
            Err((Code::NotFound, "Core not found"@))
        } else {
            Ok(name)
        },
    }
}

/// What stopping config `config` is answered with: the process to signal, or why not.
pub open spec fn stop_decision(procs: Map<Seq<char>, Option<u32>>, config: Seq<char>) -> Result<
    u32,
    (Code, Seq<char>),
> {
    if !procs.contains_key(config) {
        Err((Code::FailedPrecondition, "The config isn't running"@))
    } else {
        match procs[config] {
            Some(pid) => Ok(pid),
            None => Err((Code::Internal, "Subprocess isn't running"@)),
        }
    }
}

/// A core whose arguments never mention `%c` keeps its arguments as they
/// are and is fed the config on its standard input.
pub proof fn law_command_without_placeholder(command: Seq<Seq<char>>, config_path: Seq<char>)
    requires
        command.len() > 0,
        forall|i: int| 1 <= i < command.len() ==> !seq_contains(#[trigger] command[i], placeholder()),
    ensures
        planned_args(command, config_path) == command.skip(1),
        !path_in_args(command),
{
    assert forall|i: int| 0 <= i < command.skip(1).len() implies replace_all(
        #[trigger] command.skip(1)[i],
        placeholder(),
        config_path,
    ) == command.skip(1)[i] by {
        assert(command.skip(1)[i] == command[i + 1]);
        crate::text::lemma_replace_all_absent(command[i + 1], placeholder(), config_path);
    }
    assert(planned_args(command, config_path) =~= command.skip(1));
}

/// A config that is running cannot be started again.
pub proof fn law_no_second_start(
    cores: Map<Seq<char>, Seq<Seq<char>>>,
    procs: Map<Seq<char>, Option<u32>>,
    config_path: Seq<char>,
    core_tag: Seq<char>,
)
    requires
        file_name(config_path) matches Some(name) && running_in(procs, name),
    ensures
        start_decision(cores, procs, config_path, core_tag) == Err::<Seq<char>, (Code, Seq<char>)>(
            (Code::FailedPrecondition, "The config is already running"@),
        ),
{
}

/// Once its process is recorded, a config runs, and stopping it signals
/// that process.
pub proof fn law_recorded_start_runs(procs: Map<Seq<char>, Option<u32>>, config: Seq<char>, pid: u32)
    ensures
        running_in(procs.insert(config, Some(pid)), config),
        stop_decision(procs.insert(config, Some(pid)), config) == Ok::<u32, (Code, Seq<char>)>(pid),
{
}

/// Once its process has been waited for, a config no longer runs, can be
/// started again, and a further stop is answered that nothing runs.
pub proof fn law_exited_is_down(
    cores: Map<Seq<char>, Seq<Seq<char>>>,
    procs: Map<Seq<char>, Option<u32>>,
    config: Seq<char>,
    config_path: Seq<char>,
    core_tag: Seq<char>,
)
    requires
        procs.contains_key(config),
        file_name(config_path) == Some(config),
        cores.contains_key(core_tag),
    ensures
        !running_in(procs.insert(config, None), config),
        stop_decision(procs.insert(config, None), config) == Err::<u32, (Code, Seq<char>)>(
            (Code::Internal, "Subprocess isn't running"@),
        ),
        start_decision(cores, procs.insert(config, None), config_path, core_tag) == Ok::<
            Seq<char>,
            (Code, Seq<char>),
        >(config),
{
}

/// A config that never had a process cannot be stopped.
pub proof fn law_stop_without_process(procs: Map<Seq<char>, Option<u32>>, config: Seq<char>)
    requires
        !procs.contains_key(config),
    ensures
        stop_decision(procs, config) == Err::<u32, (Code, Seq<char>)>(
            (Code::FailedPrecondition, "The config isn't running"@),
        ),
{
}

/// How stopping one config's process went.
#[derive(Debug)]
pub enum StopOutcome {
    /// It was waited for; `status` is its exit status as text.
    Exited { success: bool, status: String },
    /// Signalling or waiting failed; `error` says why.
    Failed { error: String },
}

/// The line that stopping everything reports for one config: nothing for a
/// process that exited successfully.
pub open spec fn stop_report_line(config: Seq<char>, outcome: StopOutcome) -> Seq<char> {
    match outcome {
        StopOutcome::Exited { success, status } => if success {
            Seq::empty()
        } else {
            "Subprocess for config "@ + str_debug_form(config) + " exited with status: "@ + status@
                + "\n"@
        },
        StopOutcome::Failed { error } => "Error stopping subprocess for config "@ + str_debug_form(
            config,
        ) + ": "@ + error@ + "\n"@,
    }
}

/// The report of stopping everything: the lines of each config, in order.
pub open spec fn stop_report(outcomes: Seq<(String, StopOutcome)>) -> Seq<char>
    decreases outcomes.len(),
{
    if outcomes.len() == 0 {
        Seq::empty()
    } else {
        stop_report(outcomes.drop_last()) + stop_report_line(
            outcomes.last().0@,
            outcomes.last().1,
        )
    }
}

/// Builds the report of stopping everything from how each stop went; an
/// empty report means every process stopped cleanly.
pub fn stop_all_report(outcomes: &Vec<(String, StopOutcome)>) -> (r: String)
    ensures
        r@ == stop_report(outcomes@),
{
    let mut report = String::new();
    let mut i: usize = 0;
    assert(outcomes@.subrange(0, 0) =~= Seq::<(String, StopOutcome)>::empty());
    while i < outcomes.len()
        invariant
            i <= outcomes@.len(),
            report@ == stop_report(outcomes@.subrange(0, i as int)),
        decreases outcomes@.len() - i,
    {
        let ghost before = report@;
        let (config, outcome) = &outcomes[i];
        assert(outcomes@.subrange(0, i + 1).drop_last() =~= outcomes@.subrange(0, i as int));
        assert(outcomes@.subrange(0, i + 1).last() == outcomes@[i as int]);
        match outcome {
            StopOutcome::Exited { success, status } => {
                if !*success {
                    report.append("Subprocess for config ");
                    let quoted = debug_form(config.as_str());
                    report.append(quoted.as_str());
                    report.append(" exited with status: ");
                    report.append(status.as_str());
                    report.append("\n");
                    assert(report@ =~= before + ("Subprocess for config "@ + str_debug_form(config@)
                        + " exited with status: "@ + status@ + "\n"@));
                } else {
                    assert(report@ =~= before + Seq::<char>::empty());
                }
            },
            StopOutcome::Failed { error } => {
                report.append("Error stopping subprocess for config ");
                let quoted = debug_form(config.as_str());
                report.append(quoted.as_str());
                report.append(": ");
                report.append(error.as_str());
                report.append("\n");
                assert(report@ =~= before + ("Error stopping subprocess for config "@
                    + str_debug_form(config@) + ": "@ + error@ + "\n"@));
            },
        }
        i = i + 1;
    }
    assert(outcomes@.subrange(0, i as int) =~= outcomes@);
    report
}

/// What stopping everything does for one config, from the process id it
/// has on record: signal that process, or, when it has none left (it was
/// already waited for), report that nothing runs.
pub fn stop_all_step(pid: Option<u32>) -> (r: Result<u32, StopOutcome>)
    ensures
        pid matches Some(p) ==> r == Ok::<u32, StopOutcome>(p),
        pid is None ==> (r matches Err(StopOutcome::Failed { error }) && error@
            == "Subprocess isn't running"@),
{
    match pid {
        Some(p) => Ok(p),
        None => Err(StopOutcome::Failed { error: "Subprocess isn't running".to_string() }),
    }
}

/// A config whose process was already waited for gets, when everything is
/// stopped, the line that says nothing runs.
pub proof fn law_reaped_process_line(config: Seq<char>, outcome: StopOutcome)
    requires
        outcome matches StopOutcome::Failed { error } && error@ == "Subprocess isn't running"@,
    ensures
        stop_report_line(config, outcome) == "Error stopping subprocess for config "@
            + str_debug_form(config) + ": "@ + "Subprocess isn't running"@ + "\n"@,
{
}

/// Wherever `%c` stands in an argument, alone or inside a longer word, the
/// config path takes its place there, the rest of the word kept around it,
/// and the config is then not fed on standard input.
pub proof fn law_path_in_argument(
    command: Seq<Seq<char>>,
    i: int,
    u: Seq<char>,
    v: Seq<char>,
    config_path: Seq<char>,
)
    requires
        1 <= i < command.len(),
        command[i] == u + seq!['%', 'c'] + v,
        !u.contains('%'),
        !v.contains('%'),
    ensures
        planned_args(command, config_path).len() == command.len() - 1,
        planned_args(command, config_path)[i - 1] == u + config_path + v,
        path_in_args(command),
{
    crate::text::law_placeholder_inside_word(u, v, config_path);
    assert(command.skip(1)[i - 1] == command[i]);
}

/// Stopping everything reports a process that did not exit cleanly, whatever
/// its status says: the report grows by a line that ends with that status;
/// a clean exit adds nothing; a failure to stop adds a line that ends with
/// its error. Earlier lines stay as they were.
pub proof fn law_stop_report_lines(
    outcomes: Seq<(String, StopOutcome)>,
    config: String,
    success: bool,
    status: String,
    error: String,
)
    ensures
        ({
            let before = stop_report(outcomes);
            let after = stop_report(outcomes.push((config, StopOutcome::Exited { success, status })));
            &&& success ==> after == before
            &&& !success ==> after.len() > before.len() + status@.len()
            &&& !success ==> after.subrange(0, before.len() as int) == before
            &&& !success ==> after.skip(after.len() - status@.len() - 1) == status@ + seq!['\n']
        }),
        ({
            let before = stop_report(outcomes);
            let after = stop_report(outcomes.push((config, StopOutcome::Failed { error })));
            &&& after.len() > before.len() + error@.len()
            &&& after.subrange(0, before.len() as int) == before
            &&& after.skip(after.len() - error@.len() - 1) == error@ + seq!['\n']
        }),
{
    let o1 = outcomes.push((config, StopOutcome::Exited { success, status }));
    let o2 = outcomes.push((config, StopOutcome::Failed { error }));
    assert(o1.drop_last() =~= outcomes);
    assert(o2.drop_last() =~= outcomes);
    let before = stop_report(outcomes);
    reveal_strlit("\n");
    reveal_strlit(" exited with status: ");
    reveal_strlit(": ");
    if success {
        assert(stop_report(o1) =~= before);
    } else {
        let head = "Subprocess for config "@ + str_debug_form(config@) + " exited with status: "@;
        let after = stop_report(o1);
        assert(after =~= before + head + status@ + "\n"@);
        assert(after.subrange(0, before.len() as int) =~= before);
        assert(after.skip(after.len() - status@.len() - 1) =~= status@ + seq!['\n']);
    }
    let head2 = "Error stopping subprocess for config "@ + str_debug_form(config@) + ": "@;
    let after2 = stop_report(o2);
    assert(after2 =~= before + head2 + error@ + "\n"@);
    assert(after2.subrange(0, before.len() as int) =~= before);
    assert(after2.skip(after2.len() - error@.len() - 1) =~= error@ + seq!['\n']);
}

impl SubprocessesController {
    /// Core name to the words of its start command.
    pub closed spec fn cores(&self) -> Map<Seq<char>, Seq<Seq<char>>> {
        self.cores@.map_values(|c: Vec<String>| command_view(c))
    }

    /// Config id to the id of its process, `None` once it has been waited for.
    pub closed spec fn processes(&self) -> Map<Seq<char>, Option<u32>> {
        self.running_configs@.map_values(|s: Subprocess| s.pid)
    }

    /// The config ids that have a process, in increasing order.
    pub closed spec fn config_order(&self) -> Seq<Seq<char>> {
        self.running_configs.keys()
    }

    pub fn new(cores: StrMap<Vec<String>>) -> (r: Self)
        ensures
            r.cores() == cores@.map_values(|c: Vec<String>| command_view(c)),
            r.processes() == Map::<Seq<char>, Option<u32>>::empty(),
    {
        let r = SubprocessesController { cores, running_configs: StrMap::new() };
        assert(r.processes() =~= Map::<Seq<char>, Option<u32>>::empty());
        r
    }

    pub fn is_running(&self, config: &str) -> (r: bool)
        ensures
            r == running_in(self.processes(), config@),
    {
        match self.running_configs.get(config) {
            Some(s) => s.pid.is_some(),
            None => false,
        }
    }

    /// Whether config `config` has a process, running or waited for.
    pub fn has_process(&self, config: &str) -> (r: bool)
        ensures
            r == self.processes().contains_key(config@),
    {
        self.running_configs.contains_key(config)
    }

    /// Decides whether the config at `config_path` may be started on core
    /// `core_tag`; gives the config's name and the command line to spawn.
    pub fn start(&self, config_path: &str, core_tag: &str) -> (r: Result<(String, CommandPlan), Status>)
        ensures
            r matches Ok(ok) ==> start_decision(self.cores(), self.processes(), config_path@, core_tag@)
                == Ok::<Seq<char>, (Code, Seq<char>)>(ok.0@) && ok.1.program@ == planned_program(
                self.cores()[core_tag@],
            ) && command_view(ok.1.args) == planned_args(self.cores()[core_tag@], config_path@)
                && ok.1.config_on_stdin == !path_in_args(self.cores()[core_tag@]),
            r matches Err(e) ==> start_decision(self.cores(), self.processes(), config_path@, core_tag@)
                == Err::<Seq<char>, (Code, Seq<char>)>((e.code, e.message@)),
    {
        let name = match path_file_name(config_path) {
            Some(name) => name,
            None => {
                return Err(Status::not_found("Invalid config path"));
            },
        };
        if self.is_running(name.as_str()) {
            return Err(Status::failed_precondition("The config is already running"));
        }
        let command = match self.cores.get(core_tag) {
            Some(c) => c,
            None => {
                return Err(Status::not_found("Core not found"));
            },
        };
        let plan = parse_command(command, config_path);
        Ok((name, plan))
    }

    /// Records that the process for config `config` was spawned.
    pub fn record_start(&mut self, config: String, pid: Option<u32>)
        ensures
            final(self).processes() == old(self).processes().insert(config@, pid),
            final(self).cores() == old(self).cores(),
    {
        self.running_configs.insert(config, Subprocess { pid });
        assert(self.processes() =~= old(self).processes().insert(config@, pid));
    }

    /// Decides whether config `config` may be stopped; gives the process to signal.
    pub fn stop(&self, config: &str) -> (r: Result<u32, Status>)
        ensures
            r matches Ok(pid) ==> stop_decision(self.processes(), config@) == Ok::<
                u32,
                (Code, Seq<char>),
            >(pid),
            r matches Err(e) ==> stop_decision(self.processes(), config@) == Err::<
                u32,
                (Code, Seq<char>),
            >((e.code, e.message@)),
    {
        match self.running_configs.get(config) {
            Some(s) => match s.pid {
                Some(pid) => Ok(pid),
                None => Err(Status::internal("Subprocess isn't running")),
            },
            None => Err(Status::failed_precondition("The config isn't running")),
        }
    }

    /// Records that the process of config `config` was waited for.
    pub fn record_exit(&mut self, config: &str)
        ensures
            final(self).processes() == if old(self).processes().contains_key(config@) {
                old(self).processes().insert(config@, None)
            } else {
                old(self).processes()
            },
            final(self).cores() == old(self).cores(),
    {
        if self.running_configs.contains_key(config) {
            self.running_configs.insert(config.to_string(), Subprocess { pid: None });
            assert(self.processes() =~= old(self).processes().insert(config@, None));
        }
    }

    /// The configs that have a process, in increasing order of id, with
    /// their process ids: the order in which stopping everything goes.
    pub fn stop_all(&self) -> (r: Vec<(String, Option<u32>)>)
        ensures
            r@.len() == self.config_order().len(),
            forall|i: int|
                0 <= i < r@.len() ==> (#[trigger] r@[i]).0@ == self.config_order()[i]
                    && self.processes().contains_key(r@[i].0@) && r@[i].1 == self.processes()[r@[i].0@],
            sorted_keys(self.config_order()),
            forall|k: Seq<char>| #[trigger] self.processes().contains_key(k) <==> self.config_order().contains(k),
    {
        let n = self.running_configs.len();
        let mut out: Vec<(String, Option<u32>)> = Vec::new();
        let mut i: usize = 0;
        while i < n
            invariant
                n == self.config_order().len(),
                i <= n,
                out@.len() == i,
                forall|j: int|
                    0 <= j < i ==> (#[trigger] out@[j]).0@ == self.config_order()[j]
                        && self.processes().contains_key(out@[j].0@) && out@[j].1
                        == self.processes()[out@[j].0@],
            decreases n - i,
        {
            let key = self.running_configs.key_at(i);
            let s = self.running_configs.value_at(i);
            out.push((key.clone(), s.pid));
            i = i + 1;
        }
        out
    }
}

} // verus!
