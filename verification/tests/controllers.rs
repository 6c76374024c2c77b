use pcw_backend::subprocesses_control::{stop_all_report, stop_all_step, StopOutcome};
use pcw_backend::config::Config;
use pcw_backend::configs_manager::ConfigsManager;
use pcw_backend::flat_configs::ConfigsManager as FlatConfigsManager;
use pcw_backend::server::config_not_found;
use pcw_backend::server::configs::list_configs;
use pcw_backend::server::management;
use pcw_backend::server::managment;
use pcw_backend::status::Code;
use pcw_backend::subprocess_control::SubprocessController;
use pcw_backend::subprocesses_control::{parse_command, SubprocessesController};

fn words(ws: &[&str]) -> Vec<String> {
    ws.iter().map(|s| s.to_string()).collect()
}

fn controller() -> SubprocessesController {
    SubprocessesController::new(Config::default().cores)
}

#[test]
fn parse_command_puts_path_in_arguments() {
    let plan = parse_command(&words(&["sing-box", "run", "-c", "%c"]), "/cfg/a");
    assert_eq!(plan.program, "sing-box");
    assert_eq!(plan.args, words(&["run", "-c", "/cfg/a"]));
    assert!(!plan.config_on_stdin);
}

#[test]
fn parse_command_feeds_stdin_without_placeholder() {
    let plan = parse_command(&words(&["xray", "run"]), "/cfg/a");
    assert_eq!(plan.program, "xray");
    assert_eq!(plan.args, words(&["run"]));
    assert!(plan.config_on_stdin);
    let plan = parse_command(&words(&[]), "/cfg/a");
    assert_eq!(plan.program, "");
    assert!(plan.args.is_empty());
    assert!(plan.config_on_stdin);
    let plan = parse_command(&words(&["%c", "x"]), "/p");
    assert_eq!(plan.program, "%c");
    assert!(plan.config_on_stdin);
}

#[test]
fn start_record_stop_cycle() {
    let mut c = controller();
    assert!(!c.is_running("a"));
    let (name, plan) = c.start("/cfg/a", "xray-core").unwrap();
    assert_eq!(name, "a");
    assert_eq!(plan.program, "xray");
    c.record_start(name, Some(41));
    assert!(c.is_running("a"));
    assert!(c.has_process("a"));
    let e = c.start("/cfg/a", "xray-core").unwrap_err();
    assert_eq!((e.code, e.message.as_str()), (Code::FailedPrecondition, "The config is already running"));
    assert_eq!(c.stop("a").unwrap(), 41);
    c.record_exit("a");
    assert!(!c.is_running("a"));
    assert!(c.has_process("a"));
    let e = c.stop("a").unwrap_err();
    assert_eq!((e.code, e.message.as_str()), (Code::Internal, "Subprocess isn't running"));
    let e = c.stop("b").unwrap_err();
    assert_eq!((e.code, e.message.as_str()), (Code::FailedPrecondition, "The config isn't running"));
    assert!(c.start("/cfg/a", "sing-box").is_ok());
}

#[test]
fn start_refusals() {
    let c = controller();
    let e = c.start("/cfg/a", "v2ray").unwrap_err();
    assert_eq!((e.code, e.message.as_str()), (Code::NotFound, "Core not found"));
    let e = c.start("/cfg/..", "sing-box").unwrap_err();
    assert_eq!((e.code, e.message.as_str()), (Code::NotFound, "Invalid config path"));
    let e = c.start("/", "sing-box").unwrap_err();
    assert_eq!((e.code, e.message.as_str()), (Code::NotFound, "Invalid config path"));
}

#[test]
fn stop_all_goes_in_id_order() {
    let mut c = controller();
    c.record_start("b".to_string(), Some(2));
    c.record_start("a".to_string(), Some(1));
    c.record_start("c".to_string(), None);
    let all = c.stop_all();
    assert_eq!(all, vec![("a".to_string(), Some(1)), ("b".to_string(), Some(2)), ("c".to_string(), None)]);
}

#[test]
fn not_found_message_quotes_the_id() {
    let s = config_not_found("abc");
    assert_eq!(s.code, Code::NotFound);
    assert_eq!(s.message, "Config \"abc\" not found");
    assert_eq!(config_not_found("a\"b").message, "Config \"a\\\"b\" not found");
}

#[test]
fn management_decisions() {
    let mut cm = ConfigsManager::new("/etc".to_string(), "/tmp/m.json".to_string(), None);
    let mut c = controller();
    // no file
    let e = management::start(&c, &cm, "absent-config").unwrap_err();
    assert_eq!((e.code, e.message.as_str()), (Code::NotFound, "Config \"absent-config\" not found"));
    let e = management::stop(&c, &cm, "absent-config").unwrap_err();
    assert_eq!(e.code, Code::NotFound);
    // file but no metadata
    let e = management::start(&c, &cm, "passwd").unwrap_err();
    assert_eq!((e.code, e.message.as_str()), (Code::Internal, "Metadata not found"));
    cm.edit("passwd", "sing-box").unwrap();
    let (name, plan) = management::start(&c, &cm, "passwd").unwrap();
    assert_eq!(name, "passwd");
    assert_eq!(plan.args, words(&["run", "-c", "/etc/passwd"]));
    let e = management::stop(&c, &cm, "passwd").unwrap_err();
    assert_eq!((e.code, e.message.as_str()), (Code::FailedPrecondition, "Config is already down"));
    c.record_start(name, Some(7));
    assert_eq!(management::stop(&c, &cm, "passwd").unwrap(), 7);
    let e = management::start(&c, &cm, "passwd").unwrap_err();
    assert_eq!(e.code, Code::FailedPrecondition);
    assert!(management::receive_log(&c, "passwd").is_ok());
    let e = management::receive_log(&c, "other").unwrap_err();
    assert_eq!((e.code, e.message.as_str()), (Code::NotFound, "Config stdout not found"));
    // with the file's presence given
    assert_eq!(management::stop_when(&c, &cm, "passwd", true).unwrap(), 7);
    assert_eq!(management::start_when(&c, &cm, "zzz", false).unwrap_err().code, Code::NotFound);
    let e = management::start_when(&c, &cm, "zzz", true).unwrap_err();
    assert_eq!((e.code, e.message.as_str()), (Code::Internal, "Metadata not found"));
}

#[test]
fn listing_with_states() {
    let mut cm = ConfigsManager::new("/cfg".to_string(), "/m.json".to_string(), None);
    cm.edit("a", "xray-core").unwrap();
    let mut c = controller();
    c.record_start("a".to_string(), Some(3));
    let states = list_configs(&cm, &c, Some(words(&["a", "b"]))).unwrap();
    assert_eq!(states.len(), 2);
    assert_eq!((states[0].config_id.as_str(), states[0].core_tag.as_str(), states[0].running), ("a", "xray-core", true));
    assert_eq!((states[1].config_id.as_str(), states[1].core_tag.as_str(), states[1].running), ("b", "", false));
    assert_eq!(list_configs(&cm, &c, None).unwrap_err().code, Code::Internal);
}

#[test]
fn single_process_controller() {
    let mut c = SubprocessController::new("sing-box".to_string());
    assert!(!c.is_running());
    let plan = c.start("/cfg/a");
    assert_eq!(plan.program, "sing-box");
    assert_eq!(plan.args, words(&["-c", "/cfg/a", "run"]));
    c.record_start(Some(9));
    assert!(c.is_running());
    assert!(managment::get_state(&c));
    assert_eq!(managment::stop(&mut c), Some(9));
    assert!(!managment::get_state(&c));
    assert_eq!(managment::stop(&mut c), None);
}

#[test]
fn single_process_restart() {
    let cm = FlatConfigsManager::new("/etc".to_string());
    let mut c = SubprocessController::new("core".to_string());
    let e = managment::restart(&mut c, &cm, "absent-config").unwrap_err();
    assert_eq!((e.code, e.message.as_str()), (Code::NotFound, "Config \"absent-config\" not found"));
    let plan = managment::restart(&mut c, &cm, "passwd").unwrap();
    assert_eq!(plan.stop_first, None);
    assert_eq!(plan.command.args, words(&["-c", "/etc/passwd", "run"]));
    c.record_start(Some(5));
    let plan = managment::restart(&mut c, &cm, "passwd").unwrap();
    assert_eq!(plan.stop_first, Some(5));
    assert!(!c.is_running());
}

#[test]
fn stop_all_report_lines() {
    let outcomes = vec![
        ("a".to_string(), StopOutcome::Exited { success: true, status: "exit status: 0".to_string() }),
        ("b".to_string(), StopOutcome::Exited { success: false, status: "exit status: 1".to_string() }),
        ("c".to_string(), StopOutcome::Failed { error: "Subprocess isn't running".to_string() }),
    ];
    assert_eq!(
        stop_all_report(&outcomes),
        "Subprocess for config \"b\" exited with status: exit status: 1\n\
         Error stopping subprocess for config \"c\": Subprocess isn't running\n"
    );
    assert_eq!(stop_all_report(&vec![]), "");
}

#[test]
fn stop_all_step_reports_reaped_processes() {
    assert_eq!(stop_all_step(Some(12)).unwrap(), 12);
    let outcome = stop_all_step(None).unwrap_err();
    assert_eq!(
        stop_all_report(&vec![("a".to_string(), outcome)]),
        "Error stopping subprocess for config \"a\": Subprocess isn't running\n"
    );
}

#[test]
fn restart_starts_again_after_exit() {
    let mut cm = ConfigsManager::new("/etc".to_string(), "/tmp/m.json".to_string(), None);
    cm.edit("passwd", "xray-core").unwrap();
    let mut c = controller();
    c.record_start("passwd".to_string(), Some(4));
    assert_eq!(management::stop_when(&c, &cm, "passwd", true).unwrap(), 4);
    c.record_exit("passwd");
    let (name, _) = management::start_when(&c, &cm, "passwd", true).unwrap();
    assert_eq!(name, "passwd");
}
