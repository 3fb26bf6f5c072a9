use cortexflow_cli::logs::{
    check_namespace_exists_with, get_all_pods_with, get_available_namespaces_with,
    get_pods_for_component_with, get_pods_for_service_with, namespace_not_found_text,
    namespace_or_default, next_logs_action, parse_lines, parse_lines_of, pod_logs_args, pod_logs_report, LogsAction,
    pod_selection, pods_in_both, Component, PodLogs, PodSelection,
};
use cortexflow_cli::errors::CliError;
use cortexflow_cli::runner::{CommandOutcome, CommandRunner};
use std::cell::RefCell;

// Hands back a fixed outcome and keeps the command lines it was given.
struct StubCommandRunner {
    result: CommandOutcome,
    calls: RefCell<Vec<(String, Vec<String>)>>,
}

impl StubCommandRunner {
    fn new(result: CommandOutcome) -> Self {
        Self { result, calls: RefCell::new(Vec::new()) }
    }

    fn success(stdout: &str) -> Self {
        Self::new(CommandOutcome::Finished {
            success: true,
            stdout: stdout.as_bytes().to_vec(),
            stderr: Vec::new(),
        })
    }

    fn failure(stderr: &str) -> Self {
        Self::new(CommandOutcome::Finished {
            success: false,
            stdout: Vec::new(),
            stderr: stderr.as_bytes().to_vec(),
        })
    }

    fn io_error() -> Self {
        Self::new(CommandOutcome::NotStarted { message: "command not found".to_string() })
    }

    fn last_call(&self) -> (String, Vec<String>) {
        self.calls.borrow().last().cloned().unwrap()
    }
}

impl CommandRunner for StubCommandRunner {
    fn run(&mut self, program: &str, args: &[String]) -> CommandOutcome {
        self.calls.borrow_mut().push((program.to_string(), args.to_vec()));
        self.result.clone()
    }
}

fn strings(v: &[&str]) -> Vec<String> {
    v.iter().map(|s| s.to_string()).collect()
}

// Component

#[test]
fn test_component_from_control_plane() {
    assert!(matches!(Component::from("control-plane".to_string()), Component::ControlPlane));
}

#[test]
fn test_component_from_data_plane() {
    assert!(matches!(Component::from("data-plane".to_string()), Component::DataPlane));
}

#[test]
fn test_component_from_is_case_insensitive() {
    assert!(matches!(Component::from("Data-Plane".to_string()), Component::DataPlane));
}

#[test]
fn test_component_from_unknown_defaults_to_control_plane() {
    assert!(matches!(Component::from("unknown".to_string()), Component::ControlPlane));
}

#[test]
fn test_component_to_label_selector() {
    assert_eq!(Component::ControlPlane.to_label_selector(), "component=control-plane");
    assert_eq!(Component::DataPlane.to_label_selector(), "component=data-plane");
}

#[test]
fn component_from_upper_case_name() {
    assert!(matches!(Component::from("DATA-PLANE".to_string()), Component::DataPlane));
    assert!(matches!(Component::from_lowercase("DATA-PLANE"), Component::ControlPlane));
}

// parse_lines

#[test]
fn test_parse_lines_filters_empty_lines_and_trims() {
    let stdout = b"  pod-a  \n\npod-b\n   \n";
    let parsed = parse_lines(stdout);
    assert_eq!(parsed, vec!["pod-a".to_string(), "pod-b".to_string()]);
}

#[test]
fn test_parse_lines_empty_input() {
    assert!(parse_lines(b"").is_empty());
}

#[test]
fn parse_lines_handles_carriage_returns_and_unicode_spaces() {
    let parsed = parse_lines("a\r\n\u{3000}b c\u{a0}\n\r\n".as_bytes());
    assert_eq!(parsed, strings(&["a", "b c"]));
}

#[test]
fn parse_lines_rejects_ill_formed_utf8() {
    assert!(parse_lines(&[b'a', 0xff, b'\n', b'b']).is_empty());
}

#[test]
fn parse_lines_output_is_trimmed_and_not_blank() {
    for line in parse_lines_of(" x \n\t\n y\tz \n") {
        assert!(!line.is_empty());
        assert_eq!(line.trim(), line);
    }
}

#[test]
fn parse_lines_same_with_or_without_final_line_feed() {
    assert_eq!(parse_lines_of("a\nb"), parse_lines_of("a\nb\n"));
}

// check_namespace_exists_with

#[test]
fn test_check_namespace_exists_with_success() {
    let mut runner = StubCommandRunner::success("");
    assert!(check_namespace_exists_with(&mut runner, "cortexflow"));
}

#[test]
fn test_check_namespace_exists_with_failure() {
    let mut runner = StubCommandRunner::failure("not found");
    assert!(!check_namespace_exists_with(&mut runner, "missing"));
}

#[test]
fn test_check_namespace_exists_with_io_error() {
    let mut runner = StubCommandRunner::io_error();
    assert!(!check_namespace_exists_with(&mut runner, "cortexflow"));
}

#[test]
fn check_namespace_asks_for_the_namespace() {
    let mut runner = StubCommandRunner::success("");
    check_namespace_exists_with(&mut runner, "team-a");
    assert_eq!(runner.last_call(), ("kubectl".to_string(), strings(&["get", "namespace", "team-a"])));
}

// get_available_namespaces_with

#[test]
fn test_get_available_namespaces_with_success() {
    let mut runner = StubCommandRunner::success("default\ncortexflow\nkube-system\n");
    let namespaces = get_available_namespaces_with(&mut runner);
    assert_eq!(
        namespaces,
        vec!["default".to_string(), "cortexflow".to_string(), "kube-system".to_string()]
    );
}

#[test]
fn test_get_available_namespaces_with_empty_output() {
    let mut runner = StubCommandRunner::success("");
    assert!(get_available_namespaces_with(&mut runner).is_empty());
}

#[test]
fn test_get_available_namespaces_with_command_failure() {
    let mut runner = StubCommandRunner::failure("connection refused");
    assert!(get_available_namespaces_with(&mut runner).is_empty());
}

#[test]
fn namespace_listing_arguments() {
    let mut runner = StubCommandRunner::success("");
    get_available_namespaces_with(&mut runner);
    assert_eq!(
        runner.last_call().1,
        strings(&["get", "namespaces", "--no-headers", "-o", "custom-columns=NAME:.metadata.name"])
    );
}

// get_pods_for_service_with

#[test]
fn test_get_pods_for_service_with_success() {
    let mut runner = StubCommandRunner::success("pod-a\npod-b\n");
    let pods = get_pods_for_service_with(&mut runner, "cortexflow", "my-service");
    assert_eq!(pods, vec!["pod-a".to_string(), "pod-b".to_string()]);
}

#[test]
fn test_get_pods_for_service_with_no_matches() {
    let mut runner = StubCommandRunner::success("");
    assert!(get_pods_for_service_with(&mut runner, "cortexflow", "unknown-service").is_empty());
}

#[test]
fn test_get_pods_for_service_with_command_failure() {
    let mut runner = StubCommandRunner::failure("error");
    assert!(get_pods_for_service_with(&mut runner, "cortexflow", "my-service").is_empty());
}

#[test]
fn service_pods_arguments() {
    let mut runner = StubCommandRunner::success("");
    get_pods_for_service_with(&mut runner, "ns1", "web");
    assert_eq!(
        runner.last_call().1,
        strings(&[
            "get", "pods", "-n", "ns1", "-l", "app=web", "--no-headers", "-o",
            "custom-columns=NAME:.metadata.name"
        ])
    );
}

// get_pods_for_component_with

#[test]
fn test_get_pods_for_component_with_success() {
    let mut runner = StubCommandRunner::success("agent-pod\n");
    let pods = get_pods_for_component_with(&mut runner, "cortexflow", &Component::DataPlane);
    assert_eq!(pods, vec!["agent-pod".to_string()]);
}

#[test]
fn test_get_pods_for_component_with_no_matches() {
    let mut runner = StubCommandRunner::success("");
    assert!(get_pods_for_component_with(&mut runner, "cortexflow", &Component::ControlPlane).is_empty());
}

#[test]
fn test_get_pods_for_component_with_command_failure() {
    let mut runner = StubCommandRunner::failure("error");
    assert!(get_pods_for_component_with(&mut runner, "cortexflow", &Component::ControlPlane).is_empty());
}

#[test]
fn component_pods_arguments() {
    let mut runner = StubCommandRunner::success("");
    get_pods_for_component_with(&mut runner, "cortexflow", &Component::DataPlane);
    assert_eq!(
        runner.last_call().1,
        strings(&[
            "get", "pods", "-n", "cortexflow", "-l", "component=data-plane", "--no-headers",
            "-o", "custom-columns=NAME:.metadata.name"
        ])
    );
}

// get_all_pods_with

#[test]
fn test_get_all_pods_with_success() {
    let mut runner = StubCommandRunner::success("pod-a\npod-b\npod-c\n");
    let pods = get_all_pods_with(&mut runner, "cortexflow");
    assert_eq!(pods, vec!["pod-a".to_string(), "pod-b".to_string(), "pod-c".to_string()]);
}

#[test]
fn test_get_all_pods_with_empty_namespace() {
    let mut runner = StubCommandRunner::success("");
    assert!(get_all_pods_with(&mut runner, "empty_namespace").is_empty());
}

#[test]
fn test_get_all_pods_with_command_failure() {
    let mut runner = StubCommandRunner::failure("namespace not found");
    assert!(get_all_pods_with(&mut runner, "non_existent_namespace").is_empty());
}

#[test]
fn test_get_all_pods_with_io_error() {
    let mut runner = StubCommandRunner::io_error();
    assert!(get_all_pods_with(&mut runner, "cortexflow").is_empty());
}

#[test]
fn all_pods_arguments() {
    let mut runner = StubCommandRunner::success("");
    get_all_pods_with(&mut runner, "cortexflow");
    assert_eq!(
        runner.last_call().1,
        strings(&["get", "pods", "-n", "cortexflow", "--no-headers", "-o", "custom-columns=NAME:.metadata.name"])
    );
}

// choosing pods

#[test]
fn default_namespace_is_cortexflow() {
    assert_eq!(namespace_or_default(None), "cortexflow");
    assert_eq!(namespace_or_default(Some("other".to_string())), "other");
}

#[test]
fn pod_selection_follows_the_options() {
    assert!(matches!(
        pod_selection(Some("web".to_string()), Some("Data-Plane".to_string())),
        PodSelection::ServiceAndComponent { ref service, component: Component::DataPlane } if service == "web"
    ));
    assert!(matches!(pod_selection(Some("web".to_string()), None), PodSelection::Service { ref service } if service == "web"));
    assert!(matches!(pod_selection(None, Some("x".to_string())), PodSelection::Component { component: Component::ControlPlane }));
    assert!(matches!(pod_selection(None, None), PodSelection::All));
}

#[test]
fn pods_in_both_keeps_the_service_order() {
    let both = pods_in_both(strings(&["c", "a", "b", "d"]), &strings(&["a", "c", "x"]));
    assert_eq!(both, strings(&["c", "a"]));
    assert!(pods_in_both(strings(&["a"]), &Vec::new()).is_empty());
}

// pod logs

#[test]
fn pod_logs_arguments() {
    assert_eq!(pod_logs_args("p", "ns"), strings(&["logs", "p", "-n", "ns", "--tail=50"]));
}

#[test]
fn pod_logs_text_and_empty_logs() {
    let ok = CommandOutcome::Finished { success: true, stdout: b"line\n".to_vec(), stderr: Vec::new() };
    assert!(matches!(pod_logs_report("p", &ok), Ok(PodLogs::Logs { ref text }) if text == "line\n"));
    let blank = CommandOutcome::Finished { success: true, stdout: b" \n".to_vec(), stderr: Vec::new() };
    assert!(matches!(pod_logs_report("p", &blank), Ok(PodLogs::NoLogs)));
}

#[test]
fn pod_logs_errors_name_the_pod_in_quotes() {
    let failed = CommandOutcome::Finished { success: false, stdout: Vec::new(), stderr: b"boom".to_vec() };
    match pod_logs_report("pod-a", &failed) {
        Err(CliError::BaseError { reason }) => {
            assert_eq!(reason, "Error getting logs for pod '\"pod-a\"': boom")
        }
        other => panic!("unexpected {:?}", other),
    }
    let not_run = CommandOutcome::NotStarted { message: "no such file".to_string() };
    match pod_logs_report("pod-a", &not_run) {
        Err(CliError::BaseError { reason }) => {
            assert_eq!(reason, "Failed to execute kubectl logs for pod '\"pod-a\"': no such file")
        }
        other => panic!("unexpected {:?}", other),
    }
    let garbled = CommandOutcome::Finished { success: false, stdout: Vec::new(), stderr: vec![0xff] };
    match pod_logs_report("p", &garbled) {
        Err(CliError::BaseError { reason }) => {
            assert_eq!(reason, "Error getting logs for pod '\"p\"': Unknown error")
        }
        other => panic!("unexpected {:?}", other),
    }
}

#[test]
fn namespace_notice_lists_the_namespaces() {
    let text = namespace_not_found_text("ns", &strings(&["a", "b"]), None);
    assert_eq!(
        text,
        format!("\n❌ Namespace 'ns' not found\n{}\n\n📋 Available namespaces:\n  • a\n  • b\n", "=".repeat(50))
    );
    let hint = namespace_not_found_text("ns", &strings(&["a"]), Some("svc"));
    assert!(hint.ends_with("\nTry: cortexflow service describe svc --namespace <namespace-name>\n"));
    let none = namespace_not_found_text("ns", &Vec::new(), Some("svc"));
    assert!(none.ends_with("No namespaces found in the cluster.\n"));
}

#[test]
fn parse_lines_of_joined_outputs() {
    let a = b"pod-a\n pod-b \n";
    let b = b"\npod-c";
    let joined = [&a[..], &b[..]].concat();
    assert_eq!(parse_lines(&joined), [parse_lines(a), parse_lines(b)].concat());
    assert_eq!(parse_lines(&joined), strings(&["pod-a", "pod-b", "pod-c"]));
}

#[test]
fn logs_steps_go_through_the_pods_in_order() {
    assert!(matches!(next_logs_action(&Vec::new(), 0), LogsAction::NoPods));
    let pods = strings(&["a", "b"]);
    assert!(matches!(next_logs_action(&pods, 0), LogsAction::FetchLogs { ref pod } if pod == "a"));
    assert!(matches!(next_logs_action(&pods, 1), LogsAction::FetchLogs { ref pod } if pod == "b"));
    assert!(matches!(next_logs_action(&pods, 2), LogsAction::Finished));
}

#[test]
fn each_query_runs_its_command_once() {
    let mut runner = StubCommandRunner::success("a\n");
    check_namespace_exists_with(&mut runner, "ns");
    assert_eq!(runner.calls.borrow().len(), 1);
    get_all_pods_with(&mut runner, "ns");
    get_available_namespaces_with(&mut runner);
    get_pods_for_service_with(&mut runner, "ns", "s");
    get_pods_for_component_with(&mut runner, "ns", &Component::ControlPlane);
    assert_eq!(runner.calls.borrow().len(), 5);
}
