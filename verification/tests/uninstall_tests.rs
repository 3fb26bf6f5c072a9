use cortexflow_cli::errors::CliError;
use cortexflow_cli::runner::{CommandOutcome, CommandRunner};
use cortexflow_cli::uninstall::{
    uninstall_all_args, uninstall_all_with, uninstall_choice, uninstall_component_args,
    uninstall_component_with, UninstallChoice,
};
use std::cell::RefCell;

struct StubCommandRunner {
    result: CommandOutcome,
    calls: RefCell<Vec<Vec<String>>>,
}

impl StubCommandRunner {
    fn new(result: CommandOutcome) -> Self {
        Self { result, calls: RefCell::new(Vec::new()) }
    }

    fn success(stdout: &str) -> Self {
        Self::new(CommandOutcome::Finished {
            success: true,
            stdout: stdout.as_bytes().to_vec(),
            stderr: Vec::new(),
        })
    }

    fn failure(stderr: &str) -> Self {
        Self::new(CommandOutcome::Finished {
            success: false,
            stdout: Vec::new(),
            stderr: stderr.as_bytes().to_vec(),
        })
    }

    fn io_error() -> Self {
        Self::new(CommandOutcome::NotStarted { message: "command not found".to_string() })
    }
}

impl CommandRunner for StubCommandRunner {
    fn run(&mut self, _program: &str, args: &[String]) -> CommandOutcome {
        self.calls.borrow_mut().push(args.to_vec());
        self.result.clone()
    }
}

fn reason(r: Result<(), CliError>) -> String {
    match r {
        Err(CliError::InstallerError { reason }) => reason,
        other => panic!("unexpected {:?}", other),
    }
}

#[test]
fn test_uninstall_all_with_success() {
    let mut runner = StubCommandRunner::success("");
    assert!(uninstall_all_with(&mut runner).is_ok());
}

#[test]
fn test_uninstall_all_with_command_failure() {
    let mut runner = StubCommandRunner::failure("namespace not found");
    assert!(uninstall_all_with(&mut runner).is_err());
}

#[test]
fn test_uninstall_all_with_io_error() {
    let mut runner = StubCommandRunner::io_error();
    assert!(uninstall_all_with(&mut runner).is_err());
}

#[test]
fn test_uninstall_component_with_success() {
    let mut runner = StubCommandRunner::success("");
    assert!(uninstall_component_with(&mut runner, "deployment", "cortexflow-identity").is_ok());
}

#[test]
fn test_uninstall_component_with_command_failure() {
    let mut runner = StubCommandRunner::failure("component not found");
    assert!(uninstall_component_with(&mut runner, "deployment", "unknown").is_err());
}

#[test]
fn test_uninstall_component_with_io_error() {
    let mut runner = StubCommandRunner::io_error();
    assert!(uninstall_component_with(&mut runner, "deployment", "cortexflow-identity").is_err());
}

#[test]
fn uninstall_error_reasons() {
    assert_eq!(
        reason(uninstall_all_with(&mut StubCommandRunner::failure("gone"))),
        "Failed to delete cortexflow namespace. Error: gone"
    );
    assert_eq!(
        reason(uninstall_all_with(&mut StubCommandRunner::io_error())),
        "Failed to execute delete command: command not found"
    );
    assert_eq!(
        reason(uninstall_component_with(&mut StubCommandRunner::failure("nope"), "deployment", "x")),
        "Failed to delete component 'x': nope"
    );
}

#[test]
fn uninstall_error_replaces_ill_formed_bytes() {
    let mut runner = StubCommandRunner::new(CommandOutcome::Finished {
        success: false,
        stdout: Vec::new(),
        stderr: vec![b'a', 0xff, b'b'],
    });
    assert_eq!(
        reason(uninstall_all_with(&mut runner)),
        "Failed to delete cortexflow namespace. Error: a\u{fffd}b"
    );
}

#[test]
fn uninstall_arguments() {
    let mut runner = StubCommandRunner::success("");
    uninstall_all_with(&mut runner).unwrap();
    uninstall_component_with(&mut runner, "deployment", "cortexflow-identity").unwrap();
    let calls = runner.calls.borrow();
    assert_eq!(calls[0], uninstall_all_args());
    assert_eq!(calls[0], vec!["delete", "namespace", "cortexflow"]);
    assert_eq!(calls[1], uninstall_component_args("deployment", "cortexflow-identity"));
    assert_eq!(calls[1], vec!["delete", "deployment", "cortexflow-identity", "-n", "cortexflow"]);
}

#[test]
fn uninstall_menu_answers() {
    assert_eq!(uninstall_choice("1\n"), UninstallChoice::Everything);
    assert_eq!(uninstall_choice("  2 "), UninstallChoice::IdentityService);
    assert_eq!(uninstall_choice("3"), UninstallChoice::Nothing);
    assert_eq!(uninstall_choice(""), UninstallChoice::Nothing);
}
