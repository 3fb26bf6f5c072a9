//! The `uninstall` command: which part to remove, and what the removal's
//! outcome means.
use vstd::prelude::*;
use crate::errors::CliError;
use crate::logs::DEFAULT_NAMESPACE;
use crate::runner::{ran_once, CommandOutcome, CommandRunner};
use crate::text::{lossy_text, same_text, trim, trim_text, utf8_lossy, views};
use crate::BASE_COMMAND;

verus! {

/// What the user chose to remove.
#[derive(Debug, Clone, Copy, PartialEq, Eq, Structural)]
pub enum UninstallChoice {
    /// The whole CortexFlow namespace.
    Everything,
    /// The identity service alone.
    IdentityService,
    /// Nothing: the answer was neither option.
    Nothing,
}

/// The kind of resource the identity service is.
pub const IDENTITY_KIND: &'static str = "deployment";

/// The name of the identity service.
pub const IDENTITY_NAME: &'static str = "cortexflow-identity";

/// The choice that an answer to the uninstall menu stands for: `1` for
/// everything, `2` for the identity service, white space around the answer
/// aside.
pub open spec fn spec_uninstall_choice(input: Seq<char>) -> UninstallChoice {
    if trim(input) == "1"@ {
        UninstallChoice::Everything
    } else if trim(input) == "2"@ {
        UninstallChoice::IdentityService
    } else {
        UninstallChoice::Nothing
    }
}

/// The choice that an answer to the uninstall menu stands for.
pub fn uninstall_choice(input: &str) -> (c: UninstallChoice)
    ensures
        c == spec_uninstall_choice(input@),
{
    let answer = trim_text(input);
    if same_text(answer.as_str(), "1") {
        UninstallChoice::Everything
    } else if same_text(answer.as_str(), "2") {
        UninstallChoice::IdentityService
    } else {
        UninstallChoice::Nothing
    }
}

/// The arguments that delete the CortexFlow namespace.
pub open spec fn uninstall_all_arg_views() -> Seq<Seq<char>> {
    seq!["delete"@, "namespace"@, DEFAULT_NAMESPACE@]
}

/// The arguments that delete the CortexFlow namespace.
pub fn uninstall_all_args() -> (args: Vec<String>)
    ensures
        views(args@) == uninstall_all_arg_views(),
{
    let args = vec!["delete".to_owned(), "namespace".to_owned(), DEFAULT_NAMESPACE.to_owned()];
    assert(views(args@) =~= seq!["delete"@, "namespace"@, DEFAULT_NAMESPACE@]);
    args
}

/// The arguments that delete one component of the CortexFlow namespace.
pub open spec fn uninstall_component_arg_views(component_type: Seq<char>, component: Seq<char>) -> Seq<
    Seq<char>,
> {
    seq!["delete"@, component_type, component, "-n"@, DEFAULT_NAMESPACE@]
}

/// The arguments that delete one component of the CortexFlow namespace.
pub fn uninstall_component_args(component_type: &str, component: &str) -> (args: Vec<String>)
    ensures
        views(args@) == uninstall_component_arg_views(component_type@, component@),
{
    let args = vec![
        "delete".to_owned(),
        component_type.to_owned(),
        component.to_owned(),
        "-n".to_owned(),
        DEFAULT_NAMESPACE.to_owned(),
    ];
    assert(views(args@) =~= seq![
        "delete"@,
        component_type@,
        component@,
        "-n"@,
        DEFAULT_NAMESPACE@,
    ]);
    args
}

/// Whether `e` is the installer error with exactly this reason.
pub open spec fn is_installer_error(e: CliError, reason: Seq<char>) -> bool {
    e matches CliError::InstallerError { reason: r } && r@ == reason
}

/// The error of a delete command that could not be started.
pub fn delete_start_error(message: &str) -> (e: CliError)
    ensures
        is_installer_error(e, "Failed to execute delete command: "@ + message@),
{
    let mut reason = "Failed to execute delete command: ".to_owned();
    reason.append(message);
    CliError::InstallerError { reason }
}

/// The error of a failed namespace deletion, given what the cluster tool
/// printed on its error stream.
pub fn namespace_removal_error(stderr_text: &str) -> (e: CliError)
    ensures
        is_installer_error(e, "Failed to delete cortexflow namespace. Error: "@ + stderr_text@),
{
    let mut reason = "Failed to delete cortexflow namespace. Error: ".to_owned();
    reason.append(stderr_text);
    CliError::InstallerError { reason }
}

/// The error of a failed component deletion, given what the cluster tool
/// printed on its error stream.
pub fn component_removal_error(component: &str, stderr_text: &str) -> (e: CliError)
    ensures
        is_installer_error(
            e,
            "Failed to delete component '"@ + component@ + "': "@ + stderr_text@,
        ),
{
    let mut reason = "Failed to delete component '".to_owned();
    reason.append(component);
    reason.append("': ");
    reason.append(stderr_text);
    CliError::InstallerError { reason }
}

/// What a deletion's outcome means: done where it ran and succeeded; where it
/// did not run, the error with the system's message; where it failed, the
/// error that `failure` makes of what it printed on its error stream.
pub open spec fn is_removal_result(
    r: Result<(), CliError>,
    outcome: CommandOutcome,
    failure: spec_fn(Seq<char>) -> Seq<char>,
) -> bool {
    match outcome {
        CommandOutcome::NotStarted { message } => r matches Err(e) && is_installer_error(
            e,
            "Failed to execute delete command: "@ + message@,
        ),
        CommandOutcome::Finished { success, stderr, .. } => if success {
            r is Ok
        } else {
            r matches Err(e) && is_installer_error(e, failure(utf8_lossy(stderr@)))
        },
    }
}

/// The reason given when the namespace could not be deleted.
pub open spec fn namespace_failure() -> spec_fn(Seq<char>) -> Seq<char> {
    |stderr: Seq<char>| "Failed to delete cortexflow namespace. Error: "@ + stderr
}

/// The reason given when a component could not be deleted.
pub open spec fn component_failure(component: Seq<char>) -> spec_fn(Seq<char>) -> Seq<char> {
    |stderr: Seq<char>| "Failed to delete component '"@ + component + "': "@ + stderr
}

/// What the namespace deletion's outcome means.
pub fn namespace_removal_result(outcome: &CommandOutcome) -> (r: Result<(), CliError>)
    ensures
        is_removal_result(r, *outcome, namespace_failure()),
{
    match outcome {
        CommandOutcome::NotStarted { message } => Err(delete_start_error(message.as_str())),
        CommandOutcome::Finished { success, stderr, .. } => {
            if *success {
                Ok(())
            } else {
                let text = lossy_text(stderr.as_slice());
                Err(namespace_removal_error(text.as_str()))
            }
        },
    }
}

/// What a component deletion's outcome means.
pub fn component_removal_result(component: &str, outcome: &CommandOutcome) -> (r: Result<
    (),
    CliError,
>)
    ensures
        is_removal_result(r, *outcome, component_failure(component@)),
{
    match outcome {
        CommandOutcome::NotStarted { message } => Err(delete_start_error(message.as_str())),
        CommandOutcome::Finished { success, stderr, .. } => {
            if *success {
                Ok(())
            } else {
                let text = lossy_text(stderr.as_slice());
                Err(component_removal_error(component, text.as_str()))
            }
        },
    }
}

/// Deletes the CortexFlow namespace: runs `kubectl delete namespace
/// cortexflow` through `runner` and reports what came of it.
pub fn uninstall_all_with<R: CommandRunner>(runner: &mut R) -> (r: Result<(), CliError>)
    ensures
        exists|o: CommandOutcome|
            #[trigger] ran_once(*old(runner), *final(runner), BASE_COMMAND@, uninstall_all_arg_views(), o) && is_removal_result(
                r,
                o,
                namespace_failure(),
            ),
{
    let args = uninstall_all_args();
    let outcome = runner.run(BASE_COMMAND, args.as_slice());
    let r = namespace_removal_result(&outcome);
    assert(ran_once(*old(runner), *runner, BASE_COMMAND@, uninstall_all_arg_views(), outcome));
    r
}

/// Deletes one component of the CortexFlow namespace: runs `kubectl delete
/// <type> <component> -n cortexflow` through `runner` and reports what came of
/// it.
pub fn uninstall_component_with<R: CommandRunner>(
    runner: &mut R,
    component_type: &str,
    component: &str,
) -> (r: Result<(), CliError>)
    ensures
        exists|o: CommandOutcome|
            #[trigger] ran_once(*old(runner), *final(runner), 
                BASE_COMMAND@,
                uninstall_component_arg_views(component_type@, component@),
                o,
            ) && is_removal_result(r, o, component_failure(component@)),
{
    let args = uninstall_component_args(component_type, component);
    let outcome = runner.run(BASE_COMMAND, args.as_slice());
    let r = component_removal_result(component, &outcome);
    assert(ran_once(*old(runner), *runner, 
        BASE_COMMAND@,
        uninstall_component_arg_views(component_type@, component@),
        outcome,
    ));
    r
}


/// A removal is reported done exactly when the delete command ran and
/// succeeded; otherwise it is reported as an installer error.
pub proof fn lemma_removal_done_iff_succeeded(
    r: Result<(), CliError>,
    outcome: CommandOutcome,
    failure: spec_fn(Seq<char>) -> Seq<char>,
)
    requires
        is_removal_result(r, outcome, failure),
    ensures
        r is Ok <==> outcome.spec_succeeded(),
        r matches Err(e) ==> e is InstallerError,
{
}

} // verus!
