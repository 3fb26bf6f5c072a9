//! The errors that the tool's commands end with.
use vstd::prelude::*;

verus! {

/// Why a command of the tool failed.
#[derive(Debug)]
pub enum CliError {
    /// A cluster query failed; the reason as the user is shown it.
    BaseError { reason: String },
    /// Removing part of the installation failed.
    InstallerError { reason: String },
    /// The cluster could not be reached or a query could not be run: the
    /// fields of the cluster API's error response.
    ClientError { status: String, message: String, reason: String, code: u16 },
}

/// The error returned when the cluster cannot be reached, with the
/// connection's own message as the reason.
pub fn connection_error(reason: &str) -> (e: CliError)
    ensures
        e matches CliError::ClientError { status, message, reason: r, code } && status@ == "failed"@
            && message@ == "Failed to connect to kubernetes client"@ && r@ == reason@ && code == 404,
{
    CliError::ClientError {
        status: "failed".to_owned(),
        message: "Failed to connect to kubernetes client".to_owned(),
        reason: reason.to_owned(),
        code: 404,
    }
}

} // verus!
