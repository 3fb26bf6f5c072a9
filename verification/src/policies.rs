//! The `policies` command: its subcommands and their names on the command line.
use vstd::prelude::*;
use crate::text::same_text;

verus! {

/// The subcommands of the `policies` command.
#[derive(Debug, Clone, Copy, PartialEq, Eq, Structural)]
pub enum PoliciesCommands {
    /// Creates a blocklist to filter addresses.
    CreateBlocklist,
    /// Shows the current address blocklist.
    CheckBlocklist,
    /// Removes an address from the blocklist.
    RemoveIpFromBlocklist,
}

/// The arguments of the `policies` command: the subcommand, and the address
/// that `--flags` gives.
#[derive(Debug, Clone)]
pub struct PoliciesArgs {
    pub policy_cmd: PoliciesCommands,
    pub flags: Option<String>,
}

impl PoliciesCommands {
    pub open spec fn spec_name(self) -> Seq<char> {
        match self {
            PoliciesCommands::CreateBlocklist => "create-blocklist"@,
            PoliciesCommands::CheckBlocklist => "check-blocklist"@,
            PoliciesCommands::RemoveIpFromBlocklist => "remove-ip"@,
        }
    }

    /// The subcommand's name on the command line.
    pub fn name(&self) -> (n: &'static str)
        ensures
            n@ == self.spec_name(),
    {
        match self {
            PoliciesCommands::CreateBlocklist => "create-blocklist",
            PoliciesCommands::CheckBlocklist => "check-blocklist",
            PoliciesCommands::RemoveIpFromBlocklist => "remove-ip",
        }
    }

    /// The subcommand with the given name on the command line, if any.
    pub fn from_name(name: &str) -> (c: Option<PoliciesCommands>)
        ensures
            c matches Some(cmd) ==> cmd.spec_name() == name@,
            c is None ==> forall|cmd: PoliciesCommands| #[trigger] cmd.spec_name() != name@,
    {
        if same_text(name, "create-blocklist") {
            Some(PoliciesCommands::CreateBlocklist)
        } else if same_text(name, "check-blocklist") {
            Some(PoliciesCommands::CheckBlocklist)
        } else if same_text(name, "remove-ip") {
            Some(PoliciesCommands::RemoveIpFromBlocklist)
        } else {
            assert forall|cmd: PoliciesCommands| #[trigger] cmd.spec_name() != name@ by {
                match cmd {
                    PoliciesCommands::CreateBlocklist => {},
                    PoliciesCommands::CheckBlocklist => {},
                    PoliciesCommands::RemoveIpFromBlocklist => {},
                }
            }
            None
        }
    }
}

/// Each subcommand has a name of its own: the name of a subcommand leads back
/// to that subcommand.
pub proof fn lemma_policy_names_distinct(a: PoliciesCommands, b: PoliciesCommands)
    ensures
        a.spec_name() == b.spec_name() ==> a == b,
{
    reveal_strlit("create-blocklist");
    reveal_strlit("check-blocklist");
    reveal_strlit("remove-ip");
    if a != b {
        match (a, b) {
            (PoliciesCommands::CreateBlocklist, PoliciesCommands::CheckBlocklist) => {
                assert(a.spec_name()[1] != b.spec_name()[1]);
            },
            (PoliciesCommands::CheckBlocklist, PoliciesCommands::CreateBlocklist) => {
                assert(a.spec_name()[1] != b.spec_name()[1]);
            },
            _ => {
                assert(a.spec_name().len() != b.spec_name().len() || a.spec_name()[0]
                    != b.spec_name()[0]);
            },
        }
    }
}

} // verus!
