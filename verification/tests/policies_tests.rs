use cortexflow_cli::policies::{PoliciesArgs, PoliciesCommands};

struct TestCli {
    args: PoliciesArgs,
}

impl TestCli {
    // The `policies` grammar built with clap's builder from the library's
    // subcommand names.
    fn try_parse_from(argv: &[&str]) -> Result<TestCli, clap::Error> {
        let mut command = clap::Command::new("cfcli")
            .arg(clap::Arg::new("flags").long("flags").short('f'))
            .subcommand_required(true);
        for cmd in [
            PoliciesCommands::CreateBlocklist,
            PoliciesCommands::CheckBlocklist,
            PoliciesCommands::RemoveIpFromBlocklist,
        ] {
            command = command.subcommand(clap::Command::new(cmd.name()));
        }
        let matches = command.try_get_matches_from(argv)?;
        let name = matches.subcommand_name().unwrap_or("");
        Ok(TestCli {
            args: PoliciesArgs {
                policy_cmd: PoliciesCommands::from_name(name).unwrap(),
                flags: matches.get_one::<String>("flags").cloned(),
            },
        })
    }
}

#[test]
fn test_parse_create_blocklist_with_ip() {
    let cli = TestCli::try_parse_from(&["cfcli", "--flags", "1.2.3.4", "create-blocklist"]).unwrap();
    assert!(matches!(cli.args.policy_cmd, PoliciesCommands::CreateBlocklist));
    assert_eq!(cli.args.flags, Some("1.2.3.4".to_string()));
}

#[test]
fn test_parse_check_blocklist() {
    let cli = TestCli::try_parse_from(&["cfcli", "check-blocklist"]).unwrap();
    assert!(matches!(cli.args.policy_cmd, PoliciesCommands::CheckBlocklist));
    assert_eq!(cli.args.flags, None);
}

#[test]
fn test_parse_remove_ip() {
    let cli = TestCli::try_parse_from(&["cfcli", "--flags", "5.6.7.8", "remove-ip"]).unwrap();
    assert!(matches!(cli.args.policy_cmd, PoliciesCommands::RemoveIpFromBlocklist));
    assert_eq!(cli.args.flags, Some("5.6.7.8".to_string()));
}

#[test]
fn test_parse_unknown_subcommand_fails() {
    assert!(TestCli::try_parse_from(&["cfcli", "not-a-command"]).is_err());
}

#[test]
fn policy_names_lead_back_to_their_subcommands() {
    for cmd in [
        PoliciesCommands::CreateBlocklist,
        PoliciesCommands::CheckBlocklist,
        PoliciesCommands::RemoveIpFromBlocklist,
    ] {
        assert_eq!(PoliciesCommands::from_name(cmd.name()), Some(cmd));
    }
    assert_eq!(PoliciesCommands::from_name("Create-Blocklist"), None);
}
