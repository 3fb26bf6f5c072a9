use cortexflow_cli::errors::CliError;
use cortexflow_cli::runner::CommandOutcome;
use cortexflow_cli::service::{
    describe_args, description_from_outcome, format_service_rows, service_list_args,
    service_listing_from_outcome, service_table_heading_text,
};

#[test]
fn test_format_service_rows_formats_matching_lines() {
    let stdout = "my-svc        1/1     Running   0   5d\nother-svc     2/2     Pending   1   1h\n";
    let rows = format_service_rows(stdout);
    assert_eq!(rows.len(), 2);
    assert!(rows[0].contains("my-svc"));
    assert!(rows[0].contains("Running (1/1)"));
    assert!(rows[1].contains("other-svc"));
    assert!(rows[1].contains("Pending (2/2)"));
}

#[test]
fn test_format_service_rows_skips_short_lines() {
    let stdout = "incomplete line\n";
    assert!(format_service_rows(stdout).is_empty());
}

#[test]
fn test_format_service_rows_without_ready_slash() {
    let stdout = "svc-a   Active   0   5d   extra\n";
    let rows = format_service_rows(stdout);
    assert_eq!(rows.len(), 1);
    assert!(rows[0].contains("svc-a"));
}

#[test]
fn test_format_service_rows_empty_input() {
    assert!(format_service_rows("").is_empty());
}

#[test]
fn service_row_columns_match_the_format() {
    let rows = format_service_rows("my-svc 1/1 Running 0 5d\nsvc-a Active 0 5d extra\n");
    assert_eq!(rows[0], format!("{:<40} {:<20} {:<10} {:<10}", "my-svc", "Running (1/1)", "0", "5d"));
    assert_eq!(rows[1], format!("{:<40} {:<20} {:<10} {:<10}", "svc-a", "0", "5d", "extra"));
    let long = "n".repeat(45);
    let rows = format_service_rows(&format!("{} a b c d\n", long));
    assert_eq!(rows[0], format!("{:<40} {:<20} {:<10} {:<10}", long, "b", "c", "d"));
}

#[test]
fn service_table_heading_matches_the_format() {
    assert_eq!(
        service_table_heading_text(),
        format!("{:<40} {:<20} {:<10} {:<10}\n{}\n", "NAME", "STATUS", "RESTARTS", "AGE", "-".repeat(80))
    );
}

#[test]
fn service_arguments() {
    assert_eq!(service_list_args("ns"), vec!["get", "svc", "-n", "ns", "--no-headers"]);
    assert_eq!(describe_args("s", "ns"), vec!["describe", "pod", "s", "-n", "ns"]);
}

#[test]
fn service_listing_outcomes() {
    let ok = CommandOutcome::Finished { success: true, stdout: b"a 1/1 Running 0 1d\n".to_vec(), stderr: Vec::new() };
    let listing = service_listing_from_outcome(&ok).unwrap();
    assert!(!listing.no_services);
    assert_eq!(listing.rows.len(), 1);
    let empty = CommandOutcome::Finished { success: true, stdout: b"  \n".to_vec(), stderr: Vec::new() };
    assert!(service_listing_from_outcome(&empty).unwrap().no_services);
    let failed = CommandOutcome::Finished { success: false, stdout: Vec::new(), stderr: b"denied".to_vec() };
    match service_listing_from_outcome(&failed) {
        Err(CliError::BaseError { reason }) => assert_eq!(reason, "Error executing kubectl: denied"),
        other => panic!("unexpected {:?}", other),
    }
    let not_run = CommandOutcome::NotStarted { message: "missing".to_string() };
    match service_listing_from_outcome(&not_run) {
        Err(CliError::ClientError { status, message, reason, code }) => {
            assert_eq!(status, "failed");
            assert_eq!(message, "Failed to execute the kubectl command");
            assert_eq!(reason, "missing");
            assert_eq!(code, 404);
        }
        other => panic!("unexpected {:?}", other),
    }
}

#[test]
fn description_outcomes() {
    let ok = CommandOutcome::Finished { success: true, stdout: b"Name: p\n".to_vec(), stderr: Vec::new() };
    let d = description_from_outcome("p", "ns", &ok).unwrap();
    assert_eq!(d.text, "Name: p\n");
    assert!(!d.empty);
    let failed = CommandOutcome::Finished { success: false, stdout: Vec::new(), stderr: b"NotFound".to_vec() };
    match description_from_outcome("p", "ns", &failed) {
        Err(CliError::BaseError { reason }) => assert_eq!(
            reason,
            "Error executing kubectl describe: NotFound.Make sure the pod 'p' exists in namespace 'ns'"
        ),
        other => panic!("unexpected {:?}", other),
    }
    let not_run = CommandOutcome::NotStarted { message: "m".to_string() };
    match description_from_outcome("p", "ns", &not_run) {
        Err(CliError::ClientError { message, .. }) => {
            assert_eq!(message, "Failed to execute the kubectl command ")
        }
        other => panic!("unexpected {:?}", other),
    }
}

#[test]
fn service_rows_of_joined_outputs() {
    let a = "a 1/1 Running 0 1d\nshort\n";
    let b = "b 0/1 Pending 2 3h\n";
    let joined = format!("{}{}", a, b);
    assert_eq!(format_service_rows(&joined), [format_service_rows(a), format_service_rows(b)].concat());
    assert_eq!(format_service_rows(&joined).len(), 2);
}
