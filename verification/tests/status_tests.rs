use cortexflow_cli::runner::CommandOutcome;
use cortexflow_cli::status::{
    display_json_format, display_missing_namespace, display_text_format, display_yaml_format,
    namespace_missing_error, parse_status_columns, pods_status_args, pods_status_from_outcome,
    services_status_args, services_status_from_outcome, status_text,
    OutputFormat,
};

fn row(a: &str, b: &str, c: &str) -> (String, String, String) {
    (a.to_string(), b.to_string(), c.to_string())
}

#[test]
fn test_output_format_from_json() {
    assert!(matches!(OutputFormat::from("json".to_string()), OutputFormat::Json));
    assert!(matches!(OutputFormat::from("JSON".to_string()), OutputFormat::Json));
}

#[test]
fn test_output_format_from_yaml() {
    assert!(matches!(OutputFormat::from("yaml".to_string()), OutputFormat::Yaml));
}

#[test]
fn test_output_format_from_defaults_to_text() {
    assert!(matches!(OutputFormat::from("unknown".to_string()), OutputFormat::Text));
}

#[test]
fn test_parse_status_columns_pods() {
    let stdout = "pod-a   1/1   Running\npod-b   0/1   Pending\n";
    let parsed = parse_status_columns(stdout, 3);
    assert_eq!(
        parsed,
        vec![
            ("pod-a".to_string(), "1/1".to_string(), "Running".to_string()),
            ("pod-b".to_string(), "0/1".to_string(), "Pending".to_string()),
        ]
    );
}

#[test]
fn test_parse_status_columns_services() {
    let stdout = "svc-a   ClusterIP   10.0.0.1   443/TCP\n";
    let parsed = parse_status_columns(stdout, 4);
    assert_eq!(parsed, vec![("svc-a".to_string(), "ClusterIP".to_string(), "10.0.0.1".to_string())]);
}

#[test]
fn test_parse_status_columns_skips_short_lines() {
    let stdout = "only-one-column\n";
    assert!(parse_status_columns(stdout, 3).is_empty());
}

#[test]
fn test_parse_status_columns_empty_input() {
    assert!(parse_status_columns("", 3).is_empty());
}

#[test]
fn status_rows_from_listing_outcomes() {
    let pods = CommandOutcome::Finished {
        success: true,
        stdout: b"p 1/1 Running 0 1d\nshort\n".to_vec(),
        stderr: Vec::new(),
    };
    assert_eq!(pods_status_from_outcome(&pods), vec![row("p", "1/1", "Running")]);
    let services = CommandOutcome::Finished {
        success: true,
        stdout: b"s ClusterIP 10.0.0.2\nt NodePort 10.0.0.3 80/TCP\n".to_vec(),
        stderr: Vec::new(),
    };
    assert_eq!(services_status_from_outcome(&services), vec![row("t", "NodePort", "10.0.0.3")]);
    let failed = CommandOutcome::Finished { success: false, stdout: b"p a b".to_vec(), stderr: Vec::new() };
    assert!(pods_status_from_outcome(&failed).is_empty());
    let not_run = CommandOutcome::NotStarted { message: "x".to_string() };
    assert!(services_status_from_outcome(&not_run).is_empty());
}

#[test]
fn test_display_text_format_does_not_panic() {
    let out = display_text_format(
        "cortexflow",
        true,
        vec![("pod-a".to_string(), "1/1".to_string(), "Running".to_string())],
        vec![("svc-a".to_string(), "ClusterIP".to_string(), "10.0.0.1".to_string())],
    );
    println!("{}", out);
}

#[test]
fn test_display_json_format_does_not_panic() {
    let out = display_json_format("cortexflow", false, Vec::new(), Vec::new());
    println!("{}", out);
}

#[test]
fn test_display_yaml_format_does_not_panic() {
    let out = display_yaml_format("cortexflow", false, Vec::new(), Vec::new());
    println!("{}", out);
}

#[test]
fn text_report_exact() {
    let out = display_text_format(
        "ns",
        true,
        vec![row("pod-a", "1/1", "Running"), row("pod-b", "0/1", "Pending")],
        Vec::new(),
    );
    let rule = "=".repeat(50);
    let expected = format!(
        "\n🔍 CortexFlow Status Report\n{rule}\n\n📦 Namespace Status:\n  ✅ ns namespace: EXISTS\n\n🚀 Pods Status:\n  ✅ pod-a: Running (1/1)\n  ⚠️ pod-b: Pending (0/1)\n\n🌐 Services Status:\n  ⚠️  No services found in ns namespace\n\n{rule}\n"
    );
    assert_eq!(out, expected);
}

#[test]
fn json_report_puts_commas_between_entries() {
    let out = display_json_format(
        "ns",
        true,
        vec![row("a", "1/1", "Running"), row("b", "0/1", "Pending")],
        vec![row("s", "ClusterIP", "10.0.0.1")],
    );
    let expected = "{\n  \"namespace\": {\n    \"name\": \"ns\",\n    \"exists\": true\n  },\n  \"pods\": [\n    {\n      \"name\": \"a\",\n      \"ready\": \"1/1\",\n      \"status\": \"Running\"\n    },\n    {\n      \"name\": \"b\",\n      \"ready\": \"0/1\",\n      \"status\": \"Pending\"\n    }\n  ],\n  \"services\": [\n    {\n      \"name\": \"s\",\n      \"type\": \"ClusterIP\",\n      \"cluster_ip\": \"10.0.0.1\"\n    }\n  ]\n}\n";
    assert_eq!(out, expected);
}

#[test]
fn yaml_report_exact() {
    let out = display_yaml_format("ns", false, vec![row("a", "1/1", "Running")], vec![row("s", "ClusterIP", "10.0.0.1")]);
    let expected = "namespace:\n  name: ns\n  exists: false\npods:\n  - name: a\n    ready: 1/1\n    status: Running\nservices:\n  - name: s\n    type: ClusterIP\n    cluster_ip: 10.0.0.1\n";
    assert_eq!(out, expected);
}

#[test]
fn missing_namespace_in_each_format() {
    let available = vec!["a".to_string(), "b".to_string()];
    let json = display_missing_namespace(OutputFormat::Json, "ns", &available);
    assert_eq!(
        json,
        "{\n  \"error\": \"ns namespace not found\",\n  \"namespace\": {\n    \"name\": \"ns\",\n    \"exists\": false\n  },\n  \"available_namespaces\": [\n    \"a\",\n    \"b\"\n  ]\n}\n"
    );
    let yaml = display_missing_namespace(OutputFormat::Yaml, "ns", &available);
    assert_eq!(yaml, "error: ns namespace not found\nnamespace:\n  name: ns\n  exists: false\navailable_namespaces:\n  - a\n  - b\n");
    let text = display_missing_namespace(OutputFormat::Text, "ns", &Vec::new());
    assert_eq!(text, format!("\n❌ Namespace Status Check Failed\n{}\n  ❌ ns namespace: NOT FOUND\n", "=".repeat(50)));
}

#[test]
fn status_text_is_the_notice_alone_when_missing() {
    let found = status_text(OutputFormat::Yaml, "ns", true, &vec!["x".to_string()], Vec::new(), Vec::new());
    assert_eq!(found, display_yaml_format("ns", true, Vec::new(), Vec::new()));
    let available = vec!["x".to_string()];
    let missing = status_text(
        OutputFormat::Yaml,
        "ns",
        false,
        &available,
        vec![row("p", "1/1", "Running")],
        vec![row("s", "ClusterIP", "10.0.0.1")],
    );
    assert_eq!(missing, display_missing_namespace(OutputFormat::Yaml, "ns", &available));
    assert!(!missing.contains("pods:"));
}

#[test]
fn missing_namespace_error_names_it() {
    match namespace_missing_error("ns") {
        cortexflow_cli::errors::CliError::BaseError { reason } => assert_eq!(reason, "Namespace 'ns' not found"),
        other => panic!("unexpected {:?}", other),
    }
}

#[test]
fn status_listing_arguments() {
    assert_eq!(pods_status_args("ns"), vec!["get", "pods", "-n", "ns", "--no-headers"]);
    assert_eq!(services_status_args("ns"), vec!["get", "services", "-n", "ns", "--no-headers"]);
}

#[test]
fn raising_the_column_threshold_only_drops_rows() {
    let stdout = "a 1 2\nb 1 2 3\nc 1 2 3 4\n";
    let three = parse_status_columns(stdout, 3);
    let four = parse_status_columns(stdout, 4);
    let five = parse_status_columns(stdout, 5);
    assert_eq!(three, vec![row("a", "1", "2"), row("b", "1", "2"), row("c", "1", "2")]);
    assert_eq!(four, vec![row("b", "1", "2"), row("c", "1", "2")]);
    assert_eq!(five, vec![row("c", "1", "2")]);
}
