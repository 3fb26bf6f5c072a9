//! The `status` command: reading the pod and service listings, and the report
//! in plain text, JSON or YAML.
use vstd::prelude::*;
use crate::report::{
    concat_indexed, lemma_names_text_indexed, lemma_rows_text_indexed, row_text,
    append_names, append_rows, names_text, row_views, rows_text, NameStyle, Row, RowStyle,
};
use crate::errors::CliError;
use crate::runner::CommandOutcome;
use crate::text::{
    chars_of, decode_or, decoded_or, line_bounds, lines, lowercase, repeat_char, repeated,
    same_text, to_lowercase, ascii_lowercase, views, words, words_in, is_word, lemma_words_are_words,
};

verus! {

/// The format the status report is printed in.
#[derive(Debug, Clone, Copy, PartialEq, Eq, Structural)]
pub enum OutputFormat {
    Text,
    Json,
    Yaml,
}

impl OutputFormat {
    /// The format that a lower case name stands for; plain text for any name
    /// but `json` and `yaml`.
    pub open spec fn spec_from_lowercase(name: Seq<char>) -> OutputFormat {
        if name == "json"@ {
            OutputFormat::Json
        } else if name == "yaml"@ {
            OutputFormat::Yaml
        } else {
            OutputFormat::Text
        }
    }

    /// The format that a lower case name stands for.
    pub fn from_lowercase(name: &str) -> (f: OutputFormat)
        ensures
            f == OutputFormat::spec_from_lowercase(name@),
    {
        if same_text(name, "json") {
            OutputFormat::Json
        } else if same_text(name, "yaml") {
            OutputFormat::Yaml
        } else {
            OutputFormat::Text
        }
    }
}

impl From<String> for OutputFormat {
    /// The format named, in any mix of upper and lower case.
    fn from(s: String) -> (f: OutputFormat)
        ensures
            vstd::utf8::is_ascii_chars(s@) ==> f == OutputFormat::spec_from_lowercase(
                ascii_lowercase(s@),
            ),
    {
        let lower = to_lowercase(s.as_str());
        OutputFormat::from_lowercase(lower.as_str())
    }
}

impl vstd::std_specs::convert::FromSpecImpl<String> for OutputFormat {
    open spec fn obeys_from_spec() -> bool {
        true
    }

    open spec fn from_spec(v: String) -> OutputFormat {
        OutputFormat::spec_from_lowercase(lowercase(v@))
    }
}

/// The arguments of the `status` command.
#[derive(Debug, Clone)]
pub struct StatusArgs {
    pub output: Option<String>,
    pub namespace: Option<String>,
}

/// The words of each line, as a value.
pub open spec fn word_lists() -> spec_fn(Seq<char>) -> Seq<Seq<char>> {
    |l: Seq<char>| words(l)
}

/// The test that a line has at least `n` words, as a value.
pub open spec fn at_least(n: nat) -> spec_fn(Seq<Seq<char>>) -> bool {
    |w: Seq<Seq<char>>| w.len() >= n
}

/// The first three words of a line, as a value.
pub open spec fn first_three() -> spec_fn(Seq<Seq<char>>) -> (Seq<char>, Seq<char>, Seq<char>) {
    |w: Seq<Seq<char>>| (w[0], w[1], w[2])
}

/// The first three words of each line of `s` that has at least `min_parts`
/// words, in order.
pub open spec fn status_columns(s: Seq<char>, min_parts: nat) -> Seq<
    (Seq<char>, Seq<char>, Seq<char>),
> {
    lines(s).map_values(word_lists()).filter(at_least(min_parts)).map_values(first_three())
}

/// Every line of `s` that has at least `min_parts` words has three.
pub open spec fn columns_present(s: Seq<char>, min_parts: nat) -> bool {
    forall|i: int|
        0 <= i < lines(s).len() ==> #[trigger] words(lines(s)[i]).len() >= min_parts ==> words(
            lines(s)[i],
        ).len() >= 3
}

/// The first three columns of each line of a listing that has at least
/// `min_parts` columns. A line that had enough columns but fewer than three
/// would have no third column to give: such text is not accepted.
pub fn parse_status_columns(stdout: &str, min_parts: usize) -> (rows: Vec<Row>)
    requires
        columns_present(stdout@, min_parts as nat),
    ensures
        row_views(rows@) == status_columns(stdout@, min_parts as nat),
{
    let chars = chars_of(stdout);
    let bounds = line_bounds(&chars);
    let ghost all = lines(stdout@);
    let mut rows: Vec<Row> = Vec::new();
    let mut j: usize = 0;
    while j < bounds.len()
        invariant
            chars@ == stdout@,
            all == lines(stdout@),
            columns_present(stdout@, min_parts as nat),
            bounds.len() == all.len(),
            j <= bounds.len(),
            forall|k: int|
                0 <= k < bounds.len() ==> (#[trigger] bounds@[k]).0 <= bounds@[k].1 <= chars.len()
                    && chars@.subrange(bounds@[k].0 as int, bounds@[k].1 as int) == all[k],
            row_views(rows@) == all.take(j as int).map_values(word_lists()).filter(
                at_least(min_parts as nat),
            ).map_values(first_three()),
        decreases bounds.len() - j,
    {
        let (a, e) = bounds[j];
        let w = words_in(&chars, a, e);
        let ghost ws = words(all[j as int]);
        assert(views(w@) == ws);
        let ghost before = all.take(j as int).map_values(word_lists());
        assert(all.take(j + 1).map_values(word_lists()) == before.push(ws));
        proof {
            before.lemma_filter_push(ws, at_least(min_parts as nat));
        }
        let ghost kept = before.filter(at_least(min_parts as nat));
        if w.len() >= min_parts {
            assert(words(all[j as int]).len() >= min_parts);
            assert(w.len() >= 3);
            let row: Row = (w[0].clone(), w[1].clone(), w[2].clone());
            let ghost old_rows = rows@;
            rows.push(row);
            assert(row_views(rows@) == row_views(old_rows).push((w@[0]@, w@[1]@, w@[2]@)));
            assert(kept.push(ws).map_values(first_three()) == kept.map_values(first_three()).push(
                first_three()(ws),
            ));
        }
        j = j + 1;
    }
    assert(all.take(bounds.len() as int) == all);
    rows
}

/// The rows that a listing printed, with at least `min_parts` columns: nothing
/// where the listing failed or did not run.
pub open spec fn listed_rows(outcome: CommandOutcome, min_parts: nat) -> Seq<
    (Seq<char>, Seq<char>, Seq<char>),
> {
    match outcome {
        CommandOutcome::Finished { success, stdout, .. } => if success {
            status_columns(decoded_or(stdout@, Seq::empty()), min_parts)
        } else {
            Seq::empty()
        },
        CommandOutcome::NotStarted { .. } => Seq::empty(),
    }
}

fn rows_from_outcome(outcome: &CommandOutcome, min_parts: usize) -> (rows: Vec<Row>)
    requires
        min_parts >= 3,
    ensures
        row_views(rows@) == listed_rows(*outcome, min_parts as nat),
{
    match outcome {
        CommandOutcome::Finished { success, stdout, .. } => {
            if *success {
                let text = decode_or(stdout.as_slice(), "");
                proof {
                    reveal_strlit("");
                }
                parse_status_columns(text.as_str(), min_parts)
            } else {
                let v: Vec<Row> = Vec::new();
                assert(row_views(v@) =~= Seq::empty());
                v
            }
        },
        CommandOutcome::NotStarted { .. } => {
            let v: Vec<Row> = Vec::new();
            assert(row_views(v@) =~= Seq::empty());
            v
        },
    }
}

/// The pods of a pod listing (name, readiness, status), from lines of at least
/// three columns.
pub fn pods_status_from_outcome(outcome: &CommandOutcome) -> (rows: Vec<Row>)
    ensures
        row_views(rows@) == listed_rows(*outcome, 3),
{
    rows_from_outcome(outcome, 3)
}

/// The services of a service listing (name, type, cluster address), from lines
/// of at least four columns.
pub fn services_status_from_outcome(outcome: &CommandOutcome) -> (rows: Vec<Row>)
    ensures
        row_views(rows@) == listed_rows(*outcome, 4),
{
    rows_from_outcome(outcome, 4)
}

/// A line of fifty `=`.
pub open spec fn rule() -> Seq<char> {
    repeated('=', 50)
}

/// How a truth value is printed.
pub open spec fn bool_text(b: bool) -> Seq<char> {
    if b {
        "true"@
    } else {
        "false"@
    }
}

/// The plain text report.
pub open spec fn text_report(
    ns: Seq<char>,
    exists: bool,
    pods: Seq<(Seq<char>, Seq<char>, Seq<char>)>,
    services: Seq<(Seq<char>, Seq<char>, Seq<char>)>,
) -> Seq<char> {
    "\n🔍 CortexFlow Status Report\n"@ + rule() + "\n"@ + "\n📦 Namespace Status:\n"@ + (if exists {
        "  ✅ "@ + ns + " namespace: EXISTS\n"@
    } else {
        "  ❌ "@ + ns + " namespace: NOT FOUND\n"@
    }) + "\n🚀 Pods Status:\n"@ + (if pods.len() == 0 {
        "  ⚠️  No pods found in "@ + ns + " namespace\n"@
    } else {
        rows_text(RowStyle::TextPod, pods)
    }) + "\n🌐 Services Status:\n"@ + (if services.len() == 0 {
        "  ⚠️  No services found in "@ + ns + " namespace\n"@
    } else {
        rows_text(RowStyle::TextService, services)
    }) + "\n"@ + rule() + "\n"@
}

/// The JSON report.
pub open spec fn json_report(
    ns: Seq<char>,
    exists: bool,
    pods: Seq<(Seq<char>, Seq<char>, Seq<char>)>,
    services: Seq<(Seq<char>, Seq<char>, Seq<char>)>,
) -> Seq<char> {
    "{\n"@ + "  \"namespace\": {\n"@ + "    \"name\": \""@ + ns + "\",\n"@ + "    \"exists\": "@
        + bool_text(exists) + "\n"@ + "  },\n"@ + "  \"pods\": [\n"@ + rows_text(
        RowStyle::JsonPod,
        pods,
    ) + "  ],\n"@ + "  \"services\": [\n"@ + rows_text(RowStyle::JsonService, services)
        + "  ]\n"@ + "}\n"@
}

/// The YAML report.
pub open spec fn yaml_report(
    ns: Seq<char>,
    exists: bool,
    pods: Seq<(Seq<char>, Seq<char>, Seq<char>)>,
    services: Seq<(Seq<char>, Seq<char>, Seq<char>)>,
) -> Seq<char> {
    "namespace:\n"@ + "  name: "@ + ns + "\n"@ + "  exists: "@ + bool_text(exists) + "\n"@
        + "pods:\n"@ + rows_text(RowStyle::YamlPod, pods) + "services:\n"@ + rows_text(
        RowStyle::YamlService,
        services,
    )
}

/// The plain text status report of a namespace, its pods and its services.
pub fn display_text_format(ns: &str, namespace_exists: bool, pods: Vec<Row>, services: Vec<Row>) -> (out:
    String)
    ensures
        out@ == text_report(ns@, namespace_exists, row_views(pods@), row_views(services@)),
{
    let rule = repeat_char('=', 50);
    let mut out = String::new();
    out.append("\n🔍 CortexFlow Status Report\n");
    out.append(rule.as_str());
    out.append("\n");
    out.append("\n📦 Namespace Status:\n");
    if namespace_exists {
        out.append("  ✅ ");
        out.append(ns);
        out.append(" namespace: EXISTS\n");
    } else {
        out.append("  ❌ ");
        out.append(ns);
        out.append(" namespace: NOT FOUND\n");
    }
    out.append("\n🚀 Pods Status:\n");
    if pods.len() == 0 {
        out.append("  ⚠️  No pods found in ");
        out.append(ns);
        out.append(" namespace\n");
    } else {
        append_rows(&mut out, RowStyle::TextPod, &pods);
    }
    out.append("\n🌐 Services Status:\n");
    if services.len() == 0 {
        out.append("  ⚠️  No services found in ");
        out.append(ns);
        out.append(" namespace\n");
    } else {
        append_rows(&mut out, RowStyle::TextService, &services);
    }
    out.append("\n");
    out.append(rule.as_str());
    out.append("\n");
    out
}

fn bool_text_of(b: bool) -> (s: &'static str)
    ensures
        s@ == bool_text(b),
{
    if b {
        "true"
    } else {
        "false"
    }
}

/// The JSON status report of a namespace, its pods and its services.
pub fn display_json_format(ns: &str, namespace_exists: bool, pods: Vec<Row>, services: Vec<Row>) -> (out:
    String)
    ensures
        out@ == json_report(ns@, namespace_exists, row_views(pods@), row_views(services@)),
{
    let mut out = String::new();
    out.append("{\n");
    out.append("  \"namespace\": {\n");
    out.append("    \"name\": \"");
    out.append(ns);
    out.append("\",\n");
    out.append("    \"exists\": ");
    out.append(bool_text_of(namespace_exists));
    out.append("\n");
    out.append("  },\n");
    out.append("  \"pods\": [\n");
    append_rows(&mut out, RowStyle::JsonPod, &pods);
    out.append("  ],\n");
    out.append("  \"services\": [\n");
    append_rows(&mut out, RowStyle::JsonService, &services);
    out.append("  ]\n");
    out.append("}\n");
    out
}

/// The YAML status report of a namespace, its pods and its services.
pub fn display_yaml_format(ns: &str, namespace_exists: bool, pods: Vec<Row>, services: Vec<Row>) -> (out:
    String)
    ensures
        out@ == yaml_report(ns@, namespace_exists, row_views(pods@), row_views(services@)),
{
    let mut out = String::new();
    out.append("namespace:\n");
    out.append("  name: ");
    out.append(ns);
    out.append("\n");
    out.append("  exists: ");
    out.append(bool_text_of(namespace_exists));
    out.append("\n");
    out.append("pods:\n");
    append_rows(&mut out, RowStyle::YamlPod, &pods);
    out.append("services:\n");
    append_rows(&mut out, RowStyle::YamlService, &services);
    out
}

/// What is printed when the namespace asked about does not exist.
pub open spec fn missing_namespace_report(
    format: OutputFormat,
    ns: Seq<char>,
    available: Seq<Seq<char>>,
) -> Seq<char> {
    match format {
        OutputFormat::Text => "\n❌ Namespace Status Check Failed\n"@ + rule() + "\n"@ + "  ❌ "@
            + ns + " namespace: NOT FOUND\n"@ + (if available.len() == 0 {
            Seq::empty()
        } else {
            "\n📋 Available namespaces:\n"@ + names_text(NameStyle::Bullet, available)
        }),
        OutputFormat::Json => "{\n"@ + "  \"error\": \""@ + ns + " namespace not found\",\n"@
            + "  \"namespace\": {\n"@ + "    \"name\": \""@ + ns + "\",\n"@
            + "    \"exists\": false\n"@ + "  },\n"@ + "  \"available_namespaces\": [\n"@
            + names_text(NameStyle::JsonQuoted, available) + "  ]\n"@ + "}\n"@,
        OutputFormat::Yaml => "error: "@ + ns + " namespace not found\n"@ + "namespace:\n"@
            + "  name: "@ + ns + "\n"@ + "  exists: false\n"@ + "available_namespaces:\n"@
            + names_text(NameStyle::YamlItem, available),
    }
}

/// What is printed when the namespace asked about does not exist, with the
/// namespaces that do.
pub fn display_missing_namespace(format: OutputFormat, ns: &str, available: &Vec<String>) -> (out:
    String)
    ensures
        out@ == missing_namespace_report(format, ns@, views(available@)),
{
    let mut out = String::new();
    match format {
        OutputFormat::Text => {
            let rule = repeat_char('=', 50);
            out.append("\n❌ Namespace Status Check Failed\n");
            out.append(rule.as_str());
            out.append("\n");
            out.append("  ❌ ");
            out.append(ns);
            out.append(" namespace: NOT FOUND\n");
            if available.len() > 0 {
                out.append("\n📋 Available namespaces:\n");
                append_names(&mut out, NameStyle::Bullet, available);
            }
        },
        OutputFormat::Json => {
            out.append("{\n");
            out.append("  \"error\": \"");
            out.append(ns);
            out.append(" namespace not found\",\n");
            out.append("  \"namespace\": {\n");
            out.append("    \"name\": \"");
            out.append(ns);
            out.append("\",\n");
            out.append("    \"exists\": false\n");
            out.append("  },\n");
            out.append("  \"available_namespaces\": [\n");
            append_names(&mut out, NameStyle::JsonQuoted, available);
            out.append("  ]\n");
            out.append("}\n");
        },
        OutputFormat::Yaml => {
            out.append("error: ");
            out.append(ns);
            out.append(" namespace not found\n");
            out.append("namespace:\n");
            out.append("  name: ");
            out.append(ns);
            out.append("\n");
            out.append("  exists: false\n");
            out.append("available_namespaces:\n");
            append_names(&mut out, NameStyle::YamlItem, available);
        },
    }
    out
}

/// The report of a namespace in the format asked for.
pub open spec fn status_report(
    format: OutputFormat,
    ns: Seq<char>,
    exists: bool,
    pods: Seq<(Seq<char>, Seq<char>, Seq<char>)>,
    services: Seq<(Seq<char>, Seq<char>, Seq<char>)>,
) -> Seq<char> {
    match format {
        OutputFormat::Text => text_report(ns, exists, pods, services),
        OutputFormat::Json => json_report(ns, exists, pods, services),
        OutputFormat::Yaml => yaml_report(ns, exists, pods, services),
    }
}

/// All that the `status` command prints after its heading: the report where
/// the namespace exists; where it does not, the notice with the namespaces
/// that do, and nothing of pods or services.
pub open spec fn status_output(
    format: OutputFormat,
    ns: Seq<char>,
    exists: bool,
    available: Seq<Seq<char>>,
    pods: Seq<(Seq<char>, Seq<char>, Seq<char>)>,
    services: Seq<(Seq<char>, Seq<char>, Seq<char>)>,
) -> Seq<char> {
    if exists {
        status_report(format, ns, exists, pods, services)
    } else {
        missing_namespace_report(format, ns, available)
    }
}

/// All that the `status` command prints after its heading.
pub fn status_text(
    format: OutputFormat,
    ns: &str,
    namespace_exists: bool,
    available: &Vec<String>,
    pods: Vec<Row>,
    services: Vec<Row>,
) -> (out: String)
    ensures
        out@ == status_output(
            format,
            ns@,
            namespace_exists,
            views(available@),
            row_views(pods@),
            row_views(services@),
        ),
{
    if !namespace_exists {
        return display_missing_namespace(format, ns, available);
    }
    match format {
        OutputFormat::Text => display_text_format(ns, namespace_exists, pods, services),
        OutputFormat::Json => display_json_format(ns, namespace_exists, pods, services),
        OutputFormat::Yaml => display_yaml_format(ns, namespace_exists, pods, services),
    }
}

/// The error the `status` command ends with when the namespace does not exist.
pub fn namespace_missing_error(ns: &str) -> (e: CliError)
    ensures
        e matches CliError::BaseError { reason } && reason@ == "Namespace '"@ + ns@
            + "' not found"@,
{
    let mut reason = "Namespace '".to_owned();
    reason.append(ns);
    reason.append("' not found");
    CliError::BaseError { reason }
}

/// The arguments that list the pods of a namespace with their status.
pub fn pods_status_args(namespace: &str) -> (args: Vec<String>)
    ensures
        views(args@) == seq!["get"@, "pods"@, "-n"@, namespace@, "--no-headers"@],
{
    let args = vec![
        "get".to_owned(),
        "pods".to_owned(),
        "-n".to_owned(),
        namespace.to_owned(),
        "--no-headers".to_owned(),
    ];
    assert(views(args@) =~= seq!["get"@, "pods"@, "-n"@, namespace@, "--no-headers"@]);
    args
}

/// The arguments that list the services of a namespace.
pub fn services_status_args(namespace: &str) -> (args: Vec<String>)
    ensures
        views(args@) == seq!["get"@, "services"@, "-n"@, namespace@, "--no-headers"@],
{
    let args = vec![
        "get".to_owned(),
        "services".to_owned(),
        "-n".to_owned(),
        namespace.to_owned(),
        "--no-headers".to_owned(),
    ];
    assert(views(args@) =~= seq!["get"@, "services"@, "-n"@, namespace@, "--no-headers"@]);
    args
}

/// Each of the three columns that the status listing reads from a line is a
/// word of that line: not empty, and without white space.
pub proof fn lemma_status_columns_are_words(s: Seq<char>, min_parts: nat)
    requires
        columns_present(s, min_parts),
    ensures
        forall|i: int|
            0 <= i < status_columns(s, min_parts).len() ==> {
                let row = #[trigger] status_columns(s, min_parts)[i];
                is_word(row.0) && is_word(row.1) && is_word(row.2)
            },
{
    let listed = lines(s).map_values(word_lists());
    let kept = listed.filter(at_least(min_parts));
    assert forall|i: int| 0 <= i < status_columns(s, min_parts).len() implies {
        let row = #[trigger] status_columns(s, min_parts)[i];
        is_word(row.0) && is_word(row.1) && is_word(row.2)
    } by {
        let w = kept[i];
        listed.lemma_filter_pred(at_least(min_parts), i);
        assert(kept.contains(w));
        listed.lemma_filter_contains_rev(at_least(min_parts), w);
        let j = choose|j: int| 0 <= j < listed.len() && listed[j] == w;
        assert(w == words(lines(s)[j]));
        assert(words(lines(s)[j]).len() >= min_parts);
        assert(w.len() >= 3);
        lemma_words_are_words(lines(s)[j]);
        assert(is_word(w[0]) && is_word(w[1]) && is_word(w[2]));
    }
}

/// The format of the report is the one named, plain text where none is.
pub fn output_format_or_default(output: Option<String>) -> (f: OutputFormat)
    ensures
        match output {
            Some(name) => f == OutputFormat::spec_from_lowercase(lowercase(name@)),
            None => f == OutputFormat::Text,
        },
{
    match output {
        Some(name) => OutputFormat::from(name),
        None => OutputFormat::Text,
    }
}

/// Keeping the lists of at least `m2` words out of those of at least `m1`
/// keeps the same lists as keeping those of at least `m2` at once, when
/// `m1 <= m2`.
pub proof fn lemma_at_least_twice(x: Seq<Seq<Seq<char>>>, m1: nat, m2: nat)
    requires
        m1 <= m2,
    ensures
        x.filter(at_least(m2)) == x.filter(at_least(m1)).filter(at_least(m2)),
    decreases x.len(),
{
    if x.len() > 0 {
        let front = x.drop_last();
        let w = x.last();
        lemma_at_least_twice(front, m1, m2);
        assert(x == front.push(w));
        front.lemma_filter_push(w, at_least(m1));
        front.lemma_filter_push(w, at_least(m2));
        front.filter(at_least(m1)).lemma_filter_push(w, at_least(m2));
    } else {
        assert(x.filter(at_least(m2)) =~= Seq::<Seq<Seq<char>>>::empty()) by {
            x.lemma_filter_len(at_least(m2));
        }
        assert(x.filter(at_least(m1)) =~= Seq::<Seq<Seq<char>>>::empty()) by {
            x.lemma_filter_len(at_least(m1));
        }
        x.filter(at_least(m1)).lemma_filter_len(at_least(m2));
    }
}

/// Raising the number of columns a line must have only drops rows: the rows
/// kept at threshold `m2` are those kept at `m1` whose lines have at least
/// `m2` words, in the same order, and there are no more of them.
pub proof fn lemma_status_columns_threshold(s: Seq<char>, m1: nat, m2: nat)
    requires
        m1 <= m2,
    ensures
        ({
            let kept = lines(s).map_values(word_lists()).filter(at_least(m1));
            &&& status_columns(s, m1) == kept.map_values(first_three())
            &&& status_columns(s, m2) == kept.filter(at_least(m2)).map_values(first_three())
        }),
        status_columns(s, m2).len() <= status_columns(s, m1).len(),
{
    let listed = lines(s).map_values(word_lists());
    lemma_at_least_twice(listed, m1, m2);
    listed.filter(at_least(m1)).lemma_filter_len(at_least(m2));
}

/// How the plain text report prints its `i`-th pod: a check mark for a running
/// pod and a warning sign otherwise, then name, status, and readiness in
/// brackets.
pub open spec fn text_pod_line(pods: Seq<(Seq<char>, Seq<char>, Seq<char>)>) -> spec_fn(int) -> Seq<
    char,
> {
    |i: int|
        "  "@ + (if pods[i].2 == "Running"@ {
            "✅"@
        } else {
            "⚠️"@
        }) + " "@ + pods[i].0 + ": "@ + pods[i].2 + " ("@ + pods[i].1 + ")\n"@
}

/// How the plain text report prints its `i`-th service: name, type, and
/// cluster address in brackets.
pub open spec fn text_service_line(services: Seq<(Seq<char>, Seq<char>, Seq<char>)>) -> spec_fn(
    int,
) -> Seq<char> {
    |i: int| "  🔗 "@ + services[i].0 + ": "@ + services[i].1 + " ("@ + services[i].2 + ")\n"@
}

/// The plain text report: a heading, whether the namespace exists, one line
/// for each pod and one for each service, all three columns of each, in the
/// given order.
pub proof fn lemma_text_report_lists_every_row(
    ns: Seq<char>,
    exists: bool,
    pods: Seq<(Seq<char>, Seq<char>, Seq<char>)>,
    services: Seq<(Seq<char>, Seq<char>, Seq<char>)>,
)
    ensures
        text_report(ns, exists, pods, services) == "\n🔍 CortexFlow Status Report\n"@ + repeated(
            '=',
            50,
        ) + "\n"@ + "\n📦 Namespace Status:\n"@ + (if exists {
            "  ✅ "@ + ns + " namespace: EXISTS\n"@
        } else {
            "  ❌ "@ + ns + " namespace: NOT FOUND\n"@
        }) + "\n🚀 Pods Status:\n"@ + (if pods.len() == 0 {
            "  ⚠️  No pods found in "@ + ns + " namespace\n"@
        } else {
            concat_indexed(pods.len(), text_pod_line(pods))
        }) + "\n🌐 Services Status:\n"@ + (if services.len() == 0 {
            "  ⚠️  No services found in "@ + ns + " namespace\n"@
        } else {
            concat_indexed(services.len(), text_service_line(services))
        }) + "\n"@ + repeated('=', 50) + "\n"@,
{
    lemma_rows_text_indexed(RowStyle::TextPod, pods, text_pod_line(pods));
    lemma_rows_text_indexed(RowStyle::TextService, services, text_service_line(services));
}

/// How the JSON report prints its `i`-th pod: an object with the pod's name,
/// readiness and status, closed by `},` where another pod follows and by `}`
/// after the last.
pub open spec fn json_pod_entry(pods: Seq<(Seq<char>, Seq<char>, Seq<char>)>) -> spec_fn(int) -> Seq<
    char,
> {
    |i: int|
        "    {\n"@ + "      \"name\": \""@ + pods[i].0 + "\",\n"@ + "      \"ready\": \""@ + pods[i].1
            + "\",\n"@ + "      \"status\": \""@ + pods[i].2 + "\"\n"@ + (if i + 1 < pods.len() {
            "    },\n"@
        } else {
            "    }\n"@
        })
}

/// How the JSON report prints its `i`-th service: an object with the
/// service's name, type and cluster address, closed by `},` where another
/// service follows and by `}` after the last.
pub open spec fn json_service_entry(services: Seq<(Seq<char>, Seq<char>, Seq<char>)>) -> spec_fn(
    int,
) -> Seq<char> {
    |i: int|
        "    {\n"@ + "      \"name\": \""@ + services[i].0 + "\",\n"@ + "      \"type\": \""@
            + services[i].1 + "\",\n"@ + "      \"cluster_ip\": \""@ + services[i].2 + "\"\n"@ + (if i
            + 1 < services.len() {
            "    },\n"@
        } else {
            "    }\n"@
        })
}

proof fn lemma_entry_closings()
    ensures
        "    }"@ + ","@ + "\n"@ == "    },\n"@,
        "    }"@ + ""@ + "\n"@ == "    }\n"@,
{
    reveal_strlit("    }");
    reveal_strlit(",");
    reveal_strlit("");
    reveal_strlit("\n");
    reveal_strlit("    },\n");
    reveal_strlit("    }\n");
    assert("    }"@ + ","@ + "\n"@ =~= "    },\n"@);
    assert("    }"@ + ""@ + "\n"@ =~= "    }\n"@);
}

/// The JSON report: the namespace's name and whether it exists, then the pods
/// and the services as arrays with one object per row, in order, the objects
/// of an array separated by commas and the last one without.
pub proof fn lemma_json_report_entries(
    ns: Seq<char>,
    exists: bool,
    pods: Seq<(Seq<char>, Seq<char>, Seq<char>)>,
    services: Seq<(Seq<char>, Seq<char>, Seq<char>)>,
)
    ensures
        json_report(ns, exists, pods, services) == "{\n"@ + "  \"namespace\": {\n"@
            + "    \"name\": \""@ + ns + "\",\n"@ + "    \"exists\": "@ + (if exists {
            "true"@
        } else {
            "false"@
        }) + "\n"@ + "  },\n"@ + "  \"pods\": [\n"@ + concat_indexed(pods.len(), json_pod_entry(pods))
            + "  ],\n"@ + "  \"services\": [\n"@ + concat_indexed(
            services.len(),
            json_service_entry(services),
        ) + "  ]\n"@ + "}\n"@,
{
    lemma_entry_closings();
    assert forall|i: int| 0 <= i < pods.len() implies #[trigger] json_pod_entry(pods)(i) == row_text(
        RowStyle::JsonPod,
        pods[i],
        i + 1 < pods.len(),
    ) by {
        let head = "    {\n"@ + "      \"name\": \""@ + pods[i].0 + "\",\n"@ + "      \"ready\": \""@
            + pods[i].1 + "\",\n"@ + "      \"status\": \""@ + pods[i].2 + "\"\n"@;
        let more = i + 1 < pods.len();
        assert(row_text(RowStyle::JsonPod, pods[i], more) =~= head + ("    }"@ + crate::report::comma(
            more,
        ) + "\n"@));
    }
    lemma_rows_text_indexed(RowStyle::JsonPod, pods, json_pod_entry(pods));
    assert forall|i: int| 0 <= i < services.len() implies #[trigger] json_service_entry(services)(i)
        == row_text(RowStyle::JsonService, services[i], i + 1 < services.len()) by {
        let head = "    {\n"@ + "      \"name\": \""@ + services[i].0 + "\",\n"@ + "      \"type\": \""@
            + services[i].1 + "\",\n"@ + "      \"cluster_ip\": \""@ + services[i].2 + "\"\n"@;
        let more = i + 1 < services.len();
        assert(row_text(RowStyle::JsonService, services[i], more) =~= head + ("    }"@
            + crate::report::comma(more) + "\n"@));
    }
    lemma_rows_text_indexed(RowStyle::JsonService, services, json_service_entry(services));
}

/// How the YAML report prints its `i`-th pod.
pub open spec fn yaml_pod_entry(pods: Seq<(Seq<char>, Seq<char>, Seq<char>)>) -> spec_fn(int) -> Seq<
    char,
> {
    |i: int|
        "  - name: "@ + pods[i].0 + "\n"@ + "    ready: "@ + pods[i].1 + "\n"@ + "    status: "@
            + pods[i].2 + "\n"@
}

/// How the YAML report prints its `i`-th service.
pub open spec fn yaml_service_entry(services: Seq<(Seq<char>, Seq<char>, Seq<char>)>) -> spec_fn(
    int,
) -> Seq<char> {
    |i: int|
        "  - name: "@ + services[i].0 + "\n"@ + "    type: "@ + services[i].1 + "\n"@
            + "    cluster_ip: "@ + services[i].2 + "\n"@
}

/// The YAML report: the namespace's name, `exists: true` exactly when the
/// namespace exists and `exists: false` otherwise, then one item per pod and
/// one per service, all three columns of each, in order.
pub proof fn lemma_yaml_report_entries(
    ns: Seq<char>,
    exists: bool,
    pods: Seq<(Seq<char>, Seq<char>, Seq<char>)>,
    services: Seq<(Seq<char>, Seq<char>, Seq<char>)>,
)
    ensures
        yaml_report(ns, exists, pods, services) == "namespace:\n"@ + "  name: "@ + ns + "\n"@
            + "  exists: "@ + (if exists {
            "true"@
        } else {
            "false"@
        }) + "\n"@ + "pods:\n"@ + concat_indexed(pods.len(), yaml_pod_entry(pods)) + "services:\n"@
            + concat_indexed(services.len(), yaml_service_entry(services)),
{
    lemma_rows_text_indexed(RowStyle::YamlPod, pods, yaml_pod_entry(pods));
    lemma_rows_text_indexed(RowStyle::YamlService, services, yaml_service_entry(services));
}

/// The line of the `i`-th available namespace in a plain text list.
pub open spec fn bullet_line(names: Seq<Seq<char>>) -> spec_fn(int) -> Seq<char> {
    |i: int| "  • "@ + names[i] + "\n"@
}

/// The line of the `i`-th available namespace in a JSON array: the name in
/// quotes, followed by a comma where another name follows.
pub open spec fn json_name_line(names: Seq<Seq<char>>) -> spec_fn(int) -> Seq<char> {
    |i: int| "    \""@ + names[i] + "\""@ + (if i + 1 < names.len() {
        ","@
    } else {
        ""@
    }) + "\n"@
}

/// The line of the `i`-th available namespace in a YAML list.
pub open spec fn yaml_name_line(names: Seq<Seq<char>>) -> spec_fn(int) -> Seq<char> {
    |i: int| "  - "@ + names[i] + "\n"@
}

/// The report of a missing namespace lists every namespace that exists, in
/// the given order, one line each, in each format.
pub proof fn lemma_missing_namespace_report_lists_every_namespace(
    format: OutputFormat,
    ns: Seq<char>,
    available: Seq<Seq<char>>,
)
    ensures
        missing_namespace_report(format, ns, available) == match format {
            OutputFormat::Text => "\n❌ Namespace Status Check Failed\n"@ + repeated('=', 50) + "\n"@
                + "  ❌ "@ + ns + " namespace: NOT FOUND\n"@ + (if available.len() == 0 {
                Seq::empty()
            } else {
                "\n📋 Available namespaces:\n"@ + concat_indexed(available.len(), bullet_line(available))
            }),
            OutputFormat::Json => "{\n"@ + "  \"error\": \""@ + ns + " namespace not found\",\n"@
                + "  \"namespace\": {\n"@ + "    \"name\": \""@ + ns + "\",\n"@
                + "    \"exists\": false\n"@ + "  },\n"@ + "  \"available_namespaces\": [\n"@
                + concat_indexed(available.len(), json_name_line(available)) + "  ]\n"@ + "}\n"@,
            OutputFormat::Yaml => "error: "@ + ns + " namespace not found\n"@ + "namespace:\n"@
                + "  name: "@ + ns + "\n"@ + "  exists: false\n"@ + "available_namespaces:\n"@
                + concat_indexed(available.len(), yaml_name_line(available)),
        },
{
    lemma_names_text_indexed(NameStyle::Bullet, available, bullet_line(available));
    lemma_names_text_indexed(NameStyle::JsonQuoted, available, json_name_line(available));
    lemma_names_text_indexed(NameStyle::YamlItem, available, yaml_name_line(available));
}

} // verus!
