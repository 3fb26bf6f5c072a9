//! The `logs` command: which pods to read, and what the cluster tool's answers mean.
use vstd::prelude::*;
use crate::errors::CliError;
use crate::report::{append_names, concat_indexed, lemma_names_text_indexed, names_text, NameStyle};
use crate::status::{bullet_line, rule};
use crate::runner::{ran_once, CommandOutcome, CommandRunner};
use crate::text::{
    chars_of, debug_quoted, debug_text, decode_or, decoded_or, is_white_space, repeat_char, trim_text, joined, line_bounds, lines, lowercase, lemma_final_line_feed_adds_no_line, lemma_lines_after_line_feed,
    lemma_decode_concatenation, lemma_decode_final_line_feed, non_empty,
    same_text, string_of, to_lowercase, ascii_lowercase, trim, trim_bounds, trimming, views,
};
use crate::BASE_COMMAND;
use vstd::utf8::{decode_utf8, valid_utf8};

verus! {

/// The namespace that commands look in when none is given.
pub const DEFAULT_NAMESPACE: &'static str = "cortexflow";

/// The namespace given, or the default one.
pub fn namespace_or_default(namespace: Option<String>) -> (ns: String)
    ensures
        namespace matches Some(n) ==> ns@ == n@,
        namespace is None ==> ns@ == DEFAULT_NAMESPACE@,
{
    match namespace {
        Some(n) => n,
        None => DEFAULT_NAMESPACE.to_owned(),
    }
}

/// The arguments of the `logs` command.
#[derive(Debug, Clone)]
pub struct LogsArgs {
    pub service: Option<String>,
    pub component: Option<String>,
    pub namespace: Option<String>,
}

/// A part of the CortexFlow installation, which its pods carry as a label.
#[derive(Debug, Clone, Copy, PartialEq, Eq, Structural)]
pub enum Component {
    ControlPlane,
    DataPlane,
}

impl Component {
    /// The component that a lower case name stands for; any name but the two
    /// known ones stands for the control plane.
    pub open spec fn spec_from_lowercase(name: Seq<char>) -> Component {
        if name == "control-plane"@ {
            Component::ControlPlane
        } else if name == "data-plane"@ {
            Component::DataPlane
        } else {
            Component::ControlPlane
        }
    }

    /// The component that a lower case name stands for.
    pub fn from_lowercase(name: &str) -> (c: Component)
        ensures
            c == Component::spec_from_lowercase(name@),
    {
        if same_text(name, "control-plane") {
            Component::ControlPlane
        } else if same_text(name, "data-plane") {
            Component::DataPlane
        } else {
            Component::ControlPlane
        }
    }

    pub open spec fn spec_label_selector(self) -> Seq<char> {
        match self {
            Component::ControlPlane => "component=control-plane"@,
            Component::DataPlane => "component=data-plane"@,
        }
    }

    /// The label selector that picks the component's pods.
    pub fn to_label_selector(&self) -> (s: &'static str)
        ensures
            s@ == self.spec_label_selector(),
    {
        match self {
            Component::ControlPlane => "component=control-plane",
            Component::DataPlane => "component=data-plane",
        }
    }
}

impl From<String> for Component {
    /// The component named, in any mix of upper and lower case.
    fn from(s: String) -> (c: Component)
        ensures
            vstd::utf8::is_ascii_chars(s@) ==> c == Component::spec_from_lowercase(
                ascii_lowercase(s@),
            ),
    {
        let lower = to_lowercase(s.as_str());
        Component::from_lowercase(lower.as_str())
    }
}

impl vstd::std_specs::convert::FromSpecImpl<String> for Component {
    open spec fn obeys_from_spec() -> bool {
        true
    }

    open spec fn from_spec(v: String) -> Component {
        Component::spec_from_lowercase(lowercase(v@))
    }
}

/// The lines of a text that hold more than white space, trimmed.
pub open spec fn non_blank_lines(s: Seq<char>) -> Seq<Seq<char>> {
    lines(s).map_values(trimming()).filter(non_empty())
}

/// Whether a text is not empty and neither starts nor ends with white space.
pub open spec fn is_trimmed_word_run(l: Seq<char>) -> bool {
    &&& l.len() > 0
    &&& !is_white_space(l[0])
    &&& !is_white_space(l.last())
}

/// The non-blank lines of a text, trimmed, in order. No line that comes out is
/// empty or has white space at either end.
pub fn parse_lines_of(text: &str) -> (out: Vec<String>)
    ensures
        views(out@) == non_blank_lines(text@),
        forall|i: int| 0 <= i < out.len() ==> is_trimmed_word_run(#[trigger] out@[i]@),
{
    let chars = chars_of(text);
    let bounds = line_bounds(&chars);
    let ghost all = lines(text@);
    let mut out: Vec<String> = Vec::new();
    let mut j: usize = 0;
    while j < bounds.len()
        invariant
            chars@ == text@,
            all == lines(text@),
            bounds.len() == all.len(),
            j <= bounds.len(),
            forall|k: int|
                0 <= k < bounds.len() ==> (#[trigger] bounds@[k]).0 <= bounds@[k].1 <= chars.len()
                    && chars@.subrange(bounds@[k].0 as int, bounds@[k].1 as int) == all[k],
            views(out@) == all.take(j as int).map_values(trimming()).filter(non_empty()),
            forall|i: int| 0 <= i < out.len() ==> is_trimmed_word_run(#[trigger] out@[i]@),
        decreases bounds.len() - j,
    {
        let (a, e) = bounds[j];
        let (lo, hi) = trim_bounds(&chars, a, e);
        let ghost line = all[j as int];
        assert(all.take(j + 1).map_values(trimming()) == all.take(j as int).map_values(
            trimming(),
        ).push(trim(line)));
        proof {
            all.take(j as int).map_values(trimming()).lemma_filter_push(trim(line), non_empty());
        }
        if lo < hi {
            let l = string_of(&chars, lo, hi);
            let ghost before = out@;
            out.push(l);
            assert(views(out@) == views(before).push(l@));
        }
        j = j + 1;
    }
    assert(all.take(bounds.len() as int) == all);
    out
}

/// The non-blank lines of a program's output, trimmed; nothing where the
/// output is not UTF-8.
pub fn parse_lines(stdout: &[u8]) -> (out: Vec<String>)
    ensures
        views(out@) == non_blank_lines(decoded_or(stdout@, Seq::empty())),
        forall|i: int| 0 <= i < out.len() ==> is_trimmed_word_run(#[trigger] out@[i]@),
{
    let text = decode_or(stdout, "");
    proof {
        reveal_strlit("");
    }
    parse_lines_of(text.as_str())
}

/// The last argument of every pod and namespace listing: print names only.
pub const NAME_COLUMNS: &'static str = "custom-columns=NAME:.metadata.name";

/// The arguments that ask whether a namespace exists.
pub open spec fn namespace_query_arg_views(namespace: Seq<char>) -> Seq<Seq<char>> {
    seq!["get"@, "namespace"@, namespace]
}

/// The arguments that ask whether a namespace exists.
pub fn namespace_query_args(namespace: &str) -> (args: Vec<String>)
    ensures
        views(args@) == namespace_query_arg_views(namespace@),
{
    let args = vec!["get".to_owned(), "namespace".to_owned(), namespace.to_owned()];
    assert(views(args@) =~= seq!["get"@, "namespace"@, namespace@]);
    args
}

/// The arguments that list the names of all namespaces.
pub open spec fn namespace_list_arg_views() -> Seq<Seq<char>> {
    seq!["get"@, "namespaces"@, "--no-headers"@, "-o"@, NAME_COLUMNS@]
}

/// The arguments that list the names of all namespaces.
pub fn namespace_list_args() -> (args: Vec<String>)
    ensures
        views(args@) == namespace_list_arg_views(),
{
    let args = vec![
        "get".to_owned(),
        "namespaces".to_owned(),
        "--no-headers".to_owned(),
        "-o".to_owned(),
        NAME_COLUMNS.to_owned(),
    ];
    assert(views(args@) =~= seq!["get"@, "namespaces"@, "--no-headers"@, "-o"@, NAME_COLUMNS@]);
    args
}

/// The arguments that list the names of the pods of a namespace, of those that
/// `selector` picks where there is one.
pub open spec fn pod_list_arg_views(namespace: Seq<char>, selector: Option<Seq<char>>) -> Seq<
    Seq<char>,
> {
    let head = seq!["get"@, "pods"@, "-n"@, namespace];
    let tail = seq!["--no-headers"@, "-o"@, NAME_COLUMNS@];
    match selector {
        Some(sel) => head + seq!["-l"@, sel] + tail,
        None => head + tail,
    }
}

/// The characters of an optional string.
pub open spec fn option_view(o: Option<String>) -> Option<Seq<char>> {
    match o {
        Some(s) => Some(s@),
        None => None,
    }
}

fn pod_list_args(namespace: &str, selector: Option<String>) -> (args: Vec<String>)
    ensures
        views(args@) == pod_list_arg_views(namespace@, option_view(selector)),
{
    let mut args = vec!["get".to_owned(), "pods".to_owned(), "-n".to_owned(), namespace.to_owned()];
    let ghost sel = option_view(selector);
    match selector {
        Some(s) => {
            args.push("-l".to_owned());
            args.push(s);
        },
        None => {},
    }
    args.push("--no-headers".to_owned());
    args.push("-o".to_owned());
    args.push(NAME_COLUMNS.to_owned());
    assert(views(args@) =~= pod_list_arg_views(namespace@, sel));
    args
}

/// The arguments that list the pods of a service, those labelled `app=<service>`.
pub fn service_pods_args(namespace: &str, service_name: &str) -> (args: Vec<String>)
    ensures
        views(args@) == pod_list_arg_views(namespace@, Some("app="@ + service_name@)),
{
    pod_list_args(namespace, Some(joined("app=", service_name)))
}

/// The arguments that list the pods of a component.
pub fn component_pods_args(namespace: &str, component: &Component) -> (args: Vec<String>)
    ensures
        views(args@) == pod_list_arg_views(namespace@, Some(component.spec_label_selector())),
{
    pod_list_args(namespace, Some(component.to_label_selector().to_owned()))
}

/// The arguments that list all pods of a namespace.
pub fn all_pods_args(namespace: &str) -> (args: Vec<String>)
    ensures
        views(args@) == pod_list_arg_views(namespace@, None),
{
    pod_list_args(namespace, None)
}

/// The names that a listing printed, one per line: nothing where the listing
/// failed or did not run.
pub open spec fn listed_names(outcome: CommandOutcome) -> Seq<Seq<char>> {
    match outcome {
        CommandOutcome::Finished { success, stdout, .. } => if success {
            non_blank_lines(decoded_or(stdout@, Seq::empty()))
        } else {
            Seq::empty()
        },
        CommandOutcome::NotStarted { .. } => Seq::empty(),
    }
}

/// The names that a listing printed.
pub fn names_from_outcome(outcome: &CommandOutcome) -> (names: Vec<String>)
    ensures
        views(names@) == listed_names(*outcome),
{
    match outcome {
        CommandOutcome::Finished { success, stdout, .. } => {
            if *success {
                parse_lines(stdout.as_slice())
            } else {
                let v: Vec<String> = Vec::new();
                assert(views(v@) =~= Seq::empty());
                v
            }
        },
        CommandOutcome::NotStarted { .. } => {
            let v: Vec<String> = Vec::new();
            assert(views(v@) =~= Seq::empty());
            v
        },
    }
}

/// Whether the namespace exists: runs `kubectl get namespace <namespace>`
/// through `runner`; the answer is yes exactly when that run succeeded.
pub fn check_namespace_exists_with<R: CommandRunner>(runner: &mut R, namespace: &str) -> (found: bool)
    ensures
        exists|o: CommandOutcome|
            #[trigger] ran_once(*old(runner), *final(runner), BASE_COMMAND@, namespace_query_arg_views(namespace@), o)
                && found == o.spec_succeeded(),
{
    let args = namespace_query_args(namespace);
    let outcome = runner.run(BASE_COMMAND, args.as_slice());
    assert(ran_once(*old(runner), *runner, BASE_COMMAND@, namespace_query_arg_views(namespace@), outcome));
    outcome.succeeded()
}

/// Runs the listing `args` through `runner` and reads the names it printed.
fn listing_with<R: CommandRunner>(runner: &mut R, args: Vec<String>) -> (names: Vec<String>)
    ensures
        exists|o: CommandOutcome|
            #[trigger] ran_once(*old(runner), *final(runner), BASE_COMMAND@, views(args@), o) && views(names@) == listed_names(
                o,
            ),
{
    let outcome = runner.run(BASE_COMMAND, args.as_slice());
    let names = names_from_outcome(&outcome);
    assert(ran_once(*old(runner), *runner, BASE_COMMAND@, views(args@), outcome));
    names
}

/// The names of all namespaces: what the namespace listing run through
/// `runner` printed.
pub fn get_available_namespaces_with<R: CommandRunner>(runner: &mut R) -> (names: Vec<String>)
    ensures
        exists|o: CommandOutcome|
            #[trigger] ran_once(*old(runner), *final(runner), BASE_COMMAND@, namespace_list_arg_views(), o) && views(names@)
                == listed_names(o),
{
    listing_with(runner, namespace_list_args())
}

/// The pods of a service: what the listing of the pods labelled
/// `app=<service>`, run through `runner`, printed.
pub fn get_pods_for_service_with<R: CommandRunner>(
    runner: &mut R,
    namespace: &str,
    service_name: &str,
) -> (pods: Vec<String>)
    ensures
        exists|o: CommandOutcome|
            #[trigger] ran_once(*old(runner), *final(runner), 
                BASE_COMMAND@,
                pod_list_arg_views(namespace@, Some("app="@ + service_name@)),
                o,
            ) && views(pods@) == listed_names(o),
{
    listing_with(runner, service_pods_args(namespace, service_name))
}

/// The pods of a component: what the listing of the pods with the
/// component's label, run through `runner`, printed.
pub fn get_pods_for_component_with<R: CommandRunner>(
    runner: &mut R,
    namespace: &str,
    component: &Component,
) -> (pods: Vec<String>)
    ensures
        exists|o: CommandOutcome|
            #[trigger] ran_once(*old(runner), *final(runner), 
                BASE_COMMAND@,
                pod_list_arg_views(namespace@, Some(component.spec_label_selector())),
                o,
            ) && views(pods@) == listed_names(o),
{
    listing_with(runner, component_pods_args(namespace, component))
}

/// All pods of a namespace: what the listing of its pods, run through
/// `runner`, printed.
pub fn get_all_pods_with<R: CommandRunner>(runner: &mut R, namespace: &str) -> (pods: Vec<String>)
    ensures
        exists|o: CommandOutcome|
            #[trigger] ran_once(*old(runner), *final(runner), BASE_COMMAND@, pod_list_arg_views(namespace@, None), o) && views(
                pods@,
            ) == listed_names(o),
{
    listing_with(runner, all_pods_args(namespace))
}


/// The pods whose logs are shown, as the options of the command ask.
#[derive(Debug, Clone)]
pub enum PodSelection {
    /// The pods of a service that belong to a component.
    ServiceAndComponent { service: String, component: Component },
    /// The pods of a service.
    Service { service: String },
    /// The pods of a component.
    Component { component: Component },
    /// All pods of the namespace.
    All,
}

/// The pods to show the logs of, given the service and component options.
pub fn pod_selection(service: Option<String>, component: Option<String>) -> (sel: PodSelection)
    ensures
        match (service, component) {
            (Some(s), Some(c)) => sel matches PodSelection::ServiceAndComponent {
                service,
                component,
            } && service@ == s@ && component == Component::spec_from_lowercase(lowercase(c@)),
            (Some(s), None) => sel matches PodSelection::Service { service } && service@ == s@,
            (None, Some(c)) => sel matches PodSelection::Component { component } && component
                == Component::spec_from_lowercase(lowercase(c@)),
            (None, None) => sel is All,
        },
{
    match (service, component) {
        (Some(s), Some(c)) => PodSelection::ServiceAndComponent {
            service: s,
            component: Component::from(c),
        },
        (Some(s), None) => PodSelection::Service { service: s },
        (None, Some(c)) => PodSelection::Component { component: Component::from(c) },
        (None, None) => PodSelection::All,
    }
}

/// The test that a name is one of `names`, as a value.
pub open spec fn listed_in(names: Seq<Seq<char>>) -> spec_fn(Seq<char>) -> bool {
    |p: Seq<char>| names.contains(p)
}

/// Whether a list of strings holds a string with the characters of `s`.
pub fn holds_name(names: &Vec<String>, s: &String) -> (b: bool)
    ensures
        b == views(names@).contains(s@),
{
    let mut i: usize = 0;
    while i < names.len()
        invariant
            i <= names.len(),
            forall|j: int| 0 <= j < i ==> names@[j]@ != s@,
        decreases names.len() - i,
    {
        if names[i] == *s {
            assert(views(names@)[i as int] == s@);
            return true;
        }
        i = i + 1;
    }
    assert(!views(names@).contains(s@)) by {
        if views(names@).contains(s@) {
            let k = choose|k: int| 0 <= k < views(names@).len() && views(names@)[k] == s@;
            assert(names@[k]@ == s@);
        }
    }
    false
}

/// The pods of a service that are also among the pods of a component, in the
/// order of the service's pods.
pub fn pods_in_both(service_pods: Vec<String>, component_pods: &Vec<String>) -> (pods: Vec<String>)
    ensures
        views(pods@) == views(service_pods@).filter(listed_in(views(component_pods@))),
{
    let ghost all = views(service_pods@);
    let ghost keep = listed_in(views(component_pods@));
    let mut pods: Vec<String> = Vec::new();
    let mut i: usize = 0;
    while i < service_pods.len()
        invariant
            all == views(service_pods@),
            keep == listed_in(views(component_pods@)),
            i <= service_pods.len(),
            views(pods@) == all.take(i as int).filter(keep),
        decreases service_pods.len() - i,
    {
        assert(all.take(i + 1) == all.take(i as int).push(all[i as int]));
        proof {
            all.take(i as int).lemma_filter_push(all[i as int], keep);
        }
        if holds_name(component_pods, &service_pods[i]) {
            let ghost before = pods@;
            pods.push(service_pods[i].clone());
            assert(views(pods@) == views(before).push(all[i as int]));
        }
        i = i + 1;
    }
    assert(all.take(service_pods.len() as int) == all);
    pods
}

/// The arguments that fetch the last fifty lines of a pod's logs.
pub fn pod_logs_args(pod: &str, namespace: &str) -> (args: Vec<String>)
    ensures
        views(args@) == seq!["logs"@, pod@, "-n"@, namespace@, "--tail=50"@],
{
    let args = vec![
        "logs".to_owned(),
        pod.to_owned(),
        "-n".to_owned(),
        namespace.to_owned(),
        "--tail=50".to_owned(),
    ];
    assert(views(args@) =~= seq!["logs"@, pod@, "-n"@, namespace@, "--tail=50"@]);
    args
}

/// What a pod's logs came to.
#[derive(Debug, Clone)]
pub enum PodLogs {
    /// The logs hold nothing but white space.
    NoLogs,
    /// The logs as the cluster tool printed them.
    Logs { text: String },
}

/// What the logs query of a pod, labelled `pod_label` in messages, means: the
/// logs where it ran and succeeded; an error with what it printed on its
/// error stream where it failed; an error with the system's message where it
/// did not run.
pub open spec fn is_pod_logs_result(
    r: Result<PodLogs, CliError>,
    pod_label: Seq<char>,
    outcome: CommandOutcome,
) -> bool {
    match outcome {
        CommandOutcome::NotStarted { message } => r matches Err(CliError::BaseError { reason })
            && reason@ == "Failed to execute "@ + BASE_COMMAND@ + " logs for pod '"@ + pod_label
            + "': "@ + message@,
        CommandOutcome::Finished { success, stdout, stderr } => if success {
            let text = decoded_or(stdout@, ""@);
            if trim(text).len() == 0 {
                r matches Ok(PodLogs::NoLogs)
            } else {
                r matches Ok(PodLogs::Logs { text: t }) && t@ == text
            }
        } else {
            r matches Err(CliError::BaseError { reason }) && reason@ == "Error getting logs for pod '"@
                + pod_label + "': "@ + decoded_or(stderr@, "Unknown error"@)
        },
    }
}

/// What the logs query of a pod means, the pod being labelled `pod_label` in
/// messages.
pub fn pod_logs_from_outcome(pod_label: &str, outcome: &CommandOutcome) -> (r: Result<
    PodLogs,
    CliError,
>)
    ensures
        is_pod_logs_result(r, pod_label@, *outcome),
{
    match outcome {
        CommandOutcome::NotStarted { message } => {
            let mut reason = "Failed to execute ".to_owned();
            reason.append(BASE_COMMAND);
            reason.append(" logs for pod '");
            reason.append(pod_label);
            reason.append("': ");
            reason.append(message.as_str());
            Err(CliError::BaseError { reason })
        },
        CommandOutcome::Finished { success, stdout, stderr } => {
            if *success {
                let text = decode_or(stdout.as_slice(), "");
                let trimmed = trim_text(text.as_str());
                if chars_of(trimmed.as_str()).len() == 0 {
                    Ok(PodLogs::NoLogs)
                } else {
                    Ok(PodLogs::Logs { text })
                }
            } else {
                let error = decode_or(stderr.as_slice(), "Unknown error");
                let mut reason = "Error getting logs for pod '".to_owned();
                reason.append(pod_label);
                reason.append("': ");
                reason.append(error.as_str());
                Err(CliError::BaseError { reason })
            }
        },
    }
}

/// What the logs query of a pod means; messages name the pod in its `Debug`
/// form, in quotes.
pub fn pod_logs_report(pod: &str, outcome: &CommandOutcome) -> (r: Result<PodLogs, CliError>)
    ensures
        is_pod_logs_result(r, debug_quoted(pod@), *outcome),
{
    let label = debug_text(pod);
    pod_logs_from_outcome(label.as_str(), outcome)
}

/// The notice that a namespace was not found, with the namespaces that exist;
/// with a service name, it ends with a hint on how to describe that service in
/// another namespace.
pub open spec fn namespace_not_found_notice(
    ns: Seq<char>,
    available: Seq<Seq<char>>,
    describe_hint: Option<Seq<char>>,
) -> Seq<char> {
    "\n❌ Namespace '"@ + ns + "' not found\n"@ + rule() + "\n"@ + if available.len() > 0 {
        "\n📋 Available namespaces:\n"@ + names_text(NameStyle::Bullet, available) + match describe_hint {
            Some(service) => "\nTry: cortexflow service describe "@ + service
                + " --namespace <namespace-name>\n"@,
            None => Seq::empty(),
        }
    } else {
        "No namespaces found in the cluster.\n"@
    }
}

/// The notice that a namespace was not found.
pub fn namespace_not_found_text(ns: &str, available: &Vec<String>, describe_hint: Option<&str>) -> (out:
    String)
    ensures
        out@ == namespace_not_found_notice(
            ns@,
            views(available@),
            match describe_hint {
                Some(s) => Some(s@),
                None => None,
            },
        ),
{
    let mut out = "\n❌ Namespace '".to_owned();
    out.append(ns);
    out.append("' not found\n");
    out.append(repeat_char('=', 50).as_str());
    out.append("\n");
    if available.len() > 0 {
        out.append("\n📋 Available namespaces:\n");
        append_names(&mut out, NameStyle::Bullet, available);
        match describe_hint {
            Some(service) => {
                out.append("\nTry: cortexflow service describe ");
                out.append(service);
                out.append(" --namespace <namespace-name>\n");
            },
            None => {},
        }
    } else {
        out.append("No namespaces found in the cluster.\n");
    }
    out
}


/// The pods kept for both a service and a component are pods of the service
/// and pods of the component, and each pod of the service that is also a pod
/// of the component is kept.
pub proof fn lemma_pods_in_both(service_pods: Seq<Seq<char>>, component_pods: Seq<Seq<char>>)
    ensures
        forall|p: Seq<char>|
            #[trigger] service_pods.filter(listed_in(component_pods)).contains(p) <==> (
            service_pods.contains(p) && component_pods.contains(p)),
{
    let keep = listed_in(component_pods);
    assert forall|p: Seq<char>|
        #[trigger] service_pods.filter(keep).contains(p) <==> (service_pods.contains(p)
            && component_pods.contains(p)) by {
        if service_pods.filter(keep).contains(p) {
            let i = choose|i: int|
                0 <= i < service_pods.filter(keep).len() && service_pods.filter(keep)[i] == p;
            service_pods.lemma_filter_pred(keep, i);
            service_pods.lemma_filter_contains_rev(keep, p);
        }
        if service_pods.contains(p) && component_pods.contains(p) {
            let j = choose|j: int| 0 <= j < service_pods.len() && service_pods[j] == p;
            service_pods.lemma_filter_contains(keep, j);
        }
    }
}

/// The label selector of a component named by one of the two known names is
/// `component=` followed by that name.
pub proof fn lemma_component_selector_names_it(name: Seq<char>)
    requires
        name == "control-plane"@ || name == "data-plane"@,
    ensures
        Component::spec_from_lowercase(name).spec_label_selector() == "component="@ + name,
{
    reveal_strlit("control-plane");
    reveal_strlit("data-plane");
    reveal_strlit("component=");
    reveal_strlit("component=control-plane");
    reveal_strlit("component=data-plane");
    if name == "data-plane"@ {
        assert(name != "control-plane"@) by {
            assert(name[0] != "control-plane"@[0]);
        }
    }
    assert("component=control-plane"@ =~= "component="@ + "control-plane"@);
    assert("component=data-plane"@ =~= "component="@ + "data-plane"@);
}


/// The listing of names reads the same whether or not the output ends with a
/// line feed.
pub proof fn lemma_parse_lines_final_line_feed(s: Seq<char>)
    ensures
        non_blank_lines(s.push('\n')) == non_blank_lines(s),
{
    lemma_final_line_feed_adds_no_line(s);
}


/// Reading two outputs one after the other, the first ending with a line
/// feed, gives the names of the first followed by those of the second.
pub proof fn lemma_parse_lines_concatenation(a: Seq<char>, b: Seq<char>)
    requires
        a.len() == 0 || a.last() == '\n',
    ensures
        non_blank_lines(a + b) == non_blank_lines(a) + non_blank_lines(b),
{
    lemma_lines_after_line_feed(a, b);
    let la = lines(a).map_values(trimming());
    let lb = lines(b).map_values(trimming());
    assert(lines(a + b).map_values(trimming()) =~= la + lb);
    Seq::filter_distributes_over_add(la, lb, non_empty());
}

/// The same for raw output: two well-formed UTF-8 outputs, the first empty or
/// ending with a line feed, read together give the names of the first followed
/// by those of the second.
pub proof fn lemma_parse_lines_bytes_concatenation(a: Seq<u8>, b: Seq<u8>)
    requires
        valid_utf8(a),
        valid_utf8(b),
        a.len() == 0 || a.last() == 10,
    ensures
        non_blank_lines(decoded_or(a + b, Seq::empty())) == non_blank_lines(
            decoded_or(a, Seq::empty()),
        ) + non_blank_lines(decoded_or(b, Seq::empty())),
{
    lemma_decode_concatenation(a, b);
    if a.len() == 0 {
        assert(decode_utf8(a) =~= Seq::<char>::empty());
    } else {
        lemma_decode_final_line_feed(a);
    }
    lemma_parse_lines_concatenation(decode_utf8(a), decode_utf8(b));
}


/// What the `logs` command does next.
#[derive(Debug, Clone)]
pub enum LogsAction {
    /// No pod matched: say so and end.
    NoPods,
    /// Fetch and show the logs of this pod.
    FetchLogs { pod: String },
    /// The logs of every pod have been shown.
    Finished,
}

/// The next step of the `logs` command over the chosen pods, the logs of the
/// first `shown` of them having been shown: the pods are taken in order, and
/// an empty choice ends at once.
pub fn next_logs_action(pods: &Vec<String>, shown: usize) -> (a: LogsAction)
    requires
        shown <= pods.len(),
    ensures
        pods.len() == 0 ==> a is NoPods,
        pods.len() > 0 && shown < pods.len() ==> (a matches LogsAction::FetchLogs { pod } && pod@
            == pods@[shown as int]@),
        pods.len() > 0 && shown == pods.len() ==> a is Finished,
{
    if pods.len() == 0 {
        LogsAction::NoPods
    } else if shown < pods.len() {
        LogsAction::FetchLogs { pod: pods[shown].clone() }
    } else {
        LogsAction::Finished
    }
}


/// The notice that a namespace was not found lists every namespace that
/// exists, one line each, in the given order, and says so when there is none.
pub proof fn lemma_namespace_notice_lists_every_namespace(
    ns: Seq<char>,
    available: Seq<Seq<char>>,
    describe_hint: Option<Seq<char>>,
)
    ensures
        namespace_not_found_notice(ns, available, describe_hint) == "\n❌ Namespace '"@ + ns
            + "' not found\n"@ + rule() + "\n"@ + if available.len() > 0 {
            "\n📋 Available namespaces:\n"@ + concat_indexed(available.len(), bullet_line(available))
                + match describe_hint {
                Some(service) => "\nTry: cortexflow service describe "@ + service
                    + " --namespace <namespace-name>\n"@,
                None => Seq::empty(),
            }
        } else {
            "No namespaces found in the cluster.\n"@
        },
{
    lemma_names_text_indexed(NameStyle::Bullet, available, bullet_line(available));
}

} // verus!
