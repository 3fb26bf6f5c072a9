//! The `service` command: listing the services of a namespace as a table, and
//! describing one.
use vstd::prelude::*;
use crate::errors::CliError;
use crate::runner::CommandOutcome;
use crate::status::{at_least, word_lists};
use crate::text::{
    chars_of, decode_or, decoded_or, lemma_pad_right, lemma_lines_after_line_feed, line_bounds, lines, pad_right, padded, repeat_char,
    repeated, trim, trim_text, views, words, words_in,
};
use crate::BASE_COMMAND;

verus! {

/// The subcommands of the `service` command.
#[derive(Debug, Clone)]
pub enum ServiceCommands {
    /// Lists the services of a namespace.
    List { namespace: Option<String> },
    /// Describes one service.
    Describe { service_name: String, namespace: Option<String> },
}

/// The arguments of the `service` command.
#[derive(Debug, Clone)]
pub struct ServiceArgs {
    pub service_cmd: ServiceCommands,
}

/// The status column of the table: the status, followed by the readiness in
/// brackets where the readiness has the form `ready/total`.
pub open spec fn full_status(ready: Seq<char>, status: Seq<char>) -> Seq<char> {
    if ready.contains('/') {
        status + " ("@ + ready + ")"@
    } else {
        status
    }
}

/// The table row of a line of at least five words: name, status, restarts and
/// age, in columns 40, 20, 10 and 10 characters wide, one space apart.
pub open spec fn service_row(w: Seq<Seq<char>>) -> Seq<char> {
    pad_right(w[0], 40) + " "@ + pad_right(full_status(w[1], w[2]), 20) + " "@ + pad_right(w[3], 10)
        + " "@ + pad_right(w[4], 10)
}

/// The table row of a line's words, as a value.
pub open spec fn service_row_of() -> spec_fn(Seq<Seq<char>>) -> Seq<char> {
    |w: Seq<Seq<char>>| service_row(w)
}

/// The table rows of the lines of a listing that have at least five words.
pub open spec fn service_rows(s: Seq<char>) -> Seq<Seq<char>> {
    lines(s).map_values(word_lists()).filter(at_least(5)).map_values(service_row_of())
}

/// Whether a text holds a character.
pub fn text_contains(s: &str, c: char) -> (b: bool)
    ensures
        b == s@.contains(c),
{
    let chars = chars_of(s);
    let mut i: usize = 0;
    while i < chars.len()
        invariant
            chars@ == s@,
            i <= chars.len(),
            forall|j: int| 0 <= j < i ==> chars@[j] != c,
        decreases chars.len() - i,
    {
        if chars[i] == c {
            assert(s@[i as int] == c);
            return true;
        }
        i = i + 1;
    }
    false
}

fn service_row_text(w: &Vec<String>) -> (row: String)
    requires
        w.len() >= 5,
    ensures
        row@ == service_row(views(w@)),
{
    let ready = w[1].as_str();
    let status = w[2].as_str();
    let full = if text_contains(ready, '/') {
        let mut f = status.to_owned();
        f.append(" (");
        f.append(ready);
        f.append(")");
        f
    } else {
        status.to_owned()
    };
    let mut row = padded(w[0].as_str(), 40);
    row.append(" ");
    row.append(padded(full.as_str(), 20).as_str());
    row.append(" ");
    row.append(padded(w[3].as_str(), 10).as_str());
    row.append(" ");
    row.append(padded(w[4].as_str(), 10).as_str());
    row
}

/// The table rows of a service listing, one for each line of at least five
/// words.
pub fn format_service_rows(stdout: &str) -> (rows: Vec<String>)
    ensures
        views(rows@) == service_rows(stdout@),
{
    let chars = chars_of(stdout);
    let bounds = line_bounds(&chars);
    let ghost all = lines(stdout@);
    let mut rows: Vec<String> = Vec::new();
    let mut j: usize = 0;
    while j < bounds.len()
        invariant
            chars@ == stdout@,
            all == lines(stdout@),
            bounds.len() == all.len(),
            j <= bounds.len(),
            forall|k: int|
                0 <= k < bounds.len() ==> (#[trigger] bounds@[k]).0 <= bounds@[k].1 <= chars.len()
                    && chars@.subrange(bounds@[k].0 as int, bounds@[k].1 as int) == all[k],
            views(rows@) == all.take(j as int).map_values(word_lists()).filter(at_least(
                5,
            )).map_values(service_row_of()),
        decreases bounds.len() - j,
    {
        let (a, e) = bounds[j];
        let w = words_in(&chars, a, e);
        let ghost ws = words(all[j as int]);
        let ghost before = all.take(j as int).map_values(word_lists());
        assert(all.take(j + 1).map_values(word_lists()) == before.push(ws));
        proof {
            before.lemma_filter_push(ws, at_least(5));
        }
        let ghost kept = before.filter(at_least(5));
        if w.len() >= 5 {
            let row = service_row_text(&w);
            let ghost old_rows = rows@;
            rows.push(row);
            assert(views(rows@) == views(old_rows).push(row@));
            assert(kept.push(ws).map_values(service_row_of()) == kept.map_values(
                service_row_of(),
            ).push(service_row(ws)));
        }
        j = j + 1;
    }
    assert(all.take(bounds.len() as int) == all);
    rows
}

/// The heading of the services table.
pub open spec fn service_table_heading() -> Seq<char> {
    pad_right("NAME"@, 40) + " "@ + pad_right("STATUS"@, 20) + " "@ + pad_right("RESTARTS"@, 10)
        + " "@ + pad_right("AGE"@, 10) + "\n"@ + repeated('-', 80) + "\n"@
}

/// The heading of the services table: the column names, and a line of dashes.
pub fn service_table_heading_text() -> (h: String)
    ensures
        h@ == service_table_heading(),
{
    let mut h = padded("NAME", 40);
    h.append(" ");
    h.append(padded("STATUS", 20).as_str());
    h.append(" ");
    h.append(padded("RESTARTS", 10).as_str());
    h.append(" ");
    h.append(padded("AGE", 10).as_str());
    h.append("\n");
    h.append(repeat_char('-', 80).as_str());
    h.append("\n");
    h
}

/// The arguments that list the services of a namespace.
pub fn service_list_args(namespace: &str) -> (args: Vec<String>)
    ensures
        views(args@) == seq!["get"@, "svc"@, "-n"@, namespace@, "--no-headers"@],
{
    let args = vec![
        "get".to_owned(),
        "svc".to_owned(),
        "-n".to_owned(),
        namespace.to_owned(),
        "--no-headers".to_owned(),
    ];
    assert(views(args@) =~= seq!["get"@, "svc"@, "-n"@, namespace@, "--no-headers"@]);
    args
}

/// The arguments that describe the pod of a service.
pub fn describe_args(service_name: &str, namespace: &str) -> (args: Vec<String>)
    ensures
        views(args@) == seq!["describe"@, "pod"@, service_name@, "-n"@, namespace@],
{
    let args = vec![
        "describe".to_owned(),
        "pod".to_owned(),
        service_name.to_owned(),
        "-n".to_owned(),
        namespace.to_owned(),
    ];
    assert(views(args@) =~= seq!["describe"@, "pod"@, service_name@, "-n"@, namespace@]);
    args
}

/// A successful service listing.
#[derive(Debug, Clone)]
pub struct ServiceListing {
    /// Whether the listing printed nothing but white space.
    pub no_services: bool,
    /// The table rows.
    pub rows: Vec<String>,
}

/// The error of a cluster tool run that could not be started.
pub open spec fn is_start_failure(e: CliError, message: Seq<char>, reason: Seq<char>) -> bool {
    e matches CliError::ClientError { status, message: m, reason: r, code } && status@ == "failed"@
        && m@ == message && r@ == reason && code == 404
}

fn start_failure(message: &str, reason: &String) -> (e: CliError)
    ensures
        is_start_failure(e, message@, reason@),
{
    CliError::ClientError {
        status: "failed".to_owned(),
        message: message.to_owned(),
        reason: reason.clone(),
        code: 404,
    }
}

/// What the service listing's outcome means: the table where it ran and
/// succeeded; where it failed, the error with what it printed on its error
/// stream; where it did not run, the error with the system's message.
pub fn service_listing_from_outcome(outcome: &CommandOutcome) -> (r: Result<
    ServiceListing,
    CliError,
>)
    ensures
        match *outcome {
            CommandOutcome::NotStarted { message } => r matches Err(e) && is_start_failure(
                e,
                "Failed to execute the kubectl command"@,
                message@,
            ),
            CommandOutcome::Finished { success, stdout, stderr } => if success {
                r matches Ok(l) && l.no_services == (trim(decoded_or(stdout@, ""@)).len() == 0)
                    && views(l.rows@) == service_rows(decoded_or(stdout@, ""@))
            } else {
                r matches Err(CliError::BaseError { reason }) && reason@ == "Error executing "@
                    + BASE_COMMAND@ + ": "@ + decoded_or(stderr@, "Unknown error"@)
            },
        },
{
    match outcome {
        CommandOutcome::NotStarted { message } => Err(
            start_failure("Failed to execute the kubectl command", message),
        ),
        CommandOutcome::Finished { success, stdout, stderr } => {
            if !*success {
                let error = decode_or(stderr.as_slice(), "Unknown error");
                let mut reason = "Error executing ".to_owned();
                reason.append(BASE_COMMAND);
                reason.append(": ");
                reason.append(error.as_str());
                return Err(CliError::BaseError { reason });
            }
            let text = decode_or(stdout.as_slice(), "");
            let trimmed = trim_text(text.as_str());
            let no_services = chars_of(trimmed.as_str()).len() == 0;
            Ok(ServiceListing { no_services, rows: format_service_rows(text.as_str()) })
        },
    }
}

/// A successful description.
#[derive(Debug, Clone)]
pub struct Description {
    /// Whether the description is nothing but white space.
    pub empty: bool,
    /// The description as the cluster tool printed it.
    pub text: String,
}

/// What the description's outcome means: the text where it ran and succeeded;
/// where it failed, the error with what it printed on its error stream and a
/// hint; where it did not run, the error with the system's message.
pub fn description_from_outcome(service_name: &str, namespace: &str, outcome: &CommandOutcome) -> (r:
    Result<Description, CliError>)
    ensures
        match *outcome {
            CommandOutcome::NotStarted { message } => r matches Err(e) && is_start_failure(
                e,
                "Failed to execute the kubectl command "@,
                message@,
            ),
            CommandOutcome::Finished { success, stdout, stderr } => if success {
                r matches Ok(d) && d.text@ == decoded_or(stdout@, ""@) && d.empty == (trim(
                    d.text@,
                ).len() == 0)
            } else {
                r matches Err(CliError::BaseError { reason }) && reason@
                    == "Error executing kubectl describe: "@ + decoded_or(
                    stderr@,
                    "Unknown error"@,
                ) + ".Make sure the pod '"@ + service_name@ + "' exists in namespace '"@
                    + namespace@ + "'"@
            },
        },
{
    match outcome {
        CommandOutcome::NotStarted { message } => Err(
            start_failure("Failed to execute the kubectl command ", message),
        ),
        CommandOutcome::Finished { success, stdout, stderr } => {
            if !*success {
                let error = decode_or(stderr.as_slice(), "Unknown error");
                let mut reason = "Error executing kubectl describe: ".to_owned();
                reason.append(error.as_str());
                reason.append(".Make sure the pod '");
                reason.append(service_name);
                reason.append("' exists in namespace '");
                reason.append(namespace);
                reason.append("'");
                return Err(CliError::BaseError { reason });
            }
            let text = decode_or(stdout.as_slice(), "");
            let trimmed = trim_text(text.as_str());
            let empty = chars_of(trimmed.as_str()).len() == 0;
            Ok(Description { empty, text })
        },
    }
}


/// Every table row is at least 83 characters wide, the four columns with the
/// spaces between them, and it begins with the name in the first line's word.
pub proof fn lemma_service_rows_fill_the_columns(s: Seq<char>)
    ensures
        forall|i: int| 0 <= i < service_rows(s).len() ==> (#[trigger] service_rows(s)[i]).len() >= 83,
        forall|w: Seq<Seq<char>>|
            w.len() >= 5 ==> (#[trigger] service_row(w)).take(w[0].len() as int) == w[0],
{
    assert forall|i: int| 0 <= i < service_rows(s).len() implies (#[trigger] service_rows(
        s,
    )[i]).len() >= 83 by {
        let w = lines(s).map_values(word_lists()).filter(at_least(5))[i];
        assert(service_rows(s)[i] == service_row(w));
        lemma_pad_right(w[0], 40);
        lemma_pad_right(full_status(w[1], w[2]), 20);
        lemma_pad_right(w[3], 10);
        lemma_pad_right(w[4], 10);
        let a = pad_right(w[0], 40);
        let b = pad_right(full_status(w[1], w[2]), 20);
        let c = pad_right(w[3], 10);
        let d = pad_right(w[4], 10);
        assert(service_row(w) == a + " "@ + b + " "@ + c + " "@ + d);
        reveal_strlit(" ");
        assert((a + " "@ + b + " "@ + c + " "@ + d).len() == a.len() + b.len() + c.len() + d.len()
            + 3);
    }
    assert forall|w: Seq<Seq<char>>|
        w.len() >= 5 implies (#[trigger] service_row(w)).take(w[0].len() as int) == w[0] by {
        lemma_pad_right(w[0], 40);
        let head = pad_right(w[0], 40);
        assert(service_row(w).take(w[0].len() as int) =~= head.take(w[0].len() as int));
    }
}


/// Formatting two outputs one after the other, the first ending with a line
/// feed, gives the rows of the first followed by those of the second.
pub proof fn lemma_service_rows_concatenation(a: Seq<char>, b: Seq<char>)
    requires
        a.len() == 0 || a.last() == '\n',
    ensures
        service_rows(a + b) == service_rows(a) + service_rows(b),
{
    lemma_lines_after_line_feed(a, b);
    let wa = lines(a).map_values(word_lists());
    let wb = lines(b).map_values(word_lists());
    assert(lines(a + b).map_values(word_lists()) =~= wa + wb);
    Seq::filter_distributes_over_add(wa, wb, at_least(5));
    let fa = wa.filter(at_least(5));
    let fb = wb.filter(at_least(5));
    assert((fa + fb).map_values(service_row_of()) =~= fa.map_values(service_row_of())
        + fb.map_values(service_row_of()));
}


/// A table row keeps each of its first two columns whole: it begins with the
/// name, padded with spaces to 40 characters where it is shorter, then one
/// space, then the full status text (the status, with the readiness in
/// brackets where the readiness has a `/`), never cut; padding only adds
/// spaces.
pub proof fn lemma_service_row_keeps_columns_whole(w: Seq<Seq<char>>)
    requires
        w.len() >= 5,
    ensures
        ({
            let row = service_row(w);
            let name_end: int = if w[0].len() <= 40 {
                40
            } else {
                w[0].len() as int
            };
            let status = if w[1].contains('/') {
                w[2] + " ("@ + w[1] + ")"@
            } else {
                w[2]
            };
            &&& row.take(w[0].len() as int) == w[0]
            &&& forall|k: int| w[0].len() <= k < name_end ==> #[trigger] row[k] == ' '
            &&& row[name_end] == ' '
            &&& row.subrange(name_end + 1, name_end + 1 + status.len()) == status
        }),
{
    let row = service_row(w);
    let a = pad_right(w[0], 40);
    let fs = full_status(w[1], w[2]);
    let b = pad_right(fs, 20);
    let c = pad_right(w[3], 10);
    let d = pad_right(w[4], 10);
    lemma_pad_right(w[0], 40);
    lemma_pad_right(fs, 20);
    reveal_strlit(" ");
    let rest = " "@ + c + " "@ + d;
    assert(row =~= a + (" "@ + (b + rest)));
    let n = a.len() as int;
    assert(row.take(w[0].len() as int) =~= a.take(w[0].len() as int));
    assert forall|k: int| w[0].len() <= k < n implies #[trigger] row[k] == ' ' by {
        assert(row[k] == a[k]);
    }
    assert(row[n] == ' ');
    assert(row.subrange(n + 1, n + 1 + fs.len()) =~= b.take(fs.len() as int));
}

/// Every row of the services table keeps the name and the full status of its
/// line whole, as `lemma_service_row_keeps_columns_whole` says of one row.
pub proof fn lemma_service_rows_keep_columns_whole(s: Seq<char>)
    ensures
        forall|i: int|
            0 <= i < service_rows(s).len() ==> {
                let w = lines(s).map_values(word_lists()).filter(at_least(5))[i];
                &&& w.len() >= 5
                &&& #[trigger] service_rows(s)[i] == service_row(w)
            },
{
    let kept = lines(s).map_values(word_lists()).filter(at_least(5));
    assert forall|i: int| 0 <= i < service_rows(s).len() implies {
        let w = kept[i];
        &&& w.len() >= 5
        &&& #[trigger] service_rows(s)[i] == service_row(w)
    } by {
        lines(s).map_values(word_lists()).lemma_filter_pred(at_least(5), i);
    }
}

} // verus!
