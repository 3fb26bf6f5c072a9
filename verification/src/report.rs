//! Building the text that the commands print: lists of rows and of names, one
//! entry after another, in plain text, JSON or YAML.
use vstd::prelude::*;
use crate::text::{same_text, views};

verus! {

/// The texts that `f` gives for the items, one after another.
pub open spec fn concat_map<T>(items: Seq<T>, f: spec_fn(T) -> Seq<char>) -> Seq<char>
    decreases items.len(),
{
    if items.len() == 0 {
        Seq::empty()
    } else {
        concat_map(items.drop_last(), f) + f(items.last())
    }
}

/// Taking one more item adds its text at the end.
pub proof fn lemma_concat_map_step<T>(items: Seq<T>, f: spec_fn(T) -> Seq<char>, i: int)
    requires
        0 <= i < items.len(),
    ensures
        concat_map(items.take(i + 1), f) == concat_map(items.take(i), f) + f(items[i]),
{
    assert(items.take(i + 1).drop_last() == items.take(i));
}

/// Three columns of a listing: a pod's name, readiness and status, or a
/// service's name, type and cluster address.
pub type Row = (String, String, String);

/// The characters of each row.
pub open spec fn row_views(rows: Seq<Row>) -> Seq<(Seq<char>, Seq<char>, Seq<char>)> {
    rows.map_values(|r: Row| (r.0@, r.1@, r.2@))
}

/// How a row is printed.
#[derive(Clone, Copy, Debug, PartialEq, Eq, Structural)]
pub enum RowStyle {
    TextPod,
    TextService,
    JsonPod,
    JsonService,
    YamlPod,
    YamlService,
}

/// The mark in front of a pod in the plain text report.
pub open spec fn pod_icon(status: Seq<char>) -> Seq<char> {
    if status == "Running"@ {
        "✅"@
    } else {
        "⚠️"@
    }
}

/// The comma after a JSON entry that another one follows.
pub open spec fn comma(more: bool) -> Seq<char> {
    if more {
        ","@
    } else {
        ""@
    }
}

/// The printed lines of one row, `more` telling whether another row follows.
pub open spec fn row_text(style: RowStyle, row: (Seq<char>, Seq<char>, Seq<char>), more: bool) -> Seq<
    char,
> {
    let (a, b, c) = row;
    match style {
        RowStyle::TextPod => "  "@ + pod_icon(c) + " "@ + a + ": "@ + c + " ("@ + b + ")\n"@,
        RowStyle::TextService => "  🔗 "@ + a + ": "@ + b + " ("@ + c + ")\n"@,
        RowStyle::JsonPod => "    {\n"@ + "      \"name\": \""@ + a + "\",\n"@ + "      \"ready\": \""@
            + b + "\",\n"@ + "      \"status\": \""@ + c + "\"\n"@ + "    }"@ + comma(more) + "\n"@,
        RowStyle::JsonService => "    {\n"@ + "      \"name\": \""@ + a + "\",\n"@
            + "      \"type\": \""@ + b + "\",\n"@ + "      \"cluster_ip\": \""@ + c + "\"\n"@
            + "    }"@ + comma(more) + "\n"@,
        RowStyle::YamlPod => "  - name: "@ + a + "\n"@ + "    ready: "@ + b + "\n"@ + "    status: "@
            + c + "\n"@,
        RowStyle::YamlService => "  - name: "@ + a + "\n"@ + "    type: "@ + b + "\n"@
            + "    cluster_ip: "@ + c + "\n"@,
    }
}

/// The printing of a row that another row follows, as a value.
pub open spec fn row_text_more(style: RowStyle) -> spec_fn((Seq<char>, Seq<char>, Seq<char>)) -> Seq<
    char,
> {
    |row: (Seq<char>, Seq<char>, Seq<char>)| row_text(style, row, true)
}

/// The printed lines of all rows, in order; only the last one is printed as
/// the last.
pub open spec fn rows_text(style: RowStyle, rows: Seq<(Seq<char>, Seq<char>, Seq<char>)>) -> Seq<
    char,
> {
    if rows.len() == 0 {
        Seq::empty()
    } else {
        concat_map(rows.drop_last(), row_text_more(style)) + row_text(style, rows.last(), false)
    }
}

/// The printed lines of one row.
pub fn row_text_of(style: RowStyle, row: &Row, more: bool) -> (s: String)
    ensures
        s@ == row_text(style, (row.0@, row.1@, row.2@), more),
{
    let (a, b, c) = (row.0.as_str(), row.1.as_str(), row.2.as_str());
    let sep = if more {
        ","
    } else {
        ""
    };
    proof {
        reveal_strlit("");
        reveal_strlit(",");
    }
    let mut s = String::new();
    match style {
        RowStyle::TextPod => {
            let icon = if same_text(c, "Running") {
                "✅"
            } else {
                "⚠️"
            };
            s.append("  ");
            s.append(icon);
            s.append(" ");
            s.append(a);
            s.append(": ");
            s.append(c);
            s.append(" (");
            s.append(b);
            s.append(")\n");
        },
        RowStyle::TextService => {
            s.append("  🔗 ");
            s.append(a);
            s.append(": ");
            s.append(b);
            s.append(" (");
            s.append(c);
            s.append(")\n");
        },
        RowStyle::JsonPod => {
            s.append("    {\n");
            s.append("      \"name\": \"");
            s.append(a);
            s.append("\",\n");
            s.append("      \"ready\": \"");
            s.append(b);
            s.append("\",\n");
            s.append("      \"status\": \"");
            s.append(c);
            s.append("\"\n");
            s.append("    }");
            s.append(sep);
            s.append("\n");
        },
        RowStyle::JsonService => {
            s.append("    {\n");
            s.append("      \"name\": \"");
            s.append(a);
            s.append("\",\n");
            s.append("      \"type\": \"");
            s.append(b);
            s.append("\",\n");
            s.append("      \"cluster_ip\": \"");
            s.append(c);
            s.append("\"\n");
            s.append("    }");
            s.append(sep);
            s.append("\n");
        },
        RowStyle::YamlPod => {
            s.append("  - name: ");
            s.append(a);
            s.append("\n");
            s.append("    ready: ");
            s.append(b);
            s.append("\n");
            s.append("    status: ");
            s.append(c);
            s.append("\n");
        },
        RowStyle::YamlService => {
            s.append("  - name: ");
            s.append(a);
            s.append("\n");
            s.append("    type: ");
            s.append(b);
            s.append("\n");
            s.append("    cluster_ip: ");
            s.append(c);
            s.append("\n");
        },
    }
    s
}


/// Appends the printed lines of all rows.
pub fn append_rows(out: &mut String, style: RowStyle, rows: &Vec<Row>)
    ensures
        final(out)@ == old(out)@ + rows_text(style, row_views(rows@)),
{
    let ghost all = row_views(rows@);
    let n = rows.len();
    if n == 0 {
        assert(out@ == old(out)@ + rows_text(style, all));
        return;
    }
    let ghost body = all.drop_last();
    let mut i: usize = 0;
    while i + 1 < n
        invariant
            n == rows.len() == all.len() >= 1,
            all == row_views(rows@),
            body == all.drop_last(),
            i + 1 <= n,
            out@ == old(out)@ + concat_map(body.take(i as int), row_text_more(style)),
        decreases n - i,
    {
        proof {
            lemma_concat_map_step(body, row_text_more(style), i as int);
        }
        let line = row_text_of(style, &rows[i], true);
        out.append(line.as_str());
        i = i + 1;
    }
    assert(body.take(i as int) == body);
    let line = row_text_of(style, &rows[n - 1], false);
    out.append(line.as_str());
}

/// How a name in a list of names is printed.
#[derive(Clone, Copy, Debug, PartialEq, Eq, Structural)]
pub enum NameStyle {
    Bullet,
    JsonQuoted,
    YamlItem,
}

/// The printed line of one name, `more` telling whether another name follows.
pub open spec fn name_text(style: NameStyle, name: Seq<char>, more: bool) -> Seq<char> {
    match style {
        NameStyle::Bullet => "  • "@ + name + "\n"@,
        NameStyle::JsonQuoted => "    \""@ + name + "\""@ + comma(more) + "\n"@,
        NameStyle::YamlItem => "  - "@ + name + "\n"@,
    }
}

/// The printing of a name that another name follows, as a value.
pub open spec fn name_text_more(style: NameStyle) -> spec_fn(Seq<char>) -> Seq<char> {
    |name: Seq<char>| name_text(style, name, true)
}

/// The printed lines of all names, in order.
pub open spec fn names_text(style: NameStyle, names: Seq<Seq<char>>) -> Seq<char> {
    if names.len() == 0 {
        Seq::empty()
    } else {
        concat_map(names.drop_last(), name_text_more(style)) + name_text(style, names.last(), false)
    }
}

/// The printed line of one name.
pub fn name_text_of(style: NameStyle, name: &str, more: bool) -> (s: String)
    ensures
        s@ == name_text(style, name@, more),
{
    let sep = if more {
        ","
    } else {
        ""
    };
    proof {
        reveal_strlit("");
        reveal_strlit(",");
    }
    let mut s = String::new();
    match style {
        NameStyle::Bullet => {
            s.append("  • ");
            s.append(name);
            s.append("\n");
        },
        NameStyle::JsonQuoted => {
            s.append("    \"");
            s.append(name);
            s.append("\"");
            s.append(sep);
            s.append("\n");
        },
        NameStyle::YamlItem => {
            s.append("  - ");
            s.append(name);
            s.append("\n");
        },
    }
    s
}

/// Appends the printed lines of all names.
pub fn append_names(out: &mut String, style: NameStyle, names: &Vec<String>)
    ensures
        final(out)@ == old(out)@ + names_text(style, views(names@)),
{
    let ghost all = views(names@);
    let n = names.len();
    if n == 0 {
        assert(out@ == old(out)@ + names_text(style, all));
        return;
    }
    let ghost body = all.drop_last();
    let mut i: usize = 0;
    while i + 1 < n
        invariant
            n == names.len() == all.len() >= 1,
            all == views(names@),
            body == all.drop_last(),
            i + 1 <= n,
            out@ == old(out)@ + concat_map(body.take(i as int), name_text_more(style)),
        decreases n - i,
    {
        proof {
            lemma_concat_map_step(body, name_text_more(style), i as int);
        }
        let line = name_text_of(style, names[i].as_str(), true);
        out.append(line.as_str());
        i = i + 1;
    }
    assert(body.take(i as int) == body);
    let line = name_text_of(style, names[n - 1].as_str(), false);
    out.append(line.as_str());
}


/// The texts `g(0)`, ..., `g(n - 1)`, one after another.
pub open spec fn concat_indexed(n: nat, g: spec_fn(int) -> Seq<char>) -> Seq<char>
    decreases n,
{
    if n == 0 {
        Seq::empty()
    } else {
        concat_indexed((n - 1) as nat, g) + g(n - 1)
    }
}

/// Where `f` of the `i`-th item is `g(i)` for the first `k` items, the texts of
/// those items are `g(0)` to `g(k - 1)`.
pub proof fn lemma_concat_map_indexed<T>(
    items: Seq<T>,
    f: spec_fn(T) -> Seq<char>,
    g: spec_fn(int) -> Seq<char>,
    k: nat,
)
    requires
        k <= items.len(),
        forall|i: int| 0 <= i < k ==> #[trigger] f(items[i]) == g(i),
    ensures
        concat_map(items.take(k as int), f) == concat_indexed(k, g),
    decreases k,
{
    if k == 0 {
        assert(items.take(0) =~= Seq::<T>::empty());
    } else {
        lemma_concat_map_indexed(items, f, g, (k - 1) as nat);
        assert(items.take(k as int).drop_last() == items.take(k - 1));
        assert(items.take(k as int).last() == items[k - 1]);
        assert(f(items[k - 1]) == g(k - 1));
    }
}

/// The printed rows are the texts `g(i)` one after another, where `g(i)` is how
/// the `i`-th row is printed, knowing whether another follows it.
pub proof fn lemma_rows_text_indexed(
    style: RowStyle,
    rows: Seq<(Seq<char>, Seq<char>, Seq<char>)>,
    g: spec_fn(int) -> Seq<char>,
)
    requires
        forall|i: int| 0 <= i < rows.len() ==> #[trigger] g(i) == row_text(style, rows[i], i + 1 < rows.len()),
    ensures
        rows_text(style, rows) == concat_indexed(rows.len(), g),
{
    let n = rows.len();
    if n > 0 {
        assert forall|i: int| 0 <= i < n - 1 implies #[trigger] row_text_more(style)(rows[i]) == g(i) by {
            assert(g(i) == row_text(style, rows[i], i + 1 < n));
        }
        lemma_concat_map_indexed(rows, row_text_more(style), g, (n - 1) as nat);
        assert(rows.drop_last() == rows.take(n - 1));
        assert(g(n - 1) == row_text(style, rows.last(), false));
    }
}

/// The printed names are the texts `g(i)` one after another, where `g(i)` is
/// how the `i`-th name is printed, knowing whether another follows it.
pub proof fn lemma_names_text_indexed(style: NameStyle, names: Seq<Seq<char>>, g: spec_fn(int) -> Seq<char>)
    requires
        forall|i: int|
            0 <= i < names.len() ==> #[trigger] g(i) == name_text(style, names[i], i + 1 < names.len()),
    ensures
        names_text(style, names) == concat_indexed(names.len(), g),
{
    let n = names.len();
    if n > 0 {
        assert forall|i: int| 0 <= i < n - 1 implies #[trigger] name_text_more(style)(names[i]) == g(i) by {
            assert(g(i) == name_text(style, names[i], i + 1 < n));
        }
        lemma_concat_map_indexed(names, name_text_more(style), g, (n - 1) as nat);
        assert(names.drop_last() == names.take(n - 1));
        assert(g(n - 1) == name_text(style, names.last(), false));
    }
}

} // verus!
