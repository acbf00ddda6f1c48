//! The JSON envelopes that every operation returns: `success`, then either
//! `error` or the operation's own fields.

use vstd::prelude::*;
use crate::json::{json_quoted, write_quoted, push_punct};
use crate::codec::{TagPair, StoredEntry};
use crate::import::{ImportReport, CategoryReport, rows_model};
use crate::categories::{CategoryCount, CategorySummary};

verus! {

/// The text of one decimal digit.
pub open spec fn digit_char(d: nat) -> char {
    if d == 0 {
        '0'
    } else if d == 1 {
        '1'
    } else if d == 2 {
        '2'
    } else if d == 3 {
        '3'
    } else if d == 4 {
        '4'
    } else if d == 5 {
        '5'
    } else if d == 6 {
        '6'
    } else if d == 7 {
        '7'
    } else if d == 8 {
        '8'
    } else {
        '9'
    }
}

/// Decimal text of `n`, without leading zeros.
pub open spec fn decimal(n: nat) -> Seq<char>
    decreases n,
{
    if n < 10 {
        seq![digit_char(n)]
    } else {
        decimal(n / 10) + seq![digit_char(n % 10)]
    }
}

fn push_digit(out: &mut String, d: u64)
    requires
        d < 10,
    ensures
        final(out)@ == old(out)@ + seq![digit_char(d as nat)],
{
    if d == 0 {
        proof { reveal_strlit("0"); }
        out.append("0");
    } else if d == 1 {
        proof { reveal_strlit("1"); }
        out.append("1");
    } else if d == 2 {
        proof { reveal_strlit("2"); }
        out.append("2");
    } else if d == 3 {
        proof { reveal_strlit("3"); }
        out.append("3");
    } else if d == 4 {
        proof { reveal_strlit("4"); }
        out.append("4");
    } else if d == 5 {
        proof { reveal_strlit("5"); }
        out.append("5");
    } else if d == 6 {
        proof { reveal_strlit("6"); }
        out.append("6");
    } else if d == 7 {
        proof { reveal_strlit("7"); }
        out.append("7");
    } else if d == 8 {
        proof { reveal_strlit("8"); }
        out.append("8");
    } else {
        proof { reveal_strlit("9"); }
        out.append("9");
    }
}

/// Appends the decimal text of `n`.
pub fn write_decimal(n: u64, out: &mut String)
    ensures
        final(out)@ == old(out)@ + decimal(n as nat),
    decreases n,
{
    if n < 10 {
        push_digit(out, n);
    } else {
        write_decimal(n / 10, out);
        push_digit(out, n % 10);
    }
}

/// `{"success":false,"error":<message>}`.
pub open spec fn failure_text(message: Seq<char>) -> Seq<char> {
    "{\"success\":false,\"error\":"@ + json_quoted(message) + "}"@
}

/// The envelope of a failed call.
pub fn failure_envelope(message: &str) -> (r: String)
    ensures
        r@ == failure_text(message@),
{
    let mut out = String::new();
    out.append("{\"success\":false,\"error\":");
    write_quoted(message, &mut out);
    out.append("}");
    out
}

/// The envelope of a call that succeeded and returns nothing more.
pub fn success_envelope() -> (r: String)
    ensures
        r@ == "{\"success\":true}"@,
{
    let mut out = String::new();
    out.append("{\"success\":true}");
    out
}

/// The failure envelope for an error of the engine, its message passed
/// through after a prefix that names the step (`Failed to open store: `).
pub fn prefixed_failure(step: &str, message: &str) -> (r: String)
    ensures
        r@ == failure_text(step@ + message@),
{
    let mut text = String::new();
    text.append(step);
    text.append(message);
    failure_envelope(text.as_str())
}

/// `,` before every element but the first.
pub open spec fn sep(n: nat) -> Seq<char> {
    if n > 1 {
        seq![',']
    } else {
        Seq::empty()
    }
}

/// `"name":{"imported":i,"failed":f}` for the first `n` rows, comma separated.
pub open spec fn report_rows_text(rows: Seq<(Seq<char>, nat, nat)>, n: nat) -> Seq<char>
    decreases n,
{
    if n == 0 || n > rows.len() {
        Seq::empty()
    } else {
        let row = rows[n - 1];
        report_rows_text(rows, (n - 1) as nat) + sep(n) + json_quoted(row.0) + ":{\"imported\":"@
            + decimal(row.1) + ",\"failed\":"@ + decimal(row.2) + "}"@
    }
}

/// The envelope of a bulk import.
pub open spec fn import_text(imported: nat, failed: nat, rows: Seq<(Seq<char>, nat, nat)>) -> Seq<
    char,
> {
    "{\"success\":true,\"imported\":"@ + decimal(imported) + ",\"failed\":"@ + decimal(failed)
        + ",\"categories\":{"@ + report_rows_text(rows, rows.len()) + "}}"@
}

/// Renders the report of a bulk import.
pub fn import_envelope(report: &ImportReport) -> (r: String)
    ensures
        r@ == import_text(
            report.imported as nat,
            report.failed as nat,
            rows_model(report.categories@),
        ),
{
    let ghost rows = rows_model(report.categories@);
    let mut out = String::new();
    out.append("{\"success\":true,\"imported\":");
    write_decimal(report.imported, &mut out);
    out.append(",\"failed\":");
    write_decimal(report.failed, &mut out);
    out.append(",\"categories\":{");
    let ghost start = out@;
    let mut i: usize = 0;
    while i < report.categories.len()
        invariant
            i <= report.categories@.len(),
            rows == rows_model(report.categories@),
            out@ == start + report_rows_text(rows, i as nat),
        decreases report.categories@.len() - i,
    {
        let row: &CategoryReport = &report.categories[i];
        if i > 0 {
            push_punct(&mut out, ',');
        }
        write_quoted(row.category.as_str(), &mut out);
        out.append(":{\"imported\":");
        write_decimal(row.imported, &mut out);
        out.append(",\"failed\":");
        write_decimal(row.failed, &mut out);
        out.append("}");
        i = i + 1;
    }
    out.append("}}");
    out
}

/// `"name":count` for the first `n` rows, comma separated.
pub open spec fn count_rows_text(rows: Seq<CategoryCount>, n: nat) -> Seq<char>
    decreases n,
{
    if n == 0 || n > rows.len() {
        Seq::empty()
    } else {
        count_rows_text(rows, (n - 1) as nat) + sep(n) + json_quoted(rows[n - 1].category@) + ":"@
            + decimal(rows[n - 1].count as nat)
    }
}

/// The envelope of a category listing.
pub open spec fn categories_text(rows: Seq<CategoryCount>, total: nat) -> Seq<char> {
    "{\"success\":true,\"categories\":{"@ + count_rows_text(rows, rows.len()) + "},\"total\":"@
        + decimal(total) + "}"@
}

/// Renders a category summary.
pub fn categories_envelope(summary: &CategorySummary) -> (r: String)
    ensures
        r@ == categories_text(summary.counts@, summary.total as nat),
{
    let mut out = String::new();
    out.append("{\"success\":true,\"categories\":{");
    let ghost start = out@;
    let mut i: usize = 0;
    while i < summary.counts.len()
        invariant
            i <= summary.counts@.len(),
            out@ == start + count_rows_text(summary.counts@, i as nat),
        decreases summary.counts@.len() - i,
    {
        if i > 0 {
            push_punct(&mut out, ',');
        }
        write_quoted(summary.counts[i].category.as_str(), &mut out);
        out.append(":");
        write_decimal(summary.counts[i].count, &mut out);
        i = i + 1;
    }
    out.append("},\"total\":");
    write_decimal(summary.total, &mut out);
    out.append("}");
    out
}

/// `{"name":..,"value":..}` for the first `n` tags, comma separated.
pub open spec fn tags_text(tags: Seq<TagPair>, n: nat) -> Seq<char>
    decreases n,
{
    if n == 0 || n > tags.len() {
        Seq::empty()
    } else {
        tags_text(tags, (n - 1) as nat) + sep(n) + "{\"name\":"@ + json_quoted(tags[n - 1].name@)
            + ",\"value\":"@ + json_quoted(tags[n - 1].value@) + "}"@
    }
}

/// The listing object of one entry.
pub open spec fn entry_text(e: StoredEntry) -> Seq<char> {
    "{\"name\":"@ + json_quoted(e.name@) + ",\"category\":"@ + json_quoted(e.category@)
        + ",\"value\":"@ + json_quoted(e.value@) + ",\"tags\":["@ + tags_text(e.tags@, e.tags@.len())
        + "]}"@
}

/// The listing objects of the first `n` entries, comma separated.
pub open spec fn entries_text(entries: Seq<StoredEntry>, n: nat) -> Seq<char>
    decreases n,
{
    if n == 0 || n > entries.len() {
        Seq::empty()
    } else {
        entries_text(entries, (n - 1) as nat) + sep(n) + entry_text(entries[n - 1])
    }
}

/// The envelope of an entry listing.
pub open spec fn listing_text(entries: Seq<StoredEntry>) -> Seq<char> {
    "{\"success\":true,\"entries\":["@ + entries_text(entries, entries.len()) + "]}"@
}

fn write_entry(e: &StoredEntry, out: &mut String)
    ensures
        final(out)@ == old(out)@ + entry_text(*e),
{
    out.append("{\"name\":");
    write_quoted(e.name.as_str(), out);
    out.append(",\"category\":");
    write_quoted(e.category.as_str(), out);
    out.append(",\"value\":");
    write_quoted(e.value.as_str(), out);
    out.append(",\"tags\":[");
    let ghost start = out@;
    let mut i: usize = 0;
    while i < e.tags.len()
        invariant
            i <= e.tags@.len(),
            out@ == start + tags_text(e.tags@, i as nat),
        decreases e.tags@.len() - i,
    {
        if i > 0 {
            push_punct(out, ',');
        }
        out.append("{\"name\":");
        write_quoted(e.tags[i].name.as_str(), out);
        out.append(",\"value\":");
        write_quoted(e.tags[i].value.as_str(), out);
        out.append("}");
        i = i + 1;
    }
    out.append("]}");
}

/// Renders the listing of every entry.
pub fn entries_envelope(entries: &Vec<StoredEntry>) -> (r: String)
    ensures
        r@ == listing_text(entries@),
{
    let mut out = String::new();
    out.append("{\"success\":true,\"entries\":[");
    let ghost start = out@;
    let mut i: usize = 0;
    while i < entries.len()
        invariant
            i <= entries@.len(),
            out@ == start + entries_text(entries@, i as nat),
        decreases entries@.len() - i,
    {
        if i > 0 {
            push_punct(&mut out, ',');
        }
        write_entry(&entries[i], &mut out);
        i = i + 1;
    }
    out.append("]}");
    out
}

} // verus!
