//! The text exposition format, as far as the store uses it: what is written
//! of gauges, and what follows for a text that was written so.

use vstd::prelude::*;
use crate::labels::LabelKey;
use crate::text::signed_decimal;

verus! {

/// The time series of an exposition, as plain values: the value of each, by
/// the name of its metric and its label set.
pub type Samples = Map<(Seq<char>, LabelKey), i64>;

/// The descriptors of an exposition, as plain values: of each metric its
/// name, its help text, and whether it is a family of labelled gauges rather
/// than one gauge without labels.
pub type Descriptors = Seq<(Seq<char>, Seq<char>, bool)>;

/// One label as it is written: the name, an equals sign, and the value
/// between double quotes.
pub open spec fn label_pair(pair: (Seq<char>, Seq<char>)) -> Seq<char> {
    pair.0 + seq!['=', '"'] + pair.1 + seq!['"']
}

/// The labels of a label set as they are written, with commas between them.
pub open spec fn label_list(key: LabelKey) -> Seq<char>
    decreases key.len(),
{
    if key.len() == 0 {
        Seq::empty()
    } else if key.len() == 1 {
        label_pair(key[0])
    } else {
        label_list(key.drop_last()) + seq![','] + label_pair(key.last())
    }
}

/// A label set as it is written: nothing for the empty one, else its labels
/// between braces.
pub open spec fn label_text(key: LabelKey) -> Seq<char> {
    if key.len() == 0 {
        Seq::empty()
    } else {
        seq!['{'] + label_list(key) + seq!['}']
    }
}

/// The line of one time series: the name of its metric, its label set, a
/// space, its value in decimal, and a newline.
pub open spec fn sample_line(name: Seq<char>, key: LabelKey, value: i64) -> Seq<char> {
    name + label_text(key) + seq![' '] + signed_decimal(value as int) + seq!['\n']
}

/// `line` stands in `text` at the place `at`, which is the start of the text
/// or follows a newline.
pub open spec fn stands_at(text: Seq<char>, line: Seq<char>, at: int) -> bool {
    &&& 0 <= at
    &&& at + line.len() <= text.len()
    &&& text.subrange(at, at + line.len()) == line
    &&& (at == 0 || text[at - 1] == '\n')
}

/// `line` stands somewhere in `text`, at the start of the text or after a
/// newline.
pub open spec fn has_line(text: Seq<char>, line: Seq<char>) -> bool {
    exists|at: int| stands_at(text, line, at)
}

/// The line that ends a text exposition.
pub open spec fn end_marker() -> Seq<char> {
    "# EOF\n"@
}

/// Whether a text ends with the end marker.
pub open spec fn is_terminated(text: Seq<char>) -> bool {
    &&& text.len() >= end_marker().len()
    &&& text.subrange(text.len() - end_marker().len(), text.len() as int) == end_marker()
}

/// The time series of one metric in the order in which they are written,
/// each with its value.
pub type Rows = Seq<(LabelKey, i64)>;

/// The two lines that come before the time series of a metric: its help
/// text, and its type, which is that of a gauge.
pub open spec fn header(name: Seq<char>, help: Seq<char>) -> Seq<char> {
    "# HELP "@ + name + seq![' '] + help + seq!['\n'] + "# TYPE "@ + name + " gauge\n"@
}

/// The lines of the given time series of one metric, in order.
pub open spec fn rows_text(name: Seq<char>, rows: Rows) -> Seq<char>
    decreases rows.len(),
{
    if rows.len() == 0 {
        Seq::empty()
    } else {
        rows_text(name, rows.drop_last()) + sample_line(name, rows.last().0, rows.last().1)
    }
}

/// What is written of one metric: nothing where it has no time series, else
/// its header and the lines of its time series.
pub open spec fn metric_text(name: Seq<char>, help: Seq<char>, rows: Rows) -> Seq<char> {
    if rows.len() == 0 {
        Seq::empty()
    } else {
        header(name, help) + rows_text(name, rows)
    }
}

/// What is written of the metrics of the given descriptors, in order, where
/// `listing` gives the time series of each.
pub open spec fn body_text(descriptors: Descriptors, listing: Seq<Rows>) -> Seq<char>
    decreases descriptors.len(),
{
    if descriptors.len() == 0 {
        Seq::empty()
    } else {
        body_text(descriptors.drop_last(), listing.drop_last()) + metric_text(
            descriptors.last().0,
            descriptors.last().1,
            listing.last(),
        )
    }
}

/// The rows name the label set.
pub open spec fn has_row(rows: Rows, key: LabelKey) -> bool {
    exists|j: int| 0 <= j < rows.len() && (#[trigger] rows[j]).0 == key
}

/// The rows are the time series that `samples` holds under the name, each
/// once and with its value, in some order.
pub open spec fn rows_of(rows: Rows, name: Seq<char>, samples: Samples) -> bool {
    &&& forall|i: int, j: int|
        0 <= i < j < rows.len() ==> (#[trigger] rows[i]).0 != (#[trigger] rows[j]).0
    &&& forall|j: int|
        0 <= j < rows.len() ==> samples.dom().contains((name, (#[trigger] rows[j]).0))
            && rows[j].1 == samples[(name, rows[j].0)]
    &&& forall|key: LabelKey| #[trigger]
        samples.dom().contains((name, key)) ==> has_row(rows, key)
}

/// `after` is `before` followed by what is written of the metrics, with the
/// time series of each as `listing` gives them, and by the end marker.
pub open spec fn written_as(
    before: Seq<char>,
    after: Seq<char>,
    descriptors: Descriptors,
    samples: Samples,
    listing: Seq<Rows>,
) -> bool {
    &&& listing.len() == descriptors.len()
    &&& forall|i: int|
        0 <= i < listing.len() ==> rows_of(#[trigger] listing[i], descriptors[i].0, samples)
    &&& after == before + body_text(descriptors, listing) + end_marker()
}

/// `after` is `before` followed by the exposition of the metrics and by the
/// end marker: of each metric that has a time series, in the order of the
/// descriptors, its header and one line for each of its time series, these in
/// some order; and nothing else.
pub open spec fn writes(
    before: Seq<char>,
    after: Seq<char>,
    descriptors: Descriptors,
    samples: Samples,
) -> bool {
    exists|listing: Seq<Rows>| written_as(before, after, descriptors, samples, listing)
}

/// Some metric is described under the name.
pub open spec fn names(descriptors: Descriptors, name: Seq<char>) -> bool {
    exists|i: int| 0 <= i < descriptors.len() && (#[trigger] descriptors[i]).0 == name
}

/// Some metric of the given kind is described under the name.
pub open spec fn describes(descriptors: Descriptors, name: Seq<char>, labelled: bool) -> bool {
    exists|i: int|
        0 <= i < descriptors.len() && (#[trigger] descriptors[i]).0 == name && descriptors[i].2
            == labelled
}

/// The lines of two lists of time series, one after the other.
proof fn lemma_rows_concat(name: Seq<char>, a: Rows, b: Rows)
    ensures
        rows_text(name, a + b) == rows_text(name, a) + rows_text(name, b),
    decreases b.len(),
{
    if b.len() == 0 {
        assert(a + b =~= a);
        assert(rows_text(name, a) + rows_text(name, b) =~= rows_text(name, a));
    } else {
        lemma_rows_concat(name, a, b.drop_last());
        assert((a + b).drop_last() =~= a + b.drop_last());
        assert((a + b).last() == b.last());
        let line = sample_line(name, b.last().0, b.last().1);
        assert(rows_text(name, a) + rows_text(name, b.drop_last()) + line =~= rows_text(name, a) + (
        rows_text(name, b.drop_last()) + line));
    }
}

/// The lines of time series end with a newline, where there are any.
proof fn lemma_rows_end(name: Seq<char>, rows: Rows)
    ensures
        rows_text(name, rows).len() == 0 || rows_text(name, rows).last() == '\n',
{
}

/// What is written of two lists of metrics, one after the other.
proof fn lemma_body_concat(d1: Descriptors, l1: Seq<Rows>, d2: Descriptors, l2: Seq<Rows>)
    requires
        d1.len() == l1.len(),
        d2.len() == l2.len(),
    ensures
        body_text(d1 + d2, l1 + l2) == body_text(d1, l1) + body_text(d2, l2),
    decreases d2.len(),
{
    if d2.len() == 0 {
        assert(d1 + d2 =~= d1);
        assert(l1 + l2 =~= l1);
        assert(body_text(d1, l1) + body_text(d2, l2) =~= body_text(d1, l1));
    } else {
        lemma_body_concat(d1, l1, d2.drop_last(), l2.drop_last());
        assert((d1 + d2).drop_last() =~= d1 + d2.drop_last());
        assert((l1 + l2).drop_last() =~= l1 + l2.drop_last());
        assert((d1 + d2).last() == d2.last());
        assert((l1 + l2).last() == l2.last());
        let tail = metric_text(d2.last().0, d2.last().1, l2.last());
        assert(body_text(d1, l1) + body_text(d2.drop_last(), l2.drop_last()) + tail =~= body_text(
            d1,
            l1,
        ) + (body_text(d2.drop_last(), l2.drop_last()) + tail));
    }
}

/// A line between two parts of a text stands in the text, where the part
/// before it is empty or ends with a newline.
proof fn lemma_stands(text: Seq<char>, a: Seq<char>, line: Seq<char>, b: Seq<char>)
    requires
        text == a + line + b,
        a.len() == 0 || a.last() == '\n',
    ensures
        has_line(text, line),
{
    let at = a.len() as int;
    assert(text.subrange(at, at + line.len()) =~= line);
    assert(stands_at(text, line, at));
}

/// What is written of the metrics is what is written of those before one of
/// them, of that one, and of those after it.
proof fn lemma_metric_in_body(descriptors: Descriptors, listing: Seq<Rows>, i: int)
    requires
        listing.len() == descriptors.len(),
        0 <= i < descriptors.len(),
    ensures
        body_text(descriptors, listing) == body_text(descriptors.take(i), listing.take(i))
            + metric_text(descriptors[i].0, descriptors[i].1, listing[i]) + body_text(
            descriptors.skip(i + 1),
            listing.skip(i + 1),
        ),
{
    let d1 = descriptors.take(i);
    let d2 = seq![descriptors[i]];
    let d3 = descriptors.skip(i + 1);
    let l1 = listing.take(i);
    let l2 = seq![listing[i]];
    let l3 = listing.skip(i + 1);
    assert(descriptors =~= d1 + d2 + d3);
    assert(listing =~= l1 + l2 + l3);
    lemma_body_concat(d1, l1, d2, l2);
    lemma_body_concat(d1 + d2, l1 + l2, d3, l3);
    assert(d2.drop_last().len() == 0);
    assert(body_text(d2.drop_last(), l2.drop_last()) =~= Seq::empty());
    assert(body_text(d2, l2) =~= metric_text(descriptors[i].0, descriptors[i].1, listing[i]));
}

/// The lines of time series are the lines of those before one of them, the
/// line of that one, and the lines of those after it.
proof fn lemma_row_in_rows(name: Seq<char>, rows: Rows, j: int)
    requires
        0 <= j < rows.len(),
    ensures
        rows_text(name, rows) == rows_text(name, rows.take(j)) + sample_line(
            name,
            rows[j].0,
            rows[j].1,
        ) + rows_text(name, rows.skip(j + 1)),
{
    let r1 = rows.take(j);
    let r2 = seq![rows[j]];
    let r3 = rows.skip(j + 1);
    assert(rows =~= r1 + r2 + r3);
    lemma_rows_concat(name, r1, r2);
    lemma_rows_concat(name, r1 + r2, r3);
    assert(r2.drop_last().len() == 0);
    assert(rows_text(name, r2.drop_last()) =~= Seq::empty());
    assert(rows_text(name, r2) =~= sample_line(name, rows[j].0, rows[j].1));
}

/// A header ends with a newline.
proof fn lemma_header_end(name: Seq<char>, help: Seq<char>)
    ensures
        header(name, help).len() > 0,
        header(name, help).last() == '\n',
{
    reveal_strlit(" gauge\n");
}

/// A line stands in a text that is made of six parts around it, where the
/// header before it ends with a newline and the lines before it are none or
/// end with one.
proof fn lemma_stands_within(
    text: Seq<char>,
    before: Seq<char>,
    metrics_before: Seq<char>,
    head: Seq<char>,
    lines_before: Seq<char>,
    line: Seq<char>,
    lines_after: Seq<char>,
    metrics_after: Seq<char>,
    end: Seq<char>,
)
    requires
        text == before + (metrics_before + (head + (lines_before + line + lines_after))
            + metrics_after) + end,
        head.len() > 0,
        head.last() == '\n',
        lines_before.len() == 0 || lines_before.last() == '\n',
    ensures
        has_line(text, line),
{
    let a = before + metrics_before + head + lines_before;
    let b = lines_after + metrics_after + end;
    assert(text =~= a + line + b);
    lemma_stands(text, a, line, b);
}

/// A text that was written holds the line of each time series that the
/// listing gives, at the start of a line.
pub proof fn lemma_written_line(
    before: Seq<char>,
    after: Seq<char>,
    descriptors: Descriptors,
    samples: Samples,
    listing: Seq<Rows>,
    i: int,
    j: int,
)
    requires
        written_as(before, after, descriptors, samples, listing),
        0 <= i < descriptors.len(),
        0 <= j < listing[i].len(),
    ensures
        has_line(after, sample_line(descriptors[i].0, listing[i][j].0, listing[i][j].1)),
{
    let name = descriptors[i].0;
    let help = descriptors[i].1;
    let rows = listing[i];
    lemma_metric_in_body(descriptors, listing, i);
    lemma_row_in_rows(name, rows, j);
    lemma_rows_end(name, rows.take(j));
    lemma_header_end(name, help);
    lemma_stands_within(
        after,
        before,
        body_text(descriptors.take(i), listing.take(i)),
        header(name, help),
        rows_text(name, rows.take(j)),
        sample_line(name, rows[j].0, rows[j].1),
        rows_text(name, rows.skip(j + 1)),
        body_text(descriptors.skip(i + 1), listing.skip(i + 1)),
        end_marker(),
    );
}

/// A text that was written ends with the end marker.
pub proof fn lemma_written_terminated(
    before: Seq<char>,
    after: Seq<char>,
    descriptors: Descriptors,
    samples: Samples,
    listing: Seq<Rows>,
)
    requires
        written_as(before, after, descriptors, samples, listing),
    ensures
        is_terminated(after),
{
    let front = before + body_text(descriptors, listing);
    assert(after.subrange(after.len() - end_marker().len(), after.len() as int) =~= end_marker());
}

} // verus!
