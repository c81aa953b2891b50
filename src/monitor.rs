use vstd::prelude::*;
use vstd::string::*;
use vstd::utf8::encode_utf8;

use crate::service::{metric_views, MetricView, QueueMetric};
use crate::text::{decimal, push_decimal};

verus! {

/// The heading whose byte length is the least width of the name column.
pub const NAME_HEADING: &'static str = "队列";

/// The number of bytes of a text in UTF-8.
pub open spec fn byte_len(s: Seq<char>) -> nat {
    encode_utf8(s).len()
}

/// The width of the name column: the largest byte length among the heading
/// and the queue names.
pub open spec fn name_width(ms: Seq<MetricView>) -> nat
    decreases ms.len(),
{
    if ms.len() == 0 {
        byte_len(NAME_HEADING@)
    } else {
        let w = name_width(ms.drop_last());
        let n = byte_len(ms.last().name);
        if n > w { n } else { w }
    }
}

/// `k` copies of `c`.
pub open spec fn repeat_char(c: char, k: nat) -> Seq<char> {
    Seq::new(k, |_i: int| c)
}

/// `s` followed by spaces up to `width` characters.
pub open spec fn padded(s: Seq<char>, width: nat) -> Seq<char> {
    if s.len() >= width {
        s
    } else {
        s + repeat_char(' ', (width - s.len()) as nat)
    }
}

/// The row of one metric.
pub open spec fn table_row(m: MetricView, width: nat) -> Seq<char> {
    "│ "@ + padded(m.name, width + 12) + " │ "@ + padded(decimal(m.count as nat), 12) + " │"@
}

/// The lines of the table of the metrics: a top border, a heading, a rule,
/// one row per metric in order, and a bottom border.
pub open spec fn table_of(ms: Seq<MetricView>) -> Seq<Seq<char>> {
    let w = name_width(ms);
    seq![
        "┌"@ + repeat_char('─', w + 14) + "┬──────────────┐"@,
        "│ "@ + padded("queue"@, w + 12) + " │     count    │"@,
        "├"@ + repeat_char('─', w + 14) + "┼──────────────┤"@,
    ] + ms.map_values(|m: MetricView| table_row(m, w)) + seq!["└"@ + repeat_char('─', w + 14) + "┴──────────────┘"@]
}

proof fn lemma_name_width_bounds(ms: Seq<MetricView>)
    ensures
        byte_len(NAME_HEADING@) <= name_width(ms),
        forall|i: int| 0 <= i < ms.len() ==> byte_len(#[trigger] ms[i].name) <= name_width(ms),
    decreases ms.len(),
{
    if ms.len() > 0 {
        lemma_name_width_bounds(ms.drop_last());
        assert forall|i: int| 0 <= i < ms.len() implies byte_len(#[trigger] ms[i].name) <= name_width(ms) by {
            if i < ms.len() - 1 {
                assert(ms.drop_last()[i] == ms[i]);
            }
        };
    }
}

fn push_repeat(s: &mut String, piece: &str, k: usize)
    requires
        piece@.len() == 1,
    ensures
        final(s)@ == old(s)@ + repeat_char(piece@[0], k as nat),
{
    let mut i: usize = 0;
    while i < k
        invariant
            i <= k,
            piece@.len() == 1,
            s@ == old(s)@ + repeat_char(piece@[0], i as nat),
        decreases k - i,
    {
        s.append(piece);
        i = i + 1;
        assert(s@ =~= old(s)@ + repeat_char(piece@[0], i as nat));
    }
}

fn push_padded(s: &mut String, text: &str, width: usize)
    ensures
        final(s)@ == old(s)@ + padded(text@, width as nat),
{
    s.append(text);
    let n = text.unicode_len();
    if n < width {
        proof {
            reveal_strlit(" ");
        }
        push_repeat(s, " ", width - n);
    }
    assert(s@ =~= old(s)@ + padded(text@, width as nat));
}

fn border(left: &str, width: usize, right: &str) -> (r: String)
    requires
        width <= usize::MAX - 14,
    ensures
        r@ == left@ + repeat_char('─', width as nat + 14) + right@,
{
    proof {
        reveal_strlit("─");
    }
    let mut line = String::from_str(left);
    push_repeat(&mut line, "─", width + 14);
    line.append(right);
    line
}

/// The lines of the console table of the metrics, in their order.
pub fn metrics_table(metrics: &Vec<QueueMetric>) -> (r: Vec<String>)
    requires
        name_width(metric_views(metrics@)) <= usize::MAX - 14,
    ensures
        r@.map_values(|l: String| l@) == table_of(metric_views(metrics@)),
{
    let ghost ms = metric_views(metrics@);
    proof {
        lemma_name_width_bounds(ms);
        assert(ms.subrange(0, 0) =~= Seq::<MetricView>::empty());
    }
    let mut width: usize = NAME_HEADING.len();
    let mut i: usize = 0;
    while i < metrics.len()
        invariant
            i <= metrics@.len(),
            ms == metric_views(metrics@),
            width as nat == name_width(ms.subrange(0, i as int)),
            name_width(ms) <= usize::MAX - 14,
            forall|k: int| 0 <= k < ms.len() ==> byte_len(#[trigger] ms[k].name) <= name_width(ms),
        decreases metrics@.len() - i,
    {
        assert(ms.subrange(0, i + 1).drop_last() =~= ms.subrange(0, i as int));
        assert(ms.subrange(0, i + 1).last() == ms[i as int]);
        assert(ms[i as int].name == metrics@[i as int].name@);
        let n = metrics[i].name.as_str().len();
        if n > width {
            width = n;
        }
        i = i + 1;
    }
    assert(ms.subrange(0, metrics@.len() as int) =~= ms);
    let mut lines: Vec<String> = Vec::new();
    lines.push(border("┌", width, "┬──────────────┐"));
    let mut heading = String::from_str("│ ");
    push_padded(&mut heading, "queue", width + 12);
    heading.append(" │     count    │");
    lines.push(heading);
    lines.push(border("├", width, "┼──────────────┤"));
    let mut j: usize = 0;
    while j < metrics.len()
        invariant
            j <= metrics@.len(),
            ms == metric_views(metrics@),
            width as nat == name_width(ms),
            width <= usize::MAX - 14,
            lines@.len() == 3 + j,
            lines@.map_values(|l: String| l@) == table_of(ms).subrange(0, 3 + j),
        decreases metrics@.len() - j,
    {
        let m = &metrics[j];
        let mut row = String::from_str("│ ");
        push_padded(&mut row, m.name.as_str(), width + 12);
        row.append(" │ ");
        let mut count = String::new();
        push_decimal(&mut count, m.count as u64);
        push_padded(&mut row, count.as_str(), 12);
        row.append(" │");
        let ghost before = lines@.map_values(|l: String| l@);
        lines.push(row);
        j = j + 1;
        assert(lines@.map_values(|l: String| l@) =~= before.push(table_row(ms[j - 1], width as nat)));
        assert(lines@.map_values(|l: String| l@) =~= table_of(ms).subrange(0, 3 + j));
    }
    let ghost before = lines@.map_values(|l: String| l@);
    let ghost n = metrics@.len() as int;
    let last = border("└", width, "┴──────────────┘");
    assert(table_of(ms).len() == 4 + n);
    assert(table_of(ms)[3 + n] == last@);
    lines.push(last);
    assert(lines@.map_values(|l: String| l@) =~= before.push(last@));
    assert(lines@.map_values(|l: String| l@) =~= table_of(ms));
    lines
}

} // verus!
