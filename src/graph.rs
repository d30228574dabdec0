use vstd::prelude::*;

use crate::aggregate::entries_view;
use crate::text::{
    all_digits, chars_of, contains_seq, decimal, decimal_text, digits_value, find,
    first_occurrence, lemma_decimal_round_trip, lemma_first_occurrence_unique, occurs_at,
    parse_usize_digits,
};

verus! {

/// Characters in a full-length bar.
pub const BAR_WIDTH: usize = 40;

/// The bar length for `count` when the largest count is `max`: proportional,
/// rounded down, but at least one character for any commit at all.
pub open spec fn bar_len(count: nat, max: nat) -> nat {
    if count == 0 || max == 0 {
        0
    } else if count * 40 / max == 0 {
        1
    } else {
        count * 40 / max
    }
}

/// A bar of `n` characters, padded with spaces to the full width.
pub open spec fn bar_field(n: nat) -> Seq<char> {
    Seq::new(n, |i: int| '#') + Seq::new((40 - n) as nat, |i: int| ' ')
}

/// One graph line: the bar field, the count in parentheses, then the label.
pub open spec fn graph_line(label: Seq<char>, count: nat, max: nat) -> Seq<char> {
    bar_field(bar_len(count, max)) + seq![' ', '('] + decimal_text(count) + seq![')', ' '] + label
}

/// The largest count of a list of rows (zero when empty).
pub open spec fn max_count(rows: Seq<(Seq<char>, nat)>) -> nat
    decreases rows.len(),
{
    if rows.len() == 0 {
        0
    } else {
        let m = max_count(rows.drop_last());
        if rows.last().1 > m {
            rows.last().1
        } else {
            m
        }
    }
}

/// The graph of a list of (label, count) rows, one line per row, in order.
pub open spec fn graph_lines(rows: Seq<(Seq<char>, nat)>) -> Seq<Seq<char>> {
    Seq::new(rows.len(), |i: int| graph_line(rows[i].0, rows[i].1, max_count(rows)))
}

/// The (label, count) that a graph line shows, if it has the shape of one.
pub open spec fn parsed_graph_line(line: Seq<char>) -> Option<(Seq<char>, nat)> {
    if line.len() < 42 || line[40] != ' ' || line[41] != '(' {
        None
    } else {
        let rest = line.skip(42);
        if !contains_seq(rest, seq![')']) {
            None
        } else {
            let j = first_occurrence(rest, seq![')']);
            let digits = rest.take(j);
            if j == 0 || !all_digits(digits) || digits_value(digits) > usize::MAX || j + 2
                > rest.len() || rest[j + 1] != ' ' {
                None
            } else {
                Some((rest.skip(j + 2), digits_value(digits)))
            }
        }
    }
}

proof fn lemma_max_count(rows: Seq<(Seq<char>, nat)>)
    ensures
        forall|i: int| 0 <= i < rows.len() ==> #[trigger] rows[i].1 <= max_count(rows),
        rows.len() > 0 ==> exists|i: int| 0 <= i < rows.len() && #[trigger] rows[i].1 == max_count(rows),
    decreases rows.len(),
{
    if rows.len() > 0 {
        lemma_max_count(rows.drop_last());
        assert forall|i: int| 0 <= i < rows.len() implies #[trigger] rows[i].1 <= max_count(
            rows,
        ) by {
            if i < rows.len() - 1 {
                assert(rows.drop_last()[i] == rows[i]);
            }
        }
        if rows.last().1 <= max_count(rows.drop_last()) && rows.len() > 1 {
            let i = choose|i: int|
                0 <= i < rows.drop_last().len() && #[trigger] rows.drop_last()[i].1 == max_count(
                    rows.drop_last(),
                );
            assert(rows[i] == rows.drop_last()[i]);
        } else {
            assert(rows[rows.len() - 1].1 == max_count(rows));
        }
    }
}

/// A bar is never longer than the full width, for a count at most the largest.
proof fn lemma_bar_len_bounded(count: nat, max: nat)
    requires
        count <= max,
    ensures
        bar_len(count, max) <= 40,
{
    if count > 0 && max > 0 {
        assert(count * 40 <= max * 40) by (nonlinear_arith)
            requires
                count <= max,
        ;
        assert(count * 40 / max <= 40) by (nonlinear_arith)
            requires
                count * 40 <= max * 40,
                max > 0,
        ;
    }
}

/// Any commit at all gets a bar of at least one character, and the largest count
/// gets the full width.
pub proof fn lemma_bar_lengths(count: nat, max: nat)
    requires
        count <= max,
    ensures
        count > 0 ==> bar_len(count, max) >= 1,
        count > 0 && count == max ==> bar_len(count, max) == 40,
        bar_len(count, max) <= 40,
{
    lemma_bar_len_bounded(count, max);
    if count > 0 && count == max {
        assert(max * 40 / max == 40) by (nonlinear_arith)
            requires
                max > 0,
        ;
    }
}

/// In any rendered graph, every row with commits has a bar, and a row with the
/// largest count has a full-width one.
pub proof fn lemma_graph_bars(rows: Seq<(Seq<char>, nat)>, i: int)
    requires
        0 <= i < rows.len(),
    ensures
        rows[i].1 > 0 ==> bar_len(rows[i].1, max_count(rows)) >= 1,
        rows[i].1 > 0 && rows[i].1 == max_count(rows) ==> bar_len(rows[i].1, max_count(rows))
            == 40,
        graph_lines(rows)[i] == graph_line(rows[i].0, rows[i].1, max_count(rows)),
{
    lemma_max_count(rows);
    lemma_bar_lengths(rows[i].1, max_count(rows));
}

/// Reading back a rendered line gives its label and count.
pub proof fn lemma_graph_line_round_trip(label: Seq<char>, count: nat, max: nat)
    requires
        count <= max,
        count <= usize::MAX,
    ensures
        parsed_graph_line(graph_line(label, count, max)) == Some((label, count)),
{
    lemma_bar_len_bounded(count, max);
    lemma_decimal_round_trip(count);
    let d = decimal_text(count);
    let line = graph_line(label, count, max);
    let bar = bar_field(bar_len(count, max));
    assert(bar.len() == 40);
    let rest = line.skip(42);
    let close = seq![')'];
    assert(line[40] == ' ' && line[41] == '(');
    assert(rest =~= d + seq![')', ' '] + label);
    let j = d.len() as int;
    assert(occurs_at(rest, close, j)) by {
        assert(rest.subrange(j, j + 1) =~= close);
    }
    assert forall|k: int| 0 <= k < j implies !occurs_at(rest, close, k) by {
        assert(rest[k] == d[k]);
        assert(crate::text::is_digit(d[k]));
        if occurs_at(rest, close, k) {
            assert(rest.subrange(k, k + 1)[0] == rest[k]);
        }
    }
    lemma_first_occurrence_unique(rest, close, j);
    assert(rest.take(j) =~= d);
    assert(rest.skip(j + 2) =~= label);
}

/// Reading back every line of a rendered graph gives the rows it was drawn from.
pub proof fn lemma_graph_round_trip(rows: Seq<(Seq<char>, nat)>)
    requires
        forall|i: int| 0 <= i < rows.len() ==> #[trigger] rows[i].1 <= usize::MAX,
    ensures
        forall|i: int|
            0 <= i < rows.len() ==> parsed_graph_line(#[trigger] graph_lines(rows)[i]) == Some(
                rows[i],
            ),
{
    lemma_max_count(rows);
    assert forall|i: int| 0 <= i < rows.len() implies parsed_graph_line(
        #[trigger] graph_lines(rows)[i],
    ) == Some(rows[i]) by {
        lemma_graph_line_round_trip(rows[i].0, rows[i].1, max_count(rows));
    }
}

/// The bar length for `count` when the largest count is `max`.
pub fn bar_length(count: usize, max: usize) -> (r: usize)
    requires
        count <= max,
    ensures
        r == bar_len(count as nat, max as nat),
        r <= BAR_WIDTH,
{
    proof {
        lemma_bar_len_bounded(count as nat, max as nat);
    }
    if count == 0 || max == 0 {
        return 0;
    }
    let scaled: u128 = count as u128 * 40;
    let l = (scaled / max as u128) as usize;
    if l == 0 {
        1
    } else {
        l
    }
}

/// One graph line for (`label`, `count`) when the largest count is `max`.
pub fn graph_line_text(label: &str, count: usize, max: usize) -> (r: String)
    requires
        count <= max,
    ensures
        r@ == graph_line(label@, count as nat, max as nat),
{
    proof {
        reveal_strlit("#");
        reveal_strlit(" ");
        reveal_strlit(" (");
        reveal_strlit(") ");
    }
    let b = bar_length(count, max);
    let mut out = String::new();
    let mut i: usize = 0;
    while i < BAR_WIDTH
        invariant
            b <= 40,
            i <= 40,
            out@ =~= bar_field(b as nat).take(i as int),
        decreases BAR_WIDTH - i,
    {
        proof {
            reveal_strlit("#");
            reveal_strlit(" ");
        }
        let ghost before = out@;
        if i < b {
            out.append("#");
            assert(bar_field(b as nat)[i as int] == '#');
        } else {
            out.append(" ");
            assert(bar_field(b as nat)[i as int] == ' ');
        }
        assert(out@ =~= before.push(bar_field(b as nat)[i as int]));
        assert(out@ =~= bar_field(b as nat).take(i + 1));
        i = i + 1;
    }
    assert(bar_field(b as nat).take(40) =~= bar_field(b as nat));
    out.append(" (");
    let digits = decimal(count as u64);
    out.append(digits.as_str());
    out.append(") ");
    out.append(label);
    out
}

/// The largest count of the rows (zero when there are none).
fn largest_count(rows: &Vec<(String, usize)>) -> (r: usize)
    ensures
        r == max_count(entries_view(rows@)),
{
    let mut m: usize = 0;
    let mut i: usize = 0;
    while i < rows.len()
        invariant
            i <= rows@.len(),
            m == max_count(entries_view(rows@).take(i as int)),
        decreases rows.len() - i,
    {
        assert(entries_view(rows@).take(i + 1).drop_last() =~= entries_view(rows@).take(i as int));
        if rows[i].1 > m {
            m = rows[i].1;
        }
        i = i + 1;
    }
    assert(entries_view(rows@).take(i as int) =~= entries_view(rows@));
    m
}

/// Renders (label, count) rows as bar-chart lines, one per row, in the given
/// order; bars are scaled to the largest count.
pub fn render_graph(rows: &Vec<(String, usize)>) -> (r: Vec<String>)
    ensures
        r@.len() == rows@.len(),
        forall|i: int| 0 <= i < r@.len() ==> #[trigger] r@[i]@ == graph_lines(entries_view(rows@))[i],
{
    let max = largest_count(rows);
    proof {
        lemma_max_count(entries_view(rows@));
    }
    let mut out: Vec<String> = Vec::new();
    let mut i: usize = 0;
    while i < rows.len()
        invariant
            i <= rows@.len(),
            out@.len() == i,
            max == max_count(entries_view(rows@)),
            forall|j: int| 0 <= j < rows@.len() ==> #[trigger] entries_view(rows@)[j].1 <= max,
            forall|j: int| 0 <= j < i ==> #[trigger] out@[j]@ == graph_lines(entries_view(rows@))[j],
        decreases rows.len() - i,
    {
        assert(entries_view(rows@)[i as int].1 == rows@[i as int].1);
        let line = graph_line_text(rows[i].0.as_str(), rows[i].1, max);
        out.push(line);
        i = i + 1;
    }
    out
}

/// The (label, count) that a graph line shows, if it has the shape of one.
pub fn parse_graph_line(line: &str) -> (r: Option<(String, usize)>)
    ensures
        match r {
            Some(p) => parsed_graph_line(line@) == Some((p.0@, p.1 as nat)),
            None => parsed_graph_line(line@) is None,
        },
{
    let cs = chars_of(line);
    if cs.len() < 42 || cs[40] != ' ' || cs[41] != '(' {
        return None;
    }
    let rest = line.substring_char(42, cs.len());
    let rc = chars_of(rest);
    assert(rest@ =~= line@.skip(42));
    let close: Vec<char> = vec![')'];
    assert(close@ =~= seq![')']);
    let j = match find(&rc, &close) {
        None => return None,
        Some(j) => j,
    };
    assert(occurs_at(rc@, close@, j as int));
    if j == 0 {
        return None;
    }
    let count = match parse_usize_digits(&rc, 0, j) {
        None => {
            assert(rc@.subrange(0, j as int) =~= rc@.take(j as int));
            return None;
        },
        Some(c) => c,
    };
    assert(rc@.subrange(0, j as int) =~= rc@.take(j as int));
    if j + 2 > rc.len() || rc[j + 1] != ' ' {
        return None;
    }
    let label = rest.substring_char(j + 2, rc.len());
    assert(label@ =~= rest@.skip(j + 2));
    Some((label.to_owned(), count))
}

} // verus!
