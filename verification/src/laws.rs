//! What holds of a process across its operations.

use vstd::prelude::*;
use crate::grid::{Alignment, Grid};
use crate::out::{collected, feeds, ActionView, Handler, OutToString};
use crate::process::{adds, adds_all, adds_lines, batch_order, DrawProcess, ProcessView};
use crate::trim::{texts, FormatError, Ignore, TrimStrategy};

verus! {

/// The characters of each string of `items`, in order.
pub open spec fn contents(items: Seq<String>) -> Seq<Seq<char>> {
    items.map_values(|t: String| t@)
}

/// No section of a process holds more lines than it has rows: the minus
/// section has the rows above the divider, the plus section the others.
pub proof fn lemma_capacity(p: &DrawProcess)
    requires
        p.wf(),
    ensures
        p@.divider <= p@.height(),
        p@.minus.len() <= p@.divider,
        p@.plus.len() <= p@.height() - p@.divider,
        p@.side(Alignment::Minus).len() + p@.free(Alignment::Minus) + p@.side(Alignment::Plus).len()
            + p@.free(Alignment::Plus) == p@.height(),
{
}

/// Drawing covers every row once: the actions come in pairs, the pair of
/// row `r` moves to the start of that row and then prints what the row
/// shows, and there is one pair for each row of the process, from the top
/// down.
pub proof fn lemma_row_coverage(v: ProcessView)
    requires
        v.wf(),
    ensures
        v.actions().len() == 2 * v.height(),
        forall|r: int|
            0 <= r < v.height() ==> {
                &&& #[trigger] v.actions()[2 * r] == ActionView::MoveTo(
                    v.start_x,
                    (v.start_y + r) as nat,
                )
                &&& v.actions()[2 * r + 1] == ActionView::Print(v.row(r))
            },
{
}

/// Every row shows a blank line or one line of a section, and every line
/// of a section is shown by one row: line `i` of the minus section by the
/// row `i + 1` rows above the divider, line `i` of the plus section by the
/// row `i` rows below the divider.
pub proof fn lemma_rows_show_lines(v: ProcessView)
    requires
        v.wf(),
    ensures
        forall|i: int| 0 <= i < v.minus.len() ==> #[trigger] v.row(v.divider - 1 - i) == v.minus[i],
        forall|i: int| 0 <= i < v.plus.len() ==> #[trigger] v.row(v.divider + i) == v.plus[i],
        forall|r: int|
            0 <= r < v.divider - v.minus.len() || v.divider + v.plus.len() <= r < v.height()
                ==> #[trigger] v.row(r) == crate::process::blank(v.width()),
{
}

/// Placing lines keeps a process well formed, changes nothing but the
/// section that takes them, and keeps the lines that the section had in
/// their places.
pub proof fn lemma_placed_keeps(v: ProcessView, a: Alignment, lines: Seq<Seq<char>>)
    requires
        v.wf(),
    ensures
        v.placed(a, lines).wf(),
        v.placed(a, lines).with_side(a, v.side(a)) == v,
        v.placed(a, lines).side(a).len() == v.side(a).len() + v.taken(a, lines),
        v.placed(a, lines).free(a) == v.free(a) - v.taken(a, lines),
        v.side(a).is_prefix_of(v.placed(a, lines).side(a)),
        v.taken(a, lines) + v.left_over(a, lines).len() == lines.len(),
{
}

/// Placing one batch of lines and then another is placing the two as one.
pub proof fn lemma_placed_twice(
    v: ProcessView,
    a: Alignment,
    first: Seq<Seq<char>>,
    second: Seq<Seq<char>>,
)
    requires
        v.wf(),
    ensures
        v.placed(a, first).placed(a, second) == v.placed(a, first + second),
{
    let k1 = v.taken(a, first) as int;
    let mid = v.placed(a, first);
    let k2 = mid.taken(a, second) as int;
    let k = v.taken(a, first + second) as int;
    assert(k == k1 + k2);
    assert((first + second).take(k) =~= first.take(k1) + second.take(k2));
    assert(mid.side(a) + second.take(k2) =~= v.side(a) + (first + second).take(k));
}

/// Whatever the strategy, adding a text keeps the process well formed and
/// changes nothing but the section that takes it, whose lines stay in their
/// places; and the result is `NoSpace` only if the section is full
/// afterwards.
pub proof fn lemma_adds_keeps<T: TrimStrategy>(
    chunk: ProcessView,
    strategy: T,
    text: T::Input,
    a: Alignment,
    chunk_after: ProcessView,
    strategy_after: T,
    res: Result<(), FormatError<T>>,
)
    requires
        chunk.wf(),
        adds::<T>(chunk, strategy, text, a, chunk_after, strategy_after, res),
    ensures
        chunk_after.wf(),
        chunk_after.with_side(a, chunk.side(a)) == chunk,
        chunk.side(a).is_prefix_of(chunk_after.side(a)),
        res is Err ==> chunk_after.free(a) == 0,
        chunk.free(a) == 0 ==> chunk_after == chunk,
{
    let (mid, lines) = choose|mid: T, lines: Seq<Seq<char>>|
        adds_lines::<T>(chunk, strategy, text, a, mid, lines, chunk_after, strategy_after, res);
    lemma_placed_keeps(chunk, a, lines);
    if chunk.free(a) == 0 {
        assert(chunk.side(a) + lines.take(0) =~= chunk.side(a));
    }
}

/// With [`Ignore`], adding a text places it as one line if the section
/// has a free row, and changes nothing and fails with that line if it has
/// none.
pub proof fn lemma_ignore_adds(
    chunk: ProcessView,
    strategy: Ignore,
    text: String,
    a: Alignment,
    chunk_after: ProcessView,
    strategy_after: Ignore,
    res: Result<(), FormatError<Ignore>>,
)
    requires
        chunk.wf(),
        adds::<Ignore>(chunk, strategy, text, a, chunk_after, strategy_after, res),
    ensures
        chunk_after == chunk.placed(a, seq![text@]),
        chunk.free(a) > 0 ==> res is Ok && chunk_after == chunk.with_side(
            a,
            chunk.side(a).push(text@),
        ),
        chunk.free(a) == 0 ==> chunk_after == chunk && (res matches Err(FormatError::NoSpace(error))
            && texts(error@) == seq![text@]),
{
    let (mid, lines) = choose|mid: Ignore, lines: Seq<Seq<char>>|
        adds_lines::<Ignore>(chunk, strategy, text, a, mid, lines, chunk_after, strategy_after, res);
    assert(lines == seq![text@]);
    if chunk.free(a) > 0 {
        assert(lines.take(1) =~= lines);
        assert(chunk.side(a) + lines =~= chunk.side(a).push(text@));
    } else {
        assert(chunk.side(a) + lines.take(0) =~= chunk.side(a));
        assert(lines.skip(0) =~= lines);
    }
}

/// With [`Ignore`], adding texts one after the other places them as lines
/// until the section is full: the result of a text is `Ok` exactly if fewer
/// texts came before it than the section had free rows.
pub proof fn lemma_ignore_adds_all(
    chunk: ProcessView,
    strategy: Ignore,
    items: Seq<String>,
    a: Alignment,
    chunk_after: ProcessView,
    strategy_after: Ignore,
    results: Seq<Result<(), FormatError<Ignore>>>,
)
    requires
        chunk.wf(),
        adds_all::<Ignore>(chunk, strategy, items, a, chunk_after, strategy_after, results),
    ensures
        chunk_after == chunk.placed(a, contents(items)),
        results.len() == items.len(),
        forall|i: int| 0 <= i < items.len() ==> (#[trigger] results[i] is Ok <==> i < chunk.free(a)),
    decreases items.len(),
{
    if items.len() == 0 {
        assert(chunk.side(a) + contents(items).take(0) =~= chunk.side(a));
    } else {
        let (c, s) = choose|c: ProcessView, s: Ignore|
            {
                &&& adds_all::<Ignore>(chunk, strategy, items.drop_last(), a, c, s, results.drop_last())
                &&& #[trigger] adds::<Ignore>(
                    c,
                    s,
                    items.last(),
                    a,
                    chunk_after,
                    strategy_after,
                    results.last(),
                )
            };
        lemma_ignore_adds_all(chunk, strategy, items.drop_last(), a, c, s, results.drop_last());
        lemma_placed_keeps(chunk, a, contents(items.drop_last()));
        lemma_ignore_adds(c, s, items.last(), a, chunk_after, strategy_after, results.last());
        lemma_placed_twice(chunk, a, contents(items.drop_last()), seq![items.last()@]);
        assert(contents(items.drop_last()) + seq![items.last()@] =~= contents(items));
        assert forall|i: int| 0 <= i < items.len() implies (#[trigger] results[i] is Ok <==> i
            < chunk.free(a)) by {
            if i < items.len() - 1 {
                assert(results[i] == results.drop_last()[i]);
            }
        }
    }
}

/// Lines placed in the plus section read downwards: the first new line
/// stands in the first free row below the divider, each later one in the row
/// below the one before.
pub proof fn lemma_plus_reads_down(v: ProcessView, lines: Seq<Seq<char>>)
    requires
        v.wf(),
        lines.len() <= v.free(Alignment::Plus),
    ensures
        forall|i: int|
            0 <= i < lines.len() ==> #[trigger] v.placed(Alignment::Plus, lines).row(
                v.divider + v.plus.len() + i,
            ) == lines[i],
{
    assert(lines.take(lines.len() as int) =~= lines);
}

/// Lines placed in the minus section read upwards: the first new line
/// stands in the first free row above the divider, each later one in the row
/// above the one before.
pub proof fn lemma_minus_reads_up(v: ProcessView, lines: Seq<Seq<char>>)
    requires
        v.wf(),
        lines.len() <= v.free(Alignment::Minus),
    ensures
        forall|i: int|
            0 <= i < lines.len() ==> #[trigger] v.placed(Alignment::Minus, lines).row(
                v.divider - 1 - v.minus.len() - i,
            ) == lines[i],
{
    assert(lines.take(lines.len() as int) =~= lines);
}

/// The row of the first item of a batch of `count` items that all find
/// room in section `a`, counted from the top of the process.
pub open spec fn batch_top(v: ProcessView, a: Alignment, count: nat) -> int {
    match a {
        Alignment::Minus => v.divider - v.minus.len() - count,
        Alignment::Plus => (v.divider + v.plus.len()) as int,
    }
}

/// With [`Ignore`], a batch that finds room reads from the top down in the
/// order of its items, in either section: every result is `Ok`, and item `i`
/// stands `i` rows below the first one.
pub proof fn lemma_batch_reads_down(
    chunk: ProcessView,
    strategy: Ignore,
    items: Seq<String>,
    a: Alignment,
    chunk_after: ProcessView,
    strategy_after: Ignore,
    results: Seq<Result<(), FormatError<Ignore>>>,
)
    requires
        chunk.wf(),
        items.len() <= chunk.free(a),
        adds_all::<Ignore>(
            chunk,
            strategy,
            batch_order(items, a),
            a,
            chunk_after,
            strategy_after,
            batch_order(results, a),
        ),
    ensures
        results.len() == items.len(),
        forall|i: int| 0 <= i < items.len() ==> #[trigger] results[i] is Ok,
        forall|i: int|
            0 <= i < items.len() ==> #[trigger] chunk_after.row(
                batch_top(chunk, a, items.len()) + i,
            ) == items[i]@,
{
    let order = batch_order(items, a);
    let got = batch_order(results, a);
    lemma_ignore_adds_all(chunk, strategy, order, a, chunk_after, strategy_after, got);
    match a {
        Alignment::Minus => {
            lemma_minus_reads_up(chunk, contents(order));
            assert forall|i: int| 0 <= i < items.len() implies #[trigger] results[i] is Ok by {
                assert(got[items.len() - 1 - i] is Ok);
            }
            assert forall|i: int| 0 <= i < items.len() implies #[trigger] chunk_after.row(
                batch_top(chunk, a, items.len()) + i,
            ) == items[i]@ by {
                let j = items.len() - 1 - i;
                assert(chunk.placed(Alignment::Minus, contents(order)).row(
                    chunk.divider - 1 - chunk.minus.len() - j,
                ) == contents(order)[j]);
            }
        },
        Alignment::Plus => {
            lemma_plus_reads_down(chunk, contents(order));
            assert forall|i: int| 0 <= i < items.len() implies #[trigger] chunk_after.row(
                batch_top(chunk, a, items.len()) + i,
            ) == items[i]@ by {
                assert(chunk.placed(Alignment::Plus, contents(order)).row(
                    chunk.divider + chunk.plus.len() + i,
                ) == contents(order)[i]);
            }
        },
    }
}

/// Rows that a section gave up can be taken back: giving up the spare rows
/// of a section leaves a well-formed process and a well-formed grid of
/// exactly those rows, and extending the process by that grid restores it.
pub proof fn lemma_split_then_extend(
    v: ProcessView,
    a: Alignment,
    min_left: Option<usize>,
    max_taken: Option<usize>,
)
    requires
        v.wf(),
    ensures
        ({
            let k = v.spare(a, min_left, max_taken);
            let rest = v.without_rows(a, k);
            let given = v.rows_given(a, k);
            &&& k <= v.free(a)
            &&& rest.wf()
            &&& rest.minus == v.minus
            &&& rest.plus == v.plus
            &&& rest.height() == v.height() - k
            &&& given.wf()
            &&& given.spec_height() == k
            &&& given.spec_width() == v.width()
            &&& k > 0 ==> rest.joins_below(given) || rest.joins_above(given)
            &&& rest.extended(given) == v
        }),
{
}

/// A grid with other columns, or one that touches neither the top nor the
/// bottom of the process, is not taken in.
pub proof fn lemma_extend_rejects(v: ProcessView, grid: Grid)
    requires
        v.wf(),
        grid.wf(),
        v.start_x != grid.start_x || v.end_x != grid.end_x || (v.end_y != grid.start_y && v.start_y
            != grid.end_y),
    ensures
        !v.joins_below(grid),
        !v.joins_above(grid),
        v.extended(grid) == v,
{
}

/// Extending keeps a process well formed, keeps its lines, and adds the
/// rows of the grid to its height if the grid is taken in.
pub proof fn lemma_extended_keeps(v: ProcessView, grid: Grid)
    requires
        v.wf(),
        grid.wf(),
    ensures
        v.extended(grid).wf(),
        v.extended(grid).minus == v.minus,
        v.extended(grid).plus == v.plus,
        v.joins_below(grid) || v.joins_above(grid) ==> v.extended(grid).height() == v.height()
            + grid.spec_height(),
{
}

/// Clearing keeps the rectangle, leaves no line, and gives a well-formed
/// process if the new divider lies inside the rectangle.
pub proof fn lemma_cleared_keeps(v: ProcessView, divider: nat)
    requires
        v.wf(),
        divider <= v.height(),
    ensures
        v.cleared(divider).wf(),
        v.cleared(divider).minus.len() == 0,
        v.cleared(divider).plus.len() == 0,
        v.cleared(divider).divider == divider,
        v.cleared(divider).start_x == v.start_x,
        v.cleared(divider).start_y == v.start_y,
        v.cleared(divider).end_x == v.end_x,
        v.cleared(divider).end_y == v.end_y,
{
}

/// Shoving changes nothing but the divider, keeps the process well
/// formed, and leaves the section that was shoved against without a free
/// row.
pub proof fn lemma_shoved_keeps(v: ProcessView, a: Alignment)
    requires
        v.wf(),
    ensures
        v.shoved(a).wf(),
        v.shoved(a) == (ProcessView { divider: v.shoved(a).divider, ..v }),
        v.shoved(a).free(a) == 0,
        v.shoved(a).divider == match a {
            Alignment::Minus => v.minus.len(),
            Alignment::Plus => (v.height() - v.plus.len()) as nat,
        },
{
}

/// With [`OutToString`], calls that carry out the first `n` actions of a
/// process append what the rows that were printed show.
pub proof fn lemma_collects_rows(
    v: ProcessView,
    before: (OutToString, String),
    n: nat,
    after: (OutToString, String),
)
    requires
        v.wf(),
        n <= 2 * v.height(),
        feeds::<OutToString>(before, v.actions().take(n as int), after),
    ensures
        after.1@ == before.1@ + v.text_of_rows(n / 2),
    decreases n,
{
    let done = v.actions().take(n as int);
    if n == 0 {
        assert(before.1@ + v.text_of_rows(0) =~= before.1@);
    } else {
        let mid = choose|mid: (OutToString, String)|
            {
                &&& feeds::<OutToString>(before, done.drop_last(), mid)
                &&& #[trigger] OutToString::handles(mid, done.last(), after, Ok(()))
            };
        assert(done.drop_last() =~= v.actions().take(n - 1));
        lemma_collects_rows(v, before, (n - 1) as nat, mid);
        assert(after.1@ == collected(mid.1@, v.actions()[n - 1]));
        if (n - 1) % 2 == 1 {
            let r = (n - 1) / 2;
            assert(v.text_of_rows((r + 1) as nat) == v.text_of_rows(r as nat) + v.row(r) + seq![
                '\n',
            ]);
            assert(after.1@ =~= before.1@ + v.text_of_rows(n / 2));
        }
    }
}

/// With [`OutToString`], printing a process appends what it shows: its
/// rows from the top down, each followed by a line feed.
pub proof fn lemma_collects_text(
    v: ProcessView,
    before: (OutToString, String),
    after: (OutToString, String),
)
    requires
        v.wf(),
        feeds::<OutToString>(before, v.actions(), after),
    ensures
        after.1@ == before.1@ + v.text(),
{
    assert(v.actions().take(2 * v.height() as int) =~= v.actions());
    lemma_collects_rows(v, before, 2 * v.height(), after);
}

} // verus!
