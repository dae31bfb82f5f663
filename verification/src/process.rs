//! The process: a rectangle, a divider and the lines of its two sections.

use vstd::prelude::*;
use vstd::string::StringExecFns;
use crate::grid::{Alignment, DividerStrategy, Grid};
use crate::out::{fails_at, feeds, lemma_feeds_push, views, Action, ActionView, Handler, SafeHandler};
use crate::trim::{texts, FormatError, TrimStrategy, TrimmedText};

verus! {

/// A line of `width` spaces.
pub open spec fn blank(width: nat) -> Seq<char> {
    Seq::new(width, |i: int| ' ')
}

/// What a process is, as plain values: its rectangle, the divider as a
/// number of rows below `start_y`, and the lines of its two sections in the
/// order in which they were added.
pub struct ProcessView {
    pub start_x: nat,
    pub start_y: nat,
    pub end_x: nat,
    pub end_y: nat,
    pub divider: nat,
    pub minus: Seq<Seq<char>>,
    pub plus: Seq<Seq<char>>,
}

impl ProcessView {
    /// The number of columns.
    pub open spec fn width(self) -> nat {
        (self.end_x - self.start_x) as nat
    }

    /// The number of rows.
    pub open spec fn height(self) -> nat {
        (self.end_y - self.start_y) as nat
    }

    /// The rectangle is well formed and its coordinates are machine
    /// integers, the divider lies inside it, and neither section holds more
    /// lines than it has rows.
    pub open spec fn wf(self) -> bool {
        &&& self.start_x <= self.end_x <= usize::MAX
        &&& self.start_y <= self.end_y <= usize::MAX
        &&& self.divider <= self.height()
        &&& self.minus.len() <= self.divider
        &&& self.plus.len() <= self.height() - self.divider
    }

    /// The lines of section `a`.
    pub open spec fn side(self, a: Alignment) -> Seq<Seq<char>> {
        match a {
            Alignment::Minus => self.minus,
            Alignment::Plus => self.plus,
        }
    }

    /// The number of rows that section `a` has.
    pub open spec fn capacity(self, a: Alignment) -> nat {
        match a {
            Alignment::Minus => self.divider,
            Alignment::Plus => (self.height() - self.divider) as nat,
        }
    }

    /// The number of rows of section `a` that hold no line.
    pub open spec fn free(self, a: Alignment) -> nat {
        (self.capacity(a) - self.side(a).len()) as nat
    }

    /// The same process with `lines` as the lines of section `a`.
    pub open spec fn with_side(self, a: Alignment, lines: Seq<Seq<char>>) -> ProcessView {
        match a {
            Alignment::Minus => ProcessView { minus: lines, ..self },
            Alignment::Plus => ProcessView { plus: lines, ..self },
        }
    }

    /// How many of `lines` find room in section `a`: all of them, or as
    /// many as the section has free rows.
    pub open spec fn taken(self, a: Alignment, lines: Seq<Seq<char>>) -> nat {
        if lines.len() <= self.free(a) {
            lines.len()
        } else {
            self.free(a)
        }
    }

    /// The process after `lines` were put into section `a` one by one
    /// until the section was full: the first of them stand behind the lines
    /// that the section had.
    pub open spec fn placed(self, a: Alignment, lines: Seq<Seq<char>>) -> ProcessView {
        self.with_side(a, self.side(a) + lines.take(self.taken(a, lines) as int))
    }

    /// The lines of `lines` that find no room in section `a`.
    pub open spec fn left_over(self, a: Alignment, lines: Seq<Seq<char>>) -> Seq<Seq<char>> {
        lines.skip(self.taken(a, lines) as int)
    }

    /// What row `r` shows, rows counted from the top of the process.
    ///
    /// The lines of the minus section end at the divider and read upwards:
    /// the first one added stands directly above the divider, each later
    /// one above the one before. The lines of the plus section start at the
    /// divider and read downwards. Every other row is blank.
    pub open spec fn row(self, r: int) -> Seq<char> {
        if self.divider - self.minus.len() <= r < self.divider {
            self.minus[self.divider - 1 - r]
        } else if self.divider <= r < self.divider + self.plus.len() {
            self.plus[r - self.divider]
        } else {
            blank(self.width())
        }
    }

    /// The actions that draw the process: for each row from the top down,
    /// one that moves to the start of the row and one that prints what the
    /// row shows.
    pub open spec fn actions(self) -> Seq<ActionView> {
        Seq::new(
            2 * self.height(),
            |i: int|
                if i % 2 == 0 {
                    ActionView::MoveTo(self.start_x, (self.start_y + i / 2) as nat)
                } else {
                    self.line_action(i / 2)
                },
        )
    }

    /// The action that prints what row `r` shows.
    pub open spec fn line_action(self, r: int) -> ActionView {
        ActionView::Print(self.row(r))
    }

    /// What the first `n` rows show, each row followed by a line feed.
    pub open spec fn text_of_rows(self, n: nat) -> Seq<char>
        decreases n,
    {
        if n == 0 {
            Seq::empty()
        } else {
            self.text_of_rows((n - 1) as nat) + self.row(n - 1) + seq!['\n']
        }
    }

    /// What the process shows, as one text: its rows from the top down,
    /// each followed by a line feed.
    pub open spec fn text(self) -> Seq<char> {
        self.text_of_rows(self.height())
    }

    /// The process with no lines and the divider `divider`, in the same
    /// rectangle.
    pub open spec fn cleared(self, divider: nat) -> ProcessView {
        ProcessView { divider, minus: Seq::empty(), plus: Seq::empty(), ..self }
    }

    /// The number of rows that section `a` gives up when it must keep at
    /// least `min_left` rows and may give at most `max_taken`: the rows
    /// beyond the larger of `min_left` and the number of its lines, capped
    /// at `max_taken`.
    pub open spec fn spare(
        self,
        a: Alignment,
        min_left: Option<usize>,
        max_taken: Option<usize>,
    ) -> nat {
        spare_of(self.capacity(a), self.side(a).len(), min_left, max_taken)
    }

    /// The process after section `a` gave up its `k` outermost rows: for
    /// the minus section the top moves down and the divider, which is
    /// counted from the top, shrinks by as much, so that no line moves; for
    /// the plus section the bottom moves up.
    pub open spec fn without_rows(self, a: Alignment, k: nat) -> ProcessView {
        match a {
            Alignment::Minus => ProcessView {
                start_y: self.start_y + k,
                divider: (self.divider - k) as nat,
                ..self
            },
            Alignment::Plus => ProcessView { end_y: (self.end_y - k) as nat, ..self },
        }
    }

    /// The rectangle of the `k` outermost rows of section `a`, at full
    /// width.
    pub open spec fn rows_given(self, a: Alignment, k: nat) -> Grid {
        match a {
            Alignment::Minus => Grid {
                start_x: self.start_x as usize,
                start_y: self.start_y as usize,
                end_x: self.end_x as usize,
                end_y: (self.start_y + k) as usize,
            },
            Alignment::Plus => Grid {
                start_x: self.start_x as usize,
                start_y: (self.end_y - k) as usize,
                end_x: self.end_x as usize,
                end_y: self.end_y as usize,
            },
        }
    }

    /// `grid` has the columns of the process and starts in the row where
    /// the process ends.
    pub open spec fn joins_below(self, grid: Grid) -> bool {
        &&& self.start_x == grid.start_x
        &&& self.end_x == grid.end_x
        &&& self.end_y == grid.start_y
    }

    /// `grid` has the columns of the process, does not join it below, and
    /// ends in the row where the process starts.
    pub open spec fn joins_above(self, grid: Grid) -> bool {
        &&& self.start_x == grid.start_x
        &&& self.end_x == grid.end_x
        &&& self.end_y != grid.start_y
        &&& self.start_y == grid.end_y
    }

    /// The process after it took in `grid`: one that joins below moves the
    /// bottom down; one that joins above moves the top up and the divider,
    /// which is counted from the top, grows by as much, so that no line
    /// moves; any other leaves the process as it is.
    pub open spec fn extended(self, grid: Grid) -> ProcessView {
        if self.joins_below(grid) {
            ProcessView { end_y: grid.end_y as nat, ..self }
        } else if self.joins_above(grid) {
            ProcessView {
                start_y: grid.start_y as nat,
                divider: self.divider + grid.spec_height(),
                ..self
            }
        } else {
            self
        }
    }

    /// The process after the divider was pushed against the lines of
    /// section `a`, which leaves the rows that `a` did not use to the other
    /// section.
    pub open spec fn shoved(self, a: Alignment) -> ProcessView {
        match a {
            Alignment::Minus => ProcessView {
                divider: if self.divider <= self.minus.len() {
                    self.divider
                } else {
                    self.minus.len()
                },
                ..self
            },
            Alignment::Plus => ProcessView {
                divider: if self.divider >= self.height() - self.plus.len() {
                    self.divider
                } else {
                    (self.height() - self.plus.len()) as nat
                },
                ..self
            },
        }
    }
}

/// One call of [`DrawProcess::add_to_section`] in which the strategy made
/// `lines` and was in `mid` after making them.
///
/// The lines were made for the process as it was, and were placed in their
/// order until the section was full. If all found room, the result is `Ok`
/// and the strategy stays in `mid`. If not, the result is `NoSpace` with the
/// error that the strategy made of the lines left over, for the process as
/// it is after the others were placed.
pub open spec fn adds_lines<T: TrimStrategy>(
    chunk: ProcessView,
    strategy: T,
    text: T::Input,
    a: Alignment,
    mid: T,
    lines: Seq<Seq<char>>,
    chunk_after: ProcessView,
    strategy_after: T,
    res: Result<(), FormatError<T>>,
) -> bool {
    &&& T::trims(strategy, text, chunk, a, mid, lines)
    &&& chunk_after == chunk.placed(a, lines)
    &&& match res {
        Ok(()) => lines.len() <= chunk.free(a) && strategy_after == mid,
        Err(FormatError::NoSpace(error)) => {
            &&& lines.len() > chunk.free(a)
            &&& T::backs(mid, chunk.left_over(a, lines), chunk_after, a, strategy_after, error)
        },
    }
}

/// One call of [`DrawProcess::add_to_section`] on `text` for section `a`
/// may take the process from `chunk` to `chunk_after` and the strategy from
/// `strategy` to `strategy_after`, and return `res`.
pub open spec fn adds<T: TrimStrategy>(
    chunk: ProcessView,
    strategy: T,
    text: T::Input,
    a: Alignment,
    chunk_after: ProcessView,
    strategy_after: T,
    res: Result<(), FormatError<T>>,
) -> bool {
    exists|mid: T, lines: Seq<Seq<char>>|
        adds_lines(chunk, strategy, text, a, mid, lines, chunk_after, strategy_after, res)
}

/// Calls of [`DrawProcess::add_to_section`] on the items of `items`, one
/// after the other from the first to the last, may take the process from
/// `chunk` to `chunk_after` and the strategy from `strategy` to
/// `strategy_after`, and return `results`, one for each item.
pub open spec fn adds_all<T: TrimStrategy>(
    chunk: ProcessView,
    strategy: T,
    items: Seq<T::Input>,
    a: Alignment,
    chunk_after: ProcessView,
    strategy_after: T,
    results: Seq<Result<(), FormatError<T>>>,
) -> bool
    decreases items.len(),
{
    &&& results.len() == items.len()
    &&& if items.len() == 0 {
        chunk_after == chunk && strategy_after == strategy
    } else {
        exists|c: ProcessView, s: T|
            {
                &&& adds_all(chunk, strategy, items.drop_last(), a, c, s, results.drop_last())
                &&& #[trigger] adds(
                    c,
                    s,
                    items.last(),
                    a,
                    chunk_after,
                    strategy_after,
                    results.last(),
                )
            }
    }
}

/// A run of calls goes on by one call.
pub proof fn lemma_adds_all_push<T: TrimStrategy>(
    chunk: ProcessView,
    strategy: T,
    items: Seq<T::Input>,
    a: Alignment,
    c: ProcessView,
    s: T,
    results: Seq<Result<(), FormatError<T>>>,
    item: T::Input,
    chunk_after: ProcessView,
    strategy_after: T,
    res: Result<(), FormatError<T>>,
)
    requires
        adds_all(chunk, strategy, items, a, c, s, results),
        adds(c, s, item, a, chunk_after, strategy_after, res),
    ensures
        adds_all(chunk, strategy, items.push(item), a, chunk_after, strategy_after, results.push(res)),
{
    assert(items.push(item).drop_last() =~= items);
    assert(results.push(res).drop_last() =~= results);
    assert(items.push(item).last() == item);
    assert(results.push(res).last() == res);
}

/// The order in which section `a` takes the items of a batch: the minus
/// section from the last to the first, the plus section from the first to
/// the last.
pub open spec fn batch_order<A>(items: Seq<A>, a: Alignment) -> Seq<A> {
    match a {
        Alignment::Minus => items.reverse(),
        Alignment::Plus => items,
    }
}

/// Of `capacity` rows of which `used` hold a line, the number that can be
/// given away when at least `min_left` must stay and at most `max_taken` may
/// go.
pub open spec fn spare_of(
    capacity: nat,
    used: nat,
    min_left: Option<usize>,
    max_taken: Option<usize>,
) -> nat {
    let kept = match min_left {
        Some(m) if m > used => m as nat,
        _ => used,
    };
    let room = if capacity >= kept {
        (capacity - kept) as nat
    } else {
        0
    };
    match max_taken {
        Some(m) if m < room => m as nat,
        _ => room,
    }
}

/// A structure that can display text inside a grid.
#[derive(Debug, Clone, PartialEq, Eq, Hash)]
pub struct DrawProcess {
    start_x: usize,
    start_y: usize,
    end_x: usize,
    end_y: usize,
    divider: usize,
    minus: Vec<TrimmedText>,
    plus: Vec<TrimmedText>,
    example_str: String,
}

impl View for DrawProcess {
    type V = ProcessView;

    closed spec fn view(&self) -> ProcessView {
        ProcessView {
            start_x: self.start_x as nat,
            start_y: self.start_y as nat,
            end_x: self.end_x as nat,
            end_y: self.end_y as nat,
            divider: self.divider as nat,
            minus: texts(self.minus@),
            plus: texts(self.plus@),
        }
    }
}

/// A string of `width` spaces.
fn blank_line(width: usize) -> (line: String)
    ensures
        line@ == blank(width as nat),
{
    let mut line = String::new();
    let mut i: usize = 0;
    while i < width
        invariant
            i <= width,
            line@ == blank(i as nat),
        decreases width - i,
    {
        proof {
            reveal_strlit(" ");
        }
        line.append(" ");
        i += 1;
    }
    line
}

/// Computes [`spare_of`].
fn spare_rows(capacity: usize, used: usize, min_left: Option<usize>, max_taken: Option<usize>) -> (k:
    usize)
    ensures
        k == spare_of(capacity as nat, used as nat, min_left, max_taken),
{
    let mut kept = used;
    if let Some(val) = min_left {
        if val > kept {
            kept = val;
        }
    }
    let mut room = if capacity >= kept {
        capacity - kept
    } else {
        0
    };
    if let Some(val) = max_taken {
        if val < room {
            room = val;
        }
    }
    room
}

/// The items of `items` from the last to the first.
fn turned_round<A>(items: Vec<A>) -> (turned: Vec<A>)
    ensures
        turned@ == items@.reverse(),
{
    let mut rest = items;
    let mut turned: Vec<A> = Vec::new();
    while rest.len() > 0
        invariant
            rest@ == items@.take(items@.len() - turned@.len()),
            turned@.len() <= items@.len(),
            turned@ == items@.reverse().take(turned@.len() as int),
        decreases rest.len(),
    {
        let item = rest.pop().unwrap();
        turned.push(item);
    }
    turned
}

impl DrawProcess {
    /// The line that fills an empty row is as wide as the process.
    pub closed spec fn filler_ok(&self) -> bool {
        self.example_str@ == blank(self@.width())
    }

    /// The invariant of a process: what [`ProcessView::wf`] says of its
    /// plain values, and a filler line of its width.
    pub open spec fn wf(&self) -> bool {
        self@.wf() && self.filler_ok()
    }

    /// Creates a process that owns the rectangle `val`, with no lines and
    /// the divider where `strategy` puts it.
    pub fn new(val: Grid, strategy: DividerStrategy) -> (p: DrawProcess)
        requires
            val.wf(),
            strategy.fits(val.spec_height()),
        ensures
            p.wf(),
            p@ == val.empty_process(strategy.spec_resolve(val.spec_height())),
    {
        let p = DrawProcess {
            start_x: val.start_x,
            start_y: val.start_y,
            end_x: val.end_x,
            end_y: val.end_y,
            divider: strategy.resolve(val.end_y - val.start_y),
            minus: Vec::new(),
            plus: Vec::new(),
            example_str: blank_line(val.end_x - val.start_x),
        };
        assert(p@.plus =~= Seq::empty());
        p
    }

    /// The number of characters that fit on a line.
    pub fn width(&self) -> (w: usize)
        requires
            self.wf(),
        ensures
            w == self@.width(),
    {
        self.end_x - self.start_x
    }

    /// The number of lines that fit in the process.
    pub fn height(&self) -> (h: usize)
        requires
            self.wf(),
        ensures
            h == self@.height(),
    {
        self.end_y - self.start_y
    }

    /// The first column of the process.
    pub fn start_x(&self) -> (x: usize)
        ensures
            x == self@.start_x,
    {
        self.start_x
    }

    /// The first row of the process.
    pub fn start_y(&self) -> (y: usize)
        ensures
            y == self@.start_y,
    {
        self.start_y
    }

    /// The first column past the process.
    pub fn end_x(&self) -> (x: usize)
        ensures
            x == self@.end_x,
    {
        self.end_x
    }

    /// The first row past the process.
    pub fn end_y(&self) -> (y: usize)
        ensures
            y == self@.end_y,
    {
        self.end_y
    }

    /// The number of rows above the divider.
    pub fn divider(&self) -> (d: usize)
        ensures
            d == self@.divider,
    {
        self.divider
    }

    /// Clears the process, so that it can be used again: the lines are
    /// dropped, the rectangle stays, and the divider goes where
    /// `new_strategy` puts it.
    pub fn clear(&mut self, new_strategy: DividerStrategy)
        requires
            old(self).wf(),
            new_strategy.fits(old(self)@.height()),
        ensures
            final(self).wf(),
            final(self)@ == old(self)@.cleared(new_strategy.spec_resolve(old(self)@.height())),
            final(self)@.minus.len() == 0,
            final(self)@.plus.len() == 0,
            final(self)@.start_x == old(self)@.start_x,
            final(self)@.start_y == old(self)@.start_y,
            final(self)@.end_x == old(self)@.end_x,
            final(self)@.end_y == old(self)@.end_y,
    {
        *self = DrawProcess::new(
            Grid {
                start_x: self.start_x,
                start_y: self.start_y,
                end_x: self.end_x,
                end_y: self.end_y,
            },
            new_strategy,
        );
    }

    /// Gives up free rows of section `a`, as a grid of their own, if there
    /// are any to give.
    ///
    /// The rows come from the outer edge of the section: the top of the
    /// process for the minus section, its bottom for the plus section. The
    /// section keeps at least `min_left` rows and the rows of its lines, and
    /// gives at most `max_taken`. With nothing to give, the process stays as
    /// it is and `None` is returned.
    pub fn split_free_space(
        &mut self,
        a: Alignment,
        min_left: Option<usize>,
        max_taken: Option<usize>,
    ) -> (given: Option<Grid>)
        requires
            old(self).wf(),
        ensures
            final(self).wf(),
            final(self)@ == old(self)@.without_rows(a, old(self)@.spare(a, min_left, max_taken)),
            given == if old(self)@.spare(a, min_left, max_taken) == 0 {
                None
            } else {
                Some(old(self)@.rows_given(a, old(self)@.spare(a, min_left, max_taken)))
            },
    {
        match a {
            Alignment::Minus => {
                let total_space = spare_rows(self.divider, self.minus.len(), min_left, max_taken);
                if total_space != 0 {
                    let top = self.start_y;
                    self.start_y = top + total_space;
                    self.divider = self.divider - total_space;
                    Some(
                        Grid {
                            start_x: self.start_x,
                            start_y: top,
                            end_x: self.end_x,
                            end_y: self.start_y,
                        },
                    )
                } else {
                    None
                }
            },
            Alignment::Plus => {
                let space = self.end_y - self.start_y - self.divider;
                let total_space = spare_rows(space, self.plus.len(), min_left, max_taken);
                if total_space != 0 {
                    let bottom = self.end_y;
                    self.end_y = bottom - total_space;
                    Some(
                        Grid {
                            start_x: self.start_x,
                            start_y: self.end_y,
                            end_x: self.end_x,
                            end_y: bottom,
                        },
                    )
                } else {
                    None
                }
            },
        }
    }

    /// Takes `grid` into the process if it has the same columns and lies
    /// directly below or directly above it; if not, `grid` comes back in
    /// the error and the process stays as it is.
    pub fn extend(&mut self, grid: Grid) -> (res: Result<(), Grid>)
        requires
            old(self).wf(),
            grid.wf(),
        ensures
            final(self).wf(),
            final(self)@ == old(self)@.extended(grid),
            res == if old(self)@.joins_below(grid) || old(self)@.joins_above(grid) {
                Ok::<(), Grid>(())
            } else {
                Err::<(), Grid>(grid)
            },
    {
        if self.start_x == grid.start_x && self.end_x == grid.end_x {
            if self.end_y == grid.start_y {
                self.end_y = grid.end_y;
                return Ok(());
            }
            if self.start_y == grid.end_y {
                self.divider = self.divider + (grid.end_y - grid.start_y);
                self.start_y = grid.start_y;
                return Ok(());
            }
        }
        Err(grid)
    }

    /// Puts `text` on the next free row of `section`, or hands it back if
    /// the section is full.
    pub fn add_to_section_trimmed(&mut self, text: TrimmedText, section: Alignment) -> (res: Result<
        (),
        TrimmedText,
    >)
        requires
            old(self).wf(),
        ensures
            final(self).wf(),
            old(self)@.free(section) > 0 ==> res is Ok && final(self)@ == old(self)@.with_side(
                section,
                old(self)@.side(section).push(text@),
            ),
            old(self)@.free(section) == 0 ==> res == Err::<(), TrimmedText>(text) && final(self)@
                == old(self)@,
    {
        match section {
            Alignment::Minus => {
                let space = self.divider - self.minus.len();
                if space == 0 {
                    return Err(text);
                }
                self.minus.push(text);
                assert(texts(self.minus@) =~= texts(old(self).minus@).push(text@));
            },
            Alignment::Plus => {
                let space = self.end_y - self.start_y - self.divider - self.plus.len();
                if space == 0 {
                    return Err(text);
                }
                self.plus.push(text);
                assert(texts(self.plus@) =~= texts(old(self).plus@).push(text@));
            },
        }
        Ok(())
    }

    /// Puts `lines` into `section` in their order until the section is
    /// full, and returns the lines that found no room, in their order.
    pub fn place_lines(&mut self, lines: Vec<TrimmedText>, section: Alignment) -> (extras: Vec<
        TrimmedText,
    >)
        requires
            old(self).wf(),
        ensures
            final(self).wf(),
            final(self)@ == old(self)@.placed(section, texts(lines@)),
            texts(extras@) == old(self)@.left_over(section, texts(lines@)),
    {
        let mut extras: Vec<TrimmedText> = Vec::new();
        let ghost all = texts(lines@);
        let ghost start = self@;
        for line in it: lines
            invariant
                self.wf(),
                start.wf(),
                all == texts(lines@),
                self@ == start.placed(section, all.take(it.index() as int)),
                texts(extras@) == start.left_over(section, all.take(it.index() as int)),
        {
            let ghost n = it.index() as int;
            let ghost seen = all.take(n);
            let ghost next = all.take(n + 1);
            let ghost held = extras@;
            assert(texts(held).len() == held.len());
            if extras.len() == 0 {
                match self.add_to_section_trimmed(line, section) {
                    Ok(()) => {
                        assert(next.take(n + 1) =~= seen.take(n).push(line@));
                    },
                    Err(back) => {
                        extras.push(back);
                        assert(next.take(n) =~= seen.take(n));
                    },
                }
            } else {
                extras.push(line);
                let ghost k = start.taken(section, seen) as int;
                assert(next.take(k) =~= seen.take(k));
                assert(texts(extras@) =~= texts(held).push(line@));
            }
        }
        assert(all.take(all.len() as int) =~= all);
        extras
    }

    /// Adds `text` to `section`: `strategy` turns it into lines, and the
    /// lines are placed in their order.
    ///
    /// If the section is full before every line is placed, the lines that
    /// were placed stay, the others go back to `strategy`, and what it makes
    /// of them comes back as `NoSpace`.
    pub fn add_to_section<T: TrimStrategy>(
        &mut self,
        text: T::Input,
        strategy: &mut T,
        section: Alignment,
    ) -> (res: Result<(), FormatError<T>>)
        requires
            old(self).wf(),
        ensures
            final(self).wf(),
            adds(old(self)@, *old(strategy), text, section, final(self)@, *final(strategy), res),
    {
        let lines = strategy.trim(text, &*self, section);
        let ghost mid = *strategy;
        let ghost made = texts(lines@);
        let extras = self.place_lines(lines, section);
        assert(texts(extras@).len() == extras@.len());
        if extras.len() == 0 {
            assert(adds_lines(
                old(self)@,
                *old(strategy),
                text,
                section,
                mid,
                made,
                self@,
                *strategy,
                Ok(()),
            ));
            Ok(())
        } else {
            let error = strategy.back(extras, &*self, section);
            let res = Err(FormatError::NoSpace(error));
            assert(adds_lines(
                old(self)@,
                *old(strategy),
                text,
                section,
                mid,
                made,
                self@,
                *strategy,
                res,
            ));
            res
        }
    }

    /// Adds the items of `text` to `section` so that they read from the
    /// top down in the order of `text`, and returns one result for each
    /// item, at the item's place.
    ///
    /// The plus section takes the items from the first to the last. The
    /// minus section, whose lines read upwards from the divider, takes them
    /// from the last to the first. An item that finds no room does not stop
    /// the items after it from being tried.
    pub fn add_to_section_lines<T: TrimStrategy>(
        &mut self,
        text: Vec<T::Input>,
        strategy: &mut T,
        section: Alignment,
    ) -> (results: Vec<Result<(), FormatError<T>>>)
        requires
            old(self).wf(),
        ensures
            final(self).wf(),
            adds_all(
                old(self)@,
                *old(strategy),
                batch_order(text@, section),
                section,
                final(self)@,
                *final(strategy),
                batch_order(results@, section),
            ),
    {
        let mut results: Vec<Result<(), FormatError<T>>> = Vec::new();
        match section {
            Alignment::Minus => {
                let ghost order = text@.reverse();
                let mut rest = text;
                while rest.len() > 0
                    invariant
                        self.wf(),
                        order == text@.reverse(),
                        rest@ == text@.take(text@.len() - results@.len()),
                        results@.len() <= text@.len(),
                        adds_all(
                            old(self)@,
                            *old(strategy),
                            order.take(results@.len() as int),
                            section,
                            self@,
                            *strategy,
                            results@,
                        ),
                    decreases rest.len(),
                {
                    let ghost n = results@.len() as int;
                    let ghost c = self@;
                    let ghost s = *strategy;
                    let ghost done = results@;
                    let item = rest.pop().unwrap();
                    let res = self.add_to_section(item, strategy, section);
                    results.push(res);
                    proof {
                        lemma_adds_all_push(
                            old(self)@,
                            *old(strategy),
                            order.take(n),
                            section,
                            c,
                            s,
                            done,
                            item,
                            self@,
                            *strategy,
                            res,
                        );
                        assert(order.take(n + 1) =~= order.take(n).push(item));
                    }
                }
                assert(order.take(order.len() as int) =~= order);
                let turned = turned_round(results);
                assert(turned@.reverse() =~= results@);
                turned
            },
            Alignment::Plus => {
                for item in it: text
                    invariant
                        self.wf(),
                        results@.len() == it.index(),
                        adds_all(
                            old(self)@,
                            *old(strategy),
                            text@.take(it.index() as int),
                            section,
                            self@,
                            *strategy,
                            results@,
                        ),
                {
                    let ghost n = it.index() as int;
                    let ghost c = self@;
                    let ghost s = *strategy;
                    let ghost done = results@;
                    let res = self.add_to_section(item, strategy, section);
                    results.push(res);
                    proof {
                        lemma_adds_all_push(
                            old(self)@,
                            *old(strategy),
                            text@.take(n),
                            section,
                            c,
                            s,
                            done,
                            item,
                            self@,
                            *strategy,
                            res,
                        );
                        assert(text@.take(n + 1) =~= text@.take(n).push(item));
                    }
                }
                assert(text@.take(text@.len() as int) =~= text@);
                results
            },
        }
    }

    /// Moves the divider against the lines of section `direction`, so that
    /// the rows which that section did not use go to the other one. No
    /// line is dropped or moved to another place in its section.
    pub fn shove(&mut self, direction: Alignment)
        requires
            old(self).wf(),
        ensures
            final(self).wf(),
            final(self)@ == old(self)@.shoved(direction),
            final(self)@.minus == old(self)@.minus,
            final(self)@.plus == old(self)@.plus,
    {
        match direction {
            Alignment::Minus => {
                if self.minus.len() < self.divider {
                    self.divider = self.minus.len();
                }
            },
            Alignment::Plus => {
                let low = self.end_y - self.start_y - self.plus.len();
                if low > self.divider {
                    self.divider = low;
                }
            },
        }
    }

    /// Turns the process into actions: two for each of its rows, from the
    /// top down.
    pub fn grab_actions(&self) -> (result: Vec<Action<'_>>)
        requires
            self.wf(),
        ensures
            views(result@) == self@.actions(),
    {
        let mut result: Vec<Action<'_>> = Vec::new();
        let start_x = self.start_x;
        let height = self.end_y - self.start_y;
        let top = self.divider - self.minus.len();
        let bottom = self.divider + self.plus.len();
        let ghost want = self@.actions();
        let mut r: usize = 0;
        while r < top
            invariant
                self.wf(),
                r <= top == self.divider - self.minus.len(),
                start_x == self.start_x,
                want == self@.actions(),
                result.len() == 2 * r,
                forall|j: int| 0 <= j < result.len() ==> (#[trigger] result[j])@ == want[j],
            decreases top - r,
        {
            result.push(Action::MoveTo(start_x, self.start_y + r));
            result.push(Action::Print(self.example_str.as_str()));
            r += 1;
        }
        while r < self.divider
            invariant
                self.wf(),
                top == self.divider - self.minus.len(),
                top <= r <= self.divider,
                start_x == self.start_x,
                want == self@.actions(),
                result.len() == 2 * r,
                forall|j: int| 0 <= j < result.len() ==> (#[trigger] result[j])@ == want[j],
            decreases self.divider - r,
        {
            let line = &self.minus[self.divider - 1 - r];
            result.push(Action::MoveTo(start_x, self.start_y + r));
            result.push(Action::Print(line.0.as_str()));
            r += 1;
        }
        while r < bottom
            invariant
                self.wf(),
                bottom == self.divider + self.plus.len(),
                self.divider <= r <= bottom,
                start_x == self.start_x,
                want == self@.actions(),
                result.len() == 2 * r,
                forall|j: int| 0 <= j < result.len() ==> (#[trigger] result[j])@ == want[j],
            decreases bottom - r,
        {
            let line = &self.plus[r - self.divider];
            result.push(Action::MoveTo(start_x, self.start_y + r));
            result.push(Action::Print(line.0.as_str()));
            r += 1;
        }
        while r < height
            invariant
                self.wf(),
                bottom == self.divider + self.plus.len(),
                height == self.end_y - self.start_y,
                bottom <= r <= height,
                start_x == self.start_x,
                want == self@.actions(),
                result.len() == 2 * r,
                forall|j: int| 0 <= j < result.len() ==> (#[trigger] result[j])@ == want[j],
            decreases height - r,
        {
            result.push(Action::MoveTo(start_x, self.start_y + r));
            result.push(Action::Print(self.example_str.as_str()));
            r += 1;
        }
        result
    }

    /// Prints the process with `handler`: its actions are handed over one
    /// by one, from the first row down, until one fails.
    ///
    /// The result is `Ok` if `handler` carried out every action, and else
    /// the error of the first action that failed; no action after that one
    /// is handed over.
    pub fn print<H: Handler>(&mut self, handler: &mut H, out: &mut H::OutputDevice) -> (res: Result<
        (),
        H::Error,
    >)
        requires
            old(self).wf(),
        ensures
            *final(self) == *old(self),
            match res {
                Ok(()) => feeds(
                    (*old(handler), *old(out)),
                    old(self)@.actions(),
                    (*final(handler), *final(out)),
                ),
                Err(error) => exists|done: int|
                    #[trigger] fails_at(
                        (*old(handler), *old(out)),
                        old(self)@.actions(),
                        done,
                        (*final(handler), *final(out)),
                        error,
                    ),
            },
    {
        let actions = self.grab_actions();
        let ghost all = views(actions@);
        let mut i: usize = 0;
        while i < actions.len()
            invariant
                i <= actions.len(),
                all == views(actions@),
                all == old(self)@.actions(),
                feeds((*old(handler), *old(out)), all.take(i as int), (*handler, *out)),
            decreases actions.len() - i,
        {
            let ghost mid = (*handler, *out);
            let step = handler.handle(out, &actions[i]);
            match step {
                Ok(()) => {
                    proof {
                        assert(step->Ok_0 == ());
                        lemma_feeds_push::<H>(
                            (*old(handler), *old(out)),
                            all.take(i as int),
                            mid,
                            all[i as int],
                            (*handler, *out),
                        );
                        assert(all.take(i + 1) =~= all.take(i as int).push(all[i as int]));
                    }
                },
                Err(error) => {
                    assert(fails_at(
                        (*old(handler), *old(out)),
                        all,
                        i as int,
                        (*handler, *out),
                        error,
                    ));
                    return Err(error);
                },
            }
            i += 1;
        }
        assert(all.take(all.len() as int) =~= all);
        Ok(())
    }

    /// Prints the process with a handler that cannot fail: every action is
    /// handed over, from the first row down.
    pub fn print_safe<H: SafeHandler>(&mut self, handler: &mut H, out: &mut H::OutputDevice)
        requires
            old(self).wf(),
        ensures
            *final(self) == *old(self),
            feeds(
                (*old(handler), *old(out)),
                old(self)@.actions(),
                (*final(handler), *final(out)),
            ),
    {
        let actions = self.grab_actions();
        let ghost all = views(actions@);
        let mut i: usize = 0;
        while i < actions.len()
            invariant
                i <= actions.len(),
                all == views(actions@),
                all == old(self)@.actions(),
                feeds((*old(handler), *old(out)), all.take(i as int), (*handler, *out)),
            decreases actions.len() - i,
        {
            let ghost mid = (*handler, *out);
            handler.safe_handle(out, &actions[i]);
            proof {
                lemma_feeds_push::<H>(
                    (*old(handler), *old(out)),
                    all.take(i as int),
                    mid,
                    all[i as int],
                    (*handler, *out),
                );
                assert(all.take(i + 1) =~= all.take(i as int).push(all[i as int]));
            }
            i += 1;
        }
        assert(all.take(all.len() as int) =~= all);
    }
}

} // verus!
