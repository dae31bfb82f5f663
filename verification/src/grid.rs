//! Rectangles, the two sections of a process, and where the divider starts.

use vstd::prelude::*;
use crate::process::{DrawProcess, ProcessView};

verus! {

/// A rectangle of character cells: `start_x` and `start_y` are the first
/// column and row inside it, `end_x` and `end_y` the first ones past it.
#[derive(Debug, Clone, Copy, PartialEq, Eq, Hash, Structural)]
pub struct Grid {
    pub start_x: usize,
    pub start_y: usize,
    pub end_x: usize,
    pub end_y: usize,
}

/// One of the two sections of a process: `Minus` lies above the divider,
/// `Plus` starts at the divider and lies below it.
#[derive(Debug, Clone, Copy, PartialEq, Eq, Hash, Structural)]
pub enum Alignment {
    Minus,
    Plus,
}

/// Where the divider is put when a process is made or cleared.
#[derive(Debug, Clone, Copy, PartialEq, Eq, Hash, Structural)]
pub enum DividerStrategy {
    /// Row 0: every row belongs to the plus section.
    Beginning,
    /// The height: every row belongs to the minus section.
    End,
    /// Half the height, rounded down.
    Halfway,
    /// The given number of rows below the top.
    Pos(usize),
}

impl Grid {
    /// The start of each axis does not lie past its end.
    pub open spec fn wf(self) -> bool {
        self.start_x <= self.end_x && self.start_y <= self.end_y
    }

    /// The number of columns.
    pub open spec fn spec_width(self) -> nat {
        (self.end_x - self.start_x) as nat
    }

    /// The number of rows.
    pub open spec fn spec_height(self) -> nat {
        (self.end_y - self.start_y) as nat
    }

    /// The number of columns of the rectangle.
    pub fn width(&self) -> (w: usize)
        requires
            self.wf(),
        ensures
            w == self.spec_width(),
    {
        self.end_x - self.start_x
    }

    /// The number of rows of the rectangle.
    pub fn height(&self) -> (h: usize)
        requires
            self.wf(),
        ensures
            h == self.spec_height(),
    {
        self.end_y - self.start_y
    }

    /// The process with no lines that owns this rectangle and has the
    /// divider `divider`.
    pub open spec fn empty_process(self, divider: nat) -> ProcessView {
        ProcessView {
            start_x: self.start_x as nat,
            start_y: self.start_y as nat,
            end_x: self.end_x as nat,
            end_y: self.end_y as nat,
            divider,
            minus: Seq::empty(),
            plus: Seq::empty(),
        }
    }

    /// Turns the rectangle into a process that owns it, with no lines and
    /// the divider where `strategy` puts it.
    pub fn into_process(self, strategy: DividerStrategy) -> (p: DrawProcess)
        requires
            self.wf(),
            strategy.fits(self.spec_height()),
        ensures
            p.wf(),
            p@ == self.empty_process(strategy.spec_resolve(self.spec_height())),
    {
        DrawProcess::new(self, strategy)
    }
}

impl DividerStrategy {
    /// The divider that this strategy gives in a region of `height` rows.
    pub open spec fn spec_resolve(self, height: nat) -> nat {
        match self {
            DividerStrategy::Beginning => 0,
            DividerStrategy::End => height,
            DividerStrategy::Halfway => height / 2,
            DividerStrategy::Pos(v) => v as nat,
        }
    }

    /// The strategy puts the divider inside a region of `height` rows.
    pub open spec fn fits(self, height: nat) -> bool {
        self.spec_resolve(height) <= height
    }

    /// The divider for a region of `height` rows.
    pub fn resolve(&self, height: usize) -> (divider: usize)
        ensures
            divider == self.spec_resolve(height as nat),
    {
        match self {
            DividerStrategy::Beginning => 0,
            DividerStrategy::End => height,
            DividerStrategy::Halfway => height / 2,
            DividerStrategy::Pos(v) => *v,
        }
    }
}

} // verus!
