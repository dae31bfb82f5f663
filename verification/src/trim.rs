//! Lines that are ready for display, and the strategies that make them.

use vstd::prelude::*;
use crate::grid::Alignment;
use crate::process::{DrawProcess, ProcessView};

verus! {

/// One line of text that is ready to be put on a row.
#[derive(Debug, Clone, PartialEq, Eq, Hash)]
pub struct TrimmedText(pub String);

impl View for TrimmedText {
    type V = Seq<char>;

    open spec fn view(&self) -> Seq<char> {
        self.0@
    }
}

/// The characters of each line of `lines`, in order.
pub open spec fn texts(lines: Seq<TrimmedText>) -> Seq<Seq<char>> {
    lines.map_values(|t: TrimmedText| t@)
}

/// Turns one input into lines for a process, and says what is handed back to
/// the caller when some of those lines found no room.
///
/// The two relations are chosen by the implementation: they say what the two
/// methods may do, and the contracts of [`DrawProcess::add_to_section`] and
/// [`DrawProcess::add_to_section_lines`] are stated through them. An
/// implementation that states neither leaves every outcome open.
pub trait TrimStrategy: Sized {
    /// What the strategy is given to display.
    type Input;

    /// What comes back when there was no room.
    type Error;

    /// `trim`, started in `before` on `text` for section `a` of `chunk`, may
    /// return `lines` and leave the strategy in `after`.
    open spec fn trims(
        before: Self,
        text: Self::Input,
        chunk: ProcessView,
        a: Alignment,
        after: Self,
        lines: Seq<Seq<char>>,
    ) -> bool {
        true
    }

    /// `back`, started in `before` on the lines `extras` that found no room
    /// in section `a` of `chunk`, may return `error` and leave the strategy in
    /// `after`.
    open spec fn backs(
        before: Self,
        extras: Seq<Seq<char>>,
        chunk: ProcessView,
        a: Alignment,
        after: Self,
        error: Self::Error,
    ) -> bool {
        true
    }

    /// Makes the lines that display `text` in section `a` of `chunk`.
    fn trim(&mut self, text: Self::Input, chunk: &DrawProcess, a: Alignment) -> (lines: Vec<
        TrimmedText,
    >)
        requires
            chunk.wf(),
        ensures
            Self::trims(*old(self), text, chunk@, a, *final(self), texts(lines@)),
    ;

    /// Makes the error for the lines `text` that found no room in section `a`
    /// of `chunk`.
    fn back(&mut self, text: Vec<TrimmedText>, chunk: &DrawProcess, a: Alignment) -> (error:
        Self::Error)
        requires
            chunk.wf(),
        ensures
            Self::backs(*old(self), texts(text@), chunk@, a, *final(self), error),
    ;
}

/// Why text could not be added to a section.
pub enum FormatError<T: TrimStrategy> {
    /// The section was full before every line was placed; the payload is
    /// what the strategy made of the lines that were left.
    NoSpace(T::Error),
}

/// The strategy that does nothing: the input is one line as it stands, and
/// the lines that found no room come back as they are.
#[derive(Debug, Clone, Copy, PartialEq, Eq, Hash)]
pub struct Ignore;

impl TrimStrategy for Ignore {
    type Input = String;

    type Error = Vec<TrimmedText>;

    open spec fn trims(
        before: Self,
        text: String,
        chunk: ProcessView,
        a: Alignment,
        after: Self,
        lines: Seq<Seq<char>>,
    ) -> bool {
        lines == seq![text@]
    }

    open spec fn backs(
        before: Self,
        extras: Seq<Seq<char>>,
        chunk: ProcessView,
        a: Alignment,
        after: Self,
        error: Vec<TrimmedText>,
    ) -> bool {
        texts(error@) == extras
    }

    fn trim(&mut self, text: String, chunk: &DrawProcess, a: Alignment) -> (lines: Vec<
        TrimmedText,
    >) {
        let mut lines: Vec<TrimmedText> = Vec::new();
        lines.push(TrimmedText(text));
        assert(texts(lines@) =~= seq![text@]);
        lines
    }

    fn back(&mut self, text: Vec<TrimmedText>, chunk: &DrawProcess, a: Alignment) -> (error: Vec<
        TrimmedText,
    >) {
        text
    }
}

} // verus!
