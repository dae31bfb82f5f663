//! Drawing actions and the handlers that carry them out.

use vstd::prelude::*;
use vstd::string::StringExecFns;

verus! {

/// One step of drawing.
#[derive(Debug, Clone, Copy, PartialEq, Eq, Hash)]
pub enum Action<'a> {
    /// Write the text where the cursor stands.
    Print(&'a str),
    /// Put the cursor in column `.0` of row `.1`.
    MoveTo(usize, usize),
}

/// An action as plain values.
pub enum ActionView {
    Print(Seq<char>),
    MoveTo(nat, nat),
}

impl<'a> View for Action<'a> {
    type V = ActionView;

    open spec fn view(&self) -> ActionView {
        match *self {
            Action::Print(text) => ActionView::Print(text@),
            Action::MoveTo(x, y) => ActionView::MoveTo(x as nat, y as nat),
        }
    }
}

/// The actions of `actions` as plain values, in order.
pub open spec fn views(actions: Seq<Action>) -> Seq<ActionView> {
    actions.map_values(|a: Action| a@)
}

/// Carries out actions on an output device, and may fail.
///
/// The relation `handles` is chosen by the implementation: it says what one
/// call of `handle` may do, and the contract of
/// [`crate::process::DrawProcess::print`] is stated through it. An
/// implementation that does not state it leaves every outcome open.
pub trait Handler: Sized {
    /// What the actions are carried out on.
    type OutputDevice;

    /// How carrying out an action fails.
    type Error;

    /// `handle`, started with the handler and the device as in `before` on
    /// `action`, may leave them as in `after` and return `res`.
    open spec fn handles(
        before: (Self, Self::OutputDevice),
        action: ActionView,
        after: (Self, Self::OutputDevice),
        res: Result<(), Self::Error>,
    ) -> bool {
        true
    }

    /// Carries out `input` on `out`.
    fn handle(&mut self, out: &mut Self::OutputDevice, input: &Action) -> (res: Result<
        (),
        Self::Error,
    >)
        ensures
            Self::handles((*old(self), *old(out)), input@, (*final(self), *final(out)), res),
    ;
}

/// A handler that cannot fail: `safe_handle` does what a successful
/// `handle` does.
pub trait SafeHandler: Handler {
    /// Carries out `input` on `out`.
    fn safe_handle(&mut self, out: &mut Self::OutputDevice, input: &Action)
        ensures
            Self::handles((*old(self), *old(out)), input@, (*final(self), *final(out)), Ok(())),
    ;
}

/// Calls of `handle` on the actions of `actions`, one after the other from
/// the first to the last, may all succeed and take the handler and the
/// device from `before` to `after`.
pub open spec fn feeds<H: Handler>(
    before: (H, H::OutputDevice),
    actions: Seq<ActionView>,
    after: (H, H::OutputDevice),
) -> bool
    decreases actions.len(),
{
    if actions.len() == 0 {
        after == before
    } else {
        exists|mid: (H, H::OutputDevice)|
            {
                &&& feeds(before, actions.drop_last(), mid)
                &&& #[trigger] H::handles(mid, actions.last(), after, Ok(()))
            }
    }
}

/// Calls of `handle` on the first `done` actions of `actions` may all
/// succeed, and the call on the next one may then fail with `error` and
/// leave the handler and the device as in `after`.
pub open spec fn fails_at<H: Handler>(
    before: (H, H::OutputDevice),
    actions: Seq<ActionView>,
    done: int,
    after: (H, H::OutputDevice),
    error: H::Error,
) -> bool {
    &&& 0 <= done < actions.len()
    &&& exists|mid: (H, H::OutputDevice)|
        {
            &&& feeds(before, actions.take(done), mid)
            &&& #[trigger] H::handles(mid, actions[done], after, Err(error))
        }
}

/// A run of successful calls goes on by one successful call.
pub proof fn lemma_feeds_push<H: Handler>(
    before: (H, H::OutputDevice),
    actions: Seq<ActionView>,
    mid: (H, H::OutputDevice),
    action: ActionView,
    after: (H, H::OutputDevice),
)
    requires
        feeds(before, actions, mid),
        H::handles(mid, action, after, Ok(())),
    ensures
        feeds(before, actions.push(action), after),
{
    assert(actions.push(action).drop_last() =~= actions);
    assert(actions.push(action).last() == action);
}

/// The handler that collects the output in a `String`: a printed text is
/// appended with a line feed after it, and moving the cursor does nothing.
#[derive(Debug, Clone, Copy, PartialEq, Eq, Hash)]
pub struct OutToString;

/// What [`OutToString`] makes of `out` on `action`.
pub open spec fn collected(out: Seq<char>, action: ActionView) -> Seq<char> {
    match action {
        ActionView::Print(text) => out + text + seq!['\n'],
        ActionView::MoveTo(_, _) => out,
    }
}

impl Handler for OutToString {
    type OutputDevice = String;

    type Error = ();

    open spec fn handles(
        before: (Self, String),
        action: ActionView,
        after: (Self, String),
        res: Result<(), ()>,
    ) -> bool {
        res is Ok && after.1@ == collected(before.1@, action)
    }

    fn handle(&mut self, out: &mut String, input: &Action) -> (res: Result<(), ()>) {
        self.safe_handle(out, input);
        Ok(())
    }
}

impl SafeHandler for OutToString {
    fn safe_handle(&mut self, out: &mut String, input: &Action) {
        match *input {
            Action::Print(text) => {
                proof {
                    reveal_strlit("\n");
                }
                out.append(text);
                out.append("\n");
                assert("\n"@ =~= seq!['\n']);
            },
            Action::MoveTo(_, _) => {},
        }
    }
}

} // verus!
