use vstd::prelude::*;

verus! {

/// Why the terminal view failed.
#[derive(Clone, Copy, Debug, PartialEq, Eq)]
pub enum TerminalError {
    /// The terminal could not be switched to the raw alternate screen.
    EnterFailed,
    /// The view could not be drawn.
    DrawFailed,
    /// The next input could not be read.
    InputFailed,
    /// The terminal could not be switched back.
    RestoreFailed,
}

/// A key as far as the view tells keys apart.
#[derive(Clone, Copy, Debug, PartialEq, Eq)]
pub enum Key {
    /// The escape key, which ends the view.
    Esc,
    /// The enter key.
    Enter,
    /// A key that writes a character.
    Char(char),
    /// Any other key.
    Other,
}

/// What the terminal reported while the view waited.
#[derive(Clone, Copy, Debug, PartialEq, Eq)]
pub enum Input {
    /// A key was pressed.
    Key(Key),
    /// Something else happened: the window was resized, the mouse moved.
    Other,
}

/// What the view does about an input.
#[derive(Clone, Copy, Debug, PartialEq, Eq)]
pub enum Decision {
    /// Leave the view.
    Exit,
    /// Draw the view again.
    Redraw,
}

/// The decision on an input: the escape key leaves, anything else redraws.
pub open spec fn decision_on(input: Input) -> Decision {
    if input == Input::Key(Key::Esc) {
        Decision::Exit
    } else {
        Decision::Redraw
    }
}

/// Decides what to do about an input.
pub fn decide(input: Input) -> (d: Decision)
    ensures
        d == decision_on(input),
{
    match input {
        Input::Key(Key::Esc) => Decision::Exit,
        _ => Decision::Redraw,
    }
}

/// Where the view stands.
#[derive(Clone, Copy, Debug, PartialEq, Eq)]
pub enum Stage {
    /// The terminal is about to be switched to the raw alternate screen.
    Entering,
    /// The view is about to be drawn.
    Rendering,
    /// The view waits for the next input.
    Waiting,
    /// The terminal is about to be switched back.
    Exiting,
    /// The view is over.
    Closed,
}

/// What happened to the last thing the view asked for.
#[derive(Clone, Copy, Debug, PartialEq, Eq)]
pub enum UiEvent {
    /// The terminal was switched to the raw alternate screen.
    Entered,
    /// The terminal could not be switched; it is as it was.
    EnterFailed,
    /// The view was drawn.
    Drawn,
    /// The view could not be drawn.
    DrawFailed,
    /// An input arrived.
    Input(Input),
    /// The input could not be read.
    InputFailed,
    /// The terminal was switched back.
    Restored,
    /// The terminal could not be switched back.
    RestoreFailed,
}

/// What the view asks for next.
#[derive(Clone, Copy, Debug, PartialEq, Eq)]
pub enum UiAction {
    /// Switch the terminal to the raw alternate screen.
    Enter,
    /// Draw the two panes.
    Draw,
    /// Wait for the next input without spinning.
    AwaitInput,
    /// Switch the terminal back to its former mode and screen.
    Restore,
    /// Return with this result.
    Stop(Result<(), TerminalError>),
}

/// The view's state: where it stands and the first failure it met, if any.
#[derive(Clone, Copy, Debug, PartialEq, Eq)]
pub struct Presenter {
    pub stage: Stage,
    pub failure: Option<TerminalError>,
}

/// The failure kept when `error` is met: the first one stays.
pub open spec fn first_failure(kept: Option<TerminalError>, error: TerminalError) -> Option<
    TerminalError,
> {
    match kept {
        Some(e) => Some(e),
        None => Some(error),
    }
}

/// The state at the start: nothing was switched and nothing failed.
pub open spec fn initial() -> Presenter {
    Presenter { stage: Stage::Entering, failure: None }
}

/// The state that follows `p` on `event`. After the terminal was entered,
/// the view draws and waits in turn; the escape key, or any failure to draw
/// or to read, leads to `Exiting`, and only from there, when the terminal was
/// switched back or could not be, to `Closed`. A terminal that could not be
/// entered closes the view at once. An event that answers no request of
/// the state changes nothing.
pub open spec fn next_state(p: Presenter, event: UiEvent) -> Presenter {
    match (p.stage, event) {
        (Stage::Entering, UiEvent::Entered) => Presenter { stage: Stage::Rendering, ..p },
        (Stage::Entering, UiEvent::EnterFailed) => Presenter {
            stage: Stage::Closed,
            failure: first_failure(p.failure, TerminalError::EnterFailed),
        },
        (Stage::Rendering, UiEvent::Drawn) => Presenter { stage: Stage::Waiting, ..p },
        (Stage::Rendering, UiEvent::DrawFailed) => Presenter {
            stage: Stage::Exiting,
            failure: first_failure(p.failure, TerminalError::DrawFailed),
        },
        (Stage::Waiting, UiEvent::Input(input)) => match decision_on(input) {
            Decision::Exit => Presenter { stage: Stage::Exiting, ..p },
            Decision::Redraw => Presenter { stage: Stage::Rendering, ..p },
        },
        (Stage::Waiting, UiEvent::InputFailed) => Presenter {
            stage: Stage::Exiting,
            failure: first_failure(p.failure, TerminalError::InputFailed),
        },
        (Stage::Exiting, UiEvent::Restored) => Presenter { stage: Stage::Closed, ..p },
        (Stage::Exiting, UiEvent::RestoreFailed) => Presenter {
            stage: Stage::Closed,
            failure: first_failure(p.failure, TerminalError::RestoreFailed),
        },
        _ => p,
    }
}

/// The result with which a closed view returns: success unless something failed.
pub open spec fn outcome(p: Presenter) -> Result<(), TerminalError> {
    match p.failure {
        Some(e) => Err(e),
        None => Ok(()),
    }
}

/// What a state asks for.
pub open spec fn pending_action(p: Presenter) -> UiAction {
    match p.stage {
        Stage::Entering => UiAction::Enter,
        Stage::Rendering => UiAction::Draw,
        Stage::Waiting => UiAction::AwaitInput,
        Stage::Exiting => UiAction::Restore,
        Stage::Closed => UiAction::Stop(outcome(p)),
    }
}

impl Presenter {
    /// A view that has not touched the terminal yet.
    pub fn new() -> (p: Presenter)
        ensures
            p == initial(),
    {
        Presenter { stage: Stage::Entering, failure: None }
    }

    /// What the view asks for now.
    pub fn action(&self) -> (a: UiAction)
        ensures
            a == pending_action(*self),
    {
        match self.stage {
            Stage::Entering => UiAction::Enter,
            Stage::Rendering => UiAction::Draw,
            Stage::Waiting => UiAction::AwaitInput,
            Stage::Exiting => UiAction::Restore,
            Stage::Closed => match self.failure {
                Some(e) => UiAction::Stop(Err(e)),
                None => UiAction::Stop(Ok(())),
            },
        }
    }

    /// Notes a failure, unless an earlier one is noted already.
    fn fail(&mut self, error: TerminalError)
        ensures
            final(self).stage == old(self).stage,
            final(self).failure == first_failure(old(self).failure, error),
    {
        if self.failure.is_none() {
            self.failure = Some(error);
        }
    }

    /// Takes in what happened to the last request and says what to do next.
    pub fn step(&mut self, event: UiEvent) -> (a: UiAction)
        ensures
            *final(self) == next_state(*old(self), event),
            a == pending_action(*final(self)),
    {
        match (self.stage, event) {
            (Stage::Entering, UiEvent::Entered) => {
                self.stage = Stage::Rendering;
            },
            (Stage::Entering, UiEvent::EnterFailed) => {
                self.fail(TerminalError::EnterFailed);
                self.stage = Stage::Closed;
            },
            (Stage::Rendering, UiEvent::Drawn) => {
                self.stage = Stage::Waiting;
            },
            (Stage::Rendering, UiEvent::DrawFailed) => {
                self.fail(TerminalError::DrawFailed);
                self.stage = Stage::Exiting;
            },
            (Stage::Waiting, UiEvent::Input(input)) => {
                match decide(input) {
                    Decision::Exit => {
                        self.stage = Stage::Exiting;
                    },
                    Decision::Redraw => {
                        self.stage = Stage::Rendering;
                    },
                }
            },
            (Stage::Waiting, UiEvent::InputFailed) => {
                self.fail(TerminalError::InputFailed);
                self.stage = Stage::Exiting;
            },
            (Stage::Exiting, UiEvent::Restored) => {
                self.stage = Stage::Closed;
            },
            (Stage::Exiting, UiEvent::RestoreFailed) => {
                self.fail(TerminalError::RestoreFailed);
                self.stage = Stage::Closed;
            },
            _ => {},
        }
        self.action()
    }
}

/// Whether the terminal is in the raw alternate screen while the view is in
/// this stage.
pub open spec fn holds_terminal(stage: Stage) -> bool {
    stage == Stage::Rendering || stage == Stage::Waiting || stage == Stage::Exiting
}

/// The state after a run of events from the start.
pub open spec fn state_after(events: Seq<UiEvent>) -> Presenter
    decreases events.len(),
{
    if events.len() == 0 {
        initial()
    } else {
        next_state(state_after(events.drop_last()), events.last())
    }
}

/// The terminal is given up only through `Exiting`: a view that holds the
/// terminal never closes in one step unless it stands in `Exiting`, where
/// the request pending is to switch the terminal back; and whatever fails
/// while it draws or waits takes it to `Exiting`.
pub proof fn lemma_exit_restores(p: Presenter, event: UiEvent)
    ensures
        holds_terminal(p.stage) && next_state(p, event).stage == Stage::Closed ==> p.stage
            == Stage::Exiting && pending_action(p) == UiAction::Restore && (event
            == UiEvent::Restored || event == UiEvent::RestoreFailed),
        p.stage == Stage::Rendering && event == UiEvent::DrawFailed ==> next_state(p, event).stage
            == Stage::Exiting,
        p.stage == Stage::Waiting && event == UiEvent::InputFailed ==> next_state(p, event).stage
            == Stage::Exiting,
        p.stage == Stage::Waiting && event == UiEvent::Input(Input::Key(Key::Esc)) ==> next_state(
            p,
            event,
        ).stage == Stage::Exiting,
        p.stage == Stage::Closed ==> next_state(p, event) == p,
{
}

/// A failure that was noted is never lost, and a view that closes without
/// one returns success.
pub proof fn lemma_failure_kept(p: Presenter, event: UiEvent)
    ensures
        p.failure.is_some() ==> next_state(p, event).failure == p.failure,
        next_state(p, event).failure.is_none() ==> p.failure.is_none(),
        outcome(p).is_ok() == p.failure.is_none(),
{
}

/// In every run from the start that has closed the view, either the terminal
/// could not be entered at all, or the last event that changed the state
/// answered the request to switch the terminal back.
pub proof fn lemma_closed_after_restore(events: Seq<UiEvent>)
    requires
        state_after(events).stage == Stage::Closed,
    ensures
        exists|k: int|
            0 <= k < events.len() && state_after(events.take(k)).stage != Stage::Closed
                && state_after(events.take(k + 1)).stage == Stage::Closed && ((state_after(
                events.take(k),
            ).stage == Stage::Entering && #[trigger] events[k] == UiEvent::EnterFailed) || (
            state_after(events.take(k)).stage == Stage::Exiting && (events[k] == UiEvent::Restored
                || events[k] == UiEvent::RestoreFailed))),
    decreases events.len(),
{
    if events.len() == 0 {
    } else {
        let rest = events.drop_last();
        let before = state_after(rest);
        if before.stage == Stage::Closed {
            lemma_closed_after_restore(rest);
            let k = choose|k: int|
                0 <= k < rest.len() && state_after(rest.take(k)).stage != Stage::Closed
                    && state_after(rest.take(k + 1)).stage == Stage::Closed && ((state_after(
                    rest.take(k),
                ).stage == Stage::Entering && #[trigger] rest[k] == UiEvent::EnterFailed) || (
                state_after(rest.take(k)).stage == Stage::Exiting && (rest[k] == UiEvent::Restored
                    || rest[k] == UiEvent::RestoreFailed)));
            assert(rest.take(k) =~= events.take(k));
            assert(rest.take(k + 1) =~= events.take(k + 1));
            assert(events[k] == rest[k]);
        } else {
            let k = events.len() - 1;
            assert(events.take(k) =~= rest);
            assert(events.take(k + 1) =~= events);
            assert(events[k] == events.last());
        }
    }
}

} // verus!
