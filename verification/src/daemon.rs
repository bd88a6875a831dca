//! The Explorer daemon's decisions: Space opens a preview of the file
//! selected in the foreground Explorer window, and Space again closes it.
//! The application performs each action (querying the selection, opening
//! or closing the window) and reports back what it observed.

use vstd::prelude::*;

verus! {

/// Whether a preview window is open.
#[derive(Debug, Clone, Copy, PartialEq, Eq, Structural)]
pub enum DaemonState {
    Idle,
    Previewing,
}

/// What the application observed: the hotkey was pressed, or the Explorer
/// selection was queried (`None` when no single file is selected).
#[derive(Debug)]
pub enum DaemonEvent {
    Toggle,
    Selected(Option<String>),
}

/// What the application does next.
#[derive(Debug)]
pub enum DaemonAction {
    /// Ask Explorer for its selected file and report it as `Selected`.
    QuerySelection,
    /// Open a preview window on this file.
    OpenPreview(String),
    /// Close the open preview window and wait for it to go away.
    ClosePreview,
    /// Nothing to do until the next hotkey press.
    Wait,
}

/// The state after `event` arrives in `state`.
pub open spec fn next_state(state: DaemonState, event: DaemonEvent) -> DaemonState {
    match (state, event) {
        (DaemonState::Previewing, DaemonEvent::Toggle) => DaemonState::Idle,
        (DaemonState::Idle, DaemonEvent::Selected(Some(_))) => DaemonState::Previewing,
        _ => state,
    }
}

/// Whether `action` is what the daemon does when `event` arrives in
/// `state`.
pub open spec fn decided_action(state: DaemonState, event: DaemonEvent, action: DaemonAction) -> bool {
    match (state, event) {
        (DaemonState::Previewing, DaemonEvent::Toggle) => action is ClosePreview,
        (DaemonState::Idle, DaemonEvent::Toggle) => action is QuerySelection,
        (DaemonState::Idle, DaemonEvent::Selected(Some(p))) => {
            &&& action matches DaemonAction::OpenPreview(q)
            &&& q@ == p@
        },
        (DaemonState::Idle, DaemonEvent::Selected(None)) => action is Wait,
        (DaemonState::Previewing, DaemonEvent::Selected(_)) => action is Wait,
    }
}

/// What each hotkey press and each selection answer leads to: Space while
/// a preview is open closes it and the daemon goes idle; Space while idle
/// asks Explorer for its selection and stays idle until the answer; a
/// selected file is opened and becomes the open preview; no selection, or
/// an answer that arrives while a preview is open, changes nothing.
pub proof fn lemma_toggle_table(path: String, action: DaemonAction)
    ensures
        next_state(DaemonState::Previewing, DaemonEvent::Toggle) == DaemonState::Idle,
        decided_action(DaemonState::Previewing, DaemonEvent::Toggle, action) <==> action is ClosePreview,
        next_state(DaemonState::Idle, DaemonEvent::Toggle) == DaemonState::Idle,
        decided_action(DaemonState::Idle, DaemonEvent::Toggle, action) <==> action is QuerySelection,
        next_state(DaemonState::Idle, DaemonEvent::Selected(Some(path))) == DaemonState::Previewing,
        decided_action(DaemonState::Idle, DaemonEvent::Selected(Some(path)), action) <==> (
        action is OpenPreview && action->OpenPreview_0@ == path@),
        next_state(DaemonState::Idle, DaemonEvent::Selected(None)) == DaemonState::Idle,
        decided_action(DaemonState::Idle, DaemonEvent::Selected(None), action) <==> action is Wait,
        next_state(DaemonState::Previewing, DaemonEvent::Selected(Some(path)))
            == DaemonState::Previewing,
        decided_action(DaemonState::Previewing, DaemonEvent::Selected(Some(path)), action)
            <==> action is Wait,
{
}

/// The number of preview windows that an action leaves open, when `open`
/// were open before it.
pub open spec fn windows_after(open: int, action: DaemonAction) -> int {
    match action {
        DaemonAction::OpenPreview(_) => open + 1,
        DaemonAction::ClosePreview => open - 1,
        _ => open,
    }
}

/// The number of preview windows open in a state.
pub open spec fn windows_in(state: DaemonState) -> int {
    match state {
        DaemonState::Idle => 0,
        DaemonState::Previewing => 1,
    }
}

/// Decides what the daemon does when `event` arrives in `state`: a press
/// closes an open preview, or asks for the selection when none is open; a
/// selected file is opened, and no selection means waiting for the next
/// press.
pub fn daemon_step(state: DaemonState, event: DaemonEvent) -> (next: (DaemonState, DaemonAction))
    ensures
        next.0 == next_state(state, event),
        decided_action(state, event, next.1),
{
    match state {
        DaemonState::Previewing => match event {
            DaemonEvent::Toggle => (DaemonState::Idle, DaemonAction::ClosePreview),
            DaemonEvent::Selected(_) => (DaemonState::Previewing, DaemonAction::Wait),
        },
        DaemonState::Idle => match event {
            DaemonEvent::Toggle => (DaemonState::Idle, DaemonAction::QuerySelection),
            DaemonEvent::Selected(Some(path)) => (
                DaemonState::Previewing,
                DaemonAction::OpenPreview(path),
            ),
            DaemonEvent::Selected(None) => (DaemonState::Idle, DaemonAction::Wait),
        },
    }
}

/// At most one preview window exists at a time: when the open windows match
/// the state, performing the step's action leaves them matching the next
/// state, so there is never more than one, and a window is only opened when
/// none is open.
pub proof fn lemma_at_most_one_preview(
    state: DaemonState,
    event: DaemonEvent,
    action: DaemonAction,
    open: int,
)
    requires
        open == windows_in(state),
        decided_action(state, event, action),
    ensures
        windows_after(open, action) == windows_in(next_state(state, event)),
        0 <= windows_after(open, action) <= 1,
        action is OpenPreview ==> open == 0,
        action is ClosePreview ==> open == 1,
{
}

/// The state after a run of events from `state`.
pub open spec fn state_after(state: DaemonState, events: Seq<DaemonEvent>) -> DaemonState
    decreases events.len(),
{
    if events.len() == 0 {
        state
    } else {
        state_after(next_state(state, events[0]), events.drop_first())
    }
}

/// Starting without a window, every run of events, each answered by the
/// action that `daemon_step` decides, keeps at most one preview window
/// open: the windows left open are those of the state reached.
pub proof fn lemma_run_keeps_one_preview(
    state: DaemonState,
    events: Seq<DaemonEvent>,
    actions: Seq<DaemonAction>,
    open: int,
)
    requires
        open == windows_in(state),
        actions.len() == events.len(),
        forall|i: int|
            0 <= i < events.len() ==> decided_action(
                #[trigger] state_after(state, events.take(i)),
                events[i],
                actions[i],
            ),
    ensures
        windows_after_all(open, actions) == windows_in(state_after(state, events)),
        0 <= windows_after_all(open, actions) <= 1,
    decreases events.len(),
{
    if events.len() > 0 {
        assert(events.take(0) =~= Seq::<DaemonEvent>::empty());
        assert(state_after(state, events.take(0)) == state);
        assert(decided_action(state_after(state, events.take(0)), events[0], actions[0]));
        let s1 = next_state(state, events[0]);
        lemma_at_most_one_preview(state, events[0], actions[0], open);
        let rest = events.drop_first();
        assert forall|i: int| 0 <= i < rest.len() implies decided_action(
            #[trigger] state_after(s1, rest.take(i)),
            rest[i],
            actions.drop_first()[i],
        ) by {
            let t = events.take(i + 1);
            assert(t.drop_first() =~= rest.take(i));
            assert(t[0] == events[0]);
            assert(state_after(state, t) == state_after(s1, rest.take(i)));
            assert(state_after(state, events.take(i + 1)) == state_after(s1, rest.take(i)));
        }
        lemma_run_keeps_one_preview(s1, rest, actions.drop_first(), windows_after(open, actions[0]));
    }
}

/// The windows left open after performing `actions` in order, starting
/// with `open` windows.
pub open spec fn windows_after_all(open: int, actions: Seq<DaemonAction>) -> int
    decreases actions.len(),
{
    if actions.len() == 0 {
        open
    } else {
        windows_after_all(windows_after(open, actions[0]), actions.drop_first())
    }
}

} // verus!
