use vstd::prelude::*;

verus! {

/// Label of the window whose inspector the command opens.
pub const MAIN_WINDOW_LABEL: &'static str = "main";

/// Where one invocation of the command stands.
#[derive(Clone, Copy, Debug, PartialEq, Eq, Structural)]
pub enum Phase {
    /// Created, not yet invoked.
    Ready,
    /// Waiting for the host to look up the window labelled `main`.
    LookingUp,
    /// Waiting for the host to issue the inspector-open request.
    Opening,
    /// Completed; the invocation returns nothing to its caller.
    Finished,
}

/// What the host reports to an invocation.
#[derive(Clone, Copy, Debug, PartialEq, Eq, Structural)]
pub enum Event {
    /// The front end called the command.
    Invoked,
    /// The lookup found a window labelled `main`.
    MainFound,
    /// No window is labelled `main`.
    MainMissing,
    /// The inspector-open request was handed to the window.
    OpenIssued,
}

/// What the host is asked to do next.
#[derive(Clone, Copy, Debug, PartialEq, Eq, Structural)]
pub enum Action {
    /// Look up the window labelled [`MAIN_WINDOW_LABEL`]; a read, nothing changes.
    LookUpMain,
    /// Ask the window found to open its inspector.
    OpenInspector,
    /// Return from the command, with no value and no error.
    Complete,
}

/// The transition table. An event that the phase does not wait for is ignored:
/// the phase stays and no action follows.
pub open spec fn transition(p: Phase, e: Event) -> (Phase, Option<Action>) {
    match (p, e) {
        (Phase::Ready, Event::Invoked) => (Phase::LookingUp, Some(Action::LookUpMain)),
        (Phase::LookingUp, Event::MainFound) => (Phase::Opening, Some(Action::OpenInspector)),
        (Phase::LookingUp, Event::MainMissing) => (Phase::Finished, Some(Action::Complete)),
        (Phase::Opening, Event::OpenIssued) => (Phase::Finished, Some(Action::Complete)),
        _ => (p, None),
    }
}

/// One step of an invocation: the next phase and the action for the host.
pub fn step(p: Phase, e: Event) -> (r: (Phase, Option<Action>))
    ensures
        r == transition(p, e),
{
    match (p, e) {
        (Phase::Ready, Event::Invoked) => (Phase::LookingUp, Some(Action::LookUpMain)),
        (Phase::LookingUp, Event::MainFound) => (Phase::Opening, Some(Action::OpenInspector)),
        (Phase::LookingUp, Event::MainMissing) => (Phase::Finished, Some(Action::Complete)),
        (Phase::Opening, Event::OpenIssued) => (Phase::Finished, Some(Action::Complete)),
        _ => (p, None),
    }
}

/// One invocation of the command. Each invocation owns its phase and shares
/// nothing with any other, so invocations in flight together never wait on or
/// turn away one another.
pub struct Invocation {
    phase: Phase,
}

impl View for Invocation {
    type V = Phase;

    closed spec fn view(&self) -> Phase {
        self.phase
    }
}

impl Invocation {
    /// A fresh invocation, ready to be invoked.
    pub fn new() -> (r: Invocation)
        ensures
            r@ == Phase::Ready,
    {
        Invocation { phase: Phase::Ready }
    }

    /// The phase the invocation stands in.
    pub fn phase(&self) -> (r: Phase)
        ensures
            r == self@,
    {
        self.phase
    }

    /// Whether the invocation has completed.
    pub fn is_finished(&self) -> (r: bool)
        ensures
            r == (self@ == Phase::Finished),
    {
        self.phase == Phase::Finished
    }

    /// Takes the host's report and says what the host is to do next.
    pub fn handle(&mut self, e: Event) -> (a: Option<Action>)
        ensures
            (final(self)@, a) == transition(old(self)@, e),
    {
        let (next, action) = step(self.phase, e);
        self.phase = next;
        action
    }
}

} // verus!
