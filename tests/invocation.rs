use devtools_shell::devtools::{step, Action, Event, Invocation, Phase, MAIN_WINDOW_LABEL};

#[test]
fn looks_up_the_window_labelled_main() {
    assert_eq!(MAIN_WINDOW_LABEL, "main");
}

#[test]
fn fresh_invocation_is_ready() {
    let inv = Invocation::new();
    assert_eq!(inv.phase(), Phase::Ready);
    assert!(!inv.is_finished());
}

#[test]
fn found_main_issues_one_open_request() {
    let mut inv = Invocation::new();
    assert_eq!(inv.handle(Event::Invoked), Some(Action::LookUpMain));
    assert_eq!(inv.handle(Event::MainFound), Some(Action::OpenInspector));
    assert_eq!(inv.phase(), Phase::Opening);
    assert_eq!(inv.handle(Event::OpenIssued), Some(Action::Complete));
    assert!(inv.is_finished());
}

#[test]
fn missing_main_completes_without_error() {
    let mut inv = Invocation::new();
    let acts = inv.feed(&[Event::Invoked, Event::MainMissing]);
    assert_eq!(acts, vec![Action::LookUpMain, Action::Complete]);
    assert!(inv.is_finished());
}

#[test]
fn repeated_reports_open_at_most_once() {
    let mut inv = Invocation::new();
    let acts = inv.feed(&[
        Event::Invoked,
        Event::Invoked,
        Event::MainFound,
        Event::MainFound,
        Event::MainMissing,
        Event::OpenIssued,
        Event::OpenIssued,
        Event::MainFound,
    ]);
    assert_eq!(acts, vec![Action::LookUpMain, Action::OpenInspector, Action::Complete]);
    let opens = acts.iter().filter(|a| **a == Action::OpenInspector).count();
    assert_eq!(opens, 1);
    assert!(inv.is_finished());
}

#[test]
fn finished_invocation_ignores_later_events() {
    let mut inv = Invocation::new();
    inv.feed(&[Event::Invoked, Event::MainFound, Event::OpenIssued]);
    let acts = inv.feed(&[Event::Invoked, Event::MainFound, Event::MainMissing, Event::OpenIssued]);
    assert!(acts.is_empty());
    assert_eq!(inv.phase(), Phase::Finished);
}

#[test]
fn events_out_of_turn_are_ignored() {
    assert_eq!(step(Phase::Ready, Event::MainFound), (Phase::Ready, None));
    assert_eq!(step(Phase::Ready, Event::OpenIssued), (Phase::Ready, None));
    assert_eq!(step(Phase::LookingUp, Event::Invoked), (Phase::LookingUp, None));
    assert_eq!(step(Phase::LookingUp, Event::OpenIssued), (Phase::LookingUp, None));
    assert_eq!(step(Phase::Opening, Event::MainMissing), (Phase::Opening, None));
}

#[test]
fn invocations_in_flight_together_are_independent() {
    let mut first = Invocation::new();
    let mut second = Invocation::new();
    assert_eq!(first.handle(Event::Invoked), Some(Action::LookUpMain));
    assert_eq!(second.handle(Event::Invoked), Some(Action::LookUpMain));
    assert_eq!(first.handle(Event::MainFound), Some(Action::OpenInspector));
    assert_eq!(second.phase(), Phase::LookingUp);
    assert_eq!(second.handle(Event::MainFound), Some(Action::OpenInspector));
    assert_eq!(second.handle(Event::OpenIssued), Some(Action::Complete));
    assert_eq!(first.phase(), Phase::Opening);
    assert_eq!(first.handle(Event::OpenIssued), Some(Action::Complete));
    assert!(first.is_finished() && second.is_finished());
}

#[test]
fn feed_of_nothing_changes_nothing() {
    let mut inv = Invocation::new();
    assert!(inv.feed(&[]).is_empty());
    assert_eq!(inv.phase(), Phase::Ready);
}
