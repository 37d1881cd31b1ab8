//! Whole runs of one invocation, and what holds of every run.
use vstd::prelude::*;

use crate::devtools::{transition, Action, Event, Invocation, Phase};

verus! {

/// The actions that one step hands to the host.
pub open spec fn actions_of(a: Option<Action>) -> Seq<Action> {
    match a {
        Some(x) => seq![x],
        None => seq![],
    }
}

/// Feeding the events `es` in order to an invocation in phase `p`: the phase it
/// ends in and the actions it asked for, in order.
pub open spec fn run(p: Phase, es: Seq<Event>) -> (Phase, Seq<Action>)
    decreases es.len(),
{
    if es.len() == 0 {
        (p, seq![])
    } else {
        let (q, a) = transition(p, es[0]);
        let (r, rest) = run(q, es.drop_first());
        (r, actions_of(a) + rest)
    }
}

/// How many inspector-open requests the actions `acts` hold.
pub open spec fn open_count(acts: Seq<Action>) -> nat
    decreases acts.len(),
{
    if acts.len() == 0 {
        0
    } else {
        (if acts[0] == Action::OpenInspector { 1nat } else { 0nat }) + open_count(acts.drop_first())
    }
}

proof fn lemma_open_count_concat(a: Seq<Action>, b: Seq<Action>)
    ensures
        open_count(a + b) == open_count(a) + open_count(b),
    decreases a.len(),
{
    if a.len() == 0 {
        assert(a + b =~= b);
    } else {
        assert((a + b).drop_first() =~= a.drop_first() + b);
        lemma_open_count_concat(a.drop_first(), b);
    }
}

proof fn lemma_run_step(p: Phase, e: Event, es: Seq<Event>)
    ensures
        run(p, seq![e] + es).0 == run(transition(p, e).0, es).0,
        run(p, seq![e] + es).1 == actions_of(transition(p, e).1) + run(transition(p, e).0, es).1,
{
    assert((seq![e] + es).drop_first() =~= es);
}

/// A completed invocation ignores whatever else it is told: it stays
/// completed and asks for nothing.
pub proof fn lemma_finished_is_final(es: Seq<Event>)
    ensures
        run(Phase::Finished, es) == (Phase::Finished, Seq::<Action>::empty()),
    decreases es.len(),
{
    if es.len() > 0 {
        lemma_finished_is_final(es.drop_first());
        assert(actions_of(None) + Seq::<Action>::empty() =~= Seq::<Action>::empty());
    }
}

proof fn lemma_no_open_after_request(p: Phase, es: Seq<Event>)
    requires
        p == Phase::Opening || p == Phase::Finished,
    ensures
        open_count(run(p, es).1) == 0,
    decreases es.len(),
{
    if es.len() > 0 {
        let (q, a) = transition(p, es[0]);
        lemma_no_open_after_request(q, es.drop_first());
        lemma_open_count_concat(actions_of(a), run(q, es.drop_first()).1);
        reveal_with_fuel(open_count, 2);
    }
}

proof fn lemma_at_most_one_open_from(p: Phase, es: Seq<Event>)
    ensures
        open_count(run(p, es).1) <= 1,
    decreases es.len(),
{
    if es.len() > 0 {
        let (q, a) = transition(p, es[0]);
        lemma_open_count_concat(actions_of(a), run(q, es.drop_first()).1);
        reveal_with_fuel(open_count, 2);
        if a == Some(Action::OpenInspector) {
            lemma_no_open_after_request(q, es.drop_first());
        } else {
            lemma_at_most_one_open_from(q, es.drop_first());
        }
    }
}

/// Whatever the host reports, and in whatever order, one invocation issues at
/// most one inspector-open request.
pub proof fn lemma_at_most_one_open(es: Seq<Event>)
    ensures
        open_count(run(Phase::Ready, es).1) <= 1,
{
    lemma_at_most_one_open_from(Phase::Ready, es);
}

/// When the window labelled `main` exists, the invocation looks it up and then
/// issues exactly one inspector-open request, whatever follows.
pub proof fn lemma_found_opens_once(rest: Seq<Event>)
    ensures
        run(Phase::Ready, seq![Event::Invoked, Event::MainFound] + rest).1.subrange(0, 2)
            == seq![Action::LookUpMain, Action::OpenInspector],
        open_count(run(Phase::Ready, seq![Event::Invoked, Event::MainFound] + rest).1) == 1,
{
    let es = seq![Event::Invoked, Event::MainFound] + rest;
    let tail = seq![Event::MainFound] + rest;
    assert(es =~= seq![Event::Invoked] + tail);
    lemma_run_step(Phase::Ready, Event::Invoked, tail);
    lemma_run_step(Phase::LookingUp, Event::MainFound, rest);
    let after = run(Phase::Opening, rest).1;
    lemma_no_open_after_request(Phase::Opening, rest);
    let acts = run(Phase::Ready, es).1;
    assert(acts =~= seq![Action::LookUpMain, Action::OpenInspector] + after);
    lemma_open_count_concat(seq![Action::LookUpMain, Action::OpenInspector], after);
    reveal_with_fuel(open_count, 3);
    assert(seq![Action::LookUpMain, Action::OpenInspector].drop_first() =~= seq![Action::OpenInspector]);
    assert(seq![Action::OpenInspector].drop_first() =~= Seq::<Action>::empty());
    assert(acts.subrange(0, 2) =~= seq![Action::LookUpMain, Action::OpenInspector]);
}

/// Once the open request has been issued the invocation completes, with no
/// value and no error, and nothing said afterwards changes that.
pub proof fn lemma_found_completes(rest: Seq<Event>)
    ensures
        run(Phase::Ready, seq![Event::Invoked, Event::MainFound, Event::OpenIssued] + rest) == (
            Phase::Finished,
            seq![Action::LookUpMain, Action::OpenInspector, Action::Complete],
        ),
{
    let s3 = seq![Event::OpenIssued] + rest;
    let s2 = seq![Event::MainFound] + s3;
    let es = seq![Event::Invoked, Event::MainFound, Event::OpenIssued] + rest;
    assert(es =~= seq![Event::Invoked] + s2);
    lemma_run_step(Phase::Ready, Event::Invoked, s2);
    lemma_run_step(Phase::LookingUp, Event::MainFound, s3);
    lemma_run_step(Phase::Opening, Event::OpenIssued, rest);
    lemma_finished_is_final(rest);
    assert(run(Phase::Ready, es).1 =~= seq![Action::LookUpMain, Action::OpenInspector, Action::Complete]);
}

/// When no window is labelled `main`, the invocation completes after the
/// lookup: no open request, no error, and nothing said afterwards changes that.
pub proof fn lemma_missing_completes_quietly(rest: Seq<Event>)
    ensures
        run(Phase::Ready, seq![Event::Invoked, Event::MainMissing] + rest) == (
            Phase::Finished,
            seq![Action::LookUpMain, Action::Complete],
        ),
{
    let s2 = seq![Event::MainMissing] + rest;
    let es = seq![Event::Invoked, Event::MainMissing] + rest;
    assert(es =~= seq![Event::Invoked] + s2);
    lemma_run_step(Phase::Ready, Event::Invoked, s2);
    lemma_run_step(Phase::LookingUp, Event::MainMissing, rest);
    lemma_finished_is_final(rest);
    assert(run(Phase::Ready, es).1 =~= seq![Action::LookUpMain, Action::Complete]);
}

impl Invocation {
    /// Hands the events `es` to the invocation in order and collects the actions
    /// it asks for: the executable counterpart of [`run`].
    pub fn feed(&mut self, es: &[Event]) -> (acts: Vec<Action>)
        ensures
            (final(self)@, acts@) == run(old(self)@, es@),
    {
        let ghost start = self@;
        let mut acts: Vec<Action> = Vec::new();
        let mut i: usize = 0;
        assert(es@.subrange(0, es@.len() as int) =~= es@);
        assert(acts@ + run(start, es@).1 =~= run(start, es@).1);
        while i < es.len()
            invariant
                0 <= i <= es@.len(),
                run(self@, es@.subrange(i as int, es@.len() as int)).0 == run(start, es@).0,
                acts@ + run(self@, es@.subrange(i as int, es@.len() as int)).1 == run(start, es@).1,
            decreases es@.len() - i,
        {
            let ghost before = self@;
            let ghost tail = es@.subrange(i as int, es@.len() as int);
            assert(tail.drop_first() =~= es@.subrange(i + 1, es@.len() as int));
            let a = self.handle(es[i]);
            let ghost prev = acts@;
            match a {
                Some(x) => acts.push(x),
                None => {},
            }
            assert(acts@ =~= prev + actions_of(a));
            assert(prev + run(before, tail).1 =~= acts@ + run(self@, es@.subrange(i + 1, es@.len() as int)).1);
            i = i + 1;
        }
        assert(es@.subrange(0, es@.len() as int) =~= es@);
        assert(acts@ + Seq::<Action>::empty() =~= acts@);
        acts
    }
}

} // verus!
