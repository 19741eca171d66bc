//! The record of a pass: the states it goes through and the steps it hands
//! out, for any sequence of reports, and what holds of every such record.

use vstd::prelude::*;
use crate::client::ClientModel;
use crate::sync::lemma_step_wf;
use crate::sync::Event;
use crate::sync::Phase;
use crate::sync::Step;
use crate::sync::SyncState;
use crate::version::marker_text;

verus! {

/// The state after a sequence of events.
pub open spec fn run(start: SyncState, events: Seq<Event>) -> SyncState
    decreases events.len(),
{
    if events.len() == 0 {
        start
    } else {
        run(start, events.drop_last()).step(events.last()).0
    }
}

/// The steps handed out in answer to a sequence of events, one for each.
pub open spec fn answers(start: SyncState, events: Seq<Event>) -> Seq<Step>
    decreases events.len(),
{
    if events.len() == 0 {
        Seq::empty()
    } else {
        answers(start, events.drop_last()).push(
            run(start, events.drop_last()).step(events.last()).1,
        )
    }
}

/// The state of a pass that began with this client and marker and has
/// taken these events.
pub open spec fn pass_state(
    client: ClientModel,
    marker: Option<Seq<char>>,
    events: Seq<Event>,
) -> SyncState {
    run(SyncState::begin(client, marker).0, events)
}

/// All steps that such a pass has handed out: the first one, then the
/// answer to each event.
pub open spec fn journal(
    client: ClientModel,
    marker: Option<Seq<char>>,
    events: Seq<Event>,
) -> Seq<Step> {
    seq![SyncState::begin(client, marker).1] + answers(SyncState::begin(client, marker).0, events)
}

/// The files that a record probes, in order.
pub open spec fn probes(steps: Seq<Step>) -> Seq<Seq<char>>
    decreases steps.len(),
{
    if steps.len() == 0 {
        Seq::empty()
    } else {
        match steps.last() {
            Step::Probe { file } => probes(steps.drop_last()).push(file),
            _ => probes(steps.drop_last()),
        }
    }
}

/// The files that a record removes, in order.
pub open spec fn removals(steps: Seq<Step>) -> Seq<Seq<char>>
    decreases steps.len(),
{
    if steps.len() == 0 {
        Seq::empty()
    } else {
        match steps.last() {
            Step::Remove { file } => removals(steps.drop_last()).push(file),
            _ => removals(steps.drop_last()),
        }
    }
}

/// What a record writes to the version marker, in order.
pub open spec fn marker_writes(steps: Seq<Step>) -> Seq<Seq<char>>
    decreases steps.len(),
{
    if steps.len() == 0 {
        Seq::empty()
    } else {
        match steps.last() {
            Step::WriteMarker { content } => marker_writes(steps.drop_last()).push(content),
            _ => marker_writes(steps.drop_last()),
        }
    }
}

/// Whether no event reports a failure.
pub open spec fn all_succeeded(events: Seq<Event>) -> bool {
    forall|i: int| 0 <= i < events.len() ==> !(#[trigger] events[i] is Failed)
}

/// How a state accounts for the record that led to it: which entries of
/// the two lists were taken up, and whether the marker was written.
pub open spec fn accounted(state: SyncState, steps: Seq<Step>) -> bool {
    let p = probes(steps);
    let r = removals(steps);
    let w = marker_writes(steps);
    let download = state.changes.download;
    let delete = state.changes.delete;
    &&& state.wf()
    &&& match state.phase {
        Phase::AwaitVersion | Phase::AwaitChangelist | Phase::UpToDate => {
            &&& p.len() == 0
            &&& r.len() == 0
            &&& w.len() == 0
        },
        Phase::Probing(i) | Phase::Hashing(i) | Phase::Fetching(i) => {
            &&& p == download.take(i + 1)
            &&& r.len() == 0
            &&& w.len() == 0
        },
        Phase::Deleting(k) => {
            &&& p == download
            &&& r == delete.take(k + 1)
            &&& w.len() == 0
        },
        Phase::Persisting | Phase::Done => {
            &&& p == download
            &&& r == delete
            &&& w == seq![marker_text(state.remote)]
        },
        Phase::Failed => {
            &&& p.is_prefix_of(download)
            &&& r.is_prefix_of(delete)
            &&& r.len() > 0 ==> p == download
            &&& w.len() > 0 ==> p == download && r == delete && w == seq![
                marker_text(state.remote),
            ]
        },
    }
}

/// What one more step adds to the three readings of a record.
pub proof fn lemma_readings_push(steps: Seq<Step>, step: Step)
    ensures
        probes(steps.push(step)) == match step {
            Step::Probe { file } => probes(steps).push(file),
            _ => probes(steps),
        },
        removals(steps.push(step)) == match step {
            Step::Remove { file } => removals(steps).push(file),
            _ => removals(steps),
        },
        marker_writes(steps.push(step)) == match step {
            Step::WriteMarker { content } => marker_writes(steps).push(content),
            _ => marker_writes(steps),
        },
{
    assert(steps.push(step).drop_last() =~= steps);
    assert(steps.push(step).last() == step);
}

/// A step keeps the account: if a state accounts for a record, the next
/// state accounts for the record with the step's answer added.
pub proof fn lemma_step_accounted(state: SyncState, steps: Seq<Step>, event: Event)
    requires
        accounted(state, steps),
    ensures
        accounted(state.step(event).0, steps.push(state.step(event).1)),
{
    let (next, answer) = state.step(event);
    lemma_readings_push(steps, answer);
    let download = next.changes.download;
    let delete = next.changes.delete;
    let p = probes(steps);
    let r = removals(steps);
    let w = marker_writes(steps);
    lemma_step_wf(state, event);
    assert(download.take(download.len() as int) =~= download);
    assert(delete.take(delete.len() as int) =~= delete);
    assert(p.len() == 0 ==> p =~= download.take(0));
    assert(r.len() == 0 ==> r =~= delete.take(0));
    assert(w.len() == 0 ==> w.push(marker_text(next.remote)) =~= seq![marker_text(next.remote)]);
    match next.phase {
        Phase::Probing(i) => {
            assert(download.take(i as int).push(download[i as int]) =~= download.take(i + 1));
        },
        Phase::Deleting(k) => {
            assert(delete.take(k as int).push(delete[k as int]) =~= delete.take(k + 1));
        },
        _ => {},
    }
}

/// There is one answer for each event.
pub proof fn lemma_answers_len(start: SyncState, events: Seq<Event>)
    ensures
        answers(start, events).len() == events.len(),
    decreases events.len(),
{
    if events.len() > 0 {
        lemma_answers_len(start, events.drop_last());
    }
}

/// The answer to the event at position `k` is the step taken from the
/// state that the events before it led to.
pub proof fn lemma_answer_at(start: SyncState, events: Seq<Event>, k: int)
    requires
        0 <= k < events.len(),
    ensures
        answers(start, events).len() == events.len(),
        answers(start, events)[k] == run(start, events.take(k)).step(events[k]).1,
    decreases events.len(),
{
    lemma_answers_len(start, events);
    lemma_answers_len(start, events.drop_last());
    if k == events.len() - 1 {
        assert(events.take(k) =~= events.drop_last());
    } else {
        lemma_answer_at(start, events.drop_last(), k);
        assert(events.drop_last().take(k) =~= events.take(k));
    }
}

/// One event leads to the state and the answer of one step.
pub proof fn lemma_one_event(start: SyncState, event: Event)
    ensures
        run(start, seq![event]) == start.step(event).0,
        answers(start, seq![event]) == seq![start.step(event).1],
{
    let events = seq![event];
    assert(events.drop_last() =~= Seq::<Event>::empty());
    assert(events.last() == event);
    assert(run(start, events.drop_last()) == start);
    assert(answers(start, events.drop_last()) =~= Seq::<Step>::empty());
    assert(answers(start, events) =~= seq![start.step(event).1]);
}

/// A pass's record holds one step more than the events it has taken.
pub proof fn lemma_journal_len(
    client: ClientModel,
    marker: Option<Seq<char>>,
    events: Seq<Event>,
)
    ensures
        journal(client, marker, events).len() == events.len() + 1,
{
    lemma_answers_len(SyncState::begin(client, marker).0, events);
}

/// A pass that has ended stays as it is and answers every event with its
/// verdict.
pub proof fn lemma_ended_pass_stays(state: SyncState, events: Seq<Event>)
    requires
        state.phase.is_terminal(),
    ensures
        run(state, events) == state,
        answers(state, events).len() == events.len(),
        forall|j: int|
            0 <= j < events.len() ==> #[trigger] answers(state, events)[j] == Step::Finish(
                state.verdict(),
            ),
    decreases events.len(),
{
    if events.len() > 0 {
        lemma_ended_pass_stays(state, events.drop_last());
    }
}

/// Events taken one run after another lead where they lead in one run.
pub proof fn lemma_run_in_two(start: SyncState, first: Seq<Event>, second: Seq<Event>)
    ensures
        run(start, first + second) == run(run(start, first), second),
        answers(start, first + second) == answers(start, first) + answers(
            run(start, first),
            second,
        ),
    decreases second.len(),
{
    if second.len() == 0 {
        assert(first + second =~= first);
        assert(answers(start, first) + Seq::<Step>::empty() =~= answers(start, first));
    } else {
        lemma_run_in_two(start, first, second.drop_last());
        assert((first + second).drop_last() =~= first + second.drop_last());
        assert((first + second).last() == second.last());
        assert(answers(start, first + second) =~= answers(start, first) + answers(
            run(start, first),
            second,
        ));
    }
}

/// Every pass accounts for its record, whatever the driver reports.
pub proof fn lemma_pass_accounted(
    client: ClientModel,
    marker: Option<Seq<char>>,
    events: Seq<Event>,
)
    requires
        client.wf(),
    ensures
        accounted(pass_state(client, marker, events), journal(client, marker, events)),
    decreases events.len(),
{
    let (start, first) = SyncState::begin(client, marker);
    if events.len() == 0 {
        assert(journal(client, marker, events) =~= Seq::<Step>::empty().push(first));
        lemma_readings_push(Seq::<Step>::empty(), first);
    } else {
        lemma_pass_accounted(client, marker, events.drop_last());
        let before = pass_state(client, marker, events.drop_last());
        let steps = journal(client, marker, events.drop_last());
        lemma_step_accounted(before, steps, events.last());
        assert(journal(client, marker, events) =~= steps.push(before.step(events.last()).1));
    }
}

/// The step at position `j + 1` of a pass's record answers the event at
/// position `j`.
pub proof fn lemma_journal_at(
    client: ClientModel,
    marker: Option<Seq<char>>,
    events: Seq<Event>,
    j: int,
)
    requires
        0 <= j < events.len(),
    ensures
        journal(client, marker, events).len() == events.len() + 1,
        journal(client, marker, events)[j + 1] == pass_state(client, marker, events.take(j)).step(
            events[j],
        ).1,
        journal(client, marker, events.take(j)) == journal(client, marker, events).take(j + 1),
{
    let start = SyncState::begin(client, marker).0;
    lemma_answer_at(start, events, j);
    lemma_answers_len(start, events.take(j));
    assert forall|k: int| 0 <= k < j implies answers(start, events.take(j))[k] == answers(
        start,
        events,
    )[k] by {
        lemma_answer_at(start, events, k);
        lemma_answer_at(start, events.take(j), k);
        assert(events.take(j).take(k) =~= events.take(k));
    }
    assert(journal(client, marker, events.take(j)) =~= journal(client, marker, events).take(j + 1));
}

} // verus!
