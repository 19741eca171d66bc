//! What holds of every pass, whatever the server sends and whatever the
//! driver reports.

use vstd::prelude::*;
use crate::client::ClientModel;
use crate::error::Fault;
use crate::history::all_succeeded;
use crate::history::answers;
use crate::history::journal;
use crate::history::lemma_answer_at;
use crate::history::lemma_answers_len;
use crate::history::lemma_ended_pass_stays;
use crate::history::lemma_journal_at;
use crate::history::lemma_journal_len;
use crate::history::lemma_one_event;
use crate::history::lemma_pass_accounted;
use crate::history::lemma_run_in_two;
use crate::history::marker_writes;
use crate::history::pass_state;
use crate::history::probes;
use crate::history::removals;
use crate::history::run;
use crate::sync::Event;
use crate::sync::Phase;
use crate::sync::Step;
use crate::sync::SyncState;
use crate::sync::Verdict;
use crate::text::same_ignoring_case;
use crate::version::is_current;
use crate::version::lemma_marker_is_current;
use crate::version::marker_text;

verus! {

/// Whether a step leaves the network and the disk alone but for the
/// version request: it asks for the version, or it ends the pass.
pub open spec fn is_idle(step: Step) -> bool {
    step is FetchVersion || step is Finish
}

/// Whether a step belongs to the work on a download entry.
pub open spec fn is_download_work(step: Step) -> bool {
    step is Probe || step is Digest || step is Download
}

/// A record that only holds idle steps probes nothing, removes nothing
/// and writes no marker.
pub proof fn lemma_idle_record(steps: Seq<Step>)
    requires
        forall|j: int| 0 <= j < steps.len() ==> is_idle(#[trigger] steps[j]),
    ensures
        probes(steps).len() == 0,
        removals(steps).len() == 0,
        marker_writes(steps).len() == 0,
    decreases steps.len(),
{
    if steps.len() > 0 {
        lemma_idle_record(steps.drop_last());
        assert(is_idle(steps[steps.len() - 1]));
    }
}

/// A record that holds a removal has a removal among its readings.
proof fn lemma_removal_is_read(steps: Seq<Step>, i: int)
    requires
        0 <= i < steps.len(),
        steps[i] is Remove,
    ensures
        removals(steps).len() > 0,
    decreases steps.len(),
{
    if i < steps.len() - 1 {
        lemma_removal_is_read(steps.drop_last(), i);
    }
}

/// Where the local marker and the server's version are equal once
/// trimmed, the pass ends with the version response: no changelist is
/// asked for, no file is probed, fetched or removed, and no marker is
/// written, whatever is reported afterwards.
pub proof fn law_up_to_date_touches_nothing(
    client: ClientModel,
    marker: Option<Seq<char>>,
    remote: String,
    rest: Seq<Event>,
)
    requires
        client.wf(),
        is_current(marker, remote@),
    ensures
        ({
            let events = seq![Event::Version(remote)] + rest;
            let steps = journal(client, marker, events);
            &&& steps.len() == events.len() + 1
            &&& forall|j: int| 0 <= j < steps.len() ==> is_idle(#[trigger] steps[j])
            &&& forall|j: int| 1 <= j < steps.len() ==> #[trigger] steps[j] is Finish
            &&& client.request(seq!["version"@]) is Some ==> {
                &&& pass_state(client, marker, events).phase is UpToDate
                &&& forall|j: int|
                    1 <= j < steps.len() ==> #[trigger] steps[j] == Step::Finish(Verdict::UpToDate)
            }
            &&& probes(steps).len() == 0
            &&& removals(steps).len() == 0
            &&& marker_writes(steps).len() == 0
        }),
{
    let (start, first) = SyncState::begin(client, marker);
    let head = seq![Event::Version(remote)];
    let events = head + rest;
    let steps = journal(client, marker, events);
    lemma_run_in_two(start, head, rest);
    lemma_one_event(start, Event::Version(remote));
    let after = run(start, head);
    assert(after.phase.is_terminal());
    lemma_ended_pass_stays(after, rest);
    lemma_answers_len(start, events);
    assert forall|j: int| 1 <= j < steps.len() implies #[trigger] steps[j] is Finish && (
    client.request(seq!["version"@]) is Some ==> steps[j] == Step::Finish(Verdict::UpToDate)) by {
        if j >= 2 {
            assert(steps[j] == answers(after, rest)[j - 2]);
        }
    }
    assert(is_idle(steps[0]));
    lemma_idle_record(steps);
}

/// After a pass that applied every change and wrote the marker, a second
/// pass that finds this marker and is told the same version ends with the
/// version response: it fetches nothing and leaves the marker as it is.
pub proof fn law_second_pass_is_idle(
    client: ClientModel,
    marker: Option<Seq<char>>,
    events: Seq<Event>,
    again: ClientModel,
    remote: String,
    rest: Seq<Event>,
)
    requires
        client.wf(),
        again.wf(),
        pass_state(client, marker, events).phase is Done,
        remote@ == pass_state(client, marker, events).remote,
    ensures
        ({
            let written = marker_writes(journal(client, marker, events));
            let steps = journal(again, Some(written.last()), seq![Event::Version(remote)] + rest);
            &&& written == seq![marker_text(remote@)]
            &&& forall|j: int| 0 <= j < steps.len() ==> is_idle(#[trigger] steps[j])
            &&& forall|j: int| 1 <= j < steps.len() ==> #[trigger] steps[j] is Finish
            &&& probes(steps).len() == 0
            &&& removals(steps).len() == 0
            &&& marker_writes(steps).len() == 0
        }),
{
    lemma_pass_accounted(client, marker, events);
    lemma_marker_is_current(remote@);
    law_up_to_date_touches_nothing(again, Some(marker_text(remote@)), remote, rest);
}

/// Whether a fingerprint is the one that the changelist declares for a
/// file, the case of letters set aside.
pub open spec fn agrees(state: SyncState, file: Seq<char>, actual: Seq<char>) -> bool {
    match state.changes.expected(file) {
        Some(declared) => same_ignoring_case(actual, declared),
        None => false,
    }
}

/// Whether the changelist declares a fingerprint for a file, and another
/// one than this.
pub open spec fn differs(state: SyncState, file: Seq<char>, actual: Seq<char>) -> bool {
    match state.changes.expected(file) {
        Some(declared) => !same_ignoring_case(actual, declared),
        None => false,
    }
}

/// A file of the download list that is present locally is fetched anew
/// exactly where its fingerprint differs from the declared one, the case
/// of letters set aside, provided that the file's address can be formed;
/// where it cannot, the pass is abandoned. Where the two fingerprints
/// agree, the pass goes on to the next entry and hands out no download.
pub proof fn law_present_file_fetched_iff_fingerprint_differs(
    state: SyncState,
    i: usize,
    actual: String,
)
    requires
        state.wf(),
        state.phase == Phase::Probing(i),
    ensures
        ({
            let file = state.changes.download[i as int];
            let events = seq![Event::Probed(true), Event::Digested(actual)];
            let after = run(state, events);
            let last = answers(state, events)[1];
            let reachable = state.client.request(seq!["get"@, file]) is Some;
            &&& (after.phase == Phase::Fetching(i)) == (differs(state, file, actual@) && reachable)
            &&& (last is Download) == (differs(state, file, actual@) && reachable)
            &&& match last {
                Step::Download { file: fetched, replaces, .. } => fetched == file && replaces,
                _ => true,
            }
            &&& differs(state, file, actual@) && !reachable ==> last == Step::Finish(
                Verdict::Failed(Fault::InvalidUrl),
            )
            &&& agrees(state, file, actual@) ==> (after, last) == state.download_from(i + 1)
        }),
{
    let events = seq![Event::Probed(true), Event::Digested(actual)];
    let probed = state.step(Event::Probed(true)).0;
    lemma_one_event(state, Event::Probed(true));
    lemma_one_event(probed, Event::Digested(actual));
    lemma_run_in_two(state, seq![Event::Probed(true)], seq![Event::Digested(actual)]);
    assert(seq![Event::Probed(true)] + seq![Event::Digested(actual)] =~= events);
}

/// The files probed are the download list from its start, in its order,
/// and the files removed are the deletion list from its start, in its
/// order. No file is removed before every download entry was taken up,
/// nor after a failure was reported, and after a removal there is no more
/// work on a download entry.
pub proof fn law_order_preserved(
    client: ClientModel,
    marker: Option<Seq<char>>,
    events: Seq<Event>,
)
    requires
        client.wf(),
    ensures
        ({
            let state = pass_state(client, marker, events);
            let steps = journal(client, marker, events);
            &&& probes(steps).is_prefix_of(state.changes.download)
            &&& removals(steps).is_prefix_of(state.changes.delete)
            &&& removals(steps).len() > 0 ==> probes(steps) == state.changes.download
            &&& forall|i: int, j: int|
                0 <= i < j < steps.len() && #[trigger] steps[i] is Remove ==> !is_download_work(
                    #[trigger] steps[j],
                )
            &&& forall|j: int|
                0 <= j < steps.len() && #[trigger] steps[j] is Remove ==> all_succeeded(
                    events.take(j),
                )
        }),
{
    let state = pass_state(client, marker, events);
    let steps = journal(client, marker, events);
    lemma_pass_accounted(client, marker, events);
    lemma_journal_len(client, marker, events);
    assert(!(steps[0] is Remove));
    assert forall|j: int|
        0 <= j < steps.len() && #[trigger] steps[j] is Remove implies all_succeeded(
        events.take(j),
    ) by {
        assert forall|i: int| 0 <= i < j implies !(#[trigger] events.take(j)[i] is Failed) by {
            if events[i] is Failed {
                law_failure_ends_the_pass(client, marker, events, i);
            }
        }
    }
    assert(state.changes.download.take(state.changes.download.len() as int)
        =~= state.changes.download);
    assert(state.changes.delete.take(state.changes.delete.len() as int) =~= state.changes.delete);
    assert forall|i: int, j: int|
        0 <= i < j < steps.len() && #[trigger] steps[i] is Remove implies !is_download_work(
        #[trigger] steps[j],
    ) by {
        let before = events.take(j - 1);
        lemma_journal_at(client, marker, events, j - 1);
        lemma_pass_accounted(client, marker, before);
        lemma_removal_is_read(journal(client, marker, before), i);
    }
}

/// The marker is written only after every download entry and every
/// deletion entry was taken up, with no failure reported before; it is
/// written once, and what is written is the server's version, trimmed,
/// and a line feed.
pub proof fn law_marker_written_after_all_changes(
    client: ClientModel,
    marker: Option<Seq<char>>,
    events: Seq<Event>,
)
    requires
        client.wf(),
    ensures
        ({
            let state = pass_state(client, marker, events);
            let steps = journal(client, marker, events);
            &&& marker_writes(steps).len() > 0 ==> {
                &&& probes(steps) == state.changes.download
                &&& removals(steps) == state.changes.delete
                &&& marker_writes(steps) == seq![marker_text(state.remote)]
            }
            &&& forall|j: int|
                0 <= j < steps.len() && #[trigger] steps[j] is WriteMarker ==> all_succeeded(
                    events.take(j),
                )
        }),
{
    let state = pass_state(client, marker, events);
    let steps = journal(client, marker, events);
    lemma_pass_accounted(client, marker, events);
    lemma_journal_len(client, marker, events);
    assert(!(steps[0] is WriteMarker));
    assert forall|j: int|
        0 <= j < steps.len() && #[trigger] steps[j] is WriteMarker implies all_succeeded(
        events.take(j),
    ) by {
        assert(j >= 1);
        assert forall|i: int| 0 <= i < j implies !(#[trigger] events.take(j)[i] is Failed) by {
            if events[i] is Failed {
                law_failure_ends_the_pass(client, marker, events, i);
            }
        }
    }
}

/// Whether an event reports that the last change of the pass is done: the
/// last deletion was made; or there is nothing to delete and the last
/// download was stored or found in place with the declared fingerprint;
/// or the changelist that arrives is empty.
pub open spec fn completes_changes(state: SyncState, event: Event) -> bool {
    let download = state.changes.download;
    let delete = state.changes.delete;
    match (state.phase, event) {
        (Phase::Deleting(k), Event::Removed) => k + 1 == delete.len(),
        (Phase::Fetching(i), Event::Stored) => i + 1 == download.len() && delete.len() == 0,
        (Phase::Hashing(i), Event::Digested(actual)) => {
            &&& i + 1 == download.len()
            &&& delete.len() == 0
            &&& agrees(state, download[i as int], actual@)
        },
        (Phase::AwaitChangelist, Event::Changelist(info)) => {
            &&& info@.download.len() == 0
            &&& info@.delete.len() == 0
        },
        _ => false,
    }
}

/// The marker is handed out exactly in answer to the report that the last
/// change is done, and with it the pass turns to writing the marker; it
/// ends as updated only once the marker is reported written.
pub proof fn law_marker_follows_last_change(state: SyncState, event: Event)
    requires
        state.wf(),
    ensures
        ({
            let (next, step) = state.step(event);
            &&& (step is WriteMarker) == completes_changes(state, event)
            &&& step is WriteMarker ==> next.phase is Persisting && step == (Step::WriteMarker {
                content: marker_text(state.remote),
            })
            &&& (next.phase is Done && !(state.phase is Done)) == (state.phase is Persisting
                && event is Persisted)
            &&& step == Step::Finish(Verdict::Updated) ==> next.phase is Done
        }),
{
    if let Event::Changelist(info) = event {
        assert(info@.download.len() == info.download.len());
        assert(info@.delete.len() == info.delete.len());
    }
}

/// A pass in which a failure is reported has ended, and answers every
/// later report with the end of the pass: it writes no marker and touches
/// no further file.
pub proof fn law_failure_ends_the_pass(
    client: ClientModel,
    marker: Option<Seq<char>>,
    events: Seq<Event>,
    i: int,
)
    requires
        client.wf(),
        0 <= i < events.len(),
        events[i] is Failed,
    ensures
        ({
            let state = pass_state(client, marker, events);
            let steps = journal(client, marker, events);
            &&& state.phase.is_terminal()
            &&& forall|j: int| i < j < steps.len() ==> #[trigger] steps[j] is Finish
        }),
{
    let (start, first) = SyncState::begin(client, marker);
    let steps = journal(client, marker, events);
    let head = events.take(i + 1);
    let rest = events.skip(i + 1);
    assert(head + rest =~= events);
    lemma_run_in_two(start, head, rest);
    assert(head.drop_last() =~= events.take(i));
    assert(head.last() == events[i]);
    let after = run(start, head);
    assert(after.phase.is_terminal());
    lemma_ended_pass_stays(after, rest);
    lemma_answers_len(start, head);
    lemma_answers_len(start, events);
    assert forall|j: int| i < j < steps.len() implies #[trigger] steps[j] is Finish by {
        if j == i + 1 {
            lemma_answer_at(start, events, i);
        } else {
            assert(steps[j] == answers(after, rest)[j - 2 - i]);
        }
    }
}

/// A pass that has applied every change, and so is writing the marker or
/// has ended as updated, has taken up every entry of both lists and has
/// handed out the marker once, with the server's version.
pub proof fn law_applied_changes_write_marker(
    client: ClientModel,
    marker: Option<Seq<char>>,
    events: Seq<Event>,
)
    requires
        client.wf(),
        pass_state(client, marker, events).phase is Persisting || pass_state(
            client,
            marker,
            events,
        ).phase is Done,
    ensures
        marker_writes(journal(client, marker, events)) == seq![
            marker_text(pass_state(client, marker, events).remote),
        ],
        probes(journal(client, marker, events)) == pass_state(
            client,
            marker,
            events,
        ).changes.download,
        removals(journal(client, marker, events)) == pass_state(
            client,
            marker,
            events,
        ).changes.delete,
{
    lemma_pass_accounted(client, marker, events);
}

/// Where a file of the download list is present locally and the
/// changelist declares no fingerprint for it, the pass is abandoned with
/// that error and answers every later report with it, so that no marker
/// is written.
pub proof fn law_missing_hash_is_fatal(state: SyncState, i: usize, rest: Seq<Event>)
    requires
        state.wf(),
        state.phase == Phase::Probing(i),
        state.changes.expected(state.changes.download[i as int]) is None,
    ensures
        ({
            let fault = Fault::MissingHashEntry { file: state.changes.download[i as int] };
            let events = seq![Event::Probed(true)] + rest;
            &&& run(state, events).phase is Failed
            &&& run(state, events).fault == Some(fault)
            &&& answers(state, events).len() == events.len()
            &&& forall|j: int|
                0 <= j < events.len() ==> #[trigger] answers(state, events)[j] == Step::Finish(
                    Verdict::Failed(fault),
                )
            &&& marker_writes(answers(state, events)).len() == 0
        }),
{
    let head = seq![Event::Probed(true)];
    let events = head + rest;
    lemma_run_in_two(state, head, rest);
    lemma_one_event(state, Event::Probed(true));
    let after = run(state, head);
    lemma_ended_pass_stays(after, rest);
    lemma_answers_len(state, events);
    assert forall|j: int| 0 <= j < events.len() implies #[trigger] answers(state, events)[j]
        == Step::Finish(
        Verdict::Failed(Fault::MissingHashEntry { file: state.changes.download[i as int] }),
    ) by {
        if j >= 1 {
            assert(answers(state, events)[j] == answers(after, rest)[j - 1]);
        }
    }
    lemma_idle_record(answers(state, events));
}

} // verus!
