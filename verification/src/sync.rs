//! The synchronisation pass as a state machine. The machine decides; a
//! driver performs each step it is handed (a request, a look at the disk,
//! a write) and reports what came of it. Nothing here touches the network
//! or the file system.

use vstd::prelude::*;
use crate::client::ClientModel;
use crate::client::HttpClient;
use crate::client::Request;
use crate::client::RequestModel;
use crate::config::Changes;
use crate::config::UpdateInfo;
use crate::error::Failure;
use crate::error::Fault;
use crate::error::SyncError;
use crate::text::eq_ignore_case;
use crate::text::same_ignoring_case;
use crate::version::is_current;
use crate::version::marker_content;
use crate::version::marker_text;
use crate::version::up_to_date;

verus! {

/// Where a pass stands. The three phases of a download entry and the phase
/// of a deletion entry carry the entry's position in its list.
#[derive(Clone, Copy, Debug, PartialEq, Eq, Structural)]
pub enum Phase {
    /// The server's version was asked for.
    AwaitVersion,
    /// The changelist was asked for.
    AwaitChangelist,
    /// The driver looks whether the file of a download entry is present.
    Probing(usize),
    /// The driver takes the fingerprint of the file that is present.
    Hashing(usize),
    /// The driver fetches the file and writes it.
    Fetching(usize),
    /// The driver removes the file of a deletion entry.
    Deleting(usize),
    /// The driver writes the version marker.
    Persisting,
    /// Ended: the installation was current.
    UpToDate,
    /// Ended: every change was applied and the marker written.
    Done,
    /// Ended: the pass was abandoned.
    Failed,
}

impl Phase {
    /// Whether the pass has ended.
    pub open spec fn is_terminal(self) -> bool {
        self is UpToDate || self is Done || self is Failed
    }
}

/// How a pass ended.
#[derive(Clone, Debug, PartialEq, Eq)]
pub enum Outcome {
    /// The local marker named the server's version; nothing was touched.
    UpToDate,
    /// All changes were applied and the marker names the new version.
    Updated,
    /// The pass was abandoned; the marker is as it was.
    Failed(SyncError),
}

/// The mathematical value of an `Outcome`.
pub ghost enum Verdict {
    UpToDate,
    Updated,
    Failed(Fault),
}

impl View for Outcome {
    type V = Verdict;

    open spec fn view(&self) -> Verdict {
        match self {
            Outcome::UpToDate => Verdict::UpToDate,
            Outcome::Updated => Verdict::Updated,
            Outcome::Failed(e) => Verdict::Failed(e@),
        }
    }
}

/// What the driver is to do next.
#[derive(Clone, Debug, PartialEq, Eq)]
pub enum Action {
    /// Send the request and report the body as text.
    FetchVersion(Request),
    /// Send the request and report the body as a changelist.
    FetchChangelist(Request),
    /// Report whether the file is present.
    Probe { file: String },
    /// Report the fingerprint of the file.
    Digest { file: String },
    /// Create the directories above the file, send the request and write
    /// the body to the file in place of what it held. `replaces` is set
    /// where the file is present with another fingerprint.
    Download { request: Request, file: String, replaces: bool },
    /// Remove the file.
    Remove { file: String },
    /// Write the content to the version marker in place of what it held.
    WriteMarker { content: String },
    /// Stop: the pass has ended.
    Finish(Outcome),
}

/// The mathematical value of an `Action`.
pub ghost enum Step {
    FetchVersion(RequestModel),
    FetchChangelist(RequestModel),
    Probe { file: Seq<char> },
    Digest { file: Seq<char> },
    Download { request: RequestModel, file: Seq<char>, replaces: bool },
    Remove { file: Seq<char> },
    WriteMarker { content: Seq<char> },
    Finish(Verdict),
}

impl View for Action {
    type V = Step;

    open spec fn view(&self) -> Step {
        match self {
            Action::FetchVersion(request) => Step::FetchVersion(request@),
            Action::FetchChangelist(request) => Step::FetchChangelist(request@),
            Action::Probe { file } => Step::Probe { file: file@ },
            Action::Digest { file } => Step::Digest { file: file@ },
            Action::Download { request, file, replaces } => Step::Download {
                request: request@,
                file: file@,
                replaces: *replaces,
            },
            Action::Remove { file } => Step::Remove { file: file@ },
            Action::WriteMarker { content } => Step::WriteMarker { content: content@ },
            Action::Finish(outcome) => Step::Finish(outcome@),
        }
    }
}

/// What the driver reports once it has performed a step.
#[derive(Clone, Debug, PartialEq, Eq)]
pub enum Event {
    /// The body of the version response.
    Version(String),
    /// The changelist read from the body of the changelist response.
    Changelist(UpdateInfo),
    /// Whether the probed file is present.
    Probed(bool),
    /// The fingerprint of the file.
    Digested(String),
    /// The file was fetched and written.
    Stored,
    /// The file was removed.
    Removed,
    /// The marker was written.
    Persisted,
    /// The step could not be performed.
    Failed(Failure),
}

/// The mathematical value of a `Sync`.
pub ghost struct SyncState {
    /// Where requests go.
    pub client: ClientModel,
    /// The content of the local marker when the pass began.
    pub marker: Option<Seq<char>>,
    /// The version that the server reported; empty before it did.
    pub remote: Seq<char>,
    /// The changelist that the server sent; empty before it did.
    pub changes: Changes,
    /// Where the pass stands.
    pub phase: Phase,
    /// Why the pass was abandoned, once it was.
    pub fault: Option<Fault>,
}

impl SyncState {
    /// The state in which a pass begins.
    pub open spec fn initial(client: ClientModel, marker: Option<Seq<char>>) -> SyncState {
        SyncState {
            client,
            marker,
            remote: Seq::empty(),
            changes: Changes::empty(),
            phase: Phase::AwaitVersion,
            fault: None,
        }
    }

    /// What holds of every state that a pass can be in: the lists can be
    /// indexed, the entry in work exists, and a fault is recorded exactly
    /// in the failed state.
    pub open spec fn wf(self) -> bool {
        &&& self.client.wf()
        &&& self.changes.download.len() <= usize::MAX
        &&& self.changes.delete.len() <= usize::MAX
        &&& (self.phase is Failed) == (self.fault is Some)
        &&& match self.phase {
            Phase::Probing(i) | Phase::Hashing(i) | Phase::Fetching(i) => i
                < self.changes.download.len(),
            Phase::Deleting(k) => k < self.changes.delete.len(),
            _ => true,
        }
    }

    /// How the pass ended, for a state in which it has.
    pub open spec fn verdict(self) -> Verdict {
        match self.phase {
            Phase::UpToDate => Verdict::UpToDate,
            Phase::Failed => Verdict::Failed(self.fault->0),
            _ => Verdict::Updated,
        }
    }

    /// The pass is abandoned.
    pub open spec fn fail(self, fault: Fault) -> (SyncState, Step) {
        (
            SyncState { phase: Phase::Failed, fault: Some(fault), ..self },
            Step::Finish(Verdict::Failed(fault)),
        )
    }

    /// All entries are done: the marker is written.
    pub open spec fn persist(self) -> (SyncState, Step) {
        (
            SyncState { phase: Phase::Persisting, ..self },
            Step::WriteMarker { content: marker_text(self.remote) },
        )
    }

    /// The deletions from position `k` on are taken up, then the marker.
    pub open spec fn delete_from(self, k: int) -> (SyncState, Step) {
        if 0 <= k < self.changes.delete.len() {
            (
                SyncState { phase: Phase::Deleting(k as usize), ..self },
                Step::Remove { file: self.changes.delete[k] },
            )
        } else {
            self.persist()
        }
    }

    /// The downloads from position `i` on are taken up, then the
    /// deletions.
    pub open spec fn download_from(self, i: int) -> (SyncState, Step) {
        if 0 <= i < self.changes.download.len() {
            (
                SyncState { phase: Phase::Probing(i as usize), ..self },
                Step::Probe { file: self.changes.download[i] },
            )
        } else {
            self.delete_from(0)
        }
    }

    /// The file of download entry `i` is fetched from
    /// `{base}/get/{file}`.
    pub open spec fn fetch(self, i: int, replaces: bool) -> (SyncState, Step) {
        let file = self.changes.download[i];
        match self.client.request(seq!["get"@, file]) {
            Some(request) => (
                SyncState { phase: Phase::Fetching(i as usize), ..self },
                Step::Download { request, file, replaces },
            ),
            None => self.fail(Fault::InvalidUrl),
        }
    }

    /// The server reported its version: a current installation ends the
    /// pass, a stale one asks for the changelist at
    /// `{base}/changelist`.
    pub open spec fn compare(self, remote: Seq<char>) -> (SyncState, Step) {
        if is_current(self.marker, remote) {
            (SyncState { phase: Phase::UpToDate, remote, ..self }, Step::Finish(Verdict::UpToDate))
        } else {
            match self.client.request(seq!["changelist"@]) {
                Some(request) => (
                    SyncState { phase: Phase::AwaitChangelist, remote, ..self },
                    Step::FetchChangelist(request),
                ),
                None => (SyncState { remote, ..self }).fail(Fault::InvalidUrl),
            }
        }
    }

    /// The driver looked for the file of download entry `i`. An absent
    /// file is fetched. A file that is present must have a declared
    /// fingerprint, and its own is taken next.
    pub open spec fn probed(self, i: int, exists: bool) -> (SyncState, Step) {
        let file = self.changes.download[i];
        if !exists {
            self.fetch(i, false)
        } else if self.changes.expected(file) is Some {
            (SyncState { phase: Phase::Hashing(i as usize), ..self }, Step::Digest { file })
        } else {
            self.fail(Fault::MissingHashEntry { file })
        }
    }

    /// The driver took the fingerprint of the file of download entry `i`.
    /// Where it is the declared one, up to the case of letters, the entry
    /// is done; else the file is fetched anew.
    pub open spec fn digested(self, i: int, actual: Seq<char>) -> (SyncState, Step) {
        let file = self.changes.download[i];
        match self.changes.expected(file) {
            Some(expected) => if same_ignoring_case(actual, expected) {
                self.download_from(i + 1)
            } else {
                self.fetch(i, true)
            },
            None => self.fail(Fault::MissingHashEntry { file }),
        }
    }

    /// The state after an event, and the step that the driver takes next.
    /// A pass that has ended stays as it is. A failure abandons the pass,
    /// and so does an event that does not answer the step in work.
    pub open spec fn step(self, event: Event) -> (SyncState, Step) {
        if self.phase.is_terminal() {
            (self, Step::Finish(self.verdict()))
        } else {
            match (self.phase, event) {
                (_, Event::Failed(failure)) => self.fail(failure.fault()),
                (Phase::AwaitVersion, Event::Version(remote)) => self.compare(remote@),
                (Phase::AwaitChangelist, Event::Changelist(info)) => (SyncState {
                    changes: info@,
                    ..self
                }).download_from(0),
                (Phase::Probing(i), Event::Probed(exists)) => self.probed(i as int, exists),
                (Phase::Hashing(i), Event::Digested(actual)) => self.digested(i as int, actual@),
                (Phase::Fetching(i), Event::Stored) => self.download_from(i + 1),
                (Phase::Deleting(k), Event::Removed) => self.delete_from(k + 1),
                (Phase::Persisting, Event::Persisted) => (
                    SyncState { phase: Phase::Done, ..self },
                    Step::Finish(Verdict::Updated),
                ),
                _ => self.fail(Fault::OutOfTurn),
            }
        }
    }

    /// The state in which a pass begins and its first step: the version is
    /// asked for at `{base}/version`.
    pub open spec fn begin(client: ClientModel, marker: Option<Seq<char>>) -> (SyncState, Step) {
        let state = SyncState::initial(client, marker);
        match client.request(seq!["version"@]) {
            Some(request) => (state, Step::FetchVersion(request)),
            None => state.fail(Fault::InvalidUrl),
        }
    }
}

/// Every step leads from a well-formed state to a well-formed state.
pub proof fn lemma_step_wf(state: SyncState, event: Event)
    requires
        state.wf(),
    ensures
        state.step(event).0.wf(),
{
    if let Event::Changelist(info) = event {
        assert(info@.download.len() == info.download.len());
        assert(info@.delete.len() == info.delete.len());
    }
}

/// One synchronisation pass in progress.
pub struct Sync {
    client: HttpClient,
    marker: Option<String>,
    remote: String,
    info: UpdateInfo,
    phase: Phase,
    error: Option<SyncError>,
}

impl View for Sync {
    type V = SyncState;

    closed spec fn view(&self) -> SyncState {
        SyncState {
            client: self.client@,
            marker: self.marker.deep_view(),
            remote: self.remote@,
            changes: self.info@,
            phase: self.phase,
            fault: match (self.phase, self.error) {
                (Phase::Failed, Some(e)) => Some(e@),
                _ => None,
            },
        }
    }
}

impl Sync {
    #[verifier::type_invariant]
    closed spec fn valid(&self) -> bool {
        &&& self.phase is Failed ==> self.error is Some
        &&& match self.phase {
            Phase::Probing(i) | Phase::Hashing(i) | Phase::Fetching(i) => i
                < self.info.download.len(),
            Phase::Deleting(k) => k < self.info.delete.len(),
            _ => true,
        }
    }

    /// Begins a pass: takes the content of the local marker, if there is
    /// one, and asks for the server's version.
    pub fn begin(client: HttpClient, marker: Option<String>) -> (r: (Sync, Action))
        ensures
            (r.0@, r.1@) == SyncState::begin(client@, marker.deep_view()),
            r.0@.wf(),
    {
        let mut components: Vec<String> = Vec::new();
        components.push(String::from_str("version"));
        assert(components.deep_view() =~= seq!["version"@]);
        let built = client.build_url(&components);
        let request = match built {
            Some(url) => Some(client.request(url)),
            None => None,
        };
        let mut sync = Sync {
            client,
            marker,
            remote: String::new(),
            info: UpdateInfo::empty(),
            phase: Phase::AwaitVersion,
            error: None,
        };
        proof {
            use_type_invariant(&sync.client);
        }
        let action = match request {
            Some(request) => Action::FetchVersion(request),
            None => sync.fail(SyncError::InvalidUrl),
        };
        (sync, action)
    }

    /// Where the pass stands.
    pub fn phase(&self) -> (phase: Phase)
        ensures
            phase == self@.phase,
    {
        self.phase
    }

    /// Takes the driver's report of the step it performed and decides the
    /// next one.
    pub fn step(&mut self, event: Event) -> (action: Action)
        ensures
            (final(self)@, action@) == old(self)@.step(event),
            final(self)@.wf(),
    {
        proof {
            use_type_invariant(&*self);
            use_type_invariant(&self.client);
            assert(self@.changes.download.len() == self.info.download.len());
            assert(self@.changes.delete.len() == self.info.delete.len());
            lemma_step_wf(self@, event);
        }
        match (self.phase, event) {
            (Phase::UpToDate, _) => Action::Finish(Outcome::UpToDate),
            (Phase::Done, _) => Action::Finish(Outcome::Updated),
            (Phase::Failed, _) => {
                match &self.error {
                    Some(e) => Action::Finish(Outcome::Failed(e.duplicate())),
                    None => vstd::pervasive::unreached(),
                }
            },
            (_, Event::Failed(failure)) => self.fail(failure.into_error()),
            (Phase::AwaitVersion, Event::Version(remote)) => self.compare(remote),
            (Phase::AwaitChangelist, Event::Changelist(info)) => {
                self.info = info;
                self.download_from(0)
            },
            (Phase::Probing(i), Event::Probed(exists)) => self.probed(i, exists),
            (Phase::Hashing(i), Event::Digested(actual)) => self.digested(i, actual),
            (Phase::Fetching(i), Event::Stored) => self.download_from(i + 1),
            (Phase::Deleting(k), Event::Removed) => self.delete_from(k + 1),
            (Phase::Persisting, Event::Persisted) => {
                self.phase = Phase::Done;
                Action::Finish(Outcome::Updated)
            },
            _ => self.fail(SyncError::OutOfTurn),
        }
    }

    /// Abandons the pass with an error.
    fn fail(&mut self, error: SyncError) -> (action: Action)
        requires
            !old(self)@.phase.is_terminal(),
        ensures
            (final(self)@, action@) == old(self)@.fail(error@),
    {
        proof {
            use_type_invariant(&*self);
        }
        let reported = error.duplicate();
        self.error = Some(error);
        self.phase = Phase::Failed;
        Action::Finish(Outcome::Failed(reported))
    }

    /// Takes up the deletions from position `k` on, then the marker.
    fn delete_from(&mut self, k: usize) -> (action: Action)
        requires
            !old(self)@.phase.is_terminal(),
        ensures
            (final(self)@, action@) == old(self)@.delete_from(k as int),
    {
        proof {
            use_type_invariant(&*self);
        }
        if k < self.info.delete.len() {
            self.phase = Phase::Deleting(k);
            Action::Remove { file: self.info.delete[k].clone() }
        } else {
            self.phase = Phase::Persisting;
            Action::WriteMarker { content: marker_content(self.remote.as_str()) }
        }
    }

    /// Takes up the downloads from position `i` on, then the deletions.
    fn download_from(&mut self, i: usize) -> (action: Action)
        requires
            !old(self)@.phase.is_terminal(),
        ensures
            (final(self)@, action@) == old(self)@.download_from(i as int),
    {
        proof {
            use_type_invariant(&*self);
        }
        if i < self.info.download.len() {
            self.phase = Phase::Probing(i);
            Action::Probe { file: self.info.download[i].clone() }
        } else {
            self.delete_from(0)
        }
    }

    /// Hands out the download of entry `i`.
    fn fetch(&mut self, i: usize, replaces: bool) -> (action: Action)
        requires
            !old(self)@.phase.is_terminal(),
            i < old(self)@.changes.download.len(),
        ensures
            (final(self)@, action@) == old(self)@.fetch(i as int, replaces),
    {
        proof {
            use_type_invariant(&*self);
        }
        let file = self.info.download[i].clone();
        let mut components: Vec<String> = Vec::new();
        components.push(String::from_str("get"));
        components.push(file.clone());
        assert(components.deep_view() =~= seq!["get"@, file@]);
        match self.client.build_url(&components) {
            Some(url) => {
                let request = self.client.request(url);
                self.phase = Phase::Fetching(i);
                Action::Download { request, file, replaces }
            },
            None => self.fail(SyncError::InvalidUrl),
        }
    }

    /// Takes the server's version and decides whether there is work.
    fn compare(&mut self, remote: String) -> (action: Action)
        requires
            !old(self)@.phase.is_terminal(),
        ensures
            (final(self)@, action@) == old(self)@.compare(remote@),
    {
        proof {
            use_type_invariant(&*self);
        }
        let current = up_to_date(&self.marker, remote.as_str());
        self.remote = remote;
        if current {
            self.phase = Phase::UpToDate;
            return Action::Finish(Outcome::UpToDate);
        }
        let mut components: Vec<String> = Vec::new();
        components.push(String::from_str("changelist"));
        assert(components.deep_view() =~= seq!["changelist"@]);
        match self.client.build_url(&components) {
            Some(url) => {
                let request = self.client.request(url);
                self.phase = Phase::AwaitChangelist;
                Action::FetchChangelist(request)
            },
            None => self.fail(SyncError::InvalidUrl),
        }
    }

    /// Takes the answer to the probe of entry `i`.
    fn probed(&mut self, i: usize, exists: bool) -> (action: Action)
        requires
            !old(self)@.phase.is_terminal(),
            i < old(self)@.changes.download.len(),
        ensures
            (final(self)@, action@) == old(self)@.probed(i as int, exists),
    {
        proof {
            use_type_invariant(&*self);
        }
        if !exists {
            return self.fetch(i, false);
        }
        let file = self.info.download[i].clone();
        let declared = self.info.expected_hash(&file).is_some();
        if declared {
            self.phase = Phase::Hashing(i);
            Action::Digest { file }
        } else {
            self.fail(SyncError::MissingHashEntry { file })
        }
    }

    /// Takes the fingerprint of the file of entry `i`.
    fn digested(&mut self, i: usize, actual: String) -> (action: Action)
        requires
            !old(self)@.phase.is_terminal(),
            i < old(self)@.changes.download.len(),
        ensures
            (final(self)@, action@) == old(self)@.digested(i as int, actual@),
    {
        proof {
            use_type_invariant(&*self);
        }
        let file = self.info.download[i].clone();
        let matches = match self.info.expected_hash(&file) {
            Some(expected) => Some(eq_ignore_case(actual.as_str(), expected.as_str())),
            None => None,
        };
        assert(i < self.info.download.len());
        match matches {
            Some(true) => self.download_from(i + 1),
            Some(false) => self.fetch(i, true),
            None => self.fail(SyncError::MissingHashEntry { file }),
        }
    }
}

} // verus!
