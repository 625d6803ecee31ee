//! Refreshing one resource: fetch into the temporary file, retry a failed
//! fetch after a fixed pause while the budget lasts, and publish after the
//! first fetch that succeeds.
//!
//! The budget counts retries, not attempts: with a budget of `n` a resource
//! is fetched at most `n + 1` times.

use crate::fetch::FetchError;
use crate::resource::join_path;
use crate::resource::lemma_temp_name_differs;
use crate::resource::path_in;
use crate::resource::text_of;
use crate::resource::LinkType;
use crate::resource::ResourceSpec;
use crate::resource::ResourceView;
use vstd::prelude::*;

verus! {

/// Seconds to pause between a failed fetch and the next one.
pub const BACKOFF_SECS: u64 = 30;

/// The temporary file could not be moved to the published name.
#[derive(Clone, Copy, Debug, PartialEq, Eq)]
pub struct IoError;

/// Why a refresh failed.
#[derive(Clone, Copy, Debug, PartialEq, Eq)]
pub enum RefreshError {
    /// The last fetch that the budget allowed failed like this.
    Fetch(FetchError),
    /// A fetch succeeded, but its file could not be published.
    Publish(IoError),
}

/// How the refresh of one resource ended.
#[derive(Clone, Copy, Debug, PartialEq, Eq)]
pub struct RefreshOutcome {
    /// The kind of the resource.
    pub kind: LinkType,
    /// Whether the resource is as fresh as it can be: published anew, or
    /// without a source to fetch from.
    pub succeeded: bool,
    /// Why not, if not.
    pub error: Option<RefreshError>,
    /// How many times the resource was fetched.
    pub attempts: usize,
}

impl RefreshOutcome {
    /// Whether this can be the outcome of a refresh of a resource of kind
    /// `kind` with a budget of `max_retries`: it is a success exactly if it
    /// names no error, after no more attempts than the budget allows.
    pub open spec fn fits(self, kind: LinkType, max_retries: nat) -> bool {
        &&& self.kind == kind
        &&& self.succeeded == (self.error is None)
        &&& self.attempts <= max_retries + 1
    }
}

/// What the driver reports back: how the step it was given ended.
#[derive(Clone, Copy, Debug, PartialEq, Eq)]
pub enum Event {
    /// The fetch ended.
    Fetched(Result<(), FetchError>),
    /// The pause is over.
    Paused,
    /// The move to the published name ended.
    Published(Result<(), IoError>),
}

/// Work for the driver.
#[derive(Debug, PartialEq, Eq)]
pub enum Step {
    /// Get `url` and write the body to the file `dest`, replacing what it
    /// held.
    Fetch { url: String, dest: String },
    /// Sleep for `secs` seconds.
    Pause { secs: u64 },
    /// Move the file `from` to the name `to` in one indivisible step.
    Publish { from: String, to: String },
}

/// A step with its strings as sequences of characters.
pub enum StepView {
    Fetch { url: Seq<char>, dest: Seq<char> },
    Pause { secs: u64 },
    Publish { from: Seq<char>, to: Seq<char> },
}

impl View for Step {
    type V = StepView;

    open spec fn view(&self) -> StepView {
        match *self {
            Step::Fetch { url, dest } => StepView::Fetch { url: url@, dest: dest@ },
            Step::Pause { secs } => StepView::Pause { secs },
            Step::Publish { from, to } => StepView::Publish { from: from@, to: to@ },
        }
    }
}

/// The view of a step that may be missing.
pub open spec fn step_view(step: Option<Step>) -> Option<StepView> {
    match step {
        Some(step) => Some(step@),
        None => None,
    }
}

/// What a refresh waits for.
#[derive(Clone, Copy, Debug, PartialEq, Eq)]
pub enum Phase {
    /// A fetch is under way.
    Fetching,
    /// The pause after a failed fetch is under way.
    Pausing,
    /// The move to the published name is under way.
    Publishing,
    /// Nothing: the refresh has ended.
    Finished(RefreshOutcome),
}

/// The state of a refresh, with its strings as sequences of characters.
pub struct RefresherView {
    pub kind: LinkType,
    /// Where to fetch from, if anywhere.
    pub url: Option<Seq<char>>,
    /// The file that a fetch writes to.
    pub temp_path: Seq<char>,
    /// The file that is served.
    pub published_path: Seq<char>,
    /// The retries that the budget allows.
    pub max_retries: nat,
    /// The retries made so far.
    pub retries: nat,
    pub phase: Phase,
}

impl RefresherView {
    /// The budget leaves room to count the attempts, no more retries were
    /// made than it allows, a fetch never writes to the served file, and
    /// without a source there is nothing to do. Once the refresh has
    /// ended, its outcome fits its resource and its budget.
    pub open spec fn wf(self) -> bool {
        &&& self.max_retries < usize::MAX
        &&& self.retries <= self.max_retries
        &&& self.temp_path != self.published_path
        &&& (self.url is None ==> self.phase is Finished)
        &&& (self.phase matches Phase::Finished(outcome) ==> outcome.fits(
            self.kind,
            self.max_retries,
        ))
    }

    /// The state in which the refresh of `resource` starts, with its files
    /// in the directory `root`. Without a source it has ended already, in
    /// success and with no attempt made.
    pub open spec fn initial(resource: ResourceView, root: Seq<char>, max_retries: nat)
        -> RefresherView {
        RefresherView {
            kind: resource.kind,
            url: resource.source_url,
            temp_path: path_in(root, resource.temporary_name),
            published_path: path_in(root, resource.published_name),
            max_retries,
            retries: 0,
            phase: if resource.source_url is Some {
                Phase::Fetching
            } else {
                Phase::Finished(
                    RefreshOutcome {
                        kind: resource.kind,
                        succeeded: true,
                        error: None,
                        attempts: 0,
                    },
                )
            },
        }
    }

    /// Whether this is a state of the refresh of `resource`, with its files
    /// in the directory `root` and a budget of `max_retries`.
    pub open spec fn is_of(self, resource: ResourceView, root: Seq<char>, max_retries: nat)
        -> bool {
        &&& self.kind == resource.kind
        &&& self.url == resource.source_url
        &&& self.temp_path == path_in(root, resource.temporary_name)
        &&& self.published_path == path_in(root, resource.published_name)
        &&& self.max_retries == max_retries
    }

    /// The fetch that every attempt makes.
    pub open spec fn fetch(self) -> StepView {
        StepView::Fetch { url: self.url->0, dest: self.temp_path }
    }

    /// The pause after a failed fetch.
    pub open spec fn pause() -> StepView {
        StepView::Pause { secs: BACKOFF_SECS }
    }

    /// The move that publishes what was fetched.
    pub open spec fn publish(self) -> StepView {
        StepView::Publish { from: self.temp_path, to: self.published_path }
    }

    /// The step that the driver is to take in this state, if any is left.
    pub open spec fn pending(self) -> Option<StepView> {
        match self.phase {
            Phase::Fetching => Some(self.fetch()),
            Phase::Pausing => Some(Self::pause()),
            Phase::Publishing => Some(self.publish()),
            Phase::Finished(_) => None,
        }
    }

    /// How the refresh ended, once it has.
    pub open spec fn result(self) -> Option<RefreshOutcome> {
        match self.phase {
            Phase::Finished(outcome) => Some(outcome),
            _ => None,
        }
    }

    /// The state in which the refresh has ended with `error`, or in
    /// success, after the attempt under way.
    pub open spec fn finished(self, error: Option<RefreshError>) -> RefresherView {
        RefresherView {
            phase: Phase::Finished(
                RefreshOutcome {
                    kind: self.kind,
                    succeeded: error is None,
                    error,
                    attempts: (self.retries + 1) as usize,
                },
            ),
            ..self
        }
    }

    /// The state after the driver has reported `event`.
    ///
    /// A fetch that succeeds is published. One that fails is repeated after
    /// a pause while the budget lasts; then the refresh ends in failure. The
    /// refresh ends with the move to the published name, in success or not:
    /// a failed move is not retried. A report of work that was not asked
    /// for changes nothing.
    pub open spec fn next(self, event: Event) -> RefresherView {
        match (self.phase, event) {
            (Phase::Fetching, Event::Fetched(Ok(_))) => RefresherView {
                phase: Phase::Publishing,
                ..self
            },
            (Phase::Fetching, Event::Fetched(Err(e))) => if self.retries < self.max_retries {
                RefresherView { phase: Phase::Pausing, retries: self.retries + 1, ..self }
            } else {
                self.finished(Some(RefreshError::Fetch(e)))
            },
            (Phase::Pausing, Event::Paused) => RefresherView { phase: Phase::Fetching, ..self },
            (Phase::Publishing, Event::Published(Ok(_))) => self.finished(None),
            (Phase::Publishing, Event::Published(Err(e))) => self.finished(
                Some(RefreshError::Publish(e)),
            ),
            _ => self,
        }
    }

    /// The state after the driver has reported `events`, one after the
    /// other.
    pub open spec fn run(self, events: Seq<Event>) -> RefresherView
        decreases events.len(),
    {
        if events.len() == 0 {
            self
        } else {
            self.run(events.drop_last()).next(events.last())
        }
    }

    /// The steps that the driver is given while it reports `events`: the
    /// one that is pending at first, then one after each report. After the
    /// end there is none.
    pub open spec fn steps(self, events: Seq<Event>) -> Seq<Option<StepView>>
        decreases events.len(),
    {
        if events.len() == 0 {
            seq![self.pending()]
        } else {
            self.steps(events.drop_last()).push(self.run(events).pending())
        }
    }
}

/// The state of the refresh of one resource.
#[derive(Debug)]
pub struct Refresher {
    kind: LinkType,
    url: Option<String>,
    temp_path: String,
    published_path: String,
    max_retries: usize,
    retries: usize,
    phase: Phase,
}

impl View for Refresher {
    type V = RefresherView;

    closed spec fn view(&self) -> RefresherView {
        RefresherView {
            kind: self.kind,
            url: text_of(self.url),
            temp_path: self.temp_path@,
            published_path: self.published_path@,
            max_retries: self.max_retries as nat,
            retries: self.retries as nat,
            phase: self.phase,
        }
    }
}

impl Refresher {
    /// Every refresh is in a state that `RefresherView::wf` accepts.
    #[verifier::type_invariant]
    pub open spec fn wf(self) -> bool {
        self@.wf()
    }

    /// Starts the refresh of `resource`, whose files are kept in the
    /// directory `root`, with a budget of `max_retries` retries.
    pub fn begin(resource: &ResourceSpec, root: &str, max_retries: usize) -> (started: Refresher)
        requires
            max_retries < usize::MAX,
        ensures
            started@ == RefresherView::initial(resource@, root@, max_retries as nat),
            started.wf(),
    {
        proof {
            use_type_invariant(resource);
            lemma_temp_name_differs(resource@.published_name, root@);
        }
        let kind = resource.kind();
        let (url, phase) = match resource.source_url() {
            Some(url) => (Some(String::from_str(url)), Phase::Fetching),
            None => (
                None,
                Phase::Finished(
                    RefreshOutcome { kind, succeeded: true, error: None, attempts: 0 },
                ),
            ),
        };
        Refresher {
            kind,
            url,
            temp_path: join_path(root, resource.temporary_name()),
            published_path: join_path(root, resource.published_name()),
            max_retries,
            retries: 0,
            phase,
        }
    }

    /// The step that the driver is to take now, if any is left.
    pub fn pending(&self) -> (step: Option<Step>)
        ensures
            step_view(step) == self@.pending(),
    {
        proof {
            use_type_invariant(self);
        }
        match self.phase {
            Phase::Fetching => {
                match &self.url {
                    Some(url) => Some(
                        Step::Fetch { url: url.clone(), dest: self.temp_path.clone() },
                    ),
                    None => None,
                }
            },
            Phase::Pausing => Some(Step::Pause { secs: BACKOFF_SECS }),
            Phase::Publishing => Some(
                Step::Publish { from: self.temp_path.clone(), to: self.published_path.clone() },
            ),
            Phase::Finished(_) => None,
        }
    }

    /// How the refresh ended, once it has.
    pub fn outcome(&self) -> (outcome: Option<RefreshOutcome>)
        ensures
            outcome == self@.result(),
            outcome matches Some(ended) ==> ended.fits(self@.kind, self@.max_retries),
    {
        proof {
            use_type_invariant(self);
        }
        match self.phase {
            Phase::Finished(outcome) => Some(outcome),
            _ => None,
        }
    }

    /// Takes the report of how the pending step ended, and hands out the
    /// step that follows, if any.
    pub fn advance(&mut self, event: Event) -> (step: Option<Step>)
        ensures
            final(self)@ == old(self)@.next(event),
            step_view(step) == final(self)@.pending(),
            final(self).wf(),
    {
        proof {
            use_type_invariant(&*self);
        }
        match (self.phase, event) {
            (Phase::Fetching, Event::Fetched(Ok(_))) => {
                self.phase = Phase::Publishing;
            },
            (Phase::Fetching, Event::Fetched(Err(e))) => {
                if self.retries < self.max_retries {
                    self.retries = self.retries + 1;
                    self.phase = Phase::Pausing;
                } else {
                    self.phase = self.ended(Some(RefreshError::Fetch(e)));
                }
            },
            (Phase::Pausing, Event::Paused) => {
                self.phase = Phase::Fetching;
            },
            (Phase::Publishing, Event::Published(Ok(_))) => {
                self.phase = self.ended(None);
            },
            (Phase::Publishing, Event::Published(Err(e))) => {
                self.phase = self.ended(Some(RefreshError::Publish(e)));
            },
            _ => {},
        }
        self.pending()
    }

    /// The phase in which the refresh has ended with `error`, or in
    /// success, after the attempt under way.
    fn ended(&self, error: Option<RefreshError>) -> (phase: Phase)
        ensures
            phase == self@.finished(error).phase,
    {
        proof {
            use_type_invariant(self);
        }
        Phase::Finished(
            RefreshOutcome {
                kind: self.kind,
                succeeded: error.is_none(),
                error,
                attempts: self.retries + 1,
            },
        )
    }
}

/// The reports of fetches that fail one after the other with `errors`, each
/// followed by the report that the pause after it is over.
pub open spec fn failed_rounds(errors: Seq<FetchError>) -> Seq<Event>
    decreases errors.len(),
{
    if errors.len() == 0 {
        Seq::empty()
    } else {
        failed_rounds(errors.drop_last()).push(Event::Fetched(Err(errors.last()))).push(
            Event::Paused,
        )
    }
}

/// The step `fetch` taken `n + 1` times, with a pause between each two.
pub open spec fn fetch_rounds(fetch: StepView, n: nat) -> Seq<Option<StepView>>
    decreases n,
{
    if n == 0 {
        seq![Some(fetch)]
    } else {
        fetch_rounds(fetch, (n - 1) as nat).push(Some(RefresherView::pause())).push(Some(fetch))
    }
}

/// How many of `steps` are fetches.
pub open spec fn count_fetches(steps: Seq<Option<StepView>>) -> nat
    decreases steps.len(),
{
    if steps.len() == 0 {
        0
    } else if steps.last() matches Some(StepView::Fetch { .. }) {
        count_fetches(steps.drop_last()) + 1
    } else {
        count_fetches(steps.drop_last())
    }
}

/// How many of `steps` publish.
pub open spec fn count_publishes(steps: Seq<Option<StepView>>) -> nat
    decreases steps.len(),
{
    if steps.len() == 0 {
        0
    } else if steps.last() matches Some(StepView::Publish { .. }) {
        count_publishes(steps.drop_last()) + 1
    } else {
        count_publishes(steps.drop_last())
    }
}

/// A refresh starts in a state that `wf` accepts.
pub proof fn lemma_initial(resource: ResourceView, root: Seq<char>, max_retries: nat)
    requires
        resource.wf(),
        max_retries < usize::MAX,
    ensures
        RefresherView::initial(resource, root, max_retries).wf(),
        RefresherView::initial(resource, root, max_retries).is_of(resource, root, max_retries),
{
    lemma_temp_name_differs(resource.published_name, root);
}

/// Whether `after` is a state of the same refresh as `before`: the
/// resource, its files and the budget are the same.
pub open spec fn same_refresh(before: RefresherView, after: RefresherView) -> bool {
    &&& after.kind == before.kind
    &&& after.url == before.url
    &&& after.temp_path == before.temp_path
    &&& after.published_path == before.published_path
    &&& after.max_retries == before.max_retries
}

/// One report leaves a state that `wf` accepts in another, of the same
/// refresh.
pub proof fn lemma_next_wf(state: RefresherView, event: Event)
    requires
        state.wf(),
    ensures
        state.next(event).wf(),
        same_refresh(state, state.next(event)),
{
}

/// One more report takes the run one state further and adds one step.
pub proof fn lemma_run_push(start: RefresherView, events: Seq<Event>, event: Event)
    ensures
        start.run(events.push(event)) == start.run(events).next(event),
        start.steps(events.push(event)) == start.steps(events).push(
            start.run(events).next(event).pending(),
        ),
{
    assert(events.push(event).drop_last() == events);
}

/// One more step adds to the counts what it is.
pub proof fn lemma_count_push(steps: Seq<Option<StepView>>, step: Option<StepView>)
    ensures
        count_fetches(steps.push(step)) == count_fetches(steps) + if step matches Some(
            StepView::Fetch { .. },
        ) {
            1nat
        } else {
            0nat
        },
        count_publishes(steps.push(step)) == count_publishes(steps) + if step matches Some(
            StepView::Publish { .. },
        ) {
            1nat
        } else {
            0nat
        },
{
    assert(steps.push(step).drop_last() == steps);
}

/// Every state that a run reaches from a state that `wf` accepts is one
/// that `wf` accepts, of the same refresh.
pub proof fn lemma_refresh_run_wf(start: RefresherView, events: Seq<Event>)
    requires
        start.wf(),
    ensures
        start.run(events).wf(),
        same_refresh(start, start.run(events)),
    decreases events.len(),
{
    if events.len() > 0 {
        lemma_refresh_run_wf(start, events.drop_last());
        lemma_next_wf(start.run(events.drop_last()), events.last());
    }
}

/// While the budget lasts, fetches that fail are repeated, each after one
/// pause, and nothing else is done.
pub proof fn lemma_failed_rounds(start: RefresherView, errors: Seq<FetchError>)
    requires
        start.wf(),
        start.phase == Phase::Fetching,
        start.retries == 0,
        errors.len() <= start.max_retries,
    ensures
        start.run(failed_rounds(errors)) == (RefresherView { retries: errors.len(), ..start }),
        start.steps(failed_rounds(errors)) == fetch_rounds(start.fetch(), errors.len()),
        count_fetches(fetch_rounds(start.fetch(), errors.len())) == errors.len() + 1,
        count_publishes(fetch_rounds(start.fetch(), errors.len())) == 0,
    decreases errors.len(),
{
    if errors.len() == 0 {
        lemma_count_push(Seq::empty(), Some(start.fetch()));
    } else {
        let before = failed_rounds(errors.drop_last());
        let failed = Event::Fetched(Err(errors.last()));
        lemma_failed_rounds(start, errors.drop_last());
        lemma_run_push(start, before, failed);
        lemma_run_push(start, before.push(failed), Event::Paused);
        let rounds = fetch_rounds(start.fetch(), (errors.len() - 1) as nat);
        lemma_count_push(rounds, Some(RefresherView::pause()));
        lemma_count_push(rounds.push(Some(RefresherView::pause())), Some(start.fetch()));
    }
}

/// A resource without a source is refreshed without any work: the refresh
/// has ended in success before the first report, no attempt was made, and
/// whatever is reported, no step is ever handed out.
pub proof fn lemma_no_source_no_work(
    resource: ResourceView,
    root: Seq<char>,
    max_retries: nat,
    events: Seq<Event>,
)
    requires
        resource.source_url is None,
    ensures
        ({
            let start = RefresherView::initial(resource, root, max_retries);
            &&& start.run(events).result() == Some(
                RefreshOutcome { kind: resource.kind, succeeded: true, error: None, attempts: 0 },
            )
            &&& forall|i: int|
                0 <= i < start.steps(events).len() ==> start.steps(events)[i] is None
            &&& count_fetches(start.steps(events)) == 0
            &&& count_publishes(start.steps(events)) == 0
        }),
    decreases events.len(),
{
    let start = RefresherView::initial(resource, root, max_retries);
    if events.len() > 0 {
        let before = events.drop_last();
        lemma_no_source_no_work(resource, root, max_retries, before);
        lemma_count_push(start.steps(before), None);
    } else {
        lemma_count_push(Seq::empty(), None);
    }
}

/// When a resource with a source is fetched in vain `errors.len()` times,
/// within the budget, and then with success, it is fetched once more than
/// it failed, with one pause between each two fetches, and then published
/// once: the refresh ends in success.
pub proof fn lemma_retries_until_success(
    resource: ResourceView,
    root: Seq<char>,
    max_retries: nat,
    errors: Seq<FetchError>,
)
    requires
        resource.wf(),
        resource.source_url is Some,
        errors.len() <= max_retries < usize::MAX,
    ensures
        ({
            let start = RefresherView::initial(resource, root, max_retries);
            let events = failed_rounds(errors).push(Event::Fetched(Ok(()))).push(
                Event::Published(Ok(())),
            );
            &&& start.steps(events) == fetch_rounds(start.fetch(), errors.len()).push(
                Some(start.publish()),
            ).push(None)
            &&& count_fetches(start.steps(events)) == errors.len() + 1
            &&& count_publishes(start.steps(events)) == 1
            &&& start.run(events).result() == Some(
                RefreshOutcome {
                    kind: resource.kind,
                    succeeded: true,
                    error: None,
                    attempts: (errors.len() + 1) as usize,
                },
            )
        }),
{
    let start = RefresherView::initial(resource, root, max_retries);
    let failed = failed_rounds(errors);
    let fetched = Event::Fetched(Ok(()));
    lemma_temp_name_differs(resource.published_name, root);
    lemma_failed_rounds(start, errors);
    lemma_run_push(start, failed, fetched);
    lemma_run_push(start, failed.push(fetched), Event::Published(Ok(())));
    let rounds = fetch_rounds(start.fetch(), errors.len());
    lemma_count_push(rounds, Some(start.publish()));
    lemma_count_push(rounds.push(Some(start.publish())), None);
}

/// When every fetch that the budget allows fails, the resource is fetched
/// once more than the budget counts, with one pause between each two
/// fetches, and never published: the refresh ends in failure, with the
/// error of the last fetch.
pub proof fn lemma_all_attempts_fail(
    resource: ResourceView,
    root: Seq<char>,
    max_retries: nat,
    errors: Seq<FetchError>,
)
    requires
        resource.wf(),
        resource.source_url is Some,
        max_retries < usize::MAX,
        errors.len() == max_retries + 1,
    ensures
        ({
            let start = RefresherView::initial(resource, root, max_retries);
            let events = failed_rounds(errors.drop_last()).push(
                Event::Fetched(Err(errors.last())),
            );
            &&& start.steps(events) == fetch_rounds(start.fetch(), max_retries).push(None)
            &&& count_fetches(start.steps(events)) == max_retries + 1
            &&& count_publishes(start.steps(events)) == 0
            &&& start.run(events).result() == Some(
                RefreshOutcome {
                    kind: resource.kind,
                    succeeded: false,
                    error: Some(RefreshError::Fetch(errors.last())),
                    attempts: (max_retries + 1) as usize,
                },
            )
        }),
{
    let start = RefresherView::initial(resource, root, max_retries);
    let failed = failed_rounds(errors.drop_last());
    lemma_temp_name_differs(resource.published_name, root);
    lemma_failed_rounds(start, errors.drop_last());
    lemma_run_push(start, failed, Event::Fetched(Err(errors.last())));
    lemma_count_push(fetch_rounds(start.fetch(), max_retries), None);
}

/// A fetch writes to the temporary file, never to the served one, and the
/// served file is replaced only by a move that follows a fetch that
/// succeeded.
pub proof fn lemma_published_only_after_fetch(state: RefresherView, event: Event)
    requires
        state.wf(),
    ensures
        state.pending() matches Some(StepView::Fetch { dest, .. }) ==> dest == state.temp_path
            && dest != state.published_path,
        state.next(event).pending() matches Some(StepView::Publish { from, to }) ==> from
            == state.temp_path && to == state.published_path && (state.phase == Phase::Publishing
            || (state.phase == Phase::Fetching && event matches Event::Fetched(Ok(_)))),
{
}

/// A refresh that has ended stays as it is, whatever is reported.
pub proof fn lemma_finished_is_final(state: RefresherView, events: Seq<Event>)
    requires
        state.phase is Finished,
    ensures
        state.run(events) == state,
    decreases events.len(),
{
    if events.len() > 0 {
        lemma_finished_is_final(state, events.drop_last());
    }
}

} // verus!
