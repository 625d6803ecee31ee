//! One refresh cycle: every resource is refreshed once, one after the
//! other, whether or not the one before it could be.

use crate::fetch::FetchError;
use crate::refresh::failed_rounds;
use crate::refresh::lemma_failed_rounds;
use crate::refresh::lemma_finished_is_final;
use crate::refresh::lemma_initial;
use crate::refresh::lemma_refresh_run_wf;
use crate::refresh::lemma_retries_until_success;
use crate::refresh::lemma_run_push;
use crate::refresh::step_view;
use crate::refresh::Event;
use crate::refresh::Phase;
use crate::refresh::RefreshOutcome;
use crate::refresh::Refresher;
use crate::refresh::RefresherView;
use crate::refresh::Step;
use crate::refresh::StepView;
use crate::resource::ResourceSpec;
use crate::resource::ResourceView;
use vstd::prelude::*;

verus! {

/// The state of a cycle, with its strings as sequences of characters.
pub struct CycleView {
    /// The resources, in the order in which they are refreshed.
    pub resources: Seq<ResourceView>,
    /// The directory that their files are kept in.
    pub root: Seq<char>,
    /// The retries that each resource is granted.
    pub max_retries: nat,
    /// How the resources fared whose refresh has ended, in their order.
    pub outcomes: Seq<RefreshOutcome>,
    /// The refresh under way: that of the first resource without an
    /// outcome. None is under way once every resource has one.
    pub current: Option<RefresherView>,
}

impl CycleView {
    /// The budget leaves room to count the attempts, the resources have
    /// the names that belong to them, and the outcomes are those of the
    /// first resources, in their order, each fitting its resource and the
    /// budget.
    pub open spec fn inv(self) -> bool {
        &&& self.max_retries < usize::MAX
        &&& self.outcomes.len() <= self.resources.len()
        &&& forall|i: int| 0 <= i < self.resources.len() ==> (#[trigger] self.resources[i]).wf()
        &&& forall|i: int|
            0 <= i < self.outcomes.len() ==> (#[trigger] self.outcomes[i]).fits(
                self.resources[i].kind,
                self.max_retries,
            )
    }

    /// Beyond `inv`: the refresh under way is that of the first resource
    /// without an outcome and has not ended, and none is under way only if
    /// every resource has its outcome.
    pub open spec fn wf(self) -> bool {
        &&& self.inv()
        &&& match self.current {
            Some(refresh) => {
                &&& self.outcomes.len() < self.resources.len()
                &&& refresh.wf()
                &&& refresh.result() is None
                &&& refresh.is_of(
                    self.resources[self.outcomes.len() as int],
                    self.root,
                    self.max_retries,
                )
            },
            None => self.outcomes.len() == self.resources.len(),
        }
    }

    /// Whether every resource has its outcome.
    pub open spec fn finished(self) -> bool {
        self.outcomes.len() >= self.resources.len()
    }

    /// The state in which the refresh under way has ended with `outcome`:
    /// the outcome is noted, and no refresh is under way.
    pub open spec fn note(self, outcome: RefreshOutcome) -> CycleView {
        CycleView { outcomes: self.outcomes.push(outcome), current: None, ..self }
    }

    /// With no refresh under way: starts the refresh of the first resource
    /// without an outcome. If that refresh has ended at once, its outcome
    /// is noted and the next resource is turned to, until a refresh has work
    /// to do or no resource is left.
    pub open spec fn settle(self) -> CycleView
        decreases self.resources.len() - self.outcomes.len(),
    {
        if self.outcomes.len() >= self.resources.len() {
            CycleView { current: None, ..self }
        } else {
            let refresh = RefresherView::initial(
                self.resources[self.outcomes.len() as int],
                self.root,
                self.max_retries,
            );
            match refresh.result() {
                Some(outcome) => self.note(outcome).settle(),
                None => CycleView { current: Some(refresh), ..self },
            }
        }
    }

    /// The state with `outcomes` noted and no refresh under way.
    pub open spec fn idle(
        resources: Seq<ResourceView>,
        root: Seq<char>,
        max_retries: nat,
        outcomes: Seq<RefreshOutcome>,
    ) -> CycleView {
        CycleView { resources, root, max_retries, outcomes, current: None }
    }

    /// The state in which a cycle over `resources` starts, with their files
    /// in the directory `root` and `max_retries` retries for each.
    pub open spec fn initial(resources: Seq<ResourceView>, root: Seq<char>, max_retries: nat)
        -> CycleView {
        Self::idle(resources, root, max_retries, Seq::empty()).settle()
    }

    /// The step that the driver is to take in this state: that of the
    /// refresh under way. None is left once the cycle has ended.
    pub open spec fn pending(self) -> Option<StepView> {
        match self.current {
            Some(refresh) => refresh.pending(),
            None => None,
        }
    }

    /// The state after the driver has reported `event`: the refresh under
    /// way takes the report. When that ends it, in success or not, its
    /// outcome is noted and the cycle goes on with the next resource.
    pub open spec fn next(self, event: Event) -> CycleView {
        match self.current {
            Some(refresh) => match refresh.next(event).result() {
                Some(outcome) => self.note(outcome).settle(),
                None => CycleView { current: Some(refresh.next(event)), ..self },
            },
            None => self,
        }
    }

    /// The state after the driver has reported `events`, one after the
    /// other.
    pub open spec fn run(self, events: Seq<Event>) -> CycleView
        decreases events.len(),
    {
        if events.len() == 0 {
            self
        } else {
            self.run(events.drop_last()).next(events.last())
        }
    }
}

/// The state of one refresh cycle.
#[derive(Debug)]
pub struct Cycle {
    resources: Vec<ResourceSpec>,
    root: String,
    max_retries: usize,
    outcomes: Vec<RefreshOutcome>,
    current: Option<Refresher>,
}

/// The views of `resources`, in their order.
pub open spec fn views_of(resources: Seq<ResourceSpec>) -> Seq<ResourceView> {
    resources.map_values(|r: ResourceSpec| r@)
}

/// The view of a refresh that may be missing.
pub open spec fn refresh_view(refresh: Option<Refresher>) -> Option<RefresherView> {
    match refresh {
        Some(refresh) => Some(refresh@),
        None => None,
    }
}

impl View for Cycle {
    type V = CycleView;

    closed spec fn view(&self) -> CycleView {
        CycleView {
            resources: views_of(self.resources@),
            root: self.root@,
            max_retries: self.max_retries as nat,
            outcomes: self.outcomes@,
            current: refresh_view(self.current),
        }
    }
}

impl Cycle {
    /// Every cycle is in a state that `CycleView::wf` accepts.
    #[verifier::type_invariant]
    pub open spec fn wf(self) -> bool {
        self@.wf()
    }

    /// Starts a cycle over `resources`, whose files are kept in the
    /// directory `root`, with `max_retries` retries for each resource.
    pub fn begin(resources: Vec<ResourceSpec>, root: &str, max_retries: usize) -> (started: Cycle)
        requires
            max_retries < usize::MAX,
        ensures
            started@ == CycleView::initial(views_of(resources@), root@, max_retries as nat),
            started.wf(),
    {
        Self::recall_names(&resources);
        let (outcomes, current) = Self::settle(&resources, root, max_retries, Vec::new());
        Cycle { resources, root: String::from_str(root), max_retries, outcomes, current }
    }

    /// The step that the driver is to take now. None is left once the
    /// cycle has ended.
    pub fn pending(&self) -> (step: Option<Step>)
        ensures
            step_view(step) == self@.pending(),
    {
        match &self.current {
            Some(refresh) => refresh.pending(),
            None => None,
        }
    }

    /// Whether every resource has its outcome.
    pub fn is_finished(&self) -> (finished: bool)
        ensures
            finished == self@.finished(),
    {
        self.outcomes.len() >= self.resources.len()
    }

    /// How the resources fared whose refresh has ended, in their order.
    pub fn outcomes(&self) -> (outcomes: &Vec<RefreshOutcome>)
        ensures
            outcomes@ == self@.outcomes,
    {
        &self.outcomes
    }

    /// Takes the report of how the pending step ended, and hands out the
    /// step that follows, if any.
    pub fn advance(&mut self, event: Event) -> (step: Option<Step>)
        ensures
            final(self)@ == old(self)@.next(event),
            step_view(step) == final(self)@.pending(),
            final(self).wf(),
    {
        // The cycle is taken out whole and an empty one left in its place,
        // so that none is ever seen half changed.
        let mut cycle = Cycle {
            resources: Vec::new(),
            root: String::new(),
            max_retries: 0,
            outcomes: Vec::new(),
            current: None,
        };
        std::mem::swap(self, &mut cycle);
        let (cycle, step) = cycle.after(event);
        *self = cycle;
        step
    }

    /// The cycle after the report `event`, with the step that follows.
    fn after(self, event: Event) -> (next: (Cycle, Option<Step>))
        ensures
            next.0@ == self@.next(event),
            step_view(next.1) == next.0@.pending(),
            next.0.wf(),
    {
        proof {
            use_type_invariant(&self);
        }
        let Cycle { resources, root, max_retries, outcomes, current } = self;
        match current {
            Some(refresh) => {
                let mut refresh = refresh;
                let step = refresh.advance(event);
                match refresh.outcome() {
                    Some(outcome) => {
                        let mut outcomes = outcomes;
                        outcomes.push(outcome);
                        let (outcomes, current) = Self::settle(
                            &resources,
                            root.as_str(),
                            max_retries,
                            outcomes,
                        );
                        let cycle = Cycle { resources, root, max_retries, outcomes, current };
                        let step = cycle.pending();
                        (cycle, step)
                    },
                    None => (
                        Cycle { resources, root, max_retries, outcomes, current: Some(refresh) },
                        step,
                    ),
                }
            },
            None => (Cycle { resources, root, max_retries, outcomes, current: None }, None),
        }
    }

    /// Recalls of each resource what holds of every resource: that its
    /// temporary name belongs to its published name.
    fn recall_names(resources: &Vec<ResourceSpec>)
        ensures
            forall|i: int| 0 <= i < resources.len() ==> (#[trigger] resources[i]).wf(),
    {
        let mut i: usize = 0;
        while i < resources.len()
            invariant
                i <= resources.len(),
                forall|j: int| 0 <= j < i ==> (#[trigger] resources[j]).wf(),
            decreases resources.len() - i,
        {
            let resource = &resources[i];
            proof {
                use_type_invariant(resource);
            }
            i = i + 1;
        }
    }

    /// Starts the refresh of the first resource without an outcome, and
    /// goes on to the next while the one started has ended at once.
    fn settle(
        resources: &Vec<ResourceSpec>,
        root: &str,
        max_retries: usize,
        noted: Vec<RefreshOutcome>,
    ) -> (settled: (Vec<RefreshOutcome>, Option<Refresher>))
        requires
            CycleView::idle(views_of(resources@), root@, max_retries as nat, noted@).inv(),
        ensures
            ({
                let after = CycleView::idle(
                    views_of(resources@),
                    root@,
                    max_retries as nat,
                    noted@,
                ).settle();
                &&& after.wf()
                &&& after == (CycleView {
                    outcomes: settled.0@,
                    current: refresh_view(settled.1),
                    ..after
                })
                &&& after.resources == views_of(resources@)
                &&& after.root == root@
                &&& after.max_retries == max_retries
            }),
    {
        let ghost start = CycleView::idle(views_of(resources@), root@, max_retries as nat, noted@);
        proof {
            lemma_settle(start);
        }
        let mut outcomes = noted;
        while outcomes.len() < resources.len()
            invariant
                start.resources == views_of(resources@),
                start.root == root@,
                start.max_retries == max_retries,
                start.outcomes == noted@,
                start.current is None,
                start.inv(),
                start.settle().wf(),
                outcomes.len() <= resources.len(),
                start.settle() == (CycleView { outcomes: outcomes@, ..start }).settle(),
            decreases resources.len() - outcomes.len(),
        {
            let refresh = Refresher::begin(&resources[outcomes.len()], root, max_retries);
            match refresh.outcome() {
                Some(outcome) => {
                    outcomes.push(outcome);
                },
                None => {
                    return (outcomes, Some(refresh));
                },
            }
        }
        (outcomes, None)
    }
}

/// Settling keeps what `inv` holds and leaves the state as `wf` wants
/// it: resources, directory and budget stay, the outcomes grow at the end,
/// and a refresh is under way unless no resource is left.
pub proof fn lemma_settle(cycle: CycleView)
    requires
        cycle.inv(),
    ensures
        cycle.settle().wf(),
        cycle.settle().resources == cycle.resources,
        cycle.settle().root == cycle.root,
        cycle.settle().max_retries == cycle.max_retries,
        cycle.outcomes.len() <= cycle.settle().outcomes.len(),
        cycle.settle().outcomes.take(cycle.outcomes.len() as int) == cycle.outcomes,
    decreases cycle.resources.len() - cycle.outcomes.len(),
{
    if cycle.outcomes.len() < cycle.resources.len() {
        let resource = cycle.resources[cycle.outcomes.len() as int];
        let refresh = RefresherView::initial(resource, cycle.root, cycle.max_retries);
        lemma_initial(resource, cycle.root, cycle.max_retries);
        if let Some(outcome) = refresh.result() {
            let noted = cycle.note(outcome);
            lemma_settle(noted);
        }
    }
}

/// A refresh that settling has started has not reported anything yet: it
/// is about to fetch for the first time.
pub proof fn lemma_settled_starts_afresh(cycle: CycleView)
    requires
        cycle.inv(),
    ensures
        cycle.settle().current matches Some(refresh) ==> refresh.phase == Phase::Fetching
            && refresh.retries == 0,
    decreases cycle.resources.len() - cycle.outcomes.len(),
{
    if cycle.outcomes.len() < cycle.resources.len() {
        let resource = cycle.resources[cycle.outcomes.len() as int];
        let refresh = RefresherView::initial(resource, cycle.root, cycle.max_retries);
        lemma_initial(resource, cycle.root, cycle.max_retries);
        if let Some(outcome) = refresh.result() {
            lemma_settled_starts_afresh(cycle.note(outcome));
        }
    }
}

/// Every state that a run reaches from a state that `wf` accepts is one
/// that `wf` accepts, over the same resources, in the same directory and
/// with the same budget.
pub proof fn lemma_run_wf(start: CycleView, events: Seq<Event>)
    requires
        start.wf(),
    ensures
        start.run(events).wf(),
        start.run(events).resources == start.resources,
        start.run(events).root == start.root,
        start.run(events).max_retries == start.max_retries,
        start.outcomes.len() <= start.run(events).outcomes.len(),
    decreases events.len(),
{
    if events.len() > 0 {
        let before = start.run(events.drop_last());
        lemma_run_wf(start, events.drop_last());
        lemma_next(before, events.last());
    }
}

/// One report leaves a state that `wf` accepts in another, over the same
/// resources and with no outcome taken back.
pub proof fn lemma_next(cycle: CycleView, event: Event)
    requires
        cycle.wf(),
    ensures
        cycle.next(event).wf(),
        cycle.next(event).resources == cycle.resources,
        cycle.next(event).root == cycle.root,
        cycle.next(event).max_retries == cycle.max_retries,
        cycle.outcomes.len() <= cycle.next(event).outcomes.len(),
        cycle.next(event).outcomes.take(cycle.outcomes.len() as int) == cycle.outcomes,
{
    if let Some(refresh) = cycle.current {
        if let Some(outcome) = refresh.next(event).result() {
            let noted = cycle.note(outcome);
            lemma_settle(noted);
        }
    }
}

/// A cycle that has ended has noted one outcome for every resource, in
/// the order of the resources.
pub proof fn lemma_every_resource_has_its_outcome(cycle: CycleView)
    requires
        cycle.wf(),
        cycle.pending() is None,
    ensures
        cycle.finished(),
        cycle.outcomes.len() == cycle.resources.len(),
        forall|i: int|
            0 <= i < cycle.resources.len() ==> (#[trigger] cycle.outcomes[i]).fits(
                cycle.resources[i].kind,
                cycle.max_retries,
            ),
{
}

/// A refresh that ends does not end the cycle, whether it ends in success
/// or not: its outcome is noted, and if the next resource has a source,
/// the step that follows is the first fetch of that resource.
pub proof fn lemma_cycle_goes_on(cycle: CycleView, event: Event)
    requires
        cycle.wf(),
        cycle.current is Some,
        cycle.current->0.next(event).result() is Some,
        cycle.outcomes.len() + 1 < cycle.resources.len(),
        cycle.resources[cycle.outcomes.len() as int + 1].source_url is Some,
    ensures
        ({
            let following = RefresherView::initial(
                cycle.resources[cycle.outcomes.len() as int + 1],
                cycle.root,
                cycle.max_retries,
            );
            &&& cycle.next(event).outcomes == cycle.outcomes.push(
                cycle.current->0.next(event).result()->0,
            )
            &&& cycle.next(event).current == Some(following)
            &&& cycle.next(event).pending() == Some(following.fetch())
        }),
{
}

/// While the refresh under way has not ended, the cycle does what that
/// refresh does and nothing else: no other resource is touched before the
/// refresh of this one has ended.
pub proof fn lemma_cycle_follows_refresh(cycle: CycleView, events: Seq<Event>)
    requires
        cycle.wf(),
        cycle.current is Some,
        cycle.current->0.run(events).result() is None,
    ensures
        cycle.run(events) == (CycleView {
            current: Some(cycle.current->0.run(events)),
            ..cycle
        }),
        cycle.run(events).pending() == cycle.current->0.run(events).pending(),
    decreases events.len(),
{
    let refresh = cycle.current->0;
    if events.len() > 0 {
        let before = events.drop_last();
        if refresh.run(before).result() is Some {
            lemma_finished_is_final(refresh.run(before), seq![events.last()]);
        }
        lemma_cycle_follows_refresh(cycle, before);
    }
}

/// When the report `last` ends the refresh under way, after `events` that
/// did not, the outcome of that refresh is noted next, and the cycle turns
/// to the resources that follow.
pub proof fn lemma_cycle_notes_outcome(cycle: CycleView, events: Seq<Event>, last: Event)
    requires
        cycle.wf(),
        cycle.current is Some,
        cycle.current->0.run(events).result() is None,
        cycle.current->0.run(events.push(last)).result() is Some,
    ensures
        ({
            let outcome = cycle.current->0.run(events.push(last)).result()->0;
            let after = cycle.run(events.push(last));
            &&& after == cycle.note(outcome).settle()
            &&& after.wf()
            &&& after.outcomes.len() > cycle.outcomes.len()
            &&& after.outcomes[cycle.outcomes.len() as int] == outcome
            &&& after.outcomes.take(cycle.outcomes.len() as int) == cycle.outcomes
        }),
{
    let refresh = cycle.current->0;
    let outcome = refresh.run(events.push(last)).result()->0;
    let noted = cycle.note(outcome);
    assert(events.push(last).drop_last() == events);
    lemma_cycle_follows_refresh(cycle, events);
    lemma_refresh_run_wf(refresh, events.push(last));
    lemma_settle(noted);
    assert(noted.settle().outcomes.take(noted.outcomes.len() as int)[cycle.outcomes.len() as int]
        == outcome);
}

/// In a cycle whose first resource has a source, is fetched in vain
/// `errors.len()` times, within the budget, and then with success, and is
/// published, the first outcome is a success after one attempt more than
/// failed, and the cycle has gone on to the resources that follow.
pub proof fn lemma_first_resource_retried_and_published(
    resources: Seq<ResourceView>,
    root: Seq<char>,
    max_retries: nat,
    errors: Seq<FetchError>,
)
    requires
        resources.len() > 0,
        forall|i: int| 0 <= i < resources.len() ==> (#[trigger] resources[i]).wf(),
        resources[0].source_url is Some,
        errors.len() <= max_retries < usize::MAX,
    ensures
        ({
            let events = failed_rounds(errors).push(Event::Fetched(Ok(()))).push(
                Event::Published(Ok(())),
            );
            let after = CycleView::initial(resources, root, max_retries).run(events);
            &&& after.wf()
            &&& after.outcomes.len() >= 1
            &&& after.outcomes[0] == (RefreshOutcome {
                kind: resources[0].kind,
                succeeded: true,
                error: None,
                attempts: (errors.len() + 1) as usize,
            })
        }),
{
    let blank = CycleView::idle(resources, root, max_retries, Seq::empty());
    let start = CycleView::initial(resources, root, max_retries);
    let refresh = RefresherView::initial(resources[0], root, max_retries);
    let fetched = failed_rounds(errors).push(Event::Fetched(Ok(())));
    lemma_settle(blank);
    lemma_retries_until_success(resources[0], root, max_retries, errors);
    lemma_failed_rounds(refresh, errors);
    lemma_run_push(refresh, failed_rounds(errors), Event::Fetched(Ok(())));
    lemma_cycle_notes_outcome(start, fetched, Event::Published(Ok(())));
}

} // verus!
