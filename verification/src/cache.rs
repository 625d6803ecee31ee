//! What a reader of the cache directory can find while a resource is
//! refreshed, in a model of the directory.
//!
//! The model takes two things for granted that only the file system can
//! give: a fetch changes no file but the one it writes to, and a move puts
//! the whole file under its new name in one step or fails and changes
//! nothing. What is proved here is that the steps handed out by a refresh
//! need no more than that to keep the published file whole.

use crate::config::ILoveTvView;
use crate::cycle::lemma_next;
use crate::cycle::lemma_run_wf;
use crate::cycle::lemma_settle;
use crate::cycle::lemma_settled_starts_afresh;
use crate::cycle::CycleView;
use crate::fetch::FetchError;
use crate::refresh::failed_rounds;
use crate::refresh::lemma_failed_rounds;
use crate::refresh::lemma_next_wf;
use crate::refresh::Event;
use crate::refresh::Phase;
use crate::refresh::RefresherView;
use crate::refresh::StepView;
use crate::resource::lemma_last_dot;
use crate::resource::path_in;
use crate::resource::LinkType;
use crate::resource::ResourceView;
use vstd::prelude::*;

verus! {

/// What a reader finds under a path.
pub enum Entry {
    /// No file.
    Absent,
    /// A file that is being written, or that a failed fetch left behind.
    Partial,
    /// The complete body of a fetch that succeeded.
    Whole(Seq<u8>),
}

/// A directory: the files in it by their paths.
pub type Dir = Map<Seq<char>, Entry>;

/// What a reader finds under `path` in `dir`.
pub open spec fn find(dir: Dir, path: Seq<char>) -> Entry {
    if dir.contains_key(path) {
        dir[path]
    } else {
        Entry::Absent
    }
}

/// What the driver reports of a step, with what the step did to the
/// directory.
pub struct Done {
    /// What the driver reports.
    pub event: Event,
    /// What a fetch has left in the file it wrote to.
    pub left: Entry,
}

impl Done {
    /// Whether the report is true to the directory: a fetch that is
    /// reported to have succeeded has left a complete body.
    pub open spec fn truthful(self) -> bool {
        self.event matches Event::Fetched(Ok(_)) ==> self.left is Whole
    }
}

/// The directory while the driver takes `step`: the file that a fetch
/// writes to may hold anything, here `written`; nothing else changes.
pub open spec fn during(dir: Dir, step: Option<StepView>, written: Entry) -> Dir {
    match step {
        Some(StepView::Fetch { dest, .. }) => dir.insert(dest, written),
        _ => dir,
    }
}

/// The directory after the driver has taken `step` and it has ended as
/// `done` says: a fetch has left in its file what `done` holds, and a move
/// that went well has put the file under its new name. Nothing else
/// changes, and nothing at all where the report does not answer the step.
pub open spec fn after(dir: Dir, step: Option<StepView>, done: Done) -> Dir {
    match (step, done.event) {
        (Some(StepView::Fetch { dest, .. }), Event::Fetched(_)) => dir.insert(dest, done.left),
        (Some(StepView::Publish { from, to }), Event::Published(Ok(_))) => dir.remove(from).insert(
            to,
            find(dir, from),
        ),
        _ => dir,
    }
}

/// A refresh with the directory that it works on.
pub struct Scene {
    pub refresh: RefresherView,
    pub dir: Dir,
}

impl Scene {
    /// The published file is whole if it is there, and so is the temporary
    /// file when it is about to be published.
    pub open spec fn sound(self) -> bool {
        &&& self.refresh.wf()
        &&& !(find(self.dir, self.refresh.published_path) is Partial)
        &&& (self.refresh.phase == Phase::Publishing ==> find(
            self.dir,
            self.refresh.temp_path,
        ) is Whole)
    }

    /// The scene after the step that is pending has ended as `done` says.
    pub open spec fn next(self, done: Done) -> Scene {
        Scene {
            refresh: self.refresh.next(done.event),
            dir: after(self.dir, self.refresh.pending(), done),
        }
    }

    /// The scene after the steps have ended as `dones` says, one after the
    /// other.
    pub open spec fn run(self, dones: Seq<Done>) -> Scene
        decreases dones.len(),
    {
        if dones.len() == 0 {
            self
        } else {
            self.run(dones.drop_last()).next(dones.last())
        }
    }
}

/// Whether every report in `dones` is true to the directory.
pub open spec fn all_truthful(dones: Seq<Done>) -> bool {
    forall|i: int| 0 <= i < dones.len() ==> (#[trigger] dones[i]).truthful()
}

/// The events that `dones` reports, in their order.
pub open spec fn events_of(dones: Seq<Done>) -> Seq<Event> {
    dones.map_values(|done: Done| done.event)
}

/// While a step is under way, whatever a fetch has written so far, a
/// reader finds under the published name what was there before the step:
/// never a file half written.
pub proof fn lemma_reader_sees_no_partial_file(scene: Scene, written: Entry)
    requires
        scene.sound(),
    ensures
        find(during(scene.dir, scene.refresh.pending(), written), scene.refresh.published_path)
            == find(scene.dir, scene.refresh.published_path),
        !(find(
            during(scene.dir, scene.refresh.pending(), written),
            scene.refresh.published_path,
        ) is Partial),
{
}

/// A step that ends leaves the published file whole if it is there, and
/// leaves it as it was unless the step was a move that went well.
pub proof fn lemma_step_keeps_published_whole(scene: Scene, done: Done)
    requires
        scene.sound(),
        done.truthful(),
    ensures
        scene.next(done).sound(),
        !(scene.refresh.phase == Phase::Publishing && done.event matches Event::Published(Ok(_)))
            ==> find(scene.next(done).dir, scene.refresh.published_path) == find(
            scene.dir,
            scene.refresh.published_path,
        ),
{
    lemma_next_wf(scene.refresh, done.event);
}

/// Through any number of steps, however they end, the published file is
/// whole if it is there.
pub proof fn lemma_published_stays_whole(scene: Scene, dones: Seq<Done>)
    requires
        scene.sound(),
        all_truthful(dones),
    ensures
        scene.run(dones).sound(),
    decreases dones.len(),
{
    if dones.len() > 0 {
        let before = dones.drop_last();
        assert forall|i: int| 0 <= i < before.len() implies (#[trigger] before[i]).truthful() by {}
        lemma_published_stays_whole(scene, before);
        lemma_step_keeps_published_whole(scene.run(before), dones.last());
    }
}

/// The refresh in a scene goes the way it goes by itself: the directory
/// has no part in what step comes next.
pub proof fn lemma_scene_follows_refresh(scene: Scene, dones: Seq<Done>)
    ensures
        scene.run(dones).refresh == scene.refresh.run(events_of(dones)),
    decreases dones.len(),
{
    if dones.len() > 0 {
        lemma_scene_follows_refresh(scene, dones.drop_last());
        assert(events_of(dones).drop_last() == events_of(dones.drop_last()));
    }
}

/// One more step takes the run one scene further.
pub proof fn lemma_scene_run_push(scene: Scene, dones: Seq<Done>, done: Done)
    ensures
        scene.run(dones.push(done)) == scene.run(dones).next(done),
{
    assert(dones.push(done).drop_last() == dones);
}

/// The published file changes only by a move that goes well: through any
/// steps without one it stays what it was, however the fetches end.
pub proof fn lemma_published_changes_only_by_move(scene: Scene, dones: Seq<Done>)
    requires
        scene.sound(),
        all_truthful(dones),
        forall|i: int|
            0 <= i < dones.len() ==> !((#[trigger] dones[i]).event matches Event::Published(Ok(_))),
    ensures
        scene.run(dones).refresh.published_path == scene.refresh.published_path,
        find(scene.run(dones).dir, scene.refresh.published_path) == find(
            scene.dir,
            scene.refresh.published_path,
        ),
    decreases dones.len(),
{
    if dones.len() > 0 {
        let before = dones.drop_last();
        assert forall|i: int| 0 <= i < before.len() implies (#[trigger] before[i]).truthful()
            && !(before[i].event matches Event::Published(Ok(_))) by {}
        lemma_published_changes_only_by_move(scene, before);
        lemma_published_stays_whole(scene, before);
        lemma_step_keeps_published_whole(scene.run(before), dones.last());
        lemma_next_wf(scene.run(before).refresh, dones.last().event);
    }
}

/// When a fetch succeeds and the move that follows goes well, the
/// published file holds exactly the body that was fetched, no temporary
/// file is left, and the refresh has ended in success.
pub proof fn lemma_publish_serves_fetched_body(scene: Scene, body: Seq<u8>, moved: Done)
    requires
        scene.sound(),
        scene.refresh.phase == Phase::Fetching,
        moved.event matches Event::Published(Ok(_)),
    ensures
        ({
            let fetched = Done { event: Event::Fetched(Ok(())), left: Entry::Whole(body) };
            let end = scene.next(fetched).next(moved);
            &&& end.sound()
            &&& find(end.dir, scene.refresh.published_path) == Entry::Whole(body)
            &&& find(end.dir, scene.refresh.temp_path) is Absent
            &&& end.refresh.result() matches Some(outcome) && outcome.succeeded
        }),
{
    let fetched = Done { event: Event::Fetched(Ok(())), left: Entry::Whole(body) };
    lemma_step_keeps_published_whole(scene, fetched);
    lemma_step_keeps_published_whole(scene.next(fetched), moved);
}

/// What is done in fetches that fail one after the other with `errors`,
/// each leaving its file as `lefts` says and each followed by the pause
/// after it.
pub open spec fn failed_dones(errors: Seq<FetchError>, lefts: Seq<Entry>) -> Seq<Done>
    recommends
        errors.len() == lefts.len(),
    decreases errors.len(),
{
    if errors.len() == 0 {
        Seq::empty()
    } else {
        failed_dones(errors.drop_last(), lefts.drop_last()).push(
            Done { event: Event::Fetched(Err(errors.last())), left: lefts.last() },
        ).push(Done { event: Event::Paused, left: Entry::Absent })
    }
}

/// `failed_dones` reports what `failed_rounds` holds, truthfully and
/// without a move.
pub proof fn lemma_failed_dones(errors: Seq<FetchError>, lefts: Seq<Entry>)
    requires
        errors.len() == lefts.len(),
    ensures
        events_of(failed_dones(errors, lefts)) == failed_rounds(errors),
        all_truthful(failed_dones(errors, lefts)),
        forall|i: int|
            0 <= i < failed_dones(errors, lefts).len() ==> !((#[trigger] failed_dones(
                errors,
                lefts,
            )[i]).event matches Event::Published(Ok(_))),
    decreases errors.len(),
{
    if errors.len() > 0 {
        lemma_failed_dones(errors.drop_last(), lefts.drop_last());
    }
}

/// When a resource with a source is fetched in vain `errors.len()` times,
/// within the budget, and then with success, and the move goes well, the
/// published file holds exactly the body of the fetch that succeeded and
/// no temporary file is left, whatever the failed fetches left behind and
/// whatever was published before.
pub proof fn lemma_retries_end_with_body_published(
    start: Scene,
    errors: Seq<FetchError>,
    lefts: Seq<Entry>,
    body: Seq<u8>,
)
    requires
        start.sound(),
        start.refresh.phase == Phase::Fetching,
        start.refresh.retries == 0,
        errors.len() == lefts.len(),
        errors.len() <= start.refresh.max_retries,
    ensures
        ({
            let end = start.run(
                failed_dones(errors, lefts).push(
                    Done { event: Event::Fetched(Ok(())), left: Entry::Whole(body) },
                ).push(Done { event: Event::Published(Ok(())), left: Entry::Absent }),
            );
            &&& find(end.dir, start.refresh.published_path) == Entry::Whole(body)
            &&& find(end.dir, start.refresh.temp_path) is Absent
            &&& end.refresh.result() matches Some(outcome) && outcome.succeeded
                && outcome.attempts == errors.len() + 1
        }),
{
    let failed = failed_dones(errors, lefts);
    let fetched = Done { event: Event::Fetched(Ok(())), left: Entry::Whole(body) };
    let moved = Done { event: Event::Published(Ok(())), left: Entry::Absent };
    lemma_failed_dones(errors, lefts);
    lemma_published_stays_whole(start, failed);
    lemma_scene_follows_refresh(start, failed);
    lemma_failed_rounds(start.refresh, errors);
    lemma_scene_run_push(start, failed, fetched);
    lemma_scene_run_push(start, failed.push(fetched), moved);
    lemma_publish_serves_fetched_body(start.run(failed), body, moved);
}

/// When every fetch that the budget allows fails, the published file is
/// what it was before, whatever the fetches left behind.
pub proof fn lemma_failure_spares_published(
    start: Scene,
    errors: Seq<FetchError>,
    lefts: Seq<Entry>,
    last: FetchError,
    left: Entry,
)
    requires
        start.sound(),
        start.refresh.phase == Phase::Fetching,
        start.refresh.retries == 0,
        errors.len() == lefts.len(),
        errors.len() == start.refresh.max_retries,
    ensures
        ({
            let end = start.run(
                failed_dones(errors, lefts).push(Done { event: Event::Fetched(Err(last)), left }),
            );
            &&& find(end.dir, start.refresh.published_path) == find(
                start.dir,
                start.refresh.published_path,
            )
            &&& end.refresh.result() matches Some(outcome) && !outcome.succeeded
                && outcome.attempts == errors.len() + 1
        }),
{
    let failed = failed_dones(errors, lefts);
    let ended = Done { event: Event::Fetched(Err(last)), left };
    lemma_failed_dones(errors, lefts);
    lemma_published_stays_whole(start, failed);
    lemma_published_changes_only_by_move(start, failed);
    lemma_scene_follows_refresh(start, failed);
    lemma_failed_rounds(start.refresh, errors);
    lemma_scene_run_push(start, failed, ended);
    lemma_step_keeps_published_whole(start.run(failed), ended);
}

/// Whether the names of `resources` keep apart in the directory `root`: no
/// temporary file of one is the published file of any.
pub open spec fn names_apart(resources: Seq<ResourceView>, root: Seq<char>) -> bool {
    forall|i: int, j: int|
        0 <= i < resources.len() && 0 <= j < resources.len() ==> path_in(
            root,
            (#[trigger] resources[i]).temporary_name,
        ) != path_in(root, (#[trigger] resources[j]).published_name)
}

/// Whether a reader of `dir` finds every published file of `resources`
/// whole, if it is there at all.
pub open spec fn servable(resources: Seq<ResourceView>, root: Seq<char>, dir: Dir) -> bool {
    forall|i: int|
        0 <= i < resources.len() ==> !(find(
            dir,
            path_in(root, (#[trigger] resources[i]).published_name),
        ) is Partial)
}

/// A cycle with the directory that it works on.
pub struct CycleScene {
    pub cycle: CycleView,
    pub dir: Dir,
}

impl CycleScene {
    /// The names keep apart, every published file is whole if it is
    /// there, and so is the temporary file that is about to be published.
    pub open spec fn sound(self) -> bool {
        &&& self.cycle.wf()
        &&& names_apart(self.cycle.resources, self.cycle.root)
        &&& servable(self.cycle.resources, self.cycle.root, self.dir)
        &&& (self.cycle.current matches Some(refresh) ==> (refresh.phase == Phase::Publishing
            ==> find(self.dir, refresh.temp_path) is Whole))
    }

    /// The scene after the step that is pending has ended as `done` says.
    pub open spec fn next(self, done: Done) -> CycleScene {
        CycleScene {
            cycle: self.cycle.next(done.event),
            dir: after(self.dir, self.cycle.pending(), done),
        }
    }

    /// The scene after the steps have ended as `dones` says, one after the
    /// other.
    pub open spec fn run(self, dones: Seq<Done>) -> CycleScene
        decreases dones.len(),
    {
        if dones.len() == 0 {
            self
        } else {
            self.run(dones.drop_last()).next(dones.last())
        }
    }
}

/// While a step of a cycle is under way, whatever a fetch has written so
/// far, a reader finds every published file whole, if it is there at all.
pub proof fn lemma_cycle_reader_sees_no_partial_file(scene: CycleScene, written: Entry)
    requires
        scene.sound(),
    ensures
        servable(
            scene.cycle.resources,
            scene.cycle.root,
            during(scene.dir, scene.cycle.pending(), written),
        ),
{
}

/// A step of a cycle that ends leaves every published file whole, if it
/// is there at all.
pub proof fn lemma_cycle_step_keeps_published_whole(scene: CycleScene, done: Done)
    requires
        scene.sound(),
        done.truthful(),
    ensures
        scene.next(done).sound(),
{
    let cycle = scene.cycle;
    lemma_next(cycle, done.event);
    if let Some(refresh) = cycle.current {
        lemma_next_wf(refresh, done.event);
        if let Some(outcome) = refresh.next(done.event).result() {
            lemma_settle(cycle.note(outcome));
            lemma_settled_starts_afresh(cycle.note(outcome));
        }
    }
}

/// Through any number of steps of a cycle, however they end, every
/// published file is whole if it is there.
pub proof fn lemma_cycle_keeps_published_whole(scene: CycleScene, dones: Seq<Done>)
    requires
        scene.sound(),
        all_truthful(dones),
    ensures
        scene.run(dones).sound(),
    decreases dones.len(),
{
    if dones.len() > 0 {
        let before = dones.drop_last();
        assert forall|i: int| 0 <= i < before.len() implies (#[trigger] before[i]).truthful() by {}
        lemma_cycle_keeps_published_whole(scene, before);
        lemma_cycle_step_keeps_published_whole(scene.run(before), dones.last());
    }
}

/// The names of the two kinds of resource keep apart in every directory.
pub proof fn lemma_configured_names_apart(config: ILoveTvView, root: Seq<char>)
    ensures
        names_apart(config.resources(), root),
{
    let resources = config.resources();
    reveal_strlit("ilovetv.m3u");
    reveal_strlit("xmltv.xml");
    reveal_strlit("-temp");
    reveal_strlit("/");
    LinkType::M3U.lemma_published_has_dot();
    LinkType::XmlTv.lemma_published_has_dot();
    lemma_last_dot(LinkType::M3U.published());
    lemma_last_dot(LinkType::XmlTv.published());
    assert forall|i: int, j: int|
        0 <= i < resources.len() && 0 <= j < resources.len() implies path_in(
        root,
        (#[trigger] resources[i]).temporary_name,
    ) != path_in(root, (#[trigger] resources[j]).published_name) by {
        let temporary = resources[i].temporary_name;
        let published = resources[j].published_name;
        assert(temporary.len() == 16 || temporary.len() == 14);
        assert(published.len() == 11 || published.len() == 9);
        assert(path_in(root, temporary).len() != path_in(root, published).len());
    }
}

/// In a cycle over the configured resources, a reader who finds the
/// published files whole before the cycle finds them whole after every
/// step of it, however the steps end.
pub proof fn lemma_configured_cycle_keeps_published_whole(
    config: ILoveTvView,
    root: Seq<char>,
    max_retries: nat,
    dir: Dir,
    dones: Seq<Done>,
)
    requires
        max_retries < usize::MAX,
        servable(config.resources(), root, dir),
        all_truthful(dones),
    ensures
        ({
            let start = CycleScene {
                cycle: CycleView::initial(config.resources(), root, max_retries),
                dir,
            };
            &&& start.run(dones).sound()
            &&& start.run(dones).cycle.resources == config.resources()
            &&& start.run(dones).cycle.root == root
            &&& servable(config.resources(), root, start.run(dones).dir)
        }),
{
    let resources = config.resources();
    let blank = CycleView::idle(resources, root, max_retries, Seq::empty());
    let start = CycleScene { cycle: CycleView::initial(resources, root, max_retries), dir };
    assert forall|i: int| 0 <= i < resources.len() implies (#[trigger] resources[i]).wf() by {
        resources[i].kind.lemma_published_has_dot();
    }
    lemma_configured_names_apart(config, root);
    lemma_settle(blank);
    lemma_settled_starts_afresh(blank);
    lemma_cycle_keeps_published_whole(start, dones);
    lemma_cycle_scene_follows_cycle(start, dones);
    lemma_run_wf(start.cycle, events_of(dones));
}

/// The cycle in a scene goes the way it goes by itself: the directory has
/// no part in what step comes next.
pub proof fn lemma_cycle_scene_follows_cycle(scene: CycleScene, dones: Seq<Done>)
    ensures
        scene.run(dones).cycle == scene.cycle.run(events_of(dones)),
    decreases dones.len(),
{
    if dones.len() > 0 {
        lemma_cycle_scene_follows_cycle(scene, dones.drop_last());
        assert(events_of(dones).drop_last() == events_of(dones.drop_last()));
    }
}

} // verus!
