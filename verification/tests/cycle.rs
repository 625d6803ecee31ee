use ilovetv::config::ILoveTv;
use ilovetv::config::SERVE_DIR;
use ilovetv::cycle::Cycle;
use ilovetv::fetch::Download;
use ilovetv::fetch::FetchError;
use ilovetv::fetch::FetchStep;
use ilovetv::fetch::Report;
use ilovetv::refresh::Event;
use ilovetv::refresh::IoError;
use ilovetv::refresh::RefreshError;
use ilovetv::refresh::RefreshOutcome;
use ilovetv::refresh::Step;
use ilovetv::resource::LinkType;
use ilovetv::resource::ResourceSpec;
use ilovetv::schedule::NIGHTLY_RETRIES;
use std::collections::BTreeMap;
use std::collections::VecDeque;

/// A source that answers from a script, and a directory held in memory.
/// After every step of a fetch the world notes what a reader of the
/// playlist would see.
struct World {
    answers: VecDeque<(u16, &'static str)>,
    files: BTreeMap<String, String>,
    fetched: Vec<String>,
    paused: Vec<u64>,
    published: Vec<String>,
    seen: Vec<Option<String>>,
}

impl World {
    fn new(answers: &[(u16, &'static str)]) -> World {
        World {
            answers: answers.iter().copied().collect(),
            files: BTreeMap::new(),
            fetched: Vec::new(),
            paused: Vec::new(),
            published: Vec::new(),
            seen: Vec::new(),
        }
    }

    fn look(&mut self) {
        self.seen.push(self.files.get("./ilovetv_cache/ilovetv.m3u").cloned());
    }

    fn fetch(&mut self, url: &str, dest: &str) -> Result<(), FetchError> {
        let mut download = Download::begin(url, dest);
        let mut step = download.pending();
        let mut parts: VecDeque<String> = VecDeque::new();
        let mut arrived: Option<String> = None;
        while let Some(work) = step {
            let report = match work {
                FetchStep::Send { url, user_agent, accept } => {
                    assert_eq!((user_agent, accept), ("ilovetv", "*/*"));
                    self.fetched.push(url);
                    match self.answers.pop_front() {
                        None => Report::NetworkFailed,
                        Some((code, body)) => {
                            let letters: Vec<char> = body.chars().collect();
                            parts = letters.chunks(4).map(|part| part.iter().collect()).collect();
                            Report::Status(code)
                        }
                    }
                }
                FetchStep::Create { path } => {
                    self.files.insert(path, String::new());
                    Report::Stored
                }
                FetchStep::Receive => match parts.pop_front() {
                    Some(part) => {
                        arrived = Some(part);
                        Report::Chunk
                    }
                    None => Report::End,
                },
                FetchStep::Write => match (self.files.get_mut(dest), arrived.take()) {
                    (Some(file), Some(part)) => {
                        file.push_str(&part);
                        Report::Stored
                    }
                    _ => Report::IoFailed,
                },
                FetchStep::Flush => Report::Stored,
            };
            self.look();
            step = download.advance(report);
        }
        download.result().unwrap()
    }

    fn perform(&mut self, step: Step) -> Event {
        let event = match step {
            Step::Fetch { url, dest } => Event::Fetched(self.fetch(&url, &dest)),
            Step::Pause { secs } => {
                self.paused.push(secs);
                Event::Paused
            }
            Step::Publish { from, to } => {
                let moved = match self.files.remove(&from) {
                    Some(body) => {
                        self.files.insert(to.clone(), body);
                        self.published.push(to);
                        Ok(())
                    }
                    None => Err(IoError),
                };
                Event::Published(moved)
            }
        };
        self.look();
        event
    }

    fn run(&mut self, cycle: &mut Cycle) {
        let mut step = cycle.pending();
        while let Some(now) = step {
            let event = self.perform(now);
            step = cycle.advance(event);
        }
    }
}

fn success(kind: LinkType, attempts: usize) -> RefreshOutcome {
    RefreshOutcome { kind, succeeded: true, error: None, attempts }
}

fn failure(kind: LinkType, error: FetchError, attempts: usize) -> RefreshOutcome {
    RefreshOutcome { kind, succeeded: false, error: Some(RefreshError::Fetch(error)), attempts }
}

#[test]
fn two_errors_then_the_playlist_is_published() {
    let config = ILoveTv::new(Some(String::from("http://src/list")), None).unwrap();
    let mut world = World::new(&[(500, ""), (500, ""), (200, "PLAYLIST-DATA")]);
    let mut cycle = Cycle::begin(config.resources(), SERVE_DIR, NIGHTLY_RETRIES);
    world.run(&mut cycle);
    assert!(cycle.is_finished());
    assert_eq!(
        world.files.get("./ilovetv_cache/ilovetv.m3u").map(String::as_str),
        Some("PLAYLIST-DATA")
    );
    assert_eq!(world.files.len(), 1);
    assert!(!world.files.contains_key("./ilovetv_cache/ilovetv-temp.m3u"));
    assert_eq!(world.fetched, vec!["http://src/list"; 3]);
    assert_eq!(world.paused, vec![30, 30]);
    assert_eq!(world.published, vec!["./ilovetv_cache/ilovetv.m3u"]);
    assert_eq!(
        cycle.outcomes(),
        &vec![success(LinkType::M3U, 3), success(LinkType::XmlTv, 0)]
    );
}

#[test]
fn reader_never_sees_half_a_playlist() {
    let config = ILoveTv::new(Some(String::from("http://src/list")), None).unwrap();
    let mut world = World::new(&[(200, "A-LONG-BODY-THAT-NEEDS-MANY-CHUNKS"), (500, "")]);
    world.files.insert(String::from("./ilovetv_cache/ilovetv.m3u"), String::from("OLD"));
    let mut cycle = Cycle::begin(config.resources(), SERVE_DIR, 0);
    world.run(&mut cycle);
    let mut cycle = Cycle::begin(config.resources(), SERVE_DIR, 0);
    world.run(&mut cycle);
    assert!(world.seen.len() > 10);
    let mut fresh = false;
    for seen in &world.seen {
        match seen.as_deref() {
            Some("OLD") => assert!(!fresh),
            Some("A-LONG-BODY-THAT-NEEDS-MANY-CHUNKS") => fresh = true,
            other => panic!("a reader saw {:?}", other),
        }
    }
    assert!(fresh);
    assert_eq!(
        world.files.get("./ilovetv_cache/ilovetv.m3u").map(String::as_str),
        Some("A-LONG-BODY-THAT-NEEDS-MANY-CHUNKS")
    );
}

#[test]
fn stale_file_stays_when_every_attempt_fails() {
    let config = ILoveTv::new(Some(String::from("http://src/list")), None).unwrap();
    let mut world = World::new(&[(500, ""), (404, ""), (503, "")]);
    world.files.insert(String::from("./ilovetv_cache/ilovetv.m3u"), String::from("OLD"));
    let mut cycle = Cycle::begin(config.resources(), SERVE_DIR, 2);
    world.run(&mut cycle);
    assert_eq!(world.files.get("./ilovetv_cache/ilovetv.m3u").map(String::as_str), Some("OLD"));
    assert_eq!(world.files.len(), 1);
    assert_eq!(world.fetched.len(), 3);
    assert_eq!(world.paused, vec![30, 30]);
    assert!(world.published.is_empty());
    assert_eq!(
        cycle.outcomes(),
        &vec![
            failure(LinkType::M3U, FetchError::BadStatus(503), 3),
            success(LinkType::XmlTv, 0)
        ]
    );
}

#[test]
fn new_file_replaces_the_stale_one() {
    let config = ILoveTv::new(Some(String::from("http://src/list")), None).unwrap();
    let mut world = World::new(&[(200, "NEW")]);
    world.files.insert(String::from("./ilovetv_cache/ilovetv.m3u"), String::from("OLD"));
    let mut cycle = Cycle::begin(config.resources(), SERVE_DIR, 0);
    world.run(&mut cycle);
    assert_eq!(world.files.get("./ilovetv_cache/ilovetv.m3u").map(String::as_str), Some("NEW"));
    assert_eq!(world.files.len(), 1);
}

#[test]
fn failed_playlist_does_not_stop_the_guide() {
    let config = ILoveTv::new(
        Some(String::from("http://src/list")),
        Some(String::from("http://src/guide")),
    )
    .unwrap();
    let mut world = World::new(&[(500, ""), (200, "GUIDE")]);
    let mut cycle = Cycle::begin(config.resources(), SERVE_DIR, 0);
    world.run(&mut cycle);
    assert_eq!(world.fetched, vec!["http://src/list", "http://src/guide"]);
    assert!(world.paused.is_empty());
    assert_eq!(world.published, vec!["./ilovetv_cache/xmltv.xml"]);
    assert_eq!(world.files.get("./ilovetv_cache/xmltv.xml").map(String::as_str), Some("GUIDE"));
    assert!(!world.files.contains_key("./ilovetv_cache/ilovetv.m3u"));
    assert_eq!(
        cycle.outcomes(),
        &vec![failure(LinkType::M3U, FetchError::BadStatus(500), 1), success(LinkType::XmlTv, 1)]
    );
}

#[test]
fn resources_are_refreshed_one_after_the_other() {
    let config = ILoveTv::new(
        Some(String::from("http://src/list")),
        Some(String::from("http://src/guide")),
    )
    .unwrap();
    let mut world = World::new(&[(502, ""), (200, "LIST"), (502, ""), (502, ""), (200, "GUIDE")]);
    let mut cycle = Cycle::begin(config.resources(), SERVE_DIR, NIGHTLY_RETRIES);
    world.run(&mut cycle);
    assert_eq!(
        world.fetched,
        vec![
            "http://src/list",
            "http://src/list",
            "http://src/guide",
            "http://src/guide",
            "http://src/guide"
        ]
    );
    assert_eq!(world.paused, vec![30, 30, 30]);
    assert_eq!(
        world.published,
        vec!["./ilovetv_cache/ilovetv.m3u", "./ilovetv_cache/xmltv.xml"]
    );
    assert_eq!(cycle.outcomes(), &vec![success(LinkType::M3U, 2), success(LinkType::XmlTv, 3)]);
}

#[test]
fn cycle_without_resources_is_over_at_once() {
    let mut cycle = Cycle::begin(Vec::new(), "cache", 10);
    assert!(cycle.is_finished());
    assert_eq!(cycle.pending(), None);
    assert_eq!(cycle.advance(Event::Paused), None);
    assert!(cycle.outcomes().is_empty());
}

#[test]
fn cycle_skips_resources_without_source_wherever_they_stand() {
    let resources = vec![
        ResourceSpec::new(LinkType::XmlTv, None, "a.xml").unwrap(),
        ResourceSpec::new(LinkType::XmlTv, None, "b.xml").unwrap(),
        ResourceSpec::new(LinkType::M3U, Some(String::from("http://c")), "c.m3u").unwrap(),
        ResourceSpec::new(LinkType::XmlTv, None, "d.xml").unwrap(),
    ];
    let mut cycle = Cycle::begin(resources, "cache", 1);
    assert!(!cycle.is_finished());
    assert_eq!(cycle.outcomes(), &vec![success(LinkType::XmlTv, 0), success(LinkType::XmlTv, 0)]);
    assert_eq!(
        cycle.pending(),
        Some(Step::Fetch { url: String::from("http://c"), dest: String::from("cache/c-temp.m3u") })
    );
    assert_eq!(
        cycle.advance(Event::Fetched(Ok(()))),
        Some(Step::Publish {
            from: String::from("cache/c-temp.m3u"),
            to: String::from("cache/c.m3u"),
        })
    );
    assert_eq!(cycle.advance(Event::Published(Ok(()))), None);
    assert!(cycle.is_finished());
    assert_eq!(
        cycle.outcomes(),
        &vec![
            success(LinkType::XmlTv, 0),
            success(LinkType::XmlTv, 0),
            success(LinkType::M3U, 1),
            success(LinkType::XmlTv, 0)
        ]
    );
}

#[test]
fn failed_publish_is_noted_and_the_cycle_goes_on() {
    let config = ILoveTv::new(
        Some(String::from("http://src/list")),
        Some(String::from("http://src/guide")),
    )
    .unwrap();
    let mut cycle = Cycle::begin(config.resources(), "cache", 10);
    assert!(matches!(cycle.advance(Event::Fetched(Ok(()))), Some(Step::Publish { .. })));
    assert_eq!(
        cycle.advance(Event::Published(Err(IoError))),
        Some(Step::Fetch {
            url: String::from("http://src/guide"),
            dest: String::from("cache/xmltv-temp.xml"),
        })
    );
    assert_eq!(
        cycle.outcomes(),
        &vec![RefreshOutcome {
            kind: LinkType::M3U,
            succeeded: false,
            error: Some(RefreshError::Publish(IoError)),
            attempts: 1,
        }]
    );
}
