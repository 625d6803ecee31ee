//! What a fetch sends, and what it makes of the answer.

use reqwest::StatusCode;
use vstd::prelude::*;

verus! {

/// The `User-Agent` header of every fetch.
pub const USER_AGENT: &'static str = "ilovetv";

/// The `Accept` header of every fetch.
pub const ACCEPT: &'static str = "*/*";

/// Why a fetch failed.
#[derive(Clone, Copy, Debug, PartialEq, Eq)]
pub enum FetchError {
    /// The connection or the transport failed.
    Network,
    /// The source answered with this status, which is no success.
    BadStatus(u16),
    /// The temporary file could not be created or written.
    Io,
}

/// Whether `code` can be the status of an HTTP answer at all.
pub open spec fn is_status(code: int) -> bool {
    100 <= code < 1000
}

/// Whether the status `code` reports success.
pub open spec fn is_success(code: int) -> bool {
    200 <= code < 300
}

/// `reqwest::StatusCode::from_u16` followed by `StatusCode::is_success`.
///
/// Trusted: a number from 100 up to 999 is a status, and a status is a
/// success exactly from 200 up to 299.
#[verifier::external_body]
fn status_is_success(code: u16) -> (success: Option<bool>)
    ensures
        (success is Some) == is_status(code as int),
        success is Some ==> success == Some(is_success(code as int)),
{
    match StatusCode::from_u16(code) {
        Ok(status) => Some(status.is_success()),
        Err(_) => None,
    }
}

/// Accepts the status of an answer if it reports success. Any other number
/// fails the fetch, which the caller may then repeat.
pub fn check_status(code: u16) -> (checked: Result<(), FetchError>)
    ensures
        checked == if is_success(code as int) {
            Ok::<(), FetchError>(())
        } else {
            Err(FetchError::BadStatus(code))
        },
{
    match status_is_success(code) {
        Some(true) => Ok(()),
        _ => Err(FetchError::BadStatus(code)),
    }
}

/// How far a fetch has come.
#[derive(Clone, Copy, Debug, PartialEq, Eq)]
pub enum Stage {
    /// The request is under way.
    Sending,
    /// The temporary file is being created, or emptied if it exists.
    Creating,
    /// The next part of the body is awaited, or its end.
    Receiving,
    /// The part that has arrived is being written to the file.
    Writing,
    /// The file is being flushed.
    Flushing,
    /// Nothing: the fetch has ended.
    Finished(Result<(), FetchError>),
}

/// What the driver of a fetch reports back: how the step it was given
/// ended.
#[derive(Clone, Copy, Debug, PartialEq, Eq)]
pub enum Report {
    /// The source answered the request with this status.
    Status(u16),
    /// Another part of the body has arrived.
    Chunk,
    /// The body is complete.
    End,
    /// The file took what the step asked of it.
    Stored,
    /// The connection or the transport failed.
    NetworkFailed,
    /// The file could not be created, written or flushed.
    IoFailed,
}

/// Work for the driver of a fetch.
#[derive(Debug, PartialEq, Eq)]
pub enum FetchStep {
    /// Send a GET request for `url` with these two headers.
    Send { url: String, user_agent: &'static str, accept: &'static str },
    /// Create the file `path`, or empty it if it exists.
    Create { path: String },
    /// Wait for the next part of the body.
    Receive,
    /// Write the part that has arrived to the file.
    Write,
    /// Flush the file.
    Flush,
}

/// A step of a fetch with its strings as sequences of characters.
pub enum FetchStepView {
    Send { url: Seq<char>, user_agent: Seq<char>, accept: Seq<char> },
    Create { path: Seq<char> },
    Receive,
    Write,
    Flush,
}

impl View for FetchStep {
    type V = FetchStepView;

    open spec fn view(&self) -> FetchStepView {
        match *self {
            FetchStep::Send { url, user_agent, accept } => FetchStepView::Send {
                url: url@,
                user_agent: user_agent@,
                accept: accept@,
            },
            FetchStep::Create { path } => FetchStepView::Create { path: path@ },
            FetchStep::Receive => FetchStepView::Receive,
            FetchStep::Write => FetchStepView::Write,
            FetchStep::Flush => FetchStepView::Flush,
        }
    }
}

/// The view of a step of a fetch that may be missing.
pub open spec fn fetch_step_view(step: Option<FetchStep>) -> Option<FetchStepView> {
    match step {
        Some(step) => Some(step@),
        None => None,
    }
}

impl Stage {
    /// The stage after the driver has reported `report`.
    ///
    /// An answer that reports success lets the file be created; any other
    /// fails the fetch before the file is touched. Then every part of the
    /// body is written as it arrives, and after the last one the file is
    /// flushed: only then has the fetch succeeded. A failure of the network
    /// or of the file ends the fetch at once. A report that does not answer
    /// the step that is pending changes nothing.
    pub open spec fn next(self, report: Report) -> Stage {
        match (self, report) {
            (Stage::Sending, Report::Status(code)) => if is_success(code as int) {
                Stage::Creating
            } else {
                Stage::Finished(Err(FetchError::BadStatus(code)))
            },
            (Stage::Sending, Report::NetworkFailed) => Stage::Finished(Err(FetchError::Network)),
            (Stage::Creating, Report::Stored) => Stage::Receiving,
            (Stage::Creating, Report::IoFailed) => Stage::Finished(Err(FetchError::Io)),
            (Stage::Receiving, Report::Chunk) => Stage::Writing,
            (Stage::Receiving, Report::End) => Stage::Flushing,
            (Stage::Receiving, Report::NetworkFailed) => Stage::Finished(
                Err(FetchError::Network),
            ),
            (Stage::Writing, Report::Stored) => Stage::Receiving,
            (Stage::Writing, Report::IoFailed) => Stage::Finished(Err(FetchError::Io)),
            (Stage::Flushing, Report::Stored) => Stage::Finished(Ok(())),
            (Stage::Flushing, Report::IoFailed) => Stage::Finished(Err(FetchError::Io)),
            _ => self,
        }
    }

    /// The stage after the driver has reported `reports`, one after the
    /// other.
    pub open spec fn run(self, reports: Seq<Report>) -> Stage
        decreases reports.len(),
    {
        if reports.len() == 0 {
            self
        } else {
            self.run(reports.drop_last()).next(reports.last())
        }
    }

    /// How the fetch ended, once it has.
    pub open spec fn result(self) -> Option<Result<(), FetchError>> {
        match self {
            Stage::Finished(result) => Some(result),
            _ => None,
        }
    }
}

/// The state of a fetch, with its strings as sequences of characters.
pub struct DownloadView {
    /// Where to fetch from.
    pub url: Seq<char>,
    /// The file that the body is written to.
    pub dest: Seq<char>,
    pub stage: Stage,
}

impl DownloadView {
    /// The step that the driver is to take in this state, if any is left.
    pub open spec fn pending(self) -> Option<FetchStepView> {
        match self.stage {
            Stage::Sending => Some(
                FetchStepView::Send { url: self.url, user_agent: USER_AGENT@, accept: ACCEPT@ },
            ),
            Stage::Creating => Some(FetchStepView::Create { path: self.dest }),
            Stage::Receiving => Some(FetchStepView::Receive),
            Stage::Writing => Some(FetchStepView::Write),
            Stage::Flushing => Some(FetchStepView::Flush),
            Stage::Finished(_) => None,
        }
    }
}

/// The state of one fetch: of one request and of the file that its answer
/// is streamed to.
#[derive(Debug)]
pub struct Download {
    url: String,
    dest: String,
    stage: Stage,
}

impl View for Download {
    type V = DownloadView;

    closed spec fn view(&self) -> DownloadView {
        DownloadView { url: self.url@, dest: self.dest@, stage: self.stage }
    }
}

impl Download {
    /// Starts the fetch of `url` into the file `dest`.
    pub fn begin(url: &str, dest: &str) -> (started: Download)
        ensures
            started@ == (DownloadView { url: url@, dest: dest@, stage: Stage::Sending }),
    {
        Download {
            url: String::from_str(url),
            dest: String::from_str(dest),
            stage: Stage::Sending,
        }
    }

    /// The step that the driver is to take now, if any is left.
    pub fn pending(&self) -> (step: Option<FetchStep>)
        ensures
            fetch_step_view(step) == self@.pending(),
    {
        match self.stage {
            Stage::Sending => Some(
                FetchStep::Send { url: self.url.clone(), user_agent: USER_AGENT, accept: ACCEPT },
            ),
            Stage::Creating => Some(FetchStep::Create { path: self.dest.clone() }),
            Stage::Receiving => Some(FetchStep::Receive),
            Stage::Writing => Some(FetchStep::Write),
            Stage::Flushing => Some(FetchStep::Flush),
            Stage::Finished(_) => None,
        }
    }

    /// How the fetch ended, once it has.
    pub fn result(&self) -> (result: Option<Result<(), FetchError>>)
        ensures
            result == self@.stage.result(),
    {
        match self.stage {
            Stage::Finished(result) => Some(result),
            _ => None,
        }
    }

    /// Takes the report of how the pending step ended, and hands out the
    /// step that follows, if any.
    pub fn advance(&mut self, report: Report) -> (step: Option<FetchStep>)
        ensures
            final(self)@ == (DownloadView { stage: old(self)@.stage.next(report), ..old(self)@ }),
            fetch_step_view(step) == final(self)@.pending(),
    {
        match (self.stage, report) {
            (Stage::Sending, Report::Status(code)) => {
                self.stage = match check_status(code) {
                    Ok(_) => Stage::Creating,
                    Err(e) => Stage::Finished(Err(e)),
                };
            },
            (Stage::Sending, Report::NetworkFailed) => {
                self.stage = Stage::Finished(Err(FetchError::Network));
            },
            (Stage::Creating, Report::Stored) => {
                self.stage = Stage::Receiving;
            },
            (Stage::Creating, Report::IoFailed) => {
                self.stage = Stage::Finished(Err(FetchError::Io));
            },
            (Stage::Receiving, Report::Chunk) => {
                self.stage = Stage::Writing;
            },
            (Stage::Receiving, Report::End) => {
                self.stage = Stage::Flushing;
            },
            (Stage::Receiving, Report::NetworkFailed) => {
                self.stage = Stage::Finished(Err(FetchError::Network));
            },
            (Stage::Writing, Report::Stored) => {
                self.stage = Stage::Receiving;
            },
            (Stage::Writing, Report::IoFailed) => {
                self.stage = Stage::Finished(Err(FetchError::Io));
            },
            (Stage::Flushing, Report::Stored) => {
                self.stage = Stage::Finished(Ok(()));
            },
            (Stage::Flushing, Report::IoFailed) => {
                self.stage = Stage::Finished(Err(FetchError::Io));
            },
            _ => {},
        }
        self.pending()
    }
}

/// The reports of a body that arrives in `chunks` parts, each written as it
/// arrives.
pub open spec fn streamed(chunks: nat) -> Seq<Report>
    decreases chunks,
{
    if chunks == 0 {
        Seq::empty()
    } else {
        streamed((chunks - 1) as nat).push(Report::Chunk).push(Report::Stored)
    }
}

/// One more report takes the run one stage further.
pub proof fn lemma_stage_run_push(stage: Stage, reports: Seq<Report>, report: Report)
    ensures
        stage.run(reports.push(report)) == stage.run(reports).next(report),
{
    assert(reports.push(report).drop_last() == reports);
}

/// A fetch that has ended stays as it is, whatever is reported.
pub proof fn lemma_finished_fetch_is_final(stage: Stage, reports: Seq<Report>)
    requires
        stage is Finished,
    ensures
        stage.run(reports) == stage,
    decreases reports.len(),
{
    if reports.len() > 0 {
        lemma_finished_fetch_is_final(stage, reports.drop_last());
    }
}

/// An answer that does not report success fails the fetch with its status
/// at once: the file is not touched, and no later report changes that.
pub proof fn lemma_bad_status_fails(code: u16, reports: Seq<Report>)
    requires
        !is_success(code as int),
    ensures
        Stage::Sending.next(Report::Status(code)).run(reports) == Stage::Finished(
            Err(FetchError::BadStatus(code)),
        ),
{
    lemma_finished_fetch_is_final(Stage::Sending.next(Report::Status(code)), reports);
}

/// While the parts of the body arrive and are written, the fetch goes on
/// waiting for the next one.
pub proof fn lemma_streaming(chunks: nat)
    ensures
        Stage::Receiving.run(streamed(chunks)) == Stage::Receiving,
    decreases chunks,
{
    if chunks > 0 {
        let before = streamed((chunks - 1) as nat);
        lemma_streaming((chunks - 1) as nat);
        lemma_stage_run_push(Stage::Receiving, before, Report::Chunk);
        lemma_stage_run_push(Stage::Receiving, before.push(Report::Chunk), Report::Stored);
    }
}

/// Reports taken in two runs lead where they lead taken in one.
pub proof fn lemma_stage_run_add(stage: Stage, first: Seq<Report>, second: Seq<Report>)
    ensures
        stage.run(first + second) == stage.run(first).run(second),
    decreases second.len(),
{
    if second.len() > 0 {
        lemma_stage_run_add(stage, first, second.drop_last());
        assert((first + second).drop_last() == first + second.drop_last());
    }
}

/// A fetch succeeds when the source answers with a status that reports
/// success, the file is created, every part of the body arrives and is
/// written, the body ends, and the file is flushed.
pub proof fn lemma_complete_fetch_succeeds(code: u16, chunks: nat)
    requires
        is_success(code as int),
    ensures
        Stage::Sending.run(
            seq![Report::Status(code), Report::Stored] + streamed(chunks) + seq![
                Report::End,
                Report::Stored,
            ],
        ) == Stage::Finished(Ok(())),
{
    let opening = seq![Report::Status(code), Report::Stored];
    let closing = seq![Report::End, Report::Stored];
    assert(opening == Seq::<Report>::empty().push(Report::Status(code)).push(Report::Stored));
    assert(closing == Seq::<Report>::empty().push(Report::End).push(Report::Stored));
    lemma_stage_run_push(Stage::Sending, Seq::empty(), Report::Status(code));
    lemma_stage_run_push(Stage::Sending, Seq::empty().push(Report::Status(code)), Report::Stored);
    lemma_stage_run_push(Stage::Receiving, Seq::empty(), Report::End);
    lemma_stage_run_push(Stage::Receiving, Seq::empty().push(Report::End), Report::Stored);
    lemma_streaming(chunks);
    lemma_stage_run_add(Stage::Sending, opening, streamed(chunks));
    lemma_stage_run_add(Stage::Sending, opening + streamed(chunks), closing);
}

/// A fetch succeeds only with a flush that went well: the report that
/// ends it in success is that of the flush, which follows the end of the
/// body.
pub proof fn lemma_success_needs_flush(stage: Stage, report: Report)
    requires
        stage.result() is None,
        stage.next(report).result() == Some(Ok::<(), FetchError>(())),
    ensures
        stage == Stage::Flushing,
        report == Report::Stored,
{
}

/// A fetch flushes only after the body has ended.
pub proof fn lemma_flush_needs_end(stage: Stage, report: Report)
    requires
        stage != Stage::Flushing,
        stage.next(report) == Stage::Flushing,
    ensures
        stage == Stage::Receiving,
        report == Report::End,
{
}

} // verus!
