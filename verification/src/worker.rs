//! One run of the push, as a machine: what to do next, and what the outcome means.
//!
//! [`Worker::action`] says what is to be done: a request, a wait, an event to report, a
//! question to the disk. Whoever drives the machine does it and hands the outcome to
//! [`Worker::step`]. One thing is out at any moment.
//!
//! Every board is finished before the next is started, and a board's pictures go before its
//! document, so a run that stops half way leaves whole boards behind it. Each step but one
//! is safe to repeat: creating a board is not, so it is never retried.

use vstd::prelude::*;

use crate::hash::{
    a_hash_reads_back, all_hex, has_hash, hashes_in, hashes_read, hex, BlobHash,
};
use crate::library::{a_board_file_is_named_by_its_stem, file_stem, stem};
use crate::push::{
    an_unnumbered_file_is_taken_by_its_title, claimed, cleaned, decide_id, detail_of, refused,
    safe_name, success, Answer, Decision, PlanBoard, PushEvent, PushPlan, PushSummary, Row,
};
use crate::text::{chars_of, joined, text_of, texts};

verus! {

/// The largest picture offered to a server, in bytes.
pub const MAX_BLOB_BYTES: u64 = 67_108_864;

/// How many hashes go in one probe.
pub const HASHES_PER_PROBE: usize = 4096;

/// How long to wait before a second attempt at opening a board file, in milliseconds.
pub const BUSY_RETRY: u64 = 250;

/// How long the worker sleeps before it looks at the stop flag again, in milliseconds.
pub const SLEEP_SLICE: u64 = 100;

/// The wait after the first failed attempt at a request, in milliseconds.
pub const FIRST_WAIT: u64 = 2000;

/// The wait after the second failed attempt at a request, in milliseconds.
pub const SECOND_WAIT: u64 = 4000;

/// How often a request is retried.
pub const RETRIES: usize = 2;

/// What a wait is before.
#[derive(Clone, Copy, Debug, PartialEq, Eq, Structural)]
pub enum After {
    Load,
    Upload,
    Document,
}

/// What the worker is waiting to hear.
#[derive(Clone, Copy, Debug, PartialEq, Eq, Structural)]
pub enum Phase {
    /// The server's list of boards.
    Listing,
    /// Whether to stop before the next board.
    BoardStop,
    /// Whether the board's start was reported.
    BoardEmit,
    /// Whether the board's file is there.
    Looking,
    /// The board's document.
    Loading,
    /// The answer to the creation of a board.
    Creating,
    /// Whether the board's id was reported.
    Recording,
    /// Which pictures of a batch the server lacks.
    Probing,
    /// Whether to stop before asking for one picture.
    HeadStop,
    /// Whether the server has one picture.
    HeadAsk,
    /// Whether to stop before the next picture.
    BlobStop,
    /// Whether the picture's start was reported.
    BlobEmit,
    /// How large the picture is.
    Measuring,
    /// The picture's bytes.
    Reading,
    /// The answer to a picture.
    Uploading,
    /// Whether the end of the pictures was reported.
    BlobsOver,
    /// The document as updates.
    Exporting,
    /// The answer to a document.
    Sending,
    /// Whether to stop waiting.
    WaitPoll,
    /// The end of a slice of a wait.
    WaitSleep,
    /// Whether the board's failure was reported.
    Reporting,
    /// Nothing: the run is over.
    Done,
}

/// What is to be done next.
#[derive(Clone, Debug)]
pub enum Action {
    /// Ask for the list of boards.
    List { url: String },
    /// Look whether the run is to stop.
    PollStop,
    /// Report an event.
    Emit(PushEvent),
    /// Look whether a board's file is there.
    Look { path: String },
    /// Open a board read only and load its document.
    Load { path: String },
    /// Create a board. Never retried.
    Create { url: String, name: String },
    /// Ask which of a batch of hashes the server lacks.
    Probe { url: String, body: Vec<u8> },
    /// Ask whether the server has one picture.
    Head { url: String },
    /// Measure a picture in the local store.
    Measure(BlobHash),
    /// Read a picture from the local store.
    Read(BlobHash),
    /// Send the picture that was read.
    Upload { url: String },
    /// Export the loaded document.
    Export,
    /// Send the exported document to the board of this id.
    Send { id: String },
    /// Sleep.
    Sleep { millis: u64 },
    /// Report the summary and end.
    Finish(PushSummary),
}

/// What loading a board came to.
#[derive(Clone, Debug)]
pub enum Loaded {
    /// The document, by the pictures it references.
    Board(Vec<BlobHash>),
    /// The file holds no document.
    Empty,
    /// The file would not open.
    Busy,
}

/// The outcome of an action.
#[derive(Debug)]
pub enum Event {
    /// The answer to the list request, and the rows its body reads as.
    Listed { answer: Result<Answer, String>, rows: Option<Vec<Row>> },
    /// Whether the run is to stop.
    Stop(bool),
    /// Whether the event went out.
    Emitted(bool),
    /// Whether the file is there.
    Exists(bool),
    Loaded(Loaded),
    /// The answer to the creation of a board, and the id its body reads as, or why it reads
    /// as none.
    Created { answer: Result<Answer, String>, made: Result<String, String> },
    Answered(Result<Answer, String>),
    /// The size of the picture, if it could be measured.
    Measured(Option<u64>),
    /// Whether the picture could be read.
    Read(bool),
    /// Why the document could not be exported, or that it was.
    Exported(Option<String>),
    Slept,
}

/// Everything one run holds.
#[derive(Clone, Debug)]
pub struct Worker {
    /// The origin with no trailing slash.
    pub base: String,
    pub boards: Vec<PlanBoard>,
    /// Whether the local store of pictures would open.
    pub has_store: bool,
    pub rows: Vec<Row>,
    /// Hashes this run has already sent or already proved present.
    pub settled: Vec<BlobHash>,
    /// Whether the server has a batch probe.
    pub probe_works: bool,
    pub summary: PushSummary,
    /// Which board is being sent.
    pub index: usize,
    /// Its id on the server.
    pub id: String,
    /// Why it failed.
    pub why: String,
    /// The pictures it references.
    pub hashes: Vec<BlobHash>,
    /// Those of them that are not settled.
    pub wanted: Vec<BlobHash>,
    /// Those the server lacks, as far as is known.
    pub missing: Vec<BlobHash>,
    /// How far the probe or the upload has come.
    pub at: usize,
    /// The size of the picture being sent.
    pub size: u64,
    /// Which attempt this is.
    pub attempt: usize,
    /// How long is left to wait, in milliseconds.
    pub left: u64,
    pub after: After,
    pub phase: Phase,
}

/// A run by what it holds.
#[verifier::ext_equal]
pub struct Run {
    pub base: Seq<char>,
    pub boards: Seq<PlanBoard>,
    pub has_store: bool,
    pub rows: Seq<Row>,
    pub settled: Set<BlobHash>,
    pub probe_works: bool,
    pub summary: PushSummary,
    pub index: nat,
    pub id: Seq<char>,
    pub why: Seq<char>,
    pub hashes: Seq<BlobHash>,
    pub wanted: Seq<BlobHash>,
    pub missing: Seq<BlobHash>,
    pub at: nat,
    pub size: u64,
    pub attempt: nat,
    pub left: u64,
    pub after: After,
    pub phase: Phase,
}

impl View for Worker {
    type V = Run;

    open spec fn view(&self) -> Run {
        Run {
            base: self.base@,
            boards: self.boards@,
            has_store: self.has_store,
            rows: self.rows@,
            settled: self.settled@.to_set(),
            probe_works: self.probe_works,
            summary: self.summary,
            index: self.index as nat,
            id: self.id@,
            why: self.why@,
            hashes: self.hashes@,
            wanted: self.wanted@,
            missing: self.missing@,
            at: self.at as nat,
            size: self.size,
            attempt: self.attempt as nat,
            left: self.left,
            after: self.after,
            phase: self.phase,
        }
    }
}

/// Which kind of outcome a phase waits for.
pub open spec fn fits(phase: Phase, event: Event) -> bool {
    match phase {
        Phase::Listing => event is Listed,
        Phase::BoardStop => event is Stop,
        Phase::BoardEmit => event is Emitted,
        Phase::Looking => event is Exists,
        Phase::Loading => event is Loaded,
        Phase::Creating => event is Created,
        Phase::Recording => event is Emitted,
        Phase::Probing => event is Answered,
        Phase::HeadStop => event is Stop,
        Phase::HeadAsk => event is Answered,
        Phase::BlobStop => event is Stop,
        Phase::BlobEmit => event is Emitted,
        Phase::Measuring => event is Measured,
        Phase::Reading => event is Read,
        Phase::Uploading => event is Answered,
        Phase::BlobsOver => event is Emitted,
        Phase::Exporting => event is Exported,
        Phase::Sending => event is Answered,
        Phase::WaitPoll => event is Stop,
        Phase::WaitSleep => event is Slept,
        Phase::Reporting => event is Emitted,
        Phase::Done => false,
    }
}

/// The hashes of `list` that are not in `settled`, in order.
pub open spec fn unsettled(list: Seq<BlobHash>, settled: Set<BlobHash>) -> Seq<BlobHash>
    decreases list.len(),
{
    if list.len() == 0 {
        list
    } else if settled.contains(list.last()) {
        unsettled(list.drop_last(), settled)
    } else {
        unsettled(list.drop_last(), settled).push(list.last())
    }
}

/// Those of `batch` that are among `named`, in the order of `batch`.
pub open spec fn lacking(batch: Seq<BlobHash>, named: Seq<BlobHash>) -> Seq<BlobHash>
    decreases batch.len(),
{
    if batch.len() == 0 {
        batch
    } else if named.contains(batch.last()) {
        lacking(batch.drop_last(), named).push(batch.last())
    } else {
        lacking(batch.drop_last(), named)
    }
}

/// The hashes that are settled once the server has said which of `wanted` it lacks: all but
/// those.
pub open spec fn settled_after(settled: Set<BlobHash>, wanted: Seq<BlobHash>, lacks: Seq<BlobHash>) -> Set<
    BlobHash,
> {
    settled.union(wanted.to_set().difference(lacks.to_set()))
}

/// How long the next sleep of a wait is: what is left of it, at most a slice.
pub open spec fn slice_of(left: u64) -> u64 {
    if left < SLEEP_SLICE {
        left
    } else {
        SLEEP_SLICE
    }
}

/// Where a batch that starts at `at` ends.
pub open spec fn batch_end(at: nat, len: nat) -> nat {
    if at + 4096 < len {
        at + 4096
    } else {
        len
    }
}

/// The wait before the attempt after this one.
pub open spec fn retry_wait(attempt: nat) -> u64 {
    if attempt == 0 {
        FIRST_WAIT
    } else {
        SECOND_WAIT
    }
}

/// The stem of a path's file name, or nothing where it has none.
pub open spec fn stem_or_nothing(path: Seq<char>) -> Seq<char> {
    match stem(path) {
        Some(stem) => stem,
        None => Seq::empty(),
    }
}

pub open spec fn known_id(board: PlanBoard) -> Option<Seq<char>> {
    match board.known_id {
        Some(id) => Some(id@),
        None => None,
    }
}

pub open spec fn as_u32(n: nat) -> u32 {
    if n <= u32::MAX {
        n as u32
    } else {
        u32::MAX
    }
}

/// What is added to a sum that cannot go past the largest number.
pub open spec fn saturated(a: u64, b: u64) -> u64 {
    if a + b <= u64::MAX {
        (a + b) as u64
    } else {
        u64::MAX
    }
}

impl Run {
    // ----- how things end --------------------------------------------------------------

    pub open spec fn over(self) -> Run {
        Run { phase: Phase::Done, ..self }
    }

    pub open spec fn stopped(self) -> Run {
        Run { summary: PushSummary { stopped: true, ..self.summary }, ..self }.over()
    }

    pub open spec fn session_gone(self) -> Run {
        Run { summary: PushSummary { session_lost: true, ..self.summary }, ..self }.over()
    }

    pub open spec fn unreachable(self) -> Run {
        Run { summary: PushSummary { unreachable: true, ..self.summary }, ..self }.over()
    }

    /// On to the board at `index`, if there is one.
    pub open spec fn next_board(self) -> Run {
        if self.index < self.boards.len() {
            Run { phase: Phase::BoardStop, ..self }
        } else {
            self.over()
        }
    }

    pub open spec fn board_over(self) -> Run {
        Run { index: self.index + 1, ..self }.next_board()
    }

    pub open spec fn board_sent(self) -> Run {
        Run {
            summary: PushSummary {
                boards_sent: (self.summary.boards_sent + 1) as u32,
                ..self.summary
            },
            ..self
        }.board_over()
    }

    pub open spec fn board_failed(self, why: Seq<char>) -> Run {
        Run {
            summary: PushSummary {
                boards_failed: (self.summary.boards_failed + 1) as u32,
                ..self.summary
            },
            why,
            phase: Phase::Reporting,
            ..self
        }
    }

    pub open spec fn would_not_open(self) -> Run {
        self.board_failed("this board would not open"@)
    }

    // ----- waiting ---------------------------------------------------------------------

    pub open spec fn waits(self, millis: u64, after: After) -> Run {
        Run { left: millis, after, phase: Phase::WaitPoll, ..self }
    }

    /// What a wait that ran its course leads to.
    pub open spec fn waited(self) -> Run {
        match self.after {
            After::Load => Run { attempt: 1, phase: Phase::Loading, ..self },
            After::Upload => Run { attempt: self.attempt + 1, phase: Phase::Uploading, ..self },
            After::Document => Run { attempt: self.attempt + 1, phase: Phase::Sending, ..self },
        }
    }

    /// What a wait that was cut short leads to. A board that was to be opened once more would
    /// not open; anything else ends the run.
    pub open spec fn wait_cut_short(self) -> Run {
        match self.after {
            After::Load => self.would_not_open(),
            After::Upload | After::Document => self.stopped(),
        }
    }

    // ----- the board -------------------------------------------------------------------

    pub open spec fn named(self, id: Seq<char>) -> Run {
        Run { id, phase: Phase::Recording, ..self }
    }

    /// The board is loaded: it is one on the server, or it is created there.
    pub open spec fn loaded(self, hashes: Seq<BlobHash>) -> Run {
        let board = self.boards[self.index as int];
        let here = Run { hashes, ..self };
        match claimed(
            known_id(board),
            stem_or_nothing(board.path@),
            board.title@,
            self.rows,
        ) {
            Some(id) => here.named(id),
            None => Run { phase: Phase::Creating, ..here },
        }
    }

    pub open spec fn created(
        self,
        answer: Result<Answer, String>,
        made: Result<String, String>,
    ) -> Run {
        match answer {
            Err(why) => self.board_failed(why@),
            Ok(answer) => if refused(answer.status) {
                self.session_gone()
            } else if !success(answer.status) {
                self.board_failed(detail_of(answer.status, answer.body@))
            } else {
                match made {
                    Ok(id) => if id@.len() == 0 {
                        self.board_failed("the server named the new board nothing"@)
                    } else {
                        self.named(id@)
                    },
                    Err(error) => self.board_failed(
                        "the create answer did not parse: "@ + error@,
                    ),
                }
            },
        }
    }

    // ----- its pictures ----------------------------------------------------------------

    pub open spec fn exports(self) -> Run {
        Run { phase: Phase::Exporting, ..self }
    }

    /// On to the pictures: those that are not settled, if there is a store to read them
    /// from.
    pub open spec fn sends_blobs(self) -> Run {
        let wanted = unsettled(self.hashes, self.settled);
        let here = Run { wanted, missing: Seq::empty(), at: 0, ..self };
        if !self.has_store || wanted.len() == 0 {
            here.exports()
        } else if self.probe_works {
            Run { phase: Phase::Probing, ..here }
        } else {
            Run { phase: Phase::HeadStop, ..here }
        }
    }

    /// The server lacks `missing` of what is wanted; the rest is settled.
    pub open spec fn probed(self) -> Run {
        Run {
            settled: settled_after(self.settled, self.wanted, self.missing),
            at: 0,
            ..self
        }.next_blob()
    }

    /// One batch is answered for: `lacks` of it are missing.
    pub open spec fn batch_over(self, lacks: Seq<BlobHash>) -> Run {
        let end = batch_end(self.at, self.wanted.len());
        let here = Run { missing: self.missing + lacks, at: end, ..self };
        if end < self.wanted.len() {
            here
        } else {
            here.probed()
        }
    }

    pub open spec fn batch(self) -> Seq<BlobHash> {
        self.wanted.subrange(self.at as int, batch_end(self.at, self.wanted.len()) as int)
    }

    /// A probe that could not be made is no reason to skip the pictures: they count as
    /// missing. Of a batch that was answered for, those that the answer names are: a hash it
    /// names that was not asked for is no picture of this board. A server without the probe
    /// is asked for each picture instead, from the start.
    pub open spec fn probe_answered(self, answer: Result<Answer, String>) -> Run {
        match answer {
            Err(_) => self.batch_over(self.batch()),
            Ok(answer) => if answer.status == 404 || answer.status == 405 {
                Run {
                    probe_works: false,
                    missing: Seq::empty(),
                    at: 0,
                    phase: Phase::HeadStop,
                    ..self
                }
            } else if !success(answer.status) {
                self.batch_over(self.batch())
            } else {
                self.batch_over(lacking(self.batch(), hashes_read(answer.body@)))
            },
        }
    }

    /// Anything but a success, a failure to ask included, reads as absent: sending a picture
    /// twice costs bandwidth, skipping one costs a hole in the board.
    pub open spec fn head_answered(self, answer: Result<Answer, String>) -> Run {
        let there = answer is Ok && success(answer->Ok_0.status);
        let here = Run {
            missing: if there {
                self.missing
            } else {
                self.missing.push(self.wanted[self.at as int])
            },
            at: self.at + 1,
            ..self
        };
        if here.at < here.wanted.len() {
            Run { phase: Phase::HeadStop, ..here }
        } else {
            here.probed()
        }
    }

    /// On to the picture at `at`, if there is one; else to the document.
    pub open spec fn next_blob(self) -> Run {
        if self.at < self.missing.len() {
            Run { phase: Phase::BlobStop, ..self }
        } else if self.missing.len() > 0 {
            Run { phase: Phase::BlobsOver, ..self }
        } else {
            self.exports()
        }
    }

    /// The picture is sent or skipped. Either way it does not hold the board back.
    pub open spec fn blob_over(self) -> Run {
        Run {
            settled: self.settled.insert(self.missing[self.at as int]),
            at: self.at + 1,
            ..self
        }.next_blob()
    }

    pub open spec fn blob_too_big(self) -> Run {
        Run {
            summary: PushSummary {
                blobs_too_big: (self.summary.blobs_too_big + 1) as u32,
                ..self.summary
            },
            ..self
        }.blob_over()
    }

    pub open spec fn blob_sent(self) -> Run {
        Run {
            summary: PushSummary {
                blobs_sent: (self.summary.blobs_sent + 1) as u32,
                bytes: saturated(self.summary.bytes, self.size),
                ..self.summary
            },
            ..self
        }.blob_over()
    }

    pub open spec fn measured(self, size: Option<u64>) -> Run {
        match size {
            None => self.blob_over(),
            Some(size) => if size > MAX_BLOB_BYTES {
                self.blob_too_big()
            } else {
                Run { size, phase: Phase::Reading, ..self }
            },
        }
    }

    pub open spec fn upload_answered(self, answer: Result<Answer, String>) -> Run {
        if answer is Ok && success(answer->Ok_0.status) {
            self.blob_sent()
        } else if answer is Ok && refused(answer->Ok_0.status) {
            self.session_gone()
        } else if answer is Ok && answer->Ok_0.status == 413 {
            self.blob_too_big()
        } else if self.attempt >= RETRIES {
            self.blob_over()
        } else {
            self.waits(retry_wait(self.attempt), After::Upload)
        }
    }

    // ----- its document ----------------------------------------------------------------

    pub open spec fn document_answered(self, answer: Result<Answer, String>) -> Run {
        if answer is Ok && success(answer->Ok_0.status) {
            self.board_sent()
        } else if answer is Ok && refused(answer->Ok_0.status) {
            self.session_gone()
        } else if self.attempt < RETRIES {
            self.waits(retry_wait(self.attempt), After::Document)
        } else {
            match answer {
                Ok(answer) => self.board_failed(detail_of(answer.status, answer.body@)),
                Err(why) => self.board_failed(why@),
            }
        }
    }

    // ----- the whole machine -----------------------------------------------------------

    pub open spec fn listed(
        self,
        answer: Result<Answer, String>,
        rows: Option<Vec<Row>>,
    ) -> Run {
        if answer is Ok && refused(answer->Ok_0.status) {
            self.session_gone()
        } else if answer is Ok && success(answer->Ok_0.status) && rows is Some {
            Run { rows: rows->0@, index: 0, ..self }.next_board()
        } else {
            self.unreachable()
        }
    }

    /// The run after an outcome.
    pub open spec fn advanced(self, event: Event) -> Run {
        match (self.phase, event) {
            (Phase::Listing, Event::Listed { answer, rows }) => self.listed(answer, rows),
            (Phase::BoardStop, Event::Stop(stop)) => if stop {
                self.stopped()
            } else {
                Run { phase: Phase::BoardEmit, ..self }
            },
            (Phase::BoardEmit, Event::Emitted(out)) => if out {
                Run { phase: Phase::Looking, ..self }
            } else {
                self.over()
            },
            (Phase::Looking, Event::Exists(there)) => if there {
                Run { attempt: 0, phase: Phase::Loading, ..self }
            } else {
                self.would_not_open()
            },
            (Phase::Loading, Event::Loaded(loaded)) => match loaded {
                Loaded::Board(hashes) => self.loaded(hashes@),
                Loaded::Empty => self.would_not_open(),
                Loaded::Busy => if self.attempt == 0 {
                    self.waits(BUSY_RETRY, After::Load)
                } else {
                    self.would_not_open()
                },
            },
            (Phase::Creating, Event::Created { answer, made }) => self.created(answer, made),
            (Phase::Recording, Event::Emitted(out)) => if out {
                self.sends_blobs()
            } else {
                self.stopped()
            },
            (Phase::Probing, Event::Answered(answer)) => self.probe_answered(answer),
            (Phase::HeadStop, Event::Stop(stop)) => if stop {
                self.stopped()
            } else {
                Run { phase: Phase::HeadAsk, ..self }
            },
            (Phase::HeadAsk, Event::Answered(answer)) => self.head_answered(answer),
            (Phase::BlobStop, Event::Stop(stop)) => if stop {
                self.stopped()
            } else {
                Run { phase: Phase::BlobEmit, ..self }
            },
            (Phase::BlobEmit, Event::Emitted(out)) => if out {
                Run { phase: Phase::Measuring, ..self }
            } else {
                self.stopped()
            },
            (Phase::Measuring, Event::Measured(size)) => self.measured(size),
            (Phase::Reading, Event::Read(there)) => if there {
                Run { attempt: 0, phase: Phase::Uploading, ..self }
            } else {
                self.blob_over()
            },
            (Phase::Uploading, Event::Answered(answer)) => self.upload_answered(answer),
            (Phase::BlobsOver, Event::Emitted(out)) => if out {
                self.exports()
            } else {
                self.stopped()
            },
            (Phase::Exporting, Event::Exported(error)) => match error {
                Some(error) => self.board_failed("this board would not export: "@ + error@),
                None => Run { attempt: 0, phase: Phase::Sending, ..self },
            },
            (Phase::Sending, Event::Answered(answer)) => self.document_answered(answer),
            (Phase::WaitPoll, Event::Stop(stop)) => if stop {
                self.wait_cut_short()
            } else if self.left == 0 {
                self.waited()
            } else {
                Run { phase: Phase::WaitSleep, ..self }
            },
            (Phase::WaitSleep, Event::Slept) => Run {
                left: (self.left - slice_of(self.left)) as u64,
                phase: Phase::WaitPoll,
                ..self
            },
            (Phase::Reporting, Event::Emitted(out)) => if out {
                self.board_over()
            } else {
                self.over()
            },
            _ => self,
        }
    }

    // ----- what holds throughout -------------------------------------------------------

    /// Whether the run is between the pictures it has and those it is still to send.
    pub open spec fn uploading(self) -> bool {
        ||| self.phase == Phase::BlobStop
        ||| self.phase == Phase::BlobEmit
        ||| self.phase == Phase::Measuring
        ||| self.phase == Phase::Reading
        ||| self.phase == Phase::Uploading
        ||| self.waiting() && self.after == After::Upload
    }

    pub open spec fn asking(self) -> bool {
        self.phase == Phase::Probing || self.phase == Phase::HeadStop || self.phase
            == Phase::HeadAsk
    }

    pub open spec fn waiting(self) -> bool {
        self.phase == Phase::WaitPoll || self.phase == Phase::WaitSleep
    }

    pub open spec fn sending(self) -> bool {
        self.phase == Phase::BlobsOver || self.phase == Phase::Exporting || self.phase
            == Phase::Sending || (self.waiting() && self.after == After::Document)
    }

    /// What holds of every state of a run.
    pub open spec fn sound(self) -> bool {
        &&& self.index <= self.boards.len()
        &&& self.phase != Phase::Listing && self.phase != Phase::Done ==> self.index
            < self.boards.len()
        &&& self.asking() || self.uploading() ==> {
            &&& forall|h: BlobHash| #[trigger]
                self.missing.contains(h) ==> self.wanted.contains(h)
            &&& forall|h: BlobHash| #[trigger] self.wanted.contains(h) ==> self.hashes.contains(h)
        }
        &&& self.asking() ==> {
            &&& self.at < self.wanted.len()
            &&& forall|h: BlobHash|
                #[trigger] self.hashes.contains(h) ==> self.settled.contains(h)
                    || self.wanted.contains(h)
        }
        &&& self.uploading() ==> {
            &&& self.at < self.missing.len()
            &&& forall|h: BlobHash|
                #[trigger] self.hashes.contains(h) ==> self.settled.contains(h)
                    || self.missing.skip(self.at as int).contains(h)
        }
        &&& self.sending() && self.has_store ==> forall|h: BlobHash|
            #[trigger] self.hashes.contains(h) ==> self.settled.contains(h)
        &&& self.phase == Phase::Uploading || self.phase == Phase::Sending ==> self.attempt
            <= RETRIES
        &&& self.phase == Phase::Loading ==> self.attempt <= 1
        &&& self.waiting() && self.after != After::Load ==> self.attempt < RETRIES
        &&& self.waiting() && self.after == After::Load ==> self.attempt == 0
        &&& self.phase == Phase::WaitSleep ==> self.left > 0
    }

    /// Whether every picture of the board is settled.
    pub open spec fn all_settled(self) -> bool {
        forall|h: BlobHash| #[trigger] self.hashes.contains(h) ==> self.settled.contains(h)
    }

    /// Whether every counter of the summary can still go up by one.
    pub open spec fn has_room(self) -> bool {
        &&& self.summary.boards_sent < u32::MAX
        &&& self.summary.boards_failed < u32::MAX
        &&& self.summary.blobs_sent < u32::MAX
        &&& self.summary.blobs_too_big < u32::MAX
    }
}

// ----- addresses and bodies ------------------------------------------------------------

/// An origin without the slashes it ends with.
pub open spec fn without_slashes(server: Seq<char>) -> Seq<char>
    decreases server.len(),
{
    if server.len() > 0 && server.last() == '/' {
        without_slashes(server.drop_last())
    } else {
        server
    }
}

fn origin(server: &str) -> (base: String)
    ensures
        base@ == without_slashes(server@),
{
    let chars = chars_of(server);
    let mut to: usize = chars.len();
    proof {
        assert(server@.take(to as int) =~= server@);
    }
    while to > 0 && chars[to - 1] == '/'
        invariant
            to <= chars@.len(),
            chars@ == server@,
            without_slashes(server@) == without_slashes(server@.take(to as int)),
        decreases to,
    {
        proof {
            assert(server@.take(to as int).drop_last() =~= server@.take(to - 1));
        }
        to = to - 1;
    }
    proof {
        assert(chars@.subrange(0, to as int) =~= server@.take(to as int));
    }
    text_of(&chars, 0, to)
}

/// The address of one picture.
pub open spec fn blob_url(base: Seq<char>, hash: BlobHash) -> Seq<char> {
    base + "/api/v1/blobs/"@ + hash.digits()
}

fn url_of_blob(base: &str, hash: BlobHash) -> (url: String)
    ensures
        url@ == blob_url(base@, hash),
{
    let digits = hash.to_hex();
    let route = joined(base, "/api/v1/blobs/");
    joined(route.as_str(), digits.as_str())
}

/// Texts in quotes, with commas between.
pub open spec fn quoted(list: Seq<Seq<char>>) -> Seq<char>
    decreases list.len(),
{
    if list.len() == 0 {
        Seq::empty()
    } else if list.len() == 1 {
        seq!['"'] + list[0] + seq!['"']
    } else {
        quoted(list.drop_last()) + seq![',', '"'] + list.last() + seq!['"']
    }
}

/// A list of plain texts as a JSON array.
pub open spec fn json_array(list: Seq<Seq<char>>) -> Seq<char> {
    seq!['['] + quoted(list) + seq![']']
}

/// The bytes of a text that is all ASCII.
pub open spec fn ascii_bytes(text: Seq<char>) -> Seq<u8> {
    text.map_values(|c: char| c as u8)
}

/// `serde_json::to_vec` on a list of strings. Where no string holds a character that JSON
/// escapes, and hexadecimal digits are none, it succeeds with the compact array: a bracket,
/// the strings in quotes with a comma and nothing else between, a bracket.
#[verifier::external_body]
fn to_json(list: &Vec<String>) -> (body: Option<Vec<u8>>)
    requires
        forall|i: int| 0 <= i < list@.len() ==> all_hex(#[trigger] texts(list@)[i]),
    ensures
        body is Some,
        body->0@ == ascii_bytes(json_array(texts(list@))),
{
    serde_json::to_vec(list).ok()
}

/// The digits of each hash.
pub open spec fn digits_of(hashes: Seq<BlobHash>) -> Seq<Seq<char>> {
    hashes.map_values(|hash: BlobHash| hash.digits())
}

/// The body of a probe: the batch as a JSON array of 64-digit strings.
pub fn probe_body(hashes: &Vec<BlobHash>, from: usize, to: usize) -> (body: Vec<u8>)
    requires
        from <= to <= hashes@.len(),
    ensures
        body@ == ascii_bytes(
            json_array(digits_of(hashes@.subrange(from as int, to as int))),
        ),
{
    let ghost batch = hashes@.subrange(from as int, to as int);
    let mut list: Vec<String> = Vec::new();
    let mut at: usize = from;
    proof {
        assert(texts(list@) =~= digits_of(batch).take(0));
    }
    while at < to
        invariant
            from <= at <= to <= hashes@.len(),
            batch == hashes@.subrange(from as int, to as int),
            texts(list@) == digits_of(batch).take(at - from),
        decreases to - at,
    {
        let ghost before = list@;
        list.push(hashes[at].to_hex());
        at = at + 1;
        proof {
            assert(texts(list@) =~= texts(before).push(hashes@[at - 1].digits()));
            assert(digits_of(batch).take(at - from) =~= digits_of(batch).take(at - 1 - from).push(
                digits_of(batch)[at - 1 - from],
            ));
        }
    }
    proof {
        assert(digits_of(batch).take(batch.len() as int) =~= digits_of(batch));
        assert forall|i: int| 0 <= i < list@.len() implies all_hex(
            #[trigger] texts(list@)[i],
        ) by {
            a_hash_reads_back(batch[i]);
        }
    }
    match to_json(&list) {
        Some(body) => body,
        None => Vec::new(),
    }
}

// ----- the machine ---------------------------------------------------------------------

/// What a phase asks to be done.
pub open spec fn asks(run: Run, action: Action) -> bool {
    let board = run.boards[run.index as int];
    let total = as_u32(run.missing.len());
    match run.phase {
        Phase::Listing => action is List && action->List_url@ == run.base + "/api/v1/boards"@,
        Phase::BoardStop | Phase::HeadStop | Phase::BlobStop | Phase::WaitPoll =>
            action is PollStop,
        Phase::BoardEmit => match action {
            Action::Emit(PushEvent::Board { done, total, title }) => {
                &&& done == as_u32(run.index)
                &&& total == run.summary.boards_total
                &&& title@ == board.title@
            },
            _ => false,
        },
        Phase::Looking => action is Look && action->Look_path@ == board.path@,
        Phase::Loading => action is Load && action->Load_path@ == board.path@,
        Phase::Creating => match action {
            Action::Create { url, name } => {
                &&& url@ == run.base + "/api/v1/boards"@
                &&& name@ == cleaned(board.title@)
            },
            _ => false,
        },
        Phase::Recording => match action {
            Action::Emit(PushEvent::Recorded { board: path, id }) => {
                &&& path@ == board.path@
                &&& id@ == run.id
            },
            _ => false,
        },
        Phase::Probing => match action {
            Action::Probe { url, body } => {
                &&& url@ == run.base + "/api/v1/blobs/missing"@
                &&& body@ == ascii_bytes(json_array(digits_of(run.batch())))
            },
            _ => false,
        },
        Phase::HeadAsk => action is Head && action->Head_url@ == blob_url(
            run.base,
            run.wanted[run.at as int],
        ),
        Phase::BlobEmit => action == Action::Emit(
            PushEvent::Blobs { done: as_u32(run.at), total },
        ),
        Phase::BlobsOver => action == Action::Emit(PushEvent::Blobs { done: total, total }),
        Phase::Measuring => action == Action::Measure(run.missing[run.at as int]),
        Phase::Reading => action == Action::Read(run.missing[run.at as int]),
        Phase::Uploading => action is Upload && action->Upload_url@ == blob_url(
            run.base,
            run.missing[run.at as int],
        ),
        Phase::Exporting => action is Export,
        Phase::Sending => action is Send && action->Send_id@ == run.id,
        Phase::WaitSleep => action == (Action::Sleep { millis: slice_of(run.left) }),
        Phase::Reporting => match action {
            Action::Emit(PushEvent::BoardFailed { title, why }) => {
                &&& title@ == board.title@
                &&& why@ == run.why
            },
            _ => false,
        },
        Phase::Done => action == Action::Finish(run.summary),
    }
}

fn to_u32(n: usize) -> (answer: u32)
    ensures
        answer == as_u32(n as nat),
{
    if n <= u32::MAX as usize {
        n as u32
    } else {
        u32::MAX
    }
}

/// Puts a hash among the settled ones.
fn settle(settled: &mut Vec<BlobHash>, hash: BlobHash)
    ensures
        final(settled)@.to_set() == old(settled)@.to_set().insert(hash),
{
    settled.push(hash);
    proof {
        let was = old(settled)@;
        let now = was.push(hash);
        assert forall|h: BlobHash| now.contains(h) implies was.contains(h) || h == hash by {
            let i = choose|i: int| 0 <= i < now.len() && now[i] == h;
            if i < was.len() {
                assert(was[i] == h);
            }
        }
        assert forall|h: BlobHash| was.contains(h) || h == hash implies now.contains(h) by {
            if h == hash {
                assert(now[was.len() as int] == h);
            } else {
                let i = choose|i: int| 0 <= i < was.len() && was[i] == h;
                assert(now[i] == h);
            }
        }
        assert(now.to_set() =~= was.to_set().insert(hash));
    }
}

fn those_lacking(batch: &Vec<BlobHash>, named: &Vec<BlobHash>) -> (lacks: Vec<BlobHash>)
    ensures
        lacks@ == lacking(batch@, named@),
{
    let mut lacks: Vec<BlobHash> = Vec::new();
    let mut i: usize = 0;
    proof {
        assert(lacks@ =~= batch@.take(0));
    }
    while i < batch.len()
        invariant
            i <= batch@.len(),
            lacks@ == lacking(batch@.take(i as int), named@),
        decreases batch@.len() - i,
    {
        if has_hash(named, batch[i]) {
            lacks.push(batch[i]);
        }
        i = i + 1;
        proof {
            assert(batch@.take(i as int).drop_last() =~= batch@.take(i - 1));
        }
    }
    proof {
        assert(batch@.take(batch@.len() as int) =~= batch@);
    }
    lacks
}

impl Worker {
    /// A run of a plan, before its first request. `has_store` says whether the local store
    /// of pictures would open: without it only the documents go.
    pub fn new(plan: PushPlan, has_store: bool) -> (worker: Worker)
        ensures
            worker@ == (Run {
                base: without_slashes(plan.server@),
                boards: plan.boards@,
                has_store,
                rows: Seq::empty(),
                settled: Set::empty(),
                probe_works: true,
                summary: PushSummary {
                    boards_total: as_u32(plan.boards@.len()),
                    ..PushSummary::zero()
                },
                index: 0,
                id: Seq::empty(),
                why: Seq::empty(),
                hashes: Seq::empty(),
                wanted: Seq::empty(),
                missing: Seq::empty(),
                at: 0,
                size: 0,
                attempt: 0,
                left: 0,
                after: After::Load,
                phase: Phase::Listing,
            }),
            worker@.sound(),
            worker@.has_room(),
    {
        let total: u32 = to_u32(plan.boards.len());
        let worker = Worker {
            base: origin(plan.server.as_str()),
            boards: plan.boards,
            has_store,
            rows: Vec::new(),
            settled: Vec::new(),
            probe_works: true,
            summary: PushSummary { boards_total: total, ..PushSummary::default() },
            index: 0,
            id: String::new(),
            why: String::new(),
            hashes: Vec::new(),
            wanted: Vec::new(),
            missing: Vec::new(),
            at: 0,
            size: 0,
            attempt: 0,
            left: 0,
            after: After::Load,
            phase: Phase::Listing,
        };
        proof {
            assert(worker.settled@.to_set() =~= Set::<BlobHash>::empty());
            assert(worker@.rows =~= Seq::<Row>::empty());
            assert(worker@.hashes =~= Seq::<BlobHash>::empty());
        }
        worker
    }

    /// Whether every counter of the summary can still go up by one.
    pub fn has_room(&self) -> (answer: bool)
        ensures
            answer == self@.has_room(),
    {
        self.summary.boards_sent < u32::MAX && self.summary.boards_failed < u32::MAX
            && self.summary.blobs_sent < u32::MAX && self.summary.blobs_too_big < u32::MAX
    }

    /// Whether the run is over.
    pub fn is_done(&self) -> (answer: bool)
        ensures
            answer == (self@.phase == Phase::Done),
    {
        self.phase == Phase::Done
    }

    /// What is to be done next.
    pub fn action(&self) -> (action: Action)
        requires
            self@.sound(),
        ensures
            asks(self@, action),
    {
        match self.phase {
            Phase::Listing => Action::List { url: joined(self.base.as_str(), "/api/v1/boards") },
            Phase::BoardStop | Phase::HeadStop | Phase::BlobStop | Phase::WaitPoll =>
                Action::PollStop,
            Phase::BoardEmit => Action::Emit(
                PushEvent::Board {
                    done: to_u32(self.index),
                    total: self.summary.boards_total,
                    title: self.boards[self.index].title.clone(),
                },
            ),
            Phase::Looking => Action::Look { path: self.boards[self.index].path.clone() },
            Phase::Loading => Action::Load { path: self.boards[self.index].path.clone() },
            Phase::Creating => Action::Create {
                url: joined(self.base.as_str(), "/api/v1/boards"),
                name: safe_name(self.boards[self.index].title.as_str()),
            },
            Phase::Recording => Action::Emit(
                PushEvent::Recorded {
                    board: self.boards[self.index].path.clone(),
                    id: self.id.clone(),
                },
            ),
            Phase::Probing => {
                let end = self.end_of_batch();
                Action::Probe {
                    url: joined(self.base.as_str(), "/api/v1/blobs/missing"),
                    body: probe_body(&self.wanted, self.at, end),
                }
            },
            Phase::HeadAsk => Action::Head {
                url: url_of_blob(self.base.as_str(), self.wanted[self.at]),
            },
            Phase::BlobEmit => Action::Emit(
                PushEvent::Blobs { done: to_u32(self.at), total: to_u32(self.missing.len()) },
            ),
            Phase::BlobsOver => {
                let total: u32 = to_u32(self.missing.len());
                Action::Emit(PushEvent::Blobs { done: total, total })
            },
            Phase::Measuring => Action::Measure(self.missing[self.at]),
            Phase::Reading => Action::Read(self.missing[self.at]),
            Phase::Uploading => Action::Upload {
                url: url_of_blob(self.base.as_str(), self.missing[self.at]),
            },
            Phase::Exporting => Action::Export,
            Phase::Sending => Action::Send { id: self.id.clone() },
            Phase::WaitSleep => Action::Sleep {
                millis: if self.left < SLEEP_SLICE {
                    self.left
                } else {
                    SLEEP_SLICE
                },
            },
            Phase::Reporting => Action::Emit(
                PushEvent::BoardFailed {
                    title: self.boards[self.index].title.clone(),
                    why: self.why.clone(),
                },
            ),
            Phase::Done => Action::Finish(self.summary),
        }
    }

    fn end_of_batch(&self) -> (end: usize)
        requires
            self.at <= self.wanted@.len(),
        ensures
            end == batch_end(self.at as nat, self.wanted@.len()),
            self.at <= end <= self.wanted@.len(),
    {
        if self.wanted.len() - self.at > HASHES_PER_PROBE {
            self.at + HASHES_PER_PROBE
        } else {
            self.wanted.len()
        }
    }

    fn stop_run(&mut self)
        ensures
            final(self)@ == old(self)@.stopped(),
    {
        self.summary.stopped = true;
        self.phase = Phase::Done;
    }

    fn lose_session(&mut self)
        ensures
            final(self)@ == old(self)@.session_gone(),
    {
        self.summary.session_lost = true;
        self.phase = Phase::Done;
    }

    fn next_board(&mut self)
        ensures
            final(self)@ == old(self)@.next_board(),
    {
        self.phase = if self.index < self.boards.len() {
            Phase::BoardStop
        } else {
            Phase::Done
        };
    }

    fn board_over(&mut self)
        requires
            old(self).index < old(self).boards@.len(),
        ensures
            final(self)@ == old(self)@.board_over(),
    {
        let count: usize = self.boards.len();
        self.index = self.index + 1;
        assert(self.index <= count);
        self.next_board();
    }

    fn fail_board(&mut self, why: String)
        requires
            old(self)@.has_room(),
        ensures
            final(self)@ == old(self)@.board_failed(why@),
    {
        self.summary.boards_failed = self.summary.boards_failed + 1;
        self.why = why;
        self.phase = Phase::Reporting;
    }

    fn fail_to_open(&mut self)
        requires
            old(self)@.has_room(),
        ensures
            final(self)@ == old(self)@.would_not_open(),
    {
        self.fail_board("this board would not open".to_owned());
    }

    fn wait(&mut self, millis: u64, after: After)
        ensures
            final(self)@ == old(self)@.waits(millis, after),
    {
        self.left = millis;
        self.after = after;
        self.phase = Phase::WaitPoll;
    }

    fn next_blob(&mut self)
        ensures
            final(self)@ == old(self)@.next_blob(),
    {
        self.phase = if self.at < self.missing.len() {
            Phase::BlobStop
        } else if self.missing.len() > 0 {
            Phase::BlobsOver
        } else {
            Phase::Exporting
        };
    }

    fn blob_over(&mut self)
        requires
            old(self).at < old(self).missing@.len(),
        ensures
            final(self)@ == old(self)@.blob_over(),
    {
        let hash = self.missing[self.at];
        let count: usize = self.missing.len();
        settle(&mut self.settled, hash);
        assert(self.at < count);
        self.at = self.at + 1;
        self.next_blob();
    }

    fn blob_too_big(&mut self)
        requires
            old(self).at < old(self).missing@.len(),
            old(self)@.has_room(),
        ensures
            final(self)@ == old(self)@.blob_too_big(),
    {
        self.summary.blobs_too_big = self.summary.blobs_too_big + 1;
        self.blob_over();
    }

    /// The list of boards came, or did not.
    fn rows_came(&mut self, answer: Result<Answer, String>, rows: Option<Vec<Row>>)
        ensures
            final(self)@ == old(self)@.listed(answer, rows),
    {
        if let Ok(answer) = &answer {
            if answer.session_lost() {
                self.lose_session();
                return ;
            }
            if answer.ok() {
                if let Some(rows) = rows {
                    self.rows = rows;
                    self.index = 0;
                    self.next_board();
                    return ;
                }
            }
        }
        self.summary.unreachable = true;
        self.phase = Phase::Done;
    }

    /// The board is loaded: its id is decided.
    fn board_loaded(&mut self, hashes: Vec<BlobHash>)
        requires
            old(self).index < old(self).boards@.len(),
        ensures
            final(self)@ == old(self)@.loaded(hashes@),
    {
        self.hashes = hashes;
        let stem = match file_stem(self.boards[self.index].path.as_str()) {
            Some(stem) => stem,
            None => String::new(),
        };
        proof {
            assert(stem@ =~= stem_or_nothing(self.boards@[self.index as int].path@));
        }
        let known = match &self.boards[self.index].known_id {
            Some(id) => Some(id.as_str()),
            None => None,
        };
        let decision = decide_id(
            known,
            stem.as_str(),
            self.boards[self.index].title.as_str(),
            &self.rows,
        );
        match decision {
            Decision::Use(id) => {
                self.id = id;
                self.phase = Phase::Recording;
            },
            Decision::Create => {
                self.phase = Phase::Creating;
            },
        }
    }

    /// The answer to the creation of a board.
    fn board_created(&mut self, answer: Result<Answer, String>, made: Result<String, String>)
        requires
            old(self)@.has_room(),
        ensures
            final(self)@ == old(self)@.created(answer, made),
    {
        match answer {
            Err(why) => self.fail_board(why),
            Ok(answer) => {
                if answer.session_lost() {
                    self.lose_session();
                } else if !answer.ok() {
                    self.fail_board(answer.detail());
                } else {
                    match made {
                        Ok(id) => if id.as_str().is_empty() {
                            self.fail_board("the server named the new board nothing".to_owned());
                        } else {
                            self.id = id;
                            self.phase = Phase::Recording;
                        },
                        Err(error) => self.fail_board(
                            joined("the create answer did not parse: ", error.as_str()),
                        ),
                    }
                }
            },
        }
    }

    /// On to the pictures this board references that are not settled yet. Where all of them
    /// are, nothing is asked and nothing reported: its document is next.
    pub fn send_blobs(&mut self)
        requires
            old(self)@.sound(),
            old(self)@.phase == Phase::Recording,
        ensures
            final(self)@ == old(self)@.sends_blobs(),
            final(self)@.sound(),
            forall|h: BlobHash| #[trigger]
                old(self)@.settled.contains(h) ==> !final(self)@.wanted.contains(h)
                    && !final(self)@.missing.contains(h),
            old(self)@.all_settled() ==> final(self)@ == (Run {
                wanted: Seq::empty(),
                missing: Seq::empty(),
                at: 0,
                phase: Phase::Exporting,
                ..old(self)@
            }),
    {
        proof {
            recording_stays_sound(self@, true);
            let wanted = self@.sends_blobs().wanted;
            assert forall|h: BlobHash| #[trigger] self@.settled.contains(h) implies !wanted.contains(
                h,
            ) by {
                if wanted.contains(h) {
                    unsettled_is_of_the_list(self@.hashes, self@.settled, h);
                }
            }
            if self@.all_settled() {
                a_settled_board_asks_for_nothing(self@);
            }
        }
        let mut wanted: Vec<BlobHash> = Vec::new();
        let mut i: usize = 0;
        proof {
            assert(self.hashes@.take(0) =~= Seq::<BlobHash>::empty());
        }
        while i < self.hashes.len()
            invariant
                i <= self.hashes@.len(),
                *self == *old(self),
                wanted@ == unsettled(self.hashes@.take(i as int), self.settled@.to_set()),
            decreases self.hashes@.len() - i,
        {
            let hash = self.hashes[i];
            if !has_hash(&self.settled, hash) {
                wanted.push(hash);
            }
            i = i + 1;
            proof {
                assert(self.hashes@.take(i as int).drop_last() =~= self.hashes@.take(i - 1));
            }
        }
        proof {
            assert(self.hashes@.take(self.hashes@.len() as int) =~= self.hashes@);
        }
        let none = wanted.len() == 0;
        self.wanted = wanted;
        self.missing = Vec::new();
        self.at = 0;
        proof {
            assert(self.missing@ =~= Seq::<BlobHash>::empty());
        }
        self.phase = if !self.has_store || none {
            Phase::Exporting
        } else if self.probe_works {
            Phase::Probing
        } else {
            Phase::HeadStop
        };
    }

    /// Everything wanted that the server does not lack is settled.
    fn probe_over(&mut self)
        ensures
            final(self)@ == old(self)@.probed(),
    {
        let mut i: usize = 0;
        let ghost was = self.settled@.to_set();
        let ghost lacks = self.missing@;
        proof {
            assert(self.wanted@.take(0).to_set() =~= Set::<BlobHash>::empty());
            assert(settled_after(was, self.wanted@.take(0), lacks) =~= was);
        }
        while i < self.wanted.len()
            invariant
                i <= self.wanted@.len(),
                lacks == self.missing@,
                self@ == (Run { settled: self@.settled, ..old(self)@ }),
                self.settled@.to_set() == settled_after(was, self.wanted@.take(i as int), lacks),
            decreases self.wanted@.len() - i,
        {
            let hash = self.wanted[i];
            proof {
                let seen = self.wanted@.take(i as int);
                let next = self.wanted@.take(i as int + 1);
                assert(next =~= seen.push(hash));
                assert forall|h: BlobHash| next.contains(h) <==> (seen.contains(h) || h
                    == hash) by {
                    if next.contains(h) {
                        let k = choose|k: int| 0 <= k < next.len() && next[k] == h;
                        if k < seen.len() {
                            assert(seen[k] == h);
                        }
                    }
                    if seen.contains(h) {
                        let k = choose|k: int| 0 <= k < seen.len() && seen[k] == h;
                        assert(next[k] == h);
                    }
                    if h == hash {
                        assert(next[i as int] == h);
                    }
                }
                if lacks.contains(hash) {
                    assert(settled_after(was, next, lacks) =~= settled_after(was, seen, lacks));
                } else {
                    assert(settled_after(was, next, lacks) =~= settled_after(
                        was,
                        seen,
                        lacks,
                    ).insert(hash));
                }
            }
            if !has_hash(&self.missing, hash) {
                settle(&mut self.settled, hash);
            }
            i = i + 1;
        }
        proof {
            assert(self.wanted@.take(self.wanted@.len() as int) =~= self.wanted@);
        }
        self.at = 0;
        self.next_blob();
    }

    fn batch_over(&mut self, lacks: &mut Vec<BlobHash>)
        requires
            old(self).at <= old(self).wanted@.len(),
        ensures
            final(self)@ == old(self)@.batch_over(old(lacks)@),
    {
        let end: usize = self.end_of_batch();
        self.missing.append(lacks);
        self.at = end;
        if end >= self.wanted.len() {
            self.probe_over();
        }
    }

    /// The answer to a probe.
    fn probe_came(&mut self, answer: Result<Answer, String>)
        requires
            old(self).at <= old(self).wanted@.len(),
        ensures
            final(self)@ == old(self)@.probe_answered(answer),
    {
        let end: usize = self.end_of_batch();
        let mut batch: Vec<BlobHash> = Vec::new();
        let mut i: usize = self.at;
        while i < end
            invariant
                self.at <= i <= end <= self.wanted@.len(),
                *self == *old(self),
                batch@ == self.wanted@.subrange(self.at as int, i as int),
            decreases end - i,
        {
            batch.push(self.wanted[i]);
            i = i + 1;
            proof {
                assert(self.wanted@.subrange(self.at as int, i as int) =~= self.wanted@.subrange(
                    self.at as int,
                    i - 1,
                ).push(self.wanted@[i - 1]));
            }
        }
        match answer {
            Err(_) => self.batch_over(&mut batch),
            Ok(answer) => {
                if answer.status == 404 || answer.status == 405 {
                    self.probe_works = false;
                    self.missing = Vec::new();
                    self.at = 0;
                    self.phase = Phase::HeadStop;
                    proof {
                        assert(self.missing@ =~= Seq::<BlobHash>::empty());
                    }
                } else if !answer.ok() {
                    self.batch_over(&mut batch);
                } else {
                    let named = hashes_in(answer.body.as_str());
                    let mut lacks = those_lacking(&batch, &named);
                    self.batch_over(&mut lacks);
                }
            },
        }
    }

    /// The answer to the question for one picture.
    fn head_came(&mut self, answer: Result<Answer, String>)
        requires
            old(self).at < old(self).wanted@.len(),
        ensures
            final(self)@ == old(self)@.head_answered(answer),
    {
        let there = match &answer {
            Ok(answer) => answer.ok(),
            Err(_) => false,
        };
        let count: usize = self.wanted.len();
        if !there {
            let hash = self.wanted[self.at];
            self.missing.push(hash);
        }
        assert(self.at < count);
        self.at = self.at + 1;
        if self.at < self.wanted.len() {
            self.phase = Phase::HeadStop;
        } else {
            self.probe_over();
        }
    }

    /// The size of a picture.
    fn blob_measured(&mut self, size: Option<u64>)
        requires
            old(self).at < old(self).missing@.len(),
            old(self)@.has_room(),
        ensures
            final(self)@ == old(self)@.measured(size),
    {
        match size {
            None => self.blob_over(),
            Some(size) => {
                if size > MAX_BLOB_BYTES {
                    self.blob_too_big();
                } else {
                    self.size = size;
                    self.phase = Phase::Reading;
                }
            },
        }
    }

    /// The answer to a picture. A picture the server finds too large is counted as that,
    /// and anything else that is not a success is waited out and tried again.
    fn put_blob(&mut self, answer: Result<Answer, String>)
        requires
            old(self).at < old(self).missing@.len(),
            old(self)@.has_room(),
        ensures
            final(self)@ == old(self)@.upload_answered(answer),
    {
        if let Ok(answer) = &answer {
            if answer.ok() {
                self.summary.blobs_sent = self.summary.blobs_sent + 1;
                self.summary.bytes = if self.size > u64::MAX - self.summary.bytes {
                    u64::MAX
                } else {
                    self.summary.bytes + self.size
                };
                self.blob_over();
                return ;
            }
            if answer.session_lost() {
                self.lose_session();
                return ;
            }
            if answer.status == 413 {
                self.blob_too_big();
                return ;
            }
        }
        if self.attempt >= RETRIES {
            self.blob_over();
        } else {
            let millis: u64 = if self.attempt == 0 {
                FIRST_WAIT
            } else {
                SECOND_WAIT
            };
            self.wait(millis, After::Upload);
        }
    }

    /// The answer to a document.
    fn push_document(&mut self, answer: Result<Answer, String>)
        requires
            old(self).index < old(self).boards@.len(),
            old(self)@.has_room(),
        ensures
            final(self)@ == old(self)@.document_answered(answer),
    {
        if let Ok(answer) = &answer {
            if answer.ok() {
                self.summary.boards_sent = self.summary.boards_sent + 1;
                self.board_over();
                return ;
            }
            if answer.session_lost() {
                self.lose_session();
                return ;
            }
        }
        if self.attempt < RETRIES {
            let millis: u64 = if self.attempt == 0 {
                FIRST_WAIT
            } else {
                SECOND_WAIT
            };
            self.wait(millis, After::Document);
            return ;
        }
        match answer {
            Ok(answer) => self.fail_board(answer.detail()),
            Err(why) => self.fail_board(why),
        }
    }

    /// A look at the stop flag during a wait.
    fn wait_polled(&mut self, stop: bool)
        requires
            old(self)@.sound(),
            old(self).phase == Phase::WaitPoll,
            old(self)@.has_room(),
        ensures
            final(self)@ == old(self)@.advanced(Event::Stop(stop)),
    {
        if stop {
            match self.after {
                After::Load => self.fail_to_open(),
                After::Upload | After::Document => self.stop_run(),
            }
        } else if self.left == 0 {
            match self.after {
                After::Load => {
                    self.attempt = 1;
                    self.phase = Phase::Loading;
                },
                After::Upload => {
                    self.attempt = self.attempt + 1;
                    self.phase = Phase::Uploading;
                },
                After::Document => {
                    self.attempt = self.attempt + 1;
                    self.phase = Phase::Sending;
                },
            }
        } else {
            self.phase = Phase::WaitSleep;
        }
    }

    /// What the outcome of the last action means.
    pub fn step(&mut self, event: Event)
        requires
            old(self)@.sound(),
            old(self)@.has_room(),
            fits(old(self)@.phase, event),
        ensures
            final(self)@ == old(self)@.advanced(event),
            final(self)@.sound(),
    {
        proof {
            a_run_stays_sound(old(self)@, event);
        }
        match event {
            Event::Listed { answer, rows } => self.rows_came(answer, rows),
            Event::Stop(stop) => match self.phase {
                Phase::BoardStop => if stop {
                    self.stop_run();
                } else {
                    self.phase = Phase::BoardEmit;
                },
                Phase::HeadStop => if stop {
                    self.stop_run();
                } else {
                    self.phase = Phase::HeadAsk;
                },
                Phase::BlobStop => if stop {
                    self.stop_run();
                } else {
                    self.phase = Phase::BlobEmit;
                },
                _ => self.wait_polled(stop),
            },
            Event::Emitted(out) => match self.phase {
                Phase::BoardEmit => {
                    self.phase = if out {
                        Phase::Looking
                    } else {
                        Phase::Done
                    };
                },
                Phase::Recording => if out {
                    self.send_blobs();
                } else {
                    self.stop_run();
                },
                Phase::BlobEmit => if out {
                    self.phase = Phase::Measuring;
                } else {
                    self.stop_run();
                },
                Phase::BlobsOver => if out {
                    self.phase = Phase::Exporting;
                } else {
                    self.stop_run();
                },
                _ => if out {
                    self.board_over();
                } else {
                    self.phase = Phase::Done;
                },
            },
            Event::Exists(there) => if there {
                self.attempt = 0;
                self.phase = Phase::Loading;
            } else {
                self.fail_to_open();
            },
            Event::Loaded(loaded) => match loaded {
                Loaded::Board(hashes) => self.board_loaded(hashes),
                Loaded::Empty => self.fail_to_open(),
                Loaded::Busy => if self.attempt == 0 {
                    self.wait(BUSY_RETRY, After::Load);
                } else {
                    self.fail_to_open();
                },
            },
            Event::Created { answer, made } => self.board_created(answer, made),
            Event::Answered(answer) => match self.phase {
                Phase::Probing => self.probe_came(answer),
                Phase::HeadAsk => self.head_came(answer),
                Phase::Uploading => self.put_blob(answer),
                _ => self.push_document(answer),
            },
            Event::Measured(size) => self.blob_measured(size),
            Event::Read(there) => if there {
                self.attempt = 0;
                self.phase = Phase::Uploading;
            } else {
                self.blob_over();
            },
            Event::Exported(error) => match error {
                Some(error) => self.fail_board(
                    joined("this board would not export: ", error.as_str()),
                ),
                None => {
                    self.attempt = 0;
                    self.phase = Phase::Sending;
                },
            },
            Event::Slept => {
                self.left = if self.left < SLEEP_SLICE {
                    0
                } else {
                    self.left - SLEEP_SLICE
                };
                self.phase = Phase::WaitPoll;
            },
        }
    }
}

// ----- laws ----------------------------------------------------------------------------

proof fn unsettled_covers(list: Seq<BlobHash>, settled: Set<BlobHash>, h: BlobHash)
    requires
        list.contains(h),
        !settled.contains(h),
    ensures
        unsettled(list, settled).contains(h),
    decreases list.len(),
{
    let i = choose|i: int| 0 <= i < list.len() && list[i] == h;
    let rest = list.drop_last();
    let kept = unsettled(rest, settled);
    let all = unsettled(list, settled);
    if i < rest.len() {
        assert(rest[i] == h);
        unsettled_covers(rest, settled, h);
        let k = choose|k: int| 0 <= k < kept.len() && kept[k] == h;
        assert(all[k] == h);
    } else {
        assert(all[all.len() - 1] == h);
    }
}

proof fn lacking_is_of_the_batch(batch: Seq<BlobHash>, named: Seq<BlobHash>, h: BlobHash)
    ensures
        lacking(batch, named).contains(h) == (batch.contains(h) && named.contains(h)),
    decreases batch.len(),
{
    if batch.len() > 0 {
        let rest = batch.drop_last();
        let kept = lacking(rest, named);
        let all = lacking(batch, named);
        lacking_is_of_the_batch(rest, named, h);
        if batch.contains(h) && named.contains(h) {
            let i = choose|i: int| 0 <= i < batch.len() && batch[i] == h;
            if i < rest.len() {
                assert(rest[i] == h);
                let k = choose|k: int| 0 <= k < kept.len() && kept[k] == h;
                assert(all[k] == h);
            } else {
                assert(all[all.len() - 1] == h);
            }
        }
        if all.contains(h) {
            let k = choose|k: int| 0 <= k < all.len() && all[k] == h;
            if k < kept.len() {
                assert(kept[k] == h);
                let i = choose|i: int| 0 <= i < rest.len() && rest[i] == h;
                assert(batch[i] == h);
            } else {
                assert(batch[batch.len() - 1] == h);
            }
        }
    }
}

proof fn unsettled_is_of_the_list(list: Seq<BlobHash>, settled: Set<BlobHash>, h: BlobHash)
    requires
        unsettled(list, settled).contains(h),
    ensures
        list.contains(h),
        !settled.contains(h),
    decreases list.len(),
{
    if list.len() > 0 {
        let rest = list.drop_last();
        let kept = unsettled(rest, settled);
        let all = unsettled(list, settled);
        let k = choose|k: int| 0 <= k < all.len() && all[k] == h;
        if k < kept.len() {
            assert(kept[k] == h);
            unsettled_is_of_the_list(rest, settled, h);
            let i = choose|i: int| 0 <= i < rest.len() && rest[i] == h;
            assert(list[i] == h);
        } else {
            assert(list[list.len() - 1] == h);
        }
    }
}

proof fn probed_is_sound(run: Run)
    requires
        run.index < run.boards.len(),
        forall|h: BlobHash| #[trigger] run.missing.contains(h) ==> run.wanted.contains(h),
        forall|h: BlobHash| #[trigger] run.wanted.contains(h) ==> run.hashes.contains(h),
        forall|h: BlobHash|
            #[trigger] run.hashes.contains(h) ==> run.settled.contains(h) || run.wanted.contains(
                h,
            ),
    ensures
        run.probed().sound(),
{
    let next = run.probed();
    assert forall|h: BlobHash| #[trigger] next.hashes.contains(h) implies next.settled.contains(h)
        || next.missing.contains(h) by {
        assert(run.hashes.contains(h));
        if run.wanted.contains(h) && !run.missing.contains(h) {
            assert(run.wanted.to_set().difference(run.missing.to_set()).contains(h));
        }
    }
    assert(next.missing.skip(0) =~= next.missing);
}

proof fn blob_over_is_sound(run: Run)
    requires
        run.index < run.boards.len(),
        run.at < run.missing.len(),
        forall|h: BlobHash| #[trigger] run.missing.contains(h) ==> run.wanted.contains(h),
        forall|h: BlobHash| #[trigger] run.wanted.contains(h) ==> run.hashes.contains(h),
        forall|h: BlobHash|
            #[trigger] run.hashes.contains(h) ==> run.settled.contains(h) || run.missing.skip(
                run.at as int,
            ).contains(h),
    ensures
        run.blob_over().sound(),
{
    let next = run.blob_over();
    let left = run.missing.skip(run.at as int);
    assert forall|h: BlobHash| #[trigger] next.hashes.contains(h) implies next.settled.contains(h)
        || next.missing.skip(next.at as int).contains(h) by {
        assert(run.hashes.contains(h));
        if !run.settled.contains(h) {
            let k = choose|k: int| 0 <= k < left.len() && left[k] == h;
            if k == 0 {
                assert(run.missing[run.at as int] == h);
            } else {
                assert(next.missing.skip(next.at as int)[k - 1] == h);
            }
        }
    }
}

proof fn recording_stays_sound(run: Run, out: bool)
    requires
        run.sound(),
        run.phase == Phase::Recording,
    ensures
        run.advanced(Event::Emitted(out)).sound(),
{
    if out {
        let next = run.sends_blobs();
        assert forall|h: BlobHash| #[trigger]
            next.hashes.contains(h) implies next.settled.contains(h) || next.wanted.contains(
            h,
        ) by {
            if !run.settled.contains(h) {
                unsettled_covers(run.hashes, run.settled, h);
            }
        }
        assert forall|h: BlobHash| #[trigger] next.wanted.contains(h) implies next.hashes.contains(
            h,
        ) by {
            unsettled_is_of_the_list(run.hashes, run.settled, h);
        }
    }
}

proof fn a_batch_stays_sound(run: Run, lacks: Seq<BlobHash>)
    requires
        run.sound(),
        run.phase == Phase::Probing,
        forall|h: BlobHash| #[trigger] lacks.contains(h) ==> run.batch().contains(h),
    ensures
        run.batch_over(lacks).sound(),
{
    let end = batch_end(run.at, run.wanted.len());
    let missing = run.missing + lacks;
    assert forall|h: BlobHash| #[trigger] missing.contains(h) implies run.wanted.contains(h) by {
        let k = choose|k: int| 0 <= k < missing.len() && missing[k] == h;
        if k < run.missing.len() {
            assert(run.missing[k] == h);
            assert(run.missing.contains(h));
        } else {
            assert(lacks[k - run.missing.len()] == h);
            assert(lacks.contains(h));
            let i = choose|i: int| 0 <= i < run.batch().len() && run.batch()[i] == h;
            assert(run.wanted[run.at + i] == h);
        }
    }
    if end >= run.wanted.len() {
        probed_is_sound(Run { missing, at: end, ..run });
    }
}

proof fn probing_stays_sound(run: Run, answer: Result<Answer, String>)
    requires
        run.sound(),
        run.phase == Phase::Probing,
    ensures
        run.probe_answered(answer).sound(),
{
    a_batch_stays_sound(run, run.batch());
    if answer is Ok {
        let named = hashes_read(answer->Ok_0.body@);
        let lacks = lacking(run.batch(), named);
        assert forall|h: BlobHash| #[trigger] lacks.contains(h) implies run.batch().contains(
            h,
        ) by {
            lacking_is_of_the_batch(run.batch(), named, h);
        }
        a_batch_stays_sound(run, lacks);
    }
}

proof fn asking_stays_sound(run: Run, answer: Result<Answer, String>)
    requires
        run.sound(),
        run.phase == Phase::HeadAsk,
    ensures
        run.head_answered(answer).sound(),
{
    let there = answer is Ok && success(answer->Ok_0.status);
    let here = Run {
        missing: if there {
            run.missing
        } else {
            run.missing.push(run.wanted[run.at as int])
        },
        at: run.at + 1,
        ..run
    };
    assert forall|h: BlobHash| #[trigger] here.missing.contains(h) implies here.wanted.contains(
        h,
    ) by {
        let k = choose|k: int| 0 <= k < here.missing.len() && here.missing[k] == h;
        if k < run.missing.len() {
            assert(run.missing[k] == h);
            assert(run.missing.contains(h));
        } else {
            assert(run.wanted[run.at as int] == h);
        }
    }
    if here.at >= here.wanted.len() {
        probed_is_sound(here);
    }
}

proof fn a_blob_stays_sound(run: Run)
    requires
        run.sound(),
        run.uploading(),
    ensures
        run.blob_over().sound(),
        run.blob_too_big().sound(),
        run.blob_sent().sound(),
{
    blob_over_is_sound(run);
    blob_over_is_sound(
        Run {
            summary: PushSummary {
                blobs_too_big: (run.summary.blobs_too_big + 1) as u32,
                ..run.summary
            },
            ..run
        },
    );
    blob_over_is_sound(
        Run {
            summary: PushSummary {
                blobs_sent: (run.summary.blobs_sent + 1) as u32,
                bytes: saturated(run.summary.bytes, run.size),
                ..run.summary
            },
            ..run
        },
    );
}

proof fn uploading_stays_sound(run: Run, answer: Result<Answer, String>)
    requires
        run.sound(),
        run.phase == Phase::Uploading,
    ensures
        run.upload_answered(answer).sound(),
{
    a_blob_stays_sound(run);
}

proof fn sending_stays_sound(run: Run, answer: Result<Answer, String>)
    requires
        run.sound(),
        run.phase == Phase::Sending,
    ensures
        run.document_answered(answer).sound(),
{
}

proof fn polling_stays_sound(run: Run, stop: bool)
    requires
        run.sound(),
        run.phase == Phase::WaitPoll,
    ensures
        run.advanced(Event::Stop(stop)).sound(),
{
}

proof fn starting_stays_sound(run: Run, event: Event)
    requires
        run.sound(),
        fits(run.phase, event),
        run.phase == Phase::Listing || run.phase == Phase::BoardStop || run.phase
            == Phase::BoardEmit || run.phase == Phase::Looking || run.phase == Phase::Loading
            || run.phase == Phase::Creating || run.phase == Phase::Reporting,
    ensures
        run.advanced(event).sound(),
{
}

proof fn passing_stays_sound(run: Run, event: Event)
    requires
        run.sound(),
        fits(run.phase, event),
        run.phase == Phase::BlobStop || run.phase == Phase::BlobEmit || run.phase
            == Phase::BlobsOver || run.phase == Phase::Exporting || run.phase
            == Phase::WaitSleep || run.phase == Phase::HeadStop,
    ensures
        run.advanced(event).sound(),
{
}

/// Whatever comes back, a run stays sound. In particular a board's document is exported and
/// sent only when every picture the board references is settled: sent, proved present, or
/// skipped because it cannot be read, does not fit or did not go in three tries. No request
/// is tried more often than that, and Stop settles nothing.
pub proof fn a_run_stays_sound(run: Run, event: Event)
    requires
        run.sound(),
        fits(run.phase, event),
    ensures
        run.advanced(event).sound(),
{
    match run.phase {
        Phase::Recording => recording_stays_sound(run, event->Emitted_0),
        Phase::Probing => probing_stays_sound(run, event->Answered_0),
        Phase::HeadAsk => asking_stays_sound(run, event->Answered_0),
        Phase::Measuring => a_blob_stays_sound(run),
        Phase::Reading => a_blob_stays_sound(run),
        Phase::Uploading => uploading_stays_sound(run, event->Answered_0),
        Phase::Sending => sending_stays_sound(run, event->Answered_0),
        Phase::WaitPoll => polling_stays_sound(run, event->Stop_0),
        Phase::Listing | Phase::BoardStop | Phase::BoardEmit | Phase::Looking | Phase::Loading
        | Phase::Creating | Phase::Reporting => starting_stays_sound(run, event),
        _ => passing_stays_sound(run, event),
    }
}

/// A board's document is never sent before its pictures: when it is exported or sent, every
/// picture the board references is settled.
pub proof fn pictures_go_before_the_document(run: Run, h: BlobHash)
    requires
        run.sound(),
        run.has_store,
        run.phase == Phase::Exporting || run.phase == Phase::Sending,
        run.hashes.contains(h),
    ensures
        run.settled.contains(h),
{
}

/// Creating a board is never retried: the request goes out only after the board was loaded,
/// and whatever comes back, it does not go out again for that board.
pub proof fn a_create_is_never_retried(run: Run, event: Event)
    requires
        run.sound(),
        fits(run.phase, event),
        run.advanced(event).phase == Phase::Creating,
    ensures
        run.phase == Phase::Loading,
        event is Loaded,
{
}

/// What is settled stays settled for the whole run, so a picture on twenty boards is one
/// upload.
pub proof fn what_is_settled_stays_settled(run: Run, event: Event, h: BlobHash)
    requires
        run.sound(),
        fits(run.phase, event),
        run.settled.contains(h),
    ensures
        run.advanced(event).settled.contains(h),
{
}

/// How far a run is from its end: the boards that are left, how far the one being sent is
/// from being sent, the pictures that are left of its stage, how far the one being handled
/// is from being done with, and how long is left to wait.
pub open spec fn distance(run: Run) -> (nat, nat, nat, nat, nat) {
    let boards = (run.boards.len() - run.index) as nat;
    let tries = 2 * (RETRIES - run.attempt) as nat;
    let left = 2 * run.left as nat;
    let in_wait = if run.phase == Phase::WaitSleep {
        left
    } else {
        left + 1
    };
    match run.phase {
        Phase::Listing => (run.boards.len() + 1, 0, 0, 0, 0),
        Phase::BoardStop => (boards, 12, 0, 0, 0),
        Phase::BoardEmit => (boards, 11, 0, 0, 0),
        Phase::Looking => (boards, 10, 0, 0, 0),
        Phase::Loading => (boards, 9, 0, (2 - 2 * run.attempt) as nat, 0),
        Phase::Creating => (boards, 8, 0, 0, 0),
        Phase::Recording => (boards, 7, 0, 0, 0),
        Phase::Probing => (boards, 6, (run.wanted.len() - run.at) as nat, 0, 0),
        Phase::HeadStop => (boards, 5, (run.wanted.len() - run.at) as nat, 1, 0),
        Phase::HeadAsk => (boards, 5, (run.wanted.len() - run.at) as nat, 0, 0),
        Phase::BlobStop => (boards, 4, (run.missing.len() - run.at) as nat, 9, 0),
        Phase::BlobEmit => (boards, 4, (run.missing.len() - run.at) as nat, 8, 0),
        Phase::Measuring => (boards, 4, (run.missing.len() - run.at) as nat, 7, 0),
        Phase::Reading => (boards, 4, (run.missing.len() - run.at) as nat, 6, 0),
        Phase::Uploading => (boards, 4, (run.missing.len() - run.at) as nat, tries + 1, 0),
        Phase::BlobsOver => (boards, 3, 0, 0, 0),
        Phase::Exporting => (boards, 2, 0, 0, 0),
        Phase::Sending => (boards, 1, 0, tries + 1, 0),
        Phase::WaitPoll | Phase::WaitSleep => match run.after {
            After::Load => (boards, 9, 0, 1, in_wait),
            After::Upload => (
                boards,
                4,
                (run.missing.len() - run.at) as nat,
                tries,
                in_wait,
            ),
            After::Document => (boards, 1, 0, tries, in_wait),
        },
        Phase::Reporting => (boards, 0, 0, 0, 0),
        Phase::Done => (0, 0, 0, 0, 0),
    }
}

/// Whether one distance is smaller than another: the first number in which they differ
/// decides.
pub open spec fn smaller(
    a: (nat, nat, nat, nat, nat),
    b: (nat, nat, nat, nat, nat),
) -> bool {
    ||| a.0 < b.0
    ||| a.0 == b.0 && a.1 < b.1
    ||| a.0 == b.0 && a.1 == b.1 && a.2 < b.2
    ||| a.0 == b.0 && a.1 == b.1 && a.2 == b.2 && a.3 < b.3
    ||| a.0 == b.0 && a.1 == b.1 && a.2 == b.2 && a.3 == b.3 && a.4 < b.4
}

proof fn beginning_comes_nearer(run: Run, event: Event)
    requires
        run.sound(),
        fits(run.phase, event),
        run.phase == Phase::Listing || run.phase == Phase::BoardStop || run.phase
            == Phase::BoardEmit || run.phase == Phase::Looking || run.phase == Phase::Reporting,
    ensures
        smaller(distance(run.advanced(event)), distance(run)),
{
}

proof fn loading_comes_nearer(run: Run, event: Event)
    requires
        run.sound(),
        fits(run.phase, event),
        run.phase == Phase::Loading || run.phase == Phase::Creating || run.phase
            == Phase::Recording,
    ensures
        smaller(distance(run.advanced(event)), distance(run)),
{
}

proof fn probed_comes_nearer(run: Run)
    requires
        run.index < run.boards.len(),
    ensures
        distance(run.probed()).0 == run.boards.len() - run.index,
        distance(run.probed()).1 <= 4,
{
}

proof fn a_batch_comes_nearer(run: Run, lacks: Seq<BlobHash>)
    requires
        run.sound(),
        run.phase == Phase::Probing,
    ensures
        smaller(distance(run.batch_over(lacks)), distance(run)),
{
    let end = batch_end(run.at, run.wanted.len());
    probed_comes_nearer(Run { missing: run.missing + lacks, at: end, ..run });
}

proof fn probing_comes_nearer(run: Run, answer: Result<Answer, String>)
    requires
        run.sound(),
        run.phase == Phase::Probing,
    ensures
        smaller(distance(run.probe_answered(answer)), distance(run)),
{
    a_batch_comes_nearer(run, run.batch());
    if answer is Ok {
        a_batch_comes_nearer(run, lacking(run.batch(), hashes_read(answer->Ok_0.body@)));
    }
}

proof fn asking_comes_nearer(run: Run, event: Event)
    requires
        run.sound(),
        fits(run.phase, event),
        run.phase == Phase::HeadStop || run.phase == Phase::HeadAsk,
    ensures
        smaller(distance(run.advanced(event)), distance(run)),
{
    if run.phase == Phase::HeadAsk {
        let answer = event->Answered_0;
        let there = answer is Ok && success(answer->Ok_0.status);
        let missing = if there {
            run.missing
        } else {
            run.missing.push(run.wanted[run.at as int])
        };
        probed_comes_nearer(Run { missing, at: run.at + 1, ..run });
    }
}

proof fn a_blob_comes_nearer(run: Run)
    requires
        run.sound(),
        run.uploading(),
    ensures
        smaller(distance(run.blob_over()), distance(run)),
        smaller(distance(run.blob_too_big()), distance(run)),
        smaller(distance(run.blob_sent()), distance(run)),
{
}

proof fn uploading_comes_nearer(run: Run, event: Event)
    requires
        run.sound(),
        fits(run.phase, event),
        run.phase == Phase::BlobStop || run.phase == Phase::BlobEmit || run.phase
            == Phase::Measuring || run.phase == Phase::Reading || run.phase == Phase::Uploading,
    ensures
        smaller(distance(run.advanced(event)), distance(run)),
{
    a_blob_comes_nearer(run);
}

proof fn sending_comes_nearer(run: Run, event: Event)
    requires
        run.sound(),
        fits(run.phase, event),
        run.phase == Phase::BlobsOver || run.phase == Phase::Exporting || run.phase
            == Phase::Sending,
    ensures
        smaller(distance(run.advanced(event)), distance(run)),
{
}

proof fn waiting_comes_nearer(run: Run, event: Event)
    requires
        run.sound(),
        fits(run.phase, event),
        run.waiting(),
    ensures
        smaller(distance(run.advanced(event)), distance(run)),
{
}

/// Whatever comes back, it brings the end of the run nearer: no state of a run ever
/// comes again.
pub proof fn every_step_brings_the_end_nearer(run: Run, event: Event)
    requires
        run.sound(),
        fits(run.phase, event),
    ensures
        smaller(distance(run.advanced(event)), distance(run)),
{
    match run.phase {
        Phase::Loading | Phase::Creating | Phase::Recording => loading_comes_nearer(run, event),
        Phase::Probing => probing_comes_nearer(run, event->Answered_0),
        Phase::HeadStop | Phase::HeadAsk => asking_comes_nearer(run, event),
        Phase::BlobStop | Phase::BlobEmit | Phase::Measuring | Phase::Reading
        | Phase::Uploading => uploading_comes_nearer(run, event),
        Phase::BlobsOver | Phase::Exporting | Phase::Sending => sending_comes_nearer(run, event),
        Phase::WaitPoll | Phase::WaitSleep => waiting_comes_nearer(run, event),
        _ => beginning_comes_nearer(run, event),
    }
}

/// A run after `count` outcomes, each the reply to where it then was.
pub open spec fn after_replies(run: Run, reply: spec_fn(Run) -> Event, count: nat) -> Run
    decreases count,
{
    if count == 0 {
        run
    } else {
        after_replies(run.advanced(reply(run)), reply, (count - 1) as nat)
    }
}

/// Every run ends: whatever the server, the disk and the person reply, after so many
/// replies it is over.
pub proof fn every_run_ends(run: Run, reply: spec_fn(Run) -> Event)
    requires
        run.sound(),
        forall|r: Run| #[trigger] r.phase != Phase::Done ==> fits(r.phase, reply(r)),
    ensures
        exists|count: nat| (#[trigger] after_replies(run, reply, count)).phase == Phase::Done,
    decreases
            distance(run).0,
            distance(run).1,
            distance(run).2,
            distance(run).3,
            distance(run).4,
{
    if run.phase == Phase::Done {
        assert(after_replies(run, reply, 0).phase == Phase::Done);
    } else {
        let next = run.advanced(reply(run));
        a_run_stays_sound(run, reply(run));
        every_step_brings_the_end_nearer(run, reply(run));
        every_run_ends(next, reply);
        let count = choose|count: nat|
            (#[trigger] after_replies(next, reply, count)).phase == Phase::Done;
        assert(after_replies(run, reply, count + 1) == after_replies(next, reply, count));
    }
}

/// A settled picture is not wanted again: nothing that is asked for was settled before.
pub proof fn a_settled_picture_is_not_asked_for(hashes: Seq<BlobHash>, settled: Set<BlobHash>, k: int)
    requires
        0 <= k < unsettled(hashes, settled).len(),
    ensures
        !settled.contains(unsettled(hashes, settled)[k]),
    decreases hashes.len(),
{
    if hashes.len() > 0 {
        let kept = unsettled(hashes.drop_last(), settled);
        if k < kept.len() {
            a_settled_picture_is_not_asked_for(hashes.drop_last(), settled, k);
        }
    }
}

/// A run after the outcomes in `events`, one after another.
pub open spec fn after_events(run: Run, events: Seq<Event>) -> Run
    decreases events.len(),
{
    if events.len() == 0 {
        run
    } else {
        after_events(run, events.drop_last()).advanced(events.last())
    }
}

/// Whether each of `events` is one that the run then waits for.
pub open spec fn fit_in_turn(run: Run, events: Seq<Event>) -> bool
    decreases events.len(),
{
    events.len() > 0 ==> fit_in_turn(run, events.drop_last()) && fits(
        after_events(run, events.drop_last()).phase,
        events.last(),
    )
}

proof fn settled_to_the_end(run: Run, events: Seq<Event>, h: BlobHash)
    requires
        run.sound(),
        fit_in_turn(run, events),
    ensures
        after_events(run, events).sound(),
        run.settled.contains(h) ==> after_events(run, events).settled.contains(h),
    decreases events.len(),
{
    if events.len() > 0 {
        let before = after_events(run, events.drop_last());
        settled_to_the_end(run, events.drop_last(), h);
        a_run_stays_sound(before, events.last());
        if before.settled.contains(h) {
            what_is_settled_stays_settled(before, events.last(), h);
        }
    }
}

/// A board whose pictures are all settled goes straight on to its document: no request and
/// no event comes first, and nothing else of the run changes.
pub proof fn a_settled_board_asks_for_nothing(run: Run)
    requires
        run.all_settled(),
    ensures
        run.sends_blobs() == (Run {
            wanted: Seq::empty(),
            missing: Seq::empty(),
            at: 0,
            phase: Phase::Exporting,
            ..run
        }),
{
    let wanted = unsettled(run.hashes, run.settled);
    if wanted.len() > 0 {
        assert(wanted.contains(wanted[0]));
        unsettled_is_of_the_list(run.hashes, run.settled, wanted[0]);
    }
    assert(wanted =~= Seq::<BlobHash>::empty());
}

/// A board sent again in the same run makes no request for its pictures and reports nothing
/// of them: once they are done, however the run goes on, the same pictures are all settled
/// when they come again.
pub proof fn a_board_sent_again_asks_for_nothing(run: Run, events: Seq<Event>)
    requires
        run.sound(),
        run.has_store,
        run.sending(),
        fit_in_turn(run, events),
        after_events(run, events).phase == Phase::Recording,
        after_events(run, events).hashes == run.hashes,
    ensures
        after_events(run, events).all_settled(),
        after_events(run, events).advanced(Event::Emitted(true)) == (Run {
            wanted: Seq::empty(),
            missing: Seq::empty(),
            at: 0,
            phase: Phase::Exporting,
            ..after_events(run, events)
        }),
{
    let later = after_events(run, events);
    assert forall|h: BlobHash| #[trigger] later.hashes.contains(h) implies later.settled.contains(
        h,
    ) by {
        settled_to_the_end(run, events, h);
    }
    a_settled_board_asks_for_nothing(later);
}

/// One picture on twenty boards is one upload: once a board's pictures are done, however the
/// run goes on, none of them is asked for or sent for any later board; and where a later
/// board has no other pictures, as when the same board comes again, the run goes straight on
/// to its document.
pub proof fn a_picture_goes_up_once(run: Run, events: Seq<Event>)
    requires
        run.sound(),
        run.has_store,
        run.sending(),
        fit_in_turn(run, events),
        after_events(run, events).phase == Phase::Recording,
    ensures
        ({
            let later = after_events(run, events);
            let next = later.advanced(Event::Emitted(true));
            &&& forall|h: BlobHash| #[trigger]
                run.hashes.contains(h) ==> !next.wanted.contains(h) && !next.missing.contains(h)
            &&& (forall|h: BlobHash| #[trigger]
                later.hashes.contains(h) ==> run.hashes.contains(h)) ==> next.phase
                == Phase::Exporting && next.wanted.len() == 0 && next.missing.len() == 0
                && next.settled == later.settled
        }),
{
    let later = after_events(run, events);
    let next = later.advanced(Event::Emitted(true));
    assert forall|h: BlobHash| #[trigger] run.hashes.contains(h) implies !next.wanted.contains(h)
        && !next.missing.contains(h) by {
        settled_to_the_end(run, events, h);
        if next.wanted.contains(h) {
            unsettled_is_of_the_list(later.hashes, later.settled, h);
        }
    }
    if forall|h: BlobHash| #[trigger] later.hashes.contains(h) ==> run.hashes.contains(h) {
        if next.wanted.len() > 0 {
            let h = next.wanted[0];
            assert(next.wanted.contains(h));
            unsettled_is_of_the_list(later.hashes, later.settled, h);
            assert(run.hashes.contains(h));
        }
    }
}

/// Only a board's own pictures are sent for it: whatever hashes a server names, what is
/// asked for and what is sent is referenced by the board.
pub proof fn only_the_boards_own_pictures_go_up(run: Run, k: int)
    requires
        run.sound(),
    ensures
        run.asking() && 0 <= k < run.wanted.len() ==> run.hashes.contains(run.wanted[k]),
        run.uploading() && 0 <= k < run.missing.len() ==> run.wanted.contains(run.missing[k])
            && run.hashes.contains(run.missing[k]),
{
    if 0 <= k < run.wanted.len() {
        assert(run.wanted.contains(run.wanted[k]));
    }
    if 0 <= k < run.missing.len() {
        assert(run.missing.contains(run.missing[k]));
    }
}

/// What a probe settles was asked about: of a batch that was answered for, exactly those the
/// answer names count as missing.
pub proof fn an_answered_batch_lacks_what_is_named(run: Run, answer: Answer, h: BlobHash)
    requires
        run.sound(),
        run.phase == Phase::Probing,
        success(answer.status),
    ensures
        ({
            let lacks = lacking(run.batch(), hashes_read(answer.body@));
            &&& run.advanced(Event::Answered(Ok(answer))) == run.batch_over(lacks)
            &&& lacks.contains(h) <==> run.batch().contains(h) && hashes_read(
                answer.body@,
            ).contains(h)
        }),
{
    lacking_is_of_the_batch(run.batch(), hashes_read(answer.body@), h);
}

/// A lost session ends the run at once, and so does Stop: when the summary says either, the
/// run is over.
pub proof fn a_lost_session_or_a_stop_ends_the_run(run: Run, event: Event)
    requires
        run.sound(),
        fits(run.phase, event),
        !run.summary.session_lost,
        !run.summary.stopped,
        run.advanced(event).summary.session_lost || run.advanced(event).summary.stopped,
    ensures
        run.advanced(event).phase == Phase::Done,
{
}

/// Stop settles no picture, and ends the run wherever it is looked for, with one exception: a
/// board that was to be opened once more is counted and reported as one that would not open,
/// and Stop is looked for again before the next.
pub proof fn a_stop_ends_the_run_and_settles_nothing(run: Run)
    requires
        run.sound(),
        fits(run.phase, Event::Stop(true)),
    ensures
        ({
            let next = run.advanced(Event::Stop(true));
            &&& next.settled == run.settled
            &&& !(run.waiting() && run.after == After::Load) ==> next == (Run {
                phase: Phase::Done,
                summary: PushSummary { stopped: true, ..run.summary },
                ..run
            })
            &&& run.waiting() && run.after == After::Load ==> next == run.would_not_open()
                && next.phase == Phase::Reporting
        }),
{
}

/// Every board is counted once, as sent or as failed, and only when it is over: the two
/// counts together never run ahead of the boards.
#[verifier::spinoff_prover]
#[verifier::rlimit(60)]
pub proof fn every_board_is_counted_once(run: Run, event: Event)
    requires
        run.sound(),
        run.has_room(),
        fits(run.phase, event),
    ensures
        ({
            let next = run.advanced(event);
            let was = run.summary.boards_sent + run.summary.boards_failed;
            let now = next.summary.boards_sent + next.summary.boards_failed;
            &&& was <= now <= was + 1
            &&& now == was + 1 <==> (next.phase == Phase::Reporting || (run.phase
                == Phase::Sending && next.index == run.index + 1))
        }),
{
}

/// A board that is on the list is never created, and what is recorded is the id it has
/// there.
pub proof fn a_listed_board_is_adopted(run: Run, hashes: Vec<BlobHash>)
    requires
        run.sound(),
        run.phase == Phase::Loading,
    ensures
        ({
            let board = run.boards[run.index as int];
            let claim = claimed(
                known_id(board),
                stem_or_nothing(board.path@),
                board.title@,
                run.rows,
            );
            let next = run.advanced(Event::Loaded(Loaded::Board(hashes)));
            &&& claim is Some ==> next.phase == Phase::Recording && next.id == claim->0
            &&& claim is None ==> next.phase == Phase::Creating
        }),
{
}

// ----- what each reply does -------------------------------------------------------------

/// A board that was given an id by an earlier run is that board again, as long as the server
/// lists the id: it is not created a second time.
pub proof fn a_recorded_board_is_used_again(
    run: Run,
    hashes: Vec<BlobHash>,
    id: String,
    k: int,
)
    requires
        run.phase == Phase::Loading,
        run.index < run.boards.len(),
        run.boards[run.index as int].known_id == Some(id),
        0 <= k < run.rows.len(),
        run.rows[k].id@ == id@,
    ensures
        run.advanced(Event::Loaded(Loaded::Board(hashes))).phase == Phase::Recording,
        run.advanced(Event::Loaded(Loaded::Board(hashes))).id == id@,
        run.advanced(Event::Loaded(Loaded::Board(hashes))).hashes == hashes@,
{
}

/// A board with no recorded id is the row that its file is named after, where that row bears
/// the board's title; and where the server lists no row of that name it is created.
pub proof fn an_unrecorded_board_goes_by_its_file(
    run: Run,
    hashes: Vec<BlobHash>,
    dir: Seq<char>,
    name: Seq<char>,
)
    requires
        run.phase == Phase::Loading,
        run.index < run.boards.len(),
        run.boards[run.index as int].known_id is None,
        run.boards[run.index as int].path@ == dir + seq!['/'] + name + ".vellum"@,
        name.len() > 0,
        forall|i: int| 0 <= i < name.len() ==> name[i] != '/' && name[i] != '.',
        !('0' <= name.last() <= '9'),
        name != "board"@,
        name != "untitled"@,
    ensures
        ({
            let next = run.advanced(Event::Loaded(Loaded::Board(hashes)));
            let title = cleaned(run.boards[run.index as int].title@);
            &&& (exists|k: int|
                0 <= k < run.rows.len() && (#[trigger] run.rows[k]).id@ == name
                    && run.rows[k].title@ == title) ==> next.phase == Phase::Recording && next.id
                == name
            &&& (forall|k: int|
                0 <= k < run.rows.len() ==> (#[trigger] run.rows[k]).id@ != name
                    || run.rows[k].title@ != title) ==> next.phase == Phase::Creating
        }),
{
    let board = run.boards[run.index as int];
    a_board_file_is_named_by_its_stem(dir, name);
    if exists|k: int|
        0 <= k < run.rows.len() && (#[trigger] run.rows[k]).id@ == name && run.rows[k].title@
            == cleaned(board.title@) {
        let k = choose|k: int|
            0 <= k < run.rows.len() && (#[trigger] run.rows[k]).id@ == name && run.rows[k].title@
                == cleaned(board.title@);
        an_unnumbered_file_is_taken_by_its_title(name, board.title@, run.rows, k);
    }
}

/// What the list of boards does: a 401 or 403 is a lost session, any other failure an
/// unreachable server, and with the rows of a 2xx the boards are begun from the first.
pub proof fn a_list_begins_the_run_or_ends_it(
    run: Run,
    status: u16,
    body: String,
    rows: Option<Vec<Row>>,
    why: String,
)
    requires
        run.phase == Phase::Listing,
    ensures
        ({
            let answer = Answer { status, body };
            let next = run.advanced(Event::Listed { answer: Ok(answer), rows });
            let deaf = run.advanced(Event::Listed { answer: Err(why), rows });
            &&& status == 401 || status == 403 ==> next.phase == Phase::Done && next.summary
                == (PushSummary { session_lost: true, ..run.summary })
            &&& 200 <= status <= 299 && rows is Some && run.boards.len() > 0 ==> next.phase
                == Phase::BoardStop && next.index == 0 && next.rows == rows->0@ && next.summary
                == run.summary
            &&& 200 <= status <= 299 && rows is Some && run.boards.len() == 0 ==> next.phase
                == Phase::Done && next.summary == run.summary
            &&& (status < 200 || status > 299 || rows is None) && status != 401 && status != 403
                ==> next.phase == Phase::Done && next.summary == (PushSummary {
                unreachable: true,
                ..run.summary
            })
            &&& deaf.phase == Phase::Done && deaf.summary == (PushSummary {
                unreachable: true,
                ..run.summary
            })
        }),
{
}

/// What the answer to a creation does: the id that came back is recorded; a lost session ends
/// the run; anything else fails the board, and says why.
pub proof fn a_created_board_bears_the_id_that_came(
    run: Run,
    status: u16,
    body: String,
    id: String,
    why: String,
)
    requires
        run.phase == Phase::Creating,
        run.has_room(),
    ensures
        ({
            let answer = Answer { status, body };
            let made = run.advanced(Event::Created { answer: Ok(answer), made: Ok(id) });
            let unread = run.advanced(Event::Created { answer: Ok(answer), made: Err(why) });
            let deaf = run.advanced(Event::Created { answer: Err(why), made: Ok(id) });
            let failed = PushSummary {
                boards_failed: (run.summary.boards_failed + 1) as u32,
                ..run.summary
            };
            &&& 200 <= status <= 299 && id@.len() > 0 ==> made.phase == Phase::Recording && made.id
                == id@ && made.summary == run.summary
            &&& 200 <= status <= 299 && id@.len() == 0 ==> made.phase == Phase::Reporting
                && made.summary == failed
            &&& 200 <= status <= 299 ==> unread.phase == Phase::Reporting && unread.why
                == "the create answer did not parse: "@ + why@
            &&& status == 401 || status == 403 ==> made.phase == Phase::Done && made.summary
                == (PushSummary { session_lost: true, ..run.summary })
            &&& (status < 200 || status > 299) && status != 401 && status != 403 ==> made.phase
                == Phase::Reporting && made.summary == failed && made.why == detail_of(
                status,
                body@,
            )
            &&& deaf.phase == Phase::Reporting && deaf.why == why@ && deaf.summary == failed
        }),
{
}

/// What the answer to a picture does, try by try: a 2xx is one picture and its bytes more, a
/// 401 or 403 a lost session, a 413 one too big more; anything else is waited out, two
/// seconds and then four, and after the third try the picture is left out.
pub proof fn a_picture_is_tried_three_times(run: Run, answer: Result<Answer, String>)
    requires
        run.sound(),
        run.has_room(),
        run.phase == Phase::Uploading,
    ensures
        ({
            let next = run.advanced(Event::Answered(answer));
            let status = if answer is Ok {
                answer->Ok_0.status as int
            } else {
                0
            };
            let went = 200 <= status <= 299;
            let lost = status == 401 || status == 403;
            let done = went || status == 413 || (!lost && run.attempt == 2);
            &&& went ==> next.summary == (PushSummary {
                blobs_sent: (run.summary.blobs_sent + 1) as u32,
                bytes: next.summary.bytes,
                ..run.summary
            })
            &&& went && run.summary.bytes + run.size <= u64::MAX ==> next.summary.bytes
                == run.summary.bytes + run.size
            &&& status == 413 ==> next.summary == (PushSummary {
                blobs_too_big: (run.summary.blobs_too_big + 1) as u32,
                ..run.summary
            })
            &&& lost ==> next.phase == Phase::Done && next.summary == (PushSummary {
                session_lost: true,
                ..run.summary
            })
            &&& done ==> next.settled == run.settled.insert(run.missing[run.at as int])
                && next.at == run.at + 1
            &&& done && run.at + 1 < run.missing.len() ==> next.phase == Phase::BlobStop
            &&& done && run.at + 1 == run.missing.len() ==> next.phase == Phase::BlobsOver
            &&& !done && !lost ==> {
                &&& next.phase == Phase::WaitPoll
                &&& next.after == After::Upload
                &&& next.left == (if run.attempt == 0 {
                    2000
                } else {
                    4000int
                })
                &&& next.summary == run.summary
                &&& next.settled == run.settled
                &&& next.at == run.at
            }
        }),
{
}

/// What the answer to a document does, try by try: a 2xx is one board more, a 401 or 403 a
/// lost session; anything else is waited out, two seconds and then four, and after the third
/// try the board has failed.
pub proof fn a_document_is_tried_three_times(run: Run, answer: Result<Answer, String>)
    requires
        run.sound(),
        run.has_room(),
        run.phase == Phase::Sending,
    ensures
        ({
            let next = run.advanced(Event::Answered(answer));
            let status = if answer is Ok {
                answer->Ok_0.status as int
            } else {
                0
            };
            let went = 200 <= status <= 299;
            let lost = status == 401 || status == 403;
            &&& went ==> next.index == run.index + 1 && next.summary == (PushSummary {
                boards_sent: (run.summary.boards_sent + 1) as u32,
                ..run.summary
            })
            &&& went && run.index + 1 < run.boards.len() ==> next.phase == Phase::BoardStop
            &&& went && run.index + 1 == run.boards.len() ==> next.phase == Phase::Done
            &&& lost ==> next.phase == Phase::Done && next.summary == (PushSummary {
                session_lost: true,
                ..run.summary
            })
            &&& !went && !lost && run.attempt < 2 ==> {
                &&& next.phase == Phase::WaitPoll
                &&& next.after == After::Document
                &&& next.left == (if run.attempt == 0 {
                    2000
                } else {
                    4000int
                })
                &&& next.summary == run.summary
            }
            &&& !went && !lost && run.attempt == 2 ==> {
                &&& next.phase == Phase::Reporting
                &&& next.summary == (PushSummary {
                    boards_failed: (run.summary.boards_failed + 1) as u32,
                    ..run.summary
                })
                &&& answer matches Err(why) ==> next.why == why@
                &&& answer matches Ok(answer) ==> next.why == detail_of(
                    answer.status,
                    answer.body@,
                )
            }
        }),
{
}

/// A wait runs its length: it is slept through a tenth of a second at a time, Stop is looked
/// for before each, and after it the same request is tried once more.
pub proof fn a_wait_runs_its_length(run: Run)
    requires
        run.sound(),
    ensures
        run.phase == Phase::WaitPoll && run.left > 0 ==> run.advanced(Event::Stop(false)) == (Run {
            phase: Phase::WaitSleep,
            ..run
        }),
        run.phase == Phase::WaitSleep ==> run.advanced(Event::Slept) == (Run {
            phase: Phase::WaitPoll,
            left: if run.left > 100 {
                (run.left - 100) as u64
            } else {
                0
            },
            ..run
        }),
        run.phase == Phase::WaitPoll && run.left == 0 ==> run.advanced(Event::Stop(false)) == (Run {
            attempt: run.attempt + 1,
            phase: match run.after {
                After::Load => Phase::Loading,
                After::Upload => Phase::Uploading,
                After::Document => Phase::Sending,
            },
            ..run
        }),
{
}

/// How a board is opened: one that is not there, that holds nothing or that is busy twice has
/// failed; one that is busy once is tried again after a quarter of a second.
pub proof fn a_busy_board_is_tried_twice(run: Run)
    requires
        run.sound(),
        run.has_room(),
    ensures
        ({
            let failed = Run {
                phase: Phase::Reporting,
                why: "this board would not open"@,
                summary: PushSummary {
                    boards_failed: (run.summary.boards_failed + 1) as u32,
                    ..run.summary
                },
                ..run
            };
            &&& run.phase == Phase::Looking ==> run.advanced(Event::Exists(false)) == failed
            &&& run.phase == Phase::Looking ==> run.advanced(Event::Exists(true)) == (Run {
                phase: Phase::Loading,
                attempt: 0,
                ..run
            })
            &&& run.phase == Phase::Loading ==> run.advanced(Event::Loaded(Loaded::Empty))
                == failed
            &&& run.phase == Phase::Loading && run.attempt == 1 ==> run.advanced(
                Event::Loaded(Loaded::Busy),
            ) == failed
            &&& run.phase == Phase::Loading && run.attempt == 0 ==> run.advanced(
                Event::Loaded(Loaded::Busy),
            ) == (Run { phase: Phase::WaitPoll, after: After::Load, left: 250, ..run })
        }),
{
}

/// What is skipped without a request: a picture that cannot be measured or read, and, counted
/// as too big, one of more than sixty-four megabytes.
pub proof fn a_picture_that_cannot_go_is_skipped(run: Run, size: u64)
    requires
        run.sound(),
        run.has_room(),
    ensures
        ({
            let over = Run {
                settled: run.settled.insert(run.missing[run.at as int]),
                at: run.at + 1,
                phase: if run.at + 1 < run.missing.len() {
                    Phase::BlobStop
                } else {
                    Phase::BlobsOver
                },
                ..run
            };
            let too_big = PushSummary {
                blobs_too_big: (run.summary.blobs_too_big + 1) as u32,
                ..run.summary
            };
            &&& run.phase == Phase::Measuring ==> run.advanced(Event::Measured(None)) == over
            &&& run.phase == Phase::Measuring && size > 64 * 1024 * 1024 ==> run.advanced(
                Event::Measured(Some(size)),
            ) == (Run { summary: too_big, ..over })
            &&& run.phase == Phase::Measuring && size <= 64 * 1024 * 1024 ==> run.advanced(
                Event::Measured(Some(size)),
            ) == (Run { size, phase: Phase::Reading, ..run })
            &&& run.phase == Phase::Reading ==> run.advanced(Event::Read(false)) == over
            &&& run.phase == Phase::Reading ==> run.advanced(Event::Read(true)) == (Run {
                attempt: 0,
                phase: Phase::Uploading,
                ..run
            })
        }),
{
}

/// What a listener that has gone does: the run ends where it is, as stopped once a board was
/// begun, and with nothing said of it before.
pub proof fn a_run_goes_on_while_it_is_listened_to(run: Run)
    requires
        run.sound(),
    ensures
        ({
            let stopped = Run {
                phase: Phase::Done,
                summary: PushSummary { stopped: true, ..run.summary },
                ..run
            };
            let silent = Run { phase: Phase::Done, ..run };
            &&& run.phase == Phase::BoardStop ==> run.advanced(Event::Stop(false)) == (Run {
                phase: Phase::BoardEmit,
                ..run
            })
            &&& run.phase == Phase::BoardEmit ==> run.advanced(Event::Emitted(false)) == silent
                && run.advanced(Event::Emitted(true)) == (Run { phase: Phase::Looking, ..run })
            &&& run.phase == Phase::Recording ==> run.advanced(Event::Emitted(false)) == stopped
            &&& run.phase == Phase::BlobStop ==> run.advanced(Event::Stop(false)) == (Run {
                phase: Phase::BlobEmit,
                ..run
            })
            &&& run.phase == Phase::BlobEmit ==> run.advanced(Event::Emitted(false)) == stopped
                && run.advanced(Event::Emitted(true)) == (Run { phase: Phase::Measuring, ..run })
            &&& run.phase == Phase::BlobsOver ==> run.advanced(Event::Emitted(false)) == stopped
                && run.advanced(Event::Emitted(true)) == (Run { phase: Phase::Exporting, ..run })
            &&& run.phase == Phase::Reporting ==> run.advanced(Event::Emitted(false)) == silent
            &&& run.phase == Phase::Reporting && run.index + 1 < run.boards.len() ==> run.advanced(
                Event::Emitted(true),
            ) == (Run { index: run.index + 1, phase: Phase::BoardStop, ..run })
            &&& run.phase == Phase::Reporting && run.index + 1 == run.boards.len()
                ==> run.advanced(Event::Emitted(true)) == (Run {
                index: run.index + 1,
                phase: Phase::Done,
                ..run
            })
        }),
{
}

/// What the export of a document does: it is sent, or the board has failed and says why.
pub proof fn an_exported_document_is_sent(run: Run, error: String)
    requires
        run.sound(),
        run.has_room(),
        run.phase == Phase::Exporting,
    ensures
        run.advanced(Event::Exported(None)) == (Run { attempt: 0, phase: Phase::Sending, ..run }),
        run.advanced(Event::Exported(Some(error))) == (Run {
            phase: Phase::Reporting,
            why: "this board would not export: "@ + error@,
            summary: PushSummary {
                boards_failed: (run.summary.boards_failed + 1) as u32,
                ..run.summary
            },
            ..run
        }),
{
}

proof fn unsettled_is_a_filter(list: Seq<BlobHash>, settled: Set<BlobHash>)
    ensures
        unsettled(list, settled) == list.filter(|h: BlobHash| !settled.contains(h)),
    decreases list.len(),
{
    reveal(Seq::filter);
    if list.len() > 0 {
        unsettled_is_a_filter(list.drop_last(), settled);
    }
}

proof fn lacking_is_a_filter(batch: Seq<BlobHash>, named: Seq<BlobHash>)
    ensures
        lacking(batch, named) == batch.filter(|h: BlobHash| named.contains(h)),
    decreases batch.len(),
{
    reveal(Seq::filter);
    if batch.len() > 0 {
        lacking_is_a_filter(batch.drop_last(), named);
    }
}

/// Which pictures are asked about: those of the board that are not settled, in order, if
/// there is a store to read them from; in one request for many where the server can be asked
/// so, and one by one where it cannot.
pub proof fn the_unsettled_pictures_are_asked_about(run: Run)
    requires
        run.phase == Phase::Recording,
    ensures
        ({
            let next = run.advanced(Event::Emitted(true));
            let open = run.hashes.filter(|h: BlobHash| !run.settled.contains(h));
            &&& next.wanted == open
            &&& next.missing.len() == 0
            &&& next.at == 0
            &&& next.settled == run.settled
            &&& next.summary == run.summary
            &&& next.phase == (if !run.has_store || open.len() == 0 {
                Phase::Exporting
            } else if run.probe_works {
                Phase::Probing
            } else {
                Phase::HeadStop
            })
        }),
{
    unsettled_is_a_filter(run.hashes, run.settled);
}

/// What a probe of a batch does: it is of at most 4096 pictures; a server without the probe,
/// which says 404 or 405, is asked one by one from the start and never probed again; a 2xx
/// leaves missing those of the batch that it names; and any other answer all of them. When
/// the last batch is answered, what is not missing is settled.
pub proof fn a_probe_finds_what_is_missing(run: Run, answer: Result<Answer, String>)
    requires
        run.sound(),
        run.phase == Phase::Probing,
    ensures
        ({
            let next = run.advanced(Event::Answered(answer));
            let end = if run.at + 4096 < run.wanted.len() {
                run.at + 4096int
            } else {
                run.wanted.len() as int
            };
            let batch = run.wanted.subrange(run.at as int, end);
            let status = if answer is Ok {
                answer->Ok_0.status as int
            } else {
                0
            };
            let lacks = if 200 <= status <= 299 {
                batch.filter(|h: BlobHash| hashes_read(answer->Ok_0.body@).contains(h))
            } else {
                batch
            };
            let missing = run.missing + lacks;
            &&& status == 404 || status == 405 ==> next == (Run {
                probe_works: false,
                missing: Seq::empty(),
                at: 0,
                phase: Phase::HeadStop,
                ..run
            })
            &&& status != 404 && status != 405 ==> {
                &&& next.missing == missing
                &&& next.probe_works == run.probe_works
                &&& next.summary == run.summary
                &&& end < run.wanted.len() ==> next.phase == Phase::Probing && next.at == end
                    && next.settled == run.settled
                &&& end == run.wanted.len() ==> {
                    &&& next.at == 0
                    &&& next.phase == (if missing.len() > 0 {
                        Phase::BlobStop
                    } else {
                        Phase::Exporting
                    })
                    &&& forall|h: BlobHash| #[trigger]
                        next.settled.contains(h) <==> run.settled.contains(h)
                            || (run.wanted.contains(h) && !missing.contains(h))
                }
            }
        }),
{
    if answer is Ok {
        lacking_is_a_filter(run.batch(), hashes_read(answer->Ok_0.body@));
    }
}

/// What asking for one picture does: it is there where the answer is a 2xx, and missing where
/// it is anything else or there is none. When the last is asked for, what is not missing is
/// settled.
pub proof fn asking_finds_what_is_missing(run: Run, answer: Result<Answer, String>)
    requires
        run.sound(),
    ensures
        run.phase == Phase::HeadStop ==> run.advanced(Event::Stop(false)) == (Run {
            phase: Phase::HeadAsk,
            ..run
        }),
        run.phase == Phase::HeadAsk ==> ({
            let next = run.advanced(Event::Answered(answer));
            let there = answer is Ok && 200 <= answer->Ok_0.status <= 299;
            let missing = if there {
                run.missing
            } else {
                run.missing.push(run.wanted[run.at as int])
            };
            &&& next.missing == missing
            &&& next.summary == run.summary
            &&& run.at + 1 < run.wanted.len() ==> next.phase == Phase::HeadStop && next.at
                == run.at + 1 && next.settled == run.settled
            &&& run.at + 1 == run.wanted.len() ==> {
                &&& next.at == 0
                &&& next.phase == (if missing.len() > 0 {
                    Phase::BlobStop
                } else {
                    Phase::Exporting
                })
                &&& forall|h: BlobHash| #[trigger]
                    next.settled.contains(h) <==> run.settled.contains(h) || (run.wanted.contains(
                        h,
                    ) && !missing.contains(h))
            }
        }),
{
}

// ----- what is asked for ----------------------------------------------------------------

/// What is asked for is about the board and the picture at hand, at the server's addresses.
pub proof fn what_is_asked_is_about_what_is_at_hand(run: Run, action: Action)
    requires
        run.sound(),
        asks(run, action),
    ensures
        ({
            let board = run.boards[run.index as int];
            match action {
                Action::List { url } => run.phase == Phase::Listing && url@ == run.base
                    + "/api/v1/boards"@,
                Action::PollStop => run.phase == Phase::BoardStop || run.phase == Phase::HeadStop
                    || run.phase == Phase::BlobStop || run.phase == Phase::WaitPoll,
                Action::Look { path } => run.phase == Phase::Looking && path@ == board.path@,
                Action::Load { path } => run.phase == Phase::Loading && path@ == board.path@,
                Action::Create { url, name } => {
                    &&& run.phase == Phase::Creating
                    &&& url@ == run.base + "/api/v1/boards"@
                    &&& name@ == cleaned(board.title@)
                },
                Action::Probe { url, body } => {
                    &&& run.phase == Phase::Probing
                    &&& url@ == run.base + "/api/v1/blobs/missing"@
                },
                Action::Head { url } => run.phase == Phase::HeadAsk && url@ == run.base
                    + "/api/v1/blobs/"@ + run.wanted[run.at as int].digits(),
                Action::Measure(hash) => run.phase == Phase::Measuring && hash
                    == run.missing[run.at as int],
                Action::Read(hash) => run.phase == Phase::Reading && hash
                    == run.missing[run.at as int],
                Action::Upload { url } => run.phase == Phase::Uploading && url@ == run.base
                    + "/api/v1/blobs/"@ + run.missing[run.at as int].digits(),
                Action::Export => run.phase == Phase::Exporting,
                Action::Send { id } => run.phase == Phase::Sending && id@ == run.id,
                Action::Sleep { millis } => run.phase == Phase::WaitSleep && 0 < millis <= 100
                    && millis <= run.left && (millis == 100 || millis == run.left),
                Action::Finish(summary) => run.phase == Phase::Done && summary == run.summary,
                Action::Emit(PushEvent::Board { done, total, title }) => {
                    &&& run.phase == Phase::BoardEmit
                    &&& run.index <= u32::MAX ==> done == run.index
                    &&& total == run.summary.boards_total
                    &&& title@ == board.title@
                },
                Action::Emit(PushEvent::Blobs { done, total }) => {
                    &&& run.phase == Phase::BlobEmit || run.phase == Phase::BlobsOver
                    &&& run.missing.len() <= u32::MAX ==> total == run.missing.len()
                    &&& run.phase == Phase::BlobEmit && run.at <= u32::MAX ==> done == run.at
                    &&& run.phase == Phase::BlobsOver ==> done == total
                },
                Action::Emit(PushEvent::Recorded { board: path, id }) => {
                    &&& run.phase == Phase::Recording
                    &&& path@ == board.path@
                    &&& id@ == run.id
                },
                Action::Emit(PushEvent::BoardFailed { title, why }) => {
                    &&& run.phase == Phase::Reporting
                    &&& title@ == board.title@
                    &&& why@ == run.why
                },
                Action::Emit(PushEvent::Finished(_)) => false,
            }
        }),
{
}

proof fn quoted_at(list: Seq<Seq<char>>, k: int)
    requires
        0 <= k < list.len(),
        forall|j: int| 0 <= j < list.len() ==> (#[trigger] list[j]).len() == 64,
    ensures
        quoted(list).len() == 67 * list.len() - 1,
        quoted(list)[67 * k] == '"',
        quoted(list).subrange(67 * k + 1, 67 * k + 65) == list[k],
        quoted(list)[67 * k + 65] == '"',
        k + 1 < list.len() ==> quoted(list)[67 * k + 66] == ',',
    decreases list.len(),
{
    let all = quoted(list);
    let last = list[list.len() - 1];
    assert(last.len() == 64);
    if list.len() == 1 {
        assert(all.subrange(1, 65) =~= list[0]);
    } else {
        let rest = list.drop_last();
        assert forall|j: int| 0 <= j < rest.len() implies (#[trigger] rest[j]).len() == 64 by {
            assert(list[j].len() == 64);
        }
        let before = quoted(rest);
        quoted_at(rest, 0);
        if k < rest.len() {
            quoted_at(rest, k);
            assert(67 * k + 66 <= before.len());
            assert(all.subrange(67 * k + 1, 67 * k + 65) =~= before.subrange(
                67 * k + 1,
                67 * k + 65,
            ));
            if k + 1 < rest.len() {
                assert(all[67 * k + 66] == before[67 * k + 66]);
            } else {
                assert(67 * k + 66 == before.len());
                assert(all[before.len() as int] == ',');
            }
        } else {
            assert(67 * k == before.len() + 1);
            assert(all.subrange(67 * k + 1, 67 * k + 65) =~= last);
        }
    }
}

/// A probe's body is a list of what is asked about: in brackets, each hash of the batch in
/// its 64 digits, in quotes, with a comma between each two and nothing else.
pub proof fn a_probe_lists_its_batch(run: Run, action: Action, k: int)
    requires
        run.sound(),
        run.phase == Phase::Probing,
        asks(run, action),
        0 <= k < run.batch().len(),
    ensures
        ({
            let text = action->Probe_body@.map_values(|b: u8| b as char);
            let n = run.batch().len() as int;
            &&& text.len() == 67 * n + 1
            &&& text[0] == '[' && text[67 * n] == ']'
            &&& text[67 * k + 1] == '"' && text[67 * k + 66] == '"'
            &&& text.subrange(67 * k + 2, 67 * k + 66) == run.batch()[k].digits()
            &&& k + 1 < n ==> text[67 * k + 67] == ','
        }),
{
    let list = digits_of(run.batch());
    let n = run.batch().len() as int;
    assert forall|j: int| 0 <= j < list.len() implies (#[trigger] list[j]).len() == 64 by {
        a_hash_reads_back(run.batch()[j]);
    }
    quoted_at(list, k);
    assert(list[k] == run.batch()[k].digits());
    a_hash_reads_back(run.batch()[k]);
    let all = json_array(list);
    assert(all.len() == 67 * n + 1);
    let text = action->Probe_body@.map_values(|b: u8| b as char);
    let digits = run.batch()[k].digits();
    assert(all[67 * n] == ']');
    assert(67 * k + 66 <= 67 * n);
    assert(all[67 * k + 1] == quoted(list)[67 * k]);
    assert(all[67 * k + 66] == quoted(list)[67 * k + 65]);
    if k + 1 < n {
        assert(all[67 * k + 67] == quoted(list)[67 * k + 66]);
    }
    assert(all.subrange(67 * k + 2, 67 * k + 66) =~= quoted(list).subrange(
        67 * k + 1,
        67 * k + 65,
    ));
    assert(text.subrange(67 * k + 2, 67 * k + 66) =~= digits) by {
        assert forall|j: int| 0 <= j < 64 implies text[67 * k + 2 + j] == digits[j] by {
            assert(all.subrange(67 * k + 2, 67 * k + 66)[j] == all[67 * k + 2 + j]);
            assert(hex(digits[j]));
        }
    }
}

/// A server is asked at the address that was given, without the slashes it ends with.
pub proof fn trailing_slashes_do_not_count(address: Seq<char>, slashes: Seq<char>)
    requires
        address.len() > 0 ==> address.last() != '/',
        forall|k: int| 0 <= k < slashes.len() ==> #[trigger] slashes[k] == '/',
    ensures
        without_slashes(address + slashes) == address,
    decreases slashes.len(),
{
    let all = address + slashes;
    if slashes.len() == 0 {
        assert(all =~= address);
    } else {
        let less = slashes.drop_last();
        assert(slashes[slashes.len() - 1] == '/');
        assert forall|k: int| 0 <= k < less.len() implies #[trigger] less[k] == '/' by {
            assert(slashes[k] == '/');
        }
        assert(all.drop_last() =~= address + less);
        trailing_slashes_do_not_count(address, less);
    }
}

/// A board whose recorded id the server no longer lists is looked for as if it had none.
pub proof fn a_record_that_is_not_listed_does_not_count(run: Run, hashes: Vec<BlobHash>, board: PlanBoard)
    requires
        run.phase == Phase::Loading,
        run.index < run.boards.len(),
        run.boards[run.index as int].known_id is Some,
        forall|k: int|
            0 <= k < run.rows.len() ==> (#[trigger] run.rows[k]).id@
                != run.boards[run.index as int].known_id->0@,
        board == (PlanBoard { known_id: None, ..run.boards[run.index as int] }),
    ensures
        ({
            let event = Event::Loaded(Loaded::Board(hashes));
            let fresh = Run { boards: run.boards.update(run.index as int, board), ..run };
            &&& run.advanced(event).phase == fresh.advanced(event).phase
            &&& run.advanced(event).id == fresh.advanced(event).id
            &&& run.advanced(event).hashes == hashes@
        }),
{
}

/// The same board is one on the server whatever was recorded of others, and finding it changes
/// nothing but its id and its pictures.
pub proof fn opening_a_board_changes_nothing_else(run: Run, hashes: Vec<BlobHash>)
    requires
        run.phase == Phase::Loading,
    ensures
        ({
            let next = run.advanced(Event::Loaded(Loaded::Board(hashes)));
            &&& next == (Run { hashes: hashes@, id: next.id, phase: next.phase, ..run })
            &&& next.phase == Phase::Recording || next.phase == Phase::Creating
            &&& next.phase == Phase::Creating ==> next.id == run.id
        }),
{
}

/// What a sum of bytes comes to: the two together, or the most there can be.
pub proof fn bytes_add_up(a: u64, b: u64)
    ensures
        a + b <= 0xFFFF_FFFF_FFFF_FFFF ==> saturated(a, b) == a + b,
        a + b > 0xFFFF_FFFF_FFFF_FFFF ==> saturated(a, b) == 0xFFFF_FFFF_FFFF_FFFF,
{
}

/// A count too large for its field is the most the field holds.
pub proof fn a_count_stays_in_its_field(n: nat)
    ensures
        n <= 0xFFFF_FFFF ==> as_u32(n) == n,
        n > 0xFFFF_FFFF ==> as_u32(n) == 0xFFFF_FFFF,
{
}

/// What a run is told by: pictures of up to 64 megabytes, 4096 of them to a probe, a quarter of
/// a second for a busy board, a tenth of a second to a sleep, two retries after two seconds and
/// after four.
pub proof fn a_run_keeps_its_measures()
    ensures
        MAX_BLOB_BYTES == 64 * 1024 * 1024,
        HASHES_PER_PROBE == 4096,
        BUSY_RETRY == 250,
        SLEEP_SLICE == 100,
        FIRST_WAIT == 2000,
        SECOND_WAIT == 4000,
        RETRIES == 2,
{
}

/// What each phase waits for, by what comes.
pub proof fn each_phase_waits_for_one_thing(phase: Phase, event: Event)
    ensures
        event is Listed ==> (fits(phase, event) <==> phase == Phase::Listing),
        event is Stop ==> (fits(phase, event) <==> phase == Phase::BoardStop || phase
            == Phase::HeadStop || phase == Phase::BlobStop || phase == Phase::WaitPoll),
        event is Emitted ==> (fits(phase, event) <==> phase == Phase::BoardEmit || phase
            == Phase::Recording || phase == Phase::BlobEmit || phase == Phase::BlobsOver || phase
            == Phase::Reporting),
        event is Exists ==> (fits(phase, event) <==> phase == Phase::Looking),
        event is Loaded ==> (fits(phase, event) <==> phase == Phase::Loading),
        event is Created ==> (fits(phase, event) <==> phase == Phase::Creating),
        event is Answered ==> (fits(phase, event) <==> phase == Phase::Probing || phase
            == Phase::HeadAsk || phase == Phase::Uploading || phase == Phase::Sending),
        event is Measured ==> (fits(phase, event) <==> phase == Phase::Measuring),
        event is Read ==> (fits(phase, event) <==> phase == Phase::Reading),
        event is Exported ==> (fits(phase, event) <==> phase == Phase::Exporting),
        event is Slept ==> (fits(phase, event) <==> phase == Phase::WaitSleep),
{
}

} // verus!
