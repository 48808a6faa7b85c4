//! Sending every board to the server the person signed in to: which board on the server a
//! local one is, what it is called there, what the answers mean, and what came back.
//!
//! The rule that keeps boards from merging into each other is [`decide_id`]. The run itself
//! is [`crate::worker`].

use vstd::prelude::*;

use crate::library::{slug, slugged};
use crate::path::{normal, same_path};
use crate::text::{
    blank, chars_of, decimal, decimal_of, first_chars, joined, same, text_of, trim, trimmed,
    trimming_leaves_what_stands_between, trimming_trims, white,
};

verus! {

/// The most characters a board name may have.
pub const MAX_NAME: usize = 200;

/// The most events handed over at once.
pub const DRAIN_CAP: usize = 64;

// ----- the plan and what comes back ----------------------------------------------------

/// One board of a run.
#[derive(Clone, Debug)]
pub struct PlanBoard {
    pub path: String,
    /// The title as the library lists it.
    pub title: String,
    /// The id this board was given on this server by an earlier run, if there was one.
    pub known_id: Option<String>,
}

/// What a run is made of.
#[derive(Clone, Debug)]
pub struct PushPlan {
    /// The origin, with or without a trailing slash.
    pub server: String,
    /// The asset directory.
    pub blobs: String,
    /// Every board to send, in order.
    pub boards: Vec<PlanBoard>,
}

/// What the whole run came to.
#[derive(Clone, Copy, Debug, PartialEq, Eq, Structural)]
pub struct PushSummary {
    pub boards_sent: u32,
    pub boards_failed: u32,
    pub boards_total: u32,
    pub blobs_sent: u32,
    /// Pictures larger than the server's cap. Counted, never fatal.
    pub blobs_too_big: u32,
    pub bytes: u64,
    /// The person pressed Stop.
    pub stopped: bool,
    /// The session has gone.
    pub session_lost: bool,
    /// The server could not be reached at all.
    pub unreachable: bool,
    /// The worker died without saying so.
    pub worker_lost: bool,
}

impl PushSummary {
    /// Nothing has happened.
    pub open spec fn zero() -> PushSummary {
        PushSummary {
            boards_sent: 0,
            boards_failed: 0,
            boards_total: 0,
            blobs_sent: 0,
            blobs_too_big: 0,
            bytes: 0,
            stopped: false,
            session_lost: false,
            unreachable: false,
            worker_lost: false,
        }
    }
}

impl Default for PushSummary {
    fn default() -> (summary: PushSummary)
        ensures
            summary == PushSummary::zero(),
    {
        PushSummary {
            boards_sent: 0,
            boards_failed: 0,
            boards_total: 0,
            blobs_sent: 0,
            blobs_too_big: 0,
            bytes: 0,
            stopped: false,
            session_lost: false,
            unreachable: false,
            worker_lost: false,
        }
    }
}

/// One thing the worker has done.
#[derive(Clone, Debug)]
pub enum PushEvent {
    /// Starting this board. `done` is how many are finished.
    Board { done: u32, total: u32, title: String },
    /// Progress inside the current board's pictures.
    Blobs { done: u32, total: u32 },
    /// The server named this board.
    Recorded { board: String, id: String },
    /// One board did not go. The run carries on.
    BoardFailed { title: String, why: String },
    /// The run is over, whatever the reason.
    Finished(PushSummary),
}

/// A run in flight, seen from the side that started it.
#[derive(Clone, Debug)]
pub struct Push {
    /// What has come back and has not been handed out yet.
    pub waiting: Vec<PushEvent>,
    /// Whether the worker has gone, so that nothing more will come.
    pub gone: bool,
    /// Whether the worker has been asked to stop.
    pub stopping: bool,
    /// Whether the summary has already been handed out.
    pub finished: bool,
}

/// How many of the waiting events are handed out: up to the summary, and at most the cap.
pub open spec fn handed_out(waiting: Seq<PushEvent>, cap: nat) -> nat
    decreases cap,
{
    if cap == 0 || waiting.len() == 0 {
        0
    } else if waiting[0] is Finished {
        1
    } else {
        1 + handed_out(waiting.skip(1), (cap - 1) as nat)
    }
}

/// Whether the summary is among the first `count` events.
pub open spec fn ends_within(waiting: Seq<PushEvent>, count: int) -> bool {
    exists|i: int| 0 <= i < count && i < waiting.len() && (#[trigger] waiting[i]) is Finished
}

impl Push {
    /// A run that has just started.
    pub fn new() -> (push: Push)
        ensures
            push.waiting@.len() == 0,
            !push.gone,
            !push.stopping,
            !push.finished,
    {
        Push { waiting: Vec::new(), gone: false, stopping: false, finished: false }
    }

    /// An event came back from the worker.
    pub fn receive(&mut self, event: PushEvent)
        ensures
            final(self).waiting@ == old(self).waiting@.push(event),
            *final(self) == (Push { waiting: final(self).waiting, ..*old(self) }),
    {
        self.waiting.push(event);
    }

    /// The worker has gone, or never started.
    pub fn worker_gone(&mut self)
        ensures
            *final(self) == (Push { gone: true, ..*old(self) }),
    {
        self.gone = true;
    }

    /// What has come back since the last call, in order: at most 64 events, nothing after
    /// the summary, and nothing at all once the summary was handed out. A worker that is
    /// gone without one is given one that says so.
    pub fn drain(&mut self) -> (events: Vec<PushEvent>)
        ensures
            old(self).finished ==> events@.len() == 0 && *final(self) == *old(self),
            !old(self).finished ==> {
                let count = handed_out(old(self).waiting@, DRAIN_CAP as nat);
                let ended = ends_within(old(self).waiting@, count as int);
                let lost = !ended && count == old(self).waiting@.len() && count < DRAIN_CAP
                    && old(self).gone;
                &&& count <= old(self).waiting@.len()
                &&& final(self).waiting@ == old(self).waiting@.skip(count as int)
                &&& events@ == (if lost {
                    old(self).waiting@.take(count as int).push(
                        PushEvent::Finished(
                            PushSummary { worker_lost: true, ..PushSummary::zero() },
                        ),
                    )
                } else {
                    old(self).waiting@.take(count as int)
                })
                &&& *final(self) == (Push {
                    waiting: final(self).waiting,
                    finished: ended || lost,
                    ..*old(self)
                })
            },
    {
        let mut out: Vec<PushEvent> = Vec::new();
        if self.finished {
            return out;
        }
        let ghost all = self.waiting@;
        let mut taken: usize = 0;
        proof {
            assert(all.skip(0) =~= all);
            assert(all.take(0) =~= Seq::<PushEvent>::empty());
        }
        while taken < DRAIN_CAP
            invariant
                taken <= DRAIN_CAP,
                taken <= all.len(),
                !self.finished,
                *self == (Push { waiting: self.waiting, ..*old(self) }),
                all == old(self).waiting@,
                self.waiting@ == all.skip(taken as int),
                out@ == all.take(taken as int),
                handed_out(all, DRAIN_CAP as nat) == taken + handed_out(
                    all.skip(taken as int),
                    (DRAIN_CAP - taken) as nat,
                ),
                forall|i: int| 0 <= i < taken ==> !((#[trigger] all[i]) is Finished),
            decreases DRAIN_CAP - taken,
        {
            if self.waiting.len() == 0 {
                proof {
                    assert(taken == all.len());
                }
                if self.gone {
                    self.finished = true;
                    out.push(
                        PushEvent::Finished(
                            PushSummary { worker_lost: true, ..PushSummary::default() },
                        ),
                    );
                }
                return out;
            }
            let event = self.waiting.remove(0);
            proof {
                assert(all.skip(taken as int)[0] == all[taken as int]);
                assert(all.skip(taken as int).skip(1) =~= all.skip(taken as int + 1));
                assert(self.waiting@ =~= all.skip(taken as int + 1));
                assert(all.take(taken as int + 1) =~= all.take(taken as int).push(
                    all[taken as int],
                ));
            }
            let last = matches!(event, PushEvent::Finished(_));
            out.push(event);
            taken = taken + 1;
            if last {
                self.finished = true;
                proof {
                    assert(all[taken - 1] is Finished);
                }
                return out;
            }
        }
        out
    }

    /// Asks the worker to stop. It reads the request between pictures and between boards,
    /// never inside one request.
    pub fn stop(&mut self)
        ensures
            *final(self) == (Push { stopping: true, ..*old(self) }),
    {
        self.stopping = true;
    }

    /// Whether the summary has already been handed out.
    pub fn is_finished(&self) -> (answer: bool)
        ensures
            answer == self.finished,
    {
        self.finished
    }
}

// ----- where the ids are kept ----------------------------------------------------------

/// One board's id on one server.
#[derive(Clone, Debug)]
pub struct RemoteBoard {
    pub board: String,
    pub server: String,
    pub id: String,
}

/// A record by what it reads.
pub struct Naming {
    pub board: Seq<char>,
    pub server: Seq<char>,
    pub id: Seq<char>,
}

impl View for RemoteBoard {
    type V = Naming;

    open spec fn view(&self) -> Naming {
        Naming { board: normal(self.board@), server: self.server@, id: self.id@ }
    }
}

/// The mapping from a board file to the id the server gave it, keyed by board and server.
#[derive(Clone, Debug)]
pub struct RemoteIds {
    pub records: Vec<RemoteBoard>,
}

/// The id recorded first for a board on a server, if there is one.
pub open spec fn recorded_id(
    records: Seq<Naming>,
    board: Seq<char>,
    server: Seq<char>,
) -> Option<Seq<char>>
    decreases records.len(),
{
    if records.len() == 0 {
        None
    } else if records[0].board == board && records[0].server == server {
        Some(records[0].id)
    } else {
        recorded_id(records.skip(1), board, server)
    }
}

/// `records` without those of a board on a server.
pub open spec fn unrecorded(
    records: Seq<Naming>,
    board: Seq<char>,
    server: Seq<char>,
) -> Seq<Naming>
    decreases records.len(),
{
    if records.len() == 0 {
        records
    } else {
        let before = unrecorded(records.drop_last(), board, server);
        if records.last().board == board && records.last().server == server {
            before
        } else {
            before.push(records.last())
        }
    }
}

impl RemoteIds {
    /// The records by what they read.
    pub open spec fn names(self) -> Seq<Naming> {
        self.records@.map_values(|record: RemoteBoard| record@)
    }

    /// The mapping a file held. One that could not be read is an empty one.
    pub fn new(records: Vec<RemoteBoard>) -> (ids: RemoteIds)
        ensures
            ids.records == records,
    {
        RemoteIds { records }
    }

    /// The id this board has on `server`, if one was recorded.
    pub fn id_for(&self, board: &str, server: &str) -> (id: Option<&str>)
        ensures
            id is Some <==> recorded_id(self.names(), normal(board@), server@) is Some,
            id is Some ==> id->0@ == recorded_id(self.names(), normal(board@), server@)->0,
    {
        let ghost all = self.names();
        let mut at: usize = 0;
        proof {
            assert(all.skip(0) =~= all);
        }
        while at < self.records.len()
            invariant
                at <= self.records@.len(),
                all == self.names(),
                recorded_id(all, normal(board@), server@) == recorded_id(
                    all.skip(at as int),
                    normal(board@),
                    server@,
                ),
            decreases self.records@.len() - at,
        {
            proof {
                assert(all.skip(at as int)[0] == self.records@[at as int]@);
                assert(all.skip(at as int).skip(1) =~= all.skip(at as int + 1));
            }
            if same_path(self.records[at].board.as_str(), board) && same(
                self.records[at].server.as_str(),
                server,
            ) {
                return Some(self.records[at].id.as_str());
            }
            at = at + 1;
        }
        None
    }

    /// Records an id in place of any this board had on this server. Signing in to a second
    /// server does not overwrite the first server's id for the same board.
    pub fn record(&mut self, board: &str, server: &str, id: &str)
        ensures
            final(self).names() == unrecorded(old(self).names(), normal(board@), server@).push(
                (Naming { board: normal(board@), server: server@, id: id@ }),
            ),
    {
        let ghost all = self.names();
        let mut kept: Vec<RemoteBoard> = Vec::new();
        let mut at: usize = 0;
        proof {
            assert(kept@.map_values(|record: RemoteBoard| record@) =~= all.take(0));
        }
        while at < self.records.len()
            invariant
                at <= self.records@.len(),
                all == self.names(),
                kept@.map_values(|record: RemoteBoard| record@) == unrecorded(
                    all.take(at as int),
                    normal(board@),
                    server@,
                ),
            decreases self.records@.len() - at,
        {
            let ghost before = kept@;
            if !(same_path(self.records[at].board.as_str(), board) && same(
                self.records[at].server.as_str(),
                server,
            )) {
                kept.push(
                    RemoteBoard {
                        board: self.records[at].board.clone(),
                        server: self.records[at].server.clone(),
                        id: self.records[at].id.clone(),
                    },
                );
                proof {
                    assert(kept@.map_values(|record: RemoteBoard| record@) =~= before.map_values(
                        |record: RemoteBoard| record@,
                    ).push(all[at as int]));
                }
            }
            at = at + 1;
            proof {
                assert(all.take(at as int).drop_last() =~= all.take(at - 1));
            }
        }
        proof {
            assert(all.take(all.len() as int) =~= all);
        }
        let ghost before = kept@;
        let record = RemoteBoard {
            board: board.to_owned(),
            server: server.to_owned(),
            id: id.to_owned(),
        };
        kept.push(record);
        proof {
            assert(kept@.map_values(|record: RemoteBoard| record@) =~= before.map_values(
                |record: RemoteBoard| record@,
            ).push(Naming { board: normal(board@), server: server@, id: id@ }));
        }
        self.records = kept;
    }
}

// ----- the id decision -----------------------------------------------------------------

/// One board the server lists.
#[derive(Clone, Debug)]
pub struct Row {
    pub id: String,
    pub title: String,
    pub items: u64,
}

/// Which board on the server a local board is.
#[derive(Clone, Debug)]
pub enum Decision {
    /// This id. It is already on the server and it is this board.
    Use(String),
    /// Nothing on the server can safely be claimed as this board.
    Create,
}

/// Whether `c` is a decimal digit.
pub open spec fn decimal_digit(c: char) -> bool {
    '0' <= c <= '9'
}

/// A stem without the digits it ends with.
pub open spec fn without_digits(stem: Seq<char>) -> Seq<char>
    decreases stem.len(),
{
    if stem.len() > 0 && decimal_digit(stem.last()) {
        without_digits(stem.drop_last())
    } else {
        stem
    }
}

/// Whether a stem ends in a counter: a dash and at least one digit.
pub open spec fn has_counter(stem: Seq<char>) -> bool {
    let head = without_digits(stem);
    head.len() < stem.len() && head.len() > 0 && head.last() == '-'
}

/// Whether a stem is one that a different title could have produced. `board` and `untitled`
/// stand for any number of titles. A counter is ambiguous only where it was appended, and
/// then the stem no longer is the slug of its own title.
pub open spec fn ambiguous(stem: Seq<char>, title: Seq<char>) -> bool {
    stem == "board"@ || stem == "untitled"@ || (has_counter(stem) && slugged(title) != stem)
}

/// Whether a stem is one that a different title could have produced.
pub fn stem_is_ambiguous(stem: &str, title: &str) -> (answer: bool)
    ensures
        answer == ambiguous(stem@, title@),
{
    if same(stem, "board") || same(stem, "untitled") {
        return true;
    }
    let chars = chars_of(stem);
    let mut at: usize = chars.len();
    proof {
        assert(stem@.take(at as int) =~= stem@);
    }
    while at > 0 && '0' <= chars[at - 1] && chars[at - 1] <= '9'
        invariant
            at <= chars@.len(),
            chars@ == stem@,
            without_digits(stem@) == without_digits(stem@.take(at as int)),
        decreases at,
    {
        proof {
            assert(stem@.take(at as int).drop_last() =~= stem@.take(at - 1));
        }
        at = at - 1;
    }
    let counter = at < chars.len() && at > 0 && chars[at - 1] == '-';
    if !counter {
        return false;
    }
    let own = slug(title);
    !same(own.as_str(), stem)
}

/// Whether the server lists an id.
pub open spec fn listed(rows: Seq<Row>, id: Seq<char>) -> bool {
    exists|i: int| 0 <= i < rows.len() && (#[trigger] rows[i]).id@ == id
}

/// Whether the server lists an id under a title.
pub open spec fn listed_as(rows: Seq<Row>, id: Seq<char>, title: Seq<char>) -> bool {
    exists|i: int|
        0 <= i < rows.len() && (#[trigger] rows[i]).id@ == id && rows[i].title@ == title
}

/// Which server board a local board is to be sent to, if any can be claimed: the recorded
/// id while the server still lists it; else the file stem, but only where the row's title is
/// the local title as the server stores it, and never where the stem is ambiguous.
pub open spec fn claimed(
    known: Option<Seq<char>>,
    stem: Seq<char>,
    title: Seq<char>,
    rows: Seq<Row>,
) -> Option<Seq<char>> {
    if known is Some && listed(rows, known->0) {
        Some(known->0)
    } else if !ambiguous(stem, title) && listed_as(rows, stem, cleaned(title)) {
        Some(stem)
    } else {
        None
    }
}

/// Which server board this local board should be sent to. An id is never guessed.
pub fn decide_id(
    known: Option<&str>,
    stem: &str,
    title: &str,
    rows: &Vec<Row>,
) -> (decision: Decision)
    ensures
        ({
            let known_id = match known {
                Some(id) => Some(id@),
                None => None,
            };
            match claimed(known_id, stem@, title@, rows@) {
                Some(id) => decision is Use && decision->Use_0@ == id,
                None => decision is Create,
            }
        }),
{
    if let Some(known) = known {
        if lists_id(rows, known) {
            return Decision::Use(known.to_owned());
        }
    }
    if stem_is_ambiguous(stem, title) {
        return Decision::Create;
    }
    let wanted = safe_name(title);
    if lists_title(rows, stem, wanted.as_str()) {
        return Decision::Use(stem.to_owned());
    }
    Decision::Create
}

fn lists_id(rows: &Vec<Row>, id: &str) -> (answer: bool)
    ensures
        answer == listed(rows@, id@),
{
    let mut at: usize = 0;
    while at < rows.len()
        invariant
            at <= rows@.len(),
            forall|k: int| 0 <= k < at ==> (#[trigger] rows@[k]).id@ != id@,
        decreases rows@.len() - at,
    {
        if same(rows[at].id.as_str(), id) {
            return true;
        }
        at = at + 1;
    }
    false
}

fn lists_title(rows: &Vec<Row>, id: &str, title: &str) -> (answer: bool)
    ensures
        answer == listed_as(rows@, id@, title@),
{
    let mut at: usize = 0;
    while at < rows.len()
        invariant
            at <= rows@.len(),
            forall|k: int|
                0 <= k < at ==> !((#[trigger] rows@[k]).id@ == id@ && rows@[k].title@ == title@),
        decreases rows@.len() - at,
    {
        if same(rows[at].id.as_str(), id) && same(rows[at].title.as_str(), title) {
            return true;
        }
        at = at + 1;
    }
    false
}

// ----- names ---------------------------------------------------------------------------

/// Whether `c` is a control character.
pub open spec fn control(c: char) -> bool {
    c <= '\u{1f}' || '\u{7f}' <= c <= '\u{9f}'
}

/// Whether a name may hold `c` at all.
pub open spec fn allowed(c: char) -> bool {
    !control(c) && c != '/' && c != '\\'
}

/// The allowed characters of a title, without any two dots in a row: of a run of dots, one
/// is left where their number is odd and none where it is even.
pub open spec fn kept(title: Seq<char>) -> Seq<char>
    decreases title.len(),
{
    if title.len() == 0 {
        title
    } else {
        let before = kept(title.drop_last());
        let c = title.last();
        if !allowed(c) {
            before
        } else if c == '.' && before.len() > 0 && before.last() == '.' {
            before.drop_last()
        } else {
            before.push(c)
        }
    }
}

/// The first 200 characters, or all of them if there are fewer.
pub open spec fn capped(name: Seq<char>) -> Seq<char> {
    if name.len() > 200 {
        name.take(200)
    } else {
        name
    }
}

/// A board title as the server stores it.
pub open spec fn cleaned(title: Seq<char>) -> Seq<char> {
    let name = trimmed(capped(trimmed(kept(title))));
    if name.len() == 0 {
        "Untitled board"@
    } else {
        name
    }
}

/// A board title as the server will store it: without control characters, slashes and
/// double dots, trimmed before and after a cut at 200 characters, and never empty.
pub fn safe_name(title: &str) -> (name: String)
    ensures
        name@ == cleaned(title@),
{
    let chars = chars_of(title);
    let mut out: Vec<char> = Vec::new();
    let mut at: usize = 0;
    proof {
        assert(title@.take(0) =~= Seq::<char>::empty());
    }
    while at < chars.len()
        invariant
            at <= chars@.len(),
            chars@ == title@,
            out@ == kept(title@.take(at as int)),
        decreases chars@.len() - at,
    {
        let c = chars[at];
        proof {
            assert(title@.take(at as int + 1).drop_last() =~= title@.take(at as int));
        }
        let control = c <= '\u{1f}' || ('\u{7f}' <= c && c <= '\u{9f}');
        if !(control || c == '/' || c == '\\') {
            if c == '.' && out.len() > 0 && out[out.len() - 1] == '.' {
                let _dot = out.pop();
            } else {
                out.push(c);
            }
        }
        at = at + 1;
    }
    proof {
        assert(title@.take(title@.len() as int) =~= title@);
        assert(out@.subrange(0, out@.len() as int) =~= out@);
    }
    let whole = text_of(&out, 0, out.len());
    let start = trim(whole.as_str());
    let cut = first_chars(start.as_str(), MAX_NAME);
    proof {
        assert(start@.take(start@.len() as int) =~= start@);
    }
    let name = trim(cut.as_str());
    if name.as_str().is_empty() {
        "Untitled board".to_owned()
    } else {
        name
    }
}

// ----- answers -------------------------------------------------------------------------

/// One answer, read.
#[derive(Clone, Debug)]
pub struct Answer {
    pub status: u16,
    pub body: String,
}

impl Answer {
    /// Whether the request succeeded.
    pub fn ok(&self) -> (answer: bool)
        ensures
            answer == success(self.status),
    {
        200 <= self.status && self.status < 300
    }

    /// Whether the session has gone, so that every later request would fail the same way.
    pub fn session_lost(&self) -> (answer: bool)
        ensures
            answer == refused(self.status),
    {
        self.status == 401 || self.status == 403
    }

    /// One sentence, with the status in front of at most 200 characters of the body.
    pub fn detail(&self) -> (sentence: String)
        ensures
            sentence@ == detail_of(self.status, self.body@),
    {
        let body = trim(self.body.as_str());
        let quoted = first_chars(body.as_str(), 200);
        let number = decimal_of(self.status as u64);
        let head = joined("HTTP ", number.as_str());
        proof {
            assert(body@.take(body@.len() as int) =~= body@);
        }
        if quoted.as_str().is_empty() {
            head
        } else {
            let colon = joined(head.as_str(), ": ");
            joined(colon.as_str(), quoted.as_str())
        }
    }
}

/// Whether a status says that the request succeeded.
pub open spec fn success(status: u16) -> bool {
    200 <= status < 300
}

/// Whether a status says that the session has gone.
pub open spec fn refused(status: u16) -> bool {
    status == 401 || status == 403
}

/// The sentence for a status and a body.
pub open spec fn detail_of(status: u16, body: Seq<char>) -> Seq<char> {
    let quoted = capped(trimmed(body));
    let head = "HTTP "@ + decimal(status as nat);
    if quoted.len() == 0 {
        head
    } else {
        head + ": "@ + quoted
    }
}

// ----- laws ----------------------------------------------------------------------------

/// An id is never guessed: whatever a board is sent to is on the server's list, and it is
/// the recorded id or a row of the same stem whose title is this board's.
pub proof fn an_id_is_never_guessed(
    known: Option<Seq<char>>,
    stem: Seq<char>,
    title: Seq<char>,
    rows: Seq<Row>,
)
    ensures
        claimed(known, stem, title, rows) is Some ==> {
            let id = claimed(known, stem, title, rows)->0;
            &&& listed(rows, id)
            &&& known == Some(id) || (id == stem && listed_as(rows, stem, cleaned(title)))
        },
        rows.len() == 0 ==> claimed(known, stem, title, rows) is None,
{
    if !ambiguous(stem, title) && listed_as(rows, stem, cleaned(title)) {
        let i = choose|i: int|
            0 <= i < rows.len() && (#[trigger] rows[i]).id@ == stem && rows[i].title@ == cleaned(
                title,
            );
        assert(rows[i].id@ == stem);
    }
}

/// The record outranks the stem while the server lists it.
pub proof fn the_record_wins(
    id: Seq<char>,
    stem: Seq<char>,
    title: Seq<char>,
    rows: Seq<Row>,
)
    requires
        listed(rows, id),
    ensures
        claimed(Some(id), stem, title, rows) == Some(id),
{
}

/// An ambiguous stem is never adopted, whatever the rows say.
pub proof fn an_ambiguous_stem_is_never_adopted(
    known: Option<Seq<char>>,
    stem: Seq<char>,
    title: Seq<char>,
    rows: Seq<Row>,
)
    requires
        ambiguous(stem, title),
    ensures
        claimed(known, stem, title, rows) is Some ==> claimed(known, stem, title, rows) == known,
{
}

/// Digits that belong to a title do not make its stem ambiguous: a stem that is the slug of
/// its own title is ambiguous only as one of the two names that stand for any title.
pub proof fn digits_of_a_title_are_no_counter(stem: Seq<char>, title: Seq<char>)
    requires
        slugged(title) == stem,
        stem != "board"@,
        stem != "untitled"@,
    ensures
        !ambiguous(stem, title),
{
}

/// Whether two dots stand next to each other.
pub open spec fn double_dot(name: Seq<char>) -> bool {
    exists|i: int| 0 <= i < name.len() - 1 && name[i] == '.' && #[trigger] name[i + 1] == '.'
}

proof fn kept_is_clean(title: Seq<char>)
    ensures
        forall|k: int| 0 <= k < kept(title).len() ==> allowed(#[trigger] kept(title)[k]),
        forall|i: int|
            0 <= i < kept(title).len() - 1 ==> !(kept(title)[i] == '.'
                && #[trigger] kept(title)[i + 1] == '.'),
    decreases title.len(),
{
    if title.len() > 0 {
        let before = kept(title.drop_last());
        let all = kept(title);
        kept_is_clean(title.drop_last());
        assert forall|k: int| 0 <= k < all.len() implies allowed(#[trigger] all[k]) by {
            if k < before.len() {
                assert(allowed(before[k]));
            }
        }
        assert forall|i: int| 0 <= i < all.len() - 1 implies !(all[i] == '.'
            && #[trigger] all[i + 1] == '.') by {
            if i + 1 < before.len() {
                assert(all[i] == before[i] && all[i + 1] == before[i + 1]);
                assert(!(before[i] == '.' && before[i + 1] == '.'));
            }
        }
    }
}

proof fn a_clean_name_is_kept(name: Seq<char>)
    requires
        forall|k: int| 0 <= k < name.len() ==> allowed(#[trigger] name[k]),
        forall|i: int|
            0 <= i < name.len() - 1 ==> !(name[i] == '.' && #[trigger] name[i + 1] == '.'),
    ensures
        kept(name) == name,
    decreases name.len(),
{
    if name.len() > 0 {
        let rest = name.drop_last();
        assert forall|k: int| 0 <= k < rest.len() implies allowed(#[trigger] rest[k]) by {
            assert(allowed(name[k]));
        }
        assert forall|i: int| 0 <= i < rest.len() - 1 implies !(rest[i] == '.'
            && #[trigger] rest[i + 1] == '.') by {
            assert(!(name[i] == '.' && name[i + 1] == '.'));
        }
        a_clean_name_is_kept(rest);
        assert(allowed(name[name.len() - 1]));
        if rest.len() > 0 {
            let i = name.len() - 2;
            assert(!(name[i] == '.' && name[i + 1] == '.'));
        }
        assert(rest.push(name.last()) =~= name);
    }
}

/// A piece of a text that is clean is clean.
proof fn a_piece_of_a_clean_name_is_clean(name: Seq<char>, from: int, to: int)
    requires
        0 <= from <= to <= name.len(),
        forall|k: int| 0 <= k < name.len() ==> allowed(#[trigger] name[k]),
        forall|i: int|
            0 <= i < name.len() - 1 ==> !(name[i] == '.' && #[trigger] name[i + 1] == '.'),
    ensures
        forall|k: int|
            0 <= k < name.subrange(from, to).len() ==> allowed(
                #[trigger] name.subrange(from, to)[k],
            ),
        forall|i: int|
            0 <= i < name.subrange(from, to).len() - 1 ==> !(name.subrange(from, to)[i] == '.'
                && #[trigger] name.subrange(from, to)[i + 1] == '.'),
{
    let piece = name.subrange(from, to);
    assert forall|i: int| 0 <= i < piece.len() - 1 implies !(piece[i] == '.'
        && #[trigger] piece[i + 1] == '.') by {
        assert(!(name[from + i] == '.' && name[from + i + 1] == '.'));
    }
}

/// What the server will accept: a name of one to 200 characters, trimmed, with no control
/// character, no slash and no double dot. Every title gets one, and cleaning a name that is
/// already clean changes nothing, so the two sides never disagree about a stored title.
pub proof fn a_clean_name_is_acceptable(title: Seq<char>)
    ensures
        0 < cleaned(title).len() <= 200,
        forall|k: int| 0 <= k < cleaned(title).len() ==> allowed(#[trigger] cleaned(title)[k]),
        !double_dot(cleaned(title)),
        !white(cleaned(title)[0]),
        !white(cleaned(title).last()),
        cleaned(cleaned(title)) == cleaned(title),
{
    reveal_strlit("Untitled board");
    let all = kept(title);
    let start = trimmed(all);
    let cut = capped(start);
    let name = trimmed(cut);
    kept_is_clean(title);
    trimming_trims(all);
    trimming_trims(cut);
    let from = choose|from: int|
        0 <= from <= from + start.len() <= all.len() && start == #[trigger] all.subrange(
            from,
            from + start.len(),
        );
    a_piece_of_a_clean_name_is_clean(all, from, from + start.len());
    a_piece_of_a_clean_name_is_clean(start, 0, cut.len() as int);
    assert(cut =~= start.subrange(0, cut.len() as int));
    let at = choose|at: int|
        0 <= at <= at + name.len() <= cut.len() && name == #[trigger] cut.subrange(
            at,
            at + name.len(),
        );
    a_piece_of_a_clean_name_is_clean(cut, at, at + name.len());
    let result = cleaned(title);
    if name.len() == 0 {
        assert(result == "Untitled board"@);
        a_clean_name_is_kept(result);
        assert(trimmed(result) == result) by {
            assert(crate::text::trim_start(result) == result);
            assert(crate::text::trim_end(result) == result);
        }
    } else {
        a_clean_name_is_kept(name);
        trimming_trims(name);
        assert(trimmed(name) == name);
    }
}

/// Taking out any one double dot first changes nothing about the result, so it does not
/// matter in which order they go: repeated until none is left, it ends here.
pub proof fn double_dots_go_in_any_order(title: Seq<char>, at: int)
    requires
        0 <= at < title.len() - 1,
        title[at] == '.',
        title[at + 1] == '.',
    ensures
        kept(title.take(at) + title.skip(at + 2)) == kept(title),
    decreases title.len(),
{
    let less = title.take(at) + title.skip(at + 2);
    if at + 2 == title.len() {
        assert(less =~= title.take(at));
        let one = title.drop_last();
        assert(one.drop_last() =~= title.take(at));
        let before = kept(title.take(at));
        assert(kept(one) == (if before.len() > 0 && before.last() == '.' {
            before.drop_last()
        } else {
            before.push('.')
        }));
        if before.len() > 0 && before.last() == '.' {
            kept_is_clean(title.take(at));
            let shorter = before.drop_last();
            if shorter.len() > 0 {
                let i = before.len() - 2;
                assert(!(before[i] == '.' && before[i + 1] == '.'));
            }
            assert(shorter.push('.') =~= before);
        } else {
            assert(before.push('.').drop_last() =~= before);
        }
    } else {
        double_dots_go_in_any_order(title.drop_last(), at);
        assert(less.drop_last() =~= title.drop_last().take(at) + title.drop_last().skip(at + 2));
        assert(less.last() == title.last());
    }
}

proof fn a_trimmed_name_stays(name: Seq<char>)
    requires
        name.len() > 0 ==> !blank(name[0]) && !blank(name.last()),
    ensures
        trimmed(name) == name,
{
    trimming_leaves_what_stands_between(Seq::empty(), name, Seq::empty());
    assert(Seq::<char>::empty() + name + Seq::<char>::empty() =~= name);
}

/// A title the server can store is left as it is: of 1 to 200 characters, with no white space
/// at either end, no control character, no slash of either kind and no two dots in a row.
pub proof fn a_storable_title_is_left_as_it_is(title: Seq<char>)
    requires
        1 <= title.len() <= 200,
        !blank(title[0]),
        !blank(title.last()),
        forall|k: int|
            0 <= k < title.len() ==> {
                let c = #[trigger] title[k];
                c >= '\u{20}' && !('\u{7f}' <= c <= '\u{9f}') && c != '/' && c != '\\'
            },
        forall|k: int|
            0 < k < title.len() ==> !(title[k - 1] == '.' && #[trigger] title[k] == '.'),
    ensures
        cleaned(title) == title,
{
    assert forall|k: int| 0 <= k < title.len() implies allowed(#[trigger] title[k]) by {
        assert(title[k] >= '\u{20}');
    }
    assert forall|i: int| 0 <= i < title.len() - 1 implies !(title[i] == '.' && #[trigger] title[i
        + 1] == '.') by {
        let k = i + 1;
        assert(!(title[k - 1] == '.' && title[k] == '.'));
    }
    a_clean_name_is_kept(title);
    a_trimmed_name_stays(title);
}

/// The characters of a title that a name can hold: all but the control characters and the
/// two slashes.
pub open spec fn storable(title: Seq<char>) -> Seq<char> {
    title.filter(
        |c: char| c >= '\u{20}' && !('\u{7f}' <= c <= '\u{9f}') && c != '/' && c != '\\',
    )
}

proof fn storable_is_kept(title: Seq<char>)
    requires
        forall|k: int| 0 <= k < title.len() ==> #[trigger] title[k] != '.',
    ensures
        kept(title) == storable(title),
        forall|k: int| 0 <= k < kept(title).len() ==> kept(title)[k] != '.',
    decreases title.len(),
{
    reveal(Seq::filter);
    if title.len() > 0 {
        let rest = title.drop_last();
        assert forall|k: int| 0 <= k < rest.len() implies #[trigger] rest[k] != '.' by {
            assert(title[k] != '.');
        }
        storable_is_kept(rest);
        assert(title[title.len() - 1] != '.');
        assert forall|k: int| 0 <= k < kept(title).len() implies kept(title)[k] != '.' by {
            if k < kept(rest).len() {
                assert(kept(title)[k] == kept(rest)[k]);
            }
        }
    } else {
        assert(storable(title) =~= title);
    }
}

/// What a name cannot hold goes, and nothing else does: of a title without dots, the name is
/// every character but the control characters and the two slashes, in order; less the white
/// space around them; cut at 200; and a fixed name where nothing is left.
pub proof fn only_what_cannot_be_stored_goes(
    title: Seq<char>,
    front: Seq<char>,
    core: Seq<char>,
    back: Seq<char>,
)
    requires
        forall|k: int| 0 <= k < title.len() ==> #[trigger] title[k] != '.',
        storable(title) == front + core + back,
        forall|k: int| 0 <= k < front.len() ==> blank(#[trigger] front[k]),
        forall|k: int| 0 <= k < back.len() ==> blank(#[trigger] back[k]),
        core.len() > 0 ==> !blank(core[0]) && !blank(core.last()),
    ensures
        core.len() == 0 ==> cleaned(title) == "Untitled board"@,
        1 <= core.len() <= 200 ==> cleaned(title) == core,
        core.len() > 200 && !blank(core[199]) ==> cleaned(title) == core.take(200),
{
    storable_is_kept(title);
    trimming_leaves_what_stands_between(front, core, back);
    a_trimmed_name_stays(core);
    if core.len() > 200 && !blank(core[199]) {
        let cut = core.take(200);
        assert(cut[0] == core[0] && cut.last() == core[199]);
        a_trimmed_name_stays(cut);
    }
}

/// A board whose recorded id the server still lists is that board; one whose id is not
/// recorded, or no longer listed, is the row named by its file only where that row bears the
/// board's own title and the file's name is one no other title leads to.
pub proof fn a_board_is_found_by_its_record_or_by_its_name(
    known: Option<Seq<char>>,
    stem: Seq<char>,
    title: Seq<char>,
    rows: Seq<Row>,
    k: int,
)
    requires
        0 <= k < rows.len(),
    ensures
        known == Some(rows[k].id@) ==> claimed(known, stem, title, rows) == known,
        known is None && rows[k].id@ == stem && rows[k].title@ == cleaned(title) && slugged(title)
            == stem && stem != "board"@ && stem != "untitled"@ ==> claimed(
            known,
            stem,
            title,
            rows,
        ) == Some(stem),
        known is None && (forall|j: int| 0 <= j < rows.len() ==> (#[trigger] rows[j]).id@ != stem)
            ==> claimed(known, stem, title, rows) is None,
        known is None && (forall|j: int|
            0 <= j < rows.len() ==> (#[trigger] rows[j]).title@ != cleaned(title)) ==> claimed(
            known,
            stem,
            title,
            rows,
        ) is None,
        known is None && (stem == "board"@ || stem == "untitled"@) ==> claimed(
            known,
            stem,
            title,
            rows,
        ) is None,
{
}

/// A name with a number behind a dash is another board's whenever the title does not lead to
/// it: it is not taken, however the rows read.
pub proof fn a_numbered_file_is_not_taken_for_another_title(
    head: Seq<char>,
    digits: Seq<char>,
    title: Seq<char>,
    rows: Seq<Row>,
)
    requires
        digits.len() > 0,
        forall|k: int| 0 <= k < digits.len() ==> '0' <= #[trigger] digits[k] <= '9',
        slugged(title) != head + seq!['-'] + digits,
    ensures
        claimed(None, head + seq!['-'] + digits, title, rows) is None,
    decreases digits.len(),
{
    digits_leave_the_dash(head, digits);
}

proof fn digits_leave_the_dash(head: Seq<char>, digits: Seq<char>)
    requires
        forall|k: int| 0 <= k < digits.len() ==> '0' <= #[trigger] digits[k] <= '9',
    ensures
        without_digits(head + seq!['-'] + digits) == head + seq!['-'],
    decreases digits.len(),
{
    let all = head + seq!['-'] + digits;
    if digits.len() == 0 {
        assert(all =~= head + seq!['-']);
        assert(all.last() == '-');
    } else {
        let less = digits.drop_last();
        assert('0' <= digits[digits.len() - 1] <= '9');
        assert(all.last() == digits.last());
        assert forall|k: int| 0 <= k < less.len() implies '0' <= #[trigger] less[k] <= '9' by {
            assert('0' <= digits[k] <= '9');
        }
        assert(all.drop_last() =~= head + seq!['-'] + less);
        digits_leave_the_dash(head, less);
    }
}

/// A name that ends in no number is one file's alone: the row that bears it and the board's
/// title is the board, whatever the title is.
pub proof fn an_unnumbered_file_is_taken_by_its_title(
    stem: Seq<char>,
    title: Seq<char>,
    rows: Seq<Row>,
    k: int,
)
    requires
        0 <= k < rows.len(),
        rows[k].id@ == stem,
        rows[k].title@ == cleaned(title),
        stem.len() > 0 ==> !('0' <= stem.last() <= '9'),
        stem != "board"@,
        stem != "untitled"@,
    ensures
        claimed(None, stem, title, rows) == Some(stem),
{
    assert(without_digits(stem) == stem);
}

/// What a status says, by its number.
pub proof fn a_status_is_read_by_its_number(status: u16)
    ensures
        success(status) <==> status as int / 100 == 2,
        refused(status) <==> status == 401 || status == 403,
{
}

/// The sentence for an answer names its status, and quotes what it said: all of it up to 200
/// characters, without the white space around it.
pub proof fn an_answer_is_quoted(
    status: u16,
    front: Seq<char>,
    said: Seq<char>,
    back: Seq<char>,
)
    requires
        forall|k: int| 0 <= k < front.len() ==> blank(#[trigger] front[k]),
        forall|k: int| 0 <= k < back.len() ==> blank(#[trigger] back[k]),
        said.len() > 0 ==> !blank(said[0]) && !blank(said.last()),
    ensures
        said.len() == 0 ==> detail_of(status, front + said + back) == "HTTP "@ + decimal(
            status as nat,
        ),
        1 <= said.len() <= 200 ==> detail_of(status, front + said + back) == "HTTP "@ + decimal(
            status as nat,
        ) + ": "@ + said,
        said.len() > 200 ==> detail_of(status, front + said + back) == "HTTP "@ + decimal(
            status as nat,
        ) + ": "@ + said.take(200),
{
    trimming_leaves_what_stands_between(front, said, back);
}

proof fn recorded_in_two(
    a: Seq<Naming>,
    b: Seq<Naming>,
    board: Seq<char>,
    server: Seq<char>,
)
    ensures
        recorded_id(a + b, board, server) == (match recorded_id(a, board, server) {
            Some(id) => Some(id),
            None => recorded_id(b, board, server),
        }),
    decreases a.len(),
{
    if a.len() == 0 {
        assert(a + b =~= b);
    } else {
        assert((a + b)[0] == a[0]);
        assert((a + b).skip(1) =~= a.skip(1) + b);
        recorded_in_two(a.skip(1), b, board, server);
    }
}

proof fn recorded_in_one(one: Naming, board: Seq<char>, server: Seq<char>)
    ensures
        recorded_id(seq![one], board, server) == (if one.board == board && one.server == server {
            Some(one.id)
        } else {
            None
        }),
{
    assert(seq![one][0] == one);
    assert(seq![one].skip(1).len() == 0);
    assert(recorded_id(seq![one].skip(1), board, server) is None);
}

proof fn unrecorded_drops(
    records: Seq<Naming>,
    board: Seq<char>,
    server: Seq<char>,
    other_board: Seq<char>,
    other_server: Seq<char>,
)
    ensures
        recorded_id(unrecorded(records, board, server), board, server) is None,
        (other_board != board || other_server != server) ==> recorded_id(
            unrecorded(records, board, server),
            other_board,
            other_server,
        ) == recorded_id(records, other_board, other_server),
    decreases records.len(),
{
    if records.len() > 0 {
        let rest = records.drop_last();
        let one = records.last();
        unrecorded_drops(rest, board, server, other_board, other_server);
        assert(records =~= rest + seq![one]);
        let before = unrecorded(rest, board, server);
        assert(before.push(one) =~= before + seq![one]);
        recorded_in_two(rest, seq![one], other_board, other_server);
        recorded_in_two(before, seq![one], other_board, other_server);
        recorded_in_two(before, seq![one], board, server);
        recorded_in_one(one, board, server);
        recorded_in_one(one, other_board, other_server);
    }
}

/// What was recorded is what is found, per board and per server, and recording one leaves
/// every other alone. A second run cannot double the file: a board has one record per
/// server after its id was recorded, however many it had before.
pub proof fn a_recorded_id_is_found_again(
    records: Seq<Naming>,
    board: Seq<char>,
    server: Seq<char>,
    id: Seq<char>,
    other_board: Seq<char>,
    other_server: Seq<char>,
)
    ensures
        ({
            let after = unrecorded(records, board, server).push((Naming { board, server, id }));
            &&& recorded_id(after, board, server) == Some(id)
            &&& (other_board != board || other_server != server) ==> recorded_id(
                after,
                other_board,
                other_server,
            ) == recorded_id(records, other_board, other_server)
            &&& unrecorded(after, board, server).len() + 1 == after.len()
        }),
{
    let before = unrecorded(records, board, server);
    let one = Naming { board, server, id };
    let after = before.push(one);
    unrecorded_drops(records, board, server, other_board, other_server);
    assert(after =~= before + seq![one]);
    recorded_in_two(before, seq![one], board, server);
    recorded_in_two(before, seq![one], other_board, other_server);
    recorded_in_one(one, board, server);
    recorded_in_one(one, other_board, other_server);
    assert(after.drop_last() =~= before);
    unrecorded_twice(records, board, server);
}

proof fn unrecorded_twice(records: Seq<Naming>, board: Seq<char>, server: Seq<char>)
    ensures
        unrecorded(unrecorded(records, board, server), board, server) == unrecorded(
            records,
            board,
            server,
        ),
    decreases records.len(),
{
    if records.len() > 0 {
        unrecorded_twice(records.drop_last(), board, server);
        let before = unrecorded(records.drop_last(), board, server);
        assert(before.push(records.last()).drop_last() =~= before);
    }
}

/// No event is lost and none is handed out twice: what a drain hands out and what still
/// waits are together what was waiting. At most 64 go at once, and none after the summary.
pub proof fn a_drain_loses_nothing(waiting: Seq<PushEvent>, cap: nat)
    ensures
        handed_out(waiting, cap) <= cap,
        handed_out(waiting, cap) <= waiting.len(),
        waiting.take(handed_out(waiting, cap) as int) + waiting.skip(
            handed_out(waiting, cap) as int,
        ) == waiting,
        forall|i: int|
            0 <= i < handed_out(waiting, cap) - 1 ==> !((#[trigger] waiting[i]) is Finished),
    decreases cap,
{
    if cap > 0 && waiting.len() > 0 && !(waiting[0] is Finished) {
        a_drain_loses_nothing(waiting.skip(1), (cap - 1) as nat);
        assert forall|i: int| 0 <= i < handed_out(waiting, cap) - 1 implies !((
        #[trigger] waiting[i]) is Finished) by {
            if i > 0 {
                assert(waiting[i] == waiting.skip(1)[i - 1]);
            }
        }
    }
    let count = handed_out(waiting, cap) as int;
    assert(waiting.take(count) + waiting.skip(count) =~= waiting);
}

/// How much is handed out at once: what is waiting, up to its summary and that included, and at
/// most as many as are asked for; a call asks for 64.
pub proof fn a_drain_goes_up_to_the_summary(waiting: Seq<PushEvent>, cap: nat, k: int)
    requires
        0 <= k <= waiting.len(),
        forall|j: int| 0 <= j < k ==> !((#[trigger] waiting[j]) is Finished),
        k < waiting.len() ==> waiting[k] is Finished,
    ensures
        ({
            let upto = if k < waiting.len() {
                k + 1
            } else {
                waiting.len() as int
            };
            handed_out(waiting, cap) == (if upto < cap {
                upto
            } else {
                cap as int
            })
        }),
        DRAIN_CAP == 64,
    decreases cap,
{
    if cap > 0 && waiting.len() > 0 && k > 0 {
        assert(!(waiting[0] is Finished));
        let rest = waiting.skip(1);
        assert forall|j: int| 0 <= j < k - 1 implies !((#[trigger] rest[j]) is Finished) by {
            assert(!(waiting[j + 1] is Finished));
        }
        a_drain_goes_up_to_the_summary(rest, (cap - 1) as nat, k - 1);
    }
}

/// The id of a board on a server is that of its first record there, and none where it has no
/// record; recording one drops the records of that board on that server and no others.
pub proof fn a_board_has_one_id_per_server(
    records: Seq<Naming>,
    board: Seq<char>,
    server: Seq<char>,
    k: int,
)
    requires
        0 <= k <= records.len(),
        forall|j: int|
            0 <= j < k ==> (#[trigger] records[j]).board != board || records[j].server != server,
        k < records.len() ==> records[k].board == board && records[k].server == server,
    ensures
        k < records.len() ==> recorded_id(records, board, server) == Some(records[k].id),
        k == records.len() ==> recorded_id(records, board, server) is None,
    decreases records.len(),
{
    if k > 0 {
        assert(records[0].board != board || records[0].server != server);
        let rest = records.skip(1);
        assert forall|j: int| 0 <= j < k - 1 implies (#[trigger] rest[j]).board != board
            || rest[j].server != server by {
            assert(records[j + 1].board != board || records[j + 1].server != server);
        }
        a_board_has_one_id_per_server(rest, board, server, k - 1);
    }
}

/// What is dropped for a new record is what the board had on that server, and nothing else.
pub proof fn a_new_record_replaces_its_own(
    records: Seq<Naming>,
    board: Seq<char>,
    server: Seq<char>,
)
    ensures
        unrecorded(records, board, server) == records.filter(
            |record: Naming| record.board != board || record.server != server,
        ),
    decreases records.len(),
{
    reveal(Seq::filter);
    if records.len() > 0 {
        a_new_record_replaces_its_own(records.drop_last(), board, server);
    }
}

/// A run begins with every count at nothing and nothing said of how it ended.
pub proof fn nothing_has_happened_yet()
    ensures
        ({
            let summary = PushSummary::zero();
            &&& summary.boards_sent == 0 && summary.boards_failed == 0 && summary.boards_total == 0
            &&& summary.blobs_sent == 0 && summary.blobs_too_big == 0 && summary.bytes == 0
            &&& !summary.stopped && !summary.session_lost && !summary.unreachable
            &&& !summary.worker_lost
        }),
{
}

/// The digits at the end of a name are its counter where a dash stands in front of them, with
/// something before that or not; without digits, or without the dash, there is none.
pub proof fn a_counter_stands_behind_a_dash(front: Seq<char>, digits: Seq<char>)
    requires
        forall|k: int| 0 <= k < digits.len() ==> '0' <= #[trigger] digits[k] <= '9',
        front.len() > 0 ==> !('0' <= front.last() <= '9'),
    ensures
        has_counter(front + digits) <==> digits.len() > 0 && front.len() > 0 && front.last() == '-',
    decreases digits.len(),
{
    the_digits_go(front, digits);
}

proof fn the_digits_go(front: Seq<char>, digits: Seq<char>)
    requires
        forall|k: int| 0 <= k < digits.len() ==> '0' <= #[trigger] digits[k] <= '9',
        front.len() > 0 ==> !('0' <= front.last() <= '9'),
    ensures
        without_digits(front + digits) == front,
    decreases digits.len(),
{
    if digits.len() > 0 {
        let less = digits.drop_last();
        assert('0' <= digits[digits.len() - 1] <= '9');
        assert forall|k: int| 0 <= k < less.len() implies '0' <= #[trigger] less[k] <= '9' by {
            assert('0' <= digits[k] <= '9');
        }
        assert((front + digits).drop_last() =~= front + less);
        the_digits_go(front, less);
    } else {
        assert(front + digits =~= front);
    }
}

/// What a name cannot hold does not matter to it: a title reads as it would without.
pub proof fn what_cannot_be_stored_does_not_matter(title: Seq<char>)
    ensures
        kept(title) == kept(storable(title)),
        cleaned(title) == cleaned(storable(title)),
    decreases title.len(),
{
    reveal(Seq::filter);
    if title.len() > 0 {
        let rest = title.drop_last();
        what_cannot_be_stored_does_not_matter(rest);
        if allowed(title.last()) {
            assert(storable(title) == storable(rest).push(title.last()));
            assert(storable(title).drop_last() =~= storable(rest));
        }
    }
}

/// Two dots in a row go, and what stood around them is read on.
pub proof fn two_dots_in_a_row_go(front: Seq<char>, back: Seq<char>)
    requires
        front.len() == 0 || kept(front).len() == 0 || kept(front).last() != '.',
    ensures
        kept(front + seq!['.', '.'] + back) == kept(front + back),
    decreases back.len(),
{
    let all = front + seq!['.', '.'] + back;
    if back.len() > 0 {
        let less = back.drop_last();
        two_dots_in_a_row_go(front, less);
        assert(all.drop_last() =~= front + seq!['.', '.'] + less);
        assert((front + back).drop_last() =~= front + less);
        assert(all.last() == back.last() && (front + back).last() == back.last());
    } else {
        assert(all =~= front + seq!['.', '.']);
        assert(front + back =~= front);
        let one = front + seq!['.'];
        assert(all.drop_last() =~= one);
        assert(one.drop_last() =~= front);
        assert(kept(one) == kept(front).push('.'));
        assert(kept(one).drop_last() =~= kept(front));
    }
}

/// The summary is among what is handed out exactly where it stands within the count.
pub proof fn the_summary_is_among_what_is_handed_out(waiting: Seq<PushEvent>, count: int, k: int)
    requires
        0 <= k < waiting.len(),
        waiting[k] is Finished,
        forall|j: int| 0 <= j < k ==> !((#[trigger] waiting[j]) is Finished),
    ensures
        ends_within(waiting, count) <==> k < count,
{
}

/// A record is read by its board's place, its server and its id.
pub proof fn a_record_is_read_by_its_place(ids: RemoteIds, k: int)
    ensures
        ids.names().len() == ids.records@.len(),
        0 <= k < ids.records@.len() ==> {
            &&& ids.names()[k].board == normal(ids.records@[k].board@)
            &&& ids.names()[k].server == ids.records@[k].server@
            &&& ids.names()[k].id == ids.records@[k].id@
        },
{
}

} // verus!
