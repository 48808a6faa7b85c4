//! The flight recorder: what the application was doing just before it died.
//!
//! Plain text, one line at a time, to a file per session. A killed process loses at most
//! the line in flight; the next start reads the last session's file, sees that it has no
//! `EXIT` line, and reports how it ended.
//!
//! The recorder here makes the lines and keeps what they depend on: the peak, which
//! gigabytes were already alarmed on, and the last events. The elapsed time at the head of
//! a line comes formatted.

use std::collections::VecDeque;

use vstd::prelude::*;

use crate::readback::a_number_reads_back;
use crate::text::{
    chars_of, comes_before, decimal, decimal_of, ends_with, has_suffix, joined, lines, lines_of,
    padded, padded_of, padding_keeps_order, pow10, precedes, same, starts_with, text_of, texts,
    the_order_is_total, the_order_is_transitive,
};

verus! {

/// How many session files are kept.
pub const KEEP_SESSIONS: usize = 12;

/// How many recent events an alarm reprints.
pub const RECENT_EVENTS: usize = 24;

/// How many lines of a record a report quotes.
pub const TAIL_LINES: usize = 12;

/// One megabyte, in bytes.
pub const MEGABYTE: u64 = 1_048_576;

/// One gigabyte, in bytes.
pub const GIGABYTE: u64 = 1_073_741_824;

/// What is sampled once a second.
#[derive(Clone, Debug)]
pub struct Sample {
    pub rss: u64,
    pub texture_bytes: u64,
    pub texture_peak: u64,
    pub textures: u64,
    pub glyph_bitmaps: u64,
    pub chrome_textures: u64,
    pub previews: u64,
    pub parked_boards: u64,
    pub items: u64,
    pub drawn: u64,
    pub text_layouts: u64,
    pub ink_meshes: u64,
    pub undo_depth: u64,
    /// Frames per second, rounded to a whole number.
    pub fps: String,
    /// Zoom in percent, rounded to a whole number.
    pub zoom: String,
}

/// One session's record.
#[derive(Clone, Debug)]
pub struct Recorder {
    pub peak_rss: u64,
    /// The gigabytes already alarmed on.
    pub alarmed_gb: u64,
    /// The last events, oldest first.
    pub recent: VecDeque<String>,
}

/// The events remembered once one more came: the oldest goes where there is no room.
pub open spec fn remembered(recent: Seq<Seq<char>>, event: Seq<char>) -> Seq<Seq<char>> {
    if recent.len() == RECENT_EVENTS {
        recent.skip(1).push(event)
    } else {
        recent.push(event)
    }
}

/// A label and a number after what is there.
pub open spec fn with_number(line: Seq<char>, label: Seq<char>, n: u64) -> Seq<char> {
    line + label + decimal(n as nat)
}

fn add_number(line: &str, label: &str, n: u64) -> (longer: String)
    ensures
        longer@ == with_number(line@, label@, n),
{
    let head = joined(line, label);
    joined(head.as_str(), decimal_of(n).as_str())
}

/// The memory part of a sample line.
pub open spec fn memory_part(clock: Seq<char>, sample: Sample) -> Seq<char> {
    let a = with_number("SAMPLE  "@ + clock, " rss="@, (sample.rss / MEGABYTE) as u64);
    let b = with_number(a, "M tex="@, (sample.texture_bytes / MEGABYTE) as u64);
    let c = with_number(b, "M/"@, (sample.texture_peak / MEGABYTE) as u64);
    with_number(c, "M×"@, sample.textures)
}

/// The part of a sample line that counts what the caches hold.
pub open spec fn cache_part(line: Seq<char>, sample: Sample) -> Seq<char> {
    let a = with_number(line, " glyphs="@, sample.glyph_bitmaps);
    let b = with_number(a, " chrome="@, sample.chrome_textures);
    let c = with_number(b, " previews="@, sample.previews);
    let d = with_number(c, " parked="@, sample.parked_boards);
    let e = with_number(d, " items="@, sample.items);
    let f = with_number(e, " drawn="@, sample.drawn);
    let g = with_number(f, " layouts="@, sample.text_layouts);
    let h = with_number(g, " ink="@, sample.ink_meshes);
    with_number(h, " undo="@, sample.undo_depth)
}

/// A sample line.
pub open spec fn sample_line(clock: Seq<char>, sample: Sample) -> Seq<char> {
    cache_part(memory_part(clock, sample), sample) + " fps="@ + sample.fps@ + " zoom="@
        + sample.zoom@ + "%"@
}

fn line_of_sample(clock: &str, sample: &Sample) -> (line: String)
    ensures
        line@ == sample_line(clock@, *sample),
{
    let head = joined("SAMPLE  ", clock);
    let a = add_number(head.as_str(), " rss=", sample.rss / MEGABYTE);
    let b = add_number(a.as_str(), "M tex=", sample.texture_bytes / MEGABYTE);
    let c = add_number(b.as_str(), "M/", sample.texture_peak / MEGABYTE);
    let memory = add_number(c.as_str(), "M×", sample.textures);
    let a = add_number(memory.as_str(), " glyphs=", sample.glyph_bitmaps);
    let b = add_number(a.as_str(), " chrome=", sample.chrome_textures);
    let c = add_number(b.as_str(), " previews=", sample.previews);
    let d = add_number(c.as_str(), " parked=", sample.parked_boards);
    let e = add_number(d.as_str(), " items=", sample.items);
    let f = add_number(e.as_str(), " drawn=", sample.drawn);
    let g = add_number(f.as_str(), " layouts=", sample.text_layouts);
    let h = add_number(g.as_str(), " ink=", sample.ink_meshes);
    let caches = add_number(h.as_str(), " undo=", sample.undo_depth);
    let i = joined(caches.as_str(), " fps=");
    let j = joined(i.as_str(), sample.fps.as_str());
    let k = joined(j.as_str(), " zoom=");
    let l = joined(k.as_str(), sample.zoom.as_str());
    joined(l.as_str(), "%")
}

/// The line of an alarm.
pub open spec fn alarm_line(clock: Seq<char>, gb: u64, events: nat) -> Seq<char> {
    "ALARM   "@ + clock + " crossed "@ + decimal(gb as nat)
        + " GB — budget is 0.4 GB. Last "@ + decimal(events) + " events follow."@
}

/// The lines that reprint the events that led up to an alarm.
pub open spec fn leadup(recent: Seq<Seq<char>>) -> Seq<Seq<char>> {
    recent.map_values(|event: Seq<char>| "LEADUP  "@ + event)
}

/// Whether a sample crosses a gigabyte that was not crossed before.
pub open spec fn crosses(rss: u64, alarmed_gb: u64) -> bool {
    rss / GIGABYTE >= 1 && rss / GIGABYTE > alarmed_gb
}

/// The lines a sample adds.
pub open spec fn sample_lines(
    clock: Seq<char>,
    sample: Sample,
    alarmed_gb: u64,
    recent: Seq<Seq<char>>,
) -> Seq<Seq<char>> {
    let first = seq![sample_line(clock, sample)];
    if crosses(sample.rss, alarmed_gb) {
        first.push(
            alarm_line(clock, (sample.rss / GIGABYTE) as u64, recent.len()),
        ) + leadup(recent)
    } else {
        first
    }
}

impl Recorder {
    /// A record that has just been opened.
    pub fn new() -> (recorder: Recorder)
        ensures
            recorder.peak_rss == 0,
            recorder.alarmed_gb == 0,
            recorder.recent@.len() == 0,
    {
        Recorder { peak_rss: 0, alarmed_gb: 0, recent: VecDeque::new() }
    }

    /// What holds of every record: no more events are remembered than an alarm reprints.
    pub open spec fn well_formed(self) -> bool {
        self.recent@.len() <= RECENT_EVENTS
    }

    pub fn peak_rss(&self) -> (peak: u64)
        ensures
            peak == self.peak_rss,
    {
        self.peak_rss
    }

    /// Notes something the user did. Returns the line to write.
    pub fn event(&mut self, clock: &str, what: &str) -> (line: String)
        requires
            old(self).well_formed(),
        ensures
            line@ == "EVENT   "@ + clock@ + " "@ + what@,
            texts(final(self).recent@) == remembered(
                texts(old(self).recent@),
                clock@ + " "@ + what@,
            ),
            final(self).well_formed(),
            *final(self) == (Recorder { recent: final(self).recent, ..*old(self) }),
    {
        let head = joined(clock, " ");
        let note = joined(head.as_str(), what);
        if self.recent.len() == RECENT_EVENTS {
            let _oldest = self.recent.pop_front();
        }
        let ghost before = self.recent@;
        let line_head = joined("EVENT   ", clock);
        let line_body = joined(line_head.as_str(), " ");
        let line = joined(line_body.as_str(), what);
        self.recent.push_back(note);
        proof {
            assert(texts(self.recent@) =~= texts(before).push(note@));
            assert(texts(self.recent@) =~= remembered(texts(old(self).recent@), note@));
        }
        line
    }

    /// Records one second's worth of memory, and alarms if it has crossed a gigabyte it has
    /// not crossed before. Returns the lines to write.
    pub fn sample(&mut self, clock: &str, sample: &Sample) -> (written: Vec<String>)
        requires
            old(self).well_formed(),
        ensures
            texts(written@) == sample_lines(
                clock@,
                *sample,
                old(self).alarmed_gb,
                texts(old(self).recent@),
            ),
            final(self).peak_rss == (if sample.rss > old(self).peak_rss {
                sample.rss
            } else {
                old(self).peak_rss
            }),
            final(self).alarmed_gb == (if crosses(sample.rss, old(self).alarmed_gb) {
                (sample.rss / GIGABYTE) as u64
            } else {
                old(self).alarmed_gb
            }),
            final(self).recent == old(self).recent,
            final(self).well_formed(),
    {
        if sample.rss > self.peak_rss {
            self.peak_rss = sample.rss;
        }
        let mut written: Vec<String> = Vec::new();
        written.push(line_of_sample(clock, sample));
        let gb: u64 = sample.rss / GIGABYTE;
        proof {
            assert(texts(written@) =~= seq![sample_line(clock@, *sample)]);
        }
        if gb >= 1 && gb > self.alarmed_gb {
            self.alarmed_gb = gb;
            let head = joined("ALARM   ", clock);
            let crossed = add_number(head.as_str(), " crossed ", gb);
            let budget = joined(crossed.as_str(), " GB — budget is 0.4 GB. Last ");
            let count = joined(budget.as_str(), decimal_of(self.recent.len() as u64).as_str());
            written.push(joined(count.as_str(), " events follow."));
            let ghost first = texts(written@);
            let ghost all = leadup(texts(self.recent@));
            proof {
                assert(first =~= seq![sample_line(clock@, *sample)].push(
                    alarm_line(clock@, gb, self.recent@.len()),
                ));
                assert(first + all.take(0) =~= first);
            }
            let mut at: usize = 0;
            while at < self.recent.len()
                invariant
                    at <= self.recent@.len(),
                    all == leadup(texts(self.recent@)),
                    texts(written@) == first + all.take(at as int),
                    self.recent == old(self).recent,
                    self.alarmed_gb == gb,
                    self.peak_rss == (if sample.rss > old(self).peak_rss {
                        sample.rss
                    } else {
                        old(self).peak_rss
                    }),
                decreases self.recent@.len() - at,
            {
                let ghost before = written@;
                written.push(joined("LEADUP  ", self.recent[at].as_str()));
                at = at + 1;
                proof {
                    assert(texts(written@) =~= texts(before).push(all[at - 1]));
                    assert(first + all.take(at as int) =~= (first + all.take(at - 1)).push(
                        all[at - 1],
                    ));
                }
            }
            proof {
                assert(all.take(all.len() as int) =~= all);
            }
        }
        written
    }

    /// The line of a clean shutdown. Its absence is what tells the next run that the session
    /// was killed.
    pub fn finish(&self, clock: &str, reason: &str) -> (line: String)
        ensures
            line@ == with_number(
                "EXIT    "@ + clock@ + " "@ + reason@,
                " peak_rss="@,
                (self.peak_rss / MEGABYTE) as u64,
            ) + "M"@,
    {
        let head = joined("EXIT    ", clock);
        let gap = joined(head.as_str(), " ");
        let why = joined(gap.as_str(), reason);
        let peak = add_number(why.as_str(), " peak_rss=", self.peak_rss / MEGABYTE);
        joined(peak.as_str(), "M")
    }
}

/// Seconds since the epoch, for the first line of a record.
pub fn wall_clock(seconds: u64) -> (text: String)
    ensures
        text@ == "epoch="@ + decimal(seconds as nat),
{
    joined("epoch=", decimal_of(seconds).as_str())
}

/// The first line of a record.
pub fn start_line(seconds: u64, pid: u64, version: &str) -> (line: String)
    ensures
        line@ == with_number("START   epoch="@ + decimal(seconds as nat), " pid="@, pid)
            + " version="@ + version@,
{
    let head = joined("START   ", wall_clock(seconds).as_str());
    let named = add_number(head.as_str(), " pid=", pid);
    let last = joined(named.as_str(), " version=");
    proof {
        reveal_strlit("START   ");
        reveal_strlit("epoch=");
        reveal_strlit("START   epoch=");
        assert("START   "@ + "epoch="@ =~= "START   epoch="@);
        assert(head@ =~= "START   epoch="@ + decimal(seconds as nat));
    }
    joined(last.as_str(), version)
}

/// The stamp of a session: seconds since the epoch, padded so that file names sort as time
/// does, then the process, then a counter for sessions opened in the same second.
pub open spec fn stamp_of(seconds: u64, pid: u64, sequence: u64) -> Seq<char> {
    padded(seconds as nat, 14) + "-"@ + decimal(pid as nat) + "-"@ + padded(sequence as nat, 4)
}

/// The stamp of a session.
pub fn stamp_for_filename(seconds: u64, pid: u64, sequence: u64) -> (stamp: String)
    ensures
        stamp@ == stamp_of(seconds, pid, sequence),
{
    let time = padded_of(seconds, 14);
    let a = joined(time.as_str(), "-");
    let b = joined(a.as_str(), decimal_of(pid).as_str());
    let c = joined(b.as_str(), "-");
    joined(c.as_str(), padded_of(sequence, 4).as_str())
}

// ----- the last session ----------------------------------------------------------------

/// What the last session's record says about how it ended.
#[derive(Clone, Debug)]
pub struct PreviousSession {
    pub path: String,
    /// `false` when the record has no `EXIT` line: the session was killed.
    pub clean: bool,
    /// The highest `rss=` in the record, in bytes.
    pub peak_rss: u64,
    /// The last few lines.
    pub tail: Vec<String>,
}

/// Where ` rss=` first stands in a line, or -1.
pub open spec fn rss_at(line: Seq<char>) -> int
    decreases line.len(),
{
    if line.len() < 5 {
        -1
    } else if line[0] == ' ' && line[1] == 'r' && line[2] == 's' && line[3] == 's' && line[4]
        == '=' {
        0
    } else {
        let rest = rss_at(line.skip(1));
        if rest < 0 {
            -1
        } else {
            1 + rest
        }
    }
}

/// The decimal digits a text starts with.
pub open spec fn leading_digits(text: Seq<char>) -> Seq<char>
    decreases text.len(),
{
    if text.len() > 0 && '0' <= text[0] <= '9' {
        seq![text[0]] + leading_digits(text.skip(1))
    } else {
        Seq::empty()
    }
}

/// The number that decimal digits spell.
pub open spec fn number(text: Seq<char>) -> nat {
    crate::options::digits_value(text)
}

/// The bytes that the first `rss=<n>M` of a line states. A number of megabytes that is no
/// number of bytes states none.
pub open spec fn stated_rss(line: Seq<char>) -> Option<u64> {
    let at = rss_at(line);
    if at < 0 {
        None
    } else {
        let digits = leading_digits(line.skip(at + 5));
        if digits.len() == 0 || number(digits) * 1_048_576 > u64::MAX {
            None
        } else {
            Some((number(digits) * 1_048_576) as u64)
        }
    }
}

proof fn rss_at_bound(line: Seq<char>)
    ensures
        -1 <= rss_at(line),
        rss_at(line) >= 0 ==> rss_at(line) + 5 <= line.len(),
    decreases line.len(),
{
    if line.len() >= 5 {
        rss_at_bound(line.skip(1));
    }
}

proof fn leading_digits_are_digits(text: Seq<char>)
    ensures
        leading_digits(text).len() <= text.len(),
        leading_digits(text) == text.take(leading_digits(text).len() as int),
        crate::options::all_digits(leading_digits(text)),
    decreases text.len(),
{
    if text.len() > 0 && '0' <= text[0] <= '9' {
        leading_digits_are_digits(text.skip(1));
        let rest = leading_digits(text.skip(1));
        let all = leading_digits(text);
        assert(all =~= text.take(all.len() as int));
        assert forall|k: int| 0 <= k < all.len() implies '0' <= #[trigger] all[k] <= '9' by {
            if k > 0 {
                assert(all[k] == rest[k - 1]);
            }
        }
    } else {
        assert(text.take(0) =~= Seq::<char>::empty());
    }
}

/// The bytes that a sample line states.
pub fn peak_of_line(line: &str) -> (rss: Option<u64>)
    ensures
        rss == stated_rss(line@),
{
    let chars = chars_of(line);
    let mut at: usize = 0;
    proof {
        assert(line@.skip(0) =~= line@);
        rss_at_bound(line@);
    }
    while chars.len() - at >= 5 && !(chars[at] == ' ' && chars[at + 1] == 'r' && chars[at + 2]
        == 's' && chars[at + 3] == 's' && chars[at + 4] == '=')
        invariant
            at <= chars@.len(),
            chars@ == line@,
            rss_at(line@) == (if rss_at(line@.skip(at as int)) < 0 {
                -1
            } else {
                at + rss_at(line@.skip(at as int))
            }),
        decreases chars@.len() - at,
    {
        proof {
            let tail = line@.skip(at as int);
            assert(tail[0] == chars@[at as int] && tail[1] == chars@[at + 1] && tail[2]
                == chars@[at + 2] && tail[3] == chars@[at + 3] && tail[4] == chars@[at + 4]);
            assert(tail.skip(1) =~= line@.skip(at + 1));
        }
        at = at + 1;
    }
    if chars.len() - at < 5 {
        return None;
    }
    proof {
        let tail = line@.skip(at as int);
        assert(tail[0] == chars@[at as int] && tail[1] == chars@[at + 1] && tail[2] == chars@[at
            + 2] && tail[3] == chars@[at + 3] && tail[4] == chars@[at + 4]);
        assert(rss_at(line@) == at);
    }
    let from: usize = at + 5;
    let ghost rest = line@.skip(from as int);
    let mut to: usize = from;
    proof {
        assert(rest.skip(0) =~= rest);
        assert(chars@.subrange(from as int, from as int) + leading_digits(rest)
            =~= leading_digits(rest));
    }
    while to < chars.len() && '0' <= chars[to] && chars[to] <= '9'
        invariant
            from <= to <= chars@.len(),
            chars@ == line@,
            rest == line@.skip(from as int),
            leading_digits(rest) == chars@.subrange(from as int, to as int) + leading_digits(
                rest.skip(to - from),
            ),
        decreases chars@.len() - to,
    {
        proof {
            let tail = rest.skip(to - from);
            assert(tail[0] == chars@[to as int]);
            assert(tail.skip(1) =~= rest.skip(to - from + 1));
            assert(chars@.subrange(from as int, to as int) + (seq![tail[0]] + leading_digits(
                tail.skip(1),
            )) =~= chars@.subrange(from as int, to + 1) + leading_digits(
                rest.skip(to - from + 1),
            ));
        }
        to = to + 1;
    }
    let digits = text_of(&chars, from, to);
    proof {
        let tail = rest.skip(to - from);
        if to < chars@.len() {
            assert(tail[0] == chars@[to as int]);
        }
        assert(leading_digits(tail) =~= Seq::<char>::empty());
        assert(leading_digits(rest) =~= digits@);
        leading_digits_are_digits(rest);
        if digits@.len() > 0 {
            assert('0' <= digits@[0] <= '9');
        }
        assert(crate::options::unsigned(digits@) == digits@);
    }
    match crate::options::whole(digits.as_str(), u64::MAX) {
        Some(mb) => {
            if mb <= u64::MAX / MEGABYTE {
                Some(mb * MEGABYTE)
            } else {
                None
            }
        },
        None => None,
    }
}

/// The highest that any of `lines` states, or 0.
pub open spec fn highest(lines: Seq<Seq<char>>) -> u64
    decreases lines.len(),
{
    if lines.len() == 0 {
        0
    } else {
        let before = highest(lines.drop_last());
        match stated_rss(lines.last()) {
            Some(rss) => if rss > before {
                rss
            } else {
                before
            },
            None => before,
        }
    }
}

/// Whether any of `lines` marks a clean shutdown.
pub open spec fn has_exit(lines: Seq<Seq<char>>) -> bool {
    exists|i: int| 0 <= i < lines.len() && "EXIT"@.is_prefix_of(#[trigger] lines[i])
}

/// The last `count` of a list, or all of it if it is shorter.
pub open spec fn last_of(list: Seq<Seq<char>>, count: nat) -> Seq<Seq<char>> {
    if list.len() > count {
        list.skip(list.len() - count)
    } else {
        list
    }
}

proof fn one_line_more(read: Seq<Seq<char>>, at: int)
    requires
        0 <= at < read.len(),
    ensures
        has_exit(read.take(at + 1)) == (has_exit(read.take(at)) || "EXIT"@.is_prefix_of(read[at])),
        highest(read.take(at + 1)) == (match stated_rss(read[at]) {
            Some(rss) => if rss > highest(read.take(at)) {
                rss
            } else {
                highest(read.take(at))
            },
            None => highest(read.take(at)),
        }),
{
    let seen = read.take(at);
    let next = read.take(at + 1);
    assert(next.drop_last() =~= seen);
    assert(next.last() == read[at]);
    if has_exit(seen) {
        let i = choose|i: int| 0 <= i < seen.len() && "EXIT"@.is_prefix_of(#[trigger] seen[i]);
        assert(next[i] == seen[i]);
    }
    if "EXIT"@.is_prefix_of(read[at]) {
        assert("EXIT"@.is_prefix_of(next[at]));
    }
    if has_exit(next) && !"EXIT"@.is_prefix_of(read[at]) {
        let i = choose|i: int| 0 <= i < next.len() && "EXIT"@.is_prefix_of(#[trigger] next[i]);
        assert(seen[i] == next[i]);
    }
}

/// Whether any of the lines marks a clean shutdown, and the highest that any states.
fn ending_of(all: &Vec<String>) -> (ending: (bool, u64))
    ensures
        ending.0 == has_exit(texts(all@)),
        ending.1 == highest(texts(all@)),
{
    let ghost read = texts(all@);
    let mut clean = false;
    let mut peak: u64 = 0;
    let mut at: usize = 0;
    while at < all.len()
        invariant
            at <= all@.len(),
            read == texts(all@),
            clean == has_exit(read.take(at as int)),
            peak == highest(read.take(at as int)),
        decreases all@.len() - at,
    {
        proof {
            one_line_more(read, at as int);
        }
        if starts_with(all[at].as_str(), "EXIT") {
            clean = true;
        }
        if let Some(rss) = peak_of_line(all[at].as_str()) {
            if rss > peak {
                peak = rss;
            }
        }
        at = at + 1;
    }
    proof {
        assert(read.take(read.len() as int) =~= read);
    }
    (clean, peak)
}

/// The last few lines.
fn tail_of(all: &Vec<String>) -> (tail: Vec<String>)
    ensures
        texts(tail@) == last_of(texts(all@), TAIL_LINES as nat),
{
    let ghost read = texts(all@);
    let from: usize = if all.len() > TAIL_LINES {
        all.len() - TAIL_LINES
    } else {
        0
    };
    let mut tail: Vec<String> = Vec::new();
    let mut next: usize = from;
    proof {
        assert(texts(tail@) =~= read.subrange(from as int, from as int));
    }
    while next < all.len()
        invariant
            from <= next <= all@.len(),
            read == texts(all@),
            texts(tail@) == read.subrange(from as int, next as int),
        decreases all@.len() - next,
    {
        let ghost before = tail@;
        tail.push(all[next].clone());
        next = next + 1;
        proof {
            assert(texts(tail@) =~= texts(before).push(read[next - 1]));
            assert(read.subrange(from as int, next as int) =~= read.subrange(
                from as int,
                next - 1,
            ).push(read[next - 1]));
        }
    }
    proof {
        assert(read.subrange(from as int, read.len() as int) =~= last_of(
            read,
            TAIL_LINES as nat,
        ));
    }
    tail
}

/// Reads a session's record: whether it ended cleanly, its peak, and its last lines.
pub fn read_record(path: &str, text: &str) -> (session: PreviousSession)
    ensures
        session.path@ == path@,
        session.clean == has_exit(lines_of(text@)),
        session.peak_rss == highest(lines_of(text@)),
        texts(session.tail@) == last_of(lines_of(text@), TAIL_LINES as nat),
{
    let all = lines(text);
    let (clean, peak_rss) = ending_of(&all);
    PreviousSession { path: path.to_owned(), clean, peak_rss, tail: tail_of(&all) }
}

/// Whether a file name is that of a record.
pub open spec fn record_name(name: Seq<char>) -> bool {
    has_suffix(name, ".log"@) && name.len() > 4
}

fn is_record(name: &str) -> (answer: bool)
    ensures
        answer == record_name(name@),
{
    ends_with(name, ".log") && chars_of(name).len() > 4
}

/// The record that the last session left: the one whose name sorts last among those that
/// are records and not this session's own.
pub fn newest_other(names: &Vec<String>, current: &str) -> (newest: Option<usize>)
    ensures
        newest is Some <==> exists|i: int|
            0 <= i < names@.len() && record_name(#[trigger] texts(names@)[i])
                && texts(names@)[i] != current@,
        newest is Some ==> {
            let at = newest->0 as int;
            &&& 0 <= at < names@.len()
            &&& record_name(texts(names@)[at])
            &&& texts(names@)[at] != current@
            &&& forall|i: int|
                0 <= i < names@.len() && record_name(#[trigger] texts(names@)[i])
                    && texts(names@)[i] != current@ ==> !precedes(
                    texts(names@)[at],
                    texts(names@)[i],
                )
        },
{
    let ghost all = texts(names@);
    let mut best: Option<usize> = None;
    let mut at: usize = 0;
    while at < names.len()
        invariant
            at <= names@.len(),
            all == texts(names@),
            best is None ==> forall|i: int|
                0 <= i < at ==> !(record_name(#[trigger] all[i]) && all[i] != current@),
            best is Some ==> {
                &&& best->0 < at
                &&& record_name(all[best->0 as int])
                &&& all[best->0 as int] != current@
                &&& forall|i: int|
                    0 <= i < at && record_name(#[trigger] all[i]) && all[i] != current@
                        ==> !precedes(all[best->0 as int], all[i])
            },
        decreases names@.len() - at,
    {
        let name = names[at].as_str();
        if is_record(name) && !same(name, current) {
            match best {
                None => {
                    proof {
                        the_order_is_total(all[at as int], all[at as int]);
                    }
                    best = Some(at);
                },
                Some(b) => {
                    if comes_before(names[b].as_str(), name) {
                        proof {
                            the_order_is_total(all[at as int], all[at as int]);
                            the_order_is_total(all[b as int], all[at as int]);
                            assert forall|i: int|
                                0 <= i < at + 1 && record_name(#[trigger] all[i]) && all[i]
                                    != current@ implies !precedes(all[at as int], all[i]) by {
                                if i < at && precedes(all[at as int], all[i]) {
                                    the_order_is_transitive(
                                        all[b as int],
                                        all[at as int],
                                        all[i],
                                    );
                                }
                            }
                        }
                        best = Some(at);
                    }
                },
            }
        }
        at = at + 1;
    }
    best
}

/// Whether texts stand in ascending order.
pub open spec fn in_name_order(list: Seq<Seq<char>>) -> bool {
    forall|i: int, j: int|
        0 <= i < j < list.len() ==> !precedes(#[trigger] list[j], #[trigger] list[i])
}

/// `list`, which is in order, with `one` put in after everything it does not come before.
pub open spec fn placed(list: Seq<Seq<char>>, one: Seq<char>) -> Seq<Seq<char>>
    decreases list.len(),
{
    if list.len() > 0 && precedes(one, list.last()) {
        placed(list.drop_last(), one).push(list.last())
    } else {
        list.push(one)
    }
}

/// The records among file names, in ascending order.
pub open spec fn records_in_order(names: Seq<Seq<char>>) -> Seq<Seq<char>>
    decreases names.len(),
{
    if names.len() == 0 {
        names
    } else if record_name(names.last()) {
        placed(records_in_order(names.drop_last()), names.last())
    } else {
        records_in_order(names.drop_last())
    }
}

fn place(list: &mut Vec<String>, one: &str)
    ensures
        texts(final(list)@) == placed(texts(old(list)@), one@),
{
    let ghost was = texts(list@);
    let mut at: usize = list.len();
    proof {
        assert(was.take(was.len() as int) =~= was);
        assert(was.skip(was.len() as int) =~= Seq::<Seq<char>>::empty());
        assert(placed(was, one@) + was.skip(was.len() as int) =~= placed(was, one@));
    }
    while at > 0 && comes_before(one, list[at - 1].as_str())
        invariant
            at <= list@.len(),
            was == texts(list@),
            *list == *old(list),
            placed(was, one@) == placed(was.take(at as int), one@) + was.skip(at as int),
        decreases at,
    {
        proof {
            let head = was.take(at as int);
            assert(head.last() == was[at - 1]);
            assert(head.drop_last() =~= was.take(at - 1));
            assert(placed(was.take(at - 1), one@).push(was[at - 1]) + was.skip(at as int)
                =~= placed(was.take(at - 1), one@) + was.skip(at - 1));
        }
        at = at - 1;
    }
    proof {
        let head = was.take(at as int);
        if at > 0 {
            assert(head.last() == was[at - 1]);
        }
        assert(placed(head, one@) == head.push(one@));
        assert(placed(was, one@) =~= was.insert(at as int, one@));
    }
    list.insert(at, one.to_owned());
    proof {
        assert(texts(list@) =~= was.insert(at as int, one@));
    }
}

/// The records to delete: all but the newest 12, the oldest first.
pub fn prune(names: &Vec<String>) -> (doomed: Vec<String>)
    ensures
        texts(doomed@) == (if records_in_order(texts(names@)).len() > KEEP_SESSIONS {
            records_in_order(texts(names@)).take(
                records_in_order(texts(names@)).len() - KEEP_SESSIONS,
            )
        } else {
            Seq::empty()
        }),
{
    let ghost all = texts(names@);
    let mut sorted: Vec<String> = Vec::new();
    let mut at: usize = 0;
    proof {
        assert(all.take(0) =~= Seq::<Seq<char>>::empty());
        assert(texts(sorted@) =~= Seq::<Seq<char>>::empty());
    }
    while at < names.len()
        invariant
            at <= names@.len(),
            all == texts(names@),
            texts(sorted@) == records_in_order(all.take(at as int)),
        decreases names@.len() - at,
    {
        proof {
            assert(all.take(at as int + 1).drop_last() =~= all.take(at as int));
            assert(all.take(at as int + 1).last() == all[at as int]);
        }
        if is_record(names[at].as_str()) {
            place(&mut sorted, names[at].as_str());
        }
        at = at + 1;
    }
    proof {
        assert(all.take(all.len() as int) =~= all);
    }
    let mut doomed: Vec<String> = Vec::new();
    if sorted.len() > KEEP_SESSIONS {
        let count: usize = sorted.len() - KEEP_SESSIONS;
        let ghost list = texts(sorted@);
        let mut next: usize = 0;
        proof {
            assert(texts(doomed@) =~= list.take(0));
        }
        while next < count
            invariant
                next <= count <= sorted@.len(),
                list == texts(sorted@),
                texts(doomed@) == list.take(next as int),
            decreases count - next,
        {
            let ghost before = doomed@;
            doomed.push(sorted[next].clone());
            next = next + 1;
            proof {
                assert(texts(doomed@) =~= texts(before).push(list[next - 1]));
                assert(list.take(next as int) =~= list.take(next - 1).push(list[next - 1]));
            }
        }
    } else {
        proof {
            assert(texts(doomed@) =~= Seq::<Seq<char>>::empty());
        }
    }
    doomed
}

// ----- laws ----------------------------------------------------------------------------

/// One alarm per gigabyte crossed: a sample that crosses one is not followed by another
/// alarm until memory is a whole gigabyte higher.
pub proof fn a_gigabyte_alarms_once(first: u64, second: u64, alarmed_gb: u64)
    requires
        crosses(first, alarmed_gb),
        second / GIGABYTE <= first / GIGABYTE,
    ensures
        !crosses(second, (first / GIGABYTE) as u64),
{
}

/// Session files sort by name the way the sessions follow each other in time, as long as
/// the seconds have no more than fourteen digits.
pub proof fn file_names_sort_by_time(
    a: u64,
    b: u64,
    pid_a: u64,
    pid_b: u64,
    sequence_a: u64,
    sequence_b: u64,
)
    requires
        a < b,
        b < pow10(14),
    ensures
        precedes(stamp_of(a, pid_a, sequence_a), stamp_of(b, pid_b, sequence_b)),
{
    padding_keeps_order(a as nat, b as nat, 14);
    let (x, y) = (padded(a as nat, 14), padded(b as nat, 14));
    let u = "-"@ + decimal(pid_a as nat) + "-"@ + padded(sequence_a as nat, 4);
    let v = "-"@ + decimal(pid_b as nat) + "-"@ + padded(sequence_b as nat, 4);
    assert(stamp_of(a, pid_a, sequence_a) =~= x + u);
    assert(stamp_of(b, pid_b, sequence_b) =~= y + v);
    a_head_decides(x, y, u, v);
}

proof fn a_head_decides(a: Seq<char>, b: Seq<char>, u: Seq<char>, v: Seq<char>)
    requires
        a.len() == b.len(),
        precedes(a, b),
    ensures
        precedes(a + u, b + v),
    decreases a.len(),
{
    assert((a + u)[0] == a[0] && (b + v)[0] == b[0]);
    if a[0] == b[0] {
        assert((a + u).skip(1) =~= a.skip(1) + u);
        assert((b + v).skip(1) =~= b.skip(1) + v);
        a_head_decides(a.skip(1), b.skip(1), u, v);
    }
}

proof fn placing_keeps_order(list: Seq<Seq<char>>, one: Seq<char>)
    requires
        in_name_order(list),
    ensures
        in_name_order(placed(list, one)),
        placed(list, one).len() == list.len() + 1,
        forall|i: int|
            0 <= i < placed(list, one).len() ==> (#[trigger] placed(list, one)[i]) == one
                || list.contains(placed(list, one)[i]),
    decreases list.len(),
{
    if list.len() > 0 && precedes(one, list.last()) {
        let rest = list.drop_last();
        assert(in_name_order(rest)) by {
            assert forall|i: int, j: int| 0 <= i < j < rest.len() implies !precedes(
                #[trigger] rest[j],
                #[trigger] rest[i],
            ) by {
                assert(!precedes(list[j], list[i]));
            }
        }
        placing_keeps_order(rest, one);
        let head = placed(rest, one);
        let all = placed(list, one);
        let last = list.last();
        assert forall|i: int| 0 <= i < head.len() implies !precedes(last, #[trigger] head[i]) by {
            the_order_is_total(one, last);
            if head[i] != one {
                let k = choose|k: int| 0 <= k < rest.len() && rest[k] == head[i];
                assert(!precedes(list[list.len() - 1], list[k]));
            }
        }
        assert forall|i: int, j: int| 0 <= i < j < all.len() implies !precedes(
            #[trigger] all[j],
            #[trigger] all[i],
        ) by {
            assert(all[i] == head[i]);
            if j < head.len() {
                assert(all[j] == head[j]);
            }
        }
        assert forall|i: int| 0 <= i < all.len() implies (#[trigger] all[i]) == one
            || list.contains(all[i]) by {
            if i < head.len() {
                assert(all[i] == head[i]);
                if head[i] != one {
                    let k = choose|k: int| 0 <= k < rest.len() && rest[k] == head[i];
                    assert(list[k] == all[i]);
                }
            } else {
                assert(all[i] == list[list.len() - 1]);
            }
        }
    } else {
        let all = placed(list, one);
        assert forall|i: int, j: int| 0 <= i < j < all.len() implies !precedes(
            #[trigger] all[j],
            #[trigger] all[i],
        ) by {
            assert(all[i] == list[i]);
            if j < list.len() {
                assert(all[j] == list[j]);
            } else if list.len() > 0 {
                let last = list[list.len() - 1];
                the_order_is_total(one, last);
                the_order_is_total(one, list[i]);
                the_order_is_total(last, list[i]);
                if precedes(one, list[i]) {
                    assert(i < list.len() - 1 ==> !precedes(last, list[i]));
                    if i < list.len() - 1 && last != list[i] {
                        the_order_is_transitive(one, list[i], last);
                    }
                }
            }
        }
        assert forall|i: int| 0 <= i < all.len() implies (#[trigger] all[i]) == one
            || list.contains(all[i]) by {
            if i < list.len() {
                assert(all[i] == list[i]);
            }
        }
    }
}

/// The newest records are kept: what is deleted sorts no later than anything that stays.
pub proof fn pruning_keeps_the_newest(names: Seq<Seq<char>>)
    ensures
        in_name_order(records_in_order(names)),
        forall|i: int|
            0 <= i < records_in_order(names).len() ==> record_name(
                #[trigger] records_in_order(names)[i],
            ) && names.contains(records_in_order(names)[i]),
    decreases names.len(),
{
    if names.len() > 0 {
        let rest = names.drop_last();
        pruning_keeps_the_newest(rest);
        let sorted = records_in_order(rest);
        let all = records_in_order(names);
        if record_name(names.last()) {
            placing_keeps_order(sorted, names.last());
        }
        assert forall|i: int| 0 <= i < all.len() implies record_name(#[trigger] all[i])
            && names.contains(all[i]) by {
            if record_name(names.last()) && all[i] == names.last() {
                assert(names[names.len() - 1] == all[i]);
            } else {
                assert(sorted.contains(all[i]));
                let k = choose|k: int| 0 <= k < sorted.len() && sorted[k] == all[i];
                assert(record_name(sorted[k]) && rest.contains(sorted[k]));
                let m = choose|m: int| 0 <= m < rest.len() && rest[m] == sorted[k];
                assert(names[m] == all[i]);
            }
        }
    }
}

/// What a record counts by: a megabyte and a gigabyte are powers of 1024, 24 events are
/// remembered, 12 lines are quoted, and 12 records are kept.
pub proof fn a_record_counts_in_powers_of_1024()
    ensures
        MEGABYTE == 1024 * 1024,
        GIGABYTE == 1024 * 1024 * 1024,
        RECENT_EVENTS == 24,
        TAIL_LINES == 12,
        KEEP_SESSIONS == 12,
{
}

/// A sample is one line, each figure behind its own name and the memory in whole megabytes.
pub proof fn a_sample_names_each_figure(clock: Seq<char>, sample: Sample)
    ensures
        sample_line(clock, sample) == "SAMPLE  "@ + clock + " rss="@ + decimal(
            (sample.rss / 1_048_576) as nat,
        ) + "M tex="@ + decimal((sample.texture_bytes / 1_048_576) as nat) + "M/"@ + decimal(
            (sample.texture_peak / 1_048_576) as nat,
        ) + "M×"@ + decimal(sample.textures as nat) + " glyphs="@ + decimal(
            sample.glyph_bitmaps as nat,
        ) + " chrome="@ + decimal(sample.chrome_textures as nat) + " previews="@ + decimal(
            sample.previews as nat,
        ) + " parked="@ + decimal(sample.parked_boards as nat) + " items="@ + decimal(
            sample.items as nat,
        ) + " drawn="@ + decimal(sample.drawn as nat) + " layouts="@ + decimal(
            sample.text_layouts as nat,
        ) + " ink="@ + decimal(sample.ink_meshes as nat) + " undo="@ + decimal(
            sample.undo_depth as nat,
        ) + " fps="@ + sample.fps@ + " zoom="@ + sample.zoom@ + "%"@,
{
}

/// When a sample alarms: at the first whole gigabyte, and at each one above the last it alarmed
/// on; and what it then writes behind its line: the gigabyte, how many events follow, and those
/// events in their order.
pub proof fn a_sample_alarms_at_each_gigabyte(
    clock: Seq<char>,
    sample: Sample,
    alarmed_gb: u64,
    recent: Seq<Seq<char>>,
)
    ensures
        ({
            let gb = sample.rss as int / 1_073_741_824;
            let lines = sample_lines(clock, sample, alarmed_gb, recent);
            let alarm = sample.rss >= 1_073_741_824 && gb > alarmed_gb;
            &&& lines.len() == (if alarm {
                2 + recent.len()
            } else {
                1
            })
            &&& lines[0] == sample_line(clock, sample)
            &&& alarm ==> lines[1] == "ALARM   "@ + clock + " crossed "@ + decimal(gb as nat)
                + " GB — budget is 0.4 GB. Last "@ + decimal(recent.len()) + " events follow."@
            &&& alarm ==> forall|k: int|
                0 <= k < recent.len() ==> #[trigger] lines[k + 2] == "LEADUP  "@ + recent[k]
        }),
        crosses(sample.rss, alarmed_gb) <==> sample.rss >= 1_073_741_824 && sample.rss as int
            / 1_073_741_824 > alarmed_gb,
{
    let lines = sample_lines(clock, sample, alarmed_gb, recent);
    if crosses(sample.rss, alarmed_gb) {
        assert forall|k: int| 0 <= k < recent.len() implies #[trigger] lines[k + 2]
            == "LEADUP  "@ + recent[k] by {
            assert(lines[k + 2] == leadup(recent)[k]);
        }
    }
}

/// One more event is remembered last, and the oldest is forgotten only where 24 are.
pub proof fn the_oldest_event_is_forgotten(recent: Seq<Seq<char>>, event: Seq<char>)
    requires
        recent.len() <= 24,
    ensures
        recent.len() < 24 ==> remembered(recent, event) == recent.push(event),
        recent.len() == 24 ==> remembered(recent, event) == recent.subrange(1, 24).push(event),
{
    if recent.len() == 24 {
        assert(recent.skip(1) =~= recent.subrange(1, 24));
    }
}

/// A record's file is named by its seconds in fourteen digits, its process and its number in
/// four digits, with dashes between.
pub proof fn a_file_is_named_by_its_time(seconds: u64, pid: u64, sequence: u64)
    ensures
        stamp_of(seconds, pid, sequence) == padded(seconds as nat, 14) + seq!['-'] + decimal(
            pid as nat,
        ) + seq!['-'] + padded(sequence as nat, 4),
{
    reveal_strlit("-");
    assert("-"@ =~= seq!['-']);
}

/// A record is a file whose name ends in `.log` with something in front of that.
pub proof fn a_record_ends_in_log(front: Seq<char>, name: Seq<char>)
    ensures
        front.len() > 0 ==> record_name(front + seq!['.', 'l', 'o', 'g']),
        !record_name(seq!['.', 'l', 'o', 'g']),
        record_name(name) ==> name.len() > 4 && name.skip(name.len() - 4) == seq![
            '.',
            'l',
            'o',
            'g',
        ],
{
    reveal_strlit(".log");
    let end = seq!['.', 'l', 'o', 'g'];
    assert(".log"@ =~= end);
    assert((front + end).skip(front.len() as int) =~= end);
}

/// A line states its memory behind the first ` rss=` in it, in megabytes, up to what is no
/// digit; without one it states none.
pub proof fn a_line_states_its_memory_behind_the_label(
    front: Seq<char>,
    n: nat,
    rest: Seq<char>,
)
    requires
        forall|i: int|
            0 <= i <= front.len() ==> !is_label(
                (front + seq![' ', 'r', 's', 's', '='] + decimal(n) + rest).skip(i),
            ) || i == front.len(),
        rest.len() == 0 || !('0' <= rest[0] <= '9'),
        n * 1_048_576 <= u64::MAX,
    ensures
        stated_rss(front + seq![' ', 'r', 's', 's', '='] + decimal(n) + rest) == Some(
            (n * 1_048_576) as u64,
        ),
{
    let line = front + seq![' ', 'r', 's', 's', '='] + decimal(n) + rest;
    a_number_reads_back(n);
    the_label_is_found(line, front.len() as int);
    let behind = line.skip(front.len() as int + 5);
    assert(behind =~= decimal(n) + rest);
    the_digits_lead(decimal(n), rest);
}

/// Whether a text starts with the label of a memory reading.
pub open spec fn is_label(text: Seq<char>) -> bool {
    text.len() >= 5 && text[0] == ' ' && text[1] == 'r' && text[2] == 's' && text[3] == 's'
        && text[4] == '='
}

proof fn the_label_is_found(line: Seq<char>, at: int)
    requires
        0 <= at <= line.len() - 5,
        is_label(line.skip(at)),
        forall|i: int| 0 <= i < at ==> !is_label(#[trigger] line.skip(i)),
    ensures
        rss_at(line) == at,
    decreases at,
{
    assert(line.skip(0) =~= line);
    if at > 0 {
        assert(!is_label(line.skip(0)));
        let less = line.skip(1);
        assert(less.skip(at - 1) =~= line.skip(at));
        assert forall|i: int| 0 <= i < at - 1 implies !is_label(#[trigger] less.skip(i)) by {
            assert(less.skip(i) =~= line.skip(i + 1));
            assert(!is_label(line.skip(i + 1)));
        }
        the_label_is_found(less, at - 1);
    }
}

proof fn the_digits_lead(digits: Seq<char>, rest: Seq<char>)
    requires
        forall|i: int| 0 <= i < digits.len() ==> '0' <= #[trigger] digits[i] <= '9',
        rest.len() == 0 || !('0' <= rest[0] <= '9'),
    ensures
        leading_digits(digits + rest) == digits,
    decreases digits.len(),
{
    let all = digits + rest;
    if digits.len() > 0 {
        assert('0' <= digits[0] <= '9');
        let less = digits.skip(1);
        assert forall|i: int| 0 <= i < less.len() implies '0' <= #[trigger] less[i] <= '9' by {
            assert('0' <= digits[i + 1] <= '9');
        }
        the_digits_lead(less, rest);
        assert(all.skip(1) =~= less + rest);
        assert(seq![digits[0]] + less =~= digits);
    } else {
        assert(all =~= rest);
        assert(leading_digits(all) =~= digits);
    }
}

/// The highest memory of a record is one that a line states, or nothing, and no line states
/// more.
pub proof fn the_highest_is_stated_and_no_line_states_more(lines: Seq<Seq<char>>)
    ensures
        highest(lines) == 0 || exists|i: int|
            0 <= i < lines.len() && stated_rss(#[trigger] lines[i]) == Some(highest(lines)),
        forall|i: int|
            0 <= i < lines.len() && stated_rss(#[trigger] lines[i]) is Some ==> stated_rss(
                lines[i],
            )->0 <= highest(lines),
    decreases lines.len(),
{
    if lines.len() > 0 {
        let rest = lines.drop_last();
        the_highest_is_stated_and_no_line_states_more(rest);
        assert(lines[lines.len() - 1] == lines.last());
        assert forall|i: int| 0 <= i < lines.len() && stated_rss(#[trigger] lines[i]) is Some
            implies stated_rss(lines[i])->0 <= highest(lines) by {
            if i < rest.len() {
                assert(rest[i] == lines[i]);
            }
        }
        if highest(lines) != 0 {
            if highest(lines) == highest(rest) {
                let k = choose|k: int|
                    0 <= k < rest.len() && stated_rss(#[trigger] rest[k]) == Some(highest(rest));
                assert(lines[k] == rest[k]);
                assert(stated_rss(lines[k]) == Some(highest(lines)));
            } else {
                assert(stated_rss(lines[lines.len() - 1]) == Some(highest(lines)));
            }
        }
    }
}

/// A session ended cleanly exactly where a line of its record starts with `EXIT`.
pub proof fn an_exit_line_is_a_clean_end(lines: Seq<Seq<char>>)
    ensures
        has_exit(lines) <==> exists|i: int|
            #![trigger lines[i]]
            0 <= i < lines.len() && lines[i].len() >= 4 && lines[i][0] == 'E' && lines[i][1] == 'X'
                && lines[i][2] == 'I' && lines[i][3] == 'T',
{
    reveal_strlit("EXIT");
    assert("EXIT"@ =~= seq!['E', 'X', 'I', 'T']);
    if exists|i: int|
        #![trigger lines[i]]
        0 <= i < lines.len() && lines[i].len() >= 4 && lines[i][0] == 'E' && lines[i][1] == 'X'
            && lines[i][2] == 'I' && lines[i][3] == 'T' {
        let i = choose|i: int|
            #![trigger lines[i]]
            0 <= i < lines.len() && lines[i].len() >= 4 && lines[i][0] == 'E' && lines[i][1] == 'X'
                && lines[i][2] == 'I' && lines[i][3] == 'T';
        assert("EXIT"@.is_prefix_of(lines[i]));
    }
}

/// The last so many of a list are all of a list no longer, and its end otherwise.
pub proof fn the_last_few_end_the_list(front: Seq<Seq<char>>, back: Seq<Seq<char>>)
    ensures
        last_of(front + back, back.len()) == back,
        last_of(back, back.len() + front.len()) == back,
{
    assert((front + back).skip(front.len() as int) =~= back);
    assert(front.len() == 0 ==> front + back =~= back);
}

proof fn placing_adds_one(list: Seq<Seq<char>>, one: Seq<char>)
    ensures
        placed(list, one).to_multiset() == list.to_multiset().insert(one),
    decreases list.len(),
{
    broadcast use vstd::seq_lib::group_to_multiset_ensures;

    if list.len() > 0 && precedes(one, list.last()) {
        let rest = list.drop_last();
        placing_adds_one(rest, one);
        assert(list =~= rest.push(list.last()));
        assert(rest.to_multiset().insert(one).insert(list.last()) =~= rest.to_multiset().insert(
            list.last(),
        ).insert(one));
    }
}

/// The records put in order are those of the files that are records, each as often as it was
/// there, and nothing else.
pub proof fn ordering_keeps_every_record(names: Seq<Seq<char>>)
    ensures
        records_in_order(names).to_multiset() == names.filter(
            |name: Seq<char>| record_name(name),
        ).to_multiset(),
    decreases names.len(),
{
    broadcast use vstd::seq_lib::group_to_multiset_ensures;

    reveal(Seq::filter);
    if names.len() > 0 {
        let rest = names.drop_last();
        ordering_keeps_every_record(rest);
        if record_name(names.last()) {
            placing_adds_one(records_in_order(rest), names.last());
        }
    }
}

} // verus!
