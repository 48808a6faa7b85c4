//! What a flight record says once it is read back.
//!
//! The record is written line by line by a session that may be killed at any moment, and
//! read by the next one. These are the laws that tie the two: whatever a session noted, its
//! record reads as killed until it was finished, and states the highest memory sampled.

use vstd::prelude::*;

use crate::flight::{
    alarm_line, crosses, has_exit, highest, leading_digits, leadup, number, remembered, rss_at,
    sample_line, sample_lines, stated_rss, with_number, Recorder, Sample, GIGABYTE, MEGABYTE, RECENT_EVENTS,
};
use crate::options::digits_value;
use crate::text::{
    decimal, decimal_is_not_empty, digit, first_at, lines_of, texts, without_return,
};

verus! {

// ----- a session and what it writes ----------------------------------------------------

/// One thing a session notes.
pub enum Noted {
    Event { clock: Seq<char>, what: Seq<char> },
    Sample { clock: Seq<char>, sample: Sample },
}

/// The events a session still remembers.
pub open spec fn recent_after(log: Seq<Noted>) -> Seq<Seq<char>>
    decreases log.len(),
{
    if log.len() == 0 {
        Seq::empty()
    } else {
        let before = recent_after(log.drop_last());
        match log.last() {
            Noted::Event { clock, what } => remembered(before, clock + " "@ + what),
            Noted::Sample { .. } => before,
        }
    }
}

/// The gigabytes a session has alarmed on.
pub open spec fn alarmed_after(log: Seq<Noted>) -> u64
    decreases log.len(),
{
    if log.len() == 0 {
        0
    } else {
        let before = alarmed_after(log.drop_last());
        match log.last() {
            Noted::Event { .. } => before,
            Noted::Sample { sample, .. } => if crosses(sample.rss, before) {
                (sample.rss / GIGABYTE) as u64
            } else {
                before
            },
        }
    }
}

/// The highest memory a session sampled.
pub open spec fn peak_after(log: Seq<Noted>) -> u64
    decreases log.len(),
{
    if log.len() == 0 {
        0
    } else {
        let before = peak_after(log.drop_last());
        match log.last() {
            Noted::Event { .. } => before,
            Noted::Sample { sample, .. } => if sample.rss > before {
                sample.rss
            } else {
                before
            },
        }
    }
}

/// The lines one note adds to a record.
pub open spec fn lines_for(log: Seq<Noted>, noted: Noted) -> Seq<Seq<char>> {
    match noted {
        Noted::Event { clock, what } => seq!["EVENT   "@ + clock + " "@ + what],
        Noted::Sample { clock, sample } => sample_lines(
            clock,
            sample,
            alarmed_after(log),
            recent_after(log),
        ),
    }
}

/// The lines of a session's record after its first.
pub open spec fn written(log: Seq<Noted>) -> Seq<Seq<char>>
    decreases log.len(),
{
    if log.len() == 0 {
        Seq::empty()
    } else {
        written(log.drop_last()) + lines_for(log.drop_last(), log.last())
    }
}

/// The text of a record: every line, and a newline after each.
pub open spec fn text_of_record(lines: Seq<Seq<char>>) -> Seq<char>
    decreases lines.len(),
{
    if lines.len() == 0 {
        Seq::empty()
    } else {
        lines[0] + seq!['\n'] + text_of_record(lines.skip(1))
    }
}

/// The line that starts a record.
pub open spec fn first_line(seconds: u64, pid: u64, version: Seq<char>) -> Seq<char> {
    with_number("START   epoch="@ + decimal(seconds as nat), " pid="@, pid) + " version="@
        + version
}

/// The line that ends a record.
pub open spec fn finish_line(clock: Seq<char>, reason: Seq<char>, peak: u64) -> Seq<char> {
    with_number(
        "EXIT    "@ + clock + " "@ + reason,
        " peak_rss="@,
        (peak / MEGABYTE) as u64,
    ) + "M"@
}

// ----- what the laws ask of the words --------------------------------------------------

/// Whether a text stands on one line.
pub open spec fn unbroken(text: Seq<char>) -> bool {
    forall|i: int| 0 <= i < text.len() ==> #[trigger] text[i] != '\n'
}

/// Whether a text stands on one line and keeps its end when it is read.
pub open spec fn one_line(text: Seq<char>) -> bool {
    unbroken(text) && (text.len() > 0 ==> text.last() != '\r')
}

/// Whether no word of a text starts with an `r`, so that nothing in it is taken for the
/// label of a memory reading.
pub open spec fn quiet(text: Seq<char>) -> bool {
    forall|i: int|
        0 <= i < text.len() && #[trigger] text[i] == 'r' ==> i > 0 && text[i - 1] != ' '
}

/// Whether what a session noted can be told apart from the record's own words: no clock and
/// no figure holds a newline or a word in `r`, and no event states a memory of its own.
pub open spec fn plain(noted: Noted) -> bool {
    match noted {
        Noted::Event { clock, what } => {
            &&& quiet(clock)
            &&& unbroken(clock)
            &&& one_line(what)
            &&& rss_at(" "@ + what) < 0
        },
        Noted::Sample { clock, sample } => {
            &&& quiet(clock)
            &&& unbroken(clock)
            &&& unbroken(sample.fps@)
            &&& unbroken(sample.zoom@)
        },
    }
}

pub open spec fn all_plain(log: Seq<Noted>) -> bool {
    forall|i: int| 0 <= i < log.len() ==> plain(#[trigger] log[i])
}

// ----- where a memory reading stands ---------------------------------------------------

proof fn nothing_matches_before(text: Seq<char>, n: int)
    requires
        0 <= n <= text.len(),
        forall|i: int|
            0 <= i < n && i + 1 < text.len() && #[trigger] text[i] == ' ' ==> text[i + 1] != 'r',
    ensures
        rss_at(text) == (if rss_at(text.skip(n)) < 0 {
            -1
        } else {
            n + rss_at(text.skip(n))
        }),
    decreases n,
{
    if n == 0 {
        assert(text.skip(0) =~= text);
    } else {
        let rest = text.skip(1);
        assert forall|i: int|
            0 <= i < n - 1 && i + 1 < rest.len() && #[trigger] rest[i] == ' ' implies rest[i + 1]
            != 'r' by {
            assert(text[i + 1] == ' ');
        }
        nothing_matches_before(rest, n - 1);
        assert(rest.skip(n - 1) =~= text.skip(n));
        assert(text[0] == ' ' && text.len() > 1 ==> text[1] != 'r');
    }
}

proof fn a_quiet_head_is_passed_over(head: Seq<char>, tail: Seq<char>)
    requires
        quiet(head),
        tail.len() > 0 && tail[0] == 'r' && head.len() > 0 ==> head.last() != ' ',
    ensures
        rss_at(head + tail) == (if rss_at(tail) < 0 {
            -1
        } else {
            head.len() + rss_at(tail)
        }),
{
    let all = head + tail;
    assert forall|i: int|
        0 <= i < head.len() && i + 1 < all.len() && #[trigger] all[i] == ' ' implies all[i + 1]
        != 'r' by {
        assert(head[i] == ' ');
        if i + 1 < head.len() {
            assert(all[i + 1] == head[i + 1]);
        } else {
            assert(all[i + 1] == tail[0]);
            assert(head.last() == ' ');
        }
    }
    nothing_matches_before(all, head.len() as int);
    assert(all.skip(head.len() as int) =~= tail);
}

proof fn a_quiet_text_states_nothing(text: Seq<char>)
    requires
        quiet(text),
    ensures
        rss_at(text) < 0,
        stated_rss(text) is None,
{
    a_quiet_head_is_passed_over(text, Seq::empty());
    assert(text + Seq::<char>::empty() =~= text);
}

proof fn two_quiet_texts_are_one(a: Seq<char>, b: Seq<char>)
    requires
        quiet(a),
        quiet(b),
    ensures
        quiet(a + b),
{
    let all = a + b;
    assert forall|i: int| 0 <= i < all.len() && #[trigger] all[i] == 'r' implies i > 0 && all[i
        - 1] != ' ' by {
        if i < a.len() {
            assert(a[i] == 'r');
            assert(all[i - 1] == a[i - 1]);
        } else {
            assert(b[i - a.len()] == 'r');
            assert(all[i - 1] == b[i - a.len() - 1]);
        }
    }
}

// ----- numbers read back ---------------------------------------------------------------

proof fn a_digit_is_one(d: nat)
    requires
        d < 10,
    ensures
        '0' <= digit(d) <= '9',
        digit(d) as u32 - '0' as u32 == d,
{
    assert(digit(d) as u32 == 48 + d);
}

/// A number that is written in decimal reads back as the number it is.
pub proof fn a_number_reads_back(n: nat)
    ensures
        decimal(n).len() > 0,
        forall|i: int| 0 <= i < decimal(n).len() ==> '0' <= #[trigger] decimal(n)[i] <= '9',
        digits_value(decimal(n)) == n,
    decreases n,
{
    decimal_is_not_empty(n);
    let text = decimal(n);
    if n < 10 {
        a_digit_is_one(n);
        assert(text.drop_last() =~= Seq::<char>::empty());
        assert(digits_value(text.drop_last()) == 0);
    } else {
        a_number_reads_back(n / 10);
        a_digit_is_one(n % 10);
        assert(text.drop_last() =~= decimal(n / 10));
        assert forall|i: int| 0 <= i < text.len() implies '0' <= #[trigger] text[i] <= '9' by {
            if i < text.len() - 1 {
                assert(text[i] == decimal(n / 10)[i]);
            }
        }
    }
}

proof fn digits_lead(digits: Seq<char>, rest: Seq<char>)
    requires
        forall|i: int| 0 <= i < digits.len() ==> '0' <= #[trigger] digits[i] <= '9',
        rest.len() > 0 ==> !('0' <= rest[0] <= '9'),
    ensures
        leading_digits(digits + rest) == digits,
    decreases digits.len(),
{
    let all = digits + rest;
    if digits.len() == 0 {
        assert(all =~= rest);
        assert(leading_digits(all) =~= digits);
    } else {
        let after = digits.skip(1);
        assert forall|i: int| 0 <= i < after.len() implies '0' <= #[trigger] after[i] <= '9' by {
            assert('0' <= digits[i + 1] <= '9');
        }
        digits_lead(after, rest);
        assert(all.skip(1) =~= after + rest);
        assert('0' <= digits[0] <= '9');
        assert(all[0] == digits[0]);
        assert(seq![digits[0]] + after =~= digits);
    }
}

// ----- what each line states -----------------------------------------------------------

proof fn a_number_is_quiet(n: nat)
    ensures
        quiet(decimal(n)),
{
    a_number_reads_back(n);
}

proof fn a_longer_text_keeps_its_start(start: Seq<char>, line: Seq<char>, more: Seq<char>)
    requires
        start.is_prefix_of(line),
    ensures
        start.is_prefix_of(line + more),
{
    assert((line + more).take(start.len() as int) =~= line.take(start.len() as int));
}

proof fn a_label_keeps_the_start(start: Seq<char>, line: Seq<char>, label: Seq<char>, n: u64)
    requires
        start.is_prefix_of(line),
    ensures
        start.is_prefix_of(with_number(line, label, n)),
{
    a_longer_text_keeps_its_start(start, line, label);
    a_longer_text_keeps_its_start(start, line + label, decimal(n as nat));
}

/// How a sample line starts: its memory, and the unit after it.
proof fn a_sample_starts_with_its_memory(clock: Seq<char>, sample: Sample)
    ensures
        (with_number("SAMPLE  "@ + clock, " rss="@, (sample.rss / MEGABYTE) as u64)
            + seq!['M']).is_prefix_of(sample_line(clock, sample)),
{
    let a = with_number("SAMPLE  "@ + clock, " rss="@, (sample.rss / MEGABYTE) as u64);
    let start = a + seq!['M'];
    reveal_strlit("M tex=");
    let unit = a + "M tex="@;
    assert(unit.take(start.len() as int) =~= start);
    let b = with_number(a, "M tex="@, (sample.texture_bytes / MEGABYTE) as u64);
    a_longer_text_keeps_its_start(
        start,
        unit,
        decimal(((sample.texture_bytes / MEGABYTE) as u64) as nat),
    );
    let c = with_number(b, "M/"@, (sample.texture_peak / MEGABYTE) as u64);
    a_label_keeps_the_start(start, b, "M/"@, (sample.texture_peak / MEGABYTE) as u64);
    let memory = with_number(c, "M×"@, sample.textures);
    a_label_keeps_the_start(start, c, "M×"@, sample.textures);
    let d = with_number(memory, " glyphs="@, sample.glyph_bitmaps);
    a_label_keeps_the_start(start, memory, " glyphs="@, sample.glyph_bitmaps);
    let e = with_number(d, " chrome="@, sample.chrome_textures);
    a_label_keeps_the_start(start, d, " chrome="@, sample.chrome_textures);
    let f = with_number(e, " previews="@, sample.previews);
    a_label_keeps_the_start(start, e, " previews="@, sample.previews);
    let g = with_number(f, " parked="@, sample.parked_boards);
    a_label_keeps_the_start(start, f, " parked="@, sample.parked_boards);
    let h = with_number(g, " items="@, sample.items);
    a_label_keeps_the_start(start, g, " items="@, sample.items);
    let j = with_number(h, " drawn="@, sample.drawn);
    a_label_keeps_the_start(start, h, " drawn="@, sample.drawn);
    let k = with_number(j, " layouts="@, sample.text_layouts);
    a_label_keeps_the_start(start, j, " layouts="@, sample.text_layouts);
    let l = with_number(k, " ink="@, sample.ink_meshes);
    a_label_keeps_the_start(start, k, " ink="@, sample.ink_meshes);
    let m = with_number(l, " undo="@, sample.undo_depth);
    a_label_keeps_the_start(start, l, " undo="@, sample.undo_depth);
    a_longer_text_keeps_its_start(start, m, " fps="@);
    a_longer_text_keeps_its_start(start, m + " fps="@, sample.fps@);
    a_longer_text_keeps_its_start(start, m + " fps="@ + sample.fps@, " zoom="@);
    a_longer_text_keeps_its_start(start, m + " fps="@ + sample.fps@ + " zoom="@, sample.zoom@);
    a_longer_text_keeps_its_start(
        start,
        m + " fps="@ + sample.fps@ + " zoom="@ + sample.zoom@,
        "%"@,
    );
}

/// A sample reads back: its line states the memory that was sampled, in whole megabytes.
/// The clock has no word in `r`: one that read ` rss=` would be taken for the label.
pub proof fn a_sample_reads_back(clock: Seq<char>, sample: Sample)
    requires
        quiet(clock),
    ensures
        stated_rss(sample_line(clock, sample)) == Some(
            (sample.rss / MEGABYTE * MEGABYTE) as u64,
        ),
{
    let mb = (sample.rss / MEGABYTE) as u64;
    let digits = decimal(mb as nat);
    let line = sample_line(clock, sample);
    let head = "SAMPLE  "@ + clock;
    let start = with_number(head, " rss="@, mb) + seq!['M'];
    a_sample_starts_with_its_memory(clock, sample);
    let rest = line.skip(start.len() as int);
    let tail = " rss="@ + digits + seq!['M'] + rest;
    reveal_strlit(" rss=");
    assert(line.subrange(0, start.len() as int) == start);
    assert(line =~= line.subrange(0, start.len() as int) + rest);
    assert(start + rest =~= head + tail);
    reveal_strlit("SAMPLE  ");
    assert("SAMPLE  "@ =~= seq!['S', 'A', 'M', 'P', 'L', 'E', ' ', ' ']);
    assert(quiet("SAMPLE  "@));
    two_quiet_texts_are_one("SAMPLE  "@, clock);
    assert(tail[0] == ' ' && tail[1] == 'r' && tail[2] == 's' && tail[3] == 's' && tail[4]
        == '=');
    assert(rss_at(tail) == 0);
    a_quiet_head_is_passed_over(head, tail);
    a_number_reads_back(mb as nat);
    assert(line.skip(head.len() as int + 5) =~= digits + (seq!['M'] + rest));
    digits_lead(digits, seq!['M'] + rest);
    assert(number(digits) == mb);
    assert(mb * 1_048_576 <= sample.rss);
}

proof fn an_alarm_states_nothing(clock: Seq<char>, gb: u64, events: nat)
    requires
        quiet(clock),
    ensures
        stated_rss(alarm_line(clock, gb, events)) is None,
{
    reveal_strlit("ALARM   ");
    assert("ALARM   "@ =~= seq!['A', 'L', 'A', 'R', 'M', ' ', ' ', ' ']);
    assert(quiet("ALARM   "@));
    reveal_strlit(" crossed ");
    assert(" crossed "@ =~= seq![' ', 'c', 'r', 'o', 's', 's', 'e', 'd', ' ']);
    assert(quiet(" crossed "@));
    reveal_strlit(" GB — budget is 0.4 GB. Last ");
    assert(" GB — budget is 0.4 GB. Last "@ =~= seq![' ', 'G', 'B', ' ', '—', ' ', 'b', 'u', 'd', 'g', 'e', 't', ' ', 'i', 's', ' ', '0', '.', '4', ' ', 'G', 'B', '.', ' ', 'L', 'a', 's', 't', ' ']);
    assert(quiet(" GB — budget is 0.4 GB. Last "@));
    reveal_strlit(" events follow.");
    assert(" events follow."@ =~= seq![' ', 'e', 'v', 'e', 'n', 't', 's', ' ', 'f', 'o', 'l', 'l', 'o', 'w', '.']);
    assert(quiet(" events follow."@));
    a_number_is_quiet(gb as nat);
    a_number_is_quiet(events);
    let a = "ALARM   "@ + clock;
    two_quiet_texts_are_one("ALARM   "@, clock);
    let b = a + " crossed "@;
    two_quiet_texts_are_one(a, " crossed "@);
    let c = b + decimal(gb as nat);
    two_quiet_texts_are_one(b, decimal(gb as nat));
    let d = c + " GB — budget is 0.4 GB. Last "@;
    two_quiet_texts_are_one(c, " GB — budget is 0.4 GB. Last "@);
    let e = d + decimal(events);
    two_quiet_texts_are_one(d, decimal(events));
    two_quiet_texts_are_one(e, " events follow."@);
    a_quiet_text_states_nothing(alarm_line(clock, gb, events));
}

/// Whether an event, as it is remembered, states no memory on the lines that print it.
spec fn states_nothing(event: Seq<char>) -> bool {
    &&& stated_rss("EVENT   "@ + event) is None
    &&& stated_rss("LEADUP  "@ + event) is None
}

proof fn a_plain_event_states_nothing(clock: Seq<char>, what: Seq<char>)
    requires
        quiet(clock),
        rss_at(" "@ + what) < 0,
    ensures
        states_nothing(clock + " "@ + what),
{
    let tail = " "@ + what;
    reveal_strlit(" ");
    assert(tail[0] == ' ');
    reveal_strlit("EVENT   ");
    assert("EVENT   "@ =~= seq!['E', 'V', 'E', 'N', 'T', ' ', ' ', ' ']);
    assert(quiet("EVENT   "@));
    reveal_strlit("LEADUP  ");
    assert("LEADUP  "@ =~= seq!['L', 'E', 'A', 'D', 'U', 'P', ' ', ' ']);
    assert(quiet("LEADUP  "@));
    two_quiet_texts_are_one("EVENT   "@, clock);
    two_quiet_texts_are_one("LEADUP  "@, clock);
    a_quiet_head_is_passed_over("EVENT   "@ + clock, tail);
    a_quiet_head_is_passed_over("LEADUP  "@ + clock, tail);
    assert("EVENT   "@ + (clock + " "@ + what) =~= ("EVENT   "@ + clock) + tail);
    assert("LEADUP  "@ + (clock + " "@ + what) =~= ("LEADUP  "@ + clock) + tail);
}

proof fn a_first_line_states_nothing(seconds: u64, pid: u64, version: Seq<char>)
    requires
        rss_at(version) < 0,
    ensures
        stated_rss(first_line(seconds, pid, version)) is None,
{
    reveal_strlit("START   epoch=");
    assert("START   epoch="@ =~= seq!['S', 'T', 'A', 'R', 'T', ' ', ' ', ' ', 'e', 'p', 'o', 'c', 'h', '=']);
    assert(quiet("START   epoch="@));
    reveal_strlit(" pid=");
    assert(" pid="@ =~= seq![' ', 'p', 'i', 'd', '=']);
    assert(quiet(" pid="@));
    reveal_strlit(" version=");
    assert(" version="@ =~= seq![' ', 'v', 'e', 'r', 's', 'i', 'o', 'n', '=']);
    assert(quiet(" version="@));
    a_number_is_quiet(seconds as nat);
    a_number_is_quiet(pid as nat);
    let a = "START   epoch="@ + decimal(seconds as nat);
    two_quiet_texts_are_one("START   epoch="@, decimal(seconds as nat));
    let b = a + " pid="@;
    two_quiet_texts_are_one(a, " pid="@);
    let c = b + decimal(pid as nat);
    two_quiet_texts_are_one(b, decimal(pid as nat));
    let d = c + " version="@;
    two_quiet_texts_are_one(c, " version="@);
    assert(d.last() == '=');
    a_quiet_head_is_passed_over(d, version);
}

// ----- what a whole record states ------------------------------------------------------

proof fn the_higher_of_two(a: Seq<Seq<char>>, b: Seq<Seq<char>>)
    ensures
        highest(a + b) == (if highest(a) >= highest(b) {
            highest(a)
        } else {
            highest(b)
        }),
    decreases b.len(),
{
    let all = a + b;
    if b.len() == 0 {
        assert(all =~= a);
    } else {
        the_higher_of_two(a, b.drop_last());
        assert(all.drop_last() =~= a + b.drop_last());
        assert(all.last() == b.last());
    }
}

proof fn lines_that_state_nothing(list: Seq<Seq<char>>)
    requires
        forall|i: int| 0 <= i < list.len() ==> stated_rss(#[trigger] list[i]) is None,
    ensures
        highest(list) == 0,
    decreases list.len(),
{
    if list.len() > 0 {
        let rest = list.drop_last();
        assert forall|i: int| 0 <= i < rest.len() implies stated_rss(
            #[trigger] rest[i],
        ) is None by {
            assert(stated_rss(list[i]) is None);
        }
        lines_that_state_nothing(rest);
        assert(stated_rss(list[list.len() - 1]) is None);
    }
}

proof fn plain_before(log: Seq<Noted>)
    requires
        all_plain(log),
        log.len() > 0,
    ensures
        all_plain(log.drop_last()),
        plain(log.last()),
{
    assert forall|i: int| 0 <= i < log.drop_last().len() implies plain(
        #[trigger] log.drop_last()[i],
    ) by {
        assert(plain(log[i]));
    }
    assert(plain(log[log.len() - 1]));
}

proof fn what_is_remembered_states_nothing(log: Seq<Noted>)
    requires
        all_plain(log),
    ensures
        forall|k: int|
            0 <= k < recent_after(log).len() ==> states_nothing(#[trigger] recent_after(log)[k]),
    decreases log.len(),
{
    if log.len() > 0 {
        plain_before(log);
        what_is_remembered_states_nothing(log.drop_last());
        if let Noted::Event { clock, what } = log.last() {
            a_plain_event_states_nothing(clock, what);
            let before = recent_after(log.drop_last());
            let now = recent_after(log);
            assert forall|k: int| 0 <= k < now.len() implies states_nothing(
                #[trigger] now[k],
            ) by {
                if k < now.len() - 1 {
                    if before.len() == RECENT_EVENTS {
                        assert(now[k] == before[k + 1]);
                    } else {
                        assert(now[k] == before[k]);
                    }
                }
            }
        }
    }
}

proof fn a_note_states_its_memory(log: Seq<Noted>, noted: Noted)
    requires
        all_plain(log),
        plain(noted),
    ensures
        highest(lines_for(log, noted)) == (match noted {
            Noted::Event { .. } => 0,
            Noted::Sample { sample, .. } => (sample.rss / MEGABYTE * MEGABYTE) as u64,
        }),
{
    let lines = lines_for(log, noted);
    match noted {
        Noted::Event { clock, what } => {
            a_plain_event_states_nothing(clock, what);
            assert("EVENT   "@ + (clock + " "@ + what) =~= "EVENT   "@ + clock + " "@ + what);
            lines_that_state_nothing(lines);
        },
        Noted::Sample { clock, sample } => {
            a_sample_reads_back(clock, sample);
            let first = seq![sample_line(clock, sample)];
            assert(first.drop_last() =~= Seq::<Seq<char>>::empty());
            assert(highest(first.drop_last()) == 0);
            let recent = recent_after(log);
            let gb = (sample.rss / GIGABYTE) as u64;
            let alarm = alarm_line(clock, gb, recent.len());
            let more = seq![alarm] + leadup(recent);
            an_alarm_states_nothing(clock, gb, recent.len());
            what_is_remembered_states_nothing(log);
            assert forall|i: int| 0 <= i < more.len() implies stated_rss(
                #[trigger] more[i],
            ) is None by {
                if i > 0 {
                    assert(more[i] == "LEADUP  "@ + recent[i - 1]);
                    assert(states_nothing(recent[i - 1]));
                }
            }
            lines_that_state_nothing(more);
            the_higher_of_two(first, more);
            if crosses(sample.rss, alarmed_after(log)) {
                assert(lines =~= first + more);
            }
        },
    }
}

proof fn a_record_states_its_peak(log: Seq<Noted>)
    requires
        all_plain(log),
    ensures
        highest(written(log)) == peak_after(log) / MEGABYTE * MEGABYTE,
    decreases log.len(),
{
    if log.len() > 0 {
        plain_before(log);
        a_record_states_its_peak(log.drop_last());
        a_note_states_its_memory(log.drop_last(), log.last());
        the_higher_of_two(
            written(log.drop_last()),
            lines_for(log.drop_last(), log.last()),
        );
        let before = peak_after(log.drop_last());
        if let Noted::Sample { sample, .. } = log.last() {
            if sample.rss > before {
                assert(sample.rss / MEGABYTE >= before / MEGABYTE);
            } else {
                assert(sample.rss / MEGABYTE <= before / MEGABYTE);
            }
        }
    }
}

// ----- how a record ends ---------------------------------------------------------------

spec fn unfinished(line: Seq<char>) -> bool {
    line.len() > 1 && (line[0] != 'E' || line[1] != 'X')
}

proof fn an_unfinished_line_is_no_exit(line: Seq<char>)
    requires
        unfinished(line),
    ensures
        !"EXIT"@.is_prefix_of(line),
{
    reveal_strlit("EXIT");
    if "EXIT"@.is_prefix_of(line) {
        assert(line.subrange(0, 4)[0] == line[0] && line.subrange(0, 4)[1] == line[1]);
    }
}

proof fn a_note_is_unfinished(log: Seq<Noted>, noted: Noted, k: int)
    requires
        0 <= k < lines_for(log, noted).len(),
    ensures
        unfinished(lines_for(log, noted)[k]),
{
    let line = lines_for(log, noted)[k];
    match noted {
        Noted::Event { clock, what } => {
            reveal_strlit("EVENT   ");
            assert(line[1] == 'V');
        },
        Noted::Sample { clock, sample } => {
            if k == 0 {
                reveal_strlit("SAMPLE  ");
                a_sample_starts_with_its_memory(clock, sample);
                let start = with_number(
                    "SAMPLE  "@ + clock,
                    " rss="@,
                    (sample.rss / MEGABYTE) as u64,
                ) + seq!['M'];
                assert(start[0] == 'S');
                assert(line.subrange(0, start.len() as int)[0] == line[0]);
            } else if k == 1 {
                reveal_strlit("ALARM   ");
                assert(line[0] == 'A');
            } else {
                reveal_strlit("LEADUP  ");
                assert(line[0] == 'L');
            }
        },
    }
}

proof fn a_record_is_unfinished(log: Seq<Noted>, k: int)
    requires
        0 <= k < written(log).len(),
    ensures
        unfinished(written(log)[k]),
    decreases log.len(),
{
    if log.len() > 0 {
        let before = written(log.drop_last());
        if k < before.len() {
            a_record_is_unfinished(log.drop_last(), k);
        } else {
            a_note_is_unfinished(log.drop_last(), log.last(), k - before.len());
        }
    }
}

// ----- lines read back -----------------------------------------------------------------

proof fn the_first_newline_ends_the_line(line: Seq<char>, rest: Seq<char>)
    requires
        unbroken(line),
    ensures
        first_at(line + seq!['\n'] + rest, '\n') == line.len(),
    decreases line.len(),
{
    let all = line + seq!['\n'] + rest;
    if line.len() > 0 {
        assert(all[0] == line[0]);
        let after = line.skip(1);
        assert forall|i: int| 0 <= i < after.len() implies #[trigger] after[i] != '\n' by {
            assert(line[i + 1] != '\n');
        }
        the_first_newline_ends_the_line(after, rest);
        assert(all.skip(1) =~= after + seq!['\n'] + rest);
    } else {
        assert(all[0] == '\n');
    }
}

/// A record reads back line for line, as long as no line holds a newline or ends with a
/// carriage return.
pub proof fn a_record_reads_back(lines: Seq<Seq<char>>)
    requires
        forall|k: int| 0 <= k < lines.len() ==> one_line(#[trigger] lines[k]),
    ensures
        lines_of(text_of_record(lines)) == lines,
    decreases lines.len(),
{
    if lines.len() == 0 {
        assert(lines_of(text_of_record(lines)) =~= lines);
    } else {
        let line = lines[0];
        let rest = lines.skip(1);
        assert(one_line(line));
        assert forall|k: int| 0 <= k < rest.len() implies one_line(#[trigger] rest[k]) by {
            assert(one_line(lines[k + 1]));
        }
        a_record_reads_back(rest);
        let text = text_of_record(lines);
        the_first_newline_ends_the_line(line, text_of_record(rest));
        assert(text.take(line.len() as int) =~= line);
        assert(without_return(line) == line);
        assert(text.skip(line.len() as int + 1) =~= text_of_record(rest));
        assert(seq![line] + rest =~= lines);
    }
}

proof fn a_label_breaks_no_line(line: Seq<char>, label: Seq<char>, n: u64)
    requires
        unbroken(line),
        unbroken(label),
    ensures
        unbroken(with_number(line, label, n)),
{
    a_number_reads_back(n as nat);
}

proof fn a_sample_is_one_line(clock: Seq<char>, sample: Sample)
    requires
        unbroken(clock),
        unbroken(sample.fps@),
        unbroken(sample.zoom@),
    ensures
        one_line(sample_line(clock, sample)),
{
    reveal_strlit("SAMPLE  ");
    assert("SAMPLE  "@ =~= seq!['S', 'A', 'M', 'P', 'L', 'E', ' ', ' ']);
    assert(unbroken("SAMPLE  "@));
    reveal_strlit(" rss=");
    assert(" rss="@ =~= seq![' ', 'r', 's', 's', '=']);
    assert(unbroken(" rss="@));
    reveal_strlit("M tex=");
    assert("M tex="@ =~= seq!['M', ' ', 't', 'e', 'x', '=']);
    assert(unbroken("M tex="@));
    reveal_strlit("M/");
    assert("M/"@ =~= seq!['M', '/']);
    assert(unbroken("M/"@));
    reveal_strlit("M×");
    assert("M×"@ =~= seq!['M', '×']);
    assert(unbroken("M×"@));
    reveal_strlit(" glyphs=");
    assert(" glyphs="@ =~= seq![' ', 'g', 'l', 'y', 'p', 'h', 's', '=']);
    assert(unbroken(" glyphs="@));
    reveal_strlit(" chrome=");
    assert(" chrome="@ =~= seq![' ', 'c', 'h', 'r', 'o', 'm', 'e', '=']);
    assert(unbroken(" chrome="@));
    reveal_strlit(" previews=");
    assert(" previews="@ =~= seq![' ', 'p', 'r', 'e', 'v', 'i', 'e', 'w', 's', '=']);
    assert(unbroken(" previews="@));
    reveal_strlit(" parked=");
    assert(" parked="@ =~= seq![' ', 'p', 'a', 'r', 'k', 'e', 'd', '=']);
    assert(unbroken(" parked="@));
    reveal_strlit(" items=");
    assert(" items="@ =~= seq![' ', 'i', 't', 'e', 'm', 's', '=']);
    assert(unbroken(" items="@));
    reveal_strlit(" drawn=");
    assert(" drawn="@ =~= seq![' ', 'd', 'r', 'a', 'w', 'n', '=']);
    assert(unbroken(" drawn="@));
    reveal_strlit(" layouts=");
    assert(" layouts="@ =~= seq![' ', 'l', 'a', 'y', 'o', 'u', 't', 's', '=']);
    assert(unbroken(" layouts="@));
    reveal_strlit(" ink=");
    assert(" ink="@ =~= seq![' ', 'i', 'n', 'k', '=']);
    assert(unbroken(" ink="@));
    reveal_strlit(" undo=");
    assert(" undo="@ =~= seq![' ', 'u', 'n', 'd', 'o', '=']);
    assert(unbroken(" undo="@));
    reveal_strlit(" fps=");
    assert(" fps="@ =~= seq![' ', 'f', 'p', 's', '=']);
    assert(unbroken(" fps="@));
    reveal_strlit(" zoom=");
    assert(" zoom="@ =~= seq![' ', 'z', 'o', 'o', 'm', '=']);
    assert(unbroken(" zoom="@));
    reveal_strlit("%");
    assert("%"@ =~= seq!['%']);
    assert(unbroken("%"@));
    let line = "SAMPLE  "@ + clock;
    let mb = (sample.rss / MEGABYTE) as u64;
    a_label_breaks_no_line(line, " rss="@, mb);
    let line = with_number(line, " rss="@, mb);
    a_label_breaks_no_line(line, "M tex="@, (sample.texture_bytes / MEGABYTE) as u64);
    let line = with_number(line, "M tex="@, (sample.texture_bytes / MEGABYTE) as u64);
    a_label_breaks_no_line(line, "M/"@, (sample.texture_peak / MEGABYTE) as u64);
    let line = with_number(line, "M/"@, (sample.texture_peak / MEGABYTE) as u64);
    a_label_breaks_no_line(line, "M×"@, sample.textures);
    let line = with_number(line, "M×"@, sample.textures);
    a_label_breaks_no_line(line, " glyphs="@, sample.glyph_bitmaps);
    let line = with_number(line, " glyphs="@, sample.glyph_bitmaps);
    a_label_breaks_no_line(line, " chrome="@, sample.chrome_textures);
    let line = with_number(line, " chrome="@, sample.chrome_textures);
    a_label_breaks_no_line(line, " previews="@, sample.previews);
    let line = with_number(line, " previews="@, sample.previews);
    a_label_breaks_no_line(line, " parked="@, sample.parked_boards);
    let line = with_number(line, " parked="@, sample.parked_boards);
    a_label_breaks_no_line(line, " items="@, sample.items);
    let line = with_number(line, " items="@, sample.items);
    a_label_breaks_no_line(line, " drawn="@, sample.drawn);
    let line = with_number(line, " drawn="@, sample.drawn);
    a_label_breaks_no_line(line, " layouts="@, sample.text_layouts);
    let line = with_number(line, " layouts="@, sample.text_layouts);
    a_label_breaks_no_line(line, " ink="@, sample.ink_meshes);
    let line = with_number(line, " ink="@, sample.ink_meshes);
    a_label_breaks_no_line(line, " undo="@, sample.undo_depth);
    let line = with_number(line, " undo="@, sample.undo_depth);
    let line = line + " fps="@ + sample.fps@ + " zoom="@ + sample.zoom@ + "%"@;
    assert(line == sample_line(clock, sample));
    assert(line.last() == '%');
}

proof fn an_alarm_is_one_line(clock: Seq<char>, gb: u64, events: nat)
    requires
        unbroken(clock),
    ensures
        one_line(alarm_line(clock, gb, events)),
{
    reveal_strlit("ALARM   ");
    assert("ALARM   "@ =~= seq!['A', 'L', 'A', 'R', 'M', ' ', ' ', ' ']);
    assert(unbroken("ALARM   "@));
    reveal_strlit(" crossed ");
    assert(" crossed "@ =~= seq![' ', 'c', 'r', 'o', 's', 's', 'e', 'd', ' ']);
    assert(unbroken(" crossed "@));
    reveal_strlit(" GB — budget is 0.4 GB. Last ");
    assert(" GB — budget is 0.4 GB. Last "@ =~= seq![' ', 'G', 'B', ' ', '—', ' ', 'b', 'u', 'd', 'g', 'e', 't', ' ', 'i', 's', ' ', '0', '.', '4', ' ', 'G', 'B', '.', ' ', 'L', 'a', 's', 't', ' ']);
    assert(unbroken(" GB — budget is 0.4 GB. Last "@));
    reveal_strlit(" events follow.");
    assert(" events follow."@ =~= seq![' ', 'e', 'v', 'e', 'n', 't', 's', ' ', 'f', 'o', 'l', 'l', 'o', 'w', '.']);
    assert(unbroken(" events follow."@));
    a_number_reads_back(gb as nat);
    a_number_reads_back(events);
    assert(alarm_line(clock, gb, events).last() == '.');
}

proof fn what_is_remembered_is_one_line(log: Seq<Noted>)
    requires
        all_plain(log),
    ensures
        forall|k: int|
            0 <= k < recent_after(log).len() ==> one_line(#[trigger] recent_after(log)[k]),
    decreases log.len(),
{
    if log.len() > 0 {
        plain_before(log);
        what_is_remembered_is_one_line(log.drop_last());
        if let Noted::Event { clock, what } = log.last() {
            reveal_strlit(" ");
            assert(" "@ =~= seq![' ']);
            assert(unbroken(" "@));
            let event = clock + " "@ + what;
            assert(event.last() == (if what.len() > 0 {
                what.last()
            } else {
                ' '
            }));
            assert(one_line(event));
            let before = recent_after(log.drop_last());
            let now = recent_after(log);
            assert forall|k: int| 0 <= k < now.len() implies one_line(#[trigger] now[k]) by {
                if k < now.len() - 1 {
                    if before.len() == RECENT_EVENTS {
                        assert(now[k] == before[k + 1]);
                    } else {
                        assert(now[k] == before[k]);
                    }
                }
            }
        }
    }
}

proof fn a_note_is_in_lines(log: Seq<Noted>, noted: Noted, k: int)
    requires
        all_plain(log),
        plain(noted),
        0 <= k < lines_for(log, noted).len(),
    ensures
        one_line(lines_for(log, noted)[k]),
{
    let line = lines_for(log, noted)[k];
    match noted {
        Noted::Event { clock, what } => {
            reveal_strlit("EVENT   ");
            assert("EVENT   "@ =~= seq!['E', 'V', 'E', 'N', 'T', ' ', ' ', ' ']);
            assert(unbroken("EVENT   "@));
            reveal_strlit(" ");
            assert(" "@ =~= seq![' ']);
            assert(unbroken(" "@));
            assert(line.last() == (if what.len() > 0 {
                what.last()
            } else {
                ' '
            }));
        },
        Noted::Sample { clock, sample } => {
            let recent = recent_after(log);
            if k == 0 {
                a_sample_is_one_line(clock, sample);
            } else if k == 1 {
                an_alarm_is_one_line(clock, (sample.rss / GIGABYTE) as u64, recent.len());
            } else {
                what_is_remembered_is_one_line(log);
                reveal_strlit("LEADUP  ");
                assert("LEADUP  "@ =~= seq!['L', 'E', 'A', 'D', 'U', 'P', ' ', ' ']);
                assert(unbroken("LEADUP  "@));
                let event = recent[k - 2];
                assert(one_line(event));
                assert(line == "LEADUP  "@ + event);
                assert(line.last() == (if event.len() > 0 {
                    event.last()
                } else {
                    ' '
                }));
            }
        },
    }
}

proof fn a_record_is_in_lines(log: Seq<Noted>, k: int)
    requires
        all_plain(log),
        0 <= k < written(log).len(),
    ensures
        one_line(written(log)[k]),
    decreases log.len(),
{
    if log.len() > 0 {
        plain_before(log);
        let before = written(log.drop_last());
        if k < before.len() {
            a_record_is_in_lines(log.drop_last(), k);
        } else {
            a_note_is_in_lines(log.drop_last(), log.last(), k - before.len());
        }
    }
}

proof fn a_first_line_is_one_line(seconds: u64, pid: u64, version: Seq<char>)
    requires
        one_line(version),
    ensures
        one_line(first_line(seconds, pid, version)),
{
    reveal_strlit("START   epoch=");
    assert("START   epoch="@ =~= seq!['S', 'T', 'A', 'R', 'T', ' ', ' ', ' ', 'e', 'p', 'o', 'c', 'h', '=']);
    assert(unbroken("START   epoch="@));
    reveal_strlit(" pid=");
    assert(" pid="@ =~= seq![' ', 'p', 'i', 'd', '=']);
    assert(unbroken(" pid="@));
    reveal_strlit(" version=");
    assert(" version="@ =~= seq![' ', 'v', 'e', 'r', 's', 'i', 'o', 'n', '=']);
    assert(unbroken(" version="@));
    a_number_reads_back(seconds as nat);
    a_number_reads_back(pid as nat);
    let line = first_line(seconds, pid, version);
    assert(line.last() == (if version.len() > 0 {
        version.last()
    } else {
        '='
    }));
}

// ----- laws ----------------------------------------------------------------------------

/// Whether a recorder stands where a session's notes have brought it.
pub open spec fn stands_after(recorder: Recorder, log: Seq<Noted>) -> bool {
    &&& recorder.peak_rss == peak_after(log)
    &&& recorder.alarmed_gb == alarmed_after(log)
    &&& texts(recorder.recent@) == recent_after(log)
}

/// What a recorder writes is what its session noted: an event or a sample adds the lines
/// that the notes so far make of it, and leaves the recorder where the next one starts.
pub proof fn a_recorder_follows_its_session(
    before: Recorder,
    after: Recorder,
    lines: Seq<Seq<char>>,
    log: Seq<Noted>,
    noted: Noted,
)
    requires
        stands_after(before, log),
        match noted {
            Noted::Event { clock, what } => {
                &&& lines == seq!["EVENT   "@ + clock + " "@ + what]
                &&& texts(after.recent@) == remembered(
                    texts(before.recent@),
                    clock + " "@ + what,
                )
                &&& after == (Recorder { recent: after.recent, ..before })
            },
            Noted::Sample { clock, sample } => {
                &&& lines == sample_lines(
                    clock,
                    sample,
                    before.alarmed_gb,
                    texts(before.recent@),
                )
                &&& after.peak_rss == (if sample.rss > before.peak_rss {
                    sample.rss
                } else {
                    before.peak_rss
                })
                &&& after.alarmed_gb == (if crosses(sample.rss, before.alarmed_gb) {
                    (sample.rss / GIGABYTE) as u64
                } else {
                    before.alarmed_gb
                })
                &&& after.recent == before.recent
            },
        },
    ensures
        written(log.push(noted)) == written(log) + lines,
        stands_after(after, log.push(noted)),
{
    assert(log.push(noted).drop_last() =~= log);
}

/// A session that was killed, at any moment, is reported as killed and with its peak: the
/// record it left has no end, and states the highest memory sampled, in whole megabytes.
pub proof fn a_killed_session_is_reported_with_its_peak(
    seconds: u64,
    pid: u64,
    version: Seq<char>,
    log: Seq<Noted>,
)
    requires
        one_line(version),
        rss_at(version) < 0,
        all_plain(log),
    ensures
        ({
            let record = seq![first_line(seconds, pid, version)] + written(log);
            let lines = lines_of(text_of_record(record));
            &&& !has_exit(lines)
            &&& highest(lines) == peak_after(log) / MEGABYTE * MEGABYTE
        }),
{
    let first = seq![first_line(seconds, pid, version)];
    let record = first + written(log);
    assert forall|k: int| 0 <= k < record.len() implies one_line(#[trigger] record[k])
        && !"EXIT"@.is_prefix_of(record[k]) by {
        if k == 0 {
            a_first_line_is_one_line(seconds, pid, version);
            reveal_strlit("START   epoch=");
            assert(record[0][0] == 'S');
        } else {
            a_record_is_in_lines(log, k - 1);
            a_record_is_unfinished(log, k - 1);
        }
        an_unfinished_line_is_no_exit(record[k]);
    }
    a_record_reads_back(record);
    a_record_states_its_peak(log);
    a_first_line_states_nothing(seconds, pid, version);
    assert forall|i: int| 0 <= i < first.len() implies stated_rss(#[trigger] first[i]) is None by {
    }
    lines_that_state_nothing(first);
    the_higher_of_two(first, written(log));
}

/// A session that was finished is reported as clean, whatever else its record holds.
pub proof fn a_finished_session_is_reported_as_clean(
    record: Seq<Seq<char>>,
    clock: Seq<char>,
    reason: Seq<char>,
    peak: u64,
)
    requires
        forall|k: int| 0 <= k < record.len() ==> one_line(#[trigger] record[k]),
        unbroken(clock),
        unbroken(reason),
    ensures
        has_exit(lines_of(text_of_record(record.push(finish_line(clock, reason, peak))))),
{
    reveal_strlit("EXIT    ");
    assert("EXIT    "@ =~= seq!['E', 'X', 'I', 'T', ' ', ' ', ' ', ' ']);
    assert(unbroken("EXIT    "@));
    reveal_strlit(" ");
    assert(" "@ =~= seq![' ']);
    assert(unbroken(" "@));
    reveal_strlit(" peak_rss=");
    assert(" peak_rss="@ =~= seq![' ', 'p', 'e', 'a', 'k', '_', 'r', 's', 's', '=']);
    assert(unbroken(" peak_rss="@));
    reveal_strlit("M");
    assert("M"@ =~= seq!['M']);
    assert(unbroken("M"@));
    let last = finish_line(clock, reason, peak);
    let all = record.push(last);
    a_label_breaks_no_line(
        "EXIT    "@ + clock + " "@ + reason,
        " peak_rss="@,
        (peak / MEGABYTE) as u64,
    );
    assert(last.last() == 'M');
    assert forall|k: int| 0 <= k < all.len() implies one_line(#[trigger] all[k]) by {
        if k < record.len() {
            assert(one_line(record[k]));
        }
    }
    a_record_reads_back(all);
    reveal_strlit("EXIT");
    assert(last.subrange(0, 4) =~= "EXIT"@);
    assert("EXIT"@.is_prefix_of(all[record.len() as int]));
}

} // verus!
