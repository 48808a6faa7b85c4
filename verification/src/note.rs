//! Note nodes: which file one points at, and how its footer says so.

use vstd::prelude::*;

use crate::text::{after_last, past_last, the_last_one_parts_the_text};

verus! {

/// A part of a note that can be pressed.
#[derive(Clone, Copy, Debug, PartialEq, Eq, Structural)]
pub enum NotePart {
    Title,
    Body,
    /// The file name and scope chip. Pressing it reveals the file.
    Footer,
}

/// The part of a note that a press on these of its parts goes to.
pub open spec fn part_of(too_small: bool, title: bool, footer: bool, body: bool) -> Option<
    NotePart,
> {
    if too_small {
        None
    } else if title {
        Some(NotePart::Title)
    } else if footer {
        Some(NotePart::Footer)
    } else if body {
        Some(NotePart::Body)
    } else {
        None
    }
}

/// The part of a note under a press, given which of its parts the press is inside. A note
/// too small to show its parts has none to press. The footer is asked before the body.
pub fn hit(too_small: bool, title: bool, footer: bool, body: bool) -> (part: Option<NotePart>)
    ensures
        part == part_of(too_small, title, footer, body),
        part == (if too_small {
            None
        } else if title {
            Some(NotePart::Title)
        } else if footer {
            Some(NotePart::Footer)
        } else if body {
            Some(NotePart::Body)
        } else {
            None
        }),
{
    if too_small {
        None
    } else if title {
        Some(NotePart::Title)
    } else if footer {
        Some(NotePart::Footer)
    } else if body {
        Some(NotePart::Body)
    } else {
        None
    }
}

/// Who a note is for.
#[derive(Clone, Debug)]
pub enum NoteScope {
    Shared,
    /// One agent's own.
    Private { agent: String },
}

/// The short label for a note's scope.
pub fn scope_label(scope: &NoteScope) -> (label: &'static str)
    ensures
        label@ == (match *scope {
            NoteScope::Shared => "Shared"@,
            NoteScope::Private { .. } => "Private"@,
        }),
{
    match scope {
        NoteScope::Shared => "Shared",
        NoteScope::Private { .. } => "Private",
    }
}

/// The last component of a path, whichever of the two separators it is written with.
pub open spec fn last_name(path: Seq<char>) -> Seq<char> {
    after_last(after_last(path, '/'), '\\')
}

/// The file's own name.
pub fn file_name(path: &str) -> (name: String)
    ensures
        name@ == last_name(path@),
{
    let tail = past_last(path, '/');
    past_last(tail.as_str(), '\\')
}

proof fn after_last_has_none(text: Seq<char>, c: char, k: int)
    requires
        0 <= k < after_last(text, c).len(),
    ensures
        after_last(text, c)[k] != c,
        after_last(text, c).len() <= text.len(),
        after_last(text, c)[k] == text[text.len() - after_last(text, c).len() + k],
    decreases text.len(),
{
    if text.len() > 0 && text.last() != c {
        let rest = after_last(text.drop_last(), c);
        if k < rest.len() {
            after_last_has_none(text.drop_last(), c, k);
        } else if rest.len() > 0 {
            after_last_has_none(text.drop_last(), c, 0);
        }
    }
}

/// A file's name holds no separator of either kind, so it never is a path.
pub proof fn a_file_name_is_no_path(path: Seq<char>, k: int)
    requires
        0 <= k < last_name(path).len(),
    ensures
        last_name(path)[k] != '/',
        last_name(path)[k] != '\\',
{
    let tail = after_last(path, '/');
    after_last_has_none(tail, '\\', k);
    let at = tail.len() - last_name(path).len() + k;
    after_last_has_none(path, '/', at);
}

/// A file's name is what stands behind the last separator of its path, whichever kind that is,
/// and a name without one is all of it.
pub proof fn a_file_name_stands_behind_its_separator(front: Seq<char>, name: Seq<char>)
    requires
        !name.contains('/'),
        !name.contains('\\'),
    ensures
        last_name(front + seq!['/'] + name) == name,
        last_name(front + seq!['\\'] + name) == name,
        last_name(name) == name,
{
    the_last_one_parts_the_text(front, '/', name);
    the_last_one_parts_the_text(front, '\\', name);
    assert(front.push('/') + name =~= front + seq!['/'] + name);
    let back = front.push('\\') + name;
    assert(back =~= front + seq!['\\'] + name);
    parted_from_behind(front.push('\\'), name, '/');
    let tail = after_last(front.push('\\'), '/');
    assert(tail.last() == '\\');
    the_last_one_parts_the_text(tail.drop_last(), '\\', name);
    assert(tail.drop_last().push('\\') + name =~= tail + name);
}

proof fn parted_from_behind(front: Seq<char>, back: Seq<char>, c: char)
    requires
        !back.contains(c),
    ensures
        after_last(front + back, c) == after_last(front, c) + back,
    decreases back.len(),
{
    if back.len() > 0 {
        let less = back.drop_last();
        assert(back.contains(back.last()));
        assert forall|k: int| 0 <= k < less.len() implies less[k] != c by {
            assert(back.contains(back[k]));
        }
        parted_from_behind(front, less, c);
        assert((front + back).drop_last() =~= front + less);
        assert(after_last(front, c) + back =~= (after_last(front, c) + less).push(back.last()));
    } else {
        assert(front + back =~= front);
        assert(after_last(front, c) + back =~= after_last(front, c));
    }
}

/// A press on a note goes to one part of it: to the title where it is on that, else to the
/// footer, else to the body; a note too small to show them has none.
pub proof fn a_press_goes_to_one_part(title: bool, footer: bool, body: bool)
    ensures
        part_of(true, title, footer, body) is None,
        title ==> part_of(false, title, footer, body) == Some(NotePart::Title),
        !title && footer ==> part_of(false, title, footer, body) == Some(NotePart::Footer),
        !title && !footer && body ==> part_of(false, title, footer, body) == Some(NotePart::Body),
        !title && !footer && !body ==> part_of(false, title, footer, body) is None,
{
}

} // verus!
